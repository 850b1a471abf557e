//! Tray-icon image rasterizer.
//!
//! The status of nine workspaces is drawn as a grid of three by three cells
//! into an RGBA buffer, in row-major order from the top-left corner:
//!
//! ```text
//!   ┌──┬──┬──┐    each cell  = 10 × 10 px
//!   │00│01│02│    gap        = 1 px (between cells)
//!   ├──┼──┼──┤    full image = 32 × 32 px
//!   │03│04│05│
//!   ├──┼──┼──┤    border (full-screen) = 2 px ring on top of the fill
//!   │06│07│08│
//!   └──┴──┴──┘
//! ```

use vstd::prelude::*;

verus! {

/// Side length of the rendered tray icon, in pixels.
pub const ICON_SIZE: u32 = 32;

/// Side length of an individual cell, in pixels.
pub const CELL_SIZE: u32 = 10;

/// Gap between adjacent cells, in pixels. Three cells and two gaps fill the
/// whole side of the icon.
pub const CELL_GAP: u32 = 1;

/// Thickness of the full-screen indicator border, in pixels.
pub const BORDER_THICKNESS: u32 = 2;

/// Bright blue fill for the focused workspace.
pub const COLOR_FOCUSED: [u8; 4] = [0x2E, 0x9B, 0xFF, 0xFF];

/// Gray fill for a non-empty (but not focused) workspace.
pub const COLOR_NON_EMPTY: [u8; 4] = [0x80, 0x80, 0x80, 0xFF];

/// Yellow border drawn on top of cells that contain a full-screen window.
pub const COLOR_BORDER_FS: [u8; 4] = [0xFF, 0xD5, 0x00, 0xFF];

/// Outer border of the icon of the focused monitor.
pub const COLOR_ACTIVE_MONITOR: [u8; 4] = COLOR_FOCUSED;

/// Outer border of the icon of a monitor that is not focused.
pub const COLOR_INACTIVE_MONITOR: [u8; 4] = COLOR_NON_EMPTY;

/// Thickness of the outer border of an icon, in pixels.
pub const MONITOR_BORDER: u32 = 1;

/// Fully transparent pixel.
pub const COLOR_TRANSPARENT: [u8; 4] = [0, 0, 0, 0];

/// Per-cell visual state. The flags are independent and compose: a cell can be
/// focused and host a full-screen window, in which case it is filled blue and
/// gets a yellow border on top.
#[derive(Copy, Clone, Eq, PartialEq, Debug, Structural)]
pub struct CellState {
    /// The workspace at this cell is the focused workspace on its monitor.
    pub focused: bool,
    /// The workspace contains at least one window.
    pub non_empty: bool,
    /// The workspace contains a full-screen or maximized container.
    pub full_screen: bool,
    /// How many windows the workspace contains, at most 255.
    pub window_count: u8,
}

impl CellState {
    /// The state of an empty workspace, and of a workspace that does not exist.
    #[verifier::allow_in_spec]
    pub fn empty() -> CellState
        returns
            (CellState { focused: false, non_empty: false, full_screen: false, window_count: 0 }),
    {
        CellState { focused: false, non_empty: false, full_screen: false, window_count: 0 }
    }
}

impl Default for CellState {
    fn default() -> (cell: CellState)
        ensures
            cell == CellState::empty(),
    {
        CellState::empty()
    }
}

/// The colors that an icon is drawn with.
#[derive(Copy, Clone, Eq, PartialEq, Debug)]
pub struct Theme {
    pub focused: [u8; 4],
    pub non_empty_1: [u8; 4],
    pub non_empty_2: [u8; 4],
    pub non_empty_3_plus: [u8; 4],
    pub full_screen_border: [u8; 4],
    pub active_monitor_border: [u8; 4],
    pub inactive_monitor_border: [u8; 4],
    pub empty: [u8; 4],
}

impl Theme {
    /// The colors in which icons are drawn where nothing else is asked for.
    pub open spec fn standard() -> Theme {
        Theme {
            focused: COLOR_FOCUSED,
            non_empty_1: COLOR_NON_EMPTY,
            non_empty_2: COLOR_NON_EMPTY,
            non_empty_3_plus: COLOR_NON_EMPTY,
            full_screen_border: COLOR_BORDER_FS,
            active_monitor_border: COLOR_ACTIVE_MONITOR,
            inactive_monitor_border: COLOR_INACTIVE_MONITOR,
            empty: COLOR_TRANSPARENT,
        }
    }

    /// Whether two themes have the same colors.
    pub fn same(&self, other: &Theme) -> (same: bool)
        ensures
            same == (*self == *other),
    {
        same_color(self.focused, other.focused) && same_color(self.non_empty_1, other.non_empty_1)
            && same_color(self.non_empty_2, other.non_empty_2) && same_color(
            self.non_empty_3_plus,
            other.non_empty_3_plus,
        ) && same_color(self.full_screen_border, other.full_screen_border) && same_color(
            self.active_monitor_border,
            other.active_monitor_border,
        ) && same_color(self.inactive_monitor_border, other.inactive_monitor_border) && same_color(
            self.empty,
            other.empty,
        )
    }
}

impl Default for Theme {
    fn default() -> (theme: Theme)
        ensures
            theme == Theme::standard(),
    {
        Theme {
            focused: COLOR_FOCUSED,
            non_empty_1: COLOR_NON_EMPTY,
            non_empty_2: COLOR_NON_EMPTY,
            non_empty_3_plus: COLOR_NON_EMPTY,
            full_screen_border: COLOR_BORDER_FS,
            active_monitor_border: COLOR_ACTIVE_MONITOR,
            inactive_monitor_border: COLOR_INACTIVE_MONITOR,
            empty: COLOR_TRANSPARENT,
        }
    }
}

fn same_color(a: [u8; 4], b: [u8; 4]) -> (same: bool)
    ensures
        same == (a == b),
{
    let same = a[0] == b[0] && a[1] == b[1] && a[2] == b[2] && a[3] == b[3];
    proof {
        if same {
            assert(a =~= b);
        }
    }
    same
}

// ---------------------------------------------------------------------------
// What an icon looks like
// ---------------------------------------------------------------------------

/// The column of the pixel that byte `k` of an icon belongs to.
pub open spec fn pixel_x(k: int) -> int {
    (k / 4) % 32
}

/// The row of the pixel that byte `k` of an icon belongs to.
pub open spec fn pixel_y(k: int) -> int {
    k / 128
}

/// An icon after every pixel of an area has been set to a color. What lies
/// behind the last pixel of the icon stays as it was.
pub open spec fn painted(
    before: Seq<u8>,
    area: spec_fn(int, int) -> bool,
    color: [u8; 4],
) -> Seq<u8> {
    Seq::new(
        before.len(),
        |k: int|
            if k < 4096 && area(pixel_x(k), pixel_y(k)) {
                color[k % 4]
            } else {
                before[k]
            },
    )
}

/// The pixels of a rectangle, without the right and the bottom edge.
pub open spec fn rectangle(x0: int, y0: int, x1: int, y1: int) -> spec_fn(int, int) -> bool {
    |x: int, y: int| x0 <= x < x1 && y0 <= y < y1
}

/// The pixels of a rectangle that lie less than `thickness` from its edge.
pub open spec fn ring(
    x0: int,
    y0: int,
    x1: int,
    y1: int,
    thickness: int,
) -> spec_fn(int, int) -> bool {
    |x: int, y: int|
        x0 <= x < x1 && y0 <= y < y1 && (y < y0 + thickness || y >= y1 - thickness || x < x0
            + thickness || x >= x1 - thickness)
}

/// The fill of a cell: focused beats non-empty, and the shade of a non-empty
/// cell tells one, two, and three or more windows apart.
pub open spec fn fill_color(cell: CellState, theme: Theme) -> [u8; 4] {
    if cell.focused {
        theme.focused
    } else if !cell.non_empty {
        theme.empty
    } else if cell.window_count <= 1 {
        theme.non_empty_1
    } else if cell.window_count == 2 {
        theme.non_empty_2
    } else {
        theme.non_empty_3_plus
    }
}

/// The color of the pixel at column `dx` and row `dy` of a cell.
pub open spec fn cell_color(cell: CellState, theme: Theme, dx: int, dy: int) -> [u8; 4] {
    if cell.full_screen && (dx < 2 || dx >= 8 || dy < 2 || dy >= 8) {
        theme.full_screen_border
    } else {
        fill_color(cell, theme)
    }
}

/// The color of a pixel of the grid: that of its cell, or transparent between
/// the cells.
pub open spec fn grid_color(cells: Seq<CellState>, theme: Theme, x: int, y: int) -> [u8; 4] {
    if x % 11 < 10 && y % 11 < 10 {
        cell_color(cells[(y / 11) * 3 + x / 11], theme, x % 11, y % 11)
    } else {
        COLOR_TRANSPARENT
    }
}

/// The bytes of the drawn grid.
pub open spec fn grid_image(cells: Seq<CellState>, theme: Theme) -> Seq<u8> {
    Seq::new(4096, |k: int| grid_color(cells, theme, pixel_x(k), pixel_y(k))[k % 4])
}

/// An icon after its outer border has been drawn.
pub open spec fn bordered(before: Seq<u8>, active: bool, theme: Theme) -> Seq<u8> {
    painted(
        before,
        ring(0, 0, 32, 32, 1),
        if active {
            theme.active_monitor_border
        } else {
            theme.inactive_monitor_border
        },
    )
}

// ---------------------------------------------------------------------------
// Drawing
// ---------------------------------------------------------------------------

fn put_pixel(pixels: &mut [u8], x: u32, y: u32, color: [u8; 4])
    requires
        old(pixels)@.len() >= 4096,
        x < 32,
        y < 32,
    ensures
        final(pixels)@ == painted(
            old(pixels)@,
            |a: int, b: int| a == x && b == y,
            color,
        ),
{
    let idx: usize = ((y * ICON_SIZE + x) * 4) as usize;
    pixels[idx] = color[0];
    pixels[idx + 1] = color[1];
    pixels[idx + 2] = color[2];
    pixels[idx + 3] = color[3];
    proof {
        assert(pixels@ =~= painted(old(pixels)@, |a: int, b: int| a == x && b == y, color));
    }
}

/// Sets every pixel of a rectangle to a color.
fn fill_rect(pixels: &mut [u8], x0: u32, y0: u32, x1: u32, y1: u32, color: [u8; 4])
    requires
        old(pixels)@.len() >= 4096,
        x0 <= x1 <= 32,
        y0 <= y1 <= 32,
    ensures
        final(pixels)@ == painted(
            old(pixels)@,
            rectangle(x0 as int, y0 as int, x1 as int, y1 as int),
            color,
        ),
{
    let ghost before = pixels@;
    let mut y: u32 = y0;
    proof {
        assert(pixels@ =~= painted(
            before,
            rectangle(x0 as int, y0 as int, x1 as int, y as int),
            color,
        ));
    }
    while y < y1
        invariant
            before.len() >= 4096,
            x0 <= x1 <= 32,
            y0 <= y <= y1 <= 32,
            pixels@ == painted(
                before,
                rectangle(x0 as int, y0 as int, x1 as int, y as int),
                color,
            ),
        decreases y1 - y,
    {
        let mut x: u32 = x0;
        let ghost row = pixels@;
        proof {
            assert(pixels@ =~= painted(
                row,
                rectangle(x0 as int, y as int, x as int, y + 1),
                color,
            ));
        }
        while x < x1
            invariant
                row.len() >= 4096,
                x0 <= x <= x1 <= 32,
                y < 32,
                pixels@ == painted(row, rectangle(x0 as int, y as int, x as int, y + 1), color),
            decreases x1 - x,
        {
            put_pixel(pixels, x, y, color);
            proof {
                assert(pixels@ =~= painted(
                    row,
                    rectangle(x0 as int, y as int, x + 1, y + 1),
                    color,
                ));
            }
            x += 1;
        }
        proof {
            assert(pixels@ =~= painted(
                before,
                rectangle(x0 as int, y0 as int, x1 as int, y + 1),
                color,
            ));
        }
        y += 1;
    }
}

/// Sets the pixels of a rectangle that lie near its edge to a color.
fn draw_border(
    pixels: &mut [u8],
    x0: u32,
    y0: u32,
    x1: u32,
    y1: u32,
    thickness: u32,
    color: [u8; 4],
)
    requires
        old(pixels)@.len() >= 4096,
        x0 <= x1 <= 32,
        y0 <= y1 <= 32,
        thickness <= x1,
        thickness <= y1,
    ensures
        final(pixels)@ == painted(
            old(pixels)@,
            ring(x0 as int, y0 as int, x1 as int, y1 as int, thickness as int),
            color,
        ),
{
    let ghost before = pixels@;
    let ghost area = ring(x0 as int, y0 as int, x1 as int, y1 as int, thickness as int);
    let mut y: u32 = y0;
    proof {
        assert(pixels@ =~= painted(before, |a: int, b: int| area(a, b) && b < y, color));
    }
    while y < y1
        invariant
            before.len() >= 4096,
            x0 <= x1 <= 32,
            y0 <= y1 <= 32,
            thickness <= x1,
            thickness <= y1,
            y0 <= y <= y1,
            area == ring(x0 as int, y0 as int, x1 as int, y1 as int, thickness as int),
            pixels@ == painted(before, |a: int, b: int| area(a, b) && b < y, color),
        decreases y1 - y,
    {
        let mut x: u32 = x0;
        let ghost row = pixels@;
        proof {
            assert(pixels@ =~= painted(row, |a: int, b: int| area(a, b) && b == y && a < x, color));
        }
        while x < x1
            invariant
                row.len() >= 4096,
                x0 <= x1 <= 32,
                y0 <= y1 <= 32,
                thickness <= x1,
                thickness <= y1,
                x0 <= x <= x1,
                y0 <= y < y1,
                area == ring(x0 as int, y0 as int, x1 as int, y1 as int, thickness as int),
                pixels@ == painted(row, |a: int, b: int| area(a, b) && b == y && a < x, color),
            decreases x1 - x,
        {
            let on_top = y < y0 + thickness;
            let on_bottom = y >= y1 - thickness;
            let on_left = x < x0 + thickness;
            let on_right = x >= x1 - thickness;
            if on_top || on_bottom || on_left || on_right {
                put_pixel(pixels, x, y, color);
            }
            proof {
                assert(pixels@ =~= painted(
                    row,
                    |a: int, b: int| area(a, b) && b == y && a < x + 1,
                    color,
                ));
            }
            x += 1;
        }
        proof {
            assert(pixels@ =~= painted(before, |a: int, b: int| area(a, b) && b < y + 1, color));
        }
        y += 1;
    }
    proof {
        assert(pixels@ =~= painted(before, area, color));
    }
}

/// Rasterizes a grid of three by three cells with the standard colors.
///
/// The buffer is in row-major order from the top-left corner, four bytes
/// (red, green, blue, alpha) for each of the `ICON_SIZE * ICON_SIZE` pixels.
pub fn render_grid(cells: &[CellState; 9]) -> (pixels: Vec<u8>)
    ensures
        pixels@ == grid_image(cells@, Theme::standard()),
{
    render_grid_with_theme(cells, &Theme::default())
}

/// Rasterizes a grid of three by three cells with the colors of a theme.
pub fn render_grid_with_theme(cells: &[CellState; 9], theme: &Theme) -> (pixels: Vec<u8>)
    ensures
        pixels@ == grid_image(cells@, *theme),
{
    let mut pixels: Vec<u8> = vec![0u8; 4096];
    let mut i: usize = 0;
    while i < 9
        invariant
            i <= 9,
            pixels@.len() == 4096,
            forall|k: int|
                0 <= k < 4096 ==> pixels@[k] == (if (pixel_y(k) / 11) * 3 + pixel_x(k) / 11 < i {
                    grid_color(cells@, *theme, pixel_x(k), pixel_y(k))[k % 4]
                } else {
                    0
                }),
        decreases 9 - i,
    {
        let cell: CellState = cells[i];
        let col: u32 = (i % 3) as u32;
        let row: u32 = (i / 3) as u32;
        let x0: u32 = col * (CELL_SIZE + CELL_GAP);
        let y0: u32 = row * (CELL_SIZE + CELL_GAP);
        let x1: u32 = x0 + CELL_SIZE;
        let y1: u32 = y0 + CELL_SIZE;
        let fill: [u8; 4] = if cell.focused {
            theme.focused
        } else if !cell.non_empty {
            theme.empty
        } else if cell.window_count <= 1 {
            theme.non_empty_1
        } else if cell.window_count == 2 {
            theme.non_empty_2
        } else {
            theme.non_empty_3_plus
        };
        let ghost before = pixels@;
        fill_rect(pixels.as_mut_slice(), x0, y0, x1, y1, fill);
        if cell.full_screen {
            draw_border(
                pixels.as_mut_slice(),
                x0,
                y0,
                x1,
                y1,
                BORDER_THICKNESS,
                theme.full_screen_border,
            );
        }
        proof {
            assert forall|k: int| 0 <= k < 4096 implies pixels@[k] == (if (pixel_y(k) / 11) * 3
                + pixel_x(k) / 11 < i + 1 {
                grid_color(cells@, *theme, pixel_x(k), pixel_y(k))[k % 4]
            } else {
                0
            }) by {
                lemma_cell_of_pixel(pixel_x(k), pixel_y(k), i as int);
            }
        }
        i += 1;
    }
    proof {
        assert(pixels@ =~= grid_image(cells@, *theme));
    }
    pixels
}

/// The pixels of cell `i` are those of its rectangle.
proof fn lemma_cell_of_pixel(x: int, y: int, i: int)
    requires
        0 <= x < 32,
        0 <= y < 32,
        0 <= i < 9,
    ensures
        ((y / 11) * 3 + x / 11 == i) == (x / 11 == i % 3 && y / 11 == i / 3),
        (x / 11 == i % 3 && x % 11 < 10) == ((i % 3) * 11 <= x < (i % 3) * 11 + 10),
        (y / 11 == i / 3 && y % 11 < 10) == ((i / 3) * 11 <= y < (i / 3) * 11 + 10),
{
}

/// Overlays the outer border in the standard colors.
pub fn paint_monitor_border(pixels: &mut [u8], active: bool)
    requires
        old(pixels)@.len() >= 4096,
    ensures
        final(pixels)@ == bordered(old(pixels)@, active, Theme::standard()),
{
    paint_monitor_border_with_theme(pixels, active, &Theme::default());
}

/// Overlays the outer border of an icon on its already drawn pixels: a ring of
/// `MONITOR_BORDER` pixels on the outermost rim, in the color for the focused
/// monitor or in that for the other ones.
pub fn paint_monitor_border_with_theme(pixels: &mut [u8], active: bool, theme: &Theme)
    requires
        old(pixels)@.len() >= 4096,
    ensures
        final(pixels)@ == bordered(old(pixels)@, active, *theme),
{
    let color: [u8; 4] = if active {
        theme.active_monitor_border
    } else {
        theme.inactive_monitor_border
    };
    draw_border(pixels, 0, 0, ICON_SIZE, ICON_SIZE, MONITOR_BORDER, color);
}

// ---------------------------------------------------------------------------
// Laws
// ---------------------------------------------------------------------------

/// The color of a pixel of an icon.
pub open spec fn pixel_at(image: Seq<u8>, x: int, y: int) -> Seq<u8> {
    image.subrange((y * 32 + x) * 4, (y * 32 + x) * 4 + 4)
}

/// Byte `c` of a pixel is the `c`-th channel of that pixel.
proof fn lemma_byte_of_pixel(x: int, y: int, c: int)
    requires
        0 <= x < 32,
        0 <= y < 32,
        0 <= c < 4,
    ensures
        0 <= (y * 32 + x) * 4 + c < 4096,
        pixel_x((y * 32 + x) * 4 + c) == x,
        pixel_y((y * 32 + x) * 4 + c) == y,
        ((y * 32 + x) * 4 + c) % 4 == c,
{
}

proof fn lemma_byte_of_grid(cells: Seq<CellState>, theme: Theme, x: int, y: int, c: int)
    requires
        0 <= x < 32,
        0 <= y < 32,
        0 <= c < 4,
    ensures
        grid_image(cells, theme)[(y * 32 + x) * 4 + c] == grid_color(cells, theme, x, y)[c],
{
    let k = (y * 32 + x) * 4 + c;
    lemma_byte_of_pixel(x, y, c);
    assert(grid_image(cells, theme)[k] == grid_color(cells, theme, pixel_x(k), pixel_y(k))[k % 4]);
}

/// The bytes of a pixel of the drawn grid are the color of that pixel.
#[verifier::spinoff_prover]
pub proof fn law_pixel_of_grid(cells: Seq<CellState>, theme: Theme, x: int, y: int)
    requires
        0 <= x < 32,
        0 <= y < 32,
    ensures
        pixel_at(grid_image(cells, theme), x, y) == grid_color(cells, theme, x, y)@,
{
    let base = (y * 32 + x) * 4;
    let image = grid_image(cells, theme);
    let color = grid_color(cells, theme, x, y);
    lemma_byte_of_grid(cells, theme, x, y, 0);
    lemma_byte_of_grid(cells, theme, x, y, 1);
    lemma_byte_of_grid(cells, theme, x, y, 2);
    lemma_byte_of_grid(cells, theme, x, y, 3);
    lemma_same_pixel(image, base, color);
}

/// Four bytes that are those of a color are that color.
proof fn lemma_same_pixel(image: Seq<u8>, base: int, color: [u8; 4])
    requires
        0 <= base,
        base + 4 <= image.len(),
        image[base] == color[0],
        image[base + 1] == color[1],
        image[base + 2] == color[2],
        image[base + 3] == color[3],
    ensures
        image.subrange(base, base + 4) == color@,
{
    assert(image.subrange(base, base + 4) =~= color@);
}

/// The gaps between the cells stay transparent, whatever the cells show.
pub proof fn law_gaps_stay_transparent(cells: Seq<CellState>, theme: Theme, x: int, y: int)
    requires
        0 <= x < 32,
        0 <= y < 32,
        x == 10 || x == 21 || y == 10 || y == 21,
    ensures
        grid_color(cells, theme, x, y) == COLOR_TRANSPARENT,
{
}

/// The full-screen border lies inside its cell: a pixel depends on no cell but
/// its own.
pub proof fn law_cells_do_not_overlap(
    cells: Seq<CellState>,
    others: Seq<CellState>,
    theme: Theme,
    x: int,
    y: int,
)
    requires
        0 <= x < 32,
        0 <= y < 32,
        cells[(y / 11) * 3 + x / 11] == others[(y / 11) * 3 + x / 11],
    ensures
        grid_color(cells, theme, x, y) == grid_color(others, theme, x, y),
{
}

/// An empty workspace and a workspace that does not exist look the same: a cell
/// that is filled with the color for empty cells and has no border.
pub proof fn law_empty_cells_show_the_empty_color(
    cells: Seq<CellState>,
    theme: Theme,
    x: int,
    y: int,
)
    requires
        0 <= x < 32,
        0 <= y < 32,
        x % 11 < 10,
        y % 11 < 10,
        cells[(y / 11) * 3 + x / 11] == CellState::empty(),
    ensures
        grid_color(cells, theme, x, y) == theme.empty,
{
}

/// The outer border changes the rim and nothing else, and both borders have
/// the same shape.
pub proof fn law_border_paints_the_rim_only(image: Seq<u8>, active: bool, theme: Theme, x: int, y: int)
    requires
        image.len() == 4096,
        0 <= x < 32,
        0 <= y < 32,
    ensures
        pixel_at(bordered(image, active, theme), x, y) == (if x == 0 || y == 0 || x == 31 || y
            == 31 {
            if active {
                theme.active_monitor_border@
            } else {
                theme.inactive_monitor_border@
            }
        } else {
            pixel_at(image, x, y)
        }),
{
    let base = (y * 32 + x) * 4;
    let after = bordered(image, active, theme);
    let color = if active {
        theme.active_monitor_border
    } else {
        theme.inactive_monitor_border
    };
    assert forall|c: int| 0 <= c < 4 implies #[trigger] after[base + c] == (if x == 0 || y == 0 || x
        == 31 || y == 31 {
        color[c]
    } else {
        image[base + c]
    }) by {
        lemma_byte_of_pixel(x, y, c);
    }
    if x == 0 || y == 0 || x == 31 || y == 31 {
        assert(pixel_at(after, x, y) =~= color@);
    } else {
        assert(pixel_at(after, x, y) =~= pixel_at(image, x, y));
    }
}

/// The first byte of the pixel at column `dx` and row `dy` of cell `i`: the cells
/// stand in three rows of three, ten pixels wide and high and one pixel apart.
pub open spec fn byte_in_cell(i: int, dx: int, dy: int) -> int {
    (((i / 3) * 11 + dy) * 32 + (i % 3) * 11 + dx) * 4
}

proof fn lemma_pixel_in_cell(cells: Seq<CellState>, theme: Theme, i: int, dx: int, dy: int)
    requires
        0 <= i < 9,
        0 <= dx < 10,
        0 <= dy < 10,
    ensures
        0 <= byte_in_cell(i, dx, dy) <= 4092,
        grid_image(cells, theme).len() == 4096,
        grid_image(cells, theme).subrange(byte_in_cell(i, dx, dy), byte_in_cell(i, dx, dy) + 4)
            == cell_color(cells[i], theme, dx, dy)@,
{
    let x = (i % 3) * 11 + dx;
    let y = (i / 3) * 11 + dy;
    assert(0 <= x < 32 && 0 <= y < 32);
    assert(x / 11 == i % 3 && x % 11 == dx);
    assert(y / 11 == i / 3 && y % 11 == dy);
    assert((y / 11) * 3 + x / 11 == i);
    law_pixel_of_grid(cells, theme, x, y);
}

/// A focused workspace has the color for it, whatever else is true of it, but for
/// the border of a full-screen one.
pub proof fn law_focused_cells_are_filled(
    cells: Seq<CellState>,
    theme: Theme,
    i: int,
    dx: int,
    dy: int,
)
    requires
        0 <= i < 9,
        0 <= dx < 10,
        0 <= dy < 10,
        cells[i].focused,
        !cells[i].full_screen || (2 <= dx < 8 && 2 <= dy < 8),
    ensures
        ({
            let at = byte_in_cell(i, dx, dy);
            grid_image(cells, theme).subrange(at, at + 4) == theme.focused@
        }),
{
    lemma_pixel_in_cell(cells, theme, i, dx, dy);
}

/// A workspace with windows that is not focused has the shade for one window, for
/// two, or for more, but for the border of a full-screen one.
pub proof fn law_occupied_cells_are_shaded(
    cells: Seq<CellState>,
    theme: Theme,
    i: int,
    dx: int,
    dy: int,
)
    requires
        0 <= i < 9,
        0 <= dx < 10,
        0 <= dy < 10,
        !cells[i].focused,
        cells[i].non_empty,
        !cells[i].full_screen || (2 <= dx < 8 && 2 <= dy < 8),
    ensures
        ({
            let at = byte_in_cell(i, dx, dy);
            let pixel = grid_image(cells, theme).subrange(at, at + 4);
            &&& cells[i].window_count <= 1 ==> pixel == theme.non_empty_1@
            &&& cells[i].window_count == 2 ==> pixel == theme.non_empty_2@
            &&& cells[i].window_count >= 3 ==> pixel == theme.non_empty_3_plus@
        }),
{
    lemma_pixel_in_cell(cells, theme, i, dx, dy);
}

/// A workspace without windows that is not focused has the color for it, but for
/// the border of a full-screen one.
pub proof fn law_vacant_cells_are_empty(
    cells: Seq<CellState>,
    theme: Theme,
    i: int,
    dx: int,
    dy: int,
)
    requires
        0 <= i < 9,
        0 <= dx < 10,
        0 <= dy < 10,
        !cells[i].focused,
        !cells[i].non_empty,
        !cells[i].full_screen || (2 <= dx < 8 && 2 <= dy < 8),
    ensures
        ({
            let at = byte_in_cell(i, dx, dy);
            grid_image(cells, theme).subrange(at, at + 4) == theme.empty@
        }),
{
    lemma_pixel_in_cell(cells, theme, i, dx, dy);
}

/// A workspace with a full-screen window has a border of two pixels inside its
/// cell, on top of every fill.
pub proof fn law_full_screen_cells_have_a_border(
    cells: Seq<CellState>,
    theme: Theme,
    i: int,
    dx: int,
    dy: int,
)
    requires
        0 <= i < 9,
        0 <= dx < 10,
        0 <= dy < 10,
        cells[i].full_screen,
        dx < 2 || dx >= 8 || dy < 2 || dy >= 8,
    ensures
        ({
            let at = byte_in_cell(i, dx, dy);
            grid_image(cells, theme).subrange(at, at + 4) == theme.full_screen_border@
        }),
{
    lemma_pixel_in_cell(cells, theme, i, dx, dy);
}

/// The pixels between the cells are transparent, and there are no others: an icon
/// has 32 by 32 pixels of four bytes.
pub proof fn law_pixels_between_cells_are_transparent(
    cells: Seq<CellState>,
    theme: Theme,
    x: int,
    y: int,
)
    requires
        0 <= x < 32,
        0 <= y < 32,
        x == 10 || x == 21 || y == 10 || y == 21,
    ensures
        grid_image(cells, theme).len() == 4096,
        grid_image(cells, theme).subrange((y * 32 + x) * 4, (y * 32 + x) * 4 + 4) == seq![
            0u8,
            0u8,
            0u8,
            0u8,
        ],
{
    law_pixel_of_grid(cells, theme, x, y);
    assert(COLOR_TRANSPARENT@ =~= seq![0u8, 0u8, 0u8, 0u8]);
}

/// The outer border is one pixel wide and has the color that tells whether the
/// monitor is active. It leaves everything else as it is.
pub proof fn law_outer_border_tells_the_active_monitor(
    image: Seq<u8>,
    active: bool,
    theme: Theme,
    x: int,
    y: int,
)
    requires
        image.len() == 4096,
        0 <= x < 32,
        0 <= y < 32,
    ensures
        ({
            let at = (y * 32 + x) * 4;
            let pixel = bordered(image, active, theme).subrange(at, at + 4);
            let on_rim = x == 0 || x == 31 || y == 0 || y == 31;
            &&& bordered(image, active, theme).len() == 4096
            &&& on_rim && active ==> pixel == theme.active_monitor_border@
            &&& on_rim && !active ==> pixel == theme.inactive_monitor_border@
            &&& !on_rim ==> pixel == image.subrange(at, at + 4)
        }),
{
    law_border_paints_the_rim_only(image, active, theme, x, y);
}

/// The standard colors: blue for the focused workspace and the active monitor,
/// gray for occupied workspaces and other monitors, yellow for full-screen
/// windows, and nothing for empty workspaces.
pub proof fn law_standard_colors()
    ensures
        ({
            let theme = Theme::standard();
            let blue = seq![0x2Eu8, 0x9Bu8, 0xFFu8, 0xFFu8];
            let gray = seq![0x80u8, 0x80u8, 0x80u8, 0xFFu8];
            &&& theme.focused@ == blue
            &&& theme.active_monitor_border@ == blue
            &&& theme.non_empty_1@ == gray
            &&& theme.non_empty_2@ == gray
            &&& theme.non_empty_3_plus@ == gray
            &&& theme.inactive_monitor_border@ == gray
            &&& theme.full_screen_border@ == seq![0xFFu8, 0xD5u8, 0x00u8, 0xFFu8]
            &&& theme.empty@ == seq![0u8, 0u8, 0u8, 0u8]
        }),
{
}

/// Painting an area sets the four bytes of each of its pixels to the color and leaves
/// every other byte as it is.
pub proof fn law_painting_sets_the_pixels_of_an_area(
    before: Seq<u8>,
    area: spec_fn(int, int) -> bool,
    color: [u8; 4],
    x: int,
    y: int,
    c: int,
)
    requires
        before.len() >= 4096,
        0 <= x < 32,
        0 <= y < 32,
        0 <= c < 4,
    ensures
        painted(before, area, color).len() == before.len(),
        painted(before, area, color)[(y * 32 + x) * 4 + c] == if area(x, y) {
            color[c]
        } else {
            before[(y * 32 + x) * 4 + c]
        },
        forall|k: int|
            4096 <= k < before.len() ==> #[trigger] painted(before, area, color)[k] == before[k],
{
    lemma_byte_of_pixel(x, y, c);
}

/// A rectangle has the pixels from its left and top edge up to its right and bottom
/// edge, and its ring those among them that are as near to an edge as it is thick.
pub proof fn law_rings_lie_along_the_edges(
    x0: int,
    y0: int,
    x1: int,
    y1: int,
    thickness: int,
    x: int,
    y: int,
)
    ensures
        rectangle(x0, y0, x1, y1)(x, y) <==> x0 <= x && x < x1 && y0 <= y && y < y1,
        ring(x0, y0, x1, y1, thickness)(x, y) <==> x0 <= x && x < x1 && y0 <= y && y < y1 && (x - x0
            < thickness || x1 - x <= thickness || y - y0 < thickness || y1 - y <= thickness),
{
}

} // verus!
