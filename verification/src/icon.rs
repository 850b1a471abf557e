//! The icon of the application itself, in several sizes.

use vstd::prelude::*;

use crate::render;
use crate::render::CellState;

verus! {

/// The cells of the application's icon: the first workspace is focused and all
/// others are empty.
pub open spec fn launch_cells() -> Seq<CellState> {
    Seq::new(
        9,
        |i: int|
            if i == 0 {
                CellState { focused: true, ..CellState::empty() }
            } else {
                CellState::empty()
            },
    )
}

/// Draws the application's icon, as the tray shows it on the focused monitor
/// right after the start.
pub fn launch_icon() -> (rgba: Vec<u8>)
    ensures
        rgba@ == render::bordered(
            render::grid_image(launch_cells(), render::Theme::standard()),
            true,
            render::Theme::standard(),
        ),
{
    let e: CellState = CellState::empty();
    let first: CellState = CellState {
        focused: true,
        non_empty: false,
        full_screen: false,
        window_count: 0,
    };
    let cells: [CellState; 9] = [first, e, e, e, e, e, e, e, e];
    proof {
        assert(cells@ =~= launch_cells());
    }
    let mut rgba: Vec<u8> = render::render_grid(&cells);
    render::paint_monitor_border(rgba.as_mut_slice(), true);
    rgba
}

/// The byte of the source from which byte `k` of a resampled image is taken:
/// the same channel of the nearest pixel above and to the left.
pub open spec fn nearest_byte(k: int, sw: int, sh: int, dw: int, dh: int) -> int {
    let x = (k / 4) % dw;
    let y = (k / 4) / dw;
    (((y * sh) / dh) * sw + (x * sw) / dw) * 4 + k % 4
}

/// The last pixel of the source that is sampled, where one is.
pub open spec fn last_sampled(sw: int, sh: int, dw: int, dh: int) -> int {
    (((dh - 1) * sh) / dh) * sw + ((dw - 1) * sw) / dw
}

/// The source holds every pixel that is sampled, and all positions can be
/// computed with 32 bits.
pub open spec fn can_sample(len: nat, sw: int, sh: int, dw: int, dh: int) -> bool {
    &&& dw * dh * 4 <= u32::MAX
    &&& 0 < dw && 0 < dh ==> {
        &&& (dw - 1) * sw <= u32::MAX
        &&& (dh - 1) * sh <= u32::MAX
        &&& last_sampled(sw, sh, dw, dh) * 4 <= u32::MAX
        &&& last_sampled(sw, sh, dw, dh) * 4 + 4 <= len
    }
}

proof fn lemma_nearest(x: int, y: int, sw: int, sh: int, dw: int, dh: int)
    requires
        0 <= x < dw,
        0 <= y < dh,
        0 <= sw,
        0 <= sh,
    ensures
        0 <= x * sw <= (dw - 1) * sw,
        0 <= y * sh <= (dh - 1) * sh,
        0 <= (x * sw) / dw,
        0 <= (y * sh) / dh,
        0 <= ((y * sh) / dh) * sw,
        ((y * sh) / dh) * sw + (x * sw) / dw <= last_sampled(sw, sh, dw, dh),
        0 <= y * dw + x < dw * dh,
        0 <= y * dw,
{
    let sx = (x * sw) / dw;
    let sy = (y * sh) / dh;
    let last_x = ((dw - 1) * sw) / dw;
    let last_y = ((dh - 1) * sh) / dh;
    assert(0 <= x * sw <= (dw - 1) * sw) by (nonlinear_arith)
        requires
            0 <= x < dw,
            0 <= sw,
    ;
    assert(0 <= y * sh <= (dh - 1) * sh) by (nonlinear_arith)
        requires
            0 <= y < dh,
            0 <= sh,
    ;
    vstd::arithmetic::div_mod::lemma_div_is_ordered(x * sw, (dw - 1) * sw, dw);
    vstd::arithmetic::div_mod::lemma_div_is_ordered(y * sh, (dh - 1) * sh, dh);
    vstd::arithmetic::div_mod::lemma_div_pos_is_pos(x * sw, dw);
    vstd::arithmetic::div_mod::lemma_div_pos_is_pos(y * sh, dh);
    assert(0 <= sy * sw <= last_y * sw) by (nonlinear_arith)
        requires
            0 <= sy <= last_y,
            0 <= sw,
    ;
    assert(0 <= y * dw && y * dw + x < dw * dh) by (nonlinear_arith)
        requires
            0 <= x < dw,
            0 <= y < dh,
    ;
}

/// Nearest-neighbor resampling of an image from `sw` by `sh` to `dw` by `dh`
/// pixels of four bytes, which keeps the edges of the grid sharp.
pub fn nearest_neighbor_rgba(src: &[u8], sw: u32, sh: u32, dw: u32, dh: u32) -> (dst: Vec<u8>)
    requires
        can_sample(src@.len(), sw as int, sh as int, dw as int, dh as int),
    ensures
        dst@.len() == dw * dh * 4,
        forall|k: int|
            0 <= k < dw * dh * 4 ==> #[trigger] dst@[k] == src@[nearest_byte(
                k,
                sw as int,
                sh as int,
                dw as int,
                dh as int,
            )],
{
    let mut dst: Vec<u8> = Vec::new();
    let mut y: u32 = 0;
    while y < dh
        invariant
            y <= dh,
            can_sample(src@.len(), sw as int, sh as int, dw as int, dh as int),
            dst@.len() == y * dw * 4,
            forall|k: int|
                0 <= k < dst@.len() ==> #[trigger] dst@[k] == src@[nearest_byte(
                    k,
                    sw as int,
                    sh as int,
                    dw as int,
                    dh as int,
                )],
        decreases dh - y,
    {
        let mut x: u32 = 0;
        while x < dw
            invariant
                x <= dw,
                y < dh,
                can_sample(src@.len(), sw as int, sh as int, dw as int, dh as int),
                dst@.len() == (y * dw + x) * 4,
                forall|k: int|
                    0 <= k < dst@.len() ==> #[trigger] dst@[k] == src@[nearest_byte(
                        k,
                        sw as int,
                        sh as int,
                        dw as int,
                        dh as int,
                    )],
            decreases dw - x,
        {
            proof {
                lemma_nearest(x as int, y as int, sw as int, sh as int, dw as int, dh as int);
            }
            let sy: u32 = (y * sh) / dh;
            let sx: u32 = (x * sw) / dw;
            let s: usize = ((sy * sw + sx) * 4) as usize;
            let ghost before = dst@;
            let ghost base = (y * dw + x) * 4;
            dst.push(src[s]);
            dst.push(src[s + 1]);
            dst.push(src[s + 2]);
            dst.push(src[s + 3]);
            proof {
                assert forall|k: int| 0 <= k < dst@.len() implies #[trigger] dst@[k]
                    == src@[nearest_byte(k, sw as int, sh as int, dw as int, dh as int)] by {
                    if k < base {
                        assert(dst@[k] == before[k]);
                    } else {
                        let c = k - base;
                        assert(k / 4 == y * dw + x);
                        assert(k % 4 == c);
                        vstd::arithmetic::div_mod::lemma_fundamental_div_mod_converse(
                            y * dw + x,
                            dw as int,
                            y as int,
                            x as int,
                        );
                        assert(dst@[k] == src@[s + c]);
                    }
                }
            }
            x += 1;
        }
        proof {
            assert((y * dw + dw) * 4 == (y + 1) * dw * 4) by (nonlinear_arith);
        }
        y += 1;
    }
    proof {
        assert(dh * dw == dw * dh) by (nonlinear_arith);
    }
    dst
}

/// An image that is there in full can be resampled to every size whose positions
/// can be computed with 32 bits.
pub proof fn law_full_images_can_be_sampled(len: nat, sw: int, sh: int, dw: int, dh: int)
    requires
        0 < sw,
        0 < sh,
        sw * sh * 4 <= len,
        sw * sh * 4 <= u32::MAX,
        dw * dh * 4 <= u32::MAX,
        (dw - 1) * sw <= u32::MAX,
        (dh - 1) * sh <= u32::MAX,
    ensures
        can_sample(len, sw, sh, dw, dh),
{
    if 0 < dw && 0 < dh {
        let x = ((dw - 1) * sw) / dw;
        let y = ((dh - 1) * sh) / dh;
        assert(x < sw) by (nonlinear_arith)
            requires
                x == ((dw - 1) * sw) / dw,
                0 < dw,
                0 < sw,
        ;
        assert(y < sh) by (nonlinear_arith)
            requires
                y == ((dh - 1) * sh) / dh,
                0 < dh,
                0 < sh,
        ;
        assert(y * sw + x < sw * sh) by (nonlinear_arith)
            requires
                x < sw,
                y < sh,
                0 < sw,
        ;
    }
}

/// Resampling an image to its own size changes nothing.
pub proof fn law_own_size_changes_nothing(k: int, w: int, h: int)
    requires
        0 < w,
        0 < h,
        0 <= k < w * h * 4,
    ensures
        nearest_byte(k, w, h, w, h) == k,
{
    let p = k / 4;
    let x = p % w;
    let y = p / w;
    assert(p == y * w + x && 0 <= x < w) by {
        vstd::arithmetic::div_mod::lemma_fundamental_div_mod(p, w);
        vstd::arithmetic::mul::lemma_mul_is_commutative(w, y);
    }
    assert((y * h) / h == y) by {
        vstd::arithmetic::div_mod::lemma_div_multiples_vanish(y, h);
        vstd::arithmetic::mul::lemma_mul_is_commutative(y, h);
    }
    assert((x * w) / w == x) by {
        vstd::arithmetic::div_mod::lemma_div_multiples_vanish(x, w);
        vstd::arithmetic::mul::lemma_mul_is_commutative(x, w);
    }
}

/// Every pixel of a resampled image is taken from the pixel of the source in which its
/// upper left corner lies, channel by channel.
pub proof fn law_pixels_are_taken_from_where_they_lie(
    x: int,
    y: int,
    c: int,
    sw: int,
    sh: int,
    dw: int,
    dh: int,
)
    requires
        0 <= x < dw,
        0 <= y < dh,
        0 <= c < 4,
        0 < sw,
        0 < sh,
    ensures
        exists|sx: int, sy: int|
            sx * dw <= x * sw < (sx + 1) * dw && sy * dh <= y * sh < (sy + 1) * dh && nearest_byte(
                (y * dw + x) * 4 + c,
                sw,
                sh,
                dw,
                dh,
            ) == #[trigger] (sy * sw + sx) * 4 + c,
{
    let k = (y * dw + x) * 4 + c;
    assert(k / 4 == y * dw + x && k % 4 == c);
    vstd::arithmetic::div_mod::lemma_fundamental_div_mod_converse(y * dw + x, dw, y, x);
    let sx = (x * sw) / dw;
    let sy = (y * sh) / dh;
    assert(sx * dw <= x * sw < (sx + 1) * dw) by (nonlinear_arith)
        requires
            sx == (x * sw) / dw,
            0 < dw,
    ;
    assert(sy * dh <= y * sh < (sy + 1) * dh) by (nonlinear_arith)
        requires
            sy == (y * sh) / dh,
            0 < dh,
    ;
    assert(nearest_byte(k, sw, sh, dw, dh) == (sy * sw + sx) * 4 + c);
}

/// The application's icon shows a focused first workspace and eight empty ones.
pub proof fn law_launch_icon_shows_the_first_workspace(i: int)
    requires
        0 <= i < 9,
    ensures
        launch_cells().len() == 9,
        launch_cells()[i].focused <==> i == 0,
        !launch_cells()[i].non_empty,
        !launch_cells()[i].full_screen,
{
}

} // verus!
