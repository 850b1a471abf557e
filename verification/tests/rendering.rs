use komorebi_tray_grid::icon::{launch_icon, nearest_neighbor_rgba};
use komorebi_tray_grid::render::{
    paint_monitor_border, paint_monitor_border_with_theme, render_grid, render_grid_with_theme,
    CellState, Theme, COLOR_ACTIVE_MONITOR, COLOR_BORDER_FS, COLOR_FOCUSED,
    COLOR_INACTIVE_MONITOR, COLOR_NON_EMPTY, COLOR_TRANSPARENT, ICON_SIZE,
};

fn pixel_at(buf: &[u8], x: u32, y: u32) -> [u8; 4] {
    let idx = ((y * ICON_SIZE + x) * 4) as usize;
    [buf[idx], buf[idx + 1], buf[idx + 2], buf[idx + 3]]
}

#[test]
fn output_buffer_has_expected_size() {
    let buf = render_grid(&[CellState::empty(); 9]);
    assert_eq!(buf.len(), (ICON_SIZE * ICON_SIZE * 4) as usize);
}

#[test]
fn empty_grid_is_fully_transparent() {
    let buf = render_grid(&[CellState::empty(); 9]);
    assert!(buf.iter().all(|&b| b == 0));
}

#[test]
fn focused_overrides_non_empty() {
    let mut cells = [CellState::empty(); 9];
    cells[0] = CellState {
        focused: true,
        non_empty: true,
        full_screen: false,
        ..CellState::empty()
    };
    let buf = render_grid(&cells);
    // Pixel inside the first cell should be the focused color.
    assert_eq!(pixel_at(&buf, 1, 1), COLOR_FOCUSED);
}

#[test]
fn full_screen_paints_border_on_top_of_fill() {
    let mut cells = [CellState::empty(); 9];
    cells[4] = CellState {
        focused: true,
        non_empty: false,
        full_screen: true,
        ..CellState::empty()
    };
    let buf = render_grid(&cells);

    // Center cell starts at (11,11) and spans 10×10.
    // Top-left corner is inside the border ring (yellow).
    assert_eq!(pixel_at(&buf, 11, 11), COLOR_BORDER_FS);
    // Two pixels inside the border ring → fill color.
    assert_eq!(pixel_at(&buf, 13, 13), COLOR_FOCUSED);
}

#[test]
fn empty_full_screen_cell_only_draws_border() {
    let mut cells = [CellState::empty(); 9];
    cells[8] = CellState {
        focused: false,
        non_empty: false,
        full_screen: true,
        ..CellState::empty()
    };
    let buf = render_grid(&cells);

    // Cell 8 (bottom-right) starts at (22,22) and spans 10×10.
    // Inside border → yellow.
    assert_eq!(pixel_at(&buf, 22, 22), COLOR_BORDER_FS);
    // Two pixels inside the border → fully transparent (no fill).
    assert_eq!(pixel_at(&buf, 24, 24), COLOR_TRANSPARENT);
    // Sanity check: the configured border color is yellow, not purple.
    assert_eq!(COLOR_BORDER_FS, [0xFF, 0xD5, 0x00, 0xFF]);
}

#[test]
fn active_monitor_border_paints_outer_ring_only() {
    let mut buf = render_grid(&[CellState::empty(); 9]);
    paint_monitor_border(&mut buf, true);

    // Outermost rim is the active-monitor color.
    for k in 0..ICON_SIZE {
        assert_eq!(pixel_at(&buf, k, 0), COLOR_ACTIVE_MONITOR);
        assert_eq!(pixel_at(&buf, k, ICON_SIZE - 1), COLOR_ACTIVE_MONITOR);
        assert_eq!(pixel_at(&buf, 0, k), COLOR_ACTIVE_MONITOR);
        assert_eq!(pixel_at(&buf, ICON_SIZE - 1, k), COLOR_ACTIVE_MONITOR);
    }
    // One pixel inside the rim stays transparent (still empty grid).
    assert_eq!(pixel_at(&buf, 1, 1), COLOR_TRANSPARENT);
    assert_eq!(pixel_at(&buf, ICON_SIZE - 2, ICON_SIZE - 2), COLOR_TRANSPARENT);
}

#[test]
fn inactive_monitor_border_uses_gray() {
    let mut buf = render_grid(&[CellState::empty(); 9]);
    paint_monitor_border(&mut buf, false);

    // Outermost rim is the non-empty (gray) color.
    for k in 0..ICON_SIZE {
        assert_eq!(pixel_at(&buf, k, 0), COLOR_INACTIVE_MONITOR);
        assert_eq!(pixel_at(&buf, k, ICON_SIZE - 1), COLOR_INACTIVE_MONITOR);
        assert_eq!(pixel_at(&buf, 0, k), COLOR_INACTIVE_MONITOR);
        assert_eq!(pixel_at(&buf, ICON_SIZE - 1, k), COLOR_INACTIVE_MONITOR);
    }
    // Sanity check: the configured inactive color matches the gray
    // non-empty cell fill, not the focused blue.
    assert_eq!(COLOR_INACTIVE_MONITOR, COLOR_NON_EMPTY);
    assert_ne!(COLOR_INACTIVE_MONITOR, COLOR_ACTIVE_MONITOR);
    // One pixel inside the rim stays transparent (still empty grid).
    assert_eq!(pixel_at(&buf, 1, 1), COLOR_TRANSPARENT);
}

#[test]
fn gap_pixels_stay_transparent() {
    let cells = [CellState {
        focused: true,
        non_empty: true,
        full_screen: true,
        ..CellState::empty()
    }; 9];
    let buf = render_grid(&cells);

    // Gap column between cell 0 and cell 1 is x = 10.
    for y in 0..ICON_SIZE {
        assert_eq!(
            pixel_at(&buf, 10, y),
            COLOR_TRANSPARENT,
            "gap column should be transparent at y={y}",
        );
    }
    // Gap row between cell 0 and cell 3 is y = 10.
    for x in 0..ICON_SIZE {
        assert_eq!(
            pixel_at(&buf, x, 10),
            COLOR_TRANSPARENT,
            "gap row should be transparent at x={x}",
        );
    }
}

fn cells_from(states: [(bool, bool, bool); 9]) -> [CellState; 9] {
    let mut out = [CellState::default(); 9];
    for (i, &(focused, non_empty, full_screen)) in states.iter().enumerate() {
        out[i] = CellState { focused, non_empty, full_screen, ..CellState::empty() };
    }
    out
}

/// Paints the expected picture cell by cell, from the rules of the grid.
fn expected(states: [(bool, bool, bool); 9]) -> Vec<u8> {
    let mut picture = vec![[0u8; 4]; 32 * 32];
    for (i, &(focused, non_empty, full_screen)) in states.iter().enumerate() {
        let (left, top) = ((i % 3) * 11, (i / 3) * 11);
        for dy in 0..10 {
            for dx in 0..10 {
                let near_edge = dx.min(9 - dx).min(dy).min(9 - dy) < 2;
                picture[(top + dy) * 32 + left + dx] = if full_screen && near_edge {
                    [0xFF, 0xD5, 0x00, 0xFF]
                } else if focused {
                    [0x2E, 0x9B, 0xFF, 0xFF]
                } else if non_empty {
                    [0x80, 0x80, 0x80, 0xFF]
                } else {
                    [0, 0, 0, 0]
                };
            }
        }
    }
    picture.concat()
}

fn assert_snapshot(states: [(bool, bool, bool); 9]) {
    let rgba = render_grid(&cells_from(states));
    assert_eq!(rgba.len(), (ICON_SIZE * ICON_SIZE * 4) as usize);
    assert_eq!(rgba, expected(states));
}

#[test]
fn snapshot_all_empty() {
    assert_snapshot([(false, false, false); 9]);
}

#[test]
fn snapshot_single_focused() {
    let mut states = [(false, false, false); 9];
    states[4] = (true, false, false); // center cell focused
    assert_snapshot(states);
}

#[test]
fn snapshot_single_non_empty() {
    let mut states = [(false, false, false); 9];
    states[0] = (false, true, false); // top-left has windows
    assert_snapshot(states);
}

#[test]
fn snapshot_focused_full_screen() {
    let mut states = [(false, false, false); 9];
    states[4] = (true, true, true); // center: focused + maximized
    assert_snapshot(states);
}

#[test]
fn snapshot_non_empty_full_screen() {
    let mut states = [(false, false, false); 9];
    states[8] = (false, true, true); // bottom-right: maximized, not focused
    assert_snapshot(states);
}

#[test]
fn snapshot_mixed_grid() {
    // A representative mix exercising every state combination at once.
    assert_snapshot([
        (false, true, false),  // 0: gray
        (true, true, false),   // 1: blue (focused + non-empty)
        (false, false, false), // 2: empty
        (false, true, true),   // 3: gray + yellow border
        (false, false, false), // 4: empty
        (true, true, true),    // 5: blue + yellow border
        (false, false, true),  // 6: only border (empty workspace, weird but allowed)
        (false, true, false),  // 7: gray
        (false, false, false), // 8: empty
    ]);
}

fn theme() -> Theme {
    Theme {
        focused: [1, 1, 1, 1],
        non_empty_1: [2, 2, 2, 2],
        non_empty_2: [3, 3, 3, 3],
        non_empty_3_plus: [4, 4, 4, 4],
        full_screen_border: [5, 5, 5, 5],
        active_monitor_border: [6, 6, 6, 6],
        inactive_monitor_border: [7, 7, 7, 7],
        empty: [8, 8, 8, 8],
    }
}

#[test]
fn the_shade_tells_the_number_of_windows() {
    for (count, value) in [(0u8, 2u8), (1, 2), (2, 3), (3, 4), (255, 4)] {
        let cell = CellState { non_empty: true, window_count: count, ..CellState::empty() };
        let buf = render_grid_with_theme(&[cell; 9], &theme());
        assert_eq!(pixel_at(&buf, 5, 5), [value; 4]);
        assert_eq!(pixel_at(&buf, 10, 5), COLOR_TRANSPARENT);
    }
    let buf = render_grid_with_theme(&[CellState::empty(); 9], &theme());
    assert_eq!(pixel_at(&buf, 31, 31), [8; 4]);
    let focused = CellState { focused: true, window_count: 2, ..CellState::empty() };
    let buf = render_grid_with_theme(&[focused; 9], &theme());
    assert_eq!(pixel_at(&buf, 31, 31), [1; 4]);
}

#[test]
fn the_rim_has_the_color_of_the_theme() {
    for (active, value) in [(true, 6u8), (false, 7)] {
        let mut buf = render_grid_with_theme(&[CellState::empty(); 9], &theme());
        // What lies behind the icon is left alone.
        buf.extend_from_slice(&[9, 9]);
        paint_monitor_border_with_theme(&mut buf, active, &theme());
        assert_eq!(pixel_at(&buf, 0, 17), [value; 4]);
        assert_eq!(pixel_at(&buf, 1, 17), [8; 4]);
        assert_eq!(buf[4096..], [9, 9]);
    }
}

#[test]
fn the_launch_icon_is_sampled_to_every_size() {
    let base = launch_icon();
    assert_eq!(pixel_at(&base, 0, 0), COLOR_ACTIVE_MONITOR);
    assert_eq!(pixel_at(&base, 5, 5), COLOR_FOCUSED);
    assert_eq!(pixel_at(&base, 16, 16), COLOR_TRANSPARENT);
    assert_eq!(nearest_neighbor_rgba(&base, 32, 32, 32, 32), base);
    for size in [16u32, 48, 64, 128, 256] {
        let scaled = nearest_neighbor_rgba(&base, 32, 32, size, size);
        assert_eq!(scaled.len(), (size * size * 4) as usize);
        for y in 0..size {
            for x in 0..size {
                let at = ((y * size + x) * 4) as usize;
                assert_eq!(
                    scaled[at..at + 4],
                    pixel_at(&base, x * 32 / size, y * 32 / size)
                );
            }
        }
    }
    assert!(nearest_neighbor_rgba(&base, 32, 32, 0, 5).is_empty());
    assert!(nearest_neighbor_rgba(&[], 0, 0, 7, 0).is_empty());
    // Only the pixels that are sampled have to be there.
    assert_eq!(nearest_neighbor_rgba(&[1, 2, 3, 4], 32, 32, 1, 1), vec![1, 2, 3, 4]);
    assert_eq!(nearest_neighbor_rgba(&[1, 2, 3, 4], 0, 0, 2, 1), vec![1, 2, 3, 4, 1, 2, 3, 4]);
}
