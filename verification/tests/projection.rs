use komorebi_tray_grid::komorebi::state::{workspace_windows, WorldState};
use komorebi_tray_grid::komorebi::types::{
    container_titles, json_collection_non_empty, Container, JsonValue, Monitor, Rect, Ring, State,
    Window, WindowCollection, Workspace,
};
use komorebi_tray_grid::render::CellState;

fn ring<T>(elements: Vec<T>, focused: usize) -> Ring<T> {
    Ring { elements, focused }
}

fn window(title: &str) -> Window {
    Window { title: title.into(), ..Default::default() }
}

fn containers(n: usize) -> Ring<Container> {
    ring((0..n).map(|_| Container::default()).collect(), 0)
}

fn workspaces(elements: Vec<Workspace>, focused: usize) -> Ring<Workspace> {
    ring(elements, focused)
}

fn monitor(device_id: &str, workspaces: Ring<Workspace>) -> Monitor {
    Monitor { device_id: device_id.into(), workspaces, ..Default::default() }
}

fn project(monitors: Vec<Monitor>, focused: usize) -> WorldState {
    WorldState::from(&State { monitors: ring(monitors, focused) })
}

#[test]
fn empty_state_yields_no_monitors() {
    let w = project(vec![], 0);
    assert!(w.monitors.is_empty());
}

#[test]
fn workspace_with_containers_is_non_empty_but_not_full_screen() {
    let w = project(
        vec![monitor(
            "DEV-1",
            workspaces(
                vec![Workspace {
                    containers: containers(1),
                    floating_windows: WindowCollection::Ring(ring(vec![], 0)),
                    monocle_container: None,
                    maximized_window: None,
                }],
                0,
            ),
        )],
        0,
    );
    let m = &w.monitors[0];
    assert_eq!(m.id, "DEV-1");
    assert_eq!(m.cells[0].window_count, 1);
    assert!(m.cells[0].focused);
    assert!(!m.cells[0].full_screen);
    // Trailing cells are empty.
    for i in 1..9 {
        assert_eq!(m.cells[i], CellState::empty(), "cell {i} should be empty");
    }
}

#[test]
fn maximized_window_marks_full_screen_and_non_empty() {
    let w = project(
        vec![monitor(
            "DEV-1",
            workspaces(
                vec![Workspace {
                    containers: containers(0),
                    floating_windows: WindowCollection::Ring(ring(vec![], 0)),
                    maximized_window: Some(Window { hwnd: 1, ..Default::default() }),
                    ..Default::default()
                }],
                0,
            ),
        )],
        0,
    );
    let cell = w.monitors[0].cells[0];
    assert_eq!(cell.window_count, 1);
    assert!(cell.full_screen);
    assert!(cell.focused);
    assert!(cell.non_empty);
}

#[test]
fn monocle_container_marks_full_screen() {
    let w = project(
        vec![monitor(
            "DEV-1",
            workspaces(
                vec![Workspace {
                    containers: containers(0),
                    floating_windows: WindowCollection::Ring(ring(vec![], 0)),
                    monocle_container: Some(Container::default()),
                    ..Default::default()
                }],
                0,
            ),
        )],
        0,
    );
    let cell = w.monitors[0].cells[0];
    assert_eq!(cell.window_count, 1);
    assert!(cell.full_screen);
}

#[test]
fn floating_only_workspace_is_non_empty() {
    let w = project(
        vec![monitor(
            "DEV-1",
            workspaces(
                vec![Workspace {
                    containers: containers(0),
                    floating_windows: WindowCollection::Ring(ring(vec![Window::default()], 0)),
                    ..Default::default()
                }],
                0,
            ),
        )],
        0,
    );
    let cell = w.monitors[0].cells[0];
    assert_eq!(cell.window_count, 1);
    assert!(!cell.full_screen);
}

#[test]
fn focused_index_is_per_monitor() {
    let empty = |n: usize| (0..n).map(|_| Workspace::default()).collect::<Vec<_>>();
    let w = project(
        vec![
            monitor("DEV-A", workspaces(empty(3), 2)),
            monitor("DEV-B", workspaces(empty(2), 0)),
        ],
        1,
    );
    assert_eq!(w.monitors.len(), 2);
    assert!(!w.monitors[0].cells[0].focused);
    assert!(!w.monitors[0].cells[1].focused);
    assert!(w.monitors[0].cells[2].focused);
    assert!(w.monitors[1].cells[0].focused);
    assert!(!w.monitors[1].cells[1].focused);
}

#[test]
fn active_flag_matches_outer_focused_index() {
    let w = project(
        vec![
            monitor("DEV-A", workspaces(vec![], 0)),
            monitor("DEV-B", workspaces(vec![], 0)),
            monitor("DEV-C", workspaces(vec![], 0)),
        ],
        2,
    );
    assert!(!w.monitors[0].active);
    assert!(!w.monitors[1].active);
    assert!(w.monitors[2].active);
}

#[test]
fn active_flag_set_for_single_monitor_too() {
    let w = project(vec![monitor("ONLY", workspaces(vec![], 0))], 0);
    assert_eq!(w.monitors.len(), 1);
    assert!(w.monitors[0].active);
}

#[test]
fn extra_workspaces_beyond_nine_are_ignored() {
    let elements: Vec<Workspace> = (0..12)
        .map(|_| Workspace { containers: containers(1), ..Default::default() })
        .collect();
    let w = project(vec![monitor("DEV-1", workspaces(elements, 0))], 0);
    for i in 0..9 {
        assert_eq!(w.monitors[0].cells[i].window_count, 1);
    }
    assert_eq!(w.monitors[0].menu_workspaces.len(), 9);
}

#[test]
fn missing_workspaces_pad_with_empty_cells() {
    let elements: Vec<Workspace> = (0..2)
        .map(|_| Workspace { containers: containers(1), ..Default::default() })
        .collect();
    let w = project(vec![monitor("DEV-1", workspaces(elements, 0))], 0);
    let m = &w.monitors[0];
    assert_eq!(m.cells[0].window_count, 1);
    assert_eq!(m.cells[1].window_count, 1);
    for i in 2..9 {
        assert_eq!(m.cells[i], CellState::empty());
    }
}

#[test]
fn id_falls_back_when_device_id_missing() {
    let w = project(
        vec![
            Monitor { device: "HPN3535".into(), ..Default::default() },
            Monitor { name: "DISPLAY1".into(), ..Default::default() },
            Monitor::default(),
        ],
        0,
    );
    assert_eq!(w.monitors[0].id, "device:HPN3535");
    assert_eq!(w.monitors[1].id, "name:DISPLAY1");
    assert_eq!(w.monitors[2].id, "__monitor_2__");
    assert_eq!(w.monitors[0].label, "HPN3535");
    assert_eq!(w.monitors[1].label, "DISPLAY1");
    assert_eq!(w.monitors[2].label, "");
}

#[test]
fn floating_windows_accepts_plain_array() {
    let w = project(
        vec![monitor(
            "DEV-1",
            workspaces(
                vec![Workspace {
                    containers: containers(0),
                    floating_windows: WindowCollection::Array(vec![Window::default()]),
                    ..Default::default()
                }],
                0,
            ),
        )],
        0,
    );
    assert_eq!(w.monitors[0].cells[0].window_count, 1);
}

#[test]
fn window_count_adds_containers_floating_and_full_screen_sources() {
    let w = project(
        vec![monitor(
            "DEV-1",
            workspaces(
                vec![Workspace {
                    containers: containers(2),
                    floating_windows: WindowCollection::Ring(ring(
                        vec![Window::default(), Window::default()],
                        0,
                    )),
                    monocle_container: Some(Container::default()),
                    maximized_window: Some(Window { hwnd: 1, ..Default::default() }),
                }],
                0,
            ),
        )],
        0,
    );

    let cell = w.monitors[0].cells[0];
    assert_eq!(cell.window_count, 6);
    assert!(cell.full_screen);
}

#[test]
fn window_counts_end_at_the_largest_byte() {
    let ws = |n: usize| Workspace { containers: containers(n), ..Default::default() };
    let w = project(vec![monitor("D", workspaces(vec![ws(254), ws(255), ws(300)], 9))], 0);
    let counts: Vec<u8> = w.monitors[0].cells[..3].iter().map(|c| c.window_count).collect();
    assert_eq!(counts, vec![254, 255, 255]);
    assert!(w.monitors[0].cells.iter().all(|c| !c.focused));
}

#[test]
fn menus_list_titled_windows_in_order() {
    let ws = Workspace {
        containers: ring(
            vec![
                Container { windows: ring(vec![window(" a "), window("\t")], 0) },
                Container { windows: ring(vec![window("b")], 0) },
            ],
            0,
        ),
        floating_windows: WindowCollection::Array(vec![window(""), window("c\u{a0}")]),
        monocle_container: Some(Container { windows: ring(vec![window("d")], 0) }),
        maximized_window: Some(Window {
            title: "e".into(),
            exe: "e.exe".into(),
            hwnd: 9,
        }),
    };
    let windows = workspace_windows(&ws);
    let titles: Vec<&str> = windows.iter().map(|w| w.title.as_str()).collect();
    assert_eq!(titles, vec!["a", "b", "c", "d", "e"]);
    assert_eq!(windows[4].exe, "e.exe");
    assert_eq!(windows[4].hwnd, 9);
    assert!(windows.iter().all(|w| !w.focused));
    assert_eq!(container_titles(&ws.containers.elements[0]), vec!["a".to_string()]);
}

#[test]
fn the_left_edge_orders_monitors() {
    let size = Rect { left: -1920, top: 1, right: 2, bottom: 3 };
    let w = project(vec![Monitor { size, ..Default::default() }], 0);
    assert_eq!(w.monitors[0].x, -1920);
}

#[test]
fn monitors_are_found_by_identifier() {
    let w = project(
        vec![
            monitor("A", workspaces(vec![], 0)),
            monitor("B", workspaces(vec![], 0)),
            Monitor { device_id: "B".into(), name: "second".into(), ..Default::default() },
        ],
        1,
    );
    assert_eq!(w.monitor("B").unwrap().label, "B");
    assert_eq!(w.position("B"), Some(1));
    assert!(w.monitor("C").is_none());
    assert_eq!(w.active_position(), Some(1));
    assert!(w.same(&w.clone()));
    let mut other = w.clone();
    other.monitors[2].menu_workspaces.push(Default::default());
    assert!(!w.same(&other));
    assert_ne!(w, other);
    assert_eq!(WorldState::from(State::default()), WorldState::default());
}

#[test]
fn ring_default_is_empty() {
    let r: Ring<i32> = Default::default();
    assert!(r.is_empty());
    assert_eq!(r.focused, 0);
    assert_eq!(r.len(), 0);
}

#[test]
fn floating_windows_accepts_both_shapes() {
    let object = |members: Vec<(&str, JsonValue)>| {
        JsonValue::Object(members.into_iter().map(|(k, v)| (k.to_string(), v)).collect())
    };
    let titled = |t: &str| object(vec![("title", JsonValue::Text(t.into()))]);
    let ring_value = object(vec![
        ("elements", JsonValue::Array(vec![titled("A")])),
        ("focused", JsonValue::Number("0".into())),
    ]);
    let arr = JsonValue::Array(vec![titled("B")]);
    let empty_ring = object(vec![
        ("elements", JsonValue::Array(vec![])),
        ("focused", JsonValue::Number("0".into())),
    ]);
    let empty_arr = JsonValue::Array(vec![]);
    assert!(json_collection_non_empty(&ring_value));
    assert!(json_collection_non_empty(&arr));
    assert!(!json_collection_non_empty(&empty_ring));
    assert!(!json_collection_non_empty(&empty_arr));
    assert!(!json_collection_non_empty(&JsonValue::Null));

    let parsed_ring = WindowCollection::Ring(ring(vec![window("A")], 0));
    assert_eq!(parsed_ring.len(), 1);
    assert_eq!(parsed_ring.titles(), vec!["A".to_string()]);

    let parsed_arr = WindowCollection::Array(vec![window("B")]);
    assert_eq!(parsed_arr.len(), 1);
    assert_eq!(parsed_arr.titles(), vec!["B".to_string()]);
}

#[test]
fn other_shapes_of_floating_windows_are_counted() {
    let object = |name: &str, v: JsonValue| JsonValue::Object(vec![(name.to_string(), v)]);
    let two = || JsonValue::Array(vec![JsonValue::Null, JsonValue::Bool(true)]);
    assert_eq!(WindowCollection::Other(two()).len(), 2);
    assert_eq!(WindowCollection::Other(object("elements", two())).len(), 2);
    assert_eq!(WindowCollection::Other(object("items", two())).len(), 0);
    assert_eq!(WindowCollection::Other(object("elements", JsonValue::Null)).len(), 0);
    assert_eq!(WindowCollection::Other(JsonValue::Text("x".into())).len(), 0);
    assert!(WindowCollection::Other(two()).titles().is_empty());
    assert_eq!(WindowCollection::default().len(), 0);
}

// The states below are those of typical desktops.

#[test]
fn single_monitor_focused_workspace_is_blue_and_others_follow_spec() {
    let occupied = || Workspace { containers: containers(1), ..Default::default() };
    let w = project(
        vec![Monitor {
            device_id: "Generic_Monitor-1&abcdef&0&UID256".into(),
            device: "Generic_Monitor".into(),
            name: "DISPLAY1".into(),
            workspaces: workspaces(vec![occupied(), occupied(), Workspace::default()], 1),
            ..Default::default()
        }],
        0,
    );
    assert_eq!(w.monitors.len(), 1);

    let m = &w.monitors[0];
    assert_eq!(m.id, "Generic_Monitor-1&abcdef&0&UID256");
    assert_eq!(m.label, "DISPLAY1");
    assert!(m.active);

    // Cell 0: non-empty, not focused (focused is ws 1).
    assert!(m.cells[0].non_empty);
    assert!(!m.cells[0].focused);
    assert!(!m.cells[0].full_screen);

    // Cell 1: focused + non-empty.
    assert!(m.cells[1].focused);
    assert!(m.cells[1].non_empty);
    assert!(!m.cells[1].full_screen);

    // Cell 2: empty workspace.
    assert_eq!(m.cells[2], CellState::empty());

    // Cells 3..8: not reported → empty.
    for i in 3..9 {
        assert_eq!(m.cells[i], CellState::empty(), "trailing cell {i}");
    }
}

#[test]
fn multi_monitor_each_icon_reflects_only_its_own_state() {
    let occupied = || Workspace { containers: containers(1), ..Default::default() };
    let w = project(
        vec![
            monitor("MON-A", workspaces(vec![occupied(), Workspace::default()], 0)),
            monitor("MON-B", workspaces(vec![Workspace::default(), occupied(), occupied()], 1)),
        ],
        1,
    );
    assert_eq!(w.monitors.len(), 2);

    // Monitor A: focused ws is 0; ws0 non-empty; ws1 empty.
    let a = &w.monitors[0];
    assert_eq!(a.id, "MON-A");
    assert!(a.cells[0].focused);
    assert!(a.cells[0].non_empty);
    assert!(!a.cells[1].focused);
    assert!(!a.cells[1].non_empty);
    assert!(!a.active);

    // Monitor B: focused ws is 1; ws0 empty, ws1 + ws2 non-empty.
    let b = &w.monitors[1];
    assert_eq!(b.id, "MON-B");
    assert!(!b.cells[0].focused);
    assert!(!b.cells[0].non_empty);
    assert!(b.cells[1].focused);
    assert!(b.cells[1].non_empty);
    assert!(!b.cells[2].focused);
    assert!(b.cells[2].non_empty);
    assert!(b.active);

    // The two monitors' focus indices are independent.
    assert_ne!(
        a.cells.iter().position(|c| c.focused),
        b.cells.iter().position(|c| c.focused),
    );

    // Exactly one monitor is active.
    let active_count = w.monitors.iter().filter(|m| m.active).count();
    assert_eq!(active_count, 1, "exactly one monitor must be active");
}

#[test]
fn maximized_window_and_monocle_container_both_mark_full_screen() {
    let w = project(
        vec![monitor(
            "FULL",
            workspaces(
                vec![
                    Workspace { maximized_window: Some(window("max")), ..Default::default() },
                    Workspace {
                        monocle_container: Some(Container::default()),
                        ..Default::default()
                    },
                    Workspace { containers: containers(1), ..Default::default() },
                ],
                0,
            ),
        )],
        0,
    );
    let m = &w.monitors[0];

    // ws 0: only `maximized_window` set.
    assert!(m.cells[0].full_screen);
    assert!(m.cells[0].non_empty);
    assert!(m.cells[0].focused);

    // ws 1: only `monocle_container` set.
    assert!(m.cells[1].full_screen);
    assert!(m.cells[1].non_empty);
    assert!(!m.cells[1].focused);

    // ws 2: normal container, no full-screen marker.
    assert!(!m.cells[2].full_screen);
    assert!(m.cells[2].non_empty);
}

#[test]
fn empty_trailing_workspaces_render_as_empty_cells() {
    let occupied = || Workspace { containers: containers(1), ..Default::default() };
    let w = project(
        vec![monitor("TRAIL-MON", workspaces(vec![occupied(), occupied()], 0))],
        0,
    );
    let m = &w.monitors[0];

    assert_eq!(m.id, "TRAIL-MON");
    assert!(m.cells[0].non_empty);
    assert!(m.cells[1].non_empty);

    // Only 2 workspaces reported → cells 2..8 must be the default.
    for i in 2..9 {
        assert_eq!(m.cells[i], CellState::empty(), "cell {i} should be empty");
    }
}
