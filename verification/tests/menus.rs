use komorebi_tray_grid::app::{App, MenuReaction, MouseButton, StateReaction, TrayEvent};
use komorebi_tray_grid::komorebi::client::SocketMessage;
use komorebi_tray_grid::komorebi::state::{
    MonitorState, WindowMenuState, WorkspaceMenuState, WorldState,
};
use komorebi_tray_grid::menu::{build_menu_for_monitor, Menu, MenuEntry};
use komorebi_tray_grid::menu_id::{
    decode_hex, encode_monitor_id, focus_menu_id, parse_window_menu_id, parse_workspace_menu_id,
    window_menu_id, workspace_menu_id,
};
use komorebi_tray_grid::render::Theme;
use komorebi_tray_grid::table::Table;

fn labels(menu: &Menu) -> Vec<String> {
    menu.entries
        .iter()
        .filter_map(|e| match e {
            MenuEntry::Check { label, .. } => Some(label.clone()),
            MenuEntry::Item { label, .. } => Some(label.clone()),
            MenuEntry::Separator => None,
        })
        .collect()
}

fn checks(menu: &Menu) -> Vec<(String, bool)> {
    menu.entries
        .iter()
        .filter_map(|e| match e {
            MenuEntry::Check { label, checked, .. } => Some((label.clone(), *checked)),
            _ => None,
        })
        .collect()
}

fn window(title: &str) -> WindowMenuState {
    WindowMenuState { title: title.into(), ..Default::default() }
}

/// Performs a reconciliation in which every update succeeds.
fn reconcile(app: &mut App, reaction: StateReaction) {
    match reaction {
        StateReaction::Reconcile(r) => app.finish_reconcile(r, None),
        _ => panic!("a reconciliation was expected"),
    }
}

fn two_workspaces() -> WorldState {
    WorldState {
        monitors: vec![MonitorState {
            id: "m1".into(),
            menu_workspaces: vec![
                WorkspaceMenuState { index: 0, focused: true, windows: vec![window("Win1")] },
                WorkspaceMenuState { index: 1, focused: false, windows: vec![window("Win2")] },
            ],
            ..Default::default()
        }],
    }
}

#[test]
fn test_empty_workspaces_filtered_except_focused() {
    let mut workspace_items = Table::new();
    let mut window_items = Table::new();

    let monitor = MonitorState {
        id: "m1".into(),
        menu_workspaces: vec![
            WorkspaceMenuState { index: 0, focused: false, windows: vec![window("Win1")] },
            // Filtered: neither focused nor occupied.
            WorkspaceMenuState { index: 1, focused: false, windows: vec![] },
            // Focused, so not filtered.
            WorkspaceMenuState { index: 2, focused: true, windows: vec![] },
            WorkspaceMenuState { index: 3, focused: false, windows: vec![window("Win2")] },
        ],
        ..Default::default()
    };

    let (ws_menu, virtual_submenus) = build_menu_for_monitor(
        &monitor,
        &mut workspace_items,
        &mut window_items,
        "autostart".to_string(),
        "quit".to_string(),
        false,
        64,
        96,
        true,
    );

    let ws_labels = labels(&ws_menu);
    assert!(ws_labels.iter().any(|l| l.contains("&1. Win1")));
    assert!(!ws_labels.iter().any(|l| l.contains("&2.")));
    assert!(ws_labels.contains(&"&3.".to_string()));
    assert!(ws_labels.iter().any(|l| l.contains("&4. Win2")));

    assert_eq!(virtual_submenus.len(), 3);
    let win_menu_0 = virtual_submenus.get(&0).unwrap();
    let win_labels_0: Vec<String> = checks(win_menu_0).into_iter().map(|c| c.0).collect();
    assert!(win_labels_0.contains(&"&1. Win1".to_string()));

    // Three workspaces, each with a main entry and a focus entry.
    assert_eq!(workspace_items.len(), 6);
    assert_eq!(window_items.len(), 2);
}

#[test]
fn test_parse_workspace_menu_id() {
    assert_eq!(parse_workspace_menu_id("ws-h6d312d61-0"), Some(("m1-a".into(), 0)));
    assert_eq!(parse_workspace_menu_id("ws-h4445562d31-3"), Some(("DEV-1".into(), 3)));
    // Older numeric ids are still accepted.
    assert_eq!(parse_workspace_menu_id("ws-12-7"), Some(("12".into(), 7)));
    // Non-workspace ids are ignored.
    assert_eq!(parse_workspace_menu_id("autostart"), None);
    assert_eq!(parse_workspace_menu_id("quit"), None);
    assert_eq!(parse_workspace_menu_id("ws-1"), None);
    assert_eq!(parse_workspace_menu_id("ws-a-b"), None);
}

#[test]
fn test_encode_monitor_id_round_trips_through_workspace_menu_id() {
    let encoded = encode_monitor_id("DEV-1");
    let id = format!("ws-h{encoded}-4");
    assert_eq!(parse_workspace_menu_id(&id), Some(("DEV-1".into(), 4)));
}

#[test]
fn workspace_ids_accept_what_numbers_accept() {
    assert_eq!(parse_workspace_menu_id("ws-a-+7"), Some(("a".into(), 7)));
    assert_eq!(parse_workspace_menu_id("ws-a-007"), Some(("a".into(), 7)));
    assert_eq!(parse_workspace_menu_id("ws--7"), Some(("".into(), 7)));
    assert_eq!(parse_workspace_menu_id("ws-a--7"), None);
    assert_eq!(parse_workspace_menu_id("ws-a-"), None);
    assert_eq!(parse_workspace_menu_id("ws-a-+"), None);
    assert_eq!(parse_workspace_menu_id("ws-a-7-8"), None);
    assert_eq!(
        parse_workspace_menu_id(&format!("ws-a-{}", usize::MAX)),
        Some(("a".into(), usize::MAX))
    );
    assert_eq!(parse_workspace_menu_id(&format!("ws-a-{}0", usize::MAX)), None);
    assert_eq!(parse_workspace_menu_id(&format!("ws-a-{}", usize::MAX as u128 + 1)), None);
    // A part that starts with `h` has to be hexadecimal.
    assert_eq!(parse_workspace_menu_id("ws-hello-7"), None);
}

#[test]
fn window_ids_read_back() {
    for id in ["m1", "DEV-1", "", "é\u{1F600}-x", "h", "-"] {
        for (ws, win) in [(0usize, 0usize), (3, 12), (usize::MAX, 9)] {
            assert_eq!(
                parse_window_menu_id(&window_menu_id(id, ws, win)),
                Some((id.to_string(), ws, win))
            );
            assert_eq!(
                parse_workspace_menu_id(&workspace_menu_id(id, ws)),
                Some((id.to_string(), ws))
            );
            assert_eq!(focus_menu_id(id, ws), format!("focus-{}", workspace_menu_id(id, ws)));
        }
    }
    assert_eq!(parse_window_menu_id("win-m-1"), None);
    assert_eq!(parse_window_menu_id("win-m-1-2"), Some(("m".into(), 1, 2)));
    assert_eq!(parse_window_menu_id("win-m-1-2-3"), None);
    assert_eq!(parse_window_menu_id("ws-m-1"), None);
    assert_eq!(window_menu_id("m1", 2, 10), "win-h6d31-2-10");
}

#[test]
fn hexadecimal_text_is_decoded_strictly() {
    assert_eq!(decode_hex("c3a9"), Some("é".to_string()));
    assert_eq!(decode_hex("C3A9"), Some("é".to_string()));
    assert_eq!(decode_hex(""), Some(String::new()));
    // Odd, not hexadecimal, not UTF-8.
    assert_eq!(decode_hex("6"), None);
    assert_eq!(decode_hex("6g"), None);
    assert_eq!(decode_hex("é"), None);
    assert_eq!(decode_hex("ff"), None);
    assert_eq!(encode_monitor_id("é"), "c3a9");
}

#[test]
fn test_monitors_ordered_left_to_right_by_x() {
    let mut app = App::new(false, Theme::default(), 64, 96, true).unwrap();
    let reaction = app.on_state_changed(
        WorldState {
            monitors: vec![
                MonitorState { id: "middle".into(), x: 1920, ..Default::default() },
                MonitorState { id: "left".into(), x: 0, ..Default::default() },
                MonitorState { id: "right".into(), x: 3840, ..Default::default() },
            ],
        },
        0,
    );
    reconcile(&mut app, reaction);
    assert_eq!(app.monitors_left_to_right(), vec![1, 0, 2]);
    assert_eq!(app.monitor_count(), 3);
    assert_eq!(app.active_monitor_index(), None);
}

#[test]
fn monitors_at_the_same_place_keep_their_order() {
    let mut app = App::new(false, Theme::default(), 64, 96, true).unwrap();
    let xs = [5, -3, 5, i32::MIN, 5, -3, i32::MAX];
    let reaction = app.on_state_changed(
        WorldState {
            monitors: xs
                .iter()
                .enumerate()
                .map(|(i, &x)| MonitorState { id: format!("m{i}"), x, ..Default::default() })
                .collect(),
        },
        0,
    );
    reconcile(&mut app, reaction);
    let mut expected: Vec<usize> = (0..xs.len()).collect();
    expected.sort_by_key(|&i| xs[i]);
    assert_eq!(app.monitors_left_to_right(), expected);
}

#[test]
fn test_state_buffering_and_flush() {
    let mut app = App::new(false, Theme::default(), 64, 96, true).unwrap();
    let state1 = WorldState {
        monitors: vec![MonitorState { id: "m1".into(), ..Default::default() }],
    };
    let state2 = WorldState {
        monitors: vec![MonitorState { id: "m2".into(), ..Default::default() }],
    };

    // Normal update
    let reaction = app.on_state_changed(state1.clone(), 0);
    reconcile(&mut app, reaction);
    assert_eq!(*app.world(), state1);

    // An open menu locks the icons.
    let request = app.open_menu("m1", 0);
    assert!(request.is_some());
    assert!(app.menu_visible());

    // Update while menu open
    assert!(matches!(app.on_state_changed(state2.clone(), 1), StateReaction::Buffered));
    assert_eq!(*app.world(), state1, "State should be buffered, not applied");
    assert_eq!(app.pending_world(), Some(&state2));

    // Flush
    let flush = app.clear_menu_lock().unwrap();
    app.finish_reconcile(flush, None);
    assert_eq!(*app.world(), state2, "Buffered state should be applied after clear_menu_lock");
    assert_eq!(app.pending_world(), None);
    assert!(!app.menu_visible());
}

#[test]
fn a_return_to_the_shown_state_takes_the_waiting_one_back() {
    let world = |id: &str| WorldState {
        monitors: vec![MonitorState { id: id.into(), ..Default::default() }],
    };
    let mut app = App::new(false, Theme::default(), 64, 96, true).unwrap();
    let reaction = app.on_state_changed(world("a"), 0);
    reconcile(&mut app, reaction);
    let _ = app.open_menu("a", 0);
    assert!(matches!(app.on_state_changed(world("b"), 1), StateReaction::Buffered));
    assert!(matches!(app.on_state_changed(world("a"), 2), StateReaction::Unchanged));
    assert_eq!(app.pending_world(), None);
    assert!(app.menu_visible());
    assert!(app.clear_menu_lock().is_none());
    assert_eq!(*app.world(), world("a"));
}

#[test]
fn a_menu_lock_that_lasts_too_long_is_broken() {
    let world = |id: &str| WorldState {
        monitors: vec![MonitorState { id: id.into(), ..Default::default() }],
    };
    let mut app = App::new(false, Theme::default(), 64, 96, true).unwrap();
    let reaction = app.on_state_changed(world("m1"), 0);
    reconcile(&mut app, reaction);
    let _ = app.open_menu("m1", 1_000);
    // Just before the timeout the state still waits.
    assert!(matches!(app.on_state_changed(world("m2"), 10_000_000_999), StateReaction::Buffered));
    // At the timeout the one that waited is flushed first.
    match app.on_state_changed(world("m3"), 10_000_001_000) {
        StateReaction::FlushFirst { first, state } => {
            assert_eq!(*app.world(), world("m2"));
            app.finish_reconcile(first, None);
            assert!(app.tray().menu("m2").is_some());
            assert_eq!(state, world("m3"));
            let r = app.apply_state(state);
            app.finish_reconcile(r, None);
        }
        _ => panic!("the state that waited is flushed first"),
    }
    assert_eq!(*app.world(), world("m3"));
    assert!(app.tray().menu("m2").is_none());
    assert_eq!(app.tray().len(), 1);
    assert!(!app.menu_visible());
    // The state that is shown changes nothing.
    assert!(matches!(app.on_state_changed(world("m3"), 0), StateReaction::Unchanged));
}

#[test]
fn test_workspace_submenus_disabled() {
    let mut workspace_items = Table::new();
    let mut window_items = Table::new();

    let monitor = MonitorState {
        id: "m1".into(),
        menu_workspaces: vec![WorkspaceMenuState {
            index: 0,
            focused: false,
            windows: vec![window("Win1")],
        }],
        ..Default::default()
    };

    let (_ws_menu, virtual_submenus) = build_menu_for_monitor(
        &monitor,
        &mut workspace_items,
        &mut window_items,
        "auto".to_string(),
        "quit".to_string(),
        false,
        64,
        96,
        false,
    );

    assert_eq!(virtual_submenus.len(), 0, "No virtual submenus should be built");
    assert_eq!(window_items.len(), 0);

    // The workspace entry is still recorded for fallback focus.
    let ws_item_id = format!("ws-h{}-0", encode_monitor_id("m1"));
    assert!(workspace_items.contains_key(&ws_item_id));
}

#[test]
fn test_workspace_menu_checkmarks_consistent_after_submenu_interaction() {
    let mut app = App::new(false, Theme::default(), 64, 96, true).unwrap();
    let reaction = app.on_state_changed(two_workspaces(), 0);
    reconcile(&mut app, reaction);

    // WS 0 is checked, WS 1 is unchecked.
    let initial_checks = checks(app.tray().menu("m1").expect("menu exists"));
    assert_eq!(initial_checks.len(), 3); // WS 0, WS 1, autostart
    assert!(initial_checks[0].1, "WS 0 should be checked initially");
    assert!(!initial_checks[1].1, "WS 1 should be unchecked initially");

    // The user clicks on WS 1.
    let ws1_id = format!("ws-h{}-1", encode_monitor_id("m1"));
    match app.on_menu_event(&ws1_id, 5) {
        MenuReaction::ShowSubmenu(Some(request)) => {
            assert_eq!(request.monitor_id, "m1");
            assert_eq!(request.tray_id, "komorebi-tray-grid-m1");
            assert_eq!(labels(&request.menu), vec!["Focus Workspace", "&1. Win2"]);
        }
        _ => panic!("the window menu is shown"),
    }
    assert!(app.menu_visible());
    assert!(app.clear_menu_lock().is_none());
    let r = app.reconcile_tray();
    app.finish_reconcile(r, None);

    let post_checks = checks(app.tray().menu("m1").unwrap());
    assert!(post_checks[0].1, "WS 0 must remain checked");
    assert!(!post_checks[1].1, "WS 1 must remain unchecked");
}

#[test]
fn test_window_menu_checkmarks_for_active_window() {
    let mut workspace_items = Table::new();
    let mut window_items = Table::new();

    let monitor = MonitorState {
        id: "m1".into(),
        menu_workspaces: vec![WorkspaceMenuState {
            index: 0,
            focused: true,
            windows: vec![
                WindowMenuState {
                    title: "Win A".into(),
                    hwnd: 100,
                    focused: false,
                    ..Default::default()
                },
                WindowMenuState {
                    title: "Win B".into(),
                    hwnd: 200,
                    focused: true,
                    ..Default::default()
                },
            ],
        }],
        ..Default::default()
    };

    let (_ws_menu, virtual_submenus) = build_menu_for_monitor(
        &monitor,
        &mut workspace_items,
        &mut window_items,
        "autostart".to_string(),
        "quit".to_string(),
        false,
        64,
        96,
        true,
    );

    let win_menu = virtual_submenus.get(&0).expect("submenu 0 exists");
    let win_checks = checks(win_menu);

    assert_eq!(win_checks.len(), 2);
    assert_eq!(win_checks[0].0, "&1. Win A");
    assert!(!win_checks[0].1, "Win A should not be checked");
    assert_eq!(win_checks[1].0, "&2. Win B");
    assert!(win_checks[1].1, "Win B should be checked");
    let (m, w, hwnd) = window_items.get(&window_menu_id("m1", 0, 1)).unwrap();
    assert_eq!((m.as_str(), *w, *hwnd), ("m1", 0, 200));
}

#[test]
fn labels_join_and_shorten_titles() {
    let mut workspace_items = Table::new();
    let mut window_items = Table::new();
    let monitor = MonitorState {
        id: "m1".into(),
        menu_workspaces: vec![WorkspaceMenuState {
            index: 8,
            focused: true,
            windows: (0..11).map(|i| window(&format!("window {i}"))).collect(),
        }],
        ..Default::default()
    };
    let (menu, submenus) = build_menu_for_monitor(
        &monitor,
        &mut workspace_items,
        &mut window_items,
        "autostart".to_string(),
        "quit".to_string(),
        true,
        5,
        12,
        true,
    );
    assert_eq!(
        menu.entries,
        vec![
            MenuEntry::Check {
                id: "ws-h6d31-8".into(),
                label: "&9. wind…, wind…".into(),
                checked: true
            },
            MenuEntry::Separator,
            MenuEntry::Check {
                id: "autostart".into(),
                label: "&Enable autostart".into(),
                checked: true
            },
            MenuEntry::Item { id: "quit".into(), label: "&Quit".into() },
        ]
    );
    let win_menu = submenus.get(&8).unwrap();
    assert_eq!(win_menu.entries.len(), 13);
    assert_eq!(
        win_menu.entries[0],
        MenuEntry::Item { id: "focus-ws-h6d31-8".into(), label: "Focus Workspace".into() }
    );
    assert_eq!(win_menu.entries[1], MenuEntry::Separator);
    assert_eq!(
        win_menu.entries[10],
        MenuEntry::Check { id: "win-h6d31-8-8".into(), label: "&9. wind…".into(), checked: false }
    );
    // From the tenth window on there is no mnemonic.
    assert_eq!(
        win_menu.entries[11],
        MenuEntry::Check { id: "win-h6d31-8-9".into(), label: "wind…".into(), checked: false }
    );
}

#[test]
fn every_entry_leads_to_what_it_shows() {
    let mut app = App::new(false, Theme::default(), 64, 96, true).unwrap();
    let mut world = two_workspaces();
    world.monitors[0].menu_workspaces[1].windows[0].hwnd = 77;
    world.monitors.insert(0, MonitorState { id: "zero".into(), ..Default::default() });
    let reaction = app.on_state_changed(world, 0);
    reconcile(&mut app, reaction);

    match app.on_menu_event(&focus_menu_id("m1", 1), 1) {
        MenuReaction::SwitchWorkspace(command) => {
            assert_eq!(command, Some(SocketMessage::FocusMonitorWorkspaceNumber(1, 1)))
        }
        _ => panic!("the workspace is focused"),
    }
    match app.on_menu_event(&window_menu_id("m1", 1, 0), 1) {
        MenuReaction::FocusWindow { workspace, hwnd } => {
            assert_eq!(workspace, SocketMessage::FocusMonitorWorkspaceNumber(1, 1));
            assert_eq!(hwnd, 77);
        }
        _ => panic!("the window is focused"),
    }
    // A workspace without a window menu is focused at once.
    match app.on_menu_event(&workspace_menu_id("m1", 5), 1) {
        MenuReaction::FocusWorkspace { command, reconcile } => {
            assert_eq!(command, Some(SocketMessage::FocusMonitorWorkspaceNumber(1, 5)));
            app.finish_reconcile(reconcile, None);
        }
        _ => panic!("the workspace is focused"),
    }
    // A monitor that is gone is not.
    match app.on_menu_event(&workspace_menu_id("gone", 0), 1) {
        MenuReaction::FocusWorkspace { command, reconcile } => {
            assert_eq!(command, None);
            app.finish_reconcile(reconcile, None);
        }
        _ => panic!("nothing is focused"),
    }
    assert!(matches!(
        app.on_menu_event(&focus_menu_id("gone", 0), 1),
        MenuReaction::SwitchWorkspace(None)
    ));
    assert!(matches!(app.on_menu_event("win-gone-0-0", 1), MenuReaction::Nothing));
    assert!(matches!(app.on_menu_event("win-m1-0-9", 1), MenuReaction::Nothing));
    assert!(matches!(app.on_menu_event("win-m1-9-0", 1), MenuReaction::Nothing));
    assert!(matches!(app.on_menu_event("ws-", 1), MenuReaction::Nothing));
    assert!(matches!(app.on_menu_event("focus-ws-", 1), MenuReaction::Nothing));
    assert!(matches!(app.on_menu_event("something", 1), MenuReaction::Nothing));
    // What is not recorded is looked up in the world.
    assert!(matches!(
        app.on_menu_event("win-m1-1-0", 1),
        MenuReaction::FocusWindow { hwnd: 77, .. }
    ));
}

#[test]
fn quit_drops_every_icon() {
    let mut app = App::new(false, Theme::default(), 64, 96, true).unwrap();
    let reaction = app.on_state_changed(two_workspaces(), 0);
    reconcile(&mut app, reaction);
    assert_eq!(app.tray().len(), 1);
    assert!(matches!(app.on_menu_event("quit", 0), MenuReaction::Quit));
    assert!(app.tray().is_empty());
}

#[test]
fn a_waiting_state_is_flushed_before_an_activation() {
    let mut app = App::new(false, Theme::default(), 64, 96, true).unwrap();
    let reaction = app.on_state_changed(two_workspaces(), 0);
    reconcile(&mut app, reaction);
    let _ = app.open_menu("m1", 0);
    let _ = app.on_state_changed(WorldState::default(), 1);
    match app.on_menu_event("quit", 2) {
        MenuReaction::Flush(r) => app.finish_reconcile(r, None),
        _ => panic!("the state that waited comes first"),
    }
    assert_eq!(app.monitor_count(), 0);
    assert!(matches!(app.on_menu_event("quit", 2), MenuReaction::Quit));
}

#[test]
fn the_autostart_entry_shows_the_state_in_effect() {
    let mut app = App::new(false, Theme::default(), 64, 96, true).unwrap();
    let reaction = app.on_state_changed(two_workspaces(), 0);
    reconcile(&mut app, reaction);
    assert!(matches!(app.on_menu_event("autostart", 0), MenuReaction::ToggleAutostart));
    assert!(App::requested_autostart(false));
    assert!(!App::requested_autostart(true));
    let r = app.on_autostart_applied(true);
    app.finish_reconcile(r, None);
    assert_eq!(
        checks(app.tray().menu("m1").unwrap()).last().unwrap(),
        &("&Enable autostart".to_string(), true)
    );
    // A change from outside shows when the menu is opened.
    let opening = app.show_menu_for_monitor("m1", false);
    assert_eq!(opening.monitor_id, "m1");
    app.finish_reconcile(opening.reconcile, None);
    let request = app.open_menu("m1", 9).unwrap();
    assert_eq!(checks(&request.menu).last().unwrap(), &("&Enable autostart".to_string(), false));
    assert!(app.show_menu_for_monitor_index(1, false).is_none());
    let opening = app.show_menu_for_monitor_index(0, true).unwrap();
    assert_eq!(opening.monitor_id, "m1");
}

#[test]
fn the_right_button_opens_the_menu_of_its_icon() {
    let mut app = App::new(false, Theme::default(), 64, 96, true).unwrap();
    let reaction = app.on_state_changed(two_workspaces(), 0);
    reconcile(&mut app, reaction);
    let click = |id: &str, button, released| TrayEvent::Click {
        tray_id: id.into(),
        button,
        released,
    };
    let icon = "komorebi-tray-grid-m1";
    assert_eq!(app.on_tray_event(&click(icon, MouseButton::Right, true)), Some("m1".into()));
    assert_eq!(app.on_tray_event(&click(icon, MouseButton::Right, false)), None);
    for button in [MouseButton::Left, MouseButton::Middle] {
        assert_eq!(app.on_tray_event(&click(icon, button, true)), None);
        assert_eq!(app.on_tray_event(&click(icon, button, false)), None);
    }
    let other = "komorebi-tray-grid-m2";
    assert_eq!(app.on_tray_event(&click(other, MouseButton::Right, true)), None);
    assert_eq!(app.on_tray_event(&click("m1", MouseButton::Right, true)), None);
    assert_eq!(app.on_tray_event(&TrayEvent::Other), None);
}

#[test]
fn a_failed_reconciliation_leaves_entries_unrecorded() {
    let mut app = App::new(false, Theme::default(), 64, 96, true).unwrap();
    let reaction = app.on_state_changed(two_workspaces(), 0);
    match reaction {
        StateReaction::Reconcile(r) => {
            assert_eq!(r.plan().updates.len(), 1);
            app.finish_reconcile(r, Some(0));
        }
        _ => panic!("a reconciliation was expected"),
    }
    assert!(app.tray().is_empty());
    assert!(app.tray().menu("m1").is_none());
    // Without window menus the workspace is focused.
    assert!(matches!(
        app.on_menu_event(&workspace_menu_id("m1", 1), 0),
        MenuReaction::FocusWorkspace { .. }
    ));
}

#[test]
fn another_theme_repaints_and_the_same_one_does_not() {
    let mut app = App::new(false, Theme::default(), 64, 96, true).unwrap();
    let reaction = app.on_state_changed(two_workspaces(), 0);
    reconcile(&mut app, reaction);
    assert!(app.on_theme_changed(Theme::default()).is_none());
    let theme = Theme { active_monitor_border: [1, 2, 3, 4], ..Theme::default() };
    let r = app.on_theme_changed(theme).unwrap();
    assert_eq!(r.plan().updates[0].icon.rgba[0..4], [1, 2, 3, 4]);
    assert!(!r.plan().updates[0].create);
    app.finish_reconcile(r, None);
}
