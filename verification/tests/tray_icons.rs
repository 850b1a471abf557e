use komorebi_tray_grid::komorebi::state::{MonitorState, WorldState};
use komorebi_tray_grid::menu::{Menu, MenuEntry};
use komorebi_tray_grid::render::{
    Theme, COLOR_ACTIVE_MONITOR, COLOR_INACTIVE_MONITOR,
};
use komorebi_tray_grid::tray::{monitors_by_id, tooltip_for, TrayManager};

fn monitor(id: &str) -> MonitorState {
    MonitorState { id: id.into(), ..Default::default() }
}

fn menu(label: &str) -> Menu {
    Menu { entries: vec![MenuEntry::Item { id: "x".into(), label: label.into() }] }
}

fn world(ids: &[&str]) -> WorldState {
    WorldState { monitors: ids.iter().map(|id| monitor(id)).collect() }
}

fn menus(n: usize) -> Vec<Menu> {
    (0..n).map(|i| menu(&format!("{i}"))).collect()
}

#[test]
fn monitors_are_ordered_as_strings_are() {
    let ids = ["b", "a", "", "aa", "é", "z", "\u{1F600}", "\u{FFFF}", "a", "B", "a\u{0}"];
    let w = world(&ids);
    let mut expected: Vec<usize> = (0..ids.len()).collect();
    expected.sort_by(|&i, &j| ids[i].cmp(ids[j]));
    assert_eq!(monitors_by_id(&w), expected);
}

#[test]
fn tooltips_prefer_the_label() {
    let mut m = monitor("ID");
    assert_eq!(tooltip_for(&m), "komorebi-tray-grid — ID");
    m.label = "DISPLAY1".into();
    assert_eq!(tooltip_for(&m), "komorebi-tray-grid — DISPLAY1");
}

#[test]
fn icons_follow_the_world() {
    let mut tray = TrayManager::new(Theme::default());
    assert!(tray.is_empty());
    let w = world(&["b", "a"]);
    let plan = tray.reconcile(&w, &menus(2));
    let ids: Vec<&str> = plan.updates.iter().map(|u| u.monitor_id.as_str()).collect();
    assert_eq!(ids, vec!["a", "b"]);
    assert!(plan.updates.iter().all(|u| u.create));
    assert_eq!(plan.updates[0].icon.id, "komorebi-tray-grid-a");
    assert_eq!(plan.updates[0].icon.rgba.len(), 4096);
    assert_eq!(plan.updates[1].menu, menu("1"));
    assert!(tray.finish(plan, None));
    assert_eq!(tray.len(), 2);
    assert_eq!(tray.menu("a"), Some(&menu("0")));
    assert_eq!(tray.monitor_id_for_tray("komorebi-tray-grid-b"), Some("b".into()));
    assert_eq!(tray.monitor_id_for_tray("komorebi-tray-grid-c"), None);
    assert_eq!(tray.monitor_id_for_tray("b"), None);

    // A second time nothing is created; a monitor that is gone loses its icon.
    let w = world(&["b", "c"]);
    let plan = tray.reconcile(&w, &menus(2));
    assert_eq!(
        plan.updates.iter().map(|u| u.create).collect::<Vec<_>>(),
        vec![false, true]
    );
    assert!(tray.finish(plan, None));
    assert_eq!(tray.len(), 2);
    assert!(tray.menu("a").is_none());
    assert!(tray.show_menu("a").is_none());
    let request = tray.show_menu("c").unwrap();
    assert_eq!((request.monitor_id.as_str(), request.tray_id.as_str()), ("c", "komorebi-tray-grid-c"));
    assert_eq!(request.menu, menu("1"));
    assert_eq!(tray.show_custom_menu("b", &menu("x")).unwrap().menu, menu("x"));
    assert!(tray.show_custom_menu("a", &menu("x")).is_none());

    tray.clear();
    assert!(tray.is_empty());
    // The menus are still there, and there is no icon to show them at.
    assert!(tray.menu("b").is_some());
    assert!(tray.show_menu("b").is_none());
}

#[test]
fn a_failed_update_keeps_what_was_there() {
    let mut tray = TrayManager::new(Theme::default());
    let plan = tray.reconcile(&world(&["old"]), &menus(1));
    assert!(tray.finish(plan, None));
    let plan = tray.reconcile(&world(&["a", "b", "c"]), &menus(3));
    assert!(!tray.finish(plan, Some(1)));
    assert_eq!(tray.len(), 2);
    assert!(tray.menu("old").is_some());
    assert!(tray.menu("a").is_some());
    assert!(tray.menu("b").is_none());
}

#[test]
fn the_same_identifier_twice_is_one_icon() {
    let mut tray = TrayManager::new(Theme::default());
    let plan = tray.reconcile(&world(&["a", "a"]), &menus(2));
    assert_eq!(
        plan.updates.iter().map(|u| u.create).collect::<Vec<_>>(),
        vec![true, false]
    );
    assert!(tray.finish(plan, None));
    assert_eq!(tray.len(), 1);
    assert_eq!(tray.menu("a"), Some(&menu("1")));
}

#[test]
fn the_border_tells_the_active_monitor() {
    let tray = TrayManager::new(Theme::default());
    // The only monitor is always the active one.
    let plan = tray.reconcile(&world(&["a"]), &menus(1));
    assert_eq!(plan.updates[0].icon.rgba[0..4], COLOR_ACTIVE_MONITOR);
    let mut w = world(&["a", "b"]);
    w.monitors[1].active = true;
    let plan = tray.reconcile(&w, &menus(2));
    assert_eq!(plan.updates[0].icon.rgba[0..4], COLOR_INACTIVE_MONITOR);
    assert_eq!(plan.updates[1].icon.rgba[0..4], COLOR_ACTIVE_MONITOR);
}

#[test]
fn themes_are_compared_color_by_color() {
    let mut tray = TrayManager::new(Theme::default());
    assert!(!tray.set_theme(Theme::default()));
    let other = Theme { empty: [0, 0, 0, 1], ..Theme::default() };
    assert!(tray.set_theme(other));
    assert!(!tray.set_theme(other));
}
