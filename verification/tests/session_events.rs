use komorebi_tray_grid::app::{MenuReaction, MouseButton, StateReaction, TrayEvent};
use komorebi_tray_grid::config::AppSettings;
use komorebi_tray_grid::event::UserEvent;
use komorebi_tray_grid::hotkey::{combine_parts, register_hotkey, Hotkey, InvalidHotkey};
use komorebi_tray_grid::komorebi::state::{MonitorState, WorldState};
use komorebi_tray_grid::session::{Reaction, Session};
use komorebi_tray_grid::windows_theme::ColorScheme;

fn world(xs: &[i32], active: Option<usize>) -> WorldState {
    WorldState {
        monitors: xs
            .iter()
            .enumerate()
            .map(|(i, &x)| MonitorState {
                id: format!("m{i}"),
                x,
                active: Some(i) == active,
                ..Default::default()
            })
            .collect(),
    }
}

fn started(w: WorldState) -> Session {
    let mut session = Session::new(AppSettings::default(), ColorScheme::Dark);
    assert!(session.on_init(false));
    match session.handle(UserEvent::StateChanged(w), 0) {
        Reaction::State(StateReaction::Reconcile(r)) => {
            session.app.as_mut().unwrap().finish_reconcile(r, None)
        }
        _ => panic!("a reconciliation was expected"),
    }
    session
}

fn press(session: &mut Session, menu_was_visible: bool) -> Option<usize> {
    match session.handle(UserEvent::Hotkey { menu_was_visible }, 0) {
        Reaction::OpenMenuAt(i) => Some(i),
        Reaction::Nothing => None,
        _ => panic!("a menu is opened or nothing happens"),
    }
}

#[test]
fn a_fresh_press_shows_the_focused_monitor_and_more_presses_cycle() {
    // From left to right: 1, 2, 0.
    let mut session = started(world(&[100, -5, 50], Some(2)));
    assert_eq!(press(&mut session, false), Some(2));
    let walk: Vec<_> = (0..6).map(|_| press(&mut session, true).unwrap()).collect();
    assert_eq!(walk, vec![0, 1, 2, 0, 1, 2]);
    assert_eq!(press(&mut session, false), Some(2));
}

#[test]
fn without_a_focused_monitor_the_leftmost_is_shown() {
    let mut session = started(world(&[100, -5, 50], None));
    assert_eq!(press(&mut session, false), Some(1));
    // A position that is gone counts as the leftmost.
    session.current_monitor_index = 9;
    assert_eq!(press(&mut session, true), Some(2));
}

#[test]
fn without_monitors_the_hotkey_does_nothing() {
    let mut session = Session::new(AppSettings::default(), ColorScheme::Dark);
    assert_eq!(press(&mut session, false), None);
    assert!(session.on_init(true));
    assert_eq!(press(&mut session, false), None);
    assert_eq!(press(&mut session, true), None);
    assert_eq!(session.current_monitor_index, 0);
}

#[test]
fn events_before_the_start_are_ignored() {
    let mut session = Session::new(AppSettings::default(), ColorScheme::Dark);
    let w = world(&[0], None);
    assert!(matches!(session.handle(UserEvent::StateChanged(w), 0), Reaction::Nothing));
    assert!(matches!(session.handle(UserEvent::Menu("quit".into()), 0), Reaction::Nothing));
    assert!(matches!(
        session.handle(UserEvent::TrayIcon(TrayEvent::Other), 0),
        Reaction::Nothing
    ));
    // The color scheme is followed all the same.
    assert!(matches!(
        session.handle(UserEvent::ColorSchemeChanged(ColorScheme::Light), 0),
        Reaction::Nothing
    ));
    assert_eq!(session.scheme, ColorScheme::Light);
}

#[test]
fn events_reach_the_application() {
    let mut session = started(world(&[0], Some(0)));
    let released = |button| {
        UserEvent::TrayIcon(TrayEvent::Click {
            tray_id: "komorebi-tray-grid-m0".into(),
            button,
            released: true,
        })
    };
    assert!(matches!(session.handle(released(MouseButton::Left), 0), Reaction::Nothing));
    assert!(matches!(session.handle(released(MouseButton::Middle), 0), Reaction::Nothing));
    match session.handle(released(MouseButton::Right), 0) {
        Reaction::OpenMenuFor(id) => assert_eq!(id, "m0"),
        _ => panic!("the menu is opened"),
    }
    match session.handle(UserEvent::ColorSchemeChanged(ColorScheme::Light), 0) {
        Reaction::Reconcile(r) => {
            assert_eq!(r.plan().updates[0].icon.rgba[0..4], [0x00, 0x67, 0xC0, 0xFF]);
            session.app.as_mut().unwrap().finish_reconcile(r, None);
        }
        _ => panic!("the icons are repainted"),
    }
    assert!(matches!(
        session.handle(UserEvent::ColorSchemeChanged(ColorScheme::Light), 0),
        Reaction::Nothing
    ));
    assert!(matches!(
        session.handle(UserEvent::Menu("quit".into()), 0),
        Reaction::Menu(MenuReaction::Quit)
    ));
}

fn key(vk: u32) -> Hotkey {
    Hotkey { control: false, alt: false, shift: false, win: false, vk }
}

#[test]
fn hotkeys_are_read() {
    assert_eq!(
        register_hotkey("ctrl+alt+k"),
        Ok(Hotkey { control: true, alt: true, ..key('K' as u32) })
    );
    assert_eq!(
        register_hotkey(" Control + Menu + Shift + Super + f24 "),
        Ok(Hotkey { control: true, alt: true, shift: true, win: true, vk: 0x87 })
    );
    assert_eq!(register_hotkey("WIN+1"), Ok(Hotkey { win: true, ..key('1' as u32) }));
    assert_eq!(register_hotkey("windows+f1"), Ok(Hotkey { win: true, ..key(0x70) }));
    assert_eq!(register_hotkey("F"), Ok(key('F' as u32)));
    assert_eq!(register_hotkey("F012"), Ok(key(0x6F + 12)));
    // Of several keys the last one counts; other parts are ignored.
    assert_eq!(register_hotkey("a+b+what+F25+"), Ok(key('B' as u32)));
    for invalid in ["", "+", "ctrl", "F25", "F0", "F", "é", "ß", "kk", "F4294967297", "ctrl+F-1"] {
        if invalid != "F" {
            assert_eq!(register_hotkey(invalid), Err(InvalidHotkey), "{invalid}");
        }
    }
    assert_eq!(InvalidHotkey.message("ctrl"), "invalid hotkey: ctrl");
    // White space of any kind is trimmed.
    assert_eq!(register_hotkey("\u{3000}shift\t+\u{a0}x"), Ok(Hotkey { shift: true, ..key('X' as u32) }));
}

#[test]
fn parts_are_taken_in_upper_case() {
    let parts = |p: &[&str]| p.iter().map(|s| s.to_string()).collect::<Vec<_>>();
    assert_eq!(
        combine_parts(&parts(&["CTRL", "Q"])),
        Ok(Hotkey { control: true, ..key('Q' as u32) })
    );
    assert_eq!(combine_parts(&parts(&["ctrl", "q"])), Ok(key('q' as u32)));
    assert_eq!(combine_parts(&parts(&["SHIFT", "WIN"])), Err(InvalidHotkey));
    assert_eq!(combine_parts(&parts(&[])), Err(InvalidHotkey));
    // The plus sign of a number is accepted.
    assert_eq!(combine_parts(&parts(&["F+3"])), Ok(key(0x72)));
}
