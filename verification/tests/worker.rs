use komorebi_tray_grid::komorebi::pipe::{
    consumer_is_there, fetch_state, komorebi_is_alive, komorebi_socket_path, push_fresh_state,
    run_worker, subscribe_loop, subscriber_socket_path, subscription_name, watchdog_sockets,
    FetchError, Notification, QueryReply, SessionEnd, SessionEvent, SessionStep, Watchdog,
    WatchdogEvent, WatchdogStep, Worker, WorkerEvent, WorkerStep,
};
use komorebi_tray_grid::komorebi::state::WorldState;
use komorebi_tray_grid::komorebi::types::{Monitor, Ring, State};
use komorebi_tray_grid::windows_theme::{
    current_scheme, ColorScheme, SchemeWatcher, WatcherAction, WatcherEvent,
};

const LOCAL: &str = r"C:\Users\someone\AppData\Local";

fn one_monitor() -> State {
    State {
        monitors: Ring {
            elements: vec![Monitor { device_id: "DEV".into(), ..Default::default() }],
            focused: 0,
        },
    }
}

#[test]
fn subscription_name_is_stable_and_well_formed() {
    let a = subscription_name();
    let b = subscription_name();
    assert_eq!(a, b);
    assert_eq!(a, "komorebi-tray-grid.sock");
    // The leaf must not contain path separators.
    assert!(!a.contains('\\'));
    assert!(!a.contains('/'));
}

#[test]
fn komorebi_socket_path_is_under_localappdata_komorebi() {
    let s = komorebi_socket_path(Some(LOCAL)).unwrap();
    assert!(s.ends_with(r"\komorebi\komorebi.sock"), "unexpected socket path: {s}");
    assert_eq!(s, r"C:\Users\someone\AppData\Local\komorebi\komorebi.sock");
    assert_eq!(komorebi_socket_path(None), None);
}

#[test]
fn subscriber_socket_path_uses_data_dir_layout() {
    let s = subscriber_socket_path(Some(LOCAL), "komorebi-tray-grid-test.sock").unwrap();
    assert!(
        s.ends_with(r"\komorebi\komorebi-tray-grid-test.sock"),
        "unexpected subscriber socket path: {s}",
    );
    assert_eq!(subscriber_socket_path(None, "x"), None);
    assert_eq!(
        watchdog_sockets(Some(LOCAL), "x"),
        Some((format!(r"{LOCAL}\komorebi\komorebi.sock"), format!(r"{LOCAL}\komorebi\x")))
    );
    assert_eq!(watchdog_sockets(None, "x"), None);
}

#[test]
fn a_fetched_state_is_pushed() {
    let world = fetch_state(QueryReply::State(one_monitor())).unwrap();
    assert_eq!(world.monitors[0].id, "DEV");
    assert!(matches!(fetch_state(QueryReply::Unreachable), Err(FetchError::Query)));
    assert!(matches!(fetch_state(QueryReply::Malformed), Err(FetchError::Parse)));
    assert_eq!(push_fresh_state(Ok(world.clone())), Some(world));
    assert_eq!(push_fresh_state(Err(FetchError::Query)), None);
    assert!(consumer_is_there(None));
    assert!(consumer_is_there(Some(true)));
    assert!(!consumer_is_there(Some(false)));
}

#[test]
fn a_session_forwards_notifications() {
    let step = |e| subscribe_loop(e);
    assert!(matches!(step(SessionEvent::Subscribed { succeeded: true }), SessionStep::Accept));
    assert!(matches!(step(SessionEvent::Subscribed { succeeded: false }), SessionStep::Fail));
    assert!(matches!(step(SessionEvent::Accepted { restart: false }), SessionStep::Read));
    assert!(matches!(
        step(SessionEvent::Accepted { restart: true }),
        SessionStep::End(SessionEnd::WatchdogTriggered)
    ));
    assert!(matches!(step(SessionEvent::AcceptFailed), SessionStep::Fail));
    match step(SessionEvent::Read(Notification::State(one_monitor()))) {
        SessionStep::Send(world) => assert_eq!(world, WorldState::from(&one_monitor())),
        _ => panic!("the state is sent"),
    }
    assert!(matches!(step(SessionEvent::Read(Notification::Empty)), SessionStep::Accept));
    assert!(matches!(step(SessionEvent::Read(Notification::Malformed)), SessionStep::PushFresh));
    assert!(matches!(step(SessionEvent::Pushed { there: true }), SessionStep::Accept));
    assert!(matches!(
        step(SessionEvent::Pushed { there: false }),
        SessionStep::End(SessionEnd::ReceiverGone)
    ));
    assert!(matches!(step(SessionEvent::Sent { received: true }), SessionStep::Accept));
    assert!(matches!(
        step(SessionEvent::Sent { received: false }),
        SessionStep::End(SessionEnd::ReceiverGone)
    ));
}

#[test]
fn failures_in_a_row_back_off() {
    let mut worker = Worker::new();
    assert_eq!(run_worker(&mut worker, WorkerEvent::Started), WorkerStep::PushFresh);
    assert_eq!(run_worker(&mut worker, WorkerEvent::Pushed { there: true }), WorkerStep::Subscribe);
    for ms in [500, 1000, 2000, 4000, 8000, 10_000, 10_000] {
        assert_eq!(
            run_worker(&mut worker, WorkerEvent::SessionFailed { session_ms: 4_999 }),
            WorkerStep::Sleep { ms }
        );
        assert_eq!(run_worker(&mut worker, WorkerEvent::Slept), WorkerStep::PushFresh);
    }
    // A healthy session resets the delay.
    assert_eq!(
        run_worker(&mut worker, WorkerEvent::SessionFailed { session_ms: 5_000 }),
        WorkerStep::Sleep { ms: 500 }
    );
    assert_eq!(
        run_worker(&mut worker, WorkerEvent::SessionFailed { session_ms: 0 }),
        WorkerStep::Sleep { ms: 1000 }
    );
    // So does a restart of komorebi, without a delay.
    assert_eq!(
        run_worker(&mut worker, WorkerEvent::SessionEnded(SessionEnd::WatchdogTriggered)),
        WorkerStep::PushFresh
    );
    assert_eq!(
        run_worker(&mut worker, WorkerEvent::SessionFailed { session_ms: 0 }),
        WorkerStep::Sleep { ms: 500 }
    );
    assert_eq!(run_worker(&mut worker, WorkerEvent::Pushed { there: false }), WorkerStep::Exit);
    assert_eq!(
        run_worker(&mut worker, WorkerEvent::SessionEnded(SessionEnd::ReceiverGone)),
        WorkerStep::Exit
    );
}

#[test]
fn the_watchdog_triggers_when_komorebi_returns() {
    let mut dog = Watchdog::new(true);
    assert_eq!(dog.step(WatchdogEvent::Checked { shutting_down: false }), WatchdogStep::Wait);
    assert_eq!(dog.step(WatchdogEvent::Waited { stopped: false }), WatchdogStep::Probe);
    assert_eq!(dog.step(WatchdogEvent::Probed { alive: true }), WatchdogStep::Check);
    assert_eq!(dog.step(WatchdogEvent::Probed { alive: false }), WatchdogStep::Check);
    assert_eq!(dog.step(WatchdogEvent::Probed { alive: false }), WatchdogStep::Check);
    assert_eq!(dog.step(WatchdogEvent::Probed { alive: true }), WatchdogStep::TriggerRestart);
    assert_eq!(dog.step(WatchdogEvent::Probed { alive: true }), WatchdogStep::Check);
    assert_eq!(dog.step(WatchdogEvent::Waited { stopped: true }), WatchdogStep::Stop);
    assert_eq!(dog.step(WatchdogEvent::Checked { shutting_down: true }), WatchdogStep::Stop);
    let mut dog = Watchdog::new(false);
    assert_eq!(dog.step(WatchdogEvent::Probed { alive: true }), WatchdogStep::TriggerRestart);
    assert!(komorebi_is_alive(false, true));
    assert!(!komorebi_is_alive(false, false));
    assert!(!komorebi_is_alive(true, true));
}

#[test]
fn the_scheme_is_dark_unless_light_is_asked_for() {
    assert_eq!(current_scheme(None), ColorScheme::Dark);
    assert_eq!(current_scheme(Some(0)), ColorScheme::Dark);
    assert_eq!(current_scheme(Some(1)), ColorScheme::Light);
    assert_eq!(current_scheme(Some(u32::MAX)), ColorScheme::Light);
}

#[test]
fn the_scheme_watcher_notifies_of_changes() {
    let mut w = SchemeWatcher::new(ColorScheme::Dark);
    assert_eq!(w.step(WatcherEvent::WaitFailed), WatcherAction::Retry);
    assert_eq!(w.step(WatcherEvent::Changed(ColorScheme::Dark)), WatcherAction::Wait);
    assert_eq!(
        w.step(WatcherEvent::Changed(ColorScheme::Light)),
        WatcherAction::Notify(ColorScheme::Light)
    );
    assert_eq!(w.step(WatcherEvent::Notified { received: true }), WatcherAction::Wait);
    assert_eq!(w.step(WatcherEvent::Changed(ColorScheme::Light)), WatcherAction::Wait);
    assert_eq!(w.step(WatcherEvent::Notified { received: false }), WatcherAction::Stop);
}
