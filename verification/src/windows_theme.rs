//! Windows app color scheme and changes of it.

use vstd::prelude::*;

verus! {

/// Registry key, below the current user's root, that holds the color scheme.
pub const PERSONALIZE_PATH: &'static str =
    "Software\\Microsoft\\Windows\\CurrentVersion\\Themes\\Personalize";

/// Registry value that tells whether apps use the light theme.
pub const LIGHT_THEME_VALUE: &'static str = "AppsUseLightTheme";

/// How long to wait, in milliseconds, before watching again after a failure.
pub const RETRY_DELAY_MS: u64 = 750;

/// The color scheme of apps.
#[derive(Copy, Clone, Eq, PartialEq, Debug, Structural)]
pub enum ColorScheme {
    Dark,
    Light,
}

/// The color scheme that a registry value stands for. Where the key or the
/// value cannot be read, the scheme is dark.
pub open spec fn scheme_of(apps_use_light_theme: Option<u32>) -> ColorScheme {
    match apps_use_light_theme {
        Some(value) if value != 0 => ColorScheme::Light,
        _ => ColorScheme::Dark,
    }
}

/// The current color scheme, from the registry value if there is one.
pub fn current_scheme(apps_use_light_theme: Option<u32>) -> (scheme: ColorScheme)
    ensures
        scheme == scheme_of(apps_use_light_theme),
{
    let value: u32 = apps_use_light_theme.unwrap_or(0);
    if value == 0 {
        ColorScheme::Dark
    } else {
        ColorScheme::Light
    }
}

/// What the watcher of the color scheme learns.
#[derive(Copy, Clone, Eq, PartialEq, Debug, Structural)]
pub enum WatcherEvent {
    /// Waiting for a change of the registry key has failed.
    WaitFailed,
    /// The registry key has changed; this is the scheme now.
    Changed(ColorScheme),
    /// The event loop has received the notification, or is gone.
    Notified { received: bool },
}

/// What the watcher of the color scheme does next.
#[derive(Copy, Clone, Eq, PartialEq, Debug, Structural)]
pub enum WatcherAction {
    /// Wait for a change of the registry key.
    Wait,
    /// Sleep for [`RETRY_DELAY_MS`], and then wait for a change.
    Retry,
    /// Notify the event loop of the new scheme.
    Notify(ColorScheme),
    /// Stop watching.
    Stop,
}

/// Watches the color scheme, and notifies the event loop when it is another
/// one than before.
#[derive(Debug)]
pub struct SchemeWatcher {
    last_scheme: ColorScheme,
}

impl View for SchemeWatcher {
    type V = ColorScheme;

    closed spec fn view(&self) -> ColorScheme {
        self.last_scheme
    }
}

/// The scheme that is known after an event, and what is done next.
pub open spec fn watched(last: ColorScheme, event: WatcherEvent) -> (ColorScheme, WatcherAction) {
    match event {
        WatcherEvent::WaitFailed => (last, WatcherAction::Retry),
        WatcherEvent::Changed(scheme) => if scheme != last {
            (scheme, WatcherAction::Notify(scheme))
        } else {
            (last, WatcherAction::Wait)
        },
        WatcherEvent::Notified { received } => if received {
            (last, WatcherAction::Wait)
        } else {
            (last, WatcherAction::Stop)
        },
    }
}

impl SchemeWatcher {
    /// A watcher that knows the present scheme.
    pub fn new(scheme: ColorScheme) -> (watcher: SchemeWatcher)
        ensures
            watcher@ == scheme,
    {
        SchemeWatcher { last_scheme: scheme }
    }

    /// Decides what follows an event.
    pub fn step(&mut self, event: WatcherEvent) -> (action: WatcherAction)
        ensures
            (final(self)@, action) == watched(old(self)@, event),
    {
        match event {
            WatcherEvent::WaitFailed => WatcherAction::Retry,
            WatcherEvent::Changed(scheme) => if scheme != self.last_scheme {
                self.last_scheme = scheme;
                WatcherAction::Notify(scheme)
            } else {
                WatcherAction::Wait
            },
            WatcherEvent::Notified { received } => if received {
                WatcherAction::Wait
            } else {
                WatcherAction::Stop
            },
        }
    }
}

/// The watcher notifies of every change of the scheme once: after a
/// notification the same scheme brings none.
pub proof fn law_no_scheme_is_notified_twice(last: ColorScheme, scheme: ColorScheme)
    ensures
        watched(watched(last, WatcherEvent::Changed(scheme)).0, WatcherEvent::Changed(scheme)).1
            == WatcherAction::Wait,
{
}

/// The scheme is light exactly where the setting for it is there and is not zero.
pub proof fn law_the_setting_tells_the_scheme(setting: u32)
    ensures
        scheme_of(None) == ColorScheme::Dark,
        scheme_of(Some(setting)) == if setting == 0 {
            ColorScheme::Dark
        } else {
            ColorScheme::Light
        },
{
}

/// A change to another scheme is notified, with that scheme, and the watcher goes on
/// watching as long as the notification is received. A failure is retried.
pub proof fn law_changes_are_notified(last: ColorScheme, scheme: ColorScheme)
    ensures
        scheme != last ==> watched(last, WatcherEvent::Changed(scheme)) == (
            scheme,
            WatcherAction::Notify(scheme),
        ),
        scheme == last ==> watched(last, WatcherEvent::Changed(scheme)) == (
            last,
            WatcherAction::Wait,
        ),
        watched(last, WatcherEvent::WaitFailed) == (last, WatcherAction::Retry),
        watched(last, WatcherEvent::Notified { received: true }) == (last, WatcherAction::Wait),
        watched(last, WatcherEvent::Notified { received: false }) == (last, WatcherAction::Stop),
{
}

} // verus!
