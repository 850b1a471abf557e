//! The event loop's own state: the application, once it is set up, and what
//! lies around it.

use vstd::prelude::*;

use crate::app;
use crate::app::{App, MenuReaction, Reconcile, StateReaction};
use crate::config::AppSettings;
use crate::event::UserEvent;
use crate::komorebi::state;
use crate::order;
use crate::windows_theme::ColorScheme;

verus! {

/// Choosing a workspace in a menu opens the menu of its windows.
pub const WORKSPACE_SUBMENUS: bool = true;

/// The state of the event loop.
pub struct Session {
    /// The application, once the event loop has started.
    pub app: Option<App>,
    pub settings: AppSettings,
    pub scheme: ColorScheme,
    /// Position of the monitor whose menu the hotkey has opened last.
    pub current_monitor_index: usize,
}

/// What an event of the event loop leads to.
pub enum Reaction {
    /// Nothing happens.
    Nothing,
    /// See [`App::on_state_changed`].
    State(StateReaction),
    /// See [`App::on_menu_event`].
    Menu(MenuReaction),
    /// The icons have to be reconciled.
    Reconcile(Reconcile),
    /// The menu of the monitor at this position is opened with
    /// [`App::show_menu_for_monitor_index`].
    OpenMenuAt(usize),
    /// The menu of this monitor is opened with
    /// [`App::show_menu_for_monitor`].
    OpenMenuFor(String),
}

/// The monitor whose menu a press of the hotkey opens. `positions` lists the
/// monitors from left to right.
///
/// A fresh press shows the focused monitor, or the leftmost one where none is
/// focused. A press while a menu is displayed advances to the next monitor to
/// the right, wrapping back to the leftmost.
pub open spec fn hotkey_choice(
    positions: Seq<usize>,
    active: Option<int>,
    current: usize,
    menu_was_visible: bool,
) -> Option<usize> {
    if positions.len() == 0 {
        None
    } else if menu_was_visible {
        let at = match positions.index_of_first(current) {
            Some(i) => i,
            None => 0,
        };
        Some(positions[(at + 1) % positions.len() as int])
    } else {
        match active {
            Some(i) => Some(i as usize),
            None => Some(positions[0]),
        }
    }
}

fn find_position(positions: &Vec<usize>, wanted: usize) -> (at: usize)
    ensures
        at == (match positions@.index_of_first(wanted) {
            Some(i) => i,
            None => 0,
        }),
{
    proof {
        positions@.index_of_first_ensures(wanted);
    }
    let mut i: usize = 0;
    while i < positions.len()
        invariant
            i <= positions@.len(),
            forall|k: int| 0 <= k < i ==> positions@[k] != wanted,
        decreases positions@.len() - i,
    {
        if positions[i] == wanted {
            proof {
                positions@.index_of_first_ensures(wanted);
                assert(positions@.contains(wanted));
            }
            return i;
        }
        i += 1;
    }
    0
}

impl Session {
    /// The application keeps its invariant.
    pub open spec fn inv(&self) -> bool {
        self.app matches Some(a) ==> a.inv()
    }

    /// The state of the event loop before it starts.
    pub fn new(settings: AppSettings, scheme: ColorScheme) -> (session: Session)
        ensures
            session.inv(),
            session.app is None,
            session.settings == settings,
            session.scheme == scheme,
            session.current_monitor_index == 0,
    {
        Session { app: None, settings, scheme, current_monitor_index: 0 }
    }

    /// Sets the application up when the event loop starts. Returns whether that
    /// has succeeded; where it has not, the event loop ends.
    pub fn on_init(&mut self, autostart_enabled: bool) -> (started: bool)
        ensures
            final(self).inv(),
            started,
            final(self).app matches Some(a) && a@ == (app::AppView {
                world: state::WorldView { monitors: Seq::empty() },
                tray: crate::tray::TrayView {
                    icons: Map::empty(),
                    menus: Map::empty(),
                    theme: match old(self).scheme {
                        ColorScheme::Dark => old(self).settings.themes.dark,
                        ColorScheme::Light => old(self).settings.themes.light,
                    },
                },
                autostart: autostart_enabled,
                max_title: old(self).settings.max_title_length,
                max_combined: old(self).settings.max_combined_title_length,
                submenus: WORKSPACE_SUBMENUS,
                tables: app::TablesView::empty(),
                menu_opened_at: None,
                pending: None,
            }),
            final(self).settings == old(self).settings,
            final(self).scheme == old(self).scheme,
            final(self).current_monitor_index == old(self).current_monitor_index,
    {
        match App::new(
            autostart_enabled,
            self.settings.themes.for_scheme(self.scheme),
            self.settings.max_title_length,
            self.settings.max_combined_title_length,
            WORKSPACE_SUBMENUS,
        ) {
            Ok(a) => {
                self.app = Some(a);
                true
            },
            Err(_) => false,
        }
    }

    /// Chooses the monitor whose menu a press of the hotkey opens.
    pub fn on_hotkey(&mut self, menu_was_visible: bool) -> (index: Option<usize>)
        requires
            old(self).inv(),
        ensures
            final(self).inv(),
            final(self).app == old(self).app,
            final(self).settings == old(self).settings,
            final(self).scheme == old(self).scheme,
            final(self).current_monitor_index == (match index {
                Some(i) => i,
                None => old(self).current_monitor_index,
            }),
            index == (match old(self).app {
                Some(a) => hotkey_choice(
                    app::left_to_right(a@.world),
                    a@.world.active_position(),
                    old(self).current_monitor_index,
                    menu_was_visible,
                ),
                None => None,
            }),
            index matches Some(i) ==> old(self).app is Some && i
                < old(self).app->0@.world.monitors.len(),
    {
        let index: Option<usize> = match &self.app {
            Some(a) => {
                let positions: Vec<usize> = a.monitors_left_to_right();
                if positions.len() == 0 {
                    None
                } else if menu_was_visible {
                    let at: usize = find_position(&positions, self.current_monitor_index);
                    proof {
                        positions@.index_of_first_ensures(self.current_monitor_index);
                    }
                    Some(positions[(at + 1) % positions.len()])
                } else {
                    match a.active_monitor_index() {
                        Some(i) => Some(i),
                        None => Some(positions[0]),
                    }
                }
            },
            None => None,
        };
        if let Some(i) = index {
            self.current_monitor_index = i;
        }
        index
    }

    /// Handles an event that came at the time `now`. Before the application is
    /// set up, only the color scheme is followed.
    pub fn handle(&mut self, event: UserEvent, now: u64) -> (reaction: Reaction)
        requires
            old(self).inv(),
            event matches UserEvent::StateChanged(world) ==> state::menu_ready(world@),
        ensures
            final(self).inv(),
            final(self).settings == old(self).settings,
            match event {
                UserEvent::StateChanged(world) => {
                    &&& final(self).scheme == old(self).scheme
                    &&& final(self).current_monitor_index == old(self).current_monitor_index
                    &&& match (old(self).app, final(self).app) {
                        (Some(before), Some(after)) => reaction matches Reaction::State(r) && (
                            after@,
                            r@,
                        ) == app::on_state(before@, world@, now),
                        (None, None) => reaction is Nothing,
                        _ => false,
                    }
                },
                UserEvent::Menu(id) => {
                    &&& final(self).scheme == old(self).scheme
                    &&& final(self).current_monitor_index == old(self).current_monitor_index
                    &&& match (old(self).app, final(self).app) {
                        (Some(before), Some(after)) => reaction matches Reaction::Menu(r) && (
                            after@,
                            r@,
                        ) == app::on_menu(before@, id@, now),
                        (None, None) => reaction is Nothing,
                        _ => false,
                    }
                },
                UserEvent::ColorSchemeChanged(scheme) => {
                    &&& final(self).scheme == scheme
                    &&& final(self).current_monitor_index == old(self).current_monitor_index
                    &&& theme_changed(*old(self), *final(self), reaction)
                },
                UserEvent::TrayIcon(tray_event) => {
                    &&& *final(self) == *old(self)
                    &&& match (old(self).app, reaction) {
                        (Some(a), Reaction::OpenMenuFor(id)) => tray_event
                            matches app::TrayEvent::Click {
                            tray_id,
                            button: app::MouseButton::Right,
                            released: true,
                        }
                            && a@.tray.icons.contains_key(id@) && tray_id@
                            == crate::tray::tray_id_of(id@),
                        (Some(a), Reaction::Nothing) => tray_event
                            matches app::TrayEvent::Click {
                            tray_id,
                            button: app::MouseButton::Right,
                            released: true,
                        }
                            ==> forall|id: Seq<char>| #[trigger]
                            a@.tray.icons.contains_key(id) ==> tray_id@
                                != crate::tray::tray_id_of(id),
                        (None, Reaction::Nothing) => true,
                        _ => false,
                    }
                },
                UserEvent::Hotkey { menu_was_visible } => {
                    &&& final(self).app == old(self).app
                    &&& final(self).scheme == old(self).scheme
                    &&& match hotkey_target(*old(self), menu_was_visible) {
                        Some(i) => reaction == Reaction::OpenMenuAt(i)
                            && final(self).current_monitor_index == i,
                        None => reaction is Nothing && final(self).current_monitor_index
                            == old(self).current_monitor_index,
                    }
                },
            },
    {
        match event {
            UserEvent::StateChanged(world) => match &mut self.app {
                Some(a) => Reaction::State(a.on_state_changed(world, now)),
                None => Reaction::Nothing,
            },
            UserEvent::Menu(id) => match &mut self.app {
                Some(a) => Reaction::Menu(a.on_menu_event(id.as_str(), now)),
                None => Reaction::Nothing,
            },
            UserEvent::ColorSchemeChanged(scheme) => {
                if scheme != self.scheme {
                    self.scheme = scheme;
                    let theme = self.settings.themes.for_scheme(scheme);
                    match &mut self.app {
                        Some(a) => match a.on_theme_changed(theme) {
                            Some(reconcile) => Reaction::Reconcile(reconcile),
                            None => Reaction::Nothing,
                        },
                        None => Reaction::Nothing,
                    }
                } else {
                    Reaction::Nothing
                }
            },
            UserEvent::TrayIcon(tray_event) => match &self.app {
                Some(a) => match a.on_tray_event(&tray_event) {
                    Some(id) => Reaction::OpenMenuFor(id),
                    None => Reaction::Nothing,
                },
                None => Reaction::Nothing,
            },
            UserEvent::Hotkey { menu_was_visible } => match self.on_hotkey(menu_was_visible) {
                Some(i) => Reaction::OpenMenuAt(i),
                None => Reaction::Nothing,
            },
        }
    }
}

/// The monitor whose menu a press of the hotkey opens in a session.
pub open spec fn hotkey_target(session: Session, menu_was_visible: bool) -> Option<usize> {
    match session.app {
        Some(a) => hotkey_choice(
            app::left_to_right(a@.world),
            a@.world.active_position(),
            session.current_monitor_index,
            menu_was_visible,
        ),
        None => None,
    }
}

/// What a change of the color scheme leads to. `after` has the new scheme
/// already.
pub open spec fn theme_changed(before: Session, after: Session, reaction: Reaction) -> bool {
    if before.scheme == after.scheme {
        after.app == before.app && reaction is Nothing
    } else {
        let theme = match after.scheme {
            ColorScheme::Dark => before.settings.themes.dark,
            ColorScheme::Light => before.settings.themes.light,
        };
        match (before.app, after.app) {
            (Some(a), Some(b)) => {
                let themed = crate::tray::TrayView { theme, ..a@.tray };
                &&& b@ == app::AppView { tray: themed, tables: app::TablesView::empty(), ..a@ }
                &&& match reaction {
                    Reaction::Reconcile(r) => a@.tray.theme != theme && r@ == app::reconcile_of(
                        app::AppView { tray: themed, ..a@ },
                    ),
                    Reaction::Nothing => a@.tray.theme == theme,
                    _ => false,
                }
            },
            (None, None) => reaction is Nothing,
            _ => false,
        }
    }
}

// ---------------------------------------------------------------------------
// Laws
// ---------------------------------------------------------------------------

/// A fresh press of the hotkey shows the focused monitor.
pub proof fn law_fresh_press_shows_the_focused_monitor(
    positions: Seq<usize>,
    active: int,
    current: usize,
)
    requires
        positions.len() > 0,
    ensures
        hotkey_choice(positions, Some(active), current, false) == Some(active as usize),
{
}

/// The monitor whose menu is displayed after `k` presses of the hotkey while
/// menus are displayed.
pub open spec fn pressed(positions: Seq<usize>, start: usize, k: nat) -> usize
    decreases k,
{
    if k == 0 {
        start
    } else {
        hotkey_choice(positions, None, pressed(positions, start, (k - 1) as nat), true)->0
    }
}

/// Repeated presses walk the monitors from left to right and wrap around.
pub proof fn law_presses_walk_left_to_right(positions: Seq<usize>, at: int, k: nat)
    requires
        0 <= at < positions.len(),
        positions.no_duplicates(),
    ensures
        pressed(positions, positions[at], k) == positions[(at + k) % positions.len() as int],
    decreases k,
{
    let n = positions.len() as int;
    if k == 0 {
        vstd::arithmetic::div_mod::lemma_small_mod(at as nat, n as nat);
    } else {
        law_presses_walk_left_to_right(positions, at, (k - 1) as nat);
        let before = (at + k - 1) % n;
        vstd::arithmetic::div_mod::lemma_mod_bound(at + k - 1, n);
        positions.index_of_first_ensures(positions[before]);
        assert(positions.contains(positions[before]));
        let found = positions.index_of_first(positions[before])->0;
        assert(found == before) by {
            assert(positions[found] == positions[before]);
        }
        assert((before + 1) % n == (at + k) % n) by {
            vstd::arithmetic::div_mod::lemma_add_mod_noop(at + k - 1, 1, n);
            vstd::arithmetic::div_mod::lemma_add_mod_noop(before, 1, n);
            vstd::arithmetic::div_mod::lemma_mod_twice(at + k - 1, n);
        }
    }
}

/// From any monitor, every monitor is reached within as many presses as there
/// are monitors.
pub proof fn law_presses_reach_every_monitor(positions: Seq<usize>, at: int, wanted: int)
    requires
        0 <= at < positions.len(),
        0 <= wanted < positions.len(),
        positions.no_duplicates(),
    ensures
        exists|k: nat|
            k < positions.len() && #[trigger] pressed(positions, positions[at], k)
                == positions[wanted],
{
    let n = positions.len() as int;
    let k = if wanted >= at {
        (wanted - at) as nat
    } else {
        (wanted - at + n) as nat
    };
    law_presses_walk_left_to_right(positions, at, k);
    if wanted >= at {
        vstd::arithmetic::div_mod::lemma_small_mod(wanted as nat, n as nat);
    } else {
        vstd::arithmetic::div_mod::lemma_mod_add_multiples_vanish(wanted, n);
        vstd::arithmetic::div_mod::lemma_small_mod(wanted as nat, n as nat);
        assert((at + k) % n == wanted % n);
    }
    assert(pressed(positions, positions[at], k) == positions[wanted]);
}

/// Of two monitors, the second lies further to the right, or as far to the right and
/// is reported later.
pub open spec fn is_right_of(world: state::WorldView, first: int, second: int) -> bool {
    world.monitors[first].x < world.monitors[second].x || (world.monitors[first].x
        == world.monitors[second].x && first < second)
}

/// Where a monitor is listed from left to right.
proof fn lemma_listed_at(world: state::WorldView, p: int) -> (at: int)
    requires
        0 <= p < world.monitors.len() <= usize::MAX,
    ensures
        0 <= at < app::left_to_right(world).len(),
        app::left_to_right(world).len() == world.monitors.len(),
        app::left_to_right(world)[at] == p,
        app::left_to_right(world).no_duplicates(),
{
    let n = world.monitors.len();
    let leq = app::by_x(world);
    let positions = app::left_to_right(world);
    assert(vstd::relations::total_ordering(leq));
    order::law_sorted_positions(n, leq);
    order::lemma_listed_somewhere(positions, n, p as usize);
    assert forall|i: int, j: int| 0 <= i < positions.len() && 0 <= j < positions.len() && i
        != j implies positions[i] != positions[j] by {
        if i < j {
            assert(positions[i] != positions[j]);
        } else {
            assert(positions[j] != positions[i]);
        }
    }
    choose|at: int| 0 <= at < n && positions[at] == p as usize
}

/// The order in which monitors are listed is that from left to right.
proof fn lemma_listed_to_the_right(world: state::WorldView, a: int, b: int)
    requires
        0 <= a < world.monitors.len() <= usize::MAX,
        0 <= b < world.monitors.len(),
        a != b,
    ensures
        a < b <==> is_right_of(
            world,
            app::left_to_right(world)[a] as int,
            app::left_to_right(world)[b] as int,
        ),
{
    if a < b {
        app::law_monitors_are_listed_from_left_to_right(world, a, b);
    } else {
        app::law_monitors_are_listed_from_left_to_right(world, b, a);
    }
}

/// A press of the hotkey while no menu is displayed opens the menu of the first
/// monitor that is active, and where none is, that of the leftmost one.
pub proof fn law_fresh_press_opens_the_active_monitor(session: Session, q: int)
    requires
        session.app is Some,
        0 <= q < session.app->0@.world.monitors.len() <= usize::MAX,
    ensures
        ({
            let world = session.app->0@.world;
            let target = hotkey_target(session, false)->0 as int;
            &&& hotkey_target(session, false) is Some
            &&& target < world.monitors.len()
            &&& if exists|j: int| 0 <= j < world.monitors.len() && (
                #[trigger] world.monitors[j]).active {
                world.monitors[target].active && (world.monitors[q].active ==> target <= q)
            } else {
                q != target ==> is_right_of(world, target, q)
            }
        }),
{
    let world = session.app->0@.world;
    state::law_the_active_monitor_is_marked(world);
    let at = lemma_listed_at(world, q);
    if world.active_position() is None {
        let first = app::left_to_right(world)[0] as int;
        let leq = app::by_x(world);
        assert(vstd::relations::total_ordering(leq));
        order::law_sorted_positions(world.monitors.len(), leq);
        if at != 0 {
            lemma_listed_to_the_right(world, 0, at);
        }
    }
}

/// A press of the hotkey while a menu is displayed opens the menu of the next monitor
/// to the right: one that lies to the right of the last one with none between them.
/// From the rightmost one it goes back to the leftmost one.
pub proof fn law_further_press_opens_the_next_monitor(session: Session, q: int)
    requires
        session.app is Some,
        0 <= q < session.app->0@.world.monitors.len() <= usize::MAX,
        session.current_monitor_index < session.app->0@.world.monitors.len(),
    ensures
        ({
            let world = session.app->0@.world;
            let current = session.current_monitor_index as int;
            let target = hotkey_target(session, true)->0 as int;
            &&& hotkey_target(session, true) is Some
            &&& target < world.monitors.len()
            &&& if exists|j: int|
                0 <= j < world.monitors.len() && #[trigger] is_right_of(world, current, j) {
                &&& is_right_of(world, current, target)
                &&& !(is_right_of(world, current, q) && is_right_of(world, q, target))
            } else {
                q != target ==> is_right_of(world, target, q)
            }
        }),
{
    let world = session.app->0@.world;
    let n = world.monitors.len() as int;
    let positions = app::left_to_right(world);
    let current = session.current_monitor_index as int;
    let at = lemma_listed_at(world, current);
    let at_q = lemma_listed_at(world, q);
    positions.index_of_first_ensures(session.current_monitor_index);
    assert(positions.contains(session.current_monitor_index));
    let found = positions.index_of_first(session.current_monitor_index)->0;
    assert(found == at) by {
        assert(positions[found] == positions[at]);
    }
    let next = (at + 1) % n;
    let leq = app::by_x(world);
    assert(vstd::relations::total_ordering(leq));
    order::law_sorted_positions(world.monitors.len(), leq);
    if at + 1 < n {
        vstd::arithmetic::div_mod::lemma_small_mod((at + 1) as nat, n as nat);
        lemma_listed_to_the_right(world, at, next);
        assert(is_right_of(world, current, positions[next] as int));
        if at_q != at {
            lemma_listed_to_the_right(world, at, at_q);
        }
        if at_q != next {
            lemma_listed_to_the_right(world, at_q, next);
        }
    } else {
        vstd::arithmetic::div_mod::lemma_mod_self_0(n);
        assert(next == 0);
        assert forall|j: int| 0 <= j < n implies !#[trigger] is_right_of(world, current, j) by {
            let at_j = lemma_listed_at(world, j);
            if at_j != at {
                lemma_listed_to_the_right(world, at, at_j);
            }
        }
        if at_q != 0 {
            lemma_listed_to_the_right(world, 0, at_q);
        }
    }
}

/// Without an application, or without monitors, a press opens nothing.
pub proof fn law_presses_need_a_monitor(session: Session, menu_was_visible: bool)
    requires
        session.app matches Some(a) ==> a@.world.monitors.len() == 0,
    ensures
        hotkey_target(session, menu_was_visible) is None,
{
    if session.app is Some {
        let leq = app::by_x(session.app->0@.world);
        assert(vstd::relations::total_ordering(leq));
        order::law_sorted_positions(0, leq);
    }
}

/// A change of the color scheme applies the theme of the new scheme, and repaints the
/// icons in it unless they have it already. The same scheme changes nothing.
pub proof fn law_scheme_changes_apply_their_theme(
    before: Session,
    after: Session,
    reaction: Reaction,
)
    requires
        theme_changed(before, after, reaction),
        before.app is Some,
        after.app is Some,
    ensures
        before.scheme == after.scheme ==> after.app == before.app && reaction is Nothing,
        before.scheme != after.scheme ==> {
            let theme = if after.scheme == ColorScheme::Light {
                before.settings.themes.light
            } else {
                before.settings.themes.dark
            };
            &&& after.app->0@.tray.theme == theme
            &&& after.app->0@.tray.icons == before.app->0@.tray.icons
            &&& after.app->0@.world == before.app->0@.world
            &&& reaction is Reconcile <==> before.app->0@.tray.theme != theme
            &&& reaction is Nothing <==> before.app->0@.tray.theme == theme
        },
{
}

/// Where the monitor whose menu was opened last is gone, a press while a menu is
/// displayed goes on as if that had been the leftmost monitor.
pub proof fn law_presses_go_on_from_the_leftmost_monitor(session: Session, leftmost: int, q: int)
    requires
        session.app is Some,
        0 <= q < session.app->0@.world.monitors.len() <= usize::MAX,
        0 <= leftmost < session.app->0@.world.monitors.len(),
        session.app->0@.world.monitors.len() <= session.current_monitor_index,
        forall|j: int|
            0 <= j < session.app->0@.world.monitors.len() && j != leftmost
                ==> #[trigger] is_right_of(session.app->0@.world, leftmost, j),
    ensures
        ({
            let world = session.app->0@.world;
            let target = hotkey_target(session, true)->0 as int;
            &&& hotkey_target(session, true) is Some
            &&& world.monitors.len() == 1 ==> target == leftmost
            &&& world.monitors.len() > 1 ==> is_right_of(world, leftmost, target) && !(is_right_of(
                world,
                leftmost,
                q,
            ) && is_right_of(world, q, target))
        }),
{
    let world = session.app->0@.world;
    let n = world.monitors.len() as int;
    let positions = app::left_to_right(world);
    let at = lemma_listed_at(world, leftmost);
    let at_q = lemma_listed_at(world, q);
    let leq = app::by_x(world);
    assert(vstd::relations::total_ordering(leq));
    order::law_sorted_positions(world.monitors.len(), leq);
    positions.index_of_first_ensures(session.current_monitor_index);
    if positions.contains(session.current_monitor_index) {
        let i = choose|i: int|
            0 <= i < positions.len() && positions[i] == session.current_monitor_index;
        assert(positions[i] < n);
    }
    if at != 0 {
        lemma_listed_to_the_right(world, 0, at);
        assert(is_right_of(world, leftmost, positions[0] as int));
    }
    if n == 1 {
        assert(1int % n == 0);
    } else {
        vstd::arithmetic::div_mod::lemma_small_mod(1, n as nat);
        lemma_listed_to_the_right(world, 0, 1);
        if at_q != 0 {
            lemma_listed_to_the_right(world, 0, at_q);
        }
        if at_q != 1 {
            lemma_listed_to_the_right(world, at_q, 1);
        }
    }
}

} // verus!
