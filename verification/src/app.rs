//! Top-level event-loop application logic.
//!
//! [`App`] owns the tray manager, the latest state of the world and what the
//! entries of the menus stand for. Each handler decides what an event leads to
//! and hands back what the event loop has to do on the platform. Where that is
//! a reconciliation of the icons, the event loop performs the updates of its
//! plan and reports their outcome with [`App::finish_reconcile`].

use vstd::prelude::*;
use vstd::relations::*;

use crate::komorebi::client::SocketMessage;
use crate::komorebi::state;
use crate::komorebi::state::{MonitorState, WorldState};
use crate::komorebi::types;
use crate::menu;
use crate::menu::Menu;
use crate::menu_id;
use crate::model;
use crate::order;
use crate::render;
use crate::render::Theme;
use crate::table::Table;
use crate::text;
use crate::tray;
use crate::tray::{MenuRequest, TrayManager, TrayPlan};

verus! {

/// Longest time, in nanoseconds, for which an open menu defers the updates of
/// the icons. It only matters where the closing of a menu goes unnoticed.
pub const MENU_LOCK_TIMEOUT_NS: u64 = 10_000_000_000;

/// What the entries of the menus stand for.
pub struct MenuTables {
    /// Maps the identifier of an entry to a monitor and a workspace index.
    workspace_items: Table<String, (String, usize)>,
    /// Maps the identifier of an entry to a monitor, a workspace index and a
    /// window handle.
    window_items: Table<String, (String, usize, usize)>,
    /// Maps a monitor to the window menus of its workspaces.
    virtual_submenus: Table<String, Table<usize, Menu>>,
}

/// A reconciliation of the icons that is under way: what has to be done, and
/// what the entries of the new menus stand for.
pub struct Reconcile {
    plan: TrayPlan,
    tables: MenuTables,
}

/// The full event-loop-bound application.
pub struct App {
    world: WorldState,
    tray: TrayManager,
    autostart_item_id: String,
    quit_item_id: String,
    initial_autostart: bool,
    max_title_length: usize,
    max_combined_title_length: usize,
    workspace_submenus: bool,
    tables: MenuTables,
    /// When the menu was last opened, in nanoseconds; set while it is open.
    menu_opened_at: Option<u64>,
    /// The latest state of the world that came while the menu was open.
    pending_world: Option<WorldState>,
}

/// Why the application could not be set up.
#[derive(Debug, Clone, Copy, PartialEq, Eq)]
pub struct AppError;

// ---------------------------------------------------------------------------
// Views
// ---------------------------------------------------------------------------

/// View of [`MenuTables`].
#[verifier::ext_equal]
pub ghost struct TablesView {
    pub workspace_items: Map<Seq<char>, (Seq<char>, usize)>,
    pub window_items: Map<Seq<char>, (Seq<char>, usize, usize)>,
    pub virtual_submenus: Map<Seq<char>, Map<usize, Seq<menu::EntryView>>>,
}

/// View of a [`Reconcile`].
#[verifier::ext_equal]
pub ghost struct ReconcileView {
    pub plan: Seq<tray::UpdateView>,
    pub tables: TablesView,
}

/// View of an [`App`].
#[verifier::ext_equal]
pub ghost struct AppView {
    pub world: state::WorldView,
    pub tray: tray::TrayView,
    pub autostart: bool,
    pub max_title: usize,
    pub max_combined: usize,
    pub submenus: bool,
    pub tables: TablesView,
    pub menu_opened_at: Option<u64>,
    pub pending: Option<state::WorldView>,
}

impl View for MenuTables {
    type V = TablesView;

    closed spec fn view(&self) -> TablesView {
        TablesView {
            workspace_items: self.workspace_items@,
            window_items: self.window_items@,
            virtual_submenus: self.virtual_submenus@,
        }
    }
}

impl View for Reconcile {
    type V = ReconcileView;

    closed spec fn view(&self) -> ReconcileView {
        ReconcileView { plan: self.plan@, tables: self.tables@ }
    }
}

impl View for App {
    type V = AppView;

    closed spec fn view(&self) -> AppView {
        AppView {
            world: self.world@,
            tray: self.tray@,
            autostart: self.initial_autostart,
            max_title: self.max_title_length,
            max_combined: self.max_combined_title_length,
            submenus: self.workspace_submenus,
            tables: self.tables@,
            menu_opened_at: self.menu_opened_at,
            pending: model::opt_view(self.pending_world),
        }
    }
}

impl TablesView {
    /// Tables without entries.
    pub open spec fn empty() -> TablesView {
        TablesView {
            workspace_items: Map::empty(),
            window_items: Map::empty(),
            virtual_submenus: Map::empty(),
        }
    }
}

// ---------------------------------------------------------------------------
// What a reconciliation is
// ---------------------------------------------------------------------------

/// The menus of all monitors, in the order of their identifiers.
pub open spec fn menus_for(
    world: state::WorldView,
    autostart: bool,
    max_title: usize,
    max_combined: usize,
) -> Seq<Seq<menu::EntryView>> {
    let positions = tray::order_by_id(world);
    Seq::new(
        world.monitors.len(),
        |i: int|
            menu::monitor_menu(
                world.monitors[positions[i] as int],
                "autostart"@,
                "quit"@,
                autostart,
                max_title as nat,
                max_combined as nat,
            ),
    )
}

/// The menus that the application shows.
pub open spec fn menus_of(app: AppView) -> Seq<Seq<menu::EntryView>> {
    menus_for(app.world, app.autostart, app.max_title, app.max_combined)
}

/// What the entries of the menus of the first `n` monitors stand for.
pub open spec fn tables_upto(
    world: state::WorldView,
    max_title: usize,
    submenus: bool,
    n: nat,
) -> TablesView
    decreases n,
{
    if n == 0 {
        TablesView::empty()
    } else {
        let before = tables_upto(world, max_title, submenus, (n - 1) as nat);
        let monitor = world.monitors[tray::order_by_id(world)[n - 1] as int];
        let shown = menu::listed(monitor.menu_workspaces);
        TablesView {
            workspace_items: menu::with_workspace_items(
                before.workspace_items,
                monitor.id,
                shown,
                submenus,
            ),
            window_items: menu::with_window_items(
                before.window_items,
                monitor.id,
                shown,
                submenus,
            ),
            virtual_submenus: before.virtual_submenus.insert(
                monitor.id,
                menu::window_menus(monitor.id, shown, max_title as nat, submenus),
            ),
        }
    }
}

/// What the entries of the menus that the application shows stand for.
pub open spec fn tables_of(app: AppView) -> TablesView {
    tables_upto(app.world, app.max_title, app.submenus, app.world.monitors.len())
}

/// The reconciliation that brings the icons and the menus in step with the
/// world.
pub open spec fn reconcile_of(app: AppView) -> ReconcileView {
    ReconcileView {
        plan: tray::planned(app.tray, app.world, menus_of(app)),
        tables: tables_of(app),
    }
}

impl AppView {
    /// What holds of the application between two events: the world, and the one
    /// that waits to be shown, can be shown in menus; a world waits only while a
    /// menu is open; and the entries of the menus stand for nothing, or for what
    /// they show of the present world.
    pub open spec fn valid(self) -> bool {
        &&& state::menu_ready(self.world)
        &&& state::within_memory(self.world)
        &&& self.pending matches Some(world) ==> {
            &&& state::menu_ready(world)
            &&& state::within_memory(world)
            &&& self.menu_opened_at is Some
        }
        &&& self.tables == TablesView::empty() || self.tables == tables_of(self)
    }
}

impl MenuTables {
    fn new() -> (tables: MenuTables)
        ensures
            tables@ == TablesView::empty(),
    {
        MenuTables {
            workspace_items: Table::new(),
            window_items: Table::new(),
            virtual_submenus: Table::new(),
        }
    }
}

impl Reconcile {
    /// The icons of a plan are named after their monitors.
    #[verifier::type_invariant]
    spec fn icons_are_named(self) -> bool {
        forall|i: int|
            0 <= i < self.plan@.len() ==> (#[trigger] self.plan@[i]).icon.id == tray::tray_id_of(
                self.plan@[i].monitor_id,
            )
    }

    /// The updates that have to be performed.
    pub fn plan(&self) -> (plan: &TrayPlan)
        ensures
            plan@ == self@.plan,
    {
        &self.plan
    }
}

impl App {
    /// The application is valid, and its own entries have their identifiers.
    pub closed spec fn inv(&self) -> bool {
        &&& self@.valid()
        &&& self.autostart_item_id@ == "autostart"@
        &&& self.quit_item_id@ == "quit"@
    }

    /// The application is valid between any two calls, so every law of a valid
    /// application holds of it.
    pub proof fn law_application_stays_valid(&self)
        requires
            self.inv(),
        ensures
            self@.valid(),
    {
    }

    /// Sets up the application with no monitors.
    pub fn new(
        initial_autostart: bool,
        theme: Theme,
        max_title_length: usize,
        max_combined_title_length: usize,
        workspace_submenus: bool,
    ) -> (app: Result<App, AppError>)
        ensures
            app matches Ok(a) && a.inv() && a@ == (AppView {
                world: state::WorldView { monitors: Seq::empty() },
                tray: tray::TrayView { icons: Map::empty(), menus: Map::empty(), theme },
                autostart: initial_autostart,
                max_title: max_title_length,
                max_combined: max_combined_title_length,
                submenus: workspace_submenus,
                tables: TablesView::empty(),
                menu_opened_at: None,
                pending: None,
            }),
    {
        Ok(
            App {
                world: WorldState::default(),
                tray: TrayManager::new(theme),
                autostart_item_id: "autostart".to_owned(),
                quit_item_id: "quit".to_owned(),
                initial_autostart,
                max_title_length,
                max_combined_title_length,
                workspace_submenus,
                tables: MenuTables::new(),
                menu_opened_at: None,
                pending_world: None,
            },
        )
    }

    /// Builds all menus and what their entries stand for.
    fn build_menus(&self) -> (built: (Vec<Menu>, MenuTables))
        requires
            self.inv(),
        ensures
            model::seq_view(built.0@) == menus_of(self@),
            built.1@ == tables_of(self@),
    {
        let positions: Vec<usize> = tray::monitors_by_id(&self.world);
        let mut menus: Vec<Menu> = Vec::new();
        let mut workspace_items: Table<String, (String, usize)> = Table::new();
        let mut window_items: Table<String, (String, usize, usize)> = Table::new();
        let mut virtual_submenus: Table<String, Table<usize, Menu>> = Table::new();
        let mut i: usize = 0;
        while i < positions.len()
            invariant
                self.inv(),
                i <= positions@.len(),
                positions@ == tray::order_by_id(self@.world),
                positions@.len() == self.world.monitors@.len(),
                forall|k: int|
                    0 <= k < positions@.len() ==> #[trigger] positions@[k]
                        < self.world.monitors@.len(),
                menus@.len() == i,
                forall|k: int| 0 <= k < i ==> (#[trigger] menus@[k])@ == menus_of(self@)[k],
                workspace_items@ == tables_upto(
                    self@.world,
                    self@.max_title,
                    self@.submenus,
                    i as nat,
                ).workspace_items,
                window_items@ == tables_upto(
                    self@.world,
                    self@.max_title,
                    self@.submenus,
                    i as nat,
                ).window_items,
                virtual_submenus@ == tables_upto(
                    self@.world,
                    self@.max_title,
                    self@.submenus,
                    i as nat,
                ).virtual_submenus,
            decreases positions@.len() - i,
        {
            let monitor: &MonitorState = &self.world.monitors[positions[i]];
            proof {
                assert(self@.world.monitors[positions@[i as int] as int] == monitor@);
            }
            let (menu, submenus) = menu::build_menu_for_monitor(
                monitor,
                &mut workspace_items,
                &mut window_items,
                self.autostart_item_id.clone(),
                self.quit_item_id.clone(),
                self.initial_autostart,
                self.max_title_length,
                self.max_combined_title_length,
                self.workspace_submenus,
            );
            virtual_submenus.insert(monitor.id.clone(), submenus);
            menus.push(menu);
            i += 1;
        }
        proof {
            assert(model::seq_view(menus@) =~= menus_of(self@));
        }
        (menus, MenuTables { workspace_items, window_items, virtual_submenus })
    }

    /// Starts a reconciliation of the icons with the world. Until it has
    /// succeeded, the entries of the menus stand for nothing.
    pub fn reconcile_tray(&mut self) -> (reconcile: Reconcile)
        requires
            old(self).inv(),
        ensures
            final(self).inv(),
            final(self)@ == (AppView { tables: TablesView::empty(), ..old(self)@ }),
            reconcile@ == reconcile_of(old(self)@),
    {
        let (menus, tables) = self.build_menus();
        self.tables = MenuTables::new();
        proof {
            assert(menus@.len() == model::seq_view(menus@).len());
        }
        let plan: TrayPlan = self.tray.reconcile(&self.world, &menus);
        Reconcile { plan, tables }
    }

    /// Records the outcome of a reconciliation: which update of its plan has
    /// failed, if one has. The entries of the new menus stand for what they
    /// show only where all have succeeded. A reconciliation is finished before the
    /// world changes again.
    pub fn finish_reconcile(&mut self, reconcile: Reconcile, failed_at: Option<usize>)
        requires
            old(self).inv(),
            reconcile@.tables == tables_of(old(self)@),
        ensures
            final(self).inv(),
            final(self)@ == finished(old(self)@, reconcile@, failed_at),
    {
        proof {
            use_type_invariant(&reconcile);
        }
        let Reconcile { plan, tables } = reconcile;
        let succeeded = self.tray.finish(plan, failed_at);
        if succeeded {
            self.tables = tables;
        }
    }
}

/// The application after a reconciliation.
pub open spec fn finished(
    app: AppView,
    reconcile: ReconcileView,
    failed_at: Option<usize>,
) -> AppView {
    AppView {
        tray: tray::finished(app.tray, reconcile.plan, failed_at),
        tables: if failed_at matches Some(k) && k < reconcile.plan.len() {
            app.tables
        } else {
            reconcile.tables
        },
        ..app
    }
}

// ---------------------------------------------------------------------------
// Changes of the world
// ---------------------------------------------------------------------------

/// What a new state of the world leads to.
pub enum StateReaction {
    /// The state is the one that is shown already; none waits any more.
    Unchanged,
    /// A menu is open; the state waits until it is closed.
    Buffered,
    /// The icons have to be reconciled.
    Reconcile(Reconcile),
    /// The icons have to be reconciled with the state that waited while a menu
    /// was open for too long; once that is finished, `state` is applied with
    /// [`App::apply_state`].
    FlushFirst { first: Reconcile, state: WorldState },
}

/// View of a [`StateReaction`].
#[verifier::ext_equal]
pub ghost enum StateReactionView {
    Unchanged,
    Buffered,
    Reconcile(ReconcileView),
    FlushFirst { first: ReconcileView, state: state::WorldView },
}

impl View for StateReaction {
    type V = StateReactionView;

    open spec fn view(&self) -> StateReactionView {
        match self {
            StateReaction::Unchanged => StateReactionView::Unchanged,
            StateReaction::Buffered => StateReactionView::Buffered,
            StateReaction::Reconcile(reconcile) => StateReactionView::Reconcile(reconcile@),
            StateReaction::FlushFirst { first, state } => StateReactionView::FlushFirst {
                first: first@,
                state: state@,
            },
        }
    }
}

/// How long a menu has been open.
pub open spec fn elapsed(now: u64, opened_at: u64) -> int {
    if now >= opened_at {
        now - opened_at
    } else {
        0
    }
}

/// An open menu holds updates back at this time.
pub open spec fn holds_back(app: AppView, now: u64) -> bool {
    app.menu_opened_at matches Some(opened_at) && elapsed(now, opened_at) < MENU_LOCK_TIMEOUT_NS
}

/// The application with another world. The entries of the old menus stand for
/// nothing any more.
pub open spec fn with_world(app: AppView, world: state::WorldView) -> AppView {
    AppView { world, tables: TablesView::empty(), ..app }
}

/// The reconciliation with another world.
pub open spec fn reconcile_with(app: AppView, world: state::WorldView) -> ReconcileView {
    reconcile_of(AppView { world, ..app })
}

/// The application after the menu has closed: the world that waited, if there
/// is one, has become the world.
pub open spec fn unlocked(app: AppView) -> AppView {
    let open = AppView { menu_opened_at: None, pending: None, ..app };
    match app.pending {
        Some(world) => with_world(open, world),
        None => open,
    }
}

/// The reconciliation that the closing of the menu leads to.
pub open spec fn unlocking(app: AppView) -> Option<ReconcileView> {
    match app.pending {
        Some(world) => Some(reconcile_with(app, world)),
        None => None,
    }
}

/// What a new state of the world leads to, and the application after it.
pub open spec fn on_state(app: AppView, new_state: state::WorldView, now: u64) -> (
    AppView,
    StateReactionView,
) {
    if new_state == app.world {
        (AppView { pending: None, ..app }, StateReactionView::Unchanged)
    } else if holds_back(app, now) {
        (AppView { pending: Some(new_state), ..app }, StateReactionView::Buffered)
    } else {
        match (app.menu_opened_at, unlocking(app)) {
            (Some(_), Some(first)) => (
                unlocked(app),
                StateReactionView::FlushFirst { first, state: new_state },
            ),
            _ => {
                let open = AppView { menu_opened_at: None, ..app };
                (
                    with_world(open, new_state),
                    StateReactionView::Reconcile(reconcile_with(app, new_state)),
                )
            },
        }
    }
}

impl App {
    /// Makes a state of the world the present one.
    pub fn apply_state(&mut self, new_state: WorldState) -> (reconcile: Reconcile)
        requires
            old(self).inv(),
            state::menu_ready(new_state@),
        ensures
            final(self).inv(),
            final(self)@ == with_world(old(self)@, new_state@),
            reconcile@ == reconcile_with(old(self)@, new_state@),
    {
        proof {
            state::lemma_within_memory(&new_state);
        }
        self.world = new_state;
        self.tables = MenuTables::new();
        self.reconcile_tray()
    }

    /// Applies a fresh komorebi snapshot that came at the time `now`.
    ///
    /// While a context menu is open the icons must not be rebuilt, since that
    /// would dismiss the menu. The newest state waits instead, and is applied
    /// the moment the menu closes. Where the newest state is the one that is shown
    /// already, no state waits any more.
    pub fn on_state_changed(&mut self, new_state: WorldState, now: u64) -> (reaction: StateReaction)
        requires
            old(self).inv(),
            state::menu_ready(new_state@),
        ensures
            final(self).inv(),
            (final(self)@, reaction@) == on_state(old(self)@, new_state@, now),
    {
        if new_state.same(&self.world) {
            self.pending_world = None;
            return StateReaction::Unchanged;
        }
        if let Some(opened_at) = self.menu_opened_at {
            let open_for: u64 = if now >= opened_at {
                now - opened_at
            } else {
                0
            };
            if open_for < MENU_LOCK_TIMEOUT_NS {
                proof {
                    state::lemma_within_memory(&new_state);
                }
                self.pending_world = Some(new_state);
                return StateReaction::Buffered;
            }
            if let Some(first) = self.clear_menu_lock() {
                return StateReaction::FlushFirst { first, state: new_state };
            }
        }
        StateReaction::Reconcile(self.apply_state(new_state))
    }

    /// Clears the menu lock and applies the state that waited, if there is one.
    pub fn clear_menu_lock(&mut self) -> (reconcile: Option<Reconcile>)
        requires
            old(self).inv(),
        ensures
            final(self).inv(),
            final(self)@ == unlocked(old(self)@),
            model::opt_view(reconcile) == unlocking(old(self)@),
    {
        self.menu_opened_at = None;
        match self.pending_world.take() {
            Some(pending) => Some(self.apply_state(pending)),
            None => None,
        }
    }

    /// Applies another theme. Nothing has to be reconciled where it is the
    /// present one; the entries of the menus then stand for nothing until the
    /// next reconciliation.
    pub fn on_theme_changed(&mut self, theme: Theme) -> (reconcile: Option<Reconcile>)
        requires
            old(self).inv(),
        ensures
            final(self).inv(),
            final(self)@ == (AppView {
                tray: tray::TrayView { theme, ..old(self)@.tray },
                tables: TablesView::empty(),
                ..old(self)@
            }),
            model::opt_view(reconcile) == (if old(self)@.tray.theme == theme {
                None
            } else {
                Some(
                    reconcile_of(
                        AppView { tray: tray::TrayView { theme, ..old(self)@.tray }, ..old(self)@ },
                    ),
                )
            }),
    {
        if self.tray.set_theme(theme) {
            Some(self.reconcile_tray())
        } else {
            self.tables = MenuTables::new();
            None
        }
    }
}

// ---------------------------------------------------------------------------
// Menus
// ---------------------------------------------------------------------------

/// What the activation of a menu entry leads to.
pub enum MenuReaction {
    /// A state of the world waited for the menu to close. Once the icons are
    /// reconciled with it, the activation is handled by
    /// [`App::on_menu_event`] again.
    Flush(Reconcile),
    /// The event loop ends. All icons are gone.
    Quit,
    /// The autostart entry is switched, and the outcome is recorded with
    /// [`App::on_autostart_applied`].
    ToggleAutostart,
    /// The window menu of a workspace is shown, where the monitor has an icon.
    /// Once it is closed, [`App::clear_menu_lock`] follows, and then
    /// [`App::reconcile_tray`], so that the check marks show the world again.
    ShowSubmenu(Option<MenuRequest>),
    /// The workspace is focused, where its monitor is there, and the icons are
    /// reconciled.
    FocusWorkspace { command: Option<SocketMessage>, reconcile: Reconcile },
    /// The workspace is focused, where its monitor is there.
    SwitchWorkspace(Option<SocketMessage>),
    /// The workspace is focused, and then the window with this handle.
    FocusWindow { workspace: SocketMessage, hwnd: usize },
    /// Nothing happens.
    Nothing,
}

/// View of a [`MenuReaction`].
#[verifier::ext_equal]
pub ghost enum MenuReactionView {
    Flush(ReconcileView),
    Quit,
    ToggleAutostart,
    ShowSubmenu(Option<tray::RequestView>),
    FocusWorkspace { command: Option<SocketMessage>, reconcile: ReconcileView },
    SwitchWorkspace(Option<SocketMessage>),
    FocusWindow { workspace: SocketMessage, hwnd: usize },
    Nothing,
}

impl View for MenuReaction {
    type V = MenuReactionView;

    open spec fn view(&self) -> MenuReactionView {
        match self {
            MenuReaction::Flush(reconcile) => MenuReactionView::Flush(reconcile@),
            MenuReaction::Quit => MenuReactionView::Quit,
            MenuReaction::ToggleAutostart => MenuReactionView::ToggleAutostart,
            MenuReaction::ShowSubmenu(request) => MenuReactionView::ShowSubmenu(
                model::opt_view(*request),
            ),
            MenuReaction::FocusWorkspace { command, reconcile } => {
                MenuReactionView::FocusWorkspace { command: *command, reconcile: reconcile@ }
            },
            MenuReaction::SwitchWorkspace(command) => MenuReactionView::SwitchWorkspace(*command),
            MenuReaction::FocusWindow { workspace, hwnd } => MenuReactionView::FocusWindow {
                workspace: *workspace,
                hwnd: *hwnd,
            },
            MenuReaction::Nothing => MenuReactionView::Nothing,
        }
    }
}

/// A button of the mouse.
#[derive(Debug, Copy, Clone, PartialEq, Eq, Structural)]
pub enum MouseButton {
    Left,
    Right,
    Middle,
}

/// An interaction with a tray icon.
#[derive(Debug, PartialEq, Eq)]
pub enum TrayEvent {
    /// A mouse button was pressed or, where `released`, released on an icon.
    Click { tray_id: String, button: MouseButton, released: bool },
    /// The pointer entered, left or moved over an icon, or double-clicked it.
    Other,
}

/// A menu that is about to be opened: once the icons are reconciled,
/// [`App::open_menu`] follows for this monitor.
pub struct MenuOpening {
    pub monitor_id: String,
    pub reconcile: Reconcile,
}

/// The command that focuses a workspace of a monitor, where the monitor is
/// there.
pub open spec fn focus_command(world: state::WorldView, monitor: Seq<char>, workspace: usize) -> Option<
    SocketMessage,
> {
    match world.position(monitor) {
        Some(i) => Some(SocketMessage::FocusMonitorWorkspaceNumber(i as usize, workspace)),
        None => None,
    }
}

/// The monitor and the workspace that an entry stands for: what is recorded,
/// or else what its identifier says.
pub open spec fn workspace_target(app: AppView, id: Seq<char>) -> Option<(Seq<char>, usize)> {
    if app.tables.workspace_items.contains_key(id) {
        Some(app.tables.workspace_items[id])
    } else {
        menu_id::workspace_of(id)
    }
}

/// The monitor, the workspace and the handle of the window that an entry
/// stands for: what is recorded, or else what its identifier says and the
/// world still holds.
pub open spec fn window_target(app: AppView, id: Seq<char>) -> Option<(Seq<char>, usize, usize)> {
    if app.tables.window_items.contains_key(id) {
        Some(app.tables.window_items[id])
    } else {
        match menu_id::window_of(id) {
            Some((monitor, workspace, window)) => match app.world.position(monitor) {
                Some(i) => {
                    let workspaces = app.world.monitors[i].menu_workspaces;
                    if workspace < workspaces.len() && window < workspaces[workspace as int].windows.len() {
                        Some(
                            (
                                monitor,
                                workspace,
                                workspaces[workspace as int].windows[window as int].hwnd,
                            ),
                        )
                    } else {
                        None
                    }
                },
                None => None,
            },
            None => None,
        }
    }
}

/// What the activation of an entry leads to that may stand for a window.
pub open spec fn on_window_entry(app: AppView, id: Seq<char>) -> MenuReactionView {
    match window_target(app, id) {
        Some((monitor, workspace, hwnd)) => match focus_command(app.world, monitor, workspace) {
            Some(command) => MenuReactionView::FocusWindow { workspace: command, hwnd },
            None => MenuReactionView::Nothing,
        },
        None => MenuReactionView::Nothing,
    }
}

/// What the activation of a workspace leads to at the time `now`, and the
/// application after it: its window menu is shown, or else it is focused.
pub open spec fn on_workspace_entry(
    app: AppView,
    monitor: Seq<char>,
    workspace: usize,
    now: u64,
) -> (AppView, MenuReactionView) {
    let submenus = app.tables.virtual_submenus;
    if submenus.contains_key(monitor) && submenus[monitor].contains_key(workspace) {
        (
            AppView { menu_opened_at: Some(now), ..app },
            MenuReactionView::ShowSubmenu(
                tray::requested(app.tray, monitor, submenus[monitor][workspace]),
            ),
        )
    } else {
        (
            AppView { tables: TablesView::empty(), ..app },
            MenuReactionView::FocusWorkspace {
                command: focus_command(app.world, monitor, workspace),
                reconcile: reconcile_of(app),
            },
        )
    }
}

/// What the activation of an entry leads to at the time `now` when no state of
/// the world waits, and the application after it.
pub open spec fn on_entry(app: AppView, id: Seq<char>, now: u64) -> (AppView, MenuReactionView) {
    if id == "quit"@ {
        (
            AppView { tray: tray::TrayView { icons: Map::empty(), ..app.tray }, ..app },
            MenuReactionView::Quit,
        )
    } else if id == "autostart"@ {
        (app, MenuReactionView::ToggleAutostart)
    } else if "ws-"@.is_prefix_of(id) {
        match workspace_target(app, id) {
            Some((monitor, workspace)) => on_workspace_entry(app, monitor, workspace, now),
            None => (app, on_window_entry(app, id)),
        }
    } else if "focus-ws-"@.is_prefix_of(id) {
        match menu_id::workspace_of(id.skip("focus-"@.len() as int)) {
            Some((monitor, workspace)) => (
                app,
                MenuReactionView::SwitchWorkspace(focus_command(app.world, monitor, workspace)),
            ),
            None => (app, on_window_entry(app, id)),
        }
    } else {
        (app, on_window_entry(app, id))
    }
}

/// What the activation of an entry leads to at the time `now`, and the
/// application after it. Any activation clears the menu lock.
pub open spec fn on_menu(app: AppView, id: Seq<char>, now: u64) -> (AppView, MenuReactionView) {
    match unlocking(app) {
        Some(reconcile) => (unlocked(app), MenuReactionView::Flush(reconcile)),
        None => on_entry(unlocked(app), id, now),
    }
}

fn focus_message(world: &WorldState, monitor_id: &str, workspace: usize) -> (command: Option<
    SocketMessage,
>)
    ensures
        command == focus_command(world@, monitor_id@, workspace),
{
    match world.position(monitor_id) {
        Some(i) => Some(SocketMessage::FocusMonitorWorkspaceNumber(i, workspace)),
        None => None,
    }
}

impl App {
    /// The workspace that an entry stands for.
    fn find_workspace(&self, id: &str) -> (target: Option<(String, usize)>)
        ensures
            model::opt_view(target) == workspace_target(self@, id@),
    {
        match self.tables.workspace_items.get(&id.to_owned()) {
            Some(target) => Some((target.0.clone(), target.1)),
            None => menu_id::parse_workspace_menu_id(id),
        }
    }

    /// The window that an entry stands for.
    fn find_window(&self, id: &str) -> (target: Option<(String, usize, usize)>)
        ensures
            model::opt_view(target) == window_target(self@, id@),
    {
        match self.tables.window_items.get(&id.to_owned()) {
            Some(target) => Some((target.0.clone(), target.1, target.2)),
            None => match menu_id::parse_window_menu_id(id) {
                Some((monitor_id, workspace, window)) => {
                    let monitor: &MonitorState = match self.world.monitor(monitor_id.as_str()) {
                        Some(monitor) => monitor,
                        None => return None,
                    };
                    proof {
                        let i = self@.world.position(monitor_id@)->0;
                        self@.world.ids().index_of_first_ensures(monitor_id@);
                        assert(self@.world.monitors[i] == monitor@);
                    }
                    if workspace >= monitor.menu_workspaces.len() {
                        return None;
                    }
                    let ws: &state::WorkspaceMenuState = &monitor.menu_workspaces[workspace];
                    proof {
                        assert(monitor@.menu_workspaces[workspace as int] == ws@);
                    }
                    if window >= ws.windows.len() {
                        return None;
                    }
                    proof {
                        assert(ws@.windows[window as int] == ws.windows@[window as int]@);
                    }
                    Some((monitor_id, workspace, ws.windows[window].hwnd))
                },
                None => None,
            },
        }
    }

    /// Handles the activation of an entry that may stand for a window.
    fn on_window_event(&self, id: &str) -> (reaction: MenuReaction)
        ensures
            reaction@ == on_window_entry(self@, id@),
    {
        match self.find_window(id) {
            Some((monitor_id, workspace, hwnd)) => match focus_message(
                &self.world,
                monitor_id.as_str(),
                workspace,
            ) {
                Some(command) => MenuReaction::FocusWindow { workspace: command, hwnd },
                None => MenuReaction::Nothing,
            },
            None => MenuReaction::Nothing,
        }
    }

    /// Handles the activation of the entry of a workspace.
    fn on_workspace_event(&mut self, monitor_id: &str, workspace: usize, now: u64) -> (reaction:
        MenuReaction)
        requires
            old(self).inv(),
        ensures
            final(self).inv(),
            (final(self)@, reaction@) == on_workspace_entry(
                old(self)@,
                monitor_id@,
                workspace,
                now,
            ),
    {
        if let Some(submenus) = self.tables.virtual_submenus.get(&monitor_id.to_owned()) {
            if let Some(win_menu) = submenus.get(&workspace) {
                let request = self.tray.show_custom_menu(monitor_id, win_menu);
                self.menu_opened_at = Some(now);
                return MenuReaction::ShowSubmenu(request);
            }
        }
        let command = focus_message(&self.world, monitor_id, workspace);
        let reconcile = self.reconcile_tray();
        MenuReaction::FocusWorkspace { command, reconcile }
    }

    /// Handles a menu activation at the time `now`.
    pub fn on_menu_event(&mut self, id: &str, now: u64) -> (reaction: MenuReaction)
        requires
            old(self).inv(),
        ensures
            final(self).inv(),
            (final(self)@, reaction@) == on_menu(old(self)@, id@, now),
    {
        if let Some(reconcile) = self.clear_menu_lock() {
            return MenuReaction::Flush(reconcile);
        }
        if text::same_text(id, self.quit_item_id.as_str()) {
            self.tray.clear();
            return MenuReaction::Quit;
        }
        if text::same_text(id, self.autostart_item_id.as_str()) {
            return MenuReaction::ToggleAutostart;
        }
        if text::starts_with(id, "ws-") {
            if let Some((monitor_id, workspace)) = self.find_workspace(id) {
                return self.on_workspace_event(monitor_id.as_str(), workspace, now);
            }
        } else if text::starts_with(id, "focus-ws-") {
            let rest = match text::strip_prefix(id, "focus-") {
                Some(rest) => rest,
                None => String::new(),
            };
            proof {
                lemma_focus_prefix(id@);
            }
            if let Some((monitor_id, workspace)) = menu_id::parse_workspace_menu_id(
                rest.as_str(),
            ) {
                return MenuReaction::SwitchWorkspace(
                    focus_message(&self.world, monitor_id.as_str(), workspace),
                );
            }
        }
        self.on_window_event(id)
    }

    /// The autostart state that a switch of the autostart entry asks for.
    pub fn requested_autostart(enabled: bool) -> (requested: bool)
        ensures
            requested == !enabled,
    {
        !enabled
    }

    /// Records the autostart state that is in effect after a switch. The menus
    /// are rebuilt to show it.
    pub fn on_autostart_applied(&mut self, applied: bool) -> (reconcile: Reconcile)
        requires
            old(self).inv(),
        ensures
            final(self).inv(),
            final(self)@ == (AppView {
                autostart: applied,
                tables: TablesView::empty(),
                ..old(self)@
            }),
            reconcile@ == reconcile_of(AppView { autostart: applied, ..old(self)@ }),
    {
        self.initial_autostart = applied;
        self.reconcile_tray()
    }

    /// The monitor whose menu an interaction with a tray icon opens: the right
    /// button that is released on the icon of a monitor. Every other interaction
    /// does nothing.
    pub fn on_tray_event(&self, event: &TrayEvent) -> (monitor_id: Option<String>)
        ensures
            match (event, monitor_id) {
                (
                    TrayEvent::Click { tray_id, button: MouseButton::Right, released: true },
                    Some(id),
                ) => {
                    self@.tray.icons.contains_key(id@) && tray_id@ == tray::tray_id_of(id@)
                },
                (
                    TrayEvent::Click { tray_id, button: MouseButton::Right, released: true },
                    None,
                ) => {
                    forall|id: Seq<char>| #[trigger]
                        self@.tray.icons.contains_key(id) ==> tray_id@ != tray::tray_id_of(id)
                },
                (_, found) => found is None,
            },
    {
        match event {
            TrayEvent::Click { tray_id, button: MouseButton::Right, released: true } => {
                self.tray.monitor_id_for_tray(tray_id.as_str())
            },
            _ => None,
        }
    }

    /// Starts to open the menu of the monitor at a position.
    pub fn show_menu_for_monitor_index(&mut self, index: usize, autostart_enabled: bool) -> (opening:
        Option<MenuOpening>)
        requires
            old(self).inv(),
        ensures
            final(self).inv(),
            match opening {
                Some(o) => {
                    &&& index < old(self)@.world.monitors.len()
                    &&& o.monitor_id@ == old(self)@.world.monitors[index as int].id
                    &&& o.reconcile@ == reconcile_of(
                        AppView { autostart: autostart_enabled, ..old(self)@ },
                    )
                    &&& final(self)@ == (AppView {
                        autostart: autostart_enabled,
                        tables: TablesView::empty(),
                        ..old(self)@
                    })
                },
                None => index >= old(self)@.world.monitors.len() && final(self)@ == old(self)@,
            },
    {
        if index < self.world.monitors.len() {
            let monitor_id: String = self.world.monitors[index].id.clone();
            Some(self.show_menu_for_monitor(monitor_id.as_str(), autostart_enabled))
        } else {
            None
        }
    }

    /// Starts to open the context menu of the monitor with the given id. The
    /// check mark of the autostart entry shows the state that is in effect.
    pub fn show_menu_for_monitor(&mut self, monitor_id: &str, autostart_enabled: bool) -> (opening:
        MenuOpening)
        requires
            old(self).inv(),
        ensures
            final(self).inv(),
            final(self)@ == (AppView {
                autostart: autostart_enabled,
                tables: TablesView::empty(),
                ..old(self)@
            }),
            opening.monitor_id@ == monitor_id@,
            opening.reconcile@ == reconcile_of(
                AppView { autostart: autostart_enabled, ..old(self)@ },
            ),
    {
        self.initial_autostart = autostart_enabled;
        MenuOpening { monitor_id: monitor_id.to_owned(), reconcile: self.reconcile_tray() }
    }

    /// Locks the icons at the time `now` and says which menu is shown. When it
    /// is closed, [`App::clear_menu_lock`] follows.
    pub fn open_menu(&mut self, monitor_id: &str, now: u64) -> (request: Option<MenuRequest>)
        requires
            old(self).inv(),
        ensures
            final(self).inv(),
            final(self)@ == (AppView { menu_opened_at: Some(now), ..old(self)@ }),
            model::opt_view(request) == (if old(self)@.tray.menus.contains_key(monitor_id@) {
                tray::requested(
                    old(self)@.tray,
                    monitor_id@,
                    old(self)@.tray.menus[monitor_id@],
                )
            } else {
                None
            }),
    {
        self.menu_opened_at = Some(now);
        self.tray.show_menu(monitor_id)
    }

    /// Whether one of the menus is displayed.
    pub fn menu_visible(&self) -> (visible: bool)
        ensures
            visible == (self@.menu_opened_at is Some),
    {
        self.menu_opened_at.is_some()
    }
}

proof fn lemma_focus_prefix(id: Seq<char>)
    requires
        "focus-ws-"@.is_prefix_of(id),
    ensures
        "focus-"@.is_prefix_of(id),
{
    reveal_strlit("focus-ws-");
    reveal_strlit("focus-");
    let long = "focus-ws-"@;
    let short = "focus-"@;
    assert(id.subrange(0, short.len() as int) =~= short) by {
        assert(id.subrange(0, long.len() as int) == long);
        assert(short =~= long.take(6));
        assert forall|i: int| 0 <= i < 6 implies id[i] == short[i] by {
            assert(id.subrange(0, long.len() as int)[i] == id[i]);
            assert(long.take(6)[i] == long[i]);
        }
    }
}

// ---------------------------------------------------------------------------
// Monitors
// ---------------------------------------------------------------------------

/// One monitor is not to the right of another one: its left coordinate is
/// smaller, or the two are the same and it is reported first.
pub open spec fn by_x(world: state::WorldView) -> spec_fn(usize, usize) -> bool {
    |i: usize, j: usize|
        world.monitors[i as int].x < world.monitors[j as int].x || (world.monitors[i as int].x
            == world.monitors[j as int].x && i <= j)
}

/// The positions of the monitors from left to right.
pub open spec fn left_to_right(world: state::WorldView) -> Seq<usize> {
    order::sorted_positions(world.monitors.len(), by_x(world))
}

impl App {
    /// The present state of the world.
    pub fn world(&self) -> (world: &WorldState)
        ensures
            world@ == self@.world,
    {
        &self.world
    }

    /// The state of the world that waits for the menu to close.
    pub fn pending_world(&self) -> (pending: Option<&WorldState>)
        ensures
            match pending {
                Some(world) => self@.pending == Some(world@),
                None => self@.pending is None,
            },
    {
        self.pending_world.as_ref()
    }

    /// The tray manager.
    pub fn tray(&self) -> (tray: &TrayManager)
        ensures
            tray@ == self@.tray,
    {
        &self.tray
    }

    /// Number of monitors.
    pub fn monitor_count(&self) -> (n: usize)
        ensures
            n == self@.world.monitors.len(),
    {
        self.world.monitors.len()
    }

    /// Position of the monitor komorebi currently reports as focused, if any.
    pub fn active_monitor_index(&self) -> (index: Option<usize>)
        ensures
            match index {
                Some(i) => self@.world.active_position() == Some(i as int) && i
                    < self@.world.monitors.len(),
                None => self@.world.active_position() is None,
            },
    {
        self.world.active_position()
    }

    /// Positions of the monitors ordered left to right by their coordinate.
    /// Monitors with the same coordinate keep komorebi's order.
    pub fn monitors_left_to_right(&self) -> (positions: Vec<usize>)
        ensures
            positions@ == left_to_right(self@.world),
            order::lists_in_order(positions@, self@.world.monitors.len(), by_x(self@.world)),
    {
        let world: &WorldState = &self.world;
        proof {
            assert(total_ordering(by_x(world@)));
        }
        let not_after = |i: usize, j: usize| -> (r: bool)
            requires
                i < world.monitors@.len(),
                j < world.monitors@.len(),
            ensures
                r == by_x(world@)(i, j),
            {
                world.monitors[i].x < world.monitors[j].x || (world.monitors[i].x
                    == world.monitors[j].x && i <= j)
            };
        order::sort_positions(world.monitors.len(), not_after, Ghost(by_x(world@)))
    }
}

// ---------------------------------------------------------------------------
// Laws
// ---------------------------------------------------------------------------

/// Of the states that come while a menu is open, the latest one is shown once
/// the menu is closed, and none is shown before.
pub proof fn law_latest_buffered_state_is_applied(
    app: AppView,
    first: state::WorldView,
    second: state::WorldView,
    now: u64,
    later: u64,
)
    requires
        holds_back(app, now),
        holds_back(app, later),
    ensures
        ({
            let (after_first, r1) = on_state(app, first, now);
            let (after_second, r2) = on_state(after_first, second, later);
            &&& r1 == if first == app.world {
                StateReactionView::Unchanged
            } else {
                StateReactionView::Buffered
            }
            &&& r2 == if second == app.world {
                StateReactionView::Unchanged
            } else {
                StateReactionView::Buffered
            }
            &&& after_second.world == app.world
            &&& unlocked(after_second).world == second
            &&& unlocked(after_second).pending is None
            &&& unlocking(after_second) == if second == app.world {
                None
            } else {
                Some(reconcile_with(app, second))
            }
        }),
{
}

/// A state is shown at once where no menu holds it back.
pub proof fn law_unlocked_state_is_applied(app: AppView, new_state: state::WorldView, now: u64)
    requires
        app.menu_opened_at is None,
        new_state != app.world,
    ensures
        on_state(app, new_state, now).0.world == new_state,
        on_state(app, new_state, now).1 == StateReactionView::Reconcile(
            reconcile_with(app, new_state),
        ),
{
}

/// A state that is shown already leads to no reconciliation, and stays shown
/// when the menu closes.
pub proof fn law_known_state_changes_nothing(app: AppView, now: u64)
    ensures
        on_state(app, app.world, now) == (
            AppView { pending: None, ..app },
            StateReactionView::Unchanged,
        ),
        unlocked(on_state(app, app.world, now).0).world == app.world,
        unlocking(on_state(app, app.world, now).0) is None,
{
}

/// The application when an activation takes effect: the menu is closed and the
/// state that waited, if there is one, has been shown, though perhaps not by
/// every icon.
pub open spec fn ready(app: AppView, failed_at: Option<usize>) -> AppView {
    match unlocking(app) {
        Some(reconcile) => finished(unlocked(app), reconcile, failed_at),
        None => unlocked(app),
    }
}

/// What an activation leads to in the end, and the application after it: where a
/// state waited, the activation is handled again once that state is shown.
pub open spec fn activated(app: AppView, id: Seq<char>, now: u64, failed_at: Option<usize>) -> (
    AppView,
    MenuReactionView,
) {
    let (after, reaction) = on_menu(app, id, now);
    if reaction is Flush {
        on_menu(finished(after, reaction->Flush_0, failed_at), id, now)
    } else {
        (after, reaction)
    }
}

/// Validity lasts: the application is valid when an activation takes effect, and
/// shows the latest state.
pub proof fn law_ready_is_valid(app: AppView, failed_at: Option<usize>)
    requires
        app.valid(),
    ensures
        ready(app, failed_at).valid(),
        ready(app, failed_at).pending is None,
        ready(app, failed_at).world == (match app.pending {
            Some(world) => world,
            None => app.world,
        }),
        ready(app, failed_at).submenus == app.submenus,
{
}

/// An activation is put off at most once, and then takes effect.
pub proof fn law_activation_is_put_off_once(
    app: AppView,
    id: Seq<char>,
    now: u64,
    failed_at: Option<usize>,
)
    ensures
        activated(app, id, now, failed_at) == on_entry(ready(app, failed_at), id, now),
        activated(app, id, now, failed_at).1 !is Flush,
{
    assert(unlocked(ready(app, failed_at)) == ready(app, failed_at));
}

/// Quitting removes every icon, whichever menu it was chosen from and whatever
/// state of the world still waited.
pub proof fn law_quit_removes_every_icon(app: AppView, now: u64, failed_at: Option<usize>)
    ensures
        activated(app, "quit"@, now, failed_at).1 == MenuReactionView::Quit,
        activated(app, "quit"@, now, failed_at).0.tray.icons == Map::<
            Seq<char>,
            tray::IconView,
        >::empty(),
{
    law_activation_is_put_off_once(app, "quit"@, now, failed_at);
}

/// Once a reconciliation has succeeded, the monitors of the world, and no
/// others, have an icon and a menu.
pub proof fn law_icons_follow_the_world(app: AppView)
    requires
        app.world.monitors.len() <= usize::MAX,
    ensures
        finished(app, reconcile_of(app), None).tray.icons.dom() == app.world.ids().to_set(),
        finished(app, reconcile_of(app), None).tray.menus.dom() == app.world.ids().to_set(),
{
    tray::law_reconcile_covers_the_world(app.tray, app.world, menus_of(app));
}

/// Once a reconciliation has succeeded, every monitor has the menu that is built
/// for it, with the present autostart state.
pub proof fn law_every_monitor_has_its_menu(app: AppView, p: usize)
    requires
        p < app.world.monitors.len() <= usize::MAX,
        app.world.ids().no_duplicates(),
    ensures
        finished(app, reconcile_of(app), None).tray.menus[app.world.monitors[p as int].id]
            == menu::monitor_menu(
            app.world.monitors[p as int],
            "autostart"@,
            "quit"@,
            app.autostart,
            app.max_title as nat,
            app.max_combined as nat,
        ),
{
    let n = app.world.monitors.len();
    let positions = tray::order_by_id(app.world);
    tray::lemma_by_id_total(app.world);
    order::law_sorted_positions(n, tray::by_id(app.world));
    order::lemma_listed_somewhere(positions, n, p);
    let i = choose|i: int| 0 <= i < n && positions[i] == p;
    tray::law_reconciled_icons_show_their_monitors(app.tray, app.world, menus_of(app), i);
}

/// Every activation clears the menu lock, unless it opens a window menu.
pub proof fn law_activation_clears_the_lock(app: AppView, id: Seq<char>, now: u64)
    ensures
        on_menu(app, id, now).0.pending is None,
        on_menu(app, id, now).0.menu_opened_at is Some <==> on_menu(
            app,
            id,
            now,
        ).1 is ShowSubmenu,
{
}

/// An activation never changes the state of the world but for the one that
/// waited.
pub proof fn law_activation_keeps_the_world(app: AppView, id: Seq<char>, now: u64)
    ensures
        on_menu(app, id, now).0.world == unlocked(app).world,
{
}

proof fn lemma_tables_true(world: state::WorldView, max_title: usize, submenus: bool, n: nat)
    ensures
        menu::workspace_items_true(tables_upto(world, max_title, submenus, n).workspace_items),
    decreases n,
{
    if n > 0 {
        lemma_tables_true(world, max_title, submenus, (n - 1) as nat);
        let monitor = world.monitors[tray::order_by_id(world)[n - 1] as int];
        menu::law_workspace_items_name_their_workspaces(
            tables_upto(world, max_title, submenus, (n - 1) as nat).workspace_items,
            monitor.id,
            menu::listed(monitor.menu_workspaces),
            submenus,
        );
    }
}

/// The entry of a workspace always stands for that workspace, whether it is
/// recorded or not.
pub proof fn law_workspace_entry_stands_for_its_workspace(
    app: AppView,
    monitor: Seq<char>,
    workspace: usize,
)
    requires
        app.valid(),
    ensures
        workspace_target(app, menu_id::workspace_id(monitor, workspace as nat)) == Some(
            (monitor, workspace),
        ),
{
    menu_id::law_workspace_id_round_trip(monitor, workspace);
    lemma_tables_true(app.world, app.max_title, app.submenus, app.world.monitors.len());
}

/// The listed workspaces of a snapshot within memory are within memory.
proof fn lemma_listed_within_memory(world: state::WorldView, p: int)
    requires
        state::within_memory(world),
        0 <= p < world.monitors.len(),
    ensures
        forall|k: int|
            0 <= k < menu::listed(world.monitors[p].menu_workspaces).len() ==> (
            #[trigger] menu::listed(world.monitors[p].menu_workspaces)[k]).windows.len()
                <= usize::MAX,
{
    let workspaces = world.monitors[p].menu_workspaces;
    let shown = menu::listed(workspaces);
    assert forall|k: int| 0 <= k < shown.len() implies (#[trigger] shown[k]).windows.len()
        <= usize::MAX by {
        assert(shown.contains(shown[k]));
        menu::law_listed(workspaces, shown[k]);
        let i = choose|i: int| 0 <= i < workspaces.len() && workspaces[i] == shown[k];
        assert(world.monitors[p].menu_workspaces[i].windows.len() <= usize::MAX);
    }
}

proof fn lemma_window_tables_true(
    world: state::WorldView,
    max_title: usize,
    submenus: bool,
    n: nat,
)
    requires
        state::within_memory(world),
        n <= world.monitors.len(),
    ensures
        menu::window_items_true(
            tables_upto(world, max_title, submenus, n).window_items,
            world.monitors,
        ),
    decreases n,
{
    if n > 0 {
        lemma_window_tables_true(world, max_title, submenus, (n - 1) as nat);
        tray::lemma_by_id_total(world);
        order::law_sorted_positions(world.monitors.len(), tray::by_id(world));
        let p = tray::order_by_id(world)[n - 1] as int;
        let shown = menu::listed(world.monitors[p].menu_workspaces);
        lemma_listed_within_memory(world, p);
        menu::law_window_items_stay_true(
            tables_upto(world, max_title, submenus, (n - 1) as nat).window_items,
            world.monitors,
            p,
            shown.len(),
            submenus,
        );
        assert(shown.take(shown.len() as int) =~= shown);
    }
}

/// A monitor has, in its workspace at this position, a window with this handle.
pub open spec fn holds_window(
    monitor: state::MonitorView,
    workspace: usize,
    window: usize,
    hwnd: usize,
) -> bool {
    &&& workspace < monitor.menu_workspaces.len()
    &&& window < monitor.menu_workspaces[workspace as int].windows.len()
    &&& monitor.menu_workspaces[workspace as int].windows[window as int].hwnd == hwnd
}

/// The entry of a window, where it stands for one, always stands for a window
/// that the present world has there: one that the menu shows where the entry is
/// recorded, and one that the identifier leads to where it is not.
pub proof fn law_window_entry_stands_for_a_window(
    app: AppView,
    monitor: Seq<char>,
    workspace: usize,
    window: usize,
)
    requires
        app.valid(),
    ensures
        ({
            let id = menu_id::window_id(monitor, workspace as nat, window as nat);
            window_target(app, id) matches Some(target) ==> {
                &&& target.0 == monitor
                &&& target.1 == workspace
                &&& exists|p: int|
                    0 <= p < app.world.monitors.len() && (#[trigger] app.world.monitors[p]).id
                        == monitor && if app.tables.window_items.contains_key(id) {
                        menu::shows_window(app.world.monitors[p], workspace, window, target.2)
                    } else {
                        holds_window(app.world.monitors[p], workspace, window, target.2)
                    }
            }
        }),
{
    let id = menu_id::window_id(monitor, workspace as nat, window as nat);
    menu_id::law_window_id_round_trip(monitor, workspace, window);
    if app.tables.window_items.contains_key(id) {
        lemma_window_tables_true(
            app.world,
            app.max_title,
            app.submenus,
            app.world.monitors.len(),
        );
    } else if app.world.position(monitor) is Some {
        let p = app.world.position(monitor)->0;
        app.world.ids().index_of_first_ensures(monitor);
        assert(app.world.monitors[p].id == monitor);
    }
}

/// A monitor of the world lists a workspace with this index, and this is the
/// window menu of that workspace.
pub open spec fn is_window_menu(
    app: AppView,
    monitor: Seq<char>,
    workspace: usize,
    entries: Seq<menu::EntryView>,
) -> bool {
    exists|p: int, k: int|
        0 <= p < app.world.monitors.len() && app.world.monitors[p].id == monitor && 0 <= k
            < menu::listed(app.world.monitors[p].menu_workspaces).len() && (#[trigger] menu::listed(
            app.world.monitors[p].menu_workspaces,
        )[k]).index == workspace && entries == menu::window_menu(
            monitor,
            menu::listed(app.world.monitors[p].menu_workspaces)[k],
            app.max_title as nat,
        )
}

proof fn lemma_submenus_true(app: AppView, n: nat, monitor: Seq<char>, workspace: usize)
    requires
        n <= app.world.monitors.len() <= usize::MAX,
        ({
            let submenus = tables_upto(
                app.world,
                app.max_title,
                app.submenus,
                n,
            ).virtual_submenus;
            submenus.contains_key(monitor) && submenus[monitor].contains_key(workspace)
        }),
    ensures
        app.submenus,
        is_window_menu(
            app,
            monitor,
            workspace,
            tables_upto(
                app.world,
                app.max_title,
                app.submenus,
                n,
            ).virtual_submenus[monitor][workspace],
        ),
    decreases n,
{
    tray::lemma_by_id_total(app.world);
    order::law_sorted_positions(app.world.monitors.len(), tray::by_id(app.world));
    let p = tray::order_by_id(app.world)[n - 1] as int;
    if app.world.monitors[p].id == monitor {
        let shown = menu::listed(app.world.monitors[p].menu_workspaces);
        menu::law_window_menus_belong_to_their_workspaces(
            monitor,
            shown,
            app.max_title as nat,
            app.submenus,
            workspace,
        );
        let menus = menu::window_menus(monitor, shown, app.max_title as nat, app.submenus);
        let k = choose|k: int|
            0 <= k < shown.len() && (#[trigger] shown[k]).index == workspace && menus[workspace]
                == menu::window_menu(monitor, shown[k], app.max_title as nat);
        assert(menu::listed(app.world.monitors[p].menu_workspaces)[k].index == workspace);
    } else {
        lemma_submenus_true(app, (n - 1) as nat, monitor, workspace);
    }
}

/// The activation of the entry of a workspace that has a window menu shows that
/// menu, which is the one of that workspace in the latest state; one that has
/// none is focused. Where window menus are not wanted, none is shown.
pub proof fn law_workspace_entry_opens_its_window_menu(
    app: AppView,
    monitor: Seq<char>,
    workspace: usize,
    now: u64,
    failed_at: Option<usize>,
)
    requires
        app.valid(),
    ensures
        ({
            let id = menu_id::workspace_id(monitor, workspace as nat);
            let at = ready(app, failed_at);
            let reaction = activated(app, id, now, failed_at).1;
            let submenus = at.tables.virtual_submenus;
            if submenus.contains_key(monitor) && submenus[monitor].contains_key(workspace) {
                &&& app.submenus
                &&& is_window_menu(at, monitor, workspace, submenus[monitor][workspace])
                &&& reaction == MenuReactionView::ShowSubmenu(
                    tray::requested(at.tray, monitor, submenus[monitor][workspace]),
                )
            } else {
                reaction == MenuReactionView::FocusWorkspace {
                    command: focus_command(at.world, monitor, workspace),
                    reconcile: reconcile_of(at),
                }
            }
        }),
{
    let id = menu_id::workspace_id(monitor, workspace as nat);
    let at = ready(app, failed_at);
    law_activation_is_put_off_once(app, id, now, failed_at);
    law_ready_is_valid(app, failed_at);
    law_workspace_entry_stands_for_its_workspace(at, monitor, workspace);
    if at.tables.virtual_submenus.contains_key(monitor)
        && at.tables.virtual_submenus[monitor].contains_key(workspace) {
        lemma_submenus_true(at, at.world.monitors.len(), monitor, workspace);
    }
    reveal_strlit("ws-");
    reveal_strlit("quit");
    reveal_strlit("autostart");
    assert("ws-"@.is_prefix_of(id)) by {
        assert(id.subrange(0, "ws-"@.len() as int) =~= "ws-"@);
    }
    assert(id[0] == 'w');
    assert("quit"@[0] == 'q');
    assert("autostart"@[0] == 'a');
}

proof fn lemma_submenus_of_monitor(app: AppView, n: nat, i: int)
    requires
        0 <= i < n <= app.world.monitors.len() <= usize::MAX,
        app.world.ids().no_duplicates(),
    ensures
        ({
            let monitor = app.world.monitors[tray::order_by_id(app.world)[i] as int];
            let submenus = tables_upto(
                app.world,
                app.max_title,
                app.submenus,
                n,
            ).virtual_submenus;
            submenus.contains_key(monitor.id) && submenus[monitor.id] == menu::window_menus(
                monitor.id,
                menu::listed(monitor.menu_workspaces),
                app.max_title as nat,
                app.submenus,
            )
        }),
    decreases n,
{
    if i < n - 1 {
        lemma_submenus_of_monitor(app, (n - 1) as nat, i);
        tray::lemma_by_id_total(app.world);
        order::law_sorted_positions(app.world.monitors.len(), tray::by_id(app.world));
        let positions = tray::order_by_id(app.world);
        assert(positions[i] != positions[n - 1]);
        assert(app.world.ids()[positions[i] as int] != app.world.ids()[positions[n - 1] as int]);
    }
}

/// Where window menus are wanted and the entries stand for what they show, every
/// listed workspace has a window menu.
pub proof fn law_listed_workspaces_have_window_menus(app: AppView, p: usize, k: int)
    requires
        app.valid(),
        app.submenus,
        app.tables == tables_of(app),
        app.world.ids().no_duplicates(),
        p < app.world.monitors.len(),
        0 <= k < menu::listed(app.world.monitors[p as int].menu_workspaces).len(),
    ensures
        ({
            let monitor = app.world.monitors[p as int];
            let workspace = menu::listed(monitor.menu_workspaces)[k].index;
            &&& app.tables.virtual_submenus.contains_key(monitor.id)
            &&& app.tables.virtual_submenus[monitor.id].contains_key(workspace)
        }),
{
    let n = app.world.monitors.len();
    let monitor = app.world.monitors[p as int];
    let shown = menu::listed(monitor.menu_workspaces);
    let positions = tray::order_by_id(app.world);
    tray::lemma_by_id_total(app.world);
    order::law_sorted_positions(n, tray::by_id(app.world));
    order::lemma_listed_somewhere(positions, n, p);
    let i = choose|i: int| 0 <= i < n && positions[i] == p;
    lemma_submenus_of_monitor(app, n, i);
    menu::law_every_listed_workspace_has_a_window_menu(
        monitor.id,
        shown,
        app.max_title as nat,
        shown[k].index,
    );
}

/// The entry of a window menu that focuses its workspace does so, where the
/// monitor is still there in the latest state.
pub proof fn law_focus_entry_switches_to_its_workspace(
    app: AppView,
    monitor: Seq<char>,
    workspace: usize,
    now: u64,
    failed_at: Option<usize>,
)
    ensures
        activated(app, menu_id::focus_id(monitor, workspace as nat), now, failed_at).1
            == MenuReactionView::SwitchWorkspace(
            focus_command(unlocked(app).world, monitor, workspace),
        ),
{
    let id = menu_id::focus_id(monitor, workspace as nat);
    law_activation_is_put_off_once(app, id, now, failed_at);
    reveal_strlit("focus-ws-");
    reveal_strlit("focus-");
    reveal_strlit("ws-");
    reveal_strlit("quit");
    reveal_strlit("autostart");
    assert("focus-ws-"@.is_prefix_of(id)) by {
        assert(id.subrange(0, "focus-ws-"@.len() as int) =~= "focus-ws-"@);
    }
    assert(id[0] == 'f');
    assert("quit"@[0] == 'q');
    assert("autostart"@[0] == 'a');
    assert(!"ws-"@.is_prefix_of(id)) by {
        assert("ws-"@[0] == 'w');
        assert(id.subrange(0, 3)[0] == 'f');
    }
    menu_id::law_focus_id_names_workspace(monitor, workspace);
    assert(id.skip("focus-"@.len() as int) =~= menu_id::workspace_id(monitor, workspace as nat));
    menu_id::law_workspace_id_round_trip(monitor, workspace);
}

/// Opening and closing a window menu leaves the menus of the monitors as they
/// are: the check marks show the world, not what was clicked.
pub proof fn law_window_menu_changes_no_check_mark(
    app: AppView,
    monitor: Seq<char>,
    workspace: usize,
    now: u64,
    failed_at: Option<usize>,
)
    ensures
        ({
            let at = ready(app, failed_at);
            reconcile_of(unlocked(on_workspace_entry(at, monitor, workspace, now).0))
                == reconcile_of(at)
        }),
{
}

/// The latest state of the world: the one that waits, or else the present one.
pub open spec fn latest_world(app: AppView) -> state::WorldView {
    match app.pending {
        Some(world) => world,
        None => app.world,
    }
}

/// A command focuses this workspace of the first monitor with this identifier, and
/// there is no command exactly where no monitor has it.
pub open spec fn focuses(
    command: Option<SocketMessage>,
    world: state::WorldView,
    monitor: Seq<char>,
    workspace: usize,
) -> bool {
    match command {
        Some(SocketMessage::FocusMonitorWorkspaceNumber(i, w)) => {
            &&& i < world.monitors.len()
            &&& world.monitors[i as int].id == monitor
            &&& forall|j: int| 0 <= j < i ==> (#[trigger] world.monitors[j]).id != monitor
            &&& w == workspace
        },
        Some(_) => false,
        None => forall|j: int|
            0 <= j < world.monitors.len() ==> (#[trigger] world.monitors[j]).id != monitor,
    }
}

proof fn lemma_focus_command(world: state::WorldView, monitor: Seq<char>, workspace: usize)
    requires
        world.monitors.len() <= usize::MAX,
    ensures
        focuses(focus_command(world, monitor, workspace), world, monitor, workspace),
{
    state::law_monitors_are_found_by_identifier(world, monitor);
}

/// The entry that focuses a workspace sends the command for that workspace of the
/// monitor that the entry was made for.
pub proof fn law_focus_entries_focus_their_workspace(
    app: AppView,
    monitor: Seq<char>,
    workspace: usize,
    now: u64,
    failed_at: Option<usize>,
)
    requires
        app.valid(),
    ensures
        activated(app, menu_id::focus_id(monitor, workspace as nat), now, failed_at).1
            matches MenuReactionView::SwitchWorkspace(command) && focuses(
            command,
            latest_world(app),
            monitor,
            workspace,
        ),
{
    law_focus_entry_switches_to_its_workspace(app, monitor, workspace, now, failed_at);
    lemma_focus_command(latest_world(app), monitor, workspace);
}

/// The entry of a workspace shows a menu at the icon of the monitor that the entry
/// was made for, or sends the command for that workspace of that monitor.
pub proof fn law_workspace_entries_focus_their_workspace(
    app: AppView,
    monitor: Seq<char>,
    workspace: usize,
    now: u64,
    failed_at: Option<usize>,
)
    requires
        app.valid(),
    ensures
        match activated(app, menu_id::workspace_id(monitor, workspace as nat), now, failed_at).1 {
            MenuReactionView::ShowSubmenu(request) => app.submenus && (request matches Some(r)
                ==> r.monitor_id == monitor && r.tray_id == "komorebi-tray-grid-"@ + monitor),
            MenuReactionView::FocusWorkspace { command, .. } => focuses(
                command,
                latest_world(app),
                monitor,
                workspace,
            ),
            _ => false,
        },
{
    law_workspace_entry_opens_its_window_menu(app, monitor, workspace, now, failed_at);
    law_ready_is_valid(app, failed_at);
    lemma_focus_command(latest_world(app), monitor, workspace);
}

/// Every workspace stands at the place that its index says, as in every projected
/// world.
pub open spec fn in_place(world: state::WorldView) -> bool {
    forall|p: int, k: int|
        0 <= p < world.monitors.len() && 0 <= k < world.monitors[p].menu_workspaces.len() ==> (
        #[trigger] world.monitors[p].menu_workspaces[k]).index == k
}

/// Projected worlds have every workspace in its place.
pub proof fn law_projected_worlds_are_in_place(raw: types::State)
    ensures
        in_place(state::world_of(raw)),
{
}

/// The entry of a window focuses the workspace of that window on its own monitor,
/// and then the window with its own handle.
pub proof fn law_window_entries_focus_their_window(
    app: AppView,
    p: usize,
    k: usize,
    i: usize,
    now: u64,
    failed_at: Option<usize>,
)
    requires
        app.valid(),
        in_place(latest_world(app)),
        latest_world(app).ids().no_duplicates(),
        p < latest_world(app).monitors.len(),
        k < latest_world(app).monitors[p as int].menu_workspaces.len(),
        i < latest_world(app).monitors[p as int].menu_workspaces[k as int].windows.len(),
    ensures
        ({
            let monitor = latest_world(app).monitors[p as int];
            let id = menu_id::window_id(monitor.id, k as nat, i as nat);
            activated(app, id, now, failed_at).1 == MenuReactionView::FocusWindow {
                workspace: SocketMessage::FocusMonitorWorkspaceNumber(p, k),
                hwnd: monitor.menu_workspaces[k as int].windows[i as int].hwnd,
            }
        }),
{
    let at = ready(app, failed_at);
    let world = at.world;
    let monitor = world.monitors[p as int];
    let id = menu_id::window_id(monitor.id, k as nat, i as nat);
    law_ready_is_valid(app, failed_at);
    law_activation_is_put_off_once(app, id, now, failed_at);
    state::law_monitors_are_found_by_identifier(world, monitor.id);
    assert(world.position(monitor.id) == Some(p as int)) by {
        let q = world.position(monitor.id)->0;
        assert(world.monitors[p as int].id == monitor.id);
        if q != p as int {
            assert(world.ids()[q] != world.ids()[p as int]);
        }
    }
    law_window_entry_stands_for_a_window(at, monitor.id, k, i);
    menu_id::law_window_id_round_trip(monitor.id, k, i);
    let target = window_target(at, id)->0;
    assert(target == (monitor.id, k, monitor.menu_workspaces[k as int].windows[i as int].hwnd)) by {
        assert(monitor.menu_workspaces[k as int].index == k);
        if at.tables.window_items.contains_key(id) {
            let q = choose|q: int|
                0 <= q < world.monitors.len() && (#[trigger] world.monitors[q]).id == monitor.id
                    && menu::shows_window(world.monitors[q], k, i, target.2);
            if q != p as int {
                assert(world.ids()[q] != world.ids()[p as int]);
            }
            let shown = menu::listed(monitor.menu_workspaces);
            let a = choose|a: int|
                0 <= a < shown.len() && (#[trigger] shown[a]).index == k && i < shown[a].windows.len()
                    && shown[a].windows[i as int].hwnd == target.2;
            assert(shown.contains(shown[a]));
            menu::law_listed(monitor.menu_workspaces, shown[a]);
            let b = choose|b: int|
                0 <= b < monitor.menu_workspaces.len() && monitor.menu_workspaces[b] == shown[a];
            assert(world.monitors[p as int].menu_workspaces[b].index == b);
        }
    }
    reveal_strlit("win-h");
    reveal_strlit("focus-ws-");
    reveal_strlit("ws-");
    reveal_strlit("quit");
    reveal_strlit("autostart");
    menu_id::law_ids_are_written_out(monitor.id, k as nat, i as nat);
    assert(id[0] == 'w' && id[1] == 'i');
    assert(!"ws-"@.is_prefix_of(id)) by {
        assert("ws-"@[1] == 's');
        assert(id.subrange(0, 3)[1] == id[1]);
    }
    assert(!"focus-ws-"@.is_prefix_of(id)) by {
        assert("focus-ws-"@[0] == 'f');
        assert(id.subrange(0, 9)[0] == id[0]);
    }
    assert("quit"@[0] == 'q');
    assert("autostart"@[0] == 'a');
}

/// Where the entries stand for what they show, the entry of a workspace that is
/// focused or has at least one window shows the window menu of that workspace at the
/// icon of its own monitor, if window menus are wanted.
pub proof fn law_wanted_workspaces_show_their_window_menu(
    app: AppView,
    p: usize,
    k: usize,
    now: u64,
    failed_at: Option<usize>,
)
    requires
        app.valid(),
        app.submenus,
        ready(app, failed_at).tables == tables_of(ready(app, failed_at)),
        in_place(latest_world(app)),
        latest_world(app).ids().no_duplicates(),
        p < latest_world(app).monitors.len(),
        k < latest_world(app).monitors[p as int].menu_workspaces.len(),
        ({
            let ws = latest_world(app).monitors[p as int].menu_workspaces[k as int];
            ws.focused || ws.windows.len() >= 1
        }),
    ensures
        ({
            let monitor = latest_world(app).monitors[p as int];
            let id = menu_id::workspace_id(monitor.id, k as nat);
            activated(app, id, now, failed_at).1 == MenuReactionView::ShowSubmenu(
                tray::requested(
                    ready(app, failed_at).tray,
                    monitor.id,
                    menu::window_menu(
                        monitor.id,
                        monitor.menu_workspaces[k as int],
                        app.max_title as nat,
                    ),
                ),
            )
        }),
{
    let at = ready(app, failed_at);
    let world = at.world;
    let n = world.monitors.len();
    let monitor = world.monitors[p as int];
    let workspaces = monitor.menu_workspaces;
    law_ready_is_valid(app, failed_at);
    law_workspace_entry_opens_its_window_menu(app, monitor.id, k, now, failed_at);
    tray::lemma_by_id_total(world);
    order::law_sorted_positions(n, tray::by_id(world));
    order::lemma_listed_somewhere(tray::order_by_id(world), n, p);
    let i = choose|i: int| 0 <= i < n && tray::order_by_id(world)[i] == p;
    lemma_submenus_of_monitor(at, n, i);
    assert forall|a: int, b: int| 0 <= a < b < workspaces.len() implies (
    #[trigger] workspaces[a]).index != (#[trigger] workspaces[b]).index by {
        assert(world.monitors[p as int].menu_workspaces[a].index == a);
        assert(world.monitors[p as int].menu_workspaces[b].index == b);
    }
    assert(world.monitors[p as int].menu_workspaces[k as int].index == k);
    menu::law_wanted_workspaces_have_their_window_menus(
        monitor.id,
        workspaces,
        at.max_title as nat,
        k as int,
    );
}

/// Where window menus are not wanted, the entry of a workspace focuses it.
pub proof fn law_unwanted_window_menus_are_not_shown(
    app: AppView,
    monitor: Seq<char>,
    workspace: usize,
    now: u64,
    failed_at: Option<usize>,
)
    requires
        app.valid(),
        !app.submenus,
    ensures
        activated(app, menu_id::workspace_id(monitor, workspace as nat), now, failed_at).1
            matches MenuReactionView::FocusWorkspace { command, .. } && focuses(
            command,
            latest_world(app),
            monitor,
            workspace,
        ),
{
    law_workspace_entries_focus_their_workspace(app, monitor, workspace, now, failed_at);
}

/// The autostart entry asks for a switch and changes nothing by itself.
pub proof fn law_autostart_entry_asks_for_a_switch(
    app: AppView,
    now: u64,
    failed_at: Option<usize>,
)
    ensures
        activated(app, "autostart"@, now, failed_at) == (
            ready(app, failed_at),
            MenuReactionView::ToggleAutostart,
        ),
{
    law_activation_is_put_off_once(app, "autostart"@, now, failed_at);
    reveal_strlit("autostart");
    reveal_strlit("quit");
    assert("autostart"@[0] == 'a' && "quit"@[0] == 'q');
}

/// An identifier that names nothing leads to nothing.
pub proof fn law_unknown_entries_do_nothing(
    app: AppView,
    id: Seq<char>,
    now: u64,
    failed_at: Option<usize>,
)
    requires
        id != "quit"@,
        id != "autostart"@,
        !"ws-"@.is_prefix_of(id),
        !"focus-ws-"@.is_prefix_of(id),
        !"win-"@.is_prefix_of(id),
        !ready(app, failed_at).tables.window_items.contains_key(id),
    ensures
        activated(app, id, now, failed_at) == (ready(app, failed_at), MenuReactionView::Nothing),
{
    law_activation_is_put_off_once(app, id, now, failed_at);
}

/// An open menu holds a new state back for less than ten seconds. After that the
/// state that waited, if there is one, is shown first, and the new one is shown.
pub proof fn law_menu_lock_lasts_ten_seconds(
    app: AppView,
    new_state: state::WorldView,
    opened_at: u64,
    now: u64,
)
    requires
        app.menu_opened_at == Some(opened_at),
        new_state != app.world,
    ensures
        ({
            let (after, reaction) = on_state(app, new_state, now);
            if now < opened_at + 10_000_000_000 {
                &&& reaction is Buffered
                &&& after.world == app.world
                &&& after.pending == Some(new_state)
                &&& after.menu_opened_at == app.menu_opened_at
            } else {
                &&& after.menu_opened_at is None
                &&& after.pending is None
                &&& match app.pending {
                    Some(world) => after.world == world && (reaction
                        matches StateReactionView::FlushFirst { state, .. } && state == new_state),
                    None => after.world == new_state && reaction is Reconcile,
                }
            }
        }),
{
}

/// Once a reconciliation has succeeded, where there are several monitors the rim of
/// the icon of each one tells whether it is active, and inside it the icon shows the
/// cells of that monitor.
pub proof fn law_icons_show_the_present_world(app: AppView, p: usize, x: int, y: int)
    requires
        app.valid(),
        app.world.ids().no_duplicates(),
        p < app.world.monitors.len(),
        0 <= x < 32,
        0 <= y < 32,
    ensures
        ({
            let monitor = app.world.monitors[p as int];
            let icon = finished(app, reconcile_of(app), None).tray.icons[monitor.id];
            let theme = app.tray.theme;
            let at = (y * 32 + x) * 4;
            if x == 0 || x == 31 || y == 0 || y == 31 {
                icon.rgba.subrange(at, at + 4) == if monitor.active || app.world.monitors.len()
                    == 1 {
                    theme.active_monitor_border@
                } else {
                    theme.inactive_monitor_border@
                }
            } else {
                icon.rgba.subrange(at, at + 4) == render::grid_image(
                    monitor.cells,
                    theme,
                ).subrange(at, at + 4)
            }
        }),
{
    if x == 0 || x == 31 || y == 0 || y == 31 {
        if app.world.monitors.len() == 1 {
            tray::law_the_only_rim_is_active(app.tray, app.world, menus_of(app), x, y);
        } else {
            tray::law_the_rim_tells_the_active_monitor(
                app.tray,
                app.world,
                menus_of(app),
                p,
                x,
                y,
            );
        }
    } else {
        tray::law_icons_show_the_cells_of_their_monitors(
            app.tray,
            app.world,
            menus_of(app),
            p,
            x,
            y,
        );
    }
}

/// The monitors are listed from left to right: one that comes earlier lies further
/// to the left, or as far to the left and is reported earlier. Each is listed once.
pub proof fn law_monitors_are_listed_from_left_to_right(world: state::WorldView, a: int, b: int)
    requires
        0 <= a < b < world.monitors.len() <= usize::MAX,
    ensures
        ({
            let positions = left_to_right(world);
            let first = positions[a] as int;
            let second = positions[b] as int;
            &&& positions.len() == world.monitors.len()
            &&& first < world.monitors.len()
            &&& second < world.monitors.len()
            &&& world.monitors[first].x < world.monitors[second].x || (world.monitors[first].x
                == world.monitors[second].x && first < second)
        }),
{
    let leq = by_x(world);
    assert(total_ordering(leq));
    order::law_sorted_positions(world.monitors.len(), leq);
    let positions = left_to_right(world);
    assert(leq(positions[a], positions[b]));
    assert(positions[a] != positions[b]);
}

/// Once a reconciliation has succeeded, the entry of a workspace that is focused or
/// has at least one window opens its window menu at the icon of its monitor, if window
/// menus are wanted, and the icons are locked from then on.
pub proof fn law_window_menus_open_after_a_reconciliation(
    app: AppView,
    p: usize,
    k: usize,
    now: u64,
)
    requires
        app.valid(),
        app.submenus,
        app.pending is None,
        in_place(app.world),
        app.world.ids().no_duplicates(),
        p < app.world.monitors.len(),
        k < app.world.monitors[p as int].menu_workspaces.len(),
        ({
            let ws = app.world.monitors[p as int].menu_workspaces[k as int];
            ws.focused || ws.windows.len() >= 1
        }),
    ensures
        ({
            let monitor = app.world.monitors[p as int];
            let reconciled = finished(app, reconcile_of(app), None);
            let (after, reaction) = on_menu(
                reconciled,
                menu_id::workspace_id(monitor.id, k as nat),
                now,
            );
            &&& reaction matches MenuReactionView::ShowSubmenu(Some(request))
                && request.monitor_id == monitor.id && request.tray_id == "komorebi-tray-grid-"@
                + monitor.id && request.menu == menu::window_menu(
                monitor.id,
                monitor.menu_workspaces[k as int],
                app.max_title as nat,
            )
            &&& after.menu_opened_at == Some(now)
            &&& after.world == app.world
        }),
{
    let monitor = app.world.monitors[p as int];
    let reconciled = finished(app, reconcile_of(app), None);
    let id = menu_id::workspace_id(monitor.id, k as nat);
    law_icons_follow_the_world(app);
    assert(reconciled.valid());
    assert(app.world.ids()[p as int] == monitor.id);
    assert(app.world.ids().to_set().contains(monitor.id));
    assert(reconciled.tray.icons.dom().contains(monitor.id));
    let at = ready(reconciled, None);
    law_wanted_workspaces_show_their_window_menu(reconciled, p, k, now, None);
    law_activation_is_put_off_once(reconciled, id, now, None);
}

/// Where an update has failed, the entries stand for nothing new; where all have
/// succeeded, they stand for what the new menus show.
pub proof fn law_entries_are_recorded_on_success(app: AppView, failed_at: Option<usize>)
    ensures
        failed_at is None ==> finished(app, reconcile_of(app), failed_at).tables == tables_of(app),
        failed_at matches Some(k) && k < app.world.monitors.len() ==> finished(
            app,
            reconcile_of(app),
            failed_at,
        ).tables == app.tables,
        finished(app, reconcile_of(app), failed_at).world == app.world,
        finished(app, reconcile_of(app), failed_at).pending == app.pending,
        finished(app, reconcile_of(app), failed_at).menu_opened_at == app.menu_opened_at,
        finished(app, reconcile_of(app), failed_at).autostart == app.autostart,
{
}

} // verus!
