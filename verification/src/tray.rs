//! Keeps one tray icon per monitor in step with the latest state of the world.
//!
//! The manager decides what is to happen to the icons of the platform and
//! records what has happened. A reconciliation is planned by
//! [`TrayManager::reconcile`]; whoever owns the icons performs the updates of
//! the plan in order, up to the first one that fails, and reports back with
//! [`TrayManager::finish`].

use vstd::prelude::*;
use vstd::relations::*;

use crate::komorebi::state;
use crate::komorebi::state::{MonitorState, WorldState};
use crate::menu;
use crate::menu::Menu;
use crate::model;
use crate::order;
use crate::render;
use crate::render::Theme;
use crate::table::Table;
use crate::text;

verus! {

/// What a tray icon shows.
#[derive(Debug, PartialEq, Eq)]
pub struct TrayIcon {
    /// Identifier of the icon on the platform.
    pub id: String,
    pub tooltip: String,
    /// The image, `ICON_SIZE * ICON_SIZE` pixels of four bytes.
    pub rgba: Vec<u8>,
}

/// One step of a reconciliation: the icon of a monitor is created, or the one
/// that it has already is changed, so that it shows `icon` and carries `menu`.
#[derive(Debug, PartialEq, Eq)]
pub struct IconUpdate {
    pub monitor_id: String,
    pub create: bool,
    pub icon: TrayIcon,
    pub menu: Menu,
}

/// The updates of a reconciliation, in the order in which they are performed.
/// Once all have succeeded, the icons of all other monitors are dropped.
#[derive(Debug, PartialEq, Eq)]
pub struct TrayPlan {
    pub updates: Vec<IconUpdate>,
}

/// A menu that is to be shown at an icon.
#[derive(Debug, PartialEq, Eq)]
pub struct MenuRequest {
    pub monitor_id: String,
    pub tray_id: String,
    pub menu: Menu,
}

/// Manages the lifecycle of all per-monitor tray icons.
pub struct TrayManager {
    /// The live icon of each monitor, by the monitor's identifier.
    icons: Table<String, TrayIcon>,
    /// The menu of each monitor, by the monitor's identifier.
    menus: Table<String, Menu>,
    theme: Theme,
}

// ---------------------------------------------------------------------------
// Views
// ---------------------------------------------------------------------------

/// View of a [`TrayIcon`].
#[verifier::ext_equal]
pub ghost struct IconView {
    pub id: Seq<char>,
    pub tooltip: Seq<char>,
    pub rgba: Seq<u8>,
}

/// View of an [`IconUpdate`].
#[verifier::ext_equal]
pub ghost struct UpdateView {
    pub monitor_id: Seq<char>,
    pub create: bool,
    pub icon: IconView,
    pub menu: Seq<menu::EntryView>,
}

/// View of a [`MenuRequest`].
#[verifier::ext_equal]
pub ghost struct RequestView {
    pub monitor_id: Seq<char>,
    pub tray_id: Seq<char>,
    pub menu: Seq<menu::EntryView>,
}

/// View of a [`TrayManager`].
#[verifier::ext_equal]
pub ghost struct TrayView {
    pub icons: Map<Seq<char>, IconView>,
    pub menus: Map<Seq<char>, Seq<menu::EntryView>>,
    pub theme: Theme,
}

impl View for TrayIcon {
    type V = IconView;

    open spec fn view(&self) -> IconView {
        IconView { id: self.id@, tooltip: self.tooltip@, rgba: self.rgba@ }
    }
}

impl View for IconUpdate {
    type V = UpdateView;

    open spec fn view(&self) -> UpdateView {
        UpdateView {
            monitor_id: self.monitor_id@,
            create: self.create,
            icon: self.icon@,
            menu: self.menu@,
        }
    }
}

impl View for TrayPlan {
    type V = Seq<UpdateView>;

    open spec fn view(&self) -> Seq<UpdateView> {
        model::seq_view(self.updates@)
    }
}

impl View for MenuRequest {
    type V = RequestView;

    open spec fn view(&self) -> RequestView {
        RequestView { monitor_id: self.monitor_id@, tray_id: self.tray_id@, menu: self.menu@ }
    }
}

impl View for TrayManager {
    type V = TrayView;

    closed spec fn view(&self) -> TrayView {
        TrayView { icons: self.icons@, menus: self.menus@, theme: self.theme }
    }
}

// ---------------------------------------------------------------------------
// What a reconciliation is
// ---------------------------------------------------------------------------

/// One monitor is not after another one: its identifier comes first, or the
/// two are the same and it is reported first.
pub open spec fn by_id(world: state::WorldView) -> spec_fn(usize, usize) -> bool {
    |i: usize, j: usize|
        text::text_before(world.monitors[i as int].id, world.monitors[j as int].id) || (
        world.monitors[i as int].id == world.monitors[j as int].id && i <= j)
}

/// The positions of the monitors, ordered by identifier.
pub open spec fn order_by_id(world: state::WorldView) -> Seq<usize> {
    order::sorted_positions(world.monitors.len(), by_id(world))
}

/// The identifier of the icon of a monitor.
pub open spec fn tray_id_of(monitor_id: Seq<char>) -> Seq<char> {
    "komorebi-tray-grid-"@ + monitor_id
}

/// The tooltip of the icon of a monitor names its label, or its identifier
/// where it has none.
pub open spec fn tooltip_of(monitor: state::MonitorView) -> Seq<char> {
    "komorebi-tray-grid — "@ + (if monitor.label.len() > 0 {
        monitor.label
    } else {
        monitor.id
    })
}

/// Whether an icon has the border of the active monitor. The only monitor is
/// the active one.
pub open spec fn shown_active(world: state::WorldView, monitor: state::MonitorView) -> bool {
    monitor.active || world.monitors.len() == 1
}

/// What the icon of a monitor shows.
pub open spec fn icon_of(monitor: state::MonitorView, active: bool, theme: Theme) -> IconView {
    IconView {
        id: tray_id_of(monitor.id),
        tooltip: tooltip_of(monitor),
        rgba: render::bordered(render::grid_image(monitor.cells, theme), active, theme),
    }
}

/// The updates that bring the icons in step with the world. `menus` holds the
/// menus of the monitors in the order of the updates.
pub open spec fn planned(
    tray: TrayView,
    world: state::WorldView,
    menus: Seq<Seq<menu::EntryView>>,
) -> Seq<UpdateView> {
    let positions = order_by_id(world);
    Seq::new(
        world.monitors.len(),
        |i: int|
            {
                let monitor = world.monitors[positions[i] as int];
                UpdateView {
                    monitor_id: monitor.id,
                    create: !tray.icons.contains_key(monitor.id) && !(exists|j: int|
                        0 <= j < i && world.monitors[#[trigger] positions[j] as int].id
                            == monitor.id),
                    icon: icon_of(monitor, shown_active(world, monitor), tray.theme),
                    menu: menus[i],
                }
            },
    )
}

/// The state after the first `n` updates.
pub open spec fn updated(tray: TrayView, updates: Seq<UpdateView>, n: nat) -> TrayView
    decreases n,
{
    if n == 0 {
        tray
    } else {
        let before = updated(tray, updates, (n - 1) as nat);
        let update = updates[n - 1];
        TrayView {
            icons: before.icons.insert(update.monitor_id, update.icon),
            menus: before.menus.insert(update.monitor_id, update.menu),
            theme: before.theme,
        }
    }
}

/// The monitors that updates are about, in order.
pub open spec fn updated_ids(updates: Seq<UpdateView>) -> Seq<Seq<char>> {
    Seq::new(updates.len(), |i: int| updates[i].monitor_id)
}

/// The state after a reconciliation. Where all updates have succeeded, only
/// the monitors that they are about keep their icons and menus; where one has
/// failed, those before it have taken effect and nothing else has.
pub open spec fn finished(
    tray: TrayView,
    updates: Seq<UpdateView>,
    failed_at: Option<usize>,
) -> TrayView {
    match failed_at {
        Some(k) if k < updates.len() => updated(tray, updates, k as nat),
        _ => {
            let all = updated(tray, updates, updates.len());
            TrayView {
                icons: all.icons.restrict(updated_ids(updates).to_set()),
                menus: all.menus.restrict(updated_ids(updates).to_set()),
                theme: all.theme,
            }
        },
    }
}

// ---------------------------------------------------------------------------
// The manager
// ---------------------------------------------------------------------------

/// The order by identifier is a total one.
pub proof fn lemma_by_id_total(world: state::WorldView)
    ensures
        total_ordering(by_id(world)),
{
    let leq = by_id(world);
    assert forall|i: usize, j: usize| #[trigger] leq(i, j) || #[trigger] leq(j, i) by {
        text::lemma_text_before_total(
            world.monitors[i as int].id,
            world.monitors[j as int].id,
        );
    }
    assert forall|i: usize, j: usize| #[trigger] leq(i, j) && #[trigger] leq(j, i) implies i
        == j by {
        text::lemma_text_before_total(
            world.monitors[i as int].id,
            world.monitors[j as int].id,
        );
    }
    assert forall|i: usize, j: usize, k: usize| #[trigger]
        leq(i, j) && #[trigger] leq(j, k) implies leq(i, k) by {
        let a = world.monitors[i as int].id;
        let b = world.monitors[j as int].id;
        let c = world.monitors[k as int].id;
        if text::text_before(a, b) && text::text_before(b, c) {
            text::lemma_text_before_transitive(a, b, c);
        }
    }
}

/// The positions of the monitors, ordered by identifier; monitors with the
/// same identifier keep their order.
pub fn monitors_by_id(world: &WorldState) -> (positions: Vec<usize>)
    ensures
        positions@ == order_by_id(world@),
        order::lists_in_order(positions@, world@.monitors.len(), by_id(world@)),
{
    proof {
        lemma_by_id_total(world@);
    }
    let not_after = |i: usize, j: usize| -> (r: bool)
        requires
            i < world.monitors@.len(),
            j < world.monitors@.len(),
        ensures
            r == by_id(world@)(i, j),
        {
            text::is_text_before(world.monitors[i].id.as_str(), world.monitors[j].id.as_str())
                || (text::same_text(world.monitors[i].id.as_str(), world.monitors[j].id.as_str())
                && i <= j)
        };
    order::sort_positions(world.monitors.len(), not_after, Ghost(by_id(world@)))
}

/// The tooltip of the icon of a monitor.
pub fn tooltip_for(monitor: &MonitorState) -> (tooltip: String)
    ensures
        tooltip@ == tooltip_of(monitor@),
{
    let label: &str = if monitor.label.as_str().unicode_len() > 0 {
        monitor.label.as_str()
    } else {
        monitor.id.as_str()
    };
    "komorebi-tray-grid — ".to_owned().concat(label)
}

impl TrayManager {
    /// The identifier of an icon follows from the monitor that it is for.
    #[verifier::type_invariant]
    spec fn icons_are_named(self) -> bool {
        forall|id: Seq<char>| #[trigger]
            self.icons@.contains_key(id) ==> self.icons@[id].id == tray_id_of(id)
    }

    /// Build an empty manager.
    pub fn new(theme: Theme) -> (tray: TrayManager)
        ensures
            tray@.icons == Map::<Seq<char>, IconView>::empty(),
            tray@.menus == Map::<Seq<char>, Seq<menu::EntryView>>::empty(),
            tray@.theme == theme,
    {
        TrayManager { icons: Table::new(), menus: Table::new(), theme }
    }

    /// Plans the reconciliation of the live tray icons against `world`. `menus`
    /// holds the menus of the monitors in the order of [`monitors_by_id`].
    pub fn reconcile(&self, world: &WorldState, menus: &Vec<Menu>) -> (plan: TrayPlan)
        requires
            menus@.len() == world.monitors@.len(),
        ensures
            plan@ == planned(self@, world@, model::seq_view(menus@)),
    {
        let positions: Vec<usize> = monitors_by_id(world);
        let ghost full = planned(self@, world@, model::seq_view(menus@));
        let mut updates: Vec<IconUpdate> = Vec::new();
        let mut i: usize = 0;
        while i < positions.len()
            invariant
                i <= positions@.len(),
                positions@ == order_by_id(world@),
                positions@.len() == world.monitors@.len(),
                menus@.len() == world.monitors@.len(),
                forall|k: int|
                    0 <= k < positions@.len() ==> #[trigger] positions@[k] < world.monitors@.len(),
                full == planned(self@, world@, model::seq_view(menus@)),
                updates@.len() == i,
                forall|k: int| 0 <= k < i ==> (#[trigger] updates@[k])@ == full[k],
            decreases positions@.len() - i,
        {
            let monitor: &MonitorState = &world.monitors[positions[i]];
            proof {
                assert(world@.monitors[positions@[i as int] as int] == monitor@);
            }
            let active = monitor.active || world.monitors.len() == 1;
            let mut create = !self.icons.contains_key(&monitor.id);
            let mut j: usize = 0;
            while j < i
                invariant
                    j <= i < positions@.len(),
                    positions@ == order_by_id(world@),
                    positions@.len() == world.monitors@.len(),
                    forall|k: int|
                        0 <= k < positions@.len() ==> #[trigger] positions@[k]
                            < world.monitors@.len(),
                    create == (!self@.icons.contains_key(monitor@.id) && !(exists|k: int|
                        0 <= k < j && world@.monitors[#[trigger] positions@[k] as int].id
                            == monitor@.id)),
                decreases i - j,
            {
                proof {
                    assert(world@.monitors[positions@[j as int] as int]
                        == world.monitors@[positions@[j as int] as int]@);
                }
                if text::same_text(
                    world.monitors[positions[j]].id.as_str(),
                    monitor.id.as_str(),
                ) {
                    create = false;
                }
                j += 1;
            }
            let update = self.upsert(monitor, active, &menus[i], create);
            proof {
                assert(update@ == full[i as int]);
            }
            updates.push(update);
            i += 1;
        }
        let plan = TrayPlan { updates };
        proof {
            assert(plan@ =~= full);
        }
        plan
    }

    /// The update for one monitor. `active` controls the color of the outer
    /// border.
    fn upsert(&self, monitor: &MonitorState, active: bool, menu: &Menu, create: bool) -> (update:
        IconUpdate)
        ensures
            update@ == (UpdateView {
                monitor_id: monitor@.id,
                create,
                icon: icon_of(monitor@, active, self@.theme),
                menu: menu@,
            }),
    {
        let mut rgba: Vec<u8> = render::render_grid_with_theme(&monitor.cells, &self.theme);
        render::paint_monitor_border_with_theme(rgba.as_mut_slice(), active, &self.theme);
        IconUpdate {
            monitor_id: monitor.id.clone(),
            create,
            icon: TrayIcon {
                id: "komorebi-tray-grid-".to_owned().concat(monitor.id.as_str()),
                tooltip: tooltip_for(monitor),
                rgba,
            },
            menu: menu.clone(),
        }
    }

    /// Records the outcome of a reconciliation: which update has failed, if one
    /// has. Returns whether all updates have succeeded.
    pub fn finish(&mut self, plan: TrayPlan, failed_at: Option<usize>) -> (succeeded: bool)
        requires
            forall|i: int|
                0 <= i < plan@.len() ==> (#[trigger] plan@[i]).icon.id == tray_id_of(
                    plan@[i].monitor_id,
                ),
        ensures
            final(self)@ == finished(old(self)@, plan@, failed_at),
            succeeded == !(failed_at matches Some(k) && k < plan@.len()),
    {
        let ghost updates = plan@;
        let ghost before = self@;
        proof {
            use_type_invariant(&*self);
        }
        let mut icons: Table<String, TrayIcon> = Table::new();
        let mut menus: Table<String, Menu> = Table::new();
        std::mem::swap(&mut self.icons, &mut icons);
        std::mem::swap(&mut self.menus, &mut menus);
        let total: usize = plan.updates.len();
        let succeeded: bool = match failed_at {
            Some(k) => k >= total,
            None => true,
        };
        let done: usize = match failed_at {
            Some(k) => if k < total {
                k
            } else {
                total
            },
            None => total,
        };
        let mut seen: Vec<String> = Vec::new();
        let mut i: usize = 0;
        while i < done
            invariant
                i <= done <= total,
                total == plan.updates@.len(),
                updates == plan@,
                icons@ == updated(before, updates, i as nat).icons,
                menus@ == updated(before, updates, i as nat).menus,
                updated(before, updates, i as nat).theme == before.theme,
                seen@.len() == i,
                forall|k: int| 0 <= k < i ==> (#[trigger] seen@[k])@ == updates[k].monitor_id,
                forall|k: int|
                    0 <= k < updates.len() ==> (#[trigger] updates[k]).icon.id == tray_id_of(
                        updates[k].monitor_id,
                    ),
                forall|id: Seq<char>| #[trigger]
                    icons@.contains_key(id) ==> icons@[id].id == tray_id_of(id),
            decreases done - i,
        {
            let update: &IconUpdate = &plan.updates[i];
            proof {
                assert(updates[i as int] == update@);
            }
            let icon = TrayIcon {
                id: update.icon.id.clone(),
                tooltip: update.icon.tooltip.clone(),
                rgba: update.icon.rgba.clone(),
            };
            proof {
                assert(icon@.rgba =~= update@.icon.rgba);
            }
            icons.insert(update.monitor_id.clone(), icon);
            menus.insert(update.monitor_id.clone(), update.menu.clone());
            seen.push(update.monitor_id.clone());
            i += 1;
        }
        if succeeded {
            proof {
                assert(model::seq_view(seen@) =~= updated_ids(updates));
            }
            icons.retain_keys(&seen);
            menus.retain_keys(&seen);
        }
        self.icons = icons;
        self.menus = menus;
        succeeded
    }

    /// Changes the theme. Returns whether it differs from the present one, in
    /// which case the icons have to be reconciled.
    pub fn set_theme(&mut self, theme: Theme) -> (changed: bool)
        ensures
            changed == (old(self)@.theme != theme),
            final(self)@ == (TrayView { theme, ..old(self)@ }),
    {
        proof {
            use_type_invariant(&*self);
        }
        if self.theme.same(&theme) {
            return false;
        }
        self.theme = theme;
        true
    }

    /// Drop every tray icon.
    pub fn clear(&mut self)
        ensures
            final(self)@ == (TrayView {
                icons: Map::<Seq<char>, IconView>::empty(),
                ..old(self)@
            }),
    {
        self.icons = Table::new();
    }

    /// Number of currently visible tray icons.
    pub fn len(&self) -> (n: usize)
        ensures
            self@.icons.dom().finite(),
            n == self@.icons.dom().len(),
    {
        self.icons.len()
    }

    /// `true` if no icons are currently shown.
    pub fn is_empty(&self) -> (empty: bool)
        ensures
            empty == (self@.icons == Map::<Seq<char>, IconView>::empty()),
    {
        let n: usize = self.icons.len();
        proof {
            if n == 0 {
                assert(self@.icons =~= Map::<Seq<char>, IconView>::empty());
            }
        }
        n == 0
    }

    /// The menu of a monitor.
    pub fn menu(&self, monitor_id: &str) -> (found: Option<&Menu>)
        ensures
            match found {
                Some(m) => self@.menus.contains_key(monitor_id@) && self@.menus[monitor_id@] == m@,
                None => !self@.menus.contains_key(monitor_id@),
            },
    {
        self.menus.get(&monitor_id.to_owned())
    }

    /// What to show as the context menu of a monitor: its menu, where it has a
    /// menu and an icon.
    pub fn show_menu(&self, monitor_id: &str) -> (request: Option<MenuRequest>)
        ensures
            model::opt_view(request) == (if self@.menus.contains_key(monitor_id@) {
                requested(self@, monitor_id@, self@.menus[monitor_id@])
            } else {
                None
            }),
    {
        match self.menus.get(&monitor_id.to_owned()) {
            Some(menu) => self.show_custom_menu(monitor_id, menu),
            None => None,
        }
    }

    /// What to show as a specific menu of a monitor: that menu, where the
    /// monitor has an icon.
    pub fn show_custom_menu(&self, monitor_id: &str, menu: &Menu) -> (request: Option<
        MenuRequest,
    >)
        ensures
            model::opt_view(request) == requested(self@, monitor_id@, menu@),
    {
        proof {
            use_type_invariant(self);
        }
        match self.icons.get(&monitor_id.to_owned()) {
            Some(icon) => Some(
                MenuRequest {
                    monitor_id: monitor_id.to_owned(),
                    tray_id: icon.id.clone(),
                    menu: menu.clone(),
                },
            ),
            None => None,
        }
    }

    /// The identifier of the monitor that owns a tray icon.
    pub fn monitor_id_for_tray(&self, tray_id: &str) -> (monitor_id: Option<String>)
        ensures
            match monitor_id {
                Some(id) => self@.icons.contains_key(id@) && tray_id@ == tray_id_of(id@),
                None => forall|id: Seq<char>| #[trigger]
                    self@.icons.contains_key(id) ==> tray_id@ != tray_id_of(id),
            },
    {
        match text::strip_prefix(tray_id, "komorebi-tray-grid-") {
            Some(id) => {
                proof {
                    let p = "komorebi-tray-grid-"@;
                    assert(tray_id@ =~= p + id@) by {
                        assert(tray_id@.subrange(0, p.len() as int) == p);
                    }
                    assert forall|other: Seq<char>| tray_id@ == tray_id_of(other) implies other
                        == id@ by {
                        assert(tray_id_of(other).skip(p.len() as int) =~= other);
                    }
                }
                if self.icons.contains_key(&id) {
                    Some(id)
                } else {
                    None
                }
            },
            None => {
                proof {
                    let p = "komorebi-tray-grid-"@;
                    assert forall|id: Seq<char>| #[trigger]
                        self@.icons.contains_key(id) implies tray_id@ != tray_id_of(id) by {
                        assert(tray_id_of(id).subrange(0, p.len() as int) =~= p);
                    }
                }
                None
            },
        }
    }
}

/// The request for a menu at the icon of a monitor, where it has an icon.
pub open spec fn requested(
    tray: TrayView,
    monitor_id: Seq<char>,
    menu: Seq<menu::EntryView>,
) -> Option<RequestView> {
    if tray.icons.contains_key(monitor_id) {
        Some(RequestView { monitor_id, tray_id: tray_id_of(monitor_id), menu })
    } else {
        None
    }
}

// ---------------------------------------------------------------------------
// Laws
// ---------------------------------------------------------------------------

/// Icons of different monitors have different identifiers.
pub proof fn law_tray_ids_differ(a: Seq<char>, b: Seq<char>)
    requires
        tray_id_of(a) == tray_id_of(b),
    ensures
        a == b,
{
    let p = "komorebi-tray-grid-"@.len() as int;
    assert(tray_id_of(a).skip(p) =~= a);
    assert(tray_id_of(b).skip(p) =~= b);
}

proof fn lemma_updated(tray: TrayView, updates: Seq<UpdateView>, n: nat)
    requires
        n <= updates.len(),
    ensures
        updated(tray, updates, n).theme == tray.theme,
        forall|id: Seq<char>| #[trigger]
            updated(tray, updates, n).icons.contains_key(id) <==> tray.icons.contains_key(id) || (
            exists|i: int| 0 <= i < n && (#[trigger] updates[i]).monitor_id == id),
        forall|id: Seq<char>| #[trigger]
            updated(tray, updates, n).menus.contains_key(id) <==> tray.menus.contains_key(id) || (
            exists|i: int| 0 <= i < n && (#[trigger] updates[i]).monitor_id == id),
    decreases n,
{
    if n > 0 {
        lemma_updated(tray, updates, (n - 1) as nat);
        assert forall|id: Seq<char>| #[trigger]
            updated(tray, updates, n).icons.contains_key(id) <==> tray.icons.contains_key(id) || (
            exists|i: int| 0 <= i < n && (#[trigger] updates[i]).monitor_id == id) by {
            let before = updated(tray, updates, (n - 1) as nat);
            assert(updates[n - 1].monitor_id == updates[n - 1].monitor_id);
            assert(before.icons.contains_key(id) || id == updates[n - 1].monitor_id <==> updated(
                tray,
                updates,
                n,
            ).icons.contains_key(id));
        }
        assert forall|id: Seq<char>| #[trigger]
            updated(tray, updates, n).menus.contains_key(id) <==> tray.menus.contains_key(id) || (
            exists|i: int| 0 <= i < n && (#[trigger] updates[i]).monitor_id == id) by {
            let before = updated(tray, updates, (n - 1) as nat);
            assert(updates[n - 1].monitor_id == updates[n - 1].monitor_id);
            assert(before.menus.contains_key(id) || id == updates[n - 1].monitor_id <==> updated(
                tray,
                updates,
                n,
            ).menus.contains_key(id));
        }
    }
}

proof fn lemma_updated_value(tray: TrayView, updates: Seq<UpdateView>, n: nat, i: int)
    requires
        0 <= i < n <= updates.len(),
        forall|a: int, b: int|
            0 <= a < b < updates.len() ==> (#[trigger] updates[a]).monitor_id != (
            #[trigger] updates[b]).monitor_id,
    ensures
        updated(tray, updates, n).icons[updates[i].monitor_id] == updates[i].icon,
        updated(tray, updates, n).menus[updates[i].monitor_id] == updates[i].menu,
    decreases n,
{
    if i < n - 1 {
        lemma_updated_value(tray, updates, (n - 1) as nat, i);
        assert(updates[i].monitor_id != updates[n - 1].monitor_id);
    }
}

/// After a reconciliation that has succeeded, exactly the monitors of the world
/// have an icon and a menu.
pub proof fn law_reconcile_covers_the_world(
    tray: TrayView,
    world: state::WorldView,
    menus: Seq<Seq<menu::EntryView>>,
)
    requires
        world.monitors.len() <= usize::MAX,
    ensures
        ({
            let after = finished(tray, planned(tray, world, menus), None);
            &&& after.icons.dom() == world.ids().to_set()
            &&& after.menus.dom() == world.ids().to_set()
            &&& after.theme == tray.theme
        }),
{
    let updates = planned(tray, world, menus);
    let after = finished(tray, updates, None);
    let positions = order_by_id(world);
    let n = world.monitors.len();
    lemma_by_id_total(world);
    order::law_sorted_positions(n, by_id(world));
    lemma_updated(tray, updates, n);
    let listed = updated_ids(updates);
    assert forall|id: Seq<char>| listed.contains(id) <==> world.ids().contains(id) by {
        if listed.contains(id) {
            let i = choose|i: int| 0 <= i < listed.len() && listed[i] == id;
            assert(world.ids()[positions[i] as int] == id);
        }
        if world.ids().contains(id) {
            let p = choose|p: int| 0 <= p < world.ids().len() && world.ids()[p] == id;
            order::lemma_listed_somewhere(positions, n, p as usize);
            let i = choose|i: int| 0 <= i < n && positions[i] == p as usize;
            assert(listed[i] == id);
        }
    }
    assert forall|id: Seq<char>| listed.contains(id) implies updated(
        tray,
        updates,
        n,
    ).icons.contains_key(id) && updated(tray, updates, n).menus.contains_key(id) by {
        let i = choose|i: int| 0 <= i < listed.len() && listed[i] == id;
        assert(updates[i].monitor_id == id);
    }
    let all = updated(tray, updates, n);
    assert(after.icons == all.icons.restrict(listed.to_set()));
    assert(after.menus == all.menus.restrict(listed.to_set()));
    assert forall|id: Seq<char>| #![auto] after.icons.dom().contains(id) <==> world.ids().contains(
        id,
    ) by {
        assert(listed.to_set().contains(id) == listed.contains(id));
    }
    assert forall|id: Seq<char>| #![auto] after.menus.dom().contains(id) <==> world.ids().contains(
        id,
    ) by {
        assert(listed.to_set().contains(id) == listed.contains(id));
    }
    assert(after.icons.dom() =~= world.ids().to_set());
    assert(after.menus.dom() =~= world.ids().to_set());
}

/// After a reconciliation that has succeeded, the icon and the menu of a
/// monitor show that monitor, where no other one has its identifier.
pub proof fn law_reconciled_icons_show_their_monitors(
    tray: TrayView,
    world: state::WorldView,
    menus: Seq<Seq<menu::EntryView>>,
    i: int,
)
    requires
        world.monitors.len() <= usize::MAX,
        0 <= i < world.monitors.len(),
        world.ids().no_duplicates(),
    ensures
        ({
            let after = finished(tray, planned(tray, world, menus), None);
            let monitor = world.monitors[order_by_id(world)[i] as int];
            &&& after.icons[monitor.id] == icon_of(
                monitor,
                shown_active(world, monitor),
                tray.theme,
            )
            &&& after.menus[monitor.id] == menus[i]
        }),
{
    let updates = planned(tray, world, menus);
    let positions = order_by_id(world);
    let n = world.monitors.len();
    lemma_by_id_total(world);
    order::law_sorted_positions(n, by_id(world));
    assert forall|a: int, b: int| 0 <= a < b < updates.len() implies (
    #[trigger] updates[a]).monitor_id != (#[trigger] updates[b]).monitor_id by {
        assert(positions[a] != positions[b]);
        assert(world.ids()[positions[a] as int] != world.ids()[positions[b] as int]);
    }
    lemma_updated_value(tray, updates, n, i);
    let listed = updated_ids(updates);
    assert(listed[i] == updates[i].monitor_id);
    assert(listed.contains(updates[i].monitor_id));
    lemma_updated(tray, updates, n);
    assert(updated(tray, updates, n).icons.contains_key(updates[i].monitor_id));
    assert(updated(tray, updates, n).menus.contains_key(updates[i].monitor_id));
}

/// The icon of the only monitor has the border of the active monitor, whether or
/// not it is said to have the focus.
pub proof fn law_only_monitor_is_shown_active(
    tray: TrayView,
    world: state::WorldView,
    menus: Seq<Seq<menu::EntryView>>,
)
    requires
        world.monitors.len() == 1,
    ensures
        finished(tray, planned(tray, world, menus), None).icons[world.monitors[0].id] == icon_of(
            world.monitors[0],
            true,
            tray.theme,
        ),
{
    lemma_by_id_total(world);
    order::law_sorted_positions(1, by_id(world));
    assert(world.ids().no_duplicates());
    law_reconciled_icons_show_their_monitors(tray, world, menus, 0);
}

/// A reconciliation that has failed drops no icon.
pub proof fn law_failed_reconcile_drops_nothing(
    tray: TrayView,
    updates: Seq<UpdateView>,
    k: usize,
    id: Seq<char>,
)
    requires
        k < updates.len(),
        tray.icons.contains_key(id),
    ensures
        finished(tray, updates, Some(k)).icons.contains_key(id),
{
    lemma_updated(tray, updates, k as nat);
}

/// A second reconciliation with the same monitors creates no icon.
pub proof fn law_reconcile_again_creates_nothing(
    tray: TrayView,
    world: state::WorldView,
    menus: Seq<Seq<menu::EntryView>>,
    i: int,
)
    requires
        world.monitors.len() <= usize::MAX,
        0 <= i < world.monitors.len(),
    ensures
        !planned(finished(tray, planned(tray, world, menus), None), world, menus)[i].create,
{
    let after = finished(tray, planned(tray, world, menus), None);
    law_reconcile_covers_the_world(tray, world, menus);
    lemma_by_id_total(world);
    order::law_sorted_positions(world.monitors.len(), by_id(world));
    let p = order_by_id(world)[i];
    assert(world.ids()[p as int] == world.monitors[p as int].id);
    assert(world.ids().to_set().contains(world.monitors[p as int].id));
    assert(after.icons.dom().contains(world.monitors[p as int].id));
}

/// The icon of the monitor at position `p` after a reconciliation that has
/// succeeded.
proof fn lemma_icon_of_monitor(
    tray: TrayView,
    world: state::WorldView,
    menus: Seq<Seq<menu::EntryView>>,
    p: usize,
)
    requires
        p < world.monitors.len() <= usize::MAX,
        world.ids().no_duplicates(),
    ensures
        ({
            let monitor = world.monitors[p as int];
            finished(tray, planned(tray, world, menus), None).icons[monitor.id] == icon_of(
                monitor,
                shown_active(world, monitor),
                tray.theme,
            )
        }),
{
    let n = world.monitors.len();
    lemma_by_id_total(world);
    order::law_sorted_positions(n, by_id(world));
    order::lemma_listed_somewhere(order_by_id(world), n, p);
    let i = choose|i: int| 0 <= i < n && order_by_id(world)[i] == p;
    law_reconciled_icons_show_their_monitors(tray, world, menus, i);
}

/// Where there are several monitors, the rim of an icon has the border color of
/// active monitors exactly where its own monitor is active, and else that of the
/// others.
pub proof fn law_the_rim_tells_the_active_monitor(
    tray: TrayView,
    world: state::WorldView,
    menus: Seq<Seq<menu::EntryView>>,
    p: usize,
    x: int,
    y: int,
)
    requires
        p < world.monitors.len() <= usize::MAX,
        world.monitors.len() >= 2,
        world.ids().no_duplicates(),
        0 <= x < 32,
        0 <= y < 32,
        x == 0 || x == 31 || y == 0 || y == 31,
    ensures
        ({
            let monitor = world.monitors[p as int];
            let icon = finished(tray, planned(tray, world, menus), None).icons[monitor.id];
            let at = (y * 32 + x) * 4;
            icon.rgba.subrange(at, at + 4) == if monitor.active {
                tray.theme.active_monitor_border@
            } else {
                tray.theme.inactive_monitor_border@
            }
        }),
{
    let monitor = world.monitors[p as int];
    lemma_icon_of_monitor(tray, world, menus, p);
    render::law_outer_border_tells_the_active_monitor(
        render::grid_image(monitor.cells, tray.theme),
        shown_active(world, monitor),
        tray.theme,
        x,
        y,
    );
}

/// The rim of the icon of the only monitor has the border color of active
/// monitors.
pub proof fn law_the_only_rim_is_active(
    tray: TrayView,
    world: state::WorldView,
    menus: Seq<Seq<menu::EntryView>>,
    x: int,
    y: int,
)
    requires
        world.monitors.len() == 1,
        0 <= x < 32,
        0 <= y < 32,
        x == 0 || x == 31 || y == 0 || y == 31,
    ensures
        ({
            let icon = finished(tray, planned(tray, world, menus), None).icons[world.monitors[0].id];
            let at = (y * 32 + x) * 4;
            icon.rgba.subrange(at, at + 4) == tray.theme.active_monitor_border@
        }),
{
    law_only_monitor_is_shown_active(tray, world, menus);
    render::law_outer_border_tells_the_active_monitor(
        render::grid_image(world.monitors[0].cells, tray.theme),
        true,
        tray.theme,
        x,
        y,
    );
}

/// Inside its rim an icon shows the grid of the cells of its own monitor, in the
/// colors of the theme.
pub proof fn law_icons_show_the_cells_of_their_monitors(
    tray: TrayView,
    world: state::WorldView,
    menus: Seq<Seq<menu::EntryView>>,
    p: usize,
    x: int,
    y: int,
)
    requires
        p < world.monitors.len() <= usize::MAX,
        world.ids().no_duplicates(),
        0 < x < 31,
        0 < y < 31,
    ensures
        ({
            let monitor = world.monitors[p as int];
            let icon = finished(tray, planned(tray, world, menus), None).icons[monitor.id];
            let at = (y * 32 + x) * 4;
            &&& icon.rgba.len() == 4096
            &&& icon.rgba.subrange(at, at + 4) == render::grid_image(
                monitor.cells,
                tray.theme,
            ).subrange(at, at + 4)
        }),
{
    let monitor = world.monitors[p as int];
    lemma_icon_of_monitor(tray, world, menus, p);
    render::law_outer_border_tells_the_active_monitor(
        render::grid_image(monitor.cells, tray.theme),
        shown_active(world, monitor),
        tray.theme,
        x,
        y,
    );
}

/// An icon is named after its monitor, and its tooltip says the label of the
/// monitor, or its identifier where it has no label.
pub proof fn law_icons_name_their_monitors(
    tray: TrayView,
    world: state::WorldView,
    menus: Seq<Seq<menu::EntryView>>,
    p: usize,
)
    requires
        p < world.monitors.len() <= usize::MAX,
        world.ids().no_duplicates(),
    ensures
        ({
            let monitor = world.monitors[p as int];
            let icon = finished(tray, planned(tray, world, menus), None).icons[monitor.id];
            &&& icon.id == "komorebi-tray-grid-"@ + monitor.id
            &&& monitor.label.len() > 0 ==> icon.tooltip == "komorebi-tray-grid — "@
                + monitor.label
            &&& monitor.label.len() == 0 ==> icon.tooltip == "komorebi-tray-grid — "@ + monitor.id
        }),
{
    lemma_icon_of_monitor(tray, world, menus, p);
}

/// There is one update for each monitor, in the order of their identifiers, and it
/// creates an icon exactly where the monitor has none.
pub proof fn law_updates_create_missing_icons(
    tray: TrayView,
    world: state::WorldView,
    menus: Seq<Seq<menu::EntryView>>,
    i: int,
    j: int,
)
    requires
        0 <= i < j < world.monitors.len() <= usize::MAX,
        world.ids().no_duplicates(),
    ensures
        ({
            let updates = planned(tray, world, menus);
            &&& updates.len() == world.monitors.len()
            &&& text::text_before(updates[i].monitor_id, updates[j].monitor_id)
            &&& updates[i].create <==> !tray.icons.contains_key(updates[i].monitor_id)
            &&& updates[j].create <==> !tray.icons.contains_key(updates[j].monitor_id)
        }),
{
    let positions = order_by_id(world);
    let n = world.monitors.len();
    lemma_by_id_total(world);
    order::law_sorted_positions(n, by_id(world));
    assert forall|a: int, b: int| 0 <= a < b < n implies world.monitors[#[trigger] positions[a] as int].id
        != world.monitors[#[trigger] positions[b] as int].id by {
        assert(positions[a] != positions[b]);
        assert(world.ids()[positions[a] as int] != world.ids()[positions[b] as int]);
    }
    assert(by_id(world)(positions[i], positions[j]));
    assert(positions[i] != positions[j]);
}

/// Where the update at `k` has failed, those before it have taken effect, and the
/// icons of all other monitors are as before.
pub proof fn law_updates_before_a_failure_take_effect(
    tray: TrayView,
    updates: Seq<UpdateView>,
    k: usize,
    i: int,
    id: Seq<char>,
)
    requires
        0 <= i < k < updates.len(),
        forall|a: int, b: int|
            0 <= a < b < updates.len() ==> (#[trigger] updates[a]).monitor_id != (
            #[trigger] updates[b]).monitor_id,
        forall|a: int| 0 <= a < k ==> (#[trigger] updates[a]).monitor_id != id,
    ensures
        ({
            let after = finished(tray, updates, Some(k));
            &&& after.icons.contains_key(updates[i].monitor_id)
            &&& after.icons[updates[i].monitor_id] == updates[i].icon
            &&& after.menus[updates[i].monitor_id] == updates[i].menu
            &&& after.icons.contains_key(id) <==> tray.icons.contains_key(id)
            &&& tray.icons.contains_key(id) ==> after.icons[id] == tray.icons[id]
            &&& tray.menus.contains_key(id) ==> after.menus[id] == tray.menus[id]
        }),
{
    lemma_updated_value(tray, updates, k as nat, i);
    lemma_updated(tray, updates, k as nat);
    lemma_not_updated(tray, updates, k as nat, id);
}

proof fn lemma_not_updated(tray: TrayView, updates: Seq<UpdateView>, n: nat, id: Seq<char>)
    requires
        n <= updates.len(),
        forall|a: int| 0 <= a < n ==> (#[trigger] updates[a]).monitor_id != id,
    ensures
        updated(tray, updates, n).icons.contains_key(id) <==> tray.icons.contains_key(id),
        updated(tray, updates, n).icons[id] == tray.icons[id],
        updated(tray, updates, n).menus[id] == tray.menus[id],
    decreases n,
{
    if n > 0 {
        lemma_not_updated(tray, updates, (n - 1) as nat, id);
        assert(updates[n - 1].monitor_id != id);
    }
}

/// A menu is shown exactly at the icon of its monitor, where that has one.
pub proof fn law_menus_are_shown_at_their_icons(
    tray: TrayView,
    monitor_id: Seq<char>,
    menu: Seq<menu::EntryView>,
)
    ensures
        requested(tray, monitor_id, menu) is Some <==> tray.icons.contains_key(monitor_id),
        requested(tray, monitor_id, menu) matches Some(request) ==> request.monitor_id
            == monitor_id && request.tray_id == "komorebi-tray-grid-"@ + monitor_id && request.menu
            == menu,
{
}

} // verus!
