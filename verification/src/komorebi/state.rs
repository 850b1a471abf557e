//! UI-friendly projection of komorebi's [`types::State`]: for each monitor a
//! grid of nine cells, and what its menu lists.

use vstd::prelude::*;

use crate::komorebi::types;
use crate::model;
use crate::render::CellState;
use crate::text;

verus! {

/// Number of cells per tray icon (3 × 3).
pub const CELLS_PER_MONITOR: usize = 9;

/// Per-monitor projected state used by the tray manager.
#[derive(Debug, PartialEq, Eq)]
pub struct MonitorState {
    /// Stable identifier used as the key when reconciling tray icons across
    /// updates.
    pub id: String,
    /// Human-readable label (used for tray tooltips).
    pub label: String,
    /// This monitor is the currently focused monitor reported by komorebi.
    pub active: bool,
    /// Nine cells, row-major, top-left first.
    pub cells: [CellState; 9],
    /// Workspace metadata used for dynamic tray-menu entries.
    pub menu_workspaces: Vec<WorkspaceMenuState>,
    /// The monitor's left coordinate, used to order monitors from left to
    /// right when cycling menus.
    pub x: i32,
}

/// What the menu of a monitor shows of one workspace.
#[derive(Debug, PartialEq, Eq)]
pub struct WorkspaceMenuState {
    pub index: usize,
    pub focused: bool,
    pub windows: Vec<WindowMenuState>,
}

/// What the menu of a monitor shows of one window.
#[derive(Debug, PartialEq, Eq)]
pub struct WindowMenuState {
    pub title: String,
    pub exe: String,
    pub hwnd: usize,
    pub focused: bool,
}

/// Snapshot of every monitor known to komorebi, in komorebi's reported order.
#[derive(Debug, PartialEq, Eq)]
pub struct WorldState {
    pub monitors: Vec<MonitorState>,
}

// ---------------------------------------------------------------------------
// Views
// ---------------------------------------------------------------------------

/// View of a [`WindowMenuState`].
#[verifier::ext_equal]
pub ghost struct WindowMenuView {
    pub title: Seq<char>,
    pub exe: Seq<char>,
    pub hwnd: usize,
    pub focused: bool,
}

/// View of a [`WorkspaceMenuState`].
#[verifier::ext_equal]
pub ghost struct WorkspaceMenuView {
    pub index: usize,
    pub focused: bool,
    pub windows: Seq<WindowMenuView>,
}

/// View of a [`MonitorState`].
#[verifier::ext_equal]
pub ghost struct MonitorView {
    pub id: Seq<char>,
    pub label: Seq<char>,
    pub active: bool,
    pub cells: Seq<CellState>,
    pub menu_workspaces: Seq<WorkspaceMenuView>,
    pub x: i32,
}

/// View of a [`WorldState`].
#[verifier::ext_equal]
pub ghost struct WorldView {
    pub monitors: Seq<MonitorView>,
}

impl View for WindowMenuState {
    type V = WindowMenuView;

    open spec fn view(&self) -> WindowMenuView {
        WindowMenuView {
            title: self.title@,
            exe: self.exe@,
            hwnd: self.hwnd,
            focused: self.focused,
        }
    }
}

impl View for WorkspaceMenuState {
    type V = WorkspaceMenuView;

    open spec fn view(&self) -> WorkspaceMenuView {
        WorkspaceMenuView {
            index: self.index,
            focused: self.focused,
            windows: model::seq_view(self.windows@),
        }
    }
}

impl View for MonitorState {
    type V = MonitorView;

    open spec fn view(&self) -> MonitorView {
        MonitorView {
            id: self.id@,
            label: self.label@,
            active: self.active,
            cells: self.cells@,
            menu_workspaces: model::seq_view(self.menu_workspaces@),
            x: self.x,
        }
    }
}

impl View for WorldState {
    type V = WorldView;

    open spec fn view(&self) -> WorldView {
        WorldView { monitors: model::seq_view(self.monitors@) }
    }
}

// ---------------------------------------------------------------------------
// What the projection is
// ---------------------------------------------------------------------------

/// What a menu shows of a window: nothing where its title is blank.
pub open spec fn menu_window(window: types::Window) -> Option<WindowMenuView> {
    match types::shown_title(window) {
        Some(title) => Some(
            WindowMenuView { title, exe: window.exe@, hwnd: window.hwnd, focused: false },
        ),
        None => None,
    }
}

/// What a menu shows of a list of windows.
pub open spec fn menu_windows(windows: Seq<types::Window>) -> Seq<WindowMenuView> {
    windows.filter_map(|w: types::Window| menu_window(w))
}

/// The windows of a list of containers, container by container.
pub open spec fn tiled_windows(containers: Seq<types::Container>) -> Seq<types::Window>
    decreases containers.len(),
{
    if containers.len() == 0 {
        Seq::empty()
    } else {
        tiled_windows(containers.drop_last()) + containers.last().windows.elements@
    }
}

/// The windows of the monocle container, if there is one.
pub open spec fn monocle_windows(ws: types::Workspace) -> Seq<types::Window> {
    match ws.monocle_container {
        Some(container) => container.windows.elements@,
        None => Seq::empty(),
    }
}

/// The maximized window, if there is one.
pub open spec fn maximized_windows(ws: types::Workspace) -> Seq<types::Window> {
    match ws.maximized_window {
        Some(window) => seq![window],
        None => Seq::empty(),
    }
}

/// All windows of a workspace: the tiled ones, the floating ones, those of the
/// monocle container, and the maximized one.
pub open spec fn windows_of(ws: types::Workspace) -> Seq<types::Window> {
    tiled_windows(ws.containers.elements@) + types::windows_in(ws.floating_windows)
        + monocle_windows(ws) + maximized_windows(ws)
}

/// How many windows a workspace counts: a container counts once, and so do the
/// monocle container and the maximized window.
pub open spec fn count_windows(ws: types::Workspace) -> nat {
    ws.containers.elements@.len() + types::collection_len(ws.floating_windows) + (if
    ws.monocle_container is Some {
        1nat
    } else {
        0
    }) + (if ws.maximized_window is Some {
        1nat
    } else {
        0
    })
}

/// The cell of a workspace.
pub open spec fn cell_of(index: int, focused_workspace: usize, ws: types::Workspace) -> CellState {
    let count = count_windows(ws);
    CellState {
        focused: index == focused_workspace,
        non_empty: count > 0,
        full_screen: ws.monocle_container is Some || ws.maximized_window is Some,
        window_count: if count <= 255 {
            count as u8
        } else {
            255
        },
    }
}

/// The nine cells of a monitor. Workspaces beyond the ninth have no cell, and
/// a cell without a workspace is empty.
pub open spec fn cells_of(workspaces: types::Ring<types::Workspace>) -> Seq<CellState> {
    Seq::new(
        9,
        |i: int|
            if i < workspaces.elements@.len() {
                cell_of(i, workspaces.focused, workspaces.elements@[i])
            } else {
                CellState::empty()
            },
    )
}

/// What the menu of a monitor shows of its first nine workspaces.
pub open spec fn menu_workspaces_of(workspaces: types::Ring<types::Workspace>) -> Seq<
    WorkspaceMenuView,
> {
    Seq::new(
        if workspaces.elements@.len() < 9 {
            workspaces.elements@.len()
        } else {
            9
        },
        |i: int|
            WorkspaceMenuView {
                index: i as usize,
                focused: i == workspaces.focused,
                windows: menu_windows(windows_of(workspaces.elements@[i])),
            },
    )
}

/// The identifier of a monitor: the first of its device identifier, device and
/// name that is not empty, the latter two marked as what they are; and else
/// its position.
pub open spec fn id_of(index: nat, monitor: types::Monitor) -> Seq<char> {
    if monitor.device_id@.len() > 0 {
        monitor.device_id@
    } else if monitor.device@.len() > 0 {
        "device:"@ + monitor.device@
    } else if monitor.name@.len() > 0 {
        "name:"@ + monitor.name@
    } else {
        "__monitor_"@ + text::decimal(index) + "__"@
    }
}

/// The label of a monitor: the first of its name, device and device identifier
/// that is not empty.
pub open spec fn label_of(monitor: types::Monitor) -> Seq<char> {
    if monitor.name@.len() > 0 {
        monitor.name@
    } else if monitor.device@.len() > 0 {
        monitor.device@
    } else {
        monitor.device_id@
    }
}

/// The projection of a monitor.
pub open spec fn monitor_of(index: nat, monitor: types::Monitor, active: bool) -> MonitorView {
    MonitorView {
        id: id_of(index, monitor),
        label: label_of(monitor),
        active,
        cells: cells_of(monitor.workspaces),
        menu_workspaces: menu_workspaces_of(monitor.workspaces),
        x: monitor.size.left,
    }
}

/// The projection of komorebi's state: every monitor in the reported order,
/// active where the ring of monitors is focused.
pub open spec fn world_of(raw: types::State) -> WorldView {
    WorldView {
        monitors: Seq::new(
            raw.monitors.elements@.len(),
            |i: int| monitor_of(i as nat, raw.monitors.elements@[i], i == raw.monitors.focused),
        ),
    }
}

// ---------------------------------------------------------------------------
// Projecting
// ---------------------------------------------------------------------------

proof fn lemma_menu_windows_add(a: Seq<types::Window>, b: Seq<types::Window>)
    ensures
        menu_windows(a + b) == menu_windows(a) + menu_windows(b),
    decreases b.len(),
{
    reveal(Seq::filter_map);
    if b.len() == 0 {
        assert(a + b =~= a);
        assert(menu_windows(a) + menu_windows(b) =~= menu_windows(a));
    } else {
        assert((a + b).drop_last() =~= a + b.drop_last());
        lemma_menu_windows_add(a, b.drop_last());
        assert(menu_windows(a + b) =~= menu_windows(a) + menu_windows(b));
    }
}

fn project_window(window: &types::Window) -> (projected: Option<WindowMenuState>)
    ensures
        model::opt_view(projected) == menu_window(*window),
{
    let title = text::trim(window.title.as_str());
    if title.as_str().unicode_len() == 0 {
        None
    } else {
        Some(
            WindowMenuState { title, exe: window.exe.clone(), hwnd: window.hwnd, focused: false },
        )
    }
}

fn push_window(windows: &mut Vec<WindowMenuState>, window: &types::Window)
    ensures
        model::seq_view(final(windows)@) == model::seq_view(old(windows)@) + menu_windows(
            seq![*window],
        ),
{
    let ghost before = windows@;
    proof {
        reveal_with_fuel(Seq::filter_map, 2);
        assert(seq![*window].drop_last() =~= Seq::empty());
    }
    if let Some(projected) = project_window(window) {
        windows.push(projected);
        proof {
            assert(model::seq_view(windows@) =~= model::seq_view(before) + menu_windows(
                seq![*window],
            ));
        }
    } else {
        proof {
            assert(model::seq_view(windows@) =~= model::seq_view(before) + menu_windows(
                seq![*window],
            ));
        }
    }
}

fn push_windows(windows: &mut Vec<WindowMenuState>, more: &Vec<types::Window>)
    ensures
        model::seq_view(final(windows)@) == model::seq_view(old(windows)@) + menu_windows(more@),
{
    let ghost before = windows@;
    let mut i: usize = 0;
    proof {
        reveal(Seq::filter_map);
        assert(model::seq_view(windows@) =~= model::seq_view(before) + menu_windows(more@.take(0)));
    }
    while i < more.len()
        invariant
            i <= more@.len(),
            model::seq_view(windows@) == model::seq_view(before) + menu_windows(
                more@.take(i as int),
            ),
        decreases more@.len() - i,
    {
        push_window(windows, &more[i]);
        proof {
            let head = more@.take(i as int);
            assert(more@.take(i + 1) =~= head + seq![more@[i as int]]);
            lemma_menu_windows_add(head, seq![more@[i as int]]);
            assert(model::seq_view(windows@) =~= model::seq_view(before) + menu_windows(
                more@.take(i + 1),
            ));
        }
        i += 1;
    }
    proof {
        assert(more@.take(more@.len() as int) =~= more@);
    }
}

/// The windows that the menu lists for a workspace.
pub fn workspace_windows(ws: &types::Workspace) -> (windows: Vec<WindowMenuState>)
    ensures
        model::seq_view(windows@) == menu_windows(windows_of(*ws)),
{
    let mut windows: Vec<WindowMenuState> = Vec::new();
    let containers: &Vec<types::Container> = &ws.containers.elements;
    let mut i: usize = 0;
    proof {
        reveal(Seq::filter_map);
        assert(model::seq_view(windows@) =~= menu_windows(tiled_windows(containers@.take(0))));
    }
    while i < containers.len()
        invariant
            i <= containers@.len(),
            model::seq_view(windows@) == menu_windows(tiled_windows(containers@.take(i as int))),
        decreases containers@.len() - i,
    {
        push_windows(&mut windows, &containers[i].windows.elements);
        proof {
            let next = containers@.take(i + 1);
            assert(next.drop_last() =~= containers@.take(i as int));
            assert(next.last() == containers@[i as int]);
            lemma_menu_windows_add(
                tiled_windows(next.drop_last()),
                next.last().windows.elements@,
            );
        }
        i += 1;
    }
    let ghost tiled = tiled_windows(containers@);
    proof {
        assert(containers@.take(containers@.len() as int) =~= containers@);
    }
    let ghost floating = types::windows_in(ws.floating_windows);
    match &ws.floating_windows {
        types::WindowCollection::Ring(ring) => {
            push_windows(&mut windows, &ring.elements);
        },
        types::WindowCollection::Array(list) => {
            push_windows(&mut windows, list);
        },
        types::WindowCollection::Other(_) => {
            proof {
                reveal(Seq::filter_map);
                assert(model::seq_view(windows@) =~= menu_windows(tiled) + menu_windows(floating));
            }
        },
    }
    let ghost monocle = monocle_windows(*ws);
    proof {
        lemma_menu_windows_add(tiled, floating);
    }
    if let Some(container) = &ws.monocle_container {
        push_windows(&mut windows, &container.windows.elements);
    } else {
        proof {
            assert(tiled + floating + monocle =~= tiled + floating);
        }
    }
    let ghost maximized = maximized_windows(*ws);
    proof {
        lemma_menu_windows_add(tiled + floating, monocle);
    }
    if let Some(window) = &ws.maximized_window {
        push_window(&mut windows, window);
    } else {
        proof {
            assert(tiled + floating + monocle + maximized =~= tiled + floating + monocle);
        }
    }
    proof {
        lemma_menu_windows_add(tiled + floating + monocle, maximized);
    }
    windows
}

fn project_workspace(index: usize, focused_workspace: usize, ws: &types::Workspace) -> (cell:
    CellState)
    ensures
        cell == cell_of(index as int, focused_workspace, *ws),
{
    let containers: usize = ws.containers.len();
    let floating: usize = ws.floating_windows.len();
    let has_monocle = ws.monocle_container.is_some();
    let has_maximized = ws.maximized_window.is_some();
    let monocle: usize = if has_monocle {
        1
    } else {
        0
    };
    let maximized: usize = if has_maximized {
        1
    } else {
        0
    };
    let window_count: usize = containers.saturating_add(floating).saturating_add(
        monocle + maximized,
    );
    CellState {
        focused: index == focused_workspace,
        non_empty: window_count > 0,
        full_screen: has_monocle || has_maximized,
        window_count: if window_count <= 255 {
            window_count as u8
        } else {
            255
        },
    }
}

fn monitor_id(index: usize, monitor: &types::Monitor) -> (id: String)
    ensures
        id@ == id_of(index as nat, *monitor),
{
    if monitor.device_id.as_str().unicode_len() > 0 {
        monitor.device_id.clone()
    } else if monitor.device.as_str().unicode_len() > 0 {
        "device:".to_owned().concat(monitor.device.as_str())
    } else if monitor.name.as_str().unicode_len() > 0 {
        "name:".to_owned().concat(monitor.name.as_str())
    } else {
        "__monitor_".to_owned().concat(text::decimal_text(index).as_str()).concat("__")
    }
}

fn monitor_label(monitor: &types::Monitor) -> (label: String)
    ensures
        label@ == label_of(*monitor),
{
    if monitor.name.as_str().unicode_len() > 0 {
        monitor.name.clone()
    } else if monitor.device.as_str().unicode_len() > 0 {
        monitor.device.clone()
    } else {
        monitor.device_id.clone()
    }
}

fn project_monitor(index: usize, monitor: &types::Monitor, active: bool) -> (projected:
    MonitorState)
    ensures
        projected@ == monitor_of(index as nat, *monitor, active),
{
    let e: CellState = CellState::empty();
    let mut cells: [CellState; 9] = [e, e, e, e, e, e, e, e, e];
    let mut menu_workspaces: Vec<WorkspaceMenuState> = Vec::new();
    let focused_workspace: usize = monitor.workspaces.focused;
    let elements: &Vec<types::Workspace> = &monitor.workspaces.elements;
    let mut wi: usize = 0;
    while wi < elements.len() && wi < CELLS_PER_MONITOR
        invariant
            wi <= elements@.len(),
            wi <= 9,
            *elements == monitor.workspaces.elements,
            focused_workspace == monitor.workspaces.focused,
            forall|i: int|
                0 <= i < 9 ==> cells@[i] == (if i < wi {
                    cell_of(i, focused_workspace, elements@[i])
                } else {
                    CellState::empty()
                }),
            menu_workspaces@.len() == wi,
            forall|i: int|
                0 <= i < wi ==> (#[trigger] menu_workspaces@[i])@ == menu_workspaces_of(
                    monitor.workspaces,
                )[i],
        decreases elements@.len() - wi,
    {
        let ws: &types::Workspace = &elements[wi];
        cells[wi] = project_workspace(wi, focused_workspace, ws);
        menu_workspaces.push(
            WorkspaceMenuState {
                index: wi,
                focused: wi == focused_workspace,
                windows: workspace_windows(ws),
            },
        );
        wi += 1;
    }
    proof {
        assert(cells@ =~= cells_of(monitor.workspaces));
        assert(model::seq_view(menu_workspaces@) =~= menu_workspaces_of(monitor.workspaces));
    }
    MonitorState {
        id: monitor_id(index, monitor),
        label: monitor_label(monitor),
        active,
        cells,
        menu_workspaces,
        x: monitor.size.left,
    }
}

impl From<&types::State> for WorldState {
    /// Projects komorebi's state.
    fn from(raw: &types::State) -> (world: WorldState)
        ensures
            world@ == world_of(*raw),
    {
        let focused_monitor: usize = raw.monitors.focused;
        let elements: &Vec<types::Monitor> = &raw.monitors.elements;
        let mut monitors: Vec<MonitorState> = Vec::new();
        let mut i: usize = 0;
        while i < elements.len()
            invariant
                i <= elements@.len(),
                *elements == raw.monitors.elements,
                focused_monitor == raw.monitors.focused,
                monitors@.len() == i,
                forall|k: int|
                    0 <= k < i ==> (#[trigger] monitors@[k])@ == world_of(*raw).monitors[k],
            decreases elements@.len() - i,
        {
            monitors.push(project_monitor(i, &elements[i], i == focused_monitor));
            i += 1;
        }
        proof {
            assert(model::seq_view(monitors@) =~= world_of(*raw).monitors);
        }
        WorldState { monitors }
    }
}

impl vstd::std_specs::convert::FromSpecImpl<&types::State> for WorldState {
    open spec fn obeys_from_spec() -> bool {
        false
    }

    open spec fn from_spec(raw: &types::State) -> WorldState {
        arbitrary()
    }
}

impl From<types::State> for WorldState {
    /// Projects komorebi's state.
    fn from(raw: types::State) -> (world: WorldState)
        ensures
            world@ == world_of(raw),
    {
        WorldState::from(&raw)
    }
}

impl vstd::std_specs::convert::FromSpecImpl<types::State> for WorldState {
    open spec fn obeys_from_spec() -> bool {
        false
    }

    open spec fn from_spec(raw: types::State) -> WorldState {
        arbitrary()
    }
}

// ---------------------------------------------------------------------------
// Looking monitors up
// ---------------------------------------------------------------------------

impl WorldView {
    /// The identifiers of the monitors, in order.
    pub open spec fn ids(self) -> Seq<Seq<char>> {
        Seq::new(self.monitors.len(), |i: int| self.monitors[i].id)
    }

    /// The position of the first monitor with the given identifier.
    pub open spec fn position(self, id: Seq<char>) -> Option<int> {
        self.ids().index_of_first(id)
    }

    /// The position of the first monitor that is active.
    pub open spec fn active_position(self) -> Option<int> {
        Seq::new(self.monitors.len(), |i: int| self.monitors[i].active).index_of_first(true)
    }
}

impl WorldState {
    /// The position of the first monitor with the given identifier.
    pub fn position(&self, id: &str) -> (found: Option<usize>)
        ensures
            match found {
                Some(i) => self@.position(id@) == Some(i as int) && i < self.monitors@.len(),
                None => self@.position(id@) is None,
            },
    {
        let mut i: usize = 0;
        while i < self.monitors.len()
            invariant
                i <= self.monitors@.len(),
                forall|k: int| 0 <= k < i ==> self@.ids()[k] != id@,
            decreases self.monitors@.len() - i,
        {
            if text::same_text(self.monitors[i].id.as_str(), id) {
                proof {
                    self@.ids().index_of_first_ensures(id@);
                    assert(self@.ids()[i as int] == id@);
                    assert(self@.ids().contains(id@));
                }
                return Some(i);
            }
            i += 1;
        }
        proof {
            self@.ids().index_of_first_ensures(id@);
        }
        None
    }

    /// Look up a monitor by its stable id.
    pub fn monitor(&self, id: &str) -> (found: Option<&MonitorState>)
        ensures
            match found {
                Some(monitor) => self@.position(id@) matches Some(i) && *monitor
                    == self.monitors@[i],
                None => self@.position(id@) is None,
            },
    {
        match self.position(id) {
            Some(i) => Some(&self.monitors[i]),
            None => None,
        }
    }

    /// The position of the first monitor that is active.
    pub fn active_position(&self) -> (found: Option<usize>)
        ensures
            match found {
                Some(i) => self@.active_position() == Some(i as int) && i < self.monitors@.len(),
                None => self@.active_position() is None,
            },
    {
        let ghost flags = Seq::new(self@.monitors.len(), |i: int| self@.monitors[i].active);
        let mut i: usize = 0;
        while i < self.monitors.len()
            invariant
                i <= self.monitors@.len(),
                flags == Seq::new(self@.monitors.len(), |i: int| self@.monitors[i].active),
                forall|k: int| 0 <= k < i ==> flags[k] != true,
            decreases self.monitors@.len() - i,
        {
            if self.monitors[i].active {
                proof {
                    flags.index_of_first_ensures(true);
                    assert(flags[i as int]);
                    assert(flags.contains(true));
                }
                return Some(i);
            }
            i += 1;
        }
        proof {
            flags.index_of_first_ensures(true);
        }
        None
    }
}

// ---------------------------------------------------------------------------
// Comparing
// ---------------------------------------------------------------------------

impl WindowMenuState {
    /// Whether two windows have the same contents.
    pub fn same(&self, other: &WindowMenuState) -> (same: bool)
        ensures
            same == (self@ == other@),
    {
        text::same_text(self.title.as_str(), other.title.as_str()) && text::same_text(
            self.exe.as_str(),
            other.exe.as_str(),
        ) && self.hwnd == other.hwnd && self.focused == other.focused
    }
}

impl WorkspaceMenuState {
    /// Whether two workspaces have the same contents.
    pub fn same(&self, other: &WorkspaceMenuState) -> (same: bool)
        ensures
            same == (self@ == other@),
    {
        proof {
            assert(self@.windows.len() == self.windows@.len());
            assert(other@.windows.len() == other.windows@.len());
        }
        if self.index != other.index || self.focused != other.focused || self.windows.len()
            != other.windows.len() {
            return false;
        }
        let mut i: usize = 0;
        while i < self.windows.len()
            invariant
                i <= self.windows@.len(),
                self.windows@.len() == other.windows@.len(),
                forall|k: int| 0 <= k < i ==> self@.windows[k] == other@.windows[k],
            decreases self.windows@.len() - i,
        {
            if !self.windows[i].same(&other.windows[i]) {
                proof {
                    assert(self@.windows[i as int] != other@.windows[i as int]);
                }
                return false;
            }
            i += 1;
        }
        proof {
            assert(self@.windows =~= other@.windows);
        }
        true
    }
}

fn same_cells(a: &[CellState; 9], b: &[CellState; 9]) -> (same: bool)
    ensures
        same == (a@ == b@),
{
    let mut i: usize = 0;
    while i < 9
        invariant
            i <= 9,
            forall|k: int| 0 <= k < i ==> a@[k] == b@[k],
        decreases 9 - i,
    {
        if a[i] != b[i] {
            return false;
        }
        i += 1;
    }
    proof {
        assert(a@ =~= b@);
    }
    true
}

impl MonitorState {
    /// Whether two monitors have the same contents.
    pub fn same(&self, other: &MonitorState) -> (same: bool)
        ensures
            same == (self@ == other@),
    {
        proof {
            assert(self@.menu_workspaces.len() == self.menu_workspaces@.len());
            assert(other@.menu_workspaces.len() == other.menu_workspaces@.len());
        }
        if !text::same_text(self.id.as_str(), other.id.as_str()) || !text::same_text(
            self.label.as_str(),
            other.label.as_str(),
        ) || self.active != other.active || self.x != other.x || !same_cells(
            &self.cells,
            &other.cells,
        ) || self.menu_workspaces.len() != other.menu_workspaces.len() {
            return false;
        }
        let mut i: usize = 0;
        while i < self.menu_workspaces.len()
            invariant
                i <= self.menu_workspaces@.len(),
                self.menu_workspaces@.len() == other.menu_workspaces@.len(),
                forall|k: int| 0 <= k < i ==> self@.menu_workspaces[k] == other@.menu_workspaces[k],
            decreases self.menu_workspaces@.len() - i,
        {
            if !self.menu_workspaces[i].same(&other.menu_workspaces[i]) {
                proof {
                    assert(self@.menu_workspaces[i as int] != other@.menu_workspaces[i as int]);
                }
                return false;
            }
            i += 1;
        }
        proof {
            assert(self@.menu_workspaces =~= other@.menu_workspaces);
        }
        true
    }
}

impl WorldState {
    /// Whether two snapshots have the same contents.
    pub fn same(&self, other: &WorldState) -> (same: bool)
        ensures
            same == (self@ == other@),
    {
        proof {
            assert(self@.monitors.len() == self.monitors@.len());
            assert(other@.monitors.len() == other.monitors@.len());
        }
        if self.monitors.len() != other.monitors.len() {
            return false;
        }
        let mut i: usize = 0;
        while i < self.monitors.len()
            invariant
                i <= self.monitors@.len(),
                self.monitors@.len() == other.monitors@.len(),
                forall|k: int| 0 <= k < i ==> self@.monitors[k] == other@.monitors[k],
            decreases self.monitors@.len() - i,
        {
            if !self.monitors[i].same(&other.monitors[i]) {
                proof {
                    assert(self@.monitors[i as int] != other@.monitors[i as int]);
                }
                return false;
            }
            i += 1;
        }
        proof {
            assert(self@.monitors =~= other@.monitors);
        }
        true
    }
}

// ---------------------------------------------------------------------------
// Defaults and copies
// ---------------------------------------------------------------------------

impl Default for WindowMenuState {
    fn default() -> (window: WindowMenuState)
        ensures
            window@ == (WindowMenuView {
                title: Seq::empty(),
                exe: Seq::empty(),
                hwnd: 0,
                focused: false,
            }),
    {
        WindowMenuState { title: String::new(), exe: String::new(), hwnd: 0, focused: false }
    }
}

impl Default for WorkspaceMenuState {
    fn default() -> (workspace: WorkspaceMenuState)
        ensures
            workspace@ == (WorkspaceMenuView { index: 0, focused: false, windows: Seq::empty() }),
    {
        let workspace = WorkspaceMenuState { index: 0, focused: false, windows: Vec::new() };
        proof {
            assert(workspace@.windows =~= Seq::empty());
        }
        workspace
    }
}

impl Default for MonitorState {
    fn default() -> (monitor: MonitorState)
        ensures
            monitor@ == (MonitorView {
                id: Seq::empty(),
                label: Seq::empty(),
                active: false,
                cells: Seq::new(9, |i: int| CellState::empty()),
                menu_workspaces: Seq::empty(),
                x: 0,
            }),
    {
        let e: CellState = CellState::empty();
        let monitor = MonitorState {
            id: String::new(),
            label: String::new(),
            active: false,
            cells: [e, e, e, e, e, e, e, e, e],
            menu_workspaces: Vec::new(),
            x: 0,
        };
        proof {
            assert(monitor@.menu_workspaces =~= Seq::empty());
            assert(monitor@.cells =~= Seq::new(9, |i: int| CellState::empty()));
        }
        monitor
    }
}

impl Default for WorldState {
    fn default() -> (world: WorldState)
        ensures
            world@.monitors == Seq::<MonitorView>::empty(),
    {
        WorldState { monitors: Vec::new() }
    }
}

impl Clone for WindowMenuState {
    fn clone(&self) -> (copy: WindowMenuState)
        ensures
            copy@ == self@,
    {
        WindowMenuState {
            title: self.title.clone(),
            exe: self.exe.clone(),
            hwnd: self.hwnd,
            focused: self.focused,
        }
    }
}

impl Clone for WorkspaceMenuState {
    fn clone(&self) -> (copy: WorkspaceMenuState)
        ensures
            copy@ == self@,
    {
        let copy = WorkspaceMenuState {
            index: self.index,
            focused: self.focused,
            windows: self.windows.clone(),
        };
        proof {
            assert(copy@.windows =~= self@.windows);
        }
        copy
    }
}

impl Clone for MonitorState {
    fn clone(&self) -> (copy: MonitorState)
        ensures
            copy@ == self@,
    {
        let copy = MonitorState {
            id: self.id.clone(),
            label: self.label.clone(),
            active: self.active,
            cells: self.cells,
            menu_workspaces: self.menu_workspaces.clone(),
            x: self.x,
        };
        proof {
            assert(copy@.menu_workspaces =~= self@.menu_workspaces);
        }
        copy
    }
}

impl Clone for WorldState {
    fn clone(&self) -> (copy: WorldState)
        ensures
            copy@ == self@,
    {
        let copy = WorldState { monitors: self.monitors.clone() };
        proof {
            assert(copy@.monitors =~= self@.monitors);
        }
        copy
    }
}

// ---------------------------------------------------------------------------
// Laws
// ---------------------------------------------------------------------------

/// A cell is non-empty exactly when its workspace counts a window, and a
/// workspace with a full-screen container is never empty.
pub proof fn law_cells_describe_windows(index: int, focused: usize, ws: types::Workspace)
    ensures
        cell_of(index, focused, ws).non_empty == (cell_of(index, focused, ws).window_count > 0),
        cell_of(index, focused, ws).full_screen ==> cell_of(index, focused, ws).non_empty,
{
}

/// A cell for which komorebi reports no workspace is empty.
pub proof fn law_missing_workspaces_are_empty(workspaces: types::Ring<types::Workspace>, i: int)
    requires
        workspaces.elements@.len() <= i < 9,
    ensures
        cells_of(workspaces)[i] == CellState::empty(),
{
}

/// Workspaces beyond the ninth change neither the cells nor the menu.
pub proof fn law_extra_workspaces_are_ignored(
    a: types::Ring<types::Workspace>,
    b: types::Ring<types::Workspace>,
)
    requires
        a.focused == b.focused,
        a.elements@.len() >= 9,
        b.elements@.len() >= 9,
        a.elements@.take(9) == b.elements@.take(9),
    ensures
        cells_of(a) == cells_of(b),
        menu_workspaces_of(a) == menu_workspaces_of(b),
{
    assert forall|i: int| 0 <= i < 9 implies a.elements@[i] == b.elements@[i] by {
        assert(a.elements@.take(9)[i] == a.elements@[i]);
        assert(b.elements@.take(9)[i] == b.elements@[i]);
    }
    assert(cells_of(a) =~= cells_of(b));
    assert(menu_workspaces_of(a) =~= menu_workspaces_of(b));
}

/// At most one cell of a monitor is focused: that of the focused workspace.
pub proof fn law_focus_is_per_monitor(workspaces: types::Ring<types::Workspace>, i: int)
    requires
        0 <= i < 9,
    ensures
        cells_of(workspaces)[i].focused <==> i == workspaces.focused && i
            < workspaces.elements@.len(),
{
}

/// Exactly the monitor on which the ring is focused is active.
pub proof fn law_one_active_monitor(raw: types::State)
    ensures
        forall|i: int|
            0 <= i < world_of(raw).monitors.len() ==> (
            #[trigger] world_of(raw).monitors[i]).active == (i == raw.monitors.focused),
        world_of(raw).active_position() == (if raw.monitors.focused
            < raw.monitors.elements@.len() {
            Some(raw.monitors.focused as int)
        } else {
            None
        }),
{
    let world = world_of(raw);
    let flags = Seq::new(world.monitors.len(), |i: int| world.monitors[i].active);
    flags.index_of_first_ensures(true);
    if raw.monitors.focused < raw.monitors.elements@.len() {
        assert(flags[raw.monitors.focused as int]);
        assert(flags.contains(true));
    }
}

/// Every window that a menu lists has a title with something in it.
pub proof fn law_menu_windows_have_titles(windows: Seq<types::Window>, i: int)
    requires
        0 <= i < menu_windows(windows).len(),
    ensures
        menu_windows(windows)[i].title.len() > 0,
    decreases windows.len(),
{
    reveal(Seq::filter_map);
    if windows.len() > 0 && i < menu_windows(windows.drop_last()).len() {
        law_menu_windows_have_titles(windows.drop_last(), i);
    }
}

/// Every monitor is shown, in the order in which it is reported, at its own place,
/// and it is active exactly where the ring of monitors is focused.
pub proof fn law_every_monitor_is_shown(raw: types::State, m: int)
    requires
        0 <= m < raw.monitors.elements@.len(),
    ensures
        world_of(raw).monitors.len() == raw.monitors.elements@.len(),
        world_of(raw).monitors[m].x == raw.monitors.elements@[m].size.left,
        world_of(raw).monitors[m].active <==> m == raw.monitors.focused,
{
}

/// A monitor is identified by its device identifier where it has one, else by
/// its device, else by its name, and else by its position.
pub proof fn law_monitors_are_identified(raw: types::State, m: int)
    requires
        0 <= m < raw.monitors.elements@.len(),
    ensures
        ({
            let monitor = raw.monitors.elements@[m];
            let id = world_of(raw).monitors[m].id;
            &&& monitor.device_id@.len() > 0 ==> id == monitor.device_id@
            &&& monitor.device_id@.len() == 0 && monitor.device@.len() > 0 ==> id == "device:"@
                + monitor.device@
            &&& monitor.device_id@.len() == 0 && monitor.device@.len() == 0 && monitor.name@.len()
                > 0 ==> id == "name:"@ + monitor.name@
            &&& monitor.device_id@.len() == 0 && monitor.device@.len() == 0 && monitor.name@.len()
                == 0 ==> id == "__monitor_"@ + text::decimal(m as nat) + "__"@
        }),
{
}

/// A monitor is labelled by its name where it has one, else by its device, and
/// else by its device identifier.
pub proof fn law_monitors_are_labelled(raw: types::State, m: int)
    requires
        0 <= m < raw.monitors.elements@.len(),
    ensures
        ({
            let monitor = raw.monitors.elements@[m];
            let label = world_of(raw).monitors[m].label;
            &&& monitor.name@.len() > 0 ==> label == monitor.name@
            &&& monitor.name@.len() == 0 && monitor.device@.len() > 0 ==> label == monitor.device@
            &&& monitor.name@.len() == 0 && monitor.device@.len() == 0 ==> label
                == monitor.device_id@
        }),
{
}

/// The menu of a monitor shows the first nine workspaces of komorebi's list, in
/// order. Each carries komorebi's own number of that workspace, and is marked
/// exactly where komorebi's list is focused.
pub proof fn law_menu_carries_komorebis_numbers(raw: types::State, m: int, k: int)
    requires
        0 <= m < raw.monitors.elements@.len(),
        0 <= k < raw.monitors.elements@[m].workspaces.elements@.len(),
        k < 9,
    ensures
        ({
            let shown = world_of(raw).monitors[m].menu_workspaces;
            let list = raw.monitors.elements@[m].workspaces;
            &&& shown.len() == if list.elements@.len() < 9 {
                list.elements@.len()
            } else {
                9
            }
            &&& shown[k].index == k
            &&& shown[k].focused <==> list.focused == k
        }),
{
}

/// The windows of a workspace as komorebi lists them: container by container,
/// then the floating ones, then those of the monocle container, then the
/// maximized one.
pub open spec fn all_windows(ws: types::Workspace) -> Seq<types::Window> {
    ws.containers.elements@.map_values(|c: types::Container| c.windows.elements@).flatten() + (
    match ws.floating_windows {
        types::WindowCollection::Ring(ring) => ring.elements@,
        types::WindowCollection::Array(list) => list@,
        types::WindowCollection::Other(_) => Seq::empty(),
    }) + (match ws.monocle_container {
        Some(container) => container.windows.elements@,
        None => Seq::empty(),
    }) + (match ws.maximized_window {
        Some(window) => seq![window],
        None => Seq::empty(),
    })
}

proof fn lemma_tiled_windows(containers: Seq<types::Container>)
    ensures
        tiled_windows(containers) == containers.map_values(
            |c: types::Container| c.windows.elements@,
        ).flatten(),
    decreases containers.len(),
{
    let lists = containers.map_values(|c: types::Container| c.windows.elements@);
    if containers.len() == 0 {
        assert(lists =~= Seq::empty());
        assert(lists.flatten() =~= Seq::empty());
    } else {
        let rest = containers.drop_last();
        lemma_tiled_windows(rest);
        let rest_lists = rest.map_values(|c: types::Container| c.windows.elements@);
        assert(lists =~= rest_lists.push(containers.last().windows.elements@));
        lists.lemma_flatten_and_flatten_alt_are_equivalent();
        rest_lists.lemma_flatten_and_flatten_alt_are_equivalent();
        assert(lists.drop_last() =~= rest_lists);
    }
}

/// How many windows of a list, of the first `n`, have a title that is not blank.
pub open spec fn titled_before(windows: Seq<types::Window>, n: int) -> nat
    decreases n,
{
    if n <= 0 {
        0
    } else if text::trimmed(windows[n - 1].title@).len() > 0 {
        titled_before(windows, n - 1) + 1
    } else {
        titled_before(windows, n - 1)
    }
}

proof fn lemma_titled_before_prefix(a: Seq<types::Window>, b: Seq<types::Window>, n: int)
    requires
        n <= a.len(),
        n <= b.len(),
        forall|i: int| 0 <= i < n ==> a[i] == b[i],
    ensures
        titled_before(a, n) == titled_before(b, n),
    decreases n,
{
    if n > 0 {
        lemma_titled_before_prefix(a, b, n - 1);
    }
}

proof fn lemma_menu_windows_listed(windows: Seq<types::Window>, j: int)
    requires
        0 <= j < windows.len(),
    ensures
        menu_windows(windows).len() == titled_before(windows, windows.len() as int),
        text::trimmed(windows[j].title@).len() > 0 ==> {
            let at = titled_before(windows, j) as int;
            &&& at < menu_windows(windows).len()
            &&& menu_windows(windows)[at] == (WindowMenuView {
                title: text::trimmed(windows[j].title@),
                exe: windows[j].exe@,
                hwnd: windows[j].hwnd,
                focused: false,
            })
        },
    decreases windows.len(),
{
    reveal(Seq::filter_map);
    let rest = windows.drop_last();
    lemma_titled_before_prefix(rest, windows, rest.len() as int);
    lemma_titled_before_prefix(rest, windows, j);
    if rest.len() == 0 {
        assert(menu_windows(rest) =~= Seq::empty());
        assert(titled_before(rest, 0) == 0);
    } else {
        lemma_menu_windows_listed(
            rest,
            if j < rest.len() {
                j
            } else {
                0
            },
        );
    }
}

/// What the menu shows of a workspace are the windows of the workspace that has
/// the shown number in komorebi's list: every window whose title is not blank,
/// with its trimmed title and its own handle, in komorebi's order, and no other.
pub proof fn law_menu_shows_the_windows_of_its_workspace(raw: types::State, m: int, k: int, j: int)
    requires
        0 <= m < raw.monitors.elements@.len(),
        0 <= k < world_of(raw).monitors[m].menu_workspaces.len(),
        0 <= j < all_windows(
            raw.monitors.elements@[m].workspaces.elements@[world_of(
                raw,
            ).monitors[m].menu_workspaces[k].index as int],
        ).len(),
    ensures
        ({
            let entry = world_of(raw).monitors[m].menu_workspaces[k];
            let ws = raw.monitors.elements@[m].workspaces.elements@[entry.index as int];
            let all = all_windows(ws);
            let at = titled_before(all, j) as int;
            &&& entry.windows.len() == titled_before(all, all.len() as int)
            &&& text::trimmed(all[j].title@).len() > 0 ==> at < entry.windows.len()
                && entry.windows[at].title == text::trimmed(all[j].title@)
                && entry.windows[at].exe == all[j].exe@ && entry.windows[at].hwnd == all[j].hwnd
                && !entry.windows[at].focused
        }),
{
    let entry = world_of(raw).monitors[m].menu_workspaces[k];
    let ws = raw.monitors.elements@[m].workspaces.elements@[entry.index as int];
    lemma_tiled_windows(ws.containers.elements@);
    assert(windows_of(ws) =~= all_windows(ws));
    lemma_menu_windows_listed(all_windows(ws), j);
}

/// A workspace without windows is shown without windows.
pub proof fn law_menu_shows_no_other_windows(raw: types::State, m: int, k: int)
    requires
        0 <= m < raw.monitors.elements@.len(),
        0 <= k < world_of(raw).monitors[m].menu_workspaces.len(),
        forall|j: int|
            0 <= j < all_windows(
                raw.monitors.elements@[m].workspaces.elements@[k],
            ).len() ==> text::trimmed(
                (#[trigger] all_windows(
                    raw.monitors.elements@[m].workspaces.elements@[k],
                )[j]).title@,
            ).len() == 0,
    ensures
        world_of(raw).monitors[m].menu_workspaces[k].windows.len() == 0,
{
    let ws = raw.monitors.elements@[m].workspaces.elements@[k];
    let all = all_windows(ws);
    lemma_tiled_windows(ws.containers.elements@);
    assert(windows_of(ws) =~= all);
    if all.len() > 0 {
        lemma_menu_windows_listed(all, 0);
        lemma_none_titled(all, all.len() as int);
    } else {
        reveal(Seq::filter_map);
    }
}

proof fn lemma_none_titled(windows: Seq<types::Window>, n: int)
    requires
        n <= windows.len(),
        forall|j: int|
            0 <= j < windows.len() ==> text::trimmed((#[trigger] windows[j]).title@).len() == 0,
    ensures
        titled_before(windows, n) == 0,
    decreases n,
{
    if n > 0 {
        lemma_none_titled(windows, n - 1);
        assert(text::trimmed(windows[n - 1].title@).len() == 0);
    }
}

/// The cell of a workspace tells whether komorebi's list is focused on it, whether
/// it has a monocle container or a maximized window, and how many windows it has:
/// one for each container, each floating window, the monocle container and the
/// maximized window, but no more than a byte can tell.
pub proof fn law_cells_show_their_workspaces(raw: types::State, m: int, k: int)
    requires
        0 <= m < raw.monitors.elements@.len(),
        0 <= k < raw.monitors.elements@[m].workspaces.elements@.len(),
        k < 9,
    ensures
        ({
            let list = raw.monitors.elements@[m].workspaces;
            let ws = list.elements@[k];
            let cell = world_of(raw).monitors[m].cells[k];
            let floating = match ws.floating_windows {
                types::WindowCollection::Ring(ring) => ring.elements@.len(),
                types::WindowCollection::Array(windows) => windows@.len(),
                types::WindowCollection::Other(value) => types::json_len(value),
            };
            let full_screen = (if ws.monocle_container is Some {
                1int
            } else {
                0
            }) + if ws.maximized_window is Some {
                1int
            } else {
                0
            };
            let count = ws.containers.elements@.len() + floating + full_screen;
            &&& world_of(raw).monitors[m].cells.len() == 9
            &&& cell.focused <==> list.focused == k
            &&& cell.full_screen <==> full_screen > 0
            &&& cell.non_empty <==> count > 0
            &&& count <= 255 ==> cell.window_count == count
            &&& count > 255 ==> cell.window_count == 255
        }),
{
}

/// A cell for which the monitor has no workspace shows nothing.
pub proof fn law_cells_without_a_workspace_show_nothing(raw: types::State, m: int, k: int)
    requires
        0 <= m < raw.monitors.elements@.len(),
        raw.monitors.elements@[m].workspaces.elements@.len() <= k < 9,
    ensures
        ({
            let cell = world_of(raw).monitors[m].cells[k];
            !cell.focused && !cell.non_empty && !cell.full_screen && cell.window_count == 0
        }),
{
}

/// A monitor is found by its identifier exactly where one has it, and the first
/// one that has it is found.
pub proof fn law_monitors_are_found_by_identifier(world: WorldView, id: Seq<char>)
    ensures
        match world.position(id) {
            Some(i) => {
                &&& 0 <= i < world.monitors.len()
                &&& world.monitors[i].id == id
                &&& forall|j: int| 0 <= j < i ==> (#[trigger] world.monitors[j]).id != id
            },
            None => forall|j: int|
                0 <= j < world.monitors.len() ==> (#[trigger] world.monitors[j]).id != id,
        },
{
    world.ids().index_of_first_ensures(id);
    assert forall|j: int| 0 <= j < world.monitors.len() implies world.ids()[j] == (
    #[trigger] world.monitors[j]).id by {}
    if world.position(id) is None {
        assert forall|j: int| 0 <= j < world.monitors.len() implies (
        #[trigger] world.monitors[j]).id != id by {
            if world.ids()[j] == id {
                assert(world.ids().contains(id));
            }
        }
    }
}

/// The active monitor is the first one that is marked, where one is.
pub proof fn law_the_active_monitor_is_marked(world: WorldView)
    ensures
        match world.active_position() {
            Some(i) => {
                &&& 0 <= i < world.monitors.len()
                &&& world.monitors[i].active
                &&& forall|j: int| 0 <= j < i ==> !(#[trigger] world.monitors[j]).active
            },
            None => forall|j: int|
                0 <= j < world.monitors.len() ==> !(#[trigger] world.monitors[j]).active,
        },
{
    let flags = Seq::new(world.monitors.len(), |i: int| world.monitors[i].active);
    flags.index_of_first_ensures(true);
    assert forall|j: int| 0 <= j < world.monitors.len() implies flags[j] == (
    #[trigger] world.monitors[j]).active by {}
    if world.active_position() is None {
        assert forall|j: int| 0 <= j < world.monitors.len() implies !(
        #[trigger] world.monitors[j]).active by {
            if flags[j] {
                assert(flags.contains(true));
            }
        }
    }
}

/// A projected monitor can be shown in a menu: see
/// [`menu_ready`].
pub proof fn law_projected_worlds_are_menu_ready(raw: types::State)
    ensures
        menu_ready(world_of(raw)),
{
}

/// Every workspace that a menu shows has a number after its index.
pub open spec fn monitor_menu_ready(monitor: MonitorView) -> bool {
    forall|i: int|
        0 <= i < monitor.menu_workspaces.len() ==> (
        #[trigger] monitor.menu_workspaces[i]).index < usize::MAX
}

/// Every monitor of a snapshot can be shown in a menu.
pub open spec fn menu_ready(world: WorldView) -> bool {
    forall|i: int|
        0 <= i < world.monitors.len() ==> monitor_menu_ready(#[trigger] world.monitors[i])
}

/// The lists of a snapshot are of lengths that fit in memory.
pub open spec fn within_memory(world: WorldView) -> bool {
    &&& world.monitors.len() <= usize::MAX
    &&& forall|p: int, k: int|
        0 <= p < world.monitors.len() && 0 <= k < world.monitors[p].menu_workspaces.len() ==> (
        #[trigger] world.monitors[p].menu_workspaces[k]).windows.len() <= usize::MAX
}

/// Every snapshot lies within memory.
pub proof fn lemma_within_memory(world: &WorldState)
    ensures
        within_memory(world@),
{
    assert(world.monitors.len() == world@.monitors.len());
    assert forall|p: int, k: int|
        0 <= p < world@.monitors.len() && 0 <= k < world@.monitors[p].menu_workspaces.len() implies (
    #[trigger] world@.monitors[p].menu_workspaces[k]).windows.len() <= usize::MAX by {
        let ws = world.monitors@[p].menu_workspaces@[k];
        assert(world@.monitors[p].menu_workspaces[k] == ws@);
        assert(ws.windows.len() == ws@.windows.len());
    }
}

} // verus!
