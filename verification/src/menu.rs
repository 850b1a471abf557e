//! Context menus of the tray icons.
//!
//! Each monitor has a menu that lists its workspaces. Choosing a workspace
//! opens a second menu, which lists the windows of that workspace; the two are
//! not nested, since the platform closes the first one on activation.

use vstd::prelude::*;

use crate::komorebi::state;
use crate::komorebi::state::{MonitorState, WindowMenuState, WorkspaceMenuState};
use crate::menu_id;
use crate::model;
use crate::table::Table;
use crate::text;
use crate::utils;

verus! {

/// One line of a menu. Every entry but a separator can be chosen.
#[derive(Debug, PartialEq, Eq)]
pub enum MenuEntry {
    /// An entry with a check mark.
    Check { id: String, label: String, checked: bool },
    /// An entry without a check mark.
    Item { id: String, label: String },
    Separator,
}

/// View of a [`MenuEntry`].
#[verifier::ext_equal]
pub ghost enum EntryView {
    Check { id: Seq<char>, label: Seq<char>, checked: bool },
    Item { id: Seq<char>, label: Seq<char> },
    Separator,
}

impl View for MenuEntry {
    type V = EntryView;

    open spec fn view(&self) -> EntryView {
        match self {
            MenuEntry::Check { id, label, checked } => EntryView::Check {
                id: id@,
                label: label@,
                checked: *checked,
            },
            MenuEntry::Item { id, label } => EntryView::Item { id: id@, label: label@ },
            MenuEntry::Separator => EntryView::Separator,
        }
    }
}

impl Clone for MenuEntry {
    fn clone(&self) -> (copy: MenuEntry)
        ensures
            copy@ == self@,
    {
        match self {
            MenuEntry::Check { id, label, checked } => MenuEntry::Check {
                id: id.clone(),
                label: label.clone(),
                checked: *checked,
            },
            MenuEntry::Item { id, label } => MenuEntry::Item {
                id: id.clone(),
                label: label.clone(),
            },
            MenuEntry::Separator => MenuEntry::Separator,
        }
    }
}

/// A menu, from top to bottom. Its view is the views of its entries.
#[derive(Debug, PartialEq, Eq)]
pub struct Menu {
    pub entries: Vec<MenuEntry>,
}

impl View for Menu {
    type V = Seq<EntryView>;

    open spec fn view(&self) -> Seq<EntryView> {
        model::seq_view(self.entries@)
    }
}

impl Clone for Menu {
    fn clone(&self) -> (copy: Menu)
        ensures
            copy@ == self@,
    {
        let copy = Menu { entries: self.entries.clone() };
        proof {
            assert(copy@ =~= self@);
        }
        copy
    }
}

impl Menu {
    fn new() -> (menu: Menu)
        ensures
            menu@ == Seq::<EntryView>::empty(),
    {
        let menu = Menu { entries: Vec::new() };
        proof {
            assert(menu@ =~= Seq::<EntryView>::empty());
        }
        menu
    }

    fn append(&mut self, entry: MenuEntry)
        ensures
            final(self)@ == old(self)@.push(entry@),
    {
        let ghost before = self@;
        let ghost added = entry@;
        self.entries.push(entry);
        proof {
            assert(self@ =~= before.push(added));
        }
    }
}

// ---------------------------------------------------------------------------
// What the menus are
// ---------------------------------------------------------------------------

/// A workspace is listed where it is focused or shows a window.
pub open spec fn is_listed(ws: state::WorkspaceMenuView) -> bool {
    ws.focused || ws.windows.len() > 0
}

/// The listed ones of a list of workspaces.
pub open spec fn listed(workspaces: Seq<state::WorkspaceMenuView>) -> Seq<
    state::WorkspaceMenuView,
> {
    workspaces.filter(|ws: state::WorkspaceMenuView| is_listed(ws))
}

/// The titles of windows, each ellipsized, with a comma between them.
pub open spec fn joined_titles(windows: Seq<state::WindowMenuView>, max_title: nat) -> Seq<char>
    decreases windows.len(),
{
    if windows.len() == 0 {
        Seq::empty()
    } else {
        let last = utils::ellipsized(windows.last().title, max_title);
        if windows.len() == 1 {
            last
        } else {
            joined_titles(windows.drop_last(), max_title) + ", "@ + last
        }
    }
}

/// The label of a workspace: its number from one, as a mnemonic, followed by
/// the titles of its windows.
pub open spec fn workspace_label(
    ws: state::WorkspaceMenuView,
    max_title: nat,
    max_combined: nat,
) -> Seq<char> {
    let base = "&"@ + text::decimal((ws.index + 1) as nat) + "."@;
    if ws.windows.len() == 0 {
        base
    } else {
        base + " "@ + utils::ellipsized(joined_titles(ws.windows, max_title), max_combined)
    }
}

/// The label of a window: for the first nine its number from one, as a
/// mnemonic, and its title.
pub open spec fn window_label(window: state::WindowMenuView, index: nat, max_title: nat) -> Seq<
    char,
> {
    let title = utils::ellipsized(window.title, max_title);
    if index < 9 {
        "&"@ + text::decimal(index + 1) + ". "@ + title
    } else {
        title
    }
}

/// The entry of a workspace in the menu of its monitor.
pub open spec fn workspace_entry(
    monitor: Seq<char>,
    ws: state::WorkspaceMenuView,
    max_title: nat,
    max_combined: nat,
) -> EntryView {
    EntryView::Check {
        id: menu_id::workspace_id(monitor, ws.index as nat),
        label: workspace_label(ws, max_title, max_combined),
        checked: ws.focused,
    }
}

/// The entry of a window in the window menu of its workspace.
pub open spec fn window_entry(
    monitor: Seq<char>,
    ws: state::WorkspaceMenuView,
    index: int,
    max_title: nat,
) -> EntryView {
    EntryView::Check {
        id: menu_id::window_id(monitor, ws.index as nat, index as nat),
        label: window_label(ws.windows[index], index as nat, max_title),
        checked: ws.windows[index].focused,
    }
}

/// The window menu of a workspace.
pub open spec fn window_menu(
    monitor: Seq<char>,
    ws: state::WorkspaceMenuView,
    max_title: nat,
) -> Seq<EntryView> {
    seq![
        EntryView::Item {
            id: menu_id::focus_id(monitor, ws.index as nat),
            label: "Focus Workspace"@,
        },
        EntryView::Separator,
    ] + Seq::new(ws.windows.len(), |i: int| window_entry(monitor, ws, i, max_title))
}

/// The menu of a monitor: its listed workspaces, and below them the autostart
/// switch and the entry that quits.
pub open spec fn monitor_menu(
    monitor: state::MonitorView,
    autostart_id: Seq<char>,
    quit_id: Seq<char>,
    autostart: bool,
    max_title: nat,
    max_combined: nat,
) -> Seq<EntryView> {
    let shown = listed(monitor.menu_workspaces);
    Seq::new(
        shown.len(),
        |i: int| workspace_entry(monitor.id, shown[i], max_title, max_combined),
    ) + seq![
        EntryView::Separator,
        EntryView::Check { id: autostart_id, label: "&Enable autostart"@, checked: autostart },
        EntryView::Item { id: quit_id, label: "&Quit"@ },
    ]
}

/// The workspaces that entries stand for, after those of a list of workspaces
/// have been added.
pub open spec fn with_workspace_items(
    items: Map<Seq<char>, (Seq<char>, usize)>,
    monitor: Seq<char>,
    shown: Seq<state::WorkspaceMenuView>,
    submenus: bool,
) -> Map<Seq<char>, (Seq<char>, usize)>
    decreases shown.len(),
{
    if shown.len() == 0 {
        items
    } else {
        let ws = shown.last();
        let target = (monitor, ws.index);
        let main = with_workspace_items(items, monitor, shown.drop_last(), submenus).insert(
            menu_id::workspace_id(monitor, ws.index as nat),
            target,
        );
        if submenus {
            main.insert(menu_id::focus_id(monitor, ws.index as nat), target)
        } else {
            main
        }
    }
}

/// The windows that entries stand for, after the first `n` windows of a
/// workspace have been added.
pub open spec fn with_windows_of(
    items: Map<Seq<char>, (Seq<char>, usize, usize)>,
    monitor: Seq<char>,
    ws: state::WorkspaceMenuView,
    n: nat,
) -> Map<Seq<char>, (Seq<char>, usize, usize)>
    decreases n,
{
    if n == 0 {
        items
    } else {
        with_windows_of(items, monitor, ws, (n - 1) as nat).insert(
            menu_id::window_id(monitor, ws.index as nat, (n - 1) as nat),
            (monitor, ws.index, ws.windows[n - 1].hwnd),
        )
    }
}

/// The windows that entries stand for, after those of a list of workspaces
/// have been added.
pub open spec fn with_window_items(
    items: Map<Seq<char>, (Seq<char>, usize, usize)>,
    monitor: Seq<char>,
    shown: Seq<state::WorkspaceMenuView>,
    submenus: bool,
) -> Map<Seq<char>, (Seq<char>, usize, usize)>
    decreases shown.len(),
{
    if !submenus || shown.len() == 0 {
        items
    } else {
        let ws = shown.last();
        with_windows_of(
            with_window_items(items, monitor, shown.drop_last(), submenus),
            monitor,
            ws,
            ws.windows.len(),
        )
    }
}

/// The window menus of a list of workspaces, by the index of the workspace.
pub open spec fn window_menus(
    monitor: Seq<char>,
    shown: Seq<state::WorkspaceMenuView>,
    max_title: nat,
    submenus: bool,
) -> Map<usize, Seq<EntryView>>
    decreases shown.len(),
{
    if !submenus || shown.len() == 0 {
        Map::empty()
    } else {
        let ws = shown.last();
        window_menus(monitor, shown.drop_last(), max_title, submenus).insert(
            ws.index,
            window_menu(monitor, ws, max_title),
        )
    }
}

// ---------------------------------------------------------------------------
// Building
// ---------------------------------------------------------------------------

fn join_titles(windows: &Vec<WindowMenuState>, max_title_length: usize) -> (joined: String)
    ensures
        joined@ == joined_titles(model::seq_view(windows@), max_title_length as nat),
{
    let ghost views = model::seq_view(windows@);
    let mut joined = String::new();
    let mut i: usize = 0;
    proof {
        assert(joined@ =~= joined_titles(views.take(0), max_title_length as nat));
    }
    while i < windows.len()
        invariant
            i <= windows@.len(),
            views == model::seq_view(windows@),
            joined@ == joined_titles(views.take(i as int), max_title_length as nat),
        decreases windows@.len() - i,
    {
        let title = utils::ellipsize(windows[i].title.as_str(), max_title_length);
        let ghost prior = joined@;
        if i > 0 {
            joined.append(", ");
        }
        joined.append(title.as_str());
        proof {
            let next = views.take(i + 1);
            assert(next.drop_last() =~= views.take(i as int));
            assert(next.last() == windows@[i as int]@);
            if i == 0 {
                assert(joined@ =~= title@);
            }
        }
        i += 1;
    }
    proof {
        assert(views.take(views.len() as int) =~= views);
    }
    joined
}

fn label_for_workspace(
    ws: &WorkspaceMenuState,
    max_title_length: usize,
    max_combined_title_length: usize,
) -> (label: String)
    requires
        ws.index < usize::MAX,
    ensures
        label@ == workspace_label(
            ws@,
            max_title_length as nat,
            max_combined_title_length as nat,
        ),
{
    let base_label = "&".to_owned().concat(text::decimal_text(ws.index + 1).as_str()).concat(".");
    if ws.windows.len() == 0 {
        base_label
    } else {
        let titles_joined = join_titles(&ws.windows, max_title_length);
        base_label.concat(" ").concat(
            utils::ellipsize(titles_joined.as_str(), max_combined_title_length).as_str(),
        )
    }
}

fn label_for_window(window: &WindowMenuState, index: usize, max_title_length: usize) -> (label:
    String)
    ensures
        label@ == window_label(window@, index as nat, max_title_length as nat),
{
    let title = utils::ellipsize(window.title.as_str(), max_title_length);
    if index < 9 {
        "&".to_owned().concat(text::decimal_text(index + 1).as_str()).concat(". ").concat(
            title.as_str(),
        )
    } else {
        title
    }
}

fn build_window_menu(
    monitor_id: &str,
    ws: &WorkspaceMenuState,
    window_items: &mut Table<String, (String, usize, usize)>,
    max_title_length: usize,
) -> (menu: Menu)
    ensures
        menu@ == window_menu(monitor_id@, ws@, max_title_length as nat),
        final(window_items)@ == with_windows_of(
            old(window_items)@,
            monitor_id@,
            ws@,
            ws@.windows.len(),
        ),
{
    let mut win_menu = Menu::new();
    win_menu.append(
        MenuEntry::Item {
            id: menu_id::focus_menu_id(monitor_id, ws.index),
            label: "Focus Workspace".to_owned(),
        },
    );
    win_menu.append(MenuEntry::Separator);
    let ghost items = window_items@;
    let ghost full = window_menu(monitor_id@, ws@, max_title_length as nat);
    proof {
        assert(win_menu@ =~= full.take(2));
    }
    let mut win_idx: usize = 0;
    while win_idx < ws.windows.len()
        invariant
            win_idx <= ws.windows@.len(),
            full == window_menu(monitor_id@, ws@, max_title_length as nat),
            win_menu@ == full.take(2 + win_idx),
            window_items@ == with_windows_of(items, monitor_id@, ws@, win_idx as nat),
        decreases ws.windows@.len() - win_idx,
    {
        let win: &WindowMenuState = &ws.windows[win_idx];
        proof {
            assert(ws@.windows[win_idx as int] == win@);
        }
        let entry = MenuEntry::Check {
            id: menu_id::window_menu_id(monitor_id, ws.index, win_idx),
            label: label_for_window(win, win_idx, max_title_length),
            checked: win.focused,
        };
        window_items.insert(
            menu_id::window_menu_id(monitor_id, ws.index, win_idx),
            (monitor_id.to_owned(), ws.index, win.hwnd),
        );
        proof {
            assert(entry@ == full[2 + win_idx]);
            assert(full.take(2 + win_idx).push(entry@) =~= full.take(2 + win_idx + 1));
        }
        win_menu.append(entry);
        win_idx += 1;
    }
    proof {
        assert(full.take(full.len() as int) =~= full);
    }
    win_menu
}

/// Builds the menu of a monitor and the window menus of its workspaces, and
/// adds to the two tables what the entries stand for.
pub fn build_menu_for_monitor(
    monitor: &MonitorState,
    workspace_items: &mut Table<String, (String, usize)>,
    window_items: &mut Table<String, (String, usize, usize)>,
    autostart_item_id: String,
    quit_item_id: String,
    initial_autostart: bool,
    max_title_length: usize,
    max_combined_title_length: usize,
    workspace_submenus: bool,
) -> (menus: (Menu, Table<usize, Menu>))
    requires
        state::monitor_menu_ready(monitor@),
    ensures
        menus.0@ == monitor_menu(
            monitor@,
            autostart_item_id@,
            quit_item_id@,
            initial_autostart,
            max_title_length as nat,
            max_combined_title_length as nat,
        ),
        menus.1@ == window_menus(
            monitor@.id,
            listed(monitor@.menu_workspaces),
            max_title_length as nat,
            workspace_submenus,
        ),
        final(workspace_items)@ == with_workspace_items(
            old(workspace_items)@,
            monitor@.id,
            listed(monitor@.menu_workspaces),
            workspace_submenus,
        ),
        final(window_items)@ == with_window_items(
            old(window_items)@,
            monitor@.id,
            listed(monitor@.menu_workspaces),
            workspace_submenus,
        ),
{
    let mut menu = Menu::new();
    let mut virtual_submenus: Table<usize, Menu> = Table::new();
    let ghost all = monitor@.menu_workspaces;
    let ghost items0 = workspace_items@;
    let ghost windows0 = window_items@;
    let monitor_id: &str = monitor.id.as_str();
    let mut i: usize = 0;
    proof {
        reveal(Seq::filter);
        assert(listed(all.take(0)) =~= Seq::empty());
    }
    while i < monitor.menu_workspaces.len()
        invariant
            i <= monitor.menu_workspaces@.len(),
            all == monitor@.menu_workspaces,
            monitor_id@ == monitor@.id,
            state::monitor_menu_ready(monitor@),
            menu@ == Seq::new(
                listed(all.take(i as int)).len(),
                |k: int|
                    workspace_entry(
                        monitor@.id,
                        listed(all.take(i as int))[k],
                        max_title_length as nat,
                        max_combined_title_length as nat,
                    ),
            ),
            virtual_submenus@ == window_menus(
                monitor@.id,
                listed(all.take(i as int)),
                max_title_length as nat,
                workspace_submenus,
            ),
            workspace_items@ == with_workspace_items(
                items0,
                monitor@.id,
                listed(all.take(i as int)),
                workspace_submenus,
            ),
            window_items@ == with_window_items(
                windows0,
                monitor@.id,
                listed(all.take(i as int)),
                workspace_submenus,
            ),
        decreases monitor.menu_workspaces@.len() - i,
    {
        let ws: &WorkspaceMenuState = &monitor.menu_workspaces[i];
        let ghost shown = listed(all.take(i as int));
        let ghost next = listed(all.take(i + 1));
        proof {
            reveal(Seq::filter);
            assert(all[i as int] == ws@);
            assert(all.take(i + 1).drop_last() =~= all.take(i as int));
            assert(all.take(i + 1).last() == ws@);
            assert(next == (if is_listed(ws@) { shown.push(ws@) } else { shown }));
        }
        if ws.focused || ws.windows.len() > 0 {
            proof {
                assert(next.drop_last() =~= shown);
                assert(next.last() == ws@);
            }
            let ghost prior = menu@;
            menu.append(
                MenuEntry::Check {
                    id: menu_id::workspace_menu_id(monitor_id, ws.index),
                    label: label_for_workspace(ws, max_title_length, max_combined_title_length),
                    checked: ws.focused,
                },
            );
            workspace_items.insert(
                menu_id::workspace_menu_id(monitor_id, ws.index),
                (monitor_id.to_owned(), ws.index),
            );
            if workspace_submenus {
                workspace_items.insert(
                    menu_id::focus_menu_id(monitor_id, ws.index),
                    (monitor_id.to_owned(), ws.index),
                );
                let win_menu = build_window_menu(monitor_id, ws, window_items, max_title_length);
                virtual_submenus.insert(ws.index, win_menu);
            }
            proof {
                assert(menu@ =~= Seq::new(
                    next.len(),
                    |k: int|
                        workspace_entry(
                            monitor@.id,
                            next[k],
                            max_title_length as nat,
                            max_combined_title_length as nat,
                        ),
                ));
            }
        }
        i += 1;
    }
    proof {
        assert(all.take(all.len() as int) =~= all);
    }
    let ghost autostart_view = autostart_item_id@;
    let ghost quit_view = quit_item_id@;
    menu.append(MenuEntry::Separator);
    menu.append(
        MenuEntry::Check {
            id: autostart_item_id,
            label: "&Enable autostart".to_owned(),
            checked: initial_autostart,
        },
    );
    menu.append(MenuEntry::Item { id: quit_item_id, label: "&Quit".to_owned() });
    proof {
        assert(menu@ =~= monitor_menu(
            monitor@,
            autostart_view,
            quit_view,
            initial_autostart,
            max_title_length as nat,
            max_combined_title_length as nat,
        ));
    }
    (menu, virtual_submenus)
}

// ---------------------------------------------------------------------------
// Laws
// ---------------------------------------------------------------------------

/// The menu lists exactly the workspaces that are focused or show a window.
pub proof fn law_listed(workspaces: Seq<state::WorkspaceMenuView>, ws: state::WorkspaceMenuView)
    ensures
        listed(workspaces).contains(ws) <==> workspaces.contains(ws) && is_listed(ws),
    decreases workspaces.len(),
{
    reveal(Seq::filter);
    if workspaces.len() > 0 {
        let rest = workspaces.drop_last();
        let last = workspaces.last();
        law_listed(rest, ws);
        assert(workspaces =~= rest.push(last));
        assert(workspaces.contains(ws) <==> rest.contains(ws) || ws == last) by {
            assert(workspaces[workspaces.len() - 1] == last);
            if rest.contains(ws) {
                let i = choose|i: int| 0 <= i < rest.len() && rest[i] == ws;
                assert(workspaces[i] == ws);
            }
            if workspaces.contains(ws) && ws != last {
                let i = choose|i: int| 0 <= i < workspaces.len() && workspaces[i] == ws;
                assert(rest[i] == ws);
            }
        }
        if is_listed(last) {
            let shown = listed(rest);
            assert(listed(workspaces) == shown.push(last));
            assert(listed(workspaces)[shown.len() as int] == last);
            if shown.contains(ws) {
                let i = choose|i: int| 0 <= i < shown.len() && shown[i] == ws;
                assert(listed(workspaces)[i] == ws);
            }
            if listed(workspaces).contains(ws) && ws != last {
                let i = choose|i: int|
                    0 <= i < listed(workspaces).len() && listed(workspaces)[i] == ws;
                assert(shown[i] == ws);
            }
        }
    }
}

/// What is recorded for the entry of a workspace is that workspace.
pub open spec fn workspace_items_true(items: Map<Seq<char>, (Seq<char>, usize)>) -> bool {
    forall|m: Seq<char>, w: usize|
        items.contains_key(#[trigger] menu_id::workspace_id(m, w as nat)) ==> items[
            menu_id::workspace_id(m, w as nat)
        ] == (m, w)
}

/// Adding the entries of a monitor records each of its listed workspaces, and
/// what is recorded for the entry of a workspace stays that workspace.
pub proof fn law_workspace_items_name_their_workspaces(
    items: Map<Seq<char>, (Seq<char>, usize)>,
    monitor: Seq<char>,
    shown: Seq<state::WorkspaceMenuView>,
    submenus: bool,
)
    requires
        workspace_items_true(items),
    ensures
        workspace_items_true(with_workspace_items(items, monitor, shown, submenus)),
        forall|i: int|
            0 <= i < shown.len() ==> with_workspace_items(
                items,
                monitor,
                shown,
                submenus,
            ).contains_key(menu_id::workspace_id(monitor, (#[trigger] shown[i]).index as nat)),
    decreases shown.len(),
{
    if shown.len() > 0 {
        let rest = shown.drop_last();
        let ws = shown.last();
        let before = with_workspace_items(items, monitor, rest, submenus);
        let after = with_workspace_items(items, monitor, shown, submenus);
        law_workspace_items_name_their_workspaces(items, monitor, rest, submenus);
        assert forall|m: Seq<char>, w: usize|
            after.contains_key(#[trigger] menu_id::workspace_id(m, w as nat)) implies after[
            menu_id::workspace_id(m, w as nat)
        ] == (m, w) by {
            menu_id::law_focus_ids_are_no_workspace_ids(monitor, ws.index, m, w);
            if menu_id::workspace_id(m, w as nat) == menu_id::workspace_id(
                monitor,
                ws.index as nat,
            ) {
                menu_id::law_workspace_ids_differ(m, w, monitor, ws.index);
            }
        }
        assert forall|i: int| 0 <= i < shown.len() implies after.contains_key(
            menu_id::workspace_id(monitor, (#[trigger] shown[i]).index as nat),
        ) by {
            if i < rest.len() {
                assert(rest[i] == shown[i]);
            }
        }
    }
}

/// The entries of the windows of a workspace are recorded with the handles of
/// these windows.
pub proof fn law_window_items_name_their_windows(
    items: Map<Seq<char>, (Seq<char>, usize, usize)>,
    monitor: Seq<char>,
    ws: state::WorkspaceMenuView,
    n: nat,
    i: int,
)
    requires
        0 <= i < n <= ws.windows.len(),
        ws.windows.len() <= usize::MAX,
    ensures
        with_windows_of(items, monitor, ws, n).contains_key(
            menu_id::window_id(monitor, ws.index as nat, i as nat),
        ),
        with_windows_of(items, monitor, ws, n)[menu_id::window_id(
            monitor,
            ws.index as nat,
            i as nat,
        )] == (monitor, ws.index, ws.windows[i].hwnd),
    decreases n,
{
    if i < n - 1 {
        law_window_items_name_their_windows(items, monitor, ws, (n - 1) as nat, i);
        if menu_id::window_id(monitor, ws.index as nat, i as nat) == menu_id::window_id(
            monitor,
            ws.index as nat,
            (n - 1) as nat,
        ) {
            menu_id::law_window_ids_differ(
                monitor,
                ws.index,
                i as usize,
                monitor,
                ws.index,
                (n - 1) as usize,
            );
        }
    }
}

/// One of the listed workspaces of a monitor has this index and shows, at this
/// position, a window with this handle.
pub open spec fn shows_window(
    monitor: state::MonitorView,
    workspace: usize,
    window: usize,
    hwnd: usize,
) -> bool {
    exists|k: int|
        0 <= k < listed(monitor.menu_workspaces).len() && (#[trigger] listed(
            monitor.menu_workspaces,
        )[k]).index == workspace && window < listed(monitor.menu_workspaces)[k].windows.len()
            && listed(monitor.menu_workspaces)[k].windows[window as int].hwnd == hwnd
}

/// What is recorded for the entry of a window is a window that one of the
/// monitors shows there.
pub open spec fn window_items_true(
    items: Map<Seq<char>, (Seq<char>, usize, usize)>,
    monitors: Seq<state::MonitorView>,
) -> bool {
    forall|m: Seq<char>, w: usize, i: usize|
        items.contains_key(#[trigger] menu_id::window_id(m, w as nat, i as nat)) ==> {
            let target = items[menu_id::window_id(m, w as nat, i as nat)];
            &&& target.0 == m
            &&& target.1 == w
            &&& exists|p: int|
                0 <= p < monitors.len() && (#[trigger] monitors[p]).id == m && shows_window(
                    monitors[p],
                    w,
                    i,
                    target.2,
                )
        }
}

/// Adding the windows of a listed workspace of one of the monitors keeps what
/// is recorded true.
proof fn lemma_windows_of_true(
    items: Map<Seq<char>, (Seq<char>, usize, usize)>,
    monitors: Seq<state::MonitorView>,
    p: int,
    k: int,
    n: nat,
)
    requires
        window_items_true(items, monitors),
        0 <= p < monitors.len(),
        0 <= k < listed(monitors[p].menu_workspaces).len(),
        n <= listed(monitors[p].menu_workspaces)[k].windows.len() <= usize::MAX,
    ensures
        window_items_true(
            with_windows_of(
                items,
                monitors[p].id,
                listed(monitors[p].menu_workspaces)[k],
                n,
            ),
            monitors,
        ),
    decreases n,
{
    if n > 0 {
        let monitor = monitors[p];
        let ws = listed(monitor.menu_workspaces)[k];
        lemma_windows_of_true(items, monitors, p, k, (n - 1) as nat);
        let before = with_windows_of(items, monitor.id, ws, (n - 1) as nat);
        let after = with_windows_of(items, monitor.id, ws, n);
        let last = (n - 1) as usize;
        assert forall|m: Seq<char>, w: usize, i: usize|
            after.contains_key(#[trigger] menu_id::window_id(m, w as nat, i as nat)) implies {
            let target = after[menu_id::window_id(m, w as nat, i as nat)];
            &&& target.0 == m
            &&& target.1 == w
            &&& exists|q: int|
                0 <= q < monitors.len() && (#[trigger] monitors[q]).id == m && shows_window(
                    monitors[q],
                    w,
                    i,
                    target.2,
                )
        } by {
            let id = menu_id::window_id(m, w as nat, i as nat);
            if id == menu_id::window_id(monitor.id, ws.index as nat, last as nat) {
                menu_id::law_window_ids_differ(m, w, i, monitor.id, ws.index, last);
                assert(shows_window(monitors[p], w, i, ws.windows[last as int].hwnd));
            } else {
                assert(before.contains_key(id));
                assert(after[id] == before[id]);
            }
        }
    }
}

/// Adding the entries of one of the monitors keeps what is recorded for the
/// entries of windows true.
pub proof fn law_window_items_stay_true(
    items: Map<Seq<char>, (Seq<char>, usize, usize)>,
    monitors: Seq<state::MonitorView>,
    p: int,
    n: nat,
    submenus: bool,
)
    requires
        window_items_true(items, monitors),
        0 <= p < monitors.len(),
        n <= listed(monitors[p].menu_workspaces).len(),
        forall|k: int|
            0 <= k < listed(monitors[p].menu_workspaces).len() ==> (#[trigger] listed(
                monitors[p].menu_workspaces,
            )[k]).windows.len() <= usize::MAX,
    ensures
        window_items_true(
            with_window_items(
                items,
                monitors[p].id,
                listed(monitors[p].menu_workspaces).take(n as int),
                submenus,
            ),
            monitors,
        ),
    decreases n,
{
    if submenus && n > 0 {
        let shown = listed(monitors[p].menu_workspaces);
        let head = shown.take(n as int);
        law_window_items_stay_true(items, monitors, p, (n - 1) as nat, submenus);
        assert(head.drop_last() =~= shown.take(n - 1));
        assert(head.last() == shown[n - 1]);
        lemma_windows_of_true(
            with_window_items(items, monitors[p].id, head.drop_last(), submenus),
            monitors,
            p,
            n - 1,
            shown[n - 1].windows.len(),
        );
    }
}

/// Without window menus there is none for any workspace.
pub proof fn law_no_window_menus_unless_wanted(
    monitor: Seq<char>,
    shown: Seq<state::WorkspaceMenuView>,
    max_title: nat,
)
    ensures
        window_menus(monitor, shown, max_title, false) == Map::<usize, Seq<EntryView>>::empty(),
{
}

/// With window menus every listed workspace has one, and no other index does.
pub proof fn law_every_listed_workspace_has_a_window_menu(
    monitor: Seq<char>,
    shown: Seq<state::WorkspaceMenuView>,
    max_title: nat,
    index: usize,
)
    ensures
        window_menus(monitor, shown, max_title, true).contains_key(index) <==> (exists|i: int|
            0 <= i < shown.len() && (#[trigger] shown[i]).index == index),
    decreases shown.len(),
{
    if shown.len() > 0 {
        let rest = shown.drop_last();
        law_every_listed_workspace_has_a_window_menu(monitor, rest, max_title, index);
        assert(shown[shown.len() - 1] == shown.last());
        if exists|i: int| 0 <= i < rest.len() && (#[trigger] rest[i]).index == index {
            let i = choose|i: int| 0 <= i < rest.len() && (#[trigger] rest[i]).index == index;
            assert(shown[i].index == index);
        }
        if exists|i: int| 0 <= i < shown.len() && (#[trigger] shown[i]).index == index {
            let i = choose|i: int| 0 <= i < shown.len() && (#[trigger] shown[i]).index == index;
            if i < rest.len() {
                assert(rest[i].index == index);
            }
        }
    }
}

/// The window menu for an index is that of a listed workspace with this index.
pub proof fn law_window_menus_belong_to_their_workspaces(
    monitor: Seq<char>,
    shown: Seq<state::WorkspaceMenuView>,
    max_title: nat,
    submenus: bool,
    index: usize,
)
    requires
        window_menus(monitor, shown, max_title, submenus).contains_key(index),
    ensures
        submenus,
        exists|i: int|
            0 <= i < shown.len() && (#[trigger] shown[i]).index == index && window_menus(
                monitor,
                shown,
                max_title,
                submenus,
            )[index] == window_menu(monitor, shown[i], max_title),
    decreases shown.len(),
{
    if shown.last().index == index {
        assert(shown[shown.len() - 1].index == index);
    } else {
        let rest = shown.drop_last();
        law_window_menus_belong_to_their_workspaces(monitor, rest, max_title, submenus, index);
        let i = choose|i: int|
            0 <= i < rest.len() && (#[trigger] rest[i]).index == index && window_menus(
                monitor,
                rest,
                max_title,
                submenus,
            )[index] == window_menu(monitor, rest[i], max_title);
        assert(shown[i] == rest[i]);
    }
}

/// Below the workspaces, the menu ends with the autostart switch, which shows
/// the autostart state, and the entry that quits.
pub proof fn law_menu_shows_autostart(
    monitor: state::MonitorView,
    autostart_id: Seq<char>,
    quit_id: Seq<char>,
    autostart: bool,
    max_title: nat,
    max_combined: nat,
)
    ensures
        ({
            let entries = monitor_menu(
                monitor,
                autostart_id,
                quit_id,
                autostart,
                max_title,
                max_combined,
            );
            let n = listed(monitor.menu_workspaces).len() as int;
            &&& entries.len() == n + 3
            &&& entries[n] == EntryView::Separator
            &&& entries[n + 1] == EntryView::Check {
                id: autostart_id,
                label: "&Enable autostart"@,
                checked: autostart,
            }
            &&& entries[n + 2] == EntryView::Item { id: quit_id, label: "&Quit"@ }
        }),
{
}

/// How many of the first `n` workspaces are focused or have at least one window.
pub open spec fn wanted_before(workspaces: Seq<state::WorkspaceMenuView>, n: int) -> nat
    decreases n,
{
    if n <= 0 {
        0
    } else if workspaces[n - 1].focused || workspaces[n - 1].windows.len() >= 1 {
        wanted_before(workspaces, n - 1) + 1
    } else {
        wanted_before(workspaces, n - 1)
    }
}

proof fn lemma_wanted_before_prefix(
    a: Seq<state::WorkspaceMenuView>,
    b: Seq<state::WorkspaceMenuView>,
    n: int,
)
    requires
        n <= a.len(),
        n <= b.len(),
        forall|i: int| 0 <= i < n ==> a[i] == b[i],
    ensures
        wanted_before(a, n) == wanted_before(b, n),
    decreases n,
{
    if n > 0 {
        lemma_wanted_before_prefix(a, b, n - 1);
    }
}

proof fn lemma_wanted_are_listed(workspaces: Seq<state::WorkspaceMenuView>)
    ensures
        listed(workspaces).len() == wanted_before(workspaces, workspaces.len() as int),
        forall|j: int|
            0 <= j < workspaces.len() && ((#[trigger] workspaces[j]).focused
                || workspaces[j].windows.len() >= 1) ==> wanted_before(workspaces, j) < listed(
                workspaces,
            ).len() && listed(workspaces)[wanted_before(workspaces, j) as int] == workspaces[j],
    decreases workspaces.len(),
{
    reveal(Seq::filter);
    if workspaces.len() > 0 {
        let rest = workspaces.drop_last();
        let last = workspaces.last();
        lemma_wanted_are_listed(rest);
        lemma_wanted_before_prefix(rest, workspaces, rest.len() as int);
        assert(listed(workspaces) == if is_listed(last) {
            listed(rest).push(last)
        } else {
            listed(rest)
        });
        assert forall|j: int|
            0 <= j < workspaces.len() && ((#[trigger] workspaces[j]).focused
                || workspaces[j].windows.len() >= 1) implies wanted_before(workspaces, j) < listed(
            workspaces,
        ).len() && listed(workspaces)[wanted_before(workspaces, j) as int] == workspaces[j] by {
            if j < rest.len() {
                assert(rest[j] == workspaces[j]);
                lemma_wanted_before_prefix(rest, workspaces, j);
            }
        }
    }
}

/// The menu of a monitor has an entry for each workspace that is focused or has at
/// least one window, in the order of the workspaces, and below them three more. The
/// entry is marked where the workspace is focused, and says its number and, where it
/// has windows, their titles.
pub proof fn law_menu_lists_focused_and_occupied_workspaces(
    monitor: state::MonitorView,
    autostart_id: Seq<char>,
    quit_id: Seq<char>,
    autostart: bool,
    max_title: nat,
    max_combined: nat,
    j: int,
)
    requires
        0 <= j < monitor.menu_workspaces.len(),
    ensures
        ({
            let workspaces = monitor.menu_workspaces;
            let ws = workspaces[j];
            let at = wanted_before(workspaces, j) as int;
            let entries = monitor_menu(
                monitor,
                autostart_id,
                quit_id,
                autostart,
                max_title,
                max_combined,
            );
            let number = "&"@ + text::decimal((ws.index + 1) as nat) + "."@;
            &&& entries.len() == wanted_before(workspaces, workspaces.len() as int) + 3
            &&& ws.focused || ws.windows.len() >= 1 ==> at < entries.len() - 3 && (entries[at]
                matches EntryView::Check { id, label, checked } && id == menu_id::workspace_id(
                monitor.id,
                ws.index as nat,
            ) && checked == ws.focused && label == if ws.windows.len() == 0 {
                number
            } else {
                number + " "@ + utils::ellipsized(
                    joined_titles(ws.windows, max_title),
                    max_combined,
                )
            })
        }),
{
    lemma_wanted_are_listed(monitor.menu_workspaces);
}

/// Every entry above the last three is that of a workspace that is focused or has
/// at least one window.
pub proof fn law_menu_lists_no_other_workspaces(
    monitor: state::MonitorView,
    autostart_id: Seq<char>,
    quit_id: Seq<char>,
    autostart: bool,
    max_title: nat,
    max_combined: nat,
    i: int,
)
    requires
        0 <= i < monitor_menu(
            monitor,
            autostart_id,
            quit_id,
            autostart,
            max_title,
            max_combined,
        ).len() - 3,
    ensures
        ({
            let entries = monitor_menu(
                monitor,
                autostart_id,
                quit_id,
                autostart,
                max_title,
                max_combined,
            );
            exists|j: int|
                0 <= j < monitor.menu_workspaces.len() && ((
                #[trigger] monitor.menu_workspaces[j]).focused
                    || monitor.menu_workspaces[j].windows.len() >= 1) && (entries[i]
                    matches EntryView::Check { id, checked, .. } && id == menu_id::workspace_id(
                    monitor.id,
                    monitor.menu_workspaces[j].index as nat,
                ) && checked == monitor.menu_workspaces[j].focused)
        }),
{
    let shown = listed(monitor.menu_workspaces);
    assert(shown.contains(shown[i]));
    law_listed(monitor.menu_workspaces, shown[i]);
    let j = choose|j: int|
        0 <= j < monitor.menu_workspaces.len() && monitor.menu_workspaces[j] == shown[i];
    assert(monitor.menu_workspaces[j].focused || monitor.menu_workspaces[j].windows.len() >= 1);
}

/// The titles of windows are joined in order, each shortened, with a comma and a
/// space between each two.
pub proof fn law_titles_are_joined(
    windows: Seq<state::WindowMenuView>,
    window: state::WindowMenuView,
    max_title: nat,
)
    ensures
        joined_titles(seq![window], max_title) == utils::ellipsized(window.title, max_title),
        windows.len() > 0 ==> joined_titles(windows.push(window), max_title) == joined_titles(
            windows,
            max_title,
        ) + ", "@ + utils::ellipsized(window.title, max_title),
{
    assert(windows.push(window).drop_last() =~= windows);
}

/// The window menu of a workspace has an entry that focuses the workspace, a
/// separator, and an entry for each window in order. That is marked where the
/// window is focused, says its title, and the first nine have a number to press.
pub proof fn law_window_menu_lists_its_windows(
    monitor: Seq<char>,
    ws: state::WorkspaceMenuView,
    max_title: nat,
    i: int,
)
    requires
        0 <= i < ws.windows.len(),
    ensures
        ({
            let entries = window_menu(monitor, ws, max_title);
            let title = utils::ellipsized(ws.windows[i].title, max_title);
            &&& entries.len() == ws.windows.len() + 2
            &&& entries[0] == EntryView::Item {
                id: menu_id::focus_id(monitor, ws.index as nat),
                label: "Focus Workspace"@,
            }
            &&& entries[1] == EntryView::Separator
            &&& entries[i + 2] == EntryView::Check {
                id: menu_id::window_id(monitor, ws.index as nat, i as nat),
                label: if i < 9 {
                    "&"@ + text::decimal((i + 1) as nat) + ". "@ + title
                } else {
                    title
                },
                checked: ws.windows[i].focused,
            }
        }),
{
}

/// Where window menus are wanted, a workspace has one exactly where it is focused
/// or has at least one window, and no two workspaces with different indices share
/// one.
pub proof fn law_wanted_workspaces_have_their_window_menus(
    monitor: Seq<char>,
    workspaces: Seq<state::WorkspaceMenuView>,
    max_title: nat,
    j: int,
)
    requires
        0 <= j < workspaces.len(),
        forall|a: int, b: int|
            0 <= a < b < workspaces.len() ==> (#[trigger] workspaces[a]).index != (
            #[trigger] workspaces[b]).index,
    ensures
        ({
            let ws = workspaces[j];
            let menus = window_menus(monitor, listed(workspaces), max_title, true);
            &&& menus.contains_key(ws.index) <==> ws.focused || ws.windows.len() >= 1
            &&& ws.focused || ws.windows.len() >= 1 ==> menus[ws.index] == window_menu(
                monitor,
                ws,
                max_title,
            )
        }),
{
    let ws = workspaces[j];
    let shown = listed(workspaces);
    let menus = window_menus(monitor, shown, max_title, true);
    lemma_wanted_are_listed(workspaces);
    law_every_listed_workspace_has_a_window_menu(monitor, shown, max_title, ws.index);
    if ws.focused || ws.windows.len() >= 1 {
        assert(shown[wanted_before(workspaces, j) as int].index == ws.index);
    }
    if menus.contains_key(ws.index) {
        law_window_menus_belong_to_their_workspaces(monitor, shown, max_title, true, ws.index);
        let i = choose|i: int|
            0 <= i < shown.len() && (#[trigger] shown[i]).index == ws.index && menus[ws.index]
                == window_menu(monitor, shown[i], max_title);
        assert(shown.contains(shown[i]));
        law_listed(workspaces, shown[i]);
        let b = choose|b: int| 0 <= b < workspaces.len() && workspaces[b] == shown[i];
        if b != j {
            assert(workspaces[b].index != workspaces[j].index);
        }
    }
}

} // verus!
