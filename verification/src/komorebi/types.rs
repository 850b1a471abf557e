//! The part of komorebi's state that is used.
//!
//! Every field has a default, so a partial state can be represented: a ring
//! without elements, an empty text, a rectangle at the origin.

use vstd::prelude::*;

use crate::model;
use crate::text;

verus! {

/// komorebi's pervasive ring pattern: an ordered list of items plus the index
/// of the focused one.
#[derive(Debug)]
pub struct Ring<T> {
    pub elements: Vec<T>,
    pub focused: usize,
}

impl<T> Default for Ring<T> {
    fn default() -> (ring: Self)
        ensures
            ring.elements@ == Seq::<T>::empty(),
            ring.focused == 0,
    {
        Ring { elements: Vec::new(), focused: 0 }
    }
}

impl<T> Ring<T> {
    /// Whether the ring has no elements.
    pub fn is_empty(&self) -> (empty: bool)
        ensures
            empty == (self.elements@.len() == 0),
    {
        self.elements.len() == 0
    }

    /// Number of elements in the ring.
    pub fn len(&self) -> (n: usize)
        ensures
            n == self.elements@.len(),
    {
        self.elements.len()
    }
}

/// Top-level shape of komorebi's state.
#[derive(Debug)]
pub struct State {
    pub monitors: Ring<Monitor>,
}

/// Rectangle dimensions as reported by komorebi (`left` and `top` are the
/// top-left origin in virtual-desktop coordinates).
#[derive(Debug, Clone, Copy)]
pub struct Rect {
    pub left: i32,
    pub top: i32,
    pub right: i32,
    pub bottom: i32,
}

/// One physical (or virtual) monitor as reported by komorebi.
#[derive(Debug)]
pub struct Monitor {
    /// Stable monitor identity, the key of the monitor's tray icon.
    pub device_id: String,
    /// Friendly device name; used as a fallback key.
    pub device: String,
    /// Display name; used as a last-resort fallback.
    pub name: String,
    /// Bounds of the monitor; `left` orders the monitors from left to right.
    pub size: Rect,
    pub workspaces: Ring<Workspace>,
}

/// One window.
#[derive(Debug)]
pub struct Window {
    pub title: String,
    pub exe: String,
    pub hwnd: usize,
}

/// One container of tiled windows.
#[derive(Debug)]
pub struct Container {
    pub windows: Ring<Window>,
}

/// A JSON value of any shape. The members of an object have distinct names.
#[derive(Debug)]
pub enum JsonValue {
    Null,
    Bool(bool),
    /// A number, as it is written.
    Number(String),
    Text(String),
    Array(Vec<JsonValue>),
    Object(Vec<(String, JsonValue)>),
}

/// The floating windows of a workspace. komorebi has written them as a ring
/// and, in older versions, as a plain array.
#[derive(Debug)]
pub enum WindowCollection {
    Ring(Ring<Window>),
    Array(Vec<Window>),
    Other(JsonValue),
}

/// One workspace on a monitor.
#[derive(Debug)]
pub struct Workspace {
    /// Tiled containers.
    pub containers: Ring<Container>,
    /// Floating windows.
    pub floating_windows: WindowCollection,
    /// Set when the workspace is in monocle (single-container full-screen) mode.
    pub monocle_container: Option<Container>,
    /// Set when one window in the workspace is currently maximized.
    pub maximized_window: Option<Window>,
}

// ---------------------------------------------------------------------------
// Defaults
// ---------------------------------------------------------------------------

impl Default for State {
    fn default() -> (state: State)
        ensures
            state.monitors.elements@ == Seq::<Monitor>::empty(),
            state.monitors.focused == 0,
    {
        State { monitors: Ring::default() }
    }
}

impl Default for Rect {
    fn default() -> (rect: Rect)
        ensures
            rect == (Rect { left: 0, top: 0, right: 0, bottom: 0 }),
    {
        Rect { left: 0, top: 0, right: 0, bottom: 0 }
    }
}

impl Default for Monitor {
    fn default() -> (monitor: Monitor)
        ensures
            monitor.device_id@ == Seq::<char>::empty(),
            monitor.device@ == Seq::<char>::empty(),
            monitor.name@ == Seq::<char>::empty(),
            monitor.size == (Rect { left: 0, top: 0, right: 0, bottom: 0 }),
            monitor.workspaces.elements@ == Seq::<Workspace>::empty(),
            monitor.workspaces.focused == 0,
    {
        Monitor {
            device_id: String::new(),
            device: String::new(),
            name: String::new(),
            size: Rect::default(),
            workspaces: Ring::default(),
        }
    }
}

impl Default for Window {
    fn default() -> (window: Window)
        ensures
            window.title@ == Seq::<char>::empty(),
            window.exe@ == Seq::<char>::empty(),
            window.hwnd == 0,
    {
        Window { title: String::new(), exe: String::new(), hwnd: 0 }
    }
}

impl Default for Container {
    fn default() -> (container: Container)
        ensures
            container.windows.elements@ == Seq::<Window>::empty(),
            container.windows.focused == 0,
    {
        Container { windows: Ring::default() }
    }
}

impl Default for WindowCollection {
    fn default() -> (windows: WindowCollection)
        ensures
            windows matches WindowCollection::Array(a) && a@ == Seq::<Window>::empty(),
    {
        WindowCollection::Array(Vec::new())
    }
}

impl Default for Workspace {
    fn default() -> (workspace: Workspace)
        ensures
            workspace.containers.elements@ == Seq::<Container>::empty(),
            workspace.containers.focused == 0,
            workspace.floating_windows matches WindowCollection::Array(a) && a@ == Seq::<
                Window,
            >::empty(),
            workspace.monocle_container is None,
            workspace.maximized_window is None,
    {
        Workspace {
            containers: Ring::default(),
            floating_windows: WindowCollection::default(),
            monocle_container: None,
            maximized_window: None,
        }
    }
}

// ---------------------------------------------------------------------------
// Copies
// ---------------------------------------------------------------------------

impl<T: Clone> Clone for Ring<T> {
    fn clone(&self) -> (copy: Ring<T>)
        ensures
            copy.focused == self.focused,
            copy.elements@.len() == self.elements@.len(),
            forall|i: int|
                0 <= i < self.elements@.len() ==> cloned::<T>(
                    self.elements@[i],
                    #[trigger] copy.elements@[i],
                ),
    {
        Ring { elements: self.elements.clone(), focused: self.focused }
    }
}

impl Clone for Window {
    fn clone(&self) -> (copy: Window)
        ensures
            copy == *self,
    {
        Window { title: self.title.clone(), exe: self.exe.clone(), hwnd: self.hwnd }
    }
}

impl Clone for Container {
    fn clone(&self) -> (copy: Container)
        ensures
            copy.windows.focused == self.windows.focused,
            copy.windows.elements@ == self.windows.elements@,
    {
        let copy = Container { windows: self.windows.clone() };
        proof {
            assert(copy.windows.elements@ =~= self.windows.elements@);
        }
        copy
    }
}

// ---------------------------------------------------------------------------
// Collections of windows
// ---------------------------------------------------------------------------

/// The member of an object with the given name.
pub open spec fn member(members: Seq<(String, JsonValue)>, name: Seq<char>) -> Option<JsonValue>
    decreases members.len(),
{
    if members.len() == 0 {
        None
    } else if members[0].0@ == name {
        Some(members[0].1)
    } else {
        member(members.skip(1), name)
    }
}

/// How many items a JSON value holds as a collection: an array its elements,
/// an object those of the array named `elements`, and anything else none.
pub open spec fn json_len(v: JsonValue) -> nat {
    match v {
        JsonValue::Array(items) => items@.len(),
        JsonValue::Object(members) => match member(members@, "elements"@) {
            Some(JsonValue::Array(items)) => items@.len(),
            _ => 0,
        },
        _ => 0,
    }
}

/// The windows of a collection, as far as they are known.
pub open spec fn windows_in(windows: WindowCollection) -> Seq<Window> {
    match windows {
        WindowCollection::Ring(ring) => ring.elements@,
        WindowCollection::Array(list) => list@,
        WindowCollection::Other(_) => Seq::empty(),
    }
}

/// How many windows a collection holds.
pub open spec fn collection_len(windows: WindowCollection) -> nat {
    match windows {
        WindowCollection::Ring(ring) => ring.elements@.len(),
        WindowCollection::Array(list) => list@.len(),
        WindowCollection::Other(value) => json_len(value),
    }
}

/// The title of a window without white space around it, if anything is left.
pub open spec fn shown_title(window: Window) -> Option<Seq<char>> {
    let title = text::trimmed(window.title@);
    if title.len() == 0 {
        None
    } else {
        Some(title)
    }
}

/// The titles of those windows that have one.
pub open spec fn shown_titles(windows: Seq<Window>) -> Seq<Seq<char>> {
    windows.filter_map(|w: Window| shown_title(w))
}

fn find_member<'a>(members: &'a Vec<(String, JsonValue)>, name: &str) -> (value: Option<
    &'a JsonValue,
>)
    ensures
        match value {
            Some(v) => member(members@, name@) == Some(*v),
            None => member(members@, name@) is None,
        },
{
    let mut i: usize = 0;
    proof {
        assert(members@.skip(0) =~= members@);
    }
    while i < members.len()
        invariant
            i <= members@.len(),
            member(members@, name@) == member(members@.skip(i as int), name@),
        decreases members@.len() - i,
    {
        if text::same_text(members[i].0.as_str(), name) {
            return Some(&members[i].1);
        }
        proof {
            assert(members@.skip(i as int).skip(1) =~= members@.skip(i + 1));
        }
        i += 1;
    }
    None
}

fn json_collection_len(v: &JsonValue) -> (n: usize)
    ensures
        n == json_len(*v),
{
    match v {
        JsonValue::Array(items) => items.len(),
        JsonValue::Object(members) => match find_member(members, "elements") {
            Some(JsonValue::Array(items)) => items.len(),
            _ => 0,
        },
        _ => 0,
    }
}

/// Whether `v` represents a non-empty collection, stored as a plain array or
/// as a ring.
pub fn json_collection_non_empty(v: &JsonValue) -> (non_empty: bool)
    ensures
        non_empty == (json_len(*v) > 0),
{
    json_collection_len(v) > 0
}

fn window_title(window: &Window) -> (title: Option<String>)
    ensures
        model::opt_view(title) == shown_title(*window),
{
    let title = text::trim(window.title.as_str());
    if title.as_str().unicode_len() == 0 {
        None
    } else {
        Some(title)
    }
}

fn titles_of(windows: &Vec<Window>) -> (titles: Vec<String>)
    ensures
        model::seq_view(titles@) == shown_titles(windows@),
{
    let mut titles: Vec<String> = Vec::new();
    let mut i: usize = 0;
    proof {
        reveal(Seq::filter_map);
        assert(model::seq_view(titles@) =~= shown_titles(windows@.take(0)));
    }
    while i < windows.len()
        invariant
            i <= windows@.len(),
            model::seq_view(titles@) == shown_titles(windows@.take(i as int)),
        decreases windows@.len() - i,
    {
        let ghost prior = titles@;
        proof {
            reveal(Seq::filter_map);
            assert(windows@.take(i + 1).drop_last() =~= windows@.take(i as int));
        }
        if let Some(title) = window_title(&windows[i]) {
            titles.push(title);
            proof {
                assert(model::seq_view(titles@) =~= model::seq_view(prior) + seq![title@]);
            }
        }
        i += 1;
    }
    proof {
        assert(windows@.take(windows@.len() as int) =~= windows@);
    }
    titles
}

impl WindowCollection {
    /// How many windows the collection holds.
    pub fn len(&self) -> (n: usize)
        ensures
            n == collection_len(*self),
    {
        match self {
            WindowCollection::Ring(ring) => ring.len(),
            WindowCollection::Array(windows) => windows.len(),
            WindowCollection::Other(value) => json_collection_len(value),
        }
    }

    /// The titles of the windows that have one.
    pub fn titles(&self) -> (titles: Vec<String>)
        ensures
            model::seq_view(titles@) == shown_titles(windows_in(*self)),
    {
        match self {
            WindowCollection::Ring(ring) => titles_of(&ring.elements),
            WindowCollection::Array(windows) => titles_of(windows),
            WindowCollection::Other(_) => {
                let titles: Vec<String> = Vec::new();
                proof {
                    reveal(Seq::filter_map);
                    assert(model::seq_view(titles@) =~= shown_titles(Seq::empty()));
                }
                titles
            },
        }
    }
}

/// The titles of the windows of a container that have one.
pub fn container_titles(container: &Container) -> (titles: Vec<String>)
    ensures
        model::seq_view(titles@) == shown_titles(container.windows.elements@),
{
    titles_of(&container.windows.elements)
}

// ---------------------------------------------------------------------------
// Laws
// ---------------------------------------------------------------------------

/// The member of an object is the first one with the name, where one has it.
pub proof fn law_members_are_found_by_name(members: Seq<(String, JsonValue)>, name: Seq<char>)
    ensures
        match member(members, name) {
            Some(value) => exists|i: int|
                0 <= i < members.len() && (#[trigger] members[i]).0@ == name && members[i].1
                    == value && forall|j: int| 0 <= j < i ==> (#[trigger] members[j]).0@ != name,
            None => forall|i: int| 0 <= i < members.len() ==> (#[trigger] members[i]).0@ != name,
        },
    decreases members.len(),
{
    if members.len() > 0 && members[0].0@ != name {
        let rest = members.skip(1);
        law_members_are_found_by_name(rest, name);
        assert forall|i: int| 1 <= i < members.len() implies (#[trigger] members[i]) == rest[i
            - 1] by {}
        match member(rest, name) {
            Some(value) => {
                let i = choose|i: int|
                    0 <= i < rest.len() && (#[trigger] rest[i]).0@ == name && rest[i].1 == value
                        && forall|j: int| 0 <= j < i ==> (#[trigger] rest[j]).0@ != name;
                assert(members[i + 1].0@ == name);
                assert forall|j: int| 0 <= j < i + 1 implies (#[trigger] members[j]).0@
                    != name by {
                    if j > 0 {
                        assert(rest[j - 1].0@ != name);
                    }
                }
            },
            None => {
                assert forall|i: int| 0 <= i < members.len() implies (#[trigger] members[i]).0@
                    != name by {
                    if i > 0 {
                        assert(rest[i - 1].0@ != name);
                    }
                }
            },
        }
    }
}

/// A collection of another shape counts the items of an array, or of the array
/// that an object holds as its elements, and nothing else.
pub proof fn law_other_collections_are_counted(v: JsonValue)
    ensures
        v matches JsonValue::Array(items) ==> json_len(v) == items@.len(),
        v matches JsonValue::Object(members) ==> (match member(members@, "elements"@) {
            Some(JsonValue::Array(items)) => json_len(v) == items@.len(),
            _ => json_len(v) == 0,
        }),
        !(v is Array) && !(v is Object) ==> json_len(v) == 0,
{
}

/// The titles of two lists of windows are those of the one and then those of the
/// other, and a window has a title where something is left of it once it is
/// trimmed.
pub proof fn law_titles_are_listed_in_order(a: Seq<Window>, b: Seq<Window>, window: Window)
    ensures
        shown_titles(a + b) == shown_titles(a) + shown_titles(b),
        shown_titles(seq![window]) == if text::trimmed(window.title@).len() > 0 {
            seq![text::trimmed(window.title@)]
        } else {
            Seq::empty()
        },
    decreases b.len(),
{
    reveal_with_fuel(Seq::filter_map, 2);
    assert(seq![window].drop_last() =~= Seq::empty());
    assert(shown_titles(seq![window]) =~= if text::trimmed(window.title@).len() > 0 {
        seq![text::trimmed(window.title@)]
    } else {
        Seq::empty()
    });
    if b.len() == 0 {
        assert(a + b =~= a);
        assert(shown_titles(a) + shown_titles(b) =~= shown_titles(a));
    } else {
        assert((a + b).drop_last() =~= a + b.drop_last());
        law_titles_are_listed_in_order(a, b.drop_last(), window);
        assert(shown_titles(a + b) =~= shown_titles(a) + shown_titles(b));
    }
}

/// A collection of windows has the windows of its ring or of its array.
pub proof fn law_collections_have_their_windows(ring: Ring<Window>, list: Vec<Window>)
    ensures
        windows_in(WindowCollection::Ring(ring)) == ring.elements@,
        windows_in(WindowCollection::Array(list)) == list@,
        collection_len(WindowCollection::Ring(ring)) == ring.elements@.len(),
        collection_len(WindowCollection::Array(list)) == list@.len(),
{
}

} // verus!
