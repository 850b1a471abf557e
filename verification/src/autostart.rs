//! Per-user "launch on logon" toggle.
//!
//! The toggle is a string value in the registry key that lists what is launched
//! when the current user logs on. Its name identifies the application, and its
//! data is the quoted absolute path to the executable.

use vstd::prelude::*;

use crate::model;
use crate::text;

verus! {

/// Registry key, below the current user's root, that lists the launchers.
pub const RUN_KEY: &'static str = "Software\\Microsoft\\Windows\\CurrentVersion\\Run";

/// Name of the application's value in that key.
pub const VALUE_NAME: &'static str = "komorebi-tray-grid";

/// Why the toggle could not be changed.
#[derive(Debug, Copy, Clone, PartialEq, Eq, Structural)]
pub enum AutostartError {
    /// The path of the running executable is not known.
    NoExecutable,
    /// The registry key cannot be opened for writing.
    OpenKey,
    /// The value cannot be written.
    Write,
    /// The value cannot be deleted.
    Delete,
}

/// What came of deleting the value.
#[derive(Debug, Copy, Clone, PartialEq, Eq, Structural)]
pub enum DeleteOutcome {
    Deleted,
    /// There was no value.
    NotFound,
    Failed,
}

/// Whether autostart is enabled when this value is stored.
pub open spec fn enabled_by(stored: Option<Seq<char>>) -> bool {
    stored is Some
}

/// `true` when an autostart entry exists, whatever it points at. `stored` is
/// the value as far as it can be read.
pub fn is_enabled(stored: &Option<String>) -> (enabled: bool)
    ensures
        enabled == enabled_by(model::opt_view(*stored)),
{
    stored.is_some()
}

/// The data of the autostart entry for the running executable.
pub fn enable(exe: Option<&str>) -> (data: Result<String, AutostartError>)
    ensures
        match exe {
            Some(path) => data matches Ok(d) && d@ == quoted(path@),
            None => data matches Err(AutostartError::NoExecutable),
        },
{
    match exe {
        Some(path) => Ok(quoted_path(path)),
        None => Err(AutostartError::NoExecutable),
    }
}

/// What removing the autostart entry comes to. A missing entry is no error.
pub open spec fn removal(outcome: DeleteOutcome) -> Result<(), AutostartError> {
    match outcome {
        DeleteOutcome::Deleted => Ok(()),
        DeleteOutcome::NotFound => Ok(()),
        DeleteOutcome::Failed => Err(AutostartError::Delete),
    }
}

/// Computes [`removal`].
pub fn disable(outcome: DeleteOutcome) -> (result: Result<(), AutostartError>)
    ensures
        result == removal(outcome),
{
    match outcome {
        DeleteOutcome::Deleted => Ok(()),
        DeleteOutcome::NotFound => Ok(()),
        DeleteOutcome::Failed => Err(AutostartError::Delete),
    }
}

/// The state that is in effect after `enabled` was asked for: that state, or
/// where the change has failed the one that is stored.
pub open spec fn in_effect(
    enabled: bool,
    result: Result<(), AutostartError>,
    stored: Option<Seq<char>>,
) -> bool {
    if result is Ok {
        enabled
    } else {
        enabled_by(stored)
    }
}

/// Computes [`in_effect`]. `stored` is the value after the change.
pub fn set_enabled(enabled: bool, result: Result<(), AutostartError>, stored: &Option<String>) -> (
applied: bool)
    ensures
        applied == in_effect(enabled, result, model::opt_view(*stored)),
{
    match result {
        Ok(()) => enabled,
        Err(_) => is_enabled(stored),
    }
}

/// A text with every quote doubled.
pub open spec fn escaped(s: Seq<char>) -> Seq<char>
    decreases s.len(),
{
    if s.len() == 0 {
        s
    } else if s.last() == '"' {
        escaped(s.drop_last()) + seq!['"', '"']
    } else {
        escaped(s.drop_last()).push(s.last())
    }
}

/// A text in quotes, with every quote in it doubled.
pub open spec fn quoted(s: Seq<char>) -> Seq<char> {
    seq!['"'] + escaped(s) + seq!['"']
}

/// Wraps a path in double quotes, doubling any embedded quotes, so that the
/// command line is parsed as a single argument.
pub fn quoted_path(path: &str) -> (data: String)
    ensures
        data@ == quoted(path@),
{
    let chars: Vec<char> = text::chars_of(path);
    let mut data = String::new();
    data.push('"');
    let mut i: usize = 0;
    proof {
        assert(data@ =~= seq!['"'] + escaped(chars@.take(0)));
    }
    while i < chars.len()
        invariant
            chars@ == path@,
            i <= chars@.len(),
            data@ == seq!['"'] + escaped(chars@.take(i as int)),
        decreases chars@.len() - i,
    {
        let c: char = chars[i];
        if c == '"' {
            data.push('"');
        }
        data.push(c);
        proof {
            let next = chars@.take(i + 1);
            assert(next.drop_last() =~= chars@.take(i as int));
            assert(next.last() == c);
            assert(data@ =~= seq!['"'] + escaped(next));
        }
        i += 1;
    }
    data.push('"');
    proof {
        assert(chars@.take(chars@.len() as int) =~= chars@);
        assert(data@ =~= quoted(path@));
    }
    data
}

// ---------------------------------------------------------------------------
// Laws
// ---------------------------------------------------------------------------

/// Deleting a stored value can come to this: there is nothing to find exactly
/// where nothing is stored, and it can always fail.
pub open spec fn can_come_of_deleting(stored: Option<Seq<char>>, outcome: DeleteOutcome) -> bool {
    match outcome {
        DeleteOutcome::Deleted => stored is Some,
        DeleteOutcome::NotFound => stored is None,
        DeleteOutcome::Failed => true,
    }
}

/// What is stored after a deletion. One that has failed changes nothing.
pub open spec fn after_deleting(stored: Option<Seq<char>>, outcome: DeleteOutcome) -> Option<
    Seq<char>,
> {
    match outcome {
        DeleteOutcome::Deleted => None,
        DeleteOutcome::NotFound => stored,
        DeleteOutcome::Failed => stored,
    }
}

/// What is stored after autostart was asked to be `enabled` with this data. A
/// change that has failed changes nothing.
pub open spec fn after_switching(
    enabled: bool,
    result: Result<(), AutostartError>,
    stored: Option<Seq<char>>,
    data: Seq<char>,
) -> Option<Seq<char>> {
    if result is Err {
        stored
    } else if enabled {
        Some(data)
    } else {
        None
    }
}

/// A removal fails only where the deletion fails. After one that has succeeded
/// autostart is not enabled, and a second one succeeds too, unless the deletion
/// fails, and changes nothing.
pub proof fn law_removal_lasts(
    stored: Option<Seq<char>>,
    first: DeleteOutcome,
    second: DeleteOutcome,
)
    requires
        can_come_of_deleting(stored, first),
        can_come_of_deleting(after_deleting(stored, first), second),
    ensures
        removal(first) is Err <==> first == DeleteOutcome::Failed,
        stored is None && first != DeleteOutcome::Failed ==> removal(first) is Ok,
        removal(first) is Ok ==> {
            &&& !enabled_by(after_deleting(stored, first))
            &&& removal(second) is Ok <==> second == DeleteOutcome::NotFound
            &&& after_deleting(after_deleting(stored, first), second) == after_deleting(
                stored,
                first,
            )
        },
{
}

/// Switching reports the state that is stored afterwards: the one that was asked
/// for where it has succeeded, and else the one from before.
pub proof fn law_switching_reports_what_is_stored(
    enabled: bool,
    result: Result<(), AutostartError>,
    stored: Option<Seq<char>>,
    data: Seq<char>,
)
    ensures
        ({
            let after = after_switching(enabled, result, stored, data);
            &&& in_effect(enabled, result, after) == enabled_by(after)
            &&& result is Ok ==> in_effect(enabled, result, after) == enabled
            &&& result is Err ==> in_effect(enabled, result, after) == enabled_by(stored)
        }),
{
}

/// Switching autostart off by deleting the value leaves what the deletion
/// leaves.
pub proof fn law_switching_off_deletes(
    stored: Option<Seq<char>>,
    outcome: DeleteOutcome,
    data: Seq<char>,
)
    requires
        can_come_of_deleting(stored, outcome),
    ensures
        after_switching(false, removal(outcome), stored, data) == after_deleting(stored, outcome),
{
}

/// A text with every pair of quotes replaced by one.
pub open spec fn unescaped(s: Seq<char>) -> Seq<char>
    decreases s.len(),
{
    if s.len() == 0 {
        s
    } else if s.last() == '"' && s.len() >= 2 {
        unescaped(s.drop_last().drop_last()).push('"')
    } else {
        unescaped(s.drop_last()).push(s.last())
    }
}

/// The path can be read back from its escaped form, so different paths give
/// different entries.
pub proof fn law_escaped_path_reads_back(s: Seq<char>)
    ensures
        unescaped(escaped(s)) == s,
    decreases s.len(),
{
    if s.len() > 0 {
        let rest = s.drop_last();
        law_escaped_path_reads_back(rest);
        assert(s =~= rest.push(s.last()));
        let e = escaped(s);
        if s.last() == '"' {
            assert(e.drop_last().drop_last() =~= escaped(rest));
        } else {
            assert(e.drop_last() =~= escaped(rest));
        }
    }
}

/// A path is put in quotes. A path without quotes is put there as it is, a quote is
/// doubled, and two texts are escaped one after the other.
pub proof fn law_paths_are_quoted(a: Seq<char>, b: Seq<char>)
    ensures
        quoted(a).len() == escaped(a).len() + 2,
        quoted(a)[0] == '"',
        quoted(a).last() == '"',
        quoted(a).subrange(1, quoted(a).len() - 1) == escaped(a),
        !a.contains('"') ==> escaped(a) == a,
        escaped(seq!['"']) == seq!['"', '"'],
        escaped(a + b) == escaped(a) + escaped(b),
    decreases b.len(),
{
    assert(quoted(a).subrange(1, quoted(a).len() - 1) =~= escaped(a));
    lemma_without_quotes(a);
    reveal_with_fuel(escaped, 2);
    assert(seq!['"'].drop_last() =~= Seq::<char>::empty());
    assert(escaped(seq!['"']) =~= seq!['"', '"']);
    if b.len() == 0 {
        assert(a + b =~= a);
        assert(escaped(a) + escaped(b) =~= escaped(a));
    } else {
        assert((a + b).drop_last() =~= a + b.drop_last());
        law_paths_are_quoted(a, b.drop_last());
        assert(escaped(a + b) =~= escaped(a) + escaped(b));
    }
}

proof fn lemma_without_quotes(s: Seq<char>)
    ensures
        !s.contains('"') ==> escaped(s) == s,
    decreases s.len(),
{
    if s.len() > 0 && !s.contains('"') {
        let rest = s.drop_last();
        if rest.contains('"') {
            let i = choose|i: int| 0 <= i < rest.len() && rest[i] == '"';
            assert(s[i] == '"');
        }
        lemma_without_quotes(rest);
        assert(s[s.len() - 1] != '"');
        assert(rest.push(s.last()) =~= s);
    }
}

/// Autostart is enabled exactly where an entry is stored.
pub proof fn law_an_entry_enables_autostart(data: Seq<char>)
    ensures
        enabled_by(Some(data)),
        !enabled_by(None),
{
}

} // verus!
