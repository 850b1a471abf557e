//! Paths of the files that the application uses.

use vstd::prelude::*;

use crate::model;
use crate::text;

verus! {

/// The two characters that separate the parts of a path.
pub open spec fn is_separator(c: char) -> bool {
    c == '\\' || c == '/'
}

/// A drive without a path on it, such as `C:`.
pub open spec fn is_drive(path: Seq<char>) -> bool {
    path.len() == 2 && path[1] == ':' && ('a' <= path[0] <= 'z' || 'A' <= path[0] <= 'Z')
}

/// A name that is one part of a path: it has no separators and does not start
/// with a drive.
pub open spec fn is_plain_name(name: Seq<char>) -> bool {
    &&& forall|i: int| 0 <= i < name.len() ==> !is_separator(#[trigger] name[i])
    &&& name.len() >= 2 ==> !is_drive(name.take(2))
}

/// A path with a verbatim prefix. In such a path only backslashes separate the
/// parts.
pub open spec fn is_verbatim(path: Seq<char>) -> bool {
    "\\\\?\\"@.is_prefix_of(path)
}

/// How many of the parts behind the verbatim prefix name the volume: the server
/// and the share of a network path, and else the first part.
pub open spec fn volume_parts(parts: Seq<Seq<char>>) -> int {
    if parts.len() >= 2 && parts[0] == "UNC"@ {
        if parts.len() >= 3 && parts[2].len() > 0 {
            3
        } else {
            2
        }
    } else {
        1
    }
}

/// Normalized parts of a path with one more part: an empty part or a single dot
/// is dropped, and two dots are dropped with the part before them.
pub open spec fn with_part(before: Seq<Seq<char>>, part: Seq<char>) -> Seq<Seq<char>> {
    if part.len() == 0 || part == "."@ {
        before
    } else if part == ".."@ {
        if before.len() > 0 {
            before.drop_last()
        } else {
            before
        }
    } else {
        before.push(part)
    }
}

/// Parts of a path without the ones that lead nowhere.
pub open spec fn normalized(parts: Seq<Seq<char>>) -> Seq<Seq<char>>
    decreases parts.len(),
{
    if parts.len() == 0 {
        parts
    } else {
        with_part(normalized(parts.drop_last()), parts.last())
    }
}

/// Parts of a path, each behind a backslash.
pub open spec fn separated(parts: Seq<Seq<char>>) -> Seq<char>
    decreases parts.len(),
{
    if parts.len() == 0 {
        Seq::empty()
    } else {
        separated(parts.drop_last()) + "\\"@ + parts.last()
    }
}

/// A path with a verbatim prefix with a name appended. The volume is kept, and
/// what is below it is normalized.
pub open spec fn joined_verbatim(path: Seq<char>, name: Seq<char>) -> Seq<char> {
    let parts = text::parts_between(path.skip(4), '\\');
    let n = volume_parts(parts);
    let below = normalized(parts.skip(n).push(name));
    "\\\\?"@ + separated(parts.take(n)) + if below.len() == 0 && parts.len() > n {
        "\\"@
    } else {
        separated(below)
    }
}

/// A path with a name appended. A separator comes between the two, unless the
/// path is empty, ends with one, or is a drive. A path with a verbatim prefix is
/// normalized on this occasion, unless the name is empty.
pub open spec fn joined(path: Seq<char>, name: Seq<char>) -> Seq<char> {
    if is_verbatim(path) && name.len() > 0 {
        joined_verbatim(path, name)
    } else if path.len() == 0 || is_separator(path.last()) || is_drive(path) {
        path + name
    } else {
        path + "\\"@ + name
    }
}

/// Appends parts to a text, each behind a backslash.
fn append_separated(text: &mut String, parts: &Vec<String>, from: usize, to: usize)
    requires
        from <= to <= parts@.len(),
    ensures
        final(text)@ == old(text)@ + separated(
            model::seq_view(parts@).subrange(from as int, to as int),
        ),
{
    let ghost views = model::seq_view(parts@);
    let ghost before = text@;
    let mut i: usize = from;
    proof {
        assert(text@ =~= before + separated(views.subrange(from as int, from as int)));
    }
    while i < to
        invariant
            from <= i <= to <= parts@.len(),
            views == model::seq_view(parts@),
            text@ == before + separated(views.subrange(from as int, i as int)),
        decreases to - i,
    {
        text.append("\\");
        text.append(parts[i].as_str());
        proof {
            let next = views.subrange(from as int, i + 1);
            assert(next.drop_last() =~= views.subrange(from as int, i as int));
            assert(next.last() == parts@[i as int]@);
            assert(text@ =~= before + separated(next));
        }
        i += 1;
    }
}

/// Adds a part to normalized ones.
fn add_part(parts: &mut Vec<String>, part: &str)
    ensures
        model::seq_view(final(parts)@) == with_part(model::seq_view(old(parts)@), part@),
{
    let ghost before = model::seq_view(parts@);
    proof {
        reveal_strlit("");
        assert(part@.len() == 0 ==> part@ =~= ""@);
    }
    if text::same_text(part, "") || text::same_text(part, ".") {
        return ;
    }
    if text::same_text(part, "..") {
        let _ = parts.pop();
        proof {
            if before.len() > 0 {
                assert(model::seq_view(parts@) =~= before.drop_last());
            } else {
                assert(model::seq_view(parts@) =~= before);
            }
        }
    } else {
        parts.push(part.to_owned());
        proof {
            assert(model::seq_view(parts@) =~= before.push(part@));
        }
    }
}

/// Computes [`joined_verbatim`].
fn join_verbatim(path: &str, name: &str) -> (joined_path: String)
    requires
        is_verbatim(path@),
    ensures
        joined_path@ == joined_verbatim(path@, name@),
{
    proof {
        reveal_strlit("\\\\?\\");
        assert("\\\\?\\"@.len() == 4);
    }
    let chars: Vec<char> = text::chars_of(path);
    let rest = text::string_of(&chars, 4, chars.len());
    proof {
        assert(rest@ =~= path@.skip(4));
    }
    let parts: Vec<String> = text::split(rest.as_str(), '\\');
    let ghost views = model::seq_view(parts@);
    proof {
        lemma_one_part_at_least(rest@, '\\');
        assert(views.len() == parts@.len());
        assert(forall|i: int| 0 <= i < views.len() ==> views[i] == (#[trigger] parts@[i])@);
    }
    let n: usize = if parts.len() >= 2 && text::same_text(parts[0].as_str(), "UNC") {
        if parts.len() >= 3 && !text::same_text(parts[2].as_str(), "") {
            3
        } else {
            2
        }
    } else {
        1
    };
    proof {
        reveal_strlit("");
        if views.len() >= 3 {
            assert(views[2].len() == 0 ==> views[2] =~= ""@);
        }
        assert(n == volume_parts(views));
    }
    let mut below: Vec<String> = Vec::new();
    let mut i: usize = n;
    proof {
        assert(model::seq_view(below@) =~= normalized(views.skip(n as int).take(0)));
    }
    while i < parts.len()
        invariant
            n <= i <= parts@.len(),
            views == model::seq_view(parts@),
            model::seq_view(below@) == normalized(views.skip(n as int).take(i - n)),
        decreases parts@.len() - i,
    {
        add_part(&mut below, parts[i].as_str());
        proof {
            let next = views.skip(n as int).take(i + 1 - n);
            assert(next.drop_last() =~= views.skip(n as int).take(i - n));
            assert(next.last() == parts@[i as int]@);
        }
        i += 1;
    }
    proof {
        assert(views.skip(n as int).take(i - n) =~= views.skip(n as int));
    }
    add_part(&mut below, name);
    let ghost bottom = normalized(views.skip(n as int).push(name@));
    proof {
        assert(views.skip(n as int).push(name@).drop_last() =~= views.skip(n as int));
    }
    let mut result = "\\\\?".to_owned();
    append_separated(&mut result, &parts, 0, n);
    proof {
        assert(views.subrange(0, n as int) =~= views.take(n as int));
    }
    if below.len() == 0 && parts.len() > n {
        result.append("\\");
    } else {
        append_separated(&mut result, &below, 0, below.len());
        proof {
            assert(model::seq_view(below@).subrange(0, below@.len() as int) =~= bottom);
        }
    }
    result
}

/// Splitting gives at least one part.
proof fn lemma_one_part_at_least(s: Seq<char>, separator: char)
    ensures
        text::parts_between(s, separator).len() >= 1,
    decreases s.len(),
{
    if s.len() > 0 {
        lemma_one_part_at_least(s.drop_last(), separator);
    }
}

/// Appends a name to a path.
pub fn join(path: &str, name: &str) -> (joined_path: String)
    requires
        is_plain_name(name@),
    ensures
        joined_path@ == joined(path@, name@),
{
    proof {
        reveal_strlit("");
        assert(name@.len() == 0 ==> name@ =~= ""@);
    }
    if text::starts_with(path, "\\\\?\\") && !text::same_text(name, "") {
        return join_verbatim(path, name);
    }
    let chars: Vec<char> = text::chars_of(path);
    let n: usize = chars.len();
    let bare: bool = n == 0 || chars[n - 1] == '\\' || chars[n - 1] == '/' || (n == 2 && chars[1]
        == ':' && (('a' <= chars[0] && chars[0] <= 'z') || ('A' <= chars[0] && chars[0] <= 'Z')));
    if bare {
        path.to_owned().concat(name)
    } else {
        path.to_owned().concat("\\").concat(name)
    }
}

/// Where the configuration is looked for, given the directory for roaming
/// application data.
pub open spec fn config_path(app_data: Option<Seq<char>>) -> Option<Seq<char>> {
    match app_data {
        Some(dir) => Some(joined(joined(dir, "komorebi-tray-grid"@), "config.json"@)),
        None => None,
    }
}

/// Computes [`config_path`].
pub fn default_config_path(app_data: Option<&str>) -> (path: Option<String>)
    ensures
        model::opt_view(path) == config_path(
            model::opt_view(app_data),
        ),
{
    match app_data {
        Some(dir) => {
            proof {
                reveal_strlit("komorebi-tray-grid");
                reveal_strlit("config.json");
            }
            Some(join(join(dir, "komorebi-tray-grid").as_str(), "config.json"))
        },
        None => None,
    }
}

/// The default log file: under the directory for local application data, or
/// else under the one for temporary files, or else under the current one.
pub open spec fn log_path(local: Option<Seq<char>>, temp: Option<Seq<char>>) -> Seq<char> {
    let base = match (local, temp) {
        (Some(dir), _) => dir,
        (None, Some(dir)) => dir,
        (None, None) => "."@,
    };
    joined(joined(base, "komorebi-tray-grid"@), "komorebi-tray-grid.log"@)
}

/// Computes [`log_path`].
pub fn default_log_path(local: Option<&str>, temp: Option<&str>) -> (path: String)
    ensures
        path@ == log_path(
            model::opt_view(local),
            model::opt_view(temp),
        ),
{
    let base: &str = match (local, temp) {
        (Some(dir), _) => dir,
        (None, Some(dir)) => dir,
        (None, None) => ".",
    };
    proof {
        reveal_strlit("komorebi-tray-grid");
        reveal_strlit("komorebi-tray-grid.log");
    }
    join(join(base, "komorebi-tray-grid").as_str(), "komorebi-tray-grid.log")
}

/// The file to which logs are written besides the standard error stream: none
/// where it is not asked for, the default one where it is asked for by `1`,
/// and else the one that is named.
pub fn log_file_path(wanted: Option<&str>, local: Option<&str>, temp: Option<&str>) -> (path:
    Option<String>)
    ensures
        model::opt_view(path) == (match wanted {
            Some(raw) => Some(
                if raw@ == "1"@ {
                    log_path(
                        model::opt_view(local),
                        model::opt_view(temp),
                    )
                } else {
                    raw@
                },
            ),
            None => None,
        }),
{
    match wanted {
        Some(raw) => if text::same_text(raw, "1") {
            Some(default_log_path(local, temp))
        } else {
            Some(raw.to_owned())
        },
        None => None,
    }
}

// ---------------------------------------------------------------------------
// Laws
// ---------------------------------------------------------------------------

/// What stands behind the last separator is the last part.
proof fn lemma_last_part(s: Seq<char>, t: Seq<char>, separator: char)
    requires
        forall|i: int| 0 <= i < t.len() ==> #[trigger] t[i] != separator,
    ensures
        text::parts_between(s.push(separator) + t, separator) == text::parts_between(
            s,
            separator,
        ).push(t),
    decreases t.len(),
{
    let whole = s.push(separator) + t;
    if t.len() == 0 {
        assert(whole.drop_last() =~= s);
        assert(t =~= Seq::<char>::empty());
    } else {
        let rest = t.drop_last();
        lemma_last_part(s, rest, separator);
        assert(whole.drop_last() =~= s.push(separator) + rest);
        assert(whole.last() == t.last());
        assert(rest.push(t.last()) =~= t);
        let before = text::parts_between(s, separator);
        assert(before.push(rest).drop_last() =~= before);
    }
}

/// A text without separators is one part.
proof fn lemma_single_part(t: Seq<char>, separator: char)
    requires
        forall|i: int| 0 <= i < t.len() ==> #[trigger] t[i] != separator,
    ensures
        text::parts_between(t, separator) == seq![t],
    decreases t.len(),
{
    if t.len() > 0 {
        lemma_single_part(t.drop_last(), separator);
        assert(t.drop_last().push(t.last()) =~= t);
        assert(text::parts_between(t, separator) =~= seq![t]);
    } else {
        assert(t =~= Seq::<char>::empty());
    }
}

/// A name that leads to something of its own.
pub open spec fn is_proper_name(name: Seq<char>) -> bool {
    is_plain_name(name) && name.len() > 0 && name != "."@ && name != ".."@
}

/// A path behind whose last separator, if there is one, stands this name.
pub open spec fn leads_to(path: Seq<char>, name: Seq<char>) -> bool {
    exists|above: Seq<char>|
        path == #[trigger] (above + name) && (above.len() == 0 || is_separator(above.last())
            || is_drive(above))
}

/// Joining a name to a path leads to that name.
pub proof fn law_joined_path_leads_to_its_name(path: Seq<char>, name: Seq<char>)
    requires
        is_proper_name(name),
    ensures
        leads_to(joined(path, name), name),
{
    reveal_strlit("\\");
    if is_verbatim(path) {
        let above = lemma_verbatim_path_above(path, name);
        assert(joined(path, name) == above.push('\\') + name);
        assert(is_separator(above.push('\\').last()));
    } else if path.len() == 0 || is_separator(path.last()) || is_drive(path) {
        assert(joined(path, name) == path + name);
    } else {
        assert(joined(path, name) == (path + "\\"@) + name);
        assert((path + "\\"@).last() == '\\');
    }
}

/// What stands above the name in a path with a verbatim prefix: the prefix, the
/// volume, and the normalized parts.
proof fn lemma_verbatim_path_above(path: Seq<char>, name: Seq<char>) -> (above: Seq<char>)
    requires
        is_verbatim(path),
        is_proper_name(name),
    ensures
        joined(path, name) == above.push('\\') + name,
        ({
            let parts = text::parts_between(path.skip(4), '\\');
            let n = volume_parts(parts);
            above == "\\\\?"@ + separated(parts.take(n)) + separated(normalized(parts.skip(n)))
        }),
{
    reveal_strlit("\\");
    let parts = text::parts_between(path.skip(4), '\\');
    let n = volume_parts(parts);
    let rest = parts.skip(n);
    assert(rest.push(name).drop_last() =~= rest);
    let below = normalized(rest.push(name));
    assert(below == normalized(rest).push(name));
    assert(below.drop_last() =~= normalized(rest));
    let above = "\\\\?"@ + separated(parts.take(n)) + separated(normalized(rest));
    assert("\\\\?"@ + separated(parts.take(n)) + (separated(normalized(rest)) + "\\"@ + name)
        =~= above.push('\\') + name);
    above
}

/// A name that was joined to a path is the last part of the result, where that
/// has a verbatim prefix.
proof fn lemma_name_is_last_part(path: Seq<char>, name: Seq<char>)
    requires
        is_proper_name(name),
        is_verbatim(joined(path, name)),
    ensures
        text::parts_between(joined(path, name).skip(4), '\\').len() >= 1,
        text::parts_between(joined(path, name).skip(4), '\\').last() == name,
{
    reveal_strlit("\\");
    reveal_strlit("\\\\?");
    reveal_strlit("\\\\?\\");
    let prefix = "\\\\?\\"@;
    let whole = joined(path, name);
    assert(forall|i: int| 0 <= i < name.len() ==> !is_separator(#[trigger] name[i]));
    assert(forall|i: int| 0 <= i < 4 ==> whole[i] == prefix[i]) by {
        assert(whole.subrange(0, 4) == prefix);
        assert forall|i: int| 0 <= i < 4 implies whole[i] == prefix[i] by {
            assert(whole.subrange(0, 4)[i] == whole[i]);
        }
    }
    if is_verbatim(path) {
        let above = lemma_verbatim_path_above(path, name);
        let parts = text::parts_between(path.skip(4), '\\');
        lemma_one_part_at_least(path.skip(4), '\\');
        assert(parts.take(volume_parts(parts)).len() >= 1);
        assert(above.len() >= 4);
        assert(whole.skip(4) =~= above.skip(4).push('\\') + name);
        lemma_last_part(above.skip(4), name, '\\');
    } else {
        if path.len() >= 4 {
            assert forall|i: int| 0 <= i < 4 implies path[i] == prefix[i] by {
                assert(whole[i] == path[i]);
            }
            assert(path.subrange(0, 4) =~= prefix);
        }
        assert(path.len() < 4);
        assert(whole[0] == '\\' && whole[1] == '\\' && whole[2] == '?' && whole[3] == '\\');
        if path.len() == 0 || is_separator(path.last()) || is_drive(path) {
            assert(whole == path + name);
            assert(whole[3] == name[3 - path.len()]);
        } else {
            assert(whole == path + "\\"@ + name);
            if path.len() < 3 {
                assert(whole[3] == name[2 - path.len()]);
            }
            assert(whole.skip(4) =~= name);
            lemma_single_part(name, '\\');
        }
    }
}

/// Joining two names to a path gives a path that ends with the two and a
/// separator between them.
pub proof fn law_names_are_joined_one_below_the_other(
    path: Seq<char>,
    first: Seq<char>,
    second: Seq<char>,
)
    requires
        is_proper_name(first),
        is_proper_name(second),
    ensures
        exists|above: Seq<char>|
            joined(joined(path, first), second) == #[trigger] (above + (first + "\\"@ + second)),
{
    reveal_strlit("\\");
    let dir = joined(path, first);
    let end = first + "\\"@ + second;
    if is_verbatim(dir) {
        let above = lemma_verbatim_path_above(dir, second);
        lemma_name_is_last_part(path, first);
        let parts = text::parts_between(dir.skip(4), '\\');
        let n = volume_parts(parts);
        let rest = parts.skip(n);
        if n < parts.len() {
            assert(rest.last() == first);
            let below = normalized(rest);
            assert(below == normalized(rest.drop_last()).push(first));
            let top = "\\\\?"@ + separated(parts.take(n)) + separated(below.drop_last()) + "\\"@;
            assert(above =~= top + first);
            assert(joined(dir, second) =~= top + end);
        } else {
            assert(parts.take(n) =~= parts);
            assert(normalized(rest) =~= Seq::<Seq<char>>::empty());
            let top = "\\\\?"@ + separated(parts.drop_last()) + "\\"@;
            assert(above =~= top + first);
            assert(joined(dir, second) =~= top + end);
        }
    } else {
        law_joined_path_leads_to_its_name(path, first);
        let head = choose|head: Seq<char>|
            dir == #[trigger] (head + first) && (head.len() == 0 || is_separator(head.last())
                || is_drive(head));
        assert(dir.last() == first[first.len() - 1]);
        assert(!is_separator(dir.last()));
        assert(!is_drive(dir)) by {
            if is_drive(dir) && head.len() == 0 {
                assert(dir =~= first.take(2));
            }
        }
        assert(joined(dir, second) =~= head + end);
    }
}

/// A name is appended to a path without a verbatim prefix behind a backslash, unless
/// the path is empty, ends with a separator, or is a drive letter and a colon.
pub proof fn law_names_are_appended(path: Seq<char>, name: Seq<char>)
    requires
        !"\\\\?\\"@.is_prefix_of(path),
    ensures
        ({
            let n = path.len() as int;
            let drive = n == 2 && path[1] == ':' && ('a' <= path[0] <= 'z' || 'A' <= path[0]
                <= 'Z');
            if n == 0 || path[n - 1] == '\\' || path[n - 1] == '/' || drive {
                joined(path, name) == path + name
            } else {
                joined(path, name) == path + seq!['\\'] + name
            }
        }),
{
    reveal_strlit("\\");
    assert("\\"@ =~= seq!['\\']);
}

/// The configuration file lies in the directory for roaming application data, two
/// levels down; without that directory there is none.
pub proof fn law_the_configuration_lies_in_its_directory(dir: Seq<char>)
    ensures
        config_path(None) is None,
        config_path(Some(dir)) is Some,
        exists|above: Seq<char>|
            config_path(Some(dir))->0 == #[trigger] (above
                + "komorebi-tray-grid\\config.json"@),
{
    reveal_strlit("komorebi-tray-grid");
    reveal_strlit("config.json");
    reveal_strlit("komorebi-tray-grid\\config.json");
    reveal_strlit(".");
    reveal_strlit("..");
    reveal_strlit("\\");
    let first = "komorebi-tray-grid"@;
    let second = "config.json"@;
    law_names_are_joined_one_below_the_other(dir, first, second);
    assert(first + "\\"@ + second =~= "komorebi-tray-grid\\config.json"@);
}

/// The log file lies, two levels down, in the directory for local application data,
/// or else in the one for temporary files, or else in the current one.
pub proof fn law_the_log_lies_in_its_directory(local: Seq<char>, temp: Option<Seq<char>>)
    ensures
        log_path(Some(local), temp) == joined(
            joined(local, "komorebi-tray-grid"@),
            "komorebi-tray-grid.log"@,
        ),
        log_path(None, Some(local)) == log_path(Some(local), temp),
        log_path(None, None) == log_path(Some("."@), temp),
{
}

/// Normalizing drops empty parts and single dots, and two dots with what is before
/// them, and keeps every other part.
pub proof fn law_normalizing_drops_what_leads_nowhere(parts: Seq<Seq<char>>, part: Seq<char>)
    ensures
        normalized(parts.push(Seq::empty())) == normalized(parts),
        normalized(parts.push(seq!['.'])) == normalized(parts),
        normalized(parts.push(seq!['.', '.'])) == if normalized(parts).len() > 0 {
            normalized(parts).drop_last()
        } else {
            normalized(parts)
        },
        part.len() > 0 && part != seq!['.'] && part != seq!['.', '.'] ==> normalized(
            parts.push(part),
        ) == normalized(parts).push(part),
{
    reveal_strlit(".");
    reveal_strlit("..");
    assert("."@ =~= seq!['.']);
    assert(".."@ =~= seq!['.', '.']);
    assert(parts.push(part).drop_last() =~= parts);
    assert(parts.push(Seq::empty()).drop_last() =~= parts);
    assert(parts.push(seq!['.']).drop_last() =~= parts);
    assert(parts.push(seq!['.', '.']).drop_last() =~= parts);
    assert(seq!['.'].len() == 1 && seq!['.', '.'].len() == 2);
}

proof fn lemma_separated(parts: Seq<Seq<char>>)
    requires
        parts.len() > 0,
    ensures
        separated(parts) == seq!['\\'] + text::rejoined(parts, '\\'),
    decreases parts.len(),
{
    reveal_strlit("\\");
    if parts.len() == 1 {
        reveal_with_fuel(separated, 2);
        assert(separated(parts) =~= seq!['\\'] + parts[0]);
    } else {
        lemma_separated(parts.drop_last());
        assert(separated(parts) =~= seq!['\\'] + text::rejoined(parts, '\\'));
    }
}

proof fn lemma_separated_add(a: Seq<Seq<char>>, b: Seq<Seq<char>>)
    ensures
        separated(a + b) == separated(a) + separated(b),
    decreases b.len(),
{
    if b.len() == 0 {
        assert(a + b =~= a);
        assert(separated(a) + separated(b) =~= separated(a));
    } else {
        assert((a + b).drop_last() =~= a + b.drop_last());
        lemma_separated_add(a, b.drop_last());
        assert(separated(a + b) =~= separated(a) + separated(b));
    }
}

proof fn lemma_nothing_to_normalize(parts: Seq<Seq<char>>)
    requires
        forall|i: int|
            0 <= i < parts.len() ==> (#[trigger] parts[i]).len() > 0 && parts[i] != "."@ && parts[i]
                != ".."@,
    ensures
        normalized(parts) == parts,
    decreases parts.len(),
{
    if parts.len() > 0 {
        let rest = parts.drop_last();
        assert forall|i: int| 0 <= i < rest.len() implies (#[trigger] rest[i]).len() > 0 && rest[i]
            != "."@ && rest[i] != ".."@ by {
            assert(rest[i] == parts[i]);
        }
        lemma_nothing_to_normalize(rest);
        assert(parts[parts.len() - 1] == parts.last());
        assert(rest.push(parts.last()) =~= parts);
    }
}

/// A path with a verbatim prefix whose parts all lead somewhere is kept, and the name
/// is appended to it behind a backslash.
pub proof fn law_normal_verbatim_paths_are_kept(path: Seq<char>, name: Seq<char>)
    requires
        is_verbatim(path),
        is_proper_name(name),
        forall|i: int|
            0 <= i < text::parts_between(path.skip(4), '\\').len() ==> (
            #[trigger] text::parts_between(path.skip(4), '\\')[i]).len() > 0
                && text::parts_between(path.skip(4), '\\')[i] != "."@ && text::parts_between(
                path.skip(4),
                '\\',
            )[i] != ".."@,
    ensures
        joined(path, name) == path + seq!['\\'] + name,
{
    reveal_strlit("\\\\?\\");
    reveal_strlit("\\\\?");
    let prefix = "\\\\?\\"@;
    let parts = text::parts_between(path.skip(4), '\\');
    let n = volume_parts(parts);
    let rest = parts.skip(n);
    let above = lemma_verbatim_path_above(path, name);
    text::law_parts_between_make_up_the_text(path.skip(4), '\\');
    assert forall|i: int| 0 <= i < rest.len() implies (#[trigger] rest[i]).len() > 0 && rest[i]
        != "."@ && rest[i] != ".."@ by {
        assert(rest[i] == parts[n + i]);
    }
    lemma_nothing_to_normalize(rest);
    lemma_separated_add(parts.take(n), rest);
    assert(parts.take(n) + rest =~= parts);
    lemma_separated(parts);
    assert(path.subrange(0, 4) == prefix);
    assert(path =~= prefix + path.skip(4));
    assert("\\\\?"@ + seq!['\\'] =~= prefix);
    assert(above =~= path) by {
        assert(above =~= "\\\\?"@ + (seq!['\\'] + path.skip(4)));
    }
    assert(joined(path, name) =~= path + seq!['\\'] + name);
}

/// No name and no two dots lead out of the volume of a path with a verbatim prefix.
pub proof fn law_volumes_are_kept(path: Seq<char>, name: Seq<char>)
    requires
        is_verbatim(path),
        name.len() > 0,
    ensures
        ({
            let parts = text::parts_between(path.skip(4), '\\');
            let network = parts.len() >= 3 && parts[0] == "UNC"@ && parts[2].len() > 0;
            let volume = if network {
                "\\\\?\\UNC\\"@ + parts[1] + "\\"@ + parts[2]
            } else {
                "\\\\?\\"@ + parts[0]
            };
            volume.is_prefix_of(joined(path, name))
        }),
{
    reveal_strlit("\\");
    reveal_strlit("UNC");
    reveal_strlit("\\\\?");
    reveal_strlit("\\\\?\\");
    reveal_strlit("\\\\?\\UNC\\");
    lemma_one_part_at_least(path.skip(4), '\\');
    let parts = text::parts_between(path.skip(4), '\\');
    let n = volume_parts(parts);
    let whole = joined(path, name);
    let start = "\\\\?"@ + separated(parts.take(n));
    let network = parts.len() >= 3 && parts[0] == "UNC"@ && parts[2].len() > 0;
    assert(whole.subrange(0, start.len() as int) =~= start);
    reveal_with_fuel(separated, 4);
    if network {
        let three = parts.take(3);
        assert(three.drop_last() =~= parts.take(2));
        assert(three.drop_last().drop_last() =~= parts.take(1));
        assert(three.drop_last().drop_last().drop_last() =~= Seq::<Seq<char>>::empty());
        let volume = "\\\\?\\UNC\\"@ + parts[1] + "\\"@ + parts[2];
        assert(start =~= volume);
    } else {
        let volume = "\\\\?\\"@ + parts[0];
        assert(parts.take(1).drop_last() =~= Seq::<Seq<char>>::empty());
        if n == 1 {
            assert(start =~= volume);
        } else {
            assert(parts.take(2).drop_last() =~= parts.take(1));
            assert(start =~= volume + "\\"@ + parts[1]);
            assert(whole.subrange(0, volume.len() as int) =~= volume) by {
                assert forall|i: int| 0 <= i < volume.len() implies whole[i] == volume[i] by {
                    assert(whole.subrange(0, start.len() as int)[i] == start[i]);
                }
            }
        }
    }
}

} // verus!
