//! Identifiers of menu entries.
//!
//! An entry that stands for a workspace or a window carries in its identifier
//! what it stands for. The monitor is written as the hexadecimal digits of its
//! identifier's bytes, so the identifier resolves against the current state of
//! the desktop even when the order of the monitors has changed meanwhile.

use vstd::prelude::*;
use vstd::utf8::*;

use crate::model;
use crate::text;

verus! {

// ---------------------------------------------------------------------------
// Hexadecimal text
// ---------------------------------------------------------------------------

/// The lower-case hexadecimal digit of a number below sixteen.
pub open spec fn hex_digit(v: int) -> char {
    if v < 10 {
        (('0' as int) + v) as char
    } else {
        (('a' as int) + v - 10) as char
    }
}

/// The number that a hexadecimal digit of either case stands for.
pub open spec fn hex_value(c: char) -> Option<int> {
    if '0' <= c <= '9' {
        Some(c as int - '0' as int)
    } else if 'a' <= c <= 'f' {
        Some(c as int - 'a' as int + 10)
    } else if 'A' <= c <= 'F' {
        Some(c as int - 'A' as int + 10)
    } else {
        None
    }
}

/// Two hexadecimal digits for each byte.
pub open spec fn hex_text(bytes: Seq<u8>) -> Seq<char> {
    Seq::new(
        bytes.len() * 2,
        |i: int|
            if i % 2 == 0 {
                hex_digit(bytes[i / 2] as int / 16)
            } else {
                hex_digit(bytes[i / 2] as int % 16)
            },
    )
}

/// The bytes that pairs of hexadecimal digits stand for.
pub open spec fn hex_bytes(s: Seq<char>) -> Option<Seq<u8>> {
    if s.len() % 2 == 0 && forall|i: int| 0 <= i < s.len() ==> hex_value(#[trigger] s[i]) is Some {
        Some(
            Seq::new(
                s.len() / 2,
                |i: int| (hex_value(s[2 * i])->0 * 16 + hex_value(s[2 * i + 1])->0) as u8,
            ),
        )
    } else {
        None
    }
}

/// The text whose bytes are written in hexadecimal in `s`.
pub open spec fn hex_decoded(s: Seq<char>) -> Option<Seq<char>> {
    match hex_bytes(s) {
        Some(bytes) if valid_utf8(bytes) => Some(decode_utf8(bytes)),
        _ => None,
    }
}

fn hex_char(v: u8) -> (c: char)
    requires
        v < 16,
    ensures
        c == hex_digit(v as int),
{
    if v < 10 {
        (48 + v) as char
    } else {
        (87 + v) as char
    }
}

fn nibble(c: char) -> (v: Option<u8>)
    ensures
        match v {
            Some(n) => hex_value(c) == Some(n as int) && n < 16,
            None => hex_value(c) is None,
        },
{
    if '0' <= c && c <= '9' {
        Some((c as u32 - 48) as u8)
    } else if 'a' <= c && c <= 'f' {
        Some((c as u32 - 87) as u8)
    } else if 'A' <= c && c <= 'F' {
        Some((c as u32 - 55) as u8)
    } else {
        None
    }
}

/// Writes the bytes of a monitor's identifier in lower-case hexadecimal.
pub fn encode_monitor_id(monitor_id: &str) -> (encoded: String)
    ensures
        encoded@ == hex_text(encode_utf8(monitor_id@)),
{
    let bytes: &[u8] = monitor_id.as_bytes();
    let mut out = String::new();
    let mut i: usize = 0;
    while i < bytes.len()
        invariant
            i <= bytes@.len(),
            bytes@ == encode_utf8(monitor_id@),
            out@ == hex_text(bytes@.take(i as int)),
        decreases bytes@.len() - i,
    {
        let byte: u8 = bytes[i];
        out.push(hex_char(byte / 16));
        out.push(hex_char(byte % 16));
        proof {
            let next = bytes@.take(i + 1);
            assert(out@ =~= hex_text(next)) by {
                assert forall|j: int| 0 <= j < out@.len() implies out@[j] == hex_text(next)[j] by {
                    if j < 2 * i {
                        assert(bytes@.take(i as int)[j / 2] == next[j / 2]);
                    }
                }
            }
        }
        i += 1;
    }
    proof {
        assert(bytes@.take(bytes@.len() as int) =~= bytes@);
    }
    out
}

/// Reads a text back from the hexadecimal digits of its bytes. Digits of both
/// cases are accepted; an odd number of characters, another character and
/// bytes that are no UTF-8 are not.
pub fn decode_hex(input: &str) -> (decoded: Option<String>)
    ensures
        model::opt_view(decoded) == hex_decoded(input@),
{
    let chars: Vec<char> = text::chars_of(input);
    if chars.len() % 2 != 0 {
        return None;
    }
    let mut bytes: Vec<u8> = Vec::new();
    let mut i: usize = 0;
    while i < chars.len()
        invariant
            chars@ == input@,
            chars@.len() % 2 == 0,
            i % 2 == 0,
            i <= chars@.len(),
            bytes@.len() == i / 2,
            forall|j: int| 0 <= j < i ==> hex_value(#[trigger] chars@[j]) is Some,
            forall|j: int|
                0 <= j < bytes@.len() ==> bytes@[j] == (hex_value(chars@[2 * j])->0 * 16
                    + hex_value(chars@[2 * j + 1])->0) as u8,
        decreases chars@.len() - i,
    {
        let hi: u8 = match nibble(chars[i]) {
            Some(v) => v,
            None => {
                proof {
                    assert(hex_value(chars@[i as int]) is None);
                }
                return None;
            },
        };
        let lo: u8 = match nibble(chars[i + 1]) {
            Some(v) => v,
            None => {
                proof {
                    assert(hex_value(chars@[i + 1]) is None);
                }
                return None;
            },
        };
        bytes.push(hi * 16 + lo);
        i += 2;
    }
    let ghost decoded_bytes = bytes@;
    proof {
        assert(hex_bytes(input@)->0 =~= decoded_bytes);
    }
    let decoded = text::string_from_utf8(bytes);
    proof {
        if decoded is Some {
            encode_utf8_decode_utf8(decoded->0@);
        }
    }
    decoded
}

/// Decoding gives back every identifier that was encoded.
pub proof fn lemma_hex_round_trip(id: Seq<char>)
    ensures
        hex_decoded(hex_text(encode_utf8(id))) == Some(id),
{
    let bytes = encode_utf8(id);
    let s = hex_text(bytes);
    assert forall|i: int| 0 <= i < s.len() implies hex_value(#[trigger] s[i]) is Some by {}
    assert(hex_bytes(s)->0 =~= bytes) by {
        assert forall|i: int| 0 <= i < bytes.len() implies hex_bytes(s)->0[i] == bytes[i] by {
            assert(s[2 * i] == hex_digit(bytes[i] as int / 16));
            assert(s[2 * i + 1] == hex_digit(bytes[i] as int % 16));
        }
    }
    encode_utf8_valid_utf8(id);
    encode_utf8_decode_utf8(id);
}

// ---------------------------------------------------------------------------
// Reading identifiers
// ---------------------------------------------------------------------------

/// The identifier that the monitor part of a menu identifier stands for: the
/// decoded digits behind an `h`, or else the part itself.
pub open spec fn monitor_part(part: Seq<char>) -> Option<Seq<char>> {
    if part.len() > 0 && part[0] == 'h' {
        hex_decoded(part.skip(1))
    } else {
        Some(part)
    }
}

/// The monitor and the workspace index that a `ws-<monitor>-<workspace>`
/// identifier names.
pub open spec fn workspace_of(id: Seq<char>) -> Option<(Seq<char>, usize)> {
    match text::without_prefix(id, "ws-"@) {
        Some(rest) => match text::parts_at_first(rest, '-') {
            Some((monitor, workspace)) => match (
                monitor_part(monitor),
                text::written_usize(workspace),
            ) {
                (Some(m), Some(w)) => Some((m, w)),
                _ => None,
            },
            None => None,
        },
        None => None,
    }
}

/// The monitor, the workspace index and the window index that a
/// `win-<monitor>-<workspace>-<window>` identifier names.
pub open spec fn window_of(id: Seq<char>) -> Option<(Seq<char>, usize, usize)> {
    match text::without_prefix(id, "win-"@) {
        Some(rest) => match text::parts_at_first(rest, '-') {
            Some((monitor, tail)) => match text::parts_at_first(tail, '-') {
                Some((workspace, window)) => match (
                    monitor_part(monitor),
                    text::written_usize(workspace),
                    text::written_usize(window),
                ) {
                    (Some(m), Some(w), Some(i)) => Some((m, w, i)),
                    _ => None,
                },
                None => None,
            },
            None => None,
        },
        None => None,
    }
}

fn read_monitor_part(part: &str) -> (monitor: Option<String>)
    ensures
        model::opt_view(monitor) == monitor_part(part@),
{
    let chars: Vec<char> = text::chars_of(part);
    if chars.len() > 0 && chars[0] == 'h' {
        let digits = text::string_of(&chars, 1, chars.len());
        proof {
            assert(digits@ =~= part@.skip(1));
        }
        decode_hex(digits.as_str())
    } else {
        Some(part.to_owned())
    }
}

fn read_number(part: &str) -> (number: Option<usize>)
    ensures
        number == text::written_usize(part@),
{
    let chars: Vec<char> = text::chars_of(part);
    proof {
        assert(chars@.subrange(0, chars@.len() as int) =~= part@);
    }
    text::parse_usize(&chars, 0, chars.len())
}

/// Parses the identifier of a workspace entry back into the monitor's
/// identifier and the index of the workspace. A monitor part that does not
/// start with `h` is taken as it stands.
pub fn parse_workspace_menu_id(id: &str) -> (parsed: Option<(String, usize)>)
    ensures
        model::opt_view(parsed) == workspace_of(id@),
{
    let rest = match text::strip_prefix(id, "ws-") {
        Some(rest) => rest,
        None => return None,
    };
    let (monitor, workspace) = match text::split_once(rest.as_str(), '-') {
        Some(parts) => parts,
        None => return None,
    };
    let monitor = match read_monitor_part(monitor.as_str()) {
        Some(monitor) => monitor,
        None => return None,
    };
    match read_number(workspace.as_str()) {
        Some(workspace) => Some((monitor, workspace)),
        None => None,
    }
}

/// Parses the identifier of a window entry back into the monitor's identifier,
/// the index of the workspace and the index of the window in it.
pub fn parse_window_menu_id(id: &str) -> (parsed: Option<(String, usize, usize)>)
    ensures
        model::opt_view(parsed) == window_of(id@),
{
    let rest = match text::strip_prefix(id, "win-") {
        Some(rest) => rest,
        None => return None,
    };
    let (monitor, tail) = match text::split_once(rest.as_str(), '-') {
        Some(parts) => parts,
        None => return None,
    };
    let (workspace, window) = match text::split_once(tail.as_str(), '-') {
        Some(parts) => parts,
        None => return None,
    };
    let monitor = match read_monitor_part(monitor.as_str()) {
        Some(monitor) => monitor,
        None => return None,
    };
    match (read_number(workspace.as_str()), read_number(window.as_str())) {
        (Some(workspace), Some(window)) => Some((monitor, workspace, window)),
        _ => None,
    }
}

// ---------------------------------------------------------------------------
// Writing identifiers
// ---------------------------------------------------------------------------

/// `<prefix>h<monitor in hexadecimal>-<number>`.
pub open spec fn numbered_id(prefix: Seq<char>, monitor: Seq<char>, number: nat) -> Seq<char> {
    prefix + seq!['h'] + hex_text(encode_utf8(monitor)) + seq!['-'] + text::decimal(number)
}

/// The identifier of the entry for a workspace.
pub open spec fn workspace_id(monitor: Seq<char>, workspace: nat) -> Seq<char> {
    numbered_id("ws-"@, monitor, workspace)
}

/// The identifier of the entry that focuses a workspace from its window menu.
pub open spec fn focus_id(monitor: Seq<char>, workspace: nat) -> Seq<char> {
    numbered_id("focus-ws-"@, monitor, workspace)
}

/// The identifier of the entry for a window.
pub open spec fn window_id(monitor: Seq<char>, workspace: nat, window: nat) -> Seq<char> {
    numbered_id("win-"@, monitor, workspace) + seq!['-'] + text::decimal(window)
}

fn write_numbered_id(prefix: &str, monitor: &str, number: usize) -> (id: String)
    ensures
        id@ == numbered_id(prefix@, monitor@, number as nat),
{
    let mut id = prefix.to_owned();
    id.push('h');
    id.append(encode_monitor_id(monitor).as_str());
    id.push('-');
    id.append(text::decimal_text(number).as_str());
    proof {
        assert(id@ =~= numbered_id(prefix@, monitor@, number as nat));
    }
    id
}

/// Writes [`workspace_id`].
pub fn workspace_menu_id(monitor: &str, workspace: usize) -> (id: String)
    ensures
        id@ == workspace_id(monitor@, workspace as nat),
{
    write_numbered_id("ws-", monitor, workspace)
}

/// Writes [`focus_id`].
pub fn focus_menu_id(monitor: &str, workspace: usize) -> (id: String)
    ensures
        id@ == focus_id(monitor@, workspace as nat),
{
    write_numbered_id("focus-ws-", monitor, workspace)
}

/// Writes [`window_id`].
pub fn window_menu_id(monitor: &str, workspace: usize, window: usize) -> (id: String)
    ensures
        id@ == window_id(monitor@, workspace as nat, window as nat),
{
    let mut id = write_numbered_id("win-", monitor, workspace);
    id.push('-');
    id.append(text::decimal_text(window).as_str());
    proof {
        assert(id@ =~= window_id(monitor@, workspace as nat, window as nat));
    }
    id
}

// ---------------------------------------------------------------------------
// Laws
// ---------------------------------------------------------------------------

/// A separator that `before` does not hold is the first one behind it.
proof fn lemma_parts_at_first(before: Seq<char>, separator: char, after: Seq<char>)
    requires
        !before.contains(separator),
    ensures
        text::parts_at_first(before + seq![separator] + after, separator) == Some((before, after)),
{
    let s = before + seq![separator] + after;
    s.index_of_first_ensures(separator);
    assert(s[before.len() as int] == separator);
    assert(s.contains(separator));
    let i = s.index_of_first(separator)->0;
    assert(i == before.len()) by {
        if i < before.len() {
            assert(before[i] == separator);
        }
    }
    assert(s.take(i) =~= before);
    assert(s.skip(i + 1) =~= after);
}

/// Hexadecimal text and an `h` before it hold no hyphen.
proof fn lemma_encoded_part(monitor: Seq<char>)
    ensures
        !(seq!['h'] + hex_text(encode_utf8(monitor))).contains('-'),
        monitor_part(seq!['h'] + hex_text(encode_utf8(monitor))) == Some(monitor),
{
    let digits = hex_text(encode_utf8(monitor));
    let part = seq!['h'] + digits;
    assert forall|i: int| 0 <= i < part.len() implies part[i] != '-' by {
        if i > 0 {
            assert(part[i] == digits[i - 1]);
        }
    }
    assert(part.skip(1) =~= digits);
    lemma_hex_round_trip(monitor);
}

/// The identifier of a workspace entry parses back to the monitor and the
/// workspace that it was made for.
pub proof fn law_workspace_id_round_trip(monitor: Seq<char>, workspace: usize)
    ensures
        workspace_of(workspace_id(monitor, workspace as nat)) == Some((monitor, workspace)),
{
    let id = workspace_id(monitor, workspace as nat);
    let part = seq!['h'] + hex_text(encode_utf8(monitor));
    let number = text::decimal(workspace as nat);
    let rest = part + seq!['-'] + number;
    assert(id =~= "ws-"@ + rest);
    assert("ws-"@.is_prefix_of(id)) by {
        assert(id.subrange(0, "ws-"@.len() as int) =~= "ws-"@);
    }
    assert(id.skip("ws-"@.len() as int) =~= rest);
    lemma_encoded_part(monitor);
    lemma_parts_at_first(part, '-', number);
    text::lemma_decimal_round_trip(workspace);
}

/// What follows `focus-` in the identifier of a focus entry is the identifier
/// of the workspace entry.
pub proof fn law_focus_id_names_workspace(monitor: Seq<char>, workspace: usize)
    ensures
        focus_id(monitor, workspace as nat) == "focus-"@ + workspace_id(monitor, workspace as nat),
{
    reveal_strlit("focus-ws-");
    reveal_strlit("focus-");
    reveal_strlit("ws-");
    assert("focus-ws-"@ =~= "focus-"@ + "ws-"@);
    assert(focus_id(monitor, workspace as nat) =~= "focus-"@ + workspace_id(
        monitor,
        workspace as nat,
    ));
}

/// The identifier of a window entry parses back to the monitor, the workspace
/// and the window that it was made for.
pub proof fn law_window_id_round_trip(monitor: Seq<char>, workspace: usize, window: usize)
    ensures
        window_of(window_id(monitor, workspace as nat, window as nat)) == Some(
            (monitor, workspace, window),
        ),
{
    let id = window_id(monitor, workspace as nat, window as nat);
    let part = seq!['h'] + hex_text(encode_utf8(monitor));
    let first = text::decimal(workspace as nat);
    let second = text::decimal(window as nat);
    let tail = first + seq!['-'] + second;
    let rest = part + seq!['-'] + tail;
    assert(id =~= "win-"@ + rest);
    assert("win-"@.is_prefix_of(id)) by {
        assert(id.subrange(0, "win-"@.len() as int) =~= "win-"@);
    }
    assert(id.skip("win-"@.len() as int) =~= rest);
    lemma_encoded_part(monitor);
    lemma_parts_at_first(part, '-', tail);
    text::lemma_decimal_digits(workspace as nat);
    assert(!first.contains('-')) by {
        assert forall|i: int| 0 <= i < first.len() implies first[i] != '-' by {
            assert(text::is_digit(first[i]));
        }
    }
    lemma_parts_at_first(first, '-', second);
    text::lemma_decimal_round_trip(workspace);
    text::lemma_decimal_round_trip(window);
}

/// The entries of a workspace in the menu of its monitor and in its window menu
/// have different identifiers.
pub proof fn law_focus_ids_are_no_workspace_ids(
    m1: Seq<char>,
    w1: usize,
    m2: Seq<char>,
    w2: usize,
)
    ensures
        focus_id(m1, w1 as nat) != workspace_id(m2, w2 as nat),
{
    reveal_strlit("focus-ws-");
    reveal_strlit("ws-");
    assert(focus_id(m1, w1 as nat)[0] == 'f');
    assert(workspace_id(m2, w2 as nat)[0] == 'w');
}

/// Two window entries have the same identifier only if they stand for the same
/// window of the same workspace.
pub proof fn law_window_ids_differ(
    m1: Seq<char>,
    w1: usize,
    i1: usize,
    m2: Seq<char>,
    w2: usize,
    i2: usize,
)
    requires
        window_id(m1, w1 as nat, i1 as nat) == window_id(m2, w2 as nat, i2 as nat),
    ensures
        m1 == m2,
        w1 == w2,
        i1 == i2,
{
    law_window_id_round_trip(m1, w1, i1);
    law_window_id_round_trip(m2, w2, i2);
}

/// Two workspace entries have the same identifier only if they stand for the
/// same workspace of the same monitor.
pub proof fn law_workspace_ids_differ(m1: Seq<char>, w1: usize, m2: Seq<char>, w2: usize)
    requires
        workspace_id(m1, w1 as nat) == workspace_id(m2, w2 as nat),
    ensures
        m1 == m2,
        w1 == w2,
{
    law_workspace_id_round_trip(m1, w1);
    law_workspace_id_round_trip(m2, w2);
}

/// The identifiers name what they stand for: the kind of the entry, the bytes of
/// the monitor's identifier in hexadecimal, and the numbers in decimal.
pub proof fn law_ids_are_written_out(monitor: Seq<char>, workspace: nat, window: nat)
    ensures
        ({
            let part = hex_text(encode_utf8(monitor));
            let number = seq!['-'] + text::decimal(workspace);
            &&& workspace_id(monitor, workspace) == "ws-h"@ + part + number
            &&& focus_id(monitor, workspace) == "focus-ws-h"@ + part + number
            &&& window_id(monitor, workspace, window) == "win-h"@ + part + number + seq!['-']
                + text::decimal(window)
        }),
{
    reveal_strlit("ws-");
    reveal_strlit("ws-h");
    reveal_strlit("focus-ws-");
    reveal_strlit("focus-ws-h");
    reveal_strlit("win-");
    reveal_strlit("win-h");
    let part = hex_text(encode_utf8(monitor));
    let number = seq!['-'] + text::decimal(workspace);
    assert("ws-"@ + seq!['h'] =~= "ws-h"@);
    assert("focus-ws-"@ + seq!['h'] =~= "focus-ws-h"@);
    assert("win-"@ + seq!['h'] =~= "win-h"@);
    assert(workspace_id(monitor, workspace) =~= "ws-h"@ + part + number);
    assert(focus_id(monitor, workspace) =~= "focus-ws-h"@ + part + number);
    assert(window_id(monitor, workspace, window) =~= "win-h"@ + part + number + seq!['-']
        + text::decimal(window));
}

/// A byte is written as two digits, the greater one first: the ASCII digits for
/// numbers below ten, and the small letters from `a` on for the others.
pub proof fn law_bytes_are_written_as_two_digits(bytes: Seq<u8>, i: int)
    requires
        0 <= i < bytes.len(),
    ensures
        hex_text(bytes).len() == bytes.len() * 2,
        ({
            let hi = bytes[i] as int / 16;
            let lo = bytes[i] as int % 16;
            &&& hex_text(bytes)[2 * i] as int == if hi < 10 {
                48 + hi
            } else {
                87 + hi
            }
            &&& hex_text(bytes)[2 * i + 1] as int == if lo < 10 {
                48 + lo
            } else {
                87 + lo
            }
        }),
{
    assert((2 * i) / 2 == i && (2 * i) % 2 == 0);
    assert((2 * i + 1) / 2 == i && (2 * i + 1) % 2 == 1);
}

/// A text is read as hexadecimal exactly where it is made of pairs of digits of
/// either case.
pub proof fn law_hexadecimal_text_is_made_of_digits(s: Seq<char>)
    ensures
        hex_bytes(s) is Some <==> s.len() % 2 == 0 && forall|i: int|
            0 <= i < s.len() ==> ('0' <= #[trigger] s[i] <= '9' || 'a' <= s[i] <= 'f' || 'A' <= s[i]
                <= 'F'),
{
    if s.len() % 2 == 0 && forall|i: int|
        0 <= i < s.len() ==> ('0' <= #[trigger] s[i] <= '9' || 'a' <= s[i] <= 'f' || 'A' <= s[i]
            <= 'F') {
        assert forall|i: int| 0 <= i < s.len() implies hex_value(#[trigger] s[i]) is Some by {
            assert('0' <= s[i] <= '9' || 'a' <= s[i] <= 'f' || 'A' <= s[i] <= 'F');
        }
    }
    if hex_bytes(s) is Some {
        assert forall|i: int| 0 <= i < s.len() implies ('0' <= #[trigger] s[i] <= '9' || 'a' <= s[i]
            <= 'f' || 'A' <= s[i] <= 'F') by {
            assert(hex_value(s[i]) is Some);
        }
    }
}

/// An identifier that names its monitor as it is, not in hexadecimal, is read too.
pub proof fn law_plain_ids_are_read(monitor: Seq<char>, workspace: usize)
    requires
        !monitor.contains('-'),
        monitor.len() == 0 || monitor[0] != 'h',
    ensures
        workspace_of("ws-"@ + monitor + seq!['-'] + text::decimal(workspace as nat)) == Some(
            (monitor, workspace),
        ),
{
    reveal_strlit("ws-");
    let number = text::decimal(workspace as nat);
    let rest = monitor + seq!['-'] + number;
    let id = "ws-"@ + monitor + seq!['-'] + number;
    assert(id.subrange(0, 3) =~= "ws-"@);
    assert(id.skip(3) =~= rest);
    assert(rest[monitor.len() as int] == '-');
    assert(rest.contains('-'));
    rest.index_of_first_ensures('-');
    let at = rest.index_of_first('-')->0;
    if at < monitor.len() {
        assert(monitor[at] == '-');
        assert(monitor.contains('-'));
    }
    assert(at == monitor.len());
    assert(rest.take(at) =~= monitor);
    assert(rest.skip(at + 1) =~= number);
    text::lemma_decimal_round_trip(workspace);
}

} // verus!
