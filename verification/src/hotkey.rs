//! The global hotkey that opens the menus.

use vstd::prelude::*;

use crate::model;
use crate::text;

verus! {

/// A global hotkey: modifiers and a virtual key.
#[derive(Debug, Copy, Clone, PartialEq, Eq, Structural)]
pub struct Hotkey {
    pub control: bool,
    pub alt: bool,
    pub shift: bool,
    pub win: bool,
    /// The code of the virtual key; zero stands for none.
    pub vk: u32,
}

/// A text names no key.
#[derive(Debug, Copy, Clone, PartialEq, Eq)]
pub struct InvalidHotkey;

impl InvalidHotkey {
    /// Says which text is no hotkey.
    pub fn message(&self, hotkey_str: &str) -> (text: String)
        ensures
            text@ == "invalid hotkey: "@ + hotkey_str@,
    {
        "invalid hotkey: ".to_owned().concat(hotkey_str)
    }
}

/// Neither modifiers nor a key.
pub open spec fn no_keys() -> Hotkey {
    Hotkey { control: false, alt: false, shift: false, win: false, vk: 0 }
}

/// The virtual key that a part names: a single ASCII character stands for
/// itself, and `F1` to `F24` for the function keys.
pub open spec fn key_of(part: Seq<char>) -> Option<u32> {
    if part.len() == 1 && part[0] <= '\u{7f}' {
        Some(part[0] as u32)
    } else if part.len() > 0 && part[0] == 'F' {
        match text::written_number(part.skip(1)) {
            Some(n) if 1 <= n <= 24 => Some((0x6F + n) as u32),
            _ => None,
        }
    } else {
        None
    }
}

/// A hotkey with one more part, which is in upper case. A part that names
/// neither a modifier nor a key changes nothing, and of several keys the last
/// one counts.
pub open spec fn with_part(hotkey: Hotkey, part: Seq<char>) -> Hotkey {
    if part == "CTRL"@ || part == "CONTROL"@ {
        Hotkey { control: true, ..hotkey }
    } else if part == "ALT"@ || part == "MENU"@ {
        Hotkey { alt: true, ..hotkey }
    } else if part == "SHIFT"@ {
        Hotkey { shift: true, ..hotkey }
    } else if part == "WIN"@ || part == "WINDOWS"@ || part == "SUPER"@ {
        Hotkey { win: true, ..hotkey }
    } else {
        match key_of(part) {
            Some(vk) => Hotkey { vk, ..hotkey },
            None => hotkey,
        }
    }
}

/// The hotkey that parts in upper case make up.
pub open spec fn combined(parts: Seq<Seq<char>>) -> Hotkey
    decreases parts.len(),
{
    if parts.len() == 0 {
        no_keys()
    } else {
        with_part(combined(parts.drop_last()), parts.last())
    }
}

/// The parts of a written hotkey, each trimmed and in upper case.
pub open spec fn upper_parts(hotkey: Seq<char>) -> Seq<Seq<char>> {
    let parts = text::parts_between(hotkey, '+');
    Seq::new(parts.len(), |i: int| text::uppercased(text::trimmed(parts[i])))
}

fn add_part(hotkey: Hotkey, part: &str) -> (result: Hotkey)
    ensures
        result == with_part(hotkey, part@),
{
    if text::same_text(part, "CTRL") || text::same_text(part, "CONTROL") {
        Hotkey { control: true, ..hotkey }
    } else if text::same_text(part, "ALT") || text::same_text(part, "MENU") {
        Hotkey { alt: true, ..hotkey }
    } else if text::same_text(part, "SHIFT") {
        Hotkey { shift: true, ..hotkey }
    } else if text::same_text(part, "WIN") || text::same_text(part, "WINDOWS") || text::same_text(
        part,
        "SUPER",
    ) {
        Hotkey { win: true, ..hotkey }
    } else {
        let chars: Vec<char> = text::chars_of(part);
        if chars.len() == 1 && chars[0] <= '\u{7f}' {
            Hotkey { vk: chars[0] as u32, ..hotkey }
        } else if chars.len() > 0 && chars[0] == 'F' {
            proof {
                assert(chars@.subrange(1, chars@.len() as int) =~= part@.skip(1));
            }
            match text::parse_usize(&chars, 1, chars.len()) {
                Some(n) => if 1 <= n && n <= 24 {
                    Hotkey { vk: 0x6F + n as u32, ..hotkey }
                } else {
                    hotkey
                },
                None => hotkey,
            }
        } else {
            hotkey
        }
    }
}

/// The hotkey that parts in upper case make up, if they name a key.
pub fn combine_parts(parts: &Vec<String>) -> (hotkey: Result<Hotkey, InvalidHotkey>)
    ensures
        match hotkey {
            Ok(h) => h == combined(model::seq_view(parts@)) && h.vk != 0,
            Err(_) => combined(model::seq_view(parts@)).vk == 0,
        },
{
    let ghost views = model::seq_view(parts@);
    let mut hotkey = Hotkey { control: false, alt: false, shift: false, win: false, vk: 0 };
    let mut i: usize = 0;
    while i < parts.len()
        invariant
            i <= parts@.len(),
            views == model::seq_view(parts@),
            hotkey == combined(views.take(i as int)),
        decreases parts@.len() - i,
    {
        proof {
            let next = views.take(i + 1);
            assert(next.drop_last() =~= views.take(i as int));
            assert(next.last() == parts@[i as int]@);
        }
        hotkey = add_part(hotkey, parts[i].as_str());
        i += 1;
    }
    proof {
        assert(views.take(views.len() as int) =~= views);
    }
    if hotkey.vk == 0 {
        Err(InvalidHotkey)
    } else {
        Ok(hotkey)
    }
}

/// Reads a hotkey that is written as modifiers and a key with plus signs
/// between them, such as `Ctrl+Alt+K`. Case and white space around the parts
/// do not matter.
pub fn register_hotkey(hotkey_str: &str) -> (hotkey: Result<Hotkey, InvalidHotkey>)
    ensures
        match hotkey {
            Ok(h) => h == combined(upper_parts(hotkey_str@)) && h.vk != 0,
            Err(_) => combined(upper_parts(hotkey_str@)).vk == 0,
        },
{
    let parts: Vec<String> = text::split(hotkey_str, '+');
    let ghost views = model::seq_view(parts@);
    let mut upper: Vec<String> = Vec::new();
    let mut i: usize = 0;
    while i < parts.len()
        invariant
            i <= parts@.len(),
            views == model::seq_view(parts@),
            views == text::parts_between(hotkey_str@, '+'),
            upper@.len() == i,
            forall|k: int|
                0 <= k < i ==> (#[trigger] upper@[k])@ == upper_parts(hotkey_str@)[k],
        decreases parts@.len() - i,
    {
        let trimmed = text::trim(parts[i].as_str());
        proof {
            assert(views[i as int] == parts@[i as int]@);
        }
        upper.push(text::to_uppercase(trimmed.as_str()));
        i += 1;
    }
    proof {
        assert(model::seq_view(upper@) =~= upper_parts(hotkey_str@));
    }
    combine_parts(&upper)
}

// ---------------------------------------------------------------------------
// Laws
// ---------------------------------------------------------------------------

/// A part names a modifier.
pub open spec fn is_modifier(part: Seq<char>) -> bool {
    ||| part == "CTRL"@
    ||| part == "CONTROL"@
    ||| part == "ALT"@
    ||| part == "MENU"@
    ||| part == "SHIFT"@
    ||| part == "WIN"@
    ||| part == "WINDOWS"@
    ||| part == "SUPER"@
}

/// A modifier can stand before or after any other part.
pub proof fn law_modifiers_commute(hotkey: Hotkey, modifier: Seq<char>, part: Seq<char>)
    requires
        is_modifier(modifier),
    ensures
        with_part(with_part(hotkey, modifier), part) == with_part(
            with_part(hotkey, part),
            modifier,
        ),
{
}

/// A part never takes a modifier away.
pub proof fn law_modifiers_stay(hotkey: Hotkey, part: Seq<char>)
    ensures
        hotkey.control ==> with_part(hotkey, part).control,
        hotkey.alt ==> with_part(hotkey, part).alt,
        hotkey.shift ==> with_part(hotkey, part).shift,
        hotkey.win ==> with_part(hotkey, part).win,
{
}

/// A modifier is set exactly where one of the parts names it.
pub proof fn law_modifiers_are_named(parts: Seq<Seq<char>>)
    ensures
        combined(parts).control <==> parts.contains("CTRL"@) || parts.contains("CONTROL"@),
        combined(parts).alt <==> parts.contains("ALT"@) || parts.contains("MENU"@),
        combined(parts).shift <==> parts.contains("SHIFT"@),
        combined(parts).win <==> parts.contains("WIN"@) || parts.contains("WINDOWS"@)
            || parts.contains("SUPER"@),
    decreases parts.len(),
{
    lemma_modifier_names_differ();
    if parts.len() > 0 {
        let rest = parts.drop_last();
        law_modifiers_are_named(rest);
        assert forall|name: Seq<char>| #[trigger]
            parts.contains(name) <==> rest.contains(name) || name == parts.last() by {
            if rest.contains(name) {
                let i = choose|i: int| 0 <= i < rest.len() && rest[i] == name;
                assert(parts[i] == name);
            }
            if name == parts.last() {
                assert(parts[parts.len() - 1] == name);
            }
            if parts.contains(name) && name != parts.last() {
                let i = choose|i: int| 0 <= i < parts.len() && parts[i] == name;
                assert(rest[i] == name);
            }
        }
    }
}

proof fn lemma_modifier_names_differ()
    ensures
        "CTRL"@ != "ALT"@ && "CTRL"@ != "MENU"@ && "CTRL"@ != "SHIFT"@ && "CTRL"@ != "WIN"@,
        "CTRL"@ != "WINDOWS"@ && "CTRL"@ != "SUPER"@ && "CONTROL"@ != "ALT"@,
        "CONTROL"@ != "MENU"@ && "CONTROL"@ != "SHIFT"@ && "CONTROL"@ != "WIN"@,
        "CONTROL"@ != "WINDOWS"@ && "CONTROL"@ != "SUPER"@ && "ALT"@ != "SHIFT"@,
        "ALT"@ != "WIN"@ && "ALT"@ != "WINDOWS"@ && "ALT"@ != "SUPER"@ && "MENU"@ != "SHIFT"@,
        "MENU"@ != "WIN"@ && "MENU"@ != "WINDOWS"@ && "MENU"@ != "SUPER"@,
        "SHIFT"@ != "WIN"@ && "SHIFT"@ != "WINDOWS"@ && "SHIFT"@ != "SUPER"@,
{
    reveal_strlit("CTRL");
    reveal_strlit("CONTROL");
    reveal_strlit("ALT");
    reveal_strlit("MENU");
    reveal_strlit("SHIFT");
    reveal_strlit("WIN");
    reveal_strlit("WINDOWS");
    reveal_strlit("SUPER");
    assert("CTRL"@[0] == 'C' && "CTRL"@[1] == 'T' && "CONTROL"@[0] == 'C');
    assert("ALT"@[0] == 'A' && "MENU"@[0] == 'M' && "SHIFT"@[1] == 'H' && "SHIFT"@[0] == 'S');
    assert("WIN"@[0] == 'W' && "WINDOWS"@[0] == 'W' && "SUPER"@[0] == 'S' && "SUPER"@[1] == 'U');
}

/// The key is the last one that a part names: a single ASCII character stands for its
/// own code, and `F1` to `F24` for the codes from 112 on. A part that names no key
/// changes none.
pub proof fn law_the_last_key_counts(parts: Seq<Seq<char>>, part: Seq<char>)
    ensures
        ({
            let vk = combined(parts.push(part)).vk;
            let number = text::written_number(part.skip(1));
            if part.len() == 1 && part[0] as int <= 127 {
                vk == part[0] as u32
            } else if part.len() > 1 && part[0] == 'F' && number is Some && 1 <= number->0 <= 24 {
                vk == 111 + number->0
            } else {
                vk == combined(parts).vk
            }
        }),
        combined(Seq::empty()).vk == 0,
{
    assert(parts.push(part).drop_last() =~= parts);
    reveal_strlit("CTRL");
    reveal_strlit("CONTROL");
    reveal_strlit("ALT");
    reveal_strlit("MENU");
    reveal_strlit("SHIFT");
    reveal_strlit("WIN");
    reveal_strlit("WINDOWS");
    reveal_strlit("SUPER");
    assert("CTRL"@[0] == 'C' && "CONTROL"@[0] == 'C' && "ALT"@[0] == 'A' && "MENU"@[0] == 'M');
    assert("SHIFT"@[0] == 'S' && "WIN"@[0] == 'W' && "WINDOWS"@[0] == 'W' && "SUPER"@[0] == 'S');
    let all = parts.push(part);
    assert(all.last() == part);
    assert(combined(all) == with_part(combined(parts), part));
    if part.len() == 1 && part[0] as int <= 127 {
        assert(key_of(part) == Some(part[0] as u32));
    } else if part.len() > 1 && part[0] == 'F' {
        assert(!is_modifier(part));
        let number = text::written_number(part.skip(1));
        if number is Some && 1 <= number->0 <= 24 {
            assert(key_of(part) == Some((0x6F + number->0) as u32));
        } else {
            assert(key_of(part) is None);
        }
    } else {
        assert(key_of(part) is None);
    }
}

/// The parts of a written hotkey are what stands between its plus signs, each trimmed
/// and in upper case.
pub proof fn law_parts_stand_between_plus_signs(hotkey: Seq<char>, i: int)
    requires
        0 <= i < text::parts_between(hotkey, '+').len(),
    ensures
        upper_parts(hotkey).len() == text::parts_between(hotkey, '+').len(),
        upper_parts(hotkey)[i] == text::uppercased(
            text::trimmed(text::parts_between(hotkey, '+')[i]),
        ),
{
}

} // verus!
