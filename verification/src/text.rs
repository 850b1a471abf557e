//! Text helpers shared by the parsers and the menu builder.
//!
//! Strings are reasoned about as sequences of characters, and as their UTF-8
//! bytes where a rule speaks of bytes.

use vstd::prelude::*;
use vstd::utf8::*;

use crate::model;

verus! {

// ---------------------------------------------------------------------------
// Functions of the standard library
// ---------------------------------------------------------------------------

/// `String::push` appends one character and keeps the ones already there.
pub assume_specification[ String::push ](s: &mut String, c: char)
    ensures
        final(s)@ == old(s)@.push(c),
;

/// `String::from_utf8` accepts exactly the well-formed UTF-8 sequences and
/// hands back the text that they encode.
#[verifier::external_body]
pub(crate) fn string_from_utf8(bytes: Vec<u8>) -> (text: Option<String>)
    ensures
        text is Some <==> valid_utf8(bytes@),
        text is Some ==> encode_utf8(text->0@) == bytes@,
{
    String::from_utf8(bytes).ok()
}

/// The text that `str::to_uppercase` gives for a text.
pub uninterp spec fn uppercased(s: Seq<char>) -> Seq<char>;

/// The upper-case form of an ASCII character.
pub open spec fn ascii_upper(c: char) -> char {
    if 'a' <= c <= 'z' {
        ((c as int) - 0x20) as char
    } else {
        c
    }
}

/// `str::to_uppercase` maps a text to its upper-case form by the tables of
/// Unicode. Of a text of ASCII characters it maps each character by itself, the
/// small letters to the capital ones and the others to themselves.
#[verifier::external_body]
pub(crate) fn to_uppercase(s: &str) -> (upper: String)
    ensures
        upper@ == uppercased(s@),
        is_ascii_chars(s@) ==> upper@ == Seq::new(s@.len(), |i: int| ascii_upper(s@[i])),
{
    s.to_uppercase()
}

// ---------------------------------------------------------------------------
// Characters
// ---------------------------------------------------------------------------

/// The characters of a string, in order.
pub fn chars_of(s: &str) -> (chars: Vec<char>)
    ensures
        chars@ == s@,
{
    let mut chars: Vec<char> = Vec::new();
    for c in iter: s.chars()
        invariant
            iter.seq() == s@,
            chars@ == s@.take(iter.index() as int),
    {
        chars.push(c);
        proof {
            let i = iter.index() as int;
            assert(s@.take(i + 1) == s@.take(i).push(s@[i]));
        }
    }
    proof {
        assert(s@.take(s@.len() as int) == s@);
    }
    chars
}

/// The string made of the characters `chars[from..to]`.
pub fn string_of(chars: &Vec<char>, from: usize, to: usize) -> (s: String)
    requires
        from <= to <= chars@.len(),
    ensures
        s@ == chars@.subrange(from as int, to as int),
{
    let mut s = String::new();
    let mut i: usize = from;
    while i < to
        invariant
            from <= i <= to <= chars@.len(),
            s@ == chars@.subrange(from as int, i as int),
        decreases to - i,
    {
        s.push(chars[i]);
        proof {
            assert(chars@.subrange(from as int, i + 1) == chars@.subrange(
                from as int,
                i as int,
            ).push(chars@[i as int]));
        }
        i += 1;
    }
    s
}


/// Two strings are equal exactly when their characters are.
pub fn same_text(a: &str, b: &str) -> (same: bool)
    ensures
        same == (a@ == b@),
{
    let left: &[u8] = a.as_bytes();
    let right: &[u8] = b.as_bytes();
    proof {
        encode_utf8_decode_utf8(a@);
        encode_utf8_decode_utf8(b@);
    }
    if left.len() != right.len() {
        return false;
    }
    let mut i: usize = 0;
    while i < left.len()
        invariant
            i <= left@.len(),
            left@.len() == right@.len(),
            left@ == encode_utf8(a@),
            right@ == encode_utf8(b@),
            forall|j: int| 0 <= j < i ==> left@[j] == right@[j],
        decreases left@.len() - i,
    {
        if left[i] != right[i] {
            return false;
        }
        i += 1;
    }
    proof {
        assert(left@ =~= right@);
    }
    true
}

/// `a` comes strictly before `b` in the order of their code points, which is
/// the order that `String` has.
pub open spec fn text_before(a: Seq<char>, b: Seq<char>) -> bool
    decreases b.len(),
{
    if b.len() == 0 {
        false
    } else if a.len() == 0 {
        true
    } else if a[0] != b[0] {
        a[0] < b[0]
    } else {
        text_before(a.skip(1), b.skip(1))
    }
}

/// Computes [`text_before`].
pub fn is_text_before(a: &str, b: &str) -> (before: bool)
    ensures
        before == text_before(a@, b@),
{
    let left: Vec<char> = chars_of(a);
    let right: Vec<char> = chars_of(b);
    let mut i: usize = 0;
    proof {
        assert(left@.skip(0) =~= left@);
        assert(right@.skip(0) =~= right@);
    }
    while i < left.len() && i < right.len()
        invariant
            left@ == a@,
            right@ == b@,
            i <= left@.len(),
            i <= right@.len(),
            text_before(a@, b@) == text_before(left@.skip(i as int), right@.skip(i as int)),
        decreases left@.len() - i,
    {
        if left[i] != right[i] {
            return left[i] < right[i];
        }
        proof {
            assert(left@.skip(i as int).skip(1) =~= left@.skip(i + 1));
            assert(right@.skip(i as int).skip(1) =~= right@.skip(i + 1));
        }
        i += 1;
    }
    i < right.len()
}

/// The order of texts is irreflexive and connects any two different texts.
pub proof fn lemma_text_before_total(a: Seq<char>, b: Seq<char>)
    ensures
        !text_before(a, a),
        text_before(a, b) ==> !text_before(b, a),
        a != b ==> text_before(a, b) || text_before(b, a),
    decreases a.len() + b.len(),
{
    if a.len() > 0 {
        lemma_text_before_total(a.skip(1), a.skip(1).take(0));
        lemma_text_before_irreflexive(a);
    }
    if a.len() > 0 && b.len() > 0 {
        lemma_text_before_total(a.skip(1), b.skip(1));
        if a[0] == b[0] && a.skip(1) == b.skip(1) {
            assert(a =~= seq![a[0]] + a.skip(1));
            assert(b =~= seq![b[0]] + b.skip(1));
        }
    } else if a.len() == 0 && b.len() == 0 {
        assert(a =~= b);
    }
}

proof fn lemma_text_before_irreflexive(a: Seq<char>)
    ensures
        !text_before(a, a),
    decreases a.len(),
{
    if a.len() > 0 {
        lemma_text_before_irreflexive(a.skip(1));
    }
}

/// The order of texts is transitive.
pub proof fn lemma_text_before_transitive(a: Seq<char>, b: Seq<char>, c: Seq<char>)
    requires
        text_before(a, b),
        text_before(b, c),
    ensures
        text_before(a, c),
    decreases a.len(),
{
    if a.len() > 0 && b.len() > 0 && c.len() > 0 && a[0] == b[0] && b[0] == c[0] {
        lemma_text_before_transitive(a.skip(1), b.skip(1), c.skip(1));
    }
}

// ---------------------------------------------------------------------------
// Prefixes and separators
// ---------------------------------------------------------------------------

/// What follows `prefix` in `s`, if `s` starts with it.
pub open spec fn without_prefix(s: Seq<char>, prefix: Seq<char>) -> Option<Seq<char>> {
    if prefix.is_prefix_of(s) {
        Some(s.skip(prefix.len() as int))
    } else {
        None
    }
}

/// The parts of `s` before and after the first `separator`, if it occurs.
pub open spec fn parts_at_first(s: Seq<char>, separator: char) -> Option<(Seq<char>, Seq<char>)> {
    match s.index_of_first(separator) {
        Some(i) => Some((s.take(i), s.skip(i + 1))),
        None => None,
    }
}

/// The parts of `s` between the occurrences of `separator`: one more than there
/// are occurrences.
pub open spec fn parts_between(s: Seq<char>, separator: char) -> Seq<Seq<char>>
    decreases s.len(),
{
    if s.len() == 0 {
        seq![Seq::empty()]
    } else {
        let before = parts_between(s.drop_last(), separator);
        if s.last() == separator {
            before.push(Seq::empty())
        } else {
            before.drop_last().push(before.last().push(s.last()))
        }
    }
}

/// Computes [`parts_between`].
pub fn split(s: &str, separator: char) -> (parts: Vec<String>)
    ensures
        model::seq_view(parts@) == parts_between(s@, separator),
{
    let chars: Vec<char> = chars_of(s);
    let mut parts: Vec<String> = Vec::new();
    let mut part = String::new();
    let mut i: usize = 0;
    proof {
        assert(model::seq_view(parts@).push(part@) =~= parts_between(chars@.take(0), separator));
    }
    while i < chars.len()
        invariant
            chars@ == s@,
            i <= chars@.len(),
            model::seq_view(parts@).push(part@) == parts_between(chars@.take(i as int), separator),
        decreases chars@.len() - i,
    {
        let c: char = chars[i];
        let ghost done = model::seq_view(parts@);
        let ghost current = part@;
        proof {
            let next = chars@.take(i + 1);
            assert(next.drop_last() =~= chars@.take(i as int));
            assert(next.last() == c);
            let before = parts_between(chars@.take(i as int), separator);
            assert(before == done.push(current));
            assert(before.drop_last() =~= done);
        }
        if c == separator {
            parts.push(part);
            part = String::new();
            proof {
                assert(model::seq_view(parts@) =~= done.push(current));
                assert(part@ =~= Seq::empty());
            }
        } else {
            part.push(c);
        }
        i += 1;
    }
    let ghost done = model::seq_view(parts@);
    let ghost current = part@;
    parts.push(part);
    proof {
        assert(chars@.take(chars@.len() as int) =~= chars@);
        assert(model::seq_view(parts@) =~= done.push(current));
    }
    parts
}

/// Whether `s` starts with `prefix`.
pub fn starts_with(s: &str, prefix: &str) -> (starts: bool)
    ensures
        starts == prefix@.is_prefix_of(s@),
{
    let chars: Vec<char> = chars_of(s);
    let wanted: Vec<char> = chars_of(prefix);
    if wanted.len() > chars.len() {
        return false;
    }
    let mut i: usize = 0;
    while i < wanted.len()
        invariant
            chars@ == s@,
            wanted@ == prefix@,
            i <= wanted@.len() <= chars@.len(),
            forall|j: int| 0 <= j < i ==> chars@[j] == wanted@[j],
        decreases wanted@.len() - i,
    {
        if chars[i] != wanted[i] {
            proof {
                assert(s@.subrange(0, prefix@.len() as int)[i as int] == s@[i as int]);
            }
            return false;
        }
        i += 1;
    }
    proof {
        assert(prefix@ =~= s@.subrange(0, prefix@.len() as int));
    }
    true
}

/// Computes [`without_prefix`].
pub fn strip_prefix(s: &str, prefix: &str) -> (rest: Option<String>)
    ensures
        model::opt_view(rest) == without_prefix(s@, prefix@),
{
    if starts_with(s, prefix) {
        let chars: Vec<char> = chars_of(s);
        let from: usize = prefix.unicode_len();
        proof {
            assert(s@.subrange(from as int, s@.len() as int) =~= s@.skip(from as int));
        }
        Some(string_of(&chars, from, chars.len()))
    } else {
        None
    }
}

/// Computes [`parts_at_first`].
pub fn split_once(s: &str, separator: char) -> (parts: Option<(String, String)>)
    ensures
        model::opt_view(parts) == parts_at_first(s@, separator),
{
    let chars: Vec<char> = chars_of(s);
    proof {
        s@.index_of_first_ensures(separator);
    }
    let mut i: usize = 0;
    while i < chars.len()
        invariant
            chars@ == s@,
            i <= chars@.len(),
            forall|j: int| 0 <= j < i ==> chars@[j] != separator,
        decreases chars@.len() - i,
    {
        if chars[i] == separator {
            let before = string_of(&chars, 0, i);
            let after = string_of(&chars, i + 1, chars.len());
            proof {
                s@.index_of_first_ensures(separator);
                assert(s@.contains(separator)) by {
                    assert(s@[i as int] == separator);
                }
                assert(before@ =~= s@.take(i as int));
                assert(after@ =~= s@.skip(i + 1));
            }
            return Some((before, after));
        }
        i += 1;
    }
    None
}

// ---------------------------------------------------------------------------
// White space
// ---------------------------------------------------------------------------

/// The characters with the Unicode property `White_Space`.
pub open spec fn white_space(c: char) -> bool {
    ||| '\u{9}' <= c <= '\u{d}'
    ||| c == '\u{20}'
    ||| c == '\u{85}'
    ||| c == '\u{a0}'
    ||| c == '\u{1680}'
    ||| '\u{2000}' <= c <= '\u{200a}'
    ||| c == '\u{2028}'
    ||| c == '\u{2029}'
    ||| c == '\u{202f}'
    ||| c == '\u{205f}'
    ||| c == '\u{3000}'
}

/// Computes [`white_space`].
pub fn is_white_space(c: char) -> (white: bool)
    ensures
        white == white_space(c),
{
    ('\u{9}' <= c && c <= '\u{d}') || c == '\u{20}' || c == '\u{85}' || c == '\u{a0}' || c
        == '\u{1680}' || ('\u{2000}' <= c && c <= '\u{200a}') || c == '\u{2028}' || c == '\u{2029}'
        || c == '\u{202f}' || c == '\u{205f}' || c == '\u{3000}'
}

/// `s` without the white space at its start.
pub open spec fn trimmed_start(s: Seq<char>) -> Seq<char>
    decreases s.len(),
{
    if s.len() > 0 && white_space(s[0]) {
        trimmed_start(s.skip(1))
    } else {
        s
    }
}

/// `s` without the white space at its end.
pub open spec fn trimmed_end(s: Seq<char>) -> Seq<char>
    decreases s.len(),
{
    if s.len() > 0 && white_space(s.last()) {
        trimmed_end(s.drop_last())
    } else {
        s
    }
}

/// `s` without the white space at its two ends.
pub open spec fn trimmed(s: Seq<char>) -> Seq<char> {
    trimmed_end(trimmed_start(s))
}

/// Computes [`trimmed`].
pub fn trim(s: &str) -> (text: String)
    ensures
        text@ == trimmed(s@),
{
    let chars: Vec<char> = chars_of(s);
    let mut from: usize = 0;
    proof {
        assert(chars@.skip(0) =~= chars@);
    }
    while from < chars.len() && is_white_space(chars[from])
        invariant
            chars@ == s@,
            from <= chars@.len(),
            trimmed_start(s@) == trimmed_start(chars@.skip(from as int)),
        decreases chars@.len() - from,
    {
        proof {
            assert(chars@.skip(from as int).skip(1) =~= chars@.skip(from + 1));
        }
        from += 1;
    }
    let mut to: usize = chars.len();
    proof {
        assert(trimmed_start(s@) == chars@.skip(from as int));
        assert(chars@.skip(from as int) =~= chars@.subrange(from as int, to as int));
    }
    while to > from && is_white_space(chars[to - 1])
        invariant
            chars@ == s@,
            from <= to <= chars@.len(),
            trimmed(s@) == trimmed_end(chars@.subrange(from as int, to as int)),
        decreases to,
    {
        proof {
            assert(chars@.subrange(from as int, to as int).drop_last() =~= chars@.subrange(
                from as int,
                to - 1,
            ));
        }
        to -= 1;
    }
    string_of(&chars, from, to)
}

// ---------------------------------------------------------------------------
// Decimal numbers
// ---------------------------------------------------------------------------

/// The character of a decimal digit.
pub open spec fn digit_char(d: nat) -> char {
    (('0' as int) + d) as char
}

/// The decimal digits of `n`, without leading zeros.
pub open spec fn decimal(n: nat) -> Seq<char>
    decreases n,
{
    if n < 10 {
        seq![digit_char(n)]
    } else {
        decimal(n / 10).push(digit_char(n % 10))
    }
}

/// `c` is one of the ten ASCII digits.
pub open spec fn is_digit(c: char) -> bool {
    '0' <= c <= '9'
}

/// The number that a sequence of digits stands for.
pub open spec fn digits_value(s: Seq<char>) -> nat
    decreases s.len(),
{
    if s.len() == 0 {
        0
    } else {
        (digits_value(s.drop_last()) * 10 + (s.last() as int - '0' as int)) as nat
    }
}

/// The digits of a written number: what follows an optional plus sign.
pub open spec fn unsigned_digits(s: Seq<char>) -> Seq<char> {
    if s.len() > 0 && s[0] == '+' {
        s.skip(1)
    } else {
        s
    }
}

/// The number written in `s`, if `s` is an optional plus sign followed by at
/// least one ASCII digit and nothing else.
pub open spec fn written_number(s: Seq<char>) -> Option<nat> {
    let digits = unsigned_digits(s);
    if digits.len() > 0 && (forall|i: int| 0 <= i < digits.len() ==> is_digit(digits[i])) {
        Some(digits_value(digits))
    } else {
        None
    }
}

/// The number written in `s`, if there is one and it fits in a `usize`.
pub open spec fn written_usize(s: Seq<char>) -> Option<usize> {
    match written_number(s) {
        Some(n) if n <= usize::MAX => Some(n as usize),
        _ => None,
    }
}

/// A digit written at the end makes the number no smaller.
proof fn lemma_digits_value_monotone(s: Seq<char>, k: int)
    requires
        0 <= k <= s.len(),
        forall|i: int| 0 <= i < s.len() ==> is_digit(s[i]),
    ensures
        digits_value(s.take(k)) <= digits_value(s),
    decreases s.len(),
{
    if k == s.len() {
        assert(s.take(k) =~= s);
    } else {
        lemma_digits_value_monotone(s.drop_last(), k);
        assert(s.drop_last().take(k) =~= s.take(k));
    }
}

/// Reads the number written in `chars[from..to]`.
pub fn parse_usize(chars: &Vec<char>, from: usize, to: usize) -> (number: Option<usize>)
    requires
        from <= to <= chars@.len(),
    ensures
        number == written_usize(chars@.subrange(from as int, to as int)),
{
    let ghost text = chars@.subrange(from as int, to as int);
    let start: usize = if from < to && chars[from] == '+' {
        from + 1
    } else {
        from
    };
    let ghost digits = unsigned_digits(text);
    proof {
        assert(digits =~= chars@.subrange(start as int, to as int));
    }
    if start == to {
        return None;
    }
    let mut value: usize = 0;
    let mut i: usize = start;
    while i < to
        invariant
            start <= i <= to <= chars@.len(),
            start < to,
            from <= start,
            text == chars@.subrange(from as int, to as int),
            digits == unsigned_digits(text),
            digits == chars@.subrange(start as int, to as int),
            forall|j: int| 0 <= j < i - start ==> is_digit(digits[j]),
            value == digits_value(digits.take(i - start)),
        decreases to - i,
    {
        let c: char = chars[i];
        proof {
            assert(digits[i - start] == c);
        }
        if c < '0' || c > '9' {
            return None;
        }
        let digit: usize = (c as u32 - '0' as u32) as usize;
        let ghost next = digits.take(i - start + 1);
        proof {
            assert(next.drop_last() =~= digits.take(i - start));
            assert(next.last() == c);
            if forall|j: int| 0 <= j < digits.len() ==> is_digit(digits[j]) {
                lemma_digits_value_monotone(digits, i - start + 1);
            }
        }
        if value > usize::MAX / 10 || value * 10 > usize::MAX - digit {
            return None;
        }
        value = value * 10 + digit;
        i += 1;
    }
    proof {
        assert(digits.take(to - start) =~= digits);
    }
    Some(value)
}

/// Writes a number in decimal.
pub fn decimal_text(n: usize) -> (text: String)
    ensures
        text@ == decimal(n as nat),
    decreases n,
{
    if n < 10 {
        let mut text = String::new();
        text.push(digit_of(n));
        proof {
            assert(text@ =~= decimal(n as nat));
        }
        text
    } else {
        let mut text = decimal_text(n / 10);
        text.push(digit_of(n % 10));
        text
    }
}

fn digit_of(d: usize) -> (c: char)
    requires
        d < 10,
    ensures
        c == digit_char(d as nat),
{
    (48 + d as u8) as char
}

/// Decimal text is digits only, and never empty.
pub proof fn lemma_decimal_digits(n: nat)
    ensures
        decimal(n).len() > 0,
        forall|i: int| 0 <= i < decimal(n).len() ==> is_digit(#[trigger] decimal(n)[i]),
        digits_value(decimal(n)) == n,
    decreases n,
{
    if n >= 10 {
        lemma_decimal_digits(n / 10);
        assert(decimal(n).drop_last() =~= decimal(n / 10));
        assert forall|i: int| 0 <= i < decimal(n).len() implies is_digit(
            #[trigger] decimal(n)[i],
        ) by {
            if i < decimal(n).len() - 1 {
                assert(decimal(n)[i] == decimal(n / 10)[i]);
            }
        }
    } else {
        reveal_with_fuel(digits_value, 2);
        assert(decimal(n).drop_last() =~= Seq::<char>::empty());
    }
}

/// Reading a number that was written in decimal gives it back.
pub proof fn lemma_decimal_round_trip(n: usize)
    ensures
        written_usize(decimal(n as nat)) == Some(n),
{
    lemma_decimal_digits(n as nat);
    let s = decimal(n as nat);
    assert(is_digit(s[0]));
    assert(unsigned_digits(s) == s);
}

// ---------------------------------------------------------------------------
// Laws
// ---------------------------------------------------------------------------

/// `a` and `b` agree on their first `n` characters, behind which `a` has a smaller
/// character than `b`, or none where `b` has one.
pub open spec fn goes_before_at(a: Seq<char>, b: Seq<char>, n: int) -> bool {
    &&& 0 <= n <= a.len()
    &&& n < b.len()
    &&& forall|i: int| 0 <= i < n ==> a[i] == b[i]
    &&& n == a.len() || a[n] < b[n]
}

/// `a` comes before `b` exactly where it does so at some character.
pub proof fn law_order_is_lexicographic(a: Seq<char>, b: Seq<char>)
    ensures
        text_before(a, b) <==> exists|n: int| goes_before_at(a, b, n),
    decreases b.len(),
{
    if b.len() == 0 {
    } else if a.len() == 0 || a[0] != b[0] {
        if text_before(a, b) {
            assert(goes_before_at(a, b, 0));
        }
    } else {
        let x = a.skip(1);
        let y = b.skip(1);
        law_order_is_lexicographic(x, y);
        if text_before(x, y) {
            let n = choose|n: int| goes_before_at(x, y, n);
            assert forall|i: int| 0 <= i < n + 1 implies a[i] == b[i] by {
                if i > 0 {
                    assert(x[i - 1] == y[i - 1]);
                }
            }
            assert(goes_before_at(a, b, n + 1));
        }
        if exists|n: int| goes_before_at(a, b, n) {
            let n = choose|n: int| goes_before_at(a, b, n);
            assert forall|i: int| 0 <= i < n - 1 implies x[i] == y[i] by {
                assert(a[i + 1] == b[i + 1]);
            }
            assert(goes_before_at(x, y, n - 1));
        }
    }
}

/// The parts before and after the first separator make up the text, with the
/// separator between them, and the part before has none.
pub proof fn law_parts_at_first_make_up_the_text(s: Seq<char>, separator: char)
    ensures
        match parts_at_first(s, separator) {
            Some((before, after)) => s == before.push(separator) + after && !before.contains(
                separator,
            ),
            None => !s.contains(separator),
        },
{
    s.index_of_first_ensures(separator);
    if let Some((before, after)) = parts_at_first(s, separator) {
        assert(s =~= before.push(separator) + after);
    }
}

/// Parts with a separator between each two.
pub open spec fn rejoined(parts: Seq<Seq<char>>, separator: char) -> Seq<char>
    decreases parts.len(),
{
    if parts.len() <= 1 {
        parts[0]
    } else {
        rejoined(parts.drop_last(), separator).push(separator) + parts.last()
    }
}

/// The parts between separators make up the text, with a separator between each
/// two, and none of them has one.
pub proof fn law_parts_between_make_up_the_text(s: Seq<char>, separator: char)
    ensures
        parts_between(s, separator).len() >= 1,
        rejoined(parts_between(s, separator), separator) == s,
        forall|i: int|
            0 <= i < parts_between(s, separator).len() ==> !(#[trigger] parts_between(
                s,
                separator,
            )[i]).contains(separator),
    decreases s.len(),
{
    let parts = parts_between(s, separator);
    if s.len() > 0 {
        let before = parts_between(s.drop_last(), separator);
        law_parts_between_make_up_the_text(s.drop_last(), separator);
        assert(s =~= s.drop_last().push(s.last()));
        if s.last() == separator {
            assert(parts.drop_last() =~= before);
            assert(rejoined(parts, separator) =~= s);
        } else {
            let last = before.last().push(s.last());
            assert(parts.drop_last() =~= before.drop_last());
            assert(parts.last() == last);
            assert(rejoined(parts, separator) =~= s);
            assert(!before[before.len() - 1].contains(separator));
            assert forall|i: int| 0 <= i < parts.len() implies !(#[trigger] parts[i]).contains(
                separator,
            ) by {
                if i < parts.len() - 1 {
                    assert(parts[i] == before[i]);
                } else if last.contains(separator) {
                    let j = choose|j: int| 0 <= j < last.len() && last[j] == separator;
                    assert(before.last()[j] == separator);
                }
            }
        }
    } else {
        assert(parts[0] =~= s);
    }
}

proof fn lemma_trimmed_start(s: Seq<char>) -> (from: int)
    ensures
        0 <= from <= s.len(),
        trimmed_start(s) == s.skip(from),
        forall|i: int| 0 <= i < from ==> white_space(#[trigger] s[i]),
        from < s.len() ==> !white_space(s[from]),
    decreases s.len(),
{
    if s.len() > 0 && white_space(s[0]) {
        let rest = s.skip(1);
        let from = lemma_trimmed_start(rest);
        assert(rest.skip(from) =~= s.skip(from + 1));
        assert forall|i: int| 0 <= i < from + 1 implies white_space(#[trigger] s[i]) by {
            if i > 0 {
                assert(white_space(rest[i - 1]));
            }
        }
        from + 1
    } else {
        assert(s.skip(0) =~= s);
        0
    }
}

proof fn lemma_trimmed_end(s: Seq<char>) -> (to: int)
    ensures
        0 <= to <= s.len(),
        trimmed_end(s) == s.take(to),
        forall|i: int| to <= i < s.len() ==> white_space(#[trigger] s[i]),
        to > 0 ==> !white_space(s[to - 1]),
    decreases s.len(),
{
    if s.len() > 0 && white_space(s.last()) {
        let rest = s.drop_last();
        let to = lemma_trimmed_end(rest);
        assert(rest.take(to) =~= s.take(to));
        assert forall|i: int| to <= i < s.len() implies white_space(#[trigger] s[i]) by {
            if i < rest.len() {
                assert(white_space(rest[i]));
            }
        }
        to
    } else {
        assert(s.take(s.len() as int) =~= s);
        s.len() as int
    }
}

/// Trimming takes away white space only, from the two ends only, and all of it
/// there.
pub proof fn law_trimming_takes_white_space_away(s: Seq<char>)
    ensures
        exists|from: int, to: int|
            0 <= from <= to <= s.len() && trimmed(s) == #[trigger] s.subrange(from, to) && (
            forall|i: int|
                0 <= i < from || to <= i < s.len() ==> white_space(#[trigger] s[i])) && (from < to
                ==> !white_space(s[from]) && !white_space(s[to - 1])),
{
    let from = lemma_trimmed_start(s);
    let rest = s.skip(from);
    let len = lemma_trimmed_end(rest);
    let to = from + len;
    assert(rest.take(len) =~= s.subrange(from, to));
    assert forall|i: int| 0 <= i < from || to <= i < s.len() implies white_space(
        #[trigger] s[i],
    ) by {
        if i >= to {
            assert(white_space(rest[i - from]));
        }
    }
    if from < to {
        assert(rest[len - 1] == s[to - 1]);
    }
}

/// A number below ten is written as one digit, and a greater one as the tenth of
/// it followed by one digit.
pub proof fn law_decimal_digits_are_written_in_order(n: nat)
    ensures
        n < 10 ==> decimal(n).len() == 1 && decimal(n)[0] as int == 48 + n,
        n >= 10 ==> decimal(n).drop_last() == decimal(n / 10) && decimal(n).last() as int == 48 + n
            % 10,
{
    if n >= 10 {
        assert(decimal(n).drop_last() =~= decimal(n / 10));
    }
}

/// A written number is an optional plus sign and digits. One digit stands for
/// itself, and one more digit makes a number ten times as great and adds itself.
pub proof fn law_written_digits_are_read_in_order(s: Seq<char>, d: char)
    ensures
        s.len() == 0 ==> written_number(s) is None,
        s.len() > 0 && s[0] == '+' ==> (written_number(s) is Some <==> s.len() > 1 && forall|
            i: int,
        |
            1 <= i < s.len() ==> '0' <= #[trigger] s[i] <= '9'),
        s.len() > 0 && s[0] != '+' ==> (written_number(s) is Some <==> forall|i: int|
            0 <= i < s.len() ==> '0' <= #[trigger] s[i] <= '9'),
        '0' <= d <= '9' ==> written_number(seq![d]) == Some((d as int - 48) as nat),
        '0' <= d <= '9' && written_number(s) is Some ==> written_number(s.push(d)) == Some(
            (written_number(s)->0 * 10 + (d as int - 48)) as nat,
        ),
{
    let digits = unsigned_digits(s);
    if s.len() > 0 && s[0] == '+' {
        if forall|i: int| 1 <= i < s.len() ==> '0' <= #[trigger] s[i] <= '9' {
            assert forall|i: int| 0 <= i < digits.len() implies is_digit(digits[i]) by {
                assert('0' <= s[i + 1] <= '9');
            }
        }
        if forall|i: int| 0 <= i < digits.len() ==> is_digit(digits[i]) {
            assert forall|i: int| 1 <= i < s.len() implies '0' <= #[trigger] s[i] <= '9' by {
                assert(is_digit(digits[i - 1]));
            }
        }
    } else if s.len() > 0 && written_number(s) is Some {
        assert forall|i: int| 0 <= i < s.len() implies '0' <= #[trigger] s[i] <= '9' by {
            assert(is_digit(digits[i]));
        }
    }
    if '0' <= d <= '9' {
        let one = seq![d];
        assert(unsigned_digits(one) == one);
        assert(is_digit(one[0]));
        reveal_with_fuel(digits_value, 2);
        assert(one.drop_last() =~= Seq::<char>::empty());
        if written_number(s) is Some {
            let more = unsigned_digits(s.push(d));
            assert(more =~= digits.push(d));
            assert(more.drop_last() =~= digits);
            assert forall|i: int| 0 <= i < more.len() implies is_digit(#[trigger] more[i]) by {
                if i < digits.len() {
                    assert(more[i] == digits[i]);
                }
            }
        }
    }
}

} // verus!
