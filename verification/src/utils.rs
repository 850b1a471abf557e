//! Utility functions.

use vstd::prelude::*;

use crate::text;

verus! {

/// The text itself where it has at most `max_chars` characters, and else its
/// first `max_chars - 1` characters (none where that is negative) followed by
/// an ellipsis.
pub open spec fn ellipsized(s: Seq<char>, max_chars: nat) -> Seq<char> {
    if s.len() <= max_chars {
        s
    } else if max_chars == 0 {
        seq!['…']
    } else {
        s.take(max_chars - 1).push('…')
    }
}

/// Ellipsizes a string if it exceeds `max_chars`.
pub fn ellipsize(s: &str, max_chars: usize) -> (text: String)
    ensures
        text@ == ellipsized(s@, max_chars as nat),
{
    let chars: Vec<char> = text::chars_of(s);
    if chars.len() <= max_chars {
        s.to_owned()
    } else {
        let kept: usize = if max_chars > 0 {
            max_chars - 1
        } else {
            0
        };
        let mut truncated = text::string_of(&chars, 0, kept);
        truncated.push('…');
        proof {
            assert(truncated@ =~= ellipsized(s@, max_chars as nat));
        }
        truncated
    }
}

/// An ellipsized text is never longer than the bound, unless the bound is zero
/// and the text is not empty: then it is the ellipsis alone.
pub proof fn law_ellipsized_fits(s: Seq<char>, max_chars: nat)
    ensures
        max_chars > 0 ==> ellipsized(s, max_chars).len() <= max_chars,
        max_chars == 0 && s.len() > 0 ==> ellipsized(s, max_chars) == seq!['…'],
{
}

/// Ellipsizing twice to the same bound changes nothing more.
pub proof fn law_ellipsized_once(s: Seq<char>, max_chars: nat)
    ensures
        ellipsized(ellipsized(s, max_chars), max_chars) == ellipsized(s, max_chars),
{
}

/// A text that fits stays as it is. One that does not keeps its first characters,
/// as many as fit before the ellipsis that ends it.
pub proof fn law_ellipsized_keeps_the_start(s: Seq<char>, max_chars: nat)
    ensures
        s.len() <= max_chars ==> ellipsized(s, max_chars) == s,
        s.len() > max_chars ==> {
            let short = ellipsized(s, max_chars);
            &&& short.len() == if max_chars == 0 {
                1
            } else {
                max_chars
            }
            &&& short.last() == '…'
            &&& forall|i: int| 0 <= i < short.len() - 1 ==> short[i] == s[i]
        },
{
}

} // verus!
