//! Text: quoting, decimal numbers, blank text.

use crate::order::{lemma_precedes_irreflexive, rank_text, text_code, Rank};
use vstd::prelude::*;

verus! {

/// The decimal digit of `n`, for `n` below ten.
pub open spec fn decimal_digit(n: nat) -> char {
    (('0' as nat) + n) as char
}

/// `n` in decimal notation, without leading zeros.
pub open spec fn decimal_text(n: nat) -> Seq<char>
    decreases n,
{
    if n < 10 {
        seq![decimal_digit(n)]
    } else {
        decimal_text(n / 10).push(decimal_digit(n % 10))
    }
}

/// `text` in double quotes, with what `Debug` of `str` escapes in it escaped.
pub uninterp spec fn debug_text(text: Seq<char>) -> Seq<char>;

/// `c` has the Unicode property `White_Space`.
pub open spec fn is_white_space(c: char) -> bool {
    ||| '\u{9}' <= c <= '\u{d}'
    ||| c == ' '
    ||| c == '\u{85}'
    ||| c == '\u{a0}'
    ||| c == '\u{1680}'
    ||| '\u{2000}' <= c <= '\u{200a}'
    ||| '\u{2028}' <= c <= '\u{2029}'
    ||| c == '\u{202f}'
    ||| c == '\u{205f}'
    ||| c == '\u{3000}'
}

/// `text` is empty once the white space at its ends is left out.
pub open spec fn is_blank(text: Seq<char>) -> bool {
    forall|i: int| 0 <= i < text.len() ==> is_white_space(#[trigger] text[i])
}

/// `c` with an ASCII capital made small.
pub open spec fn ascii_lower(c: char) -> char {
    if 'A' <= c <= 'Z' {
        ((c as nat) + 32) as char
    } else {
        c
    }
}

/// `text` with each ASCII capital made small.
pub open spec fn lower_text(text: Seq<char>) -> Seq<char> {
    text.map_values(|c: char| ascii_lower(c))
}

/// `String::push` of std: `c` is added at the end of the text.
pub assume_specification[ String::push ](text: &mut String, c: char)
    ensures
        final(text)@ == old(text)@.push(c),
;

/// `str::to_ascii_lowercase` of std: a copy of the text in which `A` to `Z` are mapped to `a` to
/// `z` and every other character is as it was.
pub assume_specification[ str::to_ascii_lowercase ](text: &str) -> (lower: String)
    ensures
        lower@ == lower_text(text@),
;

/// `char::is_whitespace` of std: whether the character has the property `White_Space` of the
/// Unicode Character Database, which lists 25 characters for it.
pub assume_specification[ char::is_whitespace ](c: char) -> (white: bool)
    ensures
        white == is_white_space(c),
;

/// Calls `Debug` of std's `str`. Its documentation does not spell out which characters it escapes,
/// so the contract only names the text that it gives for `text`.
#[verifier::external_body]
pub(crate) fn quoted(text: &str) -> (quoted: String)
    ensures
        quoted@ == debug_text(text@),
{
    format!("{:?}", text)
}

/// `n` in decimal notation.
pub fn decimal(n: u64) -> (text: String)
    ensures
        text@ == decimal_text(n as nat),
    decreases n,
{
    let mut text = if n < 10 {
        String::new()
    } else {
        decimal(n / 10)
    };
    let digit: u8 = (n % 10) as u8;
    text.push((48u8 + digit) as char);
    assert(text@ =~= decimal_text(n as nat));
    text
}

/// Whether `text` is empty once the white space at its ends is left out.
pub fn blank(text: &str) -> (blank: bool)
    ensures
        blank == is_blank(text@),
{
    let mut rest = text.chars();
    let ghost mut seen: int = 0;
    loop
        invariant
            0 <= seen <= text@.len(),
            vstd::std_specs::iter::IteratorSpec::remaining(&rest) == text@.skip(seen),
            forall|i: int| 0 <= i < seen ==> is_white_space(#[trigger] text@[i]),
        decreases text@.len() - seen,
    {
        match rest.next() {
            None => {
                return true;
            },
            Some(c) => {
                assert(c == text@[seen]);
                if !c.is_whitespace() {
                    return false;
                }
                proof {
                    assert(text@.skip(seen).drop_first() =~= text@.skip(seen + 1));
                    seen = seen + 1;
                }
            },
        }
    }
}

/// Whether two texts are the same.
pub fn same_text(a: &str, b: &str) -> (same: bool)
    ensures
        same == (a@ == b@),
{
    match rank_text(a, b) {
        Rank::Same => true,
        _ => {
            proof {
                lemma_precedes_irreflexive(text_code(a@));
            }
            false
        },
    }
}

/// A text is blank exactly where it holds nothing but spaces, tabs, line breaks and the other white
/// space of Unicode.
pub proof fn law_blank_texts_hold_only_white_space(text: Seq<char>)
    ensures
        is_blank(text) <==> forall|i: int|
            0 <= i < text.len() ==> is_white_space(#[trigger] text[i]),
        text.len() == 0 ==> is_blank(text),
        forall|i: int| 0 <= i < text.len() && 'a' <= #[trigger] text[i] <= 'z' ==> !is_blank(text),
        forall|i: int| 0 <= i < text.len() && '0' <= #[trigger] text[i] <= '9' ==> !is_blank(text),
{
}

/// Texts are the same where all their characters are, and a text is blank where it holds nothing
/// but white space.
pub proof fn law_texts_are_compared_as_a_whole(
    a: &str,
    b: &str,
    same: bool,
    is_blank_text: bool,
)
    requires
        call_ensures(same_text, (a, b), same),
        call_ensures(blank, (a,), is_blank_text),
    ensures
        same <==> a@.len() == b@.len() && forall|i: int| 0 <= i < a@.len() ==> a@[i] == b@[i],
        is_blank_text <==> forall|i: int| 0 <= i < a@.len() ==> is_white_space(#[trigger] a@[i]),
{
    if a@.len() == b@.len() && (forall|i: int| 0 <= i < a@.len() ==> a@[i] == b@[i]) {
        assert(a@ =~= b@);
    }
}

} // verus!
