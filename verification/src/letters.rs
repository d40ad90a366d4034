//! Characters: which make up words, and what their lower case is.
//!
//! What the standard library takes from the tables of Unicode is named here, not
//! spelled out; of ASCII it is said in full.
use vstd::prelude::*;

verus! {

/// The capital sigma. Which of the two small ones it becomes depends on what
/// stands around it.
pub const CAPITAL_SIGMA: char = '\u{3a3}';

/// The small sigma inside a word.
pub const SMALL_SIGMA: char = '\u{3c3}';

/// The small sigma at the end of a word.
pub const FINAL_SIGMA: char = '\u{3c2}';

/// The lower-case form of a text, by the tables of Unicode.
pub uninterp spec fn lowercase_of(text: Seq<char>) -> Seq<char>;

/// Whether a character is a letter or a number, by the tables of Unicode.
pub uninterp spec fn alphanumeric(c: char) -> bool;

/// Whether a character belongs to ASCII.
pub open spec fn ascii(c: char) -> bool {
    c as int <= 0x7f
}

/// Whether a character is one of the capital letters A to Z.
pub open spec fn ascii_capital(c: char) -> bool {
    'A' as int <= c as int <= 'Z' as int
}

/// Whether a character is an ASCII letter or digit.
pub open spec fn ascii_alphanumeric(c: char) -> bool {
    ||| '0' as int <= c as int <= '9' as int
    ||| 'a' as int <= c as int <= 'z' as int
    ||| ascii_capital(c)
}

/// The small letter of a capital A to Z, and any other character unchanged.
pub open spec fn ascii_lower(c: char) -> char {
    if ascii_capital(c) {
        (c as int + 0x20) as char
    } else {
        c
    }
}

/// Whether a character is white space: the `White_Space` property of Unicode.
pub open spec fn white_space(c: char) -> bool {
    let n = c as int;
    ||| 0x09 <= n <= 0x0d
    ||| n == 0x20
    ||| n == 0x85
    ||| n == 0xa0
    ||| n == 0x1680
    ||| 0x2000 <= n <= 0x200a
    ||| 0x2028 <= n <= 0x2029
    ||| n == 0x202f
    ||| n == 0x205f
    ||| n == 0x3000
}

/// Whether a character is a letter or a number.
pub open spec fn letter_or_number(c: char) -> bool {
    if ascii(c) {
        ascii_alphanumeric(c)
    } else {
        c == SMALL_SIGMA || c == FINAL_SIGMA || alphanumeric(c)
    }
}

/// Whether a character is an ASCII character that is neither a letter, a digit nor
/// white space: punctuation, symbols and control characters.
pub open spec fn ascii_punctuation(c: char) -> bool {
    ascii(c) && !ascii_alphanumeric(c) && !white_space(c)
}

/// The lower-case form of a character by itself.
pub open spec fn lower_char(c: char) -> Seq<char> {
    if ascii(c) {
        seq![ascii_lower(c)]
    } else if c == CAPITAL_SIGMA {
        seq![SMALL_SIGMA]
    } else {
        lowercase_of(seq![c])
    }
}

/// The lower-case form of a text, character by character.
pub open spec fn lowered(text: Seq<char>) -> Seq<char>
    decreases text.len(),
{
    if text.len() == 0 {
        Seq::empty()
    } else {
        lowered(text.drop_last()) + lower_char(text.last())
    }
}

/// A character, with the final sigma taken for the one inside a word.
pub open spec fn unended(c: char) -> char {
    if c == FINAL_SIGMA {
        SMALL_SIGMA
    } else {
        c
    }
}

/// A text, with every final sigma taken for the one inside a word.
pub open spec fn without_final_sigma(text: Seq<char>) -> Seq<char> {
    Seq::new(text.len(), |i: int| unended(text[i]))
}

/// `str::to_lowercase`: the lower-case form of the text, a function of the text
/// alone. Apart from small sigmas it is put together from the forms of the single
/// characters; of ASCII, A to Z become a to z and the rest stays. Where a capital
/// sigma becomes a final one is not said here, nor what the tables of Unicode hold
/// beyond ASCII.
#[verifier::external_body]
pub(crate) fn to_lowercase(text: &str) -> (lower: String)
    ensures
        lower@ == lowercase_of(text@),
        without_final_sigma(lower@) == without_final_sigma(lowered(text@)),
{
    text.to_lowercase()
}

/// `char::is_alphanumeric`: a property of the character alone. Of ASCII, letters
/// and digits have it; beyond ASCII only the small sigmas are said to have it.
#[verifier::external_body]
pub(crate) fn is_alphanumeric(c: char) -> (result: bool)
    ensures
        result == alphanumeric(c),
        ascii(c) ==> result == ascii_alphanumeric(c),
        c == SMALL_SIGMA || c == FINAL_SIGMA ==> result,
{
    c.is_alphanumeric()
}

/// `char::is_whitespace`: whether the character has Unicode's `White_Space`
/// property.
#[verifier::external_body]
pub(crate) fn is_whitespace(c: char) -> (result: bool)
    ensures
        result == white_space(c),
{
    c.is_whitespace()
}

/// Of ASCII, the capitals A to Z, at codes 65 to 90, become the small letters 32 codes
/// later, and nothing else changes; digits and letters make words, and blank and the
/// codes 9 to 13 end them.
pub proof fn law_ascii_by_codes(c: char)
    requires
        c as int <= 127,
    ensures
        65 <= c as int <= 90 ==> lower_char(c).len() == 1 && lower_char(c)[0] as int == c as int
            + 32,
        !(65 <= c as int <= 90) ==> lower_char(c) == seq![c],
        letter_or_number(c) <==> (48 <= c as int <= 57 || 65 <= c as int <= 90 || 97 <= c as int
            <= 122),
        white_space(c) <==> (c as int == 32 || 9 <= c as int <= 13),
        !(letter_or_number(c) && white_space(c)),
{
}

/// Lower case goes character by character: the form of two texts in a row is the forms
/// of both in a row.
pub proof fn law_lower_case_is_put_together(a: Seq<char>, b: Seq<char>)
    ensures
        lowered(a + b) == lowered(a) + lowered(b),
    decreases b.len(),
{
    if b.len() == 0 {
        assert(a + b == a);
        assert(lowered(a) + lowered(b) == lowered(a));
    } else {
        law_lower_case_is_put_together(a, b.drop_last());
        assert((a + b).drop_last() == a + b.drop_last());
        assert((a + b).last() == b.last());
        assert(lowered(a) + lowered(b) =~= (lowered(a) + lowered(b.drop_last())) + lower_char(
            b.last(),
        ));
    }
}

/// A character by itself has the form it has in a text.
pub proof fn law_lower_case_of_one(c: char)
    ensures
        lowered(seq![c]) == lower_char(c),
{
    assert(seq![c].drop_last() == Seq::<char>::empty());
    assert(lowered(Seq::<char>::empty()) == Seq::<char>::empty());
    assert(lowered(seq![c]) =~= lower_char(c));
}

} // verus!
