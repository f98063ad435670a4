//! The 62-character code alphabet: `0-9`, then `a-z`, then `A-Z`.

use vstd::prelude::*;
use vstd::string::*;

verus! {

/// The symbols in digit order.
pub const ALPHABET: &'static str = "0123456789abcdefghijklmnopqrstuvwxyzABCDEFGHIJKLMNOPQRSTUVWXYZ";

/// The symbol that stands for digit `d`.
pub open spec fn digit_char(d: int) -> char {
    if d < 10 {
        (('0' as int) + d) as char
    } else if d < 36 {
        (('a' as int) + d - 10) as char
    } else {
        (('A' as int) + d - 36) as char
    }
}

/// Whether `c` is one of the 62 symbols.
pub open spec fn is_symbol(c: char) -> bool {
    ||| '0' <= c <= '9'
    ||| 'a' <= c <= 'z'
    ||| 'A' <= c <= 'Z'
}

/// The literal alphabet lists exactly the digit symbols, in order.
pub proof fn lemma_alphabet_literal()
    ensures
        ALPHABET@.len() == 62,
        forall|d: int| 0 <= d < 62 ==> #[trigger] ALPHABET@[d] == digit_char(d),
        is_ascii(ALPHABET),
{
    reveal_strlit("0123456789abcdefghijklmnopqrstuvwxyzABCDEFGHIJKLMNOPQRSTUVWXYZ");
}

/// The one-symbol string for digit `d`.
pub(crate) fn digit_str(d: u8) -> (s: &'static str)
    requires
        d < 62,
    ensures
        s@ == seq![digit_char(d as int)],
{
    proof {
        lemma_alphabet_literal();
    }
    let i: usize = d as usize;
    ALPHABET.substring_ascii(i, i + 1)
}

/// Whether the byte is the ASCII form of one of the 62 symbols.
pub(crate) fn is_symbol_byte(b: u8) -> (r: bool)
    ensures
        r == is_symbol(b as char),
{
    // '0'..='9', 'a'..='z', 'A'..='Z'
    (48 <= b && b <= 57) || (97 <= b && b <= 122) || (65 <= b && b <= 90)
}

/// Every digit has a symbol, and different digits have different symbols.
pub proof fn lemma_digit_char(d: int, e: int)
    requires
        0 <= d < 62,
        0 <= e < 62,
    ensures
        is_symbol(digit_char(d)),
        (digit_char(d) as int) < 128,
        digit_char(d) == digit_char(e) ==> d == e,
        digit_char(d) == '0' <==> d == 0,
{
}

/// Every symbol stands for some digit.
pub proof fn lemma_symbol_has_digit(c: char)
    requires
        is_symbol(c),
    ensures
        exists|d: int| 0 <= d < 62 && #[trigger] digit_char(d) == c,
{
    let d: int = if '0' <= c <= '9' {
        c as int - '0' as int
    } else if 'a' <= c <= 'z' {
        c as int - 'a' as int + 10
    } else {
        c as int - 'A' as int + 36
    };
    assert(digit_char(d) == c);
}

} // verus!
