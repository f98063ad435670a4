//! Codes: an identity written in base 62, two to five symbols long.

use crate::alphabet::{digit_char, digit_str, is_symbol, is_symbol_byte, lemma_digit_char};
use crate::error::{outcome_view, ApiError, ErrorView};
use vstd::prelude::*;
use vstd::string::*;
use vstd::utf8::*;

verus! {

/// Shortest code; shorter numerals are left-padded with the zero symbol.
pub const MIN_CODE_LEN: usize = 2;

/// Longest code; identities that need more symbols have no code.
pub const MAX_CODE_LEN: usize = 5;

/// Number of identities whose numeral fits in `MAX_CODE_LEN` symbols, zero
/// included: 62 to the fifth power.
pub const CODE_SPACE: i64 = 916_132_832;

/// What is said of an identity below one.
pub const MSG_INVALID_ID: &'static str = "invalid id";

/// What is said of a code that is too short or too long.
pub const MSG_CODE_LENGTH: &'static str = "code length must be 2..=5";

/// What is said of a code with a character from outside the alphabet.
pub const MSG_CODE_SYMBOLS: &'static str = "code contains invalid characters";

/// The base-62 numeral of `n`, most significant digit first, without
/// leading zeros; the numeral of zero is empty.
pub open spec fn base62(n: nat) -> Seq<char>
    decreases n,
{
    if n == 0 {
        Seq::empty()
    } else {
        base62(n / 62).push(digit_char((n % 62) as int))
    }
}

/// `s` left-padded with the zero symbol to `MIN_CODE_LEN` symbols.
pub open spec fn pad(s: Seq<char>) -> Seq<char> {
    if s.len() >= MIN_CODE_LEN {
        s
    } else {
        Seq::new((MIN_CODE_LEN - s.len()) as nat, |i: int| '0') + s
    }
}

/// The code of identity `id`.
pub open spec fn code_of(id: int) -> Seq<char> {
    pad(base62(id as nat))
}

/// Whether `s` has the form of a code: two to five alphabet symbols.
pub open spec fn is_code(s: Seq<char>) -> bool {
    &&& MIN_CODE_LEN <= s.len() <= MAX_CODE_LEN
    &&& forall|i: int| 0 <= i < s.len() ==> is_symbol(#[trigger] s[i])
}

/// What `id_to_code` answers for `id`.
pub open spec fn id_to_code_spec(id: int) -> Result<Seq<char>, ErrorView> {
    if id <= 0 {
        Err(ErrorView::BadRequest(MSG_INVALID_ID@))
    } else if base62(id as nat).len() > MAX_CODE_LEN {
        Err(ErrorView::Exhausted)
    } else {
        Ok(code_of(id))
    }
}

/// What `validate_code` answers for a string with these characters. The
/// length is counted in bytes of the UTF-8 form, and is judged first.
pub open spec fn validate_code_spec(s: Seq<char>) -> Result<(), ErrorView> {
    let n = encode_utf8(s).len();
    if !(MIN_CODE_LEN <= n <= MAX_CODE_LEN) {
        Err(ErrorView::BadRequest(MSG_CODE_LENGTH@))
    } else if !(forall|i: int| 0 <= i < s.len() ==> is_symbol(#[trigger] s[i])) {
        Err(ErrorView::BadRequest(MSG_CODE_SYMBOLS@))
    } else {
        Ok(())
    }
}

/// 62 to the power `k`.
pub open spec fn pow62(k: nat) -> nat
    decreases k,
{
    if k == 0 {
        1
    } else {
        62 * pow62((k - 1) as nat)
    }
}

/// A numeral has at most `k` digits exactly when the number is below
/// 62 to the power `k`.
pub proof fn lemma_base62_len(n: nat, k: nat)
    ensures
        base62(n).len() <= k <==> n < pow62(k),
    decreases k,
{
    if k == 0 {
    } else if n == 0 {
        lemma_pow62_positive(k);
    } else {
        lemma_base62_len(n / 62, (k - 1) as nat);
    }
}

/// Powers of 62 are positive.
pub proof fn lemma_pow62_positive(k: nat)
    ensures
        pow62(k) >= 1,
    decreases k,
{
    if k > 0 {
        lemma_pow62_positive((k - 1) as nat);
    }
}

/// The code space is 62 to the fifth power: an identity is out of codes
/// exactly from `CODE_SPACE` on.
pub proof fn lemma_exhaustion_threshold(id: int)
    requires
        id >= 0,
    ensures
        pow62(5) == CODE_SPACE,
        base62(id as nat).len() > MAX_CODE_LEN <==> id >= CODE_SPACE,
{
    assert(pow62(5) == 916_132_832) by {
        reveal_with_fuel(pow62, 6);
    }
    lemma_base62_len(id as nat, 5);
}

/// The numeral of a positive number is not empty, starts with a non-zero
/// digit, and holds alphabet symbols only.
pub proof fn lemma_base62_shape(n: nat)
    requires
        n > 0,
    ensures
        base62(n).len() >= 1,
        base62(n)[0] != '0',
        forall|i: int| 0 <= i < base62(n).len() ==> is_symbol(#[trigger] base62(n)[i]),
    decreases n,
{
    let head = base62(n / 62);
    let c = digit_char((n % 62) as int);
    lemma_digit_char((n % 62) as int, 0);
    if n / 62 > 0 {
        lemma_base62_shape(n / 62);
        assert(head.push(c)[0] == head[0]);
    } else {
        assert(head.len() == 0);
        assert(head.push(c)[0] == c);
    }
    assert forall|i: int| 0 <= i < base62(n).len() implies is_symbol(#[trigger] base62(n)[i]) by {
        if i < head.len() {
            assert(head.push(c)[i] == head[i]);
        }
    }
}

/// Different numbers have different numerals.
pub proof fn lemma_base62_injective(a: nat, b: nat)
    requires
        base62(a) == base62(b),
    ensures
        a == b,
    decreases a,
{
    if a == 0 || b == 0 {
        if a > 0 {
            lemma_base62_shape(a);
        }
        if b > 0 {
            lemma_base62_shape(b);
        }
    } else {
        let pa = base62(a / 62);
        let pb = base62(b / 62);
        let da = digit_char((a % 62) as int);
        let db = digit_char((b % 62) as int);
        assert(pa.push(da).last() == da);
        assert(pb.push(db).last() == db);
        assert(pa.push(da).drop_last() == pa);
        assert(pb.push(db).drop_last() == pb);
        lemma_digit_char((a % 62) as int, (b % 62) as int);
        lemma_base62_injective(a / 62, b / 62);
    }
}

/// Every identity with a code has a well-formed one.
pub proof fn lemma_code_of_is_code(id: int)
    requires
        0 < id < CODE_SPACE,
    ensures
        is_code(code_of(id)),
        id_to_code_spec(id) == Ok::<Seq<char>, ErrorView>(code_of(id)),
{
    lemma_exhaustion_threshold(id);
    lemma_base62_shape(id as nat);
}

/// Different identities have different codes.
pub proof fn lemma_code_of_injective(a: int, b: int)
    requires
        0 < a,
        0 < b,
        code_of(a) == code_of(b),
    ensures
        a == b,
{
    let na = base62(a as nat);
    let nb = base62(b as nat);
    lemma_base62_shape(a as nat);
    lemma_base62_shape(b as nat);
    let zero = Seq::new(1, |i: int| '0');
    if na.len() >= 2 && nb.len() >= 2 {
    } else if na.len() < 2 && nb.len() < 2 {
        assert(na =~= (zero + na).skip(1));
        assert(nb =~= (zero + nb).skip(1));
    } else if na.len() < 2 {
        assert((zero + na)[0] == '0');
    } else {
        assert((zero + nb)[0] == '0');
    }
    lemma_base62_injective(a as nat, b as nat);
}

/// A string passes validation exactly when it has the form of a code.
pub proof fn lemma_validate_code_spec(s: Seq<char>)
    ensures
        validate_code_spec(s) is Ok <==> is_code(s),
{
    if forall|i: int| 0 <= i < s.len() ==> is_symbol(#[trigger] s[i]) {
        assert(is_ascii_chars(s)) by {
            assert forall|i: int| 0 <= i < s.len() implies '\0' <= #[trigger] s[i] <= '\u{7f}' by {
                assert(is_symbol(s[i]));
            }
        }
        is_ascii_chars_encode_utf8(s);
    }
}

/// Renders a positive identity as its code; identities from `CODE_SPACE`
/// on are refused as exhausted, and those below one as malformed.
pub fn id_to_code(id: i64) -> (res: Result<String, ApiError>)
    ensures
        outcome_view(res) == id_to_code_spec(id as int),
{
    if id <= 0 {
        return Err(ApiError::BadRequest(MSG_INVALID_ID.to_owned()));
    }
    let mut n: u64 = id as u64;
    let mut s = String::new();
    while n > 0
        invariant
            base62(id as nat) == base62(n as nat) + s@,
        decreases n,
    {
        let d: u8 = (n % 62) as u8;
        let ghost tail = s@;
        s = digit_str(d).to_owned().concat(s.as_str());
        proof {
            let head = base62((n / 62) as nat);
            let c = digit_char(d as int);
            assert(head.push(c) + tail =~= head + (seq![c] + tail));
        }
        n = n / 62;
    }
    assert(s@ =~= base62(id as nat));
    let len = s.as_str().unicode_len();
    if len > MAX_CODE_LEN {
        return Err(ApiError::Exhausted);
    }
    if len < MIN_CODE_LEN {
        proof {
            lemma_base62_shape(id as nat);
            reveal_strlit("0");
            assert("0"@ =~= Seq::new(1, |i: int| '0'));
        }
        s = "0".to_owned().concat(s.as_str());
    }
    Ok(s)
}

/// Accepts strings that have the form of a code and says of the others
/// what is wrong with them.
pub fn validate_code(code: &str) -> (res: Result<(), ApiError>)
    ensures
        res is Ok <==> is_code(code@),
        match res {
            Ok(_) => validate_code_spec(code@) is Ok,
            Err(e) => validate_code_spec(code@) == Err::<(), ErrorView>(e@),
        },
{
    proof {
        lemma_validate_code_spec(code@);
    }
    let len = code.as_bytes().len();
    if len < MIN_CODE_LEN || len > MAX_CODE_LEN {
        return Err(ApiError::BadRequest(MSG_CODE_LENGTH.to_owned()));
    }
    if !code.is_ascii() {
        proof {
            let i = choose|i: int|
                0 <= i < code@.len() && !('\0' <= #[trigger] code@[i] <= '\u{7f}');
            assert(!is_symbol(code@[i]));
        }
        return Err(ApiError::BadRequest(MSG_CODE_SYMBOLS.to_owned()));
    }
    proof {
        is_ascii_chars_encode_utf8(code@);
    }
    let mut i: usize = 0;
    while i < len
        invariant
            i <= len,
            len == code@.len(),
            len == encode_utf8(code@).len(),
            MIN_CODE_LEN <= len <= MAX_CODE_LEN,
            is_ascii(code),
            forall|j: int| 0 <= j < i ==> is_symbol(#[trigger] code@[j]),
        decreases len - i,
    {
        let b = code.get_ascii(i);
        if !is_symbol_byte(b) {
            assert(!is_symbol(code@[i as int]));
            return Err(ApiError::BadRequest(MSG_CODE_SYMBOLS.to_owned()));
        }
        i = i + 1;
    }
    Ok(())
}

} // verus!
