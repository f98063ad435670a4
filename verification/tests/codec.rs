use shortcodes::codec::{id_to_code, validate_code, CODE_SPACE, MAX_CODE_LEN, MIN_CODE_LEN};
use shortcodes::error::ApiError;
use std::collections::HashSet;

fn bad_request(text: &str) -> ApiError {
    ApiError::BadRequest(text.to_string())
}

#[test]
fn identity_one_is_padded_to_two_symbols() {
    assert_eq!(id_to_code(1), Ok("01".to_string()));
}

#[test]
fn single_digit_identities_get_a_leading_zero() {
    assert_eq!(id_to_code(9), Ok("09".to_string()));
    assert_eq!(id_to_code(10), Ok("0a".to_string()));
    assert_eq!(id_to_code(35), Ok("0z".to_string()));
    assert_eq!(id_to_code(36), Ok("0A".to_string()));
    assert_eq!(id_to_code(61), Ok("0Z".to_string()));
}

#[test]
fn digits_run_most_significant_first() {
    assert_eq!(id_to_code(62), Ok("10".to_string()));
    assert_eq!(id_to_code(63), Ok("11".to_string()));
    assert_eq!(id_to_code(3843), Ok("ZZ".to_string()));
    assert_eq!(id_to_code(3844), Ok("100".to_string()));
    assert_eq!(id_to_code(238_327), Ok("ZZZ".to_string()));
    assert_eq!(id_to_code(238_328), Ok("1000".to_string()));
    assert_eq!(id_to_code(14_776_335), Ok("ZZZZ".to_string()));
    // 1 * 62^3 + 10 * 62^2 + 36 * 62 + 9
    assert_eq!(id_to_code(279_009), Ok("1aA9".to_string()));
}

#[test]
fn five_symbol_identities_succeed() {
    assert_eq!(id_to_code(14_776_336), Ok("10000".to_string()));
    assert_eq!(id_to_code(916_132_831), Ok("ZZZZZ".to_string()));
}

#[test]
fn first_six_symbol_identity_is_exhausted() {
    assert_eq!(CODE_SPACE, 916_132_832);
    assert_eq!(id_to_code(CODE_SPACE - 1), Ok("ZZZZZ".to_string()));
    assert_eq!(id_to_code(CODE_SPACE), Err(ApiError::Exhausted));
    assert_eq!(id_to_code(CODE_SPACE + 1), Err(ApiError::Exhausted));
    assert_eq!(id_to_code(i64::MAX), Err(ApiError::Exhausted));
}

#[test]
fn identities_below_one_are_invalid() {
    assert_eq!(id_to_code(0), Err(bad_request("invalid id")));
    assert_eq!(id_to_code(-1), Err(bad_request("invalid id")));
    assert_eq!(id_to_code(i64::MIN), Err(bad_request("invalid id")));
}

#[test]
fn codes_of_different_identities_differ() {
    let mut seen = HashSet::new();
    for id in 1..=5000i64 {
        let code = id_to_code(id).unwrap();
        assert!(seen.insert(code), "identity {} repeats a code", id);
    }
    for id in [238_327i64, 238_328, 14_776_335, 14_776_336, 916_132_831] {
        let code = id_to_code(id).unwrap();
        assert!(seen.insert(code), "identity {} repeats a code", id);
    }
}

#[test]
fn every_code_passes_validation() {
    for id in [1i64, 9, 10, 61, 62, 3843, 3844, 238_328, 14_776_336, 916_132_831] {
        let code = id_to_code(id).unwrap();
        assert!(MIN_CODE_LEN <= code.len() && code.len() <= MAX_CODE_LEN);
        assert_eq!(validate_code(&code), Ok(()));
    }
}

#[test]
fn codes_of_two_to_five_symbols_are_valid() {
    assert_eq!(validate_code("01"), Ok(()));
    assert_eq!(validate_code("aZ9"), Ok(()));
    assert_eq!(validate_code("zzzz"), Ok(()));
    assert_eq!(validate_code("zzzzz"), Ok(()));
    assert_eq!(validate_code("00000"), Ok(()));
}

#[test]
fn codes_of_wrong_length_are_invalid() {
    assert_eq!(validate_code(""), Err(bad_request("code length must be 2..=5")));
    assert_eq!(validate_code("a"), Err(bad_request("code length must be 2..=5")));
    assert_eq!(validate_code("abcdef"), Err(bad_request("code length must be 2..=5")));
    // the length is judged before the symbols
    assert_eq!(validate_code("!"), Err(bad_request("code length must be 2..=5")));
    assert_eq!(validate_code("!!!!!!"), Err(bad_request("code length must be 2..=5")));
}

#[test]
fn codes_with_foreign_symbols_are_invalid() {
    assert_eq!(validate_code("zz9!!"), Err(bad_request("code contains invalid characters")));
    assert_eq!(validate_code("a b"), Err(bad_request("code contains invalid characters")));
    assert_eq!(validate_code("ab-"), Err(bad_request("code contains invalid characters")));
    assert_eq!(validate_code("ab/"), Err(bad_request("code contains invalid characters")));
    assert_eq!(validate_code("a:b"), Err(bad_request("code contains invalid characters")));
    assert_eq!(validate_code("a@b"), Err(bad_request("code contains invalid characters")));
    assert_eq!(validate_code("a[b"), Err(bad_request("code contains invalid characters")));
    assert_eq!(validate_code("a`b"), Err(bad_request("code contains invalid characters")));
    assert_eq!(validate_code("a{b"), Err(bad_request("code contains invalid characters")));
}

#[test]
fn length_of_a_code_is_counted_in_bytes() {
    // two letters of two bytes each: the length passes, the symbols do not
    assert_eq!(validate_code("\u{e9}\u{e9}"), Err(bad_request("code contains invalid characters")));
    // three such letters are six bytes
    assert_eq!(validate_code("\u{e9}\u{e9}\u{e9}"), Err(bad_request("code length must be 2..=5")));
    // one letter of two bytes
    assert_eq!(validate_code("\u{e9}"), Err(bad_request("code contains invalid characters")));
}
