use shortcodes::engine::{encode_next, encode_start, EncodeState};
use shortcodes::error::ApiError;
use shortcodes::protocol::{Reply, Request, Row, Step};
use shortcodes::service::{decode, encode, encode_resume};
use shortcodes::table::Table;

fn text(s: &str) -> String {
    s.to_string()
}

#[test]
fn decode_gives_back_what_encode_took() {
    let mut table = Table::new();
    for value in ["https://example.org/a", "b", "\u{6570}\u{636e}", " ", "01"] {
        let code = encode(&mut table, value).unwrap();
        assert_eq!(decode(&mut table, &code), Ok(text(value)));
    }
    // earlier codes still lead to their values
    assert_eq!(decode(&mut table, "01"), Ok(text("https://example.org/a")));
    assert_eq!(decode(&mut table, "05"), Ok(text("01")));
}

#[test]
fn first_values_get_the_codes_of_one_two_three() {
    let mut table = Table::new();
    assert_eq!(encode(&mut table, "a"), Ok(text("01")));
    assert_eq!(encode(&mut table, "b"), Ok(text("02")));
    assert_eq!(encode(&mut table, "c"), Ok(text("03")));
    assert_eq!(table.len(), 3);
}

#[test]
fn encoding_twice_gives_the_same_code() {
    let mut table = Table::new();
    let first = encode(&mut table, "same").unwrap();
    let again = encode(&mut table, "same").unwrap();
    assert_eq!(first, again);
    assert_eq!(table.len(), 1);
    encode(&mut table, "other").unwrap();
    encode(&mut table, "third").unwrap();
    assert_eq!(encode(&mut table, "same"), Ok(first));
    assert_eq!(table.len(), 3);
}

#[test]
fn different_values_get_different_codes() {
    let mut table = Table::new();
    let a = encode(&mut table, "value one").unwrap();
    let b = encode(&mut table, "value two").unwrap();
    assert_ne!(a, b);
    let mut codes = vec![a, b];
    for i in 0..200 {
        codes.push(encode(&mut table, &format!("v{}", i)).unwrap());
    }
    let mut sorted = codes.clone();
    sorted.sort();
    sorted.dedup();
    assert_eq!(sorted.len(), codes.len());
}

#[test]
fn encode_of_the_empty_value_is_invalid_input() {
    let mut table = Table::new();
    assert_eq!(encode(&mut table, ""), Err(ApiError::BadRequest(text("value is empty"))));
    assert_eq!(table.len(), 0);
    // no identity was spent on it
    assert_eq!(encode(&mut table, "a"), Ok(text("01")));
}

#[test]
fn decode_of_wrong_length_is_invalid_input() {
    let mut table = Table::new();
    encode(&mut table, "a").unwrap();
    assert_eq!(decode(&mut table, "a"), Err(ApiError::BadRequest(text("code length must be 2..=5"))));
    assert_eq!(
        decode(&mut table, "abcdef"),
        Err(ApiError::BadRequest(text("code length must be 2..=5")))
    );
}

#[test]
fn decode_of_foreign_symbols_is_invalid_input() {
    let mut table = Table::new();
    assert_eq!(
        decode(&mut table, "zz9!!"),
        Err(ApiError::BadRequest(text("code contains invalid characters")))
    );
}

#[test]
fn decode_of_an_unknown_code_is_not_found() {
    let mut table = Table::new();
    assert_eq!(decode(&mut table, "zzzzz"), Err(ApiError::NotFound));
    encode(&mut table, "a").unwrap();
    assert_eq!(decode(&mut table, "zzzzz"), Err(ApiError::NotFound));
    assert_eq!(decode(&mut table, "02"), Err(ApiError::NotFound));
    // codes are matched symbol for symbol
    assert_eq!(decode(&mut table, "001"), Err(ApiError::NotFound));
}

#[test]
fn racing_callers_of_one_value_agree_on_one_code() {
    let mut table = Table::new();
    encode(&mut table, "earlier").unwrap();
    let callers = 6;
    // every caller misses on its fast path before any transaction runs
    let mut waiting = Vec::new();
    for _ in 0..callers {
        let (state, step) = encode_start(text("contested"));
        let request = match step {
            Step::Ask(request) => request,
            Step::Finish(_) => panic!("a lookup was due"),
        };
        let reply = table.execute(request);
        assert_eq!(reply, Reply::Row(None));
        let (state, step) = encode_next(state, reply);
        assert_eq!(step, Step::Ask(Request::Begin));
        waiting.push((state, step));
    }
    // the transactions then run one after another
    let mut codes = Vec::new();
    for (state, step) in waiting {
        codes.push(encode_resume(&mut table, state, step).unwrap());
    }
    assert_eq!(codes.len(), callers);
    for code in &codes {
        assert_eq!(code, "02");
    }
    assert_eq!(table.len(), 2);
    assert_eq!(
        table.execute(Request::FindByValue { value: text("contested") }),
        Reply::Row(Some(Row { id: 2, code: Some(text("02")) }))
    );
    assert_eq!(decode(&mut table, "02"), Ok(text("contested")));
}

#[test]
fn value_left_without_code_is_given_one() {
    let mut table = Table::new();
    assert_eq!(table.execute(Request::InsertIfAbsent { value: text("orphan") }), Reply::Done);
    assert_eq!(encode(&mut table, "orphan"), Ok(text("01")));
    assert_eq!(table.len(), 1);
    assert_eq!(decode(&mut table, "01"), Ok(text("orphan")));
}

#[test]
fn last_identity_of_the_code_space_succeeds_and_the_next_is_exhausted() {
    let mut table = Table::starting_at(916_132_831).unwrap();
    assert_eq!(encode(&mut table, "last"), Ok(text("ZZZZZ")));
    assert_eq!(decode(&mut table, "ZZZZZ"), Ok(text("last")));
    assert_eq!(encode(&mut table, "late"), Err(ApiError::Exhausted));
    // the failed transaction left no mapping behind
    assert_eq!(table.len(), 1);
    assert_eq!(table.execute(Request::FindByValue { value: text("late") }), Reply::Row(None));
    // and the value that has its code keeps it
    assert_eq!(encode(&mut table, "last"), Ok(text("ZZZZZ")));
    assert_eq!(encode(&mut table, "late"), Err(ApiError::Exhausted));
}

#[test]
fn spent_identities_fail_as_a_store_error() {
    let mut table = Table::starting_at(i64::MAX).unwrap();
    assert_eq!(
        encode(&mut table, "a"),
        Err(ApiError::Store(text("no identity is left to give")))
    );
    assert_eq!(table.len(), 0);
}

#[test]
fn code_held_by_another_mapping_fails_the_assignment() {
    let mut table = Table::new();
    table.execute(Request::InsertIfAbsent { value: text("squatter") });
    assert_eq!(
        table.execute(Request::SetCodeIfUnset { id: 1, code: text("02") }),
        Reply::Updated(true)
    );
    assert_eq!(
        encode(&mut table, "b"),
        Err(ApiError::Store(text("the code belongs to another mapping")))
    );
    assert_eq!(table.len(), 1);
    // the identity was spent all the same
    assert_eq!(encode(&mut table, "c"), Ok(text("03")));
}

#[test]
fn resumed_operation_goes_on_where_it_stands() {
    let mut table = Table::new();
    // an operation that is about to commit only commits
    assert_eq!(table.execute(Request::Begin), Reply::Done);
    let committing = EncodeState::Committing { code: text("0x") };
    assert_eq!(encode_resume(&mut table, committing, Step::Ask(Request::Commit)), Ok(text("0x")));
    assert_eq!(table.len(), 0);
    // one that is over asks nothing more
    assert_eq!(
        encode_resume(&mut table, EncodeState::Finished, Step::Ask(Request::Begin)),
        Err(ApiError::Store(text("store reply does not answer the request")))
    );
    assert_eq!(table.execute(Request::Begin), Reply::Done);
    // one whose commit is refused rolls back and fails
    let mut idle = Table::new();
    let committing = EncodeState::Committing { code: text("0x") };
    assert_eq!(
        encode_resume(&mut idle, committing, Step::Ask(Request::Commit)),
        Err(ApiError::Store(text("no transaction is open")))
    );
}

#[test]
fn transaction_that_began_inside_another_fails_without_closing_it() {
    let mut table = Table::new();
    assert_eq!(table.execute(Request::Begin), Reply::Done);
    assert_eq!(
        encode(&mut table, "a"),
        Err(ApiError::Store(text("a transaction is already open")))
    );
    assert_eq!(table.execute(Request::Commit), Reply::Done);
    assert_eq!(table.len(), 0);
}
