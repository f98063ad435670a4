use shortcodes::protocol::{Reply, Request, Row};
use shortcodes::table::Table;

fn text(s: &str) -> String {
    s.to_string()
}

fn insert(table: &mut Table, value: &str) -> Reply {
    table.execute(Request::InsertIfAbsent { value: text(value) })
}

fn find(table: &mut Table, value: &str) -> Reply {
    table.execute(Request::FindByValue { value: text(value) })
}

fn set_code(table: &mut Table, id: i64, code: &str) -> Reply {
    table.execute(Request::SetCodeIfUnset { id, code: text(code) })
}

#[test]
fn new_table_is_empty() {
    let mut table = Table::new();
    assert_eq!(table.len(), 0);
    assert_eq!(find(&mut table, "a"), Reply::Row(None));
    assert_eq!(table.execute(Request::FindByCode { code: text("01") }), Reply::Value(None));
    assert_eq!(table.execute(Request::FindCodeById { id: 1 }), Reply::Code(None));
}

#[test]
fn identities_grow_from_one_in_insertion_order() {
    let mut table = Table::new();
    assert_eq!(insert(&mut table, "a"), Reply::Done);
    assert_eq!(insert(&mut table, "b"), Reply::Done);
    assert_eq!(insert(&mut table, "c"), Reply::Done);
    assert_eq!(find(&mut table, "a"), Reply::Row(Some(Row { id: 1, code: None })));
    assert_eq!(find(&mut table, "b"), Reply::Row(Some(Row { id: 2, code: None })));
    assert_eq!(find(&mut table, "c"), Reply::Row(Some(Row { id: 3, code: None })));
    assert_eq!(table.len(), 3);
}

#[test]
fn inserting_a_present_value_changes_nothing() {
    let mut table = Table::new();
    assert_eq!(insert(&mut table, "a"), Reply::Done);
    assert_eq!(insert(&mut table, "a"), Reply::Done);
    assert_eq!(table.len(), 1);
    assert_eq!(insert(&mut table, "b"), Reply::Done);
    // the refused insertion took no identity
    assert_eq!(find(&mut table, "b"), Reply::Row(Some(Row { id: 2, code: None })));
}

#[test]
fn code_is_written_once() {
    let mut table = Table::new();
    insert(&mut table, "a");
    assert_eq!(set_code(&mut table, 1, "01"), Reply::Updated(true));
    assert_eq!(set_code(&mut table, 1, "zz"), Reply::Updated(false));
    assert_eq!(find(&mut table, "a"), Reply::Row(Some(Row { id: 1, code: Some(text("01")) })));
    assert_eq!(table.execute(Request::FindCodeById { id: 1 }), Reply::Code(Some(text("01"))));
    assert_eq!(table.execute(Request::FindByCode { code: text("01") }), Reply::Value(Some(text("a"))));
    assert_eq!(table.execute(Request::FindByCode { code: text("zz") }), Reply::Value(None));
}

#[test]
fn code_for_an_unknown_identity_is_not_written() {
    let mut table = Table::new();
    insert(&mut table, "a");
    assert_eq!(set_code(&mut table, 2, "02"), Reply::Updated(false));
    assert_eq!(table.execute(Request::FindByCode { code: text("02") }), Reply::Value(None));
}

#[test]
fn code_of_another_mapping_is_refused() {
    let mut table = Table::new();
    insert(&mut table, "a");
    insert(&mut table, "b");
    assert_eq!(set_code(&mut table, 1, "01"), Reply::Updated(true));
    assert_eq!(
        set_code(&mut table, 2, "01"),
        Reply::Failed(text("the code belongs to another mapping"))
    );
    assert_eq!(find(&mut table, "b"), Reply::Row(Some(Row { id: 2, code: None })));
}

#[test]
fn rollback_undoes_the_transaction_but_keeps_identities_spent() {
    let mut table = Table::new();
    insert(&mut table, "a");
    assert_eq!(table.execute(Request::Begin), Reply::Done);
    insert(&mut table, "b");
    assert_eq!(set_code(&mut table, 1, "01"), Reply::Updated(true));
    assert_eq!(table.len(), 2);
    assert_eq!(table.execute(Request::Rollback), Reply::Done);
    assert_eq!(table.len(), 1);
    assert_eq!(find(&mut table, "a"), Reply::Row(Some(Row { id: 1, code: None })));
    assert_eq!(find(&mut table, "b"), Reply::Row(None));
    insert(&mut table, "c");
    assert_eq!(find(&mut table, "c"), Reply::Row(Some(Row { id: 3, code: None })));
}

#[test]
fn commit_keeps_the_transaction() {
    let mut table = Table::new();
    assert_eq!(table.execute(Request::Begin), Reply::Done);
    insert(&mut table, "a");
    set_code(&mut table, 1, "01");
    assert_eq!(table.execute(Request::Commit), Reply::Done);
    assert_eq!(find(&mut table, "a"), Reply::Row(Some(Row { id: 1, code: Some(text("01")) })));
    // nothing is left to roll back
    assert_eq!(table.execute(Request::Rollback), Reply::Failed(text("no transaction is open")));
    assert_eq!(table.len(), 1);
}

#[test]
fn transactions_do_not_nest_and_end_once() {
    let mut table = Table::new();
    assert_eq!(table.execute(Request::Commit), Reply::Failed(text("no transaction is open")));
    assert_eq!(table.execute(Request::Rollback), Reply::Failed(text("no transaction is open")));
    assert_eq!(table.execute(Request::Begin), Reply::Done);
    assert_eq!(table.execute(Request::Begin), Reply::Failed(text("a transaction is already open")));
    assert_eq!(table.execute(Request::Commit), Reply::Done);
    assert_eq!(table.execute(Request::Begin), Reply::Done);
}

#[test]
fn table_can_start_at_any_positive_identity() {
    assert!(Table::starting_at(0).is_none());
    assert!(Table::starting_at(-5).is_none());
    let mut table = Table::starting_at(100).unwrap();
    insert(&mut table, "a");
    assert_eq!(find(&mut table, "a"), Reply::Row(Some(Row { id: 100, code: None })));
}

#[test]
fn last_identity_is_never_given() {
    let mut table = Table::starting_at(i64::MAX - 1).unwrap();
    assert_eq!(insert(&mut table, "a"), Reply::Done);
    assert_eq!(find(&mut table, "a"), Reply::Row(Some(Row { id: i64::MAX - 1, code: None })));
    assert_eq!(insert(&mut table, "b"), Reply::Failed(text("no identity is left to give")));
    assert_eq!(table.len(), 1);
    // a value that is there is still no error
    assert_eq!(insert(&mut table, "a"), Reply::Done);
}
