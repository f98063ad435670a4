//! What holds of encode and decode on every table: codes lead back to
//! their values, a value keeps its code, and no two values share one.

use crate::codec::{
    id_to_code_spec, is_code, lemma_code_of_injective, lemma_code_of_is_code,
    lemma_exhaustion_threshold, lemma_validate_code_spec, CODE_SPACE,
};
use crate::engine::MSG_EMPTY_VALUE;
use crate::error::ErrorView;
use crate::model::{
    lemma_by_code, lemma_by_value, lemma_coded, lemma_inserted, lemma_mapping_found, TableView,
    MSG_IDENTITIES_SPENT,
};
use crate::service::{decode_spec, encode_spec};
use vstd::prelude::*;

verus! {

/// Whether every code in the table is the code of its mapping's identity.
/// The empty table is so, and encoding keeps a table so.
pub open spec fn canonical(t: TableView) -> bool {
    forall|i: int|
        0 <= i < t.rows.len() && (#[trigger] t.rows[i]).code is Some ==> id_to_code_spec(
            t.rows[i].id,
        ) == Ok::<Seq<char>, ErrorView>(t.rows[i].code->0)
}

/// Whether `value` is mapped to `code` in the table.
pub open spec fn maps(t: TableView, value: Seq<char>, code: Seq<char>) -> bool {
    t.by_value(value) is Some && t.by_value(value)->0.code == Some(code)
}

/// The table after the values of `values` were encoded one after another.
pub open spec fn encode_all(t: TableView, values: Seq<Seq<char>>) -> TableView
    decreases values.len(),
{
    if values.len() == 0 {
        t
    } else {
        encode_spec(encode_all(t, values.drop_last()), values.last()).0
    }
}

/// The empty table is well formed, idle and canonical.
pub proof fn lemma_empty_table()
    ensures
        TableView::empty().wf(),
        TableView::empty().idle(),
        canonical(TableView::empty()),
{
}

/// What encoding does to a table, case by case.
proof fn lemma_encode_effect(t: TableView, value: Seq<char>)
    requires
        t.wf(),
        t.idle(),
    ensures
        ({
            let (after, result) = encode_spec(t, value);
            &&& after.wf()
            &&& after.idle()
            &&& after.next_id >= t.next_id
            &&& forall|w: Seq<char>| w != value ==> #[trigger] after.by_value(w) == t.by_value(w)
            &&& result is Err ==> after.rows == t.rows
            &&& result is Ok ==> maps(after, value, result->Ok_0) && after.by_code(result->Ok_0)
                == after.by_value(value)
            &&& t.by_value(value) is Some && t.by_value(value)->0.code is Some ==> after == t && (
            value.len() > 0 ==> result == Ok::<Seq<char>, ErrorView>(t.by_value(value)->0.code->0))
        }),
{
    lemma_by_value(t, value);
    if value.len() > 0 {
        match t.by_value(value) {
            Some(m) => {
                lemma_mapping_found(t, m);
                if m.code is None && id_to_code_spec(m.id) is Ok {
                    let code = id_to_code_spec(m.id)->Ok_0;
                    if t.by_code(code) is None {
                        lemma_coded(t, m.id, code);
                    }
                }
            },
            None => {
                if t.next_id < i64::MAX {
                    let d = t.inserted(value);
                    lemma_inserted(t, value);
                    if id_to_code_spec(t.next_id) is Ok {
                        let code = id_to_code_spec(t.next_id)->Ok_0;
                        if d.by_code(code) is None {
                            lemma_coded(d, t.next_id, code);
                        }
                    }
                }
            },
        }
    }
}

/// In a canonical table the code of an identity belongs to no mapping but
/// that identity's own.
proof fn lemma_canonical_code_free(t: TableView, id: int)
    requires
        t.wf(),
        canonical(t),
        id > 0,
        id_to_code_spec(id) is Ok,
        t.by_id(id) is Some ==> t.by_id(id)->0.code is None,
    ensures
        t.by_code(id_to_code_spec(id)->Ok_0) is None,
{
    let code = id_to_code_spec(id)->Ok_0;
    lemma_by_code(t, code);
    if t.by_code(code) is Some {
        let m = t.by_code(code)->0;
        lemma_mapping_found(t, m);
        lemma_code_of_injective(id, m.id);
    }
}

/// Encoding keeps the table well formed and idle, and never takes an
/// identity back.
pub proof fn lemma_encode_preserves_wf(t: TableView, value: Seq<char>)
    requires
        t.wf(),
        t.idle(),
    ensures
        encode_spec(t, value).0.wf(),
        encode_spec(t, value).0.idle(),
        encode_spec(t, value).0.next_id >= t.next_id,
{
    lemma_encode_effect(t, value);
}

/// A failed encode leaves the mappings as they were.
pub proof fn lemma_encode_failure_changes_nothing(t: TableView, value: Seq<char>)
    requires
        t.wf(),
        t.idle(),
        encode_spec(t, value).1 is Err,
    ensures
        encode_spec(t, value).0.rows == t.rows,
{
    lemma_encode_effect(t, value);
}

/// A successful encode leaves the value mapped to the code it answered, and
/// the code is the value's alone.
pub proof fn lemma_encode_assigns(t: TableView, value: Seq<char>)
    requires
        t.wf(),
        t.idle(),
        encode_spec(t, value).1 is Ok,
    ensures
        maps(encode_spec(t, value).0, value, encode_spec(t, value).1->Ok_0),
        encode_spec(t, value).0.by_code(encode_spec(t, value).1->Ok_0) == encode_spec(
            t,
            value,
        ).0.by_value(value),
{
    lemma_encode_effect(t, value);
}

/// Encoding changes no mapping but that of its own value, and a code once
/// given stays: whatever a value was mapped to before, it is mapped to
/// after.
pub proof fn lemma_encode_keeps_codes(
    t: TableView,
    value: Seq<char>,
    other: Seq<char>,
    code: Seq<char>,
)
    requires
        t.wf(),
        t.idle(),
        maps(t, other, code),
    ensures
        maps(encode_spec(t, value).0, other, code),
        other != value ==> encode_spec(t, value).0.by_value(other) == t.by_value(other),
{
    lemma_encode_effect(t, value);
}

/// Encoding keeps a canonical table canonical.
pub proof fn lemma_encode_preserves_canonical(t: TableView, value: Seq<char>)
    requires
        t.wf(),
        t.idle(),
        canonical(t),
    ensures
        canonical(encode_spec(t, value).0),
{
    let after = encode_spec(t, value).0;
    assert forall|i: int| 0 <= i < after.rows.len() && (#[trigger] after.rows[i]).code is Some implies
        id_to_code_spec(after.rows[i].id) == Ok::<Seq<char>, ErrorView>(after.rows[i].code->0) by {
        if i < t.rows.len() && t.rows[i].code is Some {
            assert(id_to_code_spec(t.rows[i].id) == Ok::<Seq<char>, ErrorView>(t.rows[i].code->0));
        }
    }
}

/// On a canonical table encoding succeeds whenever a code is to be had: for
/// every value that is not empty and either has its code or has, or is due,
/// an identity within the code space. Beyond it a new value fails as
/// exhausted, or as a store failure once the identities themselves are
/// spent.
pub proof fn lemma_encode_succeeds(t: TableView, value: Seq<char>)
    requires
        t.wf(),
        t.idle(),
        canonical(t),
    ensures
        ({
            let id = if t.by_value(value) is Some {
                t.by_value(value)->0.id
            } else {
                t.next_id
            };
            let result = encode_spec(t, value).1;
            &&& value.len() == 0 ==> result == Err::<Seq<char>, ErrorView>(
                ErrorView::BadRequest(MSG_EMPTY_VALUE@),
            )
            &&& value.len() > 0 && id < CODE_SPACE ==> result is Ok && is_code(result->Ok_0)
            &&& value.len() > 0 && id >= CODE_SPACE ==> {
                ||| result is Ok && maps(t, value, result->Ok_0)
                ||| result == Err::<Seq<char>, ErrorView>(ErrorView::Exhausted)
                ||| result == Err::<Seq<char>, ErrorView>(ErrorView::Store(MSG_IDENTITIES_SPENT@))
            }
        }),
{
    lemma_by_value(t, value);
    if value.len() > 0 {
        match t.by_value(value) {
            Some(m) => {
                lemma_mapping_found(t, m);
                lemma_exhaustion_threshold(m.id);
                if m.id < CODE_SPACE {
                    lemma_code_of_is_code(m.id);
                }
                if m.code is None && id_to_code_spec(m.id) is Ok {
                    lemma_canonical_code_free(t, m.id);
                }
            },
            None => {
                lemma_exhaustion_threshold(t.next_id);
                if t.next_id < CODE_SPACE {
                    lemma_inserted(t, value);
                    lemma_code_of_is_code(t.next_id);
                    lemma_canonical_code_free(t.inserted(value), t.next_id);
                }
            },
        }
    }
}

/// Decoding the code that encoding a value answered gives the value back;
/// the code has two to five symbols of the alphabet.
pub proof fn lemma_decode_inverts_encode(t: TableView, value: Seq<char>)
    requires
        t.wf(),
        t.idle(),
        canonical(t),
        encode_spec(t, value).1 is Ok,
    ensures
        is_code(encode_spec(t, value).1->Ok_0),
        decode_spec(encode_spec(t, value).0, encode_spec(t, value).1->Ok_0) == Ok::<
            Seq<char>,
            ErrorView,
        >(value),
{
    let after = encode_spec(t, value).0;
    let code = encode_spec(t, value).1->Ok_0;
    lemma_encode_effect(t, value);
    lemma_encode_preserves_canonical(t, value);
    // the code is that of the mapping's identity, so it has the form of one
    let m = after.by_value(value)->0;
    lemma_by_value(after, value);
    let i = choose|i: int| 0 <= i < after.rows.len() && after.rows[i] == m;
    assert(id_to_code_spec(after.rows[i].id) == Ok::<Seq<char>, ErrorView>(code));
    lemma_exhaustion_threshold(m.id);
    lemma_code_of_is_code(m.id);
    lemma_validate_code_spec(code);
}

/// Encoding a value again answers the same code and changes nothing.
pub proof fn lemma_encode_twice(t: TableView, value: Seq<char>)
    requires
        t.wf(),
        t.idle(),
        encode_spec(t, value).1 is Ok,
    ensures
        encode_spec(encode_spec(t, value).0, value) == encode_spec(t, value),
{
    lemma_encode_assigns(t, value);
}

/// Encoding any values keeps the table well formed and every code given.
pub proof fn lemma_encode_all(
    t: TableView,
    values: Seq<Seq<char>>,
    value: Seq<char>,
    code: Seq<char>,
)
    requires
        t.wf(),
        t.idle(),
        maps(t, value, code),
    ensures
        encode_all(t, values).wf(),
        encode_all(t, values).idle(),
        maps(encode_all(t, values), value, code),
    decreases values.len(),
{
    if values.len() > 0 {
        lemma_encode_all(t, values.drop_last(), value, code);
        let before = encode_all(t, values.drop_last());
        lemma_encode_preserves_wf(before, values.last());
        lemma_encode_keeps_codes(before, values.last(), value, code);
    }
}

/// Encoding a value again, after any other values were encoded in between,
/// still answers the same code.
pub proof fn lemma_encode_stable(t: TableView, value: Seq<char>, between: Seq<Seq<char>>)
    requires
        t.wf(),
        t.idle(),
        encode_spec(t, value).1 is Ok,
    ensures
        encode_spec(encode_all(encode_spec(t, value).0, between), value).1 == encode_spec(
            t,
            value,
        ).1,
{
    let code = encode_spec(t, value).1->Ok_0;
    lemma_encode_assigns(t, value);
    lemma_encode_preserves_wf(t, value);
    lemma_encode_all(encode_spec(t, value).0, between, value, code);
}

/// Two different values never get the same code, whatever was encoded
/// between them.
pub proof fn lemma_encode_distinct(
    t: TableView,
    first: Seq<char>,
    between: Seq<Seq<char>>,
    second: Seq<char>,
)
    requires
        t.wf(),
        t.idle(),
        first != second,
        encode_spec(t, first).1 is Ok,
        encode_spec(encode_all(encode_spec(t, first).0, between), second).1 is Ok,
    ensures
        encode_spec(t, first).1 != encode_spec(
            encode_all(encode_spec(t, first).0, between),
            second,
        ).1,
{
    let code = encode_spec(t, first).1->Ok_0;
    let before = encode_all(encode_spec(t, first).0, between);
    lemma_encode_effect(t, first);
    lemma_encode_all(encode_spec(t, first).0, between, first, code);
    lemma_encode_effect(before, second);
    lemma_mapped_codes_differ(encode_spec(before, second).0, first, second);
}

/// In a well-formed table two different values are mapped to different
/// codes, if to any.
pub proof fn lemma_mapped_codes_differ(t: TableView, first: Seq<char>, second: Seq<char>)
    requires
        t.wf(),
        first != second,
        t.by_value(first) is Some,
        t.by_value(second) is Some,
        t.by_value(first)->0.code is Some,
    ensures
        t.by_value(first)->0.code != t.by_value(second)->0.code,
{
    lemma_by_value(t, first);
    lemma_by_value(t, second);
    let a = t.by_value(first)->0;
    let b = t.by_value(second)->0;
    let i = choose|i: int| 0 <= i < t.rows.len() && t.rows[i] == a;
    let j = choose|j: int| 0 <= j < t.rows.len() && t.rows[j] == b;
    assert(i != j);
}

} // verus!
