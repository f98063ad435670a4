//! Encode and decode, run to their end against a table in memory.

use crate::codec::{id_to_code_spec, validate_code_spec};
use crate::engine::{
    decode_finish, decode_start, encode_next, encode_next_spec, encode_start, encode_start_spec,
    EncodeState, EncodeStateView, MSG_EMPTY_VALUE, MSG_UNEXPECTED_REPLY,
};
use crate::error::{outcome_view, ApiError, ErrorView};
use crate::model::{
    lemma_by_value, lemma_coded, lemma_inserted, lemma_mapping_found, lemma_step_preserves_wf,
    TableView, MSG_CODE_TAKEN, MSG_IDENTITIES_SPENT, MSG_TRANSACTION_OPEN,
};
use crate::protocol::{RequestView, Step, StepView};
use crate::table::Table;
use vstd::prelude::*;

verus! {

/// What encoding `value` makes of table `t`, and what it answers.
///
/// An empty value is refused. A value that has its code keeps it, and the
/// table is untouched. Any other value is inserted, unless it is there
/// without code, and is given the code of its identity; this takes a
/// transaction, and fails where one is open already.
pub open spec fn encode_spec(t: TableView, value: Seq<char>) -> (
    TableView,
    Result<Seq<char>, ErrorView>,
) {
    if value.len() == 0 {
        (t, Err(ErrorView::BadRequest(MSG_EMPTY_VALUE@)))
    } else {
        match t.by_value(value) {
            Some(m) => match m.code {
                Some(code) => (t, Ok(code)),
                None => if t.saved is Some {
                    (t, Err(ErrorView::Store(MSG_TRANSACTION_OPEN@)))
                } else {
                    assign_spec(t, t, m.id)
                },
            },
            None => if t.saved is Some {
                (t, Err(ErrorView::Store(MSG_TRANSACTION_OPEN@)))
            } else if t.next_id >= i64::MAX {
                (t, Err(ErrorView::Store(MSG_IDENTITIES_SPENT@)))
            } else {
                assign_spec(t, t.inserted(value), t.next_id)
            },
        }
    }
}

/// The assignment of a code to the mapping with identity `id`, which has
/// none, in a transaction that found the table as `before` and has made it
/// `during`.
///
/// An identity beyond the code space, and a code that another mapping
/// carries, fail the transaction: the mappings are then as before, though
/// an identity given out is not given again.
pub open spec fn assign_spec(before: TableView, during: TableView, id: int) -> (
    TableView,
    Result<Seq<char>, ErrorView>,
) {
    let undone = TableView { rows: before.rows, next_id: during.next_id, saved: None };
    match id_to_code_spec(id) {
        Err(error) => (undone, Err(error)),
        Ok(code) => if during.by_code(code) is Some {
            (undone, Err(ErrorView::Store(MSG_CODE_TAKEN@)))
        } else {
            (during.coded(id, code), Ok(code))
        },
    }
}

/// What decoding `code` answers on table `t`: the value of the mapping that
/// carries the code, for a string that has the form of a code.
pub open spec fn decode_spec(t: TableView, code: Seq<char>) -> Result<Seq<char>, ErrorView> {
    match validate_code_spec(code) {
        Err(error) => Err(error),
        Ok(_) => match t.by_code(code) {
            Some(m) => Ok(m.value),
            None => Err(ErrorView::NotFound),
        },
    }
}

/// What becomes of table `t`, and what is answered, when an encode
/// operation that stands in `state`, about to take `step`, is run to its
/// end on it: each request is carried out on the table and its reply
/// handed to the operation, until the operation ends.
pub open spec fn encode_run(state: EncodeStateView, step: StepView, t: TableView) -> (
    TableView,
    Result<Seq<char>, ErrorView>,
)
    decreases state.remaining(),
{
    match step {
        StepView::Finish(result) => (t, result),
        StepView::Ask(request) => if state is Finished {
            (t, Err(ErrorView::Store(MSG_UNEXPECTED_REPLY@)))
        } else {
            let (after, reply) = t.step(request);
            let (next, then) = encode_next_spec(state, reply);
            encode_run(next, then, after)
        },
    }
}

/// The table that the transaction of encoding `value` works on, once the
/// value is surely there.
spec fn during(t0: TableView, value: Seq<char>) -> TableView {
    if t0.by_value(value) is Some {
        t0
    } else {
        t0.inserted(value)
    }
}

/// `t` with a transaction open that began on the mappings of `t0`.
spec fn within(t: TableView, t0: TableView) -> TableView {
    TableView { rows: t.rows, next_id: t.next_id, saved: Some(t0.rows) }
}

/// What holds of an encode operation on `value` that began on table `t0`,
/// when it is in `state`, about to take `step`, and the table is `cur`.
spec fn encode_inv(
    t0: TableView,
    value: Seq<char>,
    state: EncodeStateView,
    step: StepView,
    cur: TableView,
) -> bool {
    let goal = encode_spec(t0, value);
    let d = during(t0, value);
    match state {
        EncodeStateView::Finished => step == StepView::Finish(goal.1) && cur == goal.0,
        EncodeStateView::FastPath { value: v } => {
            &&& v == value
            &&& value.len() > 0
            &&& cur == t0
            &&& step == StepView::Ask(RequestView::FindByValue { value })
        },
        EncodeStateView::Opening { value: v } => {
            &&& v == value
            &&& value.len() > 0
            &&& t0.idle() || !(t0.by_value(value) is Some && t0.by_value(value)->0.code is Some)
            &&& cur == t0
            &&& step == StepView::Ask(RequestView::Begin)
        },
        EncodeStateView::Inserting { value: v } => {
            &&& v == value
            &&& value.len() > 0
            &&& t0.idle()
            &&& cur == within(t0, t0)
            &&& step == StepView::Ask(RequestView::InsertIfAbsent { value })
        },
        EncodeStateView::Reading { value: v } => {
            &&& v == value
            &&& value.len() > 0
            &&& t0.idle()
            &&& t0.by_value(value) is None ==> t0.next_id < i64::MAX
            &&& cur == within(d, t0)
            &&& step == StepView::Ask(RequestView::FindByValue { value })
        },
        EncodeStateView::Writing { id } => {
            &&& value.len() > 0
            &&& t0.idle()
            &&& t0.by_value(value) is None ==> t0.next_id < i64::MAX
            &&& cur == within(d, t0)
            &&& d.by_value(value) is Some
            &&& d.by_value(value)->0.code is None
            &&& id == d.by_value(value)->0.id
            &&& id_to_code_spec(id) is Ok
            &&& step == StepView::Ask(
                RequestView::SetCodeIfUnset { id, code: id_to_code_spec(id)->Ok_0 },
            )
        },
        EncodeStateView::Rereading => {
            let id = d.by_value(value)->0.id;
            let code = id_to_code_spec(id)->Ok_0;
            &&& value.len() > 0
            &&& t0.idle()
            &&& t0.by_value(value) is None ==> t0.next_id < i64::MAX
            &&& d.by_value(value) is Some
            &&& d.by_value(value)->0.code is None
            &&& id_to_code_spec(id) is Ok
            &&& d.by_code(code) is None
            &&& cur == within(d.coded(id, code), t0)
            &&& step == StepView::Ask(RequestView::FindCodeById { id })
        },
        EncodeStateView::Committing { code } => {
            &&& cur.saved is Some
            &&& goal == (cur.committed(), Ok::<Seq<char>, ErrorView>(code))
            &&& step == StepView::Ask(RequestView::Commit)
        },
        EncodeStateView::Aborting { error } => {
            &&& cur.saved is Some
            &&& goal == (cur.rolled_back(), Err::<Seq<char>, ErrorView>(error))
            &&& step == StepView::Ask(RequestView::Rollback)
        },
    }
}

/// The invariant holds again after each request and reply.
proof fn lemma_encode_inv_step(
    t0: TableView,
    value: Seq<char>,
    state: EncodeStateView,
    request: RequestView,
    cur: TableView,
)
    requires
        t0.wf(),
        cur.wf(),
        encode_inv(t0, value, state, StepView::Ask(request), cur),
    ensures
        ({
            let (after, reply) = cur.step(request);
            let (next, step) = encode_next_spec(state, reply);
            encode_inv(t0, value, next, step, after)
        }),
{
    let d = during(t0, value);
    if t0.by_value(value) is None && t0.next_id < i64::MAX {
        lemma_inserted(t0, value);
    }
    match state {
        EncodeStateView::Writing { .. } => {
            lemma_by_value(d, value);
            lemma_mapping_found(d, d.by_value(value)->0);
        },
        EncodeStateView::Rereading => {
            let m = d.by_value(value)->0;
            lemma_by_value(d, value);
            lemma_mapping_found(d, m);
            lemma_coded(d, m.id, id_to_code_spec(m.id)->Ok_0);
        },
        _ => {},
    }
}

/// Run to its end, an operation of which the invariant holds does what
/// encoding does.
proof fn lemma_encode_run_from_inv(
    t0: TableView,
    value: Seq<char>,
    state: EncodeStateView,
    step: StepView,
    cur: TableView,
)
    requires
        t0.wf(),
        cur.wf(),
        encode_inv(t0, value, state, step, cur),
    ensures
        encode_run(state, step, cur) == encode_spec(t0, value),
    decreases state.remaining(),
{
    match step {
        StepView::Finish(_) => {},
        StepView::Ask(request) => {
            let (after, reply) = cur.step(request);
            let (next, then) = encode_next_spec(state, reply);
            lemma_encode_inv_step(t0, value, state, request, cur);
            lemma_step_preserves_wf(cur, request);
            lemma_encode_run_from_inv(t0, value, next, then, after);
        },
    }
}

/// An encode operation run from its beginning to its end does what
/// encoding does.
pub proof fn lemma_encode_run(t: TableView, value: Seq<char>)
    requires
        t.wf(),
    ensures
        encode_run(encode_start_spec(value).0, encode_start_spec(value).1, t) == encode_spec(
            t,
            value,
        ),
{
    lemma_encode_run_from_inv(t, value, encode_start_spec(value).0, encode_start_spec(value).1, t);
}

/// The transaction of an encode operation, run on its own, does what
/// encoding does on the table it finds. So an operation that looked the
/// value up in vain, and whose transaction runs only after others have
/// changed the table, answers as if it had begun then: callers that race
/// for one value all get the code of the first.
pub proof fn lemma_encode_transaction(t: TableView, value: Seq<char>)
    requires
        t.wf(),
        t.idle(),
        value.len() > 0,
    ensures
        encode_run(EncodeStateView::Opening { value }, StepView::Ask(RequestView::Begin), t)
            == encode_spec(t, value),
{
    lemma_encode_run_from_inv(
        t,
        value,
        EncodeStateView::Opening { value },
        StepView::Ask(RequestView::Begin),
        t,
    );
}

/// Runs the encode operation that stands in `state`, about to take `step`,
/// to its end on `table`.
pub fn encode_resume(table: &mut Table, state: EncodeState, step: Step) -> (result: Result<
    String,
    ApiError,
>)
    requires
        old(table).wf(),
    ensures
        final(table).wf(),
        (final(table)@, outcome_view(result)) == encode_run(state@, step@, old(table)@),
{
    let ghost goal = encode_run(state@, step@, table@);
    let mut at = state;
    let mut todo = step;
    loop
        invariant
            table.wf(),
            goal == encode_run(state@, step@, old(table)@),
            encode_run(at@, todo@, table@) == goal,
        decreases at@.remaining(),
    {
        match todo {
            Step::Finish(result) => {
                return result;
            },
            Step::Ask(request) => {
                if matches!(at, EncodeState::Finished) {
                    return Err(ApiError::Store(MSG_UNEXPECTED_REPLY.to_owned()));
                }
                let reply = table.execute(request);
                let next = encode_next(at, reply);
                at = next.0;
                todo = next.1;
            },
        }
    }
}

/// Encodes `value` on `table`: answers its code, assigning one first if it
/// has none.
pub fn encode(table: &mut Table, value: &str) -> (result: Result<String, ApiError>)
    requires
        old(table).wf(),
    ensures
        final(table).wf(),
        (final(table)@, outcome_view(result)) == encode_spec(old(table)@, value@),
{
    proof {
        lemma_encode_run(table@, value@);
    }
    let start = encode_start(value.to_owned());
    encode_resume(table, start.0, start.1)
}

/// Decodes `code` on `table`: answers the value that the code stands for.
/// The table is read only.
pub fn decode(table: &mut Table, code: &str) -> (result: Result<String, ApiError>)
    requires
        old(table).wf(),
    ensures
        final(table)@ == old(table)@,
        outcome_view(result) == decode_spec(old(table)@, code@),
{
    match decode_start(code.to_owned()) {
        Step::Finish(result) => result,
        Step::Ask(request) => decode_finish(table.execute(request)),
    }
}

} // verus!
