//! The code-assignment engine: encode and decode, each as a machine that
//! turns the store's last reply into the next request or the final result.
//!
//! The engine holds no store of its own. Whoever runs it carries each
//! request out and hands the reply back; between `Begin` and `Commit` or
//! `Rollback` the requests belong to one transaction.

use crate::codec::{id_to_code, id_to_code_spec, is_code, validate_code, validate_code_spec};
use crate::error::{outcome_view, ApiError, ErrorView};
use crate::protocol::{Reply, ReplyView, Request, RequestView, Row, RowView, Step, StepView};
use vstd::prelude::*;

verus! {

pub const MSG_EMPTY_VALUE: &'static str = "value is empty";

pub const MSG_UNEXPECTED_REPLY: &'static str = "store reply does not answer the request";

pub const MSG_ROW_MISSING: &'static str = "no mapping found for the value after its insertion";

pub const MSG_CODE_MISSING: &'static str = "mapping has no code after its assignment";

/// Where an encode operation stands: which reply it waits for, and what it
/// has to remember meanwhile.
#[derive(Debug, Clone, PartialEq, Eq)]
pub enum EncodeState {
    /// Asked, outside any transaction, for the mapping of the value.
    FastPath { value: String },
    /// Asked for a transaction.
    Opening { value: String },
    /// Asked to insert the value unless it is there.
    Inserting { value: String },
    /// Asked for the mapping of the value, now surely there.
    Reading { value: String },
    /// Asked to write the candidate code of this identity.
    Writing { id: i64 },
    /// Asked for the code that the mapping now has.
    Rereading,
    /// Asked to commit; the code is the result once that is done.
    Committing { code: String },
    /// Asked to roll back; the error is the result, whatever the reply.
    Aborting { error: ApiError },
    /// The operation is over.
    Finished,
}

pub enum EncodeStateView {
    FastPath { value: Seq<char> },
    Opening { value: Seq<char> },
    Inserting { value: Seq<char> },
    Reading { value: Seq<char> },
    Writing { id: int },
    Rereading,
    Committing { code: Seq<char> },
    Aborting { error: ErrorView },
    Finished,
}

impl View for EncodeState {
    type V = EncodeStateView;

    open spec fn view(&self) -> EncodeStateView {
        match self {
            EncodeState::FastPath { value } => EncodeStateView::FastPath { value: value@ },
            EncodeState::Opening { value } => EncodeStateView::Opening { value: value@ },
            EncodeState::Inserting { value } => EncodeStateView::Inserting { value: value@ },
            EncodeState::Reading { value } => EncodeStateView::Reading { value: value@ },
            EncodeState::Writing { id } => EncodeStateView::Writing { id: *id as int },
            EncodeState::Rereading => EncodeStateView::Rereading,
            EncodeState::Committing { code } => EncodeStateView::Committing { code: code@ },
            EncodeState::Aborting { error } => EncodeStateView::Aborting { error: error@ },
            EncodeState::Finished => EncodeStateView::Finished,
        }
    }
}

impl EncodeStateView {
    /// Whether the operation has a transaction open in this state.
    pub open spec fn in_transaction(self) -> bool {
        self is Inserting || self is Reading || self is Writing || self is Rereading
            || self is Committing || self is Aborting
    }

    /// An upper bound on the requests still to come.
    pub open spec fn remaining(self) -> nat {
        match self {
            EncodeStateView::FastPath { .. } => 8,
            EncodeStateView::Opening { .. } => 7,
            EncodeStateView::Inserting { .. } => 6,
            EncodeStateView::Reading { .. } => 5,
            EncodeStateView::Writing { .. } => 4,
            EncodeStateView::Rereading => 3,
            EncodeStateView::Committing { .. } => 2,
            EncodeStateView::Aborting { .. } => 1,
            EncodeStateView::Finished => 0,
        }
    }
}

/// The step that ends an operation with `result`.
pub open spec fn finish_spec(result: Result<Seq<char>, ErrorView>) -> (EncodeStateView, StepView) {
    (EncodeStateView::Finished, StepView::Finish(result))
}

/// The step that gives a transaction up: roll back, then fail with `error`.
pub open spec fn abort_spec(error: ErrorView) -> (EncodeStateView, StepView) {
    (EncodeStateView::Aborting { error }, StepView::Ask(RequestView::Rollback))
}

/// The store error that stands for a reply: its own account if it failed,
/// a protocol error if it answered another question.
pub open spec fn reply_error(reply: ReplyView) -> ErrorView {
    match reply {
        ReplyView::Failed(detail) => ErrorView::Store(detail),
        _ => ErrorView::Store(MSG_UNEXPECTED_REPLY@),
    }
}

/// How an encode operation begins: empty values are refused at once, for
/// any other the mapping is looked up.
pub open spec fn encode_start_spec(value: Seq<char>) -> (EncodeStateView, StepView) {
    if value.len() == 0 {
        finish_spec(Err(ErrorView::BadRequest(MSG_EMPTY_VALUE@)))
    } else {
        (EncodeStateView::FastPath { value }, StepView::Ask(RequestView::FindByValue { value }))
    }
}

/// How an encode operation goes on from `state` when the store answers
/// `reply`.
///
/// Outside the transaction a value that has its code is answered at once.
/// Inside, the value is inserted unless present and read back; a code found
/// there is kept, and otherwise the identity's own code is written, on
/// condition that none is set, and read back. The result is handed out
/// after the commit only, and every failure inside the transaction rolls it
/// back first.
pub open spec fn encode_next_spec(state: EncodeStateView, reply: ReplyView) -> (
    EncodeStateView,
    StepView,
) {
    match state {
        EncodeStateView::FastPath { value } => match reply {
            ReplyView::Row(Some(RowView { id: _, code: Some(code) })) => finish_spec(Ok(code)),
            ReplyView::Row(_) => (
                EncodeStateView::Opening { value },
                StepView::Ask(RequestView::Begin),
            ),
            _ => finish_spec(Err(reply_error(reply))),
        },
        EncodeStateView::Opening { value } => match reply {
            ReplyView::Done => (
                EncodeStateView::Inserting { value },
                StepView::Ask(RequestView::InsertIfAbsent { value }),
            ),
            _ => finish_spec(Err(reply_error(reply))),
        },
        EncodeStateView::Inserting { value } => match reply {
            ReplyView::Done => (
                EncodeStateView::Reading { value },
                StepView::Ask(RequestView::FindByValue { value }),
            ),
            _ => abort_spec(reply_error(reply)),
        },
        EncodeStateView::Reading { value } => match reply {
            ReplyView::Row(Some(RowView { id: _, code: Some(code) })) => (
                EncodeStateView::Committing { code },
                StepView::Ask(RequestView::Commit),
            ),
            ReplyView::Row(Some(RowView { id, code: None })) => match id_to_code_spec(id) {
                Ok(code) => (
                    EncodeStateView::Writing { id },
                    StepView::Ask(RequestView::SetCodeIfUnset { id, code }),
                ),
                Err(error) => abort_spec(error),
            },
            ReplyView::Row(None) => abort_spec(ErrorView::Store(MSG_ROW_MISSING@)),
            _ => abort_spec(reply_error(reply)),
        },
        EncodeStateView::Writing { id } => match reply {
            ReplyView::Updated(_) => (
                EncodeStateView::Rereading,
                StepView::Ask(RequestView::FindCodeById { id }),
            ),
            _ => abort_spec(reply_error(reply)),
        },
        EncodeStateView::Rereading => match reply {
            ReplyView::Code(Some(code)) => (
                EncodeStateView::Committing { code },
                StepView::Ask(RequestView::Commit),
            ),
            ReplyView::Code(None) => abort_spec(ErrorView::Store(MSG_CODE_MISSING@)),
            _ => abort_spec(reply_error(reply)),
        },
        EncodeStateView::Committing { code } => match reply {
            ReplyView::Done => finish_spec(Ok(code)),
            _ => abort_spec(reply_error(reply)),
        },
        EncodeStateView::Aborting { error } => finish_spec(Err(error)),
        EncodeStateView::Finished => finish_spec(Err(ErrorView::Store(MSG_UNEXPECTED_REPLY@))),
    }
}

fn finish(result: Result<String, ApiError>) -> (next: (EncodeState, Step))
    ensures
        (next.0@, next.1@) == finish_spec(
            match result {
                Ok(s) => Ok(s@),
                Err(e) => Err(e@),
            },
        ),
{
    (EncodeState::Finished, Step::Finish(result))
}

fn abort(error: ApiError) -> (next: (EncodeState, Step))
    ensures
        (next.0@, next.1@) == abort_spec(error@),
{
    (EncodeState::Aborting { error }, Step::Ask(Request::Rollback))
}

fn error_of(reply: Reply) -> (error: ApiError)
    ensures
        error@ == reply_error(reply@),
{
    match reply {
        Reply::Failed(detail) => ApiError::Store(detail),
        _ => ApiError::Store(MSG_UNEXPECTED_REPLY.to_owned()),
    }
}

/// Begins an encode operation for `value`.
pub fn encode_start(value: String) -> (next: (EncodeState, Step))
    ensures
        (next.0@, next.1@) == encode_start_spec(value@),
{
    if value.as_str().is_empty() {
        finish(Err(ApiError::BadRequest(MSG_EMPTY_VALUE.to_owned())))
    } else {
        let asked = value.clone();
        (EncodeState::FastPath { value }, Step::Ask(Request::FindByValue { value: asked }))
    }
}

/// Takes the store's reply to the request last asked and says what the
/// encode operation does next.
pub fn encode_next(state: EncodeState, reply: Reply) -> (next: (EncodeState, Step))
    ensures
        (next.0@, next.1@) == encode_next_spec(state@, reply@),
{
    match state {
        EncodeState::FastPath { value } => match reply {
            Reply::Row(Some(Row { id: _, code: Some(code) })) => finish(Ok(code)),
            Reply::Row(_) => (EncodeState::Opening { value }, Step::Ask(Request::Begin)),
            other => finish(Err(error_of(other))),
        },
        EncodeState::Opening { value } => match reply {
            Reply::Done => {
                let asked = value.clone();
                (
                    EncodeState::Inserting { value },
                    Step::Ask(Request::InsertIfAbsent { value: asked }),
                )
            },
            other => finish(Err(error_of(other))),
        },
        EncodeState::Inserting { value } => match reply {
            Reply::Done => {
                let asked = value.clone();
                (EncodeState::Reading { value }, Step::Ask(Request::FindByValue { value: asked }))
            },
            other => abort(error_of(other)),
        },
        EncodeState::Reading { value: _ } => match reply {
            Reply::Row(Some(Row { id: _, code: Some(code) })) => (
                EncodeState::Committing { code },
                Step::Ask(Request::Commit),
            ),
            Reply::Row(Some(Row { id, code: None })) => match id_to_code(id) {
                Ok(code) => (
                    EncodeState::Writing { id },
                    Step::Ask(Request::SetCodeIfUnset { id, code }),
                ),
                Err(error) => abort(error),
            },
            Reply::Row(None) => abort(ApiError::Store(MSG_ROW_MISSING.to_owned())),
            other => abort(error_of(other)),
        },
        EncodeState::Writing { id } => match reply {
            Reply::Updated(_) => (
                EncodeState::Rereading,
                Step::Ask(Request::FindCodeById { id }),
            ),
            other => abort(error_of(other)),
        },
        EncodeState::Rereading => match reply {
            Reply::Code(Some(code)) => (
                EncodeState::Committing { code },
                Step::Ask(Request::Commit),
            ),
            Reply::Code(None) => abort(ApiError::Store(MSG_CODE_MISSING.to_owned())),
            other => abort(error_of(other)),
        },
        EncodeState::Committing { code } => match reply {
            Reply::Done => finish(Ok(code)),
            other => abort(error_of(other)),
        },
        EncodeState::Aborting { error } => finish(Err(error)),
        EncodeState::Finished => finish(Err(ApiError::Store(MSG_UNEXPECTED_REPLY.to_owned()))),
    }
}

/// An encode operation asks at most eight requests: each reply brings it
/// nearer its end, and it ends exactly when it hands out a result.
pub proof fn lemma_encode_terminates(state: EncodeStateView, reply: ReplyView)
    ensures
        encode_next_spec(state, reply).0.remaining() < state.remaining() || state is Finished,
        encode_next_spec(state, reply).0 is Finished <==> encode_next_spec(
            state,
            reply,
        ).1 is Finish,
        forall|value: Seq<char>| #[trigger]
            encode_start_spec(value).0 is Finished <==> encode_start_spec(value).1 is Finish,
{
}

/// An encode operation never leaves a transaction open: it hands a code out
/// only on the reply that the commit is done, and a failure only after it
/// asked for the rollback; and outside a transaction it asks for nothing
/// that writes.
pub proof fn lemma_encode_closes_transaction(state: EncodeStateView, reply: ReplyView)
    ensures
        ({
            let (next, step) = encode_next_spec(state, reply);
            &&& state.in_transaction() && step is Finish ==> {
                ||| state is Committing && reply is Done && step->Finish_0 is Ok
                ||| state is Aborting && step->Finish_0 is Err
            }
            &&& state.in_transaction() && !(step is Finish) ==> next.in_transaction()
            &&& next is Aborting ==> step == StepView::Ask(RequestView::Rollback)
            &&& next is Committing ==> step == StepView::Ask(RequestView::Commit)
            &&& !state.in_transaction() && step is Ask ==> {
                ||| step->Ask_0 is FindByValue
                ||| step->Ask_0 is Begin
                ||| step->Ask_0 is InsertIfAbsent && state is Opening && reply is Done
            }
        }),
{
}

/// How a decode operation begins: a string that has not the form of a code
/// is refused at once, any other is looked up.
pub open spec fn decode_start_spec(code: Seq<char>) -> StepView {
    match validate_code_spec(code) {
        Err(error) => StepView::Finish(Err(error)),
        Ok(_) => StepView::Ask(RequestView::FindByCode { code }),
    }
}

/// How a decode operation ends when the store answers its lookup with
/// `reply`: with the value found, or as not found, or with the store's
/// failure.
pub open spec fn decode_finish_spec(reply: ReplyView) -> Result<Seq<char>, ErrorView> {
    match reply {
        ReplyView::Value(Some(value)) => Ok(value),
        ReplyView::Value(None) => Err(ErrorView::NotFound),
        _ => Err(reply_error(reply)),
    }
}

/// Begins a decode operation for `code`: the one request it has, or its
/// refusal.
pub fn decode_start(code: String) -> (step: Step)
    ensures
        step@ == decode_start_spec(code@),
        step is Ask <==> is_code(code@),
{
    match validate_code(code.as_str()) {
        Err(error) => Step::Finish(Err(error)),
        Ok(_) => Step::Ask(Request::FindByCode { code }),
    }
}

/// Takes the store's reply to the lookup and gives the decode operation's
/// result.
pub fn decode_finish(reply: Reply) -> (result: Result<String, ApiError>)
    ensures
        outcome_view(result) == decode_finish_spec(reply@),
{
    match reply {
        Reply::Value(Some(value)) => Ok(value),
        Reply::Value(None) => Err(ApiError::NotFound),
        other => Err(error_of(other)),
    }
}

} // verus!
