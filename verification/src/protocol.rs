//! The conversation between the assignment engine and the store that keeps
//! the mappings: what the engine asks, and what the store answers.

use crate::error::{ApiError, ErrorView};
use vstd::prelude::*;

verus! {

/// What the store tells of the mapping of one value.
#[derive(Debug, Clone, PartialEq, Eq)]
pub struct Row {
    /// The identity the store gave the mapping when it was inserted.
    pub id: i64,
    /// The code, once one was assigned.
    pub code: Option<String>,
}

pub struct RowView {
    pub id: int,
    pub code: Option<Seq<char>>,
}

impl View for Row {
    type V = RowView;

    open spec fn view(&self) -> RowView {
        RowView { id: self.id as int, code: self.code.deep_view() }
    }
}

/// One request to the store.
#[derive(Debug, Clone, PartialEq, Eq)]
pub enum Request {
    /// Look the mapping of a value up. Answered by `Reply::Row`.
    FindByValue { value: String },
    /// Open a transaction; what follows, up to `Commit` or `Rollback`, is
    /// one atomic unit. Answered by `Reply::Done`.
    Begin,
    /// Insert a mapping without code for the value, unless the value has a
    /// mapping already. Answered by `Reply::Done`.
    InsertIfAbsent { value: String },
    /// Give the mapping with this identity the code, unless it has one.
    /// Answered by `Reply::Updated`.
    SetCodeIfUnset { id: i64, code: String },
    /// Read the code of the mapping with this identity. Answered by
    /// `Reply::Code`.
    FindCodeById { id: i64 },
    /// Make the transaction's effects durable. Answered by `Reply::Done`.
    Commit,
    /// Undo the transaction's effects. Answered by `Reply::Done`.
    Rollback,
    /// Look up the value that a code stands for. Answered by
    /// `Reply::Value`.
    FindByCode { code: String },
}

pub enum RequestView {
    FindByValue { value: Seq<char> },
    Begin,
    InsertIfAbsent { value: Seq<char> },
    SetCodeIfUnset { id: int, code: Seq<char> },
    FindCodeById { id: int },
    Commit,
    Rollback,
    FindByCode { code: Seq<char> },
}

impl View for Request {
    type V = RequestView;

    open spec fn view(&self) -> RequestView {
        match self {
            Request::FindByValue { value } => RequestView::FindByValue { value: value@ },
            Request::Begin => RequestView::Begin,
            Request::InsertIfAbsent { value } => RequestView::InsertIfAbsent { value: value@ },
            Request::SetCodeIfUnset { id, code } => RequestView::SetCodeIfUnset {
                id: *id as int,
                code: code@,
            },
            Request::FindCodeById { id } => RequestView::FindCodeById { id: *id as int },
            Request::Commit => RequestView::Commit,
            Request::Rollback => RequestView::Rollback,
            Request::FindByCode { code } => RequestView::FindByCode { code: code@ },
        }
    }
}

/// The store's answer to one request.
#[derive(Debug, Clone, PartialEq, Eq)]
pub enum Reply {
    /// The request was carried out.
    Done,
    /// The mapping of the value, if it has one.
    Row(Option<Row>),
    /// Whether the conditional write changed the mapping.
    Updated(bool),
    /// The code of the mapping; none if the mapping is missing or has no
    /// code.
    Code(Option<String>),
    /// The value of the mapping with the code, if there is one.
    Value(Option<String>),
    /// The store could not carry the request out; the text says why.
    Failed(String),
}

pub enum ReplyView {
    Done,
    Row(Option<RowView>),
    Updated(bool),
    Code(Option<Seq<char>>),
    Value(Option<Seq<char>>),
    Failed(Seq<char>),
}

impl View for Reply {
    type V = ReplyView;

    open spec fn view(&self) -> ReplyView {
        match self {
            Reply::Done => ReplyView::Done,
            Reply::Row(r) => ReplyView::Row(
                match r {
                    Some(row) => Some(row@),
                    None => None,
                },
            ),
            Reply::Updated(b) => ReplyView::Updated(*b),
            Reply::Code(c) => ReplyView::Code(c.deep_view()),
            Reply::Value(v) => ReplyView::Value(v.deep_view()),
            Reply::Failed(d) => ReplyView::Failed(d@),
        }
    }
}

/// What an operation does next: put a request to the store, or end with
/// its result.
#[derive(Debug, PartialEq, Eq)]
pub enum Step {
    /// Carry the request out and hand the reply to the operation.
    Ask(Request),
    /// The operation is over; this is what the caller gets.
    Finish(Result<String, ApiError>),
}

pub enum StepView {
    Ask(RequestView),
    Finish(Result<Seq<char>, ErrorView>),
}

impl View for Step {
    type V = StepView;

    open spec fn view(&self) -> StepView {
        match self {
            Step::Ask(r) => StepView::Ask(r@),
            Step::Finish(r) => StepView::Finish(
                match r {
                    Ok(s) => Ok(s@),
                    Err(e) => Err(e@),
                },
            ),
        }
    }
}

} // verus!
