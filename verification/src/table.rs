//! The mapping table in memory: a store that answers each request as the
//! model says, for running the engine without a database.

use crate::model::{
    holds_code, holds_id, holds_value, lemma_lookup_unique, lemma_step_preserves_wf, MappingView,
    TableView, MSG_CODE_TAKEN, MSG_IDENTITIES_SPENT, MSG_NO_TRANSACTION, MSG_TRANSACTION_OPEN,
};
use crate::protocol::{Reply, Request, Row};
use vstd::prelude::*;

verus! {

struct Mapping {
    id: i64,
    value: String,
    code: Option<String>,
}

impl View for Mapping {
    type V = MappingView;

    closed spec fn view(&self) -> MappingView {
        MappingView { id: self.id as int, value: self.value@, code: self.code.deep_view() }
    }
}

spec fn mappings_view(rows: Seq<Mapping>) -> Seq<MappingView> {
    Seq::new(rows.len(), |i: int| rows[i]@)
}

/// A mapping table held in memory.
pub struct Table {
    rows: Vec<Mapping>,
    next_id: i64,
    saved: Option<Vec<Mapping>>,
}

impl View for Table {
    type V = TableView;

    closed spec fn view(&self) -> TableView {
        TableView {
            rows: mappings_view(self.rows@),
            next_id: self.next_id as int,
            saved: match self.saved {
                Some(rows) => Some(mappings_view(rows@)),
                None => None,
            },
        }
    }
}

fn clone_code(code: &Option<String>) -> (copy: Option<String>)
    ensures
        copy == *code,
{
    match code {
        Some(c) => Some(c.clone()),
        None => None,
    }
}

fn clone_rows(rows: &Vec<Mapping>) -> (copy: Vec<Mapping>)
    ensures
        mappings_view(copy@) == mappings_view(rows@),
{
    let mut copy: Vec<Mapping> = Vec::new();
    let mut i: usize = 0;
    while i < rows.len()
        invariant
            i <= rows.len(),
            copy.len() == i,
            forall|j: int| 0 <= j < i ==> copy[j]@ == rows[j]@,
        decreases rows.len() - i,
    {
        let m = &rows[i];
        copy.push(Mapping { id: m.id, value: m.value.clone(), code: clone_code(&m.code) });
        i = i + 1;
    }
    assert(mappings_view(copy@) =~= mappings_view(rows@));
    copy
}

impl Table {
    /// Whether the table meets its own constraints. Every table made by
    /// `new` and changed by `execute` does.
    pub open spec fn wf(&self) -> bool {
        self@.wf()
    }

    /// An empty table with no transaction open; its first identity is 1.
    pub fn new() -> (table: Table)
        ensures
            table.wf(),
            table@ == TableView::empty(),
    {
        let table = Table { rows: Vec::new(), next_id: 1, saved: None };
        assert(table@.rows =~= Seq::empty());
        table
    }

    /// An empty table whose first identity is `first_id`, for any identity
    /// from 1 on.
    pub fn starting_at(first_id: i64) -> (table: Option<Table>)
        ensures
            table is Some <==> first_id >= 1,
            table matches Some(t) ==> t.wf() && t@ == (TableView {
                rows: Seq::empty(),
                next_id: first_id as int,
                saved: None,
            }),
    {
        if first_id < 1 {
            return None;
        }
        let table = Table { rows: Vec::new(), next_id: first_id, saved: None };
        assert(table@.rows =~= Seq::empty());
        Some(table)
    }

    /// The number of mappings.
    pub fn len(&self) -> (n: usize)
        ensures
            n == self@.rows.len(),
    {
        self.rows.len()
    }

    fn find_value(&self, value: &String) -> (found: Option<usize>)
        requires
            self.wf(),
        ensures
            match found {
                Some(i) => i < self.rows.len() && self@.by_value(value@) == Some(
                    self@.rows[i as int],
                ),
                None => self@.by_value(value@) is None,
            },
    {
        let mut i: usize = 0;
        while i < self.rows.len()
            invariant
                i <= self.rows.len(),
                self.wf(),
                forall|j: int| 0 <= j < i ==> !holds_value(self@.rows, j, value@),
            decreases self.rows.len() - i,
        {
            if self.rows[i].value == *value {
                proof {
                    lemma_lookup_unique(self@, i as int);
                }
                return Some(i);
            }
            i = i + 1;
        }
        None
    }

    fn find_id(&self, id: i64) -> (found: Option<usize>)
        requires
            self.wf(),
        ensures
            match found {
                Some(i) => i < self.rows.len() && self@.by_id(id as int) == Some(
                    self@.rows[i as int],
                ),
                None => self@.by_id(id as int) is None,
            },
    {
        let mut i: usize = 0;
        while i < self.rows.len()
            invariant
                i <= self.rows.len(),
                self.wf(),
                forall|j: int| 0 <= j < i ==> !holds_id(self@.rows, j, id as int),
            decreases self.rows.len() - i,
        {
            if self.rows[i].id == id {
                proof {
                    lemma_lookup_unique(self@, i as int);
                }
                return Some(i);
            }
            i = i + 1;
        }
        None
    }

    fn find_code(&self, code: &String) -> (found: Option<usize>)
        requires
            self.wf(),
        ensures
            match found {
                Some(i) => i < self.rows.len() && self@.by_code(code@) == Some(
                    self@.rows[i as int],
                ),
                None => self@.by_code(code@) is None,
            },
    {
        let mut i: usize = 0;
        while i < self.rows.len()
            invariant
                i <= self.rows.len(),
                self.wf(),
                forall|j: int| 0 <= j < i ==> !holds_code(self@.rows, j, code@),
            decreases self.rows.len() - i,
        {
            let carries = match &self.rows[i].code {
                Some(c) => *c == *code,
                None => false,
            };
            if carries {
                proof {
                    lemma_lookup_unique(self@, i as int);
                }
                return Some(i);
            }
            i = i + 1;
        }
        None
    }

    /// Carries `request` out and answers it, as the model says.
    pub fn execute(&mut self, request: Request) -> (reply: Reply)
        requires
            old(self).wf(),
        ensures
            final(self).wf(),
            (final(self)@, reply@) == old(self)@.step(request@),
    {
        proof {
            lemma_step_preserves_wf(self@, request@);
        }
        match request {
            Request::FindByValue { value } => match self.find_value(&value) {
                Some(i) => Reply::Row(
                    Some(Row { id: self.rows[i].id, code: clone_code(&self.rows[i].code) }),
                ),
                None => Reply::Row(None),
            },
            Request::Begin => {
                if self.saved.is_some() {
                    Reply::Failed(MSG_TRANSACTION_OPEN.to_owned())
                } else {
                    self.saved = Some(clone_rows(&self.rows));
                    Reply::Done
                }
            },
            Request::InsertIfAbsent { value } => {
                if self.find_value(&value).is_some() {
                    Reply::Done
                } else if self.next_id >= i64::MAX {
                    Reply::Failed(MSG_IDENTITIES_SPENT.to_owned())
                } else {
                    self.rows.push(Mapping { id: self.next_id, value, code: None });
                    self.next_id = self.next_id + 1;
                    assert(self@.rows =~= old(self)@.inserted(value@).rows);
                    Reply::Done
                }
            },
            Request::SetCodeIfUnset { id, code } => match self.find_id(id) {
                Some(i) => {
                    if self.rows[i].code.is_some() {
                        Reply::Updated(false)
                    } else if self.find_code(&code).is_some() {
                        Reply::Failed(MSG_CODE_TAKEN.to_owned())
                    } else {
                        let value = self.rows[i].value.clone();
                        self.rows.set(i, Mapping { id, value, code: Some(code) });
                        proof {
                            let before = old(self)@;
                            assert forall|j: int| 0 <= j < before.rows.len() implies (
                            #[trigger] before.rows[j]).id == id as int <==> j == i as int by {
                                lemma_lookup_unique(before, j);
                            }
                            assert(self@.rows =~= before.coded(id as int, code@).rows);
                        }
                        Reply::Updated(true)
                    }
                },
                None => Reply::Updated(false),
            },
            Request::FindCodeById { id } => match self.find_id(id) {
                Some(i) => Reply::Code(clone_code(&self.rows[i].code)),
                None => Reply::Code(None),
            },
            Request::Commit => {
                if self.saved.is_some() {
                    self.saved = None;
                    Reply::Done
                } else {
                    Reply::Failed(MSG_NO_TRANSACTION.to_owned())
                }
            },
            Request::Rollback => match self.saved.take() {
                Some(rows) => {
                    self.rows = rows;
                    Reply::Done
                },
                None => Reply::Failed(MSG_NO_TRANSACTION.to_owned()),
            },
            Request::FindByCode { code } => match self.find_code(&code) {
                Some(i) => Reply::Value(Some(self.rows[i].value.clone())),
                None => Reply::Value(None),
            },
        }
    }
}

} // verus!
