//! The mapping table as mathematics: what a store that keeps the mappings
//! holds, and how it answers each request.

use crate::protocol::{ReplyView, RequestView, RowView};
use vstd::prelude::*;

verus! {

pub const MSG_TRANSACTION_OPEN: &'static str = "a transaction is already open";

pub const MSG_NO_TRANSACTION: &'static str = "no transaction is open";

pub const MSG_IDENTITIES_SPENT: &'static str = "no identity is left to give";

pub const MSG_CODE_TAKEN: &'static str = "the code belongs to another mapping";

/// One mapping: a value, the identity it was inserted under, and the code it
/// was given, if any yet.
pub struct MappingView {
    pub id: int,
    pub value: Seq<char>,
    pub code: Option<Seq<char>>,
}

impl MappingView {
    /// What a lookup tells of the mapping.
    pub open spec fn row(self) -> RowView {
        RowView { id: self.id, code: self.code }
    }
}

/// Whether `rows` can be the mappings of a table whose next identity is
/// `next_id`: identities are positive, below `next_id` and grow in the
/// order of insertion; no two mappings share a value, and none the code of
/// another.
pub open spec fn rows_wf(rows: Seq<MappingView>, next_id: int) -> bool {
    &&& forall|i: int| 0 <= i < rows.len() ==> 0 < (#[trigger] rows[i]).id < next_id
    &&& forall|i: int, j: int|
        0 <= i < j < rows.len() ==> (#[trigger] rows[i]).id < (#[trigger] rows[j]).id
    &&& forall|i: int, j: int|
        0 <= i < rows.len() && 0 <= j < rows.len() && i != j ==> (#[trigger] rows[i]).value != (
        #[trigger] rows[j]).value
    &&& forall|i: int, j: int|
        0 <= i < rows.len() && 0 <= j < rows.len() && i != j && (#[trigger] rows[i]).code is Some
            ==> rows[i].code != (#[trigger] rows[j]).code
}

/// Whether `rows[i]` is the mapping of `value`.
pub open spec fn holds_value(rows: Seq<MappingView>, i: int, value: Seq<char>) -> bool {
    0 <= i < rows.len() && rows[i].value == value
}

/// Whether `rows[i]` is the mapping with identity `id`.
pub open spec fn holds_id(rows: Seq<MappingView>, i: int, id: int) -> bool {
    0 <= i < rows.len() && rows[i].id == id
}

/// Whether `rows[i]` is the mapping that carries `code`.
pub open spec fn holds_code(rows: Seq<MappingView>, i: int, code: Seq<char>) -> bool {
    0 <= i < rows.len() && rows[i].code == Some(code)
}

/// The mapping of `value` among `rows`, if there is one.
pub open spec fn mapping_of_value(rows: Seq<MappingView>, value: Seq<char>) -> Option<MappingView> {
    if exists|i: int| holds_value(rows, i, value) {
        Some(rows[choose|i: int| holds_value(rows, i, value)])
    } else {
        None
    }
}

/// The mapping with identity `id` among `rows`, if there is one.
pub open spec fn mapping_of_id(rows: Seq<MappingView>, id: int) -> Option<MappingView> {
    if exists|i: int| holds_id(rows, i, id) {
        Some(rows[choose|i: int| holds_id(rows, i, id)])
    } else {
        None
    }
}

/// The mapping that carries `code` among `rows`, if there is one.
pub open spec fn mapping_of_code(rows: Seq<MappingView>, code: Seq<char>) -> Option<MappingView> {
    if exists|i: int| holds_code(rows, i, code) {
        Some(rows[choose|i: int| holds_code(rows, i, code)])
    } else {
        None
    }
}

/// The state of the store: the mappings in the order of their insertion,
/// the identity that the next insertion gets, and, while a transaction is
/// open, the mappings as they were when it began.
pub struct TableView {
    pub rows: Seq<MappingView>,
    pub next_id: int,
    pub saved: Option<Seq<MappingView>>,
}

impl TableView {
    /// The table before anything was inserted.
    pub open spec fn empty() -> TableView {
        TableView { rows: Seq::empty(), next_id: 1, saved: None }
    }

    /// The table's own constraints, which every request preserves.
    pub open spec fn wf(self) -> bool {
        &&& 1 <= self.next_id <= i64::MAX
        &&& rows_wf(self.rows, self.next_id)
        &&& self.saved is Some ==> rows_wf(self.saved->0, self.next_id)
    }

    /// Whether no transaction is open.
    pub open spec fn idle(self) -> bool {
        self.saved is None
    }

    /// The mapping of `value`, if there is one.
    pub open spec fn by_value(self, value: Seq<char>) -> Option<MappingView> {
        mapping_of_value(self.rows, value)
    }

    /// The mapping with identity `id`, if there is one.
    pub open spec fn by_id(self, id: int) -> Option<MappingView> {
        mapping_of_id(self.rows, id)
    }

    /// The mapping that carries `code`, if there is one.
    pub open spec fn by_code(self, code: Seq<char>) -> Option<MappingView> {
        mapping_of_code(self.rows, code)
    }

    /// The table with a mapping for `value` appended, without code, under
    /// the next identity.
    pub open spec fn inserted(self, value: Seq<char>) -> TableView {
        TableView {
            rows: self.rows.push(MappingView { id: self.next_id, value, code: None }),
            next_id: self.next_id + 1,
            saved: self.saved,
        }
    }

    /// The table with `code` given to the mapping with identity `id`.
    pub open spec fn coded(self, id: int, code: Seq<char>) -> TableView {
        TableView {
            rows: Seq::new(
                self.rows.len(),
                |i: int|
                    if self.rows[i].id == id {
                        MappingView { id, value: self.rows[i].value, code: Some(code) }
                    } else {
                        self.rows[i]
                    },
            ),
            next_id: self.next_id,
            saved: self.saved,
        }
    }

    /// The table with the open transaction's effects undone. Identities
    /// given out meanwhile are not given again.
    pub open spec fn rolled_back(self) -> TableView {
        TableView { rows: self.saved->0, next_id: self.next_id, saved: None }
    }

    /// The table with the open transaction's effects made durable.
    pub open spec fn committed(self) -> TableView {
        TableView { rows: self.rows, next_id: self.next_id, saved: None }
    }

    /// The table with a transaction opened.
    pub open spec fn begun(self) -> TableView {
        TableView { rows: self.rows, next_id: self.next_id, saved: Some(self.rows) }
    }

    /// The table after `request`, and the reply to it.
    ///
    /// A value is inserted only where it has no mapping, and a code is
    /// written only where the mapping has none; a code that another mapping
    /// carries is refused, and so are an insertion when the identities are
    /// spent, a transaction inside another, and a commit or rollback
    /// without one.
    pub open spec fn step(self, request: RequestView) -> (TableView, ReplyView) {
        match request {
            RequestView::FindByValue { value } => (
                self,
                ReplyView::Row(
                    match self.by_value(value) {
                        Some(m) => Some(m.row()),
                        None => None,
                    },
                ),
            ),
            RequestView::Begin => if self.saved is Some {
                (self, ReplyView::Failed(MSG_TRANSACTION_OPEN@))
            } else {
                (self.begun(), ReplyView::Done)
            },
            RequestView::InsertIfAbsent { value } => if self.by_value(value) is Some {
                (self, ReplyView::Done)
            } else if self.next_id >= i64::MAX {
                (self, ReplyView::Failed(MSG_IDENTITIES_SPENT@))
            } else {
                (self.inserted(value), ReplyView::Done)
            },
            RequestView::SetCodeIfUnset { id, code } => match self.by_id(id) {
                Some(m) => if m.code is Some {
                    (self, ReplyView::Updated(false))
                } else if self.by_code(code) is Some {
                    (self, ReplyView::Failed(MSG_CODE_TAKEN@))
                } else {
                    (self.coded(id, code), ReplyView::Updated(true))
                },
                None => (self, ReplyView::Updated(false)),
            },
            RequestView::FindCodeById { id } => (
                self,
                ReplyView::Code(
                    match self.by_id(id) {
                        Some(m) => m.code,
                        None => None,
                    },
                ),
            ),
            RequestView::Commit => if self.saved is Some {
                (self.committed(), ReplyView::Done)
            } else {
                (self, ReplyView::Failed(MSG_NO_TRANSACTION@))
            },
            RequestView::Rollback => if self.saved is Some {
                (self.rolled_back(), ReplyView::Done)
            } else {
                (self, ReplyView::Failed(MSG_NO_TRANSACTION@))
            },
            RequestView::FindByCode { code } => (
                self,
                ReplyView::Value(
                    match self.by_code(code) {
                        Some(m) => Some(m.value),
                        None => None,
                    },
                ),
            ),
        }
    }
}

/// In a well-formed table a value, an identity and a code each belong to
/// one mapping at most: whichever mapping holds it is the one a lookup
/// gives.
pub proof fn lemma_lookup_unique(t: TableView, i: int)
    requires
        t.wf(),
        0 <= i < t.rows.len(),
    ensures
        t.by_value(t.rows[i].value) == Some(t.rows[i]),
        t.by_id(t.rows[i].id) == Some(t.rows[i]),
        t.rows[i].code is Some ==> t.by_code(t.rows[i].code->0) == Some(t.rows[i]),
{
    let rows = t.rows;
    assert(holds_value(rows, i, rows[i].value));
    let iv = choose|k: int| holds_value(rows, k, rows[i].value);
    assert(iv == i);
    assert(holds_id(rows, i, rows[i].id));
    let ii = choose|k: int| holds_id(rows, k, rows[i].id);
    assert(ii == i) by {
        if ii < i {
            assert(rows[ii].id < rows[i].id);
        } else if i < ii {
            assert(rows[i].id < rows[ii].id);
        }
    }
    if rows[i].code is Some {
        assert(holds_code(rows, i, rows[i].code->0));
        let ic = choose|k: int| holds_code(rows, k, rows[i].code->0);
        assert(ic == i);
    }
}

/// In a well-formed table every mapping is found under its value, under
/// its identity and under its code.
pub proof fn lemma_mapping_found(t: TableView, m: MappingView)
    requires
        t.wf(),
        t.rows.contains(m),
    ensures
        t.by_value(m.value) == Some(m),
        t.by_id(m.id) == Some(m),
        m.code is Some ==> t.by_code(m.code->0) == Some(m),
{
    let i = choose|i: int| 0 <= i < t.rows.len() && t.rows[i] == m;
    lemma_lookup_unique(t, i);
}

/// What a lookup by value gives is a mapping of the table with that value,
/// and where it gives nothing no mapping has it.
pub proof fn lemma_by_value(t: TableView, value: Seq<char>)
    ensures
        match t.by_value(value) {
            Some(m) => m.value == value && t.rows.contains(m),
            None => forall|i: int| 0 <= i < t.rows.len() ==> (#[trigger] t.rows[i]).value != value,
        },
{
    assert forall|i: int| 0 <= i < t.rows.len() && (#[trigger] t.rows[i]).value == value implies
        t.by_value(value) is Some by {
        assert(holds_value(t.rows, i, value));
    }
}

/// What a lookup by identity gives is a mapping of the table with that
/// identity, and where it gives nothing no mapping has it.
pub proof fn lemma_by_id(t: TableView, id: int)
    ensures
        match t.by_id(id) {
            Some(m) => m.id == id && t.rows.contains(m),
            None => forall|i: int| 0 <= i < t.rows.len() ==> (#[trigger] t.rows[i]).id != id,
        },
{
    assert forall|i: int| 0 <= i < t.rows.len() && (#[trigger] t.rows[i]).id == id implies
        t.by_id(id) is Some by {
        assert(holds_id(t.rows, i, id));
    }
}

/// What a lookup by code gives is a mapping of the table that carries the
/// code, and where it gives nothing no mapping carries it.
pub proof fn lemma_by_code(t: TableView, code: Seq<char>)
    ensures
        match t.by_code(code) {
            Some(m) => m.code == Some(code) && t.rows.contains(m),
            None => forall|i: int|
                0 <= i < t.rows.len() ==> (#[trigger] t.rows[i]).code != Some(code),
        },
{
    assert forall|i: int| 0 <= i < t.rows.len() && (#[trigger] t.rows[i]).code == Some(code) implies
        t.by_code(code) is Some by {
        assert(holds_code(t.rows, i, code));
    }
}

/// After an insertion the new mapping is the value's, and every other
/// value, every identity in use before and every code is where it was.
pub proof fn lemma_inserted(t: TableView, value: Seq<char>)
    requires
        t.wf(),
        t.by_value(value) is None,
        t.next_id < i64::MAX,
    ensures
        t.inserted(value).wf(),
        t.inserted(value).by_value(value) == Some(
            MappingView { id: t.next_id, value, code: None },
        ),
        t.inserted(value).by_id(t.next_id) == Some(
            MappingView { id: t.next_id, value, code: None },
        ),
        forall|w: Seq<char>|
            w != value ==> #[trigger] t.inserted(value).by_value(w) == t.by_value(w),
        forall|c: Seq<char>| #[trigger] t.inserted(value).by_code(c) == t.by_code(c),
{
    let t2 = t.inserted(value);
    let n = t.rows.len() as int;
    assert(t2 == t.step(RequestView::InsertIfAbsent { value }).0);
    lemma_step_preserves_wf(t, RequestView::InsertIfAbsent { value });
    lemma_lookup_unique(t2, n);
    assert forall|w: Seq<char>| w != value implies #[trigger] t2.by_value(w) == t.by_value(w) by {
        lemma_by_value(t, w);
        lemma_by_value(t2, w);
        match t.by_value(w) {
            Some(m) => {
                let i = choose|i: int| 0 <= i < t.rows.len() && t.rows[i] == m;
                assert(t2.rows[i] == m);
                lemma_lookup_unique(t2, i);
            },
            None => {
                if t2.by_value(w) is Some {
                    let m = t2.by_value(w)->0;
                    let i = choose|i: int| 0 <= i < t2.rows.len() && t2.rows[i] == m;
                    assert(i < n);
                    assert(t.rows[i].value == w);
                }
            },
        }
    }
    assert forall|c: Seq<char>| #[trigger] t2.by_code(c) == t.by_code(c) by {
        lemma_by_code(t, c);
        lemma_by_code(t2, c);
        match t.by_code(c) {
            Some(m) => {
                let i = choose|i: int| 0 <= i < t.rows.len() && t.rows[i] == m;
                assert(t2.rows[i] == m);
                lemma_lookup_unique(t2, i);
            },
            None => {
                if t2.by_code(c) is Some {
                    let m = t2.by_code(c)->0;
                    let i = choose|i: int| 0 <= i < t2.rows.len() && t2.rows[i] == m;
                    assert(i < n);
                    assert(t.rows[i].code == Some(c));
                }
            },
        }
    }
}

/// After a code was written the mapping carries it, under its value and
/// its identity as before, and every other value and code is where it was.
pub proof fn lemma_coded(t: TableView, id: int, code: Seq<char>)
    requires
        t.wf(),
        t.by_id(id) is Some,
        t.by_id(id)->0.code is None,
        t.by_code(code) is None,
    ensures
        ({
            let m = MappingView { id, value: t.by_id(id)->0.value, code: Some(code) };
            &&& t.coded(id, code).wf()
            &&& t.coded(id, code).by_id(id) == Some(m)
            &&& t.coded(id, code).by_value(m.value) == Some(m)
            &&& t.coded(id, code).by_code(code) == Some(m)
            &&& forall|w: Seq<char>|
                w != m.value ==> #[trigger] t.coded(id, code).by_value(w) == t.by_value(w)
            &&& forall|c: Seq<char>|
                c != code ==> #[trigger] t.coded(id, code).by_code(c) == t.by_code(c)
        }),
{
    let t2 = t.coded(id, code);
    let old_m = t.by_id(id)->0;
    let m = MappingView { id, value: old_m.value, code: Some(code) };
    assert(t2 == t.step(RequestView::SetCodeIfUnset { id, code }).0);
    lemma_step_preserves_wf(t, RequestView::SetCodeIfUnset { id, code });
    lemma_by_id(t, id);
    let k = choose|k: int| 0 <= k < t.rows.len() && t.rows[k] == old_m;
    assert(t2.rows[k] == m);
    lemma_lookup_unique(t2, k);
    assert forall|i: int| 0 <= i < t.rows.len() && i != k implies t2.rows[i] == t.rows[i] by {
        if t.rows[i].id == id {
            lemma_lookup_unique(t, i);
            lemma_lookup_unique(t, k);
        }
    }
    assert forall|w: Seq<char>| w != m.value implies #[trigger] t2.by_value(w) == t.by_value(w) by {
        lemma_by_value(t, w);
        lemma_by_value(t2, w);
        match t.by_value(w) {
            Some(x) => {
                let i = choose|i: int| 0 <= i < t.rows.len() && t.rows[i] == x;
                assert(t2.rows[i] == x);
                lemma_lookup_unique(t2, i);
            },
            None => {
                if t2.by_value(w) is Some {
                    let x = t2.by_value(w)->0;
                    let i = choose|i: int| 0 <= i < t2.rows.len() && t2.rows[i] == x;
                    assert(t.rows[i].value == w);
                }
            },
        }
    }
    assert forall|c: Seq<char>| c != code implies #[trigger] t2.by_code(c) == t.by_code(c) by {
        lemma_by_code(t, c);
        lemma_by_code(t2, c);
        match t.by_code(c) {
            Some(x) => {
                let i = choose|i: int| 0 <= i < t.rows.len() && t.rows[i] == x;
                assert(t2.rows[i] == x);
                lemma_lookup_unique(t2, i);
            },
            None => {
                if t2.by_code(c) is Some {
                    let x = t2.by_code(c)->0;
                    let i = choose|i: int| 0 <= i < t2.rows.len() && t2.rows[i] == x;
                    assert(t.rows[i].code == Some(c));
                }
            },
        }
    }
}

/// Every request leaves the table well formed, and only `Begin`, `Commit`
/// and `Rollback` open or close a transaction.
pub proof fn lemma_step_preserves_wf(t: TableView, request: RequestView)
    requires
        t.wf(),
    ensures
        t.step(request).0.wf(),
        t.step(request).0.next_id >= t.next_id,
        !(request is Begin || request is Commit || request is Rollback) ==> t.step(request).0.saved
            == t.saved,
{
    let after = t.step(request).0;
    match request {
        RequestView::InsertIfAbsent { value } => {
            if t.by_value(value) is None && t.next_id < i64::MAX {
                let rows = after.rows;
                assert forall|i: int, j: int|
                    0 <= i < rows.len() && 0 <= j < rows.len() && i != j implies (
                #[trigger] rows[i]).value != (#[trigger] rows[j]).value by {
                    if i == t.rows.len() {
                        assert(!holds_value(t.rows, j, value));
                    } else if j == t.rows.len() {
                        assert(!holds_value(t.rows, i, value));
                    }
                }
            }
        },
        RequestView::SetCodeIfUnset { id, code } => {
            if after != t {
                let rows = after.rows;
                let k = choose|k: int| holds_id(t.rows, k, id);
                lemma_lookup_unique(t, k);
                assert forall|i: int| 0 <= i < rows.len() && i != k implies rows[i]
                    == t.rows[i] by {
                    if t.rows[i].id == id {
                        lemma_lookup_unique(t, i);
                    }
                }
                assert forall|i: int, j: int|
                    0 <= i < rows.len() && 0 <= j < rows.len() && i != j && (
                    #[trigger] rows[i]).code is Some implies rows[i].code != (
                #[trigger] rows[j]).code by {
                    if i == k {
                        assert(!holds_code(t.rows, j, code));
                    } else if j == k {
                        assert(!holds_code(t.rows, i, code));
                    }
                }
            }
        },
        _ => {},
    }
}

} // verus!
