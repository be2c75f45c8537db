//! The table backend: conditional CRUD and scan over a table of records
//! keyed by a string identifier.
//!
//! `TableBackend` states, over a mathematical map from identifiers to
//! records, what each operation does — in particular that a non-overwriting
//! `put` is a single atomic conditional write, with no gap between the
//! existence check and the write. `MemTableBackend` is the verified
//! in-memory implementation; a remote implementation lives outside the
//! verified library and must meet the same contracts.

use vstd::pervasive::VecAdditionalExecFns;
use vstd::prelude::*;

use crate::record::{RawRecord, RawRecordView};
use crate::squirrel::{DeletionResult, PutResult, SquirrelError};

verus! {

/// What a conditional put does to the table: if `if_absent` is set and the
/// identifier is taken, nothing changes and the caller learns it did not
/// overwrite; otherwise the record is written under the identifier.
pub open spec fn put_transition(
    t: Map<Seq<char>, RawRecordView>,
    id: Seq<char>,
    rec: RawRecordView,
    if_absent: bool,
) -> (Map<Seq<char>, RawRecordView>, PutResult) {
    if if_absent && t.contains_key(id) {
        (t, PutResult::DidNotOverwrite)
    } else {
        (t.insert(id, rec), PutResult::Stored)
    }
}

/// What a conditional delete does to the table: an existing record is
/// removed; deleting a missing identifier changes nothing and reports that
/// nothing was found.
pub open spec fn delete_transition(t: Map<Seq<char>, RawRecordView>, id: Seq<char>) -> (
    Map<Seq<char>, RawRecordView>,
    DeletionResult,
) {
    if t.contains_key(id) {
        (t.remove(id), DeletionResult::Deleted)
    } else {
        (t, DeletionResult::NotFound)
    }
}

/// Whether `ids` holds every identifier of `dom` exactly once.
pub open spec fn lists_exactly(ids: Seq<String>, dom: Set<Seq<char>>) -> bool {
    &&& forall|i: int| #![trigger ids[i]] 0 <= i < ids.len() ==> dom.contains(ids[i]@)
    &&& forall|k: Seq<char>|
        #[trigger] dom.contains(k) ==> exists|i: int| 0 <= i < ids.len() && ids[i]@ == k
    &&& forall|i: int, j: int|
        #![trigger ids[i], ids[j]]
        0 <= i < j < ids.len() ==> ids[i]@ != ids[j]@
}

/// A store of records keyed by string identifiers, with atomic conditional
/// writes. `table` is the current contents, `table_exists` whether the
/// backing table has been provisioned, and `reliable` whether the backend
/// can fail for reasons of its own (a remote one can; the in-memory one
/// cannot).
pub trait TableBackend: Sized {
    spec fn table_exists(&self) -> bool;

    spec fn table(&self) -> Map<Seq<char>, RawRecordView>;

    spec fn reliable(&self) -> bool;

    /// Whether the backing table has been provisioned.
    fn describe_table(&self) -> (r: Result<bool, SquirrelError>)
        ensures
            r matches Ok(b) ==> b == self.table_exists(),
            self.reliable() ==> r is Ok,
    ;

    /// Provisions the backing table; its contents are unchanged (a fresh
    /// table is empty).
    fn create_table(&mut self) -> (r: Result<(), SquirrelError>)
        ensures
            final(self).reliable() == old(self).reliable(),
            final(self).table() == old(self).table(),
            r is Ok ==> final(self).table_exists(),
            r is Err ==> final(self).table_exists() == old(self).table_exists(),
            old(self).reliable() && !old(self).table_exists() ==> r is Ok,
    ;

    /// Every identifier currently stored, each exactly once, in no
    /// particular order.
    fn scan(&self) -> (r: Result<Vec<String>, SquirrelError>)
        ensures
            r matches Ok(ids) ==> lists_exactly(ids@, self.table().dom()),
            self.reliable() && self.table_exists() ==> r is Ok,
    ;

    /// Point lookup: the record stored under `id`, if any.
    fn get_item(&self, id: &String) -> (r: Result<Option<RawRecord>, SquirrelError>)
        ensures
            r matches Ok(o) ==> match o {
                Some(rec) => self.table().contains_key(id@) && rec@ == self.table()[id@],
                None => !self.table().contains_key(id@),
            },
            self.reliable() && self.table_exists() ==> r is Ok,
    ;

    /// Conditional write: one atomic step of `put_transition`, so two racing
    /// non-overwriting puts cannot both store.
    fn put_item(&mut self, id: &String, rec: RawRecord, if_absent: bool) -> (r: Result<
        PutResult,
        SquirrelError,
    >)
        ensures
            final(self).reliable() == old(self).reliable(),
            final(self).table_exists() == old(self).table_exists(),
            r matches Ok(pr) ==> final(self).table() == put_transition(
                old(self).table(),
                id@,
                rec@,
                if_absent,
            ).0 && pr == put_transition(old(self).table(), id@, rec@, if_absent).1,
            r is Err ==> final(self).table() == old(self).table(),
            old(self).reliable() && old(self).table_exists() ==> r is Ok,
    ;

    /// Conditional delete: one atomic step of `delete_transition`.
    fn delete_item(&mut self, id: &String) -> (r: Result<DeletionResult, SquirrelError>)
        ensures
            final(self).reliable() == old(self).reliable(),
            final(self).table_exists() == old(self).table_exists(),
            r matches Ok(dr) ==> final(self).table() == delete_transition(
                old(self).table(),
                id@,
            ).0 && dr == delete_transition(old(self).table(), id@).1,
            r is Err ==> final(self).table() == old(self).table(),
            old(self).reliable() && old(self).table_exists() ==> r is Ok,
    ;
}

/// The map an association list of rows stands for; a later row with the
/// same identifier wins, and rows with distinct identifiers commute.
spec fn rows_map(rows: Seq<(String, RawRecord)>) -> Map<Seq<char>, RawRecordView>
    decreases rows.len(),
{
    if rows.len() == 0 {
        Map::empty()
    } else {
        rows_map(rows.drop_last()).insert(rows.last().0@, rows.last().1@)
    }
}

/// Whether no two rows share an identifier.
spec fn distinct_keys(rows: Seq<(String, RawRecord)>) -> bool {
    forall|i: int, j: int|
        #![trigger rows[i], rows[j]]
        0 <= i < j < rows.len() ==> rows[i].0@ != rows[j].0@
}

/// For a distinct association list, membership and lookup in `rows_map`
/// agree with the rows themselves.
proof fn lemma_rows_map_props(rows: Seq<(String, RawRecord)>)
    requires
        distinct_keys(rows),
    ensures
        forall|k: Seq<char>| #[trigger]
            rows_map(rows).contains_key(k) ==> exists|i: int|
                0 <= i < rows.len() && rows[i].0@ == k,
        forall|i: int|
            #![trigger rows[i]]
            0 <= i < rows.len() ==> rows_map(rows).contains_key(rows[i].0@) && rows_map(rows)[
                rows[i].0@
            ] == rows[i].1@,
    decreases rows.len(),
{
    if rows.len() > 0 {
        let dl = rows.drop_last();
        lemma_rows_map_props(dl);
        let m = rows_map(rows);
        let lk = rows.last().0@;
        assert forall|k: Seq<char>| #[trigger] m.contains_key(k) implies exists|i: int|
            0 <= i < rows.len() && rows[i].0@ == k by {
            if k == lk {
                assert(rows[rows.len() - 1].0@ == k);
            } else {
                assert(rows_map(dl).contains_key(k));
                let i = choose|i: int| 0 <= i < dl.len() && dl[i].0@ == k;
                assert(dl[i] == rows[i]);
                assert(rows[i].0@ == k);
            }
        }
        assert forall|i: int| 0 <= i < rows.len() implies m.contains_key(#[trigger] rows[i].0@)
            && m[rows[i].0@] == rows[i].1@ by {
            if i < rows.len() - 1 {
                assert(dl[i] == rows[i]);
                assert(rows[i].0@ != lk);
            }
        }
    }
}

/// Appending a row with a fresh identifier inserts it into the map.
proof fn lemma_rows_map_push(rows: Seq<(String, RawRecord)>, p: (String, RawRecord))
    ensures
        rows_map(rows.push(p)) == rows_map(rows).insert(p.0@, p.1@),
{
    assert(rows.push(p).drop_last() =~= rows);
    assert(rows.push(p).last() == p);
}

/// Replacing the row that holds an identifier overwrites it in the map.
proof fn lemma_rows_map_update(rows: Seq<(String, RawRecord)>, i: int, p: (String, RawRecord))
    requires
        distinct_keys(rows),
        0 <= i < rows.len(),
        p.0@ == rows[i].0@,
    ensures
        rows_map(rows.update(i, p)) == rows_map(rows).insert(p.0@, p.1@),
        distinct_keys(rows.update(i, p)),
    decreases rows.len(),
{
    let u = rows.update(i, p);
    assert forall|a: int, b: int|
        #![trigger u[a], u[b]]
        0 <= a < b < u.len() implies u[a].0@ != u[b].0@ by {
        assert(rows[a].0@ != rows[b].0@);
    }
    if i == rows.len() - 1 {
        assert(u.drop_last() =~= rows.drop_last());
        assert(u.last() == p);
        assert(rows_map(u) =~= rows_map(rows).insert(p.0@, p.1@));
    } else {
        let dl = rows.drop_last();
        assert(u.drop_last() =~= dl.update(i, p));
        assert(u.last() == rows.last());
        lemma_rows_map_update(dl, i, p);
        assert(p.0@ != rows.last().0@);
        assert(rows_map(u) =~= rows_map(rows).insert(p.0@, p.1@));
    }
}

/// Removing the row that holds an identifier removes it from the map.
proof fn lemma_rows_map_remove(rows: Seq<(String, RawRecord)>, i: int)
    requires
        distinct_keys(rows),
        0 <= i < rows.len(),
    ensures
        rows_map(rows.remove(i)) == rows_map(rows).remove(rows[i].0@),
        distinct_keys(rows.remove(i)),
    decreases rows.len(),
{
    let rm = rows.remove(i);
    assert forall|a: int, b: int|
        #![trigger rm[a], rm[b]]
        0 <= a < b < rm.len() implies rm[a].0@ != rm[b].0@ by {
        let a0: int = if a < i {
            a
        } else {
            a + 1
        };
        let b0: int = if b < i {
            b
        } else {
            b + 1
        };
        assert(rm[a] == rows[a0]);
        assert(rm[b] == rows[b0]);
        assert(rows[a0].0@ != rows[b0].0@);
    }
    let k = rows[i].0@;
    if i == rows.len() - 1 {
        let dl = rows.drop_last();
        assert(rm =~= dl);
        lemma_rows_map_props(dl);
        if rows_map(dl).contains_key(k) {
            let j = choose|j: int| 0 <= j < dl.len() && dl[j].0@ == k;
            assert(rows[j].0@ != rows[i].0@);
            assert(false);
        }
        assert(rows_map(rm) =~= rows_map(rows).remove(k));
    } else {
        let dl = rows.drop_last();
        assert(rm.drop_last() =~= dl.remove(i));
        assert(rm.last() == rows.last());
        lemma_rows_map_remove(dl, i);
        assert(k != rows.last().0@);
        assert(rows_map(rm) =~= rows_map(rows).remove(k));
    }
}

/// The verified in-memory table: an association list with distinct
/// identifiers, plus a flag for whether the table has been provisioned.
/// It never fails on its own, so every contract of `TableBackend` that is
/// conditional on reliability is owed unconditionally.
pub struct MemTableBackend {
    exists: bool,
    rows: Vec<(String, RawRecord)>,
}

impl MemTableBackend {
    #[verifier::type_invariant]
    spec fn wf(self) -> bool {
        distinct_keys(self.rows@)
    }

    /// A fresh, not-yet-provisioned, empty table.
    pub fn new() -> (r: MemTableBackend)
        ensures
            !r.table_exists(),
            r.table() == Map::<Seq<char>, RawRecordView>::empty(),
            r.reliable(),
    {
        MemTableBackend { exists: false, rows: Vec::new() }
    }

    /// The index of the row holding `id`, if any.
    fn find_row(&self, id: &String) -> (r: Option<usize>)
        ensures
            r matches Some(i) ==> i < self.rows@.len() && self.rows@[i as int].0@ == id@,
            r is None ==> forall|j: int|
                #![trigger self.rows@[j]]
                0 <= j < self.rows@.len() ==> self.rows@[j].0@ != id@,
    {
        let mut i: usize = 0;
        while i < self.rows.len()
            invariant
                i <= self.rows@.len(),
                forall|j: int|
                    #![trigger self.rows@[j]]
                    0 <= j < i ==> self.rows@[j].0@ != id@,
            decreases self.rows@.len() - i,
        {
            if self.rows[i].0 == *id {
                return Some(i);
            }
            i += 1;
        }
        None
    }
}

impl TableBackend for MemTableBackend {
    closed spec fn table_exists(&self) -> bool {
        self.exists
    }

    closed spec fn table(&self) -> Map<Seq<char>, RawRecordView> {
        rows_map(self.rows@)
    }

    closed spec fn reliable(&self) -> bool {
        true
    }

    fn describe_table(&self) -> (r: Result<bool, SquirrelError>) {
        Ok(self.exists)
    }

    fn create_table(&mut self) -> (r: Result<(), SquirrelError>) {
        proof {
            use_type_invariant(&*self);
        }
        if self.exists {
            Err(SquirrelError::new("Table already exists"))
        } else {
            self.exists = true;
            Ok(())
        }
    }

    fn scan(&self) -> (r: Result<Vec<String>, SquirrelError>) {
        proof {
            use_type_invariant(&*self);
            lemma_rows_map_props(self.rows@);
        }
        if !self.exists {
            return Err(SquirrelError::new("Table does not exist"));
        }
        let mut ids: Vec<String> = Vec::new();
        let mut i: usize = 0;
        while i < self.rows.len()
            invariant
                i <= self.rows@.len(),
                ids@.len() == i,
                forall|j: int| #![trigger ids@[j]] 0 <= j < i ==> ids@[j]@ == self.rows@[j].0@,
            decreases self.rows@.len() - i,
        {
            ids.push(self.rows[i].0.clone());
            i += 1;
        }
        proof {
            use_type_invariant(&*self);
            assert forall|k: Seq<char>| #[trigger] self.table().dom().contains(k) implies exists|
                j: int,
            | 0 <= j < ids@.len() && ids@[j]@ == k by {
                let j = choose|j: int| 0 <= j < self.rows@.len() && self.rows@[j].0@ == k;
                assert(ids@[j]@ == k);
            }
        }
        Ok(ids)
    }

    fn get_item(&self, id: &String) -> (r: Result<Option<RawRecord>, SquirrelError>) {
        proof {
            use_type_invariant(&*self);
            lemma_rows_map_props(self.rows@);
        }
        if !self.exists {
            return Err(SquirrelError::new("Table does not exist"));
        }
        match self.find_row(id) {
            Some(i) => Ok(Some(self.rows[i].1.clone())),
            None => {
                proof {
                    if self.table().contains_key(id@) {
                        let j = choose|j: int|
                            0 <= j < self.rows@.len() && self.rows@[j].0@ == id@;
                        assert(self.rows@[j].0@ == id@);
                    }
                }
                Ok(None)
            },
        }
    }

    fn put_item(&mut self, id: &String, rec: RawRecord, if_absent: bool) -> (r: Result<
        PutResult,
        SquirrelError,
    >) {
        proof {
            use_type_invariant(&*self);
            lemma_rows_map_props(self.rows@);
        }
        if !self.exists {
            return Err(SquirrelError::new("Table does not exist"));
        }
        match self.find_row(id) {
            Some(i) => {
                if if_absent {
                    Ok(PutResult::DidNotOverwrite)
                } else {
                    let mut rows: Vec<(String, RawRecord)> = Vec::new();
                    core::mem::swap(&mut rows, &mut self.rows);
                    let ghost old_rows = rows@;
                    let p = (id.clone(), rec);
                    let ghost gp = p;
                    proof {
                        lemma_rows_map_update(old_rows, i as int, gp);
                    }
                    rows.set(i, p);
                    self.rows = rows;
                    Ok(PutResult::Stored)
                }
            },
            None => {
                proof {
                    if self.table().contains_key(id@) {
                        let j = choose|j: int|
                            0 <= j < self.rows@.len() && self.rows@[j].0@ == id@;
                        assert(self.rows@[j].0@ == id@);
                    }
                }
                let mut rows: Vec<(String, RawRecord)> = Vec::new();
                core::mem::swap(&mut rows, &mut self.rows);
                let ghost old_rows = rows@;
                let p = (id.clone(), rec);
                let ghost gp = p;
                rows.push(p);
                proof {
                    lemma_rows_map_push(old_rows, gp);
                    assert forall|a: int, b: int|
                        #![trigger rows@[a], rows@[b]]
                        0 <= a < b < rows@.len() implies rows@[a].0@ != rows@[b].0@ by {
                        if b < rows@.len() - 1 {
                            assert(old_rows[a].0@ != old_rows[b].0@);
                        } else {
                            assert(old_rows[a].0@ != id@);
                        }
                    }
                }
                self.rows = rows;
                Ok(PutResult::Stored)
            },
        }
    }

    fn delete_item(&mut self, id: &String) -> (r: Result<DeletionResult, SquirrelError>) {
        proof {
            use_type_invariant(&*self);
            lemma_rows_map_props(self.rows@);
        }
        if !self.exists {
            return Err(SquirrelError::new("Table does not exist"));
        }
        match self.find_row(id) {
            Some(i) => {
                let mut rows: Vec<(String, RawRecord)> = Vec::new();
                core::mem::swap(&mut rows, &mut self.rows);
                proof {
                    lemma_rows_map_remove(rows@, i as int);
                }
                rows.remove(i);
                self.rows = rows;
                Ok(DeletionResult::Deleted)
            },
            None => {
                proof {
                    if self.table().contains_key(id@) {
                        let j = choose|j: int|
                            0 <= j < self.rows@.len() && self.rows@[j].0@ == id@;
                        assert(self.rows@[j].0@ == id@);
                    }
                }
                Ok(DeletionResult::NotFound)
            },
        }
    }
}

} // verus!
