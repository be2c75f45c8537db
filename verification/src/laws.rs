//! The laws of the storage semantics, each proved once over the models
//! that the operations' own contracts speak of.

use vstd::prelude::*;

use crate::encryption::lemma_pad_unpad;
use crate::keyservice::KeyManagementService;
use crate::record::RawRecordView;
use crate::squirrel::{DeletionResult, PutResult, SquirrelError};
use crate::store::{setup_summary_spec, stores_value, SecretStore};
use crate::table::{delete_transition, put_transition, TableBackend};

verus! {

/// Round trip: a successful `put` of `v` under `id` leaves the store in a
/// state that stores `v` there (its `put` contract), and from any such
/// state `get`'s contract forces it to return exactly `v` — for every byte
/// string `v`, the empty one and multi-block ones included.
pub proof fn lemma_put_get_round_trip<T: TableBackend, K: KeyManagementService>(
    s: SecretStore<T, K>,
    id: Seq<char>,
    v: Seq<u8>,
    r: Result<Vec<u8>, SquirrelError>,
)
    requires
        s.serving(),
        stores_value(s.table(), s.issued(), id, v),
        s.get_serves(id, r),
    ensures
        r is Ok,
        r->Ok_0@ == v,
{
    lemma_pad_unpad(v);
}

/// Non-overwrite guard: once a conditional put has stored `r1` under a
/// fresh `id`, a second conditional put of `r2` does not overwrite — the
/// table keeps `r1` and the second caller learns it did not overwrite.
pub proof fn lemma_non_overwrite_guard(
    t: Map<Seq<char>, RawRecordView>,
    id: Seq<char>,
    r1: RawRecordView,
    r2: RawRecordView,
)
    requires
        !t.contains_key(id),
    ensures
        put_transition(t, id, r1, true).1 == PutResult::Stored,
        put_transition(put_transition(t, id, r1, true).0, id, r2, true).1
            == PutResult::DidNotOverwrite,
        put_transition(put_transition(t, id, r1, true).0, id, r2, true).0 == put_transition(
            t,
            id,
            r1,
            true,
        ).0,
        put_transition(t, id, r1, true).0[id] == r1,
{
}

/// Overwrite: an unconditional put always stores, and a second
/// unconditional put of `r2` replaces `r1` — the table then holds `r2`.
pub proof fn lemma_overwrite(
    t: Map<Seq<char>, RawRecordView>,
    id: Seq<char>,
    r1: RawRecordView,
    r2: RawRecordView,
)
    ensures
        put_transition(t, id, r1, false).1 == PutResult::Stored,
        put_transition(put_transition(t, id, r1, false).0, id, r2, false).1 == PutResult::Stored,
        put_transition(put_transition(t, id, r1, false).0, id, r2, false).0 == t.insert(id, r2),
        put_transition(put_transition(t, id, r1, false).0, id, r2, false).0[id] == r2,
{
    assert(t.insert(id, r1).insert(id, r2) =~= t.insert(id, r2));
}

/// Delete semantics: deleting an existing `id` removes it and reports
/// `Deleted`; afterwards the identifier is gone, and deleting it again
/// reports `NotFound` without changing anything.
pub proof fn lemma_delete_semantics(
    t: Map<Seq<char>, RawRecordView>,
    id: Seq<char>,
    rec: RawRecordView,
)
    ensures
        delete_transition(t.insert(id, rec), id).1 == DeletionResult::Deleted,
        !delete_transition(t.insert(id, rec), id).0.contains_key(id),
        delete_transition(delete_transition(t.insert(id, rec), id).0, id).1
            == DeletionResult::NotFound,
        delete_transition(delete_transition(t.insert(id, rec), id).0, id).0 == delete_transition(
            t.insert(id, rec),
            id,
        ).0,
{
}

/// List completeness, one put at a time: a put that stores extends the set
/// of identifiers by exactly the one written, and every `list`/`scan`
/// reports exactly that set.
pub proof fn lemma_put_extends_dom(
    t: Map<Seq<char>, RawRecordView>,
    id: Seq<char>,
    rec: RawRecordView,
    if_absent: bool,
)
    ensures
        put_transition(t, id, rec, if_absent).1 == PutResult::Stored ==> put_transition(
            t,
            id,
            rec,
            if_absent,
        ).0.dom() == t.dom().insert(id),
        put_transition(t, id, rec, if_absent).1 == PutResult::DidNotOverwrite ==> put_transition(
            t,
            id,
            rec,
            if_absent,
        ).0.dom() == t.dom(),
{
    if put_transition(t, id, rec, if_absent).1 == PutResult::Stored {
        assert(t.insert(id, rec).dom() =~= t.dom().insert(id));
    }
}

/// List completeness for the scenario of three fresh identifiers: after
/// storing under `a`, `b` and `c` in an empty table, the set of stored
/// identifiers is exactly `{a, b, c}`.
pub proof fn lemma_list_three(
    a: Seq<char>,
    b: Seq<char>,
    c: Seq<char>,
    ra: RawRecordView,
    rb: RawRecordView,
    rc: RawRecordView,
)
    ensures
        Map::<Seq<char>, RawRecordView>::empty().insert(a, ra).insert(b, rb).insert(
            c,
            rc,
        ).dom() == Set::<Seq<char>>::empty().insert(a).insert(b).insert(c),
{
    assert(Map::<Seq<char>, RawRecordView>::empty().insert(a, ra).insert(b, rb).insert(
        c,
        rc,
    ).dom() =~= Set::<Seq<char>>::empty().insert(a).insert(b).insert(c));
}

/// Bootstrap idempotence: a successful `setup` leaves both remote
/// resources in place, so a second `setup` from that state reports that
/// both already existed.
pub proof fn lemma_setup_idempotent<T: TableBackend, K: KeyManagementService>(
    s: SecretStore<T, K>,
    r: Result<String, SquirrelError>,
)
    requires
        s.table_exists(),
        s.key_ready(),
        r matches Ok(m) ==> m@ == setup_summary_spec(s.table_exists(), s.key_ready()),
    ensures
        r matches Ok(m) ==> m@ == "Dynamo table already existed. Customer master key already existed."@,
{
}

} // verus!
