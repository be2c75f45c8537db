//! Table operations: the record codec and the conditional CRUD semantics,
//! stated over the table model and verified once for every backend.

use vstd::prelude::*;

use crate::record::{
    attribute_map_to_item, has_all_fields, item_to_attribute_map, malformed_item_message,
    record_spec, Item, ItemView,
};
use crate::squirrel::{CreateOutcome, DeletionResult, PutResult, SquirrelError};
use crate::table::{delete_transition, lists_exactly, put_transition, TableBackend};

verus! {

/// The error reported when a point lookup finds no record.
pub open spec fn not_found_message() -> Seq<char> {
    "No secret found with that ID."@
}

/// Table operations bound to one table, over any backend that meets
/// `TableBackend`'s contracts.
pub struct DynamoOps<B: TableBackend> {
    pub table_name: String,
    pub backend: B,
}

impl<B: TableBackend> DynamoOps<B> {
    /// The current contents of the table, as a map from identifiers to
    /// stored records.
    pub open spec fn table(&self) -> Map<Seq<char>, crate::record::RawRecordView> {
        self.backend.table()
    }

    /// Whether the backing table has been provisioned.
    pub open spec fn table_exists(&self) -> bool {
        self.backend.table_exists()
    }

    /// Whether the backend can fail for reasons of its own.
    pub open spec fn reliable(&self) -> bool {
        self.backend.reliable()
    }

    /// Binds the operations to a table name and a backend.
    pub fn new(table_name: String, backend: B) -> (r: DynamoOps<B>)
        ensures
            r.table_name == table_name,
            r.backend == backend,
    {
        DynamoOps { table_name, backend }
    }

    /// Every identifier currently stored, each exactly once, in no
    /// particular order.
    pub fn list_ids(&self) -> (r: Result<Vec<String>, SquirrelError>)
        ensures
            r matches Ok(ids) ==> lists_exactly(ids@, self.table().dom()),
            self.reliable() && self.table_exists() ==> r is Ok,
    {
        self.backend.scan()
    }

    /// Fetches and decodes the record stored under `id`. A missing record
    /// is "not found"; a record missing a mandatory attribute is a
    /// distinct data-integrity error; the canonical encoding of an item
    /// decodes to exactly that item.
    pub fn get_item(&self, id: String) -> (r: Result<Item, SquirrelError>)
        ensures
            r matches Ok(it) ==> self.table().contains_key(id@) && self.table()[id@]
                == record_spec(it@),
            self.reliable() && self.table_exists() && !self.table().contains_key(id@) ==> (
            r matches Err(e) && e.message@ == not_found_message()),
            self.reliable() && self.table_exists() && self.table().contains_key(id@)
                && !has_all_fields(self.table()[id@]) ==> (r matches Err(e) && e.message@
                == malformed_item_message()),
            forall|it: ItemView|
                (self.reliable() && self.table_exists() && self.table().contains_key(id@)
                    && self.table()[id@] == record_spec(it)) ==> (r matches Ok(x) && x@ == it),
    {
        match self.backend.get_item(&id) {
            Ok(Some(rec)) => attribute_map_to_item(&rec),
            Ok(None) => Err(SquirrelError::new("No secret found with that ID.")),
            Err(e) => Err(e),
        }
    }

    /// Encodes `item` and writes it under `id` as one atomic conditional
    /// write: with `overwrite` unset, an existing record is left untouched
    /// and the caller learns it did not overwrite.
    pub fn put_item(&mut self, id: String, item: Item, overwrite: bool) -> (r: Result<
        PutResult,
        SquirrelError,
    >)
        ensures
            final(self).reliable() == old(self).reliable(),
            final(self).table_exists() == old(self).table_exists(),
            final(self).table_name == old(self).table_name,
            r matches Ok(pr) ==> final(self).table() == put_transition(
                old(self).table(),
                id@,
                record_spec(item@),
                !overwrite,
            ).0 && pr == put_transition(old(self).table(), id@, record_spec(item@), !overwrite).1,
            r is Err ==> final(self).table() == old(self).table(),
            old(self).reliable() && old(self).table_exists() ==> r is Ok,
    {
        let rec = item_to_attribute_map(&item);
        self.backend.put_item(&id, rec, !overwrite)
    }

    /// Deletes the record under `id` as one atomic conditional delete:
    /// deleting a missing identifier reports "not found" and changes
    /// nothing.
    pub fn delete_item(&mut self, id: String) -> (r: Result<DeletionResult, SquirrelError>)
        ensures
            final(self).reliable() == old(self).reliable(),
            final(self).table_exists() == old(self).table_exists(),
            final(self).table_name == old(self).table_name,
            r matches Ok(dr) ==> final(self).table() == delete_transition(
                old(self).table(),
                id@,
            ).0 && dr == delete_transition(old(self).table(), id@).1,
            r is Err ==> final(self).table() == old(self).table(),
            old(self).reliable() && old(self).table_exists() ==> r is Ok,
    {
        self.backend.delete_item(&id)
    }

    /// Idempotent bootstrap: provisions the table unless it is already
    /// there, and reports which of the two happened.
    pub fn create_table_if_does_not_exist(&mut self) -> (r: Result<CreateOutcome, SquirrelError>)
        ensures
            final(self).reliable() == old(self).reliable(),
            final(self).table() == old(self).table(),
            final(self).table_name == old(self).table_name,
            r matches Ok(o) ==> final(self).table_exists() && (o == CreateOutcome::AlreadyExisted
                <==> old(self).table_exists()),
            r is Err ==> final(self).table_exists() == old(self).table_exists(),
            old(self).reliable() ==> r is Ok,
    {
        match self.does_table_exist() {
            Ok(true) => Ok(CreateOutcome::AlreadyExisted),
            Ok(false) => match self.create_table() {
                Ok(()) => Ok(CreateOutcome::Created),
                Err(e) => Err(e),
            },
            Err(e) => Err(e),
        }
    }

    /// Whether the backing table has been provisioned.
    fn does_table_exist(&self) -> (r: Result<bool, SquirrelError>)
        ensures
            r matches Ok(b) ==> b == self.table_exists(),
            self.reliable() ==> r is Ok,
    {
        self.backend.describe_table()
    }

    /// Provisions the backing table.
    fn create_table(&mut self) -> (r: Result<(), SquirrelError>)
        ensures
            final(self).reliable() == old(self).reliable(),
            final(self).table() == old(self).table(),
            final(self).table_name == old(self).table_name,
            r is Ok ==> final(self).table_exists(),
            r is Err ==> final(self).table_exists() == old(self).table_exists(),
            old(self).reliable() && !old(self).table_exists() ==> r is Ok,
    {
        self.backend.create_table()
    }
}

} // verus!
