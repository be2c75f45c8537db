//! The secret-store facade: the five public operations, composed from the
//! table operations, the key operations and the cipher, and verified for
//! every pair of backends that meets the two backend contracts.

use vstd::prelude::*;
use vstd::string::StringExecFns;

use crate::dynamo::{not_found_message, DynamoOps};
use crate::encryption::{aes_cbc_dec, aes_cbc_enc, decrypt, encrypt, pad_spec, unpad_spec};
use crate::keyservice::KeyManagementService;
use crate::kms::KmsOps;
use crate::record::{
    has_all_fields, malformed_item_message, record_spec, Item, ItemView, RawRecordView,
};
use crate::squirrel::{
    CreateOutcome, DeletionResult, PutResult, Squirrel, SquirrelError,
};
use crate::table::{delete_transition, lists_exactly, TableBackend};

verus! {

/// Whether the record stored under `id` is the canonical encoding of an
/// item that carries `v` encrypted under a data key the key service
/// issued. This is the state a successful `put` of `v` leaves behind, and
/// the state from which `get` is bound to return `v`.
pub open spec fn stores_value(
    t: Map<Seq<char>, RawRecordView>,
    issued: Map<Seq<u8>, Seq<u8>>,
    id: Seq<char>,
    v: Seq<u8>,
) -> bool {
    exists|it: ItemView|
        {
            &&& #[trigger] record_spec(it) == t[id]
            &&& t.contains_key(id)
            &&& issued.contains_key(it.encrypted_data_key)
            &&& issued[it.encrypted_data_key].len() == 32
            &&& it.iv.len() == 16
            &&& it.encrypted_data == aes_cbc_enc(
                pad_spec(v),
                issued[it.encrypted_data_key],
                it.iv,
            )
            &&& it.encrypted_data.len() == pad_spec(v).len()
        }
}

/// Extracts the stored item a `stores_value` state testifies to.
proof fn stored_item_witness(
    t: Map<Seq<char>, RawRecordView>,
    issued: Map<Seq<u8>, Seq<u8>>,
    id: Seq<char>,
    v: Seq<u8>,
) -> (it: ItemView)
    requires
        stores_value(t, issued, id, v),
    ensures
        record_spec(it) == t[id],
        t.contains_key(id),
        issued.contains_key(it.encrypted_data_key),
        issued[it.encrypted_data_key].len() == 32,
        it.iv.len() == 16,
        it.encrypted_data == aes_cbc_enc(pad_spec(v), issued[it.encrypted_data_key], it.iv),
        it.encrypted_data.len() == pad_spec(v).len(),
{
    choose|it: ItemView|
        {
            &&& #[trigger] record_spec(it) == t[id]
            &&& t.contains_key(id)
            &&& issued.contains_key(it.encrypted_data_key)
            &&& issued[it.encrypted_data_key].len() == 32
            &&& it.iv.len() == 16
            &&& it.encrypted_data == aes_cbc_enc(pad_spec(v), issued[it.encrypted_data_key], it.iv)
            &&& it.encrypted_data.len() == pad_spec(v).len()
        }
}

/// The summary `setup` reports: which of the two remote resources already
/// existed and which were created now.
pub open spec fn setup_summary_spec(table_existed: bool, key_existed: bool) -> Seq<char> {
    if table_existed && key_existed {
        "Dynamo table already existed. Customer master key already existed."@
    } else if table_existed {
        "Dynamo table already existed. Created customer master key."@
    } else if key_existed {
        "Created Dynamo table. Customer master key already existed."@
    } else {
        "Created Dynamo table. Created customer master key."@
    }
}

/// Renders the outcome of the two bootstrap steps as the summary `setup`
/// returns.
pub fn setup_summary(table: CreateOutcome, key: CreateOutcome) -> (r: String)
    ensures
        r@ == setup_summary_spec(
            table == CreateOutcome::AlreadyExisted,
            key == CreateOutcome::AlreadyExisted,
        ),
{
    match (table, key) {
        (CreateOutcome::AlreadyExisted, CreateOutcome::AlreadyExisted) => String::from_str(
            "Dynamo table already existed. Customer master key already existed.",
        ),
        (CreateOutcome::AlreadyExisted, CreateOutcome::Created) => String::from_str(
            "Dynamo table already existed. Created customer master key.",
        ),
        (CreateOutcome::Created, CreateOutcome::AlreadyExisted) => String::from_str(
            "Created Dynamo table. Customer master key already existed.",
        ),
        (CreateOutcome::Created, CreateOutcome::Created) => String::from_str(
            "Created Dynamo table. Created customer master key.",
        ),
    }
}

/// A secret store composed of table operations and key operations over a
/// chosen pair of backends.
pub struct SecretStore<T: TableBackend, K: KeyManagementService> {
    pub dynamo_ops: DynamoOps<T>,
    pub kms_ops: KmsOps<K>,
}

impl<T: TableBackend, K: KeyManagementService> SecretStore<T, K> {
    /// The current contents of the table.
    pub open spec fn table(&self) -> Map<Seq<char>, RawRecordView> {
        self.dynamo_ops.table()
    }

    /// Every wrapped data key the key service has issued.
    pub open spec fn issued(&self) -> Map<Seq<u8>, Seq<u8>> {
        self.kms_ops.issued()
    }

    /// Whether the table backend can fail for reasons of its own.
    pub open spec fn table_reliable(&self) -> bool {
        self.dynamo_ops.reliable()
    }

    /// Whether the key backend can fail for reasons of its own.
    pub open spec fn key_reliable(&self) -> bool {
        self.kms_ops.reliable()
    }

    /// Whether the table has been provisioned.
    pub open spec fn table_exists(&self) -> bool {
        self.dynamo_ops.table_exists()
    }

    /// Whether the master-key alias resolves.
    pub open spec fn key_ready(&self) -> bool {
        self.kms_ops.key_ready()
    }

    /// Whether both backends are reliable and the table is provisioned:
    /// the state in which reads are owed their answer.
    pub open spec fn serving(&self) -> bool {
        self.table_reliable() && self.key_reliable() && self.table_exists()
    }

    /// What `get` owes: from any state that stores `v` under `id`, and
    /// with the backends serving, it returns exactly `v`.
    pub open spec fn get_serves(&self, id: Seq<char>, r: Result<Vec<u8>, SquirrelError>) -> bool {
        forall|v: Seq<u8>|
            (self.serving() && #[trigger] stores_value(self.table(), self.issued(), id, v)) ==> (
            r is Ok && r->Ok_0@ == v)
    }

    /// Composes a store from its two halves.
    pub fn new(dynamo_ops: DynamoOps<T>, kms_ops: KmsOps<K>) -> (r: SecretStore<T, K>)
        ensures
            r.dynamo_ops == dynamo_ops,
            r.kms_ops == kms_ops,
    {
        SecretStore { dynamo_ops, kms_ops }
    }
}

impl<T: TableBackend, K: KeyManagementService> Squirrel for SecretStore<T, K> {
    /// Provisions the table and the master key, each idempotently; both
    /// steps run even if one already existed, and the summary names what
    /// was created and what was already present.
    fn setup(&mut self) -> (r: Result<String, SquirrelError>)
        ensures
            final(self).table_reliable() == old(self).table_reliable(),
            final(self).key_reliable() == old(self).key_reliable(),
            final(self).table() == old(self).table(),
            final(self).issued() == old(self).issued(),
            r is Ok ==> final(self).table_exists() && final(self).key_ready(),
            r matches Ok(s) ==> s@ == setup_summary_spec(
                old(self).table_exists(),
                old(self).key_ready(),
            ),
            old(self).table_reliable() && old(self).key_reliable() ==> r is Ok,
    {
        let table_outcome = match self.dynamo_ops.create_table_if_does_not_exist() {
            Ok(o) => o,
            Err(e) => {
                return Err(e);
            },
        };
        let key_outcome = match self.kms_ops.create_master_key_if_does_not_exist() {
            Ok(o) => o,
            Err(e) => {
                return Err(e);
            },
        };
        Ok(setup_summary(table_outcome, key_outcome))
    }

    /// Every identifier currently stored, each exactly once, in no
    /// particular order.
    fn list(&self) -> (r: Result<Vec<String>, SquirrelError>)
        ensures
            r matches Ok(ids) ==> lists_exactly(ids@, self.table().dom()),
            self.table_reliable() && self.table_exists() ==> r is Ok,
    {
        self.dynamo_ops.list_ids()
    }

    /// Fetches the record under `id`, unwraps its data key, and decrypts
    /// the secret: a stored value comes back exactly; a missing record is
    /// "not found"; nothing plausible is returned when a decryption step
    /// rejects its input.
    fn get(&self, id: String) -> (r: Result<Vec<u8>, SquirrelError>)
        ensures
            self.get_serves(id@, r),
            self.table_reliable() && self.table_exists() && !self.table().contains_key(id@)
                ==> (r matches Err(e) && e.message@ == not_found_message()),
            self.table_reliable() && self.table_exists() && self.table().contains_key(id@)
                && !has_all_fields(self.table()[id@]) ==> (r matches Err(e) && e.message@
                == malformed_item_message()),
            r matches Ok(w) ==> exists|it: ItemView|
                {
                    &&& #[trigger] record_spec(it) == self.table()[id@]
                    &&& self.table().contains_key(id@)
                    &&& self.issued().contains_key(it.encrypted_data_key)
                    &&& unpad_spec(
                        aes_cbc_dec(
                            it.encrypted_data,
                            self.issued()[it.encrypted_data_key],
                            it.iv,
                        ),
                    ) == Some(w@)
                },
    {
        let ghost t = self.table();
        let ghost issued = self.issued();
        let item = match self.dynamo_ops.get_item(id) {
            Ok(item) => item,
            Err(e) => {
                proof {
                    assert forall|v: Seq<u8>|
                        self.serving() && #[trigger] stores_value(t, issued, id@, v) implies false by {
                        let it = stored_item_witness(t, issued, id@, v);
                    }
                }
                return Err(e);
            },
        };
        let key = match self.kms_ops.decrypt_data_key(item.encrypted_data_key) {
            Ok(key) => key,
            Err(e) => {
                proof {
                    assert forall|v: Seq<u8>|
                        self.serving() && #[trigger] stores_value(t, issued, id@, v) implies false by {
                        let it = stored_item_witness(t, issued, id@, v);
                        assert(item@ == it);
                    }
                }
                return Err(SquirrelError { message: e.message });
            },
        };
        if key.len() != 32 || item.iv.len() != 16 {
            proof {
                assert forall|v: Seq<u8>|
                    self.serving() && #[trigger] stores_value(t, issued, id@, v) implies false by {
                    let it = stored_item_witness(t, issued, id@, v);
                    assert(item@ == it);
                }
            }
            return Err(SquirrelError::new("Failed to decrypt secret"));
        }
        match decrypt(item.encrypted_data.as_slice(), key.as_slice(), item.iv.as_slice()) {
            Ok(plaintext) => {
                proof {
                    assert forall|v: Seq<u8>|
                        self.serving() && #[trigger] stores_value(t, issued, id@, v) implies plaintext@
                        == v by {
                        let it = stored_item_witness(t, issued, id@, v);
                        assert(item@ == it);
                    }
                }
                Ok(plaintext)
            },
            Err(_) => {
                proof {
                    assert forall|v: Seq<u8>|
                        self.serving() && #[trigger] stores_value(t, issued, id@, v) implies false by {
                        let it = stored_item_witness(t, issued, id@, v);
                        assert(item@ == it);
                    }
                }
                Err(SquirrelError::new("Failed to decrypt secret"))
            },
        }
    }

    /// Encrypts `value` under a fresh data key and IV and writes the new
    /// record under `id` as one atomic conditional write: with
    /// `overwrite` unset an existing record is left untouched, as a normal
    /// outcome.
    fn put(&mut self, id: String, value: Vec<u8>, overwrite: bool) -> (r: Result<
        PutResult,
        SquirrelError,
    >)
        ensures
            final(self).table_reliable() == old(self).table_reliable(),
            final(self).key_reliable() == old(self).key_reliable(),
            final(self).table_exists() == old(self).table_exists(),
            final(self).key_ready() == old(self).key_ready(),
            old(self).issued().submap_of(final(self).issued()),
            r matches Ok(pr) ==> match pr {
                PutResult::Stored => {
                    &&& stores_value(final(self).table(), final(self).issued(), id@, value@)
                    &&& final(self).table() == old(self).table().insert(
                        id@,
                        final(self).table()[id@],
                    )
                    &&& !overwrite ==> !old(self).table().contains_key(id@)
                },
                PutResult::DidNotOverwrite => {
                    &&& !overwrite
                    &&& old(self).table().contains_key(id@)
                    &&& final(self).table() == old(self).table()
                },
            },
            r is Err ==> final(self).table() == old(self).table(),
            old(self).serving() && old(self).key_ready() ==> r is Ok,
    {
        let iv = match self.kms_ops.generate_iv() {
            Ok(iv) => iv,
            Err(e) => {
                return Err(e);
            },
        };
        let data_key = match self.kms_ops.generate_data_key() {
            Ok(dk) => dk,
            Err(e) => {
                return Err(e);
            },
        };
        let ciphertext = encrypt(value.as_slice(), data_key.plaintext.as_slice(), iv.as_slice());
        let item = Item {
            encrypted_data_key: data_key.encrypted,
            encrypted_data: ciphertext,
            iv,
        };
        let ghost git = item@;
        let result = self.dynamo_ops.put_item(id, item, overwrite);
        proof {
            if result matches Ok(PutResult::Stored) {
                assert(record_spec(git) == final(self).table()[id@]);
                assert(stores_value(final(self).table(), final(self).issued(), id@, value@));
                assert(final(self).table() =~= old(self).table().insert(
                    id@,
                    final(self).table()[id@],
                ));
            }
        }
        result
    }

    /// Deletes the record under `id` as one atomic conditional delete:
    /// deleting a missing identifier reports "not found" as a normal
    /// outcome.
    fn delete(&mut self, id: String) -> (r: Result<DeletionResult, SquirrelError>)
        ensures
            final(self).table_reliable() == old(self).table_reliable(),
            final(self).key_reliable() == old(self).key_reliable(),
            final(self).table_exists() == old(self).table_exists(),
            final(self).key_ready() == old(self).key_ready(),
            final(self).issued() == old(self).issued(),
            r matches Ok(dr) ==> final(self).table() == delete_transition(
                old(self).table(),
                id@,
            ).0 && dr == delete_transition(old(self).table(), id@).1,
            r is Err ==> final(self).table() == old(self).table(),
            old(self).table_reliable() && old(self).table_exists() ==> r is Ok,
    {
        self.dynamo_ops.delete_item(id)
    }
}

} // verus!
