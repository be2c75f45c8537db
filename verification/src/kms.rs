//! Key operations: master-key lifecycle and per-secret data keys, bound to
//! one master-key alias, stated over the key-service model and verified
//! once for every backend.

use vstd::prelude::*;
use vstd::string::StringExecFns;

use crate::keyservice::KeyManagementService;
use crate::squirrel::{CreateOutcome, SquirrelError};

verus! {

/// The key identifier under which an alias is addressed.
pub open spec fn alias_key_id(alias: Seq<char>) -> Seq<char> {
    "alias/"@ + alias
}

/// A per-secret data key: the plaintext form, used for one encryption or
/// decryption and then dropped, and the wrapped form, which is all that is
/// ever persisted.
#[derive(Debug)]
pub struct DataKey {
    pub encrypted: Vec<u8>,
    pub plaintext: Vec<u8>,
}

/// Key operations bound to one master-key alias, over any backend that
/// meets `KeyManagementService`'s contracts.
pub struct KmsOps<K: KeyManagementService> {
    pub key_id: String,
    pub backend: K,
}

impl<K: KeyManagementService> KmsOps<K> {
    /// The identifiers the key service resolves.
    pub open spec fn keys(&self) -> Set<Seq<char>> {
        self.backend.keys()
    }

    /// Every wrapped data key the service has issued, with the plaintext
    /// key inside it.
    pub open spec fn issued(&self) -> Map<Seq<u8>, Seq<u8>> {
        self.backend.issued()
    }

    /// Whether the backend can fail for reasons of its own.
    pub open spec fn reliable(&self) -> bool {
        self.backend.reliable()
    }

    /// Whether the bound alias resolves to a master key.
    pub open spec fn key_ready(&self) -> bool {
        self.backend.keys().contains(self.key_id@)
    }

    /// Binds the operations to a master-key alias and a backend.
    pub fn new(key_alias: String, backend: K) -> (r: KmsOps<K>)
        ensures
            r.key_id@ == alias_key_id(key_alias@),
            r.backend == backend,
    {
        let key_id = String::from_str("alias/").concat(key_alias.as_str());
        KmsOps { key_id, backend }
    }

    /// Whether the bound alias resolves to live key metadata.
    pub fn does_master_key_exist(&self) -> (r: Result<bool, SquirrelError>)
        ensures
            r matches Ok(b) ==> b == self.key_ready(),
            self.reliable() ==> r is Ok,
    {
        self.backend.describe_key(&self.key_id)
    }

    /// Creates a new master key and binds the alias to it.
    pub fn create_master_key(&mut self) -> (r: Result<(), SquirrelError>)
        ensures
            final(self).reliable() == old(self).reliable(),
            final(self).issued() == old(self).issued(),
            final(self).key_id == old(self).key_id,
            r is Ok ==> final(self).key_ready(),
            old(self).reliable() ==> r is Ok,
    {
        let description: String = String::from_str(
            "Master key for encryption of secrets by squirrel",
        );
        let key_id = match self.backend.create_key(&description) {
            Ok(kid) => kid,
            Err(e) => {
                return Err(e);
            },
        };
        self.backend.create_alias(&self.key_id, &key_id)
    }

    /// Idempotent bootstrap: creates the master key and alias unless the
    /// alias already resolves, and reports which of the two happened.
    pub fn create_master_key_if_does_not_exist(&mut self) -> (r: Result<
        CreateOutcome,
        SquirrelError,
    >)
        ensures
            final(self).reliable() == old(self).reliable(),
            final(self).issued() == old(self).issued(),
            final(self).key_id == old(self).key_id,
            r matches Ok(o) ==> final(self).key_ready() && (o == CreateOutcome::AlreadyExisted
                <==> old(self).key_ready()),
            old(self).reliable() ==> r is Ok,
    {
        match self.does_master_key_exist() {
            Ok(true) => Ok(CreateOutcome::AlreadyExisted),
            Ok(false) => match self.create_master_key() {
                Ok(()) => Ok(CreateOutcome::Created),
                Err(e) => Err(e),
            },
            Err(e) => Err(e),
        }
    }

    /// Fetches a fresh 16-byte IV from the service's CSPRNG; nothing is
    /// promised of its value.
    pub fn generate_iv(&self) -> (r: Result<Vec<u8>, SquirrelError>)
        ensures
            r matches Ok(iv) ==> iv@.len() == 16,
            self.reliable() ==> r is Ok,
    {
        self.backend.generate_random(16)
    }

    /// Issues a fresh 256-bit data key under the bound master key: the
    /// plaintext form together with its wrapped form, which the service
    /// remembers and which repeats no earlier wrapped form.
    pub fn generate_data_key(&mut self) -> (r: Result<DataKey, SquirrelError>)
        ensures
            final(self).reliable() == old(self).reliable(),
            final(self).keys() == old(self).keys(),
            final(self).key_id == old(self).key_id,
            r matches Ok(dk) ==> !old(self).issued().contains_key(dk.encrypted@)
                && dk.plaintext@.len() == 32 && final(self).issued() == old(
                self,
            ).issued().insert(dk.encrypted@, dk.plaintext@),
            r is Err ==> final(self).issued() == old(self).issued(),
            old(self).reliable() && old(self).key_ready() ==> r is Ok,
    {
        match self.backend.generate_data_key(&self.key_id, 32) {
            Ok((encrypted, plaintext)) => Ok(DataKey { encrypted, plaintext }),
            Err(e) => Err(e),
        }
    }

    /// Unwraps a wrapped data key: succeeds only on a blob the service
    /// issued, and then returns exactly the plaintext issued with it.
    pub fn decrypt_data_key(&self, encrypted_key: Vec<u8>) -> (r: Result<Vec<u8>, SquirrelError>)
        ensures
            r matches Ok(pt) ==> self.issued().contains_key(encrypted_key@) && pt@
                == self.issued()[encrypted_key@],
            self.reliable() && self.issued().contains_key(encrypted_key@) ==> r is Ok,
    {
        self.backend.decrypt(&encrypted_key)
    }
}

} // verus!
