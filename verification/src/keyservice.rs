//! The key-management backend: master-key lifecycle, data-key issuing and
//! unwrapping.
//!
//! `KeyManagementService` states, over the set of resolvable key
//! identifiers and the map of issued (wrapped key, plaintext key) pairs,
//! what each operation does — in particular that unwrapping only ever
//! returns the plaintext that was issued together with the wrapped blob,
//! so a tampered blob can never unwrap to a plausible-looking key.
//! `MemKeyService` is the verified in-memory implementation; a remote
//! implementation lives outside the verified library.

use vstd::prelude::*;

use crate::squirrel::SquirrelError;

verus! {

/// A key-management service. `keys` is the set of identifiers (ids and
/// aliases) it resolves, `issued` maps every wrapped data key it has handed
/// out to the plaintext key inside it, and `reliable` is whether it can
/// fail for reasons of its own.
pub trait KeyManagementService: Sized {
    spec fn keys(&self) -> Set<Seq<char>>;

    spec fn issued(&self) -> Map<Seq<u8>, Seq<u8>>;

    spec fn reliable(&self) -> bool;

    /// Whether `key_id` resolves to live key metadata.
    fn describe_key(&self, key_id: &String) -> (r: Result<bool, SquirrelError>)
        ensures
            r matches Ok(b) ==> b == self.keys().contains(key_id@),
            self.reliable() ==> r is Ok,
    ;

    /// Creates a new master key and returns its identifier.
    fn create_key(&mut self, description: &String) -> (r: Result<String, SquirrelError>)
        ensures
            final(self).reliable() == old(self).reliable(),
            final(self).issued() == old(self).issued(),
            r matches Ok(kid) ==> final(self).keys() == old(self).keys().insert(kid@),
            r is Err ==> final(self).keys() == old(self).keys(),
            old(self).reliable() ==> r is Ok,
    ;

    /// Binds an alias to an existing key.
    fn create_alias(&mut self, alias_id: &String, target_key_id: &String) -> (r: Result<
        (),
        SquirrelError,
    >)
        ensures
            final(self).reliable() == old(self).reliable(),
            final(self).issued() == old(self).issued(),
            r is Ok ==> final(self).keys() == old(self).keys().insert(alias_id@),
            r is Err ==> final(self).keys() == old(self).keys(),
            old(self).reliable() && old(self).keys().contains(target_key_id@) ==> r is Ok,
    ;

    /// Fetches cryptographically secure random bytes; nothing is promised
    /// of their values.
    fn generate_random(&self, number_of_bytes: usize) -> (r: Result<Vec<u8>, SquirrelError>)
        ensures
            r matches Ok(v) ==> v@.len() == number_of_bytes,
            self.reliable() ==> r is Ok,
    ;

    /// Issues a fresh data key under `key_id`: a plaintext key of the asked
    /// length together with its wrapped form, which the service remembers
    /// and which repeats no earlier wrapped form.
    fn generate_data_key(&mut self, key_id: &String, number_of_bytes: usize) -> (r: Result<
        (Vec<u8>, Vec<u8>),
        SquirrelError,
    >)
        ensures
            final(self).reliable() == old(self).reliable(),
            final(self).keys() == old(self).keys(),
            r matches Ok(ck) ==> !old(self).issued().contains_key(ck.0@) && ck.1@.len()
                == number_of_bytes && final(self).issued() == old(self).issued().insert(
                ck.0@,
                ck.1@,
            ),
            r is Err ==> final(self).issued() == old(self).issued(),
            old(self).reliable() && old(self).keys().contains(key_id@) ==> r is Ok,
    ;

    /// Unwraps a wrapped data key: succeeds only on a blob this service
    /// issued, and then returns exactly the plaintext issued with it.
    fn decrypt(&self, ciphertext: &Vec<u8>) -> (r: Result<Vec<u8>, SquirrelError>)
        ensures
            r matches Ok(pt) ==> self.issued().contains_key(ciphertext@) && pt@
                == self.issued()[ciphertext@],
            self.reliable() && self.issued().contains_key(ciphertext@) ==> r is Ok,
    ;
}

/// Relies on rand's thread-local CSPRNG: a buffer of the asked length
/// filled with random bytes; nothing is promised of their values.
#[verifier::external_body]
fn random_bytes(number_of_bytes: usize) -> (r: Vec<u8>)
    ensures
        r@.len() == number_of_bytes,
{
    let mut out = vec![0u8; number_of_bytes];
    rand::Rng::fill_bytes(&mut rand::rng(), &mut out);
    out
}

/// The little-endian bytes of a 64-bit counter: the wrapped-key blobs the
/// in-memory service issues.
spec fn u64_bytes_spec(x: u64) -> Seq<u8> {
    seq![
        (x & 0xff) as u8,
        ((x >> 8) & 0xff) as u8,
        ((x >> 16) & 0xff) as u8,
        ((x >> 24) & 0xff) as u8,
        ((x >> 32) & 0xff) as u8,
        ((x >> 40) & 0xff) as u8,
        ((x >> 48) & 0xff) as u8,
        ((x >> 56) & 0xff) as u8,
    ]
}

proof fn lemma_u64_bytes_injective(a: u64, b: u64)
    requires
        u64_bytes_spec(a) == u64_bytes_spec(b),
    ensures
        a == b,
{
    assert(u64_bytes_spec(a)[0] == u64_bytes_spec(b)[0]);
    assert(u64_bytes_spec(a)[1] == u64_bytes_spec(b)[1]);
    assert(u64_bytes_spec(a)[2] == u64_bytes_spec(b)[2]);
    assert(u64_bytes_spec(a)[3] == u64_bytes_spec(b)[3]);
    assert(u64_bytes_spec(a)[4] == u64_bytes_spec(b)[4]);
    assert(u64_bytes_spec(a)[5] == u64_bytes_spec(b)[5]);
    assert(u64_bytes_spec(a)[6] == u64_bytes_spec(b)[6]);
    assert(u64_bytes_spec(a)[7] == u64_bytes_spec(b)[7]);
    assert((a & 0xff) as u8 == (b & 0xff) as u8 && ((a >> 8) & 0xff) as u8 == ((b >> 8)
        & 0xff) as u8 && ((a >> 16) & 0xff) as u8 == ((b >> 16) & 0xff) as u8 && ((a >> 24)
        & 0xff) as u8 == ((b >> 24) & 0xff) as u8 && ((a >> 32) & 0xff) as u8 == ((b >> 32)
        & 0xff) as u8 && ((a >> 40) & 0xff) as u8 == ((b >> 40) & 0xff) as u8 && ((a >> 48)
        & 0xff) as u8 == ((b >> 48) & 0xff) as u8 && ((a >> 56) & 0xff) as u8 == ((b >> 56)
        & 0xff) as u8 ==> a == b) by (bit_vector);
}

fn u64_to_bytes(x: u64) -> (r: Vec<u8>)
    ensures
        r@ == u64_bytes_spec(x),
{
    let mut out: Vec<u8> = Vec::new();
    out.push((x & 0xff) as u8);
    out.push(((x >> 8) & 0xff) as u8);
    out.push(((x >> 16) & 0xff) as u8);
    out.push(((x >> 24) & 0xff) as u8);
    out.push(((x >> 32) & 0xff) as u8);
    out.push(((x >> 40) & 0xff) as u8);
    out.push(((x >> 48) & 0xff) as u8);
    out.push(((x >> 56) & 0xff) as u8);
    assert(out@ =~= u64_bytes_spec(x));
    out
}

/// The map an association list of issued keys stands for.
spec fn issued_map(s: Seq<(Vec<u8>, Vec<u8>)>) -> Map<Seq<u8>, Seq<u8>>
    decreases s.len(),
{
    if s.len() == 0 {
        Map::empty()
    } else {
        issued_map(s.drop_last()).insert(s.last().0@, s.last().1@)
    }
}

/// Whether no two issued entries share a wrapped blob.
spec fn distinct_blobs(s: Seq<(Vec<u8>, Vec<u8>)>) -> bool {
    forall|i: int, j: int| #![trigger s[i], s[j]] 0 <= i < j < s.len() ==> s[i].0@ != s[j].0@
}

/// For distinct blobs, membership and lookup in `issued_map` agree with the
/// entries themselves.
proof fn lemma_issued_map_props(s: Seq<(Vec<u8>, Vec<u8>)>)
    requires
        distinct_blobs(s),
    ensures
        forall|k: Seq<u8>| #[trigger]
            issued_map(s).contains_key(k) ==> exists|i: int| 0 <= i < s.len() && s[i].0@ == k,
        forall|i: int|
            #![trigger s[i]]
            0 <= i < s.len() ==> issued_map(s).contains_key(s[i].0@) && issued_map(s)[s[i].0@]
                == s[i].1@,
    decreases s.len(),
{
    if s.len() > 0 {
        let dl = s.drop_last();
        lemma_issued_map_props(dl);
        let m = issued_map(s);
        let lk = s.last().0@;
        assert forall|k: Seq<u8>| #[trigger] m.contains_key(k) implies exists|i: int|
            0 <= i < s.len() && s[i].0@ == k by {
            if k == lk {
                assert(s[s.len() - 1].0@ == k);
            } else {
                assert(issued_map(dl).contains_key(k));
                let i = choose|i: int| 0 <= i < dl.len() && dl[i].0@ == k;
                assert(dl[i] == s[i]);
                assert(s[i].0@ == k);
            }
        }
        assert forall|i: int| 0 <= i < s.len() implies m.contains_key(#[trigger] s[i].0@)
            && m[s[i].0@] == s[i].1@ by {
            if i < s.len() - 1 {
                assert(dl[i] == s[i]);
                assert(s[i].0@ != lk);
            }
        }
    }
}

proof fn lemma_issued_map_push(s: Seq<(Vec<u8>, Vec<u8>)>, p: (Vec<u8>, Vec<u8>))
    ensures
        issued_map(s.push(p)) == issued_map(s).insert(p.0@, p.1@),
{
    assert(s.push(p).drop_last() =~= s);
    assert(s.push(p).last() == p);
}

/// The set of identifiers an identifier list resolves.
spec fn keys_of(ids: Seq<String>) -> Set<Seq<char>> {
    Set::new(|k: Seq<char>| exists|i: int| 0 <= i < ids.len() && ids[i]@ == k)
}

proof fn lemma_keys_of_push(ids: Seq<String>, s: String)
    ensures
        keys_of(ids.push(s)) == keys_of(ids).insert(s@),
{
    assert forall|k: Seq<char>| #[trigger] keys_of(ids.push(s)).contains(k) implies keys_of(
        ids,
    ).insert(s@).contains(k) by {
        let i = choose|i: int| 0 <= i < ids.push(s).len() && ids.push(s)[i]@ == k;
        if i < ids.len() {
            assert(ids[i]@ == k);
        } else {
            assert(k == s@);
        }
    }
    assert forall|k: Seq<char>| #[trigger] keys_of(ids).insert(s@).contains(k) implies keys_of(
        ids.push(s),
    ).contains(k) by {
        if k == s@ {
            assert(ids.push(s)[ids.len() as int]@ == k);
        } else {
            let i = choose|i: int| 0 <= i < ids.len() && ids[i]@ == k;
            assert(ids.push(s)[i]@ == k);
        }
    }
    assert(keys_of(ids.push(s)) =~= keys_of(ids).insert(s@));
}

/// Compares two byte buffers.
fn bytes_eq(a: &Vec<u8>, b: &Vec<u8>) -> (r: bool)
    ensures
        r == (a@ == b@),
{
    if a.len() != b.len() {
        assert(a@ != b@);
        return false;
    }
    let mut i: usize = 0;
    while i < a.len()
        invariant
            i <= a@.len(),
            a@.len() == b@.len(),
            forall|j: int| 0 <= j < i ==> a@[j] == b@[j],
        decreases a@.len() - i,
    {
        if a[i] != b[i] {
            return false;
        }
        i += 1;
    }
    assert(a@ =~= b@);
    true
}

/// The verified in-memory key service: resolvable identifiers as a list,
/// issued keys as an association list whose wrapped blobs are the
/// little-endian bytes of the entry's position, so no blob ever repeats.
/// It never fails on its own, so every contract of `KeyManagementService`
/// that is conditional on reliability is owed unconditionally.
pub struct MemKeyService {
    key_ids: Vec<String>,
    issued_keys: Vec<(Vec<u8>, Vec<u8>)>,
}

impl MemKeyService {
    #[verifier::type_invariant]
    spec fn wf(self) -> bool {
        forall|i: int|
            #![trigger self.issued_keys@[i]]
            0 <= i < self.issued_keys@.len() ==> self.issued_keys@[i].0@ == u64_bytes_spec(
                i as u64,
            )
    }

    proof fn lemma_distinct(self)
        requires
            self.wf(),
        ensures
            distinct_blobs(self.issued_keys@),
    {
        assert(self.issued_keys.len() == self.issued_keys@.len());
        assert forall|i: int, j: int|
            #![trigger self.issued_keys@[i], self.issued_keys@[j]]
            0 <= i < j < self.issued_keys@.len() implies self.issued_keys@[i].0@
            != self.issued_keys@[j].0@ by {
            if self.issued_keys@[i].0@ == self.issued_keys@[j].0@ {
                assert(0 <= i <= u64::MAX && 0 <= j <= u64::MAX);
                lemma_u64_bytes_injective(i as u64, j as u64);
            }
        }
    }

    /// A fresh key service resolving no identifiers and holding no issued
    /// keys.
    pub fn new() -> (r: MemKeyService)
        ensures
            r.keys() == Set::<Seq<char>>::empty(),
            r.issued() == Map::<Seq<u8>, Seq<u8>>::empty(),
            r.reliable(),
    {
        let r = MemKeyService { key_ids: Vec::new(), issued_keys: Vec::new() };
        proof {
            assert(r.keys() =~= Set::<Seq<char>>::empty());
        }
        r
    }

    /// The index of the identifier `key_id`, if this service resolves it.
    fn find_key(&self, key_id: &String) -> (r: Option<usize>)
        ensures
            r matches Some(i) ==> i < self.key_ids@.len() && self.key_ids@[i as int]@ == key_id@,
            r is None ==> forall|j: int|
                #![trigger self.key_ids@[j]]
                0 <= j < self.key_ids@.len() ==> self.key_ids@[j]@ != key_id@,
    {
        let mut i: usize = 0;
        while i < self.key_ids.len()
            invariant
                i <= self.key_ids@.len(),
                forall|j: int|
                    #![trigger self.key_ids@[j]]
                    0 <= j < i ==> self.key_ids@[j]@ != key_id@,
            decreases self.key_ids@.len() - i,
        {
            if self.key_ids[i] == *key_id {
                return Some(i);
            }
            i += 1;
        }
        None
    }
}

impl KeyManagementService for MemKeyService {
    closed spec fn keys(&self) -> Set<Seq<char>> {
        keys_of(self.key_ids@)
    }

    closed spec fn issued(&self) -> Map<Seq<u8>, Seq<u8>> {
        issued_map(self.issued_keys@)
    }

    closed spec fn reliable(&self) -> bool {
        true
    }

    fn describe_key(&self, key_id: &String) -> (r: Result<bool, SquirrelError>) {
        match self.find_key(key_id) {
            Some(_) => Ok(true),
            None => {
                proof {
                    if self.keys().contains(key_id@) {
                        let j = choose|j: int|
                            0 <= j < self.key_ids@.len() && self.key_ids@[j]@ == key_id@;
                        assert(self.key_ids@[j]@ == key_id@);
                    }
                }
                Ok(false)
            },
        }
    }

    fn create_key(&mut self, description: &String) -> (r: Result<String, SquirrelError>) {
        proof {
            use_type_invariant(&*self);
        }
        let kid: String = "in-memory-master-key".to_owned();
        let kid2 = kid.clone();
        let ghost gk2 = kid2;
        let ghost ids0 = self.key_ids@;
        let mut key_ids: Vec<String> = Vec::new();
        core::mem::swap(&mut key_ids, &mut self.key_ids);
        key_ids.push(kid2);
        self.key_ids = key_ids;
        proof {
            assert(self.key_ids@ =~= ids0.push(gk2));
            lemma_keys_of_push(ids0, gk2);
        }
        Ok(kid)
    }

    fn create_alias(&mut self, alias_id: &String, target_key_id: &String) -> (r: Result<
        (),
        SquirrelError,
    >) {
        proof {
            use_type_invariant(&*self);
        }
        let alias2 = alias_id.clone();
        let ghost ga = alias2;
        let ghost ids0 = self.key_ids@;
        let mut key_ids: Vec<String> = Vec::new();
        core::mem::swap(&mut key_ids, &mut self.key_ids);
        key_ids.push(alias2);
        self.key_ids = key_ids;
        proof {
            assert(self.key_ids@ =~= ids0.push(ga));
            lemma_keys_of_push(ids0, ga);
        }
        Ok(())
    }

    fn generate_random(&self, number_of_bytes: usize) -> (r: Result<Vec<u8>, SquirrelError>) {
        Ok(random_bytes(number_of_bytes))
    }

    fn generate_data_key(&mut self, key_id: &String, number_of_bytes: usize) -> (r: Result<
        (Vec<u8>, Vec<u8>),
        SquirrelError,
    >) {
        proof {
            use_type_invariant(&*self);
            self.lemma_distinct();
            lemma_issued_map_props(self.issued_keys@);
        }
        let plaintext = random_bytes(number_of_bytes);
        let blob = u64_to_bytes(self.issued_keys.len() as u64);
        proof {
            assert(self.issued_keys.len() == self.issued_keys@.len());
            if old(self).issued().contains_key(blob@) {
                let i = choose|i: int|
                    0 <= i < self.issued_keys@.len() && self.issued_keys@[i].0@ == blob@;
                assert(0 <= i <= u64::MAX);
                lemma_u64_bytes_injective(i as u64, self.issued_keys@.len() as u64);
            }
        }
        let blob_out = clone_bytes(&blob);
        let plaintext_out = clone_bytes(&plaintext);
        let ghost old_issued = self.issued_keys@;
        let entry = (blob, plaintext);
        let ghost ge = entry;
        let mut issued_keys: Vec<(Vec<u8>, Vec<u8>)> = Vec::new();
        core::mem::swap(&mut issued_keys, &mut self.issued_keys);
        issued_keys.push(entry);
        proof {
            lemma_issued_map_push(old_issued, ge);
        }
        self.issued_keys = issued_keys;
        Ok((blob_out, plaintext_out))
    }

    fn decrypt(&self, ciphertext: &Vec<u8>) -> (r: Result<Vec<u8>, SquirrelError>) {
        proof {
            use_type_invariant(&*self);
            self.lemma_distinct();
            lemma_issued_map_props(self.issued_keys@);
        }
        let mut i: usize = 0;
        while i < self.issued_keys.len()
            invariant
                i <= self.issued_keys@.len(),
                forall|j: int|
                    #![trigger self.issued_keys@[j]]
                    0 <= j < i ==> self.issued_keys@[j].0@ != ciphertext@,
            decreases self.issued_keys@.len() - i,
        {
            if bytes_eq(&self.issued_keys[i].0, ciphertext) {
                proof {
                    use_type_invariant(&*self);
                    self.lemma_distinct();
                    lemma_issued_map_props(self.issued_keys@);
                    assert(self.issued_keys@[i as int].0@ == ciphertext@);
                    assert(self.issued().contains_key(ciphertext@));
                }
                let pt = clone_bytes(&self.issued_keys[i].1);
                return Ok(pt);
            }
            i += 1;
        }
        proof {
            if self.issued().contains_key(ciphertext@) {
                let j = choose|j: int|
                    0 <= j < self.issued_keys@.len() && self.issued_keys@[j].0@ == ciphertext@;
                assert(self.issued_keys@[j].0@ == ciphertext@);
            }
        }
        Err(SquirrelError::new("Failed to decrypt the data key"))
    }
}

/// Copies a byte buffer.
fn clone_bytes(v: &Vec<u8>) -> (r: Vec<u8>)
    ensures
        r@ == v@,
{
    let mut out: Vec<u8> = Vec::new();
    let mut i: usize = 0;
    while i < v.len()
        invariant
            i <= v@.len(),
            out@ == v@.take(i as int),
        decreases v@.len() - i,
    {
        out.push(v[i]);
        assert(out@ =~= v@.take(i + 1));
        i += 1;
    }
    assert(out@ =~= v@);
    out
}

} // verus!
