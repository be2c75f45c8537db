//! The cipher layer: AES-256 in CBC mode with PKCS#7-style padding.
//!
//! The block cipher itself is the `crypto` crate's; its effect on a
//! block-aligned buffer is named by the uninterpreted functions
//! `aes_cbc_enc` and `aes_cbc_dec`. The padding scheme, the alignment
//! checks and the padding validation are this crate's own, verified code,
//! so a decryption never silently returns a buffer whose padding was
//! invalid.

use crypto::buffer::ReadBuffer;
use crypto::buffer::WriteBuffer;
use vstd::prelude::*;

verus! {

/// What AES-256-CBC encryption (no padding) returns for a block-aligned
/// buffer `data` under `key` and `iv`: a function of the arguments alone.
pub uninterp spec fn aes_cbc_enc(data: Seq<u8>, key: Seq<u8>, iv: Seq<u8>) -> Seq<u8>;

/// What AES-256-CBC decryption (no padding) returns for a block-aligned
/// buffer `data` under `key` and `iv`: a function of the arguments alone.
pub uninterp spec fn aes_cbc_dec(data: Seq<u8>, key: Seq<u8>, iv: Seq<u8>) -> Seq<u8>;

/// A local cryptographic failure while decrypting.
#[derive(Clone, Copy, Debug, PartialEq, Eq, Structural)]
pub enum CryptoError {
    /// The ciphertext length is not a multiple of the cipher's block size.
    NotBlockAligned,
    /// The decrypted buffer does not end in valid padding.
    InvalidPadding,
}

/// How many padding bytes extend a buffer of length `n` to the next block
/// boundary: always between 1 and 16, so every padded buffer is non-empty.
pub open spec fn pad_len(n: nat) -> nat {
    (16 - (n % 16)) as nat
}

/// A buffer followed by its PKCS#7-style padding: `pad_len` bytes, each
/// holding the value `pad_len`.
pub open spec fn pad_spec(v: Seq<u8>) -> Seq<u8> {
    v + Seq::new(pad_len(v.len()), |i: int| pad_len(v.len()) as u8)
}

/// Strips PKCS#7-style padding: the last byte names the padding length,
/// which must be between 1 and 16, fit in the buffer, and fill its own tail.
pub open spec fn unpad_spec(s: Seq<u8>) -> Option<Seq<u8>> {
    if s.len() == 0 {
        None
    } else {
        let n = s.last() as int;
        if 1 <= n <= 16 && n <= s.len() && (forall|i: int|
            s.len() - n <= i < s.len() ==> s[i] == s.last())
        {
            Some(s.take(s.len() - n))
        } else {
            None
        }
    }
}

/// Padding then unpadding gives the original buffer back, whatever its
/// length; the padded buffer is block-aligned and non-empty.
pub proof fn lemma_pad_unpad(v: Seq<u8>)
    ensures
        pad_spec(v).len() == v.len() + pad_len(v.len()),
        pad_spec(v).len() % 16 == 0,
        0 < pad_spec(v).len(),
        unpad_spec(pad_spec(v)) == Some(v),
{
    let p = pad_spec(v);
    let n = pad_len(v.len());
    assert(p.len() == v.len() + n);
    assert(p.last() == n as u8);
    assert(forall|i: int| p.len() - n <= i < p.len() ==> p[i] == p.last());
    assert(p.take(p.len() - (n as u8) as int) =~= v);
}

/// Appends PKCS#7-style padding to `v`.
pub fn pkcs7_pad(v: &[u8]) -> (r: Vec<u8>)
    requires
        v@.len() + 16 <= usize::MAX,
    ensures
        r@ == pad_spec(v@),
{
    let n: usize = 16 - (v.len() % 16);
    let mut out: Vec<u8> = Vec::new();
    out.extend_from_slice(v);
    assert(out@ =~= v@);
    let mut i: usize = 0;
    while i < n
        invariant
            i <= n,
            n == pad_len(v@.len()),
            1 <= n <= 16,
            out@ == v@ + Seq::new(i as nat, |j: int| n as u8),
            v@.len() + 16 <= usize::MAX,
        decreases n - i,
    {
        out.push(n as u8);
        assert(out@ =~= v@ + Seq::new((i + 1) as nat, |j: int| n as u8));
        i += 1;
    }
    assert(out@ =~= pad_spec(v@));
    out
}

/// Validates and strips PKCS#7-style padding from `s`.
pub fn pkcs7_unpad(s: &[u8]) -> (r: Result<Vec<u8>, CryptoError>)
    ensures
        r matches Ok(v) ==> unpad_spec(s@) == Some(v@),
        r is Err ==> unpad_spec(s@) is None && r == Err::<Vec<u8>, CryptoError>(
            CryptoError::InvalidPadding,
        ),
{
    if s.len() == 0 {
        return Err(CryptoError::InvalidPadding);
    }
    let last = s[s.len() - 1];
    let n = last as usize;
    if n < 1 || n > 16 || n > s.len() {
        return Err(CryptoError::InvalidPadding);
    }
    let start = s.len() - n;
    let mut i: usize = start;
    while i < s.len()
        invariant
            start <= i <= s@.len(),
            start == s@.len() - n,
            1 <= n <= 16,
            n <= s@.len(),
            n == last as int,
            last == s@.last(),
            forall|j: int| start <= j < i ==> s@[j] == s@.last(),
        decreases s@.len() - i,
    {
        if s[i] != last {
            return Err(CryptoError::InvalidPadding);
        }
        i += 1;
    }
    let mut out: Vec<u8> = Vec::new();
    let mut k: usize = 0;
    while k < start
        invariant
            k <= start,
            start <= s@.len(),
            out@ == s@.take(k as int),
        decreases start - k,
    {
        out.push(s[k]);
        assert(out@ =~= s@.take(k + 1));
        k += 1;
    }
    assert(unpad_spec(s@) == Some(s@.take(start as int)));
    Ok(out)
}

/// Relies on crypto::aes::cbc_encryptor with NoPadding: one-shot AES-256-CBC
/// encryption of a block-aligned buffer, writing as many bytes as it reads.
#[verifier::external_body]
fn aes256_cbc_raw_encrypt(data: &[u8], key: &[u8], iv: &[u8]) -> (r: Vec<u8>)
    requires
        data@.len() % 16 == 0,
        key@.len() == 32,
        iv@.len() == 16,
    ensures
        r@ == aes_cbc_enc(data@, key@, iv@),
        r@.len() == data@.len(),
{
    let mut enc = crypto::aes::cbc_encryptor(
        crypto::aes::KeySize::KeySize256,
        key,
        iv,
        crypto::blockmodes::NoPadding,
    );
    let mut out = vec![0u8; data.len()];
    let mut read_buffer = crypto::buffer::RefReadBuffer::new(data);
    let mut write_buffer = crypto::buffer::RefWriteBuffer::new(&mut out);
    enc.encrypt(&mut read_buffer, &mut write_buffer, true).unwrap();
    out
}

/// Relies on crypto::aes::cbc_decryptor with NoPadding: one-shot AES-256-CBC
/// decryption of a block-aligned buffer, writing as many bytes as it reads
/// and inverting what the encryptor produced under the same key and IV.
#[verifier::external_body]
fn aes256_cbc_raw_decrypt(data: &[u8], key: &[u8], iv: &[u8]) -> (r: Vec<u8>)
    requires
        data@.len() % 16 == 0,
        key@.len() == 32,
        iv@.len() == 16,
    ensures
        r@ == aes_cbc_dec(data@, key@, iv@),
        r@.len() == data@.len(),
        forall|p: Seq<u8>| aes_cbc_enc(p, key@, iv@) == data@ && p.len() == data@.len()
            ==> r@ == p,
{
    let mut dec = crypto::aes::cbc_decryptor(
        crypto::aes::KeySize::KeySize256,
        key,
        iv,
        crypto::blockmodes::NoPadding,
    );
    let mut out = vec![0u8; data.len()];
    let mut read_buffer = crypto::buffer::RefReadBuffer::new(data);
    let mut write_buffer = crypto::buffer::RefWriteBuffer::new(&mut out);
    dec.decrypt(&mut read_buffer, &mut write_buffer, true).unwrap();
    out
}

/// Encrypts a buffer of any length with AES-256-CBC and PKCS#7-style
/// padding. Key and IV length are the caller's obligation.
pub fn encrypt(value: &[u8], key: &[u8], iv: &[u8]) -> (r: Vec<u8>)
    requires
        key@.len() == 32,
        iv@.len() == 16,
        value@.len() + 16 <= usize::MAX,
    ensures
        r@ == aes_cbc_enc(pad_spec(value@), key@, iv@),
        r@.len() == pad_spec(value@).len(),
        r@.len() % 16 == 0,
        0 < r@.len(),
{
    proof {
        lemma_pad_unpad(value@);
    }
    let padded = pkcs7_pad(value);
    aes256_cbc_raw_encrypt(padded.as_slice(), key, iv)
}

/// Decrypts an AES-256-CBC ciphertext and validates its PKCS#7-style
/// padding. A ciphertext that is not block-aligned, or whose decryption does
/// not end in valid padding, is rejected; in particular everything the
/// matching `encrypt` produced decrypts back to the buffer it was given.
pub fn decrypt(encrypted_data: &[u8], key: &[u8], iv: &[u8]) -> (r: Result<
    Vec<u8>,
    CryptoError,
>)
    requires
        key@.len() == 32,
        iv@.len() == 16,
    ensures
        r matches Ok(v) ==> encrypted_data@.len() % 16 == 0 && unpad_spec(
            aes_cbc_dec(encrypted_data@, key@, iv@),
        ) == Some(v@),
        (r == Err::<Vec<u8>, CryptoError>(CryptoError::NotBlockAligned)) <==> (
        encrypted_data@.len() % 16 != 0),
        encrypted_data@.len() % 16 == 0 ==> ((r is Err) <==> unpad_spec(
            aes_cbc_dec(encrypted_data@, key@, iv@),
        ) is None),
        forall|p: Seq<u8>|
            (encrypted_data@ == aes_cbc_enc(pad_spec(p), key@, iv@)
                && encrypted_data@.len() == pad_spec(p).len()) ==> (r matches Ok(v) && v@ == p),
{
    if encrypted_data.len() % 16 != 0 {
        return Err(CryptoError::NotBlockAligned);
    }
    let plain_padded = aes256_cbc_raw_decrypt(encrypted_data, key, iv);
    let r = pkcs7_unpad(plain_padded.as_slice());
    proof {
        assert forall|p: Seq<u8>|
            encrypted_data@ == aes_cbc_enc(pad_spec(p), key@, iv@)
                && encrypted_data@.len() == pad_spec(p).len() implies r matches Ok(v) && v@
            == p by {
            lemma_pad_unpad(p);
            assert(plain_padded@ == pad_spec(p));
        }
    }
    r
}

} // verus!
