//! The encrypted-record shape and its wire encoding.
//!
//! A stored record carries three mandatory byte fields — the wrapped data
//! key, the ciphertext and the IV — each stored as a text attribute holding
//! its base64 encoding. A record missing a field is a data-integrity error
//! distinct from "not found"; the conversion functions here enforce that.

use vstd::prelude::*;

use crate::squirrel::SquirrelError;

verus! {

/// The canonical base64 text (standard alphabet, padded) of a byte buffer,
/// as the `base64` crate computes it: a function of the bytes alone.
pub uninterp spec fn b64_of(b: Seq<u8>) -> Seq<char>;

/// Relies on base64's STANDARD engine: encodes bytes as canonical padded
/// base64 text.
#[verifier::external_body]
fn base64_encode(b: &[u8]) -> (r: String)
    ensures
        r@ == b64_of(b@),
{
    base64::Engine::encode(&base64::engine::general_purpose::STANDARD, b)
}

/// Relies on base64's STANDARD engine: decodes canonical padded base64 text,
/// and rejects everything else (the engine requires canonical padding and
/// zero trailing bits).
#[verifier::external_body]
fn base64_decode(s: &str) -> (r: Result<Vec<u8>, ()>)
    ensures
        r is Ok ==> s@ == b64_of(r->Ok_0@),
        forall|b: Seq<u8>| s@ == b64_of(b) ==> (r is Ok && r->Ok_0@ == b),
{
    match base64::Engine::decode(&base64::engine::general_purpose::STANDARD, s) {
        Ok(v) => Ok(v),
        Err(_) => Err(()),
    }
}

/// An encrypted record: the wrapped per-secret data key, the ciphertext of
/// the secret, and the IV the cipher was run with. All three fields are
/// mandatory; a `put` always constructs a brand-new `Item`.
#[derive(Debug)]
pub struct Item {
    pub encrypted_data_key: Vec<u8>,
    pub encrypted_data: Vec<u8>,
    pub iv: Vec<u8>,
}

/// The mathematical shape of an `Item`: its three byte strings.
pub struct ItemView {
    pub encrypted_data_key: Seq<u8>,
    pub encrypted_data: Seq<u8>,
    pub iv: Seq<u8>,
}

impl View for Item {
    type V = ItemView;

    open spec fn view(&self) -> ItemView {
        ItemView {
            encrypted_data_key: self.encrypted_data_key@,
            encrypted_data: self.encrypted_data@,
            iv: self.iv@,
        }
    }
}

/// A record as the table stores it: three text attributes, each possibly
/// absent, holding base64 text when well-formed.
#[derive(Debug)]
pub struct RawRecord {
    pub encrypted_data_key: Option<String>,
    pub encrypted_data: Option<String>,
    pub iv: Option<String>,
}

/// The mathematical shape of a `RawRecord`.
pub struct RawRecordView {
    pub encrypted_data_key: Option<Seq<char>>,
    pub encrypted_data: Option<Seq<char>>,
    pub iv: Option<Seq<char>>,
}

pub open spec fn view_opt_string(o: Option<String>) -> Option<Seq<char>> {
    match o {
        Some(s) => Some(s@),
        None => None,
    }
}

impl View for RawRecord {
    type V = RawRecordView;

    open spec fn view(&self) -> RawRecordView {
        RawRecordView {
            encrypted_data_key: view_opt_string(self.encrypted_data_key),
            encrypted_data: view_opt_string(self.encrypted_data),
            iv: view_opt_string(self.iv),
        }
    }
}

fn clone_opt_string(o: &Option<String>) -> (r: Option<String>)
    ensures
        view_opt_string(r) == view_opt_string(*o),
{
    match o {
        Some(s) => Some(s.clone()),
        None => None,
    }
}

impl Clone for RawRecord {
    fn clone(&self) -> (r: Self)
        ensures
            r@ == self@,
    {
        RawRecord {
            encrypted_data_key: clone_opt_string(&self.encrypted_data_key),
            encrypted_data: clone_opt_string(&self.encrypted_data),
            iv: clone_opt_string(&self.iv),
        }
    }
}

/// Whether a stored record carries all three mandatory attributes.
pub open spec fn has_all_fields(rec: RawRecordView) -> bool {
    &&& rec.encrypted_data_key is Some
    &&& rec.encrypted_data is Some
    &&& rec.iv is Some
}

/// The canonical wire encoding of an item: every field present, in base64.
pub open spec fn record_spec(it: ItemView) -> RawRecordView {
    RawRecordView {
        encrypted_data_key: Some(b64_of(it.encrypted_data_key)),
        encrypted_data: Some(b64_of(it.encrypted_data)),
        iv: Some(b64_of(it.iv)),
    }
}

/// The error reported for a stored record missing a mandatory attribute.
pub open spec fn malformed_item_message() -> Seq<char> {
    "Item did not contain the expected fields"@
}

/// The error reported for a stored attribute that is not valid base64 text.
pub open spec fn undecodable_item_message() -> Seq<char> {
    "Item held an attribute that is not valid base64"@
}

/// Encodes an item as the record the table stores: each byte field as its
/// canonical base64 text.
pub fn item_to_attribute_map(item: &Item) -> (r: RawRecord)
    ensures
        r@ == record_spec(item@),
{
    RawRecord {
        encrypted_data_key: Some(base64_encode(item.encrypted_data_key.as_slice())),
        encrypted_data: Some(base64_encode(item.encrypted_data.as_slice())),
        iv: Some(base64_encode(item.iv.as_slice())),
    }
}

/// Decodes a stored record back into an item. A record missing a field is
/// malformed; a record whose attributes are not canonical base64 cannot be
/// decoded; and decoding the canonical encoding of an item gives exactly
/// that item back.
pub fn attribute_map_to_item(attribute_map: &RawRecord) -> (r: Result<Item, SquirrelError>)
    ensures
        !has_all_fields(attribute_map@) ==> (r matches Err(e) && e.message@
            == malformed_item_message()),
        r matches Err(e) ==> (e.message@ == malformed_item_message() || e.message@
            == undecodable_item_message()),
        r matches Err(e) && e.message@ == malformed_item_message() ==> !has_all_fields(
            attribute_map@,
        ),
        r matches Ok(it) ==> attribute_map@ == record_spec(it@),
        forall|it: ItemView|
            attribute_map@ == record_spec(it) ==> (r matches Ok(x) && x@ == it),
{
    proof {
        reveal_strlit("Item did not contain the expected fields");
        reveal_strlit("Item held an attribute that is not valid base64");
    }
    match (&attribute_map.encrypted_data_key, &attribute_map.encrypted_data, &attribute_map.iv) {
        (Some(key_b64), Some(data_b64), Some(iv_b64)) => {
            let key = base64_decode(key_b64.as_str());
            let data = base64_decode(data_b64.as_str());
            let iv = base64_decode(iv_b64.as_str());
            match (key, data, iv) {
                (Ok(encrypted_data_key), Ok(encrypted_data), Ok(iv)) => Ok(Item {
                    encrypted_data_key,
                    encrypted_data,
                    iv,
                }),
                _ => {
                    assert(undecodable_item_message().len() != malformed_item_message().len());
                    Err(SquirrelError::new("Item held an attribute that is not valid base64"))
                },
            }
        },
        _ => Err(SquirrelError::new("Item did not contain the expected fields")),
    }
}

} // verus!
