//! Decoding of the log's JSON responses.
//!
//! `get-sth` returns the Signed Tree Head; `get-entries` returns a list
//! of base64-encoded leaf and extra data blobs.  The JSON grammar is
//! serde_json's, reflected into the spec-level [`JsonModel`]: the named
//! [`json_parse_of`] says what a body parses to, and the `Value`
//! accessors are specified against the model, so [`parse_sth`] and
//! [`parse_get_entries`] can promise success — with the decoded values
//! fixed — exactly when the body has the required shape.  Anything else
//! is a `JsonParseError`, which callers treat as fatal.

use vstd::prelude::*;
use crate::error::Error;
use base64::Engine;

verus! {

/// The log's Signed Tree Head.
#[derive(Clone, Debug)]
pub struct Sth {
    /// The number of entries the log holds.
    pub tree_size: u64,
    /// When this tree head was produced, milliseconds since the epoch.
    pub timestamp: u64,
    /// The Merkle root, 32 bytes once decoded.
    pub sha256_root_hash: Vec<u8>,
    /// The signature over the tree head.
    pub tree_head_signature: Vec<u8>,
}

/// One undecoded entry of a `get-entries` response: the raw bytes of the
/// leaf and of its extra data.
#[derive(Debug)]
pub struct RawEntry {
    /// The binary `MerkleTreeLeaf`.
    pub leaf_input: Vec<u8>,
    /// The binary extra data that accompanies the leaf.
    pub extra_data: Vec<u8>,
}

/// The spec-level image of [`Sth`].
pub struct SthModel {
    pub tree_size: u64,
    pub timestamp: u64,
    pub sha256_root_hash: Seq<u8>,
    pub tree_head_signature: Seq<u8>,
}

impl View for Sth {
    type V = SthModel;

    open spec fn view(&self) -> SthModel {
        SthModel {
            tree_size: self.tree_size,
            timestamp: self.timestamp,
            sha256_root_hash: self.sha256_root_hash@,
            tree_head_signature: self.tree_head_signature@,
        }
    }
}

/// The spec-level image of [`RawEntry`].
pub struct RawEntryModel {
    pub leaf_input: Seq<u8>,
    pub extra_data: Seq<u8>,
}

impl View for RawEntry {
    type V = RawEntryModel;

    open spec fn view(&self) -> RawEntryModel {
        RawEntryModel { leaf_input: self.leaf_input@, extra_data: self.extra_data@ }
    }
}

impl DeepView for RawEntry {
    type V = RawEntryModel;

    open spec fn deep_view(&self) -> RawEntryModel {
        self.view()
    }
}

/// The spec-level shape of a JSON value, as the accessors below see it:
/// a number is reduced to its `u64` reading if it has one, an object to
/// the map of its (last-wins) members.
pub enum JsonModel {
    Null,
    Bool(bool),
    Number(Option<u64>),
    JString(Seq<char>),
    Array(Seq<JsonModel>),
    Object(Map<Seq<char>, JsonModel>),
}

/// What a `serde_json::Value` holds, as a [`JsonModel`].
pub uninterp spec fn json_value_of(v: serde_json::Value) -> JsonModel;

/// What parsing a byte body as one JSON document yields: the value's
/// model, or nothing when the bytes are not a single JSON document.
pub uninterp spec fn json_parse_of(b: Seq<u8>) -> Option<JsonModel>;

/// What decoding a string as standard-alphabet, padded base64 yields,
/// or nothing when it is not such an encoding.
pub uninterp spec fn base64_decoded(s: Seq<char>) -> Option<Seq<u8>>;

#[verifier::external_type_specification]
#[verifier::external_body]
pub struct ExValue(serde_json::Value);

/// Relies on `serde_json::from_slice::<Value>`: parses the bytes as one
/// JSON document; success and the resulting value depend on the bytes
/// alone.
#[verifier::external_body]
fn parse_json(b: &[u8]) -> (r: Result<serde_json::Value, String>)
    ensures
        r matches Ok(v) ==> json_parse_of(b@) == Some(json_value_of(v)),
        r is Err ==> json_parse_of(b@) is None,
{
    match serde_json::from_slice::<serde_json::Value>(b) {
        Ok(v) => Ok(v),
        Err(e) => Err(e.to_string()),
    }
}

/// Relies on `serde_json::Value::get`: the member under `key` when this
/// value is an object that has it, `None` otherwise.
#[verifier::external_body]
fn json_get<'a>(v: &'a serde_json::Value, key: &str) -> (r: Option<&'a serde_json::Value>)
    ensures
        r matches Some(f) ==> (json_value_of(*v) matches JsonModel::Object(m)
            && m.dom().contains(key@) && json_value_of(*f) == m[key@]),
        r is None ==> !(json_value_of(*v) matches JsonModel::Object(m) && m.dom().contains(
            key@,
        )),
{
    v.get(key)
}

/// Relies on `serde_json::Value::as_u64`: the value as an unsigned
/// 64-bit integer when it is a number with such a reading.
#[verifier::external_body]
fn json_as_u64(v: &serde_json::Value) -> (r: Option<u64>)
    ensures
        r == (match json_value_of(*v) {
            JsonModel::Number(o) => o,
            _ => None::<u64>,
        }),
{
    v.as_u64()
}

/// Relies on `serde_json::Value::as_str`: the value as a string, if it
/// is one.
#[verifier::external_body]
fn json_as_str<'a>(v: &'a serde_json::Value) -> (r: Option<&'a str>)
    ensures
        r matches Some(x) ==> (json_value_of(*v) matches JsonModel::JString(s) && x@ == s),
        r is None ==> !(json_value_of(*v) is JString),
{
    v.as_str()
}

/// Relies on `serde_json::Value::as_array`: the value as an array, if
/// it is one, its elements modelled elementwise.
#[verifier::external_body]
fn json_as_array<'a>(v: &'a serde_json::Value) -> (r: Option<&'a Vec<serde_json::Value>>)
    ensures
        r matches Some(x) ==> (json_value_of(*v) matches JsonModel::Array(a) && x@.len()
            == a.len() && forall|k: int|
            0 <= k < a.len() ==> json_value_of(#[trigger] x@[k]) == a[k]),
        r is None ==> !(json_value_of(*v) is Array),
{
    v.as_array()
}

/// Relies on base64's `STANDARD` engine: decodes standard-alphabet,
/// padded base64; success and the bytes depend on the characters alone.
#[verifier::external_body]
fn base64_decode(s: &str) -> (r: Result<Vec<u8>, String>)
    ensures
        r matches Ok(v) ==> base64_decoded(s@) == Some(v@),
        r is Err ==> base64_decoded(s@) is None,
{
    match base64::engine::general_purpose::STANDARD.decode(s) {
        Ok(v) => Ok(v),
        Err(e) => Err(e.to_string()),
    }
}

/// The member of object `m` under `key`, if `m` is an object with it.
pub open spec fn obj_field(m: JsonModel, key: Seq<char>) -> Option<JsonModel> {
    match m {
        JsonModel::Object(o) => if o.dom().contains(key) {
            Some(o[key])
        } else {
            None
        },
        _ => None,
    }
}

/// The `u64` member of `m` under `key`, if there is one.
pub open spec fn obj_u64(m: JsonModel, key: Seq<char>) -> Option<u64> {
    match obj_field(m, key) {
        Some(f) => match f {
            JsonModel::Number(o) => o,
            _ => None,
        },
        None => None,
    }
}

/// The base64-decoded string member of `m` under `key`, if there is one
/// and it decodes.
pub open spec fn obj_bytes(m: JsonModel, key: Seq<char>) -> Option<Seq<u8>> {
    match obj_field(m, key) {
        Some(f) => match f {
            JsonModel::JString(s) => base64_decoded(s),
            _ => None,
        },
        None => None,
    }
}

/// What a well-formed `get-sth` body decodes to: an object with numeric
/// `tree_size` and `timestamp` and base64 `sha256_root_hash` and
/// `tree_head_signature`.
pub open spec fn spec_sth_of(b: Seq<u8>) -> Option<SthModel> {
    match json_parse_of(b) {
        Some(m) => match (
            obj_u64(m, "tree_size"@),
            obj_u64(m, "timestamp"@),
            obj_bytes(m, "sha256_root_hash"@),
            obj_bytes(m, "tree_head_signature"@),
        ) {
            (Some(ts), Some(t), Some(rh), Some(sig)) => Some(
                SthModel {
                    tree_size: ts,
                    timestamp: t,
                    sha256_root_hash: rh,
                    tree_head_signature: sig,
                },
            ),
            _ => None,
        },
        None => None,
    }
}

/// What one element of the `entries` array decodes to: an object with
/// base64 `leaf_input` and `extra_data`.
pub open spec fn spec_entry_of(m: JsonModel) -> Option<RawEntryModel> {
    match (obj_bytes(m, "leaf_input"@), obj_bytes(m, "extra_data"@)) {
        (Some(l), Some(x)) => Some(RawEntryModel { leaf_input: l, extra_data: x }),
        _ => None,
    }
}

/// What an `entries` array decodes to, element by element; nothing if
/// any element is malformed.
pub open spec fn spec_entry_seq(a: Seq<JsonModel>) -> Option<Seq<RawEntryModel>>
    decreases a.len(),
{
    if a.len() == 0 {
        Some(Seq::empty())
    } else {
        match (spec_entry_seq(a.drop_last()), spec_entry_of(a.last())) {
            (Some(rest), Some(e)) => Some(rest.push(e)),
            _ => None,
        }
    }
}

/// What a well-formed `get-entries` body decodes to: an object whose
/// `entries` member is an array of well-formed entries.
pub open spec fn spec_entries_of(b: Seq<u8>) -> Option<Seq<RawEntryModel>> {
    match json_parse_of(b) {
        Some(m) => match obj_field(m, "entries"@) {
            Some(f) => match f {
                JsonModel::Array(a) => spec_entry_seq(a),
                _ => None,
            },
            None => None,
        },
        None => None,
    }
}

/// Reads the `u64` member `key` of `v`.
fn u64_field(v: &serde_json::Value, key: &str, context: &str) -> (r: Result<u64, Error>)
    ensures
        r matches Ok(u) ==> obj_u64(json_value_of(*v), key@) == Some(u),
        r matches Err(e) ==> obj_u64(json_value_of(*v), key@) is None && e matches
            Error::JsonParseError(_, _),
{
    match json_get(v, key) {
        Some(f) => match json_as_u64(f) {
            Some(u) => Ok(u),
            None => Err(
                Error::json_parse(context, "field is not an unsigned integer".to_owned()),
            ),
        },
        None => Err(Error::json_parse(context, "missing field".to_owned())),
    }
}

/// Reads the base64-encoded byte member `key` of `v`.
fn bytes_field(v: &serde_json::Value, key: &str, context: &str) -> (r: Result<Vec<u8>, Error>)
    ensures
        r matches Ok(b) ==> obj_bytes(json_value_of(*v), key@) == Some(b@),
        r matches Err(e) ==> obj_bytes(json_value_of(*v), key@) is None && e matches
            Error::JsonParseError(_, _),
{
    match json_get(v, key) {
        Some(f) => match json_as_str(f) {
            Some(s) => match base64_decode(s) {
                Ok(b) => Ok(b),
                Err(msg) => Err(Error::json_parse(context, msg)),
            },
            None => Err(Error::json_parse(context, "field is not a string".to_owned())),
        },
        None => Err(Error::json_parse(context, "missing field".to_owned())),
    }
}

/// Decodes a `get-sth` response body: succeeds, with exactly the body's
/// field values, if and only if the body is well-formed; every
/// malformation — not JSON, a missing key, a wrong type, bad base64 —
/// is a `JsonParseError`.
pub fn parse_sth(body: &[u8]) -> (r: Result<Sth, Error>)
    ensures
        r matches Ok(s) ==> spec_sth_of(body@) == Some(s@),
        r matches Err(e) ==> spec_sth_of(body@) is None && e matches Error::JsonParseError(_, _),
{
    let v = match parse_json(body) {
        Ok(v) => v,
        Err(msg) => {
            return Err(Error::json_parse("get-sth response", msg));
        },
    };
    let tree_size = match u64_field(&v, "tree_size", "get-sth response") {
        Ok(u) => u,
        Err(e) => {
            return Err(e);
        },
    };
    let timestamp = match u64_field(&v, "timestamp", "get-sth response") {
        Ok(u) => u,
        Err(e) => {
            return Err(e);
        },
    };
    let sha256_root_hash = match bytes_field(&v, "sha256_root_hash", "get-sth response") {
        Ok(b) => b,
        Err(e) => {
            return Err(e);
        },
    };
    let tree_head_signature = match bytes_field(&v, "tree_head_signature", "get-sth response") {
        Ok(b) => b,
        Err(e) => {
            return Err(e);
        },
    };
    Ok(Sth { tree_size, timestamp, sha256_root_hash, tree_head_signature })
}

/// A malformed element makes the whole entry sequence malformed.
proof fn lemma_entry_seq_none(a: Seq<JsonModel>, i: int)
    requires
        0 <= i < a.len(),
        spec_entry_of(a[i]) is None,
    ensures
        spec_entry_seq(a) is None,
    decreases a.len(),
{
    if i < a.len() - 1 {
        lemma_entry_seq_none(a.drop_last(), i);
    }
}

/// Decodes a `get-entries` response body into raw entries, in response
/// order: succeeds, with exactly the body's decoded blobs, if and only
/// if the body is well-formed; every malformation is a
/// `JsonParseError`.
pub fn parse_get_entries(body: &[u8]) -> (r: Result<Vec<RawEntry>, Error>)
    ensures
        r matches Ok(v) ==> spec_entries_of(body@) == Some(v.deep_view()),
        r matches Err(e) ==> spec_entries_of(body@) is None && e matches Error::JsonParseError(
            _,
            _,
        ),
{
    let v = match parse_json(body) {
        Ok(v) => v,
        Err(msg) => {
            return Err(Error::json_parse("get-entries response", msg));
        },
    };
    let (arr, ga) = match json_get(&v, "entries") {
        Some(f) => match json_as_array(f) {
            Some(x) => {
                let ghost a0: Seq<JsonModel> = match json_value_of(*f) {
                    JsonModel::Array(arr0) => arr0,
                    _ => Seq::empty(),
                };
                proof {
                    assert(spec_entries_of(body@) == spec_entry_seq(a0));
                }
                (x, Ghost(a0))
            },
            None => {
                return Err(
                    Error::json_parse("get-entries response", "entries is not an array".to_owned()),
                );
            },
        },
        None => {
            return Err(
                Error::json_parse("get-entries response", "missing entries".to_owned()),
            );
        },
    };
    let ghost a: Seq<JsonModel> = ga@;
    let mut out: Vec<RawEntry> = Vec::new();
    let mut i: usize = 0;
    while i < arr.len()
        invariant
            i <= arr@.len(),
            a.len() == arr@.len(),
            forall|k: int| 0 <= k < a.len() ==> a[k] == json_value_of(#[trigger] arr@[k]),
            spec_entries_of(body@) == spec_entry_seq(a),
            spec_entry_seq(a.take(i as int)) == Some(out.deep_view()),
        decreases arr@.len() - i,
    {
        let leaf_input = match bytes_field(&arr[i], "leaf_input", "get-entries response") {
            Ok(b) => b,
            Err(e) => {
                proof {
                    lemma_entry_seq_none(a, i as int);
                }
                return Err(e);
            },
        };
        let extra_data = match bytes_field(&arr[i], "extra_data", "get-entries response") {
            Ok(b) => b,
            Err(e) => {
                proof {
                    lemma_entry_seq_none(a, i as int);
                }
                return Err(e);
            },
        };
        let ghost pre = out.deep_view();
        out.push(RawEntry { leaf_input, extra_data });
        proof {
            assert(a.take(i + 1 as int).drop_last() =~= a.take(i as int));
            assert(a.take(i + 1 as int).last() == a[i as int]);
            assert(out.deep_view() =~~= pre.push(
                RawEntryModel { leaf_input: leaf_input@, extra_data: extra_data@ },
            ));
        }
        i = i + 1;
    }
    proof {
        assert(a.take(a.len() as int) =~= a);
    }
    Ok(out)
}

} // verus!
