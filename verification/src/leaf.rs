//! Binary decoding of RFC 6962 log entries.
//!
//! A `MerkleTreeLeaf` (RFC 6962 §3.4) carries a version byte, a leaf type
//! byte, and for timestamped entries a big-endian timestamp, an entry
//! type, and either an X.509 certificate or a precertificate's issuer key
//! hash and TBSCertificate, each length-prefixed, followed by extensions.
//! The matching `extra_data` (§3.5, §4.6) carries the certificate chain,
//! and for precertificates the submitted pre-certificate as well.
//!
//! Every parser here is verified against a specification function that
//! defines the accepted byte layout exactly.

use vstd::prelude::*;
use crate::error::Error;

verus! {

/// `256^n`.
pub open spec fn p256(n: int) -> int
    decreases n,
{
    if n <= 0 {
        1
    } else {
        256 * p256(n - 1)
    }
}

/// The big-endian value of the `n` bytes of `b` starting at `i`.
pub open spec fn be_val(b: Seq<u8>, i: int, n: int) -> nat
    decreases n,
{
    if n <= 0 {
        0
    } else {
        (be_val(b, i, n - 1) * 256 + b[i + n - 1]) as nat
    }
}

/// A big-endian value of `n` bytes lies below `256^n`.
pub proof fn lemma_be_val_bound(b: Seq<u8>, i: int, n: int)
    ensures
        be_val(b, i, n) < p256(n),
    decreases n,
{
    if n > 0 {
        lemma_be_val_bound(b, i, n - 1);
    }
}

/// Reads the big-endian value of `b[i..i + n]`.
fn be_val_exec(b: &[u8], i: usize, n: usize) -> (r: u64)
    requires
        n <= 8,
        i + n <= b@.len(),
    ensures
        r == be_val(b@, i as int, n as int),
{
    proof {
        reveal_with_fuel(p256, 9);
        broadcast use vstd::slice::group_slice_axioms;

        assert(vstd::slice::spec_slice_len(b) == b@.len());
    }
    let mut acc: u64 = 0;
    let mut k: usize = 0;
    while k < n
        invariant
            k <= n,
            n <= 8,
            i + n <= b@.len(),
            acc == be_val(b@, i as int, k as int),
            acc < p256(k as int),
            b@.len() <= usize::MAX,
        decreases n - k,
    {
        proof {
            reveal_with_fuel(p256, 9);
            lemma_p256_monotone(k as int, 7);
            lemma_be_val_bound(b@, i as int, k as int);
        }
        acc = acc * 256 + (b[i + k] as u64);
        k = k + 1;
    }
    acc
}

/// `256^m <= 256^l` when `m <= l`.
proof fn lemma_p256_monotone(m: int, l: int)
    requires
        0 <= m <= l,
    ensures
        p256(m) <= p256(l),
    decreases l - m,
{
    if m < l {
        lemma_p256_monotone(m, l - 1);
        assert(p256(l) == 256 * p256(l - 1));
        assert(p256(l - 1) > 0) by {
            lemma_p256_pos(l - 1);
        }
    }
}

/// `256^n` is positive.
proof fn lemma_p256_pos(n: int)
    ensures
        p256(n) > 0,
    decreases n,
{
    if n > 0 {
        lemma_p256_pos(n - 1);
    }
}

/// Copies `b[from..to]` into a fresh vector.
fn copy_range(b: &[u8], from: usize, to: usize) -> (r: Vec<u8>)
    requires
        from <= to <= b@.len(),
    ensures
        r@ == b@.subrange(from as int, to as int),
{
    let mut r: Vec<u8> = Vec::new();
    let mut i: usize = from;
    while i < to
        invariant
            from <= i <= to <= b@.len(),
            r@ == b@.subrange(from as int, i as int),
        decreases to - i,
    {
        r.push(b[i]);
        proof {
            assert(r@ =~= b@.subrange(from as int, i + 1 as int));
        }
        i = i + 1;
    }
    r
}

/// The signed part of a timestamped entry, as decoded values.
pub enum SignedKind {
    /// An ordinary certificate entry: the leaf's DER certificate.
    X509 { certificate: Vec<u8> },
    /// A precertificate entry: the issuer key hash and the
    /// TBSCertificate.
    Precert { issuer_key_hash: Vec<u8>, tbs_certificate: Vec<u8> },
}

/// The spec-level image of [`SignedKind`].
pub enum SignedModel {
    X509 { certificate: Seq<u8> },
    Precert { issuer_key_hash: Seq<u8>, tbs_certificate: Seq<u8> },
}

impl View for SignedKind {
    type V = SignedModel;

    open spec fn view(&self) -> SignedModel {
        match self {
            SignedKind::X509 { certificate } => SignedModel::X509 { certificate: certificate@ },
            SignedKind::Precert { issuer_key_hash, tbs_certificate } => SignedModel::Precert {
                issuer_key_hash: issuer_key_hash@,
                tbs_certificate: tbs_certificate@,
            },
        }
    }
}

/// A decoded `MerkleTreeLeaf` that turned out to be a timestamped entry.
pub struct DecodedLeaf {
    /// The entry's timestamp, milliseconds since the epoch.
    pub timestamp: u64,
    /// The signed part: certificate or precertificate data.
    pub signed: SignedKind,
}

/// The spec-level image of [`DecodedLeaf`].
pub struct LeafModel {
    pub timestamp: u64,
    pub signed: SignedModel,
}

impl View for DecodedLeaf {
    type V = LeafModel;

    open spec fn view(&self) -> LeafModel {
        LeafModel { timestamp: self.timestamp, signed: self.signed@ }
    }
}

/// The decoded `extra_data` of an entry.
pub enum ExtraKind {
    /// For an X.509 entry: the chain submitted with the certificate.
    X509 { certificate_chain: Vec<Vec<u8>> },
    /// For a precertificate entry: the submitted pre-certificate and its
    /// chain.
    Precert { pre_certificate: Vec<u8>, precertificate_chain: Vec<Vec<u8>> },
}

/// The spec-level image of [`ExtraKind`].
pub enum ExtraModel {
    X509 { certificate_chain: Seq<Seq<u8>> },
    Precert { pre_certificate: Seq<u8>, precertificate_chain: Seq<Seq<u8>> },
}

impl View for ExtraKind {
    type V = ExtraModel;

    open spec fn view(&self) -> ExtraModel {
        match self {
            ExtraKind::X509 { certificate_chain } => ExtraModel::X509 {
                certificate_chain: certificate_chain.deep_view(),
            },
            ExtraKind::Precert { pre_certificate, precertificate_chain } => ExtraModel::Precert {
                pre_certificate: pre_certificate@,
                precertificate_chain: precertificate_chain.deep_view(),
            },
        }
    }
}

/// The canonical fields of one output entry.
pub struct DecodedEntry {
    /// The entry's id within the log.
    pub entry_number: u64,
    /// The leaf's timestamp.
    pub timestamp: u64,
    /// The DER certificate written to the output: the leaf certificate
    /// for X.509 entries, the submitted pre-certificate for precerts.
    pub certificate: Vec<u8>,
    /// The chain, written only when chains are asked for.
    pub chain: Vec<Vec<u8>>,
    /// Precertificate data, present only for precert entries.
    pub precert: Option<PrecertData>,
}

/// The precert-only fields of an output entry.
pub struct PrecertData {
    /// SHA-256 hash of the issuing certificate's public key.
    pub issuer_key_hash: Vec<u8>,
    /// The TBSCertificate with the poison extension removed.
    pub tbs_certificate: Vec<u8>,
}

/// The spec-level image of [`DecodedEntry`].
pub struct EntryModel {
    pub entry_number: u64,
    pub timestamp: u64,
    pub certificate: Seq<u8>,
    pub chain: Seq<Seq<u8>>,
    pub precert: Option<(Seq<u8>, Seq<u8>)>,
}

impl View for DecodedEntry {
    type V = EntryModel;

    open spec fn view(&self) -> EntryModel {
        EntryModel {
            entry_number: self.entry_number,
            timestamp: self.timestamp,
            certificate: self.certificate@,
            chain: self.chain.deep_view(),
            precert: match self.precert {
                Some(p) => Some((p.issuer_key_hash@, p.tbs_certificate@)),
                None => None,
            },
        }
    }
}

/// Parses a `MerkleTreeLeaf`: version 1, leaf type `timestamped_entry`,
/// the timestamp, the entry type, the signed data, and the extensions,
/// which must exhaust the input exactly.
pub open spec fn spec_parse_leaf(b: Seq<u8>) -> Option<LeafModel> {
    if b.len() < 12 || b[0] != 0 || b[1] != 0 {
        None
    } else {
        let ts = be_val(b, 2, 8);
        let et = be_val(b, 10, 2);
        if et == 0 {
            if b.len() < 17 {
                None
            } else {
                let cl = be_val(b, 12, 3) as int;
                if b.len() < 17 + cl {
                    None
                } else {
                    let ext = be_val(b, 15 + cl, 2) as int;
                    if b.len() != 17 + cl + ext {
                        None
                    } else {
                        Some(
                            LeafModel {
                                timestamp: ts as u64,
                                signed: SignedModel::X509 {
                                    certificate: b.subrange(15, 15 + cl),
                                },
                            },
                        )
                    }
                }
            }
        } else if et == 1 {
            if b.len() < 49 {
                None
            } else {
                let tl = be_val(b, 44, 3) as int;
                if b.len() < 49 + tl {
                    None
                } else {
                    let ext = be_val(b, 47 + tl, 2) as int;
                    if b.len() != 49 + tl + ext {
                        None
                    } else {
                        Some(
                            LeafModel {
                                timestamp: ts as u64,
                                signed: SignedModel::Precert {
                                    issuer_key_hash: b.subrange(12, 44),
                                    tbs_certificate: b.subrange(47, 47 + tl),
                                },
                            },
                        )
                    }
                }
            }
        } else {
            None
        }
    }
}

/// Parses a concatenation of length-prefixed certificates that must
/// exhaust the input exactly.
pub open spec fn spec_parse_cert_list(b: Seq<u8>) -> Option<Seq<Seq<u8>>>
    decreases b.len(),
{
    if b.len() == 0 {
        Some(Seq::empty())
    } else if b.len() < 3 {
        None
    } else {
        let l = be_val(b, 0, 3) as int;
        if b.len() < 3 + l {
            None
        } else {
            match spec_parse_cert_list(b.subrange(3 + l, b.len() as int)) {
                Some(rest) => Some(seq![b.subrange(3, 3 + l)] + rest),
                None => None,
            }
        }
    }
}

/// Parses the `extra_data` of an X.509 entry: one length-prefixed list
/// of length-prefixed certificates.
pub open spec fn spec_parse_extra_x509(b: Seq<u8>) -> Option<Seq<Seq<u8>>> {
    if b.len() < 3 {
        None
    } else {
        let l = be_val(b, 0, 3) as int;
        if b.len() != 3 + l {
            None
        } else {
            spec_parse_cert_list(b.subrange(3, b.len() as int))
        }
    }
}

/// Parses the `extra_data` of a precert entry: the length-prefixed
/// pre-certificate, then the length-prefixed chain.
pub open spec fn spec_parse_extra_precert(b: Seq<u8>) -> Option<(Seq<u8>, Seq<Seq<u8>>)> {
    if b.len() < 3 {
        None
    } else {
        let pl = be_val(b, 0, 3) as int;
        if b.len() < 6 + pl {
            None
        } else {
            let cl = be_val(b, 3 + pl, 3) as int;
            if b.len() != 6 + pl + cl {
                None
            } else {
                match spec_parse_cert_list(b.subrange(6 + pl, b.len() as int)) {
                    Some(chain) => Some((b.subrange(3, 3 + pl), chain)),
                    None => None,
                }
            }
        }
    }
}

/// Decodes a `MerkleTreeLeaf`.  Anything that is not a well-formed
/// version-1 timestamped entry is an `EntryDecodingError`.
pub fn parse_leaf(b: &[u8]) -> (r: Result<DecodedLeaf, Error>)
    ensures
        r matches Ok(l) ==> spec_parse_leaf(b@) == Some(l@),
        r matches Err(e) ==> spec_parse_leaf(b@) is None && e matches Error::EntryDecodingError(
            _,
        ),
        r matches Ok(l) ==> match l@.signed {
            SignedModel::X509 { certificate } => certificate.len() < 0x100_0000,
            SignedModel::Precert { issuer_key_hash, tbs_certificate } => issuer_key_hash.len()
                == 32 && tbs_certificate.len() < 0x100_0000,
        },
{
    if b.len() < 12 {
        return Err(Error::EntryDecodingError("leaf_input too short".to_owned()));
    }
    if b[0] != 0 {
        return Err(Error::EntryDecodingError("unknown MerkleTreeLeaf version".to_owned()));
    }
    if b[1] != 0 {
        return Err(
            Error::EntryDecodingError("leaf_input was not a TimestampedEntry".to_owned()),
        );
    }
    let ts: u64 = be_val_exec(b, 2, 8);
    let et: u64 = be_val_exec(b, 10, 2);
    proof {
        reveal_with_fuel(p256, 4);
    }
    if et == 0 {
        if b.len() < 17 {
            return Err(Error::EntryDecodingError("certificate length truncated".to_owned()));
        }
        proof {
            lemma_be_val_bound(b@, 12, 3);
        }
        let cl: usize = be_val_exec(b, 12, 3) as usize;
        if b.len() < 17 + cl {
            return Err(Error::EntryDecodingError("certificate truncated".to_owned()));
        }
        proof {
            lemma_be_val_bound(b@, 15 + cl as int, 2);
        }
        let ext: usize = be_val_exec(b, 15 + cl, 2) as usize;
        if b.len() != 17 + cl + ext {
            return Err(Error::EntryDecodingError("trailing data after leaf".to_owned()));
        }
        let certificate = copy_range(b, 15, 15 + cl);
        proof {
            lemma_be_val_bound(b@, 2, 8);
            reveal_with_fuel(p256, 9);
        }
        Ok(DecodedLeaf { timestamp: ts, signed: SignedKind::X509 { certificate } })
    } else if et == 1 {
        if b.len() < 49 {
            return Err(Error::EntryDecodingError("precert data truncated".to_owned()));
        }
        proof {
            lemma_be_val_bound(b@, 44, 3);
        }
        let tl: usize = be_val_exec(b, 44, 3) as usize;
        if b.len() < 49 + tl {
            return Err(Error::EntryDecodingError("tbs_certificate truncated".to_owned()));
        }
        proof {
            lemma_be_val_bound(b@, 47 + tl as int, 2);
        }
        let ext: usize = be_val_exec(b, 47 + tl, 2) as usize;
        if b.len() != 49 + tl + ext {
            return Err(Error::EntryDecodingError("trailing data after leaf".to_owned()));
        }
        let issuer_key_hash = copy_range(b, 12, 44);
        let tbs_certificate = copy_range(b, 47, 47 + tl);
        proof {
            lemma_be_val_bound(b@, 2, 8);
            reveal_with_fuel(p256, 9);
        }
        Ok(
            DecodedLeaf {
                timestamp: ts,
                signed: SignedKind::Precert { issuer_key_hash, tbs_certificate },
            },
        )
    } else {
        Err(Error::EntryDecodingError("unknown LogEntryType".to_owned()))
    }
}

/// Decodes a concatenation of length-prefixed certificates.
fn parse_cert_list(b: &[u8], from: usize) -> (r: Result<Vec<Vec<u8>>, Error>)
    requires
        from <= b@.len(),
    ensures
        r matches Ok(v) ==> spec_parse_cert_list(b@.subrange(from as int, b@.len() as int))
            == Some(v.deep_view()),
        r matches Err(e) ==> spec_parse_cert_list(b@.subrange(from as int, b@.len() as int))
            is None && e matches Error::EntryDecodingError(_),
        r matches Ok(v) ==> forall|k: int|
            0 <= k < v.deep_view().len() ==> #[trigger] v.deep_view()[k].len() < 0x100_0000,
{
    let mut acc: Vec<Vec<u8>> = Vec::new();
    let mut i: usize = from;
    proof {
        assert(acc.deep_view() =~= Seq::<Seq<u8>>::empty());
        if spec_parse_cert_list(b@.subrange(i as int, b@.len() as int)) is Some {
            let rest = spec_parse_cert_list(b@.subrange(i as int, b@.len() as int))->Some_0;
            assert(acc.deep_view() + rest =~= rest);
        }
    }
    loop
        invariant
            from <= i <= b@.len(),
            forall|k: int|
                0 <= k < acc.deep_view().len() ==> #[trigger] acc.deep_view()[k].len()
                    < 0x100_0000,
            spec_parse_cert_list(b@.subrange(from as int, b@.len() as int)) == (match
                spec_parse_cert_list(b@.subrange(i as int, b@.len() as int)) {
                Some(rest) => Some(acc.deep_view() + rest),
                None => None::<Seq<Seq<u8>>>,
            }),
        decreases b@.len() - i,
    {
        if i == b.len() {
            proof {
                assert(b@.subrange(i as int, b@.len() as int).len() == 0);
                assert(acc.deep_view() + Seq::<Seq<u8>>::empty() =~= acc.deep_view());
            }
            return Ok(acc);
        }
        if b.len() - i < 3 {
            return Err(Error::EntryDecodingError("chain certificate length truncated".to_owned()));
        }
        proof {
            lemma_be_val_bound(b@, i as int, 3);
            reveal_with_fuel(p256, 4);
        }
        let l: usize = be_val_exec(b, i, 3) as usize;
        proof {
            lemma_be_val_shift(b@, i as int, 0, 3);
        }
        if b.len() - i - 3 < l {
            return Err(Error::EntryDecodingError("chain certificate truncated".to_owned()));
        }
        let cert = copy_range(b, i + 3, i + 3 + l);
        let ghost pre = acc.deep_view();
        acc.push(cert);
        proof {
            let whole = b@.subrange(i as int, b@.len() as int);
            let next = b@.subrange((i + 3 + l) as int, b@.len() as int);
            assert(be_val(whole, 0, 3) == l);
            assert(whole.subrange(3 + l as int, whole.len() as int) =~= next);
            assert(whole.subrange(3, 3 + l as int) =~= cert@);
            assert(acc.deep_view() =~~= pre + seq![cert@]);
            if spec_parse_cert_list(next) is Some {
                let r2 = spec_parse_cert_list(next)->Some_0;
                assert(spec_parse_cert_list(whole) == Some(seq![cert@] + r2));
                assert(pre + (seq![cert@] + r2) =~= acc.deep_view() + r2);
            } else {
                assert(spec_parse_cert_list(whole) is None);
            }
        }
        i = i + 3 + l;
    }
}

/// The first `n` bytes read at offset `i + d` of `b` are the bytes at
/// offset `d` of the suffix of `b` that starts at `i`.
proof fn lemma_be_val_shift(b: Seq<u8>, i: int, d: int, n: int)
    requires
        0 <= i,
        0 <= d,
        0 <= n,
        i + d + n <= b.len(),
    ensures
        be_val(b.subrange(i, b.len() as int), d, n) == be_val(b, i + d, n),
    decreases n,
{
    if n > 0 {
        lemma_be_val_shift(b, i, d, n - 1);
    }
}

/// Decodes the `extra_data` of an X.509 entry.
pub fn parse_extra_x509(b: &[u8]) -> (r: Result<Vec<Vec<u8>>, Error>)
    ensures
        r matches Ok(v) ==> spec_parse_extra_x509(b@) == Some(v.deep_view()),
        r matches Err(e) ==> spec_parse_extra_x509(b@) is None && e matches
            Error::EntryDecodingError(_),
        r matches Ok(v) ==> forall|k: int|
            0 <= k < v.deep_view().len() ==> #[trigger] v.deep_view()[k].len() < 0x100_0000,
{
    if b.len() < 3 {
        return Err(Error::EntryDecodingError("certificate_chain length truncated".to_owned()));
    }
    let l: usize = be_val_exec(b, 0, 3) as usize;
    proof {
        lemma_be_val_bound(b@, 0, 3);
        reveal_with_fuel(p256, 4);
    }
    if b.len() != 3 + l {
        return Err(Error::EntryDecodingError("certificate_chain length mismatch".to_owned()));
    }
    parse_cert_list(b, 3)
}

/// Decodes the `extra_data` of a precert entry.
pub fn parse_extra_precert(b: &[u8]) -> (r: Result<(Vec<u8>, Vec<Vec<u8>>), Error>)
    ensures
        r matches Ok(v) ==> spec_parse_extra_precert(b@) == Some((v.0@, v.1.deep_view())),
        r matches Err(e) ==> spec_parse_extra_precert(b@) is None && e matches
            Error::EntryDecodingError(_),
        r matches Ok(v) ==> v.0@.len() < 0x100_0000 && forall|k: int|
            0 <= k < v.1.deep_view().len() ==> #[trigger] v.1.deep_view()[k].len() < 0x100_0000,
{
    if b.len() < 3 {
        return Err(Error::EntryDecodingError("pre_certificate length truncated".to_owned()));
    }
    let pl: usize = be_val_exec(b, 0, 3) as usize;
    proof {
        lemma_be_val_bound(b@, 0, 3);
        reveal_with_fuel(p256, 4);
    }
    if b.len() < 6 + pl {
        return Err(Error::EntryDecodingError("pre_certificate truncated".to_owned()));
    }
    let cl: usize = be_val_exec(b, 3 + pl, 3) as usize;
    proof {
        lemma_be_val_bound(b@, (3 + pl) as int, 3);
        reveal_with_fuel(p256, 4);
    }
    if b.len() != 6 + pl + cl {
        return Err(Error::EntryDecodingError("precertificate_chain length mismatch".to_owned()));
    }
    let pre = copy_range(b, 3, 3 + pl);
    match parse_cert_list(b, 6 + pl) {
        Ok(chain) => Ok((pre, chain)),
        Err(e) => Err(e),
    }
}

/// Combines a decoded leaf with its decoded extra data into the
/// canonical output fields: an X.509 leaf takes its own certificate and
/// the submitted chain; a precert leaf takes the pre-certificate from the
/// extra data, the chain, and the precert fields; a mismatched
/// combination is an internal error.
pub fn decode_entry(id: u64, leaf: DecodedLeaf, extra: ExtraKind) -> (r: Result<
    DecodedEntry,
    Error,
>)
    ensures
        (leaf@.signed is X509 && extra@ is X509) ==> (r matches Ok(e) && e@ == (EntryModel {
            entry_number: id,
            timestamp: leaf@.timestamp,
            certificate: leaf@.signed->X509_certificate,
            chain: extra@->X509_certificate_chain,
            precert: None,
        })),
        (leaf@.signed is Precert && extra@ is Precert) ==> (r matches Ok(e) && e@ == (EntryModel {
            entry_number: id,
            timestamp: leaf@.timestamp,
            certificate: extra@->Precert_pre_certificate,
            chain: extra@->Precert_precertificate_chain,
            precert: Some(
                (leaf@.signed->Precert_issuer_key_hash, leaf@.signed->Precert_tbs_certificate),
            ),
        })),
        (leaf@.signed is X509 && extra@ is Precert) || (leaf@.signed is Precert && extra@ is X509)
            ==> (r matches Err(e) && e matches Error::InternalError(_)),
{
    match (leaf.signed, extra) {
        (SignedKind::X509 { certificate }, ExtraKind::X509 { certificate_chain }) => Ok(
            DecodedEntry {
                entry_number: id,
                timestamp: leaf.timestamp,
                certificate,
                chain: certificate_chain,
                precert: None,
            },
        ),
        (
            SignedKind::Precert { issuer_key_hash, tbs_certificate },
            ExtraKind::Precert { pre_certificate, precertificate_chain },
        ) => Ok(
            DecodedEntry {
                entry_number: id,
                timestamp: leaf.timestamp,
                certificate: pre_certificate,
                chain: precertificate_chain,
                precert: Some(PrecertData { issuer_key_hash, tbs_certificate }),
            },
        ),
        _ => Err(
            Error::internal("incompatible combination of signed_entry and extra_data"),
        ),
    }
}

} // verus!
