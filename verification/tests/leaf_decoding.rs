//! Binary decoding of MerkleTreeLeaf structures and extra data.

#![allow(dead_code)]

use scrape_ct_log::error::Error;
use scrape_ct_log::leaf::{
    decode_entry, parse_extra_precert, parse_extra_x509, parse_leaf, DecodedLeaf, ExtraKind,
    SignedKind,
};

fn len24(n: usize) -> [u8; 3] {
    [(n >> 16) as u8, (n >> 8) as u8, n as u8]
}

fn x509_leaf(ts: u64, cert: &[u8]) -> Vec<u8> {
    let mut v = vec![0u8, 0u8];
    v.extend_from_slice(&ts.to_be_bytes());
    v.extend_from_slice(&[0, 0]);
    v.extend_from_slice(&len24(cert.len()));
    v.extend_from_slice(cert);
    v.extend_from_slice(&[0, 0]);
    v
}

fn precert_leaf(ts: u64, ikh: &[u8; 32], tbs: &[u8]) -> Vec<u8> {
    let mut v = vec![0u8, 0u8];
    v.extend_from_slice(&ts.to_be_bytes());
    v.extend_from_slice(&[0, 1]);
    v.extend_from_slice(ikh);
    v.extend_from_slice(&len24(tbs.len()));
    v.extend_from_slice(tbs);
    v.extend_from_slice(&[0, 0]);
    v
}

fn cert_list(certs: &[&[u8]]) -> Vec<u8> {
    let mut inner: Vec<u8> = Vec::new();
    for c in certs {
        inner.extend_from_slice(&len24(c.len()));
        inner.extend_from_slice(c);
    }
    inner
}

fn x509_extra(chain: &[&[u8]]) -> Vec<u8> {
    let inner = cert_list(chain);
    let mut v = Vec::new();
    v.extend_from_slice(&len24(inner.len()));
    v.extend_from_slice(&inner);
    v
}

fn precert_extra(pre: &[u8], chain: &[&[u8]]) -> Vec<u8> {
    let inner = cert_list(chain);
    let mut v = Vec::new();
    v.extend_from_slice(&len24(pre.len()));
    v.extend_from_slice(pre);
    v.extend_from_slice(&len24(inner.len()));
    v.extend_from_slice(&inner);
    v
}

#[test]
fn x509_leaf_decodes() {
    let leaf = x509_leaf(1666198004098, b"CERTBYTES");
    let d = parse_leaf(&leaf).unwrap();
    assert_eq!(1666198004098, d.timestamp);
    match d.signed {
        SignedKind::X509 { certificate } => assert_eq!(b"CERTBYTES".to_vec(), certificate),
        _ => panic!("expected an X509 leaf"),
    }
}

#[test]
fn precert_leaf_decodes() {
    let ikh = [7u8; 32];
    let leaf = precert_leaf(1532471986235, &ikh, b"TBSBYTES");
    let d = parse_leaf(&leaf).unwrap();
    assert_eq!(1532471986235, d.timestamp);
    match d.signed {
        SignedKind::Precert { issuer_key_hash, tbs_certificate } => {
            assert_eq!(ikh.to_vec(), issuer_key_hash);
            assert_eq!(b"TBSBYTES".to_vec(), tbs_certificate);
        },
        _ => panic!("expected a Precert leaf"),
    }
}

#[test]
fn short_leaf_is_rejected() {
    let r = parse_leaf(&[0, 0, 1]);
    assert!(matches!(r, Err(Error::EntryDecodingError(_))));
}

#[test]
fn unknown_version_is_rejected() {
    let mut leaf = x509_leaf(1, b"X");
    leaf[0] = 9;
    assert!(matches!(parse_leaf(&leaf), Err(Error::EntryDecodingError(_))));
}

#[test]
fn non_timestamped_leaf_is_rejected() {
    let mut leaf = x509_leaf(1, b"X");
    leaf[1] = 1;
    assert!(matches!(parse_leaf(&leaf), Err(Error::EntryDecodingError(_))));
}

#[test]
fn unknown_entry_type_is_rejected() {
    let mut leaf = x509_leaf(1, b"X");
    leaf[11] = 7;
    assert!(matches!(parse_leaf(&leaf), Err(Error::EntryDecodingError(_))));
}

#[test]
fn trailing_bytes_are_rejected() {
    let mut leaf = x509_leaf(1, b"X");
    leaf.push(0);
    assert!(matches!(parse_leaf(&leaf), Err(Error::EntryDecodingError(_))));
}

#[test]
fn truncated_certificate_is_rejected() {
    let mut leaf = x509_leaf(1, b"LONGCERT");
    leaf.truncate(leaf.len() - 6);
    assert!(matches!(parse_leaf(&leaf), Err(Error::EntryDecodingError(_))));
}

#[test]
fn x509_extra_decodes() {
    let extra = x509_extra(&[b"AAA", b"BB"]);
    let chain = parse_extra_x509(&extra).unwrap();
    assert_eq!(vec![b"AAA".to_vec(), b"BB".to_vec()], chain);
}

#[test]
fn empty_chain_decodes() {
    let extra = x509_extra(&[]);
    let chain = parse_extra_x509(&extra).unwrap();
    assert!(chain.is_empty());
}

#[test]
fn x509_extra_length_mismatch_is_rejected() {
    let mut extra = x509_extra(&[b"AAA"]);
    extra.push(0);
    assert!(matches!(parse_extra_x509(&extra), Err(Error::EntryDecodingError(_))));
}

#[test]
fn precert_extra_decodes() {
    let extra = precert_extra(b"PRECERT", &[b"ISSUER"]);
    let (pre, chain) = parse_extra_precert(&extra).unwrap();
    assert_eq!(b"PRECERT".to_vec(), pre);
    assert_eq!(vec![b"ISSUER".to_vec()], chain);
}

#[test]
fn truncated_precert_extra_is_rejected() {
    let extra = precert_extra(b"PRECERT", &[b"ISSUER"]);
    assert!(matches!(
        parse_extra_precert(&extra[..4]),
        Err(Error::EntryDecodingError(_))
    ));
}

#[test]
fn x509_entry_combines() {
    let leaf = DecodedLeaf {
        timestamp: 42,
        signed: SignedKind::X509 { certificate: b"CERT".to_vec() },
    };
    let extra = ExtraKind::X509 { certificate_chain: vec![b"CHAIN1".to_vec()] };
    let e = decode_entry(7, leaf, extra).unwrap();
    assert_eq!(7, e.entry_number);
    assert_eq!(42, e.timestamp);
    assert_eq!(b"CERT".to_vec(), e.certificate);
    assert_eq!(vec![b"CHAIN1".to_vec()], e.chain);
    assert!(e.precert.is_none());
}

#[test]
fn precert_entry_combines() {
    let leaf = DecodedLeaf {
        timestamp: 43,
        signed: SignedKind::Precert {
            issuer_key_hash: vec![9; 32],
            tbs_certificate: b"TBS".to_vec(),
        },
    };
    let extra = ExtraKind::Precert {
        pre_certificate: b"PRE".to_vec(),
        precertificate_chain: vec![b"C1".to_vec(), b"C2".to_vec()],
    };
    let e = decode_entry(8, leaf, extra).unwrap();
    assert_eq!(8, e.entry_number);
    assert_eq!(b"PRE".to_vec(), e.certificate);
    assert_eq!(2, e.chain.len());
    let p = e.precert.unwrap();
    assert_eq!(vec![9; 32], p.issuer_key_hash);
    assert_eq!(b"TBS".to_vec(), p.tbs_certificate);
}

#[test]
fn mismatched_combination_is_an_internal_error() {
    let leaf = DecodedLeaf {
        timestamp: 1,
        signed: SignedKind::X509 { certificate: b"CERT".to_vec() },
    };
    let extra = ExtraKind::Precert {
        pre_certificate: b"PRE".to_vec(),
        precertificate_chain: vec![],
    };
    assert!(matches!(decode_entry(0, leaf, extra), Err(Error::InternalError(_))));
}
