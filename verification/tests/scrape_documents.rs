//! Whole documents produced by driving the planner, the fetcher and the
//! sink together, checked by parsing them back.

#![allow(dead_code)]

use base64::Engine;
use scrape_ct_log::fetcher::{FetchCtl, FetchOutcome, HttpEvent};
use scrape_ct_log::file_writer::{current_time, Args, FileWriter};
use scrape_ct_log::processor::Request;
use scrape_ct_log::responses::Sth;
use scrape_ct_log::runner::{compute_last_entry, RunCtl};
use scrape_ct_log::serializer::StreamFormat;
use serde_json::Value as SerdeValue;
use x509_parser::certificate::X509Certificate;
use x509_parser::prelude::FromDer;

const TEST_CERT_DER: [u8; 268] = [
    0x30, 0x82, 0x01, 0x08, 0x30, 0x81, 0xbb, 0x02, 0x14, 0x77, 0xe5, 0xf4, 0xc0, 0x34, 0x88, 0xa1,
    0x22, 0x6c, 0xf5, 0xcd, 0x45, 0xf3, 0xcd, 0xf0, 0x49, 0x91, 0xf8, 0x15, 0x43, 0x30, 0x05, 0x06,
    0x03, 0x2b, 0x65, 0x70, 0x30, 0x27, 0x31, 0x0b, 0x30, 0x09, 0x06, 0x03, 0x55, 0x04, 0x06, 0x13,
    0x02, 0x44, 0x45, 0x31, 0x18, 0x30, 0x16, 0x06, 0x03, 0x55, 0x04, 0x03, 0x0c, 0x0f, 0x77, 0x77,
    0x77, 0x2e, 0x65, 0x78, 0x61, 0x6d, 0x70, 0x6c, 0x65, 0x2e, 0x63, 0x6f, 0x6d, 0x30, 0x1e, 0x17,
    0x0d, 0x32, 0x31, 0x30, 0x37, 0x32, 0x37, 0x31, 0x32, 0x33, 0x37, 0x31, 0x34, 0x5a, 0x17, 0x0d,
    0x32, 0x33, 0x30, 0x36, 0x32, 0x37, 0x31, 0x32, 0x33, 0x37, 0x31, 0x34, 0x5a, 0x30, 0x27, 0x31,
    0x0b, 0x30, 0x09, 0x06, 0x03, 0x55, 0x04, 0x06, 0x13, 0x02, 0x44, 0x45, 0x31, 0x18, 0x30, 0x16,
    0x06, 0x03, 0x55, 0x04, 0x03, 0x0c, 0x0f, 0x77, 0x77, 0x77, 0x2e, 0x65, 0x78, 0x61, 0x6d, 0x70,
    0x6c, 0x65, 0x2e, 0x63, 0x6f, 0x6d, 0x30, 0x2a, 0x30, 0x05, 0x06, 0x03, 0x2b, 0x65, 0x70, 0x03,
    0x21, 0x00, 0x3e, 0xa4, 0x05, 0xd2, 0xef, 0x19, 0xf5, 0xe0, 0xab, 0xf3, 0x3e, 0x4d, 0xf5, 0x4e,
    0xe5, 0x1d, 0x05, 0x44, 0x79, 0x3d, 0x98, 0xe2, 0x67, 0x25, 0x37, 0xf4, 0xff, 0xca, 0xf8, 0x60,
    0x98, 0x4c, 0x30, 0x05, 0x06, 0x03, 0x2b, 0x65, 0x70, 0x03, 0x41, 0x00, 0x20, 0xdb, 0x7a, 0xe6,
    0xfa, 0xc2, 0x88, 0xe9, 0x59, 0xf4, 0x6a, 0xca, 0xb2, 0xd7, 0x2c, 0x48, 0x0d, 0x55, 0xbc, 0x0f,
    0x27, 0x57, 0x32, 0x52, 0x68, 0x3f, 0xe8, 0x01, 0xaa, 0x9e, 0x83, 0xd2, 0x23, 0xc3, 0xb4, 0x8c,
    0x17, 0x93, 0x70, 0x6b, 0xde, 0x0d, 0xc4, 0xaa, 0x36, 0x71, 0xc8, 0x83, 0x83, 0xb1, 0xe4, 0x1a,
    0x6e, 0x52, 0x8b, 0xd6, 0xbc, 0x02, 0xa6, 0x26, 0xea, 0x8d, 0xd5, 0x02,
];

const PRECERT_TIMESTAMP: u64 = 1532471986235;

const X509_TIMESTAMP: u64 = 1666198004098;

fn b64(b: &[u8]) -> String {
    base64::engine::general_purpose::STANDARD.encode(b)
}

fn b64_nopad_decode(s: &str) -> Vec<u8> {
    base64::engine::general_purpose::STANDARD_NO_PAD.decode(s).unwrap()
}

fn len24(n: usize) -> [u8; 3] {
    [(n >> 16) as u8, (n >> 8) as u8, n as u8]
}

fn x509_leaf(ts: u64, cert: &[u8]) -> Vec<u8> {
    let mut v = vec![0u8, 0u8];
    v.extend_from_slice(&ts.to_be_bytes());
    v.extend_from_slice(&[0, 0]);
    v.extend_from_slice(&len24(cert.len()));
    v.extend_from_slice(cert);
    v.extend_from_slice(&[0, 0]);
    v
}

fn precert_leaf(ts: u64, ikh: &[u8; 32], tbs: &[u8]) -> Vec<u8> {
    let mut v = vec![0u8, 0u8];
    v.extend_from_slice(&ts.to_be_bytes());
    v.extend_from_slice(&[0, 1]);
    v.extend_from_slice(ikh);
    v.extend_from_slice(&len24(tbs.len()));
    v.extend_from_slice(tbs);
    v.extend_from_slice(&[0, 0]);
    v
}

fn cert_list(certs: &[&[u8]]) -> Vec<u8> {
    let mut inner: Vec<u8> = Vec::new();
    for c in certs {
        inner.extend_from_slice(&len24(c.len()));
        inner.extend_from_slice(c);
    }
    inner
}

fn x509_extra(chain: &[&[u8]]) -> Vec<u8> {
    let inner = cert_list(chain);
    let mut v = Vec::new();
    v.extend_from_slice(&len24(inner.len()));
    v.extend_from_slice(&inner);
    v
}

fn precert_extra(pre: &[u8], chain: &[&[u8]]) -> Vec<u8> {
    let inner = cert_list(chain);
    let mut v = Vec::new();
    v.extend_from_slice(&len24(pre.len()));
    v.extend_from_slice(pre);
    v.extend_from_slice(&len24(inner.len()));
    v.extend_from_slice(&inner);
    v
}

fn precert_log_entry() -> (Vec<u8>, Vec<u8>) {
    (
        precert_leaf(PRECERT_TIMESTAMP, &[0xd2; 32], b"TBSCERT"),
        precert_extra(&TEST_CERT_DER, &[b"ISSUER-A", b"ISSUER-B"]),
    )
}

fn x509_log_entry() -> (Vec<u8>, Vec<u8>) {
    (
        x509_leaf(X509_TIMESTAMP, &TEST_CERT_DER),
        x509_extra(&[b"ISSUER-A"]),
    )
}

fn entries_body(log: &[(Vec<u8>, Vec<u8>)], start: u64, count: usize) -> Vec<u8> {
    let mut items: Vec<String> = Vec::new();
    for i in 0..count {
        let (leaf, extra) = &log[start as usize + i];
        items.push(format!(
            r#"{{"leaf_input":"{}","extra_data":"{}"}}"#,
            b64(leaf),
            b64(extra)
        ));
    }
    format!(r#"{{"entries":[{}]}}"#, items.join(",")).into_bytes()
}

/// Runs a whole scrape in-process: the planner hands out batches, a
/// simulated log answers at most `chunk` entries per request, entries
/// flow through the sink.  Returns the document and how many
/// get-entries exchanges it took.
fn scrape(
    format: StreamFormat,
    include_chains: bool,
    include_precert_data: bool,
    log: &[(Vec<u8>, Vec<u8>)],
    offset: u64,
    limit: u64,
    chunk: usize,
) -> (Vec<u8>, usize) {
    let args = Args::new("https://log.example/".to_string())
        .format(format)
        .include_chains(include_chains)
        .include_precert_data(include_precert_data);
    let begin = current_time().unwrap();
    let mut fw = FileWriter::init(args, begin);
    let tree_size = log.len() as u64;
    fw.handle_cast(Request::Metadata(Sth {
        tree_size,
        timestamp: 1234567890,
        sha256_root_hash: vec![0u8; 32],
        tree_head_signature: vec![0u8; 64],
    }))
    .unwrap();
    let mut calls = 0;
    if offset < tree_size {
        let last = compute_last_entry(tree_size, offset, limit).unwrap();
        let mut ctl = RunCtl::new(offset, last, 1);
        let mut fetcher = FetchCtl::new();
        let batch = ctl.boot_fetcher().unwrap();
        fetcher.fetch(batch.0, batch.1);
        loop {
            if fetcher.done() {
                if ctl.work_remains() {
                    let b = ctl.complete(0).unwrap();
                    fetcher.fetch(b.0, b.1);
                } else {
                    break;
                }
            }
            let (s, e) = fetcher.current_range();
            let want = (e - s + 1) as usize;
            let count = want.min(chunk);
            calls += 1;
            match fetcher.handle_event(HttpEvent::Body(entries_body(log, s, count))).unwrap() {
                FetchOutcome::Deliver(v) => {
                    for (id, raw) in v {
                        fw.handle_cast(Request::Entry(id, raw)).unwrap();
                    }
                },
                FetchOutcome::Backoff(_) => panic!("no backoff expected"),
            }
        }
    }
    fw.terminate(current_time().unwrap());
    (fw.take_output(), calls)
}

fn parse_json(doc: &[u8]) -> SerdeValue {
    serde_json::from_slice(doc).unwrap()
}

#[test]
fn all_defaults_empty_log_produces_basic_output() {
    let (doc, calls) = scrape(StreamFormat::JSON, false, false, &[], 0, u64::MAX, 100);
    assert_eq!(0, calls);
    let output = parse_json(&doc);
    assert!(output.is_object());
    assert_eq!("https://log.example/", output["log_url"].as_str().unwrap());
    assert!(output["scrape_begin_timestamp"].is_u64());
    assert!(output["scrape_end_timestamp"].is_u64());
    assert!(
        output["scrape_begin_timestamp"].as_u64() <= output["scrape_end_timestamp"].as_u64()
    );
    let sth = &output["sth"];
    assert_eq!(0, sth["tree_size"].as_u64().unwrap());
    assert_eq!(1234567890, sth["timestamp"].as_u64().unwrap());
    assert!(output.get("entries").is_none());
}

#[test]
fn log_with_one_entry_produces_one_output_entry() {
    let log = vec![precert_log_entry()];
    let (doc, _) = scrape(StreamFormat::JSON, false, false, &log, 0, u64::MAX, 100);
    let output = parse_json(&doc);
    assert_eq!(1, output["sth"]["tree_size"].as_u64().unwrap());
    assert_eq!(1, output["entries"].as_array().unwrap().len());
    assert!(
        output["scrape_begin_timestamp"].as_u64() <= output["scrape_end_timestamp"].as_u64()
    );
}

#[test]
fn all_defaults_precert_log_entry_is_properly_decoded() {
    let log = vec![precert_log_entry()];
    let (doc, _) = scrape(StreamFormat::JSON, false, false, &log, 0, u64::MAX, 100);
    let output = parse_json(&doc);
    let entry = &output["entries"][0];
    assert_eq!(0, entry["entry_number"].as_u64().unwrap());
    assert_eq!(PRECERT_TIMESTAMP, entry["timestamp"].as_u64().unwrap());
    let der = b64_nopad_decode(entry["certificate"].as_str().unwrap());
    let (_, cert) = X509Certificate::from_der(&der).unwrap();
    assert_eq!("C=DE, CN=www.example.com", cert.subject().to_string());
    assert!(entry.get("chain").is_none());
    assert!(entry.get("precert").is_none());
}

#[test]
fn all_defaults_x509_log_entry_is_properly_decoded() {
    let log = vec![x509_log_entry()];
    let (doc, _) = scrape(StreamFormat::JSON, false, false, &log, 0, u64::MAX, 100);
    let output = parse_json(&doc);
    let entry = &output["entries"][0];
    assert_eq!(0, entry["entry_number"].as_u64().unwrap());
    assert_eq!(X509_TIMESTAMP, entry["timestamp"].as_u64().unwrap());
    let der = b64_nopad_decode(entry["certificate"].as_str().unwrap());
    let (_, cert) = X509Certificate::from_der(&der).unwrap();
    assert_eq!("C=DE, CN=www.example.com", cert.subject().to_string());
    assert!(entry.get("chain").is_none());
    assert!(entry.get("precert").is_none());
}

#[test]
fn scrapes_multiple_chunks() {
    let log: Vec<(Vec<u8>, Vec<u8>)> = (0..20).map(|_| precert_log_entry()).collect();
    let (doc, calls) = scrape(StreamFormat::JSON, false, false, &log, 0, u64::MAX, 5);
    assert!(calls >= 4);
    let output = parse_json(&doc);
    assert_eq!(20, output["entries"].as_array().unwrap().len());
}

#[test]
fn limit_and_offset_work_together() {
    let log: Vec<(Vec<u8>, Vec<u8>)> = (0..20).map(|_| x509_log_entry()).collect();
    let (doc, _) = scrape(StreamFormat::JSON, false, false, &log, 5, 10, 100);
    let output = parse_json(&doc);
    let entries = output["entries"].as_array().unwrap();
    assert_eq!(10, entries.len());
    let ids: Vec<u64> = entries.iter().map(|e| e["entry_number"].as_u64().unwrap()).collect();
    assert_eq!((5..15).collect::<Vec<u64>>(), ids);
}

#[test]
fn includes_chains() {
    let log = vec![precert_log_entry()];
    let (doc, _) = scrape(StreamFormat::JSON, true, false, &log, 0, u64::MAX, 100);
    let output = parse_json(&doc);
    let entry = &output["entries"][0];
    let chain = entry["chain"].as_array().unwrap();
    assert_eq!(2, chain.len());
    assert_eq!(b"ISSUER-A".to_vec(), b64_nopad_decode(chain[0].as_str().unwrap()));
    assert_eq!(b"ISSUER-B".to_vec(), b64_nopad_decode(chain[1].as_str().unwrap()));
    assert!(entry.get("precert").is_none());
}

#[test]
fn includes_precert_when_appropriate() {
    let log = vec![precert_log_entry(), x509_log_entry()];
    let (doc, _) = scrape(StreamFormat::JSON, false, true, &log, 0, u64::MAX, 100);
    let output = parse_json(&doc);
    let entries = output["entries"].as_array().unwrap();
    let precert_entry = &entries[0];
    let p = &precert_entry["precert"];
    assert!(p.is_object());
    let ikh = b64_nopad_decode(p["issuer_key_hash"].as_str().unwrap());
    assert_eq!(vec![0xd2u8; 32], ikh);
    assert_eq!(b"TBSCERT".to_vec(), b64_nopad_decode(p["tbs_certificate"].as_str().unwrap()));
    assert!(precert_entry.get("chain").is_none());
    let x509_entry = &entries[1];
    assert!(x509_entry.get("precert").is_none());
}

#[test]
fn a_mismatched_extra_data_is_an_internal_error() {
    let args = Args::new("u".to_string());
    let mut fw = FileWriter::init(args, 1);
    let (leaf, _) = x509_log_entry();
    let raw = scrape_ct_log::responses::RawEntry {
        leaf_input: leaf,
        extra_data: vec![9, 9],
    };
    let r = fw.handle_cast(Request::Entry(0, raw));
    assert!(matches!(r, Err(scrape_ct_log::error::Error::InternalError(_))));
}

#[test]
fn undecodable_entries_are_rejected_by_the_sink() {
    let args = Args::new("u".to_string());
    let mut fw = FileWriter::init(args, 1);
    let raw = scrape_ct_log::responses::RawEntry {
        leaf_input: vec![1, 2, 3],
        extra_data: vec![],
    };
    let r = fw.handle_cast(Request::Entry(0, raw));
    assert!(matches!(r, Err(scrape_ct_log::error::Error::EntryDecodingError(_))));
}

#[test]
fn cbor_format_empty_log_produces_basic_output() {
    let (doc, _) = scrape(StreamFormat::CBOR, false, false, &[], 0, u64::MAX, 100);
    let value: ciborium::Value = ciborium::from_reader(&doc[..]).unwrap();
    let map = value.as_map().unwrap();
    let keys: Vec<&str> = map.iter().map(|(k, _)| k.as_text().unwrap()).collect();
    assert_eq!(
        vec!["log_url", "scrape_begin_timestamp", "sth", "scrape_end_timestamp"],
        keys
    );
    let sth = map[2].1.as_map().unwrap();
    assert_eq!("tree_size", sth[0].0.as_text().unwrap());
    let tree_size: u64 = sth[0].1.as_integer().unwrap().try_into().unwrap();
    assert_eq!(0, tree_size);
}

#[test]
fn cbor_format_precert_log_entry_is_properly_decoded() {
    let log = vec![precert_log_entry()];
    let (doc, _) = scrape(StreamFormat::CBOR, false, false, &log, 0, u64::MAX, 100);
    let value: ciborium::Value = ciborium::from_reader(&doc[..]).unwrap();
    let map = value.as_map().unwrap();
    let entries = map
        .iter()
        .find(|(k, _)| k.as_text() == Some("entries"))
        .unwrap()
        .1
        .as_array()
        .unwrap();
    assert_eq!(1, entries.len());
    let entry = entries[0].as_map().unwrap();
    assert_eq!("entry_number", entry[0].0.as_text().unwrap());
    let ts: u64 = entry[1].1.as_integer().unwrap().try_into().unwrap();
    assert_eq!(PRECERT_TIMESTAMP, ts);
    let cert = entry[2].1.as_bytes().unwrap();
    assert_eq!(&TEST_CERT_DER[..], &cert[..]);
}

#[test]
fn cbor_format_x509_log_entry_is_properly_decoded() {
    let log = vec![x509_log_entry()];
    let (doc, _) = scrape(StreamFormat::CBOR, false, false, &log, 0, u64::MAX, 100);
    let value: ciborium::Value = ciborium::from_reader(&doc[..]).unwrap();
    let map = value.as_map().unwrap();
    let entries = map
        .iter()
        .find(|(k, _)| k.as_text() == Some("entries"))
        .unwrap()
        .1
        .as_array()
        .unwrap();
    let entry = entries[0].as_map().unwrap();
    let ts: u64 = entry[1].1.as_integer().unwrap().try_into().unwrap();
    assert_eq!(X509_TIMESTAMP, ts);
    let cert = entry[2].1.as_bytes().unwrap();
    assert_eq!(&TEST_CERT_DER[..], &cert[..]);
}
