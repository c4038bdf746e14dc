//! The sink: turns scrape results into one self-describing document.
//!
//! A [`FileWriter`] opens the top-level map with the log's URL and the
//! scrape's begin timestamp, writes the Signed Tree Head when it
//! arrives, decodes and writes each entry as it arrives — opening the
//! `entries` sequence lazily on the first one — and on termination
//! closes everything and stamps the end timestamp.  The ghost model of
//! what has been written lets the final document be stated in closed
//! form: [`FileWriter::terminate`] guarantees that the bytes produced
//! are exactly [`document`] of the inputs, whose definition shows the
//! required keys in order and shows that the `entries` key is present
//! exactly when at least one entry was written.

use vstd::prelude::*;
use crate::error::Error;
use crate::leaf::{
    decode_entry,
    parse_extra_precert,
    parse_extra_x509,
    parse_leaf,
    spec_parse_extra_precert,
    spec_parse_extra_x509,
    spec_parse_leaf,
    DecodedEntry,
    EntryModel,
    PrecertData,
    SignedKind,
    SignedModel,
    ExtraKind,
};
use crate::processor::Request;
use crate::responses::SthModel;
use crate::serializer::{
    base64_encodable,
    bytes_bytes,
    key_bytes,
    map_close_bytes,
    map_open_bytes,
    sep_bytes,
    seq_close_bytes,
    seq_open_bytes,
    string_bytes,
    uint_bytes,
    StreamFormat,
    StreamingMap,
    StreamingSeq,
    StreamingSerializer,
};

verus! {

/// The sink's construction arguments.
#[derive(Clone, Debug)]
pub struct Args {
    format: StreamFormat,
    include_chains: bool,
    include_precert_data: bool,
    log_url: String,
}

impl Args {
    /// The chosen output format.
    pub closed spec fn spec_format(self) -> StreamFormat {
        self.format
    }

    /// Whether each entry's chain is written.
    pub closed spec fn spec_include_chains(self) -> bool {
        self.include_chains
    }

    /// Whether precert data is written for precert entries.
    pub closed spec fn spec_include_precert_data(self) -> bool {
        self.include_precert_data
    }

    /// The log URL written into the document.
    pub closed spec fn spec_log_url(self) -> Seq<char> {
        self.log_url@
    }

    /// Arguments with defaults: JSON, no chains, no precert data.
    pub fn new(log_url: String) -> (r: Args)
        ensures
            r.spec_format() == StreamFormat::JSON,
            !r.spec_include_chains(),
            !r.spec_include_precert_data(),
            r.spec_log_url() == log_url@,
    {
        Args { format: StreamFormat::JSON, include_chains: false, include_precert_data: false, log_url }
    }

    /// Chooses the output format.
    pub fn format(self, format: StreamFormat) -> (r: Args)
        ensures
            r.spec_format() == format,
            r.spec_include_chains() == self.spec_include_chains(),
            r.spec_include_precert_data() == self.spec_include_precert_data(),
            r.spec_log_url() == self.spec_log_url(),
    {
        Args { format, ..self }
    }

    /// Chooses whether chains are written.
    pub fn include_chains(self, include_chains: bool) -> (r: Args)
        ensures
            r.spec_format() == self.spec_format(),
            r.spec_include_chains() == include_chains,
            r.spec_include_precert_data() == self.spec_include_precert_data(),
            r.spec_log_url() == self.spec_log_url(),
    {
        Args { include_chains, ..self }
    }

    /// Chooses whether precert data is written.
    pub fn include_precert_data(self, include_precert_data: bool) -> (r: Args)
        ensures
            r.spec_format() == self.spec_format(),
            r.spec_include_chains() == self.spec_include_chains(),
            r.spec_include_precert_data() == include_precert_data,
            r.spec_log_url() == self.spec_log_url(),
    {
        Args { include_precert_data, ..self }
    }
}

/// The opening of the document: the top-level map, the log URL and the
/// begin timestamp.
pub open spec fn doc_open(f: StreamFormat, log_url: Seq<char>, begin: u64) -> Seq<u8> {
    map_open_bytes(f) + key_bytes(f, false, "log_url"@) + string_bytes(f, log_url) + key_bytes(
        f,
        true,
        "scrape_begin_timestamp"@,
    ) + uint_bytes(f, begin)
}

/// The `sth` sub-map: tree size, timestamp, root hash, signature.
pub open spec fn sth_section(f: StreamFormat, s: SthModel) -> Seq<u8> {
    key_bytes(f, true, "sth"@) + map_open_bytes(f) + key_bytes(f, false, "tree_size"@)
        + uint_bytes(f, s.tree_size) + key_bytes(f, true, "timestamp"@) + uint_bytes(
        f,
        s.timestamp,
    ) + key_bytes(f, true, "sha256_root_hash"@) + bytes_bytes(f, s.sha256_root_hash) + key_bytes(
        f,
        true,
        "tree_head_signature"@,
    ) + bytes_bytes(f, s.tree_head_signature) + map_close_bytes(f)
}

/// The elements of a byte-string sequence, separators included.
pub open spec fn chain_elems(f: StreamFormat, chain: Seq<Seq<u8>>) -> Seq<u8>
    decreases chain.len(),
{
    if chain.len() == 0 {
        Seq::empty()
    } else {
        chain_elems(f, chain.drop_last()) + sep_bytes(f, chain.len() > 1) + bytes_bytes(
            f,
            chain.last(),
        )
    }
}

/// The `chain` key and its sequence of certificates.
pub open spec fn chain_section(f: StreamFormat, chain: Seq<Seq<u8>>) -> Seq<u8> {
    key_bytes(f, true, "chain"@) + seq_open_bytes(f) + chain_elems(f, chain) + seq_close_bytes(f)
}

/// The `precert` key and its sub-map.
pub open spec fn precert_section(f: StreamFormat, ikh: Seq<u8>, tbs: Seq<u8>) -> Seq<u8> {
    key_bytes(f, true, "precert"@) + map_open_bytes(f) + key_bytes(f, false, "issuer_key_hash"@)
        + bytes_bytes(f, ikh) + key_bytes(f, true, "tbs_certificate"@) + bytes_bytes(f, tbs)
        + map_close_bytes(f)
}

/// The scalar fields every entry map opens with: its number, its
/// timestamp, its certificate.
#[verifier::opaque]
pub open spec fn entry_scalar_bytes(f: StreamFormat, e: EntryModel) -> Seq<u8> {
    map_open_bytes(f) + key_bytes(f, false, "entry_number"@) + uint_bytes(f, e.entry_number)
        + key_bytes(f, true, "timestamp"@) + uint_bytes(f, e.timestamp) + key_bytes(
        f,
        true,
        "certificate"@,
    ) + bytes_bytes(f, e.certificate)
}

/// One entry map.  The `chain` key is present exactly when chains are
/// asked for; the `precert` key exactly when precert data is asked for
/// and the entry is a precertificate.
pub open spec fn entry_bytes(f: StreamFormat, e: EntryModel, ic: bool, ip: bool) -> Seq<u8> {
    entry_scalar_bytes(f, e) + (if ic {
        chain_section(f, e.chain)
    } else {
        Seq::<u8>::empty()
    }) + (match e.precert {
        Some(p) => if ip {
            precert_section(f, p.0, p.1)
        } else {
            Seq::<u8>::empty()
        },
        None => Seq::<u8>::empty(),
    }) + map_close_bytes(f)
}

/// The elements of the `entries` sequence, separators included.
pub open spec fn entries_elems(f: StreamFormat, es: Seq<EntryModel>, ic: bool, ip: bool) -> Seq<
    u8,
>
    decreases es.len(),
{
    if es.len() == 0 {
        Seq::empty()
    } else {
        entries_elems(f, es.drop_last(), ic, ip) + sep_bytes(f, es.len() > 1) + entry_bytes(
            f,
            es.last(),
            ic,
            ip,
        )
    }
}

/// The `entries` key and the open sequence holding the entries written
/// so far — empty bytes when no entry has been written, so the key is
/// present exactly when at least one entry was.
pub open spec fn entries_partial(f: StreamFormat, es: Seq<EntryModel>, ic: bool, ip: bool) -> Seq<
    u8,
> {
    if es.len() == 0 {
        Seq::empty()
    } else {
        key_bytes(f, true, "entries"@) + seq_open_bytes(f) + entries_elems(f, es, ic, ip)
    }
}

/// The part of the document written before termination.
pub open spec fn doc_partial(
    f: StreamFormat,
    log_url: Seq<char>,
    begin: u64,
    sth: Option<SthModel>,
    es: Seq<EntryModel>,
    ic: bool,
    ip: bool,
) -> Seq<u8> {
    doc_open(f, log_url, begin) + (match sth {
        Some(s) => sth_section(f, s),
        None => Seq::<u8>::empty(),
    }) + entries_partial(f, es, ic, ip)
}

/// The complete output document.  The top-level map holds, in order:
/// `log_url`, `scrape_begin_timestamp`, the `sth` sub-map if metadata
/// arrived, the `entries` sequence if and only if at least one entry was
/// written, and `scrape_end_timestamp`.
pub open spec fn document(
    f: StreamFormat,
    log_url: Seq<char>,
    begin: u64,
    sth: Option<SthModel>,
    es: Seq<EntryModel>,
    ic: bool,
    ip: bool,
    end: u64,
) -> Seq<u8> {
    doc_partial(f, log_url, begin, sth, es, ic, ip) + (if es.len() > 0 {
        seq_close_bytes(f)
    } else {
        Seq::<u8>::empty()
    }) + key_bytes(f, true, "scrape_end_timestamp"@) + uint_bytes(f, end) + map_close_bytes(f)
}

/// Decoding one raw entry, end to end: the leaf must parse as a
/// timestamped entry, the extra data must parse in the shape the leaf's
/// entry type demands, and the canonical fields come out as
/// [`decode_entry`] combines them.
pub open spec fn spec_decode_entry(id: u64, leaf: Seq<u8>, extra: Seq<u8>) -> Option<EntryModel> {
    match spec_parse_leaf(leaf) {
        Some(lm) => match lm.signed {
            SignedModel::X509 { certificate } => match spec_parse_extra_x509(extra) {
                Some(chain) => Some(
                    EntryModel {
                        entry_number: id,
                        timestamp: lm.timestamp,
                        certificate,
                        chain,
                        precert: None,
                    },
                ),
                None => None,
            },
            SignedModel::Precert { issuer_key_hash, tbs_certificate } => match
                spec_parse_extra_precert(extra) {
                Some(pc) => Some(
                    EntryModel {
                        entry_number: id,
                        timestamp: lm.timestamp,
                        certificate: pc.0,
                        chain: pc.1,
                        precert: Some((issuer_key_hash, tbs_certificate)),
                    },
                ),
                None => None,
            },
        },
        None => None,
    }
}

/// The sink.
pub struct FileWriter {
    ser: StreamingSerializer,
    map: StreamingMap,
    entries: Option<StreamingSeq>,
    include_chains: bool,
    include_precert_data: bool,
    log_url: Ghost<Seq<char>>,
    begin: Ghost<u64>,
    sth: Ghost<Option<SthModel>>,
    written: Ghost<Seq<EntryModel>>,
}

impl FileWriter {
    /// The output format.
    pub closed spec fn fmt(self) -> StreamFormat {
        self.ser.stream_format()
    }

    /// Whether chains are written.
    pub closed spec fn include_chains(self) -> bool {
        self.include_chains
    }

    /// Whether precert data is written.
    pub closed spec fn include_precert_data(self) -> bool {
        self.include_precert_data
    }

    /// The log URL the document was opened with.
    pub closed spec fn log_url(self) -> Seq<char> {
        self.log_url@
    }

    /// The begin timestamp the document was opened with.
    pub closed spec fn begin(self) -> u64 {
        self.begin@
    }

    /// The metadata written, if it has arrived.
    pub closed spec fn sth(self) -> Option<SthModel> {
        self.sth@
    }

    /// The entries written so far, in arrival order.
    pub closed spec fn entries(self) -> Seq<EntryModel> {
        self.written@
    }

    /// Every byte produced so far.
    pub closed spec fn log(self) -> Seq<u8> {
        self.ser.log()
    }

    /// The bytes produced and not yet drained.
    pub closed spec fn pending(self) -> Seq<u8> {
        self.ser.pending()
    }

    /// The bytes produced so far are exactly the partial document of the
    /// model, and the container handles agree with it.
    pub open spec fn wf(self) -> bool {
        &&& self.log() == doc_partial(
            self.fmt(),
            self.log_url(),
            self.begin(),
            self.sth(),
            self.entries(),
            self.include_chains(),
            self.include_precert_data(),
        )
        &&& self.map_written()
        &&& self.entries_handle_ok()
    }

    /// The top-level map has its first element written.
    pub closed spec fn map_written(self) -> bool {
        self.map.element_written()
    }

    /// The `entries` handle exists exactly when an entry was written,
    /// and then knows it holds an element.
    pub closed spec fn entries_handle_ok(self) -> bool {
        &&& (self.entries is Some <==> self.written@.len() > 0)
        &&& (self.entries matches Some(h) ==> h.element_written())
    }

    /// Opens the document: the top-level map, `log_url`, and
    /// `scrape_begin_timestamp`.
    pub fn init(args: Args, begin_timestamp: u64) -> (r: FileWriter)
        ensures
            r.wf(),
            r.fmt() == args.spec_format(),
            r.include_chains() == args.spec_include_chains(),
            r.include_precert_data() == args.spec_include_precert_data(),
            r.log_url() == args.spec_log_url(),
            r.begin() == begin_timestamp,
            r.sth() is None,
            r.entries() == Seq::<EntryModel>::empty(),
    {
        let mut ser = StreamingSerializer::new(args.format);
        let mut map = ser.map();
        map.key(&mut ser, "log_url");
        map.string(&mut ser, args.log_url.as_str());
        map.key(&mut ser, "scrape_begin_timestamp");
        map.uint(&mut ser, begin_timestamp);
        let r = FileWriter {
            ser,
            map,
            entries: None,
            include_chains: args.include_chains,
            include_precert_data: args.include_precert_data,
            log_url: Ghost(args.log_url@),
            begin: Ghost(begin_timestamp),
            sth: Ghost(None),
            written: Ghost(Seq::empty()),
        };
        proof {
            assert(r.log() =~= doc_partial(
                r.fmt(),
                r.log_url(),
                r.begin(),
                r.sth(),
                r.entries(),
                r.include_chains(),
                r.include_precert_data(),
            ));
        }
        r
    }

    /// Drains the bytes produced since the last drain, so the caller can
    /// forward them to its output without the document ever being held
    /// whole.
    pub fn take_output(&mut self) -> (r: Vec<u8>)
        ensures
            final(self).wf() == old(self).wf(),
            final(self).log() == old(self).log(),
            final(self).pending() == Seq::<u8>::empty(),
            r@ == old(self).pending(),
            final(self).fmt() == old(self).fmt(),
            final(self).include_chains() == old(self).include_chains(),
            final(self).include_precert_data() == old(self).include_precert_data(),
            final(self).log_url() == old(self).log_url(),
            final(self).begin() == old(self).begin(),
            final(self).sth() == old(self).sth(),
            final(self).entries() == old(self).entries(),
    {
        self.ser.take_output()
    }

    /// Writes the `sth` sub-map.
    #[verifier::rlimit(60)]
    fn write_sth(&mut self, sth: &crate::responses::Sth)
        requires
            base64_encodable(sth.sha256_root_hash@),
            base64_encodable(sth.tree_head_signature@),
            old(self).map_written(),
        ensures
            final(self).log() == old(self).log() + sth_section(old(self).fmt(), sth@),
            final(self).fmt() == old(self).fmt(),
            final(self).map_written(),
            unchanged_but_log(*old(self), *final(self)),
    {
        self.map.key(&mut self.ser, "sth");
        let mut sth_map = self.map.map(&mut self.ser);
        sth_map.key(&mut self.ser, "tree_size");
        sth_map.uint(&mut self.ser, sth.tree_size);
        sth_map.key(&mut self.ser, "timestamp");
        sth_map.uint(&mut self.ser, sth.timestamp);
        sth_map.key(&mut self.ser, "sha256_root_hash");
        sth_map.bytes(&mut self.ser, sth.sha256_root_hash.as_slice());
        sth_map.key(&mut self.ser, "tree_head_signature");
        sth_map.bytes(&mut self.ser, sth.tree_head_signature.as_slice());
        sth_map.end(&mut self.ser);
        proof {
            assert(self.log() =~= old(self).log() + sth_section(old(self).fmt(), sth@));
        }
    }

    /// Writes the `chain` key and the chain's certificates.
    #[verifier::rlimit(60)]
    fn write_chain(ser: &mut StreamingSerializer, emap: &mut StreamingMap, chain: &Vec<Vec<u8>>)
        requires
            old(emap).element_written(),
            forall|j: int|
                0 <= j < chain.deep_view().len() ==> base64_encodable(
                    #[trigger] chain.deep_view()[j],
                ),
        ensures
            final(ser).stream_format() == old(ser).stream_format(),
            final(ser).log() == old(ser).log() + chain_section(
                old(ser).stream_format(),
                chain.deep_view(),
            ),
            final(emap).element_written(),
    {
        let ghost fmt = ser.stream_format();
        emap.key(ser, "chain");
        let mut chain_seq = emap.seq(ser);
        let ghost log2 = ser.log();
        let mut k: usize = 0;
        proof {
            assert(chain_elems(fmt, chain.deep_view().take(0)) =~= Seq::<u8>::empty());
            assert(ser.log() =~= log2 + chain_elems(fmt, chain.deep_view().take(0)));
        }
        while k < chain.len()
            invariant
                k <= chain@.len(),
                forall|j: int|
                    0 <= j < chain.deep_view().len() ==> base64_encodable(
                        #[trigger] chain.deep_view()[j],
                    ),
                ser.stream_format() == fmt,
                ser.log() == log2 + chain_elems(fmt, chain.deep_view().take(k as int)),
                chain_seq.element_written() == (k > 0),
            decreases chain@.len() - k,
        {
            proof {
                assert(chain[k as int]@ == chain.deep_view()[k as int]);
            }
            chain_seq.bytes(ser, chain[k].as_slice());
            proof {
                let cdv = chain.deep_view();
                assert(cdv.take(k + 1 as int).drop_last() =~= cdv.take(k as int));
                assert(cdv.take(k + 1 as int).last() == cdv[k as int]);
                assert(ser.log() =~= log2 + chain_elems(fmt, cdv.take(k + 1 as int)));
            }
            k = k + 1;
        }
        chain_seq.end(ser);
        proof {
            assert(chain.deep_view().take(chain@.len() as int) =~= chain.deep_view());
            assert(ser.log() =~= old(ser).log() + chain_section(fmt, chain.deep_view()));
        }
    }

    /// Writes the `precert` key and its sub-map.
    #[verifier::rlimit(60)]
    fn write_precert(ser: &mut StreamingSerializer, emap: &mut StreamingMap, p: &PrecertData)
        requires
            old(emap).element_written(),
            base64_encodable(p.issuer_key_hash@),
            base64_encodable(p.tbs_certificate@),
        ensures
            final(ser).stream_format() == old(ser).stream_format(),
            final(ser).log() == old(ser).log() + precert_section(
                old(ser).stream_format(),
                p.issuer_key_hash@,
                p.tbs_certificate@,
            ),
            final(emap).element_written(),
    {
        emap.key(ser, "precert");
        let mut pmap = emap.map(ser);
        pmap.key(ser, "issuer_key_hash");
        pmap.bytes(ser, p.issuer_key_hash.as_slice());
        pmap.key(ser, "tbs_certificate");
        pmap.bytes(ser, p.tbs_certificate.as_slice());
        pmap.end(ser);
        proof {
            assert(ser.log() =~= old(ser).log() + precert_section(
                old(ser).stream_format(),
                p.issuer_key_hash@,
                p.tbs_certificate@,
            ));
        }
    }

    /// Writes one decoded entry into the `entries` sequence, opening it
    /// on the first.
    #[verifier::rlimit(100)]
    fn write_entry(&mut self, e: &DecodedEntry)
        requires
            base64_encodable(e.certificate@),
            forall|k: int|
                0 <= k < e.chain.deep_view().len() ==> base64_encodable(
                    #[trigger] e.chain.deep_view()[k],
                ),
            e.precert matches Some(p) ==> base64_encodable(p.issuer_key_hash@)
                && base64_encodable(p.tbs_certificate@),
            old(self).map_written(),
            old(self).entries_handle_ok(),
        ensures
            final(self).log() == old(self).log() + (if old(self).entries().len() == 0 {
                key_bytes(old(self).fmt(), true, "entries"@) + seq_open_bytes(old(self).fmt())
            } else {
                Seq::<u8>::empty()
            }) + sep_bytes(old(self).fmt(), old(self).entries().len() > 0) + entry_bytes(
                old(self).fmt(),
                e@,
                old(self).include_chains(),
                old(self).include_precert_data(),
            ),
            final(self).fmt() == old(self).fmt(),
            final(self).map_written(),
            unchanged_model(*old(self), *final(self)),
            final(self).entries() == old(self).entries().push(e@),
            final(self).entries_handle_ok(),
    {
        let ghost fmt = self.fmt();
        let ghost log0 = self.ser.log();
        let ghost open_part: Seq<u8> = if old(self).entries().len() == 0 {
            key_bytes(fmt, true, "entries"@) + seq_open_bytes(fmt)
        } else {
            Seq::<u8>::empty()
        };
        if self.entries.is_none() {
            self.map.key(&mut self.ser, "entries");
            let es = self.map.seq(&mut self.ser);
            self.entries = Some(es);
        }
        proof {
            assert(self.ser.log() =~= log0 + open_part);
        }
        let ghost log_a = self.ser.log();
        let ghost sep = sep_bytes(fmt, old(self).entries().len() > 0);
        match &mut self.entries {
            Some(handle) => {
                let mut emap = handle.map(&mut self.ser);
                proof {
                    assert(self.ser.log() =~= log_a + sep + map_open_bytes(fmt));
                }
                emap.key(&mut self.ser, "entry_number");
                emap.uint(&mut self.ser, e.entry_number);
                emap.key(&mut self.ser, "timestamp");
                emap.uint(&mut self.ser, e.timestamp);
                emap.key(&mut self.ser, "certificate");
                emap.bytes(&mut self.ser, e.certificate.as_slice());
                proof {
                    assert(self.ser.log() =~= log_a + sep + entry_scalar_bytes(fmt, e@)) by {
                        reveal(entry_scalar_bytes);
                    }
                }
                let ghost log1 = self.ser.log();
                if self.include_chains {
                    FileWriter::write_chain(&mut self.ser, &mut emap, &e.chain);
                }
                proof {
                    assert(self.ser.log() =~= log1 + (if old(self).include_chains() {
                        chain_section(fmt, e@.chain)
                    } else {
                        Seq::<u8>::empty()
                    }));
                }
                let ghost log3 = self.ser.log();
                if self.include_precert_data {
                    match &e.precert {
                        Some(p) => {
                            FileWriter::write_precert(&mut self.ser, &mut emap, p);
                            proof {
                                assert(e@.precert matches Some(pm) && pm.0 == p.issuer_key_hash@
                                    && pm.1 == p.tbs_certificate@);
                            }
                        },
                        None => {},
                    }
                }
                proof {
                    assert(self.ser.log() =~= log3 + (match e@.precert {
                        Some(pm) => if old(self).include_precert_data() {
                            precert_section(fmt, pm.0, pm.1)
                        } else {
                            Seq::<u8>::empty()
                        },
                        None => Seq::<u8>::empty(),
                    }));
                }
                emap.end(&mut self.ser);
                proof {
                    assert(self.ser.log() =~= log_a + sep + entry_bytes(
                        fmt,
                        e@,
                        old(self).include_chains(),
                        old(self).include_precert_data(),
                    ));
                }
            },
            None => {
                proof {
                    assert(false);
                }
            },
        }
        proof {
            self.written@ = self.written@.push(e@);
            assert(self.log() =~= old(self).log() + open_part + sep + entry_bytes(
                fmt,
                e@,
                old(self).include_chains(),
                old(self).include_precert_data(),
            ));
        }
    }

    /// Handles one request: metadata opens the `sth` sub-map; an entry
    /// is decoded and written.  A leaf that is not a well-formed
    /// timestamped entry is an `EntryDecodingError`; extra data that
    /// does not parse in the shape the leaf's entry type demands is the
    /// incompatible-combination case, an `InternalError`.  Either way
    /// nothing is written for the entry.
    #[verifier::rlimit(100)]
    pub fn handle_cast(&mut self, request: Request) -> (r: Result<(), Error>)
        requires
            old(self).wf(),
            request matches Request::Metadata(s) ==> old(self).sth() is None && old(
                self,
            ).entries().len() == 0 && base64_encodable(s.sha256_root_hash@) && base64_encodable(
                s.tree_head_signature@,
            ),
        ensures
            final(self).wf(),
            final(self).fmt() == old(self).fmt(),
            final(self).include_chains() == old(self).include_chains(),
            final(self).include_precert_data() == old(self).include_precert_data(),
            final(self).log_url() == old(self).log_url(),
            final(self).begin() == old(self).begin(),
            request matches Request::Metadata(s) ==> r is Ok && final(self).sth() == Some(s@)
                && final(self).entries() == old(self).entries(),
            request matches Request::Entry(id, raw) ==> final(self).sth() == old(self).sth()
                && match spec_decode_entry(id, raw.leaf_input@, raw.extra_data@) {
                    Some(em) => r is Ok && final(self).entries() == old(self).entries().push(em),
                    None => r is Err && final(self).entries() == old(self).entries() && (
                    r matches Err(e) ==> if spec_parse_leaf(raw.leaf_input@) is None {
                        e matches Error::EntryDecodingError(_)
                    } else {
                        e matches Error::InternalError(_)
                    }),
                },
    {
        match request {
            Request::Metadata(sth) => {
                self.write_sth(&sth);
                proof {
                    self.sth@ = Some(sth@);
                    assert(old(self).entries() =~= Seq::<EntryModel>::empty());
                    lemma_partial_after_sth(
                        self.fmt(),
                        self.log_url(),
                        self.begin(),
                        sth@,
                        self.include_chains(),
                        self.include_precert_data(),
                    );
                }
                Ok(())
            },
            Request::Entry(id, raw) => {
                let leaf = match parse_leaf(raw.leaf_input.as_slice()) {
                    Ok(l) => l,
                    Err(e) => {
                        return Err(e);
                    },
                };
                let entry: DecodedEntry = match leaf.signed {
                    SignedKind::X509 { certificate } => {
                        let chain = match parse_extra_x509(raw.extra_data.as_slice()) {
                            Ok(c) => c,
                            Err(_) => {
                                return Err(
                                    Error::internal(
                                        "incompatible combination of signed_entry and extra_data",
                                    ),
                                );
                            },
                        };
                        let d = match decode_entry(
                            id,
                            crate::leaf::DecodedLeaf {
                                timestamp: leaf.timestamp,
                                signed: SignedKind::X509 { certificate },
                            },
                            ExtraKind::X509 { certificate_chain: chain },
                        ) {
                            Ok(d) => d,
                            Err(e) => {
                                return Err(e);
                            },
                        };
                        d
                    },
                    SignedKind::Precert { issuer_key_hash, tbs_certificate } => {
                        let pc = match parse_extra_precert(raw.extra_data.as_slice()) {
                            Ok(c) => c,
                            Err(_) => {
                                return Err(
                                    Error::internal(
                                        "incompatible combination of signed_entry and extra_data",
                                    ),
                                );
                            },
                        };
                        let d = match decode_entry(
                            id,
                            crate::leaf::DecodedLeaf {
                                timestamp: leaf.timestamp,
                                signed: SignedKind::Precert { issuer_key_hash, tbs_certificate },
                            },
                            ExtraKind::Precert {
                                pre_certificate: pc.0,
                                precertificate_chain: pc.1,
                            },
                        ) {
                            Ok(d) => d,
                            Err(e) => {
                                return Err(e);
                            },
                        };
                        d
                    },
                };
                self.write_entry(&entry);
                proof {
                    lemma_partial_after_entry(
                        self.fmt(),
                        self.log_url(),
                        self.begin(),
                        self.sth(),
                        old(self).entries(),
                        entry@,
                        self.include_chains(),
                        self.include_precert_data(),
                    );
                }
                Ok(())
            },
        }
    }

    /// Closes the document: the `entries` sequence if one is open, the
    /// end timestamp, the top-level map.  The bytes produced over the
    /// writer's whole life are then exactly the closed-form document of
    /// everything it was given.
    #[verifier::rlimit(100)]
    pub fn terminate(&mut self, end_timestamp: u64)
        requires
            old(self).wf(),
        ensures
            final(self).log() == document(
                old(self).fmt(),
                old(self).log_url(),
                old(self).begin(),
                old(self).sth(),
                old(self).entries(),
                old(self).include_chains(),
                old(self).include_precert_data(),
                end_timestamp,
            ),
    {
        let ghost fmt = self.fmt();
        let ghost log0 = self.ser.log();
        match &self.entries {
            Some(h) => {
                h.end(&mut self.ser);
            },
            None => {},
        }
        proof {
            assert(self.ser.log() =~= log0 + (if old(self).entries().len() > 0 {
                seq_close_bytes(fmt)
            } else {
                Seq::<u8>::empty()
            }));
        }
        let ghost log1 = self.ser.log();
        self.map.key(&mut self.ser, "scrape_end_timestamp");
        self.map.uint(&mut self.ser, end_timestamp);
        self.map.end(&mut self.ser);
        proof {
            assert(self.ser.log() =~= log1 + key_bytes(fmt, true, "scrape_end_timestamp"@)
                + uint_bytes(fmt, end_timestamp) + map_close_bytes(fmt));
            assert(self.log() =~= document(
                old(self).fmt(),
                old(self).log_url(),
                old(self).begin(),
                old(self).sth(),
                old(self).entries(),
                old(self).include_chains(),
                old(self).include_precert_data(),
                end_timestamp,
            ));
        }
    }
}

/// Writing the `sth` section into a document that has neither metadata
/// nor entries yet yields the partial document with the metadata.
proof fn lemma_partial_after_sth(
    f: StreamFormat,
    url: Seq<char>,
    begin: u64,
    s: SthModel,
    ic: bool,
    ip: bool,
)
    ensures
        doc_partial(f, url, begin, None, Seq::<EntryModel>::empty(), ic, ip) + sth_section(f, s)
            == doc_partial(f, url, begin, Some(s), Seq::<EntryModel>::empty(), ic, ip),
{
    assert(doc_partial(f, url, begin, None, Seq::<EntryModel>::empty(), ic, ip) + sth_section(
        f,
        s,
    ) =~= doc_partial(f, url, begin, Some(s), Seq::<EntryModel>::empty(), ic, ip));
}

/// Writing one more entry extends the partial document by the opener of
/// the `entries` sequence (on the first entry), the separator (on later
/// ones) and the entry's bytes.
proof fn lemma_partial_after_entry(
    f: StreamFormat,
    url: Seq<char>,
    begin: u64,
    sth: Option<SthModel>,
    es: Seq<EntryModel>,
    e: EntryModel,
    ic: bool,
    ip: bool,
)
    ensures
        doc_partial(f, url, begin, sth, es, ic, ip) + (if es.len() == 0 {
            key_bytes(f, true, "entries"@) + seq_open_bytes(f)
        } else {
            Seq::<u8>::empty()
        }) + sep_bytes(f, es.len() > 0) + entry_bytes(f, e, ic, ip) == doc_partial(
            f,
            url,
            begin,
            sth,
            es.push(e),
            ic,
            ip,
        ),
{
    lemma_entries_partial_push(f, es, e, ic, ip);
    assert(doc_partial(f, url, begin, sth, es, ic, ip) + (if es.len() == 0 {
        key_bytes(f, true, "entries"@) + seq_open_bytes(f)
    } else {
        Seq::<u8>::empty()
    }) + sep_bytes(f, es.len() > 0) + entry_bytes(f, e, ic, ip) =~= doc_partial(
        f,
        url,
        begin,
        sth,
        es.push(e),
        ic,
        ip,
    ));
}

/// Relies on `SystemTime::now` and `duration_since`: the wall clock as
/// milliseconds since the Unix epoch, or the error's message when the
/// clock stands before the epoch.
#[verifier::external_body]
fn now_millis() -> (r: Result<u64, String>) {
    match std::time::SystemTime::now().duration_since(std::time::UNIX_EPOCH) {
        Ok(d) => Ok(d.as_millis() as u64),
        Err(e) => Err(e.to_string()),
    }
}

/// The wall clock in milliseconds, as the document's timestamps use it.
/// A clock standing before the epoch is a `SystemError`.
pub fn current_time() -> (r: Result<u64, Error>)
    ensures
        r matches Err(e) ==> e matches Error::SystemError(_, _),
{
    match now_millis() {
        Ok(t) => Ok(t),
        Err(msg) => Err(Error::system("we went back in time somehow", msg)),
    }
}

/// The `entries` section stands in the document if and only if at least
/// one entry was written: with none, its bytes are empty; with any, the
/// `entries` key is there to open it.
pub proof fn lemma_entries_present_iff(f: StreamFormat, es: Seq<EntryModel>, ic: bool, ip: bool)
    ensures
        entries_partial(f, es, ic, ip).len() == 0 <==> es.len() == 0,
{
    if es.len() > 0 {
        assert(key_bytes(f, true, "entries"@).len() >= 1) by {
            match f {
                StreamFormat::JSON => {},
                StreamFormat::CBOR => {},
            }
        }
    }
}

/// For a precertificate entry, the entry's bytes are its scalar fields,
/// then the chain section exactly when chains are asked for, then the
/// precert section exactly when precert data is asked for.
pub proof fn lemma_entry_sections_precert(
    f: StreamFormat,
    e: EntryModel,
    ic: bool,
    ip: bool,
    ikh: Seq<u8>,
    tbs: Seq<u8>,
)
    requires
        e.precert == Some((ikh, tbs)),
    ensures
        entry_bytes(f, e, ic, ip) == entry_scalar_bytes(f, e) + (if ic {
            chain_section(f, e.chain)
        } else {
            Seq::<u8>::empty()
        }) + (if ip {
            precert_section(f, ikh, tbs)
        } else {
            Seq::<u8>::empty()
        }) + map_close_bytes(f),
{
}

/// For an ordinary certificate entry, the entry's bytes never hold a
/// precert section, whether or not precert data was asked for; the
/// chain section appears exactly when chains are asked for.
pub proof fn lemma_entry_sections_x509(f: StreamFormat, e: EntryModel, ic: bool, ip: bool)
    requires
        e.precert is None,
    ensures
        entry_bytes(f, e, ic, ip) == entry_scalar_bytes(f, e) + (if ic {
            chain_section(f, e.chain)
        } else {
            Seq::<u8>::empty()
        }) + map_close_bytes(f),
{
    assert(entry_bytes(f, e, ic, ip) =~= entry_scalar_bytes(f, e) + (if ic {
        chain_section(f, e.chain)
    } else {
        Seq::<u8>::empty()
    }) + map_close_bytes(f));
}

/// Everything but the byte log and the ghost model is unchanged.
pub open spec fn unchanged_but_log(a: FileWriter, b: FileWriter) -> bool {
    &&& b.include_chains() == a.include_chains()
    &&& b.include_precert_data() == a.include_precert_data()
    &&& b.log_url() == a.log_url()
    &&& b.begin() == a.begin()
    &&& b.sth() == a.sth()
    &&& b.entries() == a.entries()
    &&& b.entries_handle_ok() == a.entries_handle_ok()
}

/// The writer's model fields other than the entries are unchanged.
pub open spec fn unchanged_model(a: FileWriter, b: FileWriter) -> bool {
    &&& b.include_chains() == a.include_chains()
    &&& b.include_precert_data() == a.include_precert_data()
    &&& b.log_url() == a.log_url()
    &&& b.begin() == a.begin()
    &&& b.sth() == a.sth()
}

/// Appending one entry extends the partial entries section by the
/// separator (when one is due) and the entry's own bytes.
proof fn lemma_entries_partial_push(
    f: StreamFormat,
    es: Seq<EntryModel>,
    e: EntryModel,
    ic: bool,
    ip: bool,
)
    ensures
        entries_partial(f, es.push(e), ic, ip) == entries_partial(f, es, ic, ip) + (if es.len()
            == 0 {
            key_bytes(f, true, "entries"@) + seq_open_bytes(f)
        } else {
            Seq::<u8>::empty()
        }) + sep_bytes(f, es.len() > 0) + entry_bytes(f, e, ic, ip),
{
    let es2 = es.push(e);
    assert(es2.drop_last() =~= es);
    assert(es2.last() == e);
    if es.len() == 0 {
        assert(entries_elems(f, es, ic, ip) == Seq::<u8>::empty());
        assert(entries_partial(f, es2, ic, ip) =~= entries_partial(f, es, ic, ip) + (key_bytes(
            f,
            true,
            "entries"@,
        ) + seq_open_bytes(f)) + sep_bytes(f, false) + entry_bytes(f, e, ic, ip));
    } else {
        assert(entries_partial(f, es2, ic, ip) =~= entries_partial(f, es, ic, ip)
            + Seq::<u8>::empty() + sep_bytes(f, true) + entry_bytes(f, e, ic, ip));
    }
}

} // verus!
