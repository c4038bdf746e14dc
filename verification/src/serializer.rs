//! Incremental, format-tagged document serialization.
//!
//! A [`StreamingSerializer`] appends the encoding of scalars and container
//! delimiters to an output buffer as soon as they are written; a caller
//! drains the buffer with [`StreamingSerializer::take_output`] whenever it
//! pleases, so no document is ever held in memory whole.  The same API
//! produces either JSON text or CBOR with indefinite-length containers,
//! chosen by a [`StreamFormat`] tag at construction.
//!
//! Container handles ([`StreamingMap`], [`StreamingSeq`]) carry only the
//! "was an element written" flag that decides whether JSON needs a comma;
//! they write through the serializer that is passed to each call.

use vstd::prelude::*;
use vstd::string::StringSliceAdditionalSpecFns;
use vstd::utf8::encode_utf8;
use base64::Engine;

verus! {

/// The wire format of the output document.
#[derive(Clone, Copy, Debug, PartialEq, Eq)]
pub enum StreamFormat {
    JSON,
    CBOR,
}

impl StreamFormat {
    /// Parses a format name: `"json"` and `"cbor"` name the two formats,
    /// anything else is rejected with a message.
    pub fn try_from(s: &str) -> (r: Result<StreamFormat, String>)
        ensures
            s@ == "json"@ ==> r == Ok::<StreamFormat, String>(StreamFormat::JSON),
            s@ == "cbor"@ ==> r == Ok::<StreamFormat, String>(StreamFormat::CBOR),
            r is Ok <==> (s@ == "json"@ || s@ == "cbor"@),
    {
        proof {
            reveal_strlit("json");
            reveal_strlit("cbor");
        }
        if bytes_eq(s.as_bytes(), "json".as_bytes()) {
            proof {
                lemma_spec_bytes_injective(s, "json");
            }
            Ok(StreamFormat::JSON)
        } else if bytes_eq(s.as_bytes(), "cbor".as_bytes()) {
            proof {
                lemma_spec_bytes_injective(s, "cbor");
            }
            Ok(StreamFormat::CBOR)
        } else {
            Err(String::from_str("unknown output format ").concat(s))
        }
    }
}

/// Two string slices with the same UTF-8 bytes hold the same characters.
proof fn lemma_spec_bytes_injective(a: &str, b: &str)
    requires
        a.spec_bytes() == b.spec_bytes(),
    ensures
        a@ == b@,
{
    vstd::utf8::encode_utf8_decode_utf8(a@);
    vstd::utf8::encode_utf8_decode_utf8(b@);
}

/// The JSON string literal (quote characters, escapes and all) that
/// represents the character sequence `s`, as UTF-8 bytes.
pub uninterp spec fn json_quoted(s: Seq<char>) -> Seq<u8>;

/// The unpadded, standard-alphabet base64 encoding of `b`.
pub uninterp spec fn base64_nopad(b: Seq<u8>) -> Seq<u8>;

/// The decimal digits of `u`, most significant first, as ASCII bytes.
pub open spec fn dec_digits(u: u64) -> Seq<u8>
    decreases u,
{
    if u < 10 {
        seq![(48 + u) as u8]
    } else {
        dec_digits((u / 10) as u64) + seq![(48 + (u % 10)) as u8]
    }
}

/// A CBOR item head: the major type in the top three bits, then the
/// shortest argument encoding that holds `v` (RFC 8949 §3).
pub open spec fn cbor_head(major: u8, v: u64) -> Seq<u8> {
    let t = (major as int) * 32;
    let n = v as int;
    if v < 24 {
        seq![(t + n) as u8]
    } else if v <= 0xff {
        seq![(t + 24) as u8, v as u8]
    } else if v <= 0xffff {
        seq![(t + 25) as u8, (n / 256) as u8, (n % 256) as u8]
    } else if v <= 0xffff_ffff {
        seq![
            (t + 26) as u8,
            (n / 0x100_0000) as u8,
            ((n / 0x1_0000) % 256) as u8,
            ((n / 256) % 256) as u8,
            (n % 256) as u8,
        ]
    } else {
        seq![
            (t + 27) as u8,
            (n / 0x100_0000_0000_0000) as u8,
            ((n / 0x1_0000_0000_0000) % 256) as u8,
            ((n / 0x100_0000_0000) % 256) as u8,
            ((n / 0x1_0000_0000) % 256) as u8,
            ((n / 0x100_0000) % 256) as u8,
            ((n / 0x1_0000) % 256) as u8,
            ((n / 256) % 256) as u8,
            (n % 256) as u8,
        ]
    }
}

/// The bytes that open a map in the given format: `{` in JSON, the
/// indefinite-length map head in CBOR.
pub open spec fn map_open_bytes(f: StreamFormat) -> Seq<u8> {
    match f {
        StreamFormat::JSON => seq![123u8],
        StreamFormat::CBOR => seq![0xbfu8],
    }
}

/// The bytes that close a map: `}` in JSON, `Break` in CBOR.
pub open spec fn map_close_bytes(f: StreamFormat) -> Seq<u8> {
    match f {
        StreamFormat::JSON => seq![125u8],
        StreamFormat::CBOR => seq![0xffu8],
    }
}

/// The bytes that open a sequence: `[` in JSON, the indefinite-length
/// array head in CBOR.
pub open spec fn seq_open_bytes(f: StreamFormat) -> Seq<u8> {
    match f {
        StreamFormat::JSON => seq![91u8],
        StreamFormat::CBOR => seq![0x9fu8],
    }
}

/// The bytes that close a sequence: `]` in JSON, `Break` in CBOR.
pub open spec fn seq_close_bytes(f: StreamFormat) -> Seq<u8> {
    match f {
        StreamFormat::JSON => seq![93u8],
        StreamFormat::CBOR => seq![0xffu8],
    }
}

/// The separator written before an element: a comma in JSON when an
/// element has already been written into the container, nothing in CBOR.
pub open spec fn sep_bytes(f: StreamFormat, element_written: bool) -> Seq<u8> {
    if element_written && f == StreamFormat::JSON {
        seq![44u8]
    } else {
        Seq::empty()
    }
}

/// The encoding of the string scalar `s`.
pub open spec fn string_bytes(f: StreamFormat, s: Seq<char>) -> Seq<u8> {
    match f {
        StreamFormat::JSON => json_quoted(s),
        StreamFormat::CBOR => cbor_head(3, encode_utf8(s).len() as u64) + encode_utf8(s),
    }
}

/// The encoding of the byte-string scalar `b`: a quoted base64 string in
/// JSON, a definite-length byte string in CBOR.
pub open spec fn bytes_bytes(f: StreamFormat, b: Seq<u8>) -> Seq<u8> {
    match f {
        StreamFormat::JSON => seq![34u8] + base64_nopad(b) + seq![34u8],
        StreamFormat::CBOR => cbor_head(2, b.len() as u64) + b,
    }
}

/// The encoding of the unsigned integer scalar `u`.
pub open spec fn uint_bytes(f: StreamFormat, u: u64) -> Seq<u8> {
    match f {
        StreamFormat::JSON => dec_digits(u),
        StreamFormat::CBOR => cbor_head(0, u),
    }
}

/// The bytes a map writes for the key `k`: the element separator, the key
/// string, and in JSON the colon that introduces the value.
pub open spec fn key_bytes(f: StreamFormat, element_written: bool, k: Seq<char>) -> Seq<u8> {
    sep_bytes(f, element_written) + string_bytes(f, k) + (if f == StreamFormat::JSON {
        seq![58u8]
    } else {
        Seq::<u8>::empty()
    })
}

/// An input small enough that base64-encoding it cannot overflow a length
/// computation (and so cannot panic inside the encoder).
pub open spec fn base64_encodable(b: Seq<u8>) -> bool {
    b.len() <= usize::MAX / 8
}

/// Relies on `serde_json::to_vec`, which serializes a string slice as a
/// JSON string literal and cannot fail for strings.
#[verifier::external_body]
fn json_quote(s: &str) -> (r: Vec<u8>)
    ensures
        r@ == json_quoted(s@),
{
    serde_json::to_vec(s).expect("serializing a string cannot fail")
}

/// Relies on base64's `STANDARD_NO_PAD` engine: unpadded encoding with the
/// standard alphabet.  The length bound keeps the encoder's buffer-size
/// arithmetic from overflowing.
#[verifier::external_body]
fn base64_encode(b: &[u8]) -> (r: Vec<u8>)
    requires
        base64_encodable(b@),
    ensures
        r@ == base64_nopad(b@),
{
    base64::engine::general_purpose::STANDARD_NO_PAD.encode(b).into_bytes()
}

/// Appends every byte of `b` to `out`.
fn push_bytes(out: &mut Vec<u8>, b: &[u8])
    ensures
        final(out)@ == old(out)@ + b@,
{
    let mut i: usize = 0;
    while i < b.len()
        invariant
            i <= b@.len(),
            out@ == old(out)@ + b@.subrange(0, i as int),
        decreases b@.len() - i,
    {
        out.push(b[i]);
        proof {
            assert(out@ =~= old(out)@ + b@.subrange(0, i + 1 as int));
        }
        i = i + 1;
    }
    proof {
        assert(out@ =~= old(out)@ + b@);
    }
}

/// Compares two byte slices for equality.
fn bytes_eq(a: &[u8], b: &[u8]) -> (r: bool)
    ensures
        r == (a@ == b@),
{
    if a.len() != b.len() {
        proof {
            assert(a@ != b@);
        }
        return false;
    }
    let mut i: usize = 0;
    while i < a.len()
        invariant
            i <= a@.len(),
            a@.len() == b@.len(),
            forall|j: int| 0 <= j < i ==> a@[j] == b@[j],
        decreases a@.len() - i,
    {
        if a[i] != b[i] {
            proof {
                assert(a@ != b@);
            }
            return false;
        }
        i = i + 1;
    }
    proof {
        assert(a@ =~= b@);
    }
    true
}

/// Writes the decimal digits of `u`, most significant first.
fn u64_dec(u: u64) -> (r: Vec<u8>)
    ensures
        r@ == dec_digits(u),
{
    let mut r: Vec<u8> = Vec::new();
    let mut cur: u64 = u;
    proof {
        assert(dec_digits(u) =~= dec_digits(cur) + r@);
    }
    while cur >= 10
        invariant
            dec_digits(u) == dec_digits(cur) + r@,
        decreases cur,
    {
        let d: u8 = 48 + (cur % 10) as u8;
        r.insert(0, d);
        proof {
            assert(dec_digits(u) =~= dec_digits((cur / 10) as u64) + r@);
        }
        cur = cur / 10;
    }
    let d: u8 = 48 + cur as u8;
    r.insert(0, d);
    proof {
        assert(dec_digits(u) =~= r@);
    }
    r
}

/// Writes the CBOR head for major type `major` and argument `v`.
fn cbor_head_enc(major: u8, v: u64) -> (r: Vec<u8>)
    requires
        major < 8,
    ensures
        r@ == cbor_head(major, v),
{
    let t: u8 = major * 32;
    let mut r: Vec<u8> = Vec::new();
    if v < 24 {
        r.push(t + v as u8);
    } else if v <= 0xff {
        r.push(t + 24);
        r.push(v as u8);
    } else if v <= 0xffff {
        r.push(t + 25);
        r.push((v / 256) as u8);
        r.push((v % 256) as u8);
    } else if v <= 0xffff_ffff {
        r.push(t + 26);
        r.push((v / 0x100_0000) as u8);
        r.push(((v / 0x1_0000) % 256) as u8);
        r.push(((v / 256) % 256) as u8);
        r.push((v % 256) as u8);
    } else {
        r.push(t + 27);
        r.push((v / 0x100_0000_0000_0000) as u8);
        r.push(((v / 0x1_0000_0000_0000) % 256) as u8);
        r.push(((v / 0x100_0000_0000) % 256) as u8);
        r.push(((v / 0x1_0000_0000) % 256) as u8);
        r.push(((v / 0x100_0000) % 256) as u8);
        r.push(((v / 0x1_0000) % 256) as u8);
        r.push(((v / 256) % 256) as u8);
        r.push((v % 256) as u8);
    }
    proof {
        assert(r@ =~= cbor_head(major, v));
    }
    r
}

/// A document writer.  Scalar and delimiter encodings are appended to an
/// internal buffer the moment they are produced; `take_output` hands the
/// buffered bytes to the caller.  The ghost `flushed` field remembers what
/// has already been taken, so contracts can speak of the whole document
/// through [`StreamingSerializer::log`].
pub struct StreamingSerializer {
    format: StreamFormat,
    out: Vec<u8>,
    flushed: Ghost<Seq<u8>>,
}

impl StreamingSerializer {
    /// Every byte this serializer has ever written, drained or not.
    pub closed spec fn log(self) -> Seq<u8> {
        self.flushed@ + self.out@
    }

    /// The bytes written since the last `take_output`.
    pub closed spec fn pending(self) -> Seq<u8> {
        self.out@
    }

    /// The format this serializer was constructed with.
    pub closed spec fn stream_format(self) -> StreamFormat {
        self.format
    }

    /// A fresh serializer with an empty output buffer.
    pub fn new(format: StreamFormat) -> (r: Self)
        ensures
            r.stream_format() == format,
            r.log() == Seq::<u8>::empty(),
            r.pending() == Seq::<u8>::empty(),
    {
        let r = StreamingSerializer { format, out: Vec::new(), flushed: Ghost(Seq::empty()) };
        proof {
            assert(r.log() =~= Seq::<u8>::empty());
        }
        r
    }

    /// Appends raw bytes to the output buffer.
    pub fn write(&mut self, o: &[u8])
        ensures
            final(self).stream_format() == old(self).stream_format(),
            final(self).log() == old(self).log() + o@,
            final(self).pending() == old(self).pending() + o@,
    {
        push_bytes(&mut self.out, o);
        proof {
            assert(self.log() =~= old(self).log() + o@);
        }
    }

    /// Drains and returns the bytes written since the last drain.
    pub fn take_output(&mut self) -> (r: Vec<u8>)
        ensures
            final(self).stream_format() == old(self).stream_format(),
            final(self).log() == old(self).log(),
            final(self).pending() == Seq::<u8>::empty(),
            r@ == old(self).pending(),
    {
        let mut taken: Vec<u8> = Vec::new();
        core::mem::swap(&mut taken, &mut self.out);
        proof {
            self.flushed@ = self.flushed@ + taken@;
            assert(self.log() =~= old(self).log());
        }
        taken
    }

    /// Writes a string scalar.
    pub fn string(&mut self, s: &str)
        ensures
            final(self).stream_format() == old(self).stream_format(),
            final(self).log() == old(self).log() + string_bytes(old(self).stream_format(), s@),
    {
        match self.format {
            StreamFormat::JSON => {
                let q = json_quote(s);
                self.write(q.as_slice());
            },
            StreamFormat::CBOR => {
                let b = s.as_bytes();
                let h = cbor_head_enc(3, b.len() as u64);
                self.write(h.as_slice());
                self.write(b);
                proof {
                    assert(self.log() =~= old(self).log() + string_bytes(
                        old(self).stream_format(),
                        s@,
                    ));
                }
            },
        }
    }

    /// Writes a byte-string scalar.
    pub fn bytes(&mut self, b: &[u8])
        requires
            base64_encodable(b@),
        ensures
            final(self).stream_format() == old(self).stream_format(),
            final(self).log() == old(self).log() + bytes_bytes(old(self).stream_format(), b@),
    {
        match self.format {
            StreamFormat::JSON => {
                // The base64 alphabet needs no JSON escaping, so the
                // quotes are written directly around the encoded payload.
                let quote: [u8; 1] = [34];
                let enc = base64_encode(b);
                self.write(quote.as_slice());
                self.write(enc.as_slice());
                self.write(quote.as_slice());
                proof {
                    assert(self.log() =~= old(self).log() + bytes_bytes(
                        old(self).stream_format(),
                        b@,
                    ));
                }
            },
            StreamFormat::CBOR => {
                let h = cbor_head_enc(2, b.len() as u64);
                self.write(h.as_slice());
                self.write(b);
                proof {
                    assert(self.log() =~= old(self).log() + bytes_bytes(
                        old(self).stream_format(),
                        b@,
                    ));
                }
            },
        }
    }

    /// Writes an unsigned integer scalar.
    pub fn uint(&mut self, u: u64)
        ensures
            final(self).stream_format() == old(self).stream_format(),
            final(self).log() == old(self).log() + uint_bytes(old(self).stream_format(), u),
    {
        match self.format {
            StreamFormat::JSON => {
                let d = u64_dec(u);
                self.write(d.as_slice());
            },
            StreamFormat::CBOR => {
                let h = cbor_head_enc(0, u);
                self.write(h.as_slice());
            },
        }
    }

    /// Opens a map and returns its handle.
    pub fn map(&mut self) -> (r: StreamingMap)
        ensures
            final(self).stream_format() == old(self).stream_format(),
            final(self).log() == old(self).log() + map_open_bytes(old(self).stream_format()),
            !r.element_written(),
    {
        match self.format {
            StreamFormat::JSON => {
                let open: [u8; 1] = [123];
                self.write(open.as_slice());
            },
            StreamFormat::CBOR => {
                let open: [u8; 1] = [0xbf];
                self.write(open.as_slice());
            },
        }
        StreamingMap { element_written: false }
    }

    /// Opens a sequence and returns its handle.
    pub fn seq(&mut self) -> (r: StreamingSeq)
        ensures
            final(self).stream_format() == old(self).stream_format(),
            final(self).log() == old(self).log() + seq_open_bytes(old(self).stream_format()),
            !r.element_written(),
    {
        match self.format {
            StreamFormat::JSON => {
                let open: [u8; 1] = [91];
                self.write(open.as_slice());
            },
            StreamFormat::CBOR => {
                let open: [u8; 1] = [0x9f];
                self.write(open.as_slice());
            },
        }
        StreamingSeq { element_written: false }
    }
}

/// The handle of an open map.
pub struct StreamingMap {
    element_written: bool,
}

impl StreamingMap {
    /// Whether an element has been written into this map (decides the
    /// comma in JSON).
    pub closed spec fn element_written(self) -> bool {
        self.element_written
    }

    /// Writes the element separator if one is due and records that this
    /// container now holds an element.
    pub fn element(&mut self, s: &mut StreamingSerializer)
        ensures
            final(s).stream_format() == old(s).stream_format(),
            final(s).log() == old(s).log() + sep_bytes(
                old(s).stream_format(),
                old(self).element_written(),
            ),
            final(self).element_written(),
    {
        if self.element_written {
            match s.format {
                StreamFormat::JSON => {
                    let comma: [u8; 1] = [44];
                    s.write(comma.as_slice());
                },
                StreamFormat::CBOR => {
                    proof {
                        assert(s.log() =~= old(s).log() + sep_bytes(
                            old(s).stream_format(),
                            old(self).element_written(),
                        ));
                    }
                },
            }
        } else {
            proof {
                assert(s.log() =~= old(s).log() + sep_bytes(
                    old(s).stream_format(),
                    old(self).element_written(),
                ));
            }
        }
        self.element_written = true;
    }

    /// Writes a key: the separator, the key string, and in JSON the colon.
    pub fn key(&mut self, s: &mut StreamingSerializer, k: &str)
        ensures
            final(s).stream_format() == old(s).stream_format(),
            final(s).log() == old(s).log() + key_bytes(
                old(s).stream_format(),
                old(self).element_written(),
                k@,
            ),
            final(self).element_written(),
    {
        self.element(s);
        s.string(k);
        match s.format {
            StreamFormat::JSON => {
                let colon: [u8; 1] = [58];
                s.write(colon.as_slice());
            },
            StreamFormat::CBOR => {},
        }
        proof {
            assert(s.log() =~= old(s).log() + key_bytes(
                old(s).stream_format(),
                old(self).element_written(),
                k@,
            ));
        }
    }

    /// Closes the map.
    pub fn end(&self, s: &mut StreamingSerializer)
        ensures
            final(s).stream_format() == old(s).stream_format(),
            final(s).log() == old(s).log() + map_close_bytes(old(s).stream_format()),
    {
        match s.format {
            StreamFormat::JSON => {
                let close: [u8; 1] = [125];
                s.write(close.as_slice());
            },
            StreamFormat::CBOR => {
                let close: [u8; 1] = [0xff];
                s.write(close.as_slice());
            },
        }
    }

    /// Writes a string in value position.
    pub fn string(&self, s: &mut StreamingSerializer, v: &str)
        ensures
            final(s).stream_format() == old(s).stream_format(),
            final(s).log() == old(s).log() + string_bytes(old(s).stream_format(), v@),
    {
        s.string(v);
    }

    /// Writes a byte string in value position.
    pub fn bytes(&self, s: &mut StreamingSerializer, v: &[u8])
        requires
            base64_encodable(v@),
        ensures
            final(s).stream_format() == old(s).stream_format(),
            final(s).log() == old(s).log() + bytes_bytes(old(s).stream_format(), v@),
    {
        s.bytes(v);
    }

    /// Writes an unsigned integer in value position.
    pub fn uint(&self, s: &mut StreamingSerializer, v: u64)
        ensures
            final(s).stream_format() == old(s).stream_format(),
            final(s).log() == old(s).log() + uint_bytes(old(s).stream_format(), v),
    {
        s.uint(v);
    }

    /// Opens a nested map in value position.
    pub fn map(&self, s: &mut StreamingSerializer) -> (r: StreamingMap)
        ensures
            final(s).stream_format() == old(s).stream_format(),
            final(s).log() == old(s).log() + map_open_bytes(old(s).stream_format()),
            !r.element_written(),
    {
        s.map()
    }

    /// Opens a nested sequence in value position.
    pub fn seq(&self, s: &mut StreamingSerializer) -> (r: StreamingSeq)
        ensures
            final(s).stream_format() == old(s).stream_format(),
            final(s).log() == old(s).log() + seq_open_bytes(old(s).stream_format()),
            !r.element_written(),
    {
        s.seq()
    }
}

/// The handle of an open sequence.
pub struct StreamingSeq {
    element_written: bool,
}

impl StreamingSeq {
    /// Whether an element has been written into this sequence.
    pub closed spec fn element_written(self) -> bool {
        self.element_written
    }

    /// Writes the element separator if one is due and records that this
    /// container now holds an element.
    pub fn element(&mut self, s: &mut StreamingSerializer)
        ensures
            final(s).stream_format() == old(s).stream_format(),
            final(s).log() == old(s).log() + sep_bytes(
                old(s).stream_format(),
                old(self).element_written(),
            ),
            final(self).element_written(),
    {
        if self.element_written {
            match s.format {
                StreamFormat::JSON => {
                    let comma: [u8; 1] = [44];
                    s.write(comma.as_slice());
                },
                StreamFormat::CBOR => {
                    proof {
                        assert(s.log() =~= old(s).log() + sep_bytes(
                            old(s).stream_format(),
                            old(self).element_written(),
                        ));
                    }
                },
            }
        } else {
            proof {
                assert(s.log() =~= old(s).log() + sep_bytes(
                    old(s).stream_format(),
                    old(self).element_written(),
                ));
            }
        }
        self.element_written = true;
    }

    /// Closes the sequence.
    pub fn end(&self, s: &mut StreamingSerializer)
        ensures
            final(s).stream_format() == old(s).stream_format(),
            final(s).log() == old(s).log() + seq_close_bytes(old(s).stream_format()),
    {
        match s.format {
            StreamFormat::JSON => {
                let close: [u8; 1] = [93];
                s.write(close.as_slice());
            },
            StreamFormat::CBOR => {
                let close: [u8; 1] = [0xff];
                s.write(close.as_slice());
            },
        }
    }

    /// Writes a string element.
    pub fn string(&mut self, s: &mut StreamingSerializer, v: &str)
        ensures
            final(s).stream_format() == old(s).stream_format(),
            final(s).log() == old(s).log() + sep_bytes(
                old(s).stream_format(),
                old(self).element_written(),
            ) + string_bytes(old(s).stream_format(), v@),
            final(self).element_written(),
    {
        self.element(s);
        s.string(v);
    }

    /// Writes a byte-string element.
    pub fn bytes(&mut self, s: &mut StreamingSerializer, v: &[u8])
        requires
            base64_encodable(v@),
        ensures
            final(s).stream_format() == old(s).stream_format(),
            final(s).log() == old(s).log() + sep_bytes(
                old(s).stream_format(),
                old(self).element_written(),
            ) + bytes_bytes(old(s).stream_format(), v@),
            final(self).element_written(),
    {
        self.element(s);
        s.bytes(v);
    }

    /// Writes an unsigned integer element.
    pub fn uint(&mut self, s: &mut StreamingSerializer, v: u64)
        ensures
            final(s).stream_format() == old(s).stream_format(),
            final(s).log() == old(s).log() + sep_bytes(
                old(s).stream_format(),
                old(self).element_written(),
            ) + uint_bytes(old(s).stream_format(), v),
            final(self).element_written(),
    {
        self.element(s);
        s.uint(v);
    }

    /// Opens a map element.
    pub fn map(&mut self, s: &mut StreamingSerializer) -> (r: StreamingMap)
        ensures
            final(s).stream_format() == old(s).stream_format(),
            final(s).log() == old(s).log() + sep_bytes(
                old(s).stream_format(),
                old(self).element_written(),
            ) + map_open_bytes(old(s).stream_format()),
            final(self).element_written(),
            !r.element_written(),
    {
        self.element(s);
        s.map()
    }

    /// Opens a sequence element.
    pub fn seq(&mut self, s: &mut StreamingSerializer) -> (r: StreamingSeq)
        ensures
            final(s).stream_format() == old(s).stream_format(),
            final(s).log() == old(s).log() + sep_bytes(
                old(s).stream_format(),
                old(self).element_written(),
            ) + seq_open_bytes(old(s).stream_format()),
            final(self).element_written(),
            !r.element_written(),
    {
        self.element(s);
        s.seq()
    }
}

} // verus!
