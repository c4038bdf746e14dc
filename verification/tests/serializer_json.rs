//! JSON output of the streaming serializer.

use scrape_ct_log::serializer::{StreamFormat, StreamingSerializer};

#[test]
fn serialize_an_empty_string() {
    let mut s = StreamingSerializer::new(StreamFormat::JSON);
    s.string("");
    let buf = s.take_output();
    assert_eq!(&br#""""#[..], &buf[..]);
}

#[test]
fn serialize_a_string() {
    let mut s = StreamingSerializer::new(StreamFormat::JSON);
    s.string("ohai!");
    let buf = s.take_output();
    assert_eq!(&br#""ohai!""#[..], &buf[..]);
}

#[test]
fn serialize_bytes() {
    let mut s = StreamingSerializer::new(StreamFormat::JSON);
    s.bytes(b"ohai!");
    let buf = s.take_output();
    assert_eq!(&br#""b2hhaSE""#[..], &buf[..]);
}

#[test]
fn serialize_a_uint() {
    let mut s = StreamingSerializer::new(StreamFormat::JSON);
    s.uint(420);
    let buf = s.take_output();
    assert_eq!(&br#"420"#[..], &buf[..]);
}

#[test]
fn serialize_an_empty_seq() {
    let mut s = StreamingSerializer::new(StreamFormat::JSON);
    let seq = s.seq();
    seq.end(&mut s);
    let buf = s.take_output();
    assert_eq!(&br#"[]"#[..], &buf[..]);
}

#[test]
fn serialize_a_seq_with_a_string() {
    let mut s = StreamingSerializer::new(StreamFormat::JSON);
    let mut seq = s.seq();
    seq.string(&mut s, "ohai!");
    seq.end(&mut s);
    let buf = s.take_output();
    assert_eq!(&br#"["ohai!"]"#[..], &buf[..]);
}

#[test]
fn serialize_a_seq_with_bytes() {
    let mut s = StreamingSerializer::new(StreamFormat::JSON);
    let mut seq = s.seq();
    seq.bytes(&mut s, b"ohai!");
    seq.end(&mut s);
    let buf = s.take_output();
    assert_eq!(&br#"["b2hhaSE"]"#[..], &buf[..]);
}

#[test]
fn serialize_a_seq_with_a_uint() {
    let mut s = StreamingSerializer::new(StreamFormat::JSON);
    let mut seq = s.seq();
    seq.uint(&mut s, 420);
    seq.end(&mut s);
    let buf = s.take_output();
    assert_eq!(&br#"[420]"#[..], &buf[..]);
}

#[test]
fn serialize_a_seq_with_a_bunch_of_stuff() {
    let mut s = StreamingSerializer::new(StreamFormat::JSON);
    let mut seq = s.seq();
    seq.string(&mut s, "ohai!");
    seq.bytes(&mut s, b"ohai!");
    seq.uint(&mut s, 420);
    let mut map = seq.map(&mut s);
    map.key(&mut s, "foo");
    map.string(&mut s, "bar");
    map.key(&mut s, "baz");
    map.bytes(&mut s, b"\xC2\x89\x9Bj");
    map.end(&mut s);
    seq.string(&mut s, "woot");
    seq.end(&mut s);
    let buf = s.take_output();
    assert_eq!(
        &br#"["ohai!","b2hhaSE",420,{"foo":"bar","baz":"wombag"},"woot"]"#[..],
        &buf[..]
    );
}

#[test]
fn serialize_an_empty_map() {
    let mut s = StreamingSerializer::new(StreamFormat::JSON);
    let map = s.map();
    map.end(&mut s);
    let buf = s.take_output();
    assert_eq!(&br#"{}"#[..], &buf[..]);
}

#[test]
fn serialize_a_map_with_a_string() {
    let mut s = StreamingSerializer::new(StreamFormat::JSON);
    let mut map = s.map();
    map.key(&mut s, "string");
    map.string(&mut s, "ohai!");
    map.end(&mut s);
    let buf = s.take_output();
    assert_eq!(&br#"{"string":"ohai!"}"#[..], &buf[..]);
}

#[test]
fn serialize_a_map_with_bytes() {
    let mut s = StreamingSerializer::new(StreamFormat::JSON);
    let mut map = s.map();
    map.key(&mut s, "bytes");
    map.bytes(&mut s, b"ohai!");
    map.end(&mut s);
    let buf = s.take_output();
    assert_eq!(&br#"{"bytes":"b2hhaSE"}"#[..], &buf[..]);
}

#[test]
fn serialize_a_map_with_a_uint() {
    let mut s = StreamingSerializer::new(StreamFormat::JSON);
    let mut map = s.map();
    map.key(&mut s, "uint");
    map.uint(&mut s, 420);
    map.end(&mut s);
    let buf = s.take_output();
    assert_eq!(&br#"{"uint":420}"#[..], &buf[..]);
}

#[test]
fn serialize_a_map_with_a_bunch_of_stuff() {
    let mut s = StreamingSerializer::new(StreamFormat::JSON);
    let mut map = s.map();
    map.key(&mut s, "string");
    map.string(&mut s, "ohai!");
    map.key(&mut s, "bytes");
    map.bytes(&mut s, b"ohai!");
    map.key(&mut s, "uint");
    map.uint(&mut s, 420);
    map.key(&mut s, "seq");
    let mut seq = map.seq(&mut s);
    seq.string(&mut s, "one");
    seq.bytes(&mut s, b"\xB7\n(");
    seq.uint(&mut s, 3);
    seq.end(&mut s);
    map.key(&mut s, "four");
    map.uint(&mut s, 5);
    map.end(&mut s);
    let buf = s.take_output();
    assert_eq!(
        &br#"{"string":"ohai!","bytes":"b2hhaSE","uint":420,"seq":["one","twoo",3],"four":5}"#[..],
        &buf[..]
    );
}
