use rs_namedjsons2namedbloom::error::BloomError;
use rs_namedjsons2namedbloom::record::NamedBloomBytesXs;
use rs_namedjsons2namedbloom::scan::{zfile2named_bloom, zip2named_bloom2writer, zip_member2record, MemArchive, RecordFormat};
use std::io::{Cursor, Write};

fn gz(b: &[u8]) -> Vec<u8> {
    let mut e = flate2::write::GzEncoder::new(Vec::new(), flate2::Compression::default());
    e.write_all(b).unwrap();
    e.finish().unwrap()
}

fn tlv(tag: u8, content: &[u8]) -> Vec<u8> {
    let mut v = vec![tag];
    let n = content.len();
    if n < 0x80 {
        v.push(n as u8);
    } else if n <= 0xff {
        v.push(0x81);
        v.push(n as u8);
    } else {
        v.push(0x82);
        v.push((n >> 8) as u8);
        v.push(n as u8);
    }
    v.extend_from_slice(content);
    v
}

fn member(names: &[u8], jsonl: &[u8]) -> Vec<u8> {
    let mut c = tlv(0x04, &gz(names));
    c.extend_from_slice(&tlv(0x04, &gz(jsonl)));
    tlv(0x30, &c)
}

fn archive(members: &[(&str, Vec<u8>)]) -> MemArchive {
    let mut w = zip::ZipWriter::new(Cursor::new(Vec::new()));
    for (name, bytes) in members {
        let opts = zip::write::SimpleFileOptions::default()
            .compression_method(zip::CompressionMethod::Stored);
        w.start_file(*name, opts).unwrap();
        w.write_all(bytes).unwrap();
    }
    let cur = w.finish().unwrap();
    zip::ZipArchive::new(Cursor::new(cur.into_inner())).unwrap()
}

fn example_member() -> Vec<u8> {
    member(b"0\n1\n2\n", b"{\"helo\":\"wrld\"}\n{\"helo\":\"WRLD\"}\n{\"helo\":\"WWWW\"}\n")
}

fn scan(z: &mut MemArchive, format: RecordFormat, out: &mut Vec<u8>) -> Result<(), BloomError> {
    let mut named = NamedBloomBytesXs::default();
    let mut abuf = Vec::new();
    let mut nbuf = Vec::new();
    let mut jbuf = Vec::new();
    zip2named_bloom2writer(z, "helo", format, &mut named, &mut abuf, &mut nbuf, &mut jbuf, out)
}

#[test]
fn end_to_end_member_filter() {
    let raw = example_member();
    let mut named = NamedBloomBytesXs::default();
    let mut nbuf = Vec::new();
    let mut jbuf = Vec::new();
    zfile2named_bloom("00", &raw, "helo", &mut named, &mut nbuf, &mut jbuf).unwrap();
    assert_eq!(named.name, "00");
    assert_eq!(named.data, [0xb4, 0x33]);
}

#[test]
fn end_to_end_archive_fixed_records() {
    let mut z = archive(&[("00", example_member()), ("01", member(b"a\n", b"{\"x\":1}\n"))]);
    let mut out = Vec::new();
    scan(&mut z, RecordFormat::Fixed, &mut out).unwrap();
    assert_eq!(out, vec![0x00, 0x00, 0xb4, 0x33, 0x00, 0x01, 0x00, 0x01]);
}

#[test]
fn end_to_end_archive_generic_records() {
    let mut z = archive(&[("item-a", example_member())]);
    let mut out = Vec::new();
    scan(&mut z, RecordFormat::Generic, &mut out).unwrap();
    assert_eq!(out, [&b"item-a"[..], &[0xb4, 0x33]].concat());
}

#[test]
fn empty_archive_yields_no_records() {
    let mut z = archive(&[]);
    let mut out = vec![5u8];
    scan(&mut z, RecordFormat::Fixed, &mut out).unwrap();
    assert_eq!(out, vec![5u8]);
}

#[test]
fn malformed_first_member_writes_nothing_for_its_archive() {
    let mut first = archive(&[("00", example_member())]);
    let mut second = archive(&[("00", vec![0x30, 0x00]), ("01", example_member())]);
    let mut out = Vec::new();
    scan(&mut first, RecordFormat::Fixed, &mut out).unwrap();
    assert_eq!(scan(&mut second, RecordFormat::Fixed, &mut out), Err(BloomError::Decode));
    assert_eq!(out, vec![0x00, 0x00, 0xb4, 0x33]);
}

#[test]
fn later_failure_keeps_earlier_records() {
    let mut z = archive(&[
        ("00", example_member()),
        ("01", member(b"0\n", b"oops\n")),
        ("02", example_member()),
    ]);
    let mut out = Vec::new();
    assert_eq!(scan(&mut z, RecordFormat::Fixed, &mut out), Err(BloomError::Parse));
    assert_eq!(out, vec![0x00, 0x00, 0xb4, 0x33]);
}

#[test]
fn length_mismatch_pairs_two_records() {
    let raw = member(b"0\n1\n2\n", b"{\"helo\":\"wrld\"}\n{\"helo\":\"WRLD\"}\n");
    let mut named = NamedBloomBytesXs::default();
    let mut nbuf = Vec::new();
    let mut jbuf = Vec::new();
    zfile2named_bloom("00", &raw, "helo", &mut named, &mut nbuf, &mut jbuf).unwrap();
    assert_eq!(named.data, [0xa4, 0x33]);
}

#[test]
fn member_errors_by_kind() {
    let mut named = NamedBloomBytesXs::default();
    let mut nbuf = Vec::new();
    let mut jbuf = Vec::new();
    assert_eq!(
        zfile2named_bloom("00", b"\x04\x00", "helo", &mut named, &mut nbuf, &mut jbuf),
        Err(BloomError::Decode)
    );
    let bad_gz = tlv(0x30, &[tlv(0x04, b"xx"), tlv(0x04, b"yy")].concat());
    assert_eq!(
        zfile2named_bloom("00", &bad_gz, "helo", &mut named, &mut nbuf, &mut jbuf),
        Err(BloomError::Compression)
    );
    let bad_json = member(b"0\n", b"{\n");
    assert_eq!(
        zfile2named_bloom("00", &bad_json, "helo", &mut named, &mut nbuf, &mut jbuf),
        Err(BloomError::Parse)
    );
}

#[test]
fn fixed_format_rejects_non_hex_member_name() {
    let mut z = archive(&[("zz", example_member())]);
    let mut out = Vec::new();
    assert_eq!(scan(&mut z, RecordFormat::Fixed, &mut out), Err(BloomError::Config));
    assert!(out.is_empty());
}

#[test]
fn records_missing_the_field_set_bit_zero() {
    let raw = member(b"0\n1\n", b"{\"other\":1}\n{\"helo\":null}\n");
    let mut named = NamedBloomBytesXs::default();
    let mut nbuf = Vec::new();
    let mut jbuf = Vec::new();
    zfile2named_bloom("00", &raw, "helo", &mut named, &mut nbuf, &mut jbuf).unwrap();
    assert_eq!(named.data, [0x00, 0x01]);
}

#[test]
fn member_step_appends_one_record_or_nothing() {
    let mut z = archive(&[("00", example_member()), ("01", member(b"0\n", b"oops\n"))]);
    let mut named = NamedBloomBytesXs::default();
    let (mut abuf, mut nbuf, mut jbuf) = (Vec::new(), Vec::new(), Vec::new());
    let mut out = Vec::new();
    zip_member2record(&mut z, 0, "helo", RecordFormat::Fixed, &mut named, &mut abuf, &mut nbuf, &mut jbuf, &mut out).unwrap();
    assert_eq!(out, vec![0x00, 0x00, 0xb4, 0x33]);
    let r = zip_member2record(&mut z, 1, "helo", RecordFormat::Fixed, &mut named, &mut abuf, &mut nbuf, &mut jbuf, &mut out);
    assert_eq!(r, Err(BloomError::Parse));
    let r = zip_member2record(&mut z, 2, "helo", RecordFormat::Fixed, &mut named, &mut abuf, &mut nbuf, &mut jbuf, &mut out);
    assert_eq!(r, Err(BloomError::Io));
    assert_eq!(out, vec![0x00, 0x00, 0xb4, 0x33]);
}

#[test]
fn corrupt_gzip_member_stops_the_scan() {
    let bad = tlv(0x30, &[tlv(0x04, b"xx"), tlv(0x04, &gz(b"{}\n"))].concat());
    let mut z = archive(&[("00", example_member()), ("01", bad)]);
    let mut out = Vec::new();
    assert_eq!(scan(&mut z, RecordFormat::Fixed, &mut out), Err(BloomError::Compression));
    assert_eq!(out, vec![0x00, 0x00, 0xb4, 0x33]);
}
