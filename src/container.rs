//! A member's container: a DER `SEQUENCE` of two `OCTET STRING`s, the
//! gzip-compressed name list and the gzip-compressed JSON lines.
use crate::error::BloomError;
use vstd::prelude::*;
use vstd::slice::slice_subrange;

verus! {

#[verifier::external_type_specification]
#[verifier::external_body]
pub struct ExIoError(std::io::Error);

/// What gzip decompression makes of a byte sequence; none where it is not a
/// valid gzip stream.
pub uninterp spec fn gunzip_of(b: Seq<u8>) -> Option<Seq<u8>>;

/// Relies on `flate2::bufread::GzDecoder` read to its end by `std::io::copy`:
/// it succeeds exactly on a valid gzip stream, and then `buf` holds exactly
/// the decompressed bytes of `gz`.
#[verifier::external_body]
fn gunzip_into(gz: &[u8], buf: &mut Vec<u8>) -> (r: Result<(), std::io::Error>)
    ensures
        r is Ok <==> gunzip_of(gz@) is Some,
        r is Ok ==> final(buf)@ == gunzip_of(gz@)->Some_0,
{
    let mut dec = flate2::bufread::GzDecoder::new(gz);
    buf.clear();
    std::io::copy(&mut dec, buf).map(|_| ())
}

/// Tag of a constructed `SEQUENCE`.
pub const TAG_SEQUENCE: u8 = 0x30;

/// Tag of a primitive `OCTET STRING`.
pub const TAG_OCTET_STRING: u8 = 0x04;

/// The largest length accepted, 256 MiB less one byte.
pub const MAX_LENGTH: u64 = 0x0fff_ffff;

/// The big-endian value of the `n` bytes (1 to 4) of `b` from `p`.
pub open spec fn long_length(b: Seq<u8>, p: int, n: int) -> int {
    if n == 1 {
        b[p] as int
    } else if n == 2 {
        b[p] as int * 256 + b[p + 1] as int
    } else if n == 3 {
        (b[p] as int * 256 + b[p + 1] as int) * 256 + b[p + 2] as int
    } else {
        ((b[p] as int * 256 + b[p + 1] as int) * 256 + b[p + 2] as int) * 256 + b[p + 3] as int
    }
}

/// How many bytes the shortest long-form encoding of `v` takes.
pub open spec fn length_octets(v: int) -> int {
    if v <= 0xff {
        1
    } else if v <= 0xffff {
        2
    } else if v <= 0xff_ffff {
        3
    } else {
        4
    }
}

/// The DER length that starts at `pos`: its value and the position after it.
/// Short form below 0x80; long form of 1 to 4 bytes, in the fewest bytes and
/// only for values of 0x80 or more, up to `MAX_LENGTH`.
pub open spec fn der_length(b: Seq<u8>, pos: int) -> Option<(int, int)> {
    if pos < 0 || pos >= b.len() {
        None
    } else if b[pos] < 0x80 {
        Some((b[pos] as int, pos + 1))
    } else if 0x81 <= b[pos] <= 0x84 {
        let n = b[pos] - 0x80;
        if pos + 1 + n > b.len() {
            None
        } else {
            let v = long_length(b, pos + 1, n);
            if 0x80 <= v <= MAX_LENGTH && length_octets(v) == n {
                Some((v, pos + 1 + n))
            } else {
                None
            }
        }
    } else {
        None
    }
}

/// The element with tag `tag` that starts at `pos`: where its content starts
/// and ends, the end lying within `b`.
pub open spec fn der_element(b: Seq<u8>, pos: int, tag: u8) -> Option<(int, int)> {
    if 0 <= pos < b.len() && b[pos] == tag {
        match der_length(b, pos + 1) {
            Some((len, p)) => if p + len <= b.len() {
                Some((p, p + len))
            } else {
                None
            },
            None => None,
        }
    } else {
        None
    }
}

/// The two octet strings of a container that fills `b` exactly, if `b` is one.
pub open spec fn container_fields(b: Seq<u8>) -> Option<(Seq<u8>, Seq<u8>)> {
    match der_element(b, 0, TAG_SEQUENCE) {
        Some((s, e)) => if e != b.len() {
            None
        } else {
            let c = b.subrange(s, e);
            match der_element(c, 0, TAG_OCTET_STRING) {
                Some((s1, e1)) => match der_element(c, e1, TAG_OCTET_STRING) {
                    Some((s2, e2)) => if e2 == c.len() {
                        Some((c.subrange(s1, e1), c.subrange(s2, e2)))
                    } else {
                        None
                    },
                    None => None,
                },
                None => None,
            }
        },
        None => None,
    }
}

/// A pair of positions seen as integers.
pub open spec fn span_view(r: Option<(usize, usize)>) -> Option<(int, int)> {
    match r {
        Some((a, b)) => Some((a as int, b as int)),
        None => None,
    }
}

/// Reads the DER length at `pos`.
fn read_length(b: &[u8], pos: usize) -> (r: Option<(usize, usize)>)
    ensures
        span_view(r) == der_length(b@, pos as int),
{
    if pos >= b.len() {
        return None;
    }
    let first: u8 = b[pos];
    if first < 0x80 {
        return Some((first as usize, pos + 1));
    }
    if first < 0x81 || first > 0x84 {
        return None;
    }
    let n: usize = (first - 0x80) as usize;
    if b.len() - pos - 1 < n {
        return None;
    }
    let p: usize = pos + 1;
    let v: u64 = if n == 1 {
        b[p] as u64
    } else if n == 2 {
        b[p] as u64 * 256 + b[p + 1] as u64
    } else if n == 3 {
        (b[p] as u64 * 256 + b[p + 1] as u64) * 256 + b[p + 2] as u64
    } else {
        ((b[p] as u64 * 256 + b[p + 1] as u64) * 256 + b[p + 2] as u64) * 256 + b[p + 3] as u64
    };
    let octets: usize = if v <= 0xff {
        1
    } else if v <= 0xffff {
        2
    } else if v <= 0xff_ffff {
        3
    } else {
        4
    };
    if v < 0x80 || v > MAX_LENGTH || octets != n {
        return None;
    }
    Some((v as usize, p + n))
}

/// Reads the element with tag `tag` at `pos`: where its content starts and ends.
fn read_element(b: &[u8], pos: usize, tag: u8) -> (r: Option<(usize, usize)>)
    ensures
        span_view(r) == der_element(b@, pos as int, tag),
{
    if pos >= b.len() || b[pos] != tag {
        return None;
    }
    match read_length(b, pos + 1) {
        Some((len, p)) => {
            if len > b.len() - p {
                None
            } else {
                Some((p, p + len))
            }
        },
        None => None,
    }
}

/// A decoded container: the two compressed streams, borrowed from the member's bytes.
pub struct NamedJsonAsn1<'a> {
    pub gzipped_names: &'a [u8],
    pub gzipped_jsonl: &'a [u8],
}

impl<'a> NamedJsonAsn1<'a> {
    /// Decodes a container that fills `b` exactly; any other shape is a
    /// `Decode` error.
    pub fn from_der(b: &'a [u8]) -> (r: Result<NamedJsonAsn1<'a>, BloomError>)
        ensures
            match container_fields(b@) {
                Some((n, j)) => r is Ok && r->Ok_0.gzipped_names@ == n && r->Ok_0.gzipped_jsonl@
                    == j,
                None => r == Err::<NamedJsonAsn1<'a>, BloomError>(BloomError::Decode),
            },
    {
        let (s, e) = match read_element(b, 0, TAG_SEQUENCE) {
            Some(se) => se,
            None => return Err(BloomError::Decode),
        };
        if e != b.len() {
            return Err(BloomError::Decode);
        }
        let c: &'a [u8] = slice_subrange(b, s, e);
        let (s1, e1) = match read_element(c, 0, TAG_OCTET_STRING) {
            Some(se) => se,
            None => return Err(BloomError::Decode),
        };
        let (s2, e2) = match read_element(c, e1, TAG_OCTET_STRING) {
            Some(se) => se,
            None => return Err(BloomError::Decode),
        };
        if e2 != c.len() {
            return Err(BloomError::Decode);
        }
        Ok(
            NamedJsonAsn1 {
                gzipped_names: slice_subrange(c, s1, e1),
                gzipped_jsonl: slice_subrange(c, s2, e2),
            },
        )
    }

    /// Decompresses the gzip stream `gz` into `buf`, replacing what it held;
    /// a corrupt stream is a `Compression` error.
    pub fn slice2buf(gz: &[u8], buf: &mut Vec<u8>) -> (r: Result<(), BloomError>)
        ensures
            r is Ok <==> gunzip_of(gz@) is Some,
            r is Ok ==> final(buf)@ == gunzip_of(gz@)->Some_0,
            r is Err ==> r == Err::<(), BloomError>(BloomError::Compression),
    {
        match gunzip_into(gz, buf) {
            Ok(()) => Ok(()),
            Err(_) => Err(BloomError::Compression),
        }
    }

    /// Decompresses the name list into `buf`.
    pub fn write_names(&self, buf: &mut Vec<u8>) -> (r: Result<(), BloomError>)
        ensures
            r is Ok <==> gunzip_of(self.gzipped_names@) is Some,
            r is Ok ==> final(buf)@ == gunzip_of(self.gzipped_names@)->Some_0,
            r is Err ==> r == Err::<(), BloomError>(BloomError::Compression),
    {
        Self::slice2buf(self.gzipped_names, buf)
    }

    /// Decompresses the JSON lines into `buf`.
    pub fn write_jsonl(&self, buf: &mut Vec<u8>) -> (r: Result<(), BloomError>)
        ensures
            r is Ok <==> gunzip_of(self.gzipped_jsonl@) is Some,
            r is Ok ==> final(buf)@ == gunzip_of(self.gzipped_jsonl@)->Some_0,
            r is Err ==> r == Err::<(), BloomError>(BloomError::Compression),
    {
        Self::slice2buf(self.gzipped_jsonl, buf)
    }
}

} // verus!
