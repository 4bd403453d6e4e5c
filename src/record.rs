//! Output records: a member's name with its two filter bytes, and the two
//! byte layouts they are written in.
use crate::error::BloomError;
use crate::json::be16;
use vstd::prelude::*;
use vstd::string::StringSliceAdditionalSpecFns;
use vstd::utf8::encode_utf8;

verus! {

/// A member's name and its 16-bit filter as two big-endian bytes.
pub struct NamedBloomBytesXs {
    pub name: String,
    pub data: [u8; 2],
}

/// A member's serial number and its filter, four bytes in all once written.
pub struct NamedBloomBytesFixed {
    pub serial: u16,
    pub bloom: [u8; 2],
}

/// Relies on `String::push_str`: `s` ends up followed by `t`.
#[verifier::external_body]
fn push_str(s: &mut String, t: &str)
    ensures
        final(s)@ == old(s)@ + t@,
{
    s.push_str(t)
}

impl Default for NamedBloomBytesXs {
    fn default() -> (r: Self)
        ensures
            r.name@ == Seq::<char>::empty(),
            r.data@ == seq![0u8, 0u8],
    {
        let r = NamedBloomBytesXs { name: String::new(), data: [0u8; 2] };
        proof {
            assert(r.data@ =~= seq![0u8, 0u8]);
        }
        r
    }
}

impl NamedBloomBytesXs {
    /// Empties the name and zeroes the filter.
    pub fn clear(&mut self)
        ensures
            final(self).name@ == Seq::<char>::empty(),
            final(self).data@ == seq![0u8, 0u8],
    {
        self.name = String::new();
        self.data = [0u8; 2];
        proof {
            assert(self.data@ =~= seq![0u8, 0u8]);
        }
    }

    /// Appends `name` to the name.
    pub fn set_name(&mut self, name: &str)
        ensures
            final(self).name@ == old(self).name@ + name@,
            final(self).data == old(self).data,
    {
        push_str(&mut self.name, name);
    }

    /// Replaces the filter bytes.
    pub fn set_data(&mut self, dat: [u8; 2])
        ensures
            final(self).data == dat,
            final(self).name == old(self).name,
    {
        self.data = dat;
    }
}

/// The value of an ASCII hexadecimal digit.
pub open spec fn hex_digit(c: u8) -> Option<nat> {
    if 48 <= c <= 57 {
        Some((c - 48) as nat)
    } else if 97 <= c <= 102 {
        Some((c - 87) as nat)
    } else if 65 <= c <= 70 {
        Some((c - 55) as nat)
    } else {
        None
    }
}

/// The value of a run of hexadecimal digits, if every byte is one.
pub open spec fn hex_digits(s: Seq<u8>) -> Option<nat>
    decreases s.len(),
{
    if s.len() == 0 {
        Some(0)
    } else {
        match (hex_digits(s.drop_last()), hex_digit(s.last())) {
            (Some(v), Some(d)) => Some(v * 16 + d),
            _ => None,
        }
    }
}

/// The byte `+`, which may open a hexadecimal number.
pub const PLUS: u8 = 43;

/// A 32-bit hexadecimal number: an optional `+`, then at least one digit,
/// with a value that fits in 32 bits.
pub open spec fn hex_u32(s: Seq<u8>) -> Option<u32> {
    let d = if s.len() > 0 && s[0] == PLUS {
        s.drop_first()
    } else {
        s
    };
    if d.len() == 0 {
        None
    } else {
        match hex_digits(d) {
            Some(v) => if v <= u32::MAX {
                Some(v as u32)
            } else {
                None
            },
            None => None,
        }
    }
}

/// A longer run of digits has a value only if its start has one, and never a
/// smaller one.
proof fn lemma_hex_prefix(s: Seq<u8>, k: int)
    requires
        0 <= k <= s.len(),
        hex_digits(s) is Some,
    ensures
        hex_digits(s.subrange(0, k)) is Some,
        hex_digits(s.subrange(0, k))->Some_0 <= hex_digits(s)->Some_0,
    decreases s.len() - k,
{
    if k < s.len() {
        assert(s.subrange(0, k + 1).drop_last() =~= s.subrange(0, k));
        let t = s.subrange(0, k + 1);
        if k + 1 == s.len() {
            assert(t =~= s);
        } else {
            lemma_hex_prefix(s, k + 1);
        }
    } else {
        assert(s.subrange(0, k) =~= s);
    }
}

/// Reads `name` as a 32-bit hexadecimal number and writes its low 16 bits,
/// big-endian, to `word`; a name that is no such number is a `Config` error.
pub fn name2word(name: &str, word: &mut [u8; 2]) -> (r: Result<(), BloomError>)
    ensures
        match hex_u32(name.spec_bytes()) {
            Some(v) => r is Ok && final(word)@ == be16(v as u16),
            None => r == Err::<(), BloomError>(BloomError::Config) && *final(word) == *old(word),
        },
{
    let b: &[u8] = name.as_bytes();
    let st: usize = if b.len() > 0 && b[0] == PLUS {
        1
    } else {
        0
    };
    let ghost d = if b@.len() > 0 && b@[0] == PLUS {
        b@.drop_first()
    } else {
        b@
    };
    proof {
        assert(d =~= b@.subrange(st as int, b@.len() as int));
    }
    if st == b.len() {
        return Err(BloomError::Config);
    }
    let mut acc: u64 = 0;
    let mut i: usize = st;
    while i < b.len()
        invariant
            st <= i <= b@.len(),
            d == b@.subrange(st as int, b@.len() as int),
            d == (if b@.len() > 0 && b@[0] == PLUS {
                b@.drop_first()
            } else {
                b@
            }),
            d.len() > 0,
            *word == *old(word),
            b@ == name.spec_bytes(),
            acc <= u32::MAX,
            hex_digits(d.subrange(0, i - st)) == Some(acc as nat),
        decreases b@.len() - i,
    {
        let c: u8 = b[i];
        let dig: u64 = if 48 <= c && c <= 57 {
            (c - 48) as u64
        } else if 97 <= c && c <= 102 {
            (c - 87) as u64
        } else if 65 <= c && c <= 70 {
            (c - 55) as u64
        } else {
            proof {
                assert(d.subrange(0, i - st + 1).drop_last() =~= d.subrange(0, i - st));
                assert(d.subrange(0, i - st + 1).last() == c);
                assert(hex_digit(c) is None);
                assert(hex_digits(d.subrange(0, i - st + 1)) is None);
                if hex_digits(d) is Some {
                    lemma_hex_prefix(d, i - st + 1);
                }
                assert(hex_u32(b@) is None);
            }
            return Err(BloomError::Config);
        };
        let next: u64 = acc * 16 + dig;
        proof {
            assert(d.subrange(0, i - st + 1).drop_last() =~= d.subrange(0, i - st));
            assert(d.subrange(0, i - st + 1).last() == c);
            assert(hex_digits(d.subrange(0, i - st + 1)) == Some(next as nat));
        }
        if next > 0xffff_ffffu64 {
            proof {
                if hex_digits(d) is Some {
                    lemma_hex_prefix(d, i - st + 1);
                    assert(hex_digits(d)->Some_0 > u32::MAX);
                }
                assert(hex_u32(b@) is None);
            }
            return Err(BloomError::Config);
        }
        acc = next;
        i = i + 1;
    }
    proof {
        assert(d.subrange(0, i - st) =~= d);
    }
    let v: u32 = acc as u32;
    *word = [(v >> 8u32) as u8, (v & 0xff) as u8];
    proof {
        assert(((v >> 8u32) as u8) == (((v as u16) >> 8u16) as u8)) by (bit_vector);
        assert(((v & 0xff) as u8) == ((v as u16) as u8)) by (bit_vector);
        assert(word@ =~= be16(v as u16));
    }
    Ok(())
}

/// Appends the bytes of `s` to `buf`.
fn append_bytes(buf: &mut Vec<u8>, s: &[u8])
    ensures
        final(buf)@ == old(buf)@ + s@,
{
    let mut i: usize = 0;
    while i < s.len()
        invariant
            0 <= i <= s@.len(),
            buf@ == old(buf)@ + s@.subrange(0, i as int),
        decreases s@.len() - i,
    {
        buf.push(s[i]);
        i = i + 1;
        proof {
            assert(buf@ =~= old(buf)@ + s@.subrange(0, i as int));
        }
    }
    proof {
        assert(s@.subrange(0, s@.len() as int) =~= s@);
    }
}

/// The generic record: the name's UTF-8 bytes, then the filter bytes, with
/// no length or delimiter.
pub open spec fn generic_record(name: Seq<char>, data: Seq<u8>) -> Seq<u8> {
    encode_utf8(name) + data
}

/// The fixed record: the low 16 bits of the name read as a 32-bit
/// hexadecimal number, big-endian, then the filter bytes; none where the
/// name is no such number.
pub open spec fn fixed_record(name: Seq<char>, data: Seq<u8>) -> Option<Seq<u8>> {
    match hex_u32(encode_utf8(name)) {
        Some(v) => Some(be16(v as u16) + data),
        None => None,
    }
}

/// Appends the generic record of `named` to `buf`.
pub fn name2bloom2buf(named: &NamedBloomBytesXs, buf: &mut Vec<u8>)
    ensures
        final(buf)@ == old(buf)@ + generic_record(named.name@, named.data@),
{
    append_bytes(buf, named.name.as_str().as_bytes());
    append_bytes(buf, &named.data);
    proof {
        assert(final(buf)@ =~= old(buf)@ + generic_record(named.name@, named.data@));
    }
}

/// Appends the two bytes that a name converter made of the name, then the
/// filter bytes of `named`, with no length or delimiter.
pub fn name2word2bloom2buf(word: &[u8; 2], named: &NamedBloomBytesXs, buf: &mut Vec<u8>)
    ensures
        final(buf)@ == old(buf)@ + word@ + named.data@,
{
    append_bytes(buf, word);
    append_bytes(buf, &named.data);
    proof {
        assert(final(buf)@ =~= old(buf)@ + word@ + named.data@);
    }
}

/// Appends the fixed record of `named` to `buf`; a name that is not a 32-bit
/// hexadecimal number is a `Config` error and leaves `buf` as it was.
pub fn bloom2buf(named: &NamedBloomBytesXs, buf: &mut Vec<u8>) -> (r: Result<(), BloomError>)
    ensures
        match fixed_record(named.name@, named.data@) {
            Some(rec) => r is Ok && final(buf)@ == old(buf)@ + rec,
            None => r == Err::<(), BloomError>(BloomError::Config) && final(buf)@ == old(buf)@,
        },
{
    let mut wbuf: [u8; 2] = [0u8; 2];
    match name2word(named.name.as_str(), &mut wbuf) {
        Ok(()) => {},
        Err(e) => return Err(e),
    }
    name2word2bloom2buf(&wbuf, named, buf);
    proof {
        let v = hex_u32(encode_utf8(named.name@))->Some_0;
        assert(final(buf)@ =~= old(buf)@ + (be16(v as u16) + named.data@));
    }
    Ok(())
}

} // verus!
