//! The 64-bit digest of a field value: the first eight bytes, big-endian, of
//! the SHA-256 digest of the value's byte form; 0 for an absent value.
use sha2::Digest;
use vstd::prelude::*;
use vstd::string::StringSliceAdditionalSpecFns;
use vstd::utf8::encode_utf8;

verus! {

/// What SHA-256 makes of a byte sequence.
pub uninterp spec fn sha256_of(b: Seq<u8>) -> Seq<u8>;

/// Relies on `sha2::Sha256::digest`: the 32-byte SHA-256 digest of `s`.
#[verifier::external_body]
fn sha256(s: &[u8]) -> (r: Vec<u8>)
    ensures
        r@ == sha256_of(s@),
        r@.len() == 32,
{
    sha2::Sha256::digest(s).to_vec()
}

/// The unsigned integer whose big-endian bytes are `s`, kept to 64 bits.
pub open spec fn be_u64(s: Seq<u8>) -> u64
    decreases s.len(),
{
    if s.len() == 0 {
        0
    } else {
        (be_u64(s.drop_last()) << 8u64) | (s.last() as u64)
    }
}

/// The eight big-endian bytes of `u`.
pub open spec fn be_bytes(u: u64) -> Seq<u8> {
    seq![
        (u >> 56u64) as u8,
        (u >> 48u64) as u8,
        (u >> 40u64) as u8,
        (u >> 32u64) as u8,
        (u >> 24u64) as u8,
        (u >> 16u64) as u8,
        (u >> 8u64) as u8,
        u as u8,
    ]
}

/// The 64-bit digest of a byte sequence: the first eight bytes of its
/// SHA-256 digest, read big-endian.
pub open spec fn bytes_digest(b: Seq<u8>) -> u64 {
    be_u64(sha256_of(b).subrange(0, 8))
}

/// The single byte that stands for a boolean.
pub open spec fn bool_byte(b: bool) -> u8 {
    if b {
        1
    } else {
        0
    }
}

/// A field value projected to one of four simple kinds.
pub enum SimpleValue<'a> {
    Null,
    Bool(bool),
    Int(i64),
    Str(&'a str),
}

/// What a simple value holds, with a string as its characters.
pub enum FieldModel {
    Null,
    Bool(bool),
    Int(i64),
    Str(Seq<char>),
}

impl<'a> View for SimpleValue<'a> {
    type V = FieldModel;

    open spec fn view(&self) -> FieldModel {
        match *self {
            SimpleValue::Null => FieldModel::Null,
            SimpleValue::Bool(b) => FieldModel::Bool(b),
            SimpleValue::Int(i) => FieldModel::Int(i),
            SimpleValue::Str(s) => FieldModel::Str(s@),
        }
    }
}

/// The 64-bit digest of a field value: 0 for `Null`, else the digest of its
/// byte form (one byte 0 or 1; eight big-endian bytes; the UTF-8 bytes).
pub open spec fn model_digest(v: FieldModel) -> u64 {
    match v {
        FieldModel::Null => 0,
        FieldModel::Bool(b) => bytes_digest(seq![bool_byte(b)]),
        FieldModel::Int(i) => bytes_digest(be_bytes(i as u64)),
        FieldModel::Str(s) => bytes_digest(encode_utf8(s)),
    }
}

impl<'a> SimpleValue<'a> {
    /// The digest of an absent value: always 0, with no hashing.
    pub fn null2hash() -> (r: u64)
        ensures
            r == 0,
    {
        0
    }

    /// The digest of the single byte 0 or 1.
    pub fn bool2hash(b: bool) -> (r: u64)
        ensures
            r == bytes_digest(seq![bool_byte(b)]),
    {
        let u: u8 = if b {
            1
        } else {
            0
        };
        let a: [u8; 1] = [u];
        proof {
            assert(a@ =~= seq![bool_byte(b)]);
        }
        Self::slice2hash256sha(&a)
    }

    /// The first eight bytes, big-endian, of the SHA-256 digest of `s`.
    pub fn slice2hash256sha(s: &[u8]) -> (r: u64)
        ensures
            r == bytes_digest(s@),
    {
        let res: Vec<u8> = sha256(s);
        let mut a: u64 = 0;
        let mut i: usize = 0;
        while i < 8
            invariant
                0 <= i <= 8,
                res@.len() == 32,
                res@ == sha256_of(s@),
                a == be_u64(res@.subrange(0, i as int)),
            decreases 8 - i,
        {
            proof {
                assert(res@.subrange(0, i + 1).drop_last() =~= res@.subrange(0, i as int));
            }
            a = (a << 8u64) | (res[i] as u64);
            i = i + 1;
        }
        a
    }

    /// The digest of the eight big-endian two's-complement bytes of `i`.
    pub fn int2hash256sha(i: i64) -> (r: u64)
        ensures
            r == bytes_digest(be_bytes(i as u64)),
    {
        let u: u64 = i as u64;
        let a: [u8; 8] = [
            (u >> 56u64) as u8,
            (u >> 48u64) as u8,
            (u >> 40u64) as u8,
            (u >> 32u64) as u8,
            (u >> 24u64) as u8,
            (u >> 16u64) as u8,
            (u >> 8u64) as u8,
            u as u8,
        ];
        proof {
            assert(a@ =~= be_bytes(u));
        }
        Self::slice2hash256sha(&a)
    }

    /// The digest of the UTF-8 bytes of `s`.
    pub fn str2hash256sha(s: &str) -> (r: u64)
        ensures
            r == bytes_digest(s.spec_bytes()),
    {
        let sl: &[u8] = s.as_bytes();
        Self::slice2hash256sha(sl)
    }

    /// The digest of this value: 0 for `Null`, else the digest of its bytes.
    pub fn to_hash(&self) -> (r: u64)
        ensures
            r == model_digest(self@),
    {
        match self {
            SimpleValue::Null => Self::null2hash(),
            SimpleValue::Bool(b) => Self::bool2hash(*b),
            SimpleValue::Int(i) => Self::int2hash256sha(*i),
            SimpleValue::Str(s) => Self::str2hash256sha(s),
        }
    }
}

} // verus!
