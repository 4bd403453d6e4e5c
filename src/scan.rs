//! The scan: each member of an archive, in order, decoded, paired into
//! records, folded into one filter and written out as one record.
use crate::bloom::bloom_of;
use crate::container::{container_fields, gunzip_of, NamedJsonAsn1};
use crate::error::BloomError;
use crate::json::{
    aligned_len, be16, field_fingerprint, item_fingerprints, json_object_of,
    key2json2hash2bloom, records_parse, NamedJsonItem,
};
use crate::lines::lines_of;
use crate::record::{bloom2buf, fixed_record, generic_record, name2bloom2buf, NamedBloomBytesXs};
use vstd::prelude::*;

verus! {

#[verifier::external_type_specification]
#[verifier::external_body]
#[verifier::reject_recursive_types(R)]
pub struct ExZipArchive<R>(zip::ZipArchive<R>);

#[verifier::external_type_specification]
#[verifier::external_body]
#[verifier::reject_recursive_types(T)]
pub struct ExCursor<T>(std::io::Cursor<T>);

#[verifier::external_type_specification]
#[verifier::external_body]
pub struct ExZipError(zip::result::ZipError);

/// An archive held in memory.
/// An archive held in memory.
pub type MemArchive = zip::ZipArchive<std::io::Cursor<Vec<u8>>>;

/// What an archive holds: each member's name and decompressed bytes, in the
/// order of its central directory; none for a member that cannot be read
/// (an unsupported method, a corrupt stream, a checksum mismatch).
pub uninterp spec fn zip_entries(z: zip::ZipArchive<std::io::Cursor<Vec<u8>>>) -> Seq<
    (Seq<char>, Option<Seq<u8>>),
>;

/// Relies on `zip::ZipArchive::len`: the number of members.
#[verifier::external_body]
fn zip_len(z: &MemArchive) -> (r: usize)
    ensures
        r == zip_entries(*z).len(),
{
    z.len()
}

/// Relies on `zip::ZipArchive::by_index`, the member's `Read` impl through
/// `std::io::copy`, and `zip::read::ZipFile::name`: it succeeds exactly for a
/// member that exists and can be read, and then `abuf` holds the member's
/// decompressed bytes and its name is returned. Reading moves the archive's
/// reader, not what the archive holds.
#[verifier::external_body]
fn zip_read_member(z: &mut MemArchive, ix: usize, abuf: &mut Vec<u8>) -> (r: Result<
    String,
    zip::result::ZipError,
>)
    ensures
        zip_entries(*final(z)) == zip_entries(*old(z)),
        r is Ok <==> ix < zip_entries(*old(z)).len() && zip_entries(*old(z))[ix as int].1 is Some,
        r is Ok ==> r->Ok_0@ == zip_entries(*old(z))[ix as int].0 && final(abuf)@ == zip_entries(
            *old(z),
        )[ix as int].1->Some_0,
{
    abuf.clear();
    let mut f = z.by_index(ix)?;
    std::io::copy(&mut f, abuf)?;
    Ok(f.name().to_string())
}

/// The layout in which records are written.
#[derive(Debug, Clone, Copy, PartialEq, Eq, Structural)]
pub enum RecordFormat {
    /// The name's bytes, then the two filter bytes.
    Generic,
    /// The name read as hexadecimal, its low 16 bits, then the two filter bytes.
    Fixed,
}


/// The fingerprints of field `key` of the records that decompressed name
/// lines `names` and JSON lines `jsonl` pair up.
pub open spec fn member_fingerprints(names: Seq<u8>, jsonl: Seq<u8>, key: Seq<char>) -> Seq<u16> {
    Seq::new(
        aligned_len(names, jsonl) as nat,
        |i: int| field_fingerprint(json_object_of(lines_of(jsonl, false)[i])->Some_0, key),
    )
}

/// Why a member's raw bytes yield no filter, if they yield one: the
/// container does not decode, else a stream is not valid gzip, else the
/// lines do not parse.
pub open spec fn member_error(raw: Seq<u8>) -> Option<BloomError> {
    match container_fields(raw) {
        None => Some(BloomError::Decode),
        Some((n, j)) => if gunzip_of(n) is None || gunzip_of(j) is None {
            Some(BloomError::Compression)
        } else if !records_parse(gunzip_of(n)->Some_0, gunzip_of(j)->Some_0) {
            Some(BloomError::Parse)
        } else {
            None
        },
    }
}

/// The filter of a member that yields one: the probes of the fingerprint of
/// field `key` of each of its records, ORed into 0.
pub open spec fn member_bloom(raw: Seq<u8>, key: Seq<char>) -> u16 {
    let (n, j) = container_fields(raw)->Some_0;
    bloom_of(0, member_fingerprints(gunzip_of(n)->Some_0, gunzip_of(j)->Some_0, key))
}

/// Computes the filter of one member from its raw bytes and stores it, with
/// the member's name, in `named`. `nbuf` and `jbuf` are scratch space for
/// the decompressed streams.
pub fn zfile2named_bloom(
    name: &str,
    raw: &[u8],
    key: &str,
    named: &mut NamedBloomBytesXs,
    nbuf: &mut Vec<u8>,
    jbuf: &mut Vec<u8>,
) -> (r: Result<(), BloomError>)
    ensures
        r is Ok <==> member_error(raw@) is None,
        r is Err ==> member_error(raw@) == Some(r->Err_0),
        r is Ok ==> {
            &&& final(named).name@ == name@
            &&& final(named).data@ == be16(member_bloom(raw@, key@))
        },
{
    named.clear();
    let decoded: NamedJsonAsn1 = match NamedJsonAsn1::from_der(raw) {
        Ok(d) => d,
        Err(e) => return Err(e),
    };
    let items: Vec<NamedJsonItem> = match decoded.to_named_json_items(nbuf, jbuf) {
        Ok(items) => items,
        Err(e) => return Err(e),
    };
    let bloom: [u8; 2] = key2json2hash2bloom(key, items.as_slice());
    proof {
        let names = gunzip_of(decoded.gzipped_names@)->Some_0;
        let jsonl = gunzip_of(decoded.gzipped_jsonl@)->Some_0;
        assert(item_fingerprints(items@, key@) =~= member_fingerprints(names, jsonl, key@));
    }
    named.set_name(name);
    named.set_data(bloom);
    Ok(())
}

/// Appends the record of `named` in `format` to `out`; a name that does not
/// suit `format` is a `Config` error and leaves `out` as it was.
pub fn write_record(named: &NamedBloomBytesXs, format: RecordFormat, out: &mut Vec<u8>) -> (r: Result<
    (),
    BloomError,
>)
    ensures
        match record_of_bytes(format, named.name@, named.data@) {
            Some(rec) => r is Ok && final(out)@ == old(out)@ + rec,
            None => r == Err::<(), BloomError>(BloomError::Config) && final(out)@ == old(out)@,
        },
{
    match format {
        RecordFormat::Generic => {
            name2bloom2buf(named, out);
            Ok(())
        },
        RecordFormat::Fixed => bloom2buf(named, out),
    }
}

/// The record of a member with name `name` and filter bytes `data`, if the
/// name suits `format`.
pub open spec fn record_of_bytes(format: RecordFormat, name: Seq<char>, data: Seq<u8>) -> Option<
    Seq<u8>,
> {
    match format {
        RecordFormat::Generic => Some(generic_record(name, data)),
        RecordFormat::Fixed => fixed_record(name, data),
    }
}

/// Why an archive entry yields no record, if it yields one: it cannot be
/// read, else its bytes yield no filter, else its name does not suit `format`.
pub open spec fn entry_error(
    e: (Seq<char>, Option<Seq<u8>>),
    key: Seq<char>,
    format: RecordFormat,
) -> Option<BloomError> {
    match e.1 {
        None => Some(BloomError::Io),
        Some(raw) => match member_error(raw) {
            Some(err) => Some(err),
            None => if record_of_bytes(format, e.0, be16(member_bloom(raw, key))) is None {
                Some(BloomError::Config)
            } else {
                None
            },
        },
    }
}

/// The records of `entries`, one after another, in order.
pub open spec fn scan_output(
    entries: Seq<(Seq<char>, Option<Seq<u8>>)>,
    key: Seq<char>,
    format: RecordFormat,
) -> Seq<u8>
    decreases entries.len(),
{
    if entries.len() == 0 {
        seq![]
    } else {
        let e = entries.last();
        scan_output(entries.drop_last(), key, format) + record_of_bytes(
            format,
            e.0,
            be16(member_bloom(e.1->Some_0, key)),
        )->Some_0
    }
}

/// Reads member `ix` of `zf`, computes its filter and appends its record to
/// `out`. Where the member yields no record, its error comes back and `out`
/// stays as it was; an index past the last member is an `Io` error.
pub fn zip_member2record(
    zf: &mut MemArchive,
    ix: usize,
    key: &str,
    format: RecordFormat,
    named: &mut NamedBloomBytesXs,
    abuf: &mut Vec<u8>,
    nbuf: &mut Vec<u8>,
    jbuf: &mut Vec<u8>,
    out: &mut Vec<u8>,
) -> (r: Result<(), BloomError>)
    ensures
        zip_entries(*final(zf)) == zip_entries(*old(zf)),
        ix >= zip_entries(*old(zf)).len() ==> r == Err::<(), BloomError>(BloomError::Io)
            && final(out)@ == old(out)@,
        ix < zip_entries(*old(zf)).len() ==> {
            let e = zip_entries(*old(zf))[ix as int];
            match entry_error(e, key@, format) {
                None => r is Ok && final(out)@ == old(out)@ + record_of_bytes(
                    format,
                    e.0,
                    be16(member_bloom(e.1->Some_0, key@)),
                )->Some_0,
                Some(err) => r == Err::<(), BloomError>(err) && final(out)@ == old(out)@,
            }
        },
{
    let name: String = match zip_read_member(zf, ix, abuf) {
        Ok(n) => n,
        Err(_) => return Err(BloomError::Io),
    };
    match zfile2named_bloom(name.as_str(), abuf.as_slice(), key, named, nbuf, jbuf) {
        Ok(()) => {},
        Err(e) => return Err(e),
    }
    write_record(named, format, out)
}

/// Scans every member of `zf` in order and appends one record per member to
/// `out` as soon as it is computed. The scan succeeds exactly when every
/// member yields a record; the first member that does not stops it with its
/// error, and the records of the members before it stay in `out`.
pub fn zip2named_bloom2writer(
    zf: &mut MemArchive,
    key: &str,
    format: RecordFormat,
    named: &mut NamedBloomBytesXs,
    abuf: &mut Vec<u8>,
    nbuf: &mut Vec<u8>,
    jbuf: &mut Vec<u8>,
    out: &mut Vec<u8>,
) -> (r: Result<(), BloomError>)
    ensures
        zip_entries(*final(zf)) == zip_entries(*old(zf)),
        r is Ok <==> forall|i: int|
            0 <= i < zip_entries(*old(zf)).len() ==> entry_error(
                #[trigger] zip_entries(*old(zf))[i],
                key@,
                format,
            ) is None,
        r is Ok ==> final(out)@ == old(out)@ + scan_output(zip_entries(*old(zf)), key@, format),
        r is Err ==> exists|k: int|
            0 <= k < zip_entries(*old(zf)).len() && (forall|i: int|
                0 <= i < k ==> entry_error(#[trigger] zip_entries(*old(zf))[i], key@, format) is None)
                && entry_error(zip_entries(*old(zf))[k], key@, format) == Some(r->Err_0)
                && final(out)@ == old(out)@ + scan_output(zip_entries(*old(zf)).take(k), key@, format),
        zip_entries(*old(zf)).len() == 0 ==> r is Ok && final(out)@ == old(out)@,
        zip_entries(*old(zf)).len() > 0 && entry_error(zip_entries(*old(zf))[0], key@, format) is Some
            ==> r is Err && final(out)@ == old(out)@,
{
    let ghost es = zip_entries(*zf);
    let sz: usize = zip_len(zf);
    let mut ix: usize = 0;
    proof {
        assert(es.take(0) =~= Seq::<(Seq<char>, Option<Seq<u8>>)>::empty());
        assert(out@ =~= old(out)@ + scan_output(es.take(0), key@, format));
    }
    while ix < sz
        invariant
            0 <= ix <= sz,
            sz == es.len(),
            es == zip_entries(*old(zf)),
            zip_entries(*zf) == es,
            forall|i: int| 0 <= i < ix ==> entry_error(#[trigger] es[i], key@, format) is None,
            out@ == old(out)@ + scan_output(es.take(ix as int), key@, format),
        decreases sz - ix,
    {
        match zip_member2record(zf, ix, key, format, named, abuf, nbuf, jbuf, out) {
            Ok(()) => {},
            Err(e) => return Err(e),
        }
        proof {
            assert(es.take(ix + 1).drop_last() =~= es.take(ix as int));
            assert(es.take(ix + 1).last() == es[ix as int]);
        }
        ix = ix + 1;
    }
    proof {
        assert(es.take(sz as int) =~= es);
    }
    Ok(())
}

} // verus!
