//! Named JSON records: a name paired with a parsed JSON object, and the
//! projection of one field of the object to a simple value.
use crate::bloom::{fold_to_fingerprint, hash_to_fingerprint, probes, update_bloom_xs};
use crate::bloom::{bloom_of, lemma_absent_probe, lemma_bloom_monotone, lemma_bloom_order_free};
use crate::container::{gunzip_of, NamedJsonAsn1};
use crate::error::BloomError;
use crate::hash::{model_digest, FieldModel, SimpleValue};
use crate::lines::{lines_of, split_lines};
use serde_json::Value;
use vstd::prelude::*;
use vstd::utf8::{decode_utf8, valid_utf8};

verus! {

#[verifier::external_type_specification]
#[verifier::external_body]
pub struct ExJsonValue(serde_json::Value);

#[verifier::external_type_specification]
#[verifier::external_body]
#[verifier::reject_recursive_types(K)]
#[verifier::reject_recursive_types(V)]
pub struct ExJsonMap<K, V>(serde_json::Map<K, V>);

#[verifier::external_type_specification]
#[verifier::external_body]
pub struct ExJsonError(serde_json::Error);

/// What a JSON object holds: each key, as characters, with its value.
pub uninterp spec fn object_entries(m: serde_json::Map<String, serde_json::Value>) -> Map<
    Seq<char>,
    serde_json::Value,
>;

/// The boolean that a JSON value is, if it is one.
pub uninterp spec fn json_bool(v: serde_json::Value) -> Option<bool>;

/// The integer that a JSON value is, if it is a number that fits in `i64`.
pub uninterp spec fn json_i64(v: serde_json::Value) -> Option<i64>;

/// The string that a JSON value is, if it is one.
pub uninterp spec fn json_str(v: serde_json::Value) -> Option<Seq<char>>;

/// The JSON object that a byte sequence parses as, if it parses as one.
pub uninterp spec fn json_object_of(b: Seq<u8>) -> Option<serde_json::Map<String, serde_json::Value>>;

/// A borrowed string seen as its characters.
pub open spec fn str_view(r: Option<&str>) -> Option<Seq<char>> {
    match r {
        Some(s) => Some(s@),
        None => None,
    }
}

/// Relies on `serde_json::Value::as_bool`: `Some` exactly for a boolean.
pub assume_specification[ serde_json::Value::as_bool ](v: &serde_json::Value) -> (r: Option<bool>)
    ensures
        r == json_bool(*v),
;

/// Relies on `serde_json::Value::as_i64`: `Some` exactly for a number that is
/// an integer within `i64`.
pub assume_specification[ serde_json::Value::as_i64 ](v: &serde_json::Value) -> (r: Option<i64>)
    ensures
        r == json_i64(*v),
;

/// Relies on `serde_json::Value::as_str`: `Some` exactly for a string.
pub assume_specification<'a>[ serde_json::Value::as_str ](v: &'a serde_json::Value) -> (r: Option<
    &'a str,
>)
    ensures
        str_view(r) == json_str(*v),
;

/// Relies on `serde_json::Map::get`: the value stored under `key`, if any.
#[verifier::external_body]
fn object_get<'a>(m: &'a serde_json::Map<String, Value>, key: &str) -> (r: Option<&'a Value>)
    ensures
        r is Some <==> object_entries(*m).contains_key(key@),
        r is Some ==> *r->Some_0 == object_entries(*m)[key@],
{
    m.get(key)
}

/// Relies on `serde_json::from_slice` into a `serde_json::Map`: the object
/// that `line` parses as, or an error where it parses as none.
#[verifier::external_body]
fn parse_object(line: &[u8]) -> (r: Result<serde_json::Map<String, Value>, serde_json::Error>)
    ensures
        r is Ok <==> json_object_of(line@) is Some,
        r is Ok ==> r->Ok_0 == json_object_of(line@)->Some_0,
{
    serde_json::from_slice::<serde_json::Map<String, Value>>(line)
}

/// Relies on `String::from_utf8`: a string exactly when `b` is valid UTF-8.
#[verifier::external_body]
fn utf8_string(b: Vec<u8>) -> (r: Option<String>)
    ensures
        r is Some <==> valid_utf8(b@),
        r is Some ==> r->Some_0@ == decode_utf8(b@),
{
    String::from_utf8(b).ok()
}

/// The simple value of a JSON value: a boolean, an integer within `i64` or a
/// string; anything else is `Null`.
pub open spec fn value_model(v: serde_json::Value) -> FieldModel {
    match json_bool(v) {
        Some(b) => FieldModel::Bool(b),
        None => match json_i64(v) {
            Some(i) => FieldModel::Int(i),
            None => match json_str(v) {
                Some(s) => FieldModel::Str(s),
                None => FieldModel::Null,
            },
        },
    }
}

/// The simple value of field `key` of an object; `Null` where it is absent.
pub open spec fn field_model(m: Map<Seq<char>, serde_json::Value>, key: Seq<char>) -> FieldModel {
    if m.contains_key(key) {
        value_model(m[key])
    } else {
        FieldModel::Null
    }
}

/// The 16-bit fingerprint of field `key` of a JSON object.
pub open spec fn field_fingerprint(
    json: serde_json::Map<String, serde_json::Value>,
    key: Seq<char>,
) -> u16 {
    fold_to_fingerprint(model_digest(field_model(object_entries(json), key)))
}

/// The fingerprint of field `key` depends on the simple value of that field
/// alone: two objects that agree on it give the same fingerprint and set the
/// same probe bits.
pub proof fn lemma_fingerprint_determined(
    a: serde_json::Map<String, serde_json::Value>,
    b: serde_json::Map<String, serde_json::Value>,
    key: Seq<char>,
)
    requires
        field_model(object_entries(a), key) == field_model(object_entries(b), key),
    ensures
        field_fingerprint(a, key) == field_fingerprint(b, key),
        probes(field_fingerprint(a, key)) == probes(field_fingerprint(b, key)),
{
}

/// A record without field `key`, or whose field holds no boolean, integer
/// within `i64` or string, contributes the fixed fingerprint 0, whose only
/// probe bit is bit 0.
pub proof fn lemma_absent_field(json: serde_json::Map<String, serde_json::Value>, key: Seq<char>)
    requires
        !object_entries(json).contains_key(key) || value_model(object_entries(json)[key])
            == FieldModel::Null,
    ensures
        field_model(object_entries(json), key) == FieldModel::Null,
        field_fingerprint(json, key) == 0,
        probes(field_fingerprint(json, key)) == 1,
{
    lemma_absent_probe();
}

/// A name paired with the JSON object of the same position.
pub struct NamedJsonItem {
    pub name: String,
    pub json: serde_json::Map<String, Value>,
}

impl NamedJsonItem {
    /// The value of field `key`, if the object has it.
    pub fn get_value(&self, key: &str) -> (r: Option<&Value>)
        ensures
            r is Some <==> object_entries(self.json).contains_key(key@),
            r is Some ==> *r->Some_0 == object_entries(self.json)[key@],
    {
        object_get(&self.json, key)
    }

    /// The simple value of field `key`: absent fields and values of other
    /// kinds (arrays, objects, null, non-integral or too large numbers) are `Null`.
    pub fn to_simple_value(&self, key: &str) -> (r: SimpleValue<'_>)
        ensures
            r@ == field_model(object_entries(self.json), key@),
    {
        match self.get_value(key) {
            None => SimpleValue::Null,
            Some(v) => {
                if let Some(b) = v.as_bool() {
                    SimpleValue::Bool(b)
                } else if let Some(i) = v.as_i64() {
                    SimpleValue::Int(i)
                } else if let Some(s) = v.as_str() {
                    SimpleValue::Str(s)
                } else {
                    SimpleValue::Null
                }
            },
        }
    }

    /// The 64-bit digest of field `key`.
    pub fn json_to_hash(&self, key: &str) -> (r: u64)
        ensures
            r == model_digest(field_model(object_entries(self.json), key@)),
    {
        self.to_simple_value(key).to_hash()
    }

    /// Sets the probe bits of this record's fingerprint for `key` in `prior_bloom`.
    pub fn json2hash2bloom(&self, prior_bloom: u16, key: &str) -> (r: u16)
        ensures
            r == prior_bloom | probes(field_fingerprint(self.json, key@)),
    {
        let ha: u64 = self.json_to_hash(key);
        let hf: u16 = hash_to_fingerprint(ha);
        update_bloom_xs(prior_bloom, hf)
    }
}

/// The number of records that `names` and `jsonl` pair up: the shorter count
/// of lines.
pub open spec fn aligned_len(names: Seq<u8>, jsonl: Seq<u8>) -> int {
    let n = lines_of(names, true).len();
    let j = lines_of(jsonl, false).len();
    if n <= j {
        n as int
    } else {
        j as int
    }
}

/// Every name line that is paired is UTF-8, and every JSON line, paired or
/// not, is a JSON object.
pub open spec fn records_parse(names: Seq<u8>, jsonl: Seq<u8>) -> bool {
    &&& forall|i: int|
        0 <= i < aligned_len(names, jsonl) ==> valid_utf8(#[trigger] lines_of(names, true)[i])
    &&& forall|i: int|
        0 <= i < lines_of(jsonl, false).len() ==> json_object_of(
            #[trigger] lines_of(jsonl, false)[i],
        ) is Some
}

/// `items` pairs the i-th name line with the i-th JSON line, as far as both go.
pub open spec fn aligned_items(items: Seq<NamedJsonItem>, names: Seq<u8>, jsonl: Seq<u8>) -> bool {
    &&& items.len() == aligned_len(names, jsonl)
    &&& forall|i: int|
        0 <= i < items.len() ==> (#[trigger] items[i]).name@ == decode_utf8(lines_of(names, true)[i])
            && items[i].json == json_object_of(lines_of(jsonl, false)[i])->Some_0
}

/// Pairs name lines with JSON lines by position, as far as the shorter list
/// goes. Names end at a line feed, with a carriage return before it dropped.
/// A paired name that is not UTF-8, or any JSON line that is not an object,
/// is a `Parse` error.
pub fn align_records(names: &[u8], jsonl: &[u8]) -> (r: Result<Vec<NamedJsonItem>, BloomError>)
    ensures
        r is Ok <==> records_parse(names@, jsonl@),
        r is Ok ==> aligned_items(r->Ok_0@, names@, jsonl@),
        r is Err ==> r == Err::<Vec<NamedJsonItem>, BloomError>(BloomError::Parse),
{
    let nl: Vec<Vec<u8>> = split_lines(names, true);
    let jl: Vec<Vec<u8>> = split_lines(jsonl, false);
    let ghost nls = lines_of(names@, true);
    let ghost jls = lines_of(jsonl@, false);
    proof {
        assert(nl@.len() == nls.len() && jl@.len() == jls.len()) by {
            assert(crate::lines::views(nl@).len() == nl@.len());
            assert(crate::lines::views(jl@).len() == jl@.len());
        }
    }
    let n: usize = if nl.len() <= jl.len() {
        nl.len()
    } else {
        jl.len()
    };
    let mut items: Vec<NamedJsonItem> = Vec::new();
    let mut i: usize = 0;
    while i < jl.len()
        invariant
            0 <= i <= jl@.len(),
            n == aligned_len(names@, jsonl@),
            n <= nl@.len() && n <= jl@.len(),
            crate::lines::views(nl@) == nls,
            crate::lines::views(jl@) == jls,
            nls == lines_of(names@, true),
            jls == lines_of(jsonl@, false),
            items@.len() == if i <= n {
                i as int
            } else {
                n as int
            },
            forall|k: int| 0 <= k < items@.len() ==> valid_utf8(#[trigger] nls[k]),
            forall|k: int| 0 <= k < i ==> json_object_of(#[trigger] jls[k]) is Some,
            forall|k: int|
                0 <= k < items@.len() ==> (#[trigger] items@[k]).name@ == decode_utf8(nls[k])
                    && items@[k].json == json_object_of(jls[k])->Some_0,
        decreases jl@.len() - i,
    {
        assert(jl@[i as int]@ == jls[i as int]);
        let json: serde_json::Map<String, Value> = match parse_object(jl[i].as_slice()) {
            Ok(m) => m,
            Err(_) => return Err(BloomError::Parse),
        };
        if i < n {
            assert(nl@[i as int]@ == nls[i as int]);
            let name: String = match utf8_string(nl[i].clone()) {
                Some(s) => s,
                None => return Err(BloomError::Parse),
            };
            items.push(NamedJsonItem { name, json });
        }
        i = i + 1;
    }
    Ok(items)
}

impl<'a> NamedJsonAsn1<'a> {
    /// Decompresses both streams into `nbuf` and `jbuf` and pairs their lines
    /// into records: a `Compression` error where a stream is not valid gzip,
    /// else a `Parse` error where the lines do not parse.
    pub fn to_named_json_items(&self, nbuf: &mut Vec<u8>, jbuf: &mut Vec<u8>) -> (r: Result<
        Vec<NamedJsonItem>,
        BloomError,
    >)
        ensures
            r == Err::<Vec<NamedJsonItem>, BloomError>(BloomError::Compression) <==> (gunzip_of(
                self.gzipped_names@,
            ) is None || gunzip_of(self.gzipped_jsonl@) is None),
            gunzip_of(self.gzipped_names@) is Some && gunzip_of(self.gzipped_jsonl@) is Some ==> (
            r is Ok <==> records_parse(
                gunzip_of(self.gzipped_names@)->Some_0,
                gunzip_of(self.gzipped_jsonl@)->Some_0,
            )),
            r is Ok ==> {
                &&& final(nbuf)@ == gunzip_of(self.gzipped_names@)->Some_0
                &&& final(jbuf)@ == gunzip_of(self.gzipped_jsonl@)->Some_0
                &&& aligned_items(r->Ok_0@, final(nbuf)@, final(jbuf)@)
            },
            r is Err ==> r == Err::<Vec<NamedJsonItem>, BloomError>(BloomError::Parse) || r == Err::<
                Vec<NamedJsonItem>,
                BloomError,
            >(BloomError::Compression),
    {
        match self.write_names(nbuf) {
            Ok(()) => {},
            Err(e) => return Err(e),
        }
        match self.write_jsonl(jbuf) {
            Ok(()) => {},
            Err(e) => return Err(e),
        }
        align_records(nbuf.as_slice(), jbuf.as_slice())
    }
}

/// The fingerprints of field `key` of each record, in order.
pub open spec fn item_fingerprints(items: Seq<NamedJsonItem>, key: Seq<char>) -> Seq<u16> {
    items.map_values(|it: NamedJsonItem| field_fingerprint(it.json, key))
}

/// A member's filter does not depend on the order of its records, nor on
/// how often one occurs: two sequences holding the same records fold to the
/// same filter.
pub proof fn lemma_records_order_free(a: Seq<NamedJsonItem>, b: Seq<NamedJsonItem>, key: Seq<char>)
    requires
        a.to_set() == b.to_set(),
    ensures
        bloom_of(0, item_fingerprints(a, key)) == bloom_of(0, item_fingerprints(b, key)),
{
    let fa = item_fingerprints(a, key);
    let fb = item_fingerprints(b, key);
    assert forall|x: u16| fa.to_set().contains(x) implies fb.to_set().contains(x) by {
        let i = choose|i: int| 0 <= i < fa.len() && fa[i] == x;
        assert(a.to_set().contains(a[i]));
        assert(b.to_set().contains(a[i]));
        let j = choose|j: int| 0 <= j < b.len() && b[j] == a[i];
        assert(fb[j] == x);
    }
    assert forall|x: u16| fb.to_set().contains(x) implies fa.to_set().contains(x) by {
        let j = choose|j: int| 0 <= j < fb.len() && fb[j] == x;
        assert(b.to_set().contains(b[j]));
        assert(a.to_set().contains(b[j]));
        let i = choose|i: int| 0 <= i < a.len() && a[i] == b[j];
        assert(fa[i] == x);
    }
    assert(fa.to_set() =~= fb.to_set());
    lemma_bloom_order_free(0, fa, fb);
}

/// Adding a record to a member never clears a bit of its filter: the filter
/// of k+1 records holds every bit of the filter of the first k.
pub proof fn lemma_records_monotone(items: Seq<NamedJsonItem>, next: NamedJsonItem, key: Seq<char>)
    ensures
        bloom_of(0, item_fingerprints(items.push(next), key)) & bloom_of(
            0,
            item_fingerprints(items, key),
        ) == bloom_of(0, item_fingerprints(items, key)),
        bloom_of(0, item_fingerprints(items.push(next), key)) == bloom_of(
            0,
            item_fingerprints(items, key),
        ) | probes(field_fingerprint(next.json, key)),
{
    assert(item_fingerprints(items.push(next), key) =~= item_fingerprints(items, key).push(
        field_fingerprint(next.json, key),
    ));
    lemma_bloom_monotone(0, item_fingerprints(items, key), field_fingerprint(next.json, key));
}

/// The two big-endian bytes of `v`.
pub open spec fn be16(v: u16) -> Seq<u8> {
    seq![(v >> 8u16) as u8, v as u8]
}

/// The filter of a member's records: the probes of each record's
/// fingerprint for `key`, ORed into 0, as two big-endian bytes.
pub fn key2json2hash2bloom(key: &str, items: &[NamedJsonItem]) -> (r: [u8; 2])
    ensures
        r@ == be16(bloom_of(0, item_fingerprints(items@, key@))),
{
    let ghost fps = item_fingerprints(items@, key@);
    let mut bloom: u16 = 0;
    let mut i: usize = 0;
    while i < items.len()
        invariant
            0 <= i <= items@.len(),
            fps == item_fingerprints(items@, key@),
            bloom == bloom_of(0, fps.subrange(0, i as int)),
        decreases items@.len() - i,
    {
        proof {
            assert(fps.subrange(0, i + 1).drop_last() =~= fps.subrange(0, i as int));
        }
        bloom = items[i].json2hash2bloom(bloom, key);
        i = i + 1;
    }
    proof {
        assert(fps.subrange(0, items@.len() as int) =~= fps);
    }
    let r: [u8; 2] = [(bloom >> 8u16) as u8, bloom as u8];
    proof {
        assert(r@ =~= be16(bloom));
    }
    r
}

} // verus!
