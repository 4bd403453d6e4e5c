use rs_namedjsons2namedbloom::bloom::{hash_to_fingerprint, update_bloom_xs};
use rs_namedjsons2namedbloom::hash::SimpleValue;

fn probes_of(values: &[&str]) -> u16 {
    let mut bloom: u16 = 0;
    for v in values {
        let hf = hash_to_fingerprint(SimpleValue::str2hash256sha(v));
        bloom = update_bloom_xs(bloom, hf);
    }
    bloom
}

#[test]
fn update_bloom_sets_the_four_window_bits() {
    assert_eq!(update_bloom_xs(0, 0x45df), 0xa030);
    assert_eq!(update_bloom_xs(0x8000, 0x1234), 0x801e);
    assert_eq!(update_bloom_xs(0, 0xffff), 0x8000);
}

#[test]
fn zero_fingerprint_sets_bit_zero_only() {
    assert_eq!(update_bloom_xs(0, 0), 1);
    assert_eq!(hash_to_fingerprint(0), 0);
    assert_eq!(hash_to_fingerprint(SimpleValue::null2hash()), 0);
}

#[test]
fn fingerprint_folds_halves() {
    assert_eq!(hash_to_fingerprint(0xfd68fb4658971b66), 0x45df);
    assert_eq!(hash_to_fingerprint(0x547fd2170b4c2c24), 0xa100);
    assert_eq!(hash_to_fingerprint(0x0000_0001_0000_0001), 0);
    assert_eq!(hash_to_fingerprint(0x0000_0000_0001_0000), 1);
}

#[test]
fn string_digests_are_sha256_prefixes() {
    assert_eq!(SimpleValue::str2hash256sha("wrld"), 0xfd68fb4658971b66);
    assert_eq!(SimpleValue::str2hash256sha("WRLD"), 0x547fd2170b4c2c24);
    assert_eq!(SimpleValue::str2hash256sha("WWWW"), 0x8dcc2caebdd5101d);
    assert_eq!(SimpleValue::slice2hash256sha(b""), 0xe3b0c44298fc1c14);
}

#[test]
fn bool_and_int_digests() {
    assert_eq!(SimpleValue::bool2hash(false), 0x6e340b9cffb37a98);
    assert_eq!(SimpleValue::bool2hash(true), 0x4bf5122f344554c5);
    assert_eq!(SimpleValue::int2hash256sha(42), 0xa6bb133cb1e3638a);
    assert_eq!(SimpleValue::int2hash256sha(-1), 0x12a3ae445661ce5d);
}

#[test]
fn to_hash_dispatches_on_kind() {
    assert_eq!(SimpleValue::Null.to_hash(), 0);
    assert_eq!(SimpleValue::Bool(true).to_hash(), 0x4bf5122f344554c5);
    assert_eq!(SimpleValue::Int(42).to_hash(), 0xa6bb133cb1e3638a);
    assert_eq!(SimpleValue::Str("wrld").to_hash(), 0xfd68fb4658971b66);
}

#[test]
fn fingerprint_is_deterministic() {
    let a = hash_to_fingerprint(SimpleValue::str2hash256sha("wrld"));
    let b = hash_to_fingerprint(SimpleValue::str2hash256sha("wrld"));
    assert_eq!(a, b);
    assert_eq!(update_bloom_xs(0, a), update_bloom_xs(0, b));
    assert_eq!(update_bloom_xs(0, a).count_ones(), 4);
}

#[test]
fn folding_ignores_order_and_grouping() {
    let abc = probes_of(&["wrld", "WRLD", "WWWW"]);
    assert_eq!(abc, 0xb433);
    assert_eq!(probes_of(&["WWWW", "wrld", "WRLD"]), abc);
    assert_eq!(probes_of(&["WRLD", "WWWW", "wrld", "WRLD"]), abc);
    assert_eq!(probes_of(&["wrld"]) | probes_of(&["WRLD", "WWWW"]), abc);
}

#[test]
fn folding_never_clears_bits() {
    let values = ["wrld", "WRLD", "WWWW", "", "x"];
    let mut prev: u16 = 0;
    for k in 1..=values.len() {
        let next = probes_of(&values[..k]);
        assert_eq!(next & prev, prev);
        prev = next;
    }
    assert_eq!(probes_of(&["wrld"]), 0xa030);
    assert_eq!(probes_of(&["wrld", "WRLD"]), 0xa433);
}
