//! The 16-bit filter: four probe bits taken from one 16-bit fingerprint,
//! folded into the filter by bitwise OR.
use vstd::prelude::*;

verus! {

/// The bit that the 4-bit window of `hf` at `shift` selects.
pub open spec fn probe_bit(hf: u16, shift: u16) -> u16 {
    1u16 << ((hf >> shift) & 0x0f)
}

/// The probe bits of one fingerprint: windows at shifts 12, 8, 4 and 0.
pub open spec fn probes(hf: u16) -> u16 {
    probe_bit(hf, 12) | probe_bit(hf, 8) | probe_bit(hf, 4) | probe_bit(hf, 0)
}

/// A 64-bit digest folded to 16 bits: the two 32-bit halves XORed, then the
/// two 16-bit halves of that XORed.
pub open spec fn fold_to_fingerprint(ha: u64) -> u16 {
    let hl: u32 = ((ha >> 32u64) as u32) ^ (ha as u32);
    ((hl >> 16u32) as u16) ^ (hl as u16)
}

/// The filter obtained from `init` by folding in each fingerprint of `fps` in turn.
pub open spec fn bloom_of(init: u16, fps: Seq<u16>) -> u16
    decreases fps.len(),
{
    if fps.len() == 0 {
        init
    } else {
        bloom_of(init, fps.drop_last()) | probes(fps.last())
    }
}

/// Sets the four probe bits of fingerprint `hf` in `bloom`.
pub fn update_bloom_xs(bloom: u16, hf: u16) -> (r: u16)
    ensures
        r == bloom | probes(hf),
{
    let hf0: u16 = (hf >> 12u16) & 0x0f;
    let hf1: u16 = (hf >> 8u16) & 0x0f;
    let hf2: u16 = (hf >> 4u16) & 0x0f;
    let hf3: u16 = hf & 0x0f;
    proof {
        assert(hf0 < 16 && hf1 < 16 && hf2 < 16 && hf3 < 16 && hf3 == (hf >> 0u16) & 0x0f)
            by (bit_vector)
            requires
                hf0 == (hf >> 12u16) & 0x0f,
                hf1 == (hf >> 8u16) & 0x0f,
                hf2 == (hf >> 4u16) & 0x0f,
                hf3 == hf & 0x0f,
        ;
    }

    let b0: u16 = 1u16 << hf0;
    let b1: u16 = 1u16 << hf1;
    let b2: u16 = 1u16 << hf2;
    let b3: u16 = 1u16 << hf3;

    let r: u16 = bloom | b0 | b1 | b2 | b3;
    proof {
        assert(r == bloom | ((1u16 << ((hf >> 12u16) & 0x0f)) | (1u16 << ((hf >> 8u16) & 0x0f)) | (
        1u16 << ((hf >> 4u16) & 0x0f)) | (1u16 << ((hf >> 0u16) & 0x0f)))) by (bit_vector)
            requires
                hf0 == (hf >> 12u16) & 0x0f,
                hf1 == (hf >> 8u16) & 0x0f,
                hf2 == (hf >> 4u16) & 0x0f,
                hf3 == hf & 0x0f,
                b0 == 1u16 << hf0,
                b1 == 1u16 << hf1,
                b2 == 1u16 << hf2,
                b3 == 1u16 << hf3,
                r == bloom | b0 | b1 | b2 | b3,
        ;
    }
    r
}

/// Folds a 64-bit digest to its 16-bit fingerprint.
pub fn hash_to_fingerprint(ha: u64) -> (r: u16)
    ensures
        r == fold_to_fingerprint(ha),
{
    let hi: u64 = ha >> 32u64;
    let lo: u64 = ha & 0xffff_ffffu64;

    let hl: u32 = (hi as u32) ^ (lo as u32);

    let h: u32 = hl >> 16u32;
    let l: u32 = hl & 0xffffu32;

    let hf: u16 = (h as u16) ^ (l as u16);
    proof {
        assert((lo as u32) == (ha as u32)) by (bit_vector)
            requires
                lo == ha & 0xffff_ffffu64,
        ;
        assert((l as u16) == (hl as u16)) by (bit_vector)
            requires
                l == hl & 0xffffu32,
        ;
    }
    hf
}

proof fn lemma_or_bit(a: u16, b: u16, m: u16)
    ensures
        ((a | b) & m == 0) <==> (a & m == 0 && b & m == 0),
{
    assert(((a | b) & m == 0) <==> (a & m == 0 && b & m == 0)) by (bit_vector);
}

proof fn lemma_equal_by_bits(x: u16, y: u16)
    requires
        forall|k: u16| k < 16 ==> ((x & (1u16 << k)) == 0 <==> (y & (1u16 << k)) == 0),
    ensures
        x == y,
{
    assert(x == y) by (bit_vector)
        requires
            (x & (1u16 << 0u16)) == 0 <==> (y & (1u16 << 0u16)) == 0,
            (x & (1u16 << 1u16)) == 0 <==> (y & (1u16 << 1u16)) == 0,
            (x & (1u16 << 2u16)) == 0 <==> (y & (1u16 << 2u16)) == 0,
            (x & (1u16 << 3u16)) == 0 <==> (y & (1u16 << 3u16)) == 0,
            (x & (1u16 << 4u16)) == 0 <==> (y & (1u16 << 4u16)) == 0,
            (x & (1u16 << 5u16)) == 0 <==> (y & (1u16 << 5u16)) == 0,
            (x & (1u16 << 6u16)) == 0 <==> (y & (1u16 << 6u16)) == 0,
            (x & (1u16 << 7u16)) == 0 <==> (y & (1u16 << 7u16)) == 0,
            (x & (1u16 << 8u16)) == 0 <==> (y & (1u16 << 8u16)) == 0,
            (x & (1u16 << 9u16)) == 0 <==> (y & (1u16 << 9u16)) == 0,
            (x & (1u16 << 10u16)) == 0 <==> (y & (1u16 << 10u16)) == 0,
            (x & (1u16 << 11u16)) == 0 <==> (y & (1u16 << 11u16)) == 0,
            (x & (1u16 << 12u16)) == 0 <==> (y & (1u16 << 12u16)) == 0,
            (x & (1u16 << 13u16)) == 0 <==> (y & (1u16 << 13u16)) == 0,
            (x & (1u16 << 14u16)) == 0 <==> (y & (1u16 << 14u16)) == 0,
            (x & (1u16 << 15u16)) == 0 <==> (y & (1u16 << 15u16)) == 0,
    ;
}

/// A bit is clear in the folded filter exactly when it is clear in `init`
/// and in the probes of every fingerprint folded in.
proof fn lemma_bloom_bit(init: u16, fps: Seq<u16>, m: u16)
    ensures
        (bloom_of(init, fps) & m == 0) <==> (init & m == 0 && forall|i: int|
            0 <= i < fps.len() ==> #[trigger] probes(fps[i]) & m == 0),
    decreases fps.len(),
{
    if fps.len() > 0 {
        let pre = fps.drop_last();
        lemma_bloom_bit(init, pre, m);
        lemma_or_bit(bloom_of(init, pre), probes(fps.last()), m);
        if bloom_of(init, fps) & m == 0 {
            assert forall|i: int| 0 <= i < fps.len() implies #[trigger] probes(fps[i]) & m == 0 by {
                if i < fps.len() - 1 {
                    assert(fps[i] == pre[i]);
                }
            }
        } else {
            if init & m == 0 && forall|i: int| 0 <= i < fps.len() ==> #[trigger] probes(fps[i]) & m == 0 {
                assert forall|i: int| 0 <= i < pre.len() implies #[trigger] probes(pre[i]) & m == 0 by {
                    assert(pre[i] == fps[i]);
                }
                assert(probes(fps[fps.len() - 1]) & m == 0);
            }
        }
    }
}

/// Folding is insensitive to order and repetition: two sequences holding the
/// same fingerprints give the same filter.
pub proof fn lemma_bloom_order_free(init: u16, a: Seq<u16>, b: Seq<u16>)
    requires
        a.to_set() == b.to_set(),
    ensures
        bloom_of(init, a) == bloom_of(init, b),
{
    assert forall|k: u16| k < 16 implies ((bloom_of(init, a) & (1u16 << k)) == 0 <==> (bloom_of(
        init,
        b,
    ) & (1u16 << k)) == 0) by {
        let m = 1u16 << k;
        lemma_bloom_bit(init, a, m);
        lemma_bloom_bit(init, b, m);
        if forall|i: int| 0 <= i < a.len() ==> #[trigger] probes(a[i]) & m == 0 {
            assert forall|j: int| 0 <= j < b.len() implies #[trigger] probes(b[j]) & m == 0 by {
                assert(b.to_set().contains(b[j]));
                assert(a.to_set().contains(b[j]));
                let i = choose|i: int| 0 <= i < a.len() && a[i] == b[j];
                assert(probes(a[i]) & m == 0);
            }
        }
        if forall|j: int| 0 <= j < b.len() ==> #[trigger] probes(b[j]) & m == 0 {
            assert forall|i: int| 0 <= i < a.len() implies #[trigger] probes(a[i]) & m == 0 by {
                assert(a.to_set().contains(a[i]));
                assert(b.to_set().contains(a[i]));
                let j = choose|j: int| 0 <= j < b.len() && b[j] == a[i];
                assert(probes(b[j]) & m == 0);
            }
        }
    }
    lemma_equal_by_bits(bloom_of(init, a), bloom_of(init, b));
}

/// Folding is insensitive to grouping: folding `a` then `b` is folding their
/// concatenation, and equals the OR of the two filters folded separately.
pub proof fn lemma_bloom_grouping(init: u16, a: Seq<u16>, b: Seq<u16>)
    ensures
        bloom_of(bloom_of(init, a), b) == bloom_of(init, a + b),
        bloom_of(init, a + b) == bloom_of(init, a) | bloom_of(init, b),
    decreases b.len(),
{
    if b.len() == 0 {
        assert(a + b =~= a);
        lemma_bloom_self_init(init, a);
    } else {
        lemma_bloom_grouping(init, a, b.drop_last());
        assert((a + b).drop_last() =~= a + b.drop_last());
        assert((a + b).last() == b.last());
        let x = bloom_of(init, a);
        let y = bloom_of(init, b.drop_last());
        let p = probes(b.last());
        assert((x | y) | p == x | (y | p)) by (bit_vector);
    }
}

proof fn lemma_bloom_self_init(init: u16, a: Seq<u16>)
    ensures
        bloom_of(init, a) == bloom_of(init, a) | init,
    decreases a.len(),
{
    if a.len() > 0 {
        lemma_bloom_self_init(init, a.drop_last());
        let x = bloom_of(init, a.drop_last());
        let p = probes(a.last());
        assert(x == x | init ==> (x | p) == (x | p) | init) by (bit_vector);
    } else {
        assert(init == init | init) by (bit_vector);
    }
}

/// Folding one more fingerprint never clears a bit: the filter after k+1
/// records holds every bit of the filter after k.
pub proof fn lemma_bloom_monotone(init: u16, fps: Seq<u16>, hf: u16)
    ensures
        bloom_of(init, fps.push(hf)) & bloom_of(init, fps) == bloom_of(init, fps),
        bloom_of(init, fps.push(hf)) == bloom_of(init, fps) | probes(hf),
{
    assert(fps.push(hf).drop_last() =~= fps);
    let x = bloom_of(init, fps);
    let p = probes(hf);
    assert((x | p) & x == x) by (bit_vector);
}

/// A fingerprint sets at least one and at most four bits: each of its four
/// probes is a single bit, and the filter bits it sets are those probes alone.
pub proof fn lemma_probe_bits(bloom: u16, hf: u16)
    ensures
        probes(hf) != 0,
        probe_bit(hf, 12) != 0 && probe_bit(hf, 12) & (probe_bit(hf, 12) - 1) as u16 == 0,
        probe_bit(hf, 8) != 0 && probe_bit(hf, 8) & (probe_bit(hf, 8) - 1) as u16 == 0,
        probe_bit(hf, 4) != 0 && probe_bit(hf, 4) & (probe_bit(hf, 4) - 1) as u16 == 0,
        probe_bit(hf, 0) != 0 && probe_bit(hf, 0) & (probe_bit(hf, 0) - 1) as u16 == 0,
        (bloom | probes(hf)) & !bloom == probes(hf) & !bloom,
{
    assert forall|s: u16| s == 12 || s == 8 || s == 4 || s == 0 implies probe_bit(hf, s) != 0
        && probe_bit(hf, s) & (probe_bit(hf, s) - 1) as u16 == 0 by {
        assert((1u16 << ((hf >> s) & 0x0f)) != 0 && (1u16 << ((hf >> s) & 0x0f)) & (((1u16 << ((hf
            >> s) & 0x0f)) - 1) as u16) == 0) by (bit_vector);
    }
    let p = probes(hf);
    assert(probe_bit(hf, 12) != 0 ==> probe_bit(hf, 12) | probe_bit(hf, 8) | probe_bit(hf, 4)
        | probe_bit(hf, 0) != 0) by (bit_vector);
    assert((bloom | p) & !bloom == p & !bloom) by (bit_vector);
}

/// The fixed fingerprint 0, which stands for an absent or unsupported value,
/// sets bit 0 alone.
pub proof fn lemma_absent_probe()
    ensures
        fold_to_fingerprint(0) == 0,
        probes(0) == 1,
{
    let z: u64 = 0;
    let hl: u32 = ((z >> 32u64) as u32) ^ (z as u32);
    assert(hl == 0) by (bit_vector)
        requires
            z == 0,
            hl == ((z >> 32u64) as u32) ^ (z as u32),
    ;
    assert(((hl >> 16u32) as u16) ^ (hl as u16) == 0) by (bit_vector)
        requires
            hl == 0,
    ;
    let h: u16 = 0;
    assert((1u16 << ((h >> 12u16) & 0x0f)) | (1u16 << ((h >> 8u16) & 0x0f)) | (1u16 << ((h
        >> 4u16) & 0x0f)) | (1u16 << ((h >> 0u16) & 0x0f)) == 1) by (bit_vector)
        requires
            h == 0,
    ;
}

} // verus!
