//! The bits of a data word, in the order in which they are sent.

use vstd::prelude::*;
use vstd::arithmetic::div_mod::{lemma_div_denominator, lemma_mod_breakdown, lemma_small_mod};
use vstd::arithmetic::power2::{lemma2_to64, lemma_pow2_pos, lemma_pow2_unfold, pow2};

verus! {

/// Bit `k` of `data`, counted from the least significant bit.
pub open spec fn bit_at(data: u32, k: nat) -> bool {
    (data as nat / pow2(k)) % 2 == 1
}

/// The low `width` bits of `data`, most significant first.
pub open spec fn data_bits(data: u32, width: nat) -> Seq<bool> {
    Seq::new(width, |n: int| bit_at(data, (width - 1 - n) as nat))
}

/// The number that `bits` denotes when read as a binary numeral, most
/// significant digit first.
pub open spec fn binary_value(bits: Seq<bool>) -> nat
    decreases bits.len(),
{
    if bits.len() == 0 {
        0
    } else {
        2 * binary_value(bits.drop_last()) + if bits.last() {
            1nat
        } else {
            0nat
        }
    }
}

/// Shifting and masking reads the bit that `bit_at` names.
pub proof fn lemma_shift_reads_bit(data: u32, k: u32)
    requires
        k < 32,
    ensures
        (data >> k) & 1 == 1 <==> bit_at(data, k as nat),
        (data >> k) & 1 == 0 <==> !bit_at(data, k as nat),
{
    let shifted: u32 = data >> k;
    vstd::bits::lemma_u32_shr_is_div(data, k);
    assert(shifted & 1 == shifted % 2) by (bit_vector);
}

/// The low `width` bits of `data` are those of its half, followed by its
/// lowest bit.
proof fn lemma_data_bits_unfold(data: u32, width: nat)
    requires
        width > 0,
    ensures
        data_bits(data, width) == data_bits(data / 2, (width - 1) as nat).push(data % 2 == 1),
{
    let half: u32 = data / 2;
    let shorter: nat = (width - 1) as nat;
    assert(pow2(0) == 1) by {
        lemma2_to64();
    }
    assert forall|n: int| 0 <= n < shorter implies data_bits(data, width)[n] == data_bits(
        half,
        shorter,
    )[n] by {
        let k: nat = (shorter - 1 - n) as nat;
        lemma_pow2_pos(k);
        lemma_pow2_unfold(k + 1);
        lemma_div_denominator(data as int, 2, pow2(k) as int);
    }
    assert(bit_at(data, 0) == (data % 2 == 1));
    assert(data_bits(data, width) =~= data_bits(half, shorter).push(data % 2 == 1));
}

/// Most significant bit first: read as a binary numeral, the bits sent for
/// `data` denote `data` modulo `2^width`, and so `data` itself where it is
/// below `2^width`.
pub proof fn lemma_msb_first(data: u32, width: nat)
    ensures
        binary_value(data_bits(data, width)) == data as nat % pow2(width),
        data < pow2(width) ==> binary_value(data_bits(data, width)) == data,
    decreases width,
{
    if data < pow2(width) {
        lemma_small_mod(data as nat, pow2(width));
    }
    if width == 0 {
        assert(pow2(0) == 1) by {
            lemma2_to64();
        }
    } else {
        let half: u32 = data / 2;
        let shorter: nat = (width - 1) as nat;
        lemma_data_bits_unfold(data, width);
        lemma_msb_first(half, shorter);
        assert(data_bits(data, width).drop_last() =~= data_bits(half, shorter));
        lemma_pow2_pos(shorter);
        lemma_pow2_unfold(width);
        lemma_mod_breakdown(data as int, 2, pow2(shorter) as int);
    }
}

/// Two words that agree modulo `2^width` are sent as the same bits: what
/// lies above the low `width` bits of a word is dropped.
pub proof fn lemma_high_bits_dropped(a: u32, b: u32, width: nat)
    requires
        a as nat % pow2(width) == b as nat % pow2(width),
    ensures
        data_bits(a, width) == data_bits(b, width),
    decreases width,
{
    if width > 0 {
        let shorter: nat = (width - 1) as nat;
        lemma_pow2_pos(shorter);
        lemma_pow2_unfold(width);
        lemma_mod_breakdown(a as int, 2, pow2(shorter) as int);
        lemma_mod_breakdown(b as int, 2, pow2(shorter) as int);
        lemma_high_bits_dropped(a / 2, b / 2, shorter);
        lemma_data_bits_unfold(a, width);
        lemma_data_bits_unfold(b, width);
    }
}

} // verus!
