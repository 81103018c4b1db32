//! Integer samples and the mask table: the table has one entry per 8-bit luma
//! level, and a sample of any depth is looked up by its 8 most significant
//! bits.
use vstd::prelude::*;
use vstd::arithmetic::power2::{pow2, lemma_pow2_adds, lemma_pow2_pos, lemma2_to64};
use vstd::arithmetic::div_mod::{
    lemma_multiply_divide_lt,
    lemma_div_is_ordered,
    lemma_div_pos_is_pos,
    lemma_fundamental_div_mod,
    lemma_mod_pos_bound,
};
use crate::format::{ClipFormat, spec_output_format, spec_select_kernel};
use vstd::bits::{
    lemma_u8_shr_is_div,
    lemma_u16_shr_is_div,
    lemma_u32_shr_is_div,
    lemma_u32_shl_is_mul,
    lemma_u32_pow2_no_overflow,
};

verus! {

/// Number of entries in the mask table: one per 8-bit luma level.
pub const LUT_LEN: usize = 256;

/// The table entry that a `depth`-bit sample is looked up in: the sample with
/// its `depth - 8` least significant bits dropped.
pub open spec fn lut_index(sample: int, depth: u8) -> int {
    sample / (pow2((depth - 8) as nat) as int)
}

/// The row a kernel leaves in `dst`: every position that has a source sample
/// holds the table entry of that sample; the other positions keep their value.
pub open spec fn mapped_row<T>(dst: Seq<T>, src: Seq<int>, lut: Seq<T>, depth: u8) -> Seq<T> {
    Seq::new(
        dst.len(),
        |j: int|
            if j < src.len() {
                lut[lut_index(src[j], depth)]
            } else {
                dst[j]
            },
    )
}

/// The luma plane a kernel leaves in the mask frame, row by row.
pub open spec fn mapped_plane<T>(dst: Seq<Seq<T>>, src: Seq<Seq<int>>, lut: Seq<T>, depth: u8) -> Seq<Seq<T>> {
    Seq::new(dst.len(), |r: int| mapped_row(dst[r], src[r], lut, depth))
}

/// The largest sample value of a `depth`-bit integer format, `2^depth - 1`;
/// the mask table of that depth is scaled to it. Every depth up to 32 bits
/// has its peak in a `u32`.
pub fn peak_value(depth: u8) -> (r: u32)
    requires
        depth <= 32,
    ensures
        r == pow2(depth as nat) - 1,
{
    if depth == 32 {
        proof {
            lemma2_to64();
        }
        u32::MAX
    } else {
        proof {
            lemma_u32_pow2_no_overflow(depth as nat);
            lemma_pow2_pos(depth as nat);
            lemma_u32_shl_is_mul(1, depth as u32);
        }
        (1u32 << (depth as u32)) - 1
    }
}

/// Tells whether every sample of `src` that the row filter would read (the
/// first `min(dst_len, src.len())`) has its table entry among the first
/// `lut_len` entries.
pub fn row_fits_table_8bit(src: &[u8], dst_len: usize, lut_len: usize, depth: u8) -> (r: bool)
    requires
        8 <= depth < 16,
    ensures
        r <==> forall|j: int|
            0 <= j < dst_len && j < src@.len() ==> lut_index(src@[j] as int, depth) < lut_len,
{
    let shift: u8 = depth - 8;
    let n: usize = if dst_len < src.len() { dst_len } else { src.len() };
    let mut j: usize = 0;
    while j < n
        invariant
            n <= src@.len(),
            n == dst_len || n == src@.len(),
            n <= dst_len,
            j <= n,
            shift == depth - 8,
            8 <= depth < 16,
            forall|k: int| 0 <= k < j ==> lut_index(src@[k] as int, depth) < lut_len,
        decreases n - j,
    {
        proof {
            lemma_u8_shr_is_div(src@[j as int], shift);
        }
        if (src[j] >> shift) as usize >= lut_len {
            return false;
        }
        j += 1;
    }
    true
}

/// Maps a row of samples stored in bytes through the mask table: each sample
/// that has a counterpart in `dst` is replaced there by the table entry of its
/// 8 most significant bits; the rest of `dst` is left as it was.
pub fn filter_row_8bit(dst: &mut [u8], src: &[u8], lut: &[u8], depth: u8)
    requires
        8 <= depth < 16,
        forall|j: int|
            0 <= j < old(dst)@.len() && j < src@.len() ==> lut_index(src@[j] as int, depth)
                < lut@.len(),
    ensures
        final(dst)@.len() == old(dst)@.len(),
        forall|j: int|
            0 <= j < old(dst)@.len() && j < src@.len() ==> final(dst)@[j] == lut@[lut_index(
                src@[j] as int,
                depth,
            )],
        forall|j: int| src@.len() <= j < old(dst)@.len() ==> final(dst)@[j] == old(dst)@[j],
        final(dst)@ == mapped_row(old(dst)@, src@.map_values(|v: u8| v as int), lut@, depth),
{
    let shift: u8 = depth - 8;
    let n: usize = if dst.len() < src.len() { dst.len() } else { src.len() };
    let mut j: usize = 0;
    while j < n
        invariant
            n <= src@.len(),
            n <= dst@.len(),
            n == dst@.len() || n == src@.len(),
            j <= n,
            dst@.len() == old(dst)@.len(),
            shift == depth - 8,
            8 <= depth < 16,
            forall|k: int|
                0 <= k < old(dst)@.len() && k < src@.len() ==> lut_index(src@[k] as int, depth)
                    < lut@.len(),
            forall|k: int| 0 <= k < j ==> dst@[k] == lut@[lut_index(src@[k] as int, depth)],
            forall|k: int| j <= k < dst@.len() ==> dst@[k] == old(dst)@[k],
        decreases n - j,
    {
        proof {
            lemma_u8_shr_is_div(src@[j as int], shift);
        }
        let i: usize = (src[j] >> shift) as usize;
        dst[j] = lut[i];
        j += 1;
    }
    assert(dst@ =~= mapped_row(old(dst)@, src@.map_values(|v: u8| v as int), lut@, depth));
}

/// Whether every sample that the row filter would read has a table entry among
/// the first `lut_len` entries.
pub fn row_fits_table_16bit(src: &[u16], dst_len: usize, lut_len: usize, depth: u8) -> (r: bool)
    requires
        8 <= depth < 24,
    ensures
        r <==> forall|j: int|
            0 <= j < dst_len && j < src@.len() ==> lut_index(src@[j] as int, depth) < lut_len,
{
    let shift: u16 = (depth - 8) as u16;
    let n: usize = if dst_len < src.len() { dst_len } else { src.len() };
    let mut j: usize = 0;
    while j < n
        invariant
            n <= src@.len(),
            n == dst_len || n == src@.len(),
            n <= dst_len,
            j <= n,
            shift == depth - 8,
            8 <= depth < 24,
            forall|k: int| 0 <= k < j ==> lut_index(src@[k] as int, depth) < lut_len,
        decreases n - j,
    {
        proof {
            lemma_u16_shr_is_div(src@[j as int], shift);
        }
        if (src[j] >> shift) as usize >= lut_len {
            return false;
        }
        j += 1;
    }
    true
}

/// Maps a row of samples stored in 16-bit words through the mask table, as
/// `filter_row_8bit` does for bytes.
pub fn filter_row_16bit(dst: &mut [u16], src: &[u16], lut: &[u16], depth: u8)
    requires
        8 <= depth < 24,
        forall|j: int|
            0 <= j < old(dst)@.len() && j < src@.len() ==> lut_index(src@[j] as int, depth)
                < lut@.len(),
    ensures
        final(dst)@.len() == old(dst)@.len(),
        forall|j: int|
            0 <= j < old(dst)@.len() && j < src@.len() ==> final(dst)@[j] == lut@[lut_index(
                src@[j] as int,
                depth,
            )],
        forall|j: int| src@.len() <= j < old(dst)@.len() ==> final(dst)@[j] == old(dst)@[j],
        final(dst)@ == mapped_row(old(dst)@, src@.map_values(|v: u16| v as int), lut@, depth),
{
    let shift: u16 = (depth - 8) as u16;
    let n: usize = if dst.len() < src.len() { dst.len() } else { src.len() };
    let mut j: usize = 0;
    while j < n
        invariant
            n <= src@.len(),
            n <= dst@.len(),
            n == dst@.len() || n == src@.len(),
            j <= n,
            dst@.len() == old(dst)@.len(),
            shift == depth - 8,
            8 <= depth < 24,
            forall|k: int|
                0 <= k < old(dst)@.len() && k < src@.len() ==> lut_index(src@[k] as int, depth)
                    < lut@.len(),
            forall|k: int| 0 <= k < j ==> dst@[k] == lut@[lut_index(src@[k] as int, depth)],
            forall|k: int| j <= k < dst@.len() ==> dst@[k] == old(dst)@[k],
        decreases n - j,
    {
        proof {
            lemma_u16_shr_is_div(src@[j as int], shift);
        }
        let i: usize = (src[j] >> shift) as usize;
        dst[j] = lut[i];
        j += 1;
    }
    assert(dst@ =~= mapped_row(old(dst)@, src@.map_values(|v: u16| v as int), lut@, depth));
}

/// Whether every sample that the row filter would read has a table entry among
/// the first `lut_len` entries.
pub fn row_fits_table_32bit(src: &[u32], dst_len: usize, lut_len: usize, depth: u8) -> (r: bool)
    requires
        8 <= depth < 40,
    ensures
        r <==> forall|j: int|
            0 <= j < dst_len && j < src@.len() ==> lut_index(src@[j] as int, depth) < lut_len,
{
    let shift: u32 = (depth - 8) as u32;
    let n: usize = if dst_len < src.len() { dst_len } else { src.len() };
    let mut j: usize = 0;
    while j < n
        invariant
            n <= src@.len(),
            n == dst_len || n == src@.len(),
            n <= dst_len,
            j <= n,
            shift == depth - 8,
            8 <= depth < 40,
            forall|k: int| 0 <= k < j ==> lut_index(src@[k] as int, depth) < lut_len,
        decreases n - j,
    {
        proof {
            lemma_u32_shr_is_div(src@[j as int], shift);
        }
        if (src[j] >> shift) as usize >= lut_len {
            return false;
        }
        j += 1;
    }
    true
}

/// Maps a row of samples stored in 32-bit words through the mask table, as
/// `filter_row_8bit` does for bytes.
pub fn filter_row_32bit(dst: &mut [u32], src: &[u32], lut: &[u32], depth: u8)
    requires
        8 <= depth < 40,
        forall|j: int|
            0 <= j < old(dst)@.len() && j < src@.len() ==> lut_index(src@[j] as int, depth)
                < lut@.len(),
    ensures
        final(dst)@.len() == old(dst)@.len(),
        forall|j: int|
            0 <= j < old(dst)@.len() && j < src@.len() ==> final(dst)@[j] == lut@[lut_index(
                src@[j] as int,
                depth,
            )],
        forall|j: int| src@.len() <= j < old(dst)@.len() ==> final(dst)@[j] == old(dst)@[j],
        final(dst)@ == mapped_row(old(dst)@, src@.map_values(|v: u32| v as int), lut@, depth),
{
    let shift: u32 = (depth - 8) as u32;
    let n: usize = if dst.len() < src.len() { dst.len() } else { src.len() };
    let mut j: usize = 0;
    while j < n
        invariant
            n <= src@.len(),
            n <= dst@.len(),
            n == dst@.len() || n == src@.len(),
            j <= n,
            dst@.len() == old(dst)@.len(),
            shift == depth - 8,
            8 <= depth < 40,
            forall|k: int|
                0 <= k < old(dst)@.len() && k < src@.len() ==> lut_index(src@[k] as int, depth)
                    < lut@.len(),
            forall|k: int| 0 <= k < j ==> dst@[k] == lut@[lut_index(src@[k] as int, depth)],
            forall|k: int| j <= k < dst@.len() ==> dst@[k] == old(dst)@[k],
        decreases n - j,
    {
        proof {
            lemma_u32_shr_is_div(src@[j as int], shift);
        }
        let i: usize = (src[j] >> shift) as usize;
        dst[j] = lut[i];
        j += 1;
    }
    assert(dst@ =~= mapped_row(old(dst)@, src@.map_values(|v: u32| v as int), lut@, depth));
}

/// Every sample of a `depth`-bit format (at least 8 bits) has its entry in the
/// 256-entry mask table, so a full table serves every valid sample.
pub proof fn lemma_lut_index_in_range(sample: int, depth: u8)
    requires
        8 <= depth,
        0 <= sample < pow2(depth as nat),
    ensures
        0 <= lut_index(sample, depth) < LUT_LEN,
{
    let d = (depth - 8) as nat;
    lemma_pow2_adds(d, 8);
    lemma2_to64();
    lemma_pow2_pos(d);
    assert(pow2(depth as nat) == pow2(d) * pow2(8));
    lemma_multiply_divide_lt(sample, pow2(d) as int, 256);
    if sample > 0 {
        lemma_div_pos_is_pos(sample, pow2(d) as int);
    }
}

/// The mask frame depends on the source's luma plane alone: sources whose
/// formats agree in sample type and depth, and whose luma rows are equal, get
/// the same mask format, the same kernel, and the same mask rows from the same
/// table, whatever their colour families, subsampling or chroma planes.
pub proof fn lemma_mask_depends_only_on_luma<T>(
    a: ClipFormat,
    b: ClipFormat,
    luma_a: Seq<Seq<int>>,
    luma_b: Seq<Seq<int>>,
    blank: Seq<Seq<T>>,
    lut: Seq<T>,
)
    requires
        a.sample_type == b.sample_type,
        a.bits_per_sample == b.bits_per_sample,
        luma_a == luma_b,
    ensures
        spec_output_format(a) == spec_output_format(b),
        spec_select_kernel(a) == spec_select_kernel(b),
        mapped_plane(blank, luma_a, lut, a.bits_per_sample) == mapped_plane(
            blank,
            luma_b,
            lut,
            b.bits_per_sample,
        ),
{
}

/// The table entry of a sample is the sample with its `depth - 8` low bits
/// dropped: the entry `i` holds exactly the samples `s` with
/// `i * 2^(depth - 8) <= s < (i + 1) * 2^(depth - 8)`, so each entry covers an
/// equal share of the sample range (for instance the 16-bit sample 32768 uses
/// entry 128).
pub proof fn lemma_lut_index_is_quotient(sample: int, depth: u8)
    requires
        8 <= depth,
        0 <= sample,
    ensures
        0 <= lut_index(sample, depth),
        pow2((depth - 8) as nat) * lut_index(sample, depth) <= sample,
        sample < pow2((depth - 8) as nat) * (lut_index(sample, depth) + 1),
{
    let p = pow2((depth - 8) as nat) as int;
    lemma_pow2_pos((depth - 8) as nat);
    lemma_fundamental_div_mod(sample, p);
    lemma_mod_pos_bound(sample, p);
    if sample > 0 {
        lemma_div_pos_is_pos(sample, p);
    }
    assert(p * (sample / p + 1) == p * (sample / p) + p) by (nonlinear_arith);
}

/// A brighter sample never uses an earlier table entry than a darker one.
pub proof fn lemma_lut_index_monotonic(a: int, b: int, depth: u8)
    requires
        8 <= depth,
        0 <= a <= b,
    ensures
        lut_index(a, depth) <= lut_index(b, depth),
{
    lemma_pow2_pos((depth - 8) as nat);
    lemma_div_is_ordered(a, b, pow2((depth - 8) as nat) as int);
}

/// For 8-bit samples the table is indexed by the sample itself.
pub proof fn lemma_lut_index_8bit(sample: int)
    ensures
        lut_index(sample, 8) == sample,
{
    lemma2_to64();
    assert(pow2(0) == 1);
    assert(sample / 1 == sample);
}

} // verus!
