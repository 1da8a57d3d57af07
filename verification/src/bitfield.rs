//! Bit-field arithmetic on 64-bit words: masks, field extraction and field
//! update, with the algebraic facts the entry types rely on.

use vstd::prelude::*;

verus! {

/// Mask of the low `w` bits.
pub open spec fn mask(w: u64) -> u64 {
    !(!0u64 << w)
}

/// The `w`-bit field of `v` that starts at bit `lo`.
pub open spec fn get_field(v: u64, lo: u64, w: u64) -> u64 {
    (v >> lo) & mask(w)
}

/// `v` with its `w`-bit field at `lo` replaced by the low `w` bits of `x`.
pub open spec fn set_field(v: u64, lo: u64, w: u64, x: u64) -> u64 {
    (v & !(mask(w) << lo)) | ((x & mask(w)) << lo)
}

/// Reading back a field just written gives the written bits.
pub proof fn lemma_get_set_same(v: u64, lo: u64, w: u64, x: u64)
    by (bit_vector)
    requires
        0 < w < 64,
        lo + w <= 64,
    ensures
        get_field(set_field(v, lo, w, x), lo, w) == x & mask(w),
{
}

/// Writing a field leaves every field that does not overlap it unchanged.
pub proof fn lemma_get_set_other(v: u64, lo: u64, w: u64, x: u64, lo2: u64, w2: u64)
    by (bit_vector)
    requires
        0 < w < 64,
        lo + w <= 64,
        0 < w2 < 64,
        lo2 + w2 <= 64,
        lo + w <= lo2 || lo2 + w2 <= lo,
    ensures
        get_field(set_field(v, lo, w, x), lo2, w2) == get_field(v, lo2, w2),
{
}

/// A single flag bit of `v`.
pub open spec fn get_flag(v: u64, i: u64) -> bool {
    get_field(v, i, 1) == 1
}

/// `v` with bit `i` set to `b`.
pub open spec fn set_flag(v: u64, i: u64, b: bool) -> u64 {
    set_field(v, i, 1, if b { 1 } else { 0 })
}

/// A `w`-bit field is below `2^w`.
pub proof fn lemma_field_bound(v: u64, lo: u64, w: u64)
    by (bit_vector)
    requires
        0 < w < 64,
    ensures
        get_field(v, lo, w) <= mask(w),
        get_field(v, lo, w) < (1u64 << w),
{
}

/// Reading back a flag just written gives the written value.
pub broadcast proof fn lemma_flag_set_same(v: u64, i: u64, b: bool)
    requires
        i < 64,
    ensures
        #[trigger] get_flag(set_flag(v, i, b), i) == b,
{
    lemma_get_set_same(v, i, 1, if b { 1 } else { 0 });
    lemma_masks();
}

/// Reading back a field just written gives the written bits.
pub broadcast proof fn lemma_field_set_same(v: u64, lo: u64, w: u64, x: u64)
    requires
        0 < w < 64,
        lo + w <= 64,
    ensures
        #[trigger] get_field(set_field(v, lo, w, x), lo, w) == x & mask(w),
{
    lemma_get_set_same(v, lo, w, x);
}

/// Writing a field leaves a field that does not overlap it unchanged.
pub broadcast proof fn lemma_field_set_other(v: u64, lo: u64, w: u64, x: u64, lo2: u64, w2: u64)
    requires
        0 < w < 64,
        lo + w <= 64,
        0 < w2 < 64,
        lo2 + w2 <= 64,
        lo + w <= lo2 || lo2 + w2 <= lo,
    ensures
        #[trigger] get_field(set_field(v, lo, w, x), lo2, w2) == get_field(v, lo2, w2),
{
    lemma_get_set_other(v, lo, w, x, lo2, w2);
}

/// Every field of 0 is 0.
pub broadcast proof fn lemma_field_of_zero(lo: u64, w: u64)
    ensures
        #[trigger] get_field(0u64, lo, w) == 0,
{
    lemma_constant_fields(lo, w);
}

/// Writing a flag leaves every other flag unchanged.
pub broadcast proof fn lemma_flag_set_other_flag(v: u64, i: u64, b: bool, j: u64)
    requires
        i < 64,
        j < 64,
        i != j,
    ensures
        #[trigger] get_flag(set_flag(v, i, b), j) == get_flag(v, j),
{
    lemma_get_set_other(v, i, 1, if b { 1 } else { 0 }, j, 1);
}

/// Writing a flag leaves a field that does not hold it unchanged.
pub broadcast proof fn lemma_field_set_other_flag(v: u64, i: u64, b: bool, lo: u64, w: u64)
    requires
        i < 64,
        0 < w < 64,
        lo + w <= 64,
        i < lo || lo + w <= i,
    ensures
        #[trigger] get_field(set_flag(v, i, b), lo, w) == get_field(v, lo, w),
{
    lemma_get_set_other(v, i, 1, if b { 1 } else { 0 }, lo, w);
}

/// Writing a field leaves a flag outside it unchanged.
pub broadcast proof fn lemma_flag_set_other_field(v: u64, lo: u64, w: u64, x: u64, i: u64)
    requires
        i < 64,
        0 < w < 64,
        lo + w <= 64,
        i < lo || lo + w <= i,
    ensures
        #[trigger] get_flag(set_field(v, lo, w, x), i) == get_flag(v, i),
{
    lemma_get_set_other(v, lo, w, x, i, 1);
}

/// A field of `0x80` that leaves out bit 7 is 0.
pub broadcast proof fn lemma_field_of_bit7(lo: u64, w: u64)
    requires
        0 < w < 64,
        lo + w <= 64,
        lo > 7 || lo + w <= 7,
    ensures
        #[trigger] get_field(0x80u64, lo, w) == 0,
{
    lemma_constant_fields(lo, w);
}

pub broadcast group group_bitfield {
    lemma_field_of_bit7,
    lemma_flag_set_other_flag,
    lemma_field_set_other_flag,
    lemma_flag_set_other_field,
    lemma_field_of_zero,
    lemma_flag_set_same,
    lemma_field_set_same,
    lemma_field_set_other,
}

/// Reads the `w`-bit field of `v` at bit `lo`.
pub fn read_field(v: u64, lo: u64, w: u64) -> (r: u64)
    requires
        0 < w < 64,
        lo < 64,
    ensures
        r == get_field(v, lo, w),
        r <= mask(w),
{
    proof {
        lemma_field_bound(v, lo, w);
    }
    (v >> lo) & !(!0u64 << w)
}

/// Replaces the `w`-bit field of `v` at bit `lo` by `x`, which must fit.
pub fn write_field(v: u64, lo: u64, w: u64, x: u64) -> (r: u64)
    requires
        0 < w < 64,
        lo + w <= 64,
        x <= mask(w),
    ensures
        r == set_field(v, lo, w, x),
{
    (v & !((!(!0u64 << w)) << lo)) | ((x & !(!0u64 << w)) << lo)
}

/// Reads flag bit `i` of `v`.
pub fn read_flag(v: u64, i: u64) -> (r: bool)
    requires
        i < 64,
    ensures
        r == get_flag(v, i),
{
    read_field(v, i, 1) == 1
}

/// Sets flag bit `i` of `v` to `b`.
pub fn write_flag(v: u64, i: u64, b: bool) -> (r: u64)
    requires
        i < 64,
    ensures
        r == set_flag(v, i, b),
{
    proof {
        lemma_masks();
    }
    write_field(v, i, 1, if b { 1 } else { 0 })
}

/// The masks of the field widths that the entry layouts use.
pub proof fn lemma_masks()
    by (bit_vector)
    ensures
        mask(1) == 1,
        mask(2) == 3,
        mask(3) == 7,
        mask(4) == 0xf,
        mask(7) == 0x7f,
        mask(8) == 0xff,
        mask(13) == 0x1fff,
        mask(16) == 0xffff,
        mask(17) == 0x1_ffff,
        mask(22) == 0x3f_ffff,
        mask(29) == 0x1fff_ffff,
        mask(31) == 0x7fff_ffff,
        mask(32) == 0xffff_ffff,
        mask(40) == 0xff_ffff_ffff,
        mask(57) == 0x1ff_ffff_ffff_ffff,
        mask(61) == 0x1fff_ffff_ffff_ffff,
        1u64 & 1u64 == 1u64,
        0u64 & 1u64 == 0u64,
{
}

/// The fields of 0 are 0, and so are the fields of `0x80` that leave out
/// bit 7.
pub proof fn lemma_constant_fields(lo: u64, w: u64)
    by (bit_vector)
    ensures
        get_field(0u64, lo, w) == 0,
        (0 < w < 64 && lo + w <= 64 && (lo > 7 || lo + w <= 7)) ==> get_field(0x80u64, lo, w) == 0,
{
}

/// Masking a small value with a mask that covers it changes nothing, and
/// masking keeps the value below the mask.
pub proof fn lemma_small_masks(a: u8, b: u8, c: u8)
    by (bit_vector)
    ensures
        a <= 7 ==> a & 0b111u8 == a,
        b <= 0x7f ==> b & 0x7fu8 == b,
        a & 0b111u8 < 8 && ((a & 7u8) as u64) & 7u64 == (a & 7u8) as u64,
        b & 0x7fu8 < 0x80 && ((b & 0x7fu8) as u64) & 0x7fu64 == (b & 0x7fu8) as u64,
        c & 0x0fu8 < 0x10 && ((c & 0xfu8) as u64) & 0xfu64 == (c & 0xfu8) as u64,
{
}

/// Shifts and masks of page-table addresses: shifting a frame number left
/// multiplies it by the page size, an aligned 52-bit address splits into a
/// frame number that fits its field, and a 9-bit index is below 512.
pub proof fn lemma_shift_facts(a: u64, x: u64, sh: u64)
    by (bit_vector)
    ensures
        x <= 0x3f_ffff ==> x << 30u64 == x * 0x4000_0000,
        x <= 0x7fff_ffff ==> x << 21u64 == x * 0x20_0000,
        x <= 0xff_ffff_ffff ==> x << 12u64 == x * 0x1000,
        a < 0x10_0000_0000_0000 ==> (a >> 30u64) & 0x3f_ffffu64 == a >> 30u64,
        a < 0x10_0000_0000_0000 ==> (a >> 21u64) & 0x7fff_ffffu64 == a >> 21u64,
        a < 0x10_0000_0000_0000 ==> (a >> 12u64) & 0xff_ffff_ffffu64 == a >> 12u64,
        a < 0x10_0000_0000_0000 ==> a >> 12u64 <= 0xff_ffff_ffffu64,
        a % 0x4000_0000 == 0 ==> (a >> 30u64) * 0x4000_0000 == a,
        a % 0x20_0000 == 0 ==> (a >> 21u64) * 0x20_0000 == a,
        a % 0x1000 == 0 ==> (a >> 12u64) * 0x1000 == a,
        (a >> 39u64) & 0x1ff < 512,
        (a >> 30u64) & 0x1ff < 512,
        (a >> 21u64) & 0x1ff < 512,
        (a >> 12u64) & 0x1ff < 512,
        (a >> sh) & 0x1ff < 512,
{
}

/// A field of at most 8, 16 or 32 bits fits the matching integer type.
pub proof fn lemma_field_fits(v: u64, lo: u64, w: u64)
    by (bit_vector)
    requires
        0 < w < 64,
    ensures
        w <= 8 ==> get_field(v, lo, w) < 0x100,
        w <= 16 ==> get_field(v, lo, w) < 0x1_0000,
        w <= 32 ==> get_field(v, lo, w) < 0x1_0000_0000,
{
}

/// Setting a flag below bit 16 of a 16-bit value keeps it 16 bits wide.
pub proof fn lemma_set_flag_fits_u16(v: u64, lo: u64, b: bool)
    by (bit_vector)
    requires
        v < 0x1_0000,
        lo < 16,
    ensures
        set_flag(v, lo, b) < 0x1_0000,
{
}

/// Setting a field inside the low 16 bits of a 16-bit value keeps it 16 bits wide.
pub proof fn lemma_set_field_fits_u16(v: u64, lo: u64, w: u64, x: u64)
    by (bit_vector)
    requires
        v < 0x1_0000,
        0 < w < 64,
        lo + w <= 16,
    ensures
        set_field(v, lo, w, x) < 0x1_0000,
{
}

} // verus!
