//! # Local APIC (x2APIC) register values and timer arithmetic
//!
//! The values written to and read from the x2APIC registers, and the
//! arithmetic of the timer calibration: the caller executes `rdmsr`,
//! `wrmsr` and `rdtsc`, and hands the numbers to these functions.

use vstd::prelude::*;

verus! {

/// `IA32_APIC_BASE`.
pub const IA32_APIC_BASE: u32 = 0x1B;

/// APIC global enable (bit 11 of `IA32_APIC_BASE`).
pub const APIC_EN: u64 = 0x800;

/// x2APIC mode (bit 10 of `IA32_APIC_BASE`).
pub const APIC_EXTD: u64 = 0x400;

/// The x2APIC ID register.
pub const IA32_X2APIC_ID: u32 = 0x802;

/// The x2APIC end-of-interrupt register.
pub const IA32_X2APIC_EOI: u32 = 0x80B;

/// The x2APIC spurious-interrupt-vector register.
pub const IA32_X2APIC_SVR: u32 = 0x80F;

/// The x2APIC LVT timer register.
pub const IA32_X2APIC_LVT_TIMER: u32 = 0x832;

/// The x2APIC timer initial-count register.
pub const IA32_X2APIC_INITCNT: u32 = 0x838;

/// The x2APIC timer current-count register.
pub const IA32_X2APIC_CURCNT: u32 = 0x839;

/// The x2APIC timer divide-configuration register.
pub const IA32_X2APIC_DIVCONF: u32 = 0x83E;

/// Divide by 1.
pub const DIV_1: u32 = 0b1011;
/// Divide by 2.
pub const DIV_2: u32 = 0b0000;
/// Divide by 4.
pub const DIV_4: u32 = 0b0001;
/// Divide by 8.
pub const DIV_8: u32 = 0b0010;
/// Divide by 16.
pub const DIV_16: u32 = 0b0011;
/// Divide by 32.
pub const DIV_32: u32 = 0b1000;
/// Divide by 64.
pub const DIV_64: u32 = 0b1001;
/// Divide by 128.
pub const DIV_128: u32 = 0b1010;

/// The timer interrupt rate the kernel runs at (1 kHz).
pub const TARGET_TIMER_HZ: u64 = 1_000;

/// `IA32_APIC_BASE` with the APIC enabled in x2APIC mode.
pub fn x2apic_enabled_base(base: u64) -> (r: u64)
    ensures
        r == base | APIC_EN | APIC_EXTD,
{
    base | APIC_EN | APIC_EXTD
}

/// Whether `IA32_APIC_BASE` says x2APIC mode.
pub fn x2apic_mode(base: u64) -> (r: bool)
    ensures
        r == (base & APIC_EXTD != 0),
{
    base & APIC_EXTD != 0
}

/// The APIC ID in the value of the ID register (its low 32 bits).
pub fn x2apic_id_of(val: u64) -> (r: u32)
    ensures
        r == (val & 0xFFFF_FFFF) as u32,
{
    (val & 0xFFFF_FFFF) as u32
}

/// The spurious-interrupt-vector value: APIC software enable (bit 8) and
/// the vector in the low byte.
pub fn svr_value(vector: u8) -> (r: u64)
    ensures
        r == 0x100u64 | vector as u64,
{
    0x100u64 | vector as u64
}

/// The LVT timer value for a periodic timer on `vector`, still masked
/// (bit 16 mask, bit 17 periodic).
pub fn periodic_lvt(vector: u8) -> (r: u64)
    ensures
        r == vector as u64 | 0x1_0000u64 | 0x2_0000u64,
{
    let mut lvt = vector as u64 | 0x1_0000u64;
    lvt = lvt | 0x2_0000u64;
    lvt
}

/// The LVT timer value `lvt` with the mask bit (16) set or cleared.
pub fn lvt_with_mask(lvt: u32, mask: bool) -> (r: u32)
    ensures
        r == if mask {
            lvt | 0x1_0000u32
        } else {
            lvt & !0x1_0000u32
        },
{
    if mask {
        lvt | 0x1_0000u32
    } else {
        lvt & !0x1_0000u32
    }
}

/// The LVT value used while calibrating: masked, vector `0xFF`.
pub fn calibration_lvt() -> (r: u64)
    ensures
        r == 0x1_0000u64 | 0xFF,
{
    0x1_0000u64 | 0xFF
}

/// The factor that a divide-configuration value divides the timer clock
/// by (an unknown encoding counts as 16).
pub open spec fn divider_factor(div: u32) -> u64 {
    if div == DIV_1 {
        1
    } else if div == DIV_2 {
        2
    } else if div == DIV_4 {
        4
    } else if div == DIV_8 {
        8
    } else if div == DIV_16 {
        16
    } else if div == DIV_32 {
        32
    } else if div == DIV_64 {
        64
    } else if div == DIV_128 {
        128
    } else {
        16
    }
}

/// The divide configuration as the SDM encodes it: bits 0, 1 and 3 form
/// a 3-bit value `v` (bit 3 as its high bit), and the timer clock is divided
/// by `2^((v + 1) mod 8)`.
pub proof fn lemma_divider_encoding(div: u32)
    requires
        div < 16,
        div % 8 < 4,
    ensures
        divider_factor(div) == vstd::arithmetic::power2::pow2(
            ((div % 4 + 4 * (div / 8) + 1) % 8) as nat,
        ),
{
    vstd::arithmetic::power2::lemma2_to64();
    assert(div == 0 || div == 1 || div == 2 || div == 3 || div == 8 || div == 9 || div == 10 || div == 11);
}

/// See [`divider_factor`].
pub fn divider_multiplier(div: u32) -> (r: u64)
    ensures
        r == divider_factor(div),
        1 <= r <= 128,
{
    match div {
        0b1011 => 1,
        0b0000 => 2,
        0b0001 => 4,
        0b0010 => 8,
        0b0011 => 16,
        0b1000 => 32,
        0b1001 => 64,
        0b1010 => 128,
        _ => 16,
    }
}

/// The time-stamp count at which a calibration window of `window_us`
/// microseconds that starts at `start` ends.
pub fn calibration_deadline(start: u64, tsc_hz: u64, window_us: u64) -> (r: u64)
    requires
        start + (tsc_hz / 1_000_000) * window_us <= u64::MAX,
    ensures
        r == start + (tsc_hz / 1_000_000) * window_us,
{
    start + (tsc_hz / 1_000_000) * window_us
}

/// The timer's input clock in Hz, from the current count `cur` that a
/// count started at `0xFFFF_FFFF` reached after `window_us` microseconds
/// with divide configuration `div`.
pub fn lapic_hz_from_count(cur: u32, window_us: u64, div: u32) -> (r: u64)
    requires
        window_us > 0,
    ensures
        r == (0xFFFF_FFFFu64 - cur) * 1_000_000 / (window_us as int) * divider_factor(div),
{
    let elapsed = 0xFFFF_FFFFu64 - cur as u64;
    proof {
        assert(elapsed * 1_000_000 <= 0xFFFF_FFFFu64 * 1_000_000) by (nonlinear_arith)
            requires
                elapsed <= 0xFFFF_FFFF,
        ;
    }
    let ticks_per_sec = elapsed * 1_000_000 / window_us;
    let m = divider_multiplier(div);
    proof {
        assert(ticks_per_sec <= elapsed * 1_000_000) by (nonlinear_arith)
            requires
                ticks_per_sec == elapsed * 1_000_000 / (window_us as int),
                window_us > 0,
        ;
        assert(ticks_per_sec * m <= 0xFFFF_FFFFu64 * 1_000_000 * 128) by (nonlinear_arith)
            requires
                ticks_per_sec <= 0xFFFF_FFFFu64 * 1_000_000,
                m <= 128,
        ;
    }
    ticks_per_sec * m
}

/// The initial count of a periodic timer at [`TARGET_TIMER_HZ`] with
/// divide-by-16, for a timer clock of `lapic_hz` (cut to 32 bits).
pub fn periodic_initial_count(lapic_hz: u64) -> (r: u32)
    ensures
        r == (lapic_hz / 16 / TARGET_TIMER_HZ) as u32,
{
    let dec_rate = lapic_hz / 16;
    (dec_rate / TARGET_TIMER_HZ) as u32
}

/// The timer rate in Hz from the tick counts `t0` and `t1` read a tenth
/// of a second apart (0 if the count went back).
pub fn ticks_per_second(t0: u64, t1: u64) -> (r: u64)
    ensures
        r == if t1 < t0 {
            0
        } else if (t1 - t0) * 10 > u64::MAX {
            u64::MAX
        } else {
            ((t1 - t0) * 10) as u64
        },
{
    let dt = t1.saturating_sub(t0);
    if dt > u64::MAX / 10 {
        u64::MAX
    } else {
        dt * 10
    }
}

} // verus!
