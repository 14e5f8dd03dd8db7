//! Configuration of the TMC2209 stepper drivers over their shared UART: the
//! settings of an axis, and the three register writes that carry them.

use crate::axis::AXES;
use vstd::prelude::*;

verus! {

/// The board's sense resistors, in milliohms.
pub const RSENSE_MOHM: u64 = 110;

/// The settings of one driver.
#[derive(Clone, Copy, Debug, PartialEq, Eq, Structural)]
pub struct TmcCfg {
    pub axis: u8,
    pub microsteps: u16,
    pub run_ma: u32,
    pub hold_ma: u32,
    pub hold_delay: u8,
    pub spreadcycle: bool,
    pub interpolate: bool,
}

// --------------------------------------------------------------------------
// Motor current
// --------------------------------------------------------------------------

/// The voltage across the sense resistor and the 20 milliohms behind it at
/// `ma` milliamps RMS, times 32 and the square root of two, in units of a
/// ten-thousandth of a microvolt.
pub open spec fn sense_units(ma: int) -> int {
    ma * (RSENSE_MOHM + 20) * 32 * 14142
}

/// `n / d` rounded to the nearest integer, halves up.
pub open spec fn nearest(n: int, d: int) -> int {
    (n + d / 2) / d
}

/// Full scale of the sensitive range: 180 millivolts in the same units.
pub open spec fn fine_scale() -> int {
    180int * 10_000_000
}

/// Full scale of the coarse range: 325 millivolts in the same units.
pub open spec fn coarse_scale() -> int {
    325int * 10_000_000
}

/// Full scale of a range: the sensitive one, or the coarse one.
pub open spec fn full_scale(vsense: bool) -> int {
    if vsense {
        fine_scale()
    } else {
        coarse_scale()
    }
}

/// The current scale for a current in a range: the nearest that it has.
#[verifier::opaque]
pub open spec fn cs_in(ma: int, vsense: bool) -> int {
    let steps = nearest(sense_units(ma), full_scale(vsense));
    if steps < 1 {
        0
    } else if steps > 32 {
        31
    } else {
        steps - 1
    }
}

/// The range and current scale for a current. The sensitive range is taken
/// up to its end, and the coarse one for higher currents.
#[verifier::opaque]
pub open spec fn vsense_cs(ma: int) -> (bool, int) {
    let vsense = nearest(sense_units(ma), fine_scale()) <= 32;
    (vsense, cs_in(ma, vsense))
}

/// The current scale for an RMS current in milliamps, in a given range.
pub fn current_scale(current_ma: u32, vsense: bool) -> (r: u8)
    ensures
        r == cs_in(current_ma as int, vsense),
        r <= 31,
{
    proof {
        reveal(cs_in);
        lemma_scales(current_ma as int);
    }
    let r_eff: u64 = RSENSE_MOHM + 20;
    let num: u64 = (current_ma as u64) * r_eff * 32 * 14142;
    let steps: u64 = if vsense {
        let denom_v1: u64 = 180u64 * 10_000_000;
        (num + denom_v1 / 2) / denom_v1
    } else {
        let denom_v0: u64 = 325u64 * 10_000_000;
        (num + denom_v0 / 2) / denom_v0
    };
    if steps < 1 {
        0
    } else if steps > 32 {
        31
    } else {
        (steps - 1) as u8
    }
}

/// The range and current scale for an RMS current in milliamps.
pub fn current_to_vsense_cs(current_ma: u32) -> (r: (bool, u8))
    ensures
        r.0 == vsense_cs(current_ma as int).0,
        r.1 == vsense_cs(current_ma as int).1,
        r.1 <= 31,
{
    proof {
        reveal(vsense_cs);
        lemma_scales(current_ma as int);
    }
    let r_eff: u64 = RSENSE_MOHM + 20;
    let num: u64 = (current_ma as u64) * r_eff * 32 * 14142;
    let denom_v1: u64 = 180u64 * 10_000_000;
    let vsense: bool = (num + denom_v1 / 2) / denom_v1 <= 32;
    (vsense, current_scale(current_ma, vsense))
}

proof fn lemma_scales(ma: int)
    ensures
        sense_units(ma) == 58_830_720 * ma,
        nearest(sense_units(ma), fine_scale()) == (58_830_720 * ma + 900_000_000) / 1_800_000_000,
        nearest(sense_units(ma), coarse_scale()) == (58_830_720 * ma + 1_625_000_000)
            / 3_250_000_000,
{
}

/// The sensitive range serves up to 994 milliamps, and the coarse one serves
/// higher currents only.
pub proof fn fine_range_serves(ma: int)
    requires
        0 <= ma,
    ensures
        vsense_cs(ma).0 <==> ma <= 994,
{
    reveal(vsense_cs);
    lemma_scales(ma);
}

/// What the driver makes of a range and a scale, in the units of
/// `sense_units`: the scale counts thirty-seconds of the full scale, from one.
pub open spec fn delivered(vsense: bool, cs: int) -> int {
    if vsense {
        (cs + 1) * 1_800_000_000
    } else {
        (cs + 1) * 3_250_000_000
    }
}

/// More current asked for is never less current delivered, in either range
/// and from one to the other.
pub proof fn delivered_grows(a: int, b: int)
    requires
        0 <= a <= b,
    ensures
        delivered(vsense_cs(a).0, vsense_cs(a).1) <= delivered(vsense_cs(b).0, vsense_cs(b).1),
{
    reveal(vsense_cs);
    reveal(cs_in);
    lemma_scales(a);
    lemma_scales(b);
}

/// Of the scales of a range, the one taken is nearest to the current asked
/// for, from the smallest that the driver has to the largest.
pub proof fn delivered_is_nearest(ma: int)
    requires
        16 <= ma <= 1795,
    ensures
        ({
            let (vsense, cs) = vsense_cs(ma);
            -full_scale(vsense) <= 2 * (sense_units(ma) - delivered(vsense, cs)) <= full_scale(
                vsense,
            )
        }),
{
    reveal(vsense_cs);
    reveal(cs_in);
    lemma_scales(ma);
}

/// The same of the hold current, in the range that is written for both: it is
/// met as nearly as that range allows, up to its end.
pub proof fn hold_is_nearest(ma: int, vsense: bool)
    requires
        0 <= ma,
        2 * sense_units(ma) >= full_scale(vsense),
        2 * sense_units(ma) < 65 * full_scale(vsense),
    ensures
        -full_scale(vsense) <= 2 * (sense_units(ma) - delivered(vsense, cs_in(ma, vsense)))
            <= full_scale(vsense),
{
    reveal(cs_in);
    lemma_scales(ma);
}

// --------------------------------------------------------------------------
// Microsteps
// --------------------------------------------------------------------------

/// The resolution code of a microstep count: 256 is code 0, and each halving
/// adds one, down to full steps.
pub open spec fn mres(ms: int) -> Option<int> {
    if ms == 256 {
        Some(0)
    } else if ms == 128 {
        Some(1)
    } else if ms == 64 {
        Some(2)
    } else if ms == 32 {
        Some(3)
    } else if ms == 16 {
        Some(4)
    } else if ms == 8 {
        Some(5)
    } else if ms == 4 {
        Some(6)
    } else if ms == 2 {
        Some(7)
    } else if ms == 1 {
        Some(8)
    } else {
        None
    }
}

/// The resolution code of a microstep count, if the driver supports it.
pub fn microsteps_to_mres(ms: u16) -> (r: Option<u8>)
    ensures
        match r {
            Some(code) => mres(ms as int) == Some(code as int) && code <= 8,
            None => mres(ms as int) is None,
        },
{
    match ms {
        256 => Some(0),
        128 => Some(1),
        64 => Some(2),
        32 => Some(3),
        16 => Some(4),
        8 => Some(5),
        4 => Some(6),
        2 => Some(7),
        1 => Some(8),
        _ => None,
    }
}

/// A count has a code exactly when it is 256 divided by two to the code.
pub proof fn mres_halves(ms: int, code: nat)
    ensures
        mres(ms) == Some(code as int) <==> code <= 8 && ms * vstd::arithmetic::power2::pow2(code)
            == 256,
{
    vstd::arithmetic::power2::lemma2_to64();
    if code <= 8 {
        if code == 0 {
        } else if code == 1 {
        } else if code == 2 {
        } else if code == 3 {
        } else if code == 4 {
        } else if code == 5 {
        } else if code == 6 {
        } else if code == 7 {
        } else {
            assert(code == 8);
        }
    }
}

// --------------------------------------------------------------------------
// Registers
// --------------------------------------------------------------------------

/// `word` with the bits of `mask` taken from `bits`.
pub open spec fn with_bits(word: u32, mask: u32, bits: u32) -> u32 {
    (word & !mask) | (bits & mask)
}

/// `mask`, or nothing.
pub open spec fn flag(mask: u32, on: bool) -> u32 {
    if on {
        mask
    } else {
        0
    }
}

/// `tmc2209::reg::GCONF::default`: analog current scaling on, and the UART
/// pin's standstill function off.
#[verifier::external_body]
fn gconf_default() -> (r: u32)
    ensures
        r == 0x41,
{
    u32::from(tmc2209::reg::GCONF::default())
}

/// `tmc2209::reg::GCONF::set_pdn_disable` sets bit 6 and keeps the others.
#[verifier::external_body]
fn gconf_pdn_disable(word: u32, on: bool) -> (r: u32)
    ensures
        r == with_bits(word, 0x40, flag(0x40, on)),
{
    let mut reg = tmc2209::reg::GCONF::from(word);
    reg.set_pdn_disable(on);
    u32::from(reg)
}

/// `tmc2209::reg::GCONF::set_mstep_reg_select` sets bit 7 and keeps the others.
#[verifier::external_body]
fn gconf_mstep_reg_select(word: u32, on: bool) -> (r: u32)
    ensures
        r == with_bits(word, 0x80, flag(0x80, on)),
{
    let mut reg = tmc2209::reg::GCONF::from(word);
    reg.set_mstep_reg_select(on);
    u32::from(reg)
}

/// `tmc2209::reg::GCONF::set_i_scale_analog` sets bit 0 and keeps the others.
#[verifier::external_body]
fn gconf_i_scale_analog(word: u32, on: bool) -> (r: u32)
    ensures
        r == with_bits(word, 1, flag(1, on)),
{
    let mut reg = tmc2209::reg::GCONF::from(word);
    reg.set_i_scale_analog(on);
    u32::from(reg)
}

/// `tmc2209::reg::GCONF::set_en_spread_cycle` sets bit 2 and keeps the others.
#[verifier::external_body]
fn gconf_en_spread_cycle(word: u32, on: bool) -> (r: u32)
    ensures
        r == with_bits(word, 4, flag(4, on)),
{
    let mut reg = tmc2209::reg::GCONF::from(word);
    reg.set_en_spread_cycle(on);
    u32::from(reg)
}

/// `tmc2209::reg::IHOLD_IRUN::default`: full run current, no hold current.
#[verifier::external_body]
fn ihold_irun_default() -> (r: u32)
    ensures
        r == 0x1f00,
{
    u32::from(tmc2209::reg::IHOLD_IRUN::default())
}

/// `tmc2209::reg::IHOLD_IRUN::set_irun` sets bits 8 to 12 from the low bits of
/// its argument and keeps the others.
#[verifier::external_body]
fn ihold_irun_irun(word: u32, irun: u8) -> (r: u32)
    ensures
        r == with_bits(word, 0x1f00, (irun as u32) << 8),
{
    let mut reg = tmc2209::reg::IHOLD_IRUN::from(word);
    reg.set_irun(irun);
    u32::from(reg)
}

/// `tmc2209::reg::IHOLD_IRUN::set_ihold` sets bits 0 to 4 from the low bits of
/// its argument and keeps the others.
#[verifier::external_body]
fn ihold_irun_ihold(word: u32, ihold: u8) -> (r: u32)
    ensures
        r == with_bits(word, 0x1f, ihold as u32),
{
    let mut reg = tmc2209::reg::IHOLD_IRUN::from(word);
    reg.set_ihold(ihold);
    u32::from(reg)
}

/// `tmc2209::reg::IHOLD_IRUN::set_ihold_delay` sets bits 16 to 19 from the low
/// bits of its argument and keeps the others.
#[verifier::external_body]
fn ihold_irun_delay(word: u32, delay: u8) -> (r: u32)
    ensures
        r == with_bits(word, 0xf0000, (delay as u32) << 16),
{
    let mut reg = tmc2209::reg::IHOLD_IRUN::from(word);
    reg.set_ihold_delay(delay);
    u32::from(reg)
}

/// `tmc2209::reg::CHOPCONF::default`: off time 3, hysteresis start 5, and
/// interpolation on.
#[verifier::external_body]
fn chopconf_default() -> (r: u32)
    ensures
        r == 0x10000053,
{
    u32::from(tmc2209::reg::CHOPCONF::default())
}

/// `tmc2209::reg::CHOPCONF::set_mres` sets bits 24 to 27 to the code that the
/// resolution was made from and keeps the others. The resolution cannot be
/// made from a code above 8.
#[verifier::external_body]
fn chopconf_mres(word: u32, code: u8) -> (r: u32)
    requires
        code <= 8,
    ensures
        r == with_bits(word, 0xf000000, (code as u32) << 24),
{
    let mut reg = tmc2209::reg::CHOPCONF::from(word);
    reg.set_mres(tmc2209::data::MicroStepResolution::from(code as u32));
    u32::from(reg)
}

/// `tmc2209::reg::CHOPCONF::set_intpol` sets bit 28 and keeps the others.
#[verifier::external_body]
fn chopconf_intpol(word: u32, on: bool) -> (r: u32)
    ensures
        r == with_bits(word, 0x10000000, flag(0x10000000, on)),
{
    let mut reg = tmc2209::reg::CHOPCONF::from(word);
    reg.set_intpol(on);
    u32::from(reg)
}

/// `tmc2209::reg::CHOPCONF::set_vsense` sets bit 17 and keeps the others.
#[verifier::external_body]
fn chopconf_vsense(word: u32, on: bool) -> (r: u32)
    ensures
        r == with_bits(word, 0x20000, flag(0x20000, on)),
{
    let mut reg = tmc2209::reg::CHOPCONF::from(word);
    reg.set_vsense(on);
    u32::from(reg)
}

/// The global configuration word: driven over UART, microsteps from the
/// register, internal current reference.
pub fn gconf_word(spreadcycle: bool) -> (r: u32)
    ensures
        r == 0xc0 + (if spreadcycle { 4int } else { 0 }),
{
    let w0: u32 = gconf_default();
    let w1: u32 = gconf_pdn_disable(w0, true);
    let w2: u32 = gconf_mstep_reg_select(w1, true);
    let w3: u32 = gconf_i_scale_analog(w2, false);
    let w4: u32 = gconf_en_spread_cycle(w3, spreadcycle);
    let ghost bits = flag(4, spreadcycle);
    assert(w4 == 0xc0 + bits) by (bit_vector)
        requires
            w0 == 0x41,
            w1 == (w0 & !0x40u32) | (0x40u32 & 0x40u32),
            w2 == (w1 & !0x80u32) | (0x80u32 & 0x80u32),
            w3 == (w2 & !1u32) | (0u32 & 1u32),
            w4 == (w3 & !4u32) | (bits & 4u32),
            bits == 0 || bits == 4,
    ;
    w4
}

/// The motor current word. Each argument counts by the width of its field.
pub fn ihold_irun_word(irun: u8, ihold: u8, hold_delay: u8) -> (r: u32)
    ensures
        r == ihold % 32 + 0x100 * (irun % 32) + 0x10000 * (hold_delay % 16),
{
    let w0: u32 = ihold_irun_default();
    let w1: u32 = ihold_irun_irun(w0, irun);
    let w2: u32 = ihold_irun_ihold(w1, ihold);
    let w3: u32 = ihold_irun_delay(w2, hold_delay);
    assert(w3 == ihold % 32 + 0x100 * (irun % 32) + 0x10000 * (hold_delay % 16)) by (bit_vector)
        requires
            w0 == 0x1f00,
            w1 == (w0 & !0x1f00u32) | (((irun as u32) << 8) & 0x1f00u32),
            w2 == (w1 & !0x1fu32) | ((ihold as u32) & 0x1fu32),
            w3 == (w2 & !0xf0000u32) | (((hold_delay as u32) << 16) & 0xf0000u32),
    ;
    w3
}

/// The chopper word for a resolution code.
pub fn chopconf_word(code: u8, interpolate: bool, vsense: bool) -> (r: u32)
    requires
        code <= 8,
    ensures
        r == 0x53 + (if vsense { 0x20000int } else { 0 }) + 0x1000000 * code + (if interpolate {
            0x10000000int
        } else {
            0
        }),
{
    let w0: u32 = chopconf_default();
    let w1: u32 = chopconf_mres(w0, code);
    let w2: u32 = chopconf_intpol(w1, interpolate);
    let w3: u32 = chopconf_vsense(w2, vsense);
    let ghost i = flag(0x10000000, interpolate);
    let ghost v = flag(0x20000, vsense);
    assert(w3 == 0x53 + v + 0x1000000 * code + i) by (bit_vector)
        requires
            w0 == 0x10000053,
            code <= 8,
            w1 == (w0 & !0xf000000u32) | (((code as u32) << 24) & 0xf000000u32),
            w2 == (w1 & !0x10000000u32) | (i & 0x10000000u32),
            w3 == (w2 & !0x20000u32) | (v & 0x20000u32),
            i == 0 || i == 0x10000000,
            v == 0 || v == 0x20000,
    ;
    w3
}

// --------------------------------------------------------------------------
// Datagrams
// --------------------------------------------------------------------------

/// The checksum after one bit more, by the polynomial x^8 + x^2 + x + 1.
pub open spec fn crc_bit(crc: u8, bit: u8) -> u8 {
    if (crc >> 7) ^ bit != 0 {
        (crc << 1) ^ 0x07
    } else {
        crc << 1
    }
}

/// The checksum after the lowest `n` bits of a byte, the lowest first.
pub open spec fn crc_bits(crc: u8, byte: u8, n: nat) -> u8
    decreases n,
{
    if n == 0 {
        crc
    } else {
        crc_bit(crc_bits(crc, byte, (n - 1) as nat), (byte >> ((n - 1) as u8)) & 1)
    }
}

/// The checksum of a datagram's bytes before its last.
pub open spec fn datagram_crc(data: Seq<u8>) -> u8
    decreases data.len(),
{
    if data.len() == 0 {
        0
    } else {
        crc_bits(datagram_crc(data.drop_last()), data.last(), 8)
    }
}

/// The byte of `word` that stands above `shift` lower ones.
pub open spec fn byte_of(word: u32, shift: nat) -> u8 {
    (if shift == 3 {
        word as int / 0x1000000
    } else if shift == 2 {
        (word as int / 0x10000) % 256
    } else if shift == 1 {
        (word as int / 0x100) % 256
    } else {
        word as int % 256
    }) as u8
}

/// A write datagram up to its checksum: sync, driver address, register with
/// the write bit, and the word with its high byte first.
pub open spec fn datagram_head(addr: u8, reg: u8, word: u32) -> Seq<u8> {
    seq![
        5u8,
        addr,
        reg,
        byte_of(word, 3),
        byte_of(word, 2),
        byte_of(word, 1),
        byte_of(word, 0),
    ]
}

/// A write datagram.
pub open spec fn datagram(addr: u8, reg: u8, word: u32) -> Seq<u8> {
    datagram_head(addr, reg, word).push(datagram_crc(datagram_head(addr, reg, word)))
}

/// `tmc2209::WriteRequest::new` for the register GCONF, at 0x00: sync, address, register
/// and word, with the checksum of `tmc2209::crc` behind them.
#[verifier::external_body]
fn write_gconf(addr: u8, word: u32) -> (r: Vec<u8>)
    ensures
        r@ == datagram(addr, 0x80, word),
{
    tmc2209::WriteRequest::new(addr, tmc2209::reg::GCONF::from(word)).bytes().to_vec()
}

/// `tmc2209::WriteRequest::new` for the register IHOLD_IRUN, at 0x10: sync, address, register
/// and word, with the checksum of `tmc2209::crc` behind them.
#[verifier::external_body]
fn write_ihold_irun(addr: u8, word: u32) -> (r: Vec<u8>)
    ensures
        r@ == datagram(addr, 0x90, word),
{
    tmc2209::WriteRequest::new(addr, tmc2209::reg::IHOLD_IRUN::from(word)).bytes().to_vec()
}

/// `tmc2209::WriteRequest::new` for the register CHOPCONF, at 0x6c: sync, address, register
/// and word, with the checksum of `tmc2209::crc` behind them.
#[verifier::external_body]
fn write_chopconf(addr: u8, word: u32) -> (r: Vec<u8>)
    ensures
        r@ == datagram(addr, 0xec, word),
{
    tmc2209::WriteRequest::new(addr, tmc2209::reg::CHOPCONF::from(word)).bytes().to_vec()
}

/// The UART address that an axis's driver is strapped to.
pub open spec fn uart_addr(axis: int) -> int {
    if axis == 1 {
        2
    } else if axis == 2 {
        1
    } else {
        axis
    }
}

/// The UART address of an axis's driver.
pub fn tmc_addr(axis: usize) -> (r: u8)
    requires
        axis < AXES,
    ensures
        r == uart_addr(axis as int),
{
    if axis == 1 {
        2
    } else if axis == 2 {
        1
    } else {
        axis as u8
    }
}

/// No two drivers share an address.
pub proof fn uart_addresses_differ(a: int, b: int)
    requires
        0 <= a < AXES,
        0 <= b < AXES,
        a != b,
    ensures
        uart_addr(a) != uart_addr(b),
        0 <= uart_addr(a) < AXES,
{
}

/// Settings that name an axis of the board and a supported resolution.
pub open spec fn configurable(cfg: TmcCfg) -> bool {
    cfg.axis < AXES && mres(cfg.microsteps as int) is Some
}

/// The words that settings stand for: global configuration, motor currents,
/// chopper. The driver has one sense range, that of the run current; the hold
/// current is scaled in it too.
pub open spec fn register_words(cfg: TmcCfg) -> (u32, u32, u32) {
    let (vsense, irun) = vsense_cs(cfg.run_ma as int);
    let ihold = cs_in(cfg.hold_ma as int, vsense);
    (
        (0xc0 + (if cfg.spreadcycle { 4int } else { 0 })) as u32,
        (ihold + 0x100 * irun + 0x10000 * (cfg.hold_delay % 16)) as u32,
        (0x53 + (if vsense { 0x20000int } else { 0 }) + 0x1000000 * mres(
            cfg.microsteps as int,
        )->0 + (if cfg.interpolate { 0x10000000int } else { 0 })) as u32,
    )
}

/// The datagrams that configure a driver, in the order they are written.
pub open spec fn configuration(cfg: TmcCfg) -> Seq<Seq<u8>> {
    let addr = uart_addr(cfg.axis as int) as u8;
    let (gconf, currents, chop) = register_words(cfg);
    seq![datagram(addr, 0x80, gconf), datagram(addr, 0x90, currents), datagram(addr, 0xec, chop)]
}

pub open spec fn datagram_views(v: Seq<Vec<u8>>) -> Seq<Seq<u8>> {
    v.map_values(|d: Vec<u8>| d@)
}

/// The datagrams to write for `cfg`, in order. Settings for no axis of the
/// board, or for an unsupported resolution, are passed over.
pub fn apply_tmc(cfg: TmcCfg) -> (r: Option<Vec<Vec<u8>>>)
    ensures
        match r {
            Some(d) => configurable(cfg) && datagram_views(d@) == configuration(cfg),
            None => !configurable(cfg),
        },
{
    let axis: usize = cfg.axis as usize;
    if axis >= AXES {
        return None;
    }
    let code: u8 = match microsteps_to_mres(cfg.microsteps) {
        Some(code) => code,
        None => {
            return None;
        },
    };
    let addr: u8 = tmc_addr(axis);
    let (vsense, irun) = current_to_vsense_cs(cfg.run_ma);
    let ihold: u8 = current_scale(cfg.hold_ma, vsense);
    let gconf: u32 = gconf_word(cfg.spreadcycle);
    let currents: u32 = ihold_irun_word(irun, ihold, cfg.hold_delay);
    let chop: u32 = chopconf_word(code, cfg.interpolate, vsense);
    let mut out: Vec<Vec<u8>> = Vec::new();
    out.push(write_gconf(addr, gconf));
    out.push(write_ihold_irun(addr, currents));
    out.push(write_chopconf(addr, chop));
    assert(datagram_views(out@) =~= configuration(cfg));
    Some(out)
}

/// Every datagram of a configuration is eight bytes long, and starts with the
/// sync byte and the address of its driver.
pub proof fn datagrams_are_framed(cfg: TmcCfg)
    requires
        configurable(cfg),
    ensures
        configuration(cfg).len() == 3,
        forall|i: int|
            0 <= i < 3 ==> {
                let d = #[trigger] configuration(cfg)[i];
                d.len() == 8 && d[0] == 5 && d[1] == uart_addr(cfg.axis as int)
            },
{
}

/// The current scale for a current in a range: the full scale is 180 or 325
/// millivolts, of which the scale counts thirty-seconds from one, and the current
/// makes 130 milliohms times the square root of two of it. The scale is the nearest,
/// up to the ends of the range.
pub proof fn scales_are_nearest(ma: int, vsense: bool)
    requires
        0 <= ma,
    ensures
        ({
            let cs = cs_in(ma, vsense);
            let full = if vsense {
                1_800_000_000
            } else {
                3_250_000_000int
            };
            let asked = ma * 58_830_720;
            &&& 0 <= cs <= 31
            &&& cs > 0 ==> 2 * asked >= (2 * cs + 1) * full
            &&& cs < 31 ==> 2 * asked < (2 * cs + 3) * full
        }),
{
    reveal(cs_in);
    lemma_scales(ma);
}

/// Every setting decides a field of its own, and no other. In the global
/// word that is bit 2, behind the two that hand the driver to the UART. In the
/// word of the currents the hold current takes five bits, the run current five
/// bits above eight, and the delay four bits above sixteen. In the chopper word
/// the range takes bit 17, the resolution four bits above twenty-four, and
/// interpolation bit 28, beside the off time and the hysteresis. The range is
/// that of the run current, fine up to 994 milliamps, and both currents are scaled in it.
pub proof fn settings_decide_their_fields(cfg: TmcCfg, code: int)
    requires
        cfg.axis < 4,
        0 <= code <= 8,
        cfg.microsteps * vstd::arithmetic::power2::pow2(code as nat) == 256,
    ensures
        configurable(cfg),
        ({
            let (gconf, currents, chop) = register_words(cfg);
            let fine = cfg.run_ma <= 994;
            &&& gconf == (if cfg.spreadcycle {
                0xc4int
            } else {
                0xc0
            })
            &&& currents == cs_in(cfg.hold_ma as int, fine) + 0x100 * cs_in(
                cfg.run_ma as int,
                fine,
            ) + 0x1_0000 * (cfg.hold_delay as int % 16)
            &&& chop == 0x53 + (if fine {
                0x2_0000int
            } else {
                0
            }) + 0x100_0000 * code + (if cfg.interpolate {
                0x1000_0000int
            } else {
                0
            })
        }),
{
    mres_halves(cfg.microsteps as int, code as nat);
    fine_range_serves(cfg.run_ma as int);
    scales_are_nearest(cfg.hold_ma as int, cfg.run_ma <= 994);
    scales_are_nearest(cfg.run_ma as int, cfg.run_ma <= 994);
    reveal(vsense_cs);
}

/// Settings that name no axis of the board, or microsteps that the driver does
/// not have, are passed over; others are not.
pub proof fn settings_can_be_written(cfg: TmcCfg)
    ensures
        configurable(cfg) <==> cfg.axis < 4 && (cfg.microsteps == 1 || cfg.microsteps == 2
            || cfg.microsteps == 4 || cfg.microsteps == 8 || cfg.microsteps == 16 || cfg.microsteps
            == 32 || cfg.microsteps == 64 || cfg.microsteps == 128 || cfg.microsteps == 256),
{
}

/// Two settings that differ in one of them alone differ in its bit alone.
pub proof fn switches_decide_one_bit(cfg: TmcCfg)
    requires
        configurable(cfg),
    ensures
        ({
            let spread = TmcCfg { spreadcycle: true, ..cfg };
            let stealth = TmcCfg { spreadcycle: false, ..cfg };
            let smooth = TmcCfg { interpolate: true, ..cfg };
            let plain = TmcCfg { interpolate: false, ..cfg };
            let s = register_words(spread);
            let t = register_words(stealth);
            let i = register_words(smooth);
            let p = register_words(plain);
            &&& s.0 == t.0 + 4 && s.1 == t.1 && s.2 == t.2
            &&& i.0 == p.0 && i.1 == p.1 && i.2 == p.2 + 0x1000_0000
        }),
{
    lemma_codes(cfg.microsteps as int);
}

proof fn lemma_codes(ms: int)
    ensures
        mres(ms) matches Some(code) ==> 0 <= code <= 8,
{
}

proof fn lemma_datagram(addr: u8, reg: u8, word: u32)
    ensures
        ({
            let d = datagram(addr, reg, word);
            &&& d.len() == 8
            &&& d[0] == 5
            &&& d[1] == addr
            &&& d[2] == reg
            &&& d[3] * 0x100_0000 + d[4] * 0x1_0000 + d[5] * 0x100 + d[6] == word
            &&& d[7] == datagram_crc(d.take(7))
        }),
{
    let d = datagram(addr, reg, word);
    assert(d.take(7) =~= datagram_head(addr, reg, word));
}

/// The datagrams of a configuration write the three registers in turn: global
/// configuration at 0x00, currents at 0x10, chopper at 0x6c, each with the write bit. They
/// go to the address that the axis's driver is strapped to, and carry the words
/// with the high byte first.
pub proof fn datagrams_carry_the_words(cfg: TmcCfg, i: int)
    requires
        configurable(cfg),
        0 <= i < 3,
    ensures
        ({
            let d = configuration(cfg)[i];
            let word = if i == 0 {
                register_words(cfg).0
            } else if i == 1 {
                register_words(cfg).1
            } else {
                register_words(cfg).2
            };
            &&& configuration(cfg).len() == 3
            &&& d.len() == 8
            &&& d[0] == 5
            &&& d[1] == (if cfg.axis == 0 {
                0int
            } else if cfg.axis == 1 {
                2
            } else if cfg.axis == 2 {
                1
            } else {
                3
            })
            &&& d[2] == (if i == 0 {
                0x80int
            } else if i == 1 {
                0x90
            } else {
                0xec
            })
            &&& d[3] * 0x100_0000 + d[4] * 0x1_0000 + d[5] * 0x100 + d[6] == word
            &&& d[7] == datagram_crc(d.take(7))
        }),
{
    let addr = uart_addr(cfg.axis as int) as u8;
    let words = register_words(cfg);
    lemma_datagram(addr, 0x80, words.0);
    lemma_datagram(addr, 0x90, words.1);
    lemma_datagram(addr, 0xec, words.2);
    assert(configuration(cfg)[0] == datagram(addr, 0x80, words.0));
    assert(configuration(cfg)[1] == datagram(addr, 0x90, words.1));
    assert(configuration(cfg)[2] == datagram(addr, 0xec, words.2));
}

} // verus!
