//! Protocol tables, codes and ranges of the digital voltmeter module.

use vstd::prelude::*;

verus! {

pub const PROC_CLOCK: u32 = 16_000_000;

pub const VERS1_STR: &'static str = "3.10 [DIV by CM/c't 03/2007]";

pub const VERS3_STR: &'static str = "DIV 3.10";

/// Display texts of the ranges, in the order of [`DivRange`].
pub const RANGE_STR_ARR: [&'static str; 16] = [
    "DC 250mV", "DC  2.5V", "DC   25V", "DC  250V",
    "AC 250mV", "AC  2.5V", "AC   25V", "AC  250V",
    "DC 250uA", "DC  25mA", "DC  2.5A", "DC   10A",
    "AC 250uA", "AC  25mA", "AC  2.5A", "AC   10A",
];

/// Command keywords, in the order of [`CmdWhich`].
pub const CMD_STR_ARR: [&'static str; 16] = [
    "STR", "IDN", "TRG", "VAL", "RNG", "DSP", "OFS", "SCL",
    "ALL", "TRM", "TRT", "TRL", "ERC", "SBD", "WEN", "NOP",
];

/// Command keywords of the voltmeter.
#[derive(Debug, Clone, Copy, PartialEq, Eq, Structural)]
pub enum CmdWhich {
    Str,
    Idn,
    Trg,
    Val,
    Rng,
    Dsp,
    Ofs,
    Scl,
    All,
    Trm,
    Trt,
    Trl,
    Erc,
    Sbd,
    Wen,
    Nop,
    Invalid,
}

/// Error codes of the protocol.
#[derive(Debug, Clone, Copy, PartialEq, Eq, Structural)]
pub enum ErrorCode {
    NoErr,
    UserReq,
    BusyErr,
    OvlErr,
    SyntaxErr,
    ParamErr,
    LockedErr,
    ChecksumErr,
}

/// Measuring ranges: voltage DC and AC, then current DC and AC.
#[derive(Debug, Clone, Copy, PartialEq, Eq, Structural)]
pub enum DivRange {
    Dc250mV,
    Dc2V5,
    Dc25V,
    Dc250V,
    Ac250mV,
    Ac2V5,
    Ac25V,
    Ac250V,
    Dc250uA,
    Dc25mA,
    Dc2A5,
    Dc10A,
    Ac250uA,
    Ac25mA,
    Ac2A5,
    Ac10A,
}

/// The number of a range, in declaration order.
pub open spec fn range_number(r: DivRange) -> u8 {
    match r {
        DivRange::Dc250mV => 0,
        DivRange::Dc2V5 => 1,
        DivRange::Dc25V => 2,
        DivRange::Dc250V => 3,
        DivRange::Ac250mV => 4,
        DivRange::Ac2V5 => 5,
        DivRange::Ac25V => 6,
        DivRange::Ac250V => 7,
        DivRange::Dc250uA => 8,
        DivRange::Dc25mA => 9,
        DivRange::Dc2A5 => 10,
        DivRange::Dc10A => 11,
        DivRange::Ac250uA => 12,
        DivRange::Ac25mA => 13,
        DivRange::Ac2A5 => 14,
        DivRange::Ac10A => 15,
    }
}

impl DivRange {
    /// The number of the range, 0 to 15 (see [`range_number`]).
    pub fn number(self) -> (r: u8)
        ensures
            r == range_number(self),
    {
        match self {
            DivRange::Dc250mV => 0,
            DivRange::Dc2V5 => 1,
            DivRange::Dc25V => 2,
            DivRange::Dc250V => 3,
            DivRange::Ac250mV => 4,
            DivRange::Ac2V5 => 5,
            DivRange::Ac25V => 6,
            DivRange::Ac250V => 7,
            DivRange::Dc250uA => 8,
            DivRange::Dc25mA => 9,
            DivRange::Dc2A5 => 10,
            DivRange::Dc10A => 11,
            DivRange::Ac250uA => 12,
            DivRange::Ac25mA => 13,
            DivRange::Ac2A5 => 14,
            DivRange::Ac10A => 15,
        }
    }

    /// Whether the range measures AC: the ranges numbered 4 to 7 and 12 to 15.
    pub fn is_ac(self) -> (r: bool)
        ensures
            r == (4 <= range_number(self) % 8),
    {
        let n = self.number();
        n % 8 >= 4
    }

    /// The display text of the range.
    pub fn label(self) -> (r: &'static str)
        ensures
            r == RANGE_STR_ARR[range_number(self) as int],
    {
        RANGE_STR_ARR[self.number() as usize]
    }
}

} // verus!
