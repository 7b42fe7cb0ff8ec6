//! Protocol tables, codes and status of the electronic load module.

use vstd::prelude::*;

use crate::protocol::{pack_status, status_byte};

verus! {

pub const PROC_CLOCK: u32 = 16_000_000;

pub const VERS1_STR: &'static str = "1.784 [EDL by CM/c't 09/2008]";

pub const VERS3_STR: &'static str = "EDL 1.78";

/// Command keywords, in the order of [`CmdWhich`].
pub const CMD_STR_ARR: [&'static str; 31] = [
    "STR", "IDN", "CHN", "VAL", "ENA", "DCA", "DCP", "DCV",
    "DCR", "MAH", "MWH", "MSV", "MSA", "RNG", "MSW", "PCA",
    "RON", "ROF", "RIP", "RAW", "DSP", "ALL", "OFS", "SCL",
    "OPT", "TMP", "TRM", "WEN", "ERC", "SBD", "NOP",
];

/// Command keywords of the electronic load.
#[derive(Debug, Clone, Copy, PartialEq, Eq, Structural)]
pub enum CmdWhich {
    Str,
    Idn,
    Chn,
    Val,
    Ena,
    Dca,
    Dcp,
    Dcv,
    Dcr,
    Mah,
    Mwh,
    Msv,
    Msa,
    Rng,
    Msw,
    Pca,
    Ron,
    Rof,
    Rip,
    Raw,
    Dsp,
    All,
    Ofs,
    Scl,
    Opt,
    Tmp,
    Trm,
    Wen,
    Erc,
    Sbd,
    Nop,
    Invalid,
}

/// Operating modes: off, constant current, resistance or power, each for high or low voltage.
#[derive(Debug, Clone, Copy, PartialEq, Eq, Structural)]
pub enum Mode {
    OutputOff,
    IHiVolt,
    ILoVolt,
    RHiVolt,
    RLoVolt,
    PHiVolt,
    PLoVolt,
}

/// Operating menus of the panel.
#[derive(Debug, Clone, Copy, PartialEq, Eq, Structural)]
pub enum Modify {
    LowerMainMenu,
    UpperMainMenu,
    ModeMenu,
    TOn,
    TOff,
    IOff,
    TempMenu,
    RiMenu,
    CapMenu,
    PwrCurMenu,
}

/// Error codes of the protocol.
#[derive(Debug, Clone, Copy, PartialEq, Eq, Structural)]
pub enum ErrorCode {
    NoErr,
    UserReq,
    BusyErr,
    OvlErr,
    SyntaxErr,
    ParamErr,
    LockedErr,
    ChecksumErr,
}

/// What a measurement takes: current or voltage, with the load off or on.
#[derive(Debug, Clone, Copy, PartialEq, Eq, Structural)]
pub enum MeasureKind {
    Ioff,
    Uoff,
    Ion,
    Uon,
}

/// DAC types of the load.
#[derive(Debug, Clone, Copy, PartialEq, Eq, Structural)]
pub enum DacKind {
    Ltc8043,
    Ad5452,
    Dac8501,
    Dac8811,
}

/// Runtime status: the code of the last error or fault and four flags.
#[derive(Debug, Clone, Copy, PartialEq, Eq, Structural)]
pub struct RuntimeStatus {
    pub error_low_nibble: u8,
    pub ee_unlocked: bool,
    pub overload_flag: bool,
    pub user_srq_flag: bool,
    pub busy_flag: bool,
}

impl Default for RuntimeStatus {
    fn default() -> (r: Self)
        ensures
            r == (RuntimeStatus {
                error_low_nibble: 0,
                ee_unlocked: false,
                overload_flag: false,
                user_srq_flag: false,
                busy_flag: false,
            }),
    {
        RuntimeStatus { error_low_nibble: 0, ee_unlocked: false, overload_flag: false, user_srq_flag: false, busy_flag: false }
    }
}

impl RuntimeStatus {
    /// The status byte of the serial protocol: bits 3..0 the error code, bit 4 EEPROM write enable,
    /// bit 5 a latched protection, bit 6 user activity, bit 7 busy.
    pub fn as_byte(self) -> (r: u8)
        ensures
            r == status_byte(self.error_low_nibble, self.ee_unlocked, self.overload_flag, self.user_srq_flag, self.busy_flag),
    {
        pack_status(self.error_low_nibble, self.ee_unlocked, self.overload_flag, self.user_srq_flag, self.busy_flag)
    }
}

} // verus!
