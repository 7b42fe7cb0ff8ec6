//! Protocol tables, codes and status of the DC power supply module.

use vstd::prelude::*;

use crate::protocol::{pack_status, status_byte};

verus! {

pub const PROC_CLOCK: u32 = 16_000_000;

pub const VERS1_STR: &'static str = "2.92 [DCG by CM/c't 05/2010]";

pub const VERS3_STR: &'static str = "DCG 2.92";

pub const ADR_STR: &'static str = "Adr ";

pub const ERR_SUB_CH: u8 = 255;

/// Command keywords, in the order of [`CmdWhich`].
pub const CMD_STR_ARR: [&'static str; 27] = [
    "STR", "IDN", "CHN", "VAL", "DCV", "DCA", "MAH", "MWH", "MSV",
    "MSA", "MSW", "PCV", "PCA", "RON", "ROF", "RIP", "RAW", "DSP",
    "OFS", "SCL", "OPT", "ALL", "TMP", "WEN", "ERC", "SBD", "NOP",
];

/// Sub-channel offset of each command keyword.
pub const CMD2_SUB_CH_ARR: [u8; 27] = [
    255, 254, 253, 0, 0, 1, 7, 8, 10, 11, 18, 20,
    21, 27, 28, 29, 50, 80, 100, 200, 150, 99, 233, 250,
    251, 252, 0,
];

/// Texts of the error codes.
pub const ERR_STR_ARR: [&'static str; 8] = [
    "[OK]", "[SRQUSR]", "[BUSY]", "[OVRLD]",
    "[CMDERR]", "[PARERR]", "[LOCKED]", "[CHKSUM]",
];

/// Texts of the faults.
pub const FAULT_STR_ARR: [&'static str; 4] = [
    "[OVRPOWR]", "[FUSEBLW]", "[OVRVOLT]", "[OVRTEMP]",
];

/// Command keywords of the power supply.
#[derive(Debug, Clone, Copy, PartialEq, Eq, Structural)]
pub enum CmdWhich {
    Str,
    Idn,
    Chn,
    Val,
    Dcv,
    Dca,
    Mah,
    Mwh,
    Msv,
    Msa,
    Msw,
    Pcv,
    Pca,
    Pwon,
    Pwoff,
    Rip,
    Raw,
    Dsp,
    Ofs,
    Scl,
    Opt,
    All,
    Tmp,
    Wen,
    Erc,
    Sbd,
    Nop,
    Invalid,
}

/// Operating menus of the panel.
#[derive(Debug, Clone, Copy, PartialEq, Eq, Structural)]
pub enum Modify {
    Ampere,
    Volt,
    Ripple,
    TOn,
    TOff,
    TrackCh,
    CapMenu,
    PwrMenu,
}

/// Error and fault codes of the protocol.
#[derive(Debug, Clone, Copy, PartialEq, Eq, Structural)]
pub enum ErrorCode {
    NoErr,
    UserReq,
    BusyErr,
    OvlErr,
    SyntaxErr,
    ParamErr,
    LockedErr,
    ChecksumErr,
    FuseErr,
    FaultErr,
}

/// Current ranges (shunts).
#[derive(Debug, Clone, Copy, PartialEq, Eq, Structural)]
pub enum CurrentRange {
    Dc2mA,
    Dc20mA,
    Dc200mA,
    Dc2A,
}

/// Voltage ranges (relay).
#[derive(Debug, Clone, Copy, PartialEq, Eq, Structural)]
pub enum VoltageRange {
    ULow,
    UHigh,
}

/// Runtime status: the code of the last error or fault and four flags.
#[derive(Debug, Clone, Copy, PartialEq, Eq, Structural)]
pub struct RuntimeStatus {
    pub error_low_nibble: u8,
    pub ee_unlocked: bool,
    pub overload_flag: bool,
    pub user_srq_flag: bool,
    pub busy_flag: bool,
}

impl Default for RuntimeStatus {
    fn default() -> (r: Self)
        ensures
            r == (RuntimeStatus {
                error_low_nibble: 0,
                ee_unlocked: false,
                overload_flag: false,
                user_srq_flag: false,
                busy_flag: false,
            }),
    {
        RuntimeStatus { error_low_nibble: 0, ee_unlocked: false, overload_flag: false, user_srq_flag: false, busy_flag: false }
    }
}

impl RuntimeStatus {
    /// The status byte of the serial protocol: bits 3..0 the current fault or parser error, bit 4 write enable, bit 5
    /// overload or current limit, bit 6 user request, bit 7 busy.
    pub fn as_byte(self) -> (r: u8)
        ensures
            r == status_byte(self.error_low_nibble, self.ee_unlocked, self.overload_flag, self.user_srq_flag, self.busy_flag),
    {
        pack_status(self.error_low_nibble, self.ee_unlocked, self.overload_flag, self.user_srq_flag, self.busy_flag)
    }
}

} // verus!
