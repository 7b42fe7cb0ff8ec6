//! Protocol tables and codes of the DDS function generator, its command
//! lookup and line split, and the tuning word of its frequency.

use vstd::prelude::*;

use crate::protocol::{pack_status, status_byte};
use crate::text::{chars_of, push_char, same_chars, trim, trimmed};

verus! {

pub const PROC_CLOCK: u32 = 16_000_000;

pub const VERS1_STR: &'static str = "3.71 [DDS by CM/c't 03/2007]";

pub const VERS3_STR: &'static str = "DDS 3.71";

pub const ADR_STR: &'static str = "Adr ";

/// Command keywords, in the order of [`CmdWhich`].
pub const CMD_STR_ARR: [&'static str; 22] = [
    "STR",
    "IDN",
    "TRG",
    "VAL",
    "FRQ",
    "LVL",
    "LVP",
    "DBU",
    "WAV",
    "BST",
    "AUX",
    "INL",
    "RNG",
    "DCO",
    "DSP",
    "ALL",
    "OPT",
    "SCL",
    "WEN",
    "ERC",
    "SBD",
    "NOP",
];

/// Sub-channel offset of each command keyword.
pub const CMD2_SUB_CH_ARR: [u8; 22] = [
    255, 254, 249, 0, 0, 1, 2, 3, 4, 5, 9, 10,
    19, 20, 80, 99, 150, 200, 250, 251, 252, 0,
];

/// Command keywords of the generator.
#[derive(Debug, Clone, Copy, PartialEq, Eq, Structural)]
pub enum CmdWhich {
    Str,
    Idn,
    Trg,
    Val,
    Frq,
    Lvl,
    Lvp,
    Dbv,
    Wav,
    Bst,
    Aux,
    Inl,
    Rng,
    Ofs,
    Dsp,
    All,
    Opt,
    Scl,
    Wen,
    Erc,
    Sbd,
    Nop,
    Invalid,
}

/// Operating menus of the panel.
#[derive(Debug, Clone, Copy, PartialEq, Eq, Structural)]
pub enum Modify {
    WaveSel,
    FreqSel,
    AmplSel,
    PeakSel,
    InpSel,
    BurstSel,
    DcSel,
}

/// Error codes of the protocol.
#[derive(Debug, Clone, Copy, PartialEq, Eq, Structural)]
pub enum ErrorCode {
    NoErr,
    UserReq,
    BusyErr,
    OvlErr,
    SyntaxErr,
    ParamErr,
    LockedErr,
    ChecksumErr,
}

/// Output waveforms.
#[derive(Debug, Clone, Copy, PartialEq, Eq, Structural)]
pub enum Waveform {
    Off,
    Sine,
    Triangle,
    Square,
    Logic,
    External,
}

/// Output level ranges.
#[derive(Debug, Clone, Copy, PartialEq, Eq, Structural)]
pub enum OutputRange {
    Ac100mV,
    Ac1V,
    Ac10V,
    Ac100V,
    NoRange,
}

/// Runtime status: the code of the last error and four flags.
#[derive(Debug, Clone, Copy, PartialEq, Eq, Structural)]
pub struct RuntimeStatus {
    pub error_low_nibble: u8,
    pub ee_unlocked: bool,
    pub overload_flag: bool,
    pub user_srq_flag: bool,
    pub busy_flag: bool,
}

impl Default for RuntimeStatus {
    fn default() -> (r: Self)
        ensures
            r == (RuntimeStatus {
                error_low_nibble: 0,
                ee_unlocked: false,
                overload_flag: false,
                user_srq_flag: false,
                busy_flag: false,
            }),
    {
        RuntimeStatus { error_low_nibble: 0, ee_unlocked: false, overload_flag: false, user_srq_flag: false, busy_flag: false }
    }
}

impl RuntimeStatus {
    /// The status byte of the serial protocol: bits 3..0 the error code,
    /// bit 4 write enable, bit 5 overload, bit 6 user request, bit 7 busy.
    pub fn as_byte(self) -> (r: u8)
        ensures
            r == status_byte(self.error_low_nibble, self.ee_unlocked, self.overload_flag, self.user_srq_flag, self.busy_flag),
    {
        pack_status(self.error_low_nibble, self.ee_unlocked, self.overload_flag, self.user_srq_flag, self.busy_flag)
    }
}

/// The command at position `i` of the keyword table.
pub open spec fn command_at(i: int) -> CmdWhich {
    if i == 0 {
        CmdWhich::Str
    } else if i == 1 {
        CmdWhich::Idn
    } else if i == 2 {
        CmdWhich::Trg
    } else if i == 3 {
        CmdWhich::Val
    } else if i == 4 {
        CmdWhich::Frq
    } else if i == 5 {
        CmdWhich::Lvl
    } else if i == 6 {
        CmdWhich::Lvp
    } else if i == 7 {
        CmdWhich::Dbv
    } else if i == 8 {
        CmdWhich::Wav
    } else if i == 9 {
        CmdWhich::Bst
    } else if i == 10 {
        CmdWhich::Aux
    } else if i == 11 {
        CmdWhich::Inl
    } else if i == 12 {
        CmdWhich::Rng
    } else if i == 13 {
        CmdWhich::Ofs
    } else if i == 14 {
        CmdWhich::Dsp
    } else if i == 15 {
        CmdWhich::All
    } else if i == 16 {
        CmdWhich::Opt
    } else if i == 17 {
        CmdWhich::Scl
    } else if i == 18 {
        CmdWhich::Wen
    } else if i == 19 {
        CmdWhich::Erc
    } else if i == 20 {
        CmdWhich::Sbd
    } else {
        CmdWhich::Nop
    }
}

/// The command whose keyword, from table position `i` on, equals the text
/// exactly; `Invalid` where none does.
pub open spec fn command_from(t: Seq<char>, i: int) -> CmdWhich
    decreases 22 - i,
{
    if i < 0 || i >= 22 {
        CmdWhich::Invalid
    } else if CMD_STR_ARR[i]@ == t {
        command_at(i)
    } else {
        command_from(t, i + 1)
    }
}

/// The command at position `i` of the keyword table.
fn command_at_exec(i: usize) -> (r: CmdWhich)
    requires
        i < 22,
    ensures
        r == command_at(i as int),
{
    match i {
        0 => CmdWhich::Str,
        1 => CmdWhich::Idn,
        2 => CmdWhich::Trg,
        3 => CmdWhich::Val,
        4 => CmdWhich::Frq,
        5 => CmdWhich::Lvl,
        6 => CmdWhich::Lvp,
        7 => CmdWhich::Dbv,
        8 => CmdWhich::Wav,
        9 => CmdWhich::Bst,
        10 => CmdWhich::Aux,
        11 => CmdWhich::Inl,
        12 => CmdWhich::Rng,
        13 => CmdWhich::Ofs,
        14 => CmdWhich::Dsp,
        15 => CmdWhich::All,
        16 => CmdWhich::Opt,
        17 => CmdWhich::Scl,
        18 => CmdWhich::Wen,
        19 => CmdWhich::Erc,
        20 => CmdWhich::Sbd,
        _ => CmdWhich::Nop,
    }
}

/// The command named exactly by the characters `word`.
fn command_of_chars(word: &Vec<char>) -> (r: CmdWhich)
    ensures
        r == command_from(word@, 0),
{
    let mut i: usize = 0;
    while i < 22
        invariant
            i <= 22,
            command_from(word@, 0) == command_from(word@, i as int),
        decreases 22 - i,
    {
        let candidate = chars_of(CMD_STR_ARR[i]);
        if same_chars(&candidate, word) {
            return command_at_exec(i);
        }
        i = i + 1;
    }
    CmdWhich::Invalid
}

/// Looks a keyword up in the command table; the text must equal a keyword
/// exactly (case and all), else the command is `Invalid`.
pub fn cmd2_index(text: &str) -> (r: CmdWhich)
    ensures
        r == command_from(text@, 0),
{
    let word = chars_of(text);
    command_of_chars(&word)
}

/// Position of the first `=` in `t`, if any.
pub open spec fn first_equals(t: Seq<char>) -> Option<int> {
    if exists|i: int| 0 <= i < t.len() && t[i] == '=' {
        Some(choose|i: int| 0 <= i < t.len() && t[i] == '=' && forall|j: int| 0 <= j < i ==> t[j] != '=')
    } else {
        None
    }
}

/// The split of a command line: after trimming, the command named by the
/// text up to the first `=` and, where there is one, the text behind it.
pub open spec fn split_line(input: Seq<char>) -> (CmdWhich, Option<Seq<char>>) {
    let t = trim(input);
    match first_equals(t) {
        None => (command_from(t, 0), None),
        Some(p) => (command_from(t.subrange(0, p), 0), Some(t.subrange(p + 1, t.len() as int))),
    }
}

/// Splits a command line into its command and its parameter text (see
/// [`split_line`]).
pub fn parse_extract(input: &str) -> (r: (CmdWhich, Option<String>))
    ensures
        r.0 == split_line(input@).0,
        match split_line(input@).1 {
            None => r.1 is None,
            Some(p) => r.1 matches Some(s) && s@ == p,
        },
{
    let t = trimmed(input);
    let n = t.len();
    let mut i: usize = 0;
    while i < n && t[i] != '='
        invariant
            i <= n == t@.len(),
            t@ == trim(input@),
            forall|j: int| 0 <= j < i ==> t@[j] != '=',
        decreases n - i,
    {
        i = i + 1;
    }
    let mut word: Vec<char> = Vec::new();
    let mut k: usize = 0;
    while k < i
        invariant
            k <= i <= n == t@.len(),
            word@ == t@.subrange(0, k as int),
        decreases i - k,
    {
        word.push(t[k]);
        k = k + 1;
        assert(word@ =~= t@.subrange(0, k as int));
    }
    let cmd = command_of_chars(&word);
    if i >= n {
        proof {
            assert(word@ =~= t@);
            assert(!(exists|j: int| 0 <= j < t@.len() && t@[j] == '='));
        }
        return (cmd, None);
    }
    proof {
        let p = choose|j: int| 0 <= j < t@.len() && t@[j] == '=' && forall|m: int| 0 <= m < j ==> t@[m] != '=';
        assert(0 <= i < t@.len() && t@[i as int] == '=');
        if p < i {
            assert(t@[p] != '=');
        } else if p > i {
            assert(t@[i as int] != '=');
        }
        assert(first_equals(t@) == Some(i as int));
    }
    let mut param = String::new();
    let mut m: usize = i + 1;
    while m < n
        invariant
            i + 1 <= m <= n,
            n == t@.len(),
            param@ == t@.subrange(i + 1, m as int),
        decreases n - m,
    {
        push_char(&mut param, t[m]);
        m = m + 1;
        assert(param@ =~= t@.subrange(i + 1, m as int));
    }
    (cmd, Some(param))
}

/// The AD9833 tuning word of a frequency in Hz, as the chores compute it:
/// `(f << 28) / 4194304` taken to 32 bits, which is `64 f` modulo `2^32`.
pub fn frequency_tuning_word(frequency_hz: u32) -> (r: u32)
    ensures
        r == (frequency_hz as int * 64) % 0x1_0000_0000,
{
    let wide = ((frequency_hz as u64) << 28u64) / 4_194_304u64;
    assert(((frequency_hz as u64) << 28u64) / 4_194_304u64 == (frequency_hz as u64) * 64) by (bit_vector);
    assert(((frequency_hz as u64) * 64) as u32 == ((frequency_hz as u64) * 64) % 0x1_0000_0000) by (bit_vector);
    wide as u32
}

/// Each keyword of the table names the command of its own name: `STR`,
/// `IDN`, `TRG`, `VAL`, `FRQ` (frequency), `LVL` (level), `LVP` (peak
/// level), `DBU` (level in dBu), `WAV`, `BST`, `AUX`, `INL`, `RNG`, `DCO`
/// (DC offset), `DSP`, `ALL`, `OPT`, `SCL`, `WEN`, `ERC`, `SBD` and `NOP`.
pub proof fn law_keywords_name_their_commands(t: Seq<char>)
    ensures
        t == seq!['S', 'T', 'R'] ==> command_from(t, 0) == CmdWhich::Str,
        t == seq!['I', 'D', 'N'] ==> command_from(t, 0) == CmdWhich::Idn,
        t == seq!['T', 'R', 'G'] ==> command_from(t, 0) == CmdWhich::Trg,
        t == seq!['V', 'A', 'L'] ==> command_from(t, 0) == CmdWhich::Val,
        t == seq!['F', 'R', 'Q'] ==> command_from(t, 0) == CmdWhich::Frq,
        t == seq!['L', 'V', 'L'] ==> command_from(t, 0) == CmdWhich::Lvl,
        t == seq!['L', 'V', 'P'] ==> command_from(t, 0) == CmdWhich::Lvp,
        t == seq!['D', 'B', 'U'] ==> command_from(t, 0) == CmdWhich::Dbv,
        t == seq!['W', 'A', 'V'] ==> command_from(t, 0) == CmdWhich::Wav,
        t == seq!['B', 'S', 'T'] ==> command_from(t, 0) == CmdWhich::Bst,
        t == seq!['A', 'U', 'X'] ==> command_from(t, 0) == CmdWhich::Aux,
        t == seq!['I', 'N', 'L'] ==> command_from(t, 0) == CmdWhich::Inl,
        t == seq!['R', 'N', 'G'] ==> command_from(t, 0) == CmdWhich::Rng,
        t == seq!['D', 'C', 'O'] ==> command_from(t, 0) == CmdWhich::Ofs,
        t == seq!['D', 'S', 'P'] ==> command_from(t, 0) == CmdWhich::Dsp,
        t == seq!['A', 'L', 'L'] ==> command_from(t, 0) == CmdWhich::All,
        t == seq!['O', 'P', 'T'] ==> command_from(t, 0) == CmdWhich::Opt,
        t == seq!['S', 'C', 'L'] ==> command_from(t, 0) == CmdWhich::Scl,
        t == seq!['W', 'E', 'N'] ==> command_from(t, 0) == CmdWhich::Wen,
        t == seq!['E', 'R', 'C'] ==> command_from(t, 0) == CmdWhich::Erc,
        t == seq!['S', 'B', 'D'] ==> command_from(t, 0) == CmdWhich::Sbd,
        t == seq!['N', 'O', 'P'] ==> command_from(t, 0) == CmdWhich::Nop,
{
    reveal_strlit("STR");
    reveal_strlit("IDN");
    reveal_strlit("TRG");
    reveal_strlit("VAL");
    reveal_strlit("FRQ");
    reveal_strlit("LVL");
    reveal_strlit("LVP");
    reveal_strlit("DBU");
    reveal_strlit("WAV");
    reveal_strlit("BST");
    reveal_strlit("AUX");
    reveal_strlit("INL");
    reveal_strlit("RNG");
    reveal_strlit("DCO");
    reveal_strlit("DSP");
    reveal_strlit("ALL");
    reveal_strlit("OPT");
    reveal_strlit("SCL");
    reveal_strlit("WEN");
    reveal_strlit("ERC");
    reveal_strlit("SBD");
    reveal_strlit("NOP");
    assert(CMD_STR_ARR[0]@ =~= seq!['S', 'T', 'R']);
    assert(CMD_STR_ARR[1]@ =~= seq!['I', 'D', 'N']);
    assert(CMD_STR_ARR[2]@ =~= seq!['T', 'R', 'G']);
    assert(CMD_STR_ARR[3]@ =~= seq!['V', 'A', 'L']);
    assert(CMD_STR_ARR[4]@ =~= seq!['F', 'R', 'Q']);
    assert(CMD_STR_ARR[5]@ =~= seq!['L', 'V', 'L']);
    assert(CMD_STR_ARR[6]@ =~= seq!['L', 'V', 'P']);
    assert(CMD_STR_ARR[7]@ =~= seq!['D', 'B', 'U']);
    assert(CMD_STR_ARR[8]@ =~= seq!['W', 'A', 'V']);
    assert(CMD_STR_ARR[9]@ =~= seq!['B', 'S', 'T']);
    assert(CMD_STR_ARR[10]@ =~= seq!['A', 'U', 'X']);
    assert(CMD_STR_ARR[11]@ =~= seq!['I', 'N', 'L']);
    assert(CMD_STR_ARR[12]@ =~= seq!['R', 'N', 'G']);
    assert(CMD_STR_ARR[13]@ =~= seq!['D', 'C', 'O']);
    assert(CMD_STR_ARR[14]@ =~= seq!['D', 'S', 'P']);
    assert(CMD_STR_ARR[15]@ =~= seq!['A', 'L', 'L']);
    assert(CMD_STR_ARR[16]@ =~= seq!['O', 'P', 'T']);
    assert(CMD_STR_ARR[17]@ =~= seq!['S', 'C', 'L']);
    assert(CMD_STR_ARR[18]@ =~= seq!['W', 'E', 'N']);
    assert(CMD_STR_ARR[19]@ =~= seq!['E', 'R', 'C']);
    assert(CMD_STR_ARR[20]@ =~= seq!['S', 'B', 'D']);
    assert(CMD_STR_ARR[21]@ =~= seq!['N', 'O', 'P']);
    reveal_with_fuel(command_from, 23);
}

} // verus!
