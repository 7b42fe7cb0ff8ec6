//! The square-wave generator variant of the DDS module: command table,
//! status byte, token extraction, the burst generator of the system tick,
//! parameter limits, the loading of the DDS, and the decisions of the
//! command parser.
//!
//! The command line is printable ASCII (the serial input keeps nothing
//! else). Values that the protocol carries as floating point are produced
//! and stored by the caller; the decisions here say which value goes where.

use vstd::prelude::*;
use vstd::string::StringSliceAdditionalSpecFns;

use crate::protocol::{contains_byte, find_byte, first_index, parse_u8_radix, parse_unsigned, xor_checksum, xor_prefix};
use crate::text::{ascii_bytes, chars_of, latin1, push_char, upper_text};
use vstd::utf8::{encode_utf8, is_char_boundary};

verus! {

pub const SYS_TICK_MS: u8 = 10;

pub const C_OFF: u8 = 0;

pub const C_SINW: u8 = 1;

pub const C_TRIW: u8 = 2;

pub const C_SQUW: u8 = 3;

pub const C_LOGIC: u8 = 4;

pub const C_EXT: u8 = 5;

pub const C_DDS_RESET_CMD: u16 = 0b0010_0001_0000_0000;

pub const C_DDS_SINE_CMD: u16 = 0b0010_0000_0000_0000;

pub const C_DDS_TRIANGLE_CMD: u16 = 0b0010_0000_0000_0010;

pub const C_DDS_SQUARE_CMD: u16 = 0b0010_0000_0010_1000;

pub const DDS_FREQ_REG_CMD: u16 = 0b0100_0000_0000_0000;

pub const ERR_SUB_CH: u8 = 255;

pub const VERS1_STR: &'static str = "0.10 [SQG by CM/c't 03/2007]";

pub const VERS3_STR: &'static str = "SQG 0.10";

/// Texts of the error codes, in the order of [`ErrorCode`].
pub const ERR_STR_ARR: [&'static str; 8] = [
    "[OK]",
    "[SRQUSR]",
    "[BUSY]",
    "[OVERLD]",
    "[CMDERR]",
    "[PARERR]",
    "[LOCKED]",
    "[CHKSUM]",
];

/// Short names of the waveforms, by waveform number.
pub const WAVE_SEL_STR_ARR: [&'static str; 6] = ["Off", "Sin", "Tri", "Squ", "Lgc", "Ext"];

/// Preset frequencies in 0.1 Hz: the decade steps, then the usual crystal
/// frequencies; the last entry ends the list.
pub const TERZ_ARRAY: [i32; 32] = [
    10,
    20,
    50,
    100,
    200,
    500,
    1_000,
    2_000,
    5_000,
    10_000,
    20_000,
    50_000,
    100_000,
    200_000,
    500_000,
    1_000_000,
    2_000_000,
    5_000_000,
    10_000_000,
    20_000_000,
    50_000_000,
    80_000_000,
    100_000_000,
    18_432_000,
    24_576_000,
    35_795_450,
    41_943_040,
    44_336_817,
    49_152_000,
    65_536_000,
    73_728_000,
    0,
];

/// Command keywords of the generator.
#[derive(Debug, Clone, Copy, PartialEq, Eq, Structural)]
pub enum CmdWhich {
    Str,
    Idn,
    Trg,
    Val,
    Frq,
    Lvl,
    Lvp,
    Dbv,
    Wav,
    Bst,
    Inl,
    Rng,
    Ofs,
    Dsp,
    All,
    Scl,
    Wen,
    Erc,
    Sbd,
    Nop,
    Invalid,
}

/// Number of entries of the command table.
pub const CMD_COUNT: usize = 19;

/// Entry `i` of the command table: keyword, sub-channel offset, command.
pub open spec fn cmd_entry(i: int) -> (Seq<char>, u8, CmdWhich) {
    if i == 0 {
        (seq!['S', 'T', 'R'], 255u8, CmdWhich::Str)
    } else if i == 1 {
        (seq!['I', 'D', 'N'], 254u8, CmdWhich::Idn)
    } else if i == 2 {
        (seq!['T', 'R', 'G'], 249u8, CmdWhich::Trg)
    } else if i == 3 {
        (seq!['V', 'A', 'L'], 0u8, CmdWhich::Val)
    } else if i == 4 {
        (seq!['F', 'R', 'Q'], 0u8, CmdWhich::Frq)
    } else if i == 5 {
        (seq!['L', 'V', 'L'], 1u8, CmdWhich::Lvl)
    } else if i == 6 {
        (seq!['L', 'V', 'P'], 2u8, CmdWhich::Lvp)
    } else if i == 7 {
        (seq!['D', 'B', 'U'], 3u8, CmdWhich::Dbv)
    } else if i == 8 {
        (seq!['W', 'A', 'V'], 4u8, CmdWhich::Wav)
    } else if i == 9 {
        (seq!['B', 'S', 'T'], 5u8, CmdWhich::Bst)
    } else if i == 10 {
        (seq!['I', 'N', 'L'], 10u8, CmdWhich::Inl)
    } else if i == 11 {
        (seq!['R', 'N', 'G'], 19u8, CmdWhich::Rng)
    } else if i == 12 {
        (seq!['D', 'C', 'O'], 20u8, CmdWhich::Ofs)
    } else if i == 13 {
        (seq!['D', 'S', 'P'], 80u8, CmdWhich::Dsp)
    } else if i == 14 {
        (seq!['A', 'L', 'L'], 99u8, CmdWhich::All)
    } else if i == 15 {
        (seq!['S', 'C', 'L'], 200u8, CmdWhich::Scl)
    } else if i == 16 {
        (seq!['W', 'E', 'N'], 250u8, CmdWhich::Wen)
    } else if i == 17 {
        (seq!['E', 'R', 'C'], 251u8, CmdWhich::Erc)
    } else {
        (seq!['S', 'B', 'D'], 252u8, CmdWhich::Sbd)
    }
}

/// The command table entry `i`, keyword as a string.
fn cmd_entry_exec(i: usize) -> (r: (&'static str, u8, CmdWhich))
    requires
        i < CMD_COUNT,
    ensures
        r.0@ == cmd_entry(i as int).0,
        r.1 == cmd_entry(i as int).1,
        r.2 == cmd_entry(i as int).2,
{
    proof {
        reveal_strlit("STR");
        reveal_strlit("IDN");
        reveal_strlit("TRG");
        reveal_strlit("VAL");
        reveal_strlit("FRQ");
        reveal_strlit("LVL");
        reveal_strlit("LVP");
        reveal_strlit("DBU");
        reveal_strlit("WAV");
        reveal_strlit("BST");
        reveal_strlit("INL");
        reveal_strlit("RNG");
        reveal_strlit("DCO");
        reveal_strlit("DSP");
        reveal_strlit("ALL");
        reveal_strlit("SCL");
        reveal_strlit("WEN");
        reveal_strlit("ERC");
        reveal_strlit("SBD");
    }
    match i {
        0 => ("STR", 255, CmdWhich::Str),
        1 => ("IDN", 254, CmdWhich::Idn),
        2 => ("TRG", 249, CmdWhich::Trg),
        3 => ("VAL", 0, CmdWhich::Val),
        4 => ("FRQ", 0, CmdWhich::Frq),
        5 => ("LVL", 1, CmdWhich::Lvl),
        6 => ("LVP", 2, CmdWhich::Lvp),
        7 => ("DBU", 3, CmdWhich::Dbv),
        8 => ("WAV", 4, CmdWhich::Wav),
        9 => ("BST", 5, CmdWhich::Bst),
        10 => ("INL", 10, CmdWhich::Inl),
        11 => ("RNG", 19, CmdWhich::Rng),
        12 => ("DCO", 20, CmdWhich::Ofs),
        13 => ("DSP", 80, CmdWhich::Dsp),
        14 => ("ALL", 99, CmdWhich::All),
        15 => ("SCL", 200, CmdWhich::Scl),
        16 => ("WEN", 250, CmdWhich::Wen),
        17 => ("ERC", 251, CmdWhich::Erc),
        _ => ("SBD", 252, CmdWhich::Sbd),
    }
}

/// Whether two texts are equal when ASCII letters are compared without case.
pub open spec fn same_ignoring_case(a: Seq<char>, b: Seq<char>) -> bool {
    upper_text(a) == upper_text(b)
}

/// The first table entry from `i` on whose keyword the text names, ignoring
/// case; `NOP` names no entry but the no-operation command.
pub open spec fn find_command(t: Seq<char>, i: int) -> CmdWhich
    decreases CMD_COUNT - i,
{
    if i < 0 || i >= CMD_COUNT {
        if same_ignoring_case(t, seq!['N', 'O', 'P']) {
            CmdWhich::Nop
        } else {
            CmdWhich::Invalid
        }
    } else if same_ignoring_case(t, cmd_entry(i).0) {
        cmd_entry(i).2
    } else {
        find_command(t, i + 1)
    }
}

/// The sub-channel offset of a command: that of its first table entry, 0
/// when it has none.
pub open spec fn offset_from(which: CmdWhich, i: int) -> u8
    decreases CMD_COUNT - i,
{
    if i < 0 || i >= CMD_COUNT {
        0
    } else if cmd_entry(i).2 == which {
        cmd_entry(i).1
    } else {
        offset_from(which, i + 1)
    }
}

/// Whether two character sequences agree ignoring ASCII case.
fn eq_ignore_case(a: &Vec<char>, b: &Vec<char>) -> (r: bool)
    ensures
        r == same_ignoring_case(a@, b@),
{
    if a.len() != b.len() {
        assert(upper_text(a@).len() != upper_text(b@).len());
        return false;
    }
    let mut i: usize = 0;
    while i < a.len()
        invariant
            i <= a@.len() == b@.len(),
            forall|k: int| 0 <= k < i ==> crate::text::upper(a@[k]) == crate::text::upper(b@[k]),
        decreases a.len() - i,
    {
        let x = a[i];
        let y = b[i];
        let ux: char = if 'a' <= x && x <= 'z' { ((x as u8) - 32) as char } else { x };
        let uy: char = if 'a' <= y && y <= 'z' { ((y as u8) - 32) as char } else { y };
        if ux != uy {
            assert(upper_text(a@)[i as int] != upper_text(b@)[i as int]);
            return false;
        }
        i = i + 1;
    }
    assert(upper_text(a@) =~= upper_text(b@));
    true
}

/// Looks a keyword up in the command table, ignoring case.
pub fn cmd_to_index(cmd: &str) -> (r: CmdWhich)
    ensures
        r == find_command(cmd@, 0),
{
    let wanted = chars_of(cmd);
    let mut i: usize = 0;
    while i < CMD_COUNT
        invariant
            i <= CMD_COUNT,
            wanted@ == cmd@,
            find_command(cmd@, 0) == find_command(cmd@, i as int),
        decreases CMD_COUNT - i,
    {
        let (text, _, which) = cmd_entry_exec(i);
        let cs = chars_of(text);
        if eq_ignore_case(&wanted, &cs) {
            return which;
        }
        i = i + 1;
    }
    proof {
        reveal_strlit("NOP");
    }
    let nop = chars_of("NOP");
    assert(nop@ =~= seq!['N', 'O', 'P']);
    assert(find_command(cmd@, i as int) == find_command(cmd@, CMD_COUNT as int));
    if eq_ignore_case(&wanted, &nop) {
        CmdWhich::Nop
    } else {
        CmdWhich::Invalid
    }
}

/// The sub-channel offset of a command (see [`offset_from`]).
pub fn command_offset(which: CmdWhich) -> (r: u8)
    ensures
        r == offset_from(which, 0),
{
    let mut i: usize = 0;
    while i < CMD_COUNT
        invariant
            i <= CMD_COUNT,
            offset_from(which, 0) == offset_from(which, i as int),
        decreases CMD_COUNT - i,
    {
        let (_, offset, candidate) = cmd_entry_exec(i);
        if candidate == which {
            return offset;
        }
        i = i + 1;
    }
    0
}

/// Operating menus of the panel.
#[derive(Debug, Clone, Copy, PartialEq, Eq, Structural)]
pub enum Modify {
    WaveSel,
    FreqSel,
    AmplSel,
    BurstSel,
    DcSel,
}

/// Error codes of the protocol.
#[derive(Debug, Clone, Copy, PartialEq, Eq, Structural)]
pub enum ErrorCode {
    NoErr,
    UserReq,
    BusyErr,
    OvlErr,
    SyntaxErr,
    ParamErr,
    LockedErr,
    ChecksumErr,
}

/// The number of an error code, in declaration order.
pub open spec fn error_number(e: ErrorCode) -> u8 {
    match e {
        ErrorCode::NoErr => 0,
        ErrorCode::UserReq => 1,
        ErrorCode::BusyErr => 2,
        ErrorCode::OvlErr => 3,
        ErrorCode::SyntaxErr => 4,
        ErrorCode::ParamErr => 5,
        ErrorCode::LockedErr => 6,
        ErrorCode::ChecksumErr => 7,
    }
}

impl ErrorCode {
    /// The number of the code as reported to the host.
    pub fn code(self) -> (r: u8)
        ensures
            r == error_number(self),
    {
        match self {
            ErrorCode::NoErr => 0,
            ErrorCode::UserReq => 1,
            ErrorCode::BusyErr => 2,
            ErrorCode::OvlErr => 3,
            ErrorCode::SyntaxErr => 4,
            ErrorCode::ParamErr => 5,
            ErrorCode::LockedErr => 6,
            ErrorCode::ChecksumErr => 7,
        }
    }
}

/// Status flags of the generator.
#[derive(Debug, Clone, Copy, PartialEq, Eq, Structural)]
pub struct StatusFlags {
    pub busy: bool,
    pub user_srq: bool,
    pub overload: bool,
    pub ee_unlocked: bool,
}

impl Default for StatusFlags {
    fn default() -> (r: Self)
        ensures
            r == (StatusFlags { busy: false, user_srq: false, overload: false, ee_unlocked: false }),
    {
        StatusFlags { busy: false, user_srq: false, overload: false, ee_unlocked: false }
    }
}

impl StatusFlags {
    /// The flags in the upper nibble of the status byte: bit 7 busy, bit 6
    /// user request, bit 5 overload, bit 4 EEPROM write enable.
    pub fn to_status_byte(self) -> (r: u8)
        ensures
            r == crate::protocol::status_byte(0, self.ee_unlocked, self.overload, self.user_srq, self.busy),
    {
        crate::protocol::pack_status(0, self.ee_unlocked, self.overload, self.user_srq, self.busy)
    }
}

/// Whether a byte starts and continues a number token: a digit or one of `*+-.`.
pub open spec fn number_char(b: u8) -> bool {
    (48 <= b <= 57) || b == 42 || b == 43 || b == 45 || b == 46
}

/// Whether a byte is an ASCII letter.
pub open spec fn letter(b: u8) -> bool {
    (65 <= b <= 90) || (97 <= b <= 122)
}

/// First position from `i` on that is not a space.
pub open spec fn skip_blanks(s: Seq<u8>, i: int) -> int
    decreases s.len() - i,
{
    if 0 <= i < s.len() && s[i] == 32 {
        skip_blanks(s, i + 1)
    } else {
        i
    }
}

/// End of a number token (`number`) or a word that starts at `i`.
pub open spec fn run_end(s: Seq<u8>, i: int, number: bool) -> int
    decreases s.len() - i,
{
    if 0 <= i < s.len() && (if number { number_char(s[i]) } else { letter(s[i]) }) {
        run_end(s, i + 1, number)
    } else {
        i
    }
}

/// The token that extraction finds from `start` on: where it begins and
/// ends and whether it is a number.
pub open spec fn token_at(s: Seq<u8>, start: int) -> (int, int, bool) {
    let b = skip_blanks(s, start);
    if b >= s.len() {
        (b, b, false)
    } else {
        let number = number_char(s[b]);
        (b, run_end(s, b, number), number)
    }
}

proof fn lemma_skip_blanks(s: Seq<u8>, i: int)
    requires
        0 <= i,
    ensures
        i <= skip_blanks(s, i),
        i <= s.len() ==> skip_blanks(s, i) <= s.len(),
        i > s.len() ==> skip_blanks(s, i) == i,
    decreases s.len() - i,
{
    if 0 <= i < s.len() && s[i] == 32 {
        lemma_skip_blanks(s, i + 1);
    }
}

proof fn lemma_run_end(s: Seq<u8>, i: int, number: bool)
    requires
        0 <= i <= s.len(),
    ensures
        i <= run_end(s, i, number) <= s.len(),
        i < s.len() && (if number { number_char(s[i]) } else { letter(s[i]) }) ==> i < run_end(s, i, number),
    decreases s.len() - i,
{
    if i < s.len() && (if number { number_char(s[i]) } else { letter(s[i]) }) {
        lemma_run_end(s, i + 1, number);
    }
}

fn number_char_exec(b: u8) -> (r: bool)
    ensures
        r == number_char(b),
{
    (48 <= b && b <= 57) || b == 42 || b == 43 || b == 45 || b == 46
}

fn goes_on(b: u8, number: bool) -> (r: bool)
    ensures
        r == (if number { number_char(b) } else { letter(b) }),
{
    if number {
        number_char_exec(b)
    } else {
        (65 <= b && b <= 90) || (97 <= b && b <= 122)
    }
}

/// Where the token at `start` begins and ends and whether it is a number
/// (see [`token_at`]).
pub fn token_bounds(bytes: &[u8], start: usize) -> (r: (usize, usize, bool))
    ensures
        r.0 as int == token_at(bytes@, start as int).0,
        r.1 as int == token_at(bytes@, start as int).1,
        r.2 == token_at(bytes@, start as int).2,
        r.0 <= r.1,
        r.0 < bytes@.len() ==> r.1 <= bytes@.len(),
        start <= bytes@.len() ==> r.1 <= bytes@.len(),
        start <= r.0,
        r.2 ==> r.0 < r.1 <= bytes@.len(),
{
    let ghost s = bytes@;
    let n = bytes.len();
    let mut idx = start;
    proof {
        lemma_skip_blanks(s, start as int);
    }
    while idx < n && bytes[idx] == 32
        invariant
            start <= idx,
            n == s.len(),
            bytes@ == s,
            skip_blanks(s, start as int) == skip_blanks(s, idx as int),
        decreases n - idx,
    {
        idx = idx + 1;
    }
    if idx >= n {
        return (idx, idx, false);
    }
    let is_param = number_char_exec(bytes[idx]);
    let begin = idx;
    proof {
        lemma_run_end(s, idx as int, is_param);
    }
    while idx < n && goes_on(bytes[idx], is_param)
        invariant
            begin <= idx <= n == s.len(),
            bytes@ == s,
            run_end(s, begin as int, is_param) == run_end(s, idx as int, is_param),
        decreases n - idx,
    {
        idx = idx + 1;
    }
    (begin, idx, is_param)
}

/// The bytes of an ASCII text are its characters' codes.
proof fn lemma_ascii_bytes(input: &str, bytes: Seq<u8>)
    requires
        input.is_ascii(),
        bytes == input.spec_bytes(),
    ensures
        bytes =~= ascii_bytes(input@),
{
    assert(vstd::string::is_ascii(input));
    vstd::string::is_ascii_spec_bytes(input);
}

/// Extracts the token at byte position `start` of a line: leading spaces
/// are skipped; a token that starts with a digit or one of `*+-.` is a
/// number and runs over such characters, any other token over ASCII
/// letters. Gives the token, the position behind it, and whether it is a
/// number. A start inside a character of the line is refused, as slicing
/// the line there would be.
pub fn parse_extract(input: &str, start: usize) -> (r: (String, usize, bool))
    requires
        start <= encode_utf8(input@).len() ==> is_char_boundary(encode_utf8(input@), start as int),
    ensures
        ({
            let s = encode_utf8(input@);
            let (b, e, number) = token_at(s, start as int);
            &&& r.1 as int == e
            &&& r.2 == number
            &&& r.0@ == latin1(span(s, b, e))
        }),
{
    let bytes = input.as_bytes();
    let (begin, end, is_param) = token_bounds(bytes, start);
    if begin >= end {
        return (String::new(), end, is_param);
    }
    let mut text = String::new();
    let mut i = begin;
    assert(text@ =~= latin1(bytes@.subrange(begin as int, i as int)));
    while i < end
        invariant
            begin <= i <= end <= bytes@.len(),
            text@ == latin1(bytes@.subrange(begin as int, i as int)),
        decreases end - i,
    {
        push_char(&mut text, bytes[i] as char);
        i = i + 1;
        assert(text@ =~= latin1(bytes@.subrange(begin as int, i as int)));
    }
    assert(text@ =~= latin1(span(bytes@, begin as int, end as int)));
    (text, end, is_param)
}

/// The bytes from `b` up to `e`, empty where `e <= b`.
pub open spec fn span(s: Seq<u8>, b: int, e: int) -> Seq<u8> {
    if b < e {
        s.subrange(b, e)
    } else {
        Seq::empty()
    }
}

/// The characters from `b` up to `e`, empty where `e <= b`.
pub open spec fn char_span(t: Seq<char>, b: int, e: int) -> Seq<char> {
    if b < e {
        t.subrange(b, e)
    } else {
        Seq::empty()
    }
}

/// `parse::<u8>()` of the token from `b` up to `e`.
pub open spec fn token_u8(s: Seq<u8>, b: int, e: int) -> Option<u8> {
    parse_unsigned(span(s, b, e), 10, false)
}

/// Whether byte `x` occurs in `s`.
pub open spec fn has_byte(s: Seq<u8>, x: u8) -> bool {
    exists|i: int| 0 <= i < s.len() && s[i] == x
}

/// A byte sum that stops at 255.
pub open spec fn saturated(x: int) -> u8 {
    if x > 255 {
        255
    } else {
        x as u8
    }
}

/// Where a command line of the generator goes.
#[derive(Debug, Clone, Copy, PartialEq, Eq, Structural)]
pub enum SqgRoute {
    /// An empty line: the plain status prompt.
    Prompt,
    /// A result of another module, or a line for another module: pass it on.
    Echo,
    /// The line is refused with this error.
    Failed(ErrorCode),
    /// A request for the value of the sub-channel.
    Get,
    /// A setting of the sub-channel; the number is the text from `start` up
    /// to `end` of the line.
    Assign { start: usize, end: usize },
}

/// What reading a line decides: where it goes, whether the line is first
/// echoed (a line for all modules), the channel and sub-channel it selects,
/// the verbose flag, and whether the activity LED is switched on.
#[derive(Debug, Clone, Copy, PartialEq, Eq, Structural)]
pub struct SqgOutcome {
    pub route: SqgRoute,
    pub echo_first: bool,
    pub current_ch: u8,
    pub sub_ch: u8,
    pub verbose: bool,
    pub led: bool,
}

/// The channel header `main:sub` of a line that holds a colon: an early
/// stop, the current channel and the sub-channel.
pub open spec fn header_stage(t: Seq<char>, slave: u8, current: u8, sub: u8) -> (Option<SqgRoute>, u8, u8) {
    let s = ascii_bytes(t);
    let (b0, e0, n0) = token_at(s, 0);
    let omni = s[0] == 42;
    let cur = if omni {
        current
    } else {
        match token_u8(s, b0, e0) {
            Some(v) => v,
            None => current,
        }
    };
    if !omni && cur != slave {
        (Some(SqgRoute::Echo), cur, sub)
    } else {
        let next = if e0 < usize::MAX { e0 + 1 } else { e0 };
        let (b1, e1, n1) = token_at(s, next);
        if n1 {
            (None, cur, match token_u8(s, b1, e1) {
                Some(v) => v,
                None => sub,
            })
        } else {
            let which = find_command(char_span(t, b1, e1), 0);
            if which == CmdWhich::Invalid {
                (Some(SqgRoute::Failed(ErrorCode::SyntaxErr)), cur, sub)
            } else {
                let (b2, e2, n2) = token_at(s, e1);
                let direct: u8 = match token_u8(s, b2, e2) {
                    Some(v) => v,
                    None => 0,
                };
                (None, cur, saturated(direct + offset_from(which, 0)))
            }
        }
    }
}

/// The checksum written behind `$` at `p`: two hex digits, `00` where the
/// line ends too early, 0 where they are no hex number.
pub open spec fn checksum_given(s: Seq<u8>, p: int) -> u8 {
    let digits = if p + 3 <= s.len() {
        s.subrange(p + 1, p + 3)
    } else {
        seq![48u8, 48u8]
    };
    match parse_unsigned(digits, 16, true) {
        Some(v) => v,
        None => 0,
    }
}

/// Whether the line holds a `$` and the XOR of the bytes before it differs
/// from the checksum written behind it.
pub open spec fn checksum_fails(s: Seq<u8>) -> bool {
    match first_index(s, 36) {
        Some(p) => xor_prefix(s, p as nat) != checksum_given(s, p),
        None => false,
    }
}

/// Request or setting: without `=` a request; with it, a setting whose
/// value is the number token behind the first `=`.
pub open spec fn body_route(s: Seq<u8>) -> SqgRoute {
    match first_index(s, 61) {
        None => SqgRoute::Get,
        Some(p) => {
            let (b, e, n) = token_at(s, p + 1);
            if n {
                SqgRoute::Assign { start: b as usize, end: e as usize }
            } else {
                SqgRoute::Failed(ErrorCode::ParamErr)
            }
        },
    }
}

/// What reading the line `t` decides, from the module's channel `slave`
/// and the current channel, sub-channel and verbose flag.
pub open spec fn line_outcome(t: Seq<char>, slave: u8, current: u8, sub: u8, verbose: bool) -> SqgOutcome {
    let s = ascii_bytes(t);
    if s.len() == 0 {
        SqgOutcome { route: SqgRoute::Prompt, echo_first: false, current_ch: current, sub_ch: sub, verbose, led: false }
    } else if s[0] == 35 {
        SqgOutcome { route: SqgRoute::Echo, echo_first: false, current_ch: current, sub_ch: sub, verbose, led: false }
    } else {
        let colon = has_byte(s, 58);
        let echo = colon && s[0] == 42;
        let (stop, cur, sb) = if colon {
            header_stage(t, slave, current, sub)
        } else {
            (None, current, sub)
        };
        match stop {
            Some(r) => SqgOutcome { route: r, echo_first: echo, current_ch: cur, sub_ch: sb, verbose, led: false },
            None => {
                let v = has_byte(s, 63) || has_byte(s, 33);
                if checksum_fails(s) {
                    SqgOutcome {
                        route: SqgRoute::Failed(ErrorCode::ChecksumErr),
                        echo_first: echo,
                        current_ch: cur,
                        sub_ch: sb,
                        verbose: v,
                        led: false,
                    }
                } else {
                    SqgOutcome { route: body_route(s), echo_first: echo, current_ch: cur, sub_ch: sb, verbose: v, led: true }
                }
            },
        }
    }
}

/// `parse::<u8>()` of the token from `b` up to `e`.
fn token_u8_exec(bytes: &[u8], b: usize, e: usize) -> (r: Option<u8>)
    requires
        b <= e,
        b < e ==> e <= bytes@.len(),
    ensures
        r == token_u8(bytes@, b as int, e as int),
{
    if b < e {
        let part = &bytes[b..e];
        parse_u8_radix(part, false)
    } else {
        let empty: Vec<u8> = Vec::new();
        let r = parse_u8_radix(empty.as_slice(), false);
        assert(empty@ =~= span(bytes@, b as int, e as int));
        r
    }
}

/// The channel header of a line that holds a colon (see [`header_stage`]).
fn read_header(line: &str, bytes: &[u8], slave: u8, current: u8, sub: u8) -> (r: (Option<SqgRoute>, u8, u8))
    requires
        line.is_ascii(),
        bytes@ == ascii_bytes(line@),
        bytes@.len() > 0,
    ensures
        r == header_stage(line@, slave, current, sub),
{
    let n = bytes.len();
    let (b0, e0, _) = token_bounds(bytes, 0);
    let omni = bytes[0] == 42;
    let cur = if omni {
        current
    } else {
        match token_u8_exec(bytes, b0, e0) {
            Some(v) => v,
            None => current,
        }
    };
    if !omni && cur != slave {
        return (Some(SqgRoute::Echo), cur, sub);
    }
    let (b1, e1, n1) = token_bounds(bytes, e0.saturating_add(1));
    if n1 {
        let sb = match token_u8_exec(bytes, b1, e1) {
            Some(v) => v,
            None => sub,
        };
        return (None, cur, sb);
    }
    let which = if b1 < e1 {
        let word = line.substring_ascii(b1, e1);
        cmd_to_index(word)
    } else {
        let none = line.substring_ascii(0, 0);
        assert(none@ =~= char_span(line@, b1 as int, e1 as int));
        cmd_to_index(none)
    };
    if which == CmdWhich::Invalid {
        return (Some(SqgRoute::Failed(ErrorCode::SyntaxErr)), cur, sub);
    }
    let offset = command_offset(which);
    let (b2, e2, _) = token_bounds(bytes, e1);
    let direct: u8 = match token_u8_exec(bytes, b2, e2) {
        Some(v) => v,
        None => 0,
    };
    let sb = direct.saturating_add(offset);
    (None, cur, sb)
}

/// Whether the checksum of the line fails (see [`checksum_fails`]).
fn checksum_mismatch(bytes: &[u8]) -> (r: bool)
    ensures
        r == checksum_fails(bytes@),
{
    let n = bytes.len();
    match find_byte(bytes, 36) {
        None => false,
        Some(p) => {
            let given = if n >= 3 && p <= n - 3 {
                let digits = &bytes[p + 1..p + 3];
                parse_u8_radix(digits, true)
            } else {
                let zeros: Vec<u8> = vec![48u8, 48u8];
                assert(zeros@ =~= seq![48u8, 48u8]);
                parse_u8_radix(zeros.as_slice(), true)
            };
            let given_value: u8 = match given {
                Some(v) => v,
                None => 0,
            };
            xor_checksum(bytes, p) != given_value
        },
    }
}

/// The route of a line past its header (see [`body_route`]).
fn read_body(bytes: &[u8]) -> (r: SqgRoute)
    ensures
        r == body_route(bytes@),
        r matches SqgRoute::Assign { start, end } ==> start < end <= bytes@.len(),
{
    let len = bytes.len();
    match find_byte(bytes, 61) {
        None => SqgRoute::Get,
        Some(p) => {
            let (b, e, n) = token_bounds(bytes, p + 1);
            if n {
                SqgRoute::Assign { start: b, end: e }
            } else {
                SqgRoute::Failed(ErrorCode::ParamErr)
            }
        },
    }
}

/// Reads a command line of printable ASCII: the empty line asks for the
/// status prompt, a result (`#...`) is passed on; a header `main:sub`
/// selects the channel (a line for another channel is passed on, one for
/// all channels `*` is echoed and read) and the sub-channel, by number or
/// by keyword with an optional number added to its offset; `?` or `!`
/// asks for verbose answers; a `$XX` checksum is checked; then the line
/// is a request, or with `=` a setting.
pub fn route_line(line: &str, slave: u8, current: u8, sub: u8, verbose: bool) -> (r: SqgOutcome)
    requires
        line.is_ascii(),
    ensures
        r == line_outcome(line@, slave, current, sub, verbose),
        r.route matches SqgRoute::Assign { start, end } ==> start < end <= line@.len(),
{
    let bytes = line.as_bytes();
    proof {
        lemma_ascii_bytes(line, bytes@);
    }
    if bytes.len() == 0 {
        return SqgOutcome { route: SqgRoute::Prompt, echo_first: false, current_ch: current, sub_ch: sub, verbose, led: false };
    }
    if bytes[0] == 35 {
        return SqgOutcome { route: SqgRoute::Echo, echo_first: false, current_ch: current, sub_ch: sub, verbose, led: false };
    }
    let colon = contains_byte(bytes, 58);
    let echo = colon && bytes[0] == 42;
    let (stop, cur, sb) = if colon {
        read_header(line, bytes, slave, current, sub)
    } else {
        (None, current, sub)
    };
    match stop {
        Some(r) => SqgOutcome { route: r, echo_first: echo, current_ch: cur, sub_ch: sb, verbose, led: false },
        None => {
            let v = contains_byte(bytes, 63) || contains_byte(bytes, 33);
            if checksum_mismatch(bytes) {
                SqgOutcome {
                    route: SqgRoute::Failed(ErrorCode::ChecksumErr),
                    echo_first: echo,
                    current_ch: cur,
                    sub_ch: sb,
                    verbose: v,
                    led: false,
                }
            } else {
                SqgOutcome { route: read_body(bytes), echo_first: echo, current_ch: cur, sub_ch: sb, verbose: v, led: true }
            }
        },
    }
}

/// The XOR of a prefix does not see what is appended behind it.
proof fn lemma_xor_prefix_extend(a: Seq<u8>, b: Seq<u8>, n: nat)
    requires
        n <= a.len(),
    ensures
        xor_prefix(a + b, n) == xor_prefix(a, n),
    decreases n,
{
    if n > 0 {
        lemma_xor_prefix_extend(a, b, (n - 1) as nat);
        assert((a + b)[n - 1] == a[n - 1]);
    }
}

/// A line that ends in `$` and two hex digits passes the checksum test
/// exactly when the digits spell the XOR of all bytes before the `$`.
pub proof fn law_checksum_covers_line(body: Seq<u8>, hi: u8, lo: u8)
    requires
        !has_byte(body, 36),
    ensures
        !checksum_fails(body + seq![36u8, hi, lo]) <==> (match parse_unsigned(seq![hi, lo], 16, true) {
            Some(v) => v,
            None => 0u8,
        }) == xor_prefix(body, body.len()),
{
    let s = body + seq![36u8, hi, lo];
    let p = body.len() as int;
    assert(s[p] == 36);
    let w = choose|i: int| 0 <= i < s.len() && s[i] == 36 && forall|j: int| 0 <= j < i ==> s[j] != 36;
    assert(0 <= p < s.len() && s[p] == 36 && forall|j: int| 0 <= j < p ==> s[j] != 36) by {
        assert forall|j: int| 0 <= j < p implies s[j] != 36 by {
            assert(s[j] == body[j]);
        }
    }
    if w < p {
        assert(s[w] == body[w]);
    } else if w > p {
        assert(s[p] != 36);
    }
    assert(first_index(s, 36) == Some(p));
    assert(s.subrange(p + 1, p + 3) =~= seq![hi, lo]);
    lemma_xor_prefix_extend(body, seq![36u8, hi, lo], body.len());
}

} // verus!
