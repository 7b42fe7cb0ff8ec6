//! Command parser of the ADA-IO module: command keywords and their
//! sub-channel offsets, token extraction from the command line, and the
//! decisions of the get and set dispatch.
//!
//! The line is read byte by byte as it is stored (UTF-8): keywords and
//! numbers are ASCII, text elsewhere in the line may be any text.
//! Values that the protocol carries as floating point are produced and stored
//! by the caller; the decisions here say which value goes where.

use vstd::prelude::*;
use vstd::utf8::{decode_utf8, encode_utf8, is_char_boundary, valid_utf8};

use crate::protocol::{find_byte, first_index, parse_u8_radix, parse_unsigned, xor_checksum, xor_prefix};
use crate::text::{ascii_upper, latin1, push_char, chars_of, parse_u8_str, parse_u8_text, same_chars, trim, trimmed, trimmed_upper, upper_text};

verus! {

/// Command keywords of the ADA-IO protocol.
#[derive(Debug, Clone, Copy, PartialEq, Eq, Structural)]
pub enum CmdWhich {
    Trg,
    Str,
    Idn,
    Erc,
    Val,
    Ofs,
    Scl,
    Raw,
    Pio,
    Dir,
    Dsp,
    All,
    Opt,
    Trm,
    Trt,
    Trl,
    Icb,
    Icw,
    Ics,
    Ict,
    Ica,
    Ref,
    Wen,
    Sbd,
    Nop,
    Invalid,
}

/// The commands in the order in which a keyword is looked up.
pub const LOOKUP: [CmdWhich; 25] = [
    CmdWhich::Trg,
    CmdWhich::Str,
    CmdWhich::Idn,
    CmdWhich::Val,
    CmdWhich::Ofs,
    CmdWhich::Scl,
    CmdWhich::Raw,
    CmdWhich::Pio,
    CmdWhich::Dir,
    CmdWhich::Dsp,
    CmdWhich::All,
    CmdWhich::Opt,
    CmdWhich::Trm,
    CmdWhich::Trt,
    CmdWhich::Trl,
    CmdWhich::Icb,
    CmdWhich::Icw,
    CmdWhich::Ics,
    CmdWhich::Ict,
    CmdWhich::Ica,
    CmdWhich::Ref,
    CmdWhich::Wen,
    CmdWhich::Erc,
    CmdWhich::Sbd,
    CmdWhich::Nop,
];

/// The keyword of a command; none for the error marker.
pub open spec fn keyword_text(c: CmdWhich) -> Option<Seq<char>> {
    match c {
        CmdWhich::Trg => Some(seq!['T', 'R', 'G']),
        CmdWhich::Str => Some(seq!['S', 'T', 'R']),
        CmdWhich::Idn => Some(seq!['I', 'D', 'N']),
        CmdWhich::Erc => Some(seq!['E', 'R', 'C']),
        CmdWhich::Val => Some(seq!['V', 'A', 'L']),
        CmdWhich::Ofs => Some(seq!['O', 'F', 'S']),
        CmdWhich::Scl => Some(seq!['S', 'C', 'L']),
        CmdWhich::Raw => Some(seq!['R', 'A', 'W']),
        CmdWhich::Pio => Some(seq!['P', 'I', 'O']),
        CmdWhich::Dir => Some(seq!['D', 'I', 'R']),
        CmdWhich::Dsp => Some(seq!['D', 'S', 'P']),
        CmdWhich::All => Some(seq!['A', 'L', 'L']),
        CmdWhich::Opt => Some(seq!['O', 'P', 'T']),
        CmdWhich::Trm => Some(seq!['T', 'R', 'M']),
        CmdWhich::Trt => Some(seq!['T', 'R', 'T']),
        CmdWhich::Trl => Some(seq!['T', 'R', 'L']),
        CmdWhich::Icb => Some(seq!['I', 'C', 'B']),
        CmdWhich::Icw => Some(seq!['I', 'C', 'W']),
        CmdWhich::Ics => Some(seq!['I', 'C', 'S']),
        CmdWhich::Ict => Some(seq!['I', 'C', 'T']),
        CmdWhich::Ica => Some(seq!['I', 'C', 'A']),
        CmdWhich::Ref => Some(seq!['R', 'E', 'F']),
        CmdWhich::Wen => Some(seq!['W', 'E', 'N']),
        CmdWhich::Sbd => Some(seq!['S', 'B', 'D']),
        CmdWhich::Nop => Some(seq!['N', 'O', 'P']),
        CmdWhich::Invalid => None,
    }
}

/// The sub-channel that a command's number counts from; none for the error marker.
pub open spec fn offset_of(c: CmdWhich) -> Option<u8> {
    match c {
        CmdWhich::Trg => Some(249u8),
        CmdWhich::Str => Some(255u8),
        CmdWhich::Idn => Some(254u8),
        CmdWhich::Val => Some(0u8),
        CmdWhich::Ofs => Some(100u8),
        CmdWhich::Scl => Some(200u8),
        CmdWhich::Raw => Some(50u8),
        CmdWhich::Pio => Some(30u8),
        CmdWhich::Dir => Some(40u8),
        CmdWhich::Dsp => Some(80u8),
        CmdWhich::All => Some(95u8),
        CmdWhich::Opt => Some(150u8),
        CmdWhich::Trm => Some(240u8),
        CmdWhich::Trt => Some(247u8),
        CmdWhich::Trl => Some(248u8),
        CmdWhich::Icb => Some(230u8),
        CmdWhich::Icw => Some(231u8),
        CmdWhich::Ics => Some(232u8),
        CmdWhich::Ict => Some(233u8),
        CmdWhich::Ica => Some(239u8),
        CmdWhich::Ref => Some(246u8),
        CmdWhich::Wen => Some(250u8),
        CmdWhich::Erc => Some(251u8),
        CmdWhich::Sbd => Some(252u8),
        CmdWhich::Nop => Some(0u8),
        CmdWhich::Invalid => None,
    }
}

/// The first command in [`LOOKUP`], from position `i` on, whose keyword is `t`;
/// the error marker if there is none.
pub open spec fn lookup_from(t: Seq<char>, i: int) -> CmdWhich
    decreases 25 - i,
{
    if i < 0 || i >= 25 {
        CmdWhich::Invalid
    } else if keyword_text(LOOKUP[i]) == Some(t) {
        LOOKUP[i]
    } else {
        lookup_from(t, i + 1)
    }
}

/// The command whose keyword a text names: the text with white space trimmed
/// and letters upper-cased, looked up in [`LOOKUP`].
pub open spec fn command_named(keyword: Seq<char>) -> CmdWhich {
    lookup_from(upper_text(trim(keyword)), 0)
}

/// Whether a set command must carry a parameter: every command from `VAL`
/// on in declaration order, that is all but `TRG`, `STR`, `IDN`, `ERC` and
/// the error marker.
pub open spec fn needs_parameter(c: CmdWhich) -> bool {
    !(c == CmdWhich::Trg || c == CmdWhich::Str || c == CmdWhich::Idn || c == CmdWhich::Erc
        || c == CmdWhich::Invalid)
}

impl CmdWhich {
    /// The keyword of the command; none for the error marker.
    pub fn keyword(self) -> (r: Option<&'static str>)
        ensures
            r is None <==> keyword_text(self) is None,
            r matches Some(s) ==> keyword_text(self) == Some(s@),
    {
        match self {
            CmdWhich::Trg => {
                proof {
                    reveal_strlit("TRG");
                }
                Some("TRG")
            },
            CmdWhich::Str => {
                proof {
                    reveal_strlit("STR");
                }
                Some("STR")
            },
            CmdWhich::Idn => {
                proof {
                    reveal_strlit("IDN");
                }
                Some("IDN")
            },
            CmdWhich::Erc => {
                proof {
                    reveal_strlit("ERC");
                }
                Some("ERC")
            },
            CmdWhich::Val => {
                proof {
                    reveal_strlit("VAL");
                }
                Some("VAL")
            },
            CmdWhich::Ofs => {
                proof {
                    reveal_strlit("OFS");
                }
                Some("OFS")
            },
            CmdWhich::Scl => {
                proof {
                    reveal_strlit("SCL");
                }
                Some("SCL")
            },
            CmdWhich::Raw => {
                proof {
                    reveal_strlit("RAW");
                }
                Some("RAW")
            },
            CmdWhich::Pio => {
                proof {
                    reveal_strlit("PIO");
                }
                Some("PIO")
            },
            CmdWhich::Dir => {
                proof {
                    reveal_strlit("DIR");
                }
                Some("DIR")
            },
            CmdWhich::Dsp => {
                proof {
                    reveal_strlit("DSP");
                }
                Some("DSP")
            },
            CmdWhich::All => {
                proof {
                    reveal_strlit("ALL");
                }
                Some("ALL")
            },
            CmdWhich::Opt => {
                proof {
                    reveal_strlit("OPT");
                }
                Some("OPT")
            },
            CmdWhich::Trm => {
                proof {
                    reveal_strlit("TRM");
                }
                Some("TRM")
            },
            CmdWhich::Trt => {
                proof {
                    reveal_strlit("TRT");
                }
                Some("TRT")
            },
            CmdWhich::Trl => {
                proof {
                    reveal_strlit("TRL");
                }
                Some("TRL")
            },
            CmdWhich::Icb => {
                proof {
                    reveal_strlit("ICB");
                }
                Some("ICB")
            },
            CmdWhich::Icw => {
                proof {
                    reveal_strlit("ICW");
                }
                Some("ICW")
            },
            CmdWhich::Ics => {
                proof {
                    reveal_strlit("ICS");
                }
                Some("ICS")
            },
            CmdWhich::Ict => {
                proof {
                    reveal_strlit("ICT");
                }
                Some("ICT")
            },
            CmdWhich::Ica => {
                proof {
                    reveal_strlit("ICA");
                }
                Some("ICA")
            },
            CmdWhich::Ref => {
                proof {
                    reveal_strlit("REF");
                }
                Some("REF")
            },
            CmdWhich::Wen => {
                proof {
                    reveal_strlit("WEN");
                }
                Some("WEN")
            },
            CmdWhich::Sbd => {
                proof {
                    reveal_strlit("SBD");
                }
                Some("SBD")
            },
            CmdWhich::Nop => {
                proof {
                    reveal_strlit("NOP");
                }
                Some("NOP")
            },
            CmdWhich::Invalid => None,
        }
    }

    /// The sub-channel that the command's number counts from.
    pub fn sub_channel_offset(self) -> (r: Option<u8>)
        ensures
            r == offset_of(self),
    {
        match self {
            CmdWhich::Trg => Some(249),
            CmdWhich::Str => Some(255),
            CmdWhich::Idn => Some(254),
            CmdWhich::Val => Some(0),
            CmdWhich::Ofs => Some(100),
            CmdWhich::Scl => Some(200),
            CmdWhich::Raw => Some(50),
            CmdWhich::Pio => Some(30),
            CmdWhich::Dir => Some(40),
            CmdWhich::Dsp => Some(80),
            CmdWhich::All => Some(95),
            CmdWhich::Opt => Some(150),
            CmdWhich::Trm => Some(240),
            CmdWhich::Trt => Some(247),
            CmdWhich::Trl => Some(248),
            CmdWhich::Icb => Some(230),
            CmdWhich::Icw => Some(231),
            CmdWhich::Ics => Some(232),
            CmdWhich::Ict => Some(233),
            CmdWhich::Ica => Some(239),
            CmdWhich::Ref => Some(246),
            CmdWhich::Wen => Some(250),
            CmdWhich::Erc => Some(251),
            CmdWhich::Sbd => Some(252),
            CmdWhich::Nop => Some(0),
            CmdWhich::Invalid => None,
        }
    }

    /// The command a keyword names, ignoring surrounding white space and
    /// letter case; the error marker for an unknown keyword.
    pub fn from_keyword(keyword: &str) -> (r: CmdWhich)
        ensures
            r == command_named(keyword@),
    {
        let wanted = trimmed_upper(keyword);
        let mut i: usize = 0;
        while i < 25
            invariant
                i <= 25,
                wanted@ == upper_text(trim(keyword@)),
                lookup_from(wanted@, 0) == lookup_from(wanted@, i as int),
            decreases 25 - i,
        {
            let candidate = LOOKUP[i];
            match candidate.keyword() {
                Some(text) => {
                    let cs = chars_of(text);
                    if same_chars(&wanted, &cs) {
                        return candidate;
                    }
                },
                None => {},
            }
            i = i + 1;
        }
        CmdWhich::Invalid
    }

    /// Whether a set command must carry a parameter.
    pub fn requires_parameter_on_set(self) -> (r: bool)
        ensures
            r == needs_parameter(self),
    {
        match self {
            CmdWhich::Trg | CmdWhich::Str | CmdWhich::Idn | CmdWhich::Erc | CmdWhich::Invalid => false,
            _ => true,
        }
    }
}

/// Error codes of the ADA-IO protocol.
#[derive(Debug, Clone, Copy, PartialEq, Eq, Structural)]
pub enum ParseError {
    NoErr,
    UserReq,
    BusyErr,
    OvlErr,
    SyntaxErr,
    ParamErr,
    LockedErr,
    ChecksumErr,
}

/// Parser state of the ADA-IO module: the command line, the read position,
/// the last extracted token, the parameter as integer and byte, and the
/// settings that the commands read and write.
#[derive(Debug, Clone)]
pub struct ParseContext {
    pub ser_inp_str: String,
    pub ser_inp_ptr: usize,
    pub param_str: String,
    pub param_int: i32,
    pub param_byte: u8,
    pub sub_ch: u8,
    pub current_ch: u8,
    pub slave_ch: u8,
    pub cmd_which: CmdWhich,
    pub verbose: bool,
    pub changed_flag: bool,
    pub ee_unlocked: bool,
    pub modify: u8,
    pub inc_rast: i32,
    pub integrate_ad16: bool,
    pub ext_ref: u8,
    pub trig_timer_value: u16,
    pub trig_level: u8,
    pub ee_ser_baud_reg: u8,
    pub err_count: i32,
    pub status: u8,
    pub i2c_slave_adr: u8,
    pub trigger: bool,
    pub led_activity_low: bool,
    pub vers1_str: String,
    pub egg_str: String,
    pub param_text_array: Vec<String>,
    pub dac_raw_array: [u16; 8],
    pub offset_array: [i32; 28],
    pub port_init_array: [u8; 8],
    pub dir_init_array: [u8; 8],
    pub trig_mask_array: [u8; 4],
}

/// Number of user text slots.
pub const PARAM_TEXT_SLOTS: usize = 38;

impl Default for ParseContext {
    fn default() -> (r: Self)
        ensures
            r.ser_inp_str@ == Seq::<char>::empty(),
            r.ser_inp_ptr == 0,
            r.param_str@ == Seq::<char>::empty(),
            r.param_int == 0,
            r.param_byte == 0,
            r.sub_ch == 0,
            r.current_ch == 0,
            r.slave_ch == 0,
            r.cmd_which == CmdWhich::Invalid,
            !r.verbose,
            !r.changed_flag,
            !r.ee_unlocked,
            r.modify == 0,
            r.inc_rast == 0,
            !r.integrate_ad16,
            r.ext_ref == 0,
            r.trig_timer_value == 0,
            r.trig_level == 0,
            r.ee_ser_baud_reg == 0,
            r.err_count == 0,
            r.status == 0,
            r.i2c_slave_adr == 0,
            !r.trigger,
            !r.led_activity_low,
            r.vers1_str@ == Seq::<char>::empty(),
            r.egg_str@ == Seq::<char>::empty(),
            r.param_text_array@.len() == PARAM_TEXT_SLOTS,
            forall|i: int| 0 <= i < PARAM_TEXT_SLOTS ==> (#[trigger] r.param_text_array@[i])@ == Seq::<char>::empty(),
            r.dac_raw_array@ == Seq::new(8, |i: int| 0u16),
            r.offset_array@ == Seq::new(28, |i: int| 0i32),
            r.port_init_array@ == Seq::new(8, |i: int| 0u8),
            r.dir_init_array@ == Seq::new(8, |i: int| 0u8),
            r.trig_mask_array@ == Seq::new(4, |i: int| 0u8),
    {
        let mut texts: Vec<String> = Vec::new();
        let mut i: usize = 0;
        while i < PARAM_TEXT_SLOTS
            invariant
                i <= PARAM_TEXT_SLOTS,
                texts@.len() == i,
                forall|k: int| 0 <= k < i ==> (#[trigger] texts@[k])@ == Seq::<char>::empty(),
            decreases PARAM_TEXT_SLOTS - i,
        {
            texts.push(String::new());
            i = i + 1;
        }
        let r = ParseContext {
            ser_inp_str: String::new(),
            ser_inp_ptr: 0,
            param_str: String::new(),
            param_int: 0,
            param_byte: 0,
            sub_ch: 0,
            current_ch: 0,
            slave_ch: 0,
            cmd_which: CmdWhich::Invalid,
            verbose: false,
            changed_flag: false,
            ee_unlocked: false,
            modify: 0,
            inc_rast: 0,
            integrate_ad16: false,
            ext_ref: 0,
            trig_timer_value: 0,
            trig_level: 0,
            ee_ser_baud_reg: 0,
            err_count: 0,
            status: 0,
            i2c_slave_adr: 0,
            trigger: false,
            led_activity_low: false,
            vers1_str: String::new(),
            egg_str: String::new(),
            param_text_array: texts,
            dac_raw_array: [0; 8],
            offset_array: [0; 28],
            port_init_array: [0; 8],
            dir_init_array: [0; 8],
            trig_mask_array: [0; 4],
        };
        assert(r.dac_raw_array@ =~= Seq::new(8, |i: int| 0u16));
        assert(r.offset_array@ =~= Seq::new(28, |i: int| 0i32));
        assert(r.port_init_array@ =~= Seq::new(8, |i: int| 0u8));
        assert(r.dir_init_array@ =~= Seq::new(8, |i: int| 0u8));
        assert(r.trig_mask_array@ =~= Seq::new(4, |i: int| 0u8));
        r
    }
}

/// The bytes of the command line as it is stored (UTF-8).
pub open spec fn line_of(c: ParseContext) -> Seq<u8> {
    encode_utf8(c.ser_inp_str@)
}

/// Whether a byte starts a number token: `*` or a digit.
pub open spec fn starts_number(b: u8) -> bool {
    b == 42 || (48 <= b <= 57)
}

/// Whether a token of the given kind goes on with byte `b`: a number token
/// takes every character up to `9` in code order, a word token every
/// character from `A` on. A character outside ASCII is encoded in bytes from
/// 128 on: it never goes on a number and always goes on a word.
pub open spec fn token_goes_on(number: bool, b: u8) -> bool {
    if number {
        b <= 57
    } else {
        b >= 65
    }
}

/// First position from `i` on that is not a space.
pub open spec fn skip_spaces(s: Seq<u8>, i: int) -> int
    decreases s.len() - i,
{
    if 0 <= i < s.len() && s[i] == 32 {
        skip_spaces(s, i + 1)
    } else {
        i
    }
}

/// End of a token of the given kind that starts at `i`.
pub open spec fn token_end(s: Seq<u8>, i: int, number: bool) -> int
    decreases s.len() - i,
{
    if 0 <= i < s.len() && token_goes_on(number, s[i]) {
        token_end(s, i + 1, number)
    } else {
        i
    }
}

/// The token that extraction finds from position `p` on: whether it is a
/// number, where it begins and where it ends. Leading spaces are skipped; at
/// the end of the line the token is empty and no number.
pub open spec fn extract_at(s: Seq<u8>, p: int) -> (bool, int, int) {
    let b = skip_spaces(s, p);
    if b >= s.len() {
        (false, b, b)
    } else {
        let number = starts_number(s[b]);
        (number, b, token_end(s, b, number))
    }
}

/// Whether the token at `p` is plain ASCII. A word token that runs into a
/// character outside ASCII cannot be read character by character: the read
/// position would land inside that character.
pub open spec fn token_is_ascii(s: Seq<u8>, p: int) -> bool {
    let (number, b, e) = extract_at(s, p);
    forall|k: int| b <= k < e ==> s[k] < 128
}

/// Parser state after extracting the token at the read position.
pub open spec fn after_extract(c: ParseContext) -> ParseContext {
    let (number, b, e) = extract_at(line_of(c), c.ser_inp_ptr as int);
    ParseContext { ser_inp_ptr: e as usize, ..c }
}

/// The text of the token at the read position.
pub open spec fn extracted_text(c: ParseContext) -> Seq<char> {
    let (number, b, e) = extract_at(line_of(c), c.ser_inp_ptr as int);
    latin1(line_of(c).subrange(b, e))
}

/// Whether the token at the read position is a number.
pub open spec fn extracted_number(c: ParseContext) -> bool {
    extract_at(line_of(c), c.ser_inp_ptr as int).0
}

/// The read position lies within the line.
pub open spec fn readable(c: ParseContext) -> bool {
    c.ser_inp_ptr <= line_of(c).len()
}

proof fn lemma_skip_spaces_bounds(s: Seq<u8>, i: int)
    requires
        0 <= i <= s.len(),
    ensures
        i <= skip_spaces(s, i) <= s.len(),
        forall|k: int| i <= k < skip_spaces(s, i) ==> s[k] == 32,
        skip_spaces(s, i) < s.len() ==> s[skip_spaces(s, i)] != 32,
    decreases s.len() - i,
{
    if i < s.len() && s[i] == 32 {
        lemma_skip_spaces_bounds(s, i + 1);
    }
}

proof fn lemma_token_end_bounds(s: Seq<u8>, i: int, number: bool)
    requires
        0 <= i <= s.len(),
    ensures
        i <= token_end(s, i, number) <= s.len(),
        forall|k: int| i <= k < token_end(s, i, number) ==> token_goes_on(number, s[k]),
        token_end(s, i, number) < s.len() ==> !token_goes_on(number, s[token_end(s, i, number)]),
    decreases s.len() - i,
{
    if i < s.len() && token_goes_on(number, s[i]) {
        lemma_token_end_bounds(s, i + 1, number);
    }
}

/// Whether a token of the given kind goes on with `b[i]`.
fn goes_on(b: &[u8], i: usize, number: bool) -> (r: bool)
    requires
        i < b@.len(),
    ensures
        r == token_goes_on(number, b@[i as int]),
{
    if number {
        b[i] <= 57
    } else {
        b[i] >= 65
    }
}

impl ParseContext {
    /// The bytes of the command line.
    fn line_bytes(&self) -> (b: &[u8])
        ensures
            b@ == line_of(*self),
    {
        self.ser_inp_str.as_str().as_bytes()
    }

    /// Token extraction as [`ParseContext::parse_extract`] does it, for any
    /// token: a word token that runs into a character outside ASCII cannot be
    /// read, and then the result is none and nothing changes.
    pub fn try_extract(&mut self) -> (r: Option<bool>)
        requires
            readable(*old(self)),
        ensures
            token_is_ascii(line_of(*old(self)), old(self).ser_inp_ptr as int) ==> {
                &&& r == Some(extracted_number(*old(self)))
                &&& final(self).param_str@ == extracted_text(*old(self))
                &&& final(self).ser_inp_ptr as int == extract_at(line_of(*old(self)), old(self).ser_inp_ptr as int).2
                &&& *final(self) == (ParseContext { param_str: final(self).param_str, ..after_extract(*old(self)) })
            },
            !token_is_ascii(line_of(*old(self)), old(self).ser_inp_ptr as int) ==> r is None && *final(self) == *old(self),
            readable(*final(self)),
    {
        let ghost s = line_of(*self);
        let b = self.line_bytes();
        let n = b.len();
        let mut ptr = self.ser_inp_ptr;
        proof {
            lemma_skip_spaces_bounds(s, ptr as int);
        }
        while ptr < n && b[ptr] == 32
            invariant
                old(self).ser_inp_ptr <= ptr <= n == s.len(),
                b@ == s,
                *self == *old(self),
                skip_spaces(s, old(self).ser_inp_ptr as int) == skip_spaces(s, ptr as int),
            decreases n - ptr,
        {
            ptr = ptr + 1;
        }
        assert(skip_spaces(s, ptr as int) == ptr as int);
        let begin = ptr;
        let mut tok = String::new();
        let mut is_param = false;
        if ptr < n {
            let first = b[ptr];
            is_param = first == 42 || (48 <= first && first <= 57);
            proof {
                lemma_token_end_bounds(s, ptr as int, is_param);
            }
            while ptr < n && goes_on(b, ptr, is_param)
                invariant
                    begin <= ptr <= token_end(s, begin as int, is_param) <= n == s.len(),
                    b@ == s,
                    s == line_of(*old(self)),
                    *self == *old(self),
                    readable(*old(self)),
                    begin == skip_spaces(s, old(self).ser_inp_ptr as int),
                    is_param == starts_number(s[begin as int]),
                    token_end(s, begin as int, is_param) == token_end(s, ptr as int, is_param),
                    forall|k: int| begin <= k < token_end(s, begin as int, is_param) ==> token_goes_on(is_param, s[k]),
                    forall|k: int| begin <= k < ptr ==> s[k] < 128,
                    tok@ == latin1(s.subrange(begin as int, ptr as int)),
                decreases n - ptr,
            {
                proof {
                    lemma_token_end_bounds(s, ptr as int, is_param);
                }
                if b[ptr] >= 128 {
                    assert(!(s[ptr as int] < 128));
                    assert(!token_is_ascii(s, old(self).ser_inp_ptr as int));
                    return None;
                }
                push_char(&mut tok, b[ptr] as char);
                ptr = ptr + 1;
                assert(tok@ =~= latin1(s.subrange(begin as int, ptr as int)));
            }
        } else {
            assert(tok@ =~= latin1(s.subrange(begin as int, ptr as int)));
        }
        self.param_str = tok;
        self.ser_inp_ptr = ptr;
        Some(is_param)
    }

    /// Extracts the next token from the read position: leading spaces are
    /// skipped; a token that starts with `*` or a digit is a number and runs
    /// over every character up to `9`, any other token runs over the
    /// characters from `A` on. The token lands in `param_str`, the read
    /// position moves behind it, and the result says whether it is a number.
    pub fn parse_extract(&mut self) -> (is_param: bool)
        requires
            readable(*old(self)),
            token_is_ascii(line_of(*old(self)), old(self).ser_inp_ptr as int),
        ensures
            is_param == extracted_number(*old(self)),
            final(self).param_str@ == extracted_text(*old(self)),
            final(self).ser_inp_ptr as int == extract_at(line_of(*old(self)), old(self).ser_inp_ptr as int).2,
            *final(self) == (ParseContext { param_str: final(self).param_str, ..after_extract(*old(self)) }),
            readable(*final(self)),
    {
        match self.try_extract() {
            Some(p) => p,
            None => false,
        }
    }

    /// Upper-cases the extracted token and looks it up as a command keyword.
    pub fn cmd_to_index(&mut self) -> (r: CmdWhich)
        ensures
            final(self).param_str@ == upper_text(old(self).param_str@),
            r == command_named(final(self).param_str@),
            *final(self) == (ParseContext { param_str: final(self).param_str, ..*old(self) }),
    {
        self.param_str = ascii_upper(self.param_str.as_str());
        CmdWhich::from_keyword(self.param_str.as_str())
    }
}

/// Where a command line goes after its header has been read.
#[derive(Debug, Clone, Copy, PartialEq, Eq, Structural)]
pub enum Route {
    /// Empty line: answer with the plain status prompt.
    Prompt,
    /// A result of another module, or a line for another module: pass it on.
    Echo,
    /// A request: answer from the get dispatch for `sub_ch`.
    Get,
    /// A setting for `sub_ch`; `has_param` tells whether a number follows
    /// the `=` (it is in `param_str`, to be read as the parameter value).
    Assign { has_param: bool },
}

/// The parser fields that reading a line changes, and the outcome.
pub struct LineRoute {
    pub result: Result<Route, ParseError>,
    pub ptr: int,
    pub token: Seq<char>,
    pub current_ch: u8,
    pub verbose: bool,
    pub led: bool,
    pub cmd: CmdWhich,
    pub sub_ch: u8,
}

/// The fields of `c` that reading a line changes, as they are now.
pub open spec fn now(c: ParseContext) -> LineRoute {
    LineRoute {
        result: Ok(Route::Prompt),
        ptr: c.ser_inp_ptr as int,
        token: c.param_str@,
        current_ch: c.current_ch,
        verbose: c.verbose,
        led: c.led_activity_low,
        cmd: c.cmd_which,
        sub_ch: c.sub_ch,
    }
}

/// `n` holds the fields `r` and everything else of `c`.
pub open spec fn applies(c: ParseContext, n: ParseContext, r: LineRoute) -> bool {
    &&& n.ser_inp_ptr as int == r.ptr
    &&& n.param_str@ == r.token
    &&& n.current_ch == r.current_ch
    &&& n.verbose == r.verbose
    &&& n.led_activity_low == r.led
    &&& n.cmd_which == r.cmd
    &&& n.sub_ch == r.sub_ch
    &&& n == (ParseContext {
        ser_inp_ptr: n.ser_inp_ptr,
        param_str: n.param_str,
        current_ch: n.current_ch,
        verbose: n.verbose,
        led_activity_low: n.led_activity_low,
        cmd_which: n.cmd_which,
        sub_ch: n.sub_ch,
        ..c
    })
}

/// Whether the line holds the byte `ch`.
pub open spec fn has_char(s: Seq<u8>, ch: u8) -> bool {
    exists|i: int| 0 <= i < s.len() && s[i] == ch
}

/// The sub-channel number of a number token: `*` stands for the current
/// channel, anything else is read as a byte.
pub open spec fn sub_channel_number(token: Seq<char>, current: u8) -> Option<u8> {
    if trim(token) == seq!['*'] {
        Some(current)
    } else {
        parse_u8_text(token)
    }
}

/// Last stage of a set command: the parameter behind the first `=`. A word
/// there that runs into a character outside ASCII is a syntax error.
pub open spec fn set_stage(s: Seq<u8>, st: LineRoute) -> LineRoute {
    let eq = first_index(s, 61u8)->0;
    if !token_is_ascii(s, eq + 1) {
        LineRoute { result: Err(ParseError::SyntaxErr), ptr: eq + 1, ..st }
    } else {
        let (number, b, e) = extract_at(s, eq + 1);
        let st2 = LineRoute { ptr: e, token: latin1(s.subrange(b, e)), ..st };
        if number {
            LineRoute { result: Ok(Route::Assign { has_param: true }), ..st2 }
        } else if needs_parameter(st.cmd) {
            LineRoute { result: Err(ParseError::ParamErr), ..st2 }
        } else {
            LineRoute { result: Ok(Route::Assign { has_param: false }), ..st2 }
        }
    }
}

/// The sub-channel: the number token plus the command's offset, saturating
/// at 255; then a request or a setting.
pub open spec fn number_stage(s: Seq<u8>, st: LineRoute, offset: u8) -> LineRoute {
    match sub_channel_number(st.token, st.current_ch) {
        None => LineRoute { result: Err(ParseError::ParamErr), ..st },
        Some(v) => {
            let sub = if v + offset > 255 { 255u8 } else { (v + offset) as u8 };
            let st2 = LineRoute { sub_ch: sub, ..st };
            if !has_char(s, 61u8) {
                LineRoute { result: Ok(Route::Get), ..st2 }
            } else {
                set_stage(s, st2)
            }
        },
    }
}

/// The command stage: a number token means `VAL`, a word is looked up as a
/// command and the number that follows it is read. A word that runs into a
/// character outside ASCII is a syntax error.
pub open spec fn select_stage(s: Seq<u8>, st: LineRoute) -> LineRoute {
    let (number, b, e) = extract_at(s, st.ptr);
    let token = latin1(s.subrange(b, e));
    if !token_is_ascii(s, st.ptr) {
        LineRoute { result: Err(ParseError::SyntaxErr), led: true, ..st }
    } else if number {
        number_stage(s, LineRoute { led: true, cmd: CmdWhich::Val, ptr: e, token, ..st }, 0)
    } else {
        let upper = upper_text(token);
        let cmd = command_named(upper);
        if cmd == CmdWhich::Invalid {
            LineRoute { result: Err(ParseError::SyntaxErr), led: true, cmd, ptr: e, token: upper, ..st }
        } else if !token_is_ascii(s, e) {
            LineRoute { result: Err(ParseError::SyntaxErr), led: true, cmd, ptr: e, token: upper, ..st }
        } else {
            let (n2, b2, e2) = extract_at(s, e);
            number_stage(
                s,
                LineRoute { led: true, cmd, ptr: e2, token: latin1(s.subrange(b2, e2)), ..st },
                offset_of(cmd)->0,
            )
        }
    }
}

/// Whether the `$XX` checksum of a line, if there is one, fails: the two
/// bytes after the first `$` must be a hexadecimal byte equal to the XOR of
/// all bytes before the `$`.
pub open spec fn checksum_fails(s: Seq<u8>) -> bool {
    match first_index(s, 36u8) {
        None => false,
        Some(pos) => {
            pos + 3 > s.len() || match parse_unsigned(s.subrange(pos + 1, pos + 3), 16, true) {
                None => true,
                Some(v) => xor_prefix(s, pos as nat) != v,
            }
        },
    }
}

/// Verbose answers (`!` or `?` in the line) and the checksum test, then the
/// command stage.
pub open spec fn body_stage(s: Seq<u8>, st: LineRoute) -> LineRoute {
    let st1 = LineRoute { verbose: has_char(s, 33u8) || has_char(s, 63u8), ..st };
    if checksum_fails(s) {
        LineRoute { result: Err(ParseError::ChecksumErr), ..st1 }
    } else {
        select_stage(s, st1)
    }
}

/// The main channel `nn:` in front of a command: it must be a number; with
/// `*` in front the line is for all modules and is passed on, and a line for
/// another channel is passed on too.
pub open spec fn channel_stage(c: ParseContext) -> LineRoute {
    let s = line_of(c);
    let st = LineRoute { ptr: 0, ..now(c) };
    let (number, b, e) = extract_at(s, 0);
    let token = latin1(s.subrange(b, e));
    let after = if e < s.len() && s[e] == 58 { e + 1 } else { e };
    if !token_is_ascii(s, 0) {
        LineRoute { result: Err(ParseError::SyntaxErr), ..st }
    } else if !number {
        LineRoute { result: Err(ParseError::SyntaxErr), ptr: e, token, ..st }
    } else if s[0] == 42 {
        LineRoute { result: Ok(Route::Echo), ptr: after, token, ..st }
    } else {
        match parse_u8_text(token) {
            None => LineRoute { result: Err(ParseError::ParamErr), ptr: after, token, ..st },
            Some(ch) => if ch != c.slave_ch {
                LineRoute { result: Ok(Route::Echo), ptr: after, token, current_ch: ch, ..st }
            } else {
                body_stage(s, LineRoute { ptr: after, token, current_ch: ch, ..st })
            },
        }
    }
}

/// What reading a command line does.
///
/// An empty line gets the status prompt; a line that starts with `#` is a
/// result of another module and is passed on. A main channel (`nn:`) must be
/// a number; with `*` in front the line is for all modules and is passed on,
/// and a line for another channel is passed on too. Then verbose mode, the
/// checksum, the command keyword or number, and the sub-channel follow; a
/// line without `=` is a request, one with `=` a setting. Characters outside
/// ASCII may stand anywhere but inside a word that is read.
pub open spec fn route_of(c: ParseContext) -> LineRoute {
    let s = line_of(c);
    let st = now(c);
    if s.len() == 0 {
        st
    } else if s[0] == 35 {
        LineRoute { result: Ok(Route::Echo), ..st }
    } else if has_char(s, 58u8) {
        channel_stage(c)
    } else {
        body_stage(s, LineRoute { ptr: 0, ..st })
    }
}

impl ParseContext {
    fn has(&self, ch: u8) -> (r: bool)
        ensures
            r == has_char(line_of(*self), ch),
    {
        crate::protocol::contains_byte(self.line_bytes(), ch)
    }

    fn checksum_ok(&self) -> (r: bool)
        ensures
            r == !checksum_fails(line_of(*self)),
    {
        let b = self.line_bytes();
        match find_byte(b, 36) {
            None => true,
            Some(pos) => {
                if b.len() - pos < 3 {
                    return false;
                }
                let digits = slice_range(b, pos + 1, pos + 3);
                match parse_u8_radix(digits, true) {
                    None => false,
                    Some(v) => xor_checksum(b, pos) == v,
                }
            },
        }
    }

    /// Set stage: the parameter token behind the first `=`.
    fn extract_set_param(&mut self) -> (r: Result<Route, ParseError>)
        requires
            readable(*old(self)),
            has_char(line_of(*old(self)), 61u8),
        ensures
            r == set_stage(line_of(*old(self)), now(*old(self))).result,
            applies(*old(self), *final(self), set_stage(line_of(*old(self)), now(*old(self)))),
            readable(*final(self)),
    {
        let ghost s = line_of(*self);
        let b = self.line_bytes();
        let pos = match find_byte(b, 61) {
            Some(p) => p,
            None => {
                proof {
                    let i = choose|i: int| 0 <= i < s.len() && s[i] == 61u8;
                    assert(b@[i] == 61u8);
                }
                0
            },
        };
        assert(first_index(s, 61u8) == Some(pos as int));
        let n = b.len();
        self.ser_inp_ptr = pos + 1;
        let is_param = match self.try_extract() {
            Some(p) => p,
            None => {
                return Err(ParseError::SyntaxErr);
            },
        };
        if is_param {
            Ok(Route::Assign { has_param: true })
        } else if self.cmd_which.requires_parameter_on_set() {
            Err(ParseError::ParamErr)
        } else {
            Ok(Route::Assign { has_param: false })
        }
    }

    /// Number stage: the sub-channel from the number token and `offset`,
    /// then the request or the setting.
    fn finish_sub_ch(&mut self, offset: u8) -> (r: Result<Route, ParseError>)
        requires
            readable(*old(self)),
        ensures
            r == number_stage(line_of(*old(self)), now(*old(self)), offset).result,
            applies(*old(self), *final(self), number_stage(line_of(*old(self)), now(*old(self)), offset)),
            readable(*final(self)),
    {
        let t = trimmed(self.param_str.as_str());
        let value = if t.len() == 1 && t[0] == '*' {
            proof {
                assert(t@ =~= seq!['*']);
            }
            Some(self.current_ch)
        } else {
            proof {
                assert(t@ != seq!['*']);
            }
            parse_u8_str(self.param_str.as_str())
        };
        assert(value == sub_channel_number(self.param_str@, self.current_ch));
        match value {
            None => {
                return Err(ParseError::ParamErr);
            },
            Some(v) => {
                self.sub_ch = v.saturating_add(offset);
                if !self.has(61) {
                    return Ok(Route::Get);
                }
                self.extract_set_param()
            },
        }
    }

    /// Command stage: a number token means `VAL`; a word is looked up as a
    /// command keyword and the number behind it read.
    fn select_sub_ch(&mut self) -> (r: Result<Route, ParseError>)
        requires
            readable(*old(self)),
        ensures
            r == select_stage(line_of(*old(self)), now(*old(self))).result,
            applies(*old(self), *final(self), select_stage(line_of(*old(self)), now(*old(self)))),
            readable(*final(self)),
    {
        self.led_activity_low = true;
        let is_param = match self.try_extract() {
            Some(p) => p,
            None => {
                return Err(ParseError::SyntaxErr);
            },
        };
        if is_param {
            self.cmd_which = CmdWhich::Val;
            self.finish_sub_ch(0)
        } else {
            self.cmd_which = self.cmd_to_index();
            if self.cmd_which == CmdWhich::Invalid {
                return Err(ParseError::SyntaxErr);
            }
            let offset = match self.cmd_which.sub_channel_offset() {
                Some(o) => o,
                None => {
                    return Err(ParseError::SyntaxErr);
                },
            };
            match self.try_extract() {
                Some(_) => {},
                None => {
                    return Err(ParseError::SyntaxErr);
                },
            }
            self.finish_sub_ch(offset)
        }
    }

    /// Verbose mode and checksum, then the command stage.
    fn check_and_select(&mut self) -> (r: Result<Route, ParseError>)
        requires
            readable(*old(self)),
        ensures
            r == body_stage(line_of(*old(self)), now(*old(self))).result,
            applies(*old(self), *final(self), body_stage(line_of(*old(self)), now(*old(self)))),
            readable(*final(self)),
    {
        self.verbose = self.has(33) || self.has(63);
        if !self.checksum_ok() {
            return Err(ParseError::ChecksumErr);
        }
        self.select_sub_ch()
    }

    /// Reads the header of the command line and selects the sub-channel (see
    /// [`route_of`]); what a request or a setting then does is up to the get
    /// and set dispatch.
    #[verifier::rlimit(40)]
    pub fn route(&mut self) -> (r: Result<Route, ParseError>)
        ensures
            r == route_of(*old(self)).result,
            applies(*old(self), *final(self), route_of(*old(self))),
    {
        let b = self.line_bytes();
        let n = b.len();
        if n == 0 {
            return Ok(Route::Prompt);
        }
        let first = b[0];
        if first == 35 {
            return Ok(Route::Echo);
        }
        let colon = crate::protocol::contains_byte(b, 58);
        self.ser_inp_ptr = 0;
        if colon {
            self.route_channel(n, first)
        } else {
            self.check_and_select()
        }
    }

    /// Main channel stage (see [`channel_stage`]).
    fn route_channel(&mut self, n: usize, first: u8) -> (r: Result<Route, ParseError>)
        requires
            old(self).ser_inp_ptr == 0,
            n == line_of(*old(self)).len(),
            n > 0,
            first == line_of(*old(self))[0],
        ensures
            r == channel_stage(*old(self)).result,
            applies(*old(self), *final(self), channel_stage(*old(self))),
    {
        let is_param = match self.try_extract() {
            Some(p) => p,
            None => {
                return Err(ParseError::SyntaxErr);
            },
        };
        if !is_param {
            return Err(ParseError::SyntaxErr);
        }
        let b = self.line_bytes();
        if self.ser_inp_ptr < n && b[self.ser_inp_ptr] == 58 {
            self.ser_inp_ptr = self.ser_inp_ptr + 1;
        }
        if first == 42 {
            return Ok(Route::Echo);
        }
        match parse_u8_str(self.param_str.as_str()) {
            None => {
                return Err(ParseError::ParamErr);
            },
            Some(ch) => {
                self.current_ch = ch;
            },
        }
        if self.current_ch != self.slave_ch {
            return Ok(Route::Echo);
        }
        self.check_and_select()
    }
}

/// `bytes[from..to]`.
fn slice_range(bytes: &[u8], from: usize, to: usize) -> (r: &[u8])
    requires
        from <= to <= bytes@.len(),
    ensures
        r@ == bytes@.subrange(from as int, to as int),
{
    vstd::slice::slice_subrange(bytes, from, to)
}

/// Where the floating-point value of an answer comes from; the caller
/// computes it.
#[derive(Debug, Clone, Copy, PartialEq, Eq, Structural)]
pub enum FloatSource {
    /// The reading of analogue channel `n`, which reports its own number.
    Channel(u8),
    /// Scale factor number `n`.
    Scale(u8),
    /// A sensor word in half units: the word divided by 2.
    Half(u16),
    /// A sensor word in 1/256 units: the word divided by 256.
    Div256(u16),
}

/// One answer line of the get dispatch.
#[derive(Debug, Clone)]
pub enum Answer {
    /// A floating-point value for `sub_ch`.
    Float { sub_ch: u8, source: FloatSource },
    /// An integer value for `sub_ch`.
    Int { sub_ch: u8, value: i32 },
    /// A text as it stands.
    Text(String),
    /// A text behind the module's channel prefix.
    ChannelText(String),
    /// The status prompt.
    Status { error: ParseError, status: u8 },
}

/// An answer with its texts as character sequences.
pub enum AnswerView {
    Float { sub_ch: u8, source: FloatSource },
    Int { sub_ch: u8, value: i32 },
    Text(Seq<char>),
    ChannelText(Seq<char>),
    Status { error: ParseError, status: u8 },
}

impl Answer {
    pub open spec fn view_of(self) -> AnswerView {
        match self {
            Answer::Float { sub_ch, source } => AnswerView::Float { sub_ch, source },
            Answer::Int { sub_ch, value } => AnswerView::Int { sub_ch, value },
            Answer::Text(t) => AnswerView::Text(t@),
            Answer::ChannelText(t) => AnswerView::ChannelText(t@),
            Answer::Status { error, status } => AnswerView::Status { error, status },
        }
    }
}

/// The answers of a request, and what becomes of the floating-point
/// parameter (none: it keeps its value).
pub struct GetPlan {
    pub answers: Vec<Answer>,
    pub param: Option<FloatSource>,
}

/// What a request does: the answers, the floating-point parameter, and the
/// fields it changes.
pub struct GetView {
    pub result: Result<Seq<AnswerView>, ParseError>,
    pub param: Option<FloatSource>,
    pub param_int: i32,
    pub sub_ch: u8,
    pub trigger: bool,
}

/// Float answers for channels `lo` to `lo + n - 1`, each its own reading.
pub open spec fn float_run(lo: u8, n: nat) -> Seq<AnswerView> {
    Seq::new(n, |i: int| AnswerView::Float { sub_ch: (lo + i) as u8, source: FloatSource::Channel((lo + i) as u8) })
}

/// Integer answers for the ports `lo` to `lo + n - 1`, each reporting its own number.
pub open spec fn int_run(lo: u8, n: nat) -> Seq<AnswerView> {
    Seq::new(n, |i: int| AnswerView::Int { sub_ch: (lo + i) as u8, value: (lo + i) as i32 })
}

/// A single answer; the fields other than the result keep their values.
pub open spec fn single(c: ParseContext, a: AnswerView) -> GetView {
    GetView { result: Ok(seq![a]), param: None, param_int: c.param_int, sub_ch: c.sub_ch, trigger: c.trigger }
}

/// An integer answer for the current sub-channel.
pub open spec fn int_answer(c: ParseContext, v: i32) -> GetView {
    GetView { param_int: v, ..single(c, AnswerView::Int { sub_ch: c.sub_ch, value: v }) }
}

/// What the get dispatch answers for `c.sub_ch`.
///
/// Analogue channels report a floating-point reading, ports and the raw DAC
/// words integers; 95, 96, 98 and 99 report whole groups; 249 fires the
/// trigger; 250 and 255 answer with the status; 253 echoes the line and 254
/// gives the version. Any other sub-channel is a parameter error.
pub open spec fn get_of(c: ParseContext) -> GetView {
    let k = c.sub_ch;
    if k <= 47 {
        if 30 <= k <= 37 {
            int_answer(c, k as i32)
        } else {
            GetView {
                param: Some(FloatSource::Channel(k)),
                ..single(c, AnswerView::Float { sub_ch: k, source: FloatSource::Channel(k) })
            }
        }
    } else if 50 <= k <= 67 {
        GetView {
            param: Some(FloatSource::Channel((k - 50) as u8)),
            ..single(c, AnswerView::Int { sub_ch: k, value: c.param_int })
        }
    } else if 70 <= k <= 77 {
        int_answer(c, c.dac_raw_array[k - 70] as i32)
    } else if k == 80 {
        int_answer(c, c.modify as i32)
    } else if k == 85 {
        single(c, AnswerView::ChannelText(c.egg_str@))
    } else if k == 89 || k == 159 {
        int_answer(c, c.inc_rast)
    } else if k == 95 {
        GetView { result: Ok(float_run(0, 8)), param: Some(FloatSource::Channel(7)), param_int: c.param_int, sub_ch: 7, trigger: c.trigger }
    } else if k == 96 {
        GetView { result: Ok(float_run(10, 8)), param: Some(FloatSource::Channel(17)), param_int: c.param_int, sub_ch: 17, trigger: c.trigger }
    } else if k == 98 {
        GetView { result: Ok(int_run(30, 8)), param: None, param_int: 37, sub_ch: 37, trigger: c.trigger }
    } else if k == 99 {
        GetView {
            result: Ok(float_run(0, 8) + float_run(10, 8) + int_run(30, 8)),
            param: Some(FloatSource::Channel(17)),
            param_int: 37,
            sub_ch: 37,
            trigger: c.trigger,
        }
    } else if 100 <= k <= 127 {
        int_answer(c, c.offset_array[k - 100])
    } else if k == 156 || k == 246 {
        int_answer(c, c.ext_ref as i32)
    } else if k == 157 {
        int_answer(c, if c.integrate_ad16 { 1 } else { 0 })
    } else if 180 <= k <= 187 {
        int_answer(c, c.port_init_array[k - 180] as i32)
    } else if 190 <= k <= 197 {
        int_answer(c, c.dir_init_array[k - 190] as i32)
    } else if 200 <= k <= 229 {
        GetView {
            param: Some(FloatSource::Scale((k - 200) as u8)),
            ..single(c, AnswerView::Float { sub_ch: k, source: FloatSource::Scale((k - 200) as u8) })
        }
    } else if k == 230 || k == 231 || k == 232 {
        int_answer(c, 0)
    } else if k == 233 {
        GetView {
            param: Some(FloatSource::Half(0)),
            param_int: 0,
            ..single(c, AnswerView::Float { sub_ch: k, source: FloatSource::Half(0) })
        }
    } else if k == 234 {
        GetView {
            param: Some(FloatSource::Div256(0)),
            param_int: 0,
            ..single(c, AnswerView::Float { sub_ch: k, source: FloatSource::Div256(0) })
        }
    } else if k == 239 {
        int_answer(c, c.i2c_slave_adr as i32)
    } else if 240 <= k <= 243 {
        int_answer(c, c.trig_mask_array[k - 240] as i32)
    } else if k == 247 {
        int_answer(c, c.trig_timer_value as i32)
    } else if k == 248 {
        int_answer(c, c.trig_level as i32)
    } else if k == 249 {
        GetView { trigger: true, ..single(c, AnswerView::Status { error: ParseError::NoErr, status: c.status }) }
    } else if k == 250 || k == 255 {
        single(c, AnswerView::Status { error: ParseError::NoErr, status: c.status })
    } else if k == 251 {
        int_answer(c, c.err_count)
    } else if k == 252 {
        int_answer(c, c.ee_ser_baud_reg as i32)
    } else if k == 253 {
        single(c, AnswerView::Text(c.ser_inp_str@))
    } else if k == 254 {
        single(c, AnswerView::ChannelText(c.vers1_str@))
    } else {
        GetView { result: Err(ParseError::ParamErr), param: None, param_int: c.param_int, sub_ch: c.sub_ch, trigger: c.trigger }
    }
}

/// The views of a list of answers.
pub open spec fn answer_views(a: Seq<Answer>) -> Seq<AnswerView> {
    Seq::new(a.len(), |i: int| a[i].view_of())
}

impl ParseContext {
    /// Byte read from the I2C device at `slave`; no device answers on this
    /// board, so the read gives 0.
    fn twi_inp_byte(&mut self, slave: u8) -> (r: u8)
        ensures
            r == 0,
            *final(self) == *old(self),
    {
        let _ = slave;
        0
    }

    /// Word read from the I2C device at `slave`; no device answers on this
    /// board, so the read gives 0.
    fn twi_inp_word(&mut self, slave: u8) -> (r: u16)
        ensures
            r == 0,
            *final(self) == *old(self),
    {
        let _ = slave;
        0
    }

    /// Feature list behind the version text; this board reports none.
    fn write_features(&self) -> (r: String)
        ensures
            r@ == Seq::<char>::empty(),
    {
        String::new()
    }

    fn run_answers(&mut self, lo: u8, hi: u8, answers: &mut Vec<Answer>, integer: bool)
        requires
            lo <= hi,
        ensures
            answer_views(final(answers)@) == answer_views(old(answers)@) + (if integer {
                int_run(lo, (hi - lo + 1) as nat)
            } else {
                float_run(lo, (hi - lo + 1) as nat)
            }),
            *final(self) == (ParseContext {
                sub_ch: hi,
                param_int: if integer { hi as i32 } else { old(self).param_int },
                ..*old(self)
            }),
    {
        let ghost a0 = answer_views(answers@);
        let ghost n: nat = (hi - lo + 1) as nat;
        let ghost run = if integer { int_run(lo, n) } else { float_run(lo, n) };
        let count: u16 = (hi - lo) as u16 + 1;
        let mut i: u16 = 0;
        while i < count
            invariant
                lo <= hi,
                count as nat == n,
                n == (hi - lo + 1) as nat,
                i <= count,
                answer_views(answers@) == a0 + run.subrange(0, i as int),
                run == (if integer { int_run(lo, n) } else { float_run(lo, n) }),
                i == 0 ==> *self == *old(self),
                i > 0 ==> *self == (ParseContext {
                    sub_ch: (lo + i - 1) as u8,
                    param_int: if integer { (lo + i - 1) as i32 } else { old(self).param_int },
                    ..*old(self)
                }),
            decreases count - i,
        {
            let k: u8 = lo + i as u8;
            let ghost before = answers@;
            self.sub_ch = k;
            if integer {
                self.param_int = k as i32;
                answers.push(Answer::Int { sub_ch: k, value: self.param_int });
            } else {
                answers.push(Answer::Float { sub_ch: k, source: FloatSource::Channel(k) });
            }
            proof {
                assert(run[i as int] == (if integer {
                    AnswerView::Int { sub_ch: k, value: k as i32 }
                } else {
                    AnswerView::Float { sub_ch: k, source: FloatSource::Channel(k) }
                }));
                assert(answers@ == before.push(answers@.last()));
                assert(answer_views(answers@) =~= answer_views(before).push(answers@.last().view_of()));
                assert(answers@.last().view_of() == run[i as int]);
                assert(answer_views(answers@) =~= a0 + run.subrange(0, i + 1));
            }
            i = i + 1;
        }
        assert(run.subrange(0, count as int) =~= run);
    }
}

fn one(a: Answer) -> (r: Vec<Answer>)
    ensures
        answer_views(r@) == seq![a.view_of()],
{
    let mut v: Vec<Answer> = Vec::new();
    v.push(a);
    assert(answer_views(v@) =~= seq![a.view_of()]);
    v
}

/// The plan of a request that gives one answer.
pub open spec fn plan_matches(r: Result<GetPlan, ParseError>, g: GetView) -> bool {
    match r {
        Ok(p) => g.result == Ok::<Seq<AnswerView>, ParseError>(answer_views(p.answers@)) && p.param == g.param,
        Err(e) => g.result == Err::<Seq<AnswerView>, ParseError>(e),
    }
}

impl ParseContext {
    fn get_group(&mut self) -> (r: Result<GetPlan, ParseError>)
        requires
            old(self).sub_ch == 95 || old(self).sub_ch == 96 || old(self).sub_ch == 98 || old(self).sub_ch == 99,
        ensures
            plan_matches(r, get_of(*old(self))),
            *final(self) == (ParseContext {
                param_int: get_of(*old(self)).param_int,
                sub_ch: get_of(*old(self)).sub_ch,
                trigger: get_of(*old(self)).trigger,
                ..*old(self)
            }),
    {
        let mut answers: Vec<Answer> = Vec::new();
        let k = self.sub_ch;
        if k == 95 {
            self.run_answers(0, 7, &mut answers, false);
            Ok(GetPlan { answers, param: Some(FloatSource::Channel(7)) })
        } else if k == 96 {
            self.run_answers(10, 17, &mut answers, false);
            Ok(GetPlan { answers, param: Some(FloatSource::Channel(17)) })
        } else if k == 98 {
            self.run_answers(30, 37, &mut answers, true);
            Ok(GetPlan { answers, param: None })
        } else {
            self.run_answers(0, 7, &mut answers, false);
            self.run_answers(10, 17, &mut answers, false);
            self.run_answers(30, 37, &mut answers, true);
            Ok(GetPlan { answers, param: Some(FloatSource::Channel(17)) })
        }
    }

    fn int_reply(&mut self, value: i32) -> (r: Result<GetPlan, ParseError>)
        ensures
            plan_matches(r, int_answer(*old(self), value)),
            *final(self) == (ParseContext { param_int: value, ..*old(self) }),
    {
        self.param_int = value;
        Ok(GetPlan { answers: one(Answer::Int { sub_ch: self.sub_ch, value: self.param_int }), param: None })
    }

    fn get_upper(&mut self) -> (r: Result<GetPlan, ParseError>)
        requires
            old(self).sub_ch >= 100,
            old(self).sub_ch != 159,
        ensures
            plan_matches(r, get_of(*old(self))),
            *final(self) == (ParseContext {
                param_int: get_of(*old(self)).param_int,
                sub_ch: get_of(*old(self)).sub_ch,
                trigger: get_of(*old(self)).trigger,
                ..*old(self)
            }),
    {
        let k = self.sub_ch;
        if k <= 127 {
            let v = self.offset_array[(k - 100) as usize];
            self.int_reply(v)
        } else if k == 156 || k == 246 {
            let v = self.ext_ref as i32;
            self.int_reply(v)
        } else if k == 157 {
            let v: i32 = if self.integrate_ad16 { 1 } else { 0 };
            self.int_reply(v)
        } else if 180 <= k && k <= 187 {
            let v = self.port_init_array[(k - 180) as usize] as i32;
            self.int_reply(v)
        } else if 190 <= k && k <= 197 {
            let v = self.dir_init_array[(k - 190) as usize] as i32;
            self.int_reply(v)
        } else if 200 <= k && k <= 229 {
            Ok(GetPlan {
                answers: one(Answer::Float { sub_ch: k, source: FloatSource::Scale(k - 200) }),
                param: Some(FloatSource::Scale(k - 200)),
            })
        } else {
            self.get_device()
        }
    }

    fn get_device(&mut self) -> (r: Result<GetPlan, ParseError>)
        requires
            old(self).sub_ch >= 128,
            old(self).sub_ch != 156,
            old(self).sub_ch != 157,
            old(self).sub_ch != 159,
            old(self).sub_ch != 246,
            !(180 <= old(self).sub_ch <= 187),
            !(190 <= old(self).sub_ch <= 197),
            !(200 <= old(self).sub_ch <= 229),
        ensures
            plan_matches(r, get_of(*old(self))),
            *final(self) == (ParseContext {
                param_int: get_of(*old(self)).param_int,
                sub_ch: get_of(*old(self)).sub_ch,
                trigger: get_of(*old(self)).trigger,
                ..*old(self)
            }),
    {
        let k = self.sub_ch;
        if k == 230 {
            let adr = self.i2c_slave_adr;
            let byte = self.twi_inp_byte(adr);
            self.int_reply(byte as i32)
        } else if k == 231 {
            let adr = self.i2c_slave_adr;
            let word = self.twi_inp_word(adr);
            self.int_reply(word as i32)
        } else if k == 232 {
            let adr = self.i2c_slave_adr;
            let word = self.twi_inp_word(adr);
            let swapped = (word >> 8) | (word << 8);
            assert(swapped == 0) by (bit_vector)
                requires word == 0, swapped == (word >> 8) | (word << 8);
            self.int_reply(swapped as i32)
        } else if k == 233 || k == 234 {
            let adr = self.i2c_slave_adr;
            let word = self.twi_inp_word(adr);
            let swapped = (word >> 8) | (word << 8);
            assert(swapped == 0) by (bit_vector)
                requires word == 0, swapped == (word >> 8) | (word << 8);
            if k == 233 {
                let value = swapped >> 7;
                assert(value == 0) by (bit_vector)
                    requires swapped == 0, value == swapped >> 7;
                self.param_int = value as i32;
                Ok(GetPlan {
                    answers: one(Answer::Float { sub_ch: k, source: FloatSource::Half(value) }),
                    param: Some(FloatSource::Half(value)),
                })
            } else {
                self.param_int = swapped as i32;
                Ok(GetPlan {
                    answers: one(Answer::Float { sub_ch: k, source: FloatSource::Div256(swapped) }),
                    param: Some(FloatSource::Div256(swapped)),
                })
            }
        } else if k == 239 {
            let v = self.i2c_slave_adr as i32;
            self.int_reply(v)
        } else if 240 <= k && k <= 243 {
            let v = self.trig_mask_array[(k - 240) as usize] as i32;
            self.int_reply(v)
        } else if k == 247 {
            let v = self.trig_timer_value as i32;
            self.int_reply(v)
        } else if k == 248 {
            let v = self.trig_level as i32;
            self.int_reply(v)
        } else if k == 249 {
            self.trigger = true;
            Ok(GetPlan { answers: one(Answer::Status { error: ParseError::NoErr, status: self.status }), param: None })
        } else if k == 250 || k == 255 {
            Ok(GetPlan { answers: one(Answer::Status { error: ParseError::NoErr, status: self.status }), param: None })
        } else if k == 251 {
            let v = self.err_count;
            self.int_reply(v)
        } else if k == 252 {
            let v = self.ee_ser_baud_reg as i32;
            self.int_reply(v)
        } else if k == 253 {
            Ok(GetPlan { answers: one(Answer::Text(self.ser_inp_str.clone())), param: None })
        } else if k == 254 {
            let features = self.write_features();
            let text = self.vers1_str.clone().concat(features.as_str());
            proof {
                assert(text@ =~= self.vers1_str@);
            }
            Ok(GetPlan { answers: one(Answer::ChannelText(text)), param: None })
        } else {
            Err(ParseError::ParamErr)
        }
    }

    /// Get dispatch: the answers to a request for `sub_ch` (see [`get_of`]).
    pub fn parse_get_param(&mut self) -> (r: Result<GetPlan, ParseError>)
        ensures
            plan_matches(r, get_of(*old(self))),
            *final(self) == (ParseContext {
                param_int: get_of(*old(self)).param_int,
                sub_ch: get_of(*old(self)).sub_ch,
                trigger: get_of(*old(self)).trigger,
                ..*old(self)
            }),
    {
        let k = self.sub_ch;
        if k <= 47 {
            if 30 <= k && k <= 37 {
                self.int_reply(k as i32)
            } else {
                Ok(GetPlan {
                    answers: one(Answer::Float { sub_ch: k, source: FloatSource::Channel(k) }),
                    param: Some(FloatSource::Channel(k)),
                })
            }
        } else if 50 <= k && k <= 67 {
            Ok(GetPlan {
                answers: one(Answer::Int { sub_ch: k, value: self.param_int }),
                param: Some(FloatSource::Channel(k - 50)),
            })
        } else if 70 <= k && k <= 77 {
            let v = self.dac_raw_array[(k - 70) as usize] as i32;
            self.int_reply(v)
        } else if k == 80 {
            let v = self.modify as i32;
            self.int_reply(v)
        } else if k == 85 {
            Ok(GetPlan { answers: one(Answer::ChannelText(self.egg_str.clone())), param: None })
        } else if k == 89 || k == 159 {
            let v = self.inc_rast;
            self.int_reply(v)
        } else if k == 95 || k == 96 || k == 98 || k == 99 {
            self.get_group()
        } else if k >= 100 {
            self.get_upper()
        } else {
            Err(ParseError::ParamErr)
        }
    }
}

/// Where the caller stores the floating-point parameter of a setting.
#[derive(Debug, Clone, Copy, PartialEq, Eq, Structural)]
pub enum FloatStore {
    /// Nowhere.
    Nothing,
    /// As the set value of DAC `n`.
    DacValue(u8),
    /// As scale factor `n`.
    Scale(u8),
}

/// The text between the first `[` of the line and the first `]` at or after
/// the read position; empty if either is missing or they are out of order.
pub open spec fn bracket_text(c: ParseContext) -> Seq<char> {
    let bytes = line_of(c);
    let p = c.ser_inp_ptr as int;
    match (first_index(bytes, 91u8), first_index(bytes.subrange(p, bytes.len() as int), 93u8)) {
        (Some(a), Some(b)) => if b + p >= a + 1 {
            decode_utf8(bytes.subrange(a + 1, b + p))
        } else {
            Seq::empty()
        },
        _ => Seq::empty(),
    }
}

/// What the text store of sub-channel 81 needs when it is reached: the read
/// position within the line and a slot for the text.
pub open spec fn text_store_ready(c: ParseContext) -> bool {
    (c.sub_ch == 81 && c.param_byte <= 37 && c.ee_unlocked) ==> {
        &&& readable(c)
        &&& c.param_byte < c.param_text_array@.len()
    }
}

/// The parser after a successful setting: changed, and EEPROM writes
/// enabled exactly when the setting was `WEN` (250) with parameter 1.
pub open spec fn accepted(c: ParseContext, n: ParseContext) -> ParseContext {
    ParseContext { changed_flag: true, ee_unlocked: c.sub_ch == 250 && c.param_byte == 1, ..n }
}

/// Settings that only an unlocked EEPROM accepts.
pub open spec fn needs_unlock(k: u8) -> bool {
    ||| k == 81
    ||| k == 89
    ||| k == 159
    ||| 100 <= k <= 127
    ||| k == 156
    ||| k == 246
    ||| k == 157
    ||| 180 <= k <= 187
    ||| 190 <= k <= 197
    ||| 200 <= k <= 229
    ||| 240 <= k <= 243
    ||| k == 247
    ||| k == 248
    ||| k == 252
}

/// Sub-channels that accept a setting.
pub open spec fn settable_channel(k: u8) -> bool {
    ||| 20 <= k <= 27
    ||| 30 <= k <= 37
    ||| 40 <= k <= 47
    ||| k == 80
    ||| k == 230
    ||| k == 231
    ||| k == 232
    ||| k == 239
    ||| k == 249
    ||| k == 250
    ||| k == 251
    ||| needs_unlock(k)
}

/// What the set dispatch does with `c.sub_ch` and the parameter.
///
/// Every setting marks the parser changed. Unknown sub-channels, a menu or
/// text slot above 37, and a trigger interval of 1 to 9 ms are parameter
/// errors; settings kept in EEPROM need the EEPROM unlocked. After an
/// accepted setting the EEPROM is unlocked exactly when it was `WEN` with
/// parameter 1; firing the trigger (249) leaves the lock as it is.
pub open spec fn set_effect(c: ParseContext, n: ParseContext, r: Result<FloatStore, ParseError>) -> bool {
    let k = c.sub_ch;
    let pb = c.param_byte;
    let pi = c.param_int;
    let base = ParseContext { changed_flag: true, ..c };
    if !settable_channel(k) {
        r == Err::<FloatStore, ParseError>(ParseError::ParamErr) && n == base
    } else if (k == 80 || k == 81) && pb > 37 {
        r == Err::<FloatStore, ParseError>(ParseError::ParamErr) && n == base
    } else if needs_unlock(k) && !c.ee_unlocked {
        r == Err::<FloatStore, ParseError>(ParseError::LockedErr) && n == base
    } else if k == 247 && 1 <= pi <= 9 {
        r == Err::<FloatStore, ParseError>(ParseError::ParamErr) && n == base
    } else if k == 249 {
        r == Ok::<FloatStore, ParseError>(FloatStore::Nothing) && n == ParseContext { trigger: true, ..base }
    } else if k == 81 {
        &&& r == Ok::<FloatStore, ParseError>(FloatStore::Nothing)
        &&& n == accepted(c, ParseContext { param_text_array: n.param_text_array, ..c })
        &&& n.param_text_array@.len() == c.param_text_array@.len()
        &&& n.param_text_array@[pb as int]@ == bracket_text(c)
        &&& forall|i: int| 0 <= i < n.param_text_array@.len() && i != pb ==> n.param_text_array@[i] == c.param_text_array@[i]
    } else {
        &&& r == Ok::<FloatStore, ParseError>(
            if 20 <= k <= 27 {
                FloatStore::DacValue((k - 20) as u8)
            } else if 200 <= k <= 229 {
                FloatStore::Scale((k - 200) as u8)
            } else {
                FloatStore::Nothing
            },
        )
        &&& n == accepted(c, if k == 80 {
            ParseContext { modify: pb, ..c }
        } else if k == 89 || k == 159 {
            ParseContext { inc_rast: pi, ..c }
        } else if 100 <= k <= 127 {
            ParseContext { offset_array: n.offset_array, ..c }
        } else if k == 156 || k == 246 {
            ParseContext { ext_ref: pb, ..c }
        } else if k == 157 {
            ParseContext { integrate_ad16: pb > 0, ..c }
        } else if 180 <= k <= 187 {
            ParseContext { port_init_array: n.port_init_array, ..c }
        } else if 190 <= k <= 197 {
            ParseContext { dir_init_array: n.dir_init_array, ..c }
        } else if k == 239 {
            ParseContext { i2c_slave_adr: pb, ..c }
        } else if 240 <= k <= 243 {
            ParseContext { trig_mask_array: n.trig_mask_array, ..c }
        } else if k == 247 {
            ParseContext { trig_timer_value: pi as u16, ..c }
        } else if k == 248 {
            ParseContext { trig_level: pb, ..c }
        } else if k == 251 {
            ParseContext { err_count: pi, ..c }
        } else if k == 252 {
            ParseContext { ee_ser_baud_reg: pb, ..c }
        } else {
            c
        })
        &&& (100 <= k <= 127 ==> n.offset_array@ == c.offset_array@.update(k - 100, pi))
        &&& (180 <= k <= 187 ==> n.port_init_array@ == c.port_init_array@.update(k - 180, pb))
        &&& (190 <= k <= 197 ==> n.dir_init_array@ == c.dir_init_array@.update(k - 190, pb))
        &&& (240 <= k <= 243 ==> n.trig_mask_array@ == c.trig_mask_array@.update(k - 240, pb))
    }
}

/// In valid UTF-8, the byte after an ASCII byte starts a character (or is
/// the end).
proof fn lemma_boundary_after_ascii(bytes: Seq<u8>, a: int)
    requires
        valid_utf8(bytes),
        0 <= a < bytes.len(),
        bytes[a] < 128,
    ensures
        is_char_boundary(bytes, a + 1),
{
    if a + 1 < bytes.len() {
        vstd::utf8::is_char_boundary_iff_not_is_continuation_byte(bytes, a);
        assert(is_char_boundary(bytes, a));
        vstd::utf8::valid_utf8_split(bytes, a);
        let t = bytes.subrange(a, bytes.len() as int);
        assert(valid_utf8(t));
        let u = vstd::utf8::pop_first_scalar(t);
        assert(u =~= bytes.subrange(a + 1, bytes.len() as int));
        assert(valid_utf8(u));
        assert(u[0] == bytes[a + 1]);
        assert(!vstd::utf8::is_continuation_byte(bytes[a + 1]));
        vstd::utf8::is_char_boundary_iff_not_is_continuation_byte(bytes, a + 1);
    } else {
        vstd::utf8::is_char_boundary_start_end_of_seq(bytes);
    }
}

impl ParseContext {
    /// The text between brackets for a user text slot (see [`bracket_text`]).
    fn extract_bracket_text(&self) -> (r: String)
        requires
            readable(*self),
        ensures
            r@ == bracket_text(*self),
    {
        let b = self.line_bytes();
        let p = self.ser_inp_ptr;
        let start = find_byte(b, 91);
        let tail = slice_range(b, p, b.len());
        let end = find_byte(tail, 93);
        match (start, end) {
            (Some(a), Some(e)) => {
                if e + p >= a + 1 {
                    let lo = a + 1;
                    let hi = e + p;
                    let text = self.ser_inp_str.as_str();
                    proof {
                        vstd::utf8::encode_utf8_valid_utf8(self.ser_inp_str@);
                        lemma_boundary_after_ascii(b@, a as int);
                    }
                    let (_, right) = text.split_at(lo);
                    proof {
                        let rb = encode_utf8(right@);
                        vstd::utf8::encode_utf8_valid_utf8(right@);
                        assert(rb[hi - lo] == 93u8);
                        vstd::utf8::is_char_boundary_iff_not_is_continuation_byte(rb, hi - lo);
                    }
                    let (mid, _) = right.split_at(hi - lo);
                    proof {
                        assert(encode_utf8(mid@) =~= b@.subrange(lo as int, hi as int));
                        vstd::utf8::encode_utf8_decode_utf8(mid@);
                    }
                    String::from_str(mid)
                } else {
                    String::new()
                }
            },
            _ => String::new(),
        }
    }

    fn unlocked(&self) -> (r: Result<(), ParseError>)
        ensures
            r == (if self.ee_unlocked { Ok::<(), ParseError>(()) } else { Err(ParseError::LockedErr) }),
    {
        if self.ee_unlocked {
            Ok(())
        } else {
            Err(ParseError::LockedErr)
        }
    }

    fn accept(&mut self)
        requires
            old(self).changed_flag,
        ensures
            *final(self) == accepted(*old(self), *old(self)),
    {
        self.ee_unlocked = self.sub_ch == 250 && self.param_byte == 1;
    }

    fn set_lower(&mut self) -> (r: Result<FloatStore, ParseError>)
        requires
            text_store_ready(*old(self)),
            old(self).changed_flag,
            old(self).sub_ch < 150,
        ensures
            set_effect(*old(self), *final(self), r),
    {
        let k = self.sub_ch;
        if 20 <= k && k <= 27 {
            self.accept();
            Ok(FloatStore::DacValue(k - 20))
        } else if (30 <= k && k <= 37) || (40 <= k && k <= 47) {
            self.accept();
            Ok(FloatStore::Nothing)
        } else if k == 80 {
            if self.param_byte > 37 {
                return Err(ParseError::ParamErr);
            }
            self.modify = self.param_byte;
            self.accept();
            Ok(FloatStore::Nothing)
        } else if k == 81 {
            if self.param_byte > 37 {
                return Err(ParseError::ParamErr);
            }
            self.unlocked()?;
            let text = self.extract_bracket_text();
            let i = self.param_byte as usize;
            self.param_text_array.set(i, text);
            self.accept();
            Ok(FloatStore::Nothing)
        } else if k == 89 {
            self.unlocked()?;
            self.inc_rast = self.param_int;
            self.accept();
            Ok(FloatStore::Nothing)
        } else if 100 <= k && k <= 127 {
            self.unlocked()?;
            let i = (k - 100) as usize;
            self.offset_array[i] = self.param_int;
            self.accept();
            Ok(FloatStore::Nothing)
        } else {
            Err(ParseError::ParamErr)
        }
    }

    fn set_upper(&mut self) -> (r: Result<FloatStore, ParseError>)
        requires
            old(self).changed_flag,
            old(self).sub_ch >= 150,
        ensures
            set_effect(*old(self), *final(self), r),
    {
        let k = self.sub_ch;
        if k == 159 {
            self.unlocked()?;
            self.inc_rast = self.param_int;
        } else if k == 156 || k == 246 {
            self.unlocked()?;
            self.ext_ref = self.param_byte;
        } else if k == 157 {
            self.unlocked()?;
            self.integrate_ad16 = self.param_byte > 0;
        } else if 180 <= k && k <= 187 {
            self.unlocked()?;
            let i = (k - 180) as usize;
            self.port_init_array[i] = self.param_byte;
        } else if 190 <= k && k <= 197 {
            self.unlocked()?;
            let i = (k - 190) as usize;
            self.dir_init_array[i] = self.param_byte;
        } else if 200 <= k && k <= 229 {
            self.unlocked()?;
            self.accept();
            return Ok(FloatStore::Scale(k - 200));
        } else if k == 230 || k == 231 || k == 232 {
            // I2C writes: no device is fitted on this board.
        } else if k == 239 {
            self.i2c_slave_adr = self.param_byte;
        } else if 240 <= k && k <= 243 {
            self.unlocked()?;
            let i = (k - 240) as usize;
            self.trig_mask_array[i] = self.param_byte;
        } else if k == 247 {
            self.unlocked()?;
            if 1 <= self.param_int && self.param_int <= 9 {
                return Err(ParseError::ParamErr);
            }
            self.trig_timer_value = self.param_int as u16;
        } else if k == 248 {
            self.unlocked()?;
            self.trig_level = self.param_byte;
        } else if k == 249 {
            self.trigger = true;
            return Ok(FloatStore::Nothing);
        } else if k == 250 {
        } else if k == 251 {
            self.err_count = self.param_int;
        } else if k == 252 {
            self.unlocked()?;
            self.ee_ser_baud_reg = self.param_byte;
        } else {
            return Err(ParseError::ParamErr);
        }
        self.accept();
        Ok(FloatStore::Nothing)
    }

    /// Set dispatch: stores the parameter for `sub_ch` (see [`set_effect`]).
    /// On success the answer is the status prompt; the caller stores the
    /// floating-point parameter where the result says.
    pub fn parse_set_param(&mut self) -> (r: Result<FloatStore, ParseError>)
        requires
            text_store_ready(*old(self)),
        ensures
            set_effect(*old(self), *final(self), r),
    {
        self.changed_flag = true;
        if self.sub_ch < 150 {
            self.set_lower()
        } else {
            self.set_upper()
        }
    }
}

/// The command table names each command by its own keyword: the keyword
/// is found at the command's own entry.
proof fn lemma_lookup_finds_keyword(c: CmdWhich)
    requires
        c != CmdWhich::Invalid,
    ensures
        lookup_from(keyword_text(c)->0, 0) == c,
{
    reveal_with_fuel(lookup_from, 26);
}

/// A keyword names its command, whatever the case of its letters and the
/// white space around it.
pub proof fn law_keywords_name_their_commands(c: CmdWhich, text: Seq<char>)
    requires
        c != CmdWhich::Invalid,
        upper_text(trim(text)) == keyword_text(c)->0,
    ensures
        command_named(text) == c,
{
    lemma_lookup_finds_keyword(c);
}

/// A setting kept in EEPROM is refused with the lock error while writing is
/// locked, and changes nothing but the changed mark.
pub proof fn law_locked_settings_are_refused(c: ParseContext, n: ParseContext, r: Result<FloatStore, ParseError>)
    requires
        set_effect(c, n, r),
        needs_unlock(c.sub_ch),
        !c.ee_unlocked,
        !(c.sub_ch == 81 && c.param_byte > 37),
    ensures
        r == Err::<FloatStore, ParseError>(ParseError::LockedErr),
        n == (ParseContext { changed_flag: true, ..c }),
{
}

/// `WEN` with parameter 1 enables EEPROM writes; every other accepted
/// setting but the trigger disables them again.
pub proof fn law_write_enable_lasts_one_setting(c: ParseContext, n: ParseContext, r: Result<FloatStore, ParseError>)
    requires
        set_effect(c, n, r),
        r is Ok,
        c.sub_ch != 249,
    ensures
        n.ee_unlocked == (c.sub_ch == 250 && c.param_byte == 1),
        n.changed_flag,
{
}

/// A setting of a DAC channel is always taken: its value goes to the DAC
/// of the channel.
pub proof fn law_dac_settings_are_taken(c: ParseContext, n: ParseContext, r: Result<FloatStore, ParseError>)
    requires
        set_effect(c, n, r),
        20 <= c.sub_ch <= 27,
    ensures
        r == Ok::<FloatStore, ParseError>(FloatStore::DacValue((c.sub_ch - 20) as u8)),
{
}

/// What a setting stores, a request on the same sub-channel reads back.
/// The menu position (80), the reference mode (156, 246), the start levels
/// and directions of the ports (180 to 187, 190 to 197), the I2C address
/// (239), the trigger masks (240 to 243), the trigger level (248) and the baud
/// rate register (252) answer with the byte that was set; the raster step
/// (89, 159), the offsets (100 to 127) and the error counter (251) with the
/// whole number; the trigger interval (247) with that number taken as a
/// 16-bit word.
pub proof fn law_settings_read_back(c: ParseContext, n: ParseContext, r: Result<FloatStore, ParseError>)
    requires
        set_effect(c, n, r),
        r is Ok,
    ensures
        n.sub_ch == c.sub_ch,
        (c.sub_ch == 80 || c.sub_ch == 156 || c.sub_ch == 246 || 180 <= c.sub_ch <= 187 || 190 <= c.sub_ch <= 197
            || c.sub_ch == 239 || 240 <= c.sub_ch <= 243 || c.sub_ch == 248 || c.sub_ch == 252) ==> get_of(n).result
            == Ok::<Seq<AnswerView>, ParseError>(seq![AnswerView::Int { sub_ch: c.sub_ch, value: c.param_byte as i32 }]),
        (c.sub_ch == 89 || c.sub_ch == 159 || 100 <= c.sub_ch <= 127 || c.sub_ch == 251) ==> get_of(n).result
            == Ok::<Seq<AnswerView>, ParseError>(seq![AnswerView::Int { sub_ch: c.sub_ch, value: c.param_int }]),
        c.sub_ch == 247 ==> get_of(n).result == Ok::<Seq<AnswerView>, ParseError>(
            seq![AnswerView::Int { sub_ch: c.sub_ch, value: (c.param_int as u16) as i32 }],
        ),
{
}

/// Each keyword selects the sub-channels that the protocol gives it,
/// whatever the case of its letters and the white space around it: the
/// number behind `VAL` or `NOP` counts from 0, behind `PIO` (port values)
/// from 30, `DIR` (port directions) from 40, `RAW` from 50, `DSP` from 80,
/// `ALL` from 95, `OFS` from 100, `OPT` from 150, `SCL` from 200, `ICB`,
/// `ICW`, `ICS`, `ICT` and `ICA` from 230, 231, 232, 233 and 239, `TRM` from
/// 240, `REF` from 246, `TRT`, `TRL`, `TRG`, `WEN`, `ERC` and `SBD` from 247,
/// 248, 249, 250, 251 and 252, `IDN` from 254 and `STR` from 255.
pub proof fn law_keywords_select_their_sub_channels(text: Seq<char>)
    ensures
        upper_text(trim(text)) == seq!['V', 'A', 'L'] ==> command_named(text) == CmdWhich::Val && offset_of(command_named(text)) == Some(0u8),
        upper_text(trim(text)) == seq!['N', 'O', 'P'] ==> command_named(text) == CmdWhich::Nop && offset_of(command_named(text)) == Some(0u8),
        upper_text(trim(text)) == seq!['P', 'I', 'O'] ==> command_named(text) == CmdWhich::Pio && offset_of(command_named(text)) == Some(30u8),
        upper_text(trim(text)) == seq!['D', 'I', 'R'] ==> command_named(text) == CmdWhich::Dir && offset_of(command_named(text)) == Some(40u8),
        upper_text(trim(text)) == seq!['R', 'A', 'W'] ==> command_named(text) == CmdWhich::Raw && offset_of(command_named(text)) == Some(50u8),
        upper_text(trim(text)) == seq!['D', 'S', 'P'] ==> command_named(text) == CmdWhich::Dsp && offset_of(command_named(text)) == Some(80u8),
        upper_text(trim(text)) == seq!['A', 'L', 'L'] ==> command_named(text) == CmdWhich::All && offset_of(command_named(text)) == Some(95u8),
        upper_text(trim(text)) == seq!['O', 'F', 'S'] ==> command_named(text) == CmdWhich::Ofs && offset_of(command_named(text)) == Some(100u8),
        upper_text(trim(text)) == seq!['O', 'P', 'T'] ==> command_named(text) == CmdWhich::Opt && offset_of(command_named(text)) == Some(150u8),
        upper_text(trim(text)) == seq!['S', 'C', 'L'] ==> command_named(text) == CmdWhich::Scl && offset_of(command_named(text)) == Some(200u8),
        upper_text(trim(text)) == seq!['I', 'C', 'B'] ==> command_named(text) == CmdWhich::Icb && offset_of(command_named(text)) == Some(230u8),
        upper_text(trim(text)) == seq!['I', 'C', 'W'] ==> command_named(text) == CmdWhich::Icw && offset_of(command_named(text)) == Some(231u8),
        upper_text(trim(text)) == seq!['I', 'C', 'S'] ==> command_named(text) == CmdWhich::Ics && offset_of(command_named(text)) == Some(232u8),
        upper_text(trim(text)) == seq!['I', 'C', 'T'] ==> command_named(text) == CmdWhich::Ict && offset_of(command_named(text)) == Some(233u8),
        upper_text(trim(text)) == seq!['I', 'C', 'A'] ==> command_named(text) == CmdWhich::Ica && offset_of(command_named(text)) == Some(239u8),
        upper_text(trim(text)) == seq!['T', 'R', 'M'] ==> command_named(text) == CmdWhich::Trm && offset_of(command_named(text)) == Some(240u8),
        upper_text(trim(text)) == seq!['R', 'E', 'F'] ==> command_named(text) == CmdWhich::Ref && offset_of(command_named(text)) == Some(246u8),
        upper_text(trim(text)) == seq!['T', 'R', 'T'] ==> command_named(text) == CmdWhich::Trt && offset_of(command_named(text)) == Some(247u8),
        upper_text(trim(text)) == seq!['T', 'R', 'L'] ==> command_named(text) == CmdWhich::Trl && offset_of(command_named(text)) == Some(248u8),
        upper_text(trim(text)) == seq!['T', 'R', 'G'] ==> command_named(text) == CmdWhich::Trg && offset_of(command_named(text)) == Some(249u8),
        upper_text(trim(text)) == seq!['W', 'E', 'N'] ==> command_named(text) == CmdWhich::Wen && offset_of(command_named(text)) == Some(250u8),
        upper_text(trim(text)) == seq!['E', 'R', 'C'] ==> command_named(text) == CmdWhich::Erc && offset_of(command_named(text)) == Some(251u8),
        upper_text(trim(text)) == seq!['S', 'B', 'D'] ==> command_named(text) == CmdWhich::Sbd && offset_of(command_named(text)) == Some(252u8),
        upper_text(trim(text)) == seq!['I', 'D', 'N'] ==> command_named(text) == CmdWhich::Idn && offset_of(command_named(text)) == Some(254u8),
        upper_text(trim(text)) == seq!['S', 'T', 'R'] ==> command_named(text) == CmdWhich::Str && offset_of(command_named(text)) == Some(255u8),
{
    if upper_text(trim(text)) == seq!['V', 'A', 'L'] {
        lemma_lookup_finds_keyword(CmdWhich::Val);
    }
    if upper_text(trim(text)) == seq!['N', 'O', 'P'] {
        lemma_lookup_finds_keyword(CmdWhich::Nop);
    }
    if upper_text(trim(text)) == seq!['P', 'I', 'O'] {
        lemma_lookup_finds_keyword(CmdWhich::Pio);
    }
    if upper_text(trim(text)) == seq!['D', 'I', 'R'] {
        lemma_lookup_finds_keyword(CmdWhich::Dir);
    }
    if upper_text(trim(text)) == seq!['R', 'A', 'W'] {
        lemma_lookup_finds_keyword(CmdWhich::Raw);
    }
    if upper_text(trim(text)) == seq!['D', 'S', 'P'] {
        lemma_lookup_finds_keyword(CmdWhich::Dsp);
    }
    if upper_text(trim(text)) == seq!['A', 'L', 'L'] {
        lemma_lookup_finds_keyword(CmdWhich::All);
    }
    if upper_text(trim(text)) == seq!['O', 'F', 'S'] {
        lemma_lookup_finds_keyword(CmdWhich::Ofs);
    }
    if upper_text(trim(text)) == seq!['O', 'P', 'T'] {
        lemma_lookup_finds_keyword(CmdWhich::Opt);
    }
    if upper_text(trim(text)) == seq!['S', 'C', 'L'] {
        lemma_lookup_finds_keyword(CmdWhich::Scl);
    }
    if upper_text(trim(text)) == seq!['I', 'C', 'B'] {
        lemma_lookup_finds_keyword(CmdWhich::Icb);
    }
    if upper_text(trim(text)) == seq!['I', 'C', 'W'] {
        lemma_lookup_finds_keyword(CmdWhich::Icw);
    }
    if upper_text(trim(text)) == seq!['I', 'C', 'S'] {
        lemma_lookup_finds_keyword(CmdWhich::Ics);
    }
    if upper_text(trim(text)) == seq!['I', 'C', 'T'] {
        lemma_lookup_finds_keyword(CmdWhich::Ict);
    }
    if upper_text(trim(text)) == seq!['I', 'C', 'A'] {
        lemma_lookup_finds_keyword(CmdWhich::Ica);
    }
    if upper_text(trim(text)) == seq!['T', 'R', 'M'] {
        lemma_lookup_finds_keyword(CmdWhich::Trm);
    }
    if upper_text(trim(text)) == seq!['R', 'E', 'F'] {
        lemma_lookup_finds_keyword(CmdWhich::Ref);
    }
    if upper_text(trim(text)) == seq!['T', 'R', 'T'] {
        lemma_lookup_finds_keyword(CmdWhich::Trt);
    }
    if upper_text(trim(text)) == seq!['T', 'R', 'L'] {
        lemma_lookup_finds_keyword(CmdWhich::Trl);
    }
    if upper_text(trim(text)) == seq!['T', 'R', 'G'] {
        lemma_lookup_finds_keyword(CmdWhich::Trg);
    }
    if upper_text(trim(text)) == seq!['W', 'E', 'N'] {
        lemma_lookup_finds_keyword(CmdWhich::Wen);
    }
    if upper_text(trim(text)) == seq!['E', 'R', 'C'] {
        lemma_lookup_finds_keyword(CmdWhich::Erc);
    }
    if upper_text(trim(text)) == seq!['S', 'B', 'D'] {
        lemma_lookup_finds_keyword(CmdWhich::Sbd);
    }
    if upper_text(trim(text)) == seq!['I', 'D', 'N'] {
        lemma_lookup_finds_keyword(CmdWhich::Idn);
    }
    if upper_text(trim(text)) == seq!['S', 'T', 'R'] {
        lemma_lookup_finds_keyword(CmdWhich::Str);
    }
}

} // verus!
