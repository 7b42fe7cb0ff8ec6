//! Command parser of the EDL electronic load: prompt codes, operating modes,
//! token extraction over the bytes of the command line, and the decisions
//! of the get and set dispatch.
//!
//! Values that the protocol carries as floating point are produced and
//! stored by the caller; the decisions here say which value goes where.

use vstd::prelude::*;

use crate::protocol::{find_byte, first_index, parse_unsigned, parse_u8_radix, xor_checksum, xor_prefix};
use crate::text::{ascii_upper, chars_of, latin1, parse_i32_str, parse_i32_text, push_char, same_chars, upper_text};

verus! {

/// Answers of the prompt.
#[derive(Debug, Clone, Copy, PartialEq, Eq, Structural)]
pub enum PromptCode {
    NoErr,
    ParamErr,
    BusyErr,
    LockedErr,
    CheckLimitErr,
    CheckSumErr,
    SyntaxErr,
}

/// The text of a prompt code.
pub open spec fn prompt_text(p: PromptCode) -> Seq<char> {
    match p {
        PromptCode::NoErr => seq!['N', 'o', 'E', 'r', 'r'],
        PromptCode::ParamErr => seq!['P', 'a', 'r', 'a', 'm', 'E', 'r', 'r'],
        PromptCode::BusyErr => seq!['B', 'u', 's', 'y', 'E', 'r', 'r'],
        PromptCode::LockedErr => seq!['L', 'o', 'c', 'k', 'e', 'd', 'E', 'r', 'r'],
        PromptCode::CheckLimitErr => seq!['C', 'h', 'e', 'c', 'k', 'L', 'i', 'm', 'i', 't', 'E', 'r', 'r'],
        PromptCode::CheckSumErr => seq!['C', 'h', 'e', 'c', 'k', 'S', 'u', 'm', 'E', 'r', 'r'],
        PromptCode::SyntaxErr => seq!['S', 'y', 'n', 't', 'a', 'x', 'E', 'r', 'r'],
    }
}

impl PromptCode {
    /// The name of the code, as sent to the host.
    pub fn as_str(self) -> (r: &'static str)
        ensures
            r@ == prompt_text(self),
    {
        match self {
            PromptCode::NoErr => {
                proof {
                    reveal_strlit("NoErr");
                }
                "NoErr"
            },
            PromptCode::ParamErr => {
                proof {
                    reveal_strlit("ParamErr");
                }
                "ParamErr"
            },
            PromptCode::BusyErr => {
                proof {
                    reveal_strlit("BusyErr");
                }
                "BusyErr"
            },
            PromptCode::LockedErr => {
                proof {
                    reveal_strlit("LockedErr");
                }
                "LockedErr"
            },
            PromptCode::CheckLimitErr => {
                proof {
                    reveal_strlit("CheckLimitErr");
                }
                "CheckLimitErr"
            },
            PromptCode::CheckSumErr => {
                proof {
                    reveal_strlit("CheckSumErr");
                }
                "CheckSumErr"
            },
            PromptCode::SyntaxErr => {
                proof {
                    reveal_strlit("SyntaxErr");
                }
                "SyntaxErr"
            },
        }
    }
}

/// Operating mode of the load.
#[derive(Debug, Clone, Copy, PartialEq, Eq, Structural)]
pub enum Mode {
    OutputOff,
    RhiVolt,
    RloVolt,
    IhiVolt,
    IloVolt,
    PhiVolt,
    PloVolt,
    Unknown(u8),
}

/// The mode with number `v`.
pub open spec fn mode_of(v: u8) -> Mode {
    if v == 0 {
        Mode::OutputOff
    } else if v == 1 {
        Mode::RhiVolt
    } else if v == 2 {
        Mode::RloVolt
    } else if v == 3 {
        Mode::IhiVolt
    } else if v == 4 {
        Mode::IloVolt
    } else if v == 5 {
        Mode::PhiVolt
    } else if v == 6 {
        Mode::PloVolt
    } else {
        Mode::Unknown(v)
    }
}

/// The number of a mode.
pub open spec fn mode_number(m: Mode) -> i32 {
    match m {
        Mode::OutputOff => 0,
        Mode::RhiVolt => 1,
        Mode::RloVolt => 2,
        Mode::IhiVolt => 3,
        Mode::IloVolt => 4,
        Mode::PhiVolt => 5,
        Mode::PloVolt => 6,
        Mode::Unknown(v) => v as i32,
    }
}

impl From<u8> for Mode {
    fn from(value: u8) -> (r: Self) {
        match value {
            0 => Self::OutputOff,
            1 => Self::RhiVolt,
            2 => Self::RloVolt,
            3 => Self::IhiVolt,
            4 => Self::IloVolt,
            5 => Self::PhiVolt,
            6 => Self::PloVolt,
            other => Self::Unknown(other),
        }
    }
}

impl vstd::std_specs::convert::FromSpecImpl<u8> for Mode {
    open spec fn obeys_from_spec() -> bool {
        true
    }

    open spec fn from_spec(value: u8) -> Mode {
        mode_of(value)
    }
}

/// Panel edit state.
#[derive(Debug, Clone, Copy, PartialEq, Eq, Structural)]
pub enum Modify {
    Normal,
    Unknown(u8),
}

/// The edit state with number `v`.
pub open spec fn modify_of(v: u8) -> Modify {
    if v == 0 {
        Modify::Normal
    } else {
        Modify::Unknown(v)
    }
}

/// The number of an edit state.
pub open spec fn modify_number(m: Modify) -> i32 {
    match m {
        Modify::Normal => 0,
        Modify::Unknown(v) => v as i32,
    }
}

impl From<u8> for Modify {
    fn from(value: u8) -> (r: Self) {
        match value {
            0 => Self::Normal,
            other => Self::Unknown(other),
        }
    }
}

impl vstd::std_specs::convert::FromSpecImpl<u8> for Modify {
    open spec fn obeys_from_spec() -> bool {
        true
    }

    open spec fn from_spec(value: u8) -> Modify {
        modify_of(value)
    }
}

/// A command found in the command table, by position; or none.
#[derive(Debug, Clone, Copy, PartialEq, Eq, Structural)]
pub enum CmdWhich {
    Invalid,
    Index(usize),
}

/// Parser state of the EDL: the command line, the read position, the last
/// extracted token, the parameter as integer and byte, the command tables,
/// and the settings that the commands read and write.
#[derive(Debug, Clone)]
pub struct EdlParser {
    pub ser_inp_str: String,
    pub ser_inp_ptr: usize,
    pub param_str: String,
    pub digits: u8,
    pub nachkomma: u8,
    pub current_ch: i32,
    pub slave_ch: i32,
    pub sub_ch: i32,
    pub param_int: i32,
    pub param_byte: u8,
    pub verbose: bool,
    pub busy_flag: bool,
    pub changed_flag: bool,
    pub output_enable: bool,
    pub mpxena: bool,
    pub low_volt: bool,
    pub shunt_select: u8,
    pub shunt_range: u8,
    pub mode_select: Mode,
    pub modify: Modify,
    pub pw_on_time: i32,
    pub pw_off_time: i32,
    pub i_percent: i32,
    pub ad16_temp_u_on: u16,
    pub ad16_temp_i_on: u16,
    pub dac_temp_on: u16,
    pub dac_temp_off: u16,
    pub dac_temp: u16,
    pub daci_offsets: [i32; 4],
    pub adcu_offsets: [i32; 2],
    pub adci_offsets: [i32; 4],
    pub trig_mask: u8,
    pub ee_trig_mask: u8,
    pub err_count: i32,
    pub ee_ser_baud_reg: u8,
    pub ee_unlocked: bool,
    pub inc_rast: i32,
    pub vers1_str: String,
    pub activity_timer: u8,
    pub led_activity: bool,
    pub cmd_str_arr: Vec<&'static str>,
    pub cmd2_sub_ch_arr: Vec<u8>,
}

impl Default for EdlParser {
    fn default() -> (r: Self)
        ensures
            r.ser_inp_str@ == Seq::<char>::empty(),
            r.ser_inp_ptr == 0,
            r.param_str@ == Seq::<char>::empty(),
            r.digits == 1,
            r.nachkomma == 4,
            r.current_ch == 0,
            r.slave_ch == 0,
            r.sub_ch == 0,
            r.param_int == 0,
            r.param_byte == 0,
            !r.verbose,
            !r.busy_flag,
            !r.changed_flag,
            !r.output_enable,
            !r.mpxena,
            !r.low_volt,
            r.shunt_select == 0,
            r.shunt_range == 0,
            r.mode_select == Mode::OutputOff,
            r.modify == Modify::Normal,
            r.pw_on_time == 0,
            r.pw_off_time == 0,
            r.i_percent == 0,
            r.ad16_temp_u_on == 0,
            r.ad16_temp_i_on == 0,
            r.dac_temp_on == 0,
            r.dac_temp_off == 0,
            r.dac_temp == 0,
            r.daci_offsets@ == Seq::new(4, |i: int| 0i32),
            r.adcu_offsets@ == Seq::new(2, |i: int| 0i32),
            r.adci_offsets@ == Seq::new(4, |i: int| 0i32),
            r.trig_mask == 0,
            r.ee_trig_mask == 0,
            r.err_count == 0,
            r.ee_ser_baud_reg == 0,
            !r.ee_unlocked,
            r.inc_rast == 0,
            r.vers1_str@ == Seq::<char>::empty(),
            r.activity_timer == 0,
            !r.led_activity,
            r.cmd_str_arr@ == Seq::<&'static str>::empty(),
            r.cmd2_sub_ch_arr@ == Seq::<u8>::empty(),
    {
        let r = EdlParser {
            ser_inp_str: String::new(),
            ser_inp_ptr: 0,
            param_str: String::new(),
            digits: 1,
            nachkomma: 4,
            current_ch: 0,
            slave_ch: 0,
            sub_ch: 0,
            param_int: 0,
            param_byte: 0,
            verbose: false,
            busy_flag: false,
            changed_flag: false,
            output_enable: false,
            mpxena: false,
            low_volt: false,
            shunt_select: 0,
            shunt_range: 0,
            mode_select: Mode::OutputOff,
            modify: Modify::Normal,
            pw_on_time: 0,
            pw_off_time: 0,
            i_percent: 0,
            ad16_temp_u_on: 0,
            ad16_temp_i_on: 0,
            dac_temp_on: 0,
            dac_temp_off: 0,
            dac_temp: 0,
            daci_offsets: [0; 4],
            adcu_offsets: [0; 2],
            adci_offsets: [0; 4],
            trig_mask: 0,
            ee_trig_mask: 0,
            err_count: 0,
            ee_ser_baud_reg: 0,
            ee_unlocked: false,
            inc_rast: 0,
            vers1_str: String::new(),
            activity_timer: 0,
            led_activity: false,
            cmd_str_arr: Vec::new(),
            cmd2_sub_ch_arr: Vec::new(),
        };
        assert(r.daci_offsets@ =~= Seq::new(4, |i: int| 0i32));
        assert(r.adcu_offsets@ =~= Seq::new(2, |i: int| 0i32));
        assert(r.adci_offsets@ =~= Seq::new(4, |i: int| 0i32));
        r
    }
}

/// The bytes of the command line.
pub open spec fn line(c: EdlParser) -> Seq<u8> {
    vstd::utf8::encode_utf8(c.ser_inp_str@)
}

/// Whether a byte starts (and continues) a number token: `*` to `9` in code order.
pub open spec fn number_byte(b: u8) -> bool {
    42 <= b <= 57
}

/// Whether a token of the given kind goes on with byte `b`.
pub open spec fn byte_goes_on(number: bool, b: u8) -> bool {
    if number {
        number_byte(b)
    } else {
        b >= 65
    }
}

/// First position from `i` on that is not a space.
pub open spec fn skip_space_bytes(s: Seq<u8>, i: int) -> int
    decreases s.len() - i,
{
    if 0 <= i < s.len() && s[i] == 32 {
        skip_space_bytes(s, i + 1)
    } else {
        i
    }
}

/// End of a token of the given kind that starts at `i`.
pub open spec fn byte_token_end(s: Seq<u8>, i: int, number: bool) -> int
    decreases s.len() - i,
{
    if 0 <= i < s.len() && byte_goes_on(number, s[i]) {
        byte_token_end(s, i + 1, number)
    } else {
        i
    }
}

/// The token that extraction finds from position `p` on (a position beyond
/// the line counts as its end): whether it is a number, where it begins and
/// where it ends.
pub open spec fn extract_bytes(s: Seq<u8>, p: int) -> (bool, int, int) {
    let p0 = if p > s.len() { s.len() as int } else { p };
    let b = skip_space_bytes(s, p0);
    if b >= s.len() {
        (false, b, b)
    } else {
        let number = number_byte(s[b]);
        (number, b, byte_token_end(s, b, number))
    }
}

/// The extracted token at the read position, as text.
pub open spec fn token_text(c: EdlParser) -> Seq<char> {
    let (n, b, e) = extract_bytes(line(c), c.ser_inp_ptr as int);
    latin1(line(c).subrange(b, e))
}

proof fn lemma_skip_space_bytes(s: Seq<u8>, i: int)
    requires
        0 <= i <= s.len(),
    ensures
        i <= skip_space_bytes(s, i) <= s.len(),
    decreases s.len() - i,
{
    if i < s.len() && s[i] == 32 {
        lemma_skip_space_bytes(s, i + 1);
    }
}

proof fn lemma_byte_token_end(s: Seq<u8>, i: int, number: bool)
    requires
        0 <= i <= s.len(),
    ensures
        i <= byte_token_end(s, i, number) <= s.len(),
    decreases s.len() - i,
{
    if i < s.len() && byte_goes_on(number, s[i]) {
        lemma_byte_token_end(s, i + 1, number);
    }
}

/// The first entry of the command table that names `t`.
pub open spec fn table_index(table: Seq<&'static str>, t: Seq<char>, i: int) -> CmdWhich
    decreases table.len() - i,
{
    if i < 0 || i >= table.len() {
        CmdWhich::Invalid
    } else if table[i]@ == t {
        CmdWhich::Index(i as usize)
    } else {
        table_index(table, t, i + 1)
    }
}

fn goes_on(b: u8, number: bool) -> (r: bool)
    ensures
        r == byte_goes_on(number, b),
{
    if number {
        42 <= b && b <= 57
    } else {
        b >= 65
    }
}

impl EdlParser {
    fn line_bytes(&self) -> (b: &[u8])
        ensures
            b@ == line(*self),
    {
        self.ser_inp_str.as_str().as_bytes()
    }

    /// Extracts the next token from the read position over the bytes of the
    /// line: leading spaces are skipped; a token that starts with a byte from
    /// `*` to `9` is a number and runs over such bytes, any other token runs
    /// over the bytes from `A` on. Each byte of the token becomes one
    /// character of `param_str`; the read position moves behind the token.
    pub fn parse_extract(&mut self) -> (is_param: bool)
        ensures
            is_param == extract_bytes(line(*old(self)), old(self).ser_inp_ptr as int).0,
            final(self).param_str@ == token_text(*old(self)),
            final(self).ser_inp_ptr as int == extract_bytes(line(*old(self)), old(self).ser_inp_ptr as int).2,
            *final(self) == (EdlParser {
                param_str: final(self).param_str,
                ser_inp_ptr: final(self).ser_inp_ptr,
                ..*old(self)
            }),
    {
        let ghost s = line(*self);
        let bytes = self.line_bytes();
        let n = bytes.len();
        let mut ptr = if self.ser_inp_ptr < n { self.ser_inp_ptr } else { n };
        proof {
            lemma_skip_space_bytes(s, ptr as int);
        }
        while ptr < n && bytes[ptr] == 32
            invariant
                ptr <= n == s.len(),
                bytes@ == s,
                skip_space_bytes(s, (if old(self).ser_inp_ptr > s.len() { s.len() as int } else { old(self).ser_inp_ptr as int })) == skip_space_bytes(s, ptr as int),
            decreases n - ptr,
        {
            ptr = ptr + 1;
        }
        let mut text = String::new();
        if ptr >= n {
            self.param_str = text;
            self.ser_inp_ptr = ptr;
            assert(latin1(s.subrange(ptr as int, ptr as int)) =~= Seq::<char>::empty());
            return false;
        }
        let begin = ptr;
        let is_param = 42 <= bytes[ptr] && bytes[ptr] <= 57;
        proof {
            lemma_byte_token_end(s, ptr as int, is_param);
        }
        while ptr < n && goes_on(bytes[ptr], is_param)
            invariant
                begin <= ptr <= n == s.len(),
                bytes@ == s,
                byte_token_end(s, begin as int, is_param) == byte_token_end(s, ptr as int, is_param),
                text@ == latin1(s.subrange(begin as int, ptr as int)),
            decreases n - ptr,
        {
            push_char(&mut text, bytes[ptr] as char);
            ptr = ptr + 1;
            assert(text@ =~= latin1(s.subrange(begin as int, ptr as int)));
        }
        self.param_str = text;
        self.ser_inp_ptr = ptr;
        is_param
    }

    /// Upper-cases the extracted token and looks it up in the command table;
    /// the first entry equal to it gives the command's position.
    pub fn cmd_to_index(&mut self) -> (r: CmdWhich)
        ensures
            final(self).param_str@ == upper_text(old(self).param_str@),
            r == table_index(old(self).cmd_str_arr@, final(self).param_str@, 0),
            *final(self) == (EdlParser { param_str: final(self).param_str, ..*old(self) }),
    {
        self.param_str = ascii_upper(self.param_str.as_str());
        let wanted = chars_of(self.param_str.as_str());
        let ghost mid = *self;
        assert(mid == (EdlParser { param_str: mid.param_str, ..*old(self) }));
        let mut i: usize = 0;
        while i < self.cmd_str_arr.len()
            invariant
                *self == mid,
                mid == (EdlParser { param_str: mid.param_str, ..*old(self) }),
                mid.param_str@ == upper_text(old(self).param_str@),
                i <= self.cmd_str_arr@.len(),
                wanted@ == self.param_str@,
                table_index(self.cmd_str_arr@, wanted@, 0) == table_index(self.cmd_str_arr@, wanted@, i as int),
            decreases self.cmd_str_arr.len() - i,
        {
            let cs = chars_of(self.cmd_str_arr[i]);
            if same_chars(&wanted, &cs) {
                return CmdWhich::Index(i);
            }
            i = i + 1;
        }
        CmdWhich::Invalid
    }

    /// The number of the operating mode.
    pub fn mode_to_i32(&self) -> (r: i32)
        ensures
            r == mode_number(self.mode_select),
    {
        match self.mode_select {
            Mode::OutputOff => 0,
            Mode::RhiVolt => 1,
            Mode::RloVolt => 2,
            Mode::IhiVolt => 3,
            Mode::IloVolt => 4,
            Mode::PhiVolt => 5,
            Mode::PloVolt => 6,
            Mode::Unknown(value) => value as i32,
        }
    }

    /// The number of the panel edit state.
    pub fn modify_to_i32(&self) -> (r: i32)
        ensures
            r == modify_number(self.modify),
    {
        match self.modify {
            Modify::Normal => 0,
            Modify::Unknown(value) => value as i32,
        }
    }
}

/// Where the floating-point value of an answer comes from; the caller
/// computes it from its own measured and set values.
#[derive(Debug, Clone, Copy, PartialEq, Eq, Structural)]
pub enum EdlValue {
    /// 1 when the output is enabled, else 0.
    OutputEnable,
    DcAmp,
    /// The set current in mA.
    DcAmpMilli,
    DcWatt,
    DcVolt,
    DcOhm,
    Ah,
    Wh,
    /// The measured voltage in the on phase (`true`) or the off phase.
    Voltage(bool),
    /// The measured current in the on phase (`true`) or the off phase.
    Current(bool),
    /// The measured current in mA in the on phase (`true`) or the off phase.
    CurrentMilli(bool),
    Ptot,
    /// The modulation depth in percent.
    AmpModPercent,
    /// Option value `n`.
    OptionValue(u8),
    /// Zero.
    Zero,
    /// Current DAC scale factor `n`.
    DaciScale(u8),
    /// Voltage ADC scale factor in the low (`true`) or the high range.
    AdcUScale(bool),
    /// Current ADC scale factor `n`.
    AdciScale(u8),
    Temperature,
    TemperatureExtern,
}

/// One output line of the parser.
#[derive(Debug, Clone)]
pub enum EdlOutput {
    /// `sub_ch=value` with `nachkomma` decimals.
    Value { sub_ch: i32, value: EdlValue, nachkomma: u8 },
    /// `sub_ch=value`.
    Int { sub_ch: i32, value: i32 },
    /// The name of a prompt code.
    Prompt(PromptCode),
    /// The received line, passed on.
    Echo(String),
    /// A text behind the channel prefix `current_ch:`.
    Version(String),
}

/// An output line with its texts as character sequences.
pub enum OutputView {
    Value { sub_ch: i32, value: EdlValue, nachkomma: u8 },
    Int { sub_ch: i32, value: i32 },
    Prompt(PromptCode),
    Echo(Seq<char>),
    Version(Seq<char>),
}

impl EdlOutput {
    pub open spec fn view_of(self) -> OutputView {
        match self {
            EdlOutput::Value { sub_ch, value, nachkomma } => OutputView::Value { sub_ch, value, nachkomma },
            EdlOutput::Int { sub_ch, value } => OutputView::Int { sub_ch, value },
            EdlOutput::Prompt(p) => OutputView::Prompt(p),
            EdlOutput::Echo(t) => OutputView::Echo(t@),
            EdlOutput::Version(t) => OutputView::Version(t@),
        }
    }
}

/// The views of a list of output lines.
pub open spec fn output_views(a: Seq<EdlOutput>) -> Seq<OutputView> {
    Seq::new(a.len(), |i: int| a[i].view_of())
}

/// What comes after the header of a line.
#[derive(Debug, Clone, Copy, PartialEq, Eq, Structural)]
pub enum EdlNext {
    /// Nothing more: the outputs are complete.
    Stop,
    /// A request for `sub_ch`.
    Get,
    /// A setting for `sub_ch`; its number is in `param_str`.
    Assign,
    /// The sub-channel number and the command's offset add up beyond the
    /// range of `i32`: the line cannot be served.
    OutOfRange,
}

/// The parser fields that reading a line changes, the outputs so far and
/// what comes next.
pub struct EdlRoute {
    pub outputs: Seq<OutputView>,
    pub next: EdlNext,
    pub ptr: int,
    pub token: Seq<char>,
    pub current_ch: i32,
    pub verbose: bool,
    pub activity_timer: u8,
    pub led_activity: bool,
    pub sub_ch: i32,
}

/// The fields of `c` that reading a line changes, as they are now.
pub open spec fn current(c: EdlParser) -> EdlRoute {
    EdlRoute {
        outputs: Seq::empty(),
        next: EdlNext::Stop,
        ptr: c.ser_inp_ptr as int,
        token: c.param_str@,
        current_ch: c.current_ch,
        verbose: c.verbose,
        activity_timer: c.activity_timer,
        led_activity: c.led_activity,
        sub_ch: c.sub_ch,
    }
}

/// `n` holds the fields of `r` and everything else of `c`.
pub open spec fn holds(c: EdlParser, n: EdlParser, r: EdlRoute) -> bool {
    &&& n.ser_inp_ptr as int == r.ptr
    &&& n.param_str@ == r.token
    &&& n.current_ch == r.current_ch
    &&& n.verbose == r.verbose
    &&& n.activity_timer == r.activity_timer
    &&& n.led_activity == r.led_activity
    &&& n.sub_ch == r.sub_ch
    &&& n == (EdlParser {
        ser_inp_ptr: n.ser_inp_ptr,
        param_str: n.param_str,
        current_ch: n.current_ch,
        verbose: n.verbose,
        activity_timer: n.activity_timer,
        led_activity: n.led_activity,
        sub_ch: n.sub_ch,
        ..c
    })
}

/// Whether byte `b` occurs in `s`.
pub open spec fn has_byte(s: Seq<u8>, b: u8) -> bool {
    exists|i: int| 0 <= i < s.len() && s[i] == b
}

/// ASCII white space as `str::trim` removes it.
pub open spec fn ascii_space(b: u8) -> bool {
    (9 <= b <= 13) || b == 32
}

/// The checksum digits behind a `$` at `pos`: the two bytes after it must be
/// ASCII; surrounding white space is trimmed and the rest read as a
/// hexadecimal byte.
pub open spec fn checksum_value(s: Seq<u8>, pos: int) -> Option<u8> {
    if pos + 3 <= s.len() && s[pos + 1] < 128 && s[pos + 2] < 128 {
        let a = s[pos + 1];
        let b = s[pos + 2];
        let t = if ascii_space(a) && ascii_space(b) {
            Seq::<u8>::empty()
        } else if ascii_space(a) {
            seq![b]
        } else if ascii_space(b) {
            seq![a]
        } else {
            seq![a, b]
        };
        parse_unsigned(t, 16, true)
    } else {
        None
    }
}

/// Whether the `$XX` checksum of a line, if there is one, fails.
pub open spec fn checksum_fails(s: Seq<u8>) -> bool {
    match first_index(s, 36u8) {
        None => false,
        Some(pos) => match checksum_value(s, pos) {
            None => true,
            Some(v) => xor_prefix(s, pos as nat) != v,
        },
    }
}

/// Appends a prompt and stops.
pub open spec fn stop_with(st: EdlRoute, p: PromptCode) -> EdlRoute {
    EdlRoute { outputs: st.outputs.push(OutputView::Prompt(p)), next: EdlNext::Stop, ..st }
}

/// The sub-channel from the number token plus `offset` (a sum beyond the
/// range of `i32` cannot be served); then a request or the parameter behind
/// the first `=` of a setting.
#[verifier::opaque]
pub open spec fn finish_stage(s: Seq<u8>, st: EdlRoute, offset: int) -> EdlRoute {
    match parse_i32_text(st.token) {
        None => stop_with(st, PromptCode::ParamErr),
        Some(base) => if !(i32::MIN <= base + offset <= i32::MAX) {
            EdlRoute { next: EdlNext::OutOfRange, ..st }
        } else {
            let st2 = EdlRoute { sub_ch: (base + offset) as i32, ..st };
            if !has_byte(s, 61u8) {
                EdlRoute { next: EdlNext::Get, ..st2 }
            } else {
                let eq = first_index(s, 61u8)->0;
                let (n, b, e) = extract_bytes(s, eq + 1);
                let st3 = EdlRoute { ptr: e, token: latin1(s.subrange(b, e)), ..st2 };
                if !n {
                    stop_with(st3, PromptCode::ParamErr)
                } else {
                    EdlRoute { next: EdlNext::Assign, ..st3 }
                }
            }
        },
    }
}

/// The command stage: a number token counts from sub-channel 0; a word is
/// looked up in the command table and the number behind it counts from the
/// command's sub-channel.
#[verifier::opaque]
pub open spec fn command_stage(s: Seq<u8>, cmds: Seq<&'static str>, offsets: Seq<u8>, st: EdlRoute) -> EdlRoute {
    let (n, b, e) = extract_bytes(s, st.ptr);
    let token = latin1(s.subrange(b, e));
    if n {
        finish_stage(s, EdlRoute { ptr: e, token, ..st }, 0)
    } else {
        let upper = upper_text(token);
        match table_index(cmds, upper, 0) {
            CmdWhich::Invalid => stop_with(EdlRoute { ptr: e, token: upper, ..st }, PromptCode::SyntaxErr),
            CmdWhich::Index(i) => if i >= offsets.len() {
                stop_with(EdlRoute { ptr: e, token: upper, ..st }, PromptCode::SyntaxErr)
            } else {
                let (n2, b2, e2) = extract_bytes(s, e);
                finish_stage(s, EdlRoute { ptr: e2, token: latin1(s.subrange(b2, e2)), ..st }, offsets[i as int] as int)
            },
        }
    }
}

/// Verbose answers and the checksum test, then the command stage.
#[verifier::opaque]
pub open spec fn check_stage(s: Seq<u8>, cmds: Seq<&'static str>, offsets: Seq<u8>, st: EdlRoute) -> EdlRoute {
    let st1 = EdlRoute { verbose: has_byte(s, 33u8) || has_byte(s, 63u8), ..st };
    if checksum_fails(s) {
        stop_with(st1, PromptCode::CheckSumErr)
    } else {
        command_stage(s, cmds, offsets, EdlRoute { activity_timer: 255, led_activity: false, ..st1 })
    }
}

/// What reading the header of a command line does.
///
/// An empty line gets the `NoErr` prompt and a line that starts with `#` is
/// passed on. A main channel `nn:` selects the current channel (when it is a
/// number); with `*` in front the line is passed on and processed as well,
/// and a line for another channel is only passed on. Then verbose mode, the
/// checksum, the command or number and the sub-channel follow; a line
/// without `=` is a request, one with `=` a setting with its number.
#[verifier::opaque]
pub open spec fn route_of(c: EdlParser) -> EdlRoute {
    let s = line(c);
    let st = current(c);
    if s.len() == 0 {
        stop_with(st, PromptCode::NoErr)
    } else if s[0] == 35 {
        EdlRoute { outputs: seq![OutputView::Echo(c.ser_inp_str@)], ..st }
    } else {
        line_stage(c)
    }
}

/// A line that is neither empty nor a result: main channel, then the checks
/// and the command.
/// The main channel `nn:` in front of a command: the parser fields after it.
#[verifier::opaque]
pub open spec fn channel_stage(c: EdlParser) -> EdlRoute {
    let s = line(c);
    let st = current(c);
    if has_byte(s, 58u8) {
        let (n, b, e) = extract_bytes(s, 0);
        let token = latin1(s.subrange(b, e));
        let after = if e < usize::MAX { e + 1 } else { e };
        if s[0] == 42 {
            EdlRoute { ptr: after, token, ..st }
        } else {
            match parse_i32_text(token) {
                Some(ch) => EdlRoute { ptr: after, token, current_ch: ch, ..st },
                None => EdlRoute { ptr: after, token, ..st },
            }
        }
    } else {
        EdlRoute { ptr: 0, ..st }
    }
}

/// A line that is neither empty nor a result: main channel, then the checks
/// and the command.
#[verifier::opaque]
pub open spec fn line_stage(c: EdlParser) -> EdlRoute {
    let s = line(c);
    let omni = s[0] == 42;
    let has_main = has_byte(s, 58u8);
    let echo = seq![OutputView::Echo(c.ser_inp_str@)];
    let st1 = channel_stage(c);
    if !omni && st1.current_ch != c.slave_ch && has_main {
        EdlRoute { outputs: echo, ..st1 }
    } else {
        let r = check_stage(s, c.cmd_str_arr@, c.cmd2_sub_ch_arr@, st1);
        EdlRoute { outputs: (if has_main && omni { echo } else { Seq::empty() }) + r.outputs, ..r }
    }
}

fn push_output(out: &mut Vec<EdlOutput>, o: EdlOutput)
    ensures
        output_views(final(out)@) == output_views(old(out)@).push(o.view_of()),
{
    out.push(o);
    assert(output_views(out@) =~= output_views(old(out)@).push(o.view_of()));
}

fn ascii_space_byte(b: u8) -> (r: bool)
    ensures
        r == ascii_space(b),
{
    (9 <= b && b <= 13) || b == 32
}

/// The outputs grew by `r`'s and the parser holds `r`'s fields.
pub open spec fn reached(c: EdlParser, n: EdlParser, out0: Seq<OutputView>, out: Seq<OutputView>, r: EdlRoute) -> bool {
    &&& out == out0 + r.outputs
    &&& holds(c, n, r)
}

impl EdlParser {
    fn has(&self, b: u8) -> (r: bool)
        ensures
            r == has_byte(line(*self), b),
    {
        crate::protocol::contains_byte(self.line_bytes(), b)
    }

    fn checksum_ok(&self) -> (r: bool)
        ensures
            r == !checksum_fails(line(*self)),
    {
        let s = self.line_bytes();
        match find_byte(s, 36) {
            None => true,
            Some(pos) => {
                if s.len() - pos < 3 || s[pos + 1] >= 128 || s[pos + 2] >= 128 {
                    return false;
                }
                let a = s[pos + 1];
                let b = s[pos + 2];
                let mut t: Vec<u8> = Vec::new();
                if !ascii_space_byte(a) {
                    t.push(a);
                }
                if !ascii_space_byte(b) {
                    t.push(b);
                }
                proof {
                    let expect = if ascii_space(a) && ascii_space(b) {
                        Seq::<u8>::empty()
                    } else if ascii_space(a) {
                        seq![b]
                    } else if ascii_space(b) {
                        seq![a]
                    } else {
                        seq![a, b]
                    };
                    assert(t@ =~= expect);
                }
                match parse_u8_radix(t.as_slice(), true) {
                    None => false,
                    Some(v) => xor_checksum(s, pos) == v,
                }
            },
        }
    }

    fn finish(&mut self, offset: i32, out: &mut Vec<EdlOutput>) -> (next: EdlNext)
        requires
            0 <= offset <= 255,
        ensures
            next == finish_stage(line(*old(self)), current(*old(self)), offset as int).next,
            reached(
                *old(self),
                *final(self),
                output_views(old(out)@),
                output_views(final(out)@),
                finish_stage(line(*old(self)), current(*old(self)), offset as int),
            ),
    {
        proof {
            reveal(finish_stage);
        }
        let ghost s = line(*self);
        match parse_i32_str(self.param_str.as_str()) {
            None => {
                push_output(out, EdlOutput::Prompt(PromptCode::ParamErr));
                assert(output_views(out@) =~= output_views(old(out)@) + seq![OutputView::Prompt(PromptCode::ParamErr)]);
                EdlNext::Stop
            },
            Some(base) => {
                match base.checked_add(offset) {
                    None => {
                        assert(output_views(out@) =~= output_views(old(out)@) + Seq::<OutputView>::empty());
                        return EdlNext::OutOfRange;
                    },
                    Some(v) => {
                        self.sub_ch = v;
                    },
                }
                if !self.has(61) {
                    assert(output_views(out@) =~= output_views(old(out)@) + Seq::<OutputView>::empty());
                    return EdlNext::Get;
                }
                let bytes = self.line_bytes();
                let pos = match find_byte(bytes, 61) {
                    Some(p) => p,
                    None => {
                        proof {
                            let i = choose|i: int| 0 <= i < s.len() && s[i] == 61u8;
                            assert(bytes@[i] == 61u8);
                        }
                        0
                    },
                };
                assert(first_index(s, 61u8) == Some(pos as int));
                if pos < bytes.len() {
                    self.ser_inp_ptr = pos + 1;
                }
                if !self.parse_extract() {
                    push_output(out, EdlOutput::Prompt(PromptCode::ParamErr));
                    assert(output_views(out@) =~= output_views(old(out)@) + seq![OutputView::Prompt(PromptCode::ParamErr)]);
                    EdlNext::Stop
                } else {
                    assert(output_views(out@) =~= output_views(old(out)@) + Seq::<OutputView>::empty());
                    EdlNext::Assign
                }
            },
        }
    }

    fn command(&mut self, out: &mut Vec<EdlOutput>) -> (next: EdlNext)
        requires
        ensures
            next == command_stage(line(*old(self)), old(self).cmd_str_arr@, old(self).cmd2_sub_ch_arr@, current(*old(self))).next,
            reached(
                *old(self),
                *final(self),
                output_views(old(out)@),
                output_views(final(out)@),
                command_stage(line(*old(self)), old(self).cmd_str_arr@, old(self).cmd2_sub_ch_arr@, current(*old(self))),
            ),
    {
        proof {
            reveal(command_stage);
        }
        if self.parse_extract() {
            self.finish(0, out)
        } else {
            match self.cmd_to_index() {
                CmdWhich::Invalid => {
                    push_output(out, EdlOutput::Prompt(PromptCode::SyntaxErr));
                    assert(output_views(out@) =~= output_views(old(out)@) + seq![OutputView::Prompt(PromptCode::SyntaxErr)]);
                    EdlNext::Stop
                },
                CmdWhich::Index(i) => {
                    if i >= self.cmd2_sub_ch_arr.len() {
                        push_output(out, EdlOutput::Prompt(PromptCode::SyntaxErr));
                        assert(output_views(out@) =~= output_views(old(out)@) + seq![OutputView::Prompt(PromptCode::SyntaxErr)]);
                        EdlNext::Stop
                    } else {
                        let offset = self.cmd2_sub_ch_arr[i] as i32;
                        self.parse_extract();
                        self.finish(offset, out)
                    }
                },
            }
        }
    }

    fn check(&mut self, out: &mut Vec<EdlOutput>) -> (next: EdlNext)
        requires
        ensures
            next == check_stage(line(*old(self)), old(self).cmd_str_arr@, old(self).cmd2_sub_ch_arr@, current(*old(self))).next,
            reached(
                *old(self),
                *final(self),
                output_views(old(out)@),
                output_views(final(out)@),
                check_stage(line(*old(self)), old(self).cmd_str_arr@, old(self).cmd2_sub_ch_arr@, current(*old(self))),
            ),
    {
        proof {
            reveal(check_stage);
        }
        self.verbose = self.has(33) || self.has(63);
        if !self.checksum_ok() {
            push_output(out, EdlOutput::Prompt(PromptCode::CheckSumErr));
            assert(output_views(out@) =~= output_views(old(out)@) + seq![OutputView::Prompt(PromptCode::CheckSumErr)]);
            return EdlNext::Stop;
        }
        self.activity_timer = 255;
        self.led_activity = false;
        self.command(out)
    }

    /// Reads the header of the command line (see [`route_of`]) and gives the
    /// outputs so far and what comes next.
    pub fn route(&mut self) -> (r: (Vec<EdlOutput>, EdlNext))
        ensures
            output_views(r.0@) == route_of(*old(self)).outputs,
            r.1 == route_of(*old(self)).next,
            holds(*old(self), *final(self), route_of(*old(self))),
    {
        proof {
            reveal(route_of);
        }
        let mut out: Vec<EdlOutput> = Vec::new();
        let bytes = self.line_bytes();
        if bytes.len() == 0 {
            push_output(&mut out, EdlOutput::Prompt(PromptCode::NoErr));
            assert(output_views(out@) =~= seq![OutputView::Prompt(PromptCode::NoErr)]);
            return (out, EdlNext::Stop);
        }
        let first = bytes[0];
        if first == 35 {
            push_output(&mut out, EdlOutput::Echo(self.ser_inp_str.clone()));
            assert(output_views(out@) =~= seq![OutputView::Echo(self.ser_inp_str@)]);
            return (out, EdlNext::Stop);
        }
        self.route_line(first)
    }

    fn read_channel(&mut self, omni: bool, has_main: bool, out: &mut Vec<EdlOutput>)
        requires
            line(*old(self)).len() > 0,
            omni == (line(*old(self))[0] == 42),
            has_main == has_byte(line(*old(self)), 58u8),
            old(out)@.len() == 0,
        ensures
            holds(*old(self), *final(self), channel_stage(*old(self))),
            channel_stage(*old(self)).outputs == Seq::<OutputView>::empty(),
            channel_stage(*old(self)).next == EdlNext::Stop,
            channel_stage(*old(self)).sub_ch == old(self).sub_ch,
            output_views(final(out)@) == (if has_main && omni {
                seq![OutputView::Echo(old(self).ser_inp_str@)]
            } else {
                Seq::<OutputView>::empty()
            }),
    {
        proof {
            reveal(channel_stage);
        }
        self.ser_inp_ptr = 0;
        if has_main {
            self.parse_extract();
            self.ser_inp_ptr = self.ser_inp_ptr.saturating_add(1);
            if omni {
                push_output(out, EdlOutput::Echo(self.ser_inp_str.clone()));
                assert(output_views(out@) =~= seq![OutputView::Echo(self.ser_inp_str@)]);
            } else {
                match parse_i32_str(self.param_str.as_str()) {
                    Some(ch) => {
                        self.current_ch = ch;
                    },
                    None => {},
                }
                assert(output_views(out@) =~= Seq::<OutputView>::empty());
            }
        } else {
            assert(output_views(out@) =~= Seq::<OutputView>::empty());
        }
    }

    /// The line after its first byte (see [`line_stage`]).
    fn route_line(&mut self, first: u8) -> (r: (Vec<EdlOutput>, EdlNext))
        requires
            line(*old(self)).len() > 0,
            first == line(*old(self))[0],
            first != 35,
        ensures
            output_views(r.0@) == line_stage(*old(self)).outputs,
            r.1 == line_stage(*old(self)).next,
            holds(*old(self), *final(self), line_stage(*old(self))),
    {
        proof {
            reveal(line_stage);
        }
        let mut out: Vec<EdlOutput> = Vec::new();
        let omni = first == 42;
        let has_main = self.has(58);
        self.read_channel(omni, has_main, &mut out);
        proof {
            let st1 = channel_stage(*old(self));
            assert(current(*self).token == st1.token);
            assert(current(*self) == st1);
            assert(line(*self) == line(*old(self)));
        }
        if !omni && self.current_ch != self.slave_ch && has_main {
            push_output(&mut out, EdlOutput::Echo(self.ser_inp_str.clone()));
            assert(output_views(out@) =~= seq![OutputView::Echo(self.ser_inp_str@)]);
            return (out, EdlNext::Stop);
        }
        let ghost prefix = output_views(out@);
        assert(prefix =~= (if has_main && omni { seq![OutputView::Echo(self.ser_inp_str@)] } else { Seq::<OutputView>::empty() }));
        let next = self.check(&mut out);
        (out, next)
    }
}

/// What a request does: its outputs, the floating-point parameter (none:
/// it keeps its value), and the fields it changes.
pub struct EdlGet {
    pub outputs: Seq<OutputView>,
    pub param: Option<EdlValue>,
    pub param_int: i32,
    pub nachkomma: u8,
    pub sub_ch: i32,
}

/// A floating-point answer for the current sub-channel with `n` decimals.
pub open spec fn value_line(c: EdlParser, v: EdlValue, n: u8) -> EdlGet {
    EdlGet {
        outputs: seq![OutputView::Value { sub_ch: c.sub_ch, value: v, nachkomma: n }],
        param: Some(v),
        param_int: c.param_int,
        nachkomma: n,
        sub_ch: c.sub_ch,
    }
}

/// An integer answer for the current sub-channel.
pub open spec fn int_line(c: EdlParser, v: i32) -> EdlGet {
    EdlGet {
        outputs: seq![OutputView::Int { sub_ch: c.sub_ch, value: v }],
        param: None,
        param_int: v,
        nachkomma: 4,
        sub_ch: c.sub_ch,
    }
}

/// A fixed answer that leaves the parameter as it is.
pub open spec fn plain_line(c: EdlParser, o: OutputView) -> EdlGet {
    EdlGet { outputs: seq![o], param: None, param_int: c.param_int, nachkomma: 4, sub_ch: c.sub_ch }
}

/// `a - b`, or 0 below 0.
pub open spec fn sat_sub(a: u8, b: u8) -> u8 {
    if a >= b { (a - b) as u8 } else { 0 }
}

/// `a + b`, or 255 above 255.
pub open spec fn sat_add(a: u8, b: u8) -> u8 {
    if a + b <= 255 { (a + b) as u8 } else { 255 }
}

/// What the get dispatch answers for `c.sub_ch`.
///
/// Set and measured values are floating point with as many decimals as the
/// shunt range gives, counters and raw converter words are integers; 99
/// reports both phases of voltage and current; 250 and 255 answer `NoErr`,
/// 253 echoes the line and 254 gives the version; any other sub-channel is
/// a parameter error.
pub open spec fn get_view(c: EdlParser) -> EdlGet {
    let k = c.sub_ch;
    let sh = c.shunt_select;
    if k == 0 {
        value_line(c, EdlValue::OutputEnable, 4)
    } else if k == 1 {
        value_line(c, EdlValue::DcAmp, sat_sub(7, sh))
    } else if k == 2 {
        value_line(c, EdlValue::DcAmpMilli, 2)
    } else if k == 3 {
        value_line(c, EdlValue::DcWatt, 2)
    } else if k == 4 {
        value_line(c, EdlValue::DcVolt, 2)
    } else if k == 5 {
        value_line(c, EdlValue::DcOhm, sat_add(1, sh))
    } else if k == 7 {
        value_line(c, EdlValue::Ah, 4)
    } else if k == 8 {
        value_line(c, EdlValue::Wh, 4)
    } else if k == 9 {
        int_line(c, sh as i32)
    } else if k == 10 {
        value_line(c, EdlValue::Voltage(true), 4)
    } else if k == 11 {
        value_line(c, EdlValue::Current(true), sat_sub(8, sh))
    } else if k == 12 {
        value_line(c, EdlValue::CurrentMilli(true), 2)
    } else if k == 15 {
        value_line(c, EdlValue::Voltage(false), 4)
    } else if k == 16 {
        value_line(c, EdlValue::Current(false), sat_sub(8, sh))
    } else if k == 17 {
        value_line(c, EdlValue::CurrentMilli(false), 2)
    } else if k == 18 {
        value_line(c, EdlValue::Ptot, 4)
    } else if k == 19 {
        int_line(c, mode_number(c.mode_select))
    } else if k == 21 || k == 22 {
        value_line(c, EdlValue::AmpModPercent, 4)
    } else if k == 27 {
        int_line(c, c.pw_on_time)
    } else if k == 28 {
        int_line(c, c.pw_off_time)
    } else if k == 29 {
        int_line(c, c.i_percent)
    } else if k == 50 {
        int_line(c, c.ad16_temp_u_on as i32)
    } else if k == 51 {
        int_line(c, c.ad16_temp_i_on as i32)
    } else if k == 52 || k == 53 {
        int_line(c, 0)
    } else if k == 70 {
        int_line(c, c.dac_temp_on as i32)
    } else if k == 71 {
        int_line(c, c.dac_temp_off as i32)
    } else if k == 72 {
        int_line(c, c.dac_temp as i32)
    } else if k == 80 {
        int_line(c, modify_number(c.modify))
    } else if k == 89 {
        int_line(c, c.inc_rast)
    } else if k == 99 {
        EdlGet {
            outputs: seq![
                OutputView::Value { sub_ch: 10, value: EdlValue::Voltage(true), nachkomma: 4 },
                OutputView::Value { sub_ch: 11, value: EdlValue::Current(true), nachkomma: 4 },
                OutputView::Value { sub_ch: 15, value: EdlValue::Voltage(false), nachkomma: 4 },
                OutputView::Value { sub_ch: 16, value: EdlValue::Current(false), nachkomma: 4 },
            ],
            param: Some(EdlValue::Current(false)),
            param_int: c.param_int,
            nachkomma: 4,
            sub_ch: 16,
        }
    } else if k == 100 || k == 101 {
        int_line(c, 0)
    } else if 102 <= k <= 105 {
        int_line(c, c.daci_offsets[k - 102])
    } else if 110 <= k <= 111 {
        int_line(c, c.adcu_offsets[k - 110])
    } else if 112 <= k <= 115 {
        int_line(c, c.adci_offsets[k - 112])
    } else if 150 <= k <= 171 {
        value_line(c, EdlValue::OptionValue((k - 150) as u8), 4)
    } else if k == 200 || k == 201 {
        value_line(c, EdlValue::Zero, 4)
    } else if 202 <= k <= 205 {
        value_line(c, EdlValue::DaciScale((k - 202) as u8), 5)
    } else if k == 210 {
        value_line(c, EdlValue::AdcUScale(true), 5)
    } else if k == 211 {
        value_line(c, EdlValue::AdcUScale(false), 5)
    } else if 212 <= k <= 215 {
        value_line(c, EdlValue::AdciScale((k - 212) as u8), 5)
    } else if k == 233 {
        value_line(c, EdlValue::Temperature, 1)
    } else if k == 234 {
        value_line(c, EdlValue::TemperatureExtern, 1)
    } else if k == 240 {
        int_line(c, c.trig_mask as i32)
    } else if k == 251 {
        int_line(c, c.err_count)
    } else if k == 252 {
        int_line(c, c.ee_ser_baud_reg as i32)
    } else if k == 253 {
        plain_line(c, OutputView::Echo(c.ser_inp_str@))
    } else if k == 254 {
        plain_line(c, OutputView::Version(c.vers1_str@))
    } else if k == 250 || k == 255 {
        plain_line(c, OutputView::Prompt(PromptCode::NoErr))
    } else {
        plain_line(c, OutputView::Prompt(PromptCode::ParamErr))
    }
}

/// The outputs of a request, and what becomes of the floating-point parameter.
pub struct EdlGetPlan {
    pub outputs: Vec<EdlOutput>,
    pub param: Option<EdlValue>,
}

fn one_output(o: EdlOutput) -> (r: Vec<EdlOutput>)
    ensures
        output_views(r@) == seq![o.view_of()],
{
    let mut v: Vec<EdlOutput> = Vec::new();
    v.push(o);
    assert(output_views(v@) =~= seq![o.view_of()]);
    v
}

/// The parser after a request.
pub open spec fn after_get(c: EdlParser) -> EdlParser {
    let g = get_view(c);
    EdlParser { digits: 1, nachkomma: g.nachkomma, param_int: g.param_int, sub_ch: g.sub_ch, ..c }
}

impl EdlParser {
    fn value_out(&mut self, v: EdlValue, n: u8) -> (r: EdlGetPlan)
        ensures
            output_views(r.outputs@) == value_line(*old(self), v, n).outputs,
            r.param == Some(v),
            *final(self) == (EdlParser { nachkomma: n, ..*old(self) }),
    {
        self.nachkomma = n;
        EdlGetPlan { outputs: one_output(EdlOutput::Value { sub_ch: self.sub_ch, value: v, nachkomma: n }), param: Some(v) }
    }

    fn int_out(&mut self, v: i32) -> (r: EdlGetPlan)
        ensures
            output_views(r.outputs@) == int_line(*old(self), v).outputs,
            r.param is None,
            *final(self) == (EdlParser { param_int: v, ..*old(self) }),
    {
        self.param_int = v;
        EdlGetPlan { outputs: one_output(EdlOutput::Int { sub_ch: self.sub_ch, value: v }), param: None }
    }

    fn get_ints(&mut self) -> (r: EdlGetPlan)
        requires
            old(self).nachkomma == 4,
            old(self).digits == 1,
            9 <= old(self).sub_ch <= 115,
            old(self).sub_ch != 10 && old(self).sub_ch != 11 && old(self).sub_ch != 12,
            old(self).sub_ch != 15 && old(self).sub_ch != 16 && old(self).sub_ch != 17,
            old(self).sub_ch != 18 && old(self).sub_ch != 21 && old(self).sub_ch != 22,
        ensures
            output_views(r.outputs@) == get_view(*old(self)).outputs,
            r.param == get_view(*old(self)).param,
            *final(self) == after_get(*old(self)),
    {
        let k = self.sub_ch;
        if k == 9 {
            let v = self.shunt_select as i32;
            self.int_out(v)
        } else if k == 19 {
            let v = self.mode_to_i32();
            self.int_out(v)
        } else if k == 27 {
            let v = self.pw_on_time;
            self.int_out(v)
        } else if k == 28 {
            let v = self.pw_off_time;
            self.int_out(v)
        } else if k == 29 {
            let v = self.i_percent;
            self.int_out(v)
        } else if k == 50 {
            let v = self.ad16_temp_u_on as i32;
            self.int_out(v)
        } else if k == 51 {
            let v = self.ad16_temp_i_on as i32;
            self.int_out(v)
        } else if k == 52 || k == 53 {
            self.int_out(0)
        } else if k == 70 {
            let v = self.dac_temp_on as i32;
            self.int_out(v)
        } else if k == 71 {
            let v = self.dac_temp_off as i32;
            self.int_out(v)
        } else if k == 72 {
            let v = self.dac_temp as i32;
            self.int_out(v)
        } else if k == 80 {
            let v = self.modify_to_i32();
            self.int_out(v)
        } else if k == 89 {
            let v = self.inc_rast;
            self.int_out(v)
        } else if k < 90 {
            EdlGetPlan { outputs: one_output(EdlOutput::Prompt(PromptCode::ParamErr)), param: None }
        } else {
            self.get_ints_high()
        }
    }

    fn get_ints_high(&mut self) -> (r: EdlGetPlan)
        requires
            old(self).nachkomma == 4,
            old(self).digits == 1,
            90 <= old(self).sub_ch <= 115,
        ensures
            output_views(r.outputs@) == get_view(*old(self)).outputs,
            r.param == get_view(*old(self)).param,
            *final(self) == after_get(*old(self)),
    {
        let k = self.sub_ch;
        if k == 99 {
            let mut out: Vec<EdlOutput> = Vec::new();
            self.sub_ch = 10;
            out.push(EdlOutput::Value { sub_ch: 10, value: EdlValue::Voltage(true), nachkomma: self.nachkomma });
            self.sub_ch = 11;
            out.push(EdlOutput::Value { sub_ch: 11, value: EdlValue::Current(true), nachkomma: self.nachkomma });
            self.sub_ch = 15;
            out.push(EdlOutput::Value { sub_ch: 15, value: EdlValue::Voltage(false), nachkomma: self.nachkomma });
            self.sub_ch = 16;
            out.push(EdlOutput::Value { sub_ch: 16, value: EdlValue::Current(false), nachkomma: self.nachkomma });
            assert(output_views(out@) =~= get_view(*old(self)).outputs);
            EdlGetPlan { outputs: out, param: Some(EdlValue::Current(false)) }
        } else if k == 100 || k == 101 {
            self.int_out(0)
        } else if 102 <= k && k <= 105 {
            let v = self.daci_offsets[(k - 102) as usize];
            self.int_out(v)
        } else if 110 <= k && k <= 111 {
            let v = self.adcu_offsets[(k - 110) as usize];
            self.int_out(v)
        } else if 112 <= k && k <= 115 {
            let v = self.adci_offsets[(k - 112) as usize];
            self.int_out(v)
        } else {
            EdlGetPlan { outputs: one_output(EdlOutput::Prompt(PromptCode::ParamErr)), param: None }
        }
    }

    fn get_others(&mut self) -> (r: EdlGetPlan)
        requires
            old(self).nachkomma == 4,
            old(self).digits == 1,
            !(9 <= old(self).sub_ch <= 115) || old(self).sub_ch == 10 || old(self).sub_ch == 11 || old(self).sub_ch == 12
                || old(self).sub_ch == 15 || old(self).sub_ch == 16 || old(self).sub_ch == 17 || old(self).sub_ch == 18
                || old(self).sub_ch == 21 || old(self).sub_ch == 22,
        ensures
            output_views(r.outputs@) == get_view(*old(self)).outputs,
            r.param == get_view(*old(self)).param,
            *final(self) == after_get(*old(self)),
    {
        let k = self.sub_ch;
        let sh = self.shunt_select;
        if k == 0 {
            self.value_out(EdlValue::OutputEnable, 4)
        } else if k == 1 {
            self.value_out(EdlValue::DcAmp, 7u8.saturating_sub(sh))
        } else if k == 2 {
            self.value_out(EdlValue::DcAmpMilli, 2)
        } else if k == 3 {
            self.value_out(EdlValue::DcWatt, 2)
        } else if k == 4 {
            self.value_out(EdlValue::DcVolt, 2)
        } else if k == 5 {
            self.value_out(EdlValue::DcOhm, 1u8.saturating_add(sh))
        } else if k == 7 {
            self.value_out(EdlValue::Ah, 4)
        } else if k == 8 {
            self.value_out(EdlValue::Wh, 4)
        } else if k == 10 {
            self.value_out(EdlValue::Voltage(true), 4)
        } else if k == 11 {
            self.value_out(EdlValue::Current(true), 8u8.saturating_sub(sh))
        } else if k == 12 {
            self.value_out(EdlValue::CurrentMilli(true), 2)
        } else if k == 15 {
            self.value_out(EdlValue::Voltage(false), 4)
        } else if k == 16 {
            self.value_out(EdlValue::Current(false), 8u8.saturating_sub(sh))
        } else if k == 17 {
            self.value_out(EdlValue::CurrentMilli(false), 2)
        } else if k == 18 {
            self.value_out(EdlValue::Ptot, 4)
        } else if k == 21 || k == 22 {
            self.value_out(EdlValue::AmpModPercent, 4)
        } else if 150 <= k && k <= 171 {
            self.value_out(EdlValue::OptionValue((k - 150) as u8), 4)
        } else if k == 200 || k == 201 {
            self.value_out(EdlValue::Zero, 4)
        } else if 202 <= k && k <= 205 {
            self.value_out(EdlValue::DaciScale((k - 202) as u8), 5)
        } else if k == 210 {
            self.value_out(EdlValue::AdcUScale(true), 5)
        } else if k == 211 {
            self.value_out(EdlValue::AdcUScale(false), 5)
        } else if 212 <= k && k <= 215 {
            self.value_out(EdlValue::AdciScale((k - 212) as u8), 5)
        } else if k == 233 {
            self.value_out(EdlValue::Temperature, 1)
        } else if k == 234 {
            self.value_out(EdlValue::TemperatureExtern, 1)
        } else if k == 240 {
            let v = self.trig_mask as i32;
            self.int_out(v)
        } else if k == 251 {
            let v = self.err_count;
            self.int_out(v)
        } else if k == 252 {
            let v = self.ee_ser_baud_reg as i32;
            self.int_out(v)
        } else if k == 253 {
            EdlGetPlan { outputs: one_output(EdlOutput::Echo(self.ser_inp_str.clone())), param: None }
        } else if k == 254 {
            EdlGetPlan { outputs: one_output(EdlOutput::Version(self.vers1_str.clone())), param: None }
        } else if k == 250 || k == 255 {
            EdlGetPlan { outputs: one_output(EdlOutput::Prompt(PromptCode::NoErr)), param: None }
        } else {
            EdlGetPlan { outputs: one_output(EdlOutput::Prompt(PromptCode::ParamErr)), param: None }
        }
    }

    /// Get dispatch: the outputs of a request for `sub_ch` (see [`get_view`]).
    pub fn parse_get_param(&mut self) -> (r: EdlGetPlan)
        ensures
            output_views(r.outputs@) == get_view(*old(self)).outputs,
            r.param == get_view(*old(self)).param,
            *final(self) == after_get(*old(self)),
    {
        self.digits = 1;
        self.nachkomma = 4;
        let k = self.sub_ch;
        proof {
            assert(get_view(*self) == get_view(*old(self)));
            assert(after_get(*self) == after_get(*old(self)));
        }
        if 9 <= k && k <= 115 && k != 10 && k != 11 && k != 12 && k != 15 && k != 16 && k != 17 && k != 18 && k != 21
            && k != 22 {
            self.get_ints()
        } else {
            self.get_others()
        }
    }
}

/// Where the caller stores the floating-point parameter of a setting.
#[derive(Debug, Clone, Copy, PartialEq, Eq, Structural)]
pub enum EdlStore {
    Nothing,
    DcAmp,
    /// The parameter is in mA: it is divided by 1000 and stored as the set current.
    DcAmpMilli,
    DcWatt,
    DcVolt,
    DcOhm,
    /// Both capacity counters are cleared.
    ResetCapacity,
    /// The parameter is in percent: it is divided by 100 and stored as the modulation depth.
    AmpModPercent,
    /// The increment raster default.
    InitIncRast,
    DaciScale(u8),
    /// Voltage ADC scale factor in the low (`true`) or the high range.
    AdcUScale(bool),
    AdciScale(u8),
    OptionValue(u8),
}

/// Settings that only an unlocked EEPROM accepts.
pub open spec fn edl_needs_unlock(k: i32) -> bool {
    k == 89 || (100 <= k <= 115) || (200 <= k <= 223) || (150 <= k <= 171) || k == 252
}

/// Sub-channels that accept a setting.
pub open spec fn edl_settable(k: i32) -> bool {
    ||| (0 <= k <= 5)
    ||| k == 7 || k == 8 || k == 9 || k == 19 || k == 21 || k == 22
    ||| (27 <= k <= 29)
    ||| k == 70 || k == 71 || k == 80 || k == 240 || k == 250 || k == 251
    ||| edl_needs_unlock(k)
}

/// The floating-point store of a setting.
pub open spec fn edl_store(k: i32) -> EdlStore {
    if k == 1 {
        EdlStore::DcAmp
    } else if k == 2 {
        EdlStore::DcAmpMilli
    } else if k == 3 {
        EdlStore::DcWatt
    } else if k == 4 {
        EdlStore::DcVolt
    } else if k == 5 {
        EdlStore::DcOhm
    } else if k == 7 || k == 8 {
        EdlStore::ResetCapacity
    } else if k == 21 || k == 22 {
        EdlStore::AmpModPercent
    } else if k == 89 {
        EdlStore::InitIncRast
    } else if 202 <= k <= 205 {
        EdlStore::DaciScale((k - 202) as u8)
    } else if k == 210 {
        EdlStore::AdcUScale(true)
    } else if k == 211 {
        EdlStore::AdcUScale(false)
    } else if 212 <= k <= 215 {
        EdlStore::AdciScale((k - 212) as u8)
    } else if 150 <= k <= 171 {
        EdlStore::OptionValue((k - 150) as u8)
    } else {
        EdlStore::Nothing
    }
}

/// The integer fields that an accepted setting for `c.sub_ch` changes;
/// `nonzero` tells whether the parameter differs from zero.
pub open spec fn edl_assign(c: EdlParser, nonzero: bool, n: EdlParser) -> bool {
    let k = c.sub_ch;
    let pi = c.param_int;
    let pb = c.param_byte;
    if k == 0 {
        n == (EdlParser { output_enable: nonzero, mpxena: c.mode_select != Mode::OutputOff && nonzero, ..c })
    } else if k == 4 {
        n == (EdlParser { low_volt: false, output_enable: true, ..c })
    } else if k == 9 {
        n == (EdlParser { shunt_range: pi as u8, ..c })
    } else if k == 19 {
        n == (if mode_of(pb) == Mode::OutputOff {
            EdlParser { mode_select: mode_of(pb), mpxena: false, output_enable: false, ..c }
        } else {
            EdlParser { mode_select: mode_of(pb), output_enable: true, ..c }
        })
    } else if k == 27 {
        n == (EdlParser { pw_on_time: pi, ..c })
    } else if k == 28 {
        n == (EdlParser { pw_off_time: pi, ..c })
    } else if k == 29 {
        n == (EdlParser { i_percent: pi, ..c })
    } else if k == 80 {
        n == (EdlParser { modify: modify_of(pb), ..c })
    } else if k == 89 {
        n == (EdlParser { inc_rast: pi, ..c })
    } else if 102 <= k <= 105 {
        n == (EdlParser { daci_offsets: n.daci_offsets, ..c }) && n.daci_offsets@ == c.daci_offsets@.update(k - 102, pi)
    } else if 110 <= k <= 111 {
        n == (EdlParser { adcu_offsets: n.adcu_offsets, ..c }) && n.adcu_offsets@ == c.adcu_offsets@.update(k - 110, pi)
    } else if 112 <= k <= 115 {
        n == (EdlParser { adci_offsets: n.adci_offsets, ..c }) && n.adci_offsets@ == c.adci_offsets@.update(k - 112, pi)
    } else if k == 240 {
        n == (EdlParser { trig_mask: pi as u8, ee_trig_mask: pi as u8, ..c })
    } else if k == 251 {
        n == (EdlParser { err_count: pi, ..c })
    } else if k == 252 {
        n == (EdlParser { ee_ser_baud_reg: pb, ..c })
    } else {
        n == c
    }
}

/// What the set dispatch does with `c.sub_ch` and the parameter.
///
/// A busy module refuses every setting. Otherwise each setting marks the
/// parser changed; unknown sub-channels are parameter errors, and the
/// calibration, option, raster and baud settings need the EEPROM unlocked.
/// The raw DAC words (70, 71) are stored at once and answered only in
/// verbose mode. Every other accepted setting leaves the EEPROM unlocked
/// exactly when it was `WEN` (250) and, in verbose mode, answers with the
/// limit check prompt.
pub open spec fn set_view(c: EdlParser, nonzero: bool, n: EdlParser, out: Seq<OutputView>, store: EdlStore) -> bool {
    let k = c.sub_ch;
    let base = EdlParser { changed_flag: true, ..c };
    if c.busy_flag {
        n == c && out == seq![OutputView::Prompt(PromptCode::BusyErr)] && store == EdlStore::Nothing
    } else if !edl_settable(k) {
        n == base && out == seq![OutputView::Prompt(PromptCode::ParamErr)] && store == EdlStore::Nothing
    } else if edl_needs_unlock(k) && !c.ee_unlocked {
        n == base && out == seq![OutputView::Prompt(PromptCode::LockedErr)] && store == EdlStore::Nothing
    } else if k == 70 || k == 71 {
        &&& n == (if k == 70 {
            EdlParser { dac_temp_on: c.param_int as u16, ..base }
        } else {
            EdlParser { dac_temp_off: c.param_int as u16, ..base }
        })
        &&& out == (if c.verbose { seq![OutputView::Prompt(PromptCode::NoErr)] } else { Seq::empty() })
        &&& store == EdlStore::Nothing
    } else {
        &&& edl_assign(base, nonzero, EdlParser { ee_unlocked: base.ee_unlocked, ..n })
        &&& n.ee_unlocked == (k == 250)
        &&& out == (if c.verbose { seq![OutputView::Prompt(PromptCode::CheckLimitErr)] } else { Seq::empty() })
        &&& store == edl_store(k)
    }
}

/// The outputs of a setting, and where its floating-point parameter goes.
pub struct EdlSetPlan {
    pub outputs: Vec<EdlOutput>,
    pub store: EdlStore,
}

impl EdlParser {
    fn locked(&self) -> (r: bool)
        ensures
            r == !self.ee_unlocked,
    {
        !self.ee_unlocked
    }

    fn assign_fields(&mut self, nonzero: bool)
        requires
            edl_settable(old(self).sub_ch),
            !(edl_needs_unlock(old(self).sub_ch) && !old(self).ee_unlocked),
            old(self).sub_ch != 70 && old(self).sub_ch != 71,
        ensures
            edl_assign(*old(self), nonzero, *final(self)),
    {
        let k = self.sub_ch;
        if k == 0 {
            self.output_enable = nonzero;
            if self.mode_select == Mode::OutputOff {
                self.mpxena = false;
            } else {
                self.mpxena = self.output_enable;
            }
        } else if k == 4 {
            self.low_volt = false;
            self.output_enable = true;
        } else if k == 9 {
            self.shunt_range = self.param_int as u8;
        } else if k == 19 {
            self.mode_select = Mode::from(self.param_byte);
            if self.mode_select == Mode::OutputOff {
                self.mpxena = false;
                self.output_enable = false;
            } else {
                self.output_enable = true;
            }
        } else if k == 27 {
            self.pw_on_time = self.param_int;
        } else if k == 28 {
            self.pw_off_time = self.param_int;
        } else if k == 29 {
            self.i_percent = self.param_int;
        } else if k == 80 {
            self.modify = Modify::from(self.param_byte);
        } else if k == 89 {
            self.inc_rast = self.param_int;
        } else if 102 <= k && k <= 105 {
            let i = (k - 102) as usize;
            self.daci_offsets[i] = self.param_int;
        } else if 110 <= k && k <= 111 {
            let i = (k - 110) as usize;
            self.adcu_offsets[i] = self.param_int;
        } else if 112 <= k && k <= 115 {
            let i = (k - 112) as usize;
            self.adci_offsets[i] = self.param_int;
        } else if k == 240 {
            self.trig_mask = self.param_int as u8;
            self.ee_trig_mask = self.trig_mask;
        } else if k == 251 {
            self.err_count = self.param_int;
        } else if k == 252 {
            self.ee_ser_baud_reg = self.param_byte;
        }
    }

    fn store_of(k: i32) -> (r: EdlStore)
        ensures
            r == edl_store(k),
    {
        if k == 1 {
            EdlStore::DcAmp
        } else if k == 2 {
            EdlStore::DcAmpMilli
        } else if k == 3 {
            EdlStore::DcWatt
        } else if k == 4 {
            EdlStore::DcVolt
        } else if k == 5 {
            EdlStore::DcOhm
        } else if k == 7 || k == 8 {
            EdlStore::ResetCapacity
        } else if k == 21 || k == 22 {
            EdlStore::AmpModPercent
        } else if k == 89 {
            EdlStore::InitIncRast
        } else if 202 <= k && k <= 205 {
            EdlStore::DaciScale((k - 202) as u8)
        } else if k == 210 {
            EdlStore::AdcUScale(true)
        } else if k == 211 {
            EdlStore::AdcUScale(false)
        } else if 212 <= k && k <= 215 {
            EdlStore::AdciScale((k - 212) as u8)
        } else if 150 <= k && k <= 171 {
            EdlStore::OptionValue((k - 150) as u8)
        } else {
            EdlStore::Nothing
        }
    }

    fn settable_sub_ch(k: i32) -> (r: bool)
        ensures
            r == edl_settable(k),
    {
        (0 <= k && k <= 5) || k == 7 || k == 8 || k == 9 || k == 19 || k == 21 || k == 22 || (27 <= k && k <= 29) || k
            == 70 || k == 71 || k == 80 || k == 240 || k == 250 || k == 251 || Self::needs_unlock(k)
    }

    fn needs_unlock(k: i32) -> (r: bool)
        ensures
            r == edl_needs_unlock(k),
    {
        k == 89 || (100 <= k && k <= 115) || (200 <= k && k <= 223) || (150 <= k && k <= 171) || k == 252
    }

    /// Set dispatch (see [`set_view`]); `param_nonzero` tells whether the
    /// floating-point parameter differs from zero.
    pub fn parse_set_param(&mut self, param_nonzero: bool) -> (r: EdlSetPlan)
        ensures
            set_view(*old(self), param_nonzero, *final(self), output_views(r.outputs@), r.store),
    {
        if self.busy_flag {
            return EdlSetPlan { outputs: one_output(EdlOutput::Prompt(PromptCode::BusyErr)), store: EdlStore::Nothing };
        }
        self.changed_flag = true;
        let k = self.sub_ch;
        if !Self::settable_sub_ch(k) {
            return EdlSetPlan { outputs: one_output(EdlOutput::Prompt(PromptCode::ParamErr)), store: EdlStore::Nothing };
        }
        if Self::needs_unlock(k) && self.locked() {
            return EdlSetPlan { outputs: one_output(EdlOutput::Prompt(PromptCode::LockedErr)), store: EdlStore::Nothing };
        }
        let mut out: Vec<EdlOutput> = Vec::new();
        if k == 70 || k == 71 {
            if k == 70 {
                self.dac_temp_on = self.param_int as u16;
            } else {
                self.dac_temp_off = self.param_int as u16;
            }
            if self.verbose {
                out.push(EdlOutput::Prompt(PromptCode::NoErr));
            }
            assert(output_views(out@) =~= (if self.verbose { seq![OutputView::Prompt(PromptCode::NoErr)] } else { Seq::empty() }));
            return EdlSetPlan { outputs: out, store: EdlStore::Nothing };
        }
        let ghost before = *self;
        self.assign_fields(param_nonzero);
        self.ee_unlocked = k == 250;
        if self.verbose {
            out.push(EdlOutput::Prompt(PromptCode::CheckLimitErr));
        }
        assert(output_views(out@) =~= (if self.verbose { seq![OutputView::Prompt(PromptCode::CheckLimitErr)] } else { Seq::empty() }));
        EdlSetPlan { outputs: out, store: Self::store_of(k) }
    }
}

/// A busy module refuses every setting with the busy prompt and changes
/// nothing.
pub proof fn law_busy_refuses_settings(c: EdlParser, nonzero: bool, n: EdlParser, out: Seq<OutputView>, store: EdlStore)
    requires
        set_view(c, nonzero, n, out, store),
        c.busy_flag,
    ensures
        n == c,
        out == seq![OutputView::Prompt(PromptCode::BusyErr)],
        store == EdlStore::Nothing,
{
}

/// A setting kept in EEPROM is refused with the lock prompt while writing
/// is locked, and changes nothing but the changed mark.
pub proof fn law_locked_settings_are_refused(c: EdlParser, nonzero: bool, n: EdlParser, out: Seq<OutputView>, store: EdlStore)
    requires
        set_view(c, nonzero, n, out, store),
        !c.busy_flag,
        edl_settable(c.sub_ch),
        edl_needs_unlock(c.sub_ch),
        !c.ee_unlocked,
    ensures
        n == (EdlParser { changed_flag: true, ..c }),
        out == seq![OutputView::Prompt(PromptCode::LockedErr)],
{
}

/// `WEN` enables EEPROM writes for the next setting only: every accepted
/// setting but the raw DAC words leaves writing enabled exactly when it was
/// `WEN`.
pub proof fn law_write_enable_lasts_one_setting(c: EdlParser, nonzero: bool, n: EdlParser, out: Seq<OutputView>, store: EdlStore)
    requires
        set_view(c, nonzero, n, out, store),
        !c.busy_flag,
        edl_settable(c.sub_ch),
        !(edl_needs_unlock(c.sub_ch) && !c.ee_unlocked),
        c.sub_ch != 70,
        c.sub_ch != 71,
    ensures
        n.ee_unlocked == (c.sub_ch == 250),
        n.changed_flag,
{
}

/// The quantity in which a request reports what a setting stored: the set
/// current (also when it was given in mA), power, voltage and resistance,
/// the modulation depth, the option values and the scale factors are read
/// back as themselves; clearing the capacity and the raster default are not
/// read back.
pub open spec fn read_back_value(s: EdlStore) -> Option<EdlValue> {
    match s {
        EdlStore::DcAmp => Some(EdlValue::DcAmp),
        EdlStore::DcAmpMilli => Some(EdlValue::DcAmpMilli),
        EdlStore::DcWatt => Some(EdlValue::DcWatt),
        EdlStore::DcVolt => Some(EdlValue::DcVolt),
        EdlStore::DcOhm => Some(EdlValue::DcOhm),
        EdlStore::AmpModPercent => Some(EdlValue::AmpModPercent),
        EdlStore::DaciScale(i) => Some(EdlValue::DaciScale(i)),
        EdlStore::AdcUScale(low) => Some(EdlValue::AdcUScale(low)),
        EdlStore::AdciScale(i) => Some(EdlValue::AdciScale(i)),
        EdlStore::OptionValue(i) => Some(EdlValue::OptionValue(i)),
        EdlStore::Nothing | EdlStore::ResetCapacity | EdlStore::InitIncRast => None,
    }
}

/// A request reads back what a setting on the same sub-channel stored: a
/// floating-point setting is reported as the quantity it was stored as (the
/// set voltage on 4 as the set voltage, the set power on 3 as the power, and
/// so on), and the pulse times, the current percentage, the raster, the
/// calibration offsets, the error counter and the baud rate register as the
/// whole number that was set.
pub proof fn law_requests_read_back_settings(c: EdlParser, nonzero: bool, n: EdlParser, out: Seq<OutputView>, store: EdlStore)
    requires
        set_view(c, nonzero, n, out, store),
    ensures
        n.sub_ch == c.sub_ch,
        read_back_value(store) matches Some(v) ==> {
            &&& get_view(n).param == Some(v)
            &&& get_view(n).outputs.len() == 1
            &&& get_view(n).outputs[0] matches OutputView::Value { sub_ch, value, .. }
            &&& sub_ch == c.sub_ch
            &&& value == v
        },
        ({
            let k = c.sub_ch;
            &&& !c.busy_flag
            &&& (edl_needs_unlock(k) ==> c.ee_unlocked)
            &&& (k == 27 || k == 28 || k == 29 || k == 89 || 102 <= k <= 105 || 110 <= k <= 115 || k == 251)
        }) ==> get_view(n).outputs == seq![OutputView::Int { sub_ch: c.sub_ch, value: c.param_int }],
        (!c.busy_flag && c.ee_unlocked && c.sub_ch == 252) ==> get_view(n).outputs == seq![
            OutputView::Int { sub_ch: c.sub_ch, value: c.param_byte as i32 },
        ],
{
}

} // verus!
