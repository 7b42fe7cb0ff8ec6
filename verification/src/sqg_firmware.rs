//! The state of the square-wave generator and what its commands do to it:
//! the status prompt, the requests and settings of the sub-channels, the
//! parameter limits, the burst generator of the system tick, the loading
//! of the DDS and the line buffer of the serial input.
//!
//! The output level is a floating-point value and stays with the caller:
//! where a decision depends on it, the caller hands the decision in (the
//! attenuator switch), and where a command stores it, the outcome says so.

use vstd::prelude::*;

use crate::dds_sqg::{
    error_number, line_outcome, route_line, saturated, ErrorCode, Modify, SqgRoute, StatusFlags, C_DDS_RESET_CMD,
    C_DDS_SINE_CMD, C_DDS_SQUARE_CMD, C_DDS_TRIANGLE_CMD, C_LOGIC, C_SINW, C_SQUW, C_TRIW, DDS_FREQ_REG_CMD,
};
use crate::protocol::status_byte;
use crate::dds_hw::{ad9833_word_puts_out, lemma_ad9833_words};
use crate::dds_sqg::{cmd_entry, find_command, offset_from, CmdWhich};
use crate::text::{pop_char, push_char, upper_text};

verus! {

/// Settings kept in EEPROM (the level is the caller's).
#[derive(Debug, Clone, Copy, PartialEq, Eq, Structural)]
pub struct EepromDefaults {
    pub init_frequenz: i32,
    pub init_burst: u8,
    pub init_wave: u8,
    pub init_inc_rast: i32,
    pub ee_ser_baud_reg: u8,
}

impl Default for EepromDefaults {
    fn default() -> (r: Self)
        ensures
            r == (EepromDefaults {
                init_frequenz: 10_000,
                init_burst: 0,
                init_wave: C_SQUW,
                init_inc_rast: 4,
                ee_ser_baud_reg: 51,
            }),
    {
        EepromDefaults { init_frequenz: 10_000, init_burst: 0, init_wave: C_SQUW, init_inc_rast: 4, ee_ser_baud_reg: 51 }
    }
}

/// Runtime state of the generator.
#[derive(Debug, Clone, Copy, PartialEq, Eq, Structural)]
pub struct FirmwareState {
    pub defaults: EepromDefaults,
    pub slave_ch: u8,
    pub current_ch: u8,
    pub sub_ch: u8,
    /// Frequency in 0.1 Hz: 10000 is 1000.0 Hz.
    pub frequenz: i32,
    pub terz_num: u8,
    pub offset_mv: i32,
    pub wave: u8,
    pub burst_mode: u8,
    pub inc_rast: i32,
    pub dss_cmd: u16,
    pub wave_cmd: u16,
    pub dds_frequ: i32,
    pub switch_state: u8,
    pub level_range: bool,
    pub burst_count: u8,
    pub verbose: bool,
    pub changed_flag: bool,
    pub lcd_present: bool,
    pub modify: Modify,
    pub first_turn: bool,
    pub status: StatusFlags,
    pub err_count: i32,
    pub err_flag: bool,
    pub param_int: i32,
    pub param_byte: u8,
    pub param_long: i32,
    pub digits: usize,
    pub nachkomma: usize,
}

/// The state after reset.
pub open spec fn initial_state() -> FirmwareState {
    FirmwareState {
        defaults: EepromDefaults {
            init_frequenz: 10_000,
            init_burst: 0,
            init_wave: 3,
            init_inc_rast: 4,
            ee_ser_baud_reg: 51,
        },
        slave_ch: 0,
        current_ch: 255,
        sub_ch: 254,
        frequenz: 10_000,
        terz_num: 9,
        offset_mv: 0,
        wave: 3,
        burst_mode: 0,
        inc_rast: 4,
        dss_cmd: 0,
        wave_cmd: 0b0010_0000_0010_1000,
        dds_frequ: 0,
        switch_state: 0,
        level_range: false,
        burst_count: 1,
        verbose: false,
        changed_flag: true,
        lcd_present: false,
        modify: Modify::FreqSel,
        first_turn: true,
        status: StatusFlags { busy: false, user_srq: false, overload: false, ee_unlocked: false },
        err_count: 0,
        err_flag: false,
        param_int: 0,
        param_byte: 0,
        param_long: 0,
        digits: 2,
        nachkomma: 1,
    }
}

impl Default for FirmwareState {
    fn default() -> (r: Self)
        ensures
            r == initial_state(),
    {
        let defaults = EepromDefaults::default();
        FirmwareState {
            defaults,
            slave_ch: 0,
            current_ch: 255,
            sub_ch: 254,
            frequenz: defaults.init_frequenz,
            terz_num: 9,
            offset_mv: 0,
            wave: defaults.init_wave,
            burst_mode: defaults.init_burst,
            inc_rast: defaults.init_inc_rast,
            dss_cmd: 0,
            wave_cmd: C_DDS_SQUARE_CMD,
            dds_frequ: 0,
            switch_state: 0,
            level_range: false,
            burst_count: 1,
            verbose: false,
            changed_flag: true,
            lcd_present: false,
            modify: Modify::FreqSel,
            first_turn: true,
            status: StatusFlags::default(),
            err_count: 0,
            err_flag: false,
            param_int: 0,
            param_byte: 0,
            param_long: 0,
            digits: 2,
            nachkomma: 1,
        }
    }
}

/// The status byte of the state: the flags in the upper nibble.
pub open spec fn status_of(c: FirmwareState) -> u8 {
    status_byte(0, c.status.ee_unlocked, c.status.overload, c.status.user_srq, c.status.busy) as u8
}

/// Whether the prompt for `err` is written: in verbose mode, or for an error.
pub open spec fn prompt_written(c: FirmwareState, err: ErrorCode) -> bool {
    c.verbose || err != ErrorCode::NoErr
}

/// The number a prompt reports, if it is written: the error code plus the
/// status byte, at most 255.
pub open spec fn prompt_shown(c: FirmwareState, err: ErrorCode, status: u8) -> Option<u8> {
    if prompt_written(c, err) {
        Some(saturated(error_number(err) + status))
    } else {
        None
    }
}

/// The state after a prompt: a written prompt goes out on the error
/// sub-channel 255, an error is counted and flagged.
pub open spec fn after_prompt(c: FirmwareState, err: ErrorCode) -> FirmwareState {
    let c1 = if prompt_written(c, err) {
        FirmwareState { sub_ch: 255, ..c }
    } else {
        c
    };
    if err != ErrorCode::NoErr {
        FirmwareState { err_count: (c1.err_count + 1) as i32, err_flag: true, ..c1 }
    } else {
        c1
    }
}

/// Whether the error counter can take a prompt for `err`.
pub open spec fn prompt_fits(c: FirmwareState, err: ErrorCode) -> bool {
    err != ErrorCode::NoErr ==> c.err_count < i32::MAX
}

/// The number of a panel menu, in declaration order.
pub open spec fn modify_number(m: Modify) -> u8 {
    match m {
        Modify::WaveSel => 0,
        Modify::FreqSel => 1,
        Modify::AmplSel => 2,
        Modify::BurstSel => 3,
        Modify::DcSel => 4,
    }
}

/// The panel menu of a number up to 4.
pub open spec fn modify_of(v: u8) -> Modify {
    if v == 0 {
        Modify::WaveSel
    } else if v == 1 {
        Modify::FreqSel
    } else if v == 2 {
        Modify::AmplSel
    } else if v == 3 {
        Modify::BurstSel
    } else {
        Modify::DcSel
    }
}

/// The limits: frequency 0 to 100 MHz (a value just above is let
/// through), waveform up to square, preset index up to 30, burst up to 100.
#[verifier::opaque]
pub open spec fn limited(c: FirmwareState) -> FirmwareState {
    FirmwareState {
        frequenz: if c.frequenz < 0 {
            0
        } else if c.frequenz > 100_000_001 {
            100_000_000
        } else {
            c.frequenz
        },
        wave: if c.wave > 3 {
            3
        } else {
            c.wave
        },
        terz_num: if c.terz_num > 30 {
            30
        } else {
            c.terz_num
        },
        burst_mode: if c.burst_mode > 100 {
            100
        } else {
            c.burst_mode
        },
        ..c
    }
}

/// Whether a value was out of its limits.
pub open spec fn out_of_range(c: FirmwareState) -> bool {
    c.frequenz < 0 || c.frequenz > 100_000_001 || c.wave > 3 || c.terz_num > 30 || c.burst_mode > 100
}

/// The AD9833 control word of a waveform: sine, triangle, square (also
/// for the logic output), reset for anything else.
pub open spec fn wave_command(wave: u8) -> u16 {
    if wave == 1 {
        0b0010_0000_0000_0000
    } else if wave == 2 {
        0b0010_0000_0000_0010
    } else if wave == 3 || wave == 4 {
        0b0010_0000_0010_1000
    } else {
        0b0010_0001_0000_0000
    }
}

/// The lower frequency word: the low 14 bits of the tuning word, tagged
/// for frequency register 0.
pub open spec fn low_frequency_word(dds_frequ: i32) -> u16 {
    ((dds_frequ as u16) & 0x3fff) | 0x4000
}

/// The upper frequency word: bits 14 to 27 of the tuning word, tagged for
/// frequency register 0.
pub open spec fn high_frequency_word(dds_frequ: i32) -> u16 {
    (((((dds_frequ as u32) << 2u32) >> 16u32) as u16) & 0x3fff) | 0x4000
}

/// What the burst generator does on one system tick.
pub open spec fn tick_result(c: FirmwareState) -> (Option<u16>, FirmwareState) {
    if c.burst_mode == 0 {
        (None, c)
    } else if c.burst_count == 1 {
        (Some(c.wave_cmd), FirmwareState { dss_cmd: c.wave_cmd, burst_count: 0, ..c })
    } else if c.burst_count == 0 {
        (
            Some(0b0010_0001_0000_0000),
            FirmwareState {
                dss_cmd: 0b0010_0001_0000_0000,
                burst_count: (saturated(c.burst_mode + 1) - 1) as u8,
                ..c
            },
        )
    } else {
        (None, FirmwareState { burst_count: (c.burst_count - 1) as u8, ..c })
    }
}

/// The answer to a request.
#[derive(Debug, Clone, Copy, PartialEq, Eq, Structural)]
pub enum SqgReply {
    /// The frequency in 0.1 Hz, shown in Hz with one decimal.
    Tenths(i32),
    /// The output level, which the caller keeps.
    Level,
    /// A byte value.
    Byte(u8),
    /// The DC offset in mV, shown in V with four decimals.
    Millivolts(i32),
    /// The error count.
    Count(i32),
    /// The input line, echoed.
    Echo,
    /// The version line.
    Version,
    /// A status prompt for `err`; `shown` is the number written, if the
    /// prompt is written at all.
    Prompt { err: ErrorCode, shown: Option<u8> },
}

/// The sub-channels that answer a request.
pub open spec fn readable(k: u8) -> bool {
    k == 0 || k == 1 || k == 4 || k == 5 || k == 20 || k == 80 || k == 89 || k == 250 || k == 251 || k == 252
        || k == 253 || k == 254 || k == 255
}

/// The answer to a request for the sub-channel of `c` and the state after it.
pub open spec fn get_reply(c: FirmwareState) -> (SqgReply, FirmwareState) {
    let d = FirmwareState { digits: 2, nachkomma: 1, ..c };
    let k = c.sub_ch;
    if k == 0 {
        (SqgReply::Tenths(c.frequenz), FirmwareState { param_long: c.frequenz, ..d })
    } else if k == 1 {
        (SqgReply::Level, d)
    } else if k == 4 {
        (SqgReply::Byte(c.wave), FirmwareState { param_byte: c.wave, ..d })
    } else if k == 5 {
        (SqgReply::Byte(c.burst_mode), FirmwareState { param_byte: c.burst_mode, ..d })
    } else if k == 20 {
        (SqgReply::Millivolts(c.offset_mv), FirmwareState { nachkomma: 4, ..d })
    } else if k == 80 {
        (SqgReply::Byte(modify_number(c.modify)), FirmwareState { param_byte: modify_number(c.modify), ..d })
    } else if k == 89 {
        (SqgReply::Byte(c.inc_rast as u8), FirmwareState { param_byte: c.inc_rast as u8, ..d })
    } else if k == 251 {
        (SqgReply::Count(c.err_count), d)
    } else if k == 252 {
        (SqgReply::Byte(c.defaults.ee_ser_baud_reg), FirmwareState { param_byte: c.defaults.ee_ser_baud_reg, ..d })
    } else if k == 253 {
        (SqgReply::Echo, d)
    } else if k == 254 {
        (SqgReply::Version, d)
    } else if k == 250 || k == 255 {
        (
            SqgReply::Prompt { err: ErrorCode::NoErr, shown: prompt_shown(d, ErrorCode::NoErr, status_of(d)) },
            after_prompt(d, ErrorCode::NoErr),
        )
    } else {
        (
            SqgReply::Prompt { err: ErrorCode::ParamErr, shown: prompt_shown(d, ErrorCode::ParamErr, 0) },
            after_prompt(d, ErrorCode::ParamErr),
        )
    }
}

/// What a setting did.
#[derive(Debug, Clone, Copy, PartialEq, Eq, Structural)]
pub enum SetOutcome {
    /// The setting was refused with `err`; `shown` is the number written.
    Refused { err: ErrorCode, shown: Option<u8> },
    /// The setting was taken; `store_level` tells that the value is the new
    /// output level, which the caller stores. The caller then applies the
    /// level limit and loads the DDS. `err` is `ParamErr` where a value was
    /// out of its limits and was clamped.
    Applied { store_level: bool, err: ErrorCode, shown: Option<u8> },
}

/// The sub-channels that take a setting.
pub open spec fn writable(k: u8) -> bool {
    k == 0 || k == 1 || k == 4 || k == 5 || k == 80 || k == 89 || k == 250 || k == 251 || k == 252
}

/// Why a setting of a state that is not busy is refused, if it is: an
/// unknown menu number, an EEPROM value while writing is locked, a
/// sub-channel that takes no setting.
pub open spec fn set_refusal(c: FirmwareState, param_byte: u8) -> Option<ErrorCode> {
    if !writable(c.sub_ch) {
        Some(ErrorCode::ParamErr)
    } else if c.sub_ch == 80 && param_byte > 4 {
        Some(ErrorCode::ParamErr)
    } else if (c.sub_ch == 89 || c.sub_ch == 252) && !c.status.ee_unlocked {
        Some(ErrorCode::LockedErr)
    } else {
        None
    }
}

/// The state with the value of a taken setting stored.
#[verifier::opaque]
pub open spec fn assigned(c: FirmwareState, param_int: i32, param_byte: u8, tenths: i32) -> FirmwareState {
    let k = c.sub_ch;
    if k == 0 {
        FirmwareState { frequenz: tenths, ..c }
    } else if k == 4 {
        FirmwareState { wave: param_byte, ..c }
    } else if k == 5 {
        FirmwareState { burst_mode: param_byte, ..c }
    } else if k == 80 {
        FirmwareState { modify: modify_of(param_byte), ..c }
    } else if k == 89 {
        FirmwareState { inc_rast: param_int, ..c }
    } else if k == 251 {
        FirmwareState { err_count: param_int, ..c }
    } else if k == 252 {
        FirmwareState { defaults: EepromDefaults { ee_ser_baud_reg: param_byte, ..c.defaults }, ..c }
    } else {
        c
    }
}

/// The state and the error at the prompt of a setting that is taken, from
/// the state `c` that is marked changed.
pub open spec fn applied_prompt(c: FirmwareState, param_int: i32, param_byte: u8, tenths: i32) -> (FirmwareState, ErrorCode) {
    let c2 = assigned(c, param_int, param_byte, tenths);
    let c3 = FirmwareState { status: StatusFlags { ee_unlocked: c.sub_ch == 250, ..c2.status }, ..c2 };
    (limited(c3), if out_of_range(c3) {
        ErrorCode::ParamErr
    } else {
        ErrorCode::NoErr
    })
}

/// The state and the error at the prompt that ends a setting.
pub open spec fn set_prompt(c: FirmwareState, param_int: i32, param_byte: u8, tenths: i32) -> (FirmwareState, ErrorCode) {
    if c.status.busy {
        (c, ErrorCode::BusyErr)
    } else {
        let c1 = FirmwareState { changed_flag: true, ..c };
        match set_refusal(c1, param_byte) {
            Some(e) => (c1, e),
            None => applied_prompt(c1, param_int, param_byte, tenths),
        }
    }
}

/// What a setting does: its outcome and the state after it.
pub open spec fn set_result(c: FirmwareState, param_int: i32, param_byte: u8, tenths: i32) -> (SetOutcome, FirmwareState) {
    let (p, e) = set_prompt(c, param_int, param_byte, tenths);
    let taken = !c.status.busy && set_refusal(FirmwareState { changed_flag: true, ..c }, param_byte) is None;
    if taken {
        (SetOutcome::Applied { store_level: c.sub_ch == 1, err: e, shown: prompt_shown(p, e, status_of(p)) }, after_prompt(p, e))
    } else {
        (SetOutcome::Refused { err: e, shown: prompt_shown(p, e, 0) }, after_prompt(p, e))
    }
}

/// What reading a line leads to.
#[derive(Debug, Clone, Copy, PartialEq, Eq, Structural)]
pub enum SqgStep {
    /// Pass the line on.
    Echo,
    /// Answer.
    Reply(SqgReply),
    /// A setting whose number is the text from `start` up to `end` of the
    /// line: the caller reads it and hands it to the setting.
    Assign { start: usize, end: usize },
}

/// What reading a line leads to, with the echo of a line for all modules
/// and the activity LED.
#[derive(Debug, Clone, Copy, PartialEq, Eq, Structural)]
pub struct SqgAction {
    pub echo_first: bool,
    pub led: bool,
    pub step: SqgStep,
}

/// What reading the line `t` does: the action and the state after it.
pub open spec fn line_result(c: FirmwareState, t: Seq<char>) -> (SqgAction, FirmwareState) {
    let o = line_outcome(t, c.slave_ch, c.current_ch, c.sub_ch, c.verbose);
    let c1 = FirmwareState { current_ch: o.current_ch, sub_ch: o.sub_ch, verbose: o.verbose, ..c };
    let (step, n) = match o.route {
        SqgRoute::Prompt => (
            SqgStep::Reply(SqgReply::Prompt { err: ErrorCode::NoErr, shown: prompt_shown(c1, ErrorCode::NoErr, 0) }),
            after_prompt(c1, ErrorCode::NoErr),
        ),
        SqgRoute::Echo => (SqgStep::Echo, c1),
        SqgRoute::Failed(e) => (SqgStep::Reply(SqgReply::Prompt { err: e, shown: prompt_shown(c1, e, 0) }), after_prompt(c1, e)),
        SqgRoute::Get => (SqgStep::Reply(get_reply(c1).0), get_reply(c1).1),
        SqgRoute::Assign { start, end } => (SqgStep::Assign { start, end }, c1),
    };
    (SqgAction { echo_first: o.echo_first, led: o.led, step }, n)
}

/// Whether the error counter can take what reading the line `t` reports.
pub open spec fn line_fits(c: FirmwareState, t: Seq<char>) -> bool {
    let o = line_outcome(t, c.slave_ch, c.current_ch, c.sub_ch, c.verbose);
    match o.route {
        SqgRoute::Failed(e) => c.err_count < i32::MAX,
        SqgRoute::Get => readable(o.sub_ch) || c.err_count < i32::MAX,
        _ => true,
    }
}

impl FirmwareState {
    /// Takes the settings kept in EEPROM.
    pub fn patch_copy_from_ee(&mut self)
        ensures
            *final(self) == (FirmwareState {
                wave: old(self).defaults.init_wave,
                frequenz: old(self).defaults.init_frequenz,
                terz_num: 9,
                burst_mode: old(self).defaults.init_burst,
                inc_rast: old(self).defaults.init_inc_rast,
                ..*old(self)
            }),
    {
        self.wave = self.defaults.init_wave;
        self.frequenz = self.defaults.init_frequenz;
        self.terz_num = 9;
        self.burst_mode = self.defaults.init_burst;
        self.inc_rast = self.defaults.init_inc_rast;
    }

    /// The status prompt for `err` with the status `status`: gives the
    /// number written, if the prompt is written (see [`prompt_shown`] and
    /// [`after_prompt`]).
    pub fn ser_prompt(&mut self, err: ErrorCode, status: u8) -> (r: Option<u8>)
        requires
            prompt_fits(*old(self), err),
        ensures
            r == prompt_shown(*old(self), err, status),
            *final(self) == after_prompt(*old(self), err),
    {
        let mut shown: Option<u8> = None;
        if self.verbose || err != ErrorCode::NoErr {
            self.sub_ch = crate::dds_sqg::ERR_SUB_CH;
            shown = Some(err.code().saturating_add(status));
        }
        if err != ErrorCode::NoErr {
            self.err_count = self.err_count + 1;
            self.err_flag = true;
        }
        shown
    }

    /// Clamps the values to their limits; true where one was out of them.
    pub fn check_limits(&mut self) -> (r: bool)
        ensures
            r == out_of_range(*old(self)),
            *final(self) == limited(*old(self)),
    {
        reveal(limited);
        let f = self.frequenz;
        let nf: i32 = if f < 0 {
            0
        } else if f > 100_000_001 {
            100_000_000
        } else {
            f
        };
        let nw: u8 = if self.wave > C_SQUW {
            C_SQUW
        } else {
            self.wave
        };
        let nt: u8 = if self.terz_num > 30 {
            30
        } else {
            self.terz_num
        };
        let nb: u8 = if self.burst_mode > 100 {
            100
        } else {
            self.burst_mode
        };
        let out = f < 0 || f > 100_000_001 || self.wave > C_SQUW || self.terz_num > 30 || self.burst_mode > 100;
        *self = FirmwareState { frequenz: nf, wave: nw, terz_num: nt, burst_mode: nb, ..*self };
        out
    }

    /// One system tick of the burst generator: with a burst length set, the
    /// DDS runs for the tick where the count is 1 and is reset where it is
    /// 0, when the count starts again from the burst length. Gives the
    /// control word to send, if any (see [`tick_result`]).
    pub fn on_systick(&mut self) -> (r: Option<u16>)
        ensures
            (r, *final(self)) == tick_result(*old(self)),
    {
        if self.burst_mode == 0 {
            return None;
        }
        let mut sent: Option<u16> = None;
        if self.burst_count == 1 {
            self.dss_cmd = self.wave_cmd;
            sent = Some(self.dss_cmd);
        }
        if self.burst_count == 0 {
            self.dss_cmd = C_DDS_RESET_CMD;
            sent = Some(self.dss_cmd);
            self.burst_count = self.burst_mode.saturating_add(1);
        }
        self.burst_count = self.burst_count.saturating_sub(1);
        sent
    }

    /// Sets the attenuator switch (bit 5, where the caller found the level
    /// below the switch point), the waveform command, and the tuning word
    /// `dds_frequ` that the caller computed from the frequency. Gives the
    /// three words for the DDS: the low and the high frequency word, then
    /// the waveform command. The caller first shifts the switch state out
    /// to the level register with level 0.
    pub fn set_level_dds(&mut self, attenuated: bool, dds_frequ: i32) -> (r: [u16; 3])
        ensures
            r@ == seq![low_frequency_word(dds_frequ), high_frequency_word(dds_frequ), wave_command(old(self).wave)],
            *final(self) == (FirmwareState {
                switch_state: if attenuated {
                    32
                } else {
                    0
                },
                wave_cmd: wave_command(old(self).wave),
                dds_frequ,
                dss_cmd: wave_command(old(self).wave),
                ..*old(self)
            }),
    {
        self.switch_state = 0;
        if attenuated {
            self.switch_state = self.switch_state | (1u8 << 5u8);
            assert((0u8 | (1u8 << 5u8)) == 32u8) by (bit_vector);
        }
        self.wave_cmd = if self.wave == C_SINW {
            C_DDS_SINE_CMD
        } else if self.wave == C_TRIW {
            C_DDS_TRIANGLE_CMD
        } else if self.wave == C_SQUW || self.wave == C_LOGIC {
            C_DDS_SQUARE_CMD
        } else {
            C_DDS_RESET_CMD
        };
        self.dds_frequ = dds_frequ;
        let low = ((dds_frequ as u16) & 0x3fff) | DDS_FREQ_REG_CMD;
        let shifted = (dds_frequ as u32) << 2u32;
        let high = (((shifted >> 16u32) as u16) & 0x3fff) | DDS_FREQ_REG_CMD;
        self.dss_cmd = self.wave_cmd;
        [low, high, self.wave_cmd]
    }

    /// The number of the panel menu.
    fn modify_byte(&self) -> (r: u8)
        ensures
            r == modify_number(self.modify),
    {
        match self.modify {
            Modify::WaveSel => 0,
            Modify::FreqSel => 1,
            Modify::AmplSel => 2,
            Modify::BurstSel => 3,
            Modify::DcSel => 4,
        }
    }

    /// Answers a request for the current sub-channel (see [`get_reply`]):
    /// 0 frequency, 1 level, 4 waveform, 5 burst, 20 offset, 80 panel menu,
    /// 89 encoder step, 250/255 status, 251 error count, 252 baud register,
    /// 253 the input line, 254 the version; any other sub-channel is a
    /// parameter error.
    pub fn parse_get_param(&mut self) -> (r: SqgReply)
        requires
            readable(old(self).sub_ch) || old(self).err_count < i32::MAX,
        ensures
            (r, *final(self)) == get_reply(*old(self)),
    {
        self.digits = 2;
        self.nachkomma = 1;
        let k = self.sub_ch;
        if k == 0 {
            self.param_long = self.frequenz;
            SqgReply::Tenths(self.frequenz)
        } else if k == 1 {
            SqgReply::Level
        } else if k == 4 {
            self.param_byte = self.wave;
            SqgReply::Byte(self.wave)
        } else if k == 5 {
            self.param_byte = self.burst_mode;
            SqgReply::Byte(self.burst_mode)
        } else if k == 20 {
            self.nachkomma = 4;
            SqgReply::Millivolts(self.offset_mv)
        } else if k == 80 {
            self.param_byte = self.modify_byte();
            SqgReply::Byte(self.param_byte)
        } else if k == 89 {
            self.param_byte = self.inc_rast as u8;
            SqgReply::Byte(self.param_byte)
        } else if k == 251 {
            SqgReply::Count(self.err_count)
        } else if k == 252 {
            self.param_byte = self.defaults.ee_ser_baud_reg;
            SqgReply::Byte(self.param_byte)
        } else if k == 253 {
            SqgReply::Echo
        } else if k == 254 {
            SqgReply::Version
        } else if k == 250 || k == 255 {
            let status = self.status.to_status_byte();
            let shown = self.ser_prompt(ErrorCode::NoErr, status);
            SqgReply::Prompt { err: ErrorCode::NoErr, shown }
        } else {
            let shown = self.ser_prompt(ErrorCode::ParamErr, 0);
            SqgReply::Prompt { err: ErrorCode::ParamErr, shown }
        }
    }

    /// Why a setting is refused, if it is (see [`set_refusal`]).
    fn refusal(&self, param_byte: u8) -> (r: Option<ErrorCode>)
        ensures
            r == set_refusal(*self, param_byte),
    {
        let k = self.sub_ch;
        if !(k == 0 || k == 1 || k == 4 || k == 5 || k == 80 || k == 89 || k == 250 || k == 251 || k == 252) {
            Some(ErrorCode::ParamErr)
        } else if k == 80 && param_byte > 4 {
            Some(ErrorCode::ParamErr)
        } else if (k == 89 || k == 252) && !self.status.ee_unlocked {
            Some(ErrorCode::LockedErr)
        } else {
            None
        }
    }

    /// Stores the value of a taken setting (see [`assigned`]).
    fn store_setting(&mut self, param_int: i32, param_byte: u8, tenths: i32)
        ensures
            *final(self) == assigned(*old(self), param_int, param_byte, tenths),
    {
        reveal(assigned);
        let k = self.sub_ch;
        if k == 0 {
            self.frequenz = tenths;
        } else if k == 4 {
            self.wave = param_byte;
        } else if k == 5 {
            self.burst_mode = param_byte;
        } else if k == 80 {
            self.modify = if param_byte == 0 {
                Modify::WaveSel
            } else if param_byte == 1 {
                Modify::FreqSel
            } else if param_byte == 2 {
                Modify::AmplSel
            } else if param_byte == 3 {
                Modify::BurstSel
            } else {
                Modify::DcSel
            };
        } else if k == 89 {
            self.inc_rast = param_int;
        } else if k == 251 {
            self.err_count = param_int;
        } else if k == 252 {
            self.defaults.ee_ser_baud_reg = param_byte;
        }
    }

    /// A setting of the current sub-channel with the parameter as integer
    /// and byte, and the frequency in 0.1 Hz that it gives, all read by the
    /// caller from the number (see [`set_result`]): refused while busy, for
    /// a sub-channel that takes no setting, an unknown menu number, or an
    /// EEPROM value while writing is locked; otherwise stored, EEPROM
    /// writing enabled only by a setting of sub-channel 250, the values
    /// clamped to their limits and the prompt written.
    pub fn parse_set_param(&mut self, param_int: i32, param_byte: u8, tenths: i32) -> (r: SetOutcome)
        requires
            prompt_fits(
                set_prompt(*old(self), param_int, param_byte, tenths).0,
                set_prompt(*old(self), param_int, param_byte, tenths).1,
            ),
        ensures
            (r, *final(self)) == set_result(*old(self), param_int, param_byte, tenths),
    {
        if self.status.busy {
            let shown = self.ser_prompt(ErrorCode::BusyErr, 0);
            return SetOutcome::Refused { err: ErrorCode::BusyErr, shown };
        }
        self.changed_flag = true;
        let k = self.sub_ch;
        let refusal = self.refusal(param_byte);
        if let Some(e) = refusal {
            let shown = self.ser_prompt(e, 0);
            return SetOutcome::Refused { err: e, shown };
        }
        self.apply_setting(param_int, param_byte, tenths)
    }

    /// Takes a setting that is not refused (see [`applied_prompt`]).
    fn apply_setting(&mut self, param_int: i32, param_byte: u8, tenths: i32) -> (r: SetOutcome)
        requires
            prompt_fits(
                applied_prompt(*old(self), param_int, param_byte, tenths).0,
                applied_prompt(*old(self), param_int, param_byte, tenths).1,
            ),
        ensures
            ({
                let (p, e) = applied_prompt(*old(self), param_int, param_byte, tenths);
                &&& r == (SetOutcome::Applied { store_level: old(self).sub_ch == 1, err: e, shown: prompt_shown(p, e, status_of(p)) })
                &&& *final(self) == after_prompt(p, e)
            }),
    {
        let k = self.sub_ch;
        self.store_setting(param_int, param_byte, tenths);
        self.status.ee_unlocked = k == 250;
        let out = self.check_limits();
        let status = self.status.to_status_byte();
        let err = if out {
            ErrorCode::ParamErr
        } else {
            ErrorCode::NoErr
        };
        let shown = self.ser_prompt(err, status);
        SetOutcome::Applied { store_level: k == 1, err, shown }
    }

    /// Reads a command line (see [`route_line`] and [`line_result`]):
    /// takes the channel, sub-channel and verbose flag it selects, then
    /// prompts, passes the line on, answers the request, or hands the
    /// setting back to the caller.
    pub fn parse_sub_ch(&mut self, line: &str) -> (r: SqgAction)
        requires
            line.is_ascii(),
            line_fits(*old(self), line@),
        ensures
            (r, *final(self)) == line_result(*old(self), line@),
            r.step matches SqgStep::Assign { start, end } ==> start < end <= line@.len(),
    {
        let o = route_line(line, self.slave_ch, self.current_ch, self.sub_ch, self.verbose);
        self.current_ch = o.current_ch;
        self.sub_ch = o.sub_ch;
        self.verbose = o.verbose;
        let step = match o.route {
            SqgRoute::Prompt => {
                let shown = self.ser_prompt(ErrorCode::NoErr, 0);
                SqgStep::Reply(SqgReply::Prompt { err: ErrorCode::NoErr, shown })
            },
            SqgRoute::Echo => SqgStep::Echo,
            SqgRoute::Failed(e) => {
                let shown = self.ser_prompt(e, 0);
                SqgStep::Reply(SqgReply::Prompt { err: e, shown })
            },
            SqgRoute::Get => SqgStep::Reply(self.parse_get_param()),
            SqgRoute::Assign { start, end } => SqgStep::Assign { start, end },
        };
        SqgAction { echo_first: o.echo_first, led: o.led, step }
    }

    /// The state part of the start-up: the EEPROM settings, the burst
    /// counter, the panel, the channel (no channel selected), the error
    /// count and the version prompt on sub-channel 254. The caller then
    /// writes the version line and loads the DDS.
    pub fn init_all(&mut self)
        ensures
            *final(self) == (FirmwareState {
                wave: old(self).defaults.init_wave,
                frequenz: old(self).defaults.init_frequenz,
                terz_num: 9,
                burst_mode: old(self).defaults.init_burst,
                inc_rast: old(self).defaults.init_inc_rast,
                burst_count: 1,
                modify: Modify::FreqSel,
                first_turn: true,
                current_ch: 255,
                err_count: 0,
                changed_flag: true,
                sub_ch: 254,
                ..*old(self)
            }),
    {
        self.patch_copy_from_ee();
        self.burst_count = 1;
        self.modify = Modify::FreqSel;
        self.first_turn = true;
        self.current_ch = 255;
        self.err_count = 0;
        self.changed_flag = true;
        self.sub_ch = 254;
    }
}

/// Whether every character is printable ASCII (space to `~`).
pub open spec fn printable(t: Seq<char>) -> bool {
    forall|i: int| 0 <= i < t.len() ==> ' ' <= #[trigger] t[i] <= '~'
}

/// The serial input line.
#[derive(Debug)]
pub struct LineBuffer {
    pub text: String,
}

impl LineBuffer {
    /// An empty line.
    pub fn new() -> (r: Self)
        ensures
            r.text@ == Seq::<char>::empty(),
    {
        LineBuffer { text: String::new() }
    }

    /// Takes one received character: printable ASCII is appended, a
    /// backspace removes the last character, anything else is dropped.
    /// True for a carriage return, which ends the line.
    pub fn accept_char(&mut self, ch: char) -> (done: bool)
        ensures
            done == (ch == '\r'),
            ' ' <= ch <= '~' ==> final(self).text@ == old(self).text@.push(ch),
            ch == '\u{8}' ==> final(self).text@ == (if old(self).text@.len() > 0 {
                old(self).text@.drop_last()
            } else {
                old(self).text@
            }),
            !(' ' <= ch <= '~') && ch != '\u{8}' ==> final(self).text@ == old(self).text@,
            printable(old(self).text@) ==> printable(final(self).text@),
    {
        if ' ' <= ch && ch <= '~' {
            push_char(&mut self.text, ch);
        }
        if ch == '\u{8}' {
            let _ = pop_char(&mut self.text);
        }
        proof {
            if printable(old(self).text@) {
                assert forall|i: int| 0 <= i < self.text@.len() implies ' ' <= #[trigger] self.text@[i] <= '~' by {
                    if ' ' <= ch <= '~' && i == old(self).text@.len() {
                    } else {
                        assert(self.text@[i] == old(self).text@[i]);
                    }
                }
            }
        }
        ch == '\r'
    }
}

/// The two frequency words carry the 28-bit tuning word: the low 14 bits in
/// the first, the next 14 in the second, each tagged `01` in its top bits
/// for frequency register 0.
pub proof fn law_frequency_words_carry_tuning_word(dds_frequ: i32)
    ensures
        (low_frequency_word(dds_frequ) & 0xc000) == 0x4000,
        (high_frequency_word(dds_frequ) & 0xc000) == 0x4000,
        (((high_frequency_word(dds_frequ) & 0x3fff) as u32) << 14u32) | ((low_frequency_word(dds_frequ) & 0x3fff) as u32)
            == (dds_frequ as u32) & 0x0fff_ffff,
{
    let x = dds_frequ as u32;
    assert((dds_frequ as u16) == ((dds_frequ as u32) as u16)) by (bit_vector);
    let lo = low_frequency_word(dds_frequ);
    let hi = high_frequency_word(dds_frequ);
    assert(lo == ((x as u16) & 0x3fff) | 0x4000);
    assert(hi == ((((x << 2u32) >> 16u32) as u16) & 0x3fff) | 0x4000);
    assert((((x as u16) & 0x3fff) | 0x4000) & 0xc000 == 0x4000) by (bit_vector);
    assert((((((x << 2u32) >> 16u32) as u16) & 0x3fff) | 0x4000) & 0xc000 == 0x4000) by (bit_vector);
    assert(((((((((x << 2u32) >> 16u32) as u16) & 0x3fff) | 0x4000) & 0x3fff) as u32) << 14u32) | (((((x as u16)
        & 0x3fff) | 0x4000) & 0x3fff) as u32) == x & 0x0fff_ffff) by (bit_vector);
}

/// The burst counter never runs past the burst length: a tick keeps it at
/// most the burst length once it is there.
pub proof fn law_burst_count_stays_within_length(c: FirmwareState)
    requires
        c.burst_count <= c.burst_mode,
    ensures
        tick_result(c).1.burst_count <= c.burst_mode,
        tick_result(c).1.burst_mode == c.burst_mode,
{
}

/// Without a burst length the tick sends nothing and changes nothing.
pub proof fn law_no_burst_no_words(c: FirmwareState)
    requires
        c.burst_mode == 0,
    ensures
        tick_result(c) == (None::<u16>, c),
{
}

/// A burst of length `n` runs the DDS for the tick where the counter is 1
/// and resets it where the counter is 0, from where it starts over at `n`:
/// from counter 0 the generator is reset, `n - 1` ticks later it runs, and
/// one tick after that it is reset again.
pub proof fn law_burst_cycle(c: FirmwareState)
    requires
        0 < c.burst_mode < 255,
        c.burst_count == 0,
    ensures
        tick_result(c).0 == Some(C_DDS_RESET_CMD),
        tick_result(c).1.burst_count == c.burst_mode,
        ({
            let one = FirmwareState { burst_count: 1, ..c };
            &&& tick_result(one).0 == Some(c.wave_cmd)
            &&& tick_result(one).1.burst_count == 0
        }),
{
}

/// Clamping to the limits is done once: clamped values are within them,
/// and clamping again changes nothing.
pub proof fn law_limits_settle(c: FirmwareState)
    ensures
        !out_of_range(limited(c)),
        limited(limited(c)) == limited(c),
{
    reveal(limited);
}

/// Every error prompt is counted and flagged; a prompt without error
/// counts nothing.
pub proof fn law_errors_are_counted(c: FirmwareState, err: ErrorCode)
    requires
        prompt_fits(c, err),
    ensures
        err != ErrorCode::NoErr ==> after_prompt(c, err).err_count == c.err_count + 1 && after_prompt(c, err).err_flag,
        err == ErrorCode::NoErr ==> after_prompt(c, err).err_count == c.err_count,
{
}

/// A setting of an EEPROM value while writing is locked is refused with
/// the lock error and stores nothing; every setting that is taken locks
/// writing again, except the enabling setting of sub-channel 250.
pub proof fn law_eeprom_writes_need_unlock(c: FirmwareState, param_int: i32, param_byte: u8, tenths: i32)
    ensures
        !c.status.busy && (c.sub_ch == 89 || c.sub_ch == 252) && !c.status.ee_unlocked ==> {
            let (o, n) = set_result(c, param_int, param_byte, tenths);
            &&& o matches SetOutcome::Refused { err, .. } && err == ErrorCode::LockedErr
            &&& n.inc_rast == c.inc_rast
            &&& n.defaults == c.defaults
        },
        !c.status.busy && set_refusal(FirmwareState { changed_flag: true, ..c }, param_byte) is None ==> set_result(
            c,
            param_int,
            param_byte,
            tenths,
        ).1.status.ee_unlocked == (c.sub_ch == 250),
{
    reveal(limited);
    reveal(assigned);
}

/// While the generator is busy, a setting is refused and stores nothing.
pub proof fn law_busy_refuses_settings(c: FirmwareState, param_int: i32, param_byte: u8, tenths: i32)
    requires
        c.status.busy,
    ensures
        set_result(c, param_int, param_byte, tenths).0 matches SetOutcome::Refused { err, .. } && err
            == ErrorCode::BusyErr,
        set_result(c, param_int, param_byte, tenths).1 == after_prompt(c, ErrorCode::BusyErr),
{
}

/// A request reads back what a setting stored: the frequency within its
/// limits, the waveform up to square, the burst length up to 100.
pub proof fn law_request_reads_back_setting(c: FirmwareState, param_int: i32, param_byte: u8, tenths: i32)
    requires
        !c.status.busy,
    ensures
        c.sub_ch == 0 && 0 <= tenths <= 100_000_001 ==> get_reply(
            FirmwareState { sub_ch: 0, ..set_result(c, param_int, param_byte, tenths).1 },
        ).0 == SqgReply::Tenths(tenths),
        c.sub_ch == 4 && param_byte <= 3 ==> get_reply(
            FirmwareState { sub_ch: 4, ..set_result(c, param_int, param_byte, tenths).1 },
        ).0 == SqgReply::Byte(param_byte),
        c.sub_ch == 5 && param_byte <= 100 ==> get_reply(
            FirmwareState { sub_ch: 5, ..set_result(c, param_int, param_byte, tenths).1 },
        ).0 == SqgReply::Byte(param_byte),
{
    reveal(limited);
    reveal(assigned);
}

/// Each keyword selects the sub-channels that the protocol gives it,
/// whatever the case of its letters: the number behind `VAL`, `FRQ` and
/// `NOP` counts from 0, behind `LVL` from 1, `LVP` 2, `DBU` 3, `WAV` 4, `BST`
/// 5, `INL` 10, `RNG` 19, `DCO` 20, `DSP` 80, `ALL` 99, `SCL` 200, `TRG` 249,
/// `WEN` 250, `ERC` 251, `SBD` 252, `IDN` 254 and `STR` 255.
pub proof fn law_keywords_select_their_sub_channels(t: Seq<char>)
    ensures
        upper_text(t) == seq!['S', 'T', 'R'] ==> find_command(t, 0) == CmdWhich::Str && offset_from(CmdWhich::Str, 0) == 255u8,
        upper_text(t) == seq!['I', 'D', 'N'] ==> find_command(t, 0) == CmdWhich::Idn && offset_from(CmdWhich::Idn, 0) == 254u8,
        upper_text(t) == seq!['T', 'R', 'G'] ==> find_command(t, 0) == CmdWhich::Trg && offset_from(CmdWhich::Trg, 0) == 249u8,
        upper_text(t) == seq!['V', 'A', 'L'] ==> find_command(t, 0) == CmdWhich::Val && offset_from(CmdWhich::Val, 0) == 0u8,
        upper_text(t) == seq!['F', 'R', 'Q'] ==> find_command(t, 0) == CmdWhich::Frq && offset_from(CmdWhich::Frq, 0) == 0u8,
        upper_text(t) == seq!['L', 'V', 'L'] ==> find_command(t, 0) == CmdWhich::Lvl && offset_from(CmdWhich::Lvl, 0) == 1u8,
        upper_text(t) == seq!['L', 'V', 'P'] ==> find_command(t, 0) == CmdWhich::Lvp && offset_from(CmdWhich::Lvp, 0) == 2u8,
        upper_text(t) == seq!['D', 'B', 'U'] ==> find_command(t, 0) == CmdWhich::Dbv && offset_from(CmdWhich::Dbv, 0) == 3u8,
        upper_text(t) == seq!['W', 'A', 'V'] ==> find_command(t, 0) == CmdWhich::Wav && offset_from(CmdWhich::Wav, 0) == 4u8,
        upper_text(t) == seq!['B', 'S', 'T'] ==> find_command(t, 0) == CmdWhich::Bst && offset_from(CmdWhich::Bst, 0) == 5u8,
        upper_text(t) == seq!['I', 'N', 'L'] ==> find_command(t, 0) == CmdWhich::Inl && offset_from(CmdWhich::Inl, 0) == 10u8,
        upper_text(t) == seq!['R', 'N', 'G'] ==> find_command(t, 0) == CmdWhich::Rng && offset_from(CmdWhich::Rng, 0) == 19u8,
        upper_text(t) == seq!['D', 'C', 'O'] ==> find_command(t, 0) == CmdWhich::Ofs && offset_from(CmdWhich::Ofs, 0) == 20u8,
        upper_text(t) == seq!['D', 'S', 'P'] ==> find_command(t, 0) == CmdWhich::Dsp && offset_from(CmdWhich::Dsp, 0) == 80u8,
        upper_text(t) == seq!['A', 'L', 'L'] ==> find_command(t, 0) == CmdWhich::All && offset_from(CmdWhich::All, 0) == 99u8,
        upper_text(t) == seq!['S', 'C', 'L'] ==> find_command(t, 0) == CmdWhich::Scl && offset_from(CmdWhich::Scl, 0) == 200u8,
        upper_text(t) == seq!['W', 'E', 'N'] ==> find_command(t, 0) == CmdWhich::Wen && offset_from(CmdWhich::Wen, 0) == 250u8,
        upper_text(t) == seq!['E', 'R', 'C'] ==> find_command(t, 0) == CmdWhich::Erc && offset_from(CmdWhich::Erc, 0) == 251u8,
        upper_text(t) == seq!['S', 'B', 'D'] ==> find_command(t, 0) == CmdWhich::Sbd && offset_from(CmdWhich::Sbd, 0) == 252u8,
        upper_text(t) == seq!['N', 'O', 'P'] ==> find_command(t, 0) == CmdWhich::Nop && offset_from(CmdWhich::Nop, 0) == 0u8,
{
    assert(upper_text(seq!['N', 'O', 'P']) =~= seq!['N', 'O', 'P']);
    assert(upper_text(cmd_entry(0).0) =~= cmd_entry(0).0);
    assert(upper_text(cmd_entry(1).0) =~= cmd_entry(1).0);
    assert(upper_text(cmd_entry(2).0) =~= cmd_entry(2).0);
    assert(upper_text(cmd_entry(3).0) =~= cmd_entry(3).0);
    assert(upper_text(cmd_entry(4).0) =~= cmd_entry(4).0);
    assert(upper_text(cmd_entry(5).0) =~= cmd_entry(5).0);
    assert(upper_text(cmd_entry(6).0) =~= cmd_entry(6).0);
    assert(upper_text(cmd_entry(7).0) =~= cmd_entry(7).0);
    assert(upper_text(cmd_entry(8).0) =~= cmd_entry(8).0);
    assert(upper_text(cmd_entry(9).0) =~= cmd_entry(9).0);
    assert(upper_text(cmd_entry(10).0) =~= cmd_entry(10).0);
    assert(upper_text(cmd_entry(11).0) =~= cmd_entry(11).0);
    assert(upper_text(cmd_entry(12).0) =~= cmd_entry(12).0);
    assert(upper_text(cmd_entry(13).0) =~= cmd_entry(13).0);
    assert(upper_text(cmd_entry(14).0) =~= cmd_entry(14).0);
    assert(upper_text(cmd_entry(15).0) =~= cmd_entry(15).0);
    assert(upper_text(cmd_entry(16).0) =~= cmd_entry(16).0);
    assert(upper_text(cmd_entry(17).0) =~= cmd_entry(17).0);
    assert(upper_text(cmd_entry(18).0) =~= cmd_entry(18).0);
    reveal_with_fuel(find_command, 20);
    reveal_with_fuel(offset_from, 20);
}

/// The first sub-channel of a keyword is the setting it names: a request
/// there answers, and a setting there stores, the frequency for `FRQ`, the
/// waveform for `WAV` and the burst mode for `BST`; `LVL` answers the level
/// and `DCO` the DC offset in mV.
pub proof fn law_keyword_sub_channels_hold_their_settings(c: FirmwareState, param_int: i32, param_byte: u8, tenths: i32)
    ensures
        c.sub_ch == offset_from(CmdWhich::Frq, 0) ==> get_reply(c).0 == SqgReply::Tenths(c.frequenz)
            && assigned(c, param_int, param_byte, tenths).frequenz == tenths,
        c.sub_ch == offset_from(CmdWhich::Lvl, 0) ==> get_reply(c).0 == SqgReply::Level,
        c.sub_ch == offset_from(CmdWhich::Wav, 0) ==> get_reply(c).0 == SqgReply::Byte(c.wave)
            && assigned(c, param_int, param_byte, tenths).wave == param_byte,
        c.sub_ch == offset_from(CmdWhich::Bst, 0) ==> get_reply(c).0 == SqgReply::Byte(c.burst_mode)
            && assigned(c, param_int, param_byte, tenths).burst_mode == param_byte,
        c.sub_ch == offset_from(CmdWhich::Ofs, 0) ==> get_reply(c).0 == SqgReply::Millivolts(c.offset_mv),
{
    reveal(assigned);
    reveal_with_fuel(offset_from, 20);
}

/// The control word that the square-wave generator sends to the AD9833
/// for a waveform number tells it to put out that waveform: a sine for 1,
/// a triangle for 2, the square for 3 and for the logic output 4, and no
/// output (reset) for any other number.
pub proof fn law_wave_numbers_select_their_output(wave: u8)
    ensures
        ad9833_word_puts_out(
            wave_command(wave),
            !(1 <= wave <= 4),
            wave == C_TRIW,
            wave == C_SQUW || wave == C_LOGIC,
        ),
{
    lemma_ad9833_words();
}

} // verus!
