//! The ADA-IO module: protocol tables and codes, the digital ports (PCA9554A
//! port expanders or the 4094 shift register chain), the DAC codes, the
//! feature list, the trigger scan order and the baud-rate fallback.
//!
//! Values that the module keeps as floating point (scales, DAC setpoints,
//! ADC conversions) stay with the caller.

use vstd::prelude::*;

use crate::protocol::{pack_status, status_byte};
use crate::text::{chars_of, push_char};

verus! {

pub const PROC_CLOCK: u32 = 16_000_000;

pub const DDR_B_INIT: u8 = 0b0101_1011;

pub const PORT_B_INIT: u8 = 0b1011_1111;

pub const DDR_C_INIT: u8 = 0b1111_1100;

pub const PORT_C_INIT: u8 = 0b0000_0011;

pub const DDR_D_INIT: u8 = 0b0000_1100;

pub const PORT_D_INIT: u8 = 0b1111_1100;

pub const B_SCLK: u8 = 0;

pub const B_SDATAOUT: u8 = 1;

pub const B_TRIG: u8 = 2;

pub const B_STR_DAC: u8 = 3;

pub const B_STR_AD16: u8 = 4;

pub const B_SDATAIN1: u8 = 5;

pub const B_STR_SR: u8 = 6;

pub const B_SENSE: u8 = 7;

pub const B_STR_DA_MUX: u8 = 5;

pub const VERS1_STR: &'static str = "1.742 [ADA by CM/c't 04/2007; ";

pub const VERS3_STR: &'static str = "ADA 1.74";

pub const ADR_STR: &'static str = "Adr ";

pub const CARDS_STR: &'static str = "IO-Cards";

pub const VALUE_STR: &'static str = "Value ";

pub const EE_NOT_PROGRAMMED_STR: &'static str = "EEPROM EMPTY! ";

pub const DAC12_STR: &'static str = "DA12 ";

pub const DAC16_STR: &'static str = "DA16 ";

pub const ADC16_STR: &'static str = "AD16 ";

pub const LCD_STR: &'static str = "LCD ";

pub const IO816_STR: &'static str = "IO32 ";

pub const EGG_STR: &'static str = "28.5 [Michaela, ich liebe dich!]";

pub const ERR_SUB_CH: u8 = 255;

/// Texts of the error codes.
pub const ERR_STR_ARR: [&'static str; 8] = [
    "[OK]",
    "[SRQUSR]",
    "[BUSY]",
    "[OVERLD]",
    "[CMDERR]",
    "[PARERR]",
    "[LOCKED]",
    "[CHKSUM]",
];

/// Command keywords.
pub const CMD_STR_ARR: [&'static str; 25] = [
    "TRG", "STR", "IDN", "VAL", "OFS", "SCL", "RAW", "PIO", "DIR", "DSP", "ALL", "OPT",
    "TRM", "TRT", "TRL", "ICB", "ICW", "ICS", "ICT", "ICA", "REF", "WEN", "ERC", "SBD",
    "NOP",
];

/// Sub-channel offset of each command keyword.
pub const CMD2_SUB_CH_ARR: [u8; 25] = [
    249, 255, 254, 0, 100, 200, 50, 30, 40, 80, 95, 150, 240, 247, 248, 230, 231, 232, 233,
    239, 246, 250, 251, 252, 0,
];

/// Command keywords of the module.
#[derive(Debug, Clone, Copy, PartialEq, Eq, Structural)]
pub enum CmdWhich {
    Trg,
    Str,
    Idn,
    Erc,
    Val,
    Ofs,
    Scl,
    Raw,
    Pio,
    Dir,
    Dsp,
    All,
    Opt,
    Trm,
    Trt,
    Trl,
    Icb,
    Icw,
    Ics,
    Ict,
    Ica,
    Ref,
    Wen,
    Sbd,
    Nop,
    Invalid,
}

/// Error codes of the protocol.
#[derive(Debug, Clone, Copy, PartialEq, Eq, Structural)]
pub enum ErrorCode {
    NoErr,
    UserReq,
    BusyErr,
    OvlErr,
    SyntaxErr,
    ParamErr,
    LockedErr,
    ChecksumErr,
}

/// Runtime status: the code reported to the host and four flags.
#[derive(Debug, Clone, Copy, PartialEq, Eq, Structural)]
pub struct RuntimeStatus {
    pub error_low_nibble: u8,
    pub ee_unlocked: bool,
    pub overload_flag: bool,
    pub user_srq_flag: bool,
    pub busy_flag: bool,
}

impl Default for RuntimeStatus {
    fn default() -> (r: Self)
        ensures
            r == (RuntimeStatus {
                error_low_nibble: 0,
                ee_unlocked: false,
                overload_flag: false,
                user_srq_flag: false,
                busy_flag: false,
            }),
    {
        RuntimeStatus { error_low_nibble: 0, ee_unlocked: false, overload_flag: false, user_srq_flag: false, busy_flag: false }
    }
}

impl RuntimeStatus {
    /// The status byte of the serial protocol: bits 3..0 the reported code,
    /// bit 4 write enable, bit 5 overload, bit 6 user request, bit 7 busy.
    pub fn as_byte(self) -> (r: u8)
        ensures
            r == status_byte(self.error_low_nibble, self.ee_unlocked, self.overload_flag, self.user_srq_flag, self.busy_flag),
    {
        pack_status(self.error_low_nibble, self.ee_unlocked, self.overload_flag, self.user_srq_flag, self.busy_flag)
    }
}

/// What the module asks of its hardware.
#[derive(Debug, Clone, Copy, PartialEq, Eq)]
pub enum AdaIoEvent {
    /// A conversion of the internal ADC channel (counted from 1).
    Adc(u8),
    /// A two-byte command to the I2C device at the address.
    Twi(u8, u16),
    /// The eight port bytes shifted out to the 4094 chain.
    ShiftOut([u8; 8]),
    /// A read of the input pins of a port expander.
    ReadPin(u8),
    /// A direction byte written to a port expander.
    WriteDir(u8, u8),
    /// The probe for port expanders.
    DetectExpander,
    /// The probe of the SENSE line.
    DetectSense,
    /// A read of the slave channel jumpers.
    ReadSlave,
    /// The edge of the external trigger: positive or negative.
    TriggerEdge(bool),
    /// Interrupts switched on.
    EnableInterrupts,
}

/// The hardware of the module, as a board or a test implements it. Every
/// call is recorded in [`events`](AdaHardware::events); what a read gives
/// back is the hardware's.
pub trait AdaHardware {
    /// The calls made so far.
    spec fn events(&self) -> Seq<AdaIoEvent>;

    fn get_adc(&mut self, channel_1_based: u8) -> (r: i16)
        ensures
            final(self).events() == old(self).events().push(AdaIoEvent::Adc(channel_1_based)),
    ;

    fn twi_out(&mut self, slave_addr: u8, command: u16) -> (r: bool)
        ensures
            final(self).events() == old(self).events().push(AdaIoEvent::Twi(slave_addr, command)),
    ;

    fn shift_out_sr(&mut self, port_array: &[u8; 8])
        ensures
            final(self).events() == old(self).events().push(AdaIoEvent::ShiftOut(*port_array)),
    ;

    fn read_io_pin(&mut self, port: u8) -> (r: u8)
        ensures
            final(self).events() == old(self).events().push(AdaIoEvent::ReadPin(port)),
    ;

    fn write_io_dir(&mut self, port: u8, value: u8)
        ensures
            final(self).events() == old(self).events().push(AdaIoEvent::WriteDir(port, value)),
    ;

    fn detect_i2c_expander(&mut self) -> (r: bool)
        ensures
            final(self).events() == old(self).events().push(AdaIoEvent::DetectExpander),
    ;

    fn detect_sense(&mut self) -> (r: bool)
        ensures
            final(self).events() == old(self).events().push(AdaIoEvent::DetectSense),
    ;

    fn read_slave_channel(&mut self) -> (r: u8)
        ensures
            final(self).events() == old(self).events().push(AdaIoEvent::ReadSlave),
    ;

    fn set_external_trigger_edge(&mut self, positive: bool)
        ensures
            final(self).events() == old(self).events().push(AdaIoEvent::TriggerEdge(positive)),
    ;

    fn enable_interrupts(&mut self)
        ensures
            final(self).events() == old(self).events().push(AdaIoEvent::EnableInterrupts),
    ;
}

/// Hardware that records what is asked of it, in order, and answers reads
/// from its fields: the caller performs the recorded actions on the board.
pub struct AdaRecorder {
    pub log: Vec<AdaIoEvent>,
    pub adc_value: i16,
    pub pin_value: u8,
    pub expander_found: bool,
    pub sense: bool,
    pub slave_channel: u8,
    pub twi_ack: bool,
}

impl AdaHardware for AdaRecorder {
    open spec fn events(&self) -> Seq<AdaIoEvent> {
        self.log@
    }

    fn get_adc(&mut self, channel_1_based: u8) -> (r: i16)
        ensures
            r == old(self).adc_value,
    {
        self.log.push(AdaIoEvent::Adc(channel_1_based));
        self.adc_value
    }

    fn twi_out(&mut self, slave_addr: u8, command: u16) -> (r: bool)
        ensures
            r == old(self).twi_ack,
    {
        self.log.push(AdaIoEvent::Twi(slave_addr, command));
        self.twi_ack
    }

    fn shift_out_sr(&mut self, port_array: &[u8; 8]) {
        self.log.push(AdaIoEvent::ShiftOut(*port_array));
    }

    fn read_io_pin(&mut self, port: u8) -> (r: u8)
        ensures
            r == old(self).pin_value,
    {
        self.log.push(AdaIoEvent::ReadPin(port));
        self.pin_value
    }

    fn write_io_dir(&mut self, port: u8, value: u8) {
        self.log.push(AdaIoEvent::WriteDir(port, value));
    }

    fn detect_i2c_expander(&mut self) -> (r: bool)
        ensures
            r == old(self).expander_found,
    {
        self.log.push(AdaIoEvent::DetectExpander);
        self.expander_found
    }

    fn detect_sense(&mut self) -> (r: bool)
        ensures
            r == old(self).sense,
    {
        self.log.push(AdaIoEvent::DetectSense);
        self.sense
    }

    fn read_slave_channel(&mut self) -> (r: u8)
        ensures
            r == old(self).slave_channel,
    {
        self.log.push(AdaIoEvent::ReadSlave);
        self.slave_channel
    }

    fn set_external_trigger_edge(&mut self, positive: bool) {
        self.log.push(AdaIoEvent::TriggerEdge(positive));
    }

    fn enable_interrupts(&mut self) {
        self.log.push(AdaIoEvent::EnableInterrupts);
    }
}

/// The eight digital ports: their output bytes, the last input bytes read,
/// their directions, and whether port expanders (I2C) are fitted in place
/// of the shift register chain.
pub struct DigitalPorts<H> {
    pub hw: H,
    pub port_array: [u8; 8],
    pub io_pin_cache: [u8; 8],
    pub dir_init_array: [u8; 8],
    pub io_present: bool,
    pub i2c_slave_adr: u8,
    pub param_int: i16,
}

impl<H: AdaHardware> DigitalPorts<H> {
    /// Reads port `my_port`: from its expander, keeping a copy of the byte,
    /// or without expanders the byte last written.
    pub fn get_port(&mut self, my_port: u8) -> (r: u8)
        requires
            my_port < 8,
        ensures
            old(self).io_present ==> {
                &&& final(self).hw.events() == old(self).hw.events().push(AdaIoEvent::ReadPin(my_port))
                &&& final(self).io_pin_cache@ == old(self).io_pin_cache@.update(my_port as int, r)
            },
            !old(self).io_present ==> {
                &&& r == old(self).port_array[my_port as int]
                &&& final(self).hw.events() == old(self).hw.events()
                &&& final(self).io_pin_cache == old(self).io_pin_cache
            },
            final(self).port_array == old(self).port_array,
            final(self).dir_init_array == old(self).dir_init_array,
            final(self).io_present == old(self).io_present,
            final(self).i2c_slave_adr == old(self).i2c_slave_adr,
            final(self).param_int == old(self).param_int,
    {
        let index = my_port as usize;
        if self.io_present {
            let value = self.hw.read_io_pin(my_port);
            self.io_pin_cache[index] = value;
            value
        } else {
            self.port_array[index]
        }
    }

    /// Writes `my_val` to port `my_port`: the byte is kept; with expanders
    /// it goes to the expander at `0x38 + port` as command `0x0100 + value`
    /// (output register), without them all eight bytes are shifted out.
    pub fn set_port(&mut self, my_port: u8, my_val: u8)
        requires
            my_port < 8,
        ensures
            final(self).port_array@ == old(self).port_array@.update(my_port as int, my_val),
            old(self).io_present ==> {
                &&& final(self).i2c_slave_adr == my_port + 0x38
                &&& final(self).param_int == 0x0100 + my_val
                &&& final(self).hw.events() == old(self).hw.events().push(
                    AdaIoEvent::Twi((my_port + 0x38) as u8, (0x0100 + my_val) as u16),
                )
            },
            !old(self).io_present ==> {
                &&& final(self).i2c_slave_adr == old(self).i2c_slave_adr
                &&& final(self).param_int == old(self).param_int
                &&& final(self).hw.events() == old(self).hw.events().push(AdaIoEvent::ShiftOut(final(self).port_array))
            },
            final(self).io_pin_cache == old(self).io_pin_cache,
            final(self).dir_init_array == old(self).dir_init_array,
            final(self).io_present == old(self).io_present,
    {
        let index = my_port as usize;
        self.port_array[index] = my_val;
        if self.io_present {
            self.i2c_slave_adr = my_port + 0x38;
            self.param_int = 0x0100i16 + my_val as i16;
            let _ = self.hw.twi_out(self.i2c_slave_adr, self.param_int as u16);
        } else {
            self.hw.shift_out_sr(&self.port_array);
        }
    }

    /// Sets the direction of port `my_port`: kept (it survives a reset in
    /// EEPROM) and, with expanders, written to the expander.
    pub fn set_dir(&mut self, my_port: u8, my_val: u8)
        requires
            my_port < 8,
        ensures
            final(self).dir_init_array@ == old(self).dir_init_array@.update(my_port as int, my_val),
            old(self).io_present ==> final(self).hw.events() == old(self).hw.events().push(
                AdaIoEvent::WriteDir(my_port, my_val),
            ),
            !old(self).io_present ==> final(self).hw.events() == old(self).hw.events(),
            final(self).port_array == old(self).port_array,
            final(self).io_pin_cache == old(self).io_pin_cache,
            final(self).io_present == old(self).io_present,
            final(self).i2c_slave_adr == old(self).i2c_slave_adr,
            final(self).param_int == old(self).param_int,
    {
        self.dir_init_array[my_port as usize] = my_val;
        if self.io_present {
            self.hw.write_io_dir(my_port, my_val);
        }
    }
}

/// The calls that set the ports up, port by port: with expanders the
/// direction, the output byte and the cleared polarity register of each;
/// without them the shift register chain with the bytes written so far.
pub open spec fn setup_events(ev: Seq<AdaIoEvent>, io: bool, dirs: Seq<u8>, ports: Seq<u8>, before: Seq<u8>, n: nat) -> bool {
    if io {
        &&& ev.len() == 3 * n
        &&& forall|k: int|
            #![trigger ev[3 * k]]
            0 <= k < n ==> {
                &&& ev[3 * k] == AdaIoEvent::WriteDir(k as u8, dirs[k])
                &&& ev[3 * k + 1] == AdaIoEvent::Twi((0x38 + k) as u8, (0x0100 + ports[k]) as u16)
                &&& ev[3 * k + 2] == AdaIoEvent::Twi((0x38 + k) as u8, 0x0200)
            }
    } else {
        &&& ev.len() == n
        &&& forall|k: int|
            0 <= k < n ==> (#[trigger] ev[k] matches AdaIoEvent::ShiftOut(a) && a@ == ports.take(k + 1) + before.skip(
                k + 1,
            ))
    }
}

impl<H: AdaHardware> DigitalPorts<H> {
    /// Sets the ports up after reset: looks for port expanders, then gives
    /// each port its stored direction and its start-up byte, and with
    /// expanders clears each polarity register (see [`setup_events`]).
    pub fn init_ports(&mut self, port_init_array: [u8; 8])
        ensures
            final(self).hw.events().len() >= old(self).hw.events().len() + 1,
            final(self).hw.events()[old(self).hw.events().len() as int] == AdaIoEvent::DetectExpander,
            setup_events(
                final(self).hw.events().skip(old(self).hw.events().len() as int + 1),
                final(self).io_present,
                old(self).dir_init_array@,
                port_init_array@,
                old(self).port_array@,
                8,
            ),
            final(self).port_array == port_init_array,
            final(self).dir_init_array == old(self).dir_init_array,
            final(self).io_pin_cache == old(self).io_pin_cache,
    {
        let ghost e0 = self.hw.events();
        let ghost before = self.port_array@;
        let ghost dirs = self.dir_init_array@;
        self.io_present = self.hw.detect_i2c_expander();
        let ghost base: int = e0.len() as int + 1;
        let mut i: u8 = 0;
        while i < 8
            invariant
                i <= 8,
                base == e0.len() + 1,
                self.hw.events().len() >= base,
                self.hw.events().subrange(0, base) == e0.push(AdaIoEvent::DetectExpander),
                setup_events(self.hw.events().skip(base), self.io_present, dirs, port_init_array@, before, i as nat),
                self.port_array@ == port_init_array@.take(i as int) + before.skip(i as int),
                self.dir_init_array@ == dirs,
                self.io_pin_cache == old(self).io_pin_cache,
                before.len() == 8,
                dirs.len() == 8,
            decreases 8 - i,
        {
            let ghost ev0 = self.hw.events();
            let dir = self.dir_init_array[i as usize];
            self.set_dir(i, dir);
            let ghost ev1 = self.hw.events();
            let port = port_init_array[i as usize];
            self.port_array[i as usize] = port;
            self.set_port(i, port);
            let ghost ev2 = self.hw.events();
            if self.io_present {
                let _ = self.hw.twi_out(0x38 + i, 0x0200);
            }
            proof {
                let ev = self.hw.events();
                let extra: Seq<AdaIoEvent> = if self.io_present {
                    seq![
                        AdaIoEvent::WriteDir(i, dirs[i as int]),
                        AdaIoEvent::Twi((0x38 + i) as u8, (0x0100 + port_init_array@[i as int]) as u16),
                        AdaIoEvent::Twi((0x38 + i) as u8, 0x0200),
                    ]
                } else {
                    seq![AdaIoEvent::ShiftOut(self.port_array)]
                };
                assert(ev =~= ev0 + extra);
                assert(ev.subrange(0, base) =~= ev0.subrange(0, base));
                assert(self.port_array@ =~= port_init_array@.take(i + 1) + before.skip(i + 1));
                let old_tail = ev0.skip(base);
                let tail = ev.skip(base);
                if self.io_present {
                    assert(tail =~= old_tail + seq![
                        AdaIoEvent::WriteDir(i, dirs[i as int]),
                        AdaIoEvent::Twi((0x38 + i) as u8, (0x0100 + port_init_array@[i as int]) as u16),
                        AdaIoEvent::Twi((0x38 + i) as u8, 0x0200),
                    ]);
                    assert forall|k: int| #![trigger tail[3 * k]] 0 <= k < i + 1 implies {
                        &&& tail[3 * k] == AdaIoEvent::WriteDir(k as u8, dirs[k])
                        &&& tail[3 * k + 1] == AdaIoEvent::Twi((0x38 + k) as u8, (0x0100 + port_init_array@[k]) as u16)
                        &&& tail[3 * k + 2] == AdaIoEvent::Twi((0x38 + k) as u8, 0x0200)
                    } by {
                        if k < i {
                            assert(tail[3 * k] == old_tail[3 * k]);
                            assert(tail[3 * k + 1] == old_tail[3 * k + 1]);
                            assert(tail[3 * k + 2] == old_tail[3 * k + 2]);
                        }
                    }
                } else {
                    assert(tail =~= old_tail.push(AdaIoEvent::ShiftOut(self.port_array)));
                    assert forall|k: int| 0 <= k < i + 1 implies (#[trigger] tail[k] matches AdaIoEvent::ShiftOut(a) && a@
                        == port_init_array@.take(k + 1) + before.skip(k + 1)) by {
                        if k < i {
                            assert(tail[k] == old_tail[k]);
                        }
                    }
                }
            }
            i = i + 1;
        }
        proof {
            assert(self.port_array@ =~= port_init_array@);
            assert(self.hw.events().subrange(0, base)[e0.len() as int] == AdaIoEvent::DetectExpander);
        }
    }
}

/// What a sub-channel of the module reads.
#[derive(Debug, Clone, Copy, PartialEq, Eq, Structural)]
pub enum AdaChannel {
    /// Internal 10-bit ADC channel `n` (sub-channels 0 to 7).
    Adc10(u8),
    /// Channel `n` of the AD16 card (sub-channels 10 to 17).
    Ad16(u8),
    /// The setpoint of DAC `n` (sub-channels 20 to 27).
    Dac(u8),
    /// Digital port `n` (sub-channels 30 to 37).
    Port(u8),
    /// The direction of digital port `n` (sub-channels 40 to 47).
    Dir(u8),
    /// Any other sub-channel.
    Other,
}

/// The channel behind a sub-channel number.
pub open spec fn channel_spec(k: u8) -> AdaChannel {
    if k <= 7 {
        AdaChannel::Adc10(k)
    } else if 10 <= k <= 17 {
        AdaChannel::Ad16((k - 10) as u8)
    } else if 20 <= k <= 27 {
        AdaChannel::Dac((k - 20) as u8)
    } else if 30 <= k <= 37 {
        AdaChannel::Port((k - 30) as u8)
    } else if 40 <= k <= 47 {
        AdaChannel::Dir((k - 40) as u8)
    } else {
        AdaChannel::Other
    }
}

/// The channel behind a sub-channel number (see [`channel_spec`]).
pub fn channel_of(sub_ch: u8) -> (r: AdaChannel)
    ensures
        r == channel_spec(sub_ch),
{
    if sub_ch <= 7 {
        AdaChannel::Adc10(sub_ch)
    } else if 10 <= sub_ch && sub_ch <= 17 {
        AdaChannel::Ad16(sub_ch - 10)
    } else if 20 <= sub_ch && sub_ch <= 27 {
        AdaChannel::Dac(sub_ch - 20)
    } else if 30 <= sub_ch && sub_ch <= 37 {
        AdaChannel::Port(sub_ch - 30)
    } else if 40 <= sub_ch && sub_ch <= 47 {
        AdaChannel::Dir(sub_ch - 40)
    } else {
        AdaChannel::Other
    }
}

/// The number of an error code, in declaration order.
pub open spec fn error_number(e: ErrorCode) -> u8 {
    match e {
        ErrorCode::NoErr => 0,
        ErrorCode::UserReq => 1,
        ErrorCode::BusyErr => 2,
        ErrorCode::OvlErr => 3,
        ErrorCode::SyntaxErr => 4,
        ErrorCode::ParamErr => 5,
        ErrorCode::LockedErr => 6,
        ErrorCode::ChecksumErr => 7,
    }
}

impl ErrorCode {
    /// The number of the code as reported to the host.
    pub fn code(self) -> (r: u8)
        ensures
            r == error_number(self),
    {
        match self {
            ErrorCode::NoErr => 0,
            ErrorCode::UserReq => 1,
            ErrorCode::BusyErr => 2,
            ErrorCode::OvlErr => 3,
            ErrorCode::SyntaxErr => 4,
            ErrorCode::ParamErr => 5,
            ErrorCode::LockedErr => 6,
            ErrorCode::ChecksumErr => 7,
        }
    }
}

/// The fields that a status prompt reads and writes.
#[derive(Debug, Clone, Copy, PartialEq, Eq, Structural)]
pub struct PromptState {
    pub verbose: bool,
    pub sub_ch: u8,
    pub err_count: i16,
    pub err_flag: bool,
}

impl PromptState {
    /// The status prompt for `err` with the status `my_status`: written in
    /// verbose mode or for an error, on the error sub-channel 255, with the
    /// number code plus status; an error is counted and flagged. Gives the
    /// number written, if the prompt is written.
    pub fn ser_prompt(&mut self, err: ErrorCode, my_status: u8) -> (r: Option<u8>)
        requires
            old(self).verbose || err != ErrorCode::NoErr ==> error_number(err) + my_status <= 255,
            err != ErrorCode::NoErr ==> old(self).err_count < i16::MAX,
        ensures
            r == (if old(self).verbose || err != ErrorCode::NoErr {
                Some((error_number(err) + my_status) as u8)
            } else {
                None
            }),
            final(self).sub_ch == (if old(self).verbose || err != ErrorCode::NoErr {
                ERR_SUB_CH
            } else {
                old(self).sub_ch
            }),
            final(self).err_count == (if err != ErrorCode::NoErr {
                old(self).err_count + 1
            } else {
                old(self).err_count as int
            }),
            final(self).err_flag == (old(self).err_flag || err != ErrorCode::NoErr),
            final(self).verbose == old(self).verbose,
    {
        let mut shown: Option<u8> = None;
        if self.verbose || err != ErrorCode::NoErr {
            self.sub_ch = ERR_SUB_CH;
            shown = Some(err.code() + my_status);
        }
        if err != ErrorCode::NoErr {
            self.err_count = self.err_count + 1;
            self.err_flag = true;
        }
        shown
    }
}

/// The three DAC codings of the module.
#[derive(Debug, Clone, Copy, PartialEq, Eq, Structural)]
pub enum DacCoding {
    /// DAC714 or PCM56: signed 16-bit code, two's complement.
    Dac714,
    /// LTC1655: 16 bits, inverted offset binary around `0x8000`.
    Ltc1655,
    /// LTC1257: 12 bits, inverted offset binary around `0x0800`.
    Ltc1257,
}

/// `x` clamped to `-limit..=limit`.
pub open spec fn clamp_to(x: int, limit: int) -> int {
    if x < -limit {
        -limit
    } else if x > limit {
        limit
    } else {
        x
    }
}

/// The DAC code for a scaled setpoint plus the channel offset.
pub open spec fn dac_code(coding: DacCoding, scaled: int, offset: int) -> u16 {
    match coding {
        DacCoding::Dac714 => (clamp_to(scaled + offset, 32767) % 0x1_0000) as u16,
        DacCoding::Ltc1655 => (0x8000 - clamp_to(scaled + offset, 32767)) as u16,
        DacCoding::Ltc1257 => (0x0800 - clamp_to(scaled + offset, 2047)) as u16,
    }
}

/// The DAC code of a setpoint that the caller scaled to DAC steps
/// (`scaled`), with the channel offset added and the sum clamped to the
/// DAC's range (see [`dac_code`]).
pub fn dac_raw_code(coding: DacCoding, scaled: i32, offset: i16) -> (r: u16)
    requires
        i32::MIN <= scaled + offset <= i32::MAX,
    ensures
        r == dac_code(coding, scaled as int, offset as int),
{
    let sum: i32 = scaled + offset as i32;
    match coding {
        DacCoding::Dac714 => {
            let raw: i32 = if sum < -32767 {
                -32767
            } else if sum > 32767 {
                32767
            } else {
                sum
            };
            let r = raw as i16 as u16;
            assert(-32767 <= raw <= 32767 ==> (raw as i16 as u16) == ((raw as int) % 0x1_0000) as u16) by (bit_vector);
            r
        },
        DacCoding::Ltc1655 => {
            let raw: i32 = if sum < -32767 {
                -32767
            } else if sum > 32767 {
                32767
            } else {
                sum
            };
            (0x8000i32 - raw) as u16
        },
        DacCoding::Ltc1257 => {
            let raw: i32 = if sum < -2047 {
                -2047
            } else if sum > 2047 {
                2047
            } else {
                sum
            };
            (0x0800i32 - raw) as u16
        },
    }
}

/// The baud-rate register: a stored value outside 9 to 239 falls back to
/// 51 (38400 baud at double speed).
pub fn checked_baud_reg(stored: u8) -> (r: u8)
    ensures
        r == (if 9 <= stored <= 239 {
            stored
        } else {
            51u8
        }),
{
    if 9 <= stored && stored <= 239 {
        stored
    } else {
        51
    }
}

/// The cards found on the bus.
#[derive(Debug, Clone, Copy, PartialEq, Eq, Structural)]
pub struct Features {
    pub dac12_present: bool,
    pub dac16_present: bool,
    pub dac714_present: bool,
    pub adc16_present: bool,
    pub io_present: bool,
    pub lcd_present: bool,
}

/// `t` where `on` holds, else nothing.
pub open spec fn part(on: bool, t: Seq<char>) -> Seq<char> {
    if on {
        t
    } else {
        Seq::empty()
    }
}

/// The feature list: in brackets, the texts of the cards found.
pub open spec fn features_text(f: Features) -> Seq<char> {
    seq!['['] + part(f.dac12_present, DAC12_STR@) + part(f.dac714_present || f.dac16_present, DAC16_STR@) + part(
        f.adc16_present,
        ADC16_STR@,
    ) + part(f.io_present, IO816_STR@) + part(f.lcd_present, LCD_STR@) + seq![']']
}

/// Appends the characters of `t`.
fn append(s: &mut String, t: &str)
    ensures
        final(s)@ == old(s)@ + t@,
{
    let cs = chars_of(t);
    let mut i: usize = 0;
    while i < cs.len()
        invariant
            i <= cs@.len(),
            cs@ == t@,
            s@ == old(s)@ + t@.subrange(0, i as int),
        decreases cs.len() - i,
    {
        push_char(s, cs[i]);
        i = i + 1;
        assert(s@ =~= old(s)@ + t@.subrange(0, i as int));
    }
    assert(t@.subrange(0, t@.len() as int) =~= t@);
}

impl Features {
    /// The feature list (see [`features_text`]).
    pub fn write_features(&self) -> (r: String)
        ensures
            r@ == features_text(*self),
    {
        let mut out = String::new();
        push_char(&mut out, '[');
        let ghost mut want: Seq<char> = seq!['['];
        assert(out@ =~= want);
        if self.dac12_present {
            append(&mut out, DAC12_STR);
        }
        proof {
            want = want + part(self.dac12_present, DAC12_STR@);
            assert(out@ =~= want);
        }
        if self.dac714_present || self.dac16_present {
            append(&mut out, DAC16_STR);
        }
        proof {
            want = want + part(self.dac714_present || self.dac16_present, DAC16_STR@);
            assert(out@ =~= want);
        }
        if self.adc16_present {
            append(&mut out, ADC16_STR);
        }
        proof {
            want = want + part(self.adc16_present, ADC16_STR@);
            assert(out@ =~= want);
        }
        if self.io_present {
            append(&mut out, IO816_STR);
        }
        proof {
            want = want + part(self.io_present, IO816_STR@);
            assert(out@ =~= want);
        }
        if self.lcd_present {
            append(&mut out, LCD_STR);
        }
        proof {
            want = want + part(self.lcd_present, LCD_STR@);
            assert(out@ =~= want);
        }
        push_char(&mut out, ']');
        assert(out@ =~= features_text(*self));
        out
    }
}

/// The channels of one trigger group, from the `k`-th mask bit on: the mask
/// is shifted left once per channel, and a channel is reported where its
/// bit has reached the top. Channels go from `base + 7` down to `base`.
pub open spec fn group_scan(mask: u8, k: nat, base: u8, integer: bool) -> Seq<(u8, bool)>
    decreases 8 - k,
{
    if k >= 8 {
        Seq::empty()
    } else {
        (if mask > 127 {
            seq![((base + 7 - k) as u8, integer)]
        } else {
            Seq::empty()
        }) + group_scan(((mask as int * 2) % 256) as u8, k + 1, base, integer)
    }
}

/// The channels a trigger reports, in order, each with whether it is read
/// as an integer: the internal ADC (mask 0, channels 7 down to 0), the
/// AD16 card (mask 1, channels 17 down to 10) and the digital ports (mask 3,
/// channels 37 down to 30); a group with an empty mask is skipped, mask 2
/// is not used.
pub open spec fn trigger_scan(masks: Seq<u8>) -> Seq<(u8, bool)> {
    (if masks[0] != 0 {
        group_scan(masks[0], 0, 0, false)
    } else {
        Seq::empty()
    }) + (if masks[1] != 0 {
        group_scan(masks[1], 0, 10, false)
    } else {
        Seq::empty()
    }) + (if masks[3] != 0 {
        group_scan(masks[3], 0, 30, true)
    } else {
        Seq::empty()
    })
}

/// Appends the channels of one trigger group (see [`group_scan`]).
fn scan_group(out: &mut Vec<(u8, bool)>, mask: u8, base: u8, integer: bool)
    requires
        base <= 30,
    ensures
        final(out)@ == old(out)@ + group_scan(mask, 0, base, integer),
{
    let mut m = mask;
    let mut k: u8 = 0;
    while k < 8
        invariant
            k <= 8,
            base <= 30,
            old(out)@ + group_scan(mask, 0, base, integer) == out@ + group_scan(m, k as nat, base, integer),
        decreases 8 - k,
    {
        let ghost before = out@;
        if m > 127 {
            out.push((base + 7 - k, integer));
        }
        let next: u8 = ((m as u16 * 2) % 256) as u8;
        proof {
            assert(group_scan(m, k as nat, base, integer) == (if m > 127 {
                seq![((base + 7 - k) as u8, integer)]
            } else {
                Seq::empty()
            }) + group_scan(next, (k + 1) as nat, base, integer));
            if m > 127 {
                assert(out@ =~= before + seq![((base + 7 - k) as u8, integer)]);
            } else {
                assert(out@ =~= before + Seq::<(u8, bool)>::empty());
            }
            assert(out@ + group_scan(next, (k + 1) as nat, base, integer) =~= before + group_scan(m, k as nat, base, integer));
        }
        m = next;
        k = k + 1;
    }
    assert(group_scan(m, 8, base, integer) =~= Seq::<(u8, bool)>::empty());
    assert(out@ + Seq::<(u8, bool)>::empty() =~= out@);
}

/// The channels a trigger reports, in order (see [`trigger_scan`]).
pub fn trigger_scan_channels(trig_mask_array: [u8; 4]) -> (r: Vec<(u8, bool)>)
    ensures
        r@ == trigger_scan(trig_mask_array@),
{
    let mut out: Vec<(u8, bool)> = Vec::new();
    if trig_mask_array[0] != 0 {
        scan_group(&mut out, trig_mask_array[0], 0, false);
    }
    let ghost a = out@;
    if trig_mask_array[1] != 0 {
        scan_group(&mut out, trig_mask_array[1], 10, false);
    }
    let ghost b = out@;
    if trig_mask_array[3] != 0 {
        scan_group(&mut out, trig_mask_array[3], 30, true);
    }
    assert(out@ =~= trigger_scan(trig_mask_array@));
    out
}

} // verus!
