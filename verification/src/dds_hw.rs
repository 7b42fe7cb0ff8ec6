//! Hardware-near part of the DDS signal generator: the AD9833 DDS chip, the
//! LTC1257 offset DAC, the 4094 shift register chain that holds the level
//! word and the relay switches, and an auxiliary software UART.

use core::marker::PhantomData;
use vstd::prelude::*;

use crate::avrd::{bit_set, with_bit, Atmega32, AvrdPortIo, Mcu, PortRegs, RegisterPort};
use crate::bits::msb;

verus! {

/// The logical ports of the DDS board.
#[derive(Clone, Copy, Debug, PartialEq, Eq, Structural)]
pub enum PortKind {
    DdsOut,
    ControlBit,
    Extension,
    LedOut,
}

/// Output waveform.
#[derive(Clone, Copy, Debug, PartialEq, Eq, Structural)]
pub enum Waveform {
    Off,
    Sine,
    Triangle,
    Square,
    Logic,
    External(u8),
}

/// One action performed on the DDS hardware.
#[derive(Clone, Copy, Debug, PartialEq, Eq, Structural)]
pub enum DdsEvent {
    High(PortKind, u8),
    Low(PortKind, u8),
    Delay(u8),
    DelayMs(u16),
    /// Interrupts disabled.
    Enter,
    /// Interrupts enabled again.
    Leave,
}

/// Access to the DDS board. `events` is everything done to the hardware so
/// far, in order.
pub trait DdsHardwareIo {
    spec fn events(&self) -> Seq<DdsEvent>;

    fn set_bit(&mut self, port: PortKind, bit: u8)
        requires
            bit < 8,
        ensures
            final(self).events() == old(self).events().push(DdsEvent::High(port, bit)),
    ;

    fn clear_bit(&mut self, port: PortKind, bit: u8)
        requires
            bit < 8,
        ensures
            final(self).events() == old(self).events().push(DdsEvent::Low(port, bit)),
    ;

    fn delay_units(&mut self, units: u8)
        ensures
            final(self).events() == old(self).events().push(DdsEvent::Delay(units)),
    ;

    fn delay_ms(&mut self, milliseconds: u16)
        ensures
            final(self).events() == old(self).events().push(DdsEvent::DelayMs(milliseconds)),
    ;

    fn begin_critical_section(&mut self)
        ensures
            final(self).events() == old(self).events().push(DdsEvent::Enter),
    ;

    fn end_critical_section(&mut self)
        ensures
            final(self).events() == old(self).events().push(DdsEvent::Leave),
    ;
}

/// The register port behind each logical port.
pub open spec fn port_register(port: PortKind) -> RegisterPort {
    match port {
        PortKind::DdsOut | PortKind::ControlBit => RegisterPort::B,
        PortKind::Extension => RegisterPort::C,
        PortKind::LedOut => RegisterPort::D,
    }
}

/// The DDS board on a real AVR port register file.
pub struct DdsAvrd<M: Mcu> {
    pub io: AvrdPortIo<M>,
    pub _marker: PhantomData<M>,
    pub trace: Ghost<Seq<DdsEvent>>,
}

pub type DdsAtmega32 = DdsAvrd<Atmega32>;

impl<M: Mcu> Default for DdsAvrd<M> {
    fn default() -> (r: Self)
        ensures
            r.io.a == (PortRegs { ddr: 0, port: 0, pin: 0 }),
            r.io.b == (PortRegs { ddr: 0, port: 0, pin: 0 }),
            r.io.c == (PortRegs { ddr: 0, port: 0, pin: 0 }),
            r.io.d == (PortRegs { ddr: 0, port: 0, pin: 0 }),
            r.trace@ == Seq::<DdsEvent>::empty(),
    {
        Self { io: AvrdPortIo::default(), _marker: PhantomData, trace: Ghost(Seq::empty()) }
    }
}

impl<M: Mcu> DdsAvrd<M> {
    /// Power-up direction and output values of ports B, C and D.
    pub fn init_ports(&mut self)
        ensures
            final(self).io.a == old(self).io.a,
            final(self).io.b == (PortRegs { ddr: 0b0001_1111, port: 0b0001_0111, pin: old(self).io.b.pin }),
            final(self).io.c == (PortRegs { ddr: 0b1111_1100, port: 0b1111_1111, pin: old(self).io.c.pin }),
            final(self).io.d == (PortRegs { ddr: 0b0000_1100, port: 0b1111_1100, pin: old(self).io.d.pin }),
            final(self).trace == old(self).trace,
    {
        self.io.init_port(RegisterPort::B, 0b0001_1111, 0b0001_0111);
        self.io.init_port(RegisterPort::C, 0b1111_1100, 0b1111_1111);
        self.io.init_port(RegisterPort::D, 0b0000_1100, 0b1111_1100);
    }

    fn map_port(port: PortKind) -> (r: RegisterPort)
        ensures
            r == port_register(port),
    {
        match port {
            PortKind::DdsOut | PortKind::ControlBit => RegisterPort::B,
            PortKind::Extension => RegisterPort::C,
            PortKind::LedOut => RegisterPort::D,
        }
    }
}

impl<M: Mcu> DdsHardwareIo for DdsAvrd<M> {
    open spec fn events(&self) -> Seq<DdsEvent> {
        self.trace@
    }

    fn set_bit(&mut self, port: PortKind, bit: u8) {
        self.io.write_bit(Self::map_port(port), bit, true);
        self.trace = Ghost(self.trace@.push(DdsEvent::High(port, bit)));
    }

    fn clear_bit(&mut self, port: PortKind, bit: u8) {
        self.io.write_bit(Self::map_port(port), bit, false);
        self.trace = Ghost(self.trace@.push(DdsEvent::Low(port, bit)));
    }

    fn delay_units(&mut self, units: u8) {
        self.io.spin_delay_cycles(units as u16);
        self.trace = Ghost(self.trace@.push(DdsEvent::Delay(units)));
    }

    fn delay_ms(&mut self, milliseconds: u16) {
        let mut i: u16 = 0;
        while i < milliseconds
            invariant
                i <= milliseconds,
                self.trace == old(self).trace,
            decreases milliseconds - i,
        {
            self.io.spin_delay_cycles(16_000);
            i = i + 1;
        }
        self.trace = Ghost(self.trace@.push(DdsEvent::DelayMs(milliseconds)));
    }

    fn begin_critical_section(&mut self) {
        self.trace = Ghost(self.trace@.push(DdsEvent::Enter));
    }

    fn end_critical_section(&mut self) {
        self.trace = Ghost(self.trace@.push(DdsEvent::Leave));
    }
}

pub const B_SCLK: u8 = 0;

pub const B_SDATAOUT: u8 = 1;

pub const B_FSYNC: u8 = 2;

pub const B_STROBE: u8 = 3;

pub const B_STRDAC: u8 = 4;

pub const B_SER_AUX: u8 = 5;

pub const DDS_RESET_CMD: u16 = 0b0010_0001_0000_0000;

pub const DDS_SINE_CMD: u16 = 0b0010_0000_0000_0000;

pub const DDS_TRIANGLE_CMD: u16 = 0b0010_0000_0000_0010;

pub const DDS_SQUARE_CMD: u16 = 0b0010_0000_0010_1000;

pub const DDS_FREQ_REGISTER_WRITE: u16 = 0b0100_0000_0000_0000;

/// Tuning word contribution of one unit of each decimal digit of the
/// frequency in 0.1 Hz, most significant digit (10 MHz) first.
pub const FHZ_INT: [i32; 8] = [64_000_000, 6_400_000, 640_000, 64_000, 6_400, 640, 64, 6];

const TWO_SR_SQUARE_SW_BIT: u8 = 4;

const TWO_SR_ATTN_SW_BIT: u8 = 5;

const TWO_SR_EXT_ON_BIT: u8 = 6;

const TWO_SR_OFFS_SW_BIT: u8 = 7;

const THREE_SR_SQUARE_SW_BIT: u8 = 0;

const THREE_SR_ATTN_SW_BIT: u8 = 1;

const THREE_SR_EXT_ON_BIT: u8 = 2;

const THREE_SR_OFFS_SW_BIT: u8 = 3;

const THREE_SR_LOGIC_SW_BIT: u8 = 4;

const LED_SWITCH_BIT: u8 = 3;

/// Generator state: the last words sent to the DDS, the DAC and the shift
/// registers, the relay switches and the requested frequency and offset.
#[derive(Clone, Debug)]
pub struct DdsHardwareState {
    pub board_has_two_shift_registers: bool,
    pub dss_cmd: u16,
    pub wave_cmd: u16,
    pub switch_state: u8,
    pub dac_temp: i16,
    pub level_byte_hi: u8,
    pub level_byte_lo: u8,
    pub dds_frequency_word: i32,
    pub level_range: bool,
    pub frequency_tenths_hz: i32,
    pub offset_mv: i32,
}

impl Default for DdsHardwareState {
    fn default() -> (r: Self)
        ensures
            r == (DdsHardwareState {
                board_has_two_shift_registers: true,
                dss_cmd: 0,
                wave_cmd: DDS_RESET_CMD,
                switch_state: 0,
                dac_temp: 0,
                level_byte_hi: 0,
                level_byte_lo: 0,
                dds_frequency_word: 0,
                level_range: false,
                frequency_tenths_hz: 10_000,
                offset_mv: 0,
            }),
    {
        Self {
            board_has_two_shift_registers: true,
            dss_cmd: 0,
            wave_cmd: DDS_RESET_CMD,
            switch_state: 0,
            dac_temp: 0,
            level_byte_hi: 0,
            level_byte_lo: 0,
            dds_frequency_word: 0,
            level_range: false,
            frequency_tenths_hz: 10_000,
            offset_mv: 0,
        }
    }
}

/// Drives `bit` of `port` to `high`.
pub open spec fn pin_level(port: PortKind, bit: u8, high: bool) -> DdsEvent {
    if high {
        DdsEvent::High(port, bit)
    } else {
        DdsEvent::Low(port, bit)
    }
}

/// Bit `i` of `value`, counting from the least significant.
pub open spec fn bit_of(value: u8, i: int) -> bool {
    (value >> (i as u8)) & 1u8 == 1u8
}

/// The data bits of one UART frame, `n` of them, least significant first.
pub open spec fn aux_data(value: u8, n: nat) -> Seq<DdsEvent>
    decreases n,
{
    if n == 0 {
        Seq::empty()
    } else {
        aux_data(value, (n - 1) as nat) + seq![
            pin_level(PortKind::Extension, B_SER_AUX, bit_of(value, n - 1)),
            DdsEvent::Delay(5),
        ]
    }
}

/// One UART frame on the auxiliary line: start bit, eight data bits least
/// significant first, stop bit held for two bit times.
pub open spec fn aux_frame(value: u8) -> Seq<DdsEvent> {
    seq![DdsEvent::Low(PortKind::Extension, B_SER_AUX), DdsEvent::Delay(5)] + aux_data(value, 8) + seq![
        DdsEvent::High(PortKind::Extension, B_SER_AUX),
        DdsEvent::Delay(10),
    ]
}

/// Events that send bit `bit` of the 12-bit DAC word to the LTC1257; the
/// last bit is clocked together with the load strobe.
pub open spec fn dac_bit(word: u16, bit: int) -> Seq<DdsEvent> {
    seq![
        pin_level(PortKind::ControlBit, B_SDATAOUT, (word >> (bit as u16)) & 1u16 != 0u16),
        DdsEvent::High(PortKind::ControlBit, B_SCLK),
    ] + (if bit == 0 { seq![DdsEvent::Low(PortKind::ControlBit, B_STRDAC)] } else { Seq::empty() }) + seq![
        DdsEvent::Low(PortKind::ControlBit, B_SDATAOUT),
        DdsEvent::Low(PortKind::ControlBit, B_SCLK),
    ]
}

/// The first `n` bits of a 12-bit DAC word, from bit 11 down.
pub open spec fn dac_bits(word: u16, n: nat) -> Seq<DdsEvent>
    decreases n,
{
    if n == 0 {
        Seq::empty()
    } else {
        dac_bits(word, (n - 1) as nat) + dac_bit(word, 12 - n)
    }
}

/// Pin sequence of one LTC1257 load.
pub open spec fn dac1257_wave(word: u16) -> Seq<DdsEvent> {
    seq![
        DdsEvent::Low(PortKind::ControlBit, B_SDATAOUT),
        DdsEvent::Low(PortKind::ControlBit, B_SCLK),
        DdsEvent::High(PortKind::ControlBit, B_STRDAC),
    ] + dac_bits(word, 12) + seq![DdsEvent::High(PortKind::ControlBit, B_STRDAC)]
}

/// The offset DAC word for a requested value: clamped to plus or minus
/// 0x7ff and moved to offset binary around 0x800.
pub open spec fn dac_offset_word(value: i16) -> i16 {
    if value < -0x07ff {
        0x0001
    } else if value > 0x07ff {
        0x0fff
    } else {
        (value + 0x0800) as i16
    }
}

/// Events that send bit `bit` of a DDS command word, taken on the falling clock.
pub open spec fn dds_cmd_bit(cmd: u16, bit: int) -> Seq<DdsEvent> {
    (if (cmd >> (bit as u16)) & 1u16 != 0u16 {
        seq![DdsEvent::High(PortKind::ControlBit, B_SDATAOUT)]
    } else {
        Seq::empty()
    }) + seq![
        DdsEvent::Low(PortKind::ControlBit, B_SCLK),
        DdsEvent::Low(PortKind::ControlBit, B_SDATAOUT),
        DdsEvent::High(PortKind::ControlBit, B_SCLK),
    ]
}

/// The first `n` bits of a DDS command word, from bit 15 down.
pub open spec fn dds_cmd_bits(cmd: u16, n: nat) -> Seq<DdsEvent>
    decreases n,
{
    if n == 0 {
        Seq::empty()
    } else {
        dds_cmd_bits(cmd, (n - 1) as nat) + dds_cmd_bit(cmd, 16 - n)
    }
}

/// Pin sequence of one 16-bit word sent to the AD9833.
pub open spec fn send_dds_wave(cmd: u16) -> Seq<DdsEvent> {
    seq![
        DdsEvent::High(PortKind::DdsOut, B_SCLK),
        DdsEvent::Low(PortKind::ControlBit, B_SDATAOUT),
        DdsEvent::Low(PortKind::DdsOut, B_FSYNC),
    ] + dds_cmd_bits(cmd, 16) + seq![DdsEvent::High(PortKind::DdsOut, B_FSYNC)]
}

/// Events that clock one bit into the 4094 chain on the rising clock.
pub open spec fn sr_bit(bit: bool) -> Seq<DdsEvent> {
    (if bit { seq![DdsEvent::High(PortKind::DdsOut, B_SDATAOUT)] } else { Seq::empty() }) + seq![
        DdsEvent::High(PortKind::DdsOut, B_SCLK),
        DdsEvent::Low(PortKind::DdsOut, B_SDATAOUT),
        DdsEvent::Low(PortKind::DdsOut, B_SCLK),
    ]
}

/// The `n` leading bits of a byte clocked into the 4094 chain, most significant first.
pub open spec fn sr_bits(value: u8, n: nat) -> Seq<DdsEvent>
    decreases n,
{
    if n == 0 {
        Seq::empty()
    } else {
        sr_bits(value, (n - 1) as nat) + sr_bit(msb(value << ((n - 1) as u8)))
    }
}

/// The high byte of the level word as it goes to the chain: on boards with
/// two shift registers it shares its byte with the relay switches.
pub open spec fn level_hi(two_sr: bool, switches: u8, level: i16) -> u8 {
    let hi = ((level as u16 >> 8u16) & 0x00ffu16) as u8;
    if two_sr {
        hi | switches
    } else {
        hi
    }
}

/// The low byte of the level word.
pub open spec fn level_lo(level: i16) -> u8 {
    (level as u16 & 0x00ffu16) as u8
}

/// Pin sequence of one shift register update: switch byte, level high byte,
/// level low byte, then the strobe.
pub open spec fn level_sr_wave(two_sr: bool, switches: u8, level: i16) -> Seq<DdsEvent> {
    seq![DdsEvent::Low(PortKind::DdsOut, B_SCLK), DdsEvent::Low(PortKind::DdsOut, B_SDATAOUT)]
        + sr_bits(switches, 8) + sr_bits(level_hi(two_sr, switches, level), 8) + sr_bits(level_lo(level), 8)
        + seq![
        DdsEvent::High(PortKind::DdsOut, B_STROBE),
        DdsEvent::Low(PortKind::DdsOut, B_STROBE),
        DdsEvent::High(PortKind::DdsOut, B_SCLK),
    ]
}

/// The two AD9833 frequency register writes that carry a tuning word: its
/// low fourteen bits, then the next fourteen.
pub open spec fn frequency_frames(tuning_word: u32) -> (u16, u16) {
    (
        ((tuning_word & 0x3fffu32) as u16) | DDS_FREQ_REGISTER_WRITE,
        (((tuning_word >> 14u32) & 0x3fffu32) as u16) | DDS_FREQ_REGISTER_WRITE,
    )
}

/// Pin sequence that loads a tuning word: both frequency frames.
pub open spec fn tuning_wave(tuning_word: u32) -> Seq<DdsEvent> {
    send_dds_wave(frequency_frames(tuning_word).0) + send_dds_wave(frequency_frames(tuning_word).1)
}

/// Decimal digits of `n`, most significant first, without leading zeros.
pub open spec fn decimal(n: nat) -> Seq<u8>
    decreases n,
{
    if n < 10 {
        seq![n as u8]
    } else {
        decimal(n / 10).push((n % 10) as u8)
    }
}

/// Decimal digits of `value` (negative values count as 0), padded with
/// leading zeros to at least `width` digits.
pub open spec fn padded_decimal(value: i32, width: nat) -> Seq<u8> {
    let d = decimal(if value < 0 { 0 } else { value as nat });
    if d.len() < width {
        Seq::new((width - d.len()) as nat, |i: int| 0u8) + d
    } else {
        d
    }
}

/// Sum of the first `n` digits, each weighted by its tuning factor.
pub open spec fn weighted_digits(digits: Seq<u8>, n: nat) -> int
    decreases n,
{
    if n == 0 {
        0
    } else {
        weighted_digits(digits, (n - 1) as nat) + FHZ_INT[n - 1] * digits[n - 1]
    }
}

/// The AD9833 tuning word for a frequency in 0.1 Hz: the leading eight
/// digits of the frequency (zero-padded to eight), each weighted by its factor.
pub open spec fn tuning_word_integer(frequency_tenths_hz: i32) -> int {
    weighted_digits(padded_decimal(frequency_tenths_hz, 8), 8)
}

proof fn lemma_decimal_digits(n: nat)
    ensures
        1 <= decimal(n).len(),
        forall|i: int| 0 <= i < decimal(n).len() ==> #[trigger] decimal(n)[i] <= 9,
    decreases n,
{
    if n >= 10 {
        lemma_decimal_digits(n / 10);
    }
}

/// Decimal digits of `n`, most significant first.
fn digits_of(n: u32) -> (r: Vec<u8>)
    ensures
        r@ == decimal(n as nat),
    decreases n,
{
    if n < 10 {
        let mut r: Vec<u8> = Vec::new();
        r.push(n as u8);
        r
    } else {
        let mut r = digits_of(n / 10);
        r.push((n % 10) as u8);
        r
    }
}

/// Sum of the first `n` tuning factors.
spec fn fhz_total(n: nat) -> int
    decreases n,
{
    if n == 0 {
        0
    } else {
        fhz_total((n - 1) as nat) + FHZ_INT[n - 1]
    }
}

proof fn lemma_fhz_total(n: nat)
    requires
        n <= 8,
    ensures
        fhz_total(n) <= 71_111_110,
        n < 8 ==> fhz_total(n) + FHZ_INT[n as int] <= 71_111_110,
        n < 8 ==> 0 <= FHZ_INT[n as int] <= 64_000_000,
{
    assert(fhz_total(0) == 0);
    assert(fhz_total(1) == 64_000_000);
    assert(fhz_total(2) == 70_400_000);
    assert(fhz_total(3) == 71_040_000);
    assert(fhz_total(4) == 71_104_000);
    assert(fhz_total(5) == 71_110_400);
    assert(fhz_total(6) == 71_111_040);
    assert(fhz_total(7) == 71_111_104);
    assert(fhz_total(8) == 71_111_110);
}

proof fn lemma_weighted_bound(digits: Seq<u8>, n: nat)
    requires
        n <= 8,
        n <= digits.len(),
        forall|i: int| 0 <= i < digits.len() ==> #[trigger] digits[i] <= 9,
    ensures
        0 <= weighted_digits(digits, n) <= 9 * fhz_total(n),
    decreases n,
{
    if n > 0 {
        lemma_weighted_bound(digits, (n - 1) as nat);
        lemma_fhz_total((n - 1) as nat);
        let f = FHZ_INT[n - 1] as int;
        let d = digits[n - 1] as int;
        assert(0 <= f * d <= 9 * f) by (nonlinear_arith)
            requires 0 <= f, 0 <= d <= 9;
    }
}

impl DdsHardwareState {
    /// Sends one byte on the auxiliary 19.2 kBd UART (extension port bit 5).
    pub fn ser_aux<IO: DdsHardwareIo>(&self, io: &mut IO, mybyte: u8)
        ensures
            final(io).events() == old(io).events() + aux_frame(mybyte),
    {
        let ghost e0 = io.events();
        let mut value = mybyte;
        io.clear_bit(PortKind::Extension, B_SER_AUX);
        io.delay_units(5);
        let ghost e1 = io.events();
        assert(mybyte >> 0u8 == mybyte) by (bit_vector);
        let mut i: u8 = 0;
        while i < 8
            invariant
                i <= 8,
                value == mybyte >> i,
                io.events() == e1 + aux_data(mybyte, i as nat),
            decreases 8 - i,
        {
            let ghost e2 = io.events();
            assert(((mybyte >> i) & 1u8 == 1u8) == ((mybyte >> i) & 0x01u8 != 0u8)) by (bit_vector);
            if value & 0x01 != 0 {
                io.set_bit(PortKind::Extension, B_SER_AUX);
            } else {
                io.clear_bit(PortKind::Extension, B_SER_AUX);
            }
            io.delay_units(5);
            assert((mybyte >> i) >> 1u8 == mybyte >> ((i + 1) as u8)) by (bit_vector)
                requires i < 8;
            value = value >> 1;
            assert(io.events() =~= e2 + seq![
                pin_level(PortKind::Extension, B_SER_AUX, bit_of(mybyte, i as int)),
                DdsEvent::Delay(5),
            ]);
            i = i + 1;
        }
        io.set_bit(PortKind::Extension, B_SER_AUX);
        io.delay_units(10);
        assert(io.events() =~= e0 + aux_frame(mybyte));
    }

    /// Loads the offset DAC: the requested value is clamped to plus or minus
    /// 0x7ff and sent in offset binary, bit 11 first; the word is kept in
    /// `dac_temp`.
    pub fn shift_out_1257<IO: DdsHardwareIo>(&mut self, io: &mut IO, my_val: i16)
        ensures
            final(io).events() == old(io).events() + dac1257_wave(dac_offset_word(my_val) as u16),
            *final(self) == (DdsHardwareState { dac_temp: dac_offset_word(my_val), ..*old(self) }),
    {
        let ghost e0 = io.events();
        let clamped: i16 = if my_val < -0x07ff {
            -0x07ff
        } else if my_val > 0x07ff {
            0x07ff
        } else {
            my_val
        };
        let dac_word = (clamped + 0x0800) as u16;
        self.dac_temp = clamped + 0x0800;
        io.clear_bit(PortKind::ControlBit, B_SDATAOUT);
        io.clear_bit(PortKind::ControlBit, B_SCLK);
        io.set_bit(PortKind::ControlBit, B_STRDAC);
        let ghost e1 = io.events();
        let mut n: u16 = 0;
        while n < 12
            invariant
                n <= 12,
                io.events() == e1 + dac_bits(dac_word, n as nat),
            decreases 12 - n,
        {
            let ghost e2 = io.events();
            let bit: u16 = 11 - n;
            if (dac_word >> bit) & 1 != 0 {
                io.set_bit(PortKind::ControlBit, B_SDATAOUT);
            } else {
                io.clear_bit(PortKind::ControlBit, B_SDATAOUT);
            }
            io.set_bit(PortKind::ControlBit, B_SCLK);
            if bit == 0 {
                io.clear_bit(PortKind::ControlBit, B_STRDAC);
            }
            io.clear_bit(PortKind::ControlBit, B_SDATAOUT);
            io.clear_bit(PortKind::ControlBit, B_SCLK);
            assert(io.events() =~= e2 + dac_bit(dac_word, bit as int));
            n = n + 1;
        }
        io.set_bit(PortKind::ControlBit, B_STRDAC);
        assert(io.events() =~= e0 + dac1257_wave(dac_offset_word(my_val) as u16));
    }

    fn shift_byte_msb_first<IO: DdsHardwareIo>(
        &self,
        io: &mut IO,
        data_port: PortKind,
        clock_port: PortKind,
        value: u8,
    )
        requires
            data_port == PortKind::DdsOut,
            clock_port == PortKind::DdsOut,
        ensures
            final(io).events() == old(io).events() + sr_bits(value, 8),
    {
        let ghost e0 = io.events();
        let mut shift = value;
        let mut i: u8 = 0;
        assert(value << 0u8 == value) by (bit_vector);
        while i < 8
            invariant
                i <= 8,
                shift == value << i,
                data_port == PortKind::DdsOut,
                clock_port == PortKind::DdsOut,
                io.events() == e0 + sr_bits(value, i as nat),
            decreases 8 - i,
        {
            let ghost e1 = io.events();
            if shift & 0x80 != 0 {
                io.set_bit(data_port, B_SDATAOUT);
            }
            io.set_bit(clock_port, B_SCLK);
            assert(((value << i) << 1u8) == value << ((i + 1) as u8)) by (bit_vector)
                requires i < 8;
            shift = shift << 1;
            io.clear_bit(data_port, B_SDATAOUT);
            io.clear_bit(clock_port, B_SCLK);
            assert(io.events() =~= e1 + sr_bit(msb(value << i)));
            i = i + 1;
        }
    }

    /// Sends the relay switches and the level word to the 4094 chain and
    /// latches them; the level bytes are kept.
    pub fn shift_out_level_sr<IO: DdsHardwareIo>(&mut self, io: &mut IO, my_level_sr: i16)
        ensures
            final(io).events() == old(io).events() + level_sr_wave(
                old(self).board_has_two_shift_registers,
                old(self).switch_state,
                my_level_sr,
            ),
            *final(self) == (DdsHardwareState {
                level_byte_hi: level_hi(old(self).board_has_two_shift_registers, old(self).switch_state, my_level_sr),
                level_byte_lo: level_lo(my_level_sr),
                ..*old(self)
            }),
    {
        let ghost e0 = io.events();
        self.level_byte_hi = ((my_level_sr as u16 >> 8) & 0x00ff) as u8;
        self.level_byte_lo = (my_level_sr as u16 & 0x00ff) as u8;
        if self.board_has_two_shift_registers {
            self.level_byte_hi = self.level_byte_hi | self.switch_state;
        }
        io.clear_bit(PortKind::DdsOut, B_SCLK);
        io.clear_bit(PortKind::DdsOut, B_SDATAOUT);
        self.shift_byte_msb_first(io, PortKind::DdsOut, PortKind::DdsOut, self.switch_state);
        self.shift_byte_msb_first(io, PortKind::DdsOut, PortKind::DdsOut, self.level_byte_hi);
        self.shift_byte_msb_first(io, PortKind::DdsOut, PortKind::DdsOut, self.level_byte_lo);
        io.set_bit(PortKind::DdsOut, B_STROBE);
        io.clear_bit(PortKind::DdsOut, B_STROBE);
        io.set_bit(PortKind::DdsOut, B_SCLK);
        assert(io.events() =~= e0 + level_sr_wave(
            old(self).board_has_two_shift_registers,
            old(self).switch_state,
            my_level_sr,
        ));
    }

    /// Sends `dss_cmd` to the AD9833, bit 15 first, each bit taken on the
    /// falling clock while FSYNC is low.
    pub fn send_dds<IO: DdsHardwareIo>(&self, io: &mut IO)
        ensures
            final(io).events() == old(io).events() + send_dds_wave(self.dss_cmd),
    {
        let ghost e0 = io.events();
        io.set_bit(PortKind::DdsOut, B_SCLK);
        io.clear_bit(PortKind::ControlBit, B_SDATAOUT);
        io.clear_bit(PortKind::DdsOut, B_FSYNC);
        let ghost e1 = io.events();
        let mut n: u16 = 0;
        while n < 16
            invariant
                n <= 16,
                io.events() == e1 + dds_cmd_bits(self.dss_cmd, n as nat),
            decreases 16 - n,
        {
            let ghost e2 = io.events();
            let bit: u16 = 15 - n;
            if (self.dss_cmd >> bit) & 1 != 0 {
                io.set_bit(PortKind::ControlBit, B_SDATAOUT);
            }
            io.clear_bit(PortKind::ControlBit, B_SCLK);
            io.clear_bit(PortKind::ControlBit, B_SDATAOUT);
            io.set_bit(PortKind::ControlBit, B_SCLK);
            assert(io.events() =~= e2 + dds_cmd_bit(self.dss_cmd, bit as int));
            n = n + 1;
        }
        io.set_bit(PortKind::DdsOut, B_FSYNC);
        assert(io.events() =~= e0 + send_dds_wave(self.dss_cmd));
    }

    /// Splits a tuning word into the two AD9833 frequency register writes:
    /// its low fourteen bits, then the next fourteen, each tagged as a
    /// frequency register write.
    pub fn dds_frequency_frames(tuning_word: u32) -> (r: [u16; 2])
        ensures
            r[0] == frequency_frames(tuning_word).0,
            r[1] == frequency_frames(tuning_word).1,
    {
        [
            ((tuning_word & 0x3fff) as u16) | DDS_FREQ_REGISTER_WRITE,
            (((tuning_word >> 14) & 0x3fff) as u16) | DDS_FREQ_REGISTER_WRITE,
        ]
    }

    fn send_tuning_word<IO: DdsHardwareIo>(&mut self, io: &mut IO, tuning_word: u32)
        ensures
            final(io).events() == old(io).events() + tuning_wave(tuning_word),
            *final(self) == (DdsHardwareState { dss_cmd: frequency_frames(tuning_word).1, ..*old(self) }),
    {
        let frames = Self::dds_frequency_frames(tuning_word);
        let low_frame = frames[0];
        let high_frame = frames[1];
        self.dss_cmd = low_frame;
        self.send_dds(io);
        self.dss_cmd = high_frame;
        self.send_dds(io);
    }

    /// The decimal digits of `value` (0 for negative values), padded with
    /// leading zeros to at least `width` digits.
    fn decimal_digits(value: i32, width: usize) -> (r: Vec<u8>)
        requires
            width <= 16,
        ensures
            r@ == padded_decimal(value, width as nat),
    {
        let normalized: u32 = if value < 0 { 0 } else { value as u32 };
        let digits = digits_of(normalized);
        proof {
            lemma_decimal_digits(normalized as nat);
        }
        if digits.len() < width {
            let pad = width - digits.len();
            let mut r: Vec<u8> = Vec::new();
            let mut i: usize = 0;
            while i < pad
                invariant
                    i <= pad,
                    r@ == Seq::new(i as nat, |k: int| 0u8),
                decreases pad - i,
            {
                r.push(0);
                i = i + 1;
                assert(r@ =~= Seq::new(i as nat, |k: int| 0u8));
            }
            let mut j: usize = 0;
            while j < digits.len()
                invariant
                    j <= digits.len(),
                    r@ == Seq::new(pad as nat, |k: int| 0u8) + digits@.subrange(0, j as int),
                decreases digits.len() - j,
            {
                r.push(digits[j]);
                j = j + 1;
                assert(r@ =~= Seq::new(pad as nat, |k: int| 0u8) + digits@.subrange(0, j as int));
            }
            assert(digits@.subrange(0, digits.len() as int) =~= digits@);
            r
        } else {
            digits
        }
    }

    /// The AD9833 tuning word for a frequency given in 0.1 Hz, computed in
    /// integers: the leading eight decimal digits of the frequency (negative
    /// frequencies count as 0, short ones are zero-padded to eight digits),
    /// each weighted by its factor in `FHZ_INT`.
    pub fn dds_tuning_word_integer(frequency_tenths_hz: i32) -> (r: i32)
        ensures
            r == tuning_word_integer(frequency_tenths_hz),
    {
        let digits = Self::decimal_digits(frequency_tenths_hz, 8);
        proof {
            let n: nat = if frequency_tenths_hz < 0 { 0 } else { frequency_tenths_hz as nat };
            lemma_decimal_digits(n);
            assert(forall|i: int| 0 <= i < digits@.len() ==> #[trigger] digits@[i] <= 9);
        }
        let mut acc: i32 = 0;
        let mut i: usize = 0;
        while i < 8
            invariant
                i <= 8,
                8 <= digits@.len(),
                digits@ == padded_decimal(frequency_tenths_hz, 8),
                forall|k: int| 0 <= k < digits@.len() ==> #[trigger] digits@[k] <= 9,
                acc == weighted_digits(digits@, i as nat),
            decreases 8 - i,
        {
            proof {
                lemma_weighted_bound(digits@, i as nat);
                lemma_fhz_total(i as nat);
                let f = FHZ_INT[i as int] as int;
                let d = digits@[i as int] as int;
                assert(0 <= f * d <= 9 * f) by (nonlinear_arith)
                    requires 0 <= f, 0 <= d <= 9;
            }
            acc = acc + FHZ_INT[i] * (digits[i] as i32);
            i = i + 1;
        }
        acc
    }

    fn set_switch_bit(&mut self, bit: u8, high: bool)
        requires
            bit < 8,
        ensures
            *final(self) == (DdsHardwareState {
                switch_state: with_bit(old(self).switch_state, bit, high),
                ..*old(self)
            }),
    {
        if high {
            self.switch_state = self.switch_state | (1u8 << bit);
        } else {
            self.switch_state = self.switch_state & !(1u8 << bit);
        }
    }

    fn set_square_sw(&mut self, high: bool)
        ensures
            *final(self) == (DdsHardwareState {
                switch_state: with_bit(
                    old(self).switch_state,
                    square_bit(old(self).board_has_two_shift_registers),
                    high,
                ),
                ..*old(self)
            }),
    {
        let bit = if self.board_has_two_shift_registers {
            TWO_SR_SQUARE_SW_BIT
        } else {
            THREE_SR_SQUARE_SW_BIT
        };
        self.set_switch_bit(bit, high);
    }

    fn set_attn_sw(&mut self, high: bool)
        ensures
            *final(self) == (DdsHardwareState {
                switch_state: with_bit(
                    old(self).switch_state,
                    attn_bit(old(self).board_has_two_shift_registers),
                    high,
                ),
                ..*old(self)
            }),
    {
        let bit = if self.board_has_two_shift_registers {
            TWO_SR_ATTN_SW_BIT
        } else {
            THREE_SR_ATTN_SW_BIT
        };
        self.set_switch_bit(bit, high);
    }

    fn set_ext_on(&mut self, high: bool)
        ensures
            *final(self) == (DdsHardwareState {
                switch_state: with_bit(
                    old(self).switch_state,
                    ext_bit(old(self).board_has_two_shift_registers),
                    high,
                ),
                ..*old(self)
            }),
    {
        let bit = if self.board_has_two_shift_registers {
            TWO_SR_EXT_ON_BIT
        } else {
            THREE_SR_EXT_ON_BIT
        };
        self.set_switch_bit(bit, high);
    }

    fn set_offs_sw(&mut self, high: bool)
        ensures
            *final(self) == (DdsHardwareState {
                switch_state: with_bit(
                    old(self).switch_state,
                    offs_bit(old(self).board_has_two_shift_registers),
                    high,
                ),
                ..*old(self)
            }),
    {
        let bit = if self.board_has_two_shift_registers {
            TWO_SR_OFFS_SW_BIT
        } else {
            THREE_SR_OFFS_SW_BIT
        };
        self.set_switch_bit(bit, high);
    }

    /// The logic-level switch exists only on boards with three shift registers.
    fn set_logic_sw(&mut self, high: bool)
        ensures
            *final(self) == (DdsHardwareState {
                switch_state: if old(self).board_has_two_shift_registers {
                    old(self).switch_state
                } else {
                    with_bit(old(self).switch_state, THREE_SR_LOGIC_SW_BIT, high)
                },
                ..*old(self)
            }),
    {
        if !self.board_has_two_shift_registers {
            self.set_switch_bit(THREE_SR_LOGIC_SW_BIT, high);
        }
    }

    fn set_led_switch<IO: DdsHardwareIo>(&self, io: &mut IO, high: bool)
        ensures
            final(io).events() == old(io).events().push(pin_level(PortKind::LedOut, LED_SWITCH_BIT, high)),
    {
        if high {
            io.set_bit(PortKind::LedOut, LED_SWITCH_BIT);
        } else {
            io.clear_bit(PortKind::LedOut, LED_SWITCH_BIT);
        }
    }

    /// First part of a level change: offset relay and LED, attenuator relay,
    /// and, when the attenuator comes in after the direct range, the DDS is
    /// held in reset while the relays settle. Returns the level word.
    fn prepare_level<IO: DdsHardwareIo>(&mut self, io: &mut IO, drive: LevelDrive) -> (level: i16)
        ensures
            level == drive_level(drive),
            final(io).events() == old(io).events() + prepare_wave(*old(self), drive),
            *final(self) == (DdsHardwareState {
                switch_state: level_switches(
                    old(self).board_has_two_shift_registers,
                    old(self).offset_mv == 0,
                    drive.attenuated,
                ),
                level_byte_hi: final(self).level_byte_hi,
                level_byte_lo: final(self).level_byte_lo,
                dss_cmd: final(self).dss_cmd,
                level_range: !drive.attenuated,
                ..*old(self)
            }),
    {
        let ghost e0 = io.events();
        self.switch_state = 0;
        self.level_byte_hi = 0;
        self.level_byte_lo = 0;
        if self.offset_mv == 0 {
            self.set_offs_sw(true);
            self.set_led_switch(io, true);
        } else {
            self.set_led_switch(io, false);
        }
        let my_level = if drive.attenuated {
            self.set_attn_sw(true);
            if self.level_range {
                self.dss_cmd = DDS_RESET_CMD;
                io.begin_critical_section();
                self.send_dds(io);
                io.end_critical_section();
                self.shift_out_level_sr(io, 0);
                io.delay_ms(5);
                self.level_range = false;
            }
            drive.attenuated_level
        } else {
            self.set_attn_sw(false);
            self.level_range = true;
            drive.direct_level
        };
        assert(io.events() =~= e0 + prepare_wave(*old(self), drive));
        my_level
    }

    /// Waveform choice: DDS command word, the waveform's relays, and the
    /// offset to apply (a logic signal on a two-register board is lifted by
    /// its own offset instead of the requested one).
    fn select_wave(&mut self, wave: Waveform, drive: LevelDrive) -> (r: (u16, i32))
        ensures
            r.0 == wave_command(wave),
            r.1 == wave_offset(*old(self), wave, drive),
            *final(self) == (DdsHardwareState {
                switch_state: wave_switches(old(self).board_has_two_shift_registers, old(self).switch_state, wave),
                ..*old(self)
            }),
    {
        let mut my_offset = self.offset_mv;
        let cmd = match wave {
            Waveform::Sine => DDS_SINE_CMD,
            Waveform::Triangle => DDS_TRIANGLE_CMD,
            Waveform::Square => {
                self.set_square_sw(true);
                DDS_SQUARE_CMD
            },
            Waveform::Logic => {
                self.set_square_sw(true);
                if self.board_has_two_shift_registers {
                    my_offset = drive.logic_offset_mv;
                    self.set_offs_sw(false);
                } else {
                    self.set_logic_sw(true);
                }
                DDS_SQUARE_CMD
            },
            Waveform::External(_) => {
                self.set_ext_on(true);
                DDS_RESET_CMD
            },
            Waveform::Off => DDS_RESET_CMD,
        };
        (cmd, my_offset)
    }

    /// Loads the frequency and then the waveform command into the DDS, with
    /// interrupts held off.
    fn load_dds<IO: DdsHardwareIo>(&mut self, io: &mut IO)
        ensures
            final(io).events() == old(io).events() + seq![DdsEvent::Enter] + tuning_wave(
                old(self).dds_frequency_word as u32,
            ) + send_dds_wave(old(self).wave_cmd) + seq![DdsEvent::Leave],
            *final(self) == (DdsHardwareState { dss_cmd: old(self).wave_cmd, ..*old(self) }),
    {
        let ghost e0 = io.events();
        io.begin_critical_section();
        self.send_tuning_word(io, self.dds_frequency_word as u32);
        self.dss_cmd = self.wave_cmd;
        self.send_dds(io);
        io.end_critical_section();
        assert(io.events() =~= e0 + seq![DdsEvent::Enter] + tuning_wave(old(self).dds_frequency_word as u32)
            + send_dds_wave(old(self).wave_cmd) + seq![DdsEvent::Leave]);
    }

    /// Sets level, waveform, offset and frequency of the generator: the
    /// relays for offset, attenuator and waveform, the offset DAC (in steps
    /// of 5 mV), the level word in the shift registers, and the tuning word
    /// and waveform command in the DDS. `drive` holds the level words and
    /// the attenuator decision worked out from the requested output level.
    pub fn set_level_dds<IO: DdsHardwareIo>(&mut self, io: &mut IO, wave: Waveform, drive: LevelDrive)
        ensures
            final(io).events() == old(io).events() + level_dds_wave(*old(self), wave, drive),
            *final(self) == level_dds_state(*old(self), wave, drive),
    {
        let ghost e0 = io.events();
        let my_level = self.prepare_level(io, drive);
        let (cmd, my_offset) = self.select_wave(wave, drive);
        self.wave_cmd = cmd;
        self.shift_out_1257(io, (my_offset / 5) as i16);
        self.shift_out_level_sr(io, my_level);
        self.dds_frequency_word = Self::dds_tuning_word_integer(self.frequency_tenths_hz);
        self.load_dds(io);
        assert(io.events() =~= e0 + level_dds_wave(*old(self), wave, drive));
    }

    /// Variant for the square-wave generator board: only the attenuator
    /// relay is set, the level word is zero, and the tuning word comes from
    /// the caller (it is computed in floating point).
    pub fn set_level_dds_sqg<IO: DdsHardwareIo>(
        &mut self,
        io: &mut IO,
        wave: Waveform,
        attenuated: bool,
        tuning_word: i32,
    )
        ensures
            final(io).events() == old(io).events() + level_sr_wave(
                old(self).board_has_two_shift_registers,
                with_bit(0, attn_bit(old(self).board_has_two_shift_registers), attenuated),
                0,
            ) + seq![DdsEvent::Enter] + tuning_wave(tuning_word as u32) + send_dds_wave(sqg_command(wave))
                + seq![DdsEvent::Leave],
            *final(self) == (DdsHardwareState {
                switch_state: with_bit(0, attn_bit(old(self).board_has_two_shift_registers), attenuated),
                wave_cmd: sqg_command(wave),
                dss_cmd: sqg_command(wave),
                level_byte_hi: level_hi(
                    old(self).board_has_two_shift_registers,
                    with_bit(0, attn_bit(old(self).board_has_two_shift_registers), attenuated),
                    0,
                ),
                level_byte_lo: level_lo(0),
                dds_frequency_word: tuning_word,
                ..*old(self)
            }),
    {
        let ghost e0 = io.events();
        self.switch_state = 0;
        if attenuated {
            self.set_attn_sw(true);
        } else {
            self.set_attn_sw(false);
        }
        self.wave_cmd = match wave {
            Waveform::Sine => DDS_SINE_CMD,
            Waveform::Triangle => DDS_TRIANGLE_CMD,
            Waveform::Square | Waveform::Logic => DDS_SQUARE_CMD,
            Waveform::Off | Waveform::External(_) => DDS_RESET_CMD,
        };
        // Only the relays matter here; the level word is zero.
        self.shift_out_level_sr(io, 0);
        self.dds_frequency_word = tuning_word;
        self.load_dds(io);
        assert(io.events() =~= e0 + level_sr_wave(
            old(self).board_has_two_shift_registers,
            with_bit(0, attn_bit(old(self).board_has_two_shift_registers), attenuated),
            0,
        ) + seq![DdsEvent::Enter] + tuning_wave(tuning_word as u32) + send_dds_wave(sqg_command(wave))
            + seq![DdsEvent::Leave]);
    }
}

/// Switch bit of the square-wave relay.
pub open spec fn square_bit(two_sr: bool) -> u8 {
    if two_sr { 4 } else { 0 }
}

/// Switch bit of the attenuator relay.
pub open spec fn attn_bit(two_sr: bool) -> u8 {
    if two_sr { 5 } else { 1 }
}

/// Switch bit of the external-input relay.
pub open spec fn ext_bit(two_sr: bool) -> u8 {
    if two_sr { 6 } else { 2 }
}

/// Switch bit of the offset relay.
pub open spec fn offs_bit(two_sr: bool) -> u8 {
    if two_sr { 7 } else { 3 }
}

/// The level words and attenuator decision for one level setting, worked
/// out from the requested output level and the calibration factors.
#[derive(Clone, Copy, Debug, PartialEq, Eq, Structural)]
pub struct LevelDrive {
    /// The requested level is below the attenuator switch point.
    pub attenuated: bool,
    /// Level word to use behind the attenuator.
    pub attenuated_level: i16,
    /// Level word to use without the attenuator.
    pub direct_level: i16,
    /// Offset in mV that lifts a logic signal to positive levels.
    pub logic_offset_mv: i32,
}

/// The level word that goes to the shift registers.
pub open spec fn drive_level(drive: LevelDrive) -> i16 {
    if drive.attenuated { drive.attenuated_level } else { drive.direct_level }
}

/// Relays after the first part of a level change: the offset relay when no
/// offset is requested, and the attenuator relay.
pub open spec fn level_switches(two_sr: bool, offset_zero: bool, attenuated: bool) -> u8 {
    let s = if offset_zero { with_bit(0, offs_bit(two_sr), true) } else { 0 };
    with_bit(s, attn_bit(two_sr), attenuated)
}

/// Relays after the waveform has been chosen.
pub open spec fn wave_switches(two_sr: bool, switches: u8, wave: Waveform) -> u8 {
    match wave {
        Waveform::Square => with_bit(switches, square_bit(two_sr), true),
        Waveform::Logic => {
            let s = with_bit(switches, square_bit(two_sr), true);
            if two_sr {
                with_bit(s, offs_bit(two_sr), false)
            } else {
                with_bit(s, 4, true)
            }
        },
        Waveform::External(_) => with_bit(switches, ext_bit(two_sr), true),
        _ => switches,
    }
}

/// DDS command word of a waveform; no output (reset) for off and external.
pub open spec fn wave_command(wave: Waveform) -> u16 {
    match wave {
        Waveform::Sine => DDS_SINE_CMD,
        Waveform::Triangle => DDS_TRIANGLE_CMD,
        Waveform::Square | Waveform::Logic => DDS_SQUARE_CMD,
        Waveform::External(_) | Waveform::Off => DDS_RESET_CMD,
    }
}

/// DDS command word of a waveform on the square-wave generator board.
pub open spec fn sqg_command(wave: Waveform) -> u16 {
    wave_command(wave)
}

/// The offset in mV that the DAC gets.
pub open spec fn wave_offset(s: DdsHardwareState, wave: Waveform, drive: LevelDrive) -> i32 {
    if wave == Waveform::Logic && s.board_has_two_shift_registers {
        drive.logic_offset_mv
    } else {
        s.offset_mv
    }
}

/// An offset in mV in DAC steps of 5 mV, rounded toward zero.
pub open spec fn offset_steps(offset_mv: i32) -> i16 {
    (if offset_mv >= 0 { offset_mv / 5 } else { -((-offset_mv) / 5) }) as i16
}

/// Events of the first part of a level change.
pub open spec fn prepare_wave(s: DdsHardwareState, drive: LevelDrive) -> Seq<DdsEvent> {
    let two = s.board_has_two_shift_registers;
    seq![pin_level(PortKind::LedOut, 3, s.offset_mv == 0)] + (if drive.attenuated && s.level_range {
        seq![DdsEvent::Enter] + send_dds_wave(DDS_RESET_CMD) + seq![DdsEvent::Leave] + level_sr_wave(
            two,
            level_switches(two, s.offset_mv == 0, true),
            0,
        ) + seq![DdsEvent::DelayMs(5)]
    } else {
        Seq::empty()
    })
}

/// Relays after a full level change.
pub open spec fn level_dds_switches(s: DdsHardwareState, wave: Waveform, drive: LevelDrive) -> u8 {
    let two = s.board_has_two_shift_registers;
    wave_switches(two, level_switches(two, s.offset_mv == 0, drive.attenuated), wave)
}

/// Events of a full level change.
pub open spec fn level_dds_wave(s: DdsHardwareState, wave: Waveform, drive: LevelDrive) -> Seq<DdsEvent> {
    let two = s.board_has_two_shift_registers;
    prepare_wave(s, drive) + dac1257_wave(dac_offset_word(offset_steps(wave_offset(s, wave, drive))) as u16)
        + level_sr_wave(two, level_dds_switches(s, wave, drive), drive_level(drive)) + seq![DdsEvent::Enter]
        + tuning_wave(tuning_word_integer(s.frequency_tenths_hz) as u32) + send_dds_wave(wave_command(wave))
        + seq![DdsEvent::Leave]
}

/// Generator state after a full level change.
pub open spec fn level_dds_state(s: DdsHardwareState, wave: Waveform, drive: LevelDrive) -> DdsHardwareState {
    let two = s.board_has_two_shift_registers;
    let switches = level_dds_switches(s, wave, drive);
    DdsHardwareState {
        switch_state: switches,
        dac_temp: dac_offset_word(offset_steps(wave_offset(s, wave, drive))),
        level_byte_hi: level_hi(two, switches, drive_level(drive)),
        level_byte_lo: level_lo(drive_level(drive)),
        dds_frequency_word: tuning_word_integer(s.frequency_tenths_hz) as i32,
        level_range: !drive.attenuated,
        wave_cmd: wave_command(wave),
        dss_cmd: wave_command(wave),
        ..s
    }
}

/// The two frequency frames carry the tuning word: reassembled from their
/// low fourteen bits they give its 28 bits back, and each frame is tagged
/// `01` in its top bits as a write of frequency register 0.
pub proof fn law_frames_carry_tuning_word(tuning_word: u32)
    ensures
        (frequency_frames(tuning_word).0 & 0xc000) == 0x4000,
        (frequency_frames(tuning_word).1 & 0xc000) == 0x4000,
        (((frequency_frames(tuning_word).1 & 0x3fff) as u32) << 14u32) | ((frequency_frames(tuning_word).0 & 0x3fff) as u32)
            == tuning_word & 0x0fff_ffff,
{
    let x = tuning_word;
    assert(((((x & 0x3fffu32) as u16) | 0x4000u16) & 0xc000u16) == 0x4000u16) by (bit_vector);
    assert((((((x >> 14u32) & 0x3fffu32) as u16) | 0x4000u16) & 0xc000u16) == 0x4000u16) by (bit_vector);
    assert(((((((((x >> 14u32) & 0x3fffu32) as u16) | 0x4000u16) & 0x3fffu16) as u32) << 14u32) | (((((x
        & 0x3fffu32) as u16) | 0x4000u16) & 0x3fffu16) as u32)) == x & 0x0fff_ffffu32) by (bit_vector);
}

/// The number that a digit sequence spells, most significant digit first.
spec fn digits_number(d: Seq<u8>) -> int
    decreases d.len(),
{
    if d.len() == 0 {
        0
    } else {
        digits_number(d.drop_last()) * 10 + d.last()
    }
}

proof fn lemma_decimal_number(n: nat)
    ensures
        digits_number(decimal(n)) == n,
        n < 100_000_000 ==> decimal(n).len() <= 8,
        n < 10_000_000 ==> decimal(n).len() <= 7,
        n < 1_000_000 ==> decimal(n).len() <= 6,
        n < 100_000 ==> decimal(n).len() <= 5,
        n < 10_000 ==> decimal(n).len() <= 4,
        n < 1_000 ==> decimal(n).len() <= 3,
        n < 100 ==> decimal(n).len() <= 2,
    decreases n,
{
    if n >= 10 {
        lemma_decimal_number(n / 10);
        assert(decimal(n).drop_last() =~= decimal(n / 10));
        assert(decimal(n).last() == (n % 10) as u8);
        assert(digits_number(decimal(n)) == digits_number(decimal(n / 10)) * 10 + decimal(n).last());
        assert((n / 10) * 10 + n % 10 == n);
        assert(((n % 10) as u8) as int == n % 10);
    } else {
        assert(decimal(n).drop_last() =~= Seq::<u8>::empty());
        assert(decimal(n).last() == n as u8);
        assert((n as u8) as int == n);
        assert(digits_number(decimal(n)) == digits_number(Seq::<u8>::empty()) * 10 + decimal(n).last());
    }
}

proof fn lemma_zeros_number(z: Seq<u8>, d: Seq<u8>)
    requires
        forall|i: int| 0 <= i < z.len() ==> z[i] == 0,
    ensures
        digits_number(z + d) == digits_number(d),
    decreases d.len() + z.len(),
{
    if d.len() > 0 {
        assert((z + d).drop_last() =~= z + d.drop_last());
        lemma_zeros_number(z, d.drop_last());
    } else if z.len() > 0 {
        assert((z + d).drop_last() =~= z.drop_last() + d);
        lemma_zeros_number(z.drop_last(), d);
        assert(z + d =~= z);
    } else {
        assert(z + d =~= d);
    }
}

/// The weighted sum and the number of eight digits, written out.
#[verifier::spinoff_prover]
proof fn lemma_eight_digits(p: Seq<u8>)
    requires
        p.len() == 8,
    ensures
        digits_number(p) == digits_number(p.drop_last()) * 10 + p[7],
        digits_number(p.drop_last()) == p[0] * 1_000_000 + p[1] * 100_000 + p[2] * 10_000 + p[3] * 1_000 + p[4] * 100
            + p[5] * 10 + p[6],
        weighted_digits(p, 8) == 64 * digits_number(p.drop_last()) + 6 * p[7],
{
    assert(FHZ_INT[0] == 64_000_000 && FHZ_INT[1] == 6_400_000 && FHZ_INT[2] == 640_000 && FHZ_INT[3] == 64_000);
    assert(FHZ_INT[4] == 6_400 && FHZ_INT[5] == 640 && FHZ_INT[6] == 64 && FHZ_INT[7] == 6);
    assert(weighted_digits(p, 0) == 0);
    assert(weighted_digits(p, 1) == 64_000_000 * p[0]);
    assert(weighted_digits(p, 2) == weighted_digits(p, 1) + 6_400_000 * p[1]);
    assert(weighted_digits(p, 3) == weighted_digits(p, 2) + 640_000 * p[2]);
    assert(weighted_digits(p, 4) == weighted_digits(p, 3) + 64_000 * p[3]);
    assert(weighted_digits(p, 5) == weighted_digits(p, 4) + 6_400 * p[4]);
    assert(weighted_digits(p, 6) == weighted_digits(p, 5) + 640 * p[5]);
    assert(weighted_digits(p, 7) == weighted_digits(p, 6) + 64 * p[6]);
    assert(weighted_digits(p, 8) == weighted_digits(p, 7) + 6 * p[7]);
    let d7 = p.drop_last();
    let d6 = d7.drop_last();
    let d5 = d6.drop_last();
    let d4 = d5.drop_last();
    let d3 = d4.drop_last();
    let d2 = d3.drop_last();
    let d1 = d2.drop_last();
    let d0 = d1.drop_last();
    assert(d0 =~= Seq::<u8>::empty());
    assert(digits_number(d0) == 0);
    assert(digits_number(d1) == digits_number(d0) * 10 + p[0]);
    assert(digits_number(d2) == digits_number(d1) * 10 + p[1]);
    assert(digits_number(d3) == digits_number(d2) * 10 + p[2]);
    assert(digits_number(d4) == digits_number(d3) * 10 + p[3]);
    assert(digits_number(d5) == digits_number(d4) * 10 + p[4]);
    assert(digits_number(d6) == digits_number(d5) * 10 + p[5]);
    assert(digits_number(d7) == digits_number(d6) * 10 + p[6]);
    assert(digits_number(p) == digits_number(d7) * 10 + p[7]);
}

/// The integer tuning word is the frequency scaled digit by digit: 6.4
/// steps per 0.1 Hz for all but the last digit, 6 for the last one, that is
/// `64 * (f / 10) + 6 * (f % 10)` for every frequency below 10 MHz.
pub proof fn law_tuning_word_scales_frequency(frequency_tenths_hz: i32)
    requires
        0 <= frequency_tenths_hz < 100_000_000,
    ensures
        tuning_word_integer(frequency_tenths_hz) == 64 * (frequency_tenths_hz / 10) + 6 * (frequency_tenths_hz % 10),
{
    let f = frequency_tenths_hz as nat;
    let d = decimal(f);
    lemma_decimal_number(f);
    lemma_decimal_digits(f);
    let p = padded_decimal(frequency_tenths_hz, 8);
    let z = Seq::new((8 - d.len()) as nat, |i: int| 0u8);
    assert(p == z + d);
    lemma_zeros_number(z, d);
    assert(p.len() == 8);
    assert forall|i: int| 0 <= i < 8 implies #[trigger] p[i] <= 9 by {
        if i >= z.len() {
            assert(p[i] == d[i - z.len()]);
        }
    }
    lemma_eight_digits(p);
    let q = digits_number(p.drop_last());
    assert(f == q * 10 + p[7]);
    assert(f / 10 == q && f % 10 == p[7] as int) by (nonlinear_arith)
        requires
            f == q * 10 + p[7],
            0 <= p[7] <= 9,
    ;
}

/// Forcing one bit changes that bit and no other.
proof fn lemma_forced_bit(v: u8, b: u8, h: bool, j: u8)
    requires
        b < 8,
        j < 8,
    ensures
        bit_set(with_bit(v, b, h), j) == (if j == b {
            h
        } else {
            bit_set(v, j)
        }),
{
    if h {
        assert(((v | (1u8 << b)) >> j) & 1u8 == 1u8 <==> (j == b || (v >> j) & 1u8 == 1u8)) by (bit_vector)
            requires
                b < 8,
                j < 8,
        ;
    } else {
        assert(((v & !(1u8 << b)) >> j) & 1u8 == 1u8 <==> (j != b && (v >> j) & 1u8 == 1u8)) by (bit_vector)
            requires
                b < 8,
                j < 8,
        ;
    }
}

/// On a board with two shift registers the relays follow the request: the
/// attenuator is in exactly when the level is below the switch point, the
/// square relay for square and logic output, the external relay for the
/// external input, and the offset relay when no offset is requested and
/// the output is not logic.
pub proof fn law_relays_follow_request(s: DdsHardwareState, wave: Waveform, drive: LevelDrive)
    requires
        s.board_has_two_shift_registers,
    ensures
        bit_set(level_dds_switches(s, wave, drive), 5) == drive.attenuated,
        bit_set(level_dds_switches(s, wave, drive), 4) == (wave == Waveform::Square || wave == Waveform::Logic),
        bit_set(level_dds_switches(s, wave, drive), 6) == (wave is External),
        bit_set(level_dds_switches(s, wave, drive), 7) == (s.offset_mv == 0 && wave != Waveform::Logic),
{
    let z = s.offset_mv == 0;
    let s0: u8 = if z { with_bit(0, 7, true) } else { 0 };
    let s1 = with_bit(s0, 5, drive.attenuated);
    assert(!bit_set(0, 4) && !bit_set(0, 5) && !bit_set(0, 6) && !bit_set(0, 7)) by (bit_vector);
    lemma_forced_bit(0, 7, true, 4);
    lemma_forced_bit(0, 7, true, 5);
    lemma_forced_bit(0, 7, true, 6);
    lemma_forced_bit(0, 7, true, 7);
    lemma_forced_bit(s0, 5, drive.attenuated, 4);
    lemma_forced_bit(s0, 5, drive.attenuated, 5);
    lemma_forced_bit(s0, 5, drive.attenuated, 6);
    lemma_forced_bit(s0, 5, drive.attenuated, 7);
    let sq = with_bit(s1, 4, true);
    lemma_forced_bit(s1, 4, true, 4);
    lemma_forced_bit(s1, 4, true, 5);
    lemma_forced_bit(s1, 4, true, 6);
    lemma_forced_bit(s1, 4, true, 7);
    lemma_forced_bit(sq, 7, false, 4);
    lemma_forced_bit(sq, 7, false, 5);
    lemma_forced_bit(sq, 7, false, 6);
    lemma_forced_bit(sq, 7, false, 7);
    lemma_forced_bit(s1, 6, true, 4);
    lemma_forced_bit(s1, 6, true, 5);
    lemma_forced_bit(s1, 6, true, 6);
    lemma_forced_bit(s1, 6, true, 7);
}

/// The AD9833 control bits of one command word: 28-bit frequency loads
/// (B28, bit 13) always; reset (bit 8) exactly when the output is off; the
/// triangle (MODE, bit 1) exactly for a triangle; the comparator square
/// (OPBITEN, bit 5, with DIV2, bit 3) exactly for a square; no other bit.
pub open spec fn ad9833_word_puts_out(word: u16, off: bool, triangle: bool, square: bool) -> bool {
    &&& word & 0x2000 == 0x2000
    &&& (word & 0x0100 == 0x0100) == off
    &&& (word & 0x0002 == 0x0002) == triangle
    &&& (word & 0x0028 == 0x0028) == square
    &&& (word & 0x0028 == 0 || word & 0x0028 == 0x0028)
    &&& word & 0xded5 == 0
}

/// The four control words in use: reset, sine, triangle and square.
pub proof fn lemma_ad9833_words()
    ensures
        ad9833_word_puts_out(0x2100u16, true, false, false),
        ad9833_word_puts_out(0x2000u16, false, false, false),
        ad9833_word_puts_out(0x2002u16, false, true, false),
        ad9833_word_puts_out(0x2028u16, false, false, true),
{
    assert({
        &&& ad9833_word_puts_out(0x2100u16, true, false, false)
        &&& ad9833_word_puts_out(0x2000u16, false, false, false)
        &&& ad9833_word_puts_out(0x2002u16, false, true, false)
        &&& ad9833_word_puts_out(0x2028u16, false, false, true)
    }) by (bit_vector);
}

/// The command word that the generator leaves in the DDS tells it to put
/// out the requested waveform: no output for off and an external signal,
/// a triangle for the triangle, the square for square and logic, and a sine
/// (none of these bits) for the sine. This holds of a full level change and
/// of the square-wave generator board alike, so different waveform kinds
/// never share a command word.
pub proof fn law_dds_puts_out_requested_wave(s: DdsHardwareState, wave: Waveform, drive: LevelDrive)
    ensures
        ad9833_word_puts_out(
            level_dds_state(s, wave, drive).wave_cmd,
            wave is Off || wave is External,
            wave is Triangle,
            wave is Square || wave is Logic,
        ),
        level_dds_state(s, wave, drive).dss_cmd == level_dds_state(s, wave, drive).wave_cmd,
        ad9833_word_puts_out(
            sqg_command(wave),
            wave is Off || wave is External,
            wave is Triangle,
            wave is Square || wave is Logic,
        ),
{
    lemma_ad9833_words();
}

} // verus!
