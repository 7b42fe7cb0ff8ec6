//! Hardware-near part of the ADA-IO module: bit-banged transfers to the
//! LTC1257 / LTC1655 / DAC714 converters, the LTC1864 ADC, the 4094 shift
//! registers, and the 1 ms system tick that cycles the multiplexer.
//!
//! Every access to the hardware is recorded in the trace of an
//! [`AdacHardware`] value, so the contracts state the exact pin sequence.

use core::marker::PhantomData;
use vstd::prelude::*;

use crate::avrd::{bit_set, Atmega32, AvrdPortIo, Mcu, RegisterPort, PortRegs};
use crate::bits::{bits_value, byte_bits, extends, lemma_bits_value_bound, lemma_bits_value_concat, msb, strided};

verus! {

pub type Byte = u8;

pub type Word = u16;

pub type Integer = i16;

pub type LongInt = i32;

pub const MUX_CHANNEL_COUNT: usize = 8;

pub const ADC16_SAMPLES_PER_TICK: usize = 4;

pub const PORTC_MUX_BASE: Byte = 0b1100_0011;

/// The control and data lines of the ADA-IO board.
#[derive(Clone, Copy, Debug, Eq, PartialEq, Structural)]
pub enum Signal {
    SDataOut,
    SClk,
    StrDac,
    StrAd16,
    StrSr,
    StrDaMux,
    SDataIn1,
}

/// One action performed on the ADA-IO hardware.
#[derive(Clone, Copy, Debug, Eq, PartialEq, Structural)]
pub enum AdaEvent {
    /// A line was driven to the given level.
    Line(Signal, bool),
    /// Port C was written as a whole.
    PortC(Byte),
    /// A busy wait of the given number of cycles.
    Wait(Byte),
    /// A wait for the 10-bit ADC to finish.
    AdcWait,
}

/// Access to the ADA-IO lines.
///
/// `events` is everything done to the hardware so far, in order; `samples`
/// holds, for every line change, the level of the serial data input right
/// after it (what a converter clocked by that change presents).
pub trait AdacHardware {
    spec fn events(&self) -> Seq<AdaEvent>;

    spec fn samples(&self) -> Seq<bool>;

    /// The level currently seen on a line.
    spec fn level(&self, signal: Signal) -> bool;

    fn set_signal(&mut self, signal: Signal, high: bool)
        ensures
            final(self).events() == old(self).events().push(AdaEvent::Line(signal, high)),
            final(self).samples() == old(self).samples().push(final(self).level(Signal::SDataIn1)),
    ;

    fn read_signal(&self, signal: Signal) -> (r: bool)
        ensures
            r == self.level(signal),
    ;

    fn set_port_c(&mut self, value: Byte)
        ensures
            final(self).events() == old(self).events().push(AdaEvent::PortC(value)),
            final(self).samples() == old(self).samples(),
    ;

    fn wait_cycles(&mut self, cycles: Byte)
        ensures
            final(self).events() == old(self).events().push(AdaEvent::Wait(cycles)),
            final(self).samples() == old(self).samples(),
    ;

    fn wait_for_adc10_complete(&mut self)
        ensures
            final(self).events() == old(self).events().push(AdaEvent::AdcWait),
            final(self).samples() == old(self).samples(),
    ;
}

/// Port and bit of each line on the ATmega32 board.
pub open spec fn signal_pin(signal: Signal) -> (RegisterPort, u8) {
    match signal {
        Signal::SDataOut => (RegisterPort::B, 1),
        Signal::SClk => (RegisterPort::B, 0),
        Signal::StrDac => (RegisterPort::B, 3),
        Signal::StrAd16 => (RegisterPort::B, 4),
        Signal::StrSr => (RegisterPort::B, 6),
        Signal::StrDaMux => (RegisterPort::C, 5),
        Signal::SDataIn1 => (RegisterPort::B, 5),
    }
}

/// The ADA-IO lines on a real AVR port register file.
pub struct AdacAvrd<M: Mcu> {
    pub io: AvrdPortIo<M>,
    pub _marker: PhantomData<M>,
    pub trace: Ghost<Seq<AdaEvent>>,
    pub sampled: Ghost<Seq<bool>>,
}

pub type AdacAtmega32 = AdacAvrd<Atmega32>;

impl<M: Mcu> Default for AdacAvrd<M> {
    fn default() -> (r: Self)
        ensures
            r.io.a == (PortRegs { ddr: 0, port: 0, pin: 0 }),
            r.io.b == (PortRegs { ddr: 0, port: 0, pin: 0 }),
            r.io.c == (PortRegs { ddr: 0, port: 0, pin: 0 }),
            r.io.d == (PortRegs { ddr: 0, port: 0, pin: 0 }),
            r.trace@ == Seq::<AdaEvent>::empty(),
            r.sampled@ == Seq::<bool>::empty(),
    {
        Self {
            io: AvrdPortIo::default(),
            _marker: PhantomData,
            trace: Ghost(Seq::empty()),
            sampled: Ghost(Seq::empty()),
        }
    }
}

impl<M: Mcu> AdacAvrd<M> {
    /// Power-up direction and output values of ports B, C and D.
    pub fn init_ports(&mut self)
        ensures
            final(self).io.a == old(self).io.a,
            final(self).io.b == (PortRegs { ddr: 0b0101_1011, port: 0b1011_1111, pin: old(self).io.b.pin }),
            final(self).io.c == (PortRegs { ddr: 0b1111_1100, port: 0b0000_0011, pin: old(self).io.c.pin }),
            final(self).io.d == (PortRegs { ddr: 0b0000_1100, port: 0b1111_1100, pin: old(self).io.d.pin }),
            final(self).trace == old(self).trace,
            final(self).sampled == old(self).sampled,
    {
        self.io.init_port(RegisterPort::B, 0b0101_1011, 0b1011_1111);
        self.io.init_port(RegisterPort::C, 0b1111_1100, 0b0000_0011);
        self.io.init_port(RegisterPort::D, 0b0000_1100, 0b1111_1100);
    }

    fn map_signal(signal: Signal) -> (r: (RegisterPort, u8))
        ensures
            r == signal_pin(signal),
            r.1 < 8,
    {
        match signal {
            Signal::SDataOut => (RegisterPort::B, 1),
            Signal::SClk => (RegisterPort::B, 0),
            Signal::StrDac => (RegisterPort::B, 3),
            Signal::StrAd16 => (RegisterPort::B, 4),
            Signal::StrSr => (RegisterPort::B, 6),
            Signal::StrDaMux => (RegisterPort::C, 5),
            Signal::SDataIn1 => (RegisterPort::B, 5),
        }
    }
}

impl<M: Mcu> AdacHardware for AdacAvrd<M> {
    open spec fn events(&self) -> Seq<AdaEvent> {
        self.trace@
    }

    open spec fn samples(&self) -> Seq<bool> {
        self.sampled@
    }

    open spec fn level(&self, signal: Signal) -> bool {
        bit_set(self.io.regs(signal_pin(signal).0).pin, signal_pin(signal).1)
    }

    fn set_signal(&mut self, signal: Signal, high: bool) {
        let (port, bit) = Self::map_signal(signal);
        self.io.write_bit(port, bit, high);
        self.trace = Ghost(self.trace@.push(AdaEvent::Line(signal, high)));
        self.sampled = Ghost(self.sampled@.push(self.level(Signal::SDataIn1)));
    }

    fn read_signal(&self, signal: Signal) -> (r: bool) {
        let (port, bit) = Self::map_signal(signal);
        self.io.read_bit(port, bit)
    }

    fn set_port_c(&mut self, value: Byte) {
        self.io.write_port(RegisterPort::C, value);
        self.trace = Ghost(self.trace@.push(AdaEvent::PortC(value)));
    }

    fn wait_cycles(&mut self, cycles: Byte) {
        self.io.spin_delay_cycles(cycles as u16);
        self.trace = Ghost(self.trace@.push(AdaEvent::Wait(cycles)));
    }

    fn wait_for_adc10_complete(&mut self) {
        self.io.wait_for_adc();
        self.trace = Ghost(self.trace@.push(AdaEvent::AdcWait));
    }
}


/// Converter and multiplexer state shared with the interrupt routine.
#[derive(Clone, Debug, Default)]
pub struct AdacState {
    pub dac_temp: Word,
    pub ad_raw: Word,
    pub port_sr0: Byte,
    pub port_sr1: Byte,
    pub port_sr2: Byte,
    pub port_sr3: Byte,
    pub mux_ch: usize,
    pub adc16_present: bool,
    pub dac16_present: bool,
    pub dac714_present: bool,
    pub dac12_present: bool,
    pub integrate_ad16: bool,
    pub ad16_long: LongInt,
    pub adc_raw_array: [Integer; MUX_CHANNEL_COUNT],
    pub dac_raw_array: [Word; MUX_CHANNEL_COUNT],
}

pub open spec fn line(signal: Signal, high: bool) -> AdaEvent {
    AdaEvent::Line(signal, high)
}

/// How one data bit is framed by the clock line.
#[derive(Clone, Copy, Debug, PartialEq, Eq, Structural)]
pub enum Framing {
    /// Data set (only when 1), clock high, data low, clock low.
    Plain,
    /// Like `Plain` with a one-cycle wait while the clock is high.
    Timed,
    /// DAC714 order: clock low, data set (only when 1), wait, clock high, data low.
    Falling,
}

/// The events that clock out one bit.
pub open spec fn bit_step(framing: Framing, bit: bool) -> Seq<AdaEvent> {
    let data = if bit { seq![line(Signal::SDataOut, true)] } else { Seq::<AdaEvent>::empty() };
    match framing {
        Framing::Plain => data + seq![
            line(Signal::SClk, true),
            line(Signal::SDataOut, false),
            line(Signal::SClk, false),
        ],
        Framing::Timed => data + seq![
            line(Signal::SClk, true),
            AdaEvent::Wait(1),
            line(Signal::SDataOut, false),
            line(Signal::SClk, false),
        ],
        Framing::Falling => seq![line(Signal::SClk, false)] + data + seq![
            AdaEvent::Wait(1),
            line(Signal::SClk, true),
            line(Signal::SDataOut, false),
        ],
    }
}

/// The events that clock out the `n` leading bits of `acc`, most significant first.
pub open spec fn clocked(framing: Framing, acc: u8, n: nat) -> Seq<AdaEvent>
    decreases n,
{
    if n == 0 {
        Seq::empty()
    } else {
        clocked(framing, acc, (n - 1) as nat) + bit_step(framing, msb(acc << ((n - 1) as u8)))
    }
}

/// `b` is `a` with zero or more elements appended.
pub open spec fn grows<T>(a: Seq<T>, b: Seq<T>) -> bool {
    &&& a.len() <= b.len()
    &&& forall|i: int| 0 <= i < a.len() ==> #[trigger] b[i] == a[i]
}

proof fn lemma_shl_step(a: u8, i: u8)
    requires
        i < 8,
    ensures
        ((a << i) << 1u8) as u8 == a << ((i + 1) as u8),
{
    assert(((a << i) << 1u8) == a << ((i + 1) as u8)) by (bit_vector)
        requires i < 8;
}

fn set_low<H: AdacHardware>(hw: &mut H, signal: Signal)
    ensures
        final(hw).events() == old(hw).events().push(line(signal, false)),
        final(hw).samples() == old(hw).samples().push(final(hw).level(Signal::SDataIn1)),
{
    hw.set_signal(signal, false);
}

fn set_high<H: AdacHardware>(hw: &mut H, signal: Signal)
    ensures
        final(hw).events() == old(hw).events().push(line(signal, true)),
        final(hw).samples() == old(hw).samples().push(final(hw).level(Signal::SDataIn1)),
{
    hw.set_signal(signal, true);
}

fn msb_is_set(value: Byte) -> (r: bool)
    ensures
        r == msb(value),
{
    value & 0x80 != 0
}

/// Clocks out the `n` leading bits of `acc` with the given framing.
fn clock_bits<H: AdacHardware>(hw: &mut H, acc: Byte, n: u8, framing: Framing)
    requires
        n <= 8,
    ensures
        final(hw).events() == old(hw).events() + clocked(framing, acc, n as nat),
        grows(old(hw).samples(), final(hw).samples()),
{
    let ghost e0 = hw.events();
    let ghost s0 = hw.samples();
    let mut acca = acc;
    let mut i: u8 = 0;
    assert(acc << 0u8 == acc) by (bit_vector);
    while i < n
        invariant
            i <= n <= 8,
            acca == acc << i,
            hw.events() == e0 + clocked(framing, acc, i as nat),
            grows(s0, hw.samples()),
        decreases n - i,
    {
        let ghost e1 = hw.events();
        let bit = msb_is_set(acca);
        match framing {
            Framing::Plain => {
                if bit {
                    set_high(hw, Signal::SDataOut);
                }
                set_high(hw, Signal::SClk);
                acca = acca << 1;
                set_low(hw, Signal::SDataOut);
                set_low(hw, Signal::SClk);
            },
            Framing::Timed => {
                if bit {
                    set_high(hw, Signal::SDataOut);
                }
                set_high(hw, Signal::SClk);
                acca = acca << 1;
                hw.wait_cycles(1);
                set_low(hw, Signal::SDataOut);
                set_low(hw, Signal::SClk);
            },
            Framing::Falling => {
                set_low(hw, Signal::SClk);
                if bit {
                    set_high(hw, Signal::SDataOut);
                }
                acca = acca << 1;
                hw.wait_cycles(1);
                set_high(hw, Signal::SClk);
                set_low(hw, Signal::SDataOut);
            },
        }
        proof {
            lemma_shl_step(acc, i);
            assert(hw.events() =~= e1 + bit_step(framing, bit));
            assert(clocked(framing, acc, (i + 1) as nat) == clocked(framing, acc, i as nat) + bit_step(framing, bit));
        }
        i = i + 1;
    }
}

/// The pin sequence that sends one byte to the 4094 chain.
pub open spec fn sr_byte_wave(value: u8) -> Seq<AdaEvent> {
    clocked(Framing::Plain, value, 8)
}

fn shift_out_sr_byte<H: AdacHardware>(hw: &mut H, acca: Byte)
    ensures
        final(hw).events() == old(hw).events() + sr_byte_wave(acca),
        grows(old(hw).samples(), final(hw).samples()),
{
    clock_bits(hw, acca, 8, Framing::Plain);
}


/// Pin sequence of a transfer to the 12-bit LTC1257, most significant bit
/// first: bits 11 to 8, bits 7 to 1, and bit 0 on a last clock together
/// with the load strobe.
#[verifier::opaque]
pub open spec fn dac1257_wave(dac_temp: u16) -> Seq<AdaEvent> {
    seq![line(Signal::SDataOut, false), line(Signal::SClk, false), line(Signal::StrDac, true)]
        + clocked(Framing::Timed, ((dac_temp >> 8u16) as u8) << 4u8, 4)
        + clocked(Framing::Timed, dac_temp as u8, 7)
        + (if dac_temp & 1u16 == 1u16 { seq![line(Signal::SDataOut, true)] } else { Seq::empty() })
        + seq![
        line(Signal::SClk, true),
        line(Signal::StrDac, false),
        AdaEvent::Wait(1),
        line(Signal::SDataOut, false),
        line(Signal::SClk, false),
        line(Signal::StrDac, true),
    ]
}

/// Pin sequence of a transfer to the 16-bit LTC1655, high byte first.
#[verifier::opaque]
pub open spec fn dac1655_wave(dac_temp: u16) -> Seq<AdaEvent> {
    seq![line(Signal::SClk, false), line(Signal::SDataOut, false), line(Signal::StrDac, false)]
        + clocked(Framing::Timed, (dac_temp >> 8u16) as u8, 8)
        + clocked(Framing::Plain, dac_temp as u8, 8)
        + seq![line(Signal::StrDac, true)]
}

/// Pin sequence of a transfer to the DAC714, high byte first, data taken on the rising clock.
#[verifier::opaque]
pub open spec fn dac714_wave(dac_temp: u16) -> Seq<AdaEvent> {
    seq![line(Signal::SDataOut, false), line(Signal::SClk, true), line(Signal::StrDac, true)]
        + clocked(Framing::Falling, (dac_temp >> 8u16) as u8, 8)
        + clocked(Framing::Falling, dac_temp as u8, 8)
        + seq![
        line(Signal::SClk, false),
        AdaEvent::Wait(1),
        line(Signal::StrDac, false),
        AdaEvent::Wait(1),
        line(Signal::SClk, true),
        AdaEvent::Wait(1),
        line(Signal::StrDac, true),
    ]
}

/// Sends `state.dac_temp` to the LTC1257.
pub fn shift_out1257<H: AdacHardware>(hw: &mut H, state: &AdacState)
    ensures
        final(hw).events() == old(hw).events() + dac1257_wave(state.dac_temp),
        grows(old(hw).samples(), final(hw).samples()),
{
    let ghost e0 = hw.events();
    set_low(hw, Signal::SDataOut);
    set_low(hw, Signal::SClk);
    set_high(hw, Signal::StrDac);
    let high: Byte = ((state.dac_temp >> 8) as Byte) << 4;
    clock_bits(hw, high, 4, Framing::Timed);
    let low: Byte = state.dac_temp as Byte;
    clock_bits(hw, low, 7, Framing::Timed);
    // Bit 0 goes out with the load pulse.
    let acca: Byte = low << 7;
    let ghost d = state.dac_temp;
    assert(msb(((d as u8) << 7u8) as u8) == (d & 1u16 == 1u16)) by (bit_vector);
    if msb_is_set(acca) {
        set_high(hw, Signal::SDataOut);
    }
    set_high(hw, Signal::SClk);
    set_low(hw, Signal::StrDac);
    hw.wait_cycles(1);
    set_low(hw, Signal::SDataOut);
    set_low(hw, Signal::SClk);
    set_high(hw, Signal::StrDac);
    reveal(dac1257_wave);
    assert(hw.events() =~= e0 + dac1257_wave(state.dac_temp));
}

/// Sends `state.dac_temp` to the LTC1655.
pub fn shift_out1655<H: AdacHardware>(hw: &mut H, state: &AdacState)
    ensures
        final(hw).events() == old(hw).events() + dac1655_wave(state.dac_temp),
        grows(old(hw).samples(), final(hw).samples()),
{
    let ghost e0 = hw.events();
    set_low(hw, Signal::SClk);
    set_low(hw, Signal::SDataOut);
    set_low(hw, Signal::StrDac);
    clock_bits(hw, (state.dac_temp >> 8) as Byte, 8, Framing::Timed);
    clock_bits(hw, state.dac_temp as Byte, 8, Framing::Plain);
    set_high(hw, Signal::StrDac);
    reveal(dac1655_wave);
    assert(hw.events() =~= e0 + dac1655_wave(state.dac_temp));
}

/// Sends `state.dac_temp` to the DAC714.
pub fn shift_out714<H: AdacHardware>(hw: &mut H, state: &AdacState)
    ensures
        final(hw).events() == old(hw).events() + dac714_wave(state.dac_temp),
        grows(old(hw).samples(), final(hw).samples()),
{
    let ghost e0 = hw.events();
    set_low(hw, Signal::SDataOut);
    set_high(hw, Signal::SClk);
    set_high(hw, Signal::StrDac);
    clock_bits(hw, (state.dac_temp >> 8) as Byte, 8, Framing::Falling);
    clock_bits(hw, state.dac_temp as Byte, 8, Framing::Falling);
    set_low(hw, Signal::SClk);
    hw.wait_cycles(1);
    set_low(hw, Signal::StrDac);
    hw.wait_cycles(1);
    set_high(hw, Signal::SClk);
    hw.wait_cycles(1);
    set_high(hw, Signal::StrDac);
    reveal(dac714_wave);
    assert(hw.events() =~= e0 + dac714_wave(state.dac_temp));
}

/// `n` clock pulses: clock high, clock low.
pub open spec fn clock_pulses(n: nat) -> Seq<AdaEvent>
    decreases n,
{
    if n == 0 {
        Seq::empty()
    } else {
        clock_pulses((n - 1) as nat) + seq![line(Signal::SClk, true), line(Signal::SClk, false)]
    }
}

/// Reads eight bits, most significant first, each sampled while the clock is high.
fn shift_in_byte_1864<H: AdacHardware>(hw: &mut H) -> (r: Byte)
    ensures
        final(hw).events() == old(hw).events() + clock_pulses(8),
        extends(old(hw).samples(), final(hw).samples(), 16),
        r as nat == bits_value(strided(final(hw).samples(), old(hw).samples().len() as int, 2, 8)),
{
    let ghost e0 = hw.events();
    let ghost s0 = hw.samples();
    let mut acca: Byte = 0;
    let mut i: u8 = 0;
    assert(strided(s0, s0.len() as int, 2, 0) =~= Seq::<bool>::empty());
    while i < 8
        invariant
            i <= 8,
            hw.events() == e0 + clock_pulses(i as nat),
            extends(s0, hw.samples(), 2 * i as nat),
            acca as nat == bits_value(strided(hw.samples(), s0.len() as int, 2, i as nat)),
        decreases 8 - i,
    {
        let ghost e1 = hw.events();
        let ghost s1 = hw.samples();
        set_high(hw, Signal::SClk);
        let carry = hw.read_signal(Signal::SDataIn1);
        set_low(hw, Signal::SClk);
        proof {
            lemma_bits_value_bound(strided(s1, s0.len() as int, 2, i as nat));
            vstd::arithmetic::power2::lemma_pow2_strictly_increases(i as nat, 8);
            vstd::arithmetic::power2::lemma2_to64();
            assert(strided(hw.samples(), s0.len() as int, 2, (i + 1) as nat) =~= strided(s1, s0.len() as int, 2, i as nat).push(carry));
            crate::bits::lemma_bits_value_push(strided(s1, s0.len() as int, 2, i as nat), carry);
            assert(hw.events() =~= e1 + seq![line(Signal::SClk, true), line(Signal::SClk, false)]);
        }
        let c: Byte = if carry { 1 } else { 0 };
        assert(acca < 128 ==> (acca << 1u8) | c == 2 * acca + c) by (bit_vector)
            requires c <= 1;
        acca = (acca << 1) | c;
        i = i + 1;
    }
    acca
}

/// Pin sequence of one LTC1864 conversion read.
#[verifier::opaque]
pub open spec fn read1864_wave() -> Seq<AdaEvent> {
    seq![line(Signal::StrAd16, false), line(Signal::SClk, false), AdaEvent::Wait(3)]
        + clock_pulses(8) + clock_pulses(8)
        + seq![line(Signal::SClk, true), AdaEvent::Wait(1), line(Signal::StrAd16, true)]
}

/// Fetches `ad_raw` from the LTC1864: sixteen bits, most significant first,
/// each sampled while the clock is high.
pub fn shift_in1864<H: AdacHardware>(hw: &mut H, state: &mut AdacState)
    ensures
        final(hw).events() == old(hw).events() + read1864_wave(),
        extends(old(hw).samples(), final(hw).samples(), 36),
        final(state).ad_raw as nat == bits_value(strided(final(hw).samples(), old(hw).samples().len() + 2int, 2, 16)),
        *final(state) == (AdacState { ad_raw: final(state).ad_raw, ..*old(state) }),
{
    let ghost e0 = hw.events();
    let ghost s0 = hw.samples();
    set_low(hw, Signal::StrAd16);
    set_low(hw, Signal::SClk);
    hw.wait_cycles(3);
    let ghost s1 = hw.samples();
    let hi = shift_in_byte_1864(hw);
    let ghost s2 = hw.samples();
    let lo = shift_in_byte_1864(hw);
    let ghost s3 = hw.samples();
    state.ad_raw = (hi as Word) * 256 + (lo as Word);
    set_high(hw, Signal::SClk);
    hw.wait_cycles(1);
    set_high(hw, Signal::StrAd16);
    proof {
        let all = hw.samples();
        let b: int = s0.len() as int + 2;
        assert(strided(all, b, 2, 8) =~= strided(s2, s1.len() as int, 2, 8));
        assert(strided(all, b + 16, 2, 8) =~= strided(s3, s2.len() as int, 2, 8));
        assert(strided(all, b, 2, 16) =~= strided(all, b, 2, 8) + strided(all, b + 16, 2, 8));
        lemma_bits_value_concat(strided(all, b, 2, 8), strided(all, b + 16, 2, 8));
        vstd::arithmetic::power2::lemma2_to64();
        reveal(read1864_wave);
        assert(hw.events() =~= e0 + read1864_wave());
    }
}

/// Sends the four port bytes to the 4094 chain, the byte for port 3 first,
/// then pulses the strobe.
pub open spec fn shift_out_sr_wave(state: AdacState) -> Seq<AdaEvent> {
    seq![line(Signal::SClk, false), line(Signal::SDataOut, false)]
        + sr_byte_wave(state.port_sr3) + sr_byte_wave(state.port_sr2)
        + sr_byte_wave(state.port_sr1) + sr_byte_wave(state.port_sr0)
        + seq![line(Signal::StrSr, true), AdaEvent::Wait(2), line(Signal::StrSr, false), line(Signal::SClk, true)]
}

/// Sends the port array bytes to the 4094 shift registers.
pub fn shift_out_sr<H: AdacHardware>(hw: &mut H, state: &AdacState)
    ensures
        final(hw).events() == old(hw).events() + shift_out_sr_wave(*state),
        grows(old(hw).samples(), final(hw).samples()),
{
    let ghost e0 = hw.events();
    set_low(hw, Signal::SClk);
    set_low(hw, Signal::SDataOut);
    shift_out_sr_byte(hw, state.port_sr3);
    shift_out_sr_byte(hw, state.port_sr2);
    shift_out_sr_byte(hw, state.port_sr1);
    shift_out_sr_byte(hw, state.port_sr0);
    set_high(hw, Signal::StrSr);
    hw.wait_cycles(2);
    set_low(hw, Signal::StrSr);
    set_high(hw, Signal::SClk);
    assert(hw.events() =~= e0 + shift_out_sr_wave(*state));
}


/// `n` LTC1864 reads in a row.
pub open spec fn reads1864(n: nat) -> Seq<AdaEvent>
    decreases n,
{
    if n == 0 {
        Seq::empty()
    } else {
        reads1864((n - 1) as nat) + read1864_wave()
    }
}

/// The `k`-th of a run of LTC1864 reads whose samples start at `start`, as an offset-binary word.
pub open spec fn read_word(samples: Seq<bool>, start: int, k: int) -> int {
    bits_value(strided(samples, start + 36 * k + 2, 2, 16)) as int
}

/// Sum of the first `n` reads of such a run, each made signed around 0x8000.
pub open spec fn read_sum(samples: Seq<bool>, start: int, n: nat) -> int
    decreases n,
{
    if n == 0 {
        0
    } else {
        read_sum(samples, start, (n - 1) as nat) + read_word(samples, start, n - 1) - 0x8000
    }
}

/// The multiplexer channel that follows `ch`.
pub open spec fn next_mux(ch: usize) -> usize {
    ((ch + 1) % 8) as usize
}

/// Strobes the LTC1864 and sums four reads, each made signed around 0x8000.
fn sample_adc16<H: AdacHardware>(hw: &mut H, state: &mut AdacState)
    ensures
        final(hw).events() == old(hw).events() + seq![
            line(Signal::StrAd16, false),
            line(Signal::StrAd16, true),
            AdaEvent::Wait(15),
        ] + reads1864(4),
        extends(old(hw).samples(), final(hw).samples(), 146),
        final(state).ad16_long == read_sum(final(hw).samples(), old(hw).samples().len() + 2int, 4),
        final(state).ad_raw == read_word(final(hw).samples(), old(hw).samples().len() + 2int, 3),
        *final(state) == (AdacState { ad16_long: final(state).ad16_long, ad_raw: final(state).ad_raw, ..*old(state) }),
{
    let ghost e0 = hw.events();
    let ghost s0 = hw.samples();
    let ghost st0 = *state;
    set_low(hw, Signal::StrAd16);
    state.ad16_long = 0;
    set_high(hw, Signal::StrAd16);
    // The first conversion is discarded: it is not read out.
    hw.wait_cycles(15);
    let ghost e2 = hw.events();
    let ghost s2 = hw.samples();
    let ghost start: int = s0.len() + 2int;
    let mut k: usize = 0;
    while k < ADC16_SAMPLES_PER_TICK
        invariant
            k <= 4,
            s2.len() == start,
            hw.events() == e2 + reads1864(k as nat),
            extends(s2, hw.samples(), 36 * k as nat),
            state.ad16_long == read_sum(hw.samples(), start, k as nat),
            -0x8000 * k <= state.ad16_long <= 0x7fff * k,
            k > 0 ==> state.ad_raw == read_word(hw.samples(), start, k - 1),
            *state == (AdacState { ad16_long: state.ad16_long, ad_raw: state.ad_raw, ..st0 }),
        decreases 4 - k,
    {
        let ghost s3 = hw.samples();
        shift_in1864(hw, state);
        proof {
            let s4 = hw.samples();
            assert(strided(s4, start + 36 * k + 2, 2, 16) =~= strided(s4, s3.len() + 2int, 2, 16));
            lemma_bits_value_bound(strided(s4, s3.len() + 2int, 2, 16));
            vstd::arithmetic::power2::lemma2_to64();
            lemma_read_sum_stable(s3, s4, start, k as nat);
            if k > 0 {
                assert(strided(s3, start + 36 * (k - 1) + 2, 2, 16) =~= strided(s4, start + 36 * (k - 1) + 2, 2, 16));
            }
        }
        state.ad16_long = state.ad16_long + (state.ad_raw as LongInt) - 0x8000;
        k = k + 1;
    }
    assert(hw.events() =~= e0 + seq![
        line(Signal::StrAd16, false),
        line(Signal::StrAd16, true),
        AdaEvent::Wait(15),
    ] + reads1864(4));
}

/// Loads `state.dac_temp` into every fitted DAC.
fn load_dacs<H: AdacHardware>(hw: &mut H, state: &AdacState)
    ensures
        final(hw).events() == old(hw).events()
            + (if state.dac16_present { dac1655_wave(state.dac_temp) } else { Seq::empty() })
            + (if state.dac714_present { dac714_wave(state.dac_temp) } else { Seq::empty() })
            + (if state.dac12_present { dac1257_wave(state.dac_temp) } else { Seq::empty() }),
        grows(old(hw).samples(), final(hw).samples()),
{
    let ghost e0 = hw.events();
    if state.dac16_present {
        shift_out1655(hw, state);
    }
    let ghost e1 = hw.events();
    if state.dac714_present {
        shift_out714(hw, state);
    }
    let ghost e2 = hw.events();
    if state.dac12_present {
        shift_out1257(hw, state);
    }
    assert(hw.events() =~= e0
        + (if state.dac16_present { dac1655_wave(state.dac_temp) } else { Seq::empty() })
        + (if state.dac714_present { dac714_wave(state.dac_temp) } else { Seq::empty() })
        + (if state.dac12_present { dac1257_wave(state.dac_temp) } else { Seq::empty() }));
}

/// Averages the summed reading and stores it for channel `prev`, directly or
/// integrated with the value stored before.
fn store_reading(state: &mut AdacState, prev: usize)
    requires
        prev < MUX_CHANNEL_COUNT,
    ensures
        ({
            let quarter = old(state).ad16_long >> 2i32;
            let raw = old(state).adc_raw_array[prev as int];
            &&& final(state).ad16_long == (if old(state).integrate_ad16 { quarter + raw } else { quarter as int })
            &&& final(state).adc_raw_array@ == old(state).adc_raw_array@.update(
                prev as int,
                if old(state).integrate_ad16 { ((quarter + raw) as i32 >> 1i32) as i16 } else { quarter as i16 },
            )
        }),
        *final(state) == (AdacState {
            ad16_long: final(state).ad16_long,
            adc_raw_array: final(state).adc_raw_array,
            ..*old(state)
        }),
{
    let x = state.ad16_long;
    assert(-0x2000_0000 <= (x >> 2i32) <= 0x1fff_ffff) by (bit_vector);
    state.ad16_long = x >> 2;
    if state.integrate_ad16 {
        state.ad16_long = state.ad16_long + (state.adc_raw_array[prev] as LongInt);
        let v = (state.ad16_long >> 1) as Integer;
        state.adc_raw_array[prev] = v;
    } else {
        let v = state.ad16_long as Integer;
        state.adc_raw_array[prev] = v;
    }
}

/// Second half of the tick: next multiplexer channel, DAC loads, and the
/// stored reading of the channel left behind.
fn switch_channel<H: AdacHardware>(hw: &mut H, state: &mut AdacState)
    requires
        old(state).mux_ch < MUX_CHANNEL_COUNT,
    ensures
        ({
            let mux = next_mux(old(state).mux_ch);
            let dac = old(state).dac_raw_array[mux as int];
            final(hw).events() == old(hw).events()
                + seq![line(Signal::StrDaMux, false), AdaEvent::PortC((((mux as u8) << 2u8) | PORTC_MUX_BASE) as u8)]
                + ((if old(state).dac16_present { dac1655_wave(dac) } else { Seq::empty() })
                + (if old(state).dac714_present { dac714_wave(dac) } else { Seq::empty() })
                + (if old(state).dac12_present { dac1257_wave(dac) } else { Seq::empty() }))
                + seq![AdaEvent::Wait(4), line(Signal::StrDaMux, true), AdaEvent::AdcWait]
        }),
        grows(old(hw).samples(), final(hw).samples()),
        ({
            let prev = old(state).mux_ch;
            let quarter = old(state).ad16_long >> 2i32;
            let raw = old(state).adc_raw_array[prev as int];
            &&& final(state).ad16_long == (if old(state).integrate_ad16 { quarter + raw } else { quarter as int })
            &&& final(state).adc_raw_array@ == old(state).adc_raw_array@.update(
                prev as int,
                if old(state).integrate_ad16 { ((quarter + raw) as i32 >> 1i32) as i16 } else { quarter as i16 },
            )
        }),
        *final(state) == (AdacState {
            ad16_long: final(state).ad16_long,
            adc_raw_array: final(state).adc_raw_array,
            mux_ch: next_mux(old(state).mux_ch),
            dac_temp: old(state).dac_raw_array[next_mux(old(state).mux_ch) as int],
            ..*old(state)
        }),
{
    let ghost e0 = hw.events();
    let previous_mux_ch = state.mux_ch;
    // Multiplexer off, advance the channel.
    set_low(hw, Signal::StrDaMux);
    state.mux_ch = (state.mux_ch + 1) % MUX_CHANNEL_COUNT;
    hw.set_port_c(((state.mux_ch as Byte) << 2) | PORTC_MUX_BASE);
    state.dac_temp = state.dac_raw_array[state.mux_ch];
    let ghost e1 = hw.events();
    load_dacs(hw, state);
    let ghost e2 = hw.events();
    // Settle time.
    hw.wait_cycles(4);
    store_reading(state, previous_mux_ch);
    set_high(hw, Signal::StrDaMux);
    hw.wait_for_adc10_complete();
    assert(hw.events() =~= e2 + seq![AdaEvent::Wait(4), line(Signal::StrDaMux, true), AdaEvent::AdcWait]);
}

/// Events of one system tick.
pub open spec fn tick_wave(state: AdacState) -> Seq<AdaEvent> {
    let mux = next_mux(state.mux_ch);
    let dac = state.dac_raw_array[mux as int];
    seq![line(Signal::SClk, true)]
        + (if state.adc16_present {
        seq![line(Signal::StrAd16, false), line(Signal::StrAd16, true), AdaEvent::Wait(15)] + reads1864(4)
    } else {
        Seq::empty()
    })
        + seq![line(Signal::StrDaMux, false), AdaEvent::PortC((((mux as u8) << 2u8) | PORTC_MUX_BASE) as u8)]
        + ((if state.dac16_present { dac1655_wave(dac) } else { Seq::empty() })
        + (if state.dac714_present { dac714_wave(dac) } else { Seq::empty() })
        + (if state.dac12_present { dac1257_wave(dac) } else { Seq::empty() }))
        + seq![AdaEvent::Wait(4), line(Signal::StrDaMux, true), AdaEvent::AdcWait]
}

/// The 1 ms interrupt: reads the 16-bit ADC four times (when fitted), moves
/// the multiplexer to the next channel, loads that channel's DAC value into
/// every fitted DAC, and stores the averaged reading of the previous channel,
/// directly or integrated with the value before.
pub fn on_sys_tick<H: AdacHardware>(hw: &mut H, state: &mut AdacState)
    requires
        old(state).mux_ch < MUX_CHANNEL_COUNT,
    ensures
        final(hw).events() == old(hw).events() + tick_wave(*old(state)),
        grows(old(hw).samples(), final(hw).samples()),
        ({
            let prev = old(state).mux_ch;
            let start = old(hw).samples().len() as int + 3;
            let acc = if old(state).adc16_present {
                read_sum(final(hw).samples(), start, 4)
            } else {
                old(state).ad16_long as int
            };
            let quarter = (acc as i32) >> 2i32;
            let raw = old(state).adc_raw_array[prev as int];
            &&& final(state).mux_ch == next_mux(prev)
            &&& final(state).dac_temp == old(state).dac_raw_array[next_mux(prev) as int]
            &&& final(state).ad16_long == (if old(state).integrate_ad16 { quarter + raw } else { quarter as int })
            &&& final(state).adc_raw_array@ == old(state).adc_raw_array@.update(
                prev as int,
                if old(state).integrate_ad16 { ((quarter + raw) as i32 >> 1i32) as i16 } else { quarter as i16 },
            )
            &&& final(state).ad_raw == (if old(state).adc16_present {
                read_word(final(hw).samples(), start, 3) as u16
            } else {
                old(state).ad_raw
            })
        }),
        final(state).dac_raw_array == old(state).dac_raw_array,
        final(state).port_sr0 == old(state).port_sr0,
        final(state).port_sr1 == old(state).port_sr1,
        final(state).port_sr2 == old(state).port_sr2,
        final(state).port_sr3 == old(state).port_sr3,
        final(state).adc16_present == old(state).adc16_present,
        final(state).dac16_present == old(state).dac16_present,
        final(state).dac714_present == old(state).dac714_present,
        final(state).dac12_present == old(state).dac12_present,
        final(state).integrate_ad16 == old(state).integrate_ad16,
{
    let ghost e0 = hw.events();
    let ghost s0 = hw.samples();
    // Conversion of the last channel, after 1 ms settling time.
    set_high(hw, Signal::SClk);
    let ghost e1 = hw.events();
    let ghost start: int = s0.len() as int + 3;
    if state.adc16_present {
        sample_adc16(hw, state);
    }
    let ghost s5 = hw.samples();
    let ghost e5 = hw.events();
    switch_channel(hw, state);
    proof {
        let fin = hw.samples();
        if old(state).adc16_present {
            lemma_read_sum_stable(s5, fin, start, 4);
            assert(strided(s5, start + 36 * 3 + 2, 2, 16) =~= strided(fin, start + 36 * 3 + 2, 2, 16));
        }
        assert(hw.events() =~= e0 + tick_wave(*old(state)));
    }
}

/// Later samples do not change the reads already taken.
proof fn lemma_read_sum_stable(a: Seq<bool>, b: Seq<bool>, start: int, n: nat)
    requires
        0 <= start,
        start + 36 * n <= a.len(),
        grows(a, b),
    ensures
        read_sum(a, start, n) == read_sum(b, start, n),
    decreases n,
{
    if n > 0 {
        lemma_read_sum_stable(a, b, start, (n - 1) as nat);
        assert(strided(a, start + 36 * (n - 1) + 2, 2, 16) =~= strided(b, start + 36 * (n - 1) + 2, 2, 16));
    }
}


/// Data levels that a serial receiver latches on each rising edge of the
/// clock, starting from the given data and clock levels.
pub open spec fn latched(events: Seq<AdaEvent>, data: bool, clk: bool) -> Seq<bool>
    decreases events.len(),
{
    if events.len() == 0 {
        Seq::empty()
    } else {
        let rest = events.drop_first();
        match events[0] {
            AdaEvent::Line(Signal::SDataOut, h) => latched(rest, h, clk),
            AdaEvent::Line(Signal::SClk, h) => if h && !clk {
                seq![data] + latched(rest, data, h)
            } else {
                latched(rest, data, h)
            },
            _ => latched(rest, data, clk),
        }
    }
}

/// Level of the data line after `events`.
pub open spec fn data_after(events: Seq<AdaEvent>, data: bool) -> bool
    decreases events.len(),
{
    if events.len() == 0 {
        data
    } else {
        match events.last() {
            AdaEvent::Line(Signal::SDataOut, h) => h,
            _ => data_after(events.drop_last(), data),
        }
    }
}

/// Level of the clock line after `events`.
pub open spec fn clk_after(events: Seq<AdaEvent>, clk: bool) -> bool
    decreases events.len(),
{
    if events.len() == 0 {
        clk
    } else {
        match events.last() {
            AdaEvent::Line(Signal::SClk, h) => h,
            _ => clk_after(events.drop_last(), clk),
        }
    }
}

proof fn lemma_after_front(events: Seq<AdaEvent>, data: bool, clk: bool)
    requires
        events.len() > 0,
    ensures
        data_after(events, data) == data_after(events.drop_first(), match events[0] {
            AdaEvent::Line(Signal::SDataOut, h) => h,
            _ => data,
        }),
        clk_after(events, clk) == clk_after(events.drop_first(), match events[0] {
            AdaEvent::Line(Signal::SClk, h) => h,
            _ => clk,
        }),
    decreases events.len(),
{
    let d1 = match events[0] {
        AdaEvent::Line(Signal::SDataOut, h) => h,
        _ => data,
    };
    let c1 = match events[0] {
        AdaEvent::Line(Signal::SClk, h) => h,
        _ => clk,
    };
    if events.len() == 1 {
        assert(events.drop_last() =~= Seq::<AdaEvent>::empty());
        assert(events.drop_first() =~= Seq::<AdaEvent>::empty());
        assert(events.last() == events[0]);
    } else {
        lemma_after_front(events.drop_last(), data, clk);
        assert(events.drop_last().drop_first() =~= events.drop_first().drop_last());
        assert(events.drop_first().last() == events.last());
        assert(events.drop_last()[0] == events[0]);
    }
}

/// Latching a concatenation: the second part starts where the first left the lines.
pub proof fn lemma_latched_concat(a: Seq<AdaEvent>, b: Seq<AdaEvent>, data: bool, clk: bool)
    ensures
        latched(a + b, data, clk) == latched(a, data, clk) + latched(b, data_after(a, data), clk_after(a, clk)),
        data_after(a + b, data) == data_after(b, data_after(a, data)),
        clk_after(a + b, clk) == clk_after(b, clk_after(a, clk)),
    decreases a.len(),
{
    if a.len() == 0 {
        assert(a + b =~= b);
    } else {
        let rest = a.drop_first();
        assert((a + b).drop_first() =~= rest + b);
        assert((a + b)[0] == a[0]);
        let (d1, c1) = match a[0] {
            AdaEvent::Line(Signal::SDataOut, h) => (h, clk),
            AdaEvent::Line(Signal::SClk, h) => (data, h),
            _ => (data, clk),
        };
        lemma_latched_concat(rest, b, d1, c1);
        lemma_after_front(a, data, clk);
        lemma_after_front(a + b, data, clk);
    }
}

/// The idle clock level of a framing: high for the DAC714, low otherwise.
pub open spec fn idle_clock(framing: Framing) -> bool {
    framing == Framing::Falling
}

proof fn lemma_latched_one(e: AdaEvent, rest: Seq<AdaEvent>, data: bool, clk: bool)
    ensures
        latched(seq![e] + rest, data, clk) == (match e {
            AdaEvent::Line(Signal::SDataOut, h) => latched(rest, h, clk),
            AdaEvent::Line(Signal::SClk, h) => if h && !clk {
                seq![data] + latched(rest, data, h)
            } else {
                latched(rest, data, h)
            },
            _ => latched(rest, data, clk),
        }),
{
    assert((seq![e] + rest).drop_first() =~= rest);
    assert((seq![e] + rest)[0] == e);
}

proof fn lemma_step_latched(framing: Framing, bit: bool)
    ensures
        latched(bit_step(framing, bit), false, idle_clock(framing)) == seq![bit],
        data_after(bit_step(framing, bit), false) == false,
        clk_after(bit_step(framing, bit), idle_clock(framing)) == idle_clock(framing),
{
    let e = Seq::<AdaEvent>::empty();
    let d1 = line(Signal::SDataOut, true);
    let d0 = line(Signal::SDataOut, false);
    let c1 = line(Signal::SClk, true);
    let c0 = line(Signal::SClk, false);
    let w = AdaEvent::Wait(1);
    reveal_with_fuel(data_after, 6);
    reveal_with_fuel(clk_after, 6);
    match framing {
        Framing::Plain => {
            lemma_latched_one(c0, e, false, true);
            lemma_latched_one(d0, seq![c0], false, true);
            lemma_latched_one(c1, seq![d0, c0], bit, false);
            assert(seq![c1] + (seq![d0] + (seq![c0] + e)) =~= seq![c1, d0, c0]);
            assert(seq![d0] + (seq![c0] + e) =~= seq![d0, c0]);
            assert(seq![c0] + e =~= seq![c0]);
            if bit {
                lemma_latched_one(d1, seq![c1, d0, c0], false, false);
                assert(bit_step(framing, bit) =~= seq![d1] + seq![c1, d0, c0]);
            } else {
                assert(bit_step(framing, bit) =~= seq![c1, d0, c0]);
            }
        },
        Framing::Timed => {
            lemma_latched_one(c0, e, false, true);
            lemma_latched_one(d0, seq![c0], false, true);
            lemma_latched_one(w, seq![d0, c0], bit, true);
            lemma_latched_one(c1, seq![w, d0, c0], bit, false);
            assert(seq![c0] + e =~= seq![c0]);
            assert(seq![d0] + seq![c0] =~= seq![d0, c0]);
            assert(seq![w] + seq![d0, c0] =~= seq![w, d0, c0]);
            assert(seq![c1] + seq![w, d0, c0] =~= seq![c1, w, d0, c0]);
            if bit {
                lemma_latched_one(d1, seq![c1, w, d0, c0], false, false);
                assert(bit_step(framing, bit) =~= seq![d1] + seq![c1, w, d0, c0]);
            } else {
                assert(bit_step(framing, bit) =~= seq![c1, w, d0, c0]);
            }
        },
        Framing::Falling => {
            lemma_latched_one(d0, e, bit, true);
            lemma_latched_one(c1, seq![d0], bit, false);
            lemma_latched_one(w, seq![c1, d0], bit, false);
            assert(seq![d0] + e =~= seq![d0]);
            assert(seq![c1] + seq![d0] =~= seq![c1, d0]);
            assert(seq![w] + seq![c1, d0] =~= seq![w, c1, d0]);
            if bit {
                lemma_latched_one(d1, seq![w, c1, d0], false, false);
                assert(seq![d1] + seq![w, c1, d0] =~= seq![d1, w, c1, d0]);
                lemma_latched_one(c0, seq![d1, w, c1, d0], false, true);
                assert(bit_step(framing, bit) =~= seq![c0] + seq![d1, w, c1, d0]);
            } else {
                lemma_latched_one(c0, seq![w, c1, d0], false, true);
                assert(bit_step(framing, bit) =~= seq![c0] + seq![w, c1, d0]);
            }
        },
    }
}

/// A framed clock-out is received as the leading bits of the byte, most
/// significant first, and leaves data low and the clock idle.
pub proof fn law_clocked_latches_bits(framing: Framing, acc: u8, n: nat)
    requires
        n <= 8,
    ensures
        latched(clocked(framing, acc, n), false, idle_clock(framing)) == Seq::new(n, |i: int| msb((acc << (i as u8)) as u8)),
        data_after(clocked(framing, acc, n), false) == false,
        clk_after(clocked(framing, acc, n), idle_clock(framing)) == idle_clock(framing),
    decreases n,
{
    if n == 0 {
        assert(latched(Seq::<AdaEvent>::empty(), false, idle_clock(framing)) =~= Seq::<bool>::empty());
    } else {
        let prefix = clocked(framing, acc, (n - 1) as nat);
        let bit = msb(acc << ((n - 1) as u8));
        law_clocked_latches_bits(framing, acc, (n - 1) as nat);
        lemma_latched_concat(prefix, bit_step(framing, bit), false, idle_clock(framing));
        lemma_step_latched(framing, bit);
        assert(latched(clocked(framing, acc, n), false, idle_clock(framing)) =~= Seq::new(n, |i: int| msb((acc << (i as u8)) as u8)));
    }
}

/// The 4094 chain receives exactly the bits of the byte, most significant first.
pub proof fn law_sr_byte_received(value: u8)
    ensures
        latched(sr_byte_wave(value), false, false) == byte_bits(value),
        bits_value(byte_bits(value)) == value,
{
    law_clocked_latches_bits(Framing::Plain, value, 8);
    assert(Seq::new(8, |i: int| msb((value << (i as u8)) as u8)) =~= byte_bits(value));
    crate::bits::lemma_byte_bits_value(value);
}

/// The LTC1655 receives the sixteen bits of the DAC value, most significant
/// first, whatever the lines' levels before the transfer.
pub proof fn law_dac1655_receives_word(dac_temp: u16, data: bool, clk: bool)
    ensures
        latched(dac1655_wave(dac_temp), data, clk) == byte_bits((dac_temp >> 8u16) as u8) + byte_bits(dac_temp as u8),
        bits_value(latched(dac1655_wave(dac_temp), data, clk)) == dac_temp,
{
    reveal(dac1655_wave);
    let hi = (dac_temp >> 8u16) as u8;
    let lo = dac_temp as u8;
    let pre = seq![line(Signal::SClk, false), line(Signal::SDataOut, false), line(Signal::StrDac, false)];
    let a = clocked(Framing::Timed, hi, 8);
    let b = clocked(Framing::Plain, lo, 8);
    let post = seq![line(Signal::StrDac, true)];
    let e = Seq::<AdaEvent>::empty();
    lemma_latched_one(line(Signal::StrDac, false), e, false, false);
    lemma_latched_one(line(Signal::SDataOut, false), seq![line(Signal::StrDac, false)], data, false);
    lemma_latched_one(line(Signal::SClk, false), seq![line(Signal::SDataOut, false), line(Signal::StrDac, false)], data, clk);
    assert(seq![line(Signal::StrDac, false)] + e =~= seq![line(Signal::StrDac, false)]);
    assert(seq![line(Signal::SDataOut, false)] + seq![line(Signal::StrDac, false)] =~= seq![line(Signal::SDataOut, false), line(Signal::StrDac, false)]);
    assert(seq![line(Signal::SClk, false)] + seq![line(Signal::SDataOut, false), line(Signal::StrDac, false)] =~= pre);
    reveal_with_fuel(data_after, 4);
    reveal_with_fuel(clk_after, 4);
    assert(latched(pre, data, clk) =~= Seq::<bool>::empty());
    lemma_latched_concat(pre, a, data, clk);
    lemma_latched_concat(pre + a, b, data, clk);
    lemma_latched_concat(pre + a + b, post, data, clk);
    law_clocked_latches_bits(Framing::Timed, hi, 8);
    law_clocked_latches_bits(Framing::Plain, lo, 8);
    lemma_latched_one(line(Signal::StrDac, true), e, false, false);
    assert(seq![line(Signal::StrDac, true)] + e =~= post);
    assert(Seq::new(8, |i: int| msb((hi << (i as u8)) as u8)) =~= byte_bits(hi));
    assert(Seq::new(8, |i: int| msb((lo << (i as u8)) as u8)) =~= byte_bits(lo));
    assert(latched(dac1655_wave(dac_temp), data, clk) =~= byte_bits(hi) + byte_bits(lo));
    crate::bits::lemma_byte_bits_value(hi);
    crate::bits::lemma_byte_bits_value(lo);
    lemma_bits_value_concat(byte_bits(hi), byte_bits(lo));
    vstd::arithmetic::power2::lemma2_to64();
    assert(dac_temp == (hi as u16) * 256 + (lo as u16)) by (bit_vector)
        requires hi == (dac_temp >> 8u16) as u8, lo == dac_temp as u8;
}

/// The clock with the load strobe latches the level it finds on the data
/// line, and nothing else latches.
proof fn lemma_load_clock_latches(bit: bool)
    ensures
        latched(
            (if bit { seq![line(Signal::SDataOut, true)] } else { Seq::empty() }) + seq![
                line(Signal::SClk, true),
                line(Signal::StrDac, false),
                AdaEvent::Wait(1),
                line(Signal::SDataOut, false),
                line(Signal::SClk, false),
                line(Signal::StrDac, true),
            ],
            false,
            false,
        ) == seq![bit],
{
    let e = Seq::<AdaEvent>::empty();
    let c1 = line(Signal::SClk, true);
    let s0 = line(Signal::StrDac, false);
    let w = AdaEvent::Wait(1);
    let d0 = line(Signal::SDataOut, false);
    let c0 = line(Signal::SClk, false);
    let s1 = line(Signal::StrDac, true);
    lemma_latched_one(s1, e, false, false);
    assert(seq![s1] + e =~= seq![s1]);
    lemma_latched_one(c0, seq![s1], false, true);
    assert(seq![c0] + seq![s1] =~= seq![c0, s1]);
    lemma_latched_one(d0, seq![c0, s1], bit, true);
    assert(seq![d0] + seq![c0, s1] =~= seq![d0, c0, s1]);
    lemma_latched_one(w, seq![d0, c0, s1], bit, true);
    assert(seq![w] + seq![d0, c0, s1] =~= seq![w, d0, c0, s1]);
    lemma_latched_one(s0, seq![w, d0, c0, s1], bit, true);
    assert(seq![s0] + seq![w, d0, c0, s1] =~= seq![s0, w, d0, c0, s1]);
    lemma_latched_one(c1, seq![s0, w, d0, c0, s1], bit, false);
    assert(seq![c1] + seq![s0, w, d0, c0, s1] =~= seq![c1, s0, w, d0, c0, s1]);
    let rest = seq![c1, s0, w, d0, c0, s1];
    if bit {
        lemma_latched_one(line(Signal::SDataOut, true), rest, false, false);
        assert(seq![line(Signal::SDataOut, true)] + rest =~= seq![line(Signal::SDataOut, true)] + rest);
    } else {
        assert(Seq::<AdaEvent>::empty() + rest =~= rest);
    }
}

/// The LTC1257 receives the twelve bits of the DAC value, bit 11 first and
/// bit 0 last, with the load strobe.
pub proof fn law_dac1257_receives_word(dac_temp: u16)
    ensures
        latched(dac1257_wave(dac_temp), false, false) == Seq::new(
            12,
            |i: int| (dac_temp >> ((11 - i) as u16)) & 1u16 == 1u16,
        ),
{
    reveal(dac1257_wave);
    let d = dac_temp;
    let hi = ((d >> 8u16) as u8) << 4u8;
    let lo = d as u8;
    let bit = d & 1u16 == 1u16;
    let pre = seq![line(Signal::SDataOut, false), line(Signal::SClk, false), line(Signal::StrDac, true)];
    let a = clocked(Framing::Timed, hi, 4);
    let b = clocked(Framing::Timed, lo, 7);
    let tail = (if bit { seq![line(Signal::SDataOut, true)] } else { Seq::empty() }) + seq![
        line(Signal::SClk, true),
        line(Signal::StrDac, false),
        AdaEvent::Wait(1),
        line(Signal::SDataOut, false),
        line(Signal::SClk, false),
        line(Signal::StrDac, true),
    ];
    assert(dac1257_wave(d) == pre + a + b + tail);
    let e = Seq::<AdaEvent>::empty();
    lemma_latched_one(line(Signal::StrDac, true), e, false, false);
    assert(seq![line(Signal::StrDac, true)] + e =~= seq![line(Signal::StrDac, true)]);
    lemma_latched_one(line(Signal::SClk, false), seq![line(Signal::StrDac, true)], false, false);
    assert(seq![line(Signal::SClk, false)] + seq![line(Signal::StrDac, true)] =~= seq![
        line(Signal::SClk, false),
        line(Signal::StrDac, true),
    ]);
    lemma_latched_one(
        line(Signal::SDataOut, false),
        seq![line(Signal::SClk, false), line(Signal::StrDac, true)],
        false,
        false,
    );
    assert(seq![line(Signal::SDataOut, false)] + seq![line(Signal::SClk, false), line(Signal::StrDac, true)] =~= pre);
    reveal_with_fuel(data_after, 4);
    reveal_with_fuel(clk_after, 4);
    assert(latched(pre, false, false) =~= Seq::<bool>::empty());
    assert(data_after(pre, false) == false);
    assert(clk_after(pre, false) == false);
    lemma_latched_concat(pre, a, false, false);
    lemma_latched_concat(pre + a, b, false, false);
    lemma_latched_concat(pre + a + b, tail, false, false);
    law_clocked_latches_bits(Framing::Timed, hi, 4);
    law_clocked_latches_bits(Framing::Timed, lo, 7);
    lemma_load_clock_latches(bit);
    assert({
        &&& msb((hi << 0u8) as u8) == ((d >> 11u16) & 1u16 == 1u16)
        &&& msb((hi << 1u8) as u8) == ((d >> 10u16) & 1u16 == 1u16)
        &&& msb((hi << 2u8) as u8) == ((d >> 9u16) & 1u16 == 1u16)
        &&& msb((hi << 3u8) as u8) == ((d >> 8u16) & 1u16 == 1u16)
    }) by (bit_vector)
        requires hi == ((d >> 8u16) as u8) << 4u8;
    assert({
        &&& msb((lo << 0u8) as u8) == ((d >> 7u16) & 1u16 == 1u16)
        &&& msb((lo << 1u8) as u8) == ((d >> 6u16) & 1u16 == 1u16)
        &&& msb((lo << 2u8) as u8) == ((d >> 5u16) & 1u16 == 1u16)
        &&& msb((lo << 3u8) as u8) == ((d >> 4u16) & 1u16 == 1u16)
        &&& msb((lo << 4u8) as u8) == ((d >> 3u16) & 1u16 == 1u16)
        &&& msb((lo << 5u8) as u8) == ((d >> 2u16) & 1u16 == 1u16)
        &&& msb((lo << 6u8) as u8) == ((d >> 1u16) & 1u16 == 1u16)
    }) by (bit_vector)
        requires lo == d as u8;
    assert(bit == ((d >> 0u16) & 1u16 == 1u16)) by (bit_vector)
        requires bit == (d & 1u16 == 1u16);
    assert(latched(dac1257_wave(d), false, false) =~= Seq::new(12, |i: int| (d >> ((11 - i) as u16)) & 1u16 == 1u16));
}

} // verus!
