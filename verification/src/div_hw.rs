//! Hardware-near part of the DIV voltmeter module: the LTC2400 24-bit
//! converter read over SPI, and the system tick that collects conversions and
//! keeps a fast and a slow running average of them.

use core::marker::PhantomData;
use vstd::prelude::*;

use crate::avrd::{bit_set, Atmega32, AvrdPortIo, Mcu, PortRegs, RegisterPort};
use crate::bits::extends;

verus! {

/// One action performed on the DIV hardware.
#[derive(Debug, Clone, Copy, PartialEq, Eq, Structural)]
pub enum DivEvent {
    StrAd24(bool),
    SClk(bool),
    /// One SPI exchange, with the byte sent.
    Spi(u8),
    Wait(u16),
}

/// Access to the DIV lines and the SPI peripheral.
///
/// `events` is everything done to the hardware so far; `samples` holds, for
/// every line change, the level of the serial data input right after it;
/// `received` holds the bytes that the SPI exchanges returned, in order.
pub trait DivHardware {
    spec fn events(&self) -> Seq<DivEvent>;

    spec fn samples(&self) -> Seq<bool>;

    spec fn received(&self) -> Seq<u8>;

    /// The level currently seen on the serial data input.
    spec fn data_in(&self) -> bool;

    fn set_str_ad24(&mut self, high: bool)
        ensures
            final(self).events() == old(self).events().push(DivEvent::StrAd24(high)),
            final(self).samples() == old(self).samples().push(final(self).data_in()),
            final(self).received() == old(self).received(),
    ;

    fn set_sclk(&mut self, high: bool)
        ensures
            final(self).events() == old(self).events().push(DivEvent::SClk(high)),
            final(self).samples() == old(self).samples().push(final(self).data_in()),
            final(self).received() == old(self).received(),
    ;

    fn read_sdata_in1(&self) -> (r: bool)
        ensures
            r == self.data_in(),
    ;

    fn spi_transfer(&mut self, tx: u8) -> (r: u8)
        ensures
            final(self).events() == old(self).events().push(DivEvent::Spi(tx)),
            final(self).samples() == old(self).samples(),
            final(self).received() == old(self).received().push(r),
    ;

    fn spin_delay_cycles(&mut self, cycles: u16)
        ensures
            final(self).events() == old(self).events().push(DivEvent::Wait(cycles)),
            final(self).samples() == old(self).samples(),
            final(self).received() == old(self).received(),
    ;
}

/// The DIV lines on a real AVR port register file.
pub struct DivAvrd<M: Mcu> {
    pub io: AvrdPortIo<M>,
    pub _marker: PhantomData<M>,
    pub trace: Ghost<Seq<DivEvent>>,
    pub sampled: Ghost<Seq<bool>>,
    pub spi_in: Ghost<Seq<u8>>,
}

pub type DivAtmega32 = DivAvrd<Atmega32>;

impl<M: Mcu> Default for DivAvrd<M> {
    fn default() -> (r: Self)
        ensures
            r.io.a == (PortRegs { ddr: 0, port: 0, pin: 0 }),
            r.io.b == (PortRegs { ddr: 0, port: 0, pin: 0 }),
            r.io.c == (PortRegs { ddr: 0, port: 0, pin: 0 }),
            r.io.d == (PortRegs { ddr: 0, port: 0, pin: 0 }),
            r.io.spi_rx == 0,
            r.trace@ == Seq::<DivEvent>::empty(),
            r.sampled@ == Seq::<bool>::empty(),
            r.spi_in@ == Seq::<u8>::empty(),
    {
        Self {
            io: AvrdPortIo::default(),
            _marker: PhantomData,
            trace: Ghost(Seq::empty()),
            sampled: Ghost(Seq::empty()),
            spi_in: Ghost(Seq::empty()),
        }
    }
}

impl<M: Mcu> DivAvrd<M> {
    /// Power-up direction and output values of ports A to D.
    pub fn init_ports(&mut self)
        ensures
            final(self).io.a == (PortRegs { ddr: 0b1110_0000, port: 0b0000_0011, pin: old(self).io.a.pin }),
            final(self).io.b == (PortRegs { ddr: 0b1001_0000, port: 0b1001_0001, pin: old(self).io.b.pin }),
            final(self).io.c == (PortRegs { ddr: 0b1111_1100, port: 0b0000_0011, pin: old(self).io.c.pin }),
            final(self).io.d == (PortRegs { ddr: 0b0001_1100, port: 0b1111_1100, pin: old(self).io.d.pin }),
            final(self).io.spi_rx == old(self).io.spi_rx,
            final(self).trace == old(self).trace,
            final(self).sampled == old(self).sampled,
            final(self).spi_in == old(self).spi_in,
    {
        self.io.init_port(RegisterPort::A, 0b1110_0000, 0b0000_0011);
        self.io.init_port(RegisterPort::B, 0b1001_0000, 0b1001_0001);
        self.io.init_port(RegisterPort::C, 0b1111_1100, 0b0000_0011);
        self.io.init_port(RegisterPort::D, 0b0001_1100, 0b1111_1100);
    }

    fn drive(&mut self, bit: u8, high: bool, event: DivEvent)
        requires
            bit < 8,
        ensures
            final(self).events() == old(self).events().push(event),
            final(self).samples() == old(self).samples().push(final(self).data_in()),
            final(self).received() == old(self).received(),
    {
        self.io.write_bit(RegisterPort::B, bit, high);
        self.trace = Ghost(self.trace@.push(event));
        self.sampled = Ghost(self.sampled@.push(self.data_in()));
    }
}

impl<M: Mcu> DivHardware for DivAvrd<M> {
    open spec fn events(&self) -> Seq<DivEvent> {
        self.trace@
    }

    open spec fn samples(&self) -> Seq<bool> {
        self.sampled@
    }

    open spec fn received(&self) -> Seq<u8> {
        self.spi_in@
    }

    open spec fn data_in(&self) -> bool {
        bit_set(self.io.b.pin, 6)
    }

    fn set_str_ad24(&mut self, high: bool) {
        self.drive(4, high, DivEvent::StrAd24(high));
    }

    fn set_sclk(&mut self, high: bool) {
        self.drive(7, high, DivEvent::SClk(high));
    }

    fn read_sdata_in1(&self) -> (r: bool) {
        self.io.read_bit(RegisterPort::B, 6)
    }

    fn spi_transfer(&mut self, tx: u8) -> (r: u8) {
        let r = self.io.spi_transfer(tx);
        self.trace = Ghost(self.trace@.push(DivEvent::Spi(tx)));
        self.spi_in = Ghost(self.spi_in@.push(r));
        r
    }

    fn spin_delay_cycles(&mut self, cycles: u16) {
        self.io.spin_delay_cycles(cycles);
        self.trace = Ghost(self.trace@.push(DivEvent::Wait(cycles)));
    }
}

/// Converter state shared with the interrupt routine.
#[derive(Debug, Clone)]
pub struct DivHardwareState {
    pub ad24_temp: u32,
    pub ad24_temp_fast_integrated: u32,
    pub ad24_temp_slow_integrated: u32,
    pub ad24_integrate0: u32,
    pub ad24_integrate1: u32,
    pub ad24_integrate2: u32,
    pub ad24_integrate3: u32,
    pub negative_flag: bool,
    pub over_voltage_flag: bool,
    pub abort_flag: bool,
    pub trigger: bool,
    pub ad24_ready: bool,
    pub ad10_ready: bool,
}

impl Default for DivHardwareState {
    fn default() -> (r: Self)
        ensures
            r == (DivHardwareState {
                ad24_temp: 0,
                ad24_temp_fast_integrated: 0,
                ad24_temp_slow_integrated: 0,
                ad24_integrate0: 0,
                ad24_integrate1: 0,
                ad24_integrate2: 0,
                ad24_integrate3: 0,
                negative_flag: false,
                over_voltage_flag: false,
                abort_flag: false,
                trigger: false,
                ad24_ready: false,
                ad10_ready: false,
            }),
    {
        Self {
            ad24_temp: 0,
            ad24_temp_fast_integrated: 0,
            ad24_temp_slow_integrated: 0,
            ad24_integrate0: 0,
            ad24_integrate1: 0,
            ad24_integrate2: 0,
            ad24_integrate3: 0,
            negative_flag: false,
            over_voltage_flag: false,
            abort_flag: false,
            trigger: false,
            ad24_ready: false,
            ad10_ready: false,
        }
    }
}

/// Full-scale positive code that an overrange reading is clipped to.
pub const AD24_FULL_SCALE: u32 = 16_777_215;

/// The reading of one LTC2400 conversion: the three data bytes, sign-extended
/// when the sign bit reports a negative input, or full scale on overrange.
pub open spec fn ltc2400_value(negative: bool, over: bool, b2: u8, b1: u8, b0: u8) -> u32 {
    if over {
        AD24_FULL_SCALE
    } else {
        ((if negative { 0xff00_0000int } else { 0int }) + b2 * 0x1_0000int + b1 * 0x100int + b0) as u32
    }
}

/// `n` clock pulses: clock high, clock low.
pub open spec fn div_pulses(n: nat) -> Seq<DivEvent>
    decreases n,
{
    if n == 0 {
        Seq::empty()
    } else {
        div_pulses((n - 1) as nat) + seq![DivEvent::SClk(true), DivEvent::SClk(false)]
    }
}

/// `n` slow clock pulses, each with a wait before either edge.
pub open spec fn div_slow_pulses(n: nat) -> Seq<DivEvent>
    decreases n,
{
    if n == 0 {
        Seq::empty()
    } else {
        div_slow_pulses((n - 1) as nat) + seq![
            DivEvent::Wait(1),
            DivEvent::SClk(true),
            DivEvent::Wait(1),
            DivEvent::SClk(false),
        ]
    }
}

/// Pin sequence of one LTC2400 read: four status bits clocked by hand, the
/// three data bytes over SPI, four trailing bits clocked by hand.
pub open spec fn read2400_wave() -> Seq<DivEvent> {
    seq![DivEvent::StrAd24(false)] + div_pulses(4) + seq![DivEvent::Spi(0), DivEvent::Spi(0), DivEvent::Spi(0)]
        + div_slow_pulses(4) + seq![DivEvent::StrAd24(true)]
}

fn shift_status_bits<H: DivHardware>(state: &mut DivHardwareState, hw: &mut H)
    ensures
        final(hw).events() == old(hw).events() + div_pulses(4),
        extends(old(hw).samples(), final(hw).samples(), 8),
        final(hw).received() == old(hw).received(),
        final(state).negative_flag == !final(hw).samples()[old(hw).samples().len() as int + 4],
        final(state).over_voltage_flag == final(hw).samples()[old(hw).samples().len() as int + 6],
        *final(state) == (DivHardwareState {
            negative_flag: final(state).negative_flag,
            over_voltage_flag: final(state).over_voltage_flag,
            ..*old(state)
        }),
{
    let ghost e0 = hw.events();
    let ghost s0 = hw.samples();
    let mut bit_index: u8 = 0;
    while bit_index < 4
        invariant
            bit_index <= 4,
            hw.events() == e0 + div_pulses(bit_index as nat),
            extends(s0, hw.samples(), 2 * bit_index as nat),
            hw.received() == old(hw).received(),
            bit_index > 2 ==> state.negative_flag == !hw.samples()[s0.len() as int + 4],
            bit_index > 3 ==> state.over_voltage_flag == hw.samples()[s0.len() as int + 6],
            *state == (DivHardwareState {
                negative_flag: state.negative_flag,
                over_voltage_flag: state.over_voltage_flag,
                ..*old(state)
            }),
        decreases 4 - bit_index,
    {
        let ghost e1 = hw.events();
        hw.set_sclk(true);
        // Bit 2 of the status nibble is the sign, bit 3 the overrange flag.
        if bit_index == 2 {
            state.negative_flag = !hw.read_sdata_in1();
        }
        if bit_index == 3 {
            state.over_voltage_flag = hw.read_sdata_in1();
        }
        hw.set_sclk(false);
        assert(hw.events() =~= e1 + seq![DivEvent::SClk(true), DivEvent::SClk(false)]);
        bit_index = bit_index + 1;
    }
}

fn trailing_bits<H: DivHardware>(hw: &mut H)
    ensures
        final(hw).events() == old(hw).events() + div_slow_pulses(4),
        extends(old(hw).samples(), final(hw).samples(), 8),
        final(hw).received() == old(hw).received(),
{
    let ghost e0 = hw.events();
    let ghost s0 = hw.samples();
    let mut i: u8 = 0;
    while i < 4
        invariant
            i <= 4,
            hw.events() == e0 + div_slow_pulses(i as nat),
            extends(s0, hw.samples(), 2 * i as nat),
            hw.received() == old(hw).received(),
        decreases 4 - i,
    {
        let ghost e1 = hw.events();
        hw.spin_delay_cycles(1);
        hw.set_sclk(true);
        hw.spin_delay_cycles(1);
        hw.set_sclk(false);
        assert(hw.events() =~= e1 + seq![
            DivEvent::Wait(1),
            DivEvent::SClk(true),
            DivEvent::Wait(1),
            DivEvent::SClk(false),
        ]);
        i = i + 1;
    }
}

/// Reads one conversion from the LTC2400: the sign and overrange bits from
/// the status nibble, then the 24 data bits. A negative reading is
/// sign-extended to 32 bits; an overrange reading is clipped to full scale.
pub fn shift_in_2400<H: DivHardware>(state: &mut DivHardwareState, hw: &mut H)
    ensures
        final(hw).events() == old(hw).events() + read2400_wave(),
        extends(old(hw).samples(), final(hw).samples(), 18),
        extends(old(hw).received(), final(hw).received(), 3),
        ({
            let s = final(hw).samples();
            let n = old(hw).samples().len() as int;
            let r = final(hw).received();
            let k = old(hw).received().len() as int;
            &&& final(state).negative_flag == !s[n + 5]
            &&& final(state).over_voltage_flag == s[n + 7]
            &&& final(state).ad24_temp == ltc2400_value(!s[n + 5], s[n + 7], r[k], r[k + 1], r[k + 2])
        }),
        *final(state) == (DivHardwareState {
            negative_flag: final(state).negative_flag,
            over_voltage_flag: final(state).over_voltage_flag,
            ad24_temp: final(state).ad24_temp,
            ..*old(state)
        }),
{
    let ghost e0 = hw.events();
    hw.set_str_ad24(false);
    shift_status_bits(state, hw);
    // The status nibble carries no data bits: the top byte is zero unless sign-extended.
    let top: u8 = 0;
    let b2 = hw.spi_transfer(0);
    let b1 = hw.spi_transfer(0);
    let b0 = hw.spi_transfer(0);
    trailing_bits(hw);
    let msb: u8 = if state.negative_flag { 0xFF } else { top };
    let value: u32 = ((msb as u32) << 24) | ((b2 as u32) << 16) | ((b1 as u32) << 8) | (b0 as u32);
    assert(value == (msb as int) * 0x100_0000 + b2 * 0x1_0000int + b1 * 0x100int + b0) by (bit_vector)
        requires value == ((msb as u32) << 24) | ((b2 as u32) << 16) | ((b1 as u32) << 8) | (b0 as u32);
    state.ad24_temp = value;
    if state.over_voltage_flag {
        state.ad24_temp = AD24_FULL_SCALE;
    }
    hw.set_str_ad24(true);
    assert(hw.events() =~= e0 + read2400_wave());
}

/// External trigger input, interrupt on the falling edge: marks a pending trigger.
pub fn int2_trigger(state: &mut DivHardwareState)
    ensures
        *final(state) == (DivHardwareState { trigger: true, ..*old(state) }),
{
    state.trigger = true;
}

/// Fast average: the mean of the new reading and the previous fast value.
pub open spec fn fast_average(reading: u32, previous: u32) -> u32 {
    ((reading + previous) / 2) as u32
}

/// Slow average: the mean of the new reading and the three previous slow values.
pub open spec fn slow_average(reading: u32, i1: u32, i2: u32, i3: u32) -> u32 {
    ((reading + i1 + i2 + i3) / 4) as u32
}

/// The filter state after a new reading `s.ad24_temp` has come in: both
/// running averages advance and fresh data is flagged.
pub open spec fn div_integrate(s: DivHardwareState) -> DivHardwareState {
    let fast = fast_average(s.ad24_temp, s.ad24_integrate0);
    let slow = slow_average(s.ad24_temp, s.ad24_integrate1, s.ad24_integrate2, s.ad24_integrate3);
    DivHardwareState {
        ad24_temp_fast_integrated: fast,
        ad24_integrate0: fast,
        ad24_temp_slow_integrated: slow,
        ad24_integrate3: s.ad24_integrate2,
        ad24_integrate2: s.ad24_integrate1,
        ad24_integrate1: slow,
        ad24_ready: true,
        ..s
    }
}

fn integrate(state: &mut DivHardwareState)
    ensures
        *final(state) == div_integrate(*old(state)),
{
    // The sums are formed wide, so that the averages are exact for every reading.
    let fast = ((state.ad24_temp as u64 + state.ad24_integrate0 as u64) / 2) as u32;
    state.ad24_temp_fast_integrated = fast;
    state.ad24_integrate0 = fast;
    let slow = ((state.ad24_temp as u64 + state.ad24_integrate1 as u64 + state.ad24_integrate2 as u64
        + state.ad24_integrate3 as u64) / 4) as u32;
    state.ad24_temp_slow_integrated = slow;
    state.ad24_integrate3 = state.ad24_integrate2;
    state.ad24_integrate2 = state.ad24_integrate1;
    state.ad24_integrate1 = slow;
    state.ad24_ready = true;
}

/// What the tick does besides the read itself, depending on the abort request
/// and on the end-of-conversion level `eoc_low` seen on the data line.
pub open spec fn div_tick_wave(abort: bool, eoc_low: bool) -> Seq<DivEvent> {
    seq![DivEvent::SClk(false), DivEvent::StrAd24(false)] + (if abort {
        seq![
            DivEvent::StrAd24(false),
            DivEvent::Wait(1),
            DivEvent::SClk(true),
            DivEvent::Wait(1),
            DivEvent::SClk(false),
        ]
    } else if eoc_low {
        seq![DivEvent::StrAd24(true)] + read2400_wave()
    } else {
        Seq::empty()
    }) + seq![DivEvent::StrAd24(true)]
}

/// The system tick of the DIV: on an abort request a pending conversion is
/// cancelled with one clock pulse; otherwise, when the LTC2400 signals the
/// end of a conversion (data line low), the reading is fetched and both
/// running averages advance. The 10-bit path is flagged ready on every tick.
pub fn on_sys_tick<H: DivHardware>(state: &mut DivHardwareState, hw: &mut H)
    ensures
        ({
            let s = final(hw).samples();
            let n = old(hw).samples().len() as int;
            let r = final(hw).received();
            let k = old(hw).received().len() as int;
            let eoc_low = !s[n + 1];
            &&& final(hw).events() == old(hw).events() + div_tick_wave(old(state).abort_flag, eoc_low)
            &&& old(state).abort_flag ==> *final(state) == (DivHardwareState {
                abort_flag: false,
                ad10_ready: true,
                ..*old(state)
            }) && final(hw).received() == old(hw).received()
            &&& !old(state).abort_flag && eoc_low ==> {
                let neg = !s[n + 8];
                let over = s[n + 10];
                let read = DivHardwareState {
                    negative_flag: neg,
                    over_voltage_flag: over,
                    ad24_temp: ltc2400_value(neg, over, r[k], r[k + 1], r[k + 2]),
                    ..*old(state)
                };
                &&& *final(state) == (DivHardwareState { ad10_ready: true, ..div_integrate(read) })
                &&& extends(old(hw).received(), final(hw).received(), 3)
            }
            &&& !old(state).abort_flag && !eoc_low ==> *final(state) == (DivHardwareState {
                ad10_ready: true,
                ..*old(state)
            }) && final(hw).received() == old(hw).received()
        }),
        extends(
            old(hw).samples(),
            final(hw).samples(),
            if old(state).abort_flag {
                6
            } else if !final(hw).samples()[old(hw).samples().len() as int + 1] {
                22
            } else {
                3
            },
        ),
{
    let ghost e0 = hw.events();
    let ghost s0 = hw.samples();
    hw.set_sclk(false);
    hw.set_str_ad24(false);
    let ghost e1 = hw.events();
    let ghost s1 = hw.samples();
    if state.abort_flag {
        hw.set_str_ad24(false);
        hw.spin_delay_cycles(1);
        hw.set_sclk(true);
        hw.spin_delay_cycles(1);
        hw.set_sclk(false);
        state.abort_flag = false;
    } else if !hw.read_sdata_in1() {
        // Data line low: the LTC2400 has finished a conversion.
        hw.set_str_ad24(true);
        shift_in_2400(state, hw);
        integrate(state);
    }
    hw.set_str_ad24(true);
    state.ad10_ready = true;
    proof {
        assert(s1[s0.len() as int + 1] == hw.samples()[s0.len() as int + 1]);
        assert(hw.events() =~= e0 + div_tick_wave(old(state).abort_flag, !hw.samples()[s0.len() as int + 1]));
    }
}

/// An overrange reading is full scale; any other reading carries the three
/// data bytes in its low 24 bits, with the top byte all ones exactly when the
/// input is negative.
pub proof fn law_ltc2400_reading(negative: bool, over: bool, b2: u8, b1: u8, b0: u8)
    ensures
        over ==> ltc2400_value(negative, over, b2, b1, b0) == AD24_FULL_SCALE,
        !over ==> ltc2400_value(negative, over, b2, b1, b0) % 0x100_0000 == b2 * 0x1_0000int + b1 * 0x100int + b0,
        !over ==> ltc2400_value(negative, over, b2, b1, b0) / 0x100_0000 == (if negative { 0xffint } else { 0int }),
{
}

/// Each running average lies between the smallest and the largest of the
/// values it is formed from.
pub proof fn law_averages_stay_in_range(reading: u32, i0: u32, i1: u32, i2: u32, i3: u32)
    ensures
        (reading <= i0 ==> reading <= fast_average(reading, i0) <= i0),
        (i0 <= reading ==> i0 <= fast_average(reading, i0) <= reading),
        ({
            let lo = if reading <= i1 && reading <= i2 && reading <= i3 {
                reading
            } else if i1 <= i2 && i1 <= i3 {
                i1
            } else if i2 <= i3 {
                i2
            } else {
                i3
            };
            let hi = if reading >= i1 && reading >= i2 && reading >= i3 {
                reading
            } else if i1 >= i2 && i1 >= i3 {
                i1
            } else if i2 >= i3 {
                i2
            } else {
                i3
            };
            lo <= slow_average(reading, i1, i2, i3) <= hi
        }),
        fast_average(reading, reading) == reading,
        slow_average(reading, reading, reading, reading) == reading,
{
}

} // verus!
