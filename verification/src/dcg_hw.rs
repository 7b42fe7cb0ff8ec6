//! Hardware-near part of the DCG power supply module: bit-banged transfers
//! to the LTC1257 / LTC1655 DACs and the LTC1864 ADC, and the system tick
//! that alternates between voltage and current regulation and generates the
//! pulse-width (ripple) waveform.

use core::marker::PhantomData;
use vstd::prelude::*;

use crate::avrd::{bit_set, Atmega32, AvrdPortIo, Mcu, PortRegs, RegisterPort};
use crate::bits::{bits_value, extends, lemma_bits_value_bound, lemma_bits_value_push, msb, strided};

verus! {

/// Which DAC is fitted.
#[derive(Debug, Clone, Copy, PartialEq, Eq, Structural)]
pub enum DacKind {
    Ltc1257,
    Ltc1655,
}

/// One action performed on the DCG hardware.
#[derive(Debug, Clone, Copy, PartialEq, Eq, Structural)]
pub enum DcgEvent {
    SDataOut(bool),
    SClk(bool),
    StrDac(bool),
    StrAd16(bool),
    MpxI(bool),
    MpxU(bool),
    Mpx1864(bool),
    Wait(u16),
}

/// Access to the DCG lines.
///
/// `events` is everything done to the hardware so far; `samples` holds, for
/// every line change, the level of the serial data input right after it.
pub trait DcgHardware {
    spec fn events(&self) -> Seq<DcgEvent>;

    spec fn samples(&self) -> Seq<bool>;

    /// The level currently seen on the serial data input.
    spec fn data_in(&self) -> bool;

    fn set_sdata_out(&mut self, high: bool)
        ensures
            final(self).events() == old(self).events().push(DcgEvent::SDataOut(high)),
            final(self).samples() == old(self).samples().push(final(self).data_in()),
    ;

    fn set_sclk(&mut self, high: bool)
        ensures
            final(self).events() == old(self).events().push(DcgEvent::SClk(high)),
            final(self).samples() == old(self).samples().push(final(self).data_in()),
    ;

    fn set_str_dac(&mut self, high: bool)
        ensures
            final(self).events() == old(self).events().push(DcgEvent::StrDac(high)),
            final(self).samples() == old(self).samples().push(final(self).data_in()),
    ;

    fn set_str_ad16(&mut self, high: bool)
        ensures
            final(self).events() == old(self).events().push(DcgEvent::StrAd16(high)),
            final(self).samples() == old(self).samples().push(final(self).data_in()),
    ;

    fn set_mpx_i(&mut self, high: bool)
        ensures
            final(self).events() == old(self).events().push(DcgEvent::MpxI(high)),
            final(self).samples() == old(self).samples().push(final(self).data_in()),
    ;

    fn set_mpx_u(&mut self, high: bool)
        ensures
            final(self).events() == old(self).events().push(DcgEvent::MpxU(high)),
            final(self).samples() == old(self).samples().push(final(self).data_in()),
    ;

    fn set_mpx_1864(&mut self, high: bool)
        ensures
            final(self).events() == old(self).events().push(DcgEvent::Mpx1864(high)),
            final(self).samples() == old(self).samples().push(final(self).data_in()),
    ;

    fn read_sdata_in1(&self) -> (r: bool)
        ensures
            r == self.data_in(),
    ;

    fn spin_delay_cycles(&mut self, cycles: u16)
        ensures
            final(self).events() == old(self).events().push(DcgEvent::Wait(cycles)),
            final(self).samples() == old(self).samples(),
    ;
}

/// The DCG lines on a real AVR port register file.
pub struct DcgAvrd<M: Mcu> {
    pub io: AvrdPortIo<M>,
    pub _marker: PhantomData<M>,
    pub trace: Ghost<Seq<DcgEvent>>,
    pub sampled: Ghost<Seq<bool>>,
}

pub type DcgAtmega32 = DcgAvrd<Atmega32>;

impl<M: Mcu> Default for DcgAvrd<M> {
    fn default() -> (r: Self)
        ensures
            r.io.a == (PortRegs { ddr: 0, port: 0, pin: 0 }),
            r.io.b == (PortRegs { ddr: 0, port: 0, pin: 0 }),
            r.io.c == (PortRegs { ddr: 0, port: 0, pin: 0 }),
            r.io.d == (PortRegs { ddr: 0, port: 0, pin: 0 }),
            r.trace@ == Seq::<DcgEvent>::empty(),
            r.sampled@ == Seq::<bool>::empty(),
    {
        Self {
            io: AvrdPortIo::default(),
            _marker: PhantomData,
            trace: Ghost(Seq::empty()),
            sampled: Ghost(Seq::empty()),
        }
    }
}

impl<M: Mcu> DcgAvrd<M> {
    /// Power-up direction and output values of ports B, C and D.
    pub fn init_ports(&mut self)
        ensures
            final(self).io.a == old(self).io.a,
            final(self).io.b == (PortRegs { ddr: 0b1011_1111, port: 0b1101_0011, pin: old(self).io.b.pin }),
            final(self).io.c == (PortRegs { ddr: 0b1111_1100, port: 0b0000_1111, pin: old(self).io.c.pin }),
            final(self).io.d == (PortRegs { ddr: 0b0000_1100, port: 0b1111_1100, pin: old(self).io.d.pin }),
            final(self).trace == old(self).trace,
            final(self).sampled == old(self).sampled,
    {
        self.io.init_port(RegisterPort::B, 0b1011_1111, 0b1101_0011);
        self.io.init_port(RegisterPort::C, 0b1111_1100, 0b0000_1111);
        self.io.init_port(RegisterPort::D, 0b0000_1100, 0b1111_1100);
    }

    fn drive(&mut self, port: RegisterPort, bit: u8, high: bool, event: DcgEvent)
        requires
            bit < 8,
        ensures
            final(self).events() == old(self).events().push(event),
            final(self).samples() == old(self).samples().push(final(self).data_in()),
    {
        self.io.write_bit(port, bit, high);
        self.trace = Ghost(self.trace@.push(event));
        self.sampled = Ghost(self.sampled@.push(self.data_in()));
    }
}

impl<M: Mcu> DcgHardware for DcgAvrd<M> {
    open spec fn events(&self) -> Seq<DcgEvent> {
        self.trace@
    }

    open spec fn samples(&self) -> Seq<bool> {
        self.sampled@
    }

    open spec fn data_in(&self) -> bool {
        bit_set(self.io.b.pin, 6)
    }

    fn set_sdata_out(&mut self, high: bool) {
        self.drive(RegisterPort::B, 1, high, DcgEvent::SDataOut(high));
    }

    fn set_sclk(&mut self, high: bool) {
        self.drive(RegisterPort::B, 0, high, DcgEvent::SClk(high));
    }

    fn set_str_dac(&mut self, high: bool) {
        self.drive(RegisterPort::B, 4, high, DcgEvent::StrDac(high));
    }

    fn set_str_ad16(&mut self, high: bool) {
        self.drive(RegisterPort::B, 7, high, DcgEvent::StrAd16(high));
    }

    fn set_mpx_i(&mut self, high: bool) {
        self.drive(RegisterPort::C, 5, high, DcgEvent::MpxI(high));
    }

    fn set_mpx_u(&mut self, high: bool) {
        self.drive(RegisterPort::C, 4, high, DcgEvent::MpxU(high));
    }

    fn set_mpx_1864(&mut self, high: bool) {
        self.drive(RegisterPort::C, 6, high, DcgEvent::Mpx1864(high));
    }

    fn read_sdata_in1(&self) -> (r: bool) {
        self.io.read_bit(RegisterPort::B, 6)
    }

    fn spin_delay_cycles(&mut self, cycles: u16) {
        self.io.spin_delay_cycles(cycles);
        self.trace = Ghost(self.trace@.push(DcgEvent::Wait(cycles)));
    }
}

/// Converter and pulse-width state shared with the interrupt routine.
#[derive(Debug, Clone)]
pub struct DcgHardwareState {
    pub dac_temp: u16,
    pub adc_temp: u16,
    pub adc_raw_u: u16,
    pub adc_raw_i: u16,
    pub dac_raw_u_on: u16,
    pub dac_raw_u_off: u16,
    pub dac_raw_i: u16,
    pub pw_counter: u16,
    pub pw_on_time: u16,
    pub pw_off_time: u16,
    pub pw_on_off: bool,
    pub ui_toggle: bool,
    pub adc16_present: bool,
    pub dac16_present: bool,
}

impl Default for DcgHardwareState {
    fn default() -> (r: Self)
        ensures
            r == (DcgHardwareState {
                dac_temp: 0,
                adc_temp: 0,
                adc_raw_u: 0,
                adc_raw_i: 0,
                dac_raw_u_on: 0,
                dac_raw_u_off: 0,
                dac_raw_i: 0,
                pw_counter: 0,
                pw_on_time: 0,
                pw_off_time: 0,
                pw_on_off: false,
                ui_toggle: false,
                adc16_present: false,
                dac16_present: false,
            }),
    {
        Self {
            dac_temp: 0,
            adc_temp: 0,
            adc_raw_u: 0,
            adc_raw_i: 0,
            dac_raw_u_on: 0,
            dac_raw_u_off: 0,
            dac_raw_i: 0,
            pw_counter: 0,
            pw_on_time: 0,
            pw_off_time: 0,
            pw_on_off: false,
            ui_toggle: false,
            adc16_present: false,
            dac16_present: false,
        }
    }
}

/// Events that clock out one bit: data, clock high, (wait), data low, clock low.
pub open spec fn dcg_bit(bit: bool, timed: bool) -> Seq<DcgEvent> {
    if timed {
        seq![DcgEvent::SDataOut(bit), DcgEvent::SClk(true), DcgEvent::Wait(1), DcgEvent::SDataOut(false), DcgEvent::SClk(false)]
    } else {
        seq![DcgEvent::SDataOut(bit), DcgEvent::SClk(true), DcgEvent::SDataOut(false), DcgEvent::SClk(false)]
    }
}

/// Events that clock out the `n` leading bits of `acc`, most significant first.
pub open spec fn dcg_clocked(acc: u8, n: nat, timed: bool) -> Seq<DcgEvent>
    decreases n,
{
    if n == 0 {
        Seq::empty()
    } else {
        dcg_clocked(acc, (n - 1) as nat, timed) + dcg_bit(msb(acc << ((n - 1) as u8)), timed)
    }
}

/// `b` is `a` with zero or more elements appended.
pub open spec fn grows<T>(a: Seq<T>, b: Seq<T>) -> bool {
    &&& a.len() <= b.len()
    &&& forall|i: int| 0 <= i < a.len() ==> #[trigger] b[i] == a[i]
}

fn clock_bits<H: DcgHardware>(hw: &mut H, acc: u8, n: u8, timed: bool) -> (last: u8)
    requires
        n <= 8,
    ensures
        final(hw).events() == old(hw).events() + dcg_clocked(acc, n as nat, timed),
        grows(old(hw).samples(), final(hw).samples()),
        last == acc << n,
{
    let ghost e0 = hw.events();
    let ghost s0 = hw.samples();
    let mut current = acc;
    let mut i: u8 = 0;
    assert(acc << 0u8 == acc) by (bit_vector);
    while i < n
        invariant
            i <= n <= 8,
            current == acc << i,
            hw.events() == e0 + dcg_clocked(acc, i as nat, timed),
            grows(s0, hw.samples()),
        decreases n - i,
    {
        let ghost e1 = hw.events();
        hw.set_sdata_out((current & 0x80) != 0);
        hw.set_sclk(true);
        current = current << 1;
        if timed {
            hw.spin_delay_cycles(1);
        }
        hw.set_sdata_out(false);
        hw.set_sclk(false);
        proof {
            assert(((acc << i) << 1u8) == acc << ((i + 1) as u8)) by (bit_vector)
                requires i < 8;
            assert(hw.events() =~= e1 + dcg_bit(msb(acc << i), timed));
        }
        i = i + 1;
    }
    current
}

/// Pin sequence of a 12-bit transfer to the LTC1257.
#[verifier::opaque]
pub open spec fn dcg1257_wave(dac_temp: u16) -> Seq<DcgEvent> {
    let hi = ((dac_temp >> 8u16) as u8) << 4u8;
    let lo = dac_temp as u8;
    seq![DcgEvent::SDataOut(false), DcgEvent::SClk(false), DcgEvent::StrDac(true)]
        + dcg_clocked(hi, 4, true) + dcg_clocked(lo, 7, true)
        + seq![
        DcgEvent::SDataOut(msb(lo << 7u8)),
        DcgEvent::SClk(true),
        DcgEvent::StrDac(false),
        DcgEvent::Wait(1),
        DcgEvent::SDataOut(false),
        DcgEvent::SClk(false),
        DcgEvent::StrDac(true),
    ]
}

/// Sends the low twelve bits of `dac_temp` to the LTC1257, most significant
/// first; the last bit is clocked together with the load strobe.
pub fn shift_out_1257<H: DcgHardware>(hw: &mut H, dac_temp: u16)
    ensures
        final(hw).events() == old(hw).events() + dcg1257_wave(dac_temp),
        grows(old(hw).samples(), final(hw).samples()),
{
    let ghost e0 = hw.events();
    hw.set_sdata_out(false);
    hw.set_sclk(false);
    hw.set_str_dac(true);
    let high = ((dac_temp >> 8) as u8) << 4;
    clock_bits(hw, high, 4, true);
    let low = clock_bits(hw, dac_temp as u8, 7, true);
    hw.set_sdata_out((low & 0x80) != 0);
    hw.set_sclk(true);
    hw.set_str_dac(false);
    hw.spin_delay_cycles(1);
    hw.set_sdata_out(false);
    hw.set_sclk(false);
    hw.set_str_dac(true);
    reveal(dcg1257_wave);
    assert(hw.events() =~= e0 + dcg1257_wave(dac_temp));
}

/// Pin sequence of a 16-bit transfer to the LTC1655.
#[verifier::opaque]
pub open spec fn dcg1655_wave(dac_temp: u16) -> Seq<DcgEvent> {
    seq![DcgEvent::SClk(false), DcgEvent::SDataOut(false), DcgEvent::StrDac(false)]
        + dcg_clocked((dac_temp >> 8u16) as u8, 8, false) + dcg_clocked(dac_temp as u8, 8, false)
        + seq![DcgEvent::StrDac(true)]
}

/// Sends `dac_temp` to the LTC1655, high byte first, most significant bit first.
pub fn shift_out_1655<H: DcgHardware>(hw: &mut H, dac_temp: u16)
    ensures
        final(hw).events() == old(hw).events() + dcg1655_wave(dac_temp),
        grows(old(hw).samples(), final(hw).samples()),
{
    let ghost e0 = hw.events();
    hw.set_sclk(false);
    hw.set_sdata_out(false);
    hw.set_str_dac(false);
    clock_bits(hw, (dac_temp >> 8) as u8, 8, false);
    clock_bits(hw, dac_temp as u8, 8, false);
    hw.set_str_dac(true);
    reveal(dcg1655_wave);
    assert(hw.events() =~= e0 + dcg1655_wave(dac_temp));
}

/// `n` clock pulses: clock high, clock low.
pub open spec fn dcg_pulses(n: nat) -> Seq<DcgEvent>
    decreases n,
{
    if n == 0 {
        Seq::empty()
    } else {
        dcg_pulses((n - 1) as nat) + seq![DcgEvent::SClk(true), DcgEvent::SClk(false)]
    }
}

/// Pin sequence of one LTC1864 read.
#[verifier::opaque]
pub open spec fn dcg1864_wave() -> Seq<DcgEvent> {
    seq![DcgEvent::StrAd16(false), DcgEvent::SClk(false)] + dcg_pulses(16)
        + seq![DcgEvent::SClk(true), DcgEvent::Wait(1), DcgEvent::StrAd16(true)]
}

/// Reads sixteen bits from the LTC1864, most significant first, each
/// sampled while the clock is high.
pub fn shift_in_1864<H: DcgHardware>(hw: &mut H) -> (result: u16)
    ensures
        final(hw).events() == old(hw).events() + dcg1864_wave(),
        extends(old(hw).samples(), final(hw).samples(), 36),
        result as nat == bits_value(strided(final(hw).samples(), old(hw).samples().len() + 2int, 2, 16)),
{
    let ghost e0 = hw.events();
    let ghost s0 = hw.samples();
    hw.set_str_ad16(false);
    hw.set_sclk(false);
    let ghost e1 = hw.events();
    let ghost start: int = s0.len() + 2int;
    let mut result = 0u16;
    let mut i: u8 = 0;
    assert(strided(hw.samples(), start, 2, 0) =~= Seq::<bool>::empty());
    while i < 16
        invariant
            i <= 16,
            hw.events() == e1 + dcg_pulses(i as nat),
            extends(s0, hw.samples(), 2 + 2 * i as nat),
            start == s0.len() + 2,
            result as nat == bits_value(strided(hw.samples(), start, 2, i as nat)),
        decreases 16 - i,
    {
        let ghost e2 = hw.events();
        let ghost s2 = hw.samples();
        hw.set_sclk(true);
        let bit = hw.read_sdata_in1();
        hw.set_sclk(false);
        proof {
            lemma_bits_value_bound(strided(s2, start, 2, i as nat));
            vstd::arithmetic::power2::lemma_pow2_strictly_increases(i as nat, 16);
            vstd::arithmetic::power2::lemma2_to64();
            assert(strided(hw.samples(), start, 2, (i + 1) as nat) =~= strided(s2, start, 2, i as nat).push(bit));
            lemma_bits_value_push(strided(s2, start, 2, i as nat), bit);
            assert(hw.events() =~= e2 + seq![DcgEvent::SClk(true), DcgEvent::SClk(false)]);
        }
        let c: u16 = if bit { 1 } else { 0 };
        assert(result < 0x8000 ==> (result << 1u16) | c == 2 * result + c) by (bit_vector)
            requires c <= 1;
        result = (result << 1) | c;
        i = i + 1;
    }
    let ghost s_end = hw.samples();
    hw.set_sclk(true);
    hw.spin_delay_cycles(1);
    hw.set_str_ad16(true);
    proof {
        assert(strided(hw.samples(), start, 2, 16) =~= strided(s_end, start, 2, 16));
        reveal(dcg1864_wave);
        assert(hw.events() =~= e0 + dcg1864_wave());
    }
    result
}

/// What the regulation step of one tick does to the converter state, given
/// the reading `adc_temp` taken at its start.
///
/// In the voltage phase the pulse-width generator runs: when its counter has
/// run out it switches between the on and the off level and reloads the
/// counter with the duration of the new level. The DAC gets the voltage of the
/// current level, or the current limit in the current phase. The counter then
/// counts down by one, the reading is averaged into the value of the phase,
/// and the phase flips.
pub open spec fn dcg_regulate(s: DcgHardwareState, adc_temp: u16) -> DcgHardwareState {
    let (dac, counter, on) = if s.ui_toggle {
        if s.pw_on_off {
            if s.pw_counter == 0 {
                (s.dac_raw_u_off, s.pw_off_time, false)
            } else {
                (s.dac_raw_u_on, s.pw_counter, true)
            }
        } else if s.pw_counter == 0 {
            (s.dac_raw_u_on, s.pw_on_time, true)
        } else {
            (s.dac_raw_u_off, s.pw_counter, false)
        }
    } else {
        (s.dac_raw_i, s.pw_counter, s.pw_on_off)
    };
    DcgHardwareState {
        adc_temp,
        dac_temp: dac,
        pw_counter: if counter > 0 { (counter - 1) as u16 } else { 0 },
        pw_on_off: on,
        adc_raw_u: if s.ui_toggle { ((s.adc_raw_u + adc_temp) / 2) as u16 } else { s.adc_raw_u },
        adc_raw_i: if s.ui_toggle { s.adc_raw_i } else { ((s.adc_raw_i + adc_temp) / 2) as u16 },
        ui_toggle: !s.ui_toggle,
        ..s
    }
}

/// Pin sequence of one DAC load for the fitted converter.
pub open spec fn dcg_dac_wave(kind: DacKind, value: u16) -> Seq<DcgEvent> {
    match kind {
        DacKind::Ltc1257 => dcg1257_wave(value),
        DacKind::Ltc1655 => dcg1655_wave(value),
    }
}

/// Events of one system tick.
pub open spec fn dcg_tick_wave(s: DcgHardwareState, kind: DacKind) -> Seq<DcgEvent> {
    seq![DcgEvent::MpxI(true), DcgEvent::MpxU(false)]
        + (if s.adc16_present { dcg1864_wave() } else { Seq::empty() })
        + dcg_dac_wave(kind, dcg_regulate(s, 0).dac_temp)
        + seq![DcgEvent::Wait(40)]
        + (if s.ui_toggle {
        seq![DcgEvent::Mpx1864(true), DcgEvent::MpxU(true)]
    } else {
        seq![DcgEvent::Mpx1864(false), DcgEvent::MpxI(false)]
    })
}

fn regulate(state: &mut DcgHardwareState)
    ensures
        ({
            let r = dcg_regulate(*old(state), old(state).adc_temp);
            &&& final(state).dac_temp == r.dac_temp
            &&& final(state).pw_counter == r.pw_counter
            &&& final(state).pw_on_off == r.pw_on_off
        }),
        *final(state) == (DcgHardwareState {
            dac_temp: final(state).dac_temp,
            pw_counter: final(state).pw_counter,
            pw_on_off: final(state).pw_on_off,
            ..*old(state)
        }),
{
    if state.ui_toggle {
        if state.pw_on_off {
            if state.pw_counter == 0 {
                state.pw_counter = state.pw_off_time;
                state.pw_on_off = false;
                state.dac_temp = state.dac_raw_u_off;
            } else {
                state.dac_temp = state.dac_raw_u_on;
            }
        } else if state.pw_counter == 0 {
            state.pw_counter = state.pw_on_time;
            state.pw_on_off = true;
            state.dac_temp = state.dac_raw_u_on;
        } else {
            state.dac_temp = state.dac_raw_u_off;
        }
    } else {
        state.dac_temp = state.dac_raw_i;
    }
    if state.pw_counter > 0 {
        state.pw_counter = state.pw_counter - 1;
    }
}

fn load_dac<H: DcgHardware>(hw: &mut H, kind: DacKind, value: u16)
    ensures
        final(hw).events() == old(hw).events() + dcg_dac_wave(kind, value),
        grows(old(hw).samples(), final(hw).samples()),
{
    match kind {
        DacKind::Ltc1257 => shift_out_1257(hw, value),
        DacKind::Ltc1655 => shift_out_1655(hw, value),
    }
}

/// Averages the reading into the value of the phase, moves the multiplexer
/// and flips the phase.
fn average_and_switch<H: DcgHardware>(state: &mut DcgHardwareState, hw: &mut H)
    ensures
        final(hw).events() == old(hw).events() + (if old(state).ui_toggle {
            seq![DcgEvent::Mpx1864(true), DcgEvent::MpxU(true)]
        } else {
            seq![DcgEvent::Mpx1864(false), DcgEvent::MpxI(false)]
        }),
        grows(old(hw).samples(), final(hw).samples()),
        *final(state) == (DcgHardwareState {
            adc_raw_u: if old(state).ui_toggle {
                ((old(state).adc_raw_u + old(state).adc_temp) / 2) as u16
            } else {
                old(state).adc_raw_u
            },
            adc_raw_i: if old(state).ui_toggle {
                old(state).adc_raw_i
            } else {
                ((old(state).adc_raw_i + old(state).adc_temp) / 2) as u16
            },
            ui_toggle: !old(state).ui_toggle,
            ..*old(state)
        }),
{
    let ghost e0 = hw.events();
    if state.ui_toggle {
        state.adc_raw_u = ((state.adc_raw_u as u32 + state.adc_temp as u32) / 2) as u16;
        hw.set_mpx_1864(true);
        hw.set_mpx_u(true);
    } else {
        state.adc_raw_i = ((state.adc_raw_i as u32 + state.adc_temp as u32) / 2) as u16;
        hw.set_mpx_1864(false);
        hw.set_mpx_i(false);
    }
    state.ui_toggle = !state.ui_toggle;
    assert(hw.events() =~= e0 + (if old(state).ui_toggle {
        seq![DcgEvent::Mpx1864(true), DcgEvent::MpxU(true)]
    } else {
        seq![DcgEvent::Mpx1864(false), DcgEvent::MpxI(false)]
    }));
}

/// The system tick of the DCG: samples the 16-bit ADC (when fitted) with the
/// multiplexer on the current channel, runs the regulation step, loads the
/// DAC, waits for it to settle, averages the reading into the voltage or
/// current value of the phase, switches the multiplexer and flips the phase.
pub fn on_sys_tick<H: DcgHardware>(state: &mut DcgHardwareState, hw: &mut H, dac_kind: DacKind)
    ensures
        final(hw).events() == old(hw).events() + dcg_tick_wave(*old(state), dac_kind),
        grows(old(hw).samples(), final(hw).samples()),
        ({
            let reading: u16 = if old(state).adc16_present {
                bits_value(strided(final(hw).samples(), old(hw).samples().len() + 4int, 2, 16)) as u16
            } else {
                old(state).adc_temp
            };
            *final(state) == dcg_regulate(*old(state), reading)
        }),
{
    let ghost e0 = hw.events();
    let ghost s0 = hw.samples();
    hw.set_mpx_i(true);
    hw.set_mpx_u(false);
    let ghost s1 = hw.samples();
    if state.adc16_present {
        state.adc_temp = shift_in_1864(hw);
        proof {
            lemma_bits_value_bound(strided(hw.samples(), s1.len() + 2int, 2, 16));
            vstd::arithmetic::power2::lemma2_to64();
        }
    }
    let ghost s2 = hw.samples();
    let ghost e2 = hw.events();
    let ghost st2 = *state;
    regulate(state);
    load_dac(hw, dac_kind, state.dac_temp);
    hw.spin_delay_cycles(40);
    average_and_switch(state, hw);
    proof {
        let fin = hw.samples();
        if old(state).adc16_present {
            assert(strided(s2, s1.len() + 2int, 2, 16) =~= strided(fin, s0.len() + 4int, 2, 16));
        }
        assert(dcg_regulate(st2, st2.adc_temp).dac_temp == dcg_regulate(*old(state), 0).dac_temp);
        assert(hw.events() =~= e0 + dcg_tick_wave(*old(state), dac_kind));
    }
}

/// Reading of the on-chip 10-bit ADC: this firmware reads no channel of it,
/// so the reading is 0 and no line changes.
pub fn get_adc10<H: DcgHardware>(hw: &mut H, channel: u8) -> (r: u16)
    ensures
        r == 0,
        final(hw).events() == old(hw).events(),
        final(hw).samples() == old(hw).samples(),
{
    let _ = channel;
    0
}

/// In the voltage phase the DAC gets the voltage of the level that the
/// pulse-width generator is in after the step: the on voltage while on, the
/// off voltage while off.
pub proof fn law_voltage_phase_follows_level(s: DcgHardwareState, reading: u16)
    requires
        s.ui_toggle,
    ensures
        dcg_regulate(s, reading).dac_temp == (if dcg_regulate(s, reading).pw_on_off {
            s.dac_raw_u_on
        } else {
            s.dac_raw_u_off
        }),
{
}

/// In the current phase the DAC gets the current limit and the pulse-width
/// generator keeps its level; only its counter runs down.
pub proof fn law_current_phase_holds_level(s: DcgHardwareState, reading: u16)
    requires
        !s.ui_toggle,
    ensures
        dcg_regulate(s, reading).dac_temp == s.dac_raw_i,
        dcg_regulate(s, reading).pw_on_off == s.pw_on_off,
        dcg_regulate(s, reading).pw_counter == (if s.pw_counter > 0 { s.pw_counter - 1 } else { 0 }),
{
}

/// The pulse-width generator keeps its level while its counter runs, and
/// switches level, reloading the counter with the new level's duration, when
/// the counter has run out.
pub proof fn law_pulse_width_switches_on_expiry(s: DcgHardwareState, reading: u16)
    requires
        s.ui_toggle,
    ensures
        s.pw_counter > 0 ==> dcg_regulate(s, reading).pw_on_off == s.pw_on_off
            && dcg_regulate(s, reading).pw_counter == s.pw_counter - 1,
        s.pw_counter == 0 ==> dcg_regulate(s, reading).pw_on_off == !s.pw_on_off,
        s.pw_counter == 0 && s.pw_on_off ==> dcg_regulate(s, reading).pw_counter == (if s.pw_off_time > 0 {
            s.pw_off_time - 1
        } else {
            0
        }),
        s.pw_counter == 0 && !s.pw_on_off ==> dcg_regulate(s, reading).pw_counter == (if s.pw_on_time > 0 {
            s.pw_on_time - 1
        } else {
            0
        }),
{
}

/// Voltage and current phases alternate, and each phase only updates its
/// own averaged value, which stays between the old value and the reading.
pub proof fn law_phases_alternate(s: DcgHardwareState, first: u16, second: u16)
    ensures
        dcg_regulate(dcg_regulate(s, first), second).ui_toggle == s.ui_toggle,
        s.ui_toggle ==> dcg_regulate(s, first).adc_raw_i == s.adc_raw_i,
        !s.ui_toggle ==> dcg_regulate(s, first).adc_raw_u == s.adc_raw_u,
        s.ui_toggle ==> (s.adc_raw_u <= first ==> s.adc_raw_u <= dcg_regulate(s, first).adc_raw_u <= first)
            && (first <= s.adc_raw_u ==> first <= dcg_regulate(s, first).adc_raw_u <= s.adc_raw_u),
        !s.ui_toggle ==> (s.adc_raw_i <= first ==> s.adc_raw_i <= dcg_regulate(s, first).adc_raw_i <= first)
            && (first <= s.adc_raw_i ==> first <= dcg_regulate(s, first).adc_raw_i <= s.adc_raw_i),
{
}

} // verus!
