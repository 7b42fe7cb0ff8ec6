//! Control of the YI3 MP3 player module over a software UART: single-byte
//! commands sent at 19200 Bd on an auxiliary output line.

use vstd::prelude::*;

use crate::bits::{bits_value, byte_bits};

verus! {

pub const YI3_STOP: u8 = 0xF0;

pub const YI3_RESET: u8 = 0xF7;

pub const YI3_PAUSE: u8 = 0xF8;

pub const YI3_LOOP: u8 = 0xF4;

pub const YI3_NO_LOOP: u8 = 0xF1;

pub const YI3_MID_VOLUME: u8 = 0xA8;

pub const YI3_MUTE: u8 = 0x80;

/// One action performed on the player's control hardware.
#[derive(Debug, Clone, Copy, PartialEq, Eq, Structural)]
pub enum Mp3Event {
    /// The auxiliary serial line was driven to the given level.
    SerAux(bool),
    MicroDelay(u8),
    MilliDelay(u16),
    /// The shared shift register outputs were refreshed.
    SendShiftRegister,
}

/// Access to the player's control line. `events` is everything done to the
/// hardware so far, in order.
pub trait Mp3ControlHardware {
    spec fn events(&self) -> Seq<Mp3Event>;

    fn set_ser_aux(&mut self, high: bool)
        ensures
            final(self).events() == old(self).events().push(Mp3Event::SerAux(high)),
    ;

    fn micro_delay(&mut self, ticks: u8)
        ensures
            final(self).events() == old(self).events().push(Mp3Event::MicroDelay(ticks)),
    ;

    fn milli_delay(&mut self, ticks: u16)
        ensures
            final(self).events() == old(self).events().push(Mp3Event::MilliDelay(ticks)),
    ;

    fn send_shift_register(&mut self)
        ensures
            final(self).events() == old(self).events().push(Mp3Event::SendShiftRegister),
    ;
}

/// A control line that records what is done to it, in order: the caller
/// performs the recorded actions on the player's line.
pub struct Mp3Recorder {
    pub log: Vec<Mp3Event>,
}

impl Mp3ControlHardware for Mp3Recorder {
    open spec fn events(&self) -> Seq<Mp3Event> {
        self.log@
    }

    fn set_ser_aux(&mut self, high: bool) {
        self.log.push(Mp3Event::SerAux(high));
    }

    fn micro_delay(&mut self, ticks: u8) {
        self.log.push(Mp3Event::MicroDelay(ticks));
    }

    fn milli_delay(&mut self, ticks: u16) {
        self.log.push(Mp3Event::MilliDelay(ticks));
    }

    fn send_shift_register(&mut self) {
        self.log.push(Mp3Event::SendShiftRegister);
    }
}

/// Player state kept by the firmware.
#[derive(Debug, Clone)]
pub struct Mp3ControlState {
    pub track: u8,
    pub current_track: u8,
    pub db_correction: u8,
    pub is_on: bool,
}

impl Default for Mp3ControlState {
    fn default() -> (r: Self)
        ensures
            r == (Mp3ControlState { track: 0, current_track: 0, db_correction: 0, is_on: false }),
    {
        Mp3ControlState { track: 0, current_track: 0, db_correction: 0, is_on: false }
    }
}

/// Bit `i` of `value`, counting from the least significant.
pub open spec fn lsb_bit(value: u8, i: int) -> bool {
    (value >> (i as u8)) & 1u8 == 1u8
}

/// The data bits of one frame, `n` of them, least significant first, each
/// followed by one bit time.
pub open spec fn uart_data(value: u8, n: nat) -> Seq<Mp3Event>
    decreases n,
{
    if n == 0 {
        Seq::empty()
    } else {
        uart_data(value, (n - 1) as nat) + seq![Mp3Event::SerAux(lsb_bit(value, n - 1)), Mp3Event::MicroDelay(5)]
    }
}

/// One UART frame: start bit (low), eight data bits least significant first,
/// stop bit (high) held for two bit times.
pub open spec fn uart_frame(value: u8) -> Seq<Mp3Event> {
    seq![Mp3Event::SerAux(false), Mp3Event::MicroDelay(5)] + uart_data(value, 8) + seq![
        Mp3Event::SerAux(true),
        Mp3Event::MicroDelay(10),
    ]
}

/// Sends one command byte as a UART frame.
pub fn ser_aux<H: Mp3ControlHardware>(hw: &mut H, value: u8)
    ensures
        final(hw).events() == old(hw).events() + uart_frame(value),
{
    let ghost e0 = hw.events();
    let mut current = value;
    let mut bits_remaining = 8u8;
    // Start bit.
    hw.set_ser_aux(false);
    hw.micro_delay(5);
    let ghost e1 = hw.events();
    assert(value >> 0u8 == value) by (bit_vector);
    while bits_remaining > 0
        invariant
            bits_remaining <= 8,
            current == value >> ((8 - bits_remaining) as u8),
            hw.events() == e1 + uart_data(value, (8 - bits_remaining) as nat),
        decreases bits_remaining,
    {
        let ghost e2 = hw.events();
        let ghost i: u8 = (8 - bits_remaining) as u8;
        assert(((value >> i) & 1u8 == 1u8) == ((value >> i) & 0x01u8 != 0u8)) by (bit_vector);
        hw.set_ser_aux((current & 0x01) != 0);
        hw.micro_delay(5);
        assert((value >> i) >> 1u8 == value >> ((i + 1) as u8)) by (bit_vector)
            requires i < 8;
        current = current >> 1;
        bits_remaining = bits_remaining - 1;
        assert(hw.events() =~= e2 + seq![Mp3Event::SerAux(lsb_bit(value, i as int)), Mp3Event::MicroDelay(5)]);
    }
    // Stop bit, line back to idle.
    hw.set_ser_aux(true);
    hw.micro_delay(10);
    assert(hw.events() =~= e0 + uart_frame(value));
}

/// The volume command for a level correction: the mid volume step raised by
/// the correction, wrapping at 256.
pub open spec fn volume_command(db_correction: u8) -> u8 {
    ((YI3_MID_VOLUME + db_correction) % 256) as u8
}

/// Sends the calibrated volume after a 20 ms pause.
pub fn mp3_set_volume<H: Mp3ControlHardware>(state: &Mp3ControlState, hw: &mut H)
    ensures
        final(hw).events() == old(hw).events() + seq![Mp3Event::MilliDelay(20)] + uart_frame(
            volume_command(state.db_correction),
        ),
{
    hw.milli_delay(20);
    ser_aux(hw, YI3_MID_VOLUME.wrapping_add(state.db_correction));
}

/// Jumps to `state.track` (track numbers are sent as single-byte commands)
/// and re-applies the calibrated volume.
pub fn mp3_goto_track<H: Mp3ControlHardware>(state: &mut Mp3ControlState, hw: &mut H)
    ensures
        final(hw).events() == old(hw).events() + uart_frame(old(state).track) + seq![Mp3Event::MilliDelay(20)]
            + uart_frame(volume_command(old(state).db_correction)),
        *final(state) == (Mp3ControlState { current_track: old(state).track, ..*old(state) }),
{
    ser_aux(hw, state.track);
    state.current_track = state.track;
    mp3_set_volume(state, hw);
}

/// Switches the player on: repeat off, calibrated volume, stop (so playback
/// starts from a known state), then a 100 ms pause and the power state out
/// to the shift registers.
pub fn mp3_on<H: Mp3ControlHardware>(state: &mut Mp3ControlState, hw: &mut H)
    ensures
        final(hw).events() == old(hw).events() + uart_frame(YI3_NO_LOOP) + uart_frame(
            volume_command(old(state).db_correction),
        ) + uart_frame(YI3_STOP) + seq![Mp3Event::MilliDelay(100), Mp3Event::SendShiftRegister],
        *final(state) == (Mp3ControlState { current_track: 0, is_on: true, ..*old(state) }),
{
    let ghost e0 = hw.events();
    ser_aux(hw, YI3_NO_LOOP);
    ser_aux(hw, YI3_MID_VOLUME.wrapping_add(state.db_correction));
    ser_aux(hw, YI3_STOP);
    hw.milli_delay(100);
    state.current_track = 0;
    state.is_on = true;
    hw.send_shift_register();
    assert(hw.events() =~= e0 + uart_frame(YI3_NO_LOOP) + uart_frame(volume_command(old(state).db_correction))
        + uart_frame(YI3_STOP) + seq![Mp3Event::MilliDelay(100), Mp3Event::SendShiftRegister]);
}

/// Switches the player off: repeat off, mute (so power-down is silent),
/// stop, then the power state out to the shift registers.
pub fn mp3_off<H: Mp3ControlHardware>(state: &mut Mp3ControlState, hw: &mut H)
    ensures
        final(hw).events() == old(hw).events() + uart_frame(YI3_NO_LOOP) + uart_frame(YI3_MUTE) + uart_frame(
            YI3_STOP,
        ) + seq![Mp3Event::SendShiftRegister],
        *final(state) == (Mp3ControlState { current_track: 0, is_on: false, ..*old(state) }),
{
    let ghost e0 = hw.events();
    ser_aux(hw, YI3_NO_LOOP);
    ser_aux(hw, YI3_MUTE);
    ser_aux(hw, YI3_STOP);
    state.is_on = false;
    state.current_track = 0;
    hw.send_shift_register();
    assert(hw.events() =~= e0 + uart_frame(YI3_NO_LOOP) + uart_frame(YI3_MUTE) + uart_frame(YI3_STOP)
        + seq![Mp3Event::SendShiftRegister]);
}

/// Levels driven on the serial line, in order.
pub open spec fn line_levels(events: Seq<Mp3Event>) -> Seq<bool>
    decreases events.len(),
{
    if events.len() == 0 {
        Seq::empty()
    } else {
        let rest = line_levels(events.drop_last());
        match events.last() {
            Mp3Event::SerAux(h) => rest.push(h),
            _ => rest,
        }
    }
}

proof fn lemma_line_levels_concat(a: Seq<Mp3Event>, b: Seq<Mp3Event>)
    ensures
        line_levels(a + b) == line_levels(a) + line_levels(b),
    decreases b.len(),
{
    if b.len() == 0 {
        assert(a + b =~= a);
        assert(line_levels(a) + line_levels(b) =~= line_levels(a));
    } else {
        lemma_line_levels_concat(a, b.drop_last());
        assert((a + b).drop_last() =~= a + b.drop_last());
        assert((a + b).last() == b.last());
        match b.last() {
            Mp3Event::SerAux(h) => {
                assert(line_levels(a + b) =~= line_levels(a) + line_levels(b));
            },
            _ => {},
        }
    }
}

proof fn lemma_uart_data_levels(value: u8, n: nat)
    ensures
        line_levels(uart_data(value, n)) == Seq::new(n, |i: int| lsb_bit(value, i)),
    decreases n,
{
    if n > 0 {
        let m = (n - 1) as nat;
        lemma_uart_data_levels(value, m);
        let step = seq![Mp3Event::SerAux(lsb_bit(value, m as int)), Mp3Event::MicroDelay(5)];
        lemma_line_levels_concat(uart_data(value, m), step);
        reveal_with_fuel(line_levels, 3);
        assert(step.drop_last() =~= seq![Mp3Event::SerAux(lsb_bit(value, m as int))]);
        assert(seq![Mp3Event::SerAux(lsb_bit(value, m as int))].drop_last() =~= Seq::<Mp3Event>::empty());
        assert(line_levels(step) =~= seq![lsb_bit(value, m as int)]);
        assert(line_levels(uart_data(value, n)) =~= Seq::new(n, |i: int| lsb_bit(value, i)));
    }
}

/// A frame drives the line low for the start bit, then to the data bits of
/// the byte least significant first, then high for the stop bit; a receiver
/// that reassembles the data bits gets the byte back.
pub proof fn law_uart_frame_carries_byte(value: u8)
    ensures
        line_levels(uart_frame(value)) == seq![false] + Seq::new(8, |i: int| lsb_bit(value, i)) + seq![true],
        Seq::new(8, |i: int| lsb_bit(value, i)) == byte_bits(value).reverse(),
        bits_value(Seq::new(8, |i: int| lsb_bit(value, i)).reverse()) == value,
{
    let start = seq![Mp3Event::SerAux(false), Mp3Event::MicroDelay(5)];
    let stop = seq![Mp3Event::SerAux(true), Mp3Event::MicroDelay(10)];
    lemma_line_levels_concat(start, uart_data(value, 8));
    lemma_line_levels_concat(start + uart_data(value, 8), stop);
    lemma_uart_data_levels(value, 8);
    reveal_with_fuel(line_levels, 3);
    assert(start.drop_last() =~= seq![Mp3Event::SerAux(false)]);
    assert(seq![Mp3Event::SerAux(false)].drop_last() =~= Seq::<Mp3Event>::empty());
    assert(stop.drop_last() =~= seq![Mp3Event::SerAux(true)]);
    assert(seq![Mp3Event::SerAux(true)].drop_last() =~= Seq::<Mp3Event>::empty());
    assert(line_levels(start) =~= seq![false]);
    assert(line_levels(stop) =~= seq![true]);
    let lsb = Seq::new(8, |i: int| lsb_bit(value, i));
    assert forall|i: int| 0 <= i < 8 implies #[trigger] lsb[i] == byte_bits(value).reverse()[i] by {
        let k = i as u8;
        assert(((value >> k) & 1u8 == 1u8) == ((value << ((7 - k) as u8)) as u8 & 0x80u8 != 0u8)) by (bit_vector)
            requires k < 8;
    }
    assert(lsb =~= byte_bits(value).reverse());
    assert(lsb.reverse() =~= byte_bits(value));
    crate::bits::lemma_byte_bits_value(value);
}

} // verus!
