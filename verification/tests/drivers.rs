use lib::div_hw::{int2_trigger, on_sys_tick, DivAtmega32, DivHardwareState};
use lib::mp3control::{mp3_goto_track, mp3_off, mp3_on, Mp3ControlState, Mp3Event, Mp3Recorder, YI3_MID_VOLUME, YI3_MUTE, YI3_NO_LOOP, YI3_STOP};

fn player() -> Mp3Recorder {
    Mp3Recorder { log: Vec::new() }
}

/// The line levels that were driven.
fn levels(hw: &Mp3Recorder) -> Vec<bool> {
    hw.log.iter().filter_map(|e| if let Mp3Event::SerAux(h) = e { Some(*h) } else { None }).collect()
}

/// The millisecond pauses.
fn waits(hw: &Mp3Recorder) -> Vec<u16> {
    hw.log.iter().filter_map(|e| if let Mp3Event::MilliDelay(t) = e { Some(*t) } else { None }).collect()
}

/// Reads the bytes back from the line levels of UART frames.
fn decode(line: &[bool]) -> Vec<u8> {
    assert_eq!(line.len() % 10, 0);
    line.chunks(10)
        .map(|f| {
            assert!(!f[0], "start bit");
            assert!(f[9], "stop bit");
            (0..8).fold(0u8, |acc, i| acc | ((f[1 + i] as u8) << i))
        })
        .collect()
}

#[test]
fn player_commands_go_out_as_uart_frames() {
    let mut hw = player();
    let mut st = Mp3ControlState { track: 12, current_track: 0, db_correction: 3, is_on: false };
    mp3_on(&mut st, &mut hw);
    assert!(st.is_on);
    assert_eq!(decode(&levels(&hw)), vec![YI3_NO_LOOP, YI3_MID_VOLUME + 3, YI3_STOP]);
    assert_eq!(waits(&hw), vec![100]);
    assert_eq!(hw.log.last(), Some(&Mp3Event::SendShiftRegister));

    let mut hw = player();
    mp3_goto_track(&mut st, &mut hw);
    assert_eq!(st.current_track, 12);
    assert_eq!(decode(&levels(&hw)), vec![12, YI3_MID_VOLUME + 3]);
    assert_eq!(waits(&hw), vec![20]);

    let mut hw = player();
    mp3_off(&mut st, &mut hw);
    assert_eq!(decode(&levels(&hw)), vec![YI3_NO_LOOP, YI3_MUTE, YI3_STOP]);
    assert!(!st.is_on);
}

#[test]
fn volume_command_wraps() {
    let mut hw = player();
    let mut st = Mp3ControlState { track: 1, current_track: 0, db_correction: 0x60, is_on: true };
    mp3_goto_track(&mut st, &mut hw);
    assert_eq!(decode(&levels(&hw)), vec![1, YI3_MID_VOLUME.wrapping_add(0x60)]);
}

/// The converter board with the data line at `data_high` and every SPI
/// exchange answering `spi`.
fn board(data_high: bool, spi: u8) -> DivAtmega32 {
    let mut hw = DivAtmega32::default();
    hw.io.b.pin = if data_high { 0b0100_0000 } else { 0 };
    hw.io.spi_rx = spi;
    hw
}

#[test]
fn conversion_is_read_and_averaged() {
    // data line low: conversion done; sign bit low: negative input
    let mut st = DivHardwareState { ad24_integrate0: 100, ad24_integrate1: 8, ad24_integrate2: 8, ad24_integrate3: 8, ..Default::default() };
    let mut hw = board(false, 0x12);
    on_sys_tick(&mut st, &mut hw);
    assert!(st.negative_flag);
    assert!(!st.over_voltage_flag);
    assert_eq!(st.ad24_temp, 0xff12_1212);
    assert_eq!(st.ad24_temp_fast_integrated, ((0xff12_1212u64 + 100) / 2) as u32);
    assert_eq!(st.ad24_temp_slow_integrated, ((0xff12_1212u64 + 24) / 4) as u32);
    assert_eq!(st.ad24_integrate3, 8);
    assert!(st.ad24_ready && st.ad10_ready);
}

#[test]
fn busy_converter_is_left_alone_and_abort_cancels() {
    let mut st = DivHardwareState::default();
    let mut hw = board(true, 0x12);
    on_sys_tick(&mut st, &mut hw);
    assert!(!st.ad24_ready);
    assert!(st.ad10_ready);
    assert_eq!(st.ad24_temp, 0);

    let mut st = DivHardwareState { abort_flag: true, ..Default::default() };
    let mut hw = board(false, 0x12);
    on_sys_tick(&mut st, &mut hw);
    assert!(!st.abort_flag);
    assert_eq!(st.ad24_temp, 0);

    int2_trigger(&mut st);
    assert!(st.trigger);
}
