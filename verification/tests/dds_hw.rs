use lib::dds_hw::{DdsAtmega32, DdsHardwareState, LevelDrive, Waveform, DDS_SINE_CMD};

#[test]
fn integer_tuning_word_matches_pascal_digit_sum() {
    assert_eq!(DdsHardwareState::dds_tuning_word_integer(10_000), 64_000);
    assert_eq!(DdsHardwareState::dds_tuning_word_integer(12_345_670), 79_012_288);
}

#[test]
fn tuning_word_is_split_into_ad9833_frequency_frames() {
    let frames = DdsHardwareState::dds_frequency_frames(0x0123_4567);
    assert_eq!(frames, [0x4567, 0x448d]);
}

/// The level words worked out in floating point from the
/// requested level and the calibration factors of its default state.
fn level_drive(dac_level: f32) -> LevelDrive {
    let attn_switch_point = 100.0_f32;
    let attn_fac = 40.0_f32;
    let level_scale_low = 1.0_f32;
    let level_scale_high = 1.0_f32;
    let pwr_gain = 2.0_f32;
    LevelDrive {
        attenuated: dac_level < attn_switch_point,
        attenuated_level: (dac_level * attn_fac * level_scale_low).round() as i16,
        direct_level: (dac_level * level_scale_high).round() as i16,
        logic_offset_mv: (dac_level * pwr_gain * 1.414_21).round() as i32,
    }
}

#[test]
fn set_level_dds_runs_without_touching_other_state_files() {
    let mut state = DdsHardwareState { frequency_tenths_hz: 10_000, ..Default::default() };
    let mut io = DdsAtmega32::default();
    state.set_level_dds(&mut io, Waveform::Sine, level_drive(80.0));
    assert_eq!(state.dds_frequency_word, 64_000);
}

#[test]
fn set_level_dds_behind_attenuator_sets_relays_and_level() {
    let mut state = DdsHardwareState { frequency_tenths_hz: 10_000, ..Default::default() };
    let mut io = DdsAtmega32::default();
    state.set_level_dds(&mut io, Waveform::Sine, level_drive(80.0));
    // offset relay (bit 7) for no offset, attenuator relay (bit 5)
    assert_eq!(state.switch_state, 0b1010_0000);
    assert!(!state.level_range);
    assert_eq!(state.wave_cmd, DDS_SINE_CMD);
    assert_eq!(state.dss_cmd, DDS_SINE_CMD);
    // level word 3200 = 0x0c80, high byte shares the relay byte
    assert_eq!(state.level_byte_hi, 0x0c | 0b1010_0000);
    assert_eq!(state.level_byte_lo, 0x80);
}

#[test]
fn set_level_dds_direct_range_takes_direct_level() {
    let mut state = DdsHardwareState { frequency_tenths_hz: 12_345_670, ..Default::default() };
    let mut io = DdsAtmega32::default();
    state.set_level_dds(&mut io, Waveform::Sine, level_drive(500.0));
    assert_eq!(state.switch_state, 0b1000_0000);
    assert!(state.level_range);
    assert_eq!(state.level_byte_lo, (500u16 & 0xff) as u8);
    assert_eq!(state.dds_frequency_word, 79_012_288);
}

#[test]
fn tuning_word_scales_frequency_digitwise() {
    // 64 * (f / 10) + 6 * (f % 10)
    assert_eq!(DdsHardwareState::dds_tuning_word_integer(99_999_999), 639_999_990);
    assert_eq!(DdsHardwareState::dds_tuning_word_integer(7), 42);
    assert_eq!(DdsHardwareState::dds_tuning_word_integer(0), 0);
    // negative frequencies count as zero
    assert_eq!(DdsHardwareState::dds_tuning_word_integer(-5), 0);
}

#[test]
fn frequency_frames_reassemble_to_tuning_word() {
    let tw: u32 = 0x0abc_def1;
    let [lo, hi] = DdsHardwareState::dds_frequency_frames(tw);
    assert_eq!(lo & 0xc000, 0x4000);
    assert_eq!(hi & 0xc000, 0x4000);
    assert_eq!(((hi as u32 & 0x3fff) << 14) | (lo as u32 & 0x3fff), tw & 0x0fff_ffff);
    assert_eq!(DdsHardwareState::dds_frequency_frames(0x0fff_ffff), [0x7fff, 0x7fff]);
}

#[test]
fn sqg_variant_sets_only_attenuator_and_given_tuning_word() {
    let mut state = DdsHardwareState::default();
    let mut io = DdsAtmega32::default();
    state.set_level_dds_sqg(&mut io, Waveform::Square, true, 134_218);
    assert_eq!(state.switch_state, 0b0010_0000);
    assert_eq!(state.dds_frequency_word, 134_218);
    assert_eq!(state.level_byte_lo, 0);
}
