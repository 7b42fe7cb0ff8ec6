use lib::dds_sqg::{
    cmd_to_index, parse_extract, route_line, CmdWhich, ErrorCode, SqgRoute, StatusFlags, C_DDS_RESET_CMD,
    C_DDS_SQUARE_CMD, C_SQUW,
};
use lib::sqg_firmware::{FirmwareState, LineBuffer, SetOutcome, SqgReply, SqgStep};

#[test]
fn set_level_dds_emits_three_dds_words() {
    let mut state = FirmwareState::default();
    state.frequenz = 10_000;
    state.wave = C_SQUW;
    // the level of the default state (5000) is above the switch point (1001)
    let words = state.set_level_dds(5_000.0_f64 < 1_001.0_f64, 13_421);
    assert_eq!(words.len(), 3);
    assert_eq!(words[2], C_DDS_SQUARE_CMD);
}

#[test]
fn parse_get_param_returns_version() {
    let mut state = FirmwareState::default();
    state.sub_ch = 254;
    assert_eq!(state.parse_get_param(), SqgReply::Version);
}

#[test]
fn frequency_words_split_tuning_word() {
    let mut state = FirmwareState::default();
    let words = state.set_level_dds(true, 0x0123_4567);
    assert_eq!(words, [0x4567, 0x448d, C_DDS_SQUARE_CMD]);
    assert_eq!(state.switch_state, 0b0010_0000);
    assert_eq!(state.dss_cmd, C_DDS_SQUARE_CMD);
    state.wave = 7;
    let words = state.set_level_dds(false, 0);
    assert_eq!(words[2], C_DDS_RESET_CMD);
    assert_eq!(state.switch_state, 0);
}

#[test]
fn keywords_are_found_without_case() {
    assert_eq!(cmd_to_index("FRQ"), CmdWhich::Frq);
    assert_eq!(cmd_to_index("frq"), CmdWhich::Frq);
    assert_eq!(cmd_to_index("DbU"), CmdWhich::Dbv);
    assert_eq!(cmd_to_index("nop"), CmdWhich::Nop);
    assert_eq!(cmd_to_index("XYZ"), CmdWhich::Invalid);
}

#[test]
fn tokens_are_numbers_or_words() {
    assert_eq!(parse_extract("  12:FRQ=1000", 0), ("12".to_string(), 4, true));
    assert_eq!(parse_extract("  12:FRQ=1000", 5), ("FRQ".to_string(), 8, false));
    assert_eq!(parse_extract("0:1=-2.5x", 4), ("-2.5".to_string(), 8, true));
    assert_eq!(parse_extract("   ", 0), (String::new(), 3, false));
}

#[test]
fn tokens_stop_at_characters_outside_ascii() {
    assert_eq!(parse_extract("12\u{e4}:FRQ", 0), ("12".to_string(), 2, true));
    assert_eq!(parse_extract("x \u{e4}FRQ", 2), (String::new(), 2, false));
    assert_eq!(parse_extract("\u{e4} FRQ=5", 3), ("FRQ".to_string(), 6, false));
    assert_eq!(parse_extract("ab", 9), (String::new(), 9, false));
}

#[test]
fn lines_are_routed() {
    let o = route_line("", 0, 0, 0, false);
    assert_eq!(o.route, SqgRoute::Prompt);
    let o = route_line("#1:0=5", 0, 0, 0, false);
    assert_eq!(o.route, SqgRoute::Echo);
    // a request for the version, by keyword
    let o = route_line("0:IDN?", 0, 255, 0, false);
    assert_eq!(o.route, SqgRoute::Get);
    assert_eq!(o.sub_ch, 254);
    assert_eq!(o.current_ch, 0);
    assert!(o.verbose);
    assert!(o.led);
    // keyword with a number added to its offset
    let o = route_line("0:LVL3?", 0, 255, 0, false);
    assert_eq!(o.sub_ch, 4);
    // a setting by number
    let o = route_line("0:5=12", 0, 255, 0, false);
    assert_eq!(o.route, SqgRoute::Assign { start: 4, end: 6 });
    assert_eq!(o.sub_ch, 5);
    assert!(!o.verbose);
    // another module's line is passed on
    let o = route_line("3:0?", 0, 255, 0, false);
    assert_eq!(o.route, SqgRoute::Echo);
    assert_eq!(o.current_ch, 3);
    // a line for all modules is echoed and read
    let o = route_line("*:0?", 0, 255, 0, false);
    assert!(o.echo_first);
    assert_eq!(o.route, SqgRoute::Get);
    // unknown keyword, setting without number
    assert_eq!(route_line("0:XYZ", 0, 0, 0, false).route, SqgRoute::Failed(ErrorCode::SyntaxErr));
    assert_eq!(route_line("0:1=abc", 0, 0, 0, false).route, SqgRoute::Failed(ErrorCode::ParamErr));
    // sub-channel offset plus number saturates
    assert_eq!(route_line("0:STR9?", 0, 0, 0, false).sub_ch, 255);
}

#[test]
fn checksums_are_checked() {
    let body = "0:254?";
    let sum = body.bytes().fold(0u8, |a, b| a ^ b);
    let good = format!("{}${:02X}", body, sum);
    let bad = format!("{}${:02X}", body, sum ^ 1);
    assert_eq!(route_line(&good, 0, 0, 0, false).route, SqgRoute::Get);
    assert_eq!(route_line(&bad, 0, 0, 0, false).route, SqgRoute::Failed(ErrorCode::ChecksumErr));
    // a short checksum counts as 00
    let zero = "$";
    assert_eq!(route_line(zero, 0, 0, 0, false).route, SqgRoute::Get);
}

#[test]
fn requests_answer_from_state() {
    let mut s = FirmwareState::default();
    s.sub_ch = 0;
    assert_eq!(s.parse_get_param(), SqgReply::Tenths(10_000));
    s.sub_ch = 4;
    assert_eq!(s.parse_get_param(), SqgReply::Byte(3));
    s.sub_ch = 80;
    assert_eq!(s.parse_get_param(), SqgReply::Byte(1));
    s.sub_ch = 252;
    assert_eq!(s.parse_get_param(), SqgReply::Byte(51));
    s.sub_ch = 20;
    assert_eq!(s.parse_get_param(), SqgReply::Millivolts(0));
    assert_eq!(s.nachkomma, 4);
    s.sub_ch = 99;
    assert_eq!(s.parse_get_param(), SqgReply::Prompt { err: ErrorCode::ParamErr, shown: Some(5) });
    assert_eq!(s.err_count, 1);
    assert_eq!(s.sub_ch, 255);
    s.status = StatusFlags { busy: true, user_srq: false, overload: false, ee_unlocked: true };
    s.verbose = true;
    assert_eq!(s.parse_get_param(), SqgReply::Prompt { err: ErrorCode::NoErr, shown: Some(0x90) });
}

#[test]
fn settings_store_clamp_and_lock() {
    let mut s = FirmwareState::default();
    s.sub_ch = 0;
    assert_eq!(
        s.parse_set_param(0, 0, 200_000_000),
        SetOutcome::Applied { store_level: false, err: ErrorCode::ParamErr, shown: Some(5) }
    );
    assert_eq!(s.frequenz, 100_000_000);
    // EEPROM values need write enable, which lasts one setting
    s.sub_ch = 252;
    assert_eq!(s.parse_set_param(0, 25, 0), SetOutcome::Refused { err: ErrorCode::LockedErr, shown: Some(6) });
    s.sub_ch = 250;
    assert!(matches!(s.parse_set_param(1, 1, 10), SetOutcome::Applied { err: ErrorCode::NoErr, .. }));
    assert!(s.status.ee_unlocked);
    s.sub_ch = 252;
    assert!(matches!(s.parse_set_param(25, 25, 250), SetOutcome::Applied { .. }));
    assert_eq!(s.defaults.ee_ser_baud_reg, 25);
    assert!(!s.status.ee_unlocked);
    // level goes to the caller, menu numbers above 4 are refused
    s.sub_ch = 1;
    assert!(matches!(s.parse_set_param(2, 2, 25), SetOutcome::Applied { store_level: true, .. }));
    s.sub_ch = 80;
    assert!(matches!(s.parse_set_param(9, 9, 90), SetOutcome::Refused { err: ErrorCode::ParamErr, .. }));
    // busy refuses
    s.status.busy = true;
    s.sub_ch = 4;
    assert!(matches!(s.parse_set_param(1, 1, 10), SetOutcome::Refused { err: ErrorCode::BusyErr, .. }));
    assert_eq!(s.wave, C_SQUW);
}

#[test]
fn burst_runs_one_tick_in_a_cycle() {
    let mut s = FirmwareState::default();
    assert_eq!(s.on_systick(), None);
    s.burst_mode = 3;
    s.burst_count = 0;
    s.wave_cmd = C_DDS_SQUARE_CMD;
    let mut sent = Vec::new();
    for _ in 0..8 {
        sent.push(s.on_systick());
        assert!(s.burst_count <= s.burst_mode);
    }
    assert_eq!(
        sent,
        vec![Some(C_DDS_RESET_CMD), None, None, Some(C_DDS_SQUARE_CMD), Some(C_DDS_RESET_CMD), None, None, Some(C_DDS_SQUARE_CMD)]
    );
}

#[test]
fn limits_settle() {
    let mut s = FirmwareState::default();
    s.frequenz = -3;
    s.wave = 9;
    s.terz_num = 40;
    s.burst_mode = 200;
    assert!(s.check_limits());
    assert_eq!((s.frequenz, s.wave, s.terz_num, s.burst_mode), (0, 3, 30, 100));
    assert!(!s.check_limits());
    s.frequenz = 100_000_001;
    assert!(!s.check_limits());
}

#[test]
fn lines_drive_the_state() {
    let mut s = FirmwareState::default();
    let a = s.parse_sub_ch("0:WAV=2");
    assert_eq!(a.step, SqgStep::Assign { start: 6, end: 7 });
    assert_eq!(s.sub_ch, 4);
    let a = s.parse_sub_ch("");
    assert_eq!(a.step, SqgStep::Reply(SqgReply::Prompt { err: ErrorCode::NoErr, shown: None }));
    let a = s.parse_sub_ch("0:XYZ");
    assert_eq!(a.step, SqgStep::Reply(SqgReply::Prompt { err: ErrorCode::SyntaxErr, shown: Some(4) }));
    assert_eq!(s.err_count, 1);
    let a = s.parse_sub_ch("0:BST?");
    assert_eq!(a.step, SqgStep::Reply(SqgReply::Byte(0)));
}

#[test]
fn line_buffer_keeps_printable_text() {
    let mut b = LineBuffer::new();
    for c in "0:FRX".chars() {
        assert!(!b.accept_char(c));
    }
    assert!(!b.accept_char('\u{8}'));
    assert!(!b.accept_char('Q'));
    assert!(!b.accept_char('\u{7}'));
    assert!(!b.accept_char('\u{e9}'));
    assert!(b.accept_char('\r'));
    assert_eq!(b.text, "0:FRQ");
    let mut e = LineBuffer::new();
    e.accept_char('\u{8}');
    assert_eq!(e.text, "");
}

#[test]
fn init_restores_eeprom_settings() {
    let mut s = FirmwareState::default();
    s.frequenz = 5;
    s.err_count = 9;
    s.burst_count = 0;
    s.init_all();
    assert_eq!(s.frequenz, 10_000);
    assert_eq!(s.err_count, 0);
    assert_eq!(s.burst_count, 1);
    assert_eq!(s.sub_ch, 254);
    assert_eq!(s.current_ch, 255);
}
