use lib::ada_parser::{Answer, CmdWhich, FloatSource, FloatStore, ParseContext, ParseError, Route};
use lib::edl_parser::{EdlNext, EdlOutput, EdlParser, EdlStore, PromptCode};

fn ada_line(text: &str) -> ParseContext {
    let mut c = ParseContext::default();
    c.ser_inp_str = text.to_string();
    c
}

#[test]
fn ada_keywords_ignore_case_and_blanks() {
    assert_eq!(CmdWhich::from_keyword(" trg "), CmdWhich::Trg);
    assert_eq!(CmdWhich::from_keyword("Wen"), CmdWhich::Wen);
    assert_eq!(CmdWhich::from_keyword("xyz"), CmdWhich::Invalid);
    assert_eq!(CmdWhich::Pio.keyword(), Some("PIO"));
    assert_eq!(CmdWhich::Invalid.keyword(), None);
    assert_eq!(CmdWhich::Scl.sub_channel_offset(), Some(200));
    assert!(!CmdWhich::Trg.requires_parameter_on_set());
    assert!(CmdWhich::Val.requires_parameter_on_set());
}

#[test]
fn ada_request_selects_sub_channel_by_keyword() {
    let mut c = ada_line("0:VAL3?");
    assert_eq!(c.route(), Ok(Route::Get));
    assert_eq!(c.sub_ch, 3);
    assert!(c.verbose);
    let plan = c.parse_get_param().unwrap();
    assert_eq!(plan.answers.len(), 1);
    assert!(matches!(plan.answers[0], Answer::Float { sub_ch: 3, source: FloatSource::Channel(3) }));
}

#[test]
fn ada_lines_for_others_and_results_are_passed_on() {
    assert_eq!(ada_line("").route(), Ok(Route::Prompt));
    assert_eq!(ada_line("#1:3=5").route(), Ok(Route::Echo));
    assert_eq!(ada_line("2:VAL?").route(), Ok(Route::Echo));
    assert_eq!(ada_line("0:FOO?").route(), Err(ParseError::SyntaxErr));
}

#[test]
fn ada_checksum_is_checked() {
    // the number behind a keyword runs up to the first character above '9'
    let body = "0:VAL1?";
    let sum = body.bytes().fold(0u8, |a, b| a ^ b);
    assert_eq!(ada_line(&format!("{}${:02X}", body, sum)).route(), Ok(Route::Get));
    assert_eq!(ada_line(&format!("{}${:02X}", body, sum ^ 0x10)).route(), Err(ParseError::ChecksumErr));
}

#[test]
fn ada_write_enable_unlocks_one_setting() {
    assert_eq!(ada_line("0:SBD=25").route(), Err(ParseError::ParamErr));
    let mut c = ada_line("0:SBD0=25");
    assert!(matches!(c.route(), Ok(Route::Assign { has_param: true })));
    assert_eq!(c.sub_ch, 252);
    c.param_int = 25;
    c.param_byte = 25;
    assert_eq!(c.parse_set_param(), Err(ParseError::LockedErr));
    assert_eq!(c.ee_ser_baud_reg, 0);

    c.sub_ch = 250;
    c.param_int = 1;
    c.param_byte = 1;
    assert_eq!(c.parse_set_param(), Ok(FloatStore::Nothing));
    assert!(c.ee_unlocked);
    c.sub_ch = 252;
    c.param_int = 25;
    c.param_byte = 25;
    assert_eq!(c.parse_set_param(), Ok(FloatStore::Nothing));
    assert_eq!(c.ee_ser_baud_reg, 25);
    assert!(!c.ee_unlocked);
}

#[test]
fn ada_dac_settings_go_to_the_caller() {
    let mut c = ada_line("");
    c.sub_ch = 23;
    assert_eq!(c.parse_set_param(), Ok(FloatStore::DacValue(3)));
    c.sub_ch = 99;
    assert_eq!(c.parse_set_param(), Err(ParseError::ParamErr));
}

#[test]
fn ada_non_ascii_text_outside_words_is_read() {
    let mut c = ada_line("0:VAL3?\u{fc}");
    assert_eq!(c.route(), Ok(Route::Get));
    assert_eq!(c.sub_ch, 3);
    assert!(c.verbose);
}

#[test]
fn ada_word_with_non_ascii_is_a_syntax_error() {
    assert_eq!(ada_line("0:V\u{c4}L3?").route(), Err(ParseError::SyntaxErr));
    assert_eq!(ada_line("0:DSP1=\u{fc}").route(), Err(ParseError::SyntaxErr));
}

#[test]
fn ada_try_extract_refuses_unreadable_words() {
    let mut c = ada_line("  Gr\u{fc}\u{df}e 12");
    assert_eq!(c.try_extract(), None);
    assert_eq!(c.ser_inp_ptr, 0);
    assert_eq!(c.param_str, "");
    let mut d = ada_line("  12\u{fc}");
    assert_eq!(d.try_extract(), Some(true));
    assert_eq!(d.param_str, "12");
    assert_eq!(d.ser_inp_ptr, 4);
}

#[test]
fn ada_text_slot_takes_any_text() {
    let mut c = ada_line("0:DSP1=5 [Gr\u{fc}\u{df}e]");
    assert!(matches!(c.route(), Ok(Route::Assign { has_param: true })));
    assert_eq!(c.sub_ch, 81);
    c.param_int = 5;
    c.param_byte = 5;
    assert_eq!(c.parse_set_param(), Err(ParseError::LockedErr));
    c.ee_unlocked = true;
    assert_eq!(c.parse_set_param(), Ok(FloatStore::Nothing));
    assert_eq!(c.param_text_array[5], "Gr\u{fc}\u{df}e");
    assert!(!c.ee_unlocked);
}

#[test]
fn ada_settings_read_back() {
    let mut c = ada_line("0:OPT33=7 \u{f6}");
    c.param_text_array.clear();
    assert!(matches!(c.route(), Ok(Route::Assign { has_param: true })));
    assert_eq!(c.sub_ch, 183);
    c.param_int = 7;
    c.param_byte = 7;
    c.ee_unlocked = true;
    assert_eq!(c.parse_set_param(), Ok(FloatStore::Nothing));
    assert_eq!(c.port_init_array[3], 7);
    let plan = c.parse_get_param().unwrap();
    assert_eq!(plan.answers.len(), 1);
    assert!(matches!(plan.answers[0], Answer::Int { sub_ch: 183, value: 7 }));
}

fn edl_line(text: &str) -> EdlParser {
    let mut p = EdlParser::default();
    p.cmd_str_arr = vec!["STR", "IDN", "VAL", "ERC", "WEN", "SBD", "NOP"];
    p.cmd2_sub_ch_arr = vec![255, 254, 0, 251, 250, 252, 0];
    p.ser_inp_str = text.to_string();
    p
}

#[test]
fn edl_lines_route_to_request_or_setting() {
    let mut p = edl_line("0:ERC?");
    let (out, next) = p.route();
    assert_eq!(next, EdlNext::Stop);
    assert!(matches!(out[0], EdlOutput::Prompt(PromptCode::ParamErr)));
    let mut p = edl_line("0:ERC0?");
    let (out, next) = p.route();
    assert!(out.is_empty());
    assert_eq!(next, EdlNext::Get);
    assert_eq!(p.sub_ch, 251);
    let plan = p.parse_get_param();
    assert!(matches!(plan.outputs[0], EdlOutput::Int { sub_ch: 251, value: 0 }));

    let mut p = edl_line("0:VAL4=12");
    let (_, next) = p.route();
    assert_eq!(next, EdlNext::Assign);
    assert_eq!(p.sub_ch, 4);
    assert_eq!(p.param_str, "12");

    let mut p = edl_line("0:xyz?");
    let (out, next) = p.route();
    assert_eq!(next, EdlNext::Stop);
    assert!(matches!(out[0], EdlOutput::Prompt(PromptCode::SyntaxErr)));
}

#[test]
fn edl_sub_channel_beyond_i32_is_out_of_range() {
    let mut p = edl_line("0:ERC2147483647?");
    let (out, next) = p.route();
    assert!(out.is_empty());
    assert_eq!(next, EdlNext::OutOfRange);
    assert_eq!(p.sub_ch, 0);
    let mut p = edl_line("0:ERC2147483396?");
    let (_, next) = p.route();
    assert_eq!(next, EdlNext::Get);
    assert_eq!(p.sub_ch, i32::MAX);
}

#[test]
fn edl_write_enable_unlocks_one_setting() {
    let mut p = edl_line("");
    p.sub_ch = 252;
    p.param_int = 25;
    p.param_byte = 25;
    let plan = p.parse_set_param(true);
    assert!(matches!(plan.outputs[0], EdlOutput::Prompt(PromptCode::LockedErr)));
    p.sub_ch = 250;
    let plan = p.parse_set_param(true);
    assert_eq!(plan.store, EdlStore::Nothing);
    assert!(p.ee_unlocked);
    p.sub_ch = 252;
    p.parse_set_param(true);
    assert_eq!(p.ee_ser_baud_reg, 25);
    assert!(!p.ee_unlocked);
    p.busy_flag = true;
    let plan = p.parse_set_param(true);
    assert!(matches!(plan.outputs[0], EdlOutput::Prompt(PromptCode::BusyErr)));
}
