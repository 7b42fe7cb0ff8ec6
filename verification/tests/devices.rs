use lib::ada::{
    checked_baud_reg, dac_raw_code, trigger_scan_channels, AdaIoEvent, AdaRecorder, DacCoding, DigitalPorts, Features,
};
use lib::dds::{cmd2_index, frequency_tuning_word, parse_extract, CmdWhich, RuntimeStatus};
use lib::div::DivRange;
use lib::ada::{channel_of, AdaChannel, ErrorCode, PromptState};

#[test]
fn dds_keywords_need_exact_case() {
    assert_eq!(cmd2_index("FRQ"), CmdWhich::Frq);
    assert_eq!(cmd2_index("DCO"), CmdWhich::Ofs);
    assert_eq!(cmd2_index("NOP"), CmdWhich::Nop);
    assert_eq!(cmd2_index("frq"), CmdWhich::Invalid);
    assert_eq!(cmd2_index(""), CmdWhich::Invalid);
}

#[test]
fn dds_lines_split_at_first_equals() {
    assert_eq!(parse_extract("  LVL=1.5=2 "), (CmdWhich::Lvl, Some("1.5=2".to_string())));
    assert_eq!(parse_extract("WAV"), (CmdWhich::Wav, None));
    assert_eq!(parse_extract("BST="), (CmdWhich::Bst, Some(String::new())));
    assert_eq!(parse_extract("xx=1"), (CmdWhich::Invalid, Some("1".to_string())));
}

#[test]
fn dds_tuning_word_is_64_per_hz() {
    assert_eq!(frequency_tuning_word(1_000), 64_000);
    assert_eq!(frequency_tuning_word(12_500_000), 800_000_000);
    assert_eq!(frequency_tuning_word(0x0400_0001), 64);
}

#[test]
fn status_byte_packs_flags() {
    let s = RuntimeStatus { error_low_nibble: 0x15, ee_unlocked: true, overload_flag: false, user_srq_flag: true, busy_flag: true };
    assert_eq!(s.as_byte(), 0x05 | 0x10 | 0x40 | 0x80);
    assert_eq!(RuntimeStatus::default().as_byte(), 0);
    let d = lib::dcg::RuntimeStatus { error_low_nibble: 9, ee_unlocked: false, overload_flag: true, user_srq_flag: false, busy_flag: false };
    assert_eq!(d.as_byte(), 0x29);
}

#[test]
fn div_ranges_know_ac_and_label() {
    assert!(!DivRange::Dc250mV.is_ac());
    assert!(DivRange::Ac250V.is_ac());
    assert!(!DivRange::Dc10A.is_ac());
    assert!(DivRange::Ac25mA.is_ac());
    assert_eq!(DivRange::Dc2A5.number(), 10);
    assert_eq!(DivRange::Ac2V5.label(), "AC  2.5V");
}

#[test]
fn ada_dac_codes_clamp_and_invert() {
    assert_eq!(dac_raw_code(DacCoding::Ltc1655, 100, -40), 0x8000 - 60);
    assert_eq!(dac_raw_code(DacCoding::Ltc1655, 40_000, 0), 0x8000 - 32767);
    assert_eq!(dac_raw_code(DacCoding::Ltc1257, 5_000, 0), 0x0800 - 2047);
    assert_eq!(dac_raw_code(DacCoding::Ltc1257, -5_000, 0), 0x0800 + 2047);
    assert_eq!(dac_raw_code(DacCoding::Dac714, -5, 0), 0xfffb);
    assert_eq!(dac_raw_code(DacCoding::Dac714, 70_000, 1), 32767);
}

#[test]
fn ada_baud_register_falls_back() {
    assert_eq!(checked_baud_reg(25), 25);
    assert_eq!(checked_baud_reg(9), 9);
    assert_eq!(checked_baud_reg(239), 239);
    assert_eq!(checked_baud_reg(8), 51);
    assert_eq!(checked_baud_reg(240), 51);
}

#[test]
fn ada_features_list_cards() {
    let f = Features { dac12_present: true, dac16_present: false, dac714_present: true, adc16_present: false, io_present: false, lcd_present: true };
    assert_eq!(f.write_features(), "[DA12 DA16 LCD ]");
    let none = Features { dac12_present: false, dac16_present: false, dac714_present: false, adc16_present: false, io_present: false, lcd_present: false };
    assert_eq!(none.write_features(), "[]");
}

#[test]
fn ada_trigger_scan_goes_from_high_bit_down() {
    assert_eq!(
        trigger_scan_channels([0b1000_0001, 0, 0xff, 0b0000_0010]),
        vec![(7, false), (0, false), (31, true)]
    );
    assert_eq!(trigger_scan_channels([0, 0b0100_0000, 0, 0]), vec![(16, false)]);
    assert!(trigger_scan_channels([0, 0, 0xff, 0]).is_empty());
}

fn ports(io_present: bool) -> DigitalPorts<AdaRecorder> {
    DigitalPorts {
        hw: AdaRecorder {
            log: Vec::new(),
            adc_value: 0,
            pin_value: 0x5a,
            expander_found: io_present,
            sense: false,
            slave_channel: 0,
            twi_ack: true,
        },
        port_array: [0; 8],
        io_pin_cache: [0; 8],
        dir_init_array: [0; 8],
        io_present,
        i2c_slave_adr: 0x48,
        param_int: 0,
    }
}

#[test]
fn ada_ports_use_expanders_or_shift_registers() {
    let mut p = ports(true);
    p.set_port(2, 0xa5);
    assert_eq!(p.port_array[2], 0xa5);
    assert_eq!(p.get_port(2), 0x5a);
    assert_eq!(p.io_pin_cache[2], 0x5a);
    p.set_dir(3, 0x0f);
    assert_eq!(
        p.hw.log,
        vec![AdaIoEvent::Twi(0x3a, 0x01a5), AdaIoEvent::ReadPin(2), AdaIoEvent::WriteDir(3, 0x0f)]
    );

    let mut q = ports(false);
    q.set_port(1, 7);
    assert_eq!(q.get_port(1), 7);
    q.set_dir(0, 1);
    assert_eq!(q.hw.log, vec![AdaIoEvent::ShiftOut([0, 7, 0, 0, 0, 0, 0, 0])]);
    assert_eq!(q.dir_init_array[0], 1);
}

#[test]
fn ada_ports_are_set_up_in_order() {
    let mut p = ports(true);
    p.dir_init_array = [1, 2, 3, 4, 5, 6, 7, 8];
    p.init_ports([10, 11, 12, 13, 14, 15, 16, 17]);
    assert!(p.io_present);
    assert_eq!(p.port_array, [10, 11, 12, 13, 14, 15, 16, 17]);
    assert_eq!(p.hw.log.len(), 1 + 3 * 8);
    assert_eq!(p.hw.log[0], AdaIoEvent::DetectExpander);
    assert_eq!(p.hw.log[1], AdaIoEvent::WriteDir(0, 1));
    assert_eq!(p.hw.log[2], AdaIoEvent::Twi(0x38, 0x010a));
    assert_eq!(p.hw.log[3], AdaIoEvent::Twi(0x38, 0x0200));
    assert_eq!(p.hw.log[24], AdaIoEvent::Twi(0x3f, 0x0200));

    let mut q = ports(false);
    q.port_array = [9; 8];
    q.init_ports([1, 2, 3, 4, 5, 6, 7, 8]);
    assert!(!q.io_present);
    assert_eq!(q.hw.log.len(), 1 + 8);
    assert_eq!(q.hw.log[1], AdaIoEvent::ShiftOut([1, 9, 9, 9, 9, 9, 9, 9]));
    assert_eq!(q.hw.log[8], AdaIoEvent::ShiftOut([1, 2, 3, 4, 5, 6, 7, 8]));
}

#[test]
fn ada_sub_channels_map_to_channels() {
    assert_eq!(channel_of(0), AdaChannel::Adc10(0));
    assert_eq!(channel_of(17), AdaChannel::Ad16(7));
    assert_eq!(channel_of(8), AdaChannel::Other);
    assert_eq!(channel_of(23), AdaChannel::Dac(3));
    assert_eq!(channel_of(30), AdaChannel::Port(0));
    assert_eq!(channel_of(47), AdaChannel::Dir(7));
    assert_eq!(channel_of(48), AdaChannel::Other);
}

#[test]
fn ada_prompt_counts_errors() {
    let mut p = PromptState { verbose: false, sub_ch: 3, err_count: 0, err_flag: false };
    assert_eq!(p.ser_prompt(ErrorCode::NoErr, 0x10), None);
    assert_eq!(p.sub_ch, 3);
    assert_eq!(p.ser_prompt(ErrorCode::ParamErr, 0x10), Some(0x15));
    assert_eq!((p.sub_ch, p.err_count, p.err_flag), (255, 1, true));
    p.verbose = true;
    p.sub_ch = 4;
    assert_eq!(p.ser_prompt(ErrorCode::NoErr, 0x80), Some(0x80));
    assert_eq!((p.sub_ch, p.err_count), (255, 1));
}
