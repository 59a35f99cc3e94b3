use fang::packet::{
    crc, get_bho, get_cpu_boost, get_fan_rpm, get_gpu_boost, get_power_mode, kbd_effect, set_bho,
    set_brightness, set_cpu_boost, set_fan_rpm, set_gpu_boost, set_kbd_effect, set_logo_effect, set_logo_state,
    set_power_mode, status, Report, ReportError, Zone, ARGS_LEN, REPORT_LEN,
};

#[test]
fn power_mode_packet_bytes() {
    let buf = set_power_mode(Zone::Fan1, 1, false).to_feature_report();
    assert_eq!(buf.len(), REPORT_LEN);
    assert_eq!(buf[0], 0x00, "report number");
    assert_eq!(buf[1], 0x00, "status new");
    assert_eq!(buf[2], 0x1F, "transaction id");
    assert_eq!(&buf[3..6], &[0, 0, 0], "remaining + protocol");
    assert_eq!(buf[6], 0x04, "data size");
    assert_eq!(buf[7], 0x0d, "command class");
    assert_eq!(buf[8], 0x02, "command id");
    assert_eq!(&buf[9..13], &[0x00, 0x01, 0x01, 0x00], "args");
    assert!(buf[13..89].iter().all(|&b| b == 0));
    // 0x04 ^ 0x0d ^ 0x02 ^ 0x01 ^ 0x01
    assert_eq!(buf[89], 0x0B, "crc");
    assert_eq!(buf[90], 0x00, "reserved");
}

#[test]
fn fan_rpm_packet_bytes() {
    // 4400 RPM -> 44 = 0x2C
    let buf = set_fan_rpm(Zone::Fan1, 44).to_feature_report();
    assert_eq!(buf[6], 0x03);
    assert_eq!(buf[7], 0x0d);
    assert_eq!(buf[8], 0x01);
    assert_eq!(&buf[9..12], &[0x00, 0x01, 0x2C]);
    // 0x03 ^ 0x0d ^ 0x01 ^ 0x01 ^ 0x2C
    assert_eq!(buf[89], 0x22);
}

#[test]
fn cpu_boost_packet_bytes() {
    let buf = set_cpu_boost(2).to_feature_report();
    assert_eq!(buf[6], 0x03);
    assert_eq!(buf[7], 0x0d);
    assert_eq!(buf[8], 0x07);
    assert_eq!(&buf[9..12], &[0x00, 0x01, 0x02]);
    // 0x03 ^ 0x0d ^ 0x07 ^ 0x01 ^ 0x02
    assert_eq!(buf[89], 0x0A);
}

#[test]
fn get_commands_set_high_bit() {
    assert_eq!(get_power_mode(Zone::Fan2).command_id, 0x82);
    assert_eq!(get_fan_rpm(Zone::Fan1).command_id, 0x81);
    assert_eq!(get_cpu_boost().command_id, 0x87);
    assert_eq!(get_gpu_boost().command_id, 0x87);
    assert_eq!(get_bho().command_id, 0x92);
}

#[test]
fn lighting_packet_bytes() {
    let buf = set_brightness(153).to_feature_report();
    assert_eq!(&buf[6..9], &[0x03, 0x03, 0x03], "size/class/id");
    assert_eq!(&buf[9..12], &[0x01, 0x05, 153], "varstore/backlight/value");

    let buf = set_logo_state(true).to_feature_report();
    assert_eq!(&buf[6..9], &[0x03, 0x03, 0x00]);
    assert_eq!(&buf[9..12], &[0x01, 0x04, 0x01]);

    let buf = set_logo_effect(0x02).to_feature_report();
    assert_eq!(&buf[6..9], &[0x03, 0x03, 0x02]);
    assert_eq!(&buf[9..12], &[0x01, 0x04, 0x02]);

    // static razer green; full 80-byte payload like the reference
    let buf = set_kbd_effect(kbd_effect::STATIC, &[0x44, 0xD6, 0x2C]).to_feature_report();
    assert_eq!(buf[6], 80, "data size");
    assert_eq!(&buf[7..9], &[0x03, 0x0a]);
    assert_eq!(&buf[9..13], &[0x06, 0x44, 0xD6, 0x2C]);
    assert!(buf[13..89].iter().all(|&b| b == 0));
}

#[test]
fn bho_packet_bytes() {
    // enabled at 80% -> 0x80 | 80 = 0xD0
    let buf = set_bho(true, 80).to_feature_report();
    assert_eq!(buf[6], 0x01, "data size");
    assert_eq!(buf[7], 0x07, "command class");
    assert_eq!(buf[8], 0x12, "command id");
    assert_eq!(buf[9], 0xD0, "args[0]");
    assert!(buf[10..89].iter().all(|&b| b == 0));
    // 0x01 ^ 0x07 ^ 0x12 ^ 0xD0
    assert_eq!(buf[89], 0xC4, "crc");

    // disabled keeps the threshold in the low bits
    assert_eq!(set_bho(false, 65).args[0], 65);
    // threshold can never bleed into the enable bit
    assert_eq!(set_bho(false, 0xFF).args[0], 0x7F);
}

#[test]
fn response_roundtrip() {
    let req = get_fan_rpm(Zone::Fan1);
    let mut wire = req.to_feature_report();
    wire[1] = status::SUCCESS;
    wire[11] = 44; // EC echoes rpm/100 in args[2]
    wire[89] = crc(&wire);
    let resp = Report::response_from_feature_report(&req, &wire).unwrap();
    assert_eq!(resp.status, status::SUCCESS);
    assert!(resp.answers(&req));
    assert_eq!(resp.args[2], 44);
}

fn successful_response(request: &Report) -> [u8; REPORT_LEN] {
    let mut wire = request.to_feature_report();
    wire[1] = status::SUCCESS;
    wire
}

#[test]
fn response_rejects_short_and_oversized_reports() {
    let req = get_fan_rpm(Zone::Fan1);
    let wire = successful_response(&req);
    assert_eq!(
        Report::response_from_feature_report(&req, &wire[..REPORT_LEN - 1]),
        Err(ReportError::Length {
            actual: REPORT_LEN - 1
        })
    );
    let mut oversized = wire.to_vec();
    oversized.push(0);
    assert_eq!(
        Report::response_from_feature_report(&req, &oversized),
        Err(ReportError::Length {
            actual: REPORT_LEN + 1
        })
    );
}

#[test]
fn response_rejects_bad_crc() {
    let req = get_fan_rpm(Zone::Fan1);
    let mut wire = successful_response(&req);
    wire[11] = 44;
    let err = Report::response_from_feature_report(&req, &wire).unwrap_err();
    assert!(matches!(err, ReportError::Checksum { .. }));
}

#[test]
fn response_rejects_wrong_transaction_command_and_size() {
    let req = get_fan_rpm(Zone::Fan1);

    let mut wrong_transaction = successful_response(&req);
    wrong_transaction[2] ^= 1;
    wrong_transaction[89] = crc(&wrong_transaction);
    assert!(matches!(
        Report::response_from_feature_report(&req, &wrong_transaction),
        Err(ReportError::TransactionId { .. })
    ));

    let mut wrong_command = successful_response(&req);
    wrong_command[8] ^= 1;
    wrong_command[89] = crc(&wrong_command);
    assert!(matches!(
        Report::response_from_feature_report(&req, &wrong_command),
        Err(ReportError::Command { .. })
    ));

    let mut wrong_size = successful_response(&req);
    wrong_size[6] -= 1;
    wrong_size[89] = crc(&wrong_size);
    assert!(matches!(
        Report::response_from_feature_report(&req, &wrong_size),
        Err(ReportError::ResponseDataSize { .. })
    ));
}

#[test]
fn response_rejects_invalid_framing() {
    let req = get_fan_rpm(Zone::Fan1);

    let mut wrong_report_id = successful_response(&req);
    wrong_report_id[0] = 1;
    assert!(matches!(
        Report::response_from_feature_report(&req, &wrong_report_id),
        Err(ReportError::ReportId { .. })
    ));

    let mut packets_remaining = successful_response(&req);
    packets_remaining[4] = 1;
    packets_remaining[89] = crc(&packets_remaining);
    assert!(matches!(
        Report::response_from_feature_report(&req, &packets_remaining),
        Err(ReportError::RemainingPackets { .. })
    ));

    let mut wrong_protocol = successful_response(&req);
    wrong_protocol[5] = 1;
    wrong_protocol[89] = crc(&wrong_protocol);
    assert!(matches!(
        Report::response_from_feature_report(&req, &wrong_protocol),
        Err(ReportError::ProtocolType { .. })
    ));

    let mut oversized_data = successful_response(&req);
    oversized_data[6] = (ARGS_LEN + 1) as u8;
    oversized_data[89] = crc(&oversized_data);
    assert!(matches!(
        Report::response_from_feature_report(&req, &oversized_data),
        Err(ReportError::DataSize { .. })
    ));
}

#[test]
fn crc_uses_razer_payload_after_hid_and_transaction_headers() {
    let mut buf = set_cpu_boost(2).to_feature_report();
    let before = crc(&buf);
    buf[0] = 0xCC; // HID report number
    buf[1] = 0x02; // status
    buf[2] = 0xA5; // transaction ID
    buf[89] = 0xAA; // crc byte itself
    buf[90] = 0xBB; // reserved
    assert_eq!(crc(&buf), before);

    buf[88] ^= 1; // final argument is covered
    assert_ne!(crc(&buf), before);
}

#[test]
fn wire_roundtrip_reads_back_what_was_written() {
    let req = set_kbd_effect(kbd_effect::WAVE, &[0x01, 0x02]);
    let wire = req.to_feature_report();
    let back = Report::from_feature_report(&wire).unwrap();
    assert_eq!(back, req);
}

#[test]
fn echoed_request_answers_itself() {
    let req = get_cpu_boost();
    let resp = Report::response_from_feature_report(&req, &req.to_feature_report()).unwrap();
    assert!(resp.answers(&req));
    assert_eq!(resp.command_id, 0x87);
}

#[test]
fn single_byte_change_breaks_the_checksum() {
    let mut wire = set_gpu_boost(1).to_feature_report();
    wire[20] = 0x7F;
    let err = Report::from_feature_report(&wire).unwrap_err();
    assert!(matches!(err, ReportError::Checksum { .. }));
}

#[test]
fn report_errors_read_as_text() {
    assert_eq!(
        ReportError::Checksum { expected: 0x0b, actual: 0xff }.message(),
        "feature report CRC 0xff, expected 0x0b"
    );
    assert_eq!(
        ReportError::Command { expected_class: 0x0d, expected_id: 0x81, actual_class: 0x0d, actual_id: 0x80 }.message(),
        "response command 0x0d/0x80, expected 0x0d/0x81"
    );
    assert_eq!(
        ReportError::RemainingPackets { actual: 2 }.message(),
        "multi-packet response is unsupported (2 remaining)"
    );
    assert_eq!(ReportError::DataSize { actual: 81 }.message(), "feature report data size 81 exceeds 80");
}

#[test]
fn brightness_query_reads_the_keyboard_backlight() {
    let r = fang::packet::get_brightness();
    assert_eq!((r.command_class, r.command_id), (0x03, 0x83));
    assert_eq!(&r.args[0..2], &[0x01, 0x05]);
}
