use duka::protocol::{
    build_packet, create_search_packet, create_set_mode_packet, create_set_speed_packet,
    create_status_packet, parse_response, DeviceMode, PacketFunction, PacketParameter,
};

/// Build a valid response buffer by constructing the payload then appending a correct checksum.
fn make_response(device_id: &str, password: &str, params: &[(u8, u8)]) -> Vec<u8> {
    let mut buf = vec![0xFD, 0xFD, 0x02];
    buf.push(device_id.len() as u8);
    buf.extend_from_slice(device_id.as_bytes());
    buf.push(password.len() as u8);
    buf.extend_from_slice(password.as_bytes());
    buf.push(PacketFunction::Response.code());
    for (param, value) in params {
        buf.push(*param);
        buf.push(*value);
    }
    let checksum: u16 = buf[2..].iter().map(|&b| b as u16).sum();
    buf.extend_from_slice(&checksum.to_le_bytes());
    buf
}

fn checksum_holds(packet: &[u8]) -> bool {
    let (payload, cs_bytes) = packet.split_at(packet.len() - 2);
    let expected: u16 = payload[2..].iter().fold(0u16, |a, &b| a.wrapping_add(b as u16));
    let actual = u16::from_le_bytes([cs_bytes[0], cs_bytes[1]]);
    expected == actual
}

#[test]
fn search_packet_starts_with_magic_bytes() {
    let packet = create_search_packet();
    assert_eq!(&packet[..2], &[0xFD, 0xFD]);
}

#[test]
fn search_packet_checksum_is_valid() {
    let packet = create_search_packet();
    let (payload, cs_bytes) = packet.split_at(packet.len() - 2);
    let expected: u16 = payload[2..].iter().map(|&b| b as u16).sum();
    let actual = u16::from_le_bytes([cs_bytes[0], cs_bytes[1]]);
    assert_eq!(expected, actual);
}

#[test]
fn status_packet_checksum_is_valid() {
    let packet = create_status_packet("dev-01", "1111");
    let (payload, cs_bytes) = packet.split_at(packet.len() - 2);
    let expected: u16 = payload[2..].iter().map(|&b| b as u16).sum();
    let actual = u16::from_le_bytes([cs_bytes[0], cs_bytes[1]]);
    assert_eq!(expected, actual);
}

#[test]
fn parse_response_decodes_fields_correctly() {
    let buf = make_response("dev-01", "1111", &[
        (PacketParameter::OnOff.code(), 0x01),
        (PacketParameter::Speed.code(), 42),
        (PacketParameter::ManualSpeed.code(), 10),
        (PacketParameter::CurrentHumidity.code(), 55),
        (PacketParameter::VentilationMode.code(), 0x01),
    ]);
    let status = parse_response(&buf, "dev-01".to_string()).expect("should parse");
    assert!(status.is_on);
    assert_eq!(status.speed, 42);
    assert_eq!(status.manual_speed, 10);
    assert_eq!(status.humidity, 55);
    assert_eq!(status.ventilation_mode, Some(DeviceMode::TwoWay));
}

#[test]
fn parse_response_rejects_bad_checksum() {
    let mut buf = make_response("dev-01", "1111", &[
        (PacketParameter::OnOff.code(), 0x01),
    ]);
    // corrupt the checksum
    let last = buf.len() - 1;
    buf[last] ^= 0xFF;
    assert!(parse_response(&buf, "dev-01".to_string()).is_none());
}

#[test]
fn parse_response_handles_device_off() {
    let buf = make_response("dev-01", "1111", &[
        (PacketParameter::OnOff.code(), 0x00),
    ]);
    let status = parse_response(&buf, "dev-01".to_string()).expect("should parse");
    assert!(!status.is_on);
}

#[test]
fn parse_response_returns_none_for_too_short_buf() {
    assert!(parse_response(&[0xFD, 0xFD], "dev-01".to_string()).is_none());
}

#[test]
fn search_packet_exact_bytes() {
    let packet = create_search_packet();
    let mut expected = vec![0xFD, 0xFD, 0x02, 16];
    expected.extend_from_slice(b"DEFAULT_DEVICEID");
    expected.extend_from_slice(&[0, 0x01, 0x7C]);
    let sum: u16 = expected[2..].iter().map(|&b| b as u16).sum();
    expected.extend_from_slice(&sum.to_le_bytes());
    assert_eq!(packet, expected);
}

#[test]
fn set_speed_packet_exact_bytes() {
    let packet = create_set_speed_packet("ab", "1111", 3);
    let mut expected = vec![0xFD, 0xFD, 0x02, 2, b'a', b'b', 4, b'1', b'1', b'1', b'1', 0x02, 0x02, 3];
    let sum: u16 = expected[2..].iter().map(|&b| b as u16).sum();
    expected.extend_from_slice(&sum.to_le_bytes());
    assert_eq!(packet, expected);
    // 2 + 2 + 97 + 98 + 4 + 4 * 49 + 2 + 2 + 3 = 406
    assert_eq!(&packet[packet.len() - 2..], &[406u16 as u8, (406u16 >> 8) as u8]);
}

#[test]
fn set_mode_packet_writes_mode_code() {
    let packet = create_set_mode_packet("ab", "", DeviceMode::In);
    assert_eq!(&packet[..8], &[0xFD, 0xFD, 0x02, 2, b'a', b'b', 0, 0x02]);
    assert_eq!(&packet[8..10], &[0xB7, 0x02]);
    assert!(checksum_holds(&packet));
}

#[test]
fn status_packet_asks_for_five_parameters() {
    let packet = create_status_packet("x", "p");
    assert_eq!(&packet[8..13], &[0x01, 0x02, 0x44, 0x25, 0xB7]);
    assert_eq!(packet.len(), 15);
}

#[test]
fn build_packet_checksum_wraps_modulo_16_bits() {
    let data = vec![0xFFu8; 300];
    let packet = build_packet("id", "pw", PacketFunction::Write, &data);
    assert!(checksum_holds(&packet));
    let exact: u32 = packet[2..packet.len() - 2].iter().map(|&b| b as u32).sum();
    assert!(exact > 0xFFFF);
    let expected = (exact % 0x10000) as u16;
    assert_eq!(u16::from_le_bytes([packet[packet.len() - 2], packet[packet.len() - 1]]), expected);
}

#[test]
fn build_packet_length_byte_is_length_modulo_256() {
    let long_id = "x".repeat(300);
    let packet = build_packet(&long_id, "", PacketFunction::Read, &[]);
    assert_eq!(packet[3], (300 % 256) as u8);
    assert_eq!(packet.len(), 2 + 1 + 1 + 300 + 1 + 1 + 2);
}

#[test]
fn response_built_by_build_packet_reads_back() {
    let data = [0x02, 3, 0x25, 61, 0x01, 1, 0xB7, 0x00];
    let packet = build_packet("unit-7", "1111", PacketFunction::Response, &data);
    let status = parse_response(&packet, "unit-7".to_string()).expect("should parse");
    assert_eq!(status.device_id, "unit-7");
    assert_eq!(status.speed, 3);
    assert_eq!(status.humidity, 61);
    assert!(status.is_on);
    assert_eq!(status.manual_speed, 0);
    assert_eq!(status.ventilation_mode, Some(DeviceMode::OneWay));
}

#[test]
fn parse_response_last_value_wins_and_unknown_mode_clears() {
    let buf = make_response("d", "", &[
        (0x02, 1),
        (0xB7, 0x02),
        (0x99, 7),
        (0x02, 2),
        (0xB7, 0x09),
    ]);
    let status = parse_response(&buf, "d".to_string()).expect("should parse");
    assert_eq!(status.speed, 2);
    assert_eq!(status.ventilation_mode, None);
    assert!(!status.is_on);
}

#[test]
fn parse_response_ignores_trailing_odd_byte() {
    let mut buf = make_response("d", "", &[(0x25, 40)]);
    let n = buf.len();
    buf.truncate(n - 2);
    buf.push(0x02);
    let sum: u16 = buf[2..].iter().map(|&b| b as u16).sum();
    buf.extend_from_slice(&sum.to_le_bytes());
    let status = parse_response(&buf, "d".to_string()).expect("should parse");
    assert_eq!(status.humidity, 40);
    assert_eq!(status.speed, 0);
}

#[test]
fn parse_response_rejects_header_running_past_end() {
    // identifier length byte announces more bytes than the packet holds
    let mut buf = vec![0xFD, 0xFD, 0x02, 50, b'a'];
    let sum: u16 = buf[2..].iter().map(|&b| b as u16).sum();
    buf.extend_from_slice(&sum.to_le_bytes());
    assert!(parse_response(&buf, "a".to_string()).is_none());
    // only the type byte before the checksum
    let buf = vec![0xFD, 0xFD, 0x02, 0x02, 0x00];
    assert!(parse_response(&buf, "a".to_string()).is_none());
}

#[test]
fn device_mode_try_from_codes() {
    assert_eq!(DeviceMode::try_from(0x00), Ok(DeviceMode::OneWay));
    assert_eq!(DeviceMode::try_from(0x01), Ok(DeviceMode::TwoWay));
    assert_eq!(DeviceMode::try_from(0x02), Ok(DeviceMode::In));
    assert_eq!(DeviceMode::try_from(0x03), Err(0x03));
    for m in [DeviceMode::OneWay, DeviceMode::TwoWay, DeviceMode::In] {
        assert_eq!(DeviceMode::try_from(m.code()), Ok(m));
    }
}

#[test]
fn packet_codes_match_wire_values() {
    assert_eq!(PacketFunction::Read.code(), 0x01);
    assert_eq!(PacketFunction::Response.code(), 0x06);
    assert_eq!(PacketParameter::Search.code(), 0x7C);
    assert_eq!(PacketParameter::UnitType.code(), 0xB9);
    assert_eq!(PacketParameter::Fan1Rpm.code(), 0x4A);
}
