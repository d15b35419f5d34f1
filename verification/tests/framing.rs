use awaitbalance::codec::{
    read_i16_le, read_i32_le, read_u16_le, read_u32_le, u16_to_le_bytes, u32_to_be_bytes,
    u32_to_le_bytes,
};
use awaitbalance::imu::interface::{
    Channel, Quaternion, ReportID, SHTPHeader, SetFeatureReport, CARGO_HEADER_SIZE,
    SET_FEATURE_REPORT_SIZE,
};

#[test]
fn reads_little_endian_numbers() {
    assert_eq!(read_u16_le(0x34, 0x12), 0x1234);
    assert_eq!(read_i16_le(0xff, 0xff), -1);
    assert_eq!(read_i16_le(0x00, 0x80), i16::MIN);
    assert_eq!(read_i16_le(0xff, 0x7f), i16::MAX);
    assert_eq!(read_u32_le(0x78, 0x56, 0x34, 0x12), 0x1234_5678);
    assert_eq!(read_i32_le(0xfe, 0xff, 0xff, 0xff), -2);
    assert_eq!(read_i32_le(0x00, 0x00, 0x00, 0x80), i32::MIN);
}

#[test]
fn writes_numbers_in_byte_order() {
    assert_eq!(u16_to_le_bytes(0x1234), [0x34, 0x12]);
    assert_eq!(u32_to_le_bytes(0x1234_5678), [0x78, 0x56, 0x34, 0x12]);
    assert_eq!(u32_to_be_bytes(0x1234_5678), [0x12, 0x34, 0x56, 0x78]);
}

#[test]
fn channel_numbers() {
    assert_eq!(Channel::from_u8(0), Channel::SHTPCommand);
    assert_eq!(Channel::from_u8(1), Channel::Device);
    assert_eq!(Channel::from_u8(2), Channel::Control);
    assert_eq!(Channel::from_u8(3), Channel::InputNormal);
    assert_eq!(Channel::from_u8(4), Channel::InputWake);
    assert_eq!(Channel::from_u8(5), Channel::InputGyroRv);
    assert_eq!(Channel::from_u8(6), Channel::Undefined);
    assert_eq!(Channel::from_u8(255), Channel::Undefined);
    assert_eq!(Channel::Control.to_u8(), 2);
    assert_eq!(Channel::Undefined.to_u8(), 255);
    assert_eq!(Channel::default(), Channel::Undefined);
}

#[test]
fn channel_number_roundtrip() {
    let all = [
        Channel::SHTPCommand,
        Channel::Device,
        Channel::Control,
        Channel::InputNormal,
        Channel::InputWake,
        Channel::InputGyroRv,
        Channel::Undefined,
    ];
    for c in all {
        assert_eq!(Channel::from_u8(c.to_u8()), c);
    }
}

#[test]
fn report_id_numbers() {
    assert_eq!(ReportID::from_u8(0x05), ReportID::RotationVector);
    assert_eq!(ReportID::from_u8(0xF1), ReportID::CommandResponse);
    assert_eq!(ReportID::from_u8(0xFB), ReportID::BaseTimestamp);
    assert_eq!(ReportID::from_u8(0xFC), ReportID::GetFeature);
    assert_eq!(ReportID::from_u8(0xFD), ReportID::SetFeature);
    assert_eq!(ReportID::from_u8(0x06), ReportID::Undefined);
    let all = [
        ReportID::RotationVector,
        ReportID::CommandResponse,
        ReportID::BaseTimestamp,
        ReportID::GetFeature,
        ReportID::SetFeature,
        ReportID::Undefined,
    ];
    for r in all {
        assert_eq!(ReportID::from_u8(r.to_u8()), r);
    }
    assert_eq!(ReportID::Undefined.to_u8(), 0xFF);
}

#[test]
fn header_from_bytes() {
    let h = SHTPHeader::from_byte_array(&[0x15, 0x00, 0x02, 0x07, 0xAA]);
    assert_eq!(h, SHTPHeader { cargo_len: 21, channel: Channel::Control, seq_num: 7 });
}

#[test]
fn header_drops_continuation_bit() {
    let h = SHTPHeader::from_byte_array(&[0x34, 0x92, 0x03, 0xFF]);
    assert_eq!(h.cargo_len, 0x1234);
    assert_eq!(h.channel, Channel::InputNormal);
    assert_eq!(h.seq_num, 255);
}

#[test]
fn header_unknown_channel() {
    let h = SHTPHeader::from_byte_array(&[0x04, 0x00, 0x09, 0x00]);
    assert_eq!(h.channel, Channel::Undefined);
    assert_eq!(h, SHTPHeader { cargo_len: 4, ..SHTPHeader::default() });
}

#[test]
fn header_to_bytes_keeps_the_rest() {
    let mut buf = [0xEEu8; 6];
    let h = SHTPHeader { cargo_len: 0x0123, channel: Channel::Device, seq_num: 200 };
    h.write_to_byte_array(&mut buf);
    assert_eq!(buf, [0x23, 0x01, 0x01, 200, 0xEE, 0xEE]);
}

#[test]
fn header_to_bytes_truncates() {
    let mut buf = [0u8; CARGO_HEADER_SIZE];
    let h = SHTPHeader { cargo_len: 0x1_0005, channel: Channel::Undefined, seq_num: 300 };
    h.write_to_byte_array(&mut buf);
    assert_eq!(buf, [0x05, 0x00, 0xFF, 44]);
}

#[test]
fn header_roundtrip() {
    for (len, ch, seq) in [(0usize, 0u8, 0usize), (21, 2, 7), (0x7FFF, 5, 255), (300, 255, 128)] {
        let h = SHTPHeader { cargo_len: len, channel: Channel::from_u8(ch), seq_num: seq };
        let mut buf = [0u8; 4];
        h.write_to_byte_array(&mut buf);
        assert_eq!(SHTPHeader::from_byte_array(&buf), h);
    }
}

#[test]
fn header_rewrite_clears_continuation_bit() {
    let stored = [0x10u8, 0x81, 0x03, 0x42];
    let mut buf = [0u8; 4];
    SHTPHeader::from_byte_array(&stored).write_to_byte_array(&mut buf);
    assert_eq!(buf, [0x10, 0x01, 0x03, 0x42]);
}

#[test]
fn set_feature_report_layout() {
    let report = SetFeatureReport {
        report_id: ReportID::SetFeature,
        feature_report_id: ReportID::RotationVector,
        feature_flags: 0x0A,
        change_sensitivy: 0x0102,
        report_interval: 2_500,
        batch_interval: 0x0A0B_0C0D,
        misc_config: 0x1122_3344,
    };
    let mut buf = [0x99u8; SET_FEATURE_REPORT_SIZE + 1];
    report.write_to_byte_array(&mut buf);
    assert_eq!(
        buf,
        [
            0xFD, 0x05, 0x0A, 0x02, 0x01, 0xC4, 0x09, 0x00, 0x00, 0x0A, 0x0B, 0x0C, 0x0D, 0x44,
            0x33, 0x22, 0x11, 0x99
        ]
    );
}

#[test]
fn quaternion_from_bytes() {
    let q = Quaternion::from_byte_array(&[0xFF, 0xFF, 0x00, 0x40, 0x00, 0x80, 0x01, 0x00, 0x77]);
    assert_eq!(q, Quaternion { i: -1, j: 0x4000, k: i16::MIN, r: 1 });
    assert_eq!(Quaternion::default(), Quaternion { i: 0, j: 0, k: 0, r: 0 });
}
