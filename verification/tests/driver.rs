use awaitbalance::imu::bno085::{BNO085, CARGO_BUFFER_SIZE};
use awaitbalance::imu::interface::{
    Channel, Quaternion, ReportID, SHTPHeader, SetFeatureReport,
};
use awaitbalance::imu::responses::{
    AdvertisementValue, ControlCommandID, ControlReport, InputReport, SHTPTag,
    ShtpCommandResponse, ShtpResponse,
};

fn cargo(bytes: &[u8]) -> Vec<u8> {
    let mut v = vec![0u8; CARGO_BUFFER_SIZE];
    v[..bytes.len()].copy_from_slice(bytes);
    v
}

fn rotation_request() -> SetFeatureReport {
    SetFeatureReport {
        report_id: ReportID::SetFeature,
        feature_report_id: ReportID::RotationVector,
        feature_flags: 0,
        change_sensitivy: 0,
        report_interval: 2_500,
        batch_interval: 0,
        misc_config: 0,
    }
}

#[test]
fn new_driver_is_zeroed() {
    let d = BNO085::new();
    for c in 0..6 {
        assert_eq!(d.input_seq_num(c), 0);
        assert_eq!(d.output_seq_num(c), 0);
    }
    assert_eq!(d.rotation_vector(), Quaternion::default());
    assert_eq!(d.cargo_buffer().len(), CARGO_BUFFER_SIZE);
    assert!(d.cargo_buffer().iter().all(|b| *b == 0));
}

#[test]
fn set_feature_request_packet() {
    let mut d = BNO085::new();
    let packet = d.set_feature_request(rotation_request());
    assert_eq!(
        packet,
        vec![21, 0, 2, 0, 0xFD, 0x05, 0, 0, 0, 0xC4, 0x09, 0, 0, 0, 0, 0, 0, 0, 0, 0, 0]
    );
    assert_eq!(&d.cargo_buffer()[..21], packet.as_slice());
    assert_eq!(d.output_seq_num(2), 1);
    assert_eq!(
        SHTPHeader::from_byte_array(&packet),
        SHTPHeader { cargo_len: 21, channel: Channel::Control, seq_num: 0 }
    );
}

#[test]
fn set_feature_request_sequence_numbers_wrap() {
    let mut d = BNO085::new();
    for n in 0..300usize {
        let packet = d.set_feature_request(rotation_request());
        assert_eq!(packet[3] as usize, n % 256);
        assert_eq!(d.output_seq_num(2) as usize, (n + 1) % 256);
        for c in [0usize, 1, 3, 4, 5] {
            assert_eq!(d.output_seq_num(c), 0);
        }
        for c in 0..6 {
            assert_eq!(d.input_seq_num(c), 0);
        }
    }
}

#[test]
fn set_feature_request_keeps_rest_of_buffer() {
    let mut d = BNO085::new();
    let received = cargo(&[6, 0, 3, 1, 0xFB, 1, 2, 3, 4, 0, 0, 0, 0, 0, 0, 0, 0, 0, 0, 0, 0, 0, 0x5A]);
    assert!(d.get_shtp_response(&received).is_some());
    d.set_feature_request(rotation_request());
    assert_eq!(d.cargo_buffer()[21], 0);
    assert_eq!(d.cargo_buffer()[22], 0x5A);
}

#[test]
fn advertisement_entries() {
    let mut d = BNO085::new();
    let mut bytes = vec![0u8, 0, 0, 9, 0];
    bytes.extend_from_slice(&[1, 4, 0x78, 0x56, 0x34, 0x12]); // GUID
    bytes.extend_from_slice(&[2, 2, 0x00, 0x01]); // max cargo write
    bytes.extend_from_slice(&[6, 1, 3]); // normal channel
    bytes.extend_from_slice(&[8, 3, b'a', b'b', b'c']); // app name
    bytes.extend_from_slice(&[0x81, 3, 0xF1, 16, 0xFB]); // report lengths, odd
    bytes.extend_from_slice(&[0x42, 2, 9, 9]); // unknown tag
    bytes.push(0x05); // byte read past the odd report-length entry
    let len = bytes.len() - 1;
    bytes[0] = len as u8;
    let resp = d.get_shtp_response(&cargo(&bytes)).unwrap();
    let entries = match resp {
        ShtpResponse::Command(ShtpCommandResponse::Advertisement(e)) => e,
        other => panic!("unexpected {:?}", other),
    };
    assert_eq!(entries.len(), 6);
    assert_eq!(entries[0].tag, SHTPTag::GUID);
    assert!(matches!(entries[0].value, AdvertisementValue::Guid(0x1234_5678)));
    assert_eq!(entries[1].tag, SHTPTag::MaxCargoPlusHeaderWrite);
    assert!(matches!(entries[1].value, AdvertisementValue::Size(0x0100)));
    assert_eq!(entries[2].tag, SHTPTag::NormalChannel);
    assert!(matches!(entries[2].value, AdvertisementValue::ChannelNumber(3)));
    assert_eq!(entries[3].tag, SHTPTag::AppName);
    match &entries[3].value {
        AdvertisementValue::Text(t) => assert_eq!(t.as_slice(), b"abc"),
        other => panic!("unexpected {:?}", other),
    }
    assert_eq!(entries[4].tag, SHTPTag::ReportLengths);
    match &entries[4].value {
        AdvertisementValue::ReportLengths(p) => assert_eq!(p.as_slice(), &[(0xF1, 16), (0xFB, 0x42)]),
        other => panic!("unexpected {:?}", other),
    }
    assert_eq!(entries[5].tag, SHTPTag::Undefined);
    assert!(matches!(entries[5].value, AdvertisementValue::Length(2)));
    assert_eq!(d.input_seq_num(0), 9);
}

#[test]
fn advertisement_with_wrong_width_is_refused() {
    let mut d = BNO085::new();
    let received = cargo(&[9, 0, 0, 4, 0, 1, 2, 0xAA, 0xBB]);
    assert!(d.get_shtp_response(&received).is_none());
    assert_eq!(d.input_seq_num(0), 0);
    assert_eq!(d.cargo_buffer(), received.as_slice());
}

#[test]
fn advertisement_past_the_buffer_is_refused() {
    let mut d = BNO085::new();
    let mut received = cargo(&[0xFF, 0x7F, 0, 1, 0]);
    received[5] = 0; // reserved tag with an empty value
    received[6] = 0;
    // The walk over empty reserved entries reaches the end of the buffer.
    assert!(d.get_shtp_response(&received).is_none());
}

#[test]
fn error_list() {
    let mut d = BNO085::new();
    let resp = d.get_shtp_response(&cargo(&[8, 0, 0, 2, 1, 7, 8, 9])).unwrap();
    match resp {
        ShtpResponse::Command(ShtpCommandResponse::ErrorList(e)) => assert_eq!(e, vec![7, 8, 9]),
        other => panic!("unexpected {:?}", other),
    }
    let resp = d.get_shtp_response(&cargo(&[5, 0, 0, 3, 1])).unwrap();
    match resp {
        ShtpResponse::Command(ShtpCommandResponse::ErrorList(e)) => assert!(e.is_empty()),
        other => panic!("unexpected {:?}", other),
    }
    assert_eq!(d.input_seq_num(0), 3);
    assert!(d.get_shtp_response(&cargo(&[0x01, 0x08, 0, 3, 1])).is_none());
}

#[test]
fn undefined_command() {
    let mut d = BNO085::new();
    let resp = d.get_shtp_response(&cargo(&[5, 0, 0, 4, 7])).unwrap();
    assert!(matches!(resp, ShtpResponse::Command(ShtpCommandResponse::Undefined(7))));
    assert_eq!(d.input_seq_num(0), 4);
}

#[test]
fn device_reset_complete() {
    let mut d = BNO085::new();
    let resp = d.get_shtp_response(&cargo(&[5, 0, 1, 6, 1])).unwrap();
    assert!(matches!(resp, ShtpResponse::Device { response: 1, reset_complete: true }));
    assert_eq!(d.input_seq_num(1), 6);
    let resp = d.get_shtp_response(&cargo(&[5, 0, 1, 7, 2])).unwrap();
    assert!(matches!(resp, ShtpResponse::Device { response: 2, reset_complete: false }));
    assert_eq!(d.input_seq_num(1), 7);
}

#[test]
fn control_reports() {
    let mut d = BNO085::new();
    let mut bytes = vec![0u8, 0, 2, 11];
    // command response
    bytes.extend_from_slice(&[0xF1, 1, 0x84, 2, 3, 10, 11, 12, 13, 14, 15, 16, 0, 0, 0, 0]);
    // get feature response
    bytes.extend_from_slice(&[
        0xFC, 0x05, 0x01, 0x02, 0x01, 0xC4, 0x09, 0, 0, 1, 0, 0, 0, 0x44, 0x33, 0x22, 0x11,
    ]);
    // unknown report: nothing after it is read
    bytes.extend_from_slice(&[0x77, 0xF1]);
    bytes[0] = bytes.len() as u8;
    let resp = d.get_shtp_response(&cargo(&bytes)).unwrap();
    let reports = match resp {
        ShtpResponse::Control(r) => r,
        other => panic!("unexpected {:?}", other),
    };
    assert_eq!(reports.len(), 3);
    match &reports[0] {
        ControlReport::CommandResponse {
            seq_num,
            autonomous,
            command,
            command_seq_num,
            response_seq_num,
            vals,
        } => {
            assert_eq!(*seq_num, 1);
            assert!(*autonomous);
            assert_eq!(*command, ControlCommandID::Initialization);
            assert_eq!(*command_seq_num, 2);
            assert_eq!(*response_seq_num, 3);
            assert_eq!(vals.as_slice(), &[10, 11, 12, 13, 14, 15, 16]);
        },
        other => panic!("unexpected {:?}", other),
    }
    match &reports[1] {
        ControlReport::GetFeature {
            feature_report_id,
            feature_flags,
            change_sensitivity,
            report_interval,
            batch_interval,
            misc_config,
        } => {
            assert_eq!(*feature_report_id, ReportID::RotationVector);
            assert_eq!(*feature_flags, 1);
            assert_eq!(*change_sensitivity, 0x0102);
            assert_eq!(*report_interval, 2_500);
            assert_eq!(*batch_interval, 1);
            assert_eq!(*misc_config, 0x1122_3344);
        },
        other => panic!("unexpected {:?}", other),
    }
    assert!(matches!(reports[2], ControlReport::Unsupported(0x77)));
    assert_eq!(d.input_seq_num(2), 11);
    assert_eq!(d.output_seq_num(2), 0);
}

#[test]
fn control_command_response_out_of_place_is_refused() {
    let mut d = BNO085::new();
    let mut bytes = vec![0u8, 0, 2, 1];
    bytes.extend_from_slice(&[0xFC; 17]);
    bytes.extend_from_slice(&[0xF1; 16]);
    bytes[0] = bytes.len() as u8;
    assert!(d.get_shtp_response(&cargo(&bytes)).is_none());
    assert_eq!(d.input_seq_num(2), 0);
}

#[test]
fn input_reports_and_rotation() {
    let mut d = BNO085::new();
    let mut bytes = vec![0u8, 0, 3, 42];
    bytes.extend_from_slice(&[0xFB, 0xFE, 0xFF, 0xFF, 0xFF]);
    bytes.extend_from_slice(&[0x05, 1, 3, 0, 0x01, 0, 0x02, 0, 0x03, 0, 0x04, 0, 0x00, 0x10]);
    bytes.extend_from_slice(&[0x05, 2, 3, 0, 0xFF, 0xFF, 0, 0x40, 0, 0, 0, 0xC0, 0x00, 0xF0]);
    bytes[0] = bytes.len() as u8;
    let resp = d.get_shtp_response(&cargo(&bytes)).unwrap();
    let reports = match resp {
        ShtpResponse::Input(r) => r,
        other => panic!("unexpected {:?}", other),
    };
    assert_eq!(
        reports,
        vec![
            InputReport::BaseTimestamp { base_delta: -2 },
            InputReport::RotationVector {
                seq_num: 1,
                status: 3,
                delay: 0,
                rotation: Quaternion { i: 1, j: 2, k: 3, r: 4 },
                accuracy: 0x1000,
            },
            InputReport::RotationVector {
                seq_num: 2,
                status: 3,
                delay: 0,
                rotation: Quaternion { i: -1, j: 0x4000, k: 0, r: -0x4000 },
                accuracy: -0x1000,
            },
        ]
    );
    assert_eq!(d.rotation_vector(), Quaternion { i: -1, j: 0x4000, k: 0, r: -0x4000 });
    assert_eq!(d.input_seq_num(3), 42);
}

#[test]
fn input_without_rotation_keeps_rotation() {
    let mut d = BNO085::new();
    let first = cargo(&[18, 0, 3, 0, 0x05, 0, 0, 0, 7, 0, 0, 0, 0, 0, 0, 0, 0, 0]);
    d.get_shtp_response(&first).unwrap();
    assert_eq!(d.rotation_vector(), Quaternion { i: 7, j: 0, k: 0, r: 0 });
    let second = cargo(&[9, 0, 3, 1, 0xFB, 0, 0, 0, 0]);
    d.get_shtp_response(&second).unwrap();
    assert_eq!(d.rotation_vector(), Quaternion { i: 7, j: 0, k: 0, r: 0 });
}

#[test]
fn unsupported_input_report_comes_last() {
    let mut d = BNO085::new();
    let received = cargo(&[14, 0, 3, 5, 0x01, 0xFB, 0, 0, 0, 0, 0x05, 0, 0, 0]);
    match d.get_shtp_response(&received).unwrap() {
        ShtpResponse::Input(r) => assert_eq!(r, vec![InputReport::Unsupported(0x01)]),
        other => panic!("unexpected {:?}", other),
    }
}

#[test]
fn input_report_past_the_buffer_is_refused() {
    let mut d = BNO085::new();
    let mut received = cargo(&[0xFF, 0x7F, 3, 1]);
    let mut i = 4;
    while i + 5 <= CARGO_BUFFER_SIZE {
        received[i] = 0xFB;
        i += 5;
    }
    received[i] = 0x05;
    assert!(d.get_shtp_response(&received).is_none());
    assert_eq!(d.input_seq_num(3), 0);
    assert_eq!(d.rotation_vector(), Quaternion::default());
}

#[test]
fn empty_cargo_has_no_reports() {
    let mut d = BNO085::new();
    match d.get_shtp_response(&cargo(&[4, 0, 3, 8, 0x05])).unwrap() {
        ShtpResponse::Input(r) => assert!(r.is_empty()),
        other => panic!("unexpected {:?}", other),
    }
    assert_eq!(d.input_seq_num(3), 8);
}

#[test]
fn unread_channel() {
    let mut d = BNO085::new();
    let resp = d.get_shtp_response(&cargo(&[9, 0, 4, 3, 0x05])).unwrap();
    assert!(matches!(resp, ShtpResponse::Unsupported(Channel::InputWake)));
    let resp = d.get_shtp_response(&cargo(&[9, 0, 77, 3, 0x05])).unwrap();
    assert!(matches!(resp, ShtpResponse::Unsupported(Channel::Undefined)));
    for c in 0..6 {
        assert_eq!(d.input_seq_num(c), 0);
    }
}
