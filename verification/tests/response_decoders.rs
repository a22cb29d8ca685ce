use xbee_frames::responses::{
    AtCommandResponse, AtCommandResponseStatus, Response, ResponseError, ZigbeeReceivePacket,
};

#[test]
fn at_test_at_command_response_parse() {
    let buffer: [u8; 5] = [0x88, 0x01, 0x42, 0x44, 0x00];
    let response = AtCommandResponse::parse(&buffer[..]).unwrap();

    assert_eq!(response.frame_id, 1);
    assert_eq!(response.at_command, [b'B', b'D']);
    assert_eq!(
        response.command_status as u8,
        AtCommandResponseStatus::Success as u8
    );
    assert_eq!(response.command_data, None);
}

#[test]
fn test_bad_enum() {
    let buffer: [u8; 5] = [0x88, 0x01, 0x42, 0x44, 0x10];
    let response = AtCommandResponse::parse(&buffer[..]);

    match response {
        Ok(_) => assert!(false),
        Err(err) => assert_eq!(err, ResponseError::EnumComparisonError),
    };
}

#[test]
fn test_bad_size() {
    let buffer: [u8; 4] = [0x88, 0x01, 0x42, 0x44];
    let response = AtCommandResponse::parse(&buffer[..]);

    match response {
        Ok(_) => assert!(false),
        Err(err) => assert_eq!(err, ResponseError::SizeIncorrectError),
    };
}

#[test]
fn receive_packet_test_at_command_response_parse() {
    let buffer: [u8; 18] = [
        0x90,
        0x00, 0x13, 0xA2, 0x00, 0x40, 0x52, 0x2B, 0xAA,
        0x7D, 0x84,
        0x01,
        0x52, 0x78, 0x44, 0x61, 0x74, 0x61,
    ];
    let response = ZigbeeReceivePacket::parse(&buffer[..]).unwrap();

    assert_eq!(response.destination, 0x0013_A200_4052_2BAA);
    assert_eq!(response.network_address, 0x7D84);
    assert_eq!(response.packet_acknowledged, true);
    assert_eq!(response.packet_broadcast, false);
    assert_eq!(response.packet_broadcast, false);
    assert_eq!(response.packet_broadcast, false);
    assert_eq!(response.data, &buffer[12..]);
}

#[test]
fn test_at_response_respond_to() {
    assert!(AtCommandResponse::respond_to(0x88));
    assert!(!AtCommandResponse::respond_to(0x90));
}

#[test]
fn test_at_response_with_data_byte() {
    let buffer: [u8; 6] = [0x88, 0x01, 0x42, 0x44, 0x04, 0x2A];
    let response = AtCommandResponse::parse(&buffer[..]).unwrap();
    assert_eq!(
        response.command_status as u8,
        AtCommandResponseStatus::TxFailure as u8
    );
    assert_eq!(response.command_data, Some(0x2A));
}

#[test]
fn test_at_response_id_mismatch() {
    let buffer: [u8; 5] = [0x90, 0x01, 0x42, 0x44, 0x00];
    assert_eq!(
        AtCommandResponse::parse(&buffer[..]).unwrap_err(),
        ResponseError::IdError
    );
}

#[test]
fn test_at_response_too_long() {
    let buffer: [u8; 7] = [0x88, 0x01, 0x42, 0x44, 0x00, 0x00, 0x00];
    assert_eq!(
        AtCommandResponse::parse(&buffer[..]).unwrap_err(),
        ResponseError::SizeIncorrectError
    );
}

#[test]
fn test_status_try_from_codes() {
    for (code, expected) in [
        (0u8, AtCommandResponseStatus::Success as u8),
        (1, AtCommandResponseStatus::Error as u8),
        (2, AtCommandResponseStatus::InvalidCommand as u8),
        (3, AtCommandResponseStatus::InvalidParameter as u8),
        (4, AtCommandResponseStatus::TxFailure as u8),
    ] {
        let status = AtCommandResponseStatus::try_from(code).unwrap();
        assert_eq!(status as u8, expected);
    }
    assert_eq!(
        AtCommandResponseStatus::try_from(5).unwrap_err(),
        ResponseError::EnumComparisonError
    );
}

#[test]
fn test_receive_packet_respond_to() {
    assert!(ZigbeeReceivePacket::respond_to(0x90));
    assert!(!ZigbeeReceivePacket::respond_to(0x88));
}

#[test]
fn test_receive_packet_id_mismatch() {
    let buffer: [u8; 12] = [0x88, 0, 0, 0, 0, 0, 0, 0, 0, 0, 0, 0];
    assert_eq!(
        ZigbeeReceivePacket::parse(&buffer[..]).unwrap_err(),
        ResponseError::IdError
    );
}

#[test]
fn test_receive_packet_too_short() {
    let buffer: [u8; 11] = [0x90, 0, 0, 0, 0, 0, 0, 0, 0, 0, 0];
    assert_eq!(
        ZigbeeReceivePacket::parse(&buffer[..]).unwrap_err(),
        ResponseError::SizeIncorrectError
    );
}

#[test]
fn test_receive_packet_empty_payload() {
    let buffer: [u8; 12] = [0x90, 0, 0, 0, 0, 0, 0, 0, 1, 0x12, 0x34, 0x00];
    let response = ZigbeeReceivePacket::parse(&buffer[..]).unwrap();
    assert_eq!(response.destination, 1);
    assert_eq!(response.network_address, 0x1234);
    assert_eq!(response.packet_acknowledged, false);
    assert_eq!(response.data, &[] as &[u8]);
}

#[test]
fn test_receive_packet_flag_bits() {
    let buffer: [u8; 12] = [0x90, 0, 0, 0, 0, 0, 0, 0, 0, 0, 0, 0x62];
    let response = ZigbeeReceivePacket::parse(&buffer[..]).unwrap();
    assert_eq!(response.packet_acknowledged, false);
    assert_eq!(response.packet_broadcast, true);
    assert_eq!(response.packet_encrypted, true);
    assert_eq!(response.packet_end_device, true);
}
