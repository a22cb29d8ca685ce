use xbee_frames::commands::AtCommand;
use xbee_frames::Frame;

#[test]
fn test_serialize() {
    let at_command: [u8; 5] = [0x08, 0x01, 0x4E, 0x4A, 0xFF];
    let frame = Frame::new(&at_command[..]);

    let expected: [u8; 9] = [0x7E, 0x00, 0x05, 0x08, 0x01, 0x4E, 0x4A, 0xFF, 0x5F];

    let mut index: usize = 0;
    let mut serializer = frame.serialize();
    while let Some(ch) = serializer.next() {
        assert_eq!(ch, expected[index]);
        index += 1;
    }
    assert_eq!(index, expected.len());
}

#[test]
fn test_from_command_success() {
    // Start with a purposefully small buffer
    let mut buffer: Vec<u8> = vec![0; 10];
    let frame_id = 0x52;
    let command = AtCommand::new(frame_id, [b'N', b'J'], None);
    let frame = Frame::from_command(command, &mut buffer);

    match frame {
        Ok(frame) => {
            let mut index: usize = 0;
            let expected: [u8; 8] = [0x7E, 0x00, 0x04, 0x08, frame_id, 0x4E, 0x4A, 0x0D];
            let mut serializer = frame.serialize();
            while let Some(ch) = serializer.next() {
                assert_eq!(ch, expected[index]);
                index += 1;
            }
            assert_eq!(index, expected.len());
        },
        _ => {
            assert!(false);
        },
    }
}

#[test]
fn test_from_command_failure() {
    // Start with a purposefully small buffer
    let mut buffer: Vec<u8> = vec![0];
    let command = AtCommand::new(0x52, [b'N', b'J'], None);
    let frame = Frame::from_command(command, &mut buffer);

    assert_eq!(frame.is_err(), true);
}

#[test]
fn test_serialize_restarts_fresh() {
    let payload: [u8; 2] = [0x01, 0x02];
    let frame = Frame::new(&payload[..]);

    let mut first = Vec::new();
    let mut serializer = frame.serialize();
    while let Some(byte) = serializer.next() {
        first.push(byte);
    }
    // Exhausted iterators stay exhausted.
    assert!(serializer.next().is_none());

    let mut second = Vec::new();
    let mut serializer = frame.serialize();
    while let Some(byte) = serializer.next() {
        second.push(byte);
    }
    assert_eq!(first, second);
    assert_eq!(first, [0x7E, 0x00, 0x02, 0x01, 0x02, 0xFC]);
}

#[test]
fn test_serialize_empty_payload() {
    let frame = Frame::new(&[]);
    let mut bytes = Vec::new();
    let mut serializer = frame.serialize();
    while let Some(byte) = serializer.next() {
        bytes.push(byte);
    }
    assert_eq!(bytes, [0x7E, 0x00, 0x00, 0xFF]);
}

#[test]
fn test_serialize_two_byte_length() {
    // 300 payload bytes: the length field is [0x01, 0x2C], and the
    // checksum wraps the byte sum mod 256.
    let payload: Vec<u8> = vec![0x01; 300];
    let frame = Frame::new(&payload[..]);
    let mut bytes = Vec::new();
    let mut serializer = frame.serialize();
    while let Some(byte) = serializer.next() {
        bytes.push(byte);
    }
    assert_eq!(bytes.len(), 304);
    assert_eq!(&bytes[..3], [0x7E, 0x01, 0x2C]);
    assert_eq!(&bytes[3..303], &payload[..]);
    // Sum of 300 ones is 300; 300 mod 256 = 44; 255 - 44 = 211.
    assert_eq!(bytes[303], 211);
}
