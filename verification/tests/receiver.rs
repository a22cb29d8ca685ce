use xbee_frames::buffer::CapacityError;
use xbee_frames::commands::TransmitRequestCommand;
use xbee_frames::{Frame, FrameBuffer};

#[test]
fn test_buffer_receive() {
    // Setup the buffer we will receive into
    let mut frame_buffer = FrameBuffer::new(100);

    // Setup a mock TransmitRequestCommand
    let mut send_buffer: Vec<u8> = vec![0; 100];
    let data: [u8; 8] = [0x54, 0x78, 0x44, 0x61, 0x74, 0x61, 0x30, 0x41];
    let request =
        TransmitRequestCommand::to_destination(1, 0x0013_A200_400A_0127, &data[..]);

    let send_frame = Frame::from_command(request, &mut send_buffer).unwrap();

    // Iterate through and check that they are equal
    let mut serializer = send_frame.serialize();
    while let Some(character) = serializer.next() {
        if let Some(received_frame) = frame_buffer.receive(character).unwrap() {
            assert_eq!(send_frame.data, received_frame.data);
            return;
        }
    }

    // If we hit here, the frame was never built
    assert!(false);
}

#[test]
fn test_receive_round_trip_push_count() {
    let payload: [u8; 5] = [0x08, 0x01, 0x4E, 0x4A, 0xFF];
    let frame = Frame::new(&payload[..]);

    let mut frame_buffer = FrameBuffer::new(32);
    let mut serializer = frame.serialize();
    let mut pushes: usize = 0;
    let mut received = None;
    while let Some(byte) = serializer.next() {
        let result = frame_buffer.receive(byte).unwrap();
        pushes += 1;
        if let Some(received_frame) = result {
            received = Some(received_frame);
            break;
        }
    }

    // Exactly one frame, after exactly payload length + 4 pushes.
    assert_eq!(pushes, payload.len() + 4);
    assert_eq!(received.unwrap().data, &payload[..]);
    assert!(serializer.next().is_none());
}

#[test]
fn test_receive_empty_payload_frame() {
    let mut frame_buffer = FrameBuffer::new(16);
    assert!(frame_buffer.receive(0x7E).unwrap().is_none());
    assert!(frame_buffer.receive(0x00).unwrap().is_none());
    assert!(frame_buffer.receive(0x00).unwrap().is_none());
    let frame = frame_buffer.receive(0xFF).unwrap().unwrap();
    assert_eq!(frame.data, Vec::<u8>::new());
}

#[test]
fn test_receive_discards_noise_before_delimiter() {
    let mut frame_buffer = FrameBuffer::new(16);
    for byte in [0x00u8, 0x42, 0xFF, 0x11] {
        assert!(frame_buffer.receive(byte).unwrap().is_none());
    }
    for byte in [0x7Eu8, 0x00, 0x01, 0xAA] {
        assert!(frame_buffer.receive(byte).unwrap().is_none());
    }
    // Payload [0xAA]: checksum 0xFF - 0xAA = 0x55.
    let frame = frame_buffer.receive(0x55).unwrap().unwrap();
    assert_eq!(frame.data, [0xAA]);
}

#[test]
fn test_receive_checksum_mismatch_resets() {
    let mut frame_buffer = FrameBuffer::new(16);
    for byte in [0x7Eu8, 0x00, 0x01, 0xAA] {
        assert!(frame_buffer.receive(byte).unwrap().is_none());
    }
    // Wrong checksum byte: one bit off the correct 0x55.
    assert!(frame_buffer.receive(0x54).unwrap().is_none());

    // The receiver starts clean: the same frame parses afterwards.
    for byte in [0x7Eu8, 0x00, 0x01, 0xAA] {
        assert!(frame_buffer.receive(byte).unwrap().is_none());
    }
    let frame = frame_buffer.receive(0x55).unwrap().unwrap();
    assert_eq!(frame.data, [0xAA]);
}

#[test]
fn test_receive_corrupted_payload_bit_rejected() {
    let payload: [u8; 3] = [0x10, 0x20, 0x30];
    let frame = Frame::new(&payload[..]);
    let mut bytes = Vec::new();
    let mut serializer = frame.serialize();
    while let Some(byte) = serializer.next() {
        bytes.push(byte);
    }
    // Flip one bit inside the payload section.
    bytes[4] ^= 0x04;

    let mut frame_buffer = FrameBuffer::new(16);
    for byte in bytes {
        assert!(frame_buffer.receive(byte).unwrap().is_none());
    }
}

#[test]
fn test_receive_oversized_length_reports_capacity_error() {
    let mut frame_buffer = FrameBuffer::new(2);
    assert!(frame_buffer.receive(0x7E).unwrap().is_none());
    assert!(frame_buffer.receive(0x00).unwrap().is_none());
    assert_eq!(frame_buffer.receive(0x03).unwrap_err(), CapacityError);

    // The receiver starts clean: a frame that fits parses afterwards.
    for byte in [0x7Eu8, 0x00, 0x02, 0x01, 0x02] {
        assert!(frame_buffer.receive(byte).unwrap().is_none());
    }
    let frame = frame_buffer.receive(0xFC).unwrap().unwrap();
    assert_eq!(frame.data, [0x01, 0x02]);
}

#[test]
fn test_receive_two_byte_length_frame() {
    let payload: Vec<u8> = (0..300u32).map(|i| (i % 251) as u8).collect();
    let frame = Frame::new(&payload[..]);

    let mut frame_buffer = FrameBuffer::new(300);
    let mut serializer = frame.serialize();
    let mut received = None;
    while let Some(byte) = serializer.next() {
        if let Some(received_frame) = frame_buffer.receive(byte).unwrap() {
            received = Some(received_frame);
        }
    }
    assert_eq!(received.unwrap().data, payload);
}
