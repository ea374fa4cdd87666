//! The wire protocol over the serial port model: headers, chunked bodies,
//! acknowledgements, and the error packets of the main loop.

use decoder::errors::{CursorError, DecoderContextError, DecoderError, MessageError};
use decoder::message::{Message, Opcode, CHUNK_SIZE, MAGIC, MAX_BODY_SIZE};
use decoder::uart::Uart;
use decoder::utils::{write_debug_message, write_error, write_error_bytes, Cursor};

fn ack_bytes() -> Vec<u8> {
    vec![MAGIC, 0x41, 0, 0]
}

fn header(opcode: u8, length: u16) -> Vec<u8> {
    let mut out = vec![MAGIC, opcode];
    out.extend_from_slice(&length.to_le_bytes());
    out
}

#[test]
fn opcode_bytes_round_trip() {
    let opcodes = [
        Opcode::Decode,
        Opcode::Subscribe,
        Opcode::List,
        Opcode::Ack,
        Opcode::Debug,
        Opcode::Error,
    ];
    for op in opcodes {
        assert_eq!(Opcode::from_byte(op.to_byte()), Some(op));
    }
    assert_eq!(Opcode::from_byte(0x00), None);
    assert_eq!(Opcode::from_byte(0x42), None);
    assert_eq!(Opcode::Decode.to_byte(), 0x44);
    assert_eq!(Opcode::Ack.to_byte(), 0x41);
}

#[test]
fn read_header_parses_and_rejects() {
    let mut uart = Uart::new(header(0x44, 300));
    let m = Message::read_header(&mut uart).expect("well-formed header");
    assert_eq!(m.opcode, Opcode::Decode);
    assert_eq!(m.length, 300);

    let mut uart = Uart::new(vec![0x26, 0x44, 0, 0]);
    let err = Message::read_header(&mut uart).expect_err("wrong magic");
    assert_eq!(err, MessageError::IncorrectMagic(0x26));

    let mut uart = Uart::new(vec![MAGIC, 0x42, 0, 0]);
    let err = Message::read_header(&mut uart).expect_err("unknown opcode");
    assert_eq!(err, MessageError::UnexpectedOpcode(0x42));
}

#[test]
fn read_message_acks_header_and_chunks() {
    // a subscribe request with a 600-byte body arrives in three chunks;
    // the receiver acks the header and each chunk
    let body: Vec<u8> = (0..600u32).map(|i| i as u8).collect();
    let mut wire = header(0x53, 600);
    wire.extend_from_slice(&body);

    let mut uart = Uart::new(wire);
    let message = Message::read(&mut uart).expect("complete message");
    assert_eq!(message.opcode, Opcode::Subscribe);
    assert_eq!(message.length, 600);
    assert_eq!(message.data(), body);

    let mut expected_acks = Vec::new();
    for _ in 0..4 {
        expected_acks.extend_from_slice(&ack_bytes());
    }
    assert_eq!(uart.take_sent(), expected_acks);
}

#[test]
fn read_message_rejects_oversize_body() {
    let mut uart = Uart::new(header(0x44, (MAX_BODY_SIZE + 1) as u16));
    let err = Message::read(&mut uart).expect_err("body longer than the buffer");
    assert_eq!(err, MessageError::BodyLengthError);
}

#[test]
fn write_message_chunks_and_waits_for_acks() {
    let body: Vec<u8> = (0..CHUNK_SIZE as u32 + 5).map(|i| (i * 3) as u8).collect();
    let message = Message::from_data(Opcode::Decode, &body);

    // the sender awaits one ack for the header and one per chunk
    let mut acks = Vec::new();
    for _ in 0..3 {
        acks.extend_from_slice(&ack_bytes());
    }
    let mut uart = Uart::new(acks);
    message.write(&mut uart).expect("acks are all present");

    let mut expected = header(0x44, body.len() as u16);
    expected.extend_from_slice(&body);
    assert_eq!(uart.take_sent(), expected);
    assert_eq!(uart.available(), 0);
}

#[test]
fn write_unacknowledged_opcodes() {
    // debug messages travel without any acknowledgement
    let message = Message::from_data(Opcode::Debug, b"dbg");
    let mut uart = Uart::new(Vec::new());
    message.write(&mut uart).expect("no acks needed");
    let mut expected = header(0x47, 3);
    expected.extend_from_slice(b"dbg");
    assert_eq!(uart.take_sent(), expected);
}

#[test]
fn send_data_round_trips_through_read() {
    let body: Vec<u8> = (0..700u32).map(|i| (i ^ 0x5a) as u8).collect();

    let mut acks = Vec::new();
    for _ in 0..5 {
        acks.extend_from_slice(&ack_bytes());
    }
    let mut sender = Uart::new(acks);
    Message::send_data(Opcode::List, &body, &mut sender).expect("sent whole");

    let mut receiver = Uart::new(sender.take_sent());
    let message = Message::read(&mut receiver).expect("reads back what was sent");
    assert_eq!(message.opcode, Opcode::List);
    assert_eq!(message.data(), body);
}

#[test]
fn send_data_rejects_oversize_body() {
    let mut uart = Uart::new(Vec::new());
    let body = vec![0u8; MAX_BODY_SIZE + 1];
    assert_eq!(
        Message::send_data(Opcode::List, &body, &mut uart),
        Err(MessageError::BodyLengthError)
    );
    assert_eq!(uart.take_sent(), Vec::<u8>::new());
}

#[test]
fn error_packets_carry_the_description() {
    let mut acks = ack_bytes();
    acks.extend_from_slice(&ack_bytes());
    let mut uart = Uart::new(acks);
    write_error(&DecoderError::NonMonotonicTimestamp, &mut uart).expect("fits one chunk");

    let text = b"Error: non-monotonic timestamp";
    let mut expected = header(0x45, text.len() as u16);
    expected.extend_from_slice(text);
    assert_eq!(uart.take_sent(), expected);
}

#[test]
fn error_bytes_packet() {
    let mut acks = ack_bytes();
    acks.extend_from_slice(&ack_bytes());
    let mut uart = Uart::new(acks);
    write_error_bytes(b"boom", &mut uart).expect("short body");
    let mut expected = header(0x45, 4);
    expected.extend_from_slice(b"boom");
    assert_eq!(uart.take_sent(), expected);
}

#[test]
fn debug_stream_splits_long_messages() {
    let long = vec![7u8; MAX_BODY_SIZE + 10];
    let mut uart = Uart::new(Vec::new());
    write_debug_message(&long, &mut uart).expect("debug never needs acks");

    let mut expected = header(0x47, MAX_BODY_SIZE as u16);
    expected.extend_from_slice(&long[..MAX_BODY_SIZE]);
    expected.extend_from_slice(&header(0x47, 10));
    expected.extend_from_slice(&long[MAX_BODY_SIZE..]);
    assert_eq!(uart.take_sent(), expected);
}

#[test]
fn error_descriptions() {
    assert_eq!(
        DecoderError::NoTimestampFound.message(),
        "Error: timestamp not found in subtrees"
    );
    assert_eq!(DecoderError::InvalidTimestamp.message(), "Error: timestamp is out of bounds");
    assert_eq!(DecoderError::InvalidEncoderPayload.message(), "Error: invalid payload received");
    assert_eq!(
        DecoderError::InvalidSubscription.message(),
        "Error: subscription is not valid for decoding the given frame"
    );
    assert_eq!(
        DecoderError::DecoderContextError(DecoderContextError::TooManySubscriptions).message(),
        "Decoder context error: Too many subscriptions!"
    );
    assert_eq!(
        DecoderError::CursorError(CursorError::OversizeError(3)).message(),
        "Cursor error: Too many bytes remaining"
    );
    assert_eq!(
        DecoderError::MessagingError(MessageError::AckError).message(),
        "Messaging error: Nonzero body length on ACK packet"
    );
}

#[test]
fn cursor_reads_and_writes() {
    let mut cursor = Cursor::new(vec![1u8, 2, 3, 4, 5, 6]);

    let mut first = vec![0u8; 2];
    cursor.read_into(&mut first).expect("two bytes remain");
    assert_eq!(first, vec![1, 2]);
    assert_eq!(cursor.offset, 2);

    let mut too_much = vec![0u8; 10];
    assert_eq!(
        cursor.read_into(&mut too_much),
        Err(CursorError::OversizeError(4))
    );
    assert_eq!(cursor.offset, 2);

    cursor.read_from(&[9u8, 8]).expect("room for two bytes");
    assert_eq!(cursor.offset, 4);
    assert_eq!(cursor.written(), vec![1, 2, 9, 8]);

    assert_eq!(
        cursor.read_from(&[0u8; 5]),
        Err(CursorError::OversizeError(2))
    );
}

#[test]
fn uart_stream_order() {
    let mut uart = Uart::new(vec![10u8, 20, 30]);
    assert_eq!(uart.available(), 3);
    assert_eq!(uart.read_byte(), 10);

    let mut two = vec![0u8; 2];
    uart.read_bytes(&mut two);
    assert_eq!(two, vec![20, 30]);
    assert_eq!(uart.available(), 0);

    uart.feed(&[40, 50]);
    assert_eq!(uart.available(), 2);
    uart.flush_uart_receive();
    assert_eq!(uart.available(), 0);

    uart.write_byte(1);
    uart.write_bytes(&[2, 3]);
    assert_eq!(uart.take_sent(), vec![1, 2, 3]);
    assert_eq!(uart.take_sent(), Vec::<u8>::new());
}
