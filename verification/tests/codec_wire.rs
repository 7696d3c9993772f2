use rsheet::codec::{decode_message, encode_message, frame_header, frame_len, frame_payload};
use rsheet::{CellValue, Message, Reply};

fn round_trips(m: Message) {
    let payload = encode_message(&m);
    let back = decode_message(payload.as_slice());
    assert_eq!(back, Some(m));
}

#[test]
fn reply_round_trips_for_every_variant() {
    round_trips(Message::Reply(Reply::Okay));
    round_trips(Message::Reply(Reply::Value(CellValue::Number(1.0f64.to_bits()))));
    round_trips(Message::Reply(Reply::Value(CellValue::Number((-0.0f64).to_bits()))));
    round_trips(Message::Reply(Reply::Value(CellValue::Number(f64::NAN.to_bits()))));
    round_trips(Message::Reply(Reply::Value(CellValue::Text(b"hello".to_vec()))));
    round_trips(Message::Reply(Reply::Value(CellValue::Text(Vec::new()))));
    round_trips(Message::Reply(Reply::Value(CellValue::Error(b"Cell Z not found".to_vec()))));
    round_trips(Message::Reply(Reply::Error(b"Invalid command format".to_vec())));
    round_trips(Message::Reply(Reply::Error(Vec::new())));
}

#[test]
fn command_round_trips() {
    round_trips(Message::Command(b"set A1 1".to_vec()));
    round_trips(Message::Command(Vec::new()));
}

#[test]
fn encoding_is_tagged_text() {
    let payload = encode_message(&Message::Command(b"hi".to_vec()));
    assert_eq!(payload, b"Chi".to_vec());

    let payload = encode_message(&Message::Reply(Reply::Okay));
    assert_eq!(payload, b"RO".to_vec());

    let payload = encode_message(&Message::Reply(Reply::Error(b"no".to_vec())));
    assert_eq!(payload, b"REno".to_vec());

    let bits = 1.0f64.to_bits();
    let payload = encode_message(&Message::Reply(Reply::Value(CellValue::Number(bits))));
    assert_eq!(payload, b"RVN000000000000f03f".to_vec());
}

#[test]
fn malformed_payloads_are_refused() {
    assert_eq!(decode_message(b""), None);
    assert_eq!(decode_message(b"Q"), None);
    assert_eq!(decode_message(b"R"), None);
    assert_eq!(decode_message(b"RQ"), None);
    // A stray byte after the success tag is not a reply.
    assert_eq!(decode_message(b"ROx"), None);
    // Too few hex digits for a number.
    assert_eq!(decode_message(b"RVN00000000000f03f"), None);
    // An odd hex digit count.
    assert_eq!(decode_message(b"RVN000000000000f03"), None);
    // A non-hex digit in the number.
    assert_eq!(decode_message(b"RVN00000000000zf03f"), None);
}

#[test]
fn frame_prefix_announces_payload_length() {
    let header = frame_header(258);
    assert_eq!(header, vec![0u8, 0, 1, 2]);
    assert_eq!(frame_len(header.as_slice()), 258);

    let payload = encode_message(&Message::Reply(Reply::Okay));
    let frame = frame_payload(payload.as_slice());
    assert_eq!(frame.len(), payload.len() + 4);
    assert_eq!(frame_len(&frame[0..4]), payload.len() as u32);
    assert_eq!(&frame[4..], payload.as_slice());
}
