use glide_core::decode;
use glide_core::encode;
use glide_core::Decoded;
use glide_core::ProtocolError;
use glide_core::Transmission;

fn round_trip(t: Transmission) {
    let bytes = encode(&t).expect("message fits in one frame");
    match decode(&bytes) {
        Decoded::Message(back, consumed) => {
            assert_eq!(back, t);
            assert_eq!(consumed, bytes.len());
        }
        other => panic!("expected a whole message, got {:?}", other),
    }
}

#[test]
fn round_trips_username() {
    round_trip(Transmission::Username("alice".to_string()));
}

#[test]
fn round_trips_command() {
    round_trip(Transmission::Command("glide a/b c.txt @bob".to_string()));
}

#[test]
fn round_trips_non_ascii_text() {
    round_trip(Transmission::Command("héllo wörld ✓".to_string()));
}

#[test]
fn round_trips_empty_text() {
    round_trip(Transmission::Username("".to_string()));
}

#[test]
fn round_trips_client_disconnected() {
    round_trip(Transmission::ClientDisconnected);
}

#[test]
fn round_trips_username_ok() {
    round_trip(Transmission::UsernameOk);
}

#[test]
fn round_trips_username_invalid() {
    round_trip(Transmission::UsernameInvalid);
}

#[test]
fn round_trips_username_taken() {
    round_trip(Transmission::UsernameTaken);
}

#[test]
fn empty_buffer_needs_more() {
    assert_eq!(decode(&[]), Decoded::NeedMore);
}

#[test]
fn partial_header_needs_more() {
    assert_eq!(decode(&[1, 0]), Decoded::NeedMore);
}

#[test]
fn partial_payload_needs_more() {
    let bytes = encode(&Transmission::Command("list".to_string())).unwrap();
    assert_eq!(decode(&bytes[..bytes.len() - 1]), Decoded::NeedMore);
}

#[test]
fn unknown_tag_is_malformed() {
    assert_eq!(decode(&[9, 0, 0]), Decoded::Fail(ProtocolError::MalformedFrame));
}

#[test]
fn control_frame_with_payload_is_malformed() {
    assert_eq!(decode(&[3, 0, 1, b'x']), Decoded::Fail(ProtocolError::MalformedFrame));
}

#[test]
fn oversized_frame_is_refused() {
    // announces a 4097-byte payload: over the limit, refused before reading
    assert_eq!(decode(&[1, 16, 1]), Decoded::Fail(ProtocolError::MessageTooLarge));
}

#[test]
fn oversized_text_is_not_encoded() {
    let long = "x".repeat(5000);
    assert_eq!(
        encode(&Transmission::Command(long)),
        Err(ProtocolError::MessageTooLarge)
    );
}

#[test]
fn invalid_utf8_payload_decodes_leniently() {
    // a command frame whose payload is not valid UTF-8
    let bytes = [1u8, 0, 2, 0xff, 0xfe];
    match decode(&bytes) {
        Decoded::Message(Transmission::Command(text), consumed) => {
            assert_eq!(consumed, 5);
            assert_eq!(text, "\u{fffd}\u{fffd}");
        }
        other => panic!("expected a command, got {:?}", other),
    }
}

#[test]
fn decode_reports_frame_length() {
    let mut bytes = encode(&Transmission::Username("bob".to_string())).unwrap();
    let frame_len = bytes.len();
    // trailing bytes of the next frame are left alone
    bytes.extend_from_slice(&[5, 0, 0]);
    match decode(&bytes) {
        Decoded::Message(t, consumed) => {
            assert_eq!(t, Transmission::Username("bob".to_string()));
            assert_eq!(consumed, frame_len);
        }
        other => panic!("expected a message, got {:?}", other),
    }
}

#[test]
fn encoding_is_deterministic() {
    let a = encode(&Transmission::Command("list".to_string())).unwrap();
    let b = encode(&Transmission::Command("list".to_string())).unwrap();
    assert_eq!(a, b);
}
