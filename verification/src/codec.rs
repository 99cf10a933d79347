//! Wire codec: turns bytes into protocol messages and back.
//!
//! A frame is a tag byte, a two-byte big-endian payload length, and the
//! payload itself, which is the UTF-8 encoding of the message text. Text
//! payloads belong to the `Username` and `Command` messages; the four
//! control messages carry an empty payload. A payload may be at most
//! [`MAX_PAYLOAD`] bytes; longer frames are rejected rather than read,
//! so a peer cannot make the server buffer without bound. Payload bytes
//! that are not valid UTF-8 are decoded leniently, with the replacement
//! character standing in for the broken spots, rather than failing the
//! connection.
use vstd::prelude::*;
use vstd::string::StrSliceExecFns;
use vstd::utf8::decode_utf8;
use vstd::utf8::encode_utf8;
use vstd::utf8::encode_utf8_decode_utf8;
use vstd::utf8::encode_utf8_valid_utf8;
use vstd::utf8::valid_utf8;
use vstd::slice::slice_subrange;
use vstd::slice::slice_to_vec;

verus! {

/// Longest payload, in bytes, that a frame may carry.
pub const MAX_PAYLOAD: usize = 4096;

pub const TAG_USERNAME: u8 = 0;

pub const TAG_COMMAND: u8 = 1;

pub const TAG_DISCONNECTED: u8 = 2;

pub const TAG_USERNAME_OK: u8 = 3;

pub const TAG_USERNAME_INVALID: u8 = 4;

pub const TAG_USERNAME_TAKEN: u8 = 5;

/// One logically complete protocol message.
#[derive(Debug, PartialEq, Eq)]
pub enum Transmission {
    /// A registration attempt carrying the requested name.
    Username(String),
    /// One command line from a registered client.
    Command(String),
    /// Synthesized on end-of-stream; also encodable, so that a session can
    /// be driven from a byte log in tests.
    ClientDisconnected,
    /// The name was accepted.
    UsernameOk,
    /// The name does not meet the format rules.
    UsernameInvalid,
    /// The name is already held by a connected client.
    UsernameTaken,
}

/// Mathematical image of a [`Transmission`]: the same variants over
/// character sequences.
pub enum TransmissionV {
    Username(Seq<char>),
    Command(Seq<char>),
    ClientDisconnected,
    UsernameOk,
    UsernameInvalid,
    UsernameTaken,
}

impl View for Transmission {
    type V = TransmissionV;

    open spec fn view(&self) -> TransmissionV {
        match self {
            Transmission::Username(s) => TransmissionV::Username(s@),
            Transmission::Command(s) => TransmissionV::Command(s@),
            Transmission::ClientDisconnected => TransmissionV::ClientDisconnected,
            Transmission::UsernameOk => TransmissionV::UsernameOk,
            Transmission::UsernameInvalid => TransmissionV::UsernameInvalid,
            Transmission::UsernameTaken => TransmissionV::UsernameTaken,
        }
    }
}

/// A frame the codec refuses.
#[derive(Debug, Clone, Copy, PartialEq, Eq, Structural)]
pub enum ProtocolError {
    /// The tag is unknown, or a control frame carries a payload.
    MalformedFrame,
    /// The frame announces a payload longer than [`MAX_PAYLOAD`].
    MessageTooLarge,
}

/// Outcome of decoding the front of a byte buffer.
#[derive(Debug, PartialEq, Eq)]
pub enum Decoded {
    /// A whole frame was read: the message and how many bytes it took.
    Message(Transmission, usize),
    /// The buffer holds only part of a frame; read more bytes.
    NeedMore,
    /// The buffer starts with a frame the protocol refuses.
    Fail(ProtocolError),
}

/// Mathematical image of a [`Decoded`].
pub enum DecodedV {
    Message(TransmissionV, int),
    NeedMore,
    Fail(ProtocolError),
}

impl View for Decoded {
    type V = DecodedV;

    open spec fn view(&self) -> DecodedV {
        match self {
            Decoded::Message(t, n) => DecodedV::Message(t@, *n as int),
            Decoded::NeedMore => DecodedV::NeedMore,
            Decoded::Fail(e) => DecodedV::Fail(*e),
        }
    }
}

/// The tag byte of each message variant.
pub open spec fn spec_tag(t: TransmissionV) -> u8 {
    match t {
        TransmissionV::Username(_) => TAG_USERNAME,
        TransmissionV::Command(_) => TAG_COMMAND,
        TransmissionV::ClientDisconnected => TAG_DISCONNECTED,
        TransmissionV::UsernameOk => TAG_USERNAME_OK,
        TransmissionV::UsernameInvalid => TAG_USERNAME_INVALID,
        TransmissionV::UsernameTaken => TAG_USERNAME_TAKEN,
    }
}

/// The payload of each message variant: UTF-8 of the text, empty for the
/// control messages.
pub open spec fn spec_payload(t: TransmissionV) -> Seq<u8> {
    match t {
        TransmissionV::Username(s) => encode_utf8(s),
        TransmissionV::Command(s) => encode_utf8(s),
        _ => Seq::empty(),
    }
}

/// Whether a message fits in one frame.
pub open spec fn encodable(t: TransmissionV) -> bool {
    spec_payload(t).len() <= MAX_PAYLOAD
}

/// A frame: tag, two length bytes, payload.
pub open spec fn spec_frame(tag: u8, p: Seq<u8>) -> Seq<u8> {
    seq![tag, (p.len() / 256) as u8, (p.len() % 256) as u8] + p
}

/// The one frame that encodes a message.
pub open spec fn spec_encode(t: TransmissionV) -> Seq<u8> {
    spec_frame(spec_tag(t), spec_payload(t))
}

/// The payload length a frame header announces.
pub open spec fn spec_frame_len(b: Seq<u8>) -> int {
    (b[1] as int) * 256 + (b[2] as int)
}

/// What a payload's bytes say: valid UTF-8 decodes exactly, anything else
/// goes through lenient replacement-character decoding.
pub uninterp spec fn lossy_decode(bytes: Seq<u8>) -> Seq<char>;

/// The text a payload denotes.
pub open spec fn payload_text(bytes: Seq<u8>) -> Seq<char> {
    if valid_utf8(bytes) {
        decode_utf8(bytes)
    } else {
        lossy_decode(bytes)
    }
}

/// Relies on `String::from_utf8_lossy`: bytes that are valid UTF-8 decode
/// to exactly the characters they encode, and any other input is mapped,
/// as a function of the bytes alone, to text with U+FFFD in the broken
/// spots.
#[verifier::external_body]
fn bytes_to_text(bytes: &[u8]) -> (r: String)
    ensures
        r@ == payload_text(bytes@),
        !valid_utf8(bytes@) ==> r@ == lossy_decode(bytes@),
{
    String::from_utf8_lossy(bytes).into_owned()
}

/// What decoding the front of a buffer yields.
pub open spec fn spec_decode(b: Seq<u8>) -> DecodedV {
    if b.len() < 3 {
        DecodedV::NeedMore
    } else if b[0] > TAG_USERNAME_TAKEN {
        DecodedV::Fail(ProtocolError::MalformedFrame)
    } else if spec_frame_len(b) > MAX_PAYLOAD {
        DecodedV::Fail(ProtocolError::MessageTooLarge)
    } else if b[0] >= TAG_DISCONNECTED && spec_frame_len(b) != 0 {
        DecodedV::Fail(ProtocolError::MalformedFrame)
    } else if b.len() < 3 + spec_frame_len(b) {
        DecodedV::NeedMore
    } else {
        let p = b.subrange(3, 3 + spec_frame_len(b));
        let consumed = 3 + spec_frame_len(b);
        if b[0] == TAG_USERNAME {
            DecodedV::Message(TransmissionV::Username(payload_text(p)), consumed)
        } else if b[0] == TAG_COMMAND {
            DecodedV::Message(TransmissionV::Command(payload_text(p)), consumed)
        } else if b[0] == TAG_DISCONNECTED {
            DecodedV::Message(TransmissionV::ClientDisconnected, consumed)
        } else if b[0] == TAG_USERNAME_OK {
            DecodedV::Message(TransmissionV::UsernameOk, consumed)
        } else if b[0] == TAG_USERNAME_INVALID {
            DecodedV::Message(TransmissionV::UsernameInvalid, consumed)
        } else {
            DecodedV::Message(TransmissionV::UsernameTaken, consumed)
        }
    }
}

/// Encodes one message as one frame. Fails only when the text's UTF-8 is
/// longer than [`MAX_PAYLOAD`] bytes.
pub fn encode(t: &Transmission) -> (r: Result<Vec<u8>, ProtocolError>)
    ensures
        encodable(t@) ==> (r matches Ok(v) && v@ == spec_encode(t@)),
        !encodable(t@) ==> r === Err(ProtocolError::MessageTooLarge),
{
    match t {
        Transmission::Username(s) => text_frame(TAG_USERNAME, s),
        Transmission::Command(s) => text_frame(TAG_COMMAND, s),
        Transmission::ClientDisconnected => Ok(control_frame(TAG_DISCONNECTED)),
        Transmission::UsernameOk => Ok(control_frame(TAG_USERNAME_OK)),
        Transmission::UsernameInvalid => Ok(control_frame(TAG_USERNAME_INVALID)),
        Transmission::UsernameTaken => Ok(control_frame(TAG_USERNAME_TAKEN)),
    }
}

/// Builds the frame of a text-carrying message, or refuses an over-long one.
fn text_frame(tag: u8, s: &String) -> (r: Result<Vec<u8>, ProtocolError>)
    ensures
        encode_utf8(s@).len() <= MAX_PAYLOAD ==> (r matches Ok(v) && v@ == spec_frame(
            tag,
            encode_utf8(s@),
        )),
        encode_utf8(s@).len() > MAX_PAYLOAD ==> r === Err(ProtocolError::MessageTooLarge),
{
    let mut payload = s.as_str().as_bytes_vec();
    let n = payload.len();
    if n > MAX_PAYLOAD {
        return Err(ProtocolError::MessageTooLarge);
    }
    let mut out: Vec<u8> = Vec::new();
    out.push(tag);
    out.push((n / 256) as u8);
    out.push((n % 256) as u8);
    out.append(&mut payload);
    assert(out@ =~= spec_frame(tag, encode_utf8(s@)));
    Ok(out)
}

/// Builds the frame of a control message, whose payload is empty.
fn control_frame(tag: u8) -> (v: Vec<u8>)
    ensures
        v@ == spec_frame(tag, Seq::<u8>::empty()),
{
    let mut out: Vec<u8> = Vec::new();
    out.push(tag);
    out.push(0);
    out.push(0);
    assert(out@ =~= spec_frame(tag, Seq::<u8>::empty()));
    out
}

/// Decodes the first frame of a buffer, reporting how many bytes it took,
/// or that the buffer is still short of a whole frame, or that the frame
/// is one the protocol refuses.
pub fn decode(buf: &[u8]) -> (r: Decoded)
    ensures
        r@ == spec_decode(buf@),
{
    if buf.len() < 3 {
        return Decoded::NeedMore;
    }
    let head: Vec<u8> = slice_to_vec(slice_subrange(buf, 0, 3));
    let tag = head[0];
    let len: usize = (head[1] as usize) * 256 + (head[2] as usize);
    if tag > TAG_USERNAME_TAKEN {
        return Decoded::Fail(ProtocolError::MalformedFrame);
    }
    if len > MAX_PAYLOAD {
        return Decoded::Fail(ProtocolError::MessageTooLarge);
    }
    if tag >= TAG_DISCONNECTED && len != 0 {
        return Decoded::Fail(ProtocolError::MalformedFrame);
    }
    if buf.len() < 3 + len {
        return Decoded::NeedMore;
    }
    let consumed = 3 + len;
    if tag == TAG_DISCONNECTED {
        return Decoded::Message(Transmission::ClientDisconnected, consumed);
    }
    if tag == TAG_USERNAME_OK {
        return Decoded::Message(Transmission::UsernameOk, consumed);
    }
    if tag == TAG_USERNAME_INVALID {
        return Decoded::Message(Transmission::UsernameInvalid, consumed);
    }
    if tag == TAG_USERNAME_TAKEN {
        return Decoded::Message(Transmission::UsernameTaken, consumed);
    }
    let payload = slice_subrange(buf, 3, consumed);
    let text = bytes_to_text(payload);
    if tag == TAG_USERNAME {
        Decoded::Message(Transmission::Username(text), consumed)
    } else {
        Decoded::Message(Transmission::Command(text), consumed)
    }
}

/// Law: a frame built by [`spec_encode`] decodes back to the message it
/// came from, consuming the whole frame. This is the round trip behind
/// [`encode`] and [`decode`].
pub proof fn lemma_encode_decode(t: TransmissionV)
    requires
        encodable(t),
    ensures
        spec_decode(spec_encode(t)) == DecodedV::Message(t, spec_encode(t).len() as int),
{
    broadcast use encode_utf8_valid_utf8, encode_utf8_decode_utf8;

    let p = spec_payload(t);
    let b = spec_encode(t);
    let n = p.len() as int;
    assert(n == 256 * (n / 256) + n % 256) by {
        vstd::arithmetic::div_mod::lemma_fundamental_div_mod(n, 256);
    };
    assert(spec_frame_len(b) == n);
    assert(b.subrange(3, 3 + n) =~= p);
    match t {
        TransmissionV::Username(s) => {
            assert(payload_text(p) == s);
        },
        TransmissionV::Command(s) => {
            assert(payload_text(p) == s);
        },
        _ => {
            assert(p =~= Seq::<u8>::empty());
        },
    }
}

} // verus!
