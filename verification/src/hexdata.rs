//! The payload of a frame: hexadecimal text decoded into bytes.
use crate::records::CANFrameDTO;
use vstd::prelude::*;
use vstd::utf8::encode_utf8;

verus! {

/// The error type of the hex crate's decoder.
#[verifier::external_type_specification]
#[verifier::external_body]
pub struct ExFromHexError(hex::FromHexError);

/// `b` is an ASCII hexadecimal digit, in either case.
pub open spec fn is_hex_digit(b: u8) -> bool {
    (0x30 <= b <= 0x39) || (0x41 <= b <= 0x46) || (0x61 <= b <= 0x66)
}

/// The value of the hexadecimal digit `b`.
pub open spec fn hex_digit_value(b: u8) -> int {
    if b <= 0x39 {
        b - 0x30
    } else if b <= 0x46 {
        b - 0x41 + 10
    } else {
        b - 0x61 + 10
    }
}

/// `text` is a whole number of hexadecimal digit pairs.
pub open spec fn is_hex_text(text: Seq<u8>) -> bool {
    &&& text.len() % 2 == 0
    &&& forall|i: int| 0 <= i < text.len() ==> is_hex_digit(#[trigger] text[i])
}

/// The bytes that the digit pairs of `text` stand for, high digit first.
pub open spec fn hex_bytes(text: Seq<u8>) -> Seq<u8> {
    Seq::new(
        text.len() / 2,
        |i: int| (hex_digit_value(text[2 * i]) * 16 + hex_digit_value(text[2 * i + 1])) as u8,
    )
}

/// The payload of `frame`: its hexadecimal text decoded, or nothing when the
/// text is not valid hexadecimal.
pub open spec fn frame_payload(frame: CANFrameDTO) -> Seq<u8> {
    let text = encode_utf8(frame.data_hex@);
    if is_hex_text(text) {
        hex_bytes(text)
    } else {
        Seq::empty()
    }
}

/// A frame's payload is decoded from its text two digits per byte: for
/// valid hexadecimal text it has half as many bytes as the text has digits,
/// byte `i` being sixteen times the value of digit `2i` plus the value of
/// digit `2i + 1`; for any other text it is empty.
pub proof fn lemma_payload_from_digit_pairs(frame: CANFrameDTO)
    ensures
        ({
            let text = encode_utf8(frame.data_hex@);
            let payload = frame_payload(frame);
            &&& is_hex_text(text) ==> {
                &&& payload.len() * 2 == text.len()
                &&& forall|i: int|
                    0 <= i < payload.len() ==> #[trigger] payload[i] == hex_digit_value(text[2 * i])
                        * 16 + hex_digit_value(text[2 * i + 1])
            }
            &&& !is_hex_text(text) ==> payload.len() == 0
        }),
{
    let text = encode_utf8(frame.data_hex@);
    if is_hex_text(text) {
        let payload = frame_payload(frame);
        assert forall|i: int| 0 <= i < payload.len() implies #[trigger] payload[i] == hex_digit_value(
            text[2 * i],
        ) * 16 + hex_digit_value(text[2 * i + 1]) by {
            assert(0 <= 2 * i + 1 < text.len());
            assert(is_hex_digit(text[2 * i]));
            assert(is_hex_digit(text[2 * i + 1]));
        }
    }
}

/// Calls `hex::decode`: it succeeds exactly on an even number of hexadecimal
/// digits (either case) and yields one byte per digit pair, high digit first.
#[verifier::external_body]
fn hex_decode(text: &[u8]) -> (r: Result<Vec<u8>, hex::FromHexError>)
    ensures
        r is Ok <==> is_hex_text(text@),
        r matches Ok(bytes) ==> bytes@ == hex_bytes(text@),
{
    hex::decode(text)
}

/// Decodes the payload of `frame`; text that is not hexadecimal gives an
/// empty payload.
pub fn decode_frame_data(frame: &CANFrameDTO) -> (data: Vec<u8>)
    ensures
        data@ == frame_payload(*frame),
        is_hex_text(encode_utf8(frame.data_hex@)) ==> data@.len() * 2 == encode_utf8(
            frame.data_hex@,
        ).len(),
        !is_hex_text(encode_utf8(frame.data_hex@)) ==> data@.len() == 0,
{
    proof {
        lemma_payload_from_digit_pairs(*frame);
    }
    let text = frame.data_hex.as_str().as_bytes();
    match hex_decode(text) {
        Ok(bytes) => bytes,
        Err(_) => Vec::new(),
    }
}

} // verus!
