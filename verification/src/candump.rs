//! The candump-style text printed for each frame in a dry run.
use crate::records::CANFrameDTO;
use crate::frames::{MAX_EXTENDED_ID, MAX_STANDARD_ID};
use crate::text::{
    is_numeral,
    lemma_decimal_digits_read_back,
    lemma_hex_digits_len,
    lemma_hex_padded_read_back,
    numeral_value,
    decimal_digits,
    hex_padded,
    pow16,
    push_decimal,
    push_hex_padded,
};
use vstd::prelude::*;

verus! {

/// The identifier of a frame as candump writes it: eight hexadecimal digits
/// for an extended identifier, three for a standard one (more when the value
/// needs them).
pub open spec fn can_id_text(can_id: u32, extended: bool) -> Seq<char> {
    hex_padded(can_id as nat, if extended { 8 } else { 3 })
}

/// The payload bytes as two-digit upper-case hexadecimal, separated by
/// single spaces.
pub open spec fn payload_text(data: Seq<u8>) -> Seq<char>
    decreases data.len(),
{
    if data.len() == 0 {
        Seq::empty()
    } else if data.len() == 1 {
        hex_padded(data[0] as nat, 2)
    } else {
        payload_text(data.drop_last()) + " "@ + hex_padded(data.last() as nat, 2)
    }
}

/// The line printed for a frame, after the elapsed-time prefix: the
/// interface, the identifier, the payload length in brackets and the payload.
pub open spec fn candump_text(interface: Seq<char>, frame: CANFrameDTO, data: Seq<u8>) -> Seq<char> {
    interface + "  "@ + can_id_text(frame.can_id, frame.extended) + " ["@ + decimal_digits(
        data.len(),
    ) + "]  "@ + payload_text(data)
}

/// An identifier within the range of its width is written with a fixed
/// number of digits: three for a standard identifier, eight for an extended
/// one.
pub proof fn lemma_valid_id_width(can_id: u32, extended: bool)
    requires
        extended ==> can_id <= MAX_EXTENDED_ID,
        !extended ==> can_id <= MAX_STANDARD_ID,
    ensures
        can_id_text(can_id, extended).len() == if extended {
            8int
        } else {
            3int
        },
{
    reveal_with_fuel(pow16, 9);
    if extended {
        lemma_hex_digits_len(can_id as nat, 8);
    } else {
        lemma_hex_digits_len(can_id as nat, 3);
    }
}

/// `text` shows the bytes `data` as candump does: two hexadecimal digits
/// per byte that read as the byte, with one space between bytes.
pub open spec fn shows_payload(text: Seq<char>, data: Seq<u8>) -> bool {
    &&& text.len() == if data.len() == 0 {
        0
    } else {
        3 * data.len() - 1
    }
    &&& forall|i: int|
        0 <= i < data.len() ==> {
            &&& is_numeral(#[trigger] text.subrange(3 * i, 3 * i + 2), 16)
            &&& numeral_value(text.subrange(3 * i, 3 * i + 2), 16) == data[i]
        }
    &&& forall|i: int| 0 <= i < data.len() - 1 ==> #[trigger] text[3 * i + 2] == ' '
}

/// Two hexadecimal digits padded to width two show a byte.
proof fn lemma_byte_text(b: u8)
    ensures
        hex_padded(b as nat, 2).len() == 2,
        is_numeral(hex_padded(b as nat, 2), 16),
        numeral_value(hex_padded(b as nat, 2), 16) == b,
{
    reveal_with_fuel(pow16, 3);
    lemma_hex_digits_len(b as nat, 2);
    lemma_hex_padded_read_back(b as nat, 2);
}

/// The payload text shows every byte of the payload, in order.
pub proof fn lemma_payload_text_shows_bytes(data: Seq<u8>)
    ensures
        shows_payload(payload_text(data), data),
    decreases data.len(),
{
    let text = payload_text(data);
    if data.len() == 1 {
        lemma_byte_text(data[0]);
        assert(text.subrange(0, 2) =~= text);
    } else if data.len() >= 2 {
        let prefix = data.drop_last();
        let front = payload_text(prefix);
        let last = hex_padded(data.last() as nat, 2);
        lemma_payload_text_shows_bytes(prefix);
        lemma_byte_text(data.last());
        reveal_strlit(" ");
        assert(text =~= front + seq![' '] + last);
        assert forall|i: int| 0 <= i < data.len() implies {
            &&& is_numeral(#[trigger] text.subrange(3 * i, 3 * i + 2), 16)
            &&& numeral_value(text.subrange(3 * i, 3 * i + 2), 16) == data[i]
        } by {
            if i < data.len() - 1 {
                assert(text.subrange(3 * i, 3 * i + 2) =~= front.subrange(3 * i, 3 * i + 2));
                assert(prefix[i] == data[i]);
            } else {
                assert(text.subrange(3 * i, 3 * i + 2) =~= last);
            }
        }
        assert forall|i: int| 0 <= i < data.len() - 1 implies #[trigger] text[3 * i + 2] == ' ' by {
            if i < data.len() - 2 {
                assert(text[3 * i + 2] == front[3 * i + 2]);
            }
        }
    }
}

/// `line` is a candump line for `frame` with payload `data` on `interface`:
/// the interface, two spaces, the identifier `id` as a hexadecimal numeral
/// of the frame's identifier, ` [`, the payload length `count` in decimal,
/// `]  `, and the payload shown byte by byte.
pub open spec fn candump_fields(
    line: Seq<char>,
    interface: Seq<char>,
    frame: CANFrameDTO,
    data: Seq<u8>,
    id: Seq<char>,
    count: Seq<char>,
    payload: Seq<char>,
) -> bool {
    &&& line == interface + "  "@ + id + " ["@ + count + "]  "@ + payload
    &&& is_numeral(id, 16)
    &&& numeral_value(id, 16) == frame.can_id
    &&& id.len() >= if frame.extended {
        8int
    } else {
        3int
    }
    &&& is_numeral(count, 10)
    &&& numeral_value(count, 10) == data.len()
    &&& shows_payload(payload, data)
}

/// The candump line names the frame's identifier in hexadecimal, gives the
/// number of payload bytes in brackets, and shows each payload byte.
pub proof fn lemma_candump_fields(interface: Seq<char>, frame: CANFrameDTO, data: Seq<u8>)
    ensures
        exists|id: Seq<char>, count: Seq<char>, payload: Seq<char>|
            #[trigger] candump_fields(
                candump_text(interface, frame, data),
                interface,
                frame,
                data,
                id,
                count,
                payload,
            ),
{
    let id = can_id_text(frame.can_id, frame.extended);
    let count = decimal_digits(data.len());
    let payload = payload_text(data);
    lemma_hex_padded_read_back(frame.can_id as nat, if frame.extended { 8 } else { 3 });
    lemma_decimal_digits_read_back(data.len());
    lemma_payload_text_shows_bytes(data);
    assert(candump_fields(candump_text(interface, frame, data), interface, frame, data, id, count, payload));
}

/// Writes the identifier of a frame as candump does.
pub fn can_id_string(can_id: u32, extended: bool) -> (text: String)
    ensures
        text@ == can_id_text(can_id, extended),
        is_numeral(text@, 16),
        numeral_value(text@, 16) == can_id,
        text@.len() >= if extended {
            8int
        } else {
            3int
        },
{
    proof {
        lemma_hex_padded_read_back(can_id as nat, if extended { 8 } else { 3 });
    }
    let mut text = String::new();
    let width: usize = if extended { 8 } else { 3 };
    push_hex_padded(&mut text, can_id as u64, width);
    assert(text@ =~= can_id_text(can_id, extended));
    text
}

/// Writes the payload bytes as candump does.
pub fn payload_string(data: &[u8]) -> (text: String)
    ensures
        text@ == payload_text(data@),
        shows_payload(text@, data@),
{
    proof {
        lemma_payload_text_shows_bytes(data@);
    }
    let mut text = String::new();
    let mut i: usize = 0;
    while i < data.len()
        invariant
            i <= data.len(),
            text@ == payload_text(data@.take(i as int)),
        decreases data.len() - i,
    {
        let ghost before = text@;
        if i > 0 {
            text.append(" ");
        }
        push_hex_padded(&mut text, data[i] as u64, 2);
        proof {
            let next = data@.take(i + 1);
            assert(next.drop_last() =~= data@.take(i as int));
            assert(next.last() == data@[i as int]);
            if i == 0 {
                assert(Seq::<char>::empty() + hex_padded(data@[0] as nat, 2) =~= hex_padded(
                    data@[0] as nat,
                    2,
                ));
            }
        }
        i = i + 1;
    }
    assert(data@.take(data.len() as int) =~= data@);
    text
}

/// Writes the line printed for `frame` with payload `data` on `interface`,
/// after the elapsed-time prefix.
pub fn candump_line(interface: &str, frame: &CANFrameDTO, data: &[u8]) -> (line: String)
    ensures
        line@ == candump_text(interface@, *frame, data@),
        exists|id: Seq<char>, count: Seq<char>, payload: Seq<char>|
            #[trigger] candump_fields(line@, interface@, *frame, data@, id, count, payload),
{
    proof {
        lemma_candump_fields(interface@, *frame, data@);
    }
    let mut line = interface.to_owned();
    line.append("  ");
    let id = can_id_string(frame.can_id, frame.extended);
    line.append(id.as_str());
    line.append(" [");
    push_decimal(&mut line, data.len() as u64);
    line.append("]  ");
    let payload = payload_string(data);
    line.append(payload.as_str());
    line
}

} // verus!
