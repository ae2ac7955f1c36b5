use nestor_replay::candump::{can_id_string, candump_line, payload_string};
use nestor_replay::hexdata::decode_frame_data;
use nestor_replay::records::CANFrameDTO;
use nestor_replay::text::{hex_digit_count, push_decimal, push_hex_padded, signed_decimal_string};

fn frame(can_id: u32, extended: bool, data_hex: &str) -> CANFrameDTO {
    CANFrameDTO {
        can_id,
        extended,
        rtr: false,
        error: false,
        data_hex: data_hex.to_string(),
    }
}

#[test]
fn decimal_text_of_signed_values() {
    assert_eq!(signed_decimal_string(0), "0");
    assert_eq!(signed_decimal_string(7), "7");
    assert_eq!(signed_decimal_string(-42), "-42");
    assert_eq!(signed_decimal_string(1234567890), "1234567890");
    assert_eq!(signed_decimal_string(i64::MAX), i64::MAX.to_string());
    assert_eq!(signed_decimal_string(i64::MIN), i64::MIN.to_string());
}

#[test]
fn decimal_digits_append() {
    let mut s = String::from("n=");
    push_decimal(&mut s, 10000);
    assert_eq!(s, "n=10000");
}

#[test]
fn hex_padding_widths() {
    let mut s = String::new();
    push_hex_padded(&mut s, 0x5A0, 3);
    assert_eq!(s, "5A0");
    let mut s = String::new();
    push_hex_padded(&mut s, 0x5, 3);
    assert_eq!(s, "005");
    let mut s = String::new();
    push_hex_padded(&mut s, 0x12345, 3);
    assert_eq!(s, "12345");
    let mut s = String::new();
    push_hex_padded(&mut s, 0, 8);
    assert_eq!(s, "00000000");
    assert_eq!(hex_digit_count(0), 1);
    assert_eq!(hex_digit_count(0xFF), 2);
    assert_eq!(hex_digit_count(u64::MAX), 16);
}

#[test]
fn can_id_text_widths() {
    assert_eq!(can_id_string(0x5A0, false), "5A0");
    assert_eq!(can_id_string(0x7, false), "007");
    assert_eq!(can_id_string(0x1ABC, false), "1ABC");
    assert_eq!(can_id_string(0x1ABCDEF0, true), "1ABCDEF0");
    assert_eq!(can_id_string(0x123, true), "00000123");
    assert_eq!(can_id_string(0x7FF, false).len(), 3);
    assert_eq!(can_id_string(0x1FFF_FFFF, true).len(), 8);
}

#[test]
fn payload_text_is_spaced_hex() {
    assert_eq!(payload_string(&[]), "");
    assert_eq!(payload_string(&[0x0A]), "0A");
    assert_eq!(payload_string(&[0x10, 0xFF, 0x00]), "10 FF 00");
}

#[test]
fn candump_line_matches_readme() {
    let f = frame(0x5A0, false, "1011121314151617");
    let data = decode_frame_data(&f);
    assert_eq!(candump_line("vcan0", &f, &data), "vcan0  5A0 [8]  10 11 12 13 14 15 16 17");
    let f = frame(0x5A2, false, "1213141516171819");
    let data = decode_frame_data(&f);
    assert_eq!(candump_line("vcan0", &f, &data), "vcan0  5A2 [8]  12 13 14 15 16 17 18 19");
}

#[test]
fn candump_line_extended_and_empty() {
    let f = frame(0x18FF50E5, true, "");
    let data = decode_frame_data(&f);
    assert_eq!(candump_line("can0", &f, &data), "can0  18FF50E5 [0]  ");
}

#[test]
fn payload_decoding() {
    assert_eq!(decode_frame_data(&frame(1, false, "0a1B")), vec![0x0A, 0x1B]);
    assert_eq!(decode_frame_data(&frame(1, false, "deadBEEF")), vec![0xDE, 0xAD, 0xBE, 0xEF]);
    assert_eq!(decode_frame_data(&frame(1, false, "")), Vec::<u8>::new());
}

#[test]
fn payload_decoding_errors_give_empty() {
    assert_eq!(decode_frame_data(&frame(1, false, "abc")), Vec::<u8>::new());
    assert_eq!(decode_frame_data(&frame(1, false, "zz")), Vec::<u8>::new());
    assert_eq!(decode_frame_data(&frame(1, false, "0g")), Vec::<u8>::new());
    assert_eq!(decode_frame_data(&frame(1, false, "éé")), Vec::<u8>::new());
}
