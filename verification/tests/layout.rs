use tacho_card::error::Error;
use tacho_card::layout::{
    decode_field, decode_record, slice_record, DecodeRule, FieldDescriptor, FieldValue,
    RecordLayout,
};

fn layout_of(fields: &[(usize, DecodeRule)]) -> RecordLayout {
    RecordLayout {
        fields: fields
            .iter()
            .map(|&(length, rule)| FieldDescriptor { length, rule })
            .collect(),
    }
}

#[test]
fn slice_record_gives_the_fields_and_the_remainder() {
    let layout = layout_of(&[(1, DecodeRule::Raw), (3, DecodeRule::Text), (2, DecodeRule::Bcd)]);
    let data = [9u8, b'a', b'b', b'c', 0x12, 0x34, 0x90, 0x00];
    let (raw, rest) = slice_record(&layout, &data).unwrap();
    assert_eq!(raw, vec![&[9u8][..], &b"abc"[..], &[0x12u8, 0x34][..]]);
    assert_eq!(rest, &[0x90u8, 0x00][..]);
}

#[test]
fn slice_record_of_data_as_long_as_the_layout() {
    let layout = layout_of(&[(2, DecodeRule::Raw), (2, DecodeRule::Raw)]);
    let (raw, rest) = slice_record(&layout, &[1, 2, 3, 4]).unwrap();
    assert_eq!(raw, vec![&[1u8, 2][..], &[3u8, 4][..]]);
    assert!(rest.is_empty());
}

#[test]
fn slice_record_of_short_data_is_truncated() {
    let layout = layout_of(&[(2, DecodeRule::Raw), (2, DecodeRule::Raw)]);
    assert_eq!(slice_record(&layout, &[1, 2, 3]), Err(Error::TruncatedData));
    assert_eq!(slice_record(&layout, &[1]), Err(Error::TruncatedData));
    assert_eq!(slice_record(&layout, &[]), Err(Error::TruncatedData));
}

#[test]
fn slice_record_with_an_empty_layout() {
    let layout = layout_of(&[]);
    let (raw, rest) = slice_record(&layout, &[1, 2]).unwrap();
    assert!(raw.is_empty());
    assert_eq!(rest, &[1u8, 2][..]);
}

#[test]
fn slice_record_with_fields_of_no_length() {
    let layout = layout_of(&[(0, DecodeRule::Raw), (1, DecodeRule::Raw), (0, DecodeRule::Text)]);
    let (raw, rest) = slice_record(&layout, &[5]).unwrap();
    assert_eq!(raw, vec![&[][..], &[5u8][..], &[][..]]);
    assert!(rest.is_empty());
}

#[test]
fn slice_record_with_lengths_beyond_any_buffer() {
    let layout = layout_of(&[(usize::MAX, DecodeRule::Raw), (usize::MAX, DecodeRule::Raw)]);
    assert_eq!(slice_record(&layout, &[1, 2, 3]), Err(Error::TruncatedData));
    let layout = layout_of(&[(2, DecodeRule::Raw), (usize::MAX, DecodeRule::Raw)]);
    assert_eq!(slice_record(&layout, &[1, 2, 3]), Err(Error::TruncatedData));
}

#[test]
fn decode_field_by_each_rule() {
    assert_eq!(decode_field(DecodeRule::Raw, &[0xFF, 0x20]), Ok(FieldValue::Raw(vec![0xFF, 0x20])));
    assert_eq!(decode_field(DecodeRule::Text, b" ab "), Ok(FieldValue::Text(String::from("ab"))));
    assert_eq!(
        decode_field(DecodeRule::Bcd, &[0x20, 0x24]),
        Ok(FieldValue::Digits(String::from("2024")))
    );
    assert_eq!(decode_field(DecodeRule::Text, &[0xFF]), Err(Error::InvalidEncoding));
    assert_eq!(decode_field(DecodeRule::Bcd, &[0xFF]), Err(Error::InvalidBcdDigit));
}

#[test]
fn decode_record_decodes_each_field_by_its_rule() {
    let layout = layout_of(&[(1, DecodeRule::Raw), (4, DecodeRule::Text), (2, DecodeRule::Bcd)]);
    let data = [0xEEu8, b'a', b'b', b' ', b' ', 0x19, 0x85, 0x90, 0x00];
    assert_eq!(
        decode_record(&layout, &data),
        Ok(vec![
            FieldValue::Raw(vec![0xEE]),
            FieldValue::Text(String::from("ab")),
            FieldValue::Digits(String::from("1985")),
        ])
    );
}

#[test]
fn decode_record_of_short_data_is_truncated_whatever_the_fields_hold() {
    let layout = layout_of(&[(2, DecodeRule::Text), (2, DecodeRule::Bcd)]);
    assert_eq!(decode_record(&layout, &[0xFF, 0xFF, 0x12]), Err(Error::TruncatedData));
    assert_eq!(decode_record(&layout, &[]), Err(Error::TruncatedData));
}

#[test]
fn decode_record_fails_with_the_first_field_that_does_not_decode() {
    let layout = layout_of(&[(2, DecodeRule::Text), (2, DecodeRule::Bcd)]);
    assert_eq!(decode_record(&layout, &[0xFF, 0x41, 0xAA, 0x12]), Err(Error::InvalidEncoding));
    assert_eq!(decode_record(&layout, &[0x41, 0x41, 0xAA, 0x12]), Err(Error::InvalidBcdDigit));
    let layout = layout_of(&[(2, DecodeRule::Bcd), (2, DecodeRule::Text)]);
    assert_eq!(decode_record(&layout, &[0xAA, 0x12, 0xFF, 0x41]), Err(Error::InvalidBcdDigit));
}

#[test]
fn decode_record_does_not_look_at_what_follows_the_layout() {
    let layout = layout_of(&[(2, DecodeRule::Text)]);
    assert_eq!(
        decode_record(&layout, &[b'o', b'k', 0xFF, 0xFF]),
        Ok(vec![FieldValue::Text(String::from("ok"))])
    );
}

#[test]
fn decode_record_with_an_empty_layout() {
    let layout = layout_of(&[]);
    assert_eq!(decode_record(&layout, &[1, 2, 3]), Ok(vec![]));
    assert_eq!(decode_record(&layout, &[]), Ok(vec![]));
}
