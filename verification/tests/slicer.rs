use tacho_card::error::Error;
use tacho_card::slicer::take_n;

#[test]
fn take_n_splits_at_n() {
    let data = [1u8, 2, 3, 4, 5];
    let (head, tail) = take_n(2, &data).unwrap();
    assert_eq!(head, &[1u8, 2][..]);
    assert_eq!(tail, &[3u8, 4, 5][..]);
}

#[test]
fn take_n_parts_join_back_into_the_data() {
    let data: Vec<u8> = (0u8..40).collect();
    for n in 0..=data.len() {
        let (head, tail) = take_n(n, &data).unwrap();
        assert_eq!(head.len(), n);
        assert_eq!(tail.len(), data.len() - n);
        let mut joined = head.to_vec();
        joined.extend_from_slice(tail);
        assert_eq!(joined, data);
    }
}

#[test]
fn take_n_of_nothing_gives_an_empty_head() {
    let data = [7u8, 8];
    let (head, tail) = take_n(0, &data).unwrap();
    assert!(head.is_empty());
    assert_eq!(tail, &[7u8, 8][..]);
}

#[test]
fn take_n_of_everything_gives_an_empty_tail() {
    let data = [7u8, 8];
    let (head, tail) = take_n(2, &data).unwrap();
    assert_eq!(head, &[7u8, 8][..]);
    assert!(tail.is_empty());
}

#[test]
fn take_n_of_empty_data() {
    let data: [u8; 0] = [];
    let (head, tail) = take_n(0, &data).unwrap();
    assert!(head.is_empty());
    assert!(tail.is_empty());
    assert_eq!(take_n(1, &data), Err(Error::TruncatedData));
}

#[test]
fn take_n_beyond_the_data_is_truncated() {
    let data = [1u8, 2, 3];
    assert_eq!(take_n(4, &data), Err(Error::TruncatedData));
    assert_eq!(take_n(usize::MAX, &data), Err(Error::TruncatedData));
}

#[test]
fn take_n_slices_a_response_field_by_field() {
    let mut response = vec![0u8];
    response.extend_from_slice(b"1234567890123456");
    response.extend_from_slice(&[0x90, 0x00]);
    let (_, remaining) = take_n(1, &response).unwrap();
    let (card_number, rest) = take_n(16, remaining).unwrap();
    assert_eq!(card_number, b"1234567890123456");
    assert_eq!(rest, &[0x90u8, 0x00][..]);
}
