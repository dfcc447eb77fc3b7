use leben_asm::coding::reader::Reader;

#[test]
fn read_consumes_one_byte_at_a_time() {
    let data = [1u8, 2, 3];
    let mut reader = Reader::new(&data);
    assert_eq!(reader.read(), Some(1));
    assert_eq!(reader.read(), Some(2));
    assert_eq!(reader.read(), Some(3));
    assert_eq!(reader.read(), None);
    assert!(reader.at_end());
}

#[test]
fn read_n_never_reobserves_consumed_bytes() {
    // a buffer of concatenated known-length units re-segments exactly
    let data = [0xc3u8, 0x14, 0x00, 0x78, 0x06, 0x2a];
    let mut reader = Reader::new(&data);
    assert_eq!(reader.read_n(3), Some(&data[0..3]));
    assert_eq!(reader.read_amount_bytes(), 3);
    assert_eq!(reader.read_n(1), Some(&data[3..4]));
    assert_eq!(reader.read_n(2), Some(&data[4..6]));
    assert_eq!(reader.read_n(1), None);
    assert!(reader.at_end());
}

#[test]
fn read_n_beyond_the_end_consumes_nothing() {
    let data = [1u8, 2];
    let mut reader = Reader::new(&data);
    assert_eq!(reader.read_n(3), None);
    assert_eq!(reader.read_amount_bytes(), 0);
    assert_eq!(reader.read_n(2), Some(&data[0..2]));
}

#[test]
fn peek_never_advances_the_cursor() {
    let data = [9u8, 8, 7];
    let mut reader = Reader::new(&data);
    assert_eq!(reader.peek(), Some(9));
    assert_eq!(reader.peek(), Some(9));
    assert_eq!(reader.peek_at(2), Some(7));
    assert_eq!(reader.peek_at(3), None);
    assert_eq!(reader.peek_n(3), Some(&data[0..3]));
    assert_eq!(reader.read_amount_bytes(), 0);
    assert_eq!(reader.read(), Some(9));
}

#[test]
fn read_pred_consumes_only_on_a_match() {
    let data = [5u8, 6];
    let mut reader = Reader::new(&data);
    assert_eq!(reader.read_pred(|b| b == 9), None);
    assert_eq!(reader.read_amount_bytes(), 0);
    assert_eq!(reader.read_pred(|b| b == 5), Some(5));
    assert_eq!(reader.read_amount_bytes(), 1);
}

#[test]
fn skip_discards_bytes() {
    let data = [1u8, 2, 3, 4];
    let mut reader = Reader::new(&data);
    reader.skip();
    reader.skip_n(2);
    assert_eq!(reader.read(), Some(4));
    reader.skip();
    assert_eq!(reader.read_amount_bytes(), 4);
}

#[test]
fn read_until_consumes_through_the_separator() {
    let data = b"one,two,three";
    let mut reader = Reader::new(data);
    assert_eq!(reader.read_until(b','), Some(&b"one"[..]));
    assert_eq!(reader.read_amount_bytes(), 4);
    assert_eq!(reader.read_until(b','), Some(&b"two"[..]));
    assert_eq!(reader.read_until(b','), None);
    assert_eq!(reader.read_until_or_end(b','), &b"three"[..]);
    assert!(reader.at_end());
}
