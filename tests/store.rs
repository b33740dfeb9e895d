use cmdseq::store::{decode_position, encode_position, load_position};

#[test]
fn load_absent_file_creates_zero() {
    let first = load_position(None).unwrap();
    assert_eq!(first.position, 0);
    let created = first.create.unwrap();
    assert_eq!(created, "0");
    let second = load_position(Some(created.as_str())).unwrap();
    assert_eq!(second.position, 0);
    assert!(second.create.is_none());
}

#[test]
fn save_then_load_round_trips() {
    for v in [0usize, 1, 9, 10, 42, 1000, usize::MAX] {
        let text = encode_position(v);
        assert_eq!(load_position(Some(text.as_str())).unwrap().position, v);
    }
}

#[test]
fn encode_position_is_plain_decimal() {
    assert_eq!(encode_position(123), "123");
    assert_eq!(encode_position(0), "0");
}

#[test]
fn decode_position_trims_whitespace() {
    assert_eq!(decode_position(" 7\n"), Some(7));
    assert_eq!(decode_position("\t+12 "), Some(12));
}

#[test]
fn decode_position_rejects_corrupt_text() {
    assert_eq!(decode_position(""), None);
    assert_eq!(decode_position("abc"), None);
    assert_eq!(decode_position("-1"), None);
    assert_eq!(decode_position("1 2"), None);
    assert_eq!(decode_position("99999999999999999999999"), None);
    assert!(load_position(Some("x")).is_none());
}
