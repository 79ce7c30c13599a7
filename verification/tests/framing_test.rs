use simulation_testing::framing::{
    encode_frame, find_delimiter, FrameBuffer, FRAME_BUFFER_CAPACITY, FRAME_DELIMITER,
};
use simulation_testing::text::{decimal_string, trim_text};

fn drained(buffer: &mut FrameBuffer) -> Vec<Vec<u8>> {
    buffer.drain_frames().iter().map(|frame| frame.to_vec()).collect()
}

#[test]
fn frame_constants() {
    assert_eq!(FRAME_DELIMITER, b'\n');
    assert_eq!(FRAME_BUFFER_CAPACITY, 4096);
}

#[test]
fn encode_appends_one_delimiter() {
    assert_eq!(encode_frame(b"hello"), b"hello\n".to_vec());
    assert_eq!(encode_frame(b""), b"\n".to_vec());
    assert_eq!(encode_frame(b"a\nb"), b"a\nb\n".to_vec());
}

#[test]
fn find_delimiter_finds_the_first() {
    assert_eq!(find_delimiter(b""), None);
    assert_eq!(find_delimiter(b"abc"), None);
    assert_eq!(find_delimiter(b"\n"), Some(0));
    assert_eq!(find_delimiter(b"ab\ncd\n"), Some(2));
}

#[test]
fn frames_are_split_on_the_delimiter() {
    let mut buffer = FrameBuffer::new();
    assert_eq!(buffer.len(), 0);
    buffer.extend(b"one\ntwo\nthr");
    assert_eq!(buffer.len(), 11);
    assert_eq!(drained(&mut buffer), vec![b"one".to_vec(), b"two".to_vec()]);
    assert_eq!(buffer.len(), 3);
    assert!(drained(&mut buffer).is_empty());
    buffer.extend(b"ee\n");
    assert_eq!(drained(&mut buffer), vec![b"three".to_vec()]);
    assert_eq!(buffer.len(), 0);
}

#[test]
fn empty_frames_are_skipped() {
    let mut buffer = FrameBuffer::new();
    buffer.extend(b"\n\na\n\n\nb\n\n");
    assert_eq!(drained(&mut buffer), vec![b"a".to_vec(), b"b".to_vec()]);
    assert_eq!(buffer.len(), 0);
    buffer.extend(b"\n");
    assert!(drained(&mut buffer).is_empty());
    assert_eq!(buffer.len(), 0);
}

#[test]
fn frames_arrive_the_same_in_pieces() {
    let stream = b"alpha\nbeta\n\ngamma\ndel".to_vec();
    let mut whole = FrameBuffer::new();
    whole.extend(&stream);
    let expected = drained(&mut whole);
    assert_eq!(expected, vec![b"alpha".to_vec(), b"beta".to_vec(), b"gamma".to_vec()]);
    for cut in 0..=stream.len() {
        let mut pieces = FrameBuffer::new();
        pieces.extend(&stream[..cut]);
        let mut got = drained(&mut pieces);
        pieces.extend(&stream[cut..]);
        got.extend(drained(&mut pieces));
        assert_eq!(got, expected, "cut at {}", cut);
        assert_eq!(pieces.len(), 3);
    }
}

#[test]
fn encoded_frame_round_trip() {
    let mut buffer = FrameBuffer::new();
    buffer.extend(&encode_frame(b"Message 0 from node n1"));
    buffer.extend(&encode_frame(&[0xFF, 0xFE]));
    assert_eq!(drained(&mut buffer), vec![b"Message 0 from node n1".to_vec(), vec![0xFF, 0xFE]]);
}

#[test]
fn decimal_numerals() {
    assert_eq!(decimal_string(0), "0");
    assert_eq!(decimal_string(7), "7");
    assert_eq!(decimal_string(10), "10");
    assert_eq!(decimal_string(1234567890), "1234567890");
    assert_eq!(decimal_string(usize::MAX), usize::MAX.to_string());
}

#[test]
fn trim_removes_surrounding_white_space() {
    assert_eq!(trim_text("  a b  "), "a b");
    assert_eq!(trim_text("\t\nx\r\n"), "x");
    assert_eq!(trim_text("x"), "x");
    assert_eq!(trim_text(""), "");
    assert_eq!(trim_text(" \u{a0}\u{3000} "), "");
}
