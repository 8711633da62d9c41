use lsproto::framing::{decode_frame, encode_frame, read_header, FrameError};

#[test]
fn encode_writes_length_header() {
    let out = encode_frame(b"{\"id\":1}");
    assert_eq!(out, b"Content-Length: 8\r\n\r\n{\"id\":1}".to_vec());
}

#[test]
fn encode_empty_body() {
    assert_eq!(encode_frame(b""), b"Content-Length: 0\r\n\r\n".to_vec());
}

#[test]
fn frame_round_trip_bytes() {
    let body = "{\"method\":\"shutdown\",\"id\":2}".as_bytes();
    let framed = encode_frame(body);
    let (back, used) = decode_frame(&framed).unwrap();
    assert_eq!(back, body.to_vec());
    assert_eq!(used, framed.len());
}

#[test]
fn frame_round_trip_long_body() {
    let body: Vec<u8> = (0..1234u32).map(|i| (i % 251) as u8).collect();
    let framed = encode_frame(&body);
    assert!(framed.starts_with(b"Content-Length: 1234\r\n\r\n"));
    let (back, used) = decode_frame(&framed).unwrap();
    assert_eq!(back, body);
    assert_eq!(used, framed.len());
}

#[test]
fn decode_skips_other_headers() {
    let input = b"Content-Type: application/json\r\nContent-Length: 2\r\n\r\n{}tail";
    let (body, used) = decode_frame(input).unwrap();
    assert_eq!(body, b"{}".to_vec());
    assert_eq!(used, input.len() - 4);
}

#[test]
fn decode_leaves_following_frame() {
    let mut input = encode_frame(b"ab");
    input.extend(encode_frame(b"cde"));
    let (first, used) = decode_frame(&input).unwrap();
    assert_eq!(first, b"ab".to_vec());
    let (second, _) = decode_frame(&input[used..]).unwrap();
    assert_eq!(second, b"cde".to_vec());
}

#[test]
fn decode_missing_length() {
    assert_eq!(decode_frame(b"Content-Type: x\r\n\r\n{}"), Err(FrameError::MissingLength));
}

#[test]
fn decode_lowercase_header_is_not_length() {
    assert_eq!(decode_frame(b"Content-length: 2\r\n\r\n{}"), Err(FrameError::MissingLength));
}

#[test]
fn decode_non_integer_length() {
    assert_eq!(decode_frame(b"Content-Length: 1x\r\n\r\n{}"), Err(FrameError::BadLength));
    assert_eq!(decode_frame(b"Content-Length: \r\n\r\n{}"), Err(FrameError::BadLength));
}

#[test]
fn decode_length_that_overflows() {
    let input = b"Content-Length: 99999999999999999999999\r\n\r\n";
    assert_eq!(decode_frame(input), Err(FrameError::BadLength));
}

#[test]
fn decode_truncated_body() {
    assert_eq!(decode_frame(b"Content-Length: 5\r\n\r\nabc"), Err(FrameError::Incomplete));
}

#[test]
fn decode_unterminated_header() {
    assert_eq!(decode_frame(b"Content-Length: 5\r\n"), Err(FrameError::Incomplete));
    assert_eq!(read_header(b""), Err(FrameError::Incomplete));
}

#[test]
fn header_gives_body_start_and_length() {
    assert_eq!(read_header(b"Content-Length: 42\r\n\r\n"), Ok((22, 42)));
}
