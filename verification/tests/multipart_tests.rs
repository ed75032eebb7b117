use espcam_logger::multipart::{decode, encode, DecodeError, Part, DEFAULT_BOUNDARY};

fn part(filename: &[u8], data: &[u8]) -> Part {
    Part { filename: filename.to_vec(), data: data.to_vec() }
}

#[test]
fn default_boundary_is_the_shared_token() {
    assert_eq!(DEFAULT_BOUNDARY, "----WebKitFormBoundary7MA4YWxkTrZu0gW");
}

#[test]
fn encode_is_byte_exact() {
    let body = encode(b"X", b"2024-01-01T22:00:00.jpg", b"JPEGDATA");
    let expected: &[u8] = b"--X\r\nContent-Disposition: form-data; name=\"file\"; filename=\"2024-01-01T22:00:00.jpg\"\r\nContent-Type: image/jpeg\r\n\r\nJPEGDATA\r\n--X--\r\n";
    assert_eq!(body, expected.to_vec());
}

#[test]
fn encode_with_the_default_boundary() {
    let body = encode(DEFAULT_BOUNDARY.as_bytes(), b"a.jpg", b"\x00\x01");
    let expected: &[u8] = b"------WebKitFormBoundary7MA4YWxkTrZu0gW\r\nContent-Disposition: form-data; name=\"file\"; filename=\"a.jpg\"\r\nContent-Type: image/jpeg\r\n\r\n\x00\x01\r\n------WebKitFormBoundary7MA4YWxkTrZu0gW--\r\n";
    assert_eq!(body, expected.to_vec());
}

#[test]
fn encode_of_nothing() {
    let body = encode(b"", b"", b"");
    let expected: &[u8] = b"--\r\nContent-Disposition: form-data; name=\"file\"; filename=\"\"\r\nContent-Type: image/jpeg\r\n\r\n\r\n----\r\n";
    assert_eq!(body, expected.to_vec());
}

#[test]
fn round_trip_of_the_scenario() {
    let body = encode(b"X", b"2024-01-01T22:00:00.jpg", b"JPEGDATA");
    assert_eq!(decode(&body, b"X"), Ok(vec![part(b"2024-01-01T22:00:00.jpg", b"JPEGDATA")]));
}

#[test]
fn round_trip_of_empty_content() {
    let body = encode(b"X", b"empty.jpg", b"");
    assert_eq!(decode(&body, b"X"), Ok(vec![part(b"empty.jpg", b"")]));
}

#[test]
fn round_trip_of_content_with_line_breaks() {
    let data: &[u8] = b"\r\n\r\nab\r\n--\r\n--Y\r\n-X\r\n";
    let body = encode(b"X", b"lines.jpg", data);
    assert_eq!(decode(&body, b"X"), Ok(vec![part(b"lines.jpg", data)]));
}

#[test]
fn round_trip_of_every_byte_value() {
    let data: Vec<u8> = (0..=255u8).collect();
    let boundary = DEFAULT_BOUNDARY.as_bytes();
    let body = encode(boundary, b"all.bin", &data);
    assert_eq!(decode(&body, boundary), Ok(vec![part(b"all.bin", &data)]));
}

#[test]
fn round_trip_of_a_name_holding_the_boundary() {
    let body = encode(b"X", b"--X.jpg", b"data");
    assert_eq!(decode(&body, b"X"), Ok(vec![part(b"--X.jpg", b"data")]));
}

#[test]
fn content_holding_the_marker_is_cut_there() {
    let body = encode(b"X", b"a.jpg", b"one\r\n--X\r\nrest");
    assert_ne!(decode(&body, b"X"), Ok(vec![part(b"a.jpg", b"one\r\n--X\r\nrest")]));
}

#[test]
fn name_holding_a_quote_is_cut_there() {
    let body = encode(b"X", b"a\"b.jpg", b"data");
    assert_eq!(decode(&body, b"X"), Ok(vec![part(b"a", b"data")]));
}

#[test]
fn decode_takes_several_parts() {
    let body: &[u8] = b"--B\r\nContent-Disposition: form-data; name=\"file\"; filename=\"one.jpg\"\r\nContent-Type: image/jpeg\r\n\r\nONE\r\n--B\r\nContent-Disposition: form-data; name=\"other\"; filename=\"two.bin\"\r\n\r\n\r\n--B\r\ncontent-type: text/plain\r\nCONTENT-disposition: form-data; filename=\"three.txt\"; name=\"x\"\r\n\r\nTHREE\r\n\r\n--B--\r\n";
    assert_eq!(
        decode(body, b"B"),
        Ok(vec![part(b"one.jpg", b"ONE"), part(b"two.bin", b""), part(b"three.txt", b"THREE\r\n")])
    );
}

#[test]
fn decode_of_no_parts() {
    assert_eq!(decode(b"--B--\r\n", b"B"), Ok(vec![]));
    assert_eq!(decode(b"--B--", b"B"), Ok(vec![]));
}

#[test]
fn decode_ignores_what_follows_the_closing_delimiter() {
    let body: &[u8] = b"--B\r\nContent-Disposition: form-data; filename=\"a\"\r\n\r\nA\r\n--B--\r\ntrailing\r\n--B\r\n";
    assert_eq!(decode(body, b"B"), Ok(vec![part(b"a", b"A")]));
}

#[test]
fn decode_wants_the_opening_boundary() {
    assert_eq!(decode(b"", b"B"), Err(DecodeError::MissingOpeningBoundary));
    assert_eq!(decode(b"\r\n--B--\r\n", b"B"), Err(DecodeError::MissingOpeningBoundary));
    assert_eq!(decode(b"--C--\r\n", b"B"), Err(DecodeError::MissingOpeningBoundary));
    let body = encode(b"X", b"a.jpg", b"data");
    assert_eq!(decode(&body, b"Y"), Err(DecodeError::MissingOpeningBoundary));
}

#[test]
fn decode_wants_a_line_break_after_a_delimiter() {
    assert_eq!(decode(b"--B", b"B"), Err(DecodeError::MalformedDelimiter));
    assert_eq!(decode(b"--Bx\r\n", b"B"), Err(DecodeError::MalformedDelimiter));
    assert_eq!(decode(b"--B\n", b"B"), Err(DecodeError::MalformedDelimiter));
    let body: &[u8] = b"--B\r\nContent-Disposition: form-data; filename=\"a\"\r\n\r\nA\r\n--Bjunk";
    assert_eq!(decode(body, b"B"), Err(DecodeError::MalformedDelimiter));
}

#[test]
fn decode_wants_the_empty_line() {
    let body: &[u8] = b"--B\r\nContent-Disposition: form-data; filename=\"a\"\r\nA\r\n--B--\r\n";
    assert_eq!(decode(body, b"B"), Err(DecodeError::UnterminatedHeaders));
}

#[test]
fn decode_wants_a_file_name() {
    let no_headers: &[u8] = b"--B\r\n\r\nA\r\n--B--\r\n";
    assert_eq!(decode(no_headers, b"B"), Err(DecodeError::MissingFilename));
    let no_disposition: &[u8] = b"--B\r\nContent-Type: image/jpeg\r\n\r\nA\r\n--B--\r\n";
    assert_eq!(decode(no_disposition, b"B"), Err(DecodeError::MissingFilename));
    let no_attribute: &[u8] = b"--B\r\nContent-Disposition: form-data; name=\"file\"\r\n\r\nA\r\n--B--\r\n";
    assert_eq!(decode(no_attribute, b"B"), Err(DecodeError::MissingFilename));
    let unquoted: &[u8] = b"--B\r\nContent-Disposition: form-data; filename=a.jpg\r\n\r\nA\r\n--B--\r\n";
    assert_eq!(decode(unquoted, b"B"), Err(DecodeError::MissingFilename));
    let open_quote: &[u8] = b"--B\r\nContent-Disposition: form-data; filename=\"a.jpg\r\n\r\nA\r\n--B--\r\n";
    assert_eq!(decode(open_quote, b"B"), Err(DecodeError::MissingFilename));
}

#[test]
fn decode_reads_the_first_disposition_line_only() {
    let body: &[u8] = b"--B\r\nContent-Disposition: form-data; name=\"file\"\r\nContent-Disposition: form-data; filename=\"late\"\r\n\r\nA\r\n--B--\r\n";
    assert_eq!(decode(body, b"B"), Err(DecodeError::MissingFilename));
}

#[test]
fn decode_wants_the_content_to_end() {
    let body: &[u8] = b"--B\r\nContent-Disposition: form-data; filename=\"a\"\r\n\r\nA\r\n--C--\r\n";
    assert_eq!(decode(body, b"B"), Err(DecodeError::UnterminatedPart));
    let cut: &[u8] = b"--B\r\nContent-Disposition: form-data; filename=\"a\"\r\n\r\nA";
    assert_eq!(decode(cut, b"B"), Err(DecodeError::UnterminatedPart));
}

#[test]
fn decode_reports_the_first_fault_and_no_part() {
    let body: &[u8] = b"--B\r\nContent-Disposition: form-data; filename=\"a\"\r\n\r\nA\r\n--B\r\nContent-Type: x\r\n\r\nB\r\n--B--\r\n";
    assert_eq!(decode(body, b"B"), Err(DecodeError::MissingFilename));
}

#[test]
fn decode_takes_an_empty_file_name() {
    let body = encode(b"X", b"", b"data");
    assert_eq!(decode(&body, b"X"), Ok(vec![part(b"", b"data")]));
}
