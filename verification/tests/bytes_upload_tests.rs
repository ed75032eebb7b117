use espcam_logger::bytes::{decimal_text, find, occurs_at};
use espcam_logger::upload::{health_request, image_request, Header, IO_BUFFER_BYTES};
use espcam_logger::upload::REQUEST_TIMEOUT_SECONDS;

fn header(name: &[u8], value: &[u8]) -> Header {
    Header { name: name.to_vec(), value: value.to_vec() }
}

#[test]
fn decimal_of_small_and_large_numbers() {
    assert_eq!(decimal_text(0), b"0".to_vec());
    assert_eq!(decimal_text(7), b"7".to_vec());
    assert_eq!(decimal_text(10), b"10".to_vec());
    assert_eq!(decimal_text(4096), b"4096".to_vec());
    assert_eq!(decimal_text(1_000_000), b"1000000".to_vec());
    assert_eq!(decimal_text(usize::MAX), usize::MAX.to_string().into_bytes());
}

#[test]
fn decimal_agrees_with_the_standard_library() {
    let mut n: usize = 1;
    while n < 1_000_000_000 {
        assert_eq!(decimal_text(n), n.to_string().into_bytes());
        assert_eq!(decimal_text(n - 1), (n - 1).to_string().into_bytes());
        n = n * 3 + 1;
    }
}

#[test]
fn occurs_at_checks_one_place() {
    assert!(occurs_at(b"hello", b"ell", 1));
    assert!(!occurs_at(b"hello", b"ell", 0));
    assert!(!occurs_at(b"hello", b"lo!", 3));
    assert!(occurs_at(b"hello", b"", 5));
    assert!(!occurs_at(b"hello", b"", 6));
    assert!(!occurs_at(b"", b"a", 0));
    assert!(!occurs_at(b"ab", b"abc", 0));
    assert!(!occurs_at(b"ab", b"b", usize::MAX));
}

#[test]
fn find_gives_the_first_occurrence() {
    assert_eq!(find(b"abcabc", b"bc", 0), Some(1));
    assert_eq!(find(b"abcabc", b"bc", 1), Some(1));
    assert_eq!(find(b"abcabc", b"bc", 2), Some(4));
    assert_eq!(find(b"abcabc", b"bc", 5), None);
    assert_eq!(find(b"abcabc", b"cb", 0), None);
    assert_eq!(find(b"abc", b"abcd", 0), None);
    assert_eq!(find(b"abc", b"", 0), Some(0));
    assert_eq!(find(b"abc", b"", 3), Some(3));
    assert_eq!(find(b"abc", b"", 4), None);
    assert_eq!(find(b"aaa", b"aa", 0), Some(0));
    assert_eq!(find(b"abc", b"c", 2), Some(2));
}

#[test]
fn client_limits() {
    assert_eq!(REQUEST_TIMEOUT_SECONDS, 60);
    assert_eq!(IO_BUFFER_BYTES, 4096);
}

#[test]
fn health_request_is_posted_as_json() {
    let body = b"{\"voltage\":0.0,\"timestamp\":\"2024-01-01T22:00:00\"}".to_vec();
    let request = health_request(b"http://synology:3000", body.clone());
    assert_eq!(request.uri, b"http://synology:3000/health".to_vec());
    assert_eq!(
        request.headers,
        vec![header(b"Content-Type", b"application/json"), header(b"Content-Length", b"49")]
    );
    assert_eq!(request.body, body);
    assert_eq!(body.len(), 49);
}

#[test]
fn health_request_with_an_empty_body() {
    let request = health_request(b"", Vec::new());
    assert_eq!(request.uri, b"/health".to_vec());
    assert_eq!(request.headers[1], header(b"Content-Length", b"0"));
    assert_eq!(request.body, Vec::<u8>::new());
}

#[test]
fn image_request_frames_the_picture() {
    let request = image_request(b"http://synology:3000", b"X", b"2024-01-01T22:00:00.jpg", b"JPEGDATA");
    let body: &[u8] = b"--X\r\nContent-Disposition: form-data; name=\"file\"; filename=\"2024-01-01T22:00:00.jpg\"\r\nContent-Type: image/jpeg\r\n\r\nJPEGDATA\r\n--X--\r\n";
    assert_eq!(request.uri, b"http://synology:3000/upload".to_vec());
    assert_eq!(request.body, body.to_vec());
    assert_eq!(
        request.headers,
        vec![
            header(b"Content-Type", b"multipart/form-data; boundary=X"),
            header(b"Content-Length", body.len().to_string().as_bytes()),
        ]
    );
    assert_eq!(body.len(), 131);
}
