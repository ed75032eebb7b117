use espcam_logger::ingest::{is_safe_filename, plan_upload, response_status, FileWrite, IngestError};
use espcam_logger::ingest::{STATUS_BAD_REQUEST, STATUS_OK, STATUS_STORAGE_FAILURE};
use espcam_logger::multipart::{encode, DecodeError};
use espcam_logger::upload::image_request;
use std::collections::BTreeMap;

fn write(path: &[u8], data: &[u8]) -> FileWrite {
    FileWrite { path: path.to_vec(), data: data.to_vec() }
}

fn carry_out(store: &mut BTreeMap<Vec<u8>, Vec<u8>>, writes: &[FileWrite]) {
    for w in writes {
        store.insert(w.path.clone(), w.data.clone());
    }
}

#[test]
fn upload_of_the_scenario_is_stored_under_its_name() {
    let body = encode(b"X", b"2024-01-01T22:00:00.jpg", b"JPEGDATA");
    assert_eq!(
        plan_upload(&body, b"X", b"data"),
        Ok(vec![write(b"data/2024-01-01T22:00:00.jpg", b"JPEGDATA")])
    );
}

#[test]
fn upload_of_what_the_node_sends() {
    let request = image_request(b"http://host", b"X", b"pic.jpg", b"\xff\xd8\xff\xd9");
    assert_eq!(
        plan_upload(&request.body, b"X", b"uploads"),
        Ok(vec![write(b"uploads/pic.jpg", b"\xff\xd8\xff\xd9")])
    );
}

#[test]
fn upload_of_no_bytes_writes_an_empty_file() {
    let body = encode(b"X", b"empty.jpg", b"");
    assert_eq!(plan_upload(&body, b"X", b"data"), Ok(vec![write(b"data/empty.jpg", b"")]));
}

#[test]
fn upload_of_several_files_writes_each_in_order() {
    let body: &[u8] = b"--B\r\nContent-Disposition: form-data; filename=\"a\"\r\n\r\nA\r\n--B\r\nContent-Disposition: form-data; filename=\"b\"\r\n\r\nBB\r\n--B\r\nContent-Disposition: form-data; filename=\"a\"\r\n\r\nAAA\r\n--B--\r\n";
    assert_eq!(
        plan_upload(body, b"B", b"d"),
        Ok(vec![write(b"d/a", b"A"), write(b"d/b", b"BB"), write(b"d/a", b"AAA")])
    );
}

#[test]
fn upload_of_no_parts_writes_nothing() {
    assert_eq!(plan_upload(b"--B--\r\n", b"B", b"data"), Ok(vec![]));
}

#[test]
fn upload_twice_leaves_one_file_with_the_latest_bytes() {
    let mut store: BTreeMap<Vec<u8>, Vec<u8>> = BTreeMap::new();
    store.insert(b"data/other.jpg".to_vec(), b"kept".to_vec());
    let body = encode(b"X", b"pic.jpg", b"JPEGDATA");
    let writes = plan_upload(&body, b"X", b"data").unwrap();
    carry_out(&mut store, &writes);
    let once = store.clone();
    let again = plan_upload(&body, b"X", b"data").unwrap();
    assert_eq!(again, writes);
    carry_out(&mut store, &again);
    assert_eq!(store, once);
    assert_eq!(store.len(), 2);
    assert_eq!(store.get(b"data/pic.jpg".as_slice()), Some(&b"JPEGDATA".to_vec()));
    assert_eq!(store.get(b"data/other.jpg".as_slice()), Some(&b"kept".to_vec()));
}

#[test]
fn upload_over_an_old_file_replaces_it() {
    let mut store: BTreeMap<Vec<u8>, Vec<u8>> = BTreeMap::new();
    carry_out(&mut store, &plan_upload(&encode(b"X", b"pic.jpg", b"old bytes"), b"X", b"data").unwrap());
    carry_out(&mut store, &plan_upload(&encode(b"X", b"pic.jpg", b"new"), b"X", b"data").unwrap());
    assert_eq!(store.len(), 1);
    assert_eq!(store.get(b"data/pic.jpg".as_slice()), Some(&b"new".to_vec()));
}

#[test]
fn malformed_upload_is_refused() {
    assert_eq!(
        plan_upload(b"garbage", b"X", b"data"),
        Err(IngestError::Multipart(DecodeError::MissingOpeningBoundary))
    );
    assert_eq!(
        plan_upload(b"--X\r\n\r\nA\r\n--X--\r\n", b"X", b"data"),
        Err(IngestError::Multipart(DecodeError::MissingFilename))
    );
    assert_eq!(
        plan_upload(b"--X\r\nContent-Disposition: form-data; filename=\"a\"\r\n\r\nA", b"X", b"data"),
        Err(IngestError::Multipart(DecodeError::UnterminatedPart))
    );
}

#[test]
fn upload_that_leaves_the_directory_is_refused() {
    for name in [&b"../evil"[..], b"a/b", b"/etc/passwd", b"..", b".", b"", b"a\\b", b"a\0b"] {
        let body = encode(b"X", name, b"data");
        assert_eq!(plan_upload(&body, b"X", b"data"), Err(IngestError::InvalidFilename));
    }
}

#[test]
fn one_unsafe_name_refuses_the_whole_upload() {
    let body: &[u8] = b"--B\r\nContent-Disposition: form-data; filename=\"good\"\r\n\r\nA\r\n--B\r\nContent-Disposition: form-data; filename=\"../bad\"\r\n\r\nB\r\n--B--\r\n";
    assert_eq!(plan_upload(body, b"B", b"d"), Err(IngestError::InvalidFilename));
}

#[test]
fn safe_names() {
    assert!(is_safe_filename(b"2024-01-01T22:00:00.jpg"));
    assert!(is_safe_filename(b"..."));
    assert!(is_safe_filename(b".hidden"));
    assert!(is_safe_filename(b"a..b"));
    assert!(is_safe_filename(b"x"));
    assert!(!is_safe_filename(b""));
    assert!(!is_safe_filename(b"."));
    assert!(!is_safe_filename(b".."));
    assert!(!is_safe_filename(b"/"));
    assert!(!is_safe_filename(b"a/"));
    assert!(!is_safe_filename(b"\\"));
    assert!(!is_safe_filename(b"\0"));
}

#[test]
fn statuses() {
    assert_eq!(STATUS_OK, 200);
    assert_eq!(STATUS_BAD_REQUEST, 400);
    assert_eq!(STATUS_STORAGE_FAILURE, 500);
    assert_eq!(response_status(Ok(())), 200);
    assert_eq!(response_status(Err(IngestError::Storage)), 500);
    assert_eq!(response_status(Err(IngestError::InvalidFilename)), 400);
    assert_eq!(response_status(Err(IngestError::MalformedJson)), 400);
    assert_eq!(response_status(Err(IngestError::Multipart(DecodeError::MalformedDelimiter))), 400);
    assert_eq!(IngestError::Multipart(DecodeError::UnterminatedHeaders).status(), 400);
    assert_eq!(IngestError::Storage.status(), 500);
}
