use espcam_logger::capture::capture;
use espcam_logger::clock::SyncedClock;
use espcam_logger::ingest::{plan_upload, FileWrite};
use espcam_logger::multipart::{decode, Part};
use espcam_logger::schedule::{next_wake, sleep_until, SleepDecision, TimeOfDay};
use espcam_logger::upload::image_request;

#[test]
fn wake_capture_upload_store() {
    let target = TimeOfDay::new(22, 0, 0).unwrap();
    let now = chrono::NaiveDate::from_ymd_opt(2024, 1, 1).unwrap().and_hms_opt(21, 59, 0).unwrap();
    let now = SyncedClock::from_seconds(now.and_utc().timestamp());

    let wake = next_wake(target, now).unwrap();
    assert_eq!(sleep_until(wake, now), SleepDecision::Sleep { micros: 60_000_000 });
    assert_eq!(wake.label(), Some(b"2024-01-01T22:00:00".to_vec()));

    let frames = vec![Some(b"STALE".to_vec()), Some(b"JPEGDATA".to_vec())];
    let event = capture(wake, frames).unwrap();
    assert_eq!(event.filename, b"2024-01-01T22:00:00.jpg".to_vec());

    let request = image_request(b"http://synology:3000", b"X", &event.filename, &event.image_bytes);
    assert_eq!(
        decode(&request.body, b"X"),
        Ok(vec![Part { filename: b"2024-01-01T22:00:00.jpg".to_vec(), data: b"JPEGDATA".to_vec() }])
    );
    assert_eq!(
        plan_upload(&request.body, b"X", b"data"),
        Ok(vec![FileWrite {
            path: b"data/2024-01-01T22:00:00.jpg".to_vec(),
            data: b"JPEGDATA".to_vec(),
        }])
    );
}

#[test]
fn next_day_wake_after_the_cycle() {
    let target = TimeOfDay::new(22, 0, 0).unwrap();
    let booted = SyncedClock::from_seconds(1_704_146_400 + 1);
    let wake = next_wake(target, booted).unwrap();
    assert_eq!(wake.label(), Some(b"2024-01-02T22:00:00".to_vec()));
    let done = SyncedClock::from_seconds(1_704_146_400 + 31);
    assert_eq!(sleep_until(wake, done), SleepDecision::Sleep { micros: 86_369_000_000 });
}
