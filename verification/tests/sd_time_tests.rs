use espcam_logger::sd_time::{sd_timestamp, SdTimestamp};

#[test]
fn stamp_of_a_reading() {
    assert_eq!(
        sd_timestamp(Some(54), 0, 0, 22, 0, 0),
        Some(SdTimestamp {
            year_since_1970: 54,
            zero_indexed_month: 0,
            zero_indexed_day: 0,
            hours: 22,
            minutes: 0,
            seconds: 0,
        })
    );
    assert_eq!(
        sd_timestamp(Some(255), 11, 30, 23, 59, 59),
        Some(SdTimestamp {
            year_since_1970: 255,
            zero_indexed_month: 11,
            zero_indexed_day: 30,
            hours: 23,
            minutes: 59,
            seconds: 59,
        })
    );
}

#[test]
fn stamp_before_1970_is_none() {
    assert_eq!(sd_timestamp(None, 0, 0, 0, 0, 0), None);
}

#[test]
fn stamp_is_never_cut_to_fit() {
    assert_eq!(sd_timestamp(Some(256), 0, 0, 0, 0, 0), None);
    assert_eq!(sd_timestamp(Some(0), 12, 0, 0, 0, 0), None);
    assert_eq!(sd_timestamp(Some(0), 0, 31, 0, 0, 0), None);
    assert_eq!(sd_timestamp(Some(0), 0, 0, 24, 0, 0), None);
    assert_eq!(sd_timestamp(Some(0), 0, 0, 0, 60, 0), None);
    assert_eq!(sd_timestamp(Some(0), 0, 0, 0, 0, 60), None);
    assert_eq!(sd_timestamp(Some(0), 256, 0, 0, 0, 0), None);
}
