use courtyard_core::clock::{local_now_parts, utc_now_parts};
use courtyard_core::outdir::timestamp_id_from;
use courtyard_core::paths::format_datetime_display;

#[test]
fn a_current_local_reading_formats_as_a_full_identifier() {
    let parts = local_now_parts();
    assert!((1..=12).contains(&parts.month));
    assert!((1..=31).contains(&parts.day));
    assert!(parts.hour <= 23 && parts.minute <= 59 && parts.second <= 59);
    let id = timestamp_id_from(&parts).expect("the present year is not negative");
    assert_eq!(id.len(), 15);
    assert_eq!(id.as_bytes()[8], b'_');
    assert!(id.chars().enumerate().all(|(i, c)| i == 8 || c.is_ascii_digit()));
}

#[test]
fn a_current_utc_reading_formats_for_display() {
    let parts = utc_now_parts();
    let shown = format_datetime_display(&parts);
    assert_eq!(shown.len(), 19);
    assert_eq!(shown.as_bytes()[4], b'-');
    assert_eq!(shown.as_bytes()[10], b' ');
    assert_eq!(shown.as_bytes()[13], b':');
}
