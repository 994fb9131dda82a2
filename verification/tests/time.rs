use object_store_server::time::UtcTime;

#[test]
fn instants_span_the_calendar_range() {
    // The last second of year 262142 and the first of year -262143.
    assert!(UtcTime::from_unix(8_210_266_876_799, 999_999_999).is_some());
    assert!(UtcTime::from_unix(8_210_266_876_800, 0).is_none());
    assert!(UtcTime::from_unix(-8_334_601_315_200, 0).is_some());
    assert!(UtcTime::from_unix(-8_334_601_315_201, 999_999_999).is_none());
    assert!(UtcTime::from_unix(0, 1_000_000_000).is_none());
}
