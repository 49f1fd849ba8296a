use plugin_manager::query::{format_duration, QueryInfo, QueryResult, QueryResultData, TrackDuration};

#[test]
fn detailed_all_empty() {
    let q = QueryInfo::as_detailed("", "", "");
    assert_eq!(q.raw(), "");
    assert_eq!(q.track_name(), "");
    assert_eq!(q.artist_name(), "");
    assert_eq!(q.other_info(), "");
    assert!(q.is_empty());
}

#[test]
fn detailed_without_other_info() {
    let q = QueryInfo::as_detailed("Title", "Artist", "");
    assert_eq!(q.raw(), "Title Artist");
    assert_eq!(q.track_name(), "Title");
    assert_eq!(q.artist_name(), "Artist");
    assert_eq!(q.other_info(), "");
    assert!(!q.is_empty());
}

#[test]
fn detailed_all_fields() {
    let q = QueryInfo::as_detailed("Song", "Band", "live");
    assert_eq!(q.raw(), "Song Band live");
    assert_eq!(q.other_info(), "live");
}

#[test]
fn detailed_missing_middle_field() {
    let q = QueryInfo::as_detailed("Song", "", "live");
    assert_eq!(q.raw(), "Song  live");
    assert_eq!(q.artist_name(), "");
}

#[test]
fn detailed_trims_outer_white_space() {
    let q = QueryInfo::as_detailed("", "", "  x\t");
    assert_eq!(q.raw(), "x");
    assert_eq!(q.other_info(), "  x\t");
}

#[test]
fn raw_query_has_no_fields() {
    let q = QueryInfo::as_raw("  free text ");
    assert_eq!(q.raw(), "  free text ");
    assert_eq!(q.track_name(), "");
    assert_eq!(q.artist_name(), "");
    assert_eq!(q.other_info(), "");
    assert!(!q.is_empty());
    assert!(QueryInfo::as_raw("").is_empty());
}

#[test]
fn duration_minutes_and_seconds() {
    assert_eq!(format_duration(65), "1:05");
    assert_eq!(format_duration(0), "0:00");
    assert_eq!(format_duration(59), "0:59");
    assert_eq!(format_duration(600), "10:00");
    assert_eq!(format_duration(3599), "59:59");
}

#[test]
fn duration_hour_boundary() {
    assert_eq!(format_duration(3600), "1:00:00");
    assert_eq!(format_duration(3661), "1:01:01");
    assert_eq!(format_duration(36000 + 610), "10:10:10");
}

#[test]
fn duration_str_uses_whole_seconds() {
    assert_eq!(QueryResultData::duration_str(TrackDuration::from_secs(65)), "1:05");
    assert_eq!(QueryResultData::duration_str(TrackDuration::new(3661, 900_000_000)), "1:01:01");
}

#[test]
fn result_data_keeps_its_fields() {
    let track = reqwest::Url::parse("https://music.example/track/1").unwrap();
    let thumb = reqwest::Url::parse("https://music.example/t.png").unwrap();
    let artist = reqwest::Url::parse("https://music.example/a.png").unwrap();
    let d = QueryResultData::new(
        "id1",
        "Song",
        track.clone(),
        thumb.clone(),
        "Band",
        artist.clone(),
        TrackDuration::from_secs(200),
    );
    assert_eq!(d.track_id(), "id1");
    assert_eq!(d.track_name(), "Song");
    assert_eq!(d.artist_name(), "Band");
    assert_eq!(d.track_url(), &track);
    assert_eq!(d.track_thumbnail(), &thumb);
    assert_eq!(d.artist_thumbnail(), &artist);
    assert_eq!(d.duration(), &TrackDuration::from_secs(200));
    let second = QueryResultData::new(
        "id2",
        "Other",
        track,
        thumb,
        "Band",
        artist,
        TrackDuration::from_secs(1),
    );
    let r = QueryResult::new(vec![d, second]);
    assert_eq!(r.data().len(), 2);
    assert_eq!(r.data()[0].track_id(), "id1");
    assert_eq!(r.data()[1].track_id(), "id2");
}

#[test]
fn detailed_trims_unicode_white_space() {
    let q = QueryInfo::as_detailed("\u{3000}Song", "Band", "\u{a0}");
    assert_eq!(q.raw(), "Song Band");
}

#[test]
fn track_duration_parts() {
    let d = TrackDuration::new(12, 5);
    assert_eq!(d.as_secs(), 12);
    assert_eq!(d.subsec_nanos(), 5);
    assert_eq!(TrackDuration::from_secs(9).subsec_nanos(), 0);
}
