use plugin_manager::progress::{parse_progress, progress_values, scan_step, ProgressStep};

#[test]
fn progress_with_fraction() {
    assert_eq!(parse_progress(b"[download]  45.2%"), Some(452));
    assert_eq!(parse_progress(b"10.0%"), Some(100));
    assert_eq!(parse_progress(b"100.0%"), Some(1000));
}

#[test]
fn progress_without_fraction() {
    assert_eq!(parse_progress(b"done 100%"), Some(1000));
    assert_eq!(parse_progress(b"7.%"), Some(70));
    assert_eq!(parse_progress(b"at 7%"), Some(70));
}

#[test]
fn progress_keeps_last_three_digits() {
    assert_eq!(parse_progress(b"1234.5%"), Some(2345));
    assert_eq!(parse_progress(b"x.5%"), Some(50));
}

#[test]
fn progress_rejects_other_chunks() {
    assert_eq!(parse_progress(b""), None);
    assert_eq!(parse_progress(b"no percent here"), None);
    assert_eq!(parse_progress(b"%"), None);
    assert_eq!(parse_progress(b"abc%"), None);
    assert_eq!(parse_progress(b"12.5% "), None);
    assert_eq!(parse_progress(b".5%"), Some(50));
}

#[test]
fn step_decisions() {
    assert_eq!(scan_step(b""), ProgressStep::Exhausted);
    assert_eq!(scan_step(b"eta 00:10 %"), ProgressStep::Skipped);
    assert_eq!(scan_step(b"\r[download]  33.3%"), ProgressStep::Progress(333));
    assert_eq!(scan_step(b"\r[download] 100.0%"), ProgressStep::Completed);
}

#[test]
fn loop_stops_after_complete() {
    let out = b"[download]  10.0% of 3MiB\r[download] 100.0% of 3MiB\r[download]  50.0%";
    assert_eq!(progress_values(out), vec![100, 1000]);
}

#[test]
fn loop_skips_unmatched_chunks_and_ends_with_output() {
    let out = b"start x% 5.5% y% 12% tail";
    assert_eq!(progress_values(out), vec![55, 120]);
    assert_eq!(progress_values(b""), Vec::<u32>::new());
}
