use revit_projects::{DAY_NANOS, Stamp, WalkEntry, age_in_days, tally_entries};

fn at(secs: i64, nanos: u32) -> Stamp {
    Stamp { secs, nanos }
}

fn file(len: u64, modified: Option<Stamp>) -> WalkEntry {
    WalkEntry::File { len, modified }
}

#[test]
fn tally_sums_only_regular_files() {
    let entries = vec![
        WalkEntry::Other,
        file(100, Some(at(10, 0))),
        WalkEntry::Unreadable,
        file(250, Some(at(5, 0))),
        WalkEntry::Other,
    ];
    let t = tally_entries(&entries).unwrap();
    assert_eq!(t.total_size_bytes, 350);
    assert_eq!(t.newest, Some(at(10, 0)));
}

#[test]
fn tally_of_nothing_is_zero_without_time() {
    let t = tally_entries(&Vec::new()).unwrap();
    assert_eq!(t.total_size_bytes, 0);
    assert_eq!(t.newest, None);
    let t = tally_entries(&vec![WalkEntry::Other, WalkEntry::Unreadable]).unwrap();
    assert_eq!(t.total_size_bytes, 0);
    assert_eq!(t.newest, None);
}

#[test]
fn tally_skips_files_without_time_for_recency_only() {
    let entries = vec![file(7, None), file(8, Some(at(3, 500))), file(9, None)];
    let t = tally_entries(&entries).unwrap();
    assert_eq!(t.total_size_bytes, 24);
    assert_eq!(t.newest, Some(at(3, 500)));
}

#[test]
fn tally_compares_down_to_the_nanosecond() {
    let entries = vec![file(1, Some(at(3, 500))), file(1, Some(at(3, 501))), file(1, Some(at(2, 999)))];
    assert_eq!(tally_entries(&entries).unwrap().newest, Some(at(3, 501)));
    let before_epoch = vec![file(1, Some(at(-5, 0))), file(1, Some(at(-7, 0)))];
    assert_eq!(tally_entries(&before_epoch).unwrap().newest, Some(at(-5, 0)));
}

#[test]
fn tally_keeps_the_first_of_equal_times() {
    // 1 s + 0 ns and 0 s + 1e9 ns are the same instant; the first one stays.
    let entries = vec![file(1, Some(at(1, 0))), file(1, Some(at(0, 1_000_000_000)))];
    assert_eq!(tally_entries(&entries).unwrap().newest, Some(at(1, 0)));
}

#[test]
fn tally_reports_overflow_of_the_total() {
    let fits = vec![file(u64::MAX - 1, None), file(1, None)];
    assert_eq!(tally_entries(&fits).unwrap().total_size_bytes, u64::MAX);
    let too_big = vec![file(u64::MAX, None), file(1, None)];
    assert!(tally_entries(&too_big).is_none());
}

#[test]
fn age_rounds_down_to_whole_days() {
    let day = 86_400i64;
    assert_eq!(DAY_NANOS, 86_400_000_000_000);
    assert_eq!(age_in_days(at(10 * day, 0), Some(at(0, 0))), 10);
    assert_eq!(age_in_days(at(day, 0), Some(at(0, 1))), 0);
    assert_eq!(age_in_days(at(day, 1), Some(at(0, 1))), 1);
    assert_eq!(age_in_days(at(3 * day - 1, 999_999_999), Some(at(0, 0))), 2);
    assert_eq!(age_in_days(at(day, 0), Some(at(-day, 0))), 2);
}

#[test]
fn age_is_zero_without_time_or_for_future_files() {
    assert_eq!(age_in_days(at(1_000_000, 0), None), 0);
    assert_eq!(age_in_days(at(100, 0), Some(at(200, 0))), 0);
    assert_eq!(age_in_days(at(100, 0), Some(at(100, 0))), 0);
}

#[test]
fn age_at_the_extremes_of_time() {
    let d = age_in_days(at(i64::MAX, 999_999_999), Some(at(i64::MIN, 0)));
    let span: i128 = (i64::MAX as i128 - i64::MIN as i128) * 1_000_000_000 + 999_999_999;
    assert_eq!(d as i128, span / 86_400_000_000_000);
    assert_eq!(d, 213_503_982_334_601);
}

#[test]
fn age_does_not_shrink_as_time_passes() {
    let then = Some(at(1_000, 0));
    let mut last = 0u64;
    for s in [1_000i64, 50_000, 86_400, 87_400, 200_000, 1_000_000] {
        let a = age_in_days(at(s, 0), then);
        assert!(a >= last);
        last = a;
    }
    assert_eq!(last, 11);
}
