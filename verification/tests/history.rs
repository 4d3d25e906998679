use chrono::Offset;
use transcription_history::error::HistoryError;
use transcription_history::history::{
    entries_beyond_limit, format_timestamp_title, new_history_entry, page_fetch_count, page_limit,
    paginate, plan_cleanup, plan_cleanup_now, require_entry_changed, retention_seconds,
    timestamp_title, toggled_saved, page_query, CleanupPlan, PageQuery, HistoryEntry, RecordingRetentionPeriod,
};
use transcription_history::migration::{next_legacy_step, LegacyProbe, LegacyStep};

fn entry(id: i64) -> HistoryEntry {
    HistoryEntry {
        id,
        file_name: format!("handy-{}.wav", id),
        timestamp: id * 100,
        saved: false,
        title: format!("Recording {}", id * 100),
        transcription_text: "text".to_string(),
        post_processed_text: None,
        post_process_prompt: None,
        post_process_requested: false,
    }
}

#[test]
fn title_falls_back_to_seconds() {
    assert_eq!(timestamp_title(1234, None), "Recording 1234");
    assert_eq!(timestamp_title(-5, None), "Recording -5");
    assert_eq!(timestamp_title(0, None), "Recording 0");
    assert_eq!(
        timestamp_title(i64::MIN, None),
        "Recording -9223372036854775808"
    );
    assert_eq!(timestamp_title(7, Some("May 1".to_string())), "May 1");
}

#[test]
fn out_of_range_timestamp_gets_fallback_title() {
    assert_eq!(format_timestamp_title(i64::MAX), format!("Recording {}", i64::MAX));
    let title = format_timestamp_title(1_700_000_000);
    assert!(title.contains("2023"));
    assert!(!title.starts_with("Recording"));
}

#[test]
fn new_entry_is_unsaved_and_stamped() {
    let new = new_history_entry("a.wav".to_string(), "hi".to_string(), true, Some("Hi".to_string()), None)
        .expect("clock reads a time");
    assert!(!new.saved);
    assert!(new.timestamp > 1_600_000_000);
    assert_eq!(new.title, format_timestamp_title(new.timestamp));
    let stored = new.with_id(42);
    assert_eq!(stored.id, 42);
    assert_eq!(stored.file_name, "a.wav");
    assert_eq!(stored.transcription_text, "hi");
    assert_eq!(stored.post_processed_text.as_deref(), Some("Hi"));
    assert!(stored.post_process_requested);
}

#[test]
fn missing_entry_is_reported() {
    assert!(matches!(require_entry_changed(0, 3), Err(HistoryError::EntryNotFound(3))));
    assert!(require_entry_changed(2, 3).is_ok());
}

#[test]
fn page_size_is_capped() {
    assert_eq!(page_limit(Some(500)), Some(100));
    assert_eq!(page_limit(Some(20)), Some(20));
    assert_eq!(page_limit(None), None);
    assert_eq!(page_fetch_count(20), 21);
}

#[test]
fn page_query_choice() {
    assert_eq!(page_query(Some(50), Some(500)), PageQuery::Before { cursor: 50, fetch: 101 });
    assert_eq!(page_query(None, Some(10)), PageQuery::Newest { fetch: 11 });
    assert_eq!(page_query(Some(50), None), PageQuery::All);
    assert_eq!(page_query(None, None), PageQuery::All);
}

#[test]
fn page_drops_the_lookahead_row() {
    let fetched: Vec<HistoryEntry> = (1..=4).rev().map(entry).collect();
    let page = paginate(fetched.clone(), Some(3));
    assert!(page.has_more);
    assert_eq!(page.entries.iter().map(|e| e.id).collect::<Vec<_>>(), vec![4, 3, 2]);

    let page = paginate(fetched.clone(), Some(4));
    assert!(!page.has_more);
    assert_eq!(page.entries.len(), 4);

    let page = paginate(fetched, None);
    assert!(!page.has_more);
    assert_eq!(page.entries.len(), 4);
}

#[test]
fn retention_periods() {
    assert_eq!(retention_seconds(RecordingRetentionPeriod::Days3), Some(259_200));
    assert_eq!(retention_seconds(RecordingRetentionPeriod::Weeks2), Some(1_209_600));
    assert_eq!(retention_seconds(RecordingRetentionPeriod::Months3), Some(7_776_000));
    assert_eq!(retention_seconds(RecordingRetentionPeriod::Never), None);
    assert_eq!(retention_seconds(RecordingRetentionPeriod::PreserveLimit), None);
}

#[test]
fn cleanup_plans() {
    assert_eq!(plan_cleanup(RecordingRetentionPeriod::Never, 5, 1000), CleanupPlan::KeepAll);
    assert_eq!(plan_cleanup(RecordingRetentionPeriod::PreserveLimit, 5, 1000), CleanupPlan::KeepNewest(5));
    assert_eq!(
        plan_cleanup(RecordingRetentionPeriod::Days3, 5, 1_000_000),
        CleanupPlan::RemoveOlderThan(1_000_000 - 259_200)
    );
    assert_eq!(plan_cleanup_now(RecordingRetentionPeriod::Never, 5).ok(), Some(CleanupPlan::KeepAll));
    match plan_cleanup_now(RecordingRetentionPeriod::Weeks2, 5).expect("clock reads a time") {
        CleanupPlan::RemoveOlderThan(cutoff) => assert!(cutoff > 1_600_000_000 - 1_209_600),
        other => panic!("unexpected {:?}", other),
    }
}

#[test]
fn count_cleanup_removes_past_limit() {
    let entries: Vec<(i64, String)> = (1..=5).map(|i| (i, format!("f{}.wav", i))).collect();
    let removed = entries_beyond_limit(entries.clone(), 3);
    assert_eq!(removed, vec![(4, "f4.wav".to_string()), (5, "f5.wav".to_string())]);
    assert!(entries_beyond_limit(entries.clone(), 5).is_empty());
    assert!(entries_beyond_limit(entries, 9).is_empty());
}

#[test]
fn legacy_migration_steps() {
    assert_eq!(next_legacy_step(LegacyProbe::Start), LegacyStep::CheckLegacyTable);
    assert_eq!(next_legacy_step(LegacyProbe::LegacyTable { exists: false }), LegacyStep::Finish);
    assert_eq!(next_legacy_step(LegacyProbe::LegacyTable { exists: true }), LegacyStep::ReadUserVersion);
    assert_eq!(next_legacy_step(LegacyProbe::UserVersion { version: 3 }), LegacyStep::Finish);
    assert_eq!(next_legacy_step(LegacyProbe::UserVersion { version: 0 }), LegacyStep::ReadLegacyVersion);
    assert_eq!(next_legacy_step(LegacyProbe::LegacyVersion { version: 4 }), LegacyStep::SetUserVersion(4));
    assert_eq!(next_legacy_step(LegacyProbe::LegacyVersion { version: 0 }), LegacyStep::Finish);
}

#[test]
fn toggling_saved_twice_restores_it() {
    assert!(toggled_saved(false));
    assert!(!toggled_saved(true));
    assert!(!toggled_saved(toggled_saved(false)));
}

#[test]
fn fallback_title_beyond_calendar_range() {
    assert_eq!(format_timestamp_title(8_210_266_876_800), "Recording 8210266876800");
    assert_eq!(format_timestamp_title(-8_334_601_228_801), "Recording -8334601228801");
    assert!(!format_timestamp_title(8_210_266_876_799).starts_with("Recording"));
    assert!(!format_timestamp_title(-8_334_601_228_800).starts_with("Recording"));
}

const MONTHS: [&str; 12] = [
    "January", "February", "March", "April", "May", "June", "July", "August", "September",
    "October", "November", "December",
];

fn civil_from_days(days: i64) -> (i64, i64, i64) {
    let z = days + 719468;
    let era = z.div_euclid(146097);
    let doe = z - era * 146097;
    let yoe = (doe - doe / 1460 + doe / 36524 - doe / 146096) / 365;
    let doy = doe - (365 * yoe + yoe / 4 - yoe / 100);
    let mp = (5 * doy + 2) / 153;
    let day = doy - (153 * mp + 2) / 5 + 1;
    let month = if mp < 10 { mp + 3 } else { mp - 9 };
    let year = yoe + era * 400 + if month <= 2 { 1 } else { 0 };
    (year, month, day)
}

fn year_text(y: i64) -> String {
    if (0..=9999).contains(&y) {
        format!("{:04}", y)
    } else if y < 0 {
        format!("-{:04}", -y)
    } else {
        format!("+{:04}", y)
    }
}

fn calendar_title_at(local: i64) -> String {
    let days = local.div_euclid(86400);
    let sod = local.rem_euclid(86400);
    let hour = sod / 3600;
    let minute = (sod % 3600) / 60;
    let (year, month, day) = civil_from_days(days);
    let hour12 = if hour % 12 == 0 { 12 } else { hour % 12 };
    format!(
        "{} {:>2}, {} - {:>2}:{:02}{}",
        MONTHS[(month - 1) as usize],
        day,
        year_text(year),
        hour12,
        minute,
        if hour < 12 { "AM" } else { "PM" }
    )
}

const SAMPLES: [i64; 14] = [
    0,
    1_700_000_000,
    1_709_651_220,
    951_782_400,
    -1,
    -62_135_596_800,
    -62_167_219_200,
    -62_167_219_201,
    253_402_300_799,
    253_402_300_800,
    -8_334_601_228_800,
    8_210_266_876_799,
    -5_000_000_000_000,
    4_102_444_800,
];

#[test]
fn calendar_title_spec_matches_chrono_in_any_offset() {
    let offsets = [-86_399, -45_000, -3_600, 0, 19_800, 50_400, 86_399];
    for &secs in SAMPLES.iter() {
        let utc = chrono::DateTime::from_timestamp(secs, 0).expect("in range");
        for &off in offsets.iter() {
            let zone = chrono::FixedOffset::east_opt(off).expect("offset");
            let text = utc.with_timezone(&zone).format("%B %e, %Y - %l:%M%p").to_string();
            assert_eq!(text, calendar_title_at(secs + off as i64), "secs {} offset {}", secs, off);
        }
    }
}

#[test]
fn title_is_the_calendar_text_in_the_local_zone() {
    for &secs in SAMPLES.iter() {
        let utc = chrono::DateTime::from_timestamp(secs, 0).expect("in range");
        let off = utc.with_timezone(&chrono::Local).offset().fix().local_minus_utc() as i64;
        assert!(off.abs() < 86_400);
        assert_eq!(format_timestamp_title(secs), calendar_title_at(secs + off));
    }
}
