use nrsc5_studio::clock::{
    fmt_local_hhmm, fmt_local_rfc3339, millis_since_epoch, now_millis, MAX_TIMESTAMP_MILLIS,
    MIN_TIMESTAMP_MILLIS,
};
use nrsc5_studio::play_log::{
    clamp_retention, csv_filename_for_stamp, csv_line, frequency_text, is_likely_station_string,
    suggested_csv_filename, PlayEntry, PlayLog, DEFAULT_RETENTION_HOURS, HARD_CAP, MAX_RETENTION_HOURS,
    MIN_RETENTION_HOURS, MILLIS_PER_HOUR, RETENTION_CHOICES,
};
use nrsc5_studio::text::csv_field;

fn entry(ts: i64, title: &str, artist: &str, tenths: u32, program: u32) -> PlayEntry {
    PlayEntry {
        ts_millis: ts,
        title: title.to_string(),
        artist: artist.to_string(),
        frequency_tenths: tenths,
        program,
    }
}

fn titles(log: &PlayLog) -> Vec<String> {
    log.entries().iter().map(|e| e.title.clone()).collect()
}

#[test]
fn rejects_call_sign() {
    assert!(is_likely_station_string("KEGL 97.1", "KEGL", 971));
    assert!(is_likely_station_string("Visit kegl.com", "KEGL", 971));
}

#[test]
fn rejects_frequency() {
    assert!(is_likely_station_string("103.7 The Mix", "", 1037));
    assert!(is_likely_station_string("FM 95.5", "", 955));
}

#[test]
fn rejects_broadcast_tokens() {
    assert!(is_likely_station_string("More Music FM", "", 999));
    assert!(is_likely_station_string("HD2 Rocks", "", 999));
}

#[test]
fn accepts_real_songs() {
    assert!(!is_likely_station_string("Bohemian Rhapsody", "KEGL", 971));
    assert!(!is_likely_station_string("Don't Stop Me Now", "KEGL", 971));
    assert!(!is_likely_station_string("Take On Me", "WXYZ", 1037));
}

#[test]
fn ignores_very_short_call_signs() {
    assert!(!is_likely_station_string("It's a Long Way to the Top", "AB", 999));
}

#[test]
fn dedup_is_per_program() {
    let mut log = PlayLog::default();
    let t0 = now_millis();
    assert!(log.try_push(t0, "Song A", "Artist 1", 1003, 0, "KEXP"));
    assert!(log.try_push(t0 + 100, "Song A", "Artist 1", 1003, 1, "KEXP"));
    assert!(!log.try_push(t0 + 10_000, "Song A", "Artist 1", 1003, 0, "KEXP"));
    assert!(!log.try_push(t0 + 200, "Song B", "Artist 2", 1003, 0, "KEXP"));
    assert!(log.try_push(t0 + 31_000, "Song C", "Artist 3", 1003, 1, "KEXP"));
}

#[test]
fn station_tokens_need_whole_words() {
    assert!(!is_likely_station_string("Farm Animals", "", 999));
    assert!(!is_likely_station_string("Amhd1", "", 999));
    assert!(is_likely_station_string("live (am) show", "", 999));
    assert!(is_likely_station_string("mHz", "", 999));
    assert!(is_likely_station_string("hd4", "", 999));
    assert!(!is_likely_station_string("hd5", "", 999));
}

#[test]
fn station_check_ignores_case() {
    assert!(is_likely_station_string("wxyz rocks", "WXYZ", 999));
    assert!(is_likely_station_string("WXYZ ROCKS", "wxyz", 999));
}

#[test]
fn call_sign_length_counts_bytes() {
    // Two characters, three bytes in UTF-8.
    assert!(is_likely_station_string("Radio ÉB live", "ÉB", 999));
    assert!(!is_likely_station_string("Radio AB live", "AB", 999));
    assert!(!is_likely_station_string("anything", "", 999));
}

#[test]
fn clamp_snaps_into_range() {
    assert_eq!(clamp_retention(0), MIN_RETENTION_HOURS);
    assert_eq!(clamp_retention(1), 1);
    assert_eq!(clamp_retention(24), 24);
    assert_eq!(clamp_retention(168), 168);
    assert_eq!(clamp_retention(500), MAX_RETENTION_HOURS);
    for h in RETENTION_CHOICES {
        assert_eq!(clamp_retention(h), h);
    }
}

#[test]
fn frequency_and_station_labels() {
    assert_eq!(frequency_text(1037), "103.7");
    assert_eq!(frequency_text(5), "0.5");
    assert_eq!(frequency_text(880), "88.0");
    assert_eq!(entry(0, "t", "a", 1037, 0).station_label(), "103.7 HD1");
    assert_eq!(entry(0, "t", "a", 881, 2).station_label(), "88.1 HD3");
    assert_eq!(entry(0, "t", "a", 1003, 9).station_label(), "100.3 HD10");
}

#[test]
fn csv_fields_are_quoted_when_needed() {
    assert_eq!(csv_field("plain"), "plain");
    assert_eq!(csv_field(""), "");
    assert_eq!(csv_field("a,b"), "\"a,b\"");
    assert_eq!(csv_field("say \"hi\""), "\"say \"\"hi\"\"\"");
    assert_eq!(csv_field("line\nbreak"), "\"line\nbreak\"");
    assert_eq!(csv_field("cr\rhere"), "\"cr\rhere\"");
}

#[test]
fn csv_line_layout() {
    let e = entry(0, "Hello, World", "Band \"X\"", 1037, 1);
    assert_eq!(
        csv_line(&e, "2024-01-01T00:00:00+00:00"),
        "2024-01-01T00:00:00+00:00,\"Band \"\"X\"\"\",\"Hello, World\",103.7 HD2,103.7,1"
    );
}

#[test]
fn csv_lines_with_header() {
    let clock = 1_000_000_000_000;
    let log = PlayLog::from_saved_at(
        vec![entry(clock - 10, "One", "A", 881, 0), entry(clock - 5, "Two", "B", 881, 0)],
        clock,
    );
    let stamps = vec!["s1".to_string(), "s2".to_string()];
    let lines = log.csv_lines_with_stamps(&stamps);
    assert_eq!(
        lines,
        vec![
            "timestamp_iso,artist,title,station,frequency_mhz,program".to_string(),
            "s1,A,One,88.1 HD1,88.1,0".to_string(),
            "s2,B,Two,88.1 HD1,88.1,0".to_string(),
        ]
    );
    let real = log.csv_lines();
    assert_eq!(real.len(), 3);
    assert_eq!(real[0], "timestamp_iso,artist,title,station,frequency_mhz,program");
    assert!(real[1].ends_with(",A,One,88.1 HD1,88.1,0"));
    let stamp = real[1].split(',').next().unwrap();
    let parsed = chrono::DateTime::parse_from_rfc3339(stamp).unwrap();
    assert_eq!(parsed.timestamp_millis(), clock - 10);
}

#[test]
fn filenames() {
    assert_eq!(
        csv_filename_for_stamp("20240101-120000"),
        "nrsc5-studio-playlog-20240101-120000.csv"
    );
    let name = suggested_csv_filename();
    assert!(name.starts_with("nrsc5-studio-playlog-"));
    assert!(name.ends_with(".csv"));
    assert_eq!(name.len(), "nrsc5-studio-playlog-".len() + 15 + 4);
    assert_eq!(&name[29..30], "-");
}

#[test]
fn local_time_formatting() {
    assert_eq!(fmt_local_hhmm(MAX_TIMESTAMP_MILLIS + 1), "");
    assert_eq!(fmt_local_hhmm(MIN_TIMESTAMP_MILLIS - 1), "");
    assert_eq!(fmt_local_rfc3339(i64::MAX), "");
    assert_eq!(fmt_local_rfc3339(i64::MIN), "");
    let hhmm = fmt_local_hhmm(1_700_000_000_000);
    assert_eq!(hhmm.len(), 5);
    assert_eq!(&hhmm[2..3], ":");
    assert!(hhmm[..2].parse::<u32>().unwrap() < 24);
    assert!(hhmm[3..].parse::<u32>().unwrap() < 60);
    let rfc = fmt_local_rfc3339(1_700_000_000_000);
    assert_eq!(rfc.len(), 25);
    assert_eq!(&rfc[10..11], "T");
    assert!(&rfc[..4] == "2023");
    assert!(rfc[19..20] == *"+" || rfc[19..20] == *"-");
    assert_eq!(&rfc[22..23], ":");
    let with_millis = fmt_local_rfc3339(1_700_000_000_123);
    assert_eq!(with_millis.len(), 29);
    assert!(with_millis.contains(".123"));
}

#[test]
fn chrono_range_edges() {
    assert_eq!(MIN_TIMESTAMP_MILLIS, -8334601228800000);
    assert!(!fmt_local_rfc3339(MIN_TIMESTAMP_MILLIS).is_empty());
    assert_eq!(fmt_local_hhmm(MIN_TIMESTAMP_MILLIS).len(), 5);
    assert_eq!(fmt_local_rfc3339(MIN_TIMESTAMP_MILLIS - 1), "");
    assert_eq!(fmt_local_hhmm(MIN_TIMESTAMP_MILLIS - 1), "");
    assert_eq!(fmt_local_hhmm(-8334601315200000), "");
    assert!(!fmt_local_rfc3339(MAX_TIMESTAMP_MILLIS).is_empty());
    assert_eq!(fmt_local_rfc3339(MAX_TIMESTAMP_MILLIS + 1), "");
}

#[test]
fn rfc3339_denotes_the_instant() {
    for ts in [0i64, 1_700_000_000_123, -1_000_000_000_001, 253_402_300_799_999] {
        let text = fmt_local_rfc3339(ts);
        let parsed = chrono::DateTime::parse_from_rfc3339(&text).unwrap();
        assert_eq!(parsed.timestamp_millis(), ts, "{text}");
    }
}

#[test]
fn clock_reading_conversion() {
    assert_eq!(millis_since_epoch(None), 0);
    assert_eq!(millis_since_epoch(Some(1_700_000_000_000)), 1_700_000_000_000);
    assert_eq!(millis_since_epoch(Some(0)), 0);
    assert_eq!(millis_since_epoch(Some(1u128 << 63)), i64::MIN);
}

#[test]
fn clock_reads_after_2020() {
    assert!(now_millis() > 1_577_836_800_000);
}

#[test]
fn push_trims_and_rejects_empty_fields() {
    let clock = 1_000_000_000_000;
    let mut log = PlayLog::default();
    assert!(!log.try_push_at(clock, "   ", "Artist", 999, 0, "", clock));
    assert!(!log.try_push_at(clock, "Title", "\t\n", 999, 0, "", clock));
    assert!(log.is_empty());
    assert!(log.try_push_at(clock, "\u{3000} Title\t", " Artist\u{a0}", 999, 0, "", clock));
    assert_eq!(log.len(), 1);
    assert_eq!(log.entries()[0].title, "Title");
    assert_eq!(log.entries()[0].artist, "Artist");
    assert_eq!(log.entries()[0].ts_millis, clock);
    assert_eq!(log.entries()[0].frequency_tenths, 999);
}

#[test]
fn push_rejects_station_identification() {
    let clock = 1_000_000_000_000;
    let mut log = PlayLog::default();
    assert!(!log.try_push_at(clock, "KEXP 90.3", "Song", 903, 0, "KEXP", clock));
    assert!(!log.try_push_at(clock, "Song", "HD1", 903, 0, "KEXP", clock));
    assert!(!log.try_push_at(clock, "Song", "Tune in 90.3", 903, 0, "", clock));
    assert!(log.is_empty());
}

#[test]
fn rate_limit_boundary() {
    let clock = 1_000_000_000_000;
    let mut log = PlayLog::default();
    assert!(log.try_push_at(clock, "A", "X", 999, 0, "", clock));
    assert!(!log.try_push_at(clock + 29_999, "B", "Y", 999, 0, "", clock));
    assert!(log.try_push_at(clock + 30_000, "B", "Y", 999, 0, "", clock));
    // An older timestamp than the latest entry is refused by the rate limit.
    assert!(!log.try_push_at(clock - 100_000, "C", "Z", 999, 0, "", clock));
    assert_eq!(titles(&log), vec!["A", "B"]);
}

#[test]
fn duplicate_after_other_program_is_still_refused() {
    let clock = 1_000_000_000_000;
    let mut log = PlayLog::default();
    assert!(log.try_push_at(clock, "A", "X", 999, 0, "", clock));
    assert!(log.try_push_at(clock + 1, "Other", "Y", 999, 1, "", clock));
    assert!(!log.try_push_at(clock + 100_000, "A", "X", 999, 0, "", clock));
    assert!(log.try_push_at(clock + 100_000, "A", "X2", 999, 0, "", clock));
}

#[test]
fn push_prunes_by_retention() {
    let clock = 1_000_000_000_000;
    let mut log = PlayLog::default();
    let day = 24 * MILLIS_PER_HOUR;
    assert!(log.try_push_at(clock - day - 1, "Old", "X", 999, 0, "", clock - day));
    assert!(log.try_push_at(clock - day, "Edge", "X", 999, 1, "", clock - day));
    assert_eq!(log.len(), 2);
    // A push at `clock` prunes what is older than 24 hours (the default for an unset window).
    assert!(log.try_push_at(clock, "New", "X", 999, 2, "", clock));
    assert_eq!(titles(&log), vec!["Edge", "New"]);
    assert_eq!(log.retention_hours(), DEFAULT_RETENTION_HOURS);
}

#[test]
fn default_log_has_default_retention() {
    let log = PlayLog::default();
    assert!(log.is_empty());
    assert_eq!(log.retention_hours(), 24);
}

#[test]
fn prune_drops_every_stale_entry() {
    let clock = 1_000_000_000_000;
    let hour = MILLIS_PER_HOUR;
    let mut log = PlayLog::from_saved_at(
        vec![
            entry(clock - 30 * hour, "Stale1", "X", 999, 0),
            entry(clock - 2 * hour, "Fresh", "X", 999, 0),
            entry(clock - 30 * hour, "Stale2", "X", 999, 0),
        ],
        clock,
    );
    assert_eq!(log.retention_hours(), DEFAULT_RETENTION_HOURS);
    assert_eq!(titles(&log), vec!["Fresh"]);
    log.prune_at(clock + 21 * hour);
    assert_eq!(titles(&log), vec!["Fresh"]);
    log.prune_at(clock + 21 * hour);
    assert_eq!(titles(&log), vec!["Fresh"]);
    log.set_retention_hours_at(1, clock);
    assert_eq!(log.retention_hours(), 1);
    assert!(log.is_empty());
    let mut mixed = PlayLog::from_saved_at(
        vec![
            entry(clock - 2 * hour, "Fresh1", "X", 999, 0),
            entry(clock - 30 * hour, "Stale", "X", 999, 1),
            entry(clock - 3 * hour, "Fresh2", "X", 999, 2),
        ],
        clock,
    );
    assert_eq!(titles(&mixed), vec!["Fresh1", "Fresh2"]);
    mixed.prune_at(clock + 21 * hour + 30 * 60 * 1000);
    assert_eq!(titles(&mixed), vec!["Fresh1"]);
}

#[test]
fn set_retention_clamps() {
    let clock = 1_000_000_000_000;
    let mut log = PlayLog::default();
    log.set_retention_hours_at(0, clock);
    assert_eq!(log.retention_hours(), 1);
    log.set_retention_hours_at(10_000, clock);
    assert_eq!(log.retention_hours(), 168);
    log.set_retention_hours(48);
    assert_eq!(log.retention_hours(), 48);
}

#[test]
fn clear_all_keeps_retention() {
    let clock = 1_000_000_000_000;
    let mut log = PlayLog::from_saved_at(vec![entry(clock, "A", "X", 999, 0)], clock);
    assert_eq!(log.len(), 1);
    log.clear_all();
    assert!(log.is_empty());
    assert_eq!(log.retention_hours(), DEFAULT_RETENTION_HOURS);
}

#[test]
fn hard_cap_drops_oldest() {
    let clock = 1_000_000_000_000;
    let mut saved = Vec::new();
    for i in 0..HARD_CAP {
        saved.push(entry(clock, &format!("S{i}"), "X", 999, 0));
    }
    let mut log = PlayLog::from_saved_at(saved, clock);
    assert_eq!(log.len(), HARD_CAP);
    assert!(log.try_push_at(clock + 30_000, "Newest", "X", 999, 0, "", clock));
    assert_eq!(log.len(), HARD_CAP);
    assert_eq!(log.entries()[0].title, "S1");
    assert_eq!(log.entries()[HARD_CAP - 1].title, "Newest");
}

#[test]
fn real_clock_prune_and_load() {
    let now = now_millis();
    let log = PlayLog::from_saved(vec![entry(0, "Ancient", "X", 999, 0), entry(now, "Now", "X", 999, 0)]);
    assert_eq!(titles(&log), vec!["Now"]);
    let mut log = log;
    log.prune();
    assert_eq!(titles(&log), vec!["Now"]);
}
