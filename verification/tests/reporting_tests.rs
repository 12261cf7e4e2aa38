use bitrate_analyzer::{AudioFile, BitrateAnalyzer, DuplicateAnalyzer, FileManager, Reporter};

fn rfile(name: &str, size: u64, bitrate: Option<u32>, artist: Option<&str>) -> AudioFile {
    AudioFile {
        path: format!("/music/{}", name),
        file_name: name.to_string(),
        size_bytes: size,
        duration_secs: Some(200),
        bitrate,
        artist: artist.map(|s| s.to_string()),
        title: None,
        album: None,
    }
}

#[test]
fn duplicate_report_rows_carry_both_descriptors() {
    let a = rfile("Artist - Track.mp3", 8 * 1048576, Some(320), None);
    let b = rfile("Artist - Track.flac", 30 * 1048576, Some(1000), None);
    let results = DuplicateAnalyzer::new().find_duplicates(vec![a, b]);
    let records = Reporter::new().duplicate_report_records(&results);
    assert_eq!(records.len(), 1);
    let row = &records[0];
    assert_eq!(row.len(), 8);
    assert_eq!(row[0], "Artist - Track.flac");
    assert_eq!(row[1], "30.00");
    assert_eq!(row[2], "1000 kbps");
    assert_eq!(row[3], "Artist - Track.mp3");
    assert_eq!(row[4], "8.00");
    assert_eq!(row[5], "320 kbps");
    assert_eq!(row[6], "Exact title match: 'artist - track'");
    assert_eq!(row[7], "Bitrate difference: 320 vs 1000 kbps");
}

#[test]
fn unknown_bitrate_cell_says_so() {
    let a = rfile("Artist - Track.mp3", 2 * 1048576, None, None);
    let b = rfile("Artist - Track.wav", 1048576, None, None);
    let results = DuplicateAnalyzer::new().find_duplicates(vec![a, b]);
    let records = Reporter::new().duplicate_report_records(&results);
    assert_eq!(records[0][2], "Unknown");
    assert_eq!(records[0][7], "Size difference: 2.00 MB vs 1.00 MB");
}

#[test]
fn summary_records_carry_counts_and_rounded_shares() {
    let files = vec![
        rfile("a.mp3", 1, Some(320), None),
        rfile("b.mp3", 1, Some(320), None),
        rfile("c.mp3", 1, Some(128), None),
        rfile("d.mp3", 1, None, None),
    ];
    let stats = BitrateAnalyzer::new().analyze(&files);
    let records = Reporter::new().bitrate_summary_records(&stats);
    assert_eq!(records.len(), 2);
    assert_eq!(
        records[0],
        vec!["High Bitrate (256-400 kbps)", "2", "67.0%"]
    );
    assert_eq!(records[1], vec!["Low Bitrate (64-159 kbps)", "1", "33.0%"]);
}

#[test]
fn summary_share_rounds_half_up() {
    let files = vec![
        rfile("a.mp3", 1, Some(320), None),
        rfile("b.mp3", 1, Some(128), None),
    ];
    let stats = BitrateAnalyzer::new().analyze(&files);
    let records = Reporter::new().bitrate_summary_records(&stats);
    assert_eq!(records[0][2], "50.0%");
    assert_eq!(records[1][2], "50.0%");
}

#[test]
fn detailed_records_sort_by_bitrate_and_keep_tie_order() {
    let files = vec![
        rfile("low.mp3", 1048576, Some(128), Some("X")),
        rfile("first.mp3", 1048576, Some(320), None),
        rfile("untagged.mp3", 1048576, None, None),
        rfile("second.mp3", 2 * 1048576, Some(320), Some("Y")),
    ];
    let records = Reporter::new().detailed_report_records(&files);
    assert_eq!(records.len(), 3);
    assert_eq!(records[0][0], "first.mp3");
    assert_eq!(records[1][0], "second.mp3");
    assert_eq!(records[2][0], "low.mp3");
    assert_eq!(
        records[1],
        vec![
            "second.mp3",
            "320",
            "High Bitrate (256-400 kbps)",
            "2.00",
            "Y",
            "Unknown",
            "Unknown"
        ]
    );
}

#[test]
fn report_names_follow_the_stem() {
    let r = Reporter::new();
    assert_eq!(r.summary_report_name("bitrate"), "bitrate_summary.csv");
    assert_eq!(r.detailed_report_name("bitrate"), "bitrate_detailed.csv");
}

#[test]
fn colliding_duplicates_get_numbered_names() {
    let fm = FileManager::new("/dups".to_string());
    assert_eq!(fm.duplicate_dir, "/dups");
    assert_eq!(
        fm.duplicate_candidate_name("song.mp3", 1, "mp3"),
        "song.mp3_duplicate_1.mp3"
    );
    assert_eq!(
        fm.duplicate_candidate_name("song.mp3", 12, "mp3"),
        "song.mp3_duplicate_12.mp3"
    );
}
