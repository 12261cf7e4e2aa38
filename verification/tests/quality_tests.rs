use bitrate_analyzer::{AudioFile, BitrateAnalyzer, BitrateCategory};

fn qfile(name: &str, size: u64, bitrate: Option<u32>) -> AudioFile {
    AudioFile {
        path: format!("/music/{}", name),
        file_name: name.to_string(),
        size_bytes: size,
        duration_secs: None,
        bitrate,
        artist: None,
        title: None,
        album: None,
    }
}

#[test]
fn higher_bitrate_wins() {
    let a = qfile("a.mp3", 1, Some(320));
    let b = qfile("b.mp3", 1, Some(128));
    let (a_better, text) = BitrateAnalyzer::compare_quality(&a, &b);
    assert!(a_better);
    assert_eq!(text, "Bitrate difference: 320 vs 128 kbps");
}

#[test]
fn lossless_container_beats_higher_bitrate() {
    let a = qfile("a.flac", 1, Some(300));
    let b = qfile("b.mp3", 1, Some(900));
    let (a_better, text) = BitrateAnalyzer::compare_quality(&a, &b);
    assert!(a_better);
    assert_eq!(text, "Bitrate difference: 300 vs 900 kbps");
}

#[test]
fn two_lossless_containers_fall_back_to_bitrate() {
    let a = qfile("a.flac", 1, Some(700));
    let b = qfile("b.flac", 1, Some(1000));
    let (a_better, _) = BitrateAnalyzer::compare_quality(&a, &b);
    assert!(!a_better);
}

#[test]
fn equal_bitrates_fall_back_to_size() {
    let a = qfile("a.mp3", 8 * 1048576, Some(320));
    let b = qfile("b.mp3", 30 * 1048576, Some(320));
    let (a_better, text) = BitrateAnalyzer::compare_quality(&a, &b);
    assert!(!a_better);
    assert_eq!(text, "Size difference: 8.00 MB vs 30.00 MB");
}

#[test]
fn unknown_bitrates_fall_back_to_size() {
    let a = qfile("a.mp3", 3 * 1048576 + 524288, None);
    let b = qfile("b.mp3", 1048576, Some(128));
    let (a_better, text) = BitrateAnalyzer::compare_quality(&a, &b);
    assert!(a_better);
    assert_eq!(text, "Size difference: 3.50 MB vs 1.00 MB");
}

#[test]
fn full_tie_keeps_the_first_argument() {
    let a = qfile("a.mp3", 42, Some(320));
    let b = qfile("b.mp3", 42, Some(320));
    let (a_better, text) = BitrateAnalyzer::compare_quality(&a, &b);
    assert!(a_better);
    assert_eq!(text, "Files are identical in size and bitrate");
    let (again, text2) = BitrateAnalyzer::compare_quality(&a, &b);
    assert!(again);
    assert_eq!(text2, "Files are identical in size and bitrate");
}

#[test]
fn categories_cover_the_bands() {
    assert!(matches!(BitrateCategory::from_bitrate(1500), BitrateCategory::HighRes));
    assert!(matches!(BitrateCategory::from_bitrate(700), BitrateCategory::Lossless));
    assert!(matches!(BitrateCategory::from_bitrate(1499), BitrateCategory::Lossless));
    assert!(matches!(BitrateCategory::from_bitrate(256), BitrateCategory::High));
    assert!(matches!(BitrateCategory::from_bitrate(400), BitrateCategory::High));
    assert!(matches!(BitrateCategory::from_bitrate(160), BitrateCategory::Standard));
    assert!(matches!(BitrateCategory::from_bitrate(255), BitrateCategory::Standard));
    assert!(matches!(BitrateCategory::from_bitrate(64), BitrateCategory::Low));
    assert!(matches!(BitrateCategory::from_bitrate(159), BitrateCategory::Low));
    assert!(matches!(BitrateCategory::from_bitrate(63), BitrateCategory::Unknown));
    assert!(matches!(BitrateCategory::from_bitrate(500), BitrateCategory::Unknown));
}

#[test]
fn category_names_match_the_bands() {
    assert_eq!(BitrateCategory::HighRes.as_str(), "High-Resolution (1500+ kbps)");
    assert_eq!(BitrateCategory::Unknown.as_str(), "Other");
}

#[test]
fn analyze_counts_bands_and_extremes() {
    let files = vec![
        qfile("a.mp3", 1, Some(320)),
        qfile("b.mp3", 1, None),
        qfile("c.mp3", 1, Some(128)),
    ];
    let stats = BitrateAnalyzer::new().analyze(&files);
    assert_eq!(stats.file_count, 3);
    assert_eq!(stats.high_count, 1);
    assert_eq!(stats.low_count, 1);
    assert_eq!(stats.high_res_count, 0);
    assert_eq!(stats.files_with_bitrate, 2);
    assert_eq!(stats.total_bitrate_kbps, 448);
    assert_eq!(stats.min_bitrate, 128);
    assert_eq!(stats.max_bitrate, 320);
}

#[test]
fn analyze_of_empty_input_is_all_zero() {
    let stats = BitrateAnalyzer::new().analyze(&Vec::new());
    assert_eq!(stats.file_count, 0);
    assert_eq!(stats.files_with_bitrate, 0);
    assert_eq!(stats.min_bitrate, 0);
    assert_eq!(stats.max_bitrate, 0);
}
