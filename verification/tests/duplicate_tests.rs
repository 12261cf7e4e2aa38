use bitrate_analyzer::duplicate::{match_pair, match_pairs_in_rows};
use bitrate_analyzer::{AudioFile, DuplicateAnalyzer};

fn dfile(name: &str, size: u64, bitrate: Option<u32>) -> AudioFile {
    AudioFile {
        path: format!("/music/{}", name),
        file_name: name.to_string(),
        size_bytes: size,
        duration_secs: None,
        bitrate,
        artist: None,
        title: None,
        album: None,
    }
}

#[test]
fn lossless_copy_wins_the_pair() {
    let a = dfile("01. DJ Snake - Title Track.mp3", 8 * 1048576, Some(320));
    let b = dfile("DJ Snake - Title Track.flac", 30 * 1048576, Some(1000));
    let results = DuplicateAnalyzer::new().find_duplicates(vec![a, b]);
    assert_eq!(results.total_files_scanned, 2);
    assert_eq!(results.matches.len(), 1);
    let m = &results.matches[0];
    assert_eq!(m.higher_quality.file_name, "DJ Snake - Title Track.flac");
    assert_eq!(m.lower_quality.file_name, "01. DJ Snake - Title Track.mp3");
    assert_eq!(m.match_reason, "Exact title match: 'dj snake - title track'");
    assert_eq!(m.quality_difference, "Bitrate difference: 320 vs 1000 kbps");
}

#[test]
fn distinct_versions_are_preserved() {
    let a = dfile("Artist - Track (Radio Edit)", 1, Some(320));
    let b = dfile("Artist - Track (Club Mix)", 1, Some(320));
    assert!(match_pair(&a, &b).is_none());
    assert!(match_pair(&b, &a).is_none());
}

#[test]
fn bare_year_tags_collapse() {
    let a = dfile("Artist - Track (2017)", 2, Some(320));
    let b = dfile("Artist - Track (2019)", 1, Some(320));
    let m = match_pair(&a, &b).expect("year-tagged copies should match");
    assert_eq!(m.higher_quality.file_name, "Artist - Track (2017)");
    assert_eq!(m.match_reason, "Exact title match: 'artist - track (2017)'");
}

#[test]
fn differing_titles_never_match() {
    let a = dfile("Artist - Track One.mp3", 1, Some(320));
    let b = dfile("Artist - Track Two.mp3", 1, Some(320));
    assert!(match_pair(&a, &b).is_none());
}

#[test]
fn differing_artists_never_match() {
    let a = dfile("Artist One - Track.mp3", 1, Some(320));
    let b = dfile("Artist Two - Track.mp3", 1, Some(320));
    assert!(match_pair(&a, &b).is_none());
}

#[test]
fn version_against_no_version_never_matches() {
    let a = dfile("Artist - Track (Remix).mp3", 1, Some(320));
    let b = dfile("Artist - Track.mp3", 1, Some(320));
    assert!(match_pair(&a, &b).is_none());
    assert!(match_pair(&b, &a).is_none());
}

#[test]
fn swapped_arguments_agree_on_the_winner() {
    let a = dfile("Artist - Track.mp3", 1, Some(128));
    let b = dfile("Artist - Track.flac", 2, Some(1000));
    let m1 = match_pair(&a, &b).expect("should match");
    let m2 = match_pair(&b, &a).expect("should match");
    assert_eq!(m1.higher_quality.file_name, m2.higher_quality.file_name);
    assert_eq!(m1.lower_quality.file_name, m2.lower_quality.file_name);
}

#[test]
fn sorted_artist_lists_match_across_orderings() {
    let a = dfile("A, B - Song.mp3", 2, Some(320));
    let b = dfile("B, A - Song.mp3", 1, Some(320));
    let m = match_pair(&a, &b).expect("should match");
    assert_eq!(m.match_reason, "Exact title match: 'a, b - song'");
}

#[test]
fn empty_input_yields_empty_results() {
    let results = DuplicateAnalyzer::new().find_duplicates(Vec::new());
    assert_eq!(results.total_files_scanned, 0);
    assert!(results.matches.is_empty());
}

#[test]
fn partitioned_rows_report_the_same_matches() {
    let files = vec![
        dfile("Artist - Track.mp3", 1, Some(128)),
        dfile("Other - Thing.mp3", 1, Some(128)),
        dfile("Artist - Track.flac", 2, Some(1000)),
        dfile("Other - Thing (Remix).mp3", 1, Some(128)),
        dfile("Artist - Track (2001).mp3", 3, Some(64)),
    ];
    let whole = DuplicateAnalyzer::new().find_duplicates(files.clone());
    for split in 0..files.len() {
        let mut left = match_pairs_in_rows(&files, 0, split);
        let mut right = match_pairs_in_rows(&files, split, files.len());
        left.append(&mut right);
        let mut combined: Vec<String> =
            left.iter().map(|m| m.match_reason.clone()).collect();
        let mut sequential: Vec<String> =
            whole.matches.iter().map(|m| m.match_reason.clone()).collect();
        combined.sort();
        sequential.sort();
        assert_eq!(combined, sequential);
    }
}
