use bitrate_analyzer::normalize::normalize;

#[test]
fn strips_track_number_and_extension() {
    let p = normalize("01. DJ Snake - Title Track.mp3");
    assert_eq!(p.artist, "dj snake");
    assert_eq!(p.title, "title track");
    assert_eq!(p.version, None);
}

#[test]
fn track_number_without_dot() {
    let p = normalize("12 Artist - Song.mp3");
    assert_eq!(p.artist, "artist");
    assert_eq!(p.title, "song");
}

#[test]
fn no_dash_keeps_whole_string_as_both_fields() {
    let p = normalize("Some Song.mp3");
    assert_eq!(p.artist, "Some Song");
    assert_eq!(p.title, "Some Song");
    assert_eq!(p.version, None);
}

#[test]
fn brackets_and_underscores_are_cleaned() {
    let p = normalize("[01] Artist_Name - Some_Song.flac");
    assert_eq!(p.artist, "artist name");
    assert_eq!(p.title, "some song");
}

#[test]
fn sorted_artists_normalize_identically() {
    let p1 = normalize("A, B - Song");
    let p2 = normalize("B, A - Song");
    assert_eq!(p1.artist, "a, b");
    assert_eq!(p2.artist, "a, b");
    assert_eq!(p1.title, p2.title);
}

#[test]
fn featuring_variants_are_unified() {
    let p1 = normalize("A feat. B - Song.mp3");
    let p2 = normalize("A ft. B - Song.mp3");
    let p3 = normalize("A x B - Song.mp3");
    assert_eq!(p1.artist, "a featuring b");
    assert_eq!(p2.artist, "a featuring b");
    assert_eq!(p3.artist, "a featuring b");
}

#[test]
fn artist_parenthetical_is_cut() {
    let p = normalize("Artist (Official) - Song");
    assert_eq!(p.artist, "artist");
}

#[test]
fn trailing_parenthetical_becomes_version() {
    let p = normalize("Artist - Track (Radio Edit).mp3");
    assert_eq!(p.title, "track");
    assert_eq!(p.version, Some("radio edit".to_string()));
}

#[test]
fn unrecognized_parenthetical_is_still_extracted() {
    let p = normalize("Artist - Track (foo).mp3");
    assert_eq!(p.title, "track");
    assert_eq!(p.version, Some("foo".to_string()));
}

#[test]
fn unclosed_parenthetical_is_no_version() {
    let p = normalize("Artist - Track (foo");
    assert_eq!(p.title, "track (foo");
    assert_eq!(p.version, None);
}

#[test]
fn multi_segment_title_keeps_inner_dashes() {
    let p = normalize("Artist - Part One - Part Two.mp3");
    assert_eq!(p.artist, "artist");
    assert_eq!(p.title, "part one - part two");
}

#[test]
fn normalize_is_deterministic() {
    let a = normalize("03. Foo, Bar - Baz (Club Mix).flac");
    let b = normalize("03. Foo, Bar - Baz (Club Mix).flac");
    assert_eq!(a.artist, b.artist);
    assert_eq!(a.title, b.title);
    assert_eq!(a.version, b.version);
}

#[test]
fn lowercasing_reaches_the_fields() {
    let p = normalize("AB - CD");
    assert_eq!(p.artist, "ab");
    assert_eq!(p.title, "cd");
}

#[test]
fn supported_extensions_are_case_insensitive() {
    assert!(bitrate_analyzer::is_supported_audio_extension("mp3"));
    assert!(bitrate_analyzer::is_supported_audio_extension("FLAC"));
    assert!(bitrate_analyzer::is_supported_audio_extension("Wav"));
    assert!(!bitrate_analyzer::is_supported_audio_extension("ogg"));
}
