use lyrics_next::error::LyricsError;
use lyrics_next::song::{LyricParser, LyricsLine, PlayTime, SongInfo};
use lyrics_next::utils::{contains_sub, join_with, normalize_text, trim};

fn song(title: &str, artist: &str, album: &str, duration: u64) -> SongInfo {
    SongInfo {
        track_id: None,
        title: title.to_string(),
        artist: artist.to_string(),
        album: album.to_string(),
        duration,
    }
}

#[test]
fn parse_time_minutes_seconds_hundredths() {
    assert_eq!(LyricParser::parse_time("00:01.00"), Some(100));
    assert_eq!(LyricParser::parse_time("03:25.50"), Some(3 * 6000 + 25 * 100 + 50));
    assert_eq!(LyricParser::parse_time("1:2"), Some(6200));
    assert_eq!(LyricParser::parse_time("0.7.9"), Some(709));
}

#[test]
fn parse_time_rejects_malformed_fields() {
    assert_eq!(LyricParser::parse_time("ab:cd"), None);
    assert_eq!(LyricParser::parse_time(""), None);
    assert_eq!(LyricParser::parse_time("00"), None);
    assert_eq!(LyricParser::parse_time("00:xx"), None);
}

#[test]
fn parse_time_bad_third_field_defaults_to_zero() {
    assert_eq!(LyricParser::parse_time("00:02.zz"), Some(200));
}

#[test]
fn parse_line_strips_every_leading_tag() {
    let (tags, text) = LyricParser::parse_line("[00:01.00][00:02.00] hello ").unwrap();
    assert_eq!(tags, vec![100, 200]);
    assert_eq!(text, "hello");
}

#[test]
fn parse_line_without_closing_bracket_is_text() {
    let (tags, text) = LyricParser::parse_line("[unclosed text").unwrap();
    assert!(tags.is_empty());
    assert_eq!(text, "[unclosed text");
}

#[test]
fn parse_orders_lines_by_timestamp_not_input_order() {
    let lines = LyricParser::parse("[00:01.00]A\n[00:00.00]B", 500).unwrap();
    assert_eq!(lines.len(), 2);
    assert_eq!(lines[0].text, "B");
    assert_eq!(lines[0].timestamp_start, 0);
    assert_eq!(lines[0].timestamp_end, 100);
    assert_eq!(lines[1].text, "A");
    assert_eq!(lines[1].timestamp_start, 100);
    assert_eq!(lines[1].timestamp_end, 500);
}

#[test]
fn parse_multi_tag_line_yields_one_line_per_tag() {
    let lines = LyricParser::parse("[00:00.00][00:05.00]same text", 1000).unwrap();
    assert_eq!(lines.len(), 2);
    assert_eq!(lines[0].timestamp_start, 0);
    assert_eq!(lines[0].timestamp_end, 500);
    assert_eq!(lines[0].text, "same text");
    assert_eq!(lines[1].timestamp_start, 500);
    assert_eq!(lines[1].timestamp_end, 1000);
    assert_eq!(lines[1].text, "same text");
}

#[test]
fn parse_malformed_tag_is_invalid_time_format() {
    match LyricParser::parse("[badtag]text", 1000) {
        Err(LyricsError::InvalidTimeFormat) => {}
        other => panic!("unexpected: {:?}", other),
    }
}

#[test]
fn parse_empty_document_is_empty_lyrics() {
    match LyricParser::parse("", 1000) {
        Err(LyricsError::EmptyLyrics) => {}
        other => panic!("unexpected: {:?}", other),
    }
}

#[test]
fn parse_comment_only_document_is_empty_lyrics() {
    match LyricParser::parse("just words\n\nmore words", 1000) {
        Err(LyricsError::EmptyLyrics) => {}
        other => panic!("unexpected: {:?}", other),
    }
}

#[test]
fn parse_keeps_encounter_order_on_equal_timestamps() {
    let lines = LyricParser::parse("[00:01.00]A\n[00:01.00]B", 300).unwrap();
    assert_eq!(lines[0].text, "A");
    assert_eq!(lines[1].text, "B");
    assert_eq!(lines[0].timestamp_start, 100);
    assert_eq!(lines[0].timestamp_end, 100);
    assert_eq!(lines[1].timestamp_end, 300);
}

#[test]
fn parse_last_line_ends_at_song_duration() {
    let lines = LyricParser::parse("[00:03.00]end", 20000).unwrap();
    assert_eq!(lines.last().unwrap().timestamp_end, 20000);
}

#[test]
fn trim_removes_both_ends() {
    assert_eq!(trim("  a b \r\n"), "a b");
    assert_eq!(trim(""), "");
    assert_eq!(trim(" \t "), "");
}

#[test]
fn contains_sub_finds_substrings() {
    assert!(contains_sub("hello world", "lo wo"));
    assert!(contains_sub("abc", ""));
    assert!(!contains_sub("abc", "abcd"));
    assert!(!contains_sub("abc", "ac"));
}

#[test]
fn normalize_text_lowercases_and_strips_noise() {
    assert_eq!(normalize_text("Hello (World)_x"), "helloworldx");
    assert_eq!(normalize_text("A-B\u{ff08}C\u{ff09}"), "abc");
    assert_eq!(normalize_text("  MiXeD  "), "mixed");
}

#[test]
fn join_with_separates_pieces() {
    let parts = vec!["a".to_string(), "b".to_string(), "c".to_string()];
    assert_eq!(join_with(&parts, " "), "a b c");
    let one = vec!["solo".to_string()];
    assert_eq!(join_with(&one, " "), "solo");
    let none: Vec<String> = Vec::new();
    assert_eq!(join_with(&none, " "), "");
}

#[test]
fn play_time_successful_read_replaces_sample() {
    let pt = PlayTime::default();
    let pt = pt.advance(Some(1000), 5000);
    assert_eq!(pt.current_time, 1000);
    let sample = pt.last_valid_pos.unwrap();
    assert_eq!(sample.instant, 5000);
    assert_eq!(sample.position, 1000);
}

#[test]
fn play_time_extrapolates_from_last_sample() {
    let pt = PlayTime::default();
    let pt = pt.advance(Some(1000), 0);
    let pt = pt.advance(None, 300);
    assert_eq!(pt.current_time, 1300);
    let sample = pt.last_valid_pos.unwrap();
    assert_eq!(sample.instant, 0);
    assert_eq!(sample.position, 1000);
}

#[test]
fn play_time_failed_read_without_sample_keeps_estimate() {
    let pt = PlayTime { current_time: 42, last_valid_pos: None };
    let pt = pt.advance(None, 900);
    assert_eq!(pt.current_time, 42);
    assert!(pt.last_valid_pos.is_none());
}

#[test]
fn song_identity_is_the_fingerprint_triple() {
    let a = song("T", "A", "L", 100);
    let mut b = song("T", "A", "L", 999);
    b.track_id = Some("other".to_string());
    assert!(a.same_song(&b));
    let c = song("T", "A", "other", 100);
    assert!(!a.same_song(&c));
}

#[test]
fn track_support_reflects_identifier_presence() {
    let mut s = song("T", "A", "", 0);
    assert!(s.track_support());
    s.track_id = Some("/org/mpris/t1".to_string());
    assert!(!s.track_support());
}

#[test]
fn valid_player_rejects_blacklisted_identities() {
    assert!(!lyrics_next::song::is_valid_player("Chromium Browser"));
    assert!(!lyrics_next::song::is_valid_player("My VIDEO Player"));
    assert!(lyrics_next::song::is_valid_player("Spotify"));
}

#[test]
fn seek_targets_are_clamped() {
    assert_eq!(lyrics_next::song::seek_backward(300), 0);
    assert_eq!(lyrics_next::song::seek_backward(700), 200);
    assert_eq!(lyrics_next::song::seek_forward(100), 600);
    assert_eq!(lyrics_next::song::seek_forward(u64::MAX - 1), u64::MAX);
}

#[test]
fn lyrics_line_fields_are_plain() {
    let l = LyricsLine { timestamp_start: 1, timestamp_end: 2, text: "x".to_string() };
    assert_eq!(l.clone().text, "x");
}
