use lyrics_next::client::LyricsItem;
use lyrics_next::config::{default_player_except, default_true, Config, Sources, Ui};
use lyrics_next::error::LyricsError;
use lyrics_next::song::{LyricsLine, PlayerAction, SongInfo};
use lyrics_next::ui::{progress_percent, LyricState, SearchState, ViewMetrics};

fn line(start: u64, end: u64, text: &str) -> LyricsLine {
    LyricsLine { timestamp_start: start, timestamp_end: end, text: text.to_string() }
}

#[test]
fn metrics_deduct_borders_and_bound_scrolling() {
    let mut st = LyricState::default();
    for i in 0..20u64 {
        st.lyrics.push(line(i * 100, (i + 1) * 100, "x"));
    }
    st.calculate_metrics(10);
    assert_eq!(st.view_metrics.visible_lines, 8);
    assert_eq!(st.view_metrics.content_height, 20);
    assert_eq!(st.view_metrics.scroll_range, 12);
    st.calculate_metrics(1);
    assert_eq!(st.view_metrics.visible_lines, 0);
    assert_eq!(st.view_metrics.scroll_range, 20);
}

#[test]
fn current_line_is_first_whose_interval_contains_now() {
    let mut st = LyricState::default();
    st.lyrics.push(line(100, 200, "a"));
    st.lyrics.push(line(200, 300, "b"));
    st.play_time.current_time = 250;
    assert_eq!(st.find_current_line(), Some(1));
    st.play_time.current_time = 50;
    assert_eq!(st.find_current_line(), None);
    st.play_time.current_time = 300;
    assert_eq!(st.find_current_line(), None);
    st.play_time.current_time = 100;
    assert_eq!(st.find_current_line(), Some(0));
}

#[test]
fn scroll_centers_the_current_line() {
    let mut st = LyricState::default();
    for i in 0..20u64 {
        st.lyrics.push(line(i * 100, (i + 1) * 100, "x"));
    }
    st.calculate_metrics(10);
    st.play_time.current_time = 1050;  // line 10; half viewport is 4
    st.update_scroll();
    assert_eq!(st.target_scroll, 6);
    st.play_time.current_time = 1950;  // line 19; bounded by the range
    st.update_scroll();
    assert_eq!(st.target_scroll, 12);
}

#[test]
fn error_retries_are_capped_at_five() {
    let mut st = LyricState::default();
    for n in 1..=5u32 {
        let pause = st.register_error(&LyricsError::NoLyricsFound);
        assert_eq!(pause, Some(2));
        assert_eq!(st.retry_counter, n);
    }
    assert_eq!(st.register_error(&LyricsError::NoLyricsFound), None);
    assert_eq!(st.retry_counter, 5);
}

#[test]
fn error_message_names_the_error_and_the_attempt() {
    let mut st = LyricState::default();
    st.register_error(&LyricsError::NoLyricsFound);
    assert_eq!(st.error_message.as_deref(), Some("Error: No lyrics found (Retry 1/5)"));
    st.register_error(&LyricsError::TransportError);
    assert_eq!(st.error_message.as_deref(), Some("Error: Network request failed (Retry 2/5)"));
}

#[test]
fn success_clears_error_state() {
    let mut st = LyricState::default();
    st.register_error(&LyricsError::NoLyricsFound);
    st.note_success();
    assert!(st.error_message.is_none());
    assert_eq!(st.retry_counter, 0);
}

#[test]
fn reset_returns_to_the_initial_state() {
    let mut st = LyricState::default();
    st.lyrics.push(line(0, 1, "x"));
    st.retry_counter = 3;
    st.reset();
    assert!(st.lyrics.is_empty());
    assert_eq!(st.retry_counter, 0);
    assert!(st.song.title.is_empty());
}

#[test]
fn progress_is_whole_percent_and_unclamped() {
    assert_eq!(progress_percent(1000, 20000), 5);
    assert_eq!(progress_percent(0, 20000), 0);
    assert_eq!(progress_percent(30000, 20000), 150);
    assert_eq!(progress_percent(123, 0), 0);
}

#[test]
fn progress_updates_from_play_time() {
    let mut st = LyricState::default();
    st.song.duration = 20000;
    st.play_time.current_time = 10000;
    st.update_progress();
    assert_eq!(st.progress, 50);
}

#[test]
fn search_reload_flag_fires_once() {
    let mut st = SearchState::default();
    assert!(!st.lyrics_reset());
    st.reset_lyrics_cache = true;
    assert!(st.lyrics_reset());
    assert!(!st.lyrics_reset());
}

#[test]
fn search_selection_is_bounds_checked() {
    let mut st = SearchState::default();
    assert!(st.selected(0).is_none());
    st.list.push(LyricsItem {
        source: "Kugou".to_string(),
        title: "T".to_string(),
        artist: "A".to_string(),
        album: "".to_string(),
        params: Vec::new(),
    });
    assert_eq!(st.selected(0).unwrap().title, "T");
    assert!(st.selected(1).is_none());
}

#[test]
fn view_metrics_default_is_empty() {
    let m = ViewMetrics::default();
    assert_eq!(m.visible_lines, 0);
    assert_eq!(m.content_height, 0);
    assert_eq!(m.scroll_range, 0);
}

#[test]
fn config_defaults_enable_everything_sensible() {
    assert!(default_true());
    let except = default_player_except();
    assert_eq!(except, vec!["browser", "video", "screen-cast", "chromium", "firefox"]);
    let c = Config::default();
    assert_eq!(c.ui, Ui { title: true, time: false, progress_bar: true });
    assert_eq!(c.sources, Sources { netease: true, qq: true, kugou: true });
    assert!(c.player_filter.only.is_empty());
    assert_eq!(c.player_filter.except, except);
}

#[test]
fn player_action_defaults_to_toggle() {
    assert_eq!(PlayerAction::default(), PlayerAction::Toggle);
}

#[test]
fn error_messages_are_user_readable() {
    assert_eq!(LyricsError::NoPlayerFound.message(), "No active media player found");
    assert_eq!(LyricsError::EmptyLyrics.message(), "Empty lyrics content");
    assert_eq!(LyricsError::InvalidTimeFormat.message(), "Invalid time format");
    assert_eq!(LyricsError::IoError.message(), "Cache I/O failed");
}

#[test]
fn song_default_is_empty() {
    let s = SongInfo::default();
    assert!(s.title.is_empty());
    assert!(s.artist.is_empty());
    assert!(s.album.is_empty());
    assert_eq!(s.duration, 0);
    assert!(s.track_id.is_none());
}
