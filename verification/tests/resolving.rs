use lyrics_next::cache::CacheManager;
use lyrics_next::client::kugou::{KugouCandidate, KugouFetcher, KugouSong};
use lyrics_next::client::netease::{NeteaseFetcher, NeteaseSong};
use lyrics_next::client::qqmusic::{QQMusicFetcher, QqSong};
use lyrics_next::client::{
    decode_lyric, get_first, search_keyword, BaseFetcher, LyricsClient, LyricsItem, ResolveStart,
    ResolveStep, RetryDecision, SourceKind,
};
use lyrics_next::config::Sources;
use lyrics_next::error::LyricsError;
use lyrics_next::song::{LyricParser, SongInfo};

fn song(title: &str, artist: &str, album: &str, duration: u64) -> SongInfo {
    SongInfo {
        track_id: None,
        title: title.to_string(),
        artist: artist.to_string(),
        album: album.to_string(),
        duration,
    }
}

fn item(source: &str, title: &str, artist: &str, album: &str) -> LyricsItem {
    LyricsItem {
        source: source.to_string(),
        title: title.to_string(),
        artist: artist.to_string(),
        album: album.to_string(),
        params: Vec::new(),
    }
}

fn all_sources() -> Sources {
    Sources { netease: true, qq: true, kugou: true }
}

#[test]
fn cache_key_is_sanitized_and_deterministic() {
    let cache = CacheManager::new();
    let s = song("T.N.T", "AC/DC", "", 0);
    let key = cache.lyrics_name(&s);
    assert!(!key.contains('/'));
    assert!(!key.contains('\\'));
    assert!(key.ends_with(".lrc"));
    assert_eq!(key, cache.lyrics_name(&s));
    assert_eq!(key, "ACDC-T.N.T.lrc");
}

#[test]
fn cache_key_carries_album_when_present() {
    let cache = CacheManager::new();
    let with = cache.lyrics_name(&song("T", "A", "L", 0));
    let without = cache.lyrics_name(&song("T", "A", "", 0));
    assert_eq!(with, "A-T-L.lrc");
    assert_eq!(without, "A-T.lrc");
}

#[test]
fn cache_store_then_get_round_trips() {
    let mut cache = CacheManager::new();
    let s = song("Title", "Artist", "", 0);
    assert!(cache.get(&s).is_none());
    cache.store(&s, "Kugou", "[00:01.00]line").unwrap();
    assert_eq!(cache.get(&s).unwrap(), "[00:01.00]line");
}

#[test]
fn cache_store_overwrites_unconditionally() {
    let mut cache = CacheManager::new();
    let s = song("Title", "Artist", "", 0);
    cache.store(&s, "Kugou", "old").unwrap();
    cache.store(&s, "Netease", "new").unwrap();
    assert_eq!(cache.get(&s).unwrap(), "new");
}

#[test]
fn cache_delete_removes_and_tolerates_absence() {
    let mut cache = CacheManager::new();
    let s = song("Title", "Artist", "", 0);
    cache.delete(&s);
    cache.store(&s, "Kugou", "text").unwrap();
    cache.delete(&s);
    assert!(cache.get(&s).is_none());
}

#[test]
fn selector_with_empty_artist_album_takes_first_title_match() {
    let s = song("X", "", "", 0);
    let list = vec![
        item("Kugou", "other", "a", "b"),
        item("Kugou", "say X now", "a", "b"),
        item("Kugou", "X", "a", "b"),
    ];
    let picked = get_first(list, &s).unwrap();
    assert_eq!(picked.title, "say X now");
}

#[test]
fn selector_never_returns_a_title_miss() {
    let s = song("X", "A", "", 0);
    let list = vec![
        item("Kugou", "no match", "A", ""),
        item("Kugou", "X plus", "B", ""),
    ];
    match get_first(list, &s) {
        Err(LyricsError::NoLyricsFound) => {}
        other => panic!("unexpected: {:?}", other),
    }
}

#[test]
fn selector_artist_filter_is_case_insensitive_contains() {
    let s = song("X", "beatles", "", 0);
    let list = vec![item("Kugou", "X", "The Beatles", "")];
    let picked = get_first(list, &s).unwrap();
    assert_eq!(picked.artist, "The Beatles");
}

#[test]
fn selector_album_filter_applies_when_album_set() {
    let s = song("X", "", "Abbey", 0);
    let list = vec![
        item("Kugou", "X", "", "Something Else"),
        item("Kugou", "X", "", "abbey road"),
    ];
    let picked = get_first(list, &s).unwrap();
    assert_eq!(picked.album, "abbey road");
}

#[test]
fn retry_policy_backs_off_and_gives_up() {
    let policy = BaseFetcher::new();
    assert_eq!(policy.next_retry(0), RetryDecision::RetryAfter(1));
    assert_eq!(policy.next_retry(1), RetryDecision::RetryAfter(2));
    assert_eq!(policy.next_retry(2), RetryDecision::RetryAfter(4));
    assert_eq!(policy.next_retry(3), RetryDecision::GiveUp);
}

#[test]
fn retry_policy_only_retries_transport_failures() {
    let policy = BaseFetcher::new();
    assert!(policy.should_retry(&LyricsError::TransportError));
    assert!(!policy.should_retry(&LyricsError::LyricsDecodeError));
    assert!(!policy.should_retry(&LyricsError::NoLyricsFound));
}

#[test]
fn decode_lyric_round_trips_base64_text() {
    assert_eq!(decode_lyric("aGVsbG8=").unwrap(), "hello");
}

#[test]
fn decode_lyric_rejects_invalid_base64() {
    match decode_lyric("!!!") {
        Err(LyricsError::LyricsDecodeError) => {}
        other => panic!("unexpected: {:?}", other),
    }
}

#[test]
fn decode_lyric_treats_empty_text_as_not_found() {
    match decode_lyric("") {
        Err(LyricsError::NoLyricsFound) => {}
        other => panic!("unexpected: {:?}", other),
    }
}

#[test]
fn client_enables_sources_in_priority_order() {
    let client = LyricsClient::new(&all_sources());
    assert_eq!(client.num_fetchers(), 3);
    assert_eq!(client.fetcher(0), SourceKind::Kugou);
    assert_eq!(client.fetcher(1), SourceKind::Netease);
    assert_eq!(client.fetcher(2), SourceKind::QQMusic);
    let partial = LyricsClient::new(&Sources { netease: false, qq: true, kugou: false });
    assert_eq!(partial.num_fetchers(), 1);
    assert_eq!(partial.fetcher(0), SourceKind::QQMusic);
}

#[test]
fn source_names_are_stable() {
    assert_eq!(SourceKind::Kugou.source_name(), "Kugou");
    assert_eq!(SourceKind::Netease.source_name(), "Netease");
    assert_eq!(SourceKind::QQMusic.source_name(), "QQMusic");
}

#[test]
fn resolution_serves_cache_hits_without_fetching() {
    let mut client = LyricsClient::new(&all_sources());
    let s = song("T", "A", "", 0);
    client.cache.store(&s, "Kugou", "cached text").unwrap();
    match client.get_lyrics(&s) {
        ResolveStart::Cached(text) => assert_eq!(text, "cached text"),
        other => panic!("unexpected: {:?}", other),
    }
}

#[test]
fn resolution_fails_fast_without_providers() {
    let client = LyricsClient::new(&Sources { netease: false, qq: false, kugou: false });
    let s = song("T", "A", "", 0);
    match client.get_lyrics(&s) {
        ResolveStart::Failed(LyricsError::NoLyricsFound) => {}
        other => panic!("unexpected: {:?}", other),
    }
}

#[test]
fn resolution_falls_over_to_next_provider() {
    let mut client = LyricsClient::new(&all_sources());
    let s = song("T", "A", "", 0);
    let res = match client.get_lyrics(&s) {
        ResolveStart::Pending(res) => res,
        other => panic!("unexpected: {:?}", other),
    };
    assert_eq!(client.current_source(&res), SourceKind::Kugou);
    let res = match client.resolve_step(res, Err(LyricsError::TransportError)) {
        ResolveStep::Continue(res) => res,
        other => panic!("unexpected: {:?}", other),
    };
    assert_eq!(client.current_source(&res), SourceKind::Netease);
    match client.resolve_step(res, Ok("b text".to_string())) {
        ResolveStep::Done(Ok(text)) => assert_eq!(text, "b text"),
        other => panic!("unexpected: {:?}", other),
    }
    assert_eq!(client.cache.get(&s).unwrap(), "b text");
}

#[test]
fn resolution_exhausts_providers_into_not_found() {
    let mut client = LyricsClient::new(&Sources { netease: true, qq: false, kugou: false });
    let s = song("T", "A", "", 0);
    let res = match client.get_lyrics(&s) {
        ResolveStart::Pending(res) => res,
        other => panic!("unexpected: {:?}", other),
    };
    match client.resolve_step(res, Err(LyricsError::LyricsDecodeError)) {
        ResolveStep::Done(Err(LyricsError::NoLyricsFound)) => {}
        other => panic!("unexpected: {:?}", other),
    }
    assert!(client.cache.get(&s).is_none());
}

#[test]
fn search_aggregation_concatenates_successes_in_order() {
    let client = LyricsClient::new(&all_sources());
    let results = vec![
        Ok(vec![item("Kugou", "a", "", "")]),
        Err(LyricsError::TransportError),
        Ok(vec![item("QQMusic", "b", "", ""), item("QQMusic", "c", "", "")]),
    ];
    let all = client.get_search(results);
    let titles: Vec<&str> = all.iter().map(|i| i.title.as_str()).collect();
    assert_eq!(titles, vec!["a", "b", "c"]);
}

#[test]
fn download_routes_by_source_tag() {
    let client = LyricsClient::new(&all_sources());
    assert_eq!(client.download_route(&item("Netease", "t", "", "")), Some(SourceKind::Netease));
    assert_eq!(client.download_route(&item("Nowhere", "t", "", "")), None);
}

#[test]
fn download_stores_fetched_text() {
    let mut client = LyricsClient::new(&all_sources());
    let s = song("T", "A", "", 0);
    let it = item("Netease", "T", "A", "");
    client.download(&s, &it, Ok("picked text".to_string())).unwrap();
    assert_eq!(client.cache.get(&s).unwrap(), "picked text");
}

#[test]
fn download_failure_surfaces_not_found() {
    let mut client = LyricsClient::new(&all_sources());
    let s = song("T", "A", "", 0);
    let it = item("Netease", "T", "A", "");
    match client.download(&s, &it, Err(LyricsError::TransportError)) {
        Err(LyricsError::NoLyricsFound) => {}
        other => panic!("unexpected: {:?}", other),
    }
    assert!(client.cache.get(&s).is_none());
}

#[test]
fn keyword_joins_title_and_artist() {
    assert_eq!(search_keyword(&song("X", "Y", "", 0)), "X Y");
}

#[test]
fn kugou_search_request_shape() {
    let r = KugouFetcher::search_request(&song("X", "Y", "", 0));
    assert_eq!(r.url, "http://mobilecdn.kugou.com/api/v3/search/song");
    assert_eq!(r.query[0], ("keyword".to_string(), "X Y".to_string()));
    assert_eq!(r.query[1], ("page".to_string(), "1".to_string()));
    assert_eq!(r.query[2], ("pagesize".to_string(), "1".to_string()));
    assert!(r.headers.is_empty());
}

#[test]
fn kugou_pick_song_filters_like_the_selector() {
    let s = song("X", "b", "", 0);
    let list = vec![
        KugouSong {
            hash: "h1".into(),
            album_id: "a1".into(),
            album_name: "al1".into(),
            singername: "other".into(),
            songname_original: "X".into(),
        },
        KugouSong {
            hash: "h2".into(),
            album_id: "a2".into(),
            album_name: "al2".into(),
            singername: "The B Side".into(),
            songname_original: "X live".into(),
        },
    ];
    let picked = KugouFetcher::pick_song(list, &s).unwrap();
    assert_eq!(picked.hash, "h2");
}

#[test]
fn kugou_lyric_request_carries_hash_and_album() {
    let songinfo = KugouSong {
        hash: "h".into(),
        album_id: "a".into(),
        album_name: "al".into(),
        singername: "s".into(),
        songname_original: "t".into(),
    };
    let r = KugouFetcher::lyric_request(&songinfo);
    assert_eq!(r.url, "http://krcs.kugou.com/search");
    assert_eq!(r.query[0], ("hash".to_string(), "h".to_string()));
    assert_eq!(r.query[1], ("album_id".to_string(), "a".to_string()));
    assert_eq!(r.headers[0], ("User-Agent".to_string(), "Mozilla/5.0".to_string()));
}

#[test]
fn kugou_candidates_become_items() {
    let cands = vec![KugouCandidate {
        accesskey: "k".into(),
        download_id: "42".into(),
        singer: "S".into(),
        song: "T".into(),
    }];
    let items = KugouFetcher::candidates_to_items(cands, &"Album".to_string()).unwrap();
    assert_eq!(items.len(), 1);
    assert_eq!(items[0].source, "Kugou");
    assert_eq!(items[0].title, "T");
    assert_eq!(items[0].artist, "S");
    assert_eq!(items[0].album, "Album");
    assert_eq!(items[0].params[0], ("accesskey".to_string(), "k".to_string()));
    assert_eq!(items[0].params[1], ("id".to_string(), "42".to_string()));
}

#[test]
fn kugou_empty_candidates_are_not_found() {
    match KugouFetcher::candidates_to_items(Vec::new(), &"A".to_string()) {
        Err(LyricsError::NoLyricsFound) => {}
        other => panic!("unexpected: {:?}", other),
    }
}

#[test]
fn kugou_download_request_appends_constants() {
    let mut it = item("Kugou", "T", "S", "");
    it.params.push(("accesskey".to_string(), "k".to_string()));
    it.params.push(("id".to_string(), "42".to_string()));
    let r = KugouFetcher::download_request(&it);
    assert_eq!(r.url, "http://lyrics.kugou.com/download");
    assert_eq!(r.query[0], ("accesskey".to_string(), "k".to_string()));
    assert_eq!(r.query[1], ("id".to_string(), "42".to_string()));
    assert_eq!(r.query[2], ("ver".to_string(), "1".to_string()));
    assert_eq!(r.query[5], ("charset".to_string(), "utf8".to_string()));
}

#[test]
fn netease_search_request_shape() {
    let r = NeteaseFetcher::search_request(&song("X", "Y", "", 0));
    assert_eq!(r.url, "https://music.163.com/api/search/get/");
    assert_eq!(r.query[0], ("s".to_string(), "X Y".to_string()));
    assert_eq!(r.query[2], ("limit".to_string(), "10".to_string()));
    assert!(r.headers.is_empty());
}

#[test]
fn netease_songs_become_items_with_joined_artists() {
    let songs = vec![NeteaseSong {
        id: "99".into(),
        name: "T".into(),
        artists: vec!["A".to_string(), "B".to_string()],
        album: "L".into(),
    }];
    let items = NeteaseFetcher::songs_to_items(songs).unwrap();
    assert_eq!(items[0].source, "Netease");
    assert_eq!(items[0].artist, "A B");
    assert_eq!(items[0].params[0], ("id".to_string(), "99".to_string()));
    assert_eq!(items[0].params[1], ("lv".to_string(), "1".to_string()));
}

#[test]
fn netease_empty_songs_are_not_found() {
    match NeteaseFetcher::songs_to_items(Vec::new()) {
        Err(LyricsError::NoLyricsFound) => {}
        other => panic!("unexpected: {:?}", other),
    }
}

#[test]
fn netease_download_request_uses_item_params() {
    let mut it = item("Netease", "T", "", "");
    it.params.push(("id".to_string(), "99".to_string()));
    let r = NeteaseFetcher::download_request(&it);
    assert_eq!(r.url, "https://music.163.com/api/song/lyric");
    assert_eq!(r.query, it.params);
}

#[test]
fn qq_search_request_shape() {
    let r = QQMusicFetcher::search_request(&song("X", "Y", "", 0));
    assert_eq!(r.url, "https://c.y.qq.com/soso/fcgi-bin/client_search_cp");
    assert_eq!(r.query[0], ("w".to_string(), "X Y".to_string()));
    assert_eq!(r.headers[1], ("Host".to_string(), "c.y.qq.com".to_string()));
    assert_eq!(r.headers.len(), 4);
}

#[test]
fn qq_songs_become_items() {
    let songs = vec![QqSong {
        songmid: "m1".into(),
        songname: "T".into(),
        singer: vec!["A".to_string()],
        albumname: "L".into(),
    }];
    let items = QQMusicFetcher::songs_to_items(songs).unwrap();
    assert_eq!(items[0].source, "QQMusic");
    assert_eq!(items[0].params[0], ("songmid".to_string(), "m1".to_string()));
}

#[test]
fn qq_download_request_appends_format_params() {
    let mut it = item("QQMusic", "T", "", "");
    it.params.push(("songmid".to_string(), "m1".to_string()));
    let r = QQMusicFetcher::download_request(&it);
    assert_eq!(r.url, "https://c.y.qq.com/lyric/fcgi-bin/fcg_query_lyric_new.fcg");
    assert_eq!(r.query[1], ("format".to_string(), "json".to_string()));
    assert_eq!(r.query[2], ("g_tk".to_string(), "5381".to_string()));
    assert_eq!(r.headers.len(), 3);
}

#[test]
fn end_to_end_resolution_parses_and_caches() {
    // Song {title:"X", artist:"Y", album:"", duration:200 s}; one enabled
    // provider returning one matching candidate.
    let s = song("X", "Y", "", 20000);
    let mut client = LyricsClient::new(&Sources { netease: false, qq: false, kugou: true });
    let res = match client.get_lyrics(&s) {
        ResolveStart::Pending(res) => res,
        other => panic!("unexpected: {:?}", other),
    };
    assert_eq!(client.current_source(&res), SourceKind::Kugou);

    // The provider's search response holds one matching song.
    let req = KugouFetcher::search_request(&s);
    assert_eq!(req.query[0].1, "X Y");
    let found = KugouFetcher::pick_song(
        vec![KugouSong {
            hash: "h".into(),
            album_id: "a".into(),
            album_name: "".into(),
            singername: "Y".into(),
            songname_original: "X".into(),
        }],
        &s,
    )
    .unwrap();
    let cands = vec![KugouCandidate {
        accesskey: "k".into(),
        download_id: "1".into(),
        singer: "Y".into(),
        song: "X".into(),
    }];
    let items = KugouFetcher::candidates_to_items(cands, &found.album_name).unwrap();
    let picked = get_first(items, &s).unwrap();
    let _dl = KugouFetcher::download_request(&picked);

    // "WzAwOjAxLjAwXWxpbmUxClswMDoxMC4wMF1saW5lMg==" is the base64 of
    // "[00:01.00]line1\n[00:10.00]line2".
    let text = decode_lyric("WzAwOjAxLjAwXWxpbmUxClswMDoxMC4wMF1saW5lMg==").unwrap();
    match client.resolve_step(res, Ok(text.clone())) {
        ResolveStep::Done(Ok(t)) => assert_eq!(t, text),
        other => panic!("unexpected: {:?}", other),
    }

    // The cache now holds the text under the sanitized .lrc name, and the
    // parsed lines end at the song duration.
    assert!(client.cache.lyrics_name(&s).ends_with(".lrc"));
    assert_eq!(client.cache.get(&s).unwrap(), text);
    let lines = LyricParser::parse(&text, s.duration).unwrap();
    assert!(!lines.is_empty());
    assert_eq!(lines.last().unwrap().timestamp_end, 20000);
}
