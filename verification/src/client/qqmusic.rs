use vstd::prelude::*;

use crate::client::{clone_pairs, keyword_of, pairs_view, search_keyword, HttpRequest, LyricsItem};
use crate::error::LyricsError;
use crate::song::SongInfo;
use crate::utils::{join_spec, join_with};

verus! {

/// The QQ Music provider: request shaping and response interpretation for
/// its single-phase search and its base64-wrapped lyric download.
pub struct QQMusicFetcher;

/// One song entry of a QQ Music search response, reduced to the plain
/// fields the engine reads.
#[derive(Debug)]
pub struct QqSong {
    pub songmid: String,
    pub songname: String,
    pub singer: Vec<String>,
    pub albumname: String,
}

/// One produced candidate carries one response entry: the provider tag,
/// the entry's title and album, its singers joined with single spaces, and
/// the song identifier the lyric download needs.
pub open spec fn item_from_song(item: LyricsItem, s: QqSong) -> bool {
    &&& item.source@ == "QQMusic"@
    &&& item.title@ == s.songname@
    &&& item.artist@ == join_spec(s.singer@.map_values(|a: String| a@), " "@)
    &&& item.album@ == s.albumname@
    &&& pairs_view(item.params@) == seq![("songmid"@, s.songmid@)]
}

impl QQMusicFetcher {
    /// The search request: the keyword is title and artist, JSON output,
    /// one song per page, with the referer headers the endpoint expects.
    pub fn search_request(song: &SongInfo) -> (r: HttpRequest)
        ensures
            r.url@ == "https://c.y.qq.com/soso/fcgi-bin/client_search_cp"@,
            pairs_view(r.query@) == seq![
                ("w"@, keyword_of(*song)),
                ("format"@, "json"@),
                ("p"@, "1"@),
                ("n"@, "1"@),
                ("cr"@, "1"@),
                ("t"@, "0"@),
            ],
            pairs_view(r.headers@) == seq![
                ("Referer"@, "https://y.qq.com/n/ryqq/player"@),
                ("Host"@, "c.y.qq.com"@),
                ("Origin"@, "https://y.qq.com"@),
                (
                    "User-Agent"@,
                    "Mozilla/5.0 (Windows NT 10.0; Win64; x64) AppleWebKit/537.36 (KHTML, like Gecko) Chrome/102.0.5005.63 Safari/537.36"@,
                ),
            ],
    {
        let mut query: Vec<(String, String)> = Vec::new();
        query.push(("w".to_owned(), search_keyword(song)));
        query.push(("format".to_owned(), "json".to_owned()));
        query.push(("p".to_owned(), "1".to_owned()));
        query.push(("n".to_owned(), "1".to_owned()));
        query.push(("cr".to_owned(), "1".to_owned()));
        query.push(("t".to_owned(), "0".to_owned()));
        let mut headers: Vec<(String, String)> = Vec::new();
        headers.push(("Referer".to_owned(), "https://y.qq.com/n/ryqq/player".to_owned()));
        headers.push(("Host".to_owned(), "c.y.qq.com".to_owned()));
        headers.push(("Origin".to_owned(), "https://y.qq.com".to_owned()));
        headers.push((
            "User-Agent".to_owned(),
            "Mozilla/5.0 (Windows NT 10.0; Win64; x64) AppleWebKit/537.36 (KHTML, like Gecko) Chrome/102.0.5005.63 Safari/537.36".to_owned(),
        ));
        proof {
            assert(pairs_view(query@) =~= seq![
                ("w"@, keyword_of(*song)),
                ("format"@, "json"@),
                ("p"@, "1"@),
                ("n"@, "1"@),
                ("cr"@, "1"@),
                ("t"@, "0"@),
            ]);
            assert(pairs_view(headers@) =~= seq![
                ("Referer"@, "https://y.qq.com/n/ryqq/player"@),
                ("Host"@, "c.y.qq.com"@),
                ("Origin"@, "https://y.qq.com"@),
                (
                    "User-Agent"@,
                    "Mozilla/5.0 (Windows NT 10.0; Win64; x64) AppleWebKit/537.36 (KHTML, like Gecko) Chrome/102.0.5005.63 Safari/537.36"@,
                ),
            ]);
        }
        HttpRequest {
            url: "https://c.y.qq.com/soso/fcgi-bin/client_search_cp".to_owned(),
            query,
            headers,
        }
    }

    /// Turns the search response into candidates, one per entry in order;
    /// an empty response is "not found", not a success.
    pub fn songs_to_items(songs: Vec<QqSong>) -> (r: Result<Vec<LyricsItem>, LyricsError>)
        ensures
            (match r {
                Ok(v) => songs@.len() > 0 && v@.len() == songs@.len() && forall|i: int|
                    0 <= i < v@.len() ==> item_from_song(#[trigger] v@[i], songs@[i]),
                Err(e) => e == LyricsError::NoLyricsFound && songs@.len() == 0,
            }),
    {
        if songs.len() == 0 {
            return Err(LyricsError::NoLyricsFound);
        }
        let ghost orig = songs@;
        let mut rest = songs;
        let mut out: Vec<LyricsItem> = Vec::new();
        let ghost mut k: int = 0;
        proof {
            assert(rest@ =~= orig.skip(0));
        }
        while rest.len() > 0
            invariant
                songs@ == orig,
                0 <= k,
                k + rest@.len() == orig.len(),
                rest@ == orig.skip(k),
                out@.len() == k,
                forall|j: int| 0 <= j < k ==> item_from_song(#[trigger] out@[j], orig[j]),
            decreases rest@.len(),
        {
            let s = rest.remove(0);
            proof {
                assert(s == orig[k]);
                assert(rest@ =~= orig.skip(k + 1));
            }
            let artist = join_with(&s.singer, " ");
            let mut params: Vec<(String, String)> = Vec::new();
            params.push(("songmid".to_owned(), s.songmid));
            proof {
                assert(pairs_view(params@) =~= seq![("songmid"@, orig[k].songmid@)]);
            }
            let item = LyricsItem {
                source: "QQMusic".to_owned(),
                title: s.songname,
                artist,
                album: s.albumname,
                params,
            };
            out.push(item);
            proof {
                k = k + 1;
            }
        }
        Ok(out)
    }

    /// The lyric download request for one candidate: its private
    /// parameters, then the constant format parameters, with the referer
    /// headers the endpoint expects.
    pub fn download_request(item: &LyricsItem) -> (r: HttpRequest)
        ensures
            r.url@ == "https://c.y.qq.com/lyric/fcgi-bin/fcg_query_lyric_new.fcg"@,
            pairs_view(r.query@) == pairs_view(item.params@) + seq![
                ("format"@, "json"@),
                ("g_tk"@, "5381"@),
            ],
            pairs_view(r.headers@) == seq![
                ("Referer"@, "https://y.qq.com/n/ryqq/player"@),
                ("Host"@, "c.y.qq.com"@),
                ("Origin"@, "https://y.qq.com"@),
            ],
    {
        let mut query = clone_pairs(&item.params);
        query.push(("format".to_owned(), "json".to_owned()));
        query.push(("g_tk".to_owned(), "5381".to_owned()));
        let mut headers: Vec<(String, String)> = Vec::new();
        headers.push(("Referer".to_owned(), "https://y.qq.com/n/ryqq/player".to_owned()));
        headers.push(("Host".to_owned(), "c.y.qq.com".to_owned()));
        headers.push(("Origin".to_owned(), "https://y.qq.com".to_owned()));
        proof {
            assert(pairs_view(query@) =~= pairs_view(item.params@) + seq![
                ("format"@, "json"@),
                ("g_tk"@, "5381"@),
            ]);
            assert(pairs_view(headers@) =~= seq![
                ("Referer"@, "https://y.qq.com/n/ryqq/player"@),
                ("Host"@, "c.y.qq.com"@),
                ("Origin"@, "https://y.qq.com"@),
            ]);
        }
        HttpRequest {
            url: "https://c.y.qq.com/lyric/fcgi-bin/fcg_query_lyric_new.fcg".to_owned(),
            query,
            headers,
        }
    }
}

} // verus!
