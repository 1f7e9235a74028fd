use vstd::prelude::*;

use crate::client::{clone_pairs, keyword_of, pairs_view, search_keyword, HttpRequest, LyricsItem};
use crate::error::LyricsError;
use crate::song::SongInfo;
use crate::utils::{join_spec, join_with};

verus! {

/// The Netease provider: request shaping and response interpretation for
/// its single-phase search and its plain-text lyric download.
pub struct NeteaseFetcher;

/// One song entry of a Netease search response, reduced to the plain
/// fields the engine reads; the numeric song identifier arrives already
/// rendered as a decimal string.
#[derive(Debug)]
pub struct NeteaseSong {
    pub id: String,
    pub name: String,
    pub artists: Vec<String>,
    pub album: String,
}

/// One produced candidate carries one response entry: the provider tag,
/// the entry's title and album, its artists joined with single spaces, and
/// the song identifier the lyric download needs.
pub open spec fn item_from_song(item: LyricsItem, s: NeteaseSong) -> bool {
    &&& item.source@ == "Netease"@
    &&& item.title@ == s.name@
    &&& item.artist@ == join_spec(s.artists@.map_values(|a: String| a@), " "@)
    &&& item.album@ == s.album@
    &&& pairs_view(item.params@) == seq![("id"@, s.id@), ("lv"@, "1"@)]
}

impl NeteaseFetcher {
    /// The search request: the keyword is title and artist; song search
    /// with a limit of ten results.
    pub fn search_request(song: &SongInfo) -> (r: HttpRequest)
        ensures
            r.url@ == "https://music.163.com/api/search/get/"@,
            pairs_view(r.query@) == seq![
                ("s"@, keyword_of(*song)),
                ("type"@, "1"@),
                ("limit"@, "10"@),
                ("offset"@, "0"@),
            ],
            r.headers@.len() == 0,
    {
        let mut query: Vec<(String, String)> = Vec::new();
        query.push(("s".to_owned(), search_keyword(song)));
        query.push(("type".to_owned(), "1".to_owned()));
        query.push(("limit".to_owned(), "10".to_owned()));
        query.push(("offset".to_owned(), "0".to_owned()));
        proof {
            assert(pairs_view(query@) =~= seq![
                ("s"@, keyword_of(*song)),
                ("type"@, "1"@),
                ("limit"@, "10"@),
                ("offset"@, "0"@),
            ]);
        }
        HttpRequest {
            url: "https://music.163.com/api/search/get/".to_owned(),
            query,
            headers: Vec::new(),
        }
    }

    /// Turns the search response into candidates, one per entry in order;
    /// an empty response is "not found", not a success.
    pub fn songs_to_items(songs: Vec<NeteaseSong>) -> (r: Result<Vec<LyricsItem>, LyricsError>)
        ensures
            (match r {
                Ok(v) => songs@.len() > 0 && v@.len() == songs@.len() && forall|i: int|
                    0 <= i < v@.len() ==> item_from_song(#[trigger] v@[i], songs@[i]),
                Err(e) => e == LyricsError::NoLyricsFound && songs@.len() == 0,
            }),
    {
        if songs.len() == 0 {
            return Err(LyricsError::NoLyricsFound);
        }
        let ghost orig = songs@;
        let mut rest = songs;
        let mut out: Vec<LyricsItem> = Vec::new();
        let ghost mut k: int = 0;
        proof {
            assert(rest@ =~= orig.skip(0));
        }
        while rest.len() > 0
            invariant
                songs@ == orig,
                0 <= k,
                k + rest@.len() == orig.len(),
                rest@ == orig.skip(k),
                out@.len() == k,
                forall|j: int| 0 <= j < k ==> item_from_song(#[trigger] out@[j], orig[j]),
            decreases rest@.len(),
        {
            let s = rest.remove(0);
            proof {
                assert(s == orig[k]);
                assert(rest@ =~= orig.skip(k + 1));
            }
            let artist = join_with(&s.artists, " ");
            let mut params: Vec<(String, String)> = Vec::new();
            params.push(("id".to_owned(), s.id));
            params.push(("lv".to_owned(), "1".to_owned()));
            proof {
                assert(pairs_view(params@) =~= seq![("id"@, orig[k].id@), ("lv"@, "1"@)]);
            }
            let item = LyricsItem {
                source: "Netease".to_owned(),
                title: s.name,
                artist,
                album: s.album,
                params,
            };
            out.push(item);
            proof {
                k = k + 1;
            }
        }
        Ok(out)
    }

    /// The lyric download request for one candidate: exactly its private
    /// parameters.
    pub fn download_request(item: &LyricsItem) -> (r: HttpRequest)
        ensures
            r.url@ == "https://music.163.com/api/song/lyric"@,
            pairs_view(r.query@) == pairs_view(item.params@),
            r.headers@.len() == 0,
    {
        let query = clone_pairs(&item.params);
        HttpRequest {
            url: "https://music.163.com/api/song/lyric".to_owned(),
            query,
            headers: Vec::new(),
        }
    }
}

} // verus!
