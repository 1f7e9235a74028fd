use vstd::prelude::*;

use crate::client::{clone_pairs, keyword_of, pairs_view, search_keyword, HttpRequest, LyricsItem};
use crate::error::LyricsError;
use crate::song::SongInfo;
use crate::utils::{ci_matches, ci_matches_str, contains_spec, contains_sub};

verus! {

/// The Kugou provider: request shaping and response interpretation for its
/// two-phase search (song search, then lyric-candidate search) and its
/// base64-wrapped lyric download.
pub struct KugouFetcher;

/// One song entry of a Kugou song-search response, reduced to the plain
/// fields the engine reads.
#[derive(Debug)]
pub struct KugouSong {
    pub hash: String,
    pub album_id: String,
    pub album_name: String,
    pub singername: String,
    pub songname_original: String,
}

/// One candidate entry of a Kugou lyric-candidate response.
#[derive(Debug)]
pub struct KugouCandidate {
    pub accesskey: String,
    pub download_id: String,
    pub singer: String,
    pub song: String,
}

/// A searched song matches the playing one: title equals-or-contains,
/// case-sensitive; artist and album case-insensitively equal-or-contain,
/// each skipped when the song leaves it empty.
pub open spec fn song_passes(s: KugouSong, song: SongInfo) -> bool {
    &&& (s.songname_original@ == song.title@ || contains_spec(s.songname_original@, song.title@))
    &&& (song.artist@.len() == 0 || ci_matches(s.singername@, song.artist@))
    &&& (song.album@.len() == 0 || ci_matches(s.album_name@, song.album@))
}

/// The first matching entry of the song-search response, in its order.
pub open spec fn first_passing_song(list: Seq<KugouSong>, song: SongInfo) -> Option<KugouSong>
    decreases list.len(),
{
    if list.len() == 0 {
        None
    } else if song_passes(list[0], song) {
        Some(list[0])
    } else {
        first_passing_song(list.drop_first(), song)
    }
}

proof fn lemma_first_passing_song_at(list: Seq<KugouSong>, song: SongInfo, k: int)
    requires
        0 <= k <= list.len(),
        forall|j: int| 0 <= j < k ==> !song_passes(#[trigger] list[j], song),
        k < list.len() ==> song_passes(list[k], song),
    ensures
        first_passing_song(list, song) == (if k < list.len() {
            Some(list[k])
        } else {
            None::<KugouSong>
        }),
    decreases k,
{
    if k > 0 {
        let t = list.drop_first();
        assert(forall|j: int| 0 <= j < k - 1 ==> !song_passes(#[trigger] t[j], song));
        lemma_first_passing_song_at(t, song, k - 1);
    }
}

/// One produced candidate carries the fields of one response entry, tagged
/// with the provider name, under the response's album name, with the
/// download parameters the lyric download needs.
pub open spec fn item_from_candidate(item: LyricsItem, c: KugouCandidate, album: Seq<char>) -> bool {
    &&& item.source@ == "Kugou"@
    &&& item.title@ == c.song@
    &&& item.artist@ == c.singer@
    &&& item.album@ == album
    &&& pairs_view(item.params@) == seq![("accesskey"@, c.accesskey@), ("id"@, c.download_id@)]
}

impl KugouFetcher {
    /// The song-search request: the keyword is title and artist, one page
    /// of one result.
    pub fn search_request(song: &SongInfo) -> (r: HttpRequest)
        ensures
            r.url@ == "http://mobilecdn.kugou.com/api/v3/search/song"@,
            pairs_view(r.query@) == seq![
                ("keyword"@, keyword_of(*song)),
                ("page"@, "1"@),
                ("pagesize"@, "1"@),
            ],
            r.headers@.len() == 0,
    {
        let mut query: Vec<(String, String)> = Vec::new();
        query.push(("keyword".to_owned(), search_keyword(song)));
        query.push(("page".to_owned(), "1".to_owned()));
        query.push(("pagesize".to_owned(), "1".to_owned()));
        proof {
            assert(pairs_view(query@) =~= seq![
                ("keyword"@, keyword_of(*song)),
                ("page"@, "1"@),
                ("pagesize"@, "1"@),
            ]);
        }
        HttpRequest {
            url: "http://mobilecdn.kugou.com/api/v3/search/song".to_owned(),
            query,
            headers: Vec::new(),
        }
    }

    /// Picks the response entry matching the playing song: the first one
    /// surviving the title, artist and album filters, else "not found".
    pub fn pick_song(list: Vec<KugouSong>, song: &SongInfo) -> (r: Result<KugouSong, LyricsError>)
        ensures
            (match r {
                Ok(s) => first_passing_song(list@, *song) == Some(s),
                Err(e) => e == LyricsError::NoLyricsFound && first_passing_song(
                    list@,
                    *song,
                ) is None,
            }),
    {
        let ghost orig = list@;
        let mut items = list;
        let mut i: usize = 0;
        while i < items.len()
            invariant
                items@ == orig,
                list@ == orig,
                0 <= i <= items@.len(),
                forall|j: int| 0 <= j < i ==> !song_passes(#[trigger] items@[j], *song),
            decreases items@.len() - i,
        {
            let s = &items[i];
            let title_ok = s.songname_original.eq(&song.title) || contains_sub(
                s.songname_original.as_str(),
                song.title.as_str(),
            );
            let artist_ok = song.artist.as_str().is_empty() || ci_matches_str(
                s.singername.as_str(),
                song.artist.as_str(),
            );
            let album_ok = song.album.as_str().is_empty() || ci_matches_str(
                s.album_name.as_str(),
                song.album.as_str(),
            );
            if title_ok && artist_ok && album_ok {
                proof {
                    lemma_first_passing_song_at(orig, *song, i as int);
                }
                return Ok(items.remove(i));
            }
            i = i + 1;
        }
        proof {
            lemma_first_passing_song_at(orig, *song, orig.len() as int);
        }
        Err(LyricsError::NoLyricsFound)
    }

    /// The lyric-candidate request for a picked song: its hash and album
    /// identifier, with Kugou's constant client parameters.
    pub fn lyric_request(search: &KugouSong) -> (r: HttpRequest)
        ensures
            r.url@ == "http://krcs.kugou.com/search"@,
            pairs_view(r.query@) == seq![
                ("hash"@, search.hash@),
                ("album_id"@, search.album_id@),
                ("ver"@, "1"@),
                ("client"@, "pc"@),
                ("man"@, "yes"@),
            ],
            pairs_view(r.headers@) == seq![("User-Agent"@, "Mozilla/5.0"@)],
    {
        let mut query: Vec<(String, String)> = Vec::new();
        query.push(("hash".to_owned(), search.hash.clone()));
        query.push(("album_id".to_owned(), search.album_id.clone()));
        query.push(("ver".to_owned(), "1".to_owned()));
        query.push(("client".to_owned(), "pc".to_owned()));
        query.push(("man".to_owned(), "yes".to_owned()));
        let mut headers: Vec<(String, String)> = Vec::new();
        headers.push(("User-Agent".to_owned(), "Mozilla/5.0".to_owned()));
        proof {
            assert(pairs_view(query@) =~= seq![
                ("hash"@, search.hash@),
                ("album_id"@, search.album_id@),
                ("ver"@, "1"@),
                ("client"@, "pc"@),
                ("man"@, "yes"@),
            ]);
            assert(pairs_view(headers@) =~= seq![("User-Agent"@, "Mozilla/5.0"@)]);
        }
        HttpRequest { url: "http://krcs.kugou.com/search".to_owned(), query, headers }
    }

    /// Turns the lyric-candidate response into search candidates, one per
    /// entry in order; an empty response is "not found", not a success.
    pub fn candidates_to_items(cands: Vec<KugouCandidate>, album_name: &String) -> (r: Result<
        Vec<LyricsItem>,
        LyricsError,
    >)
        ensures
            (match r {
                Ok(v) => cands@.len() > 0 && v@.len() == cands@.len() && forall|i: int|
                    0 <= i < v@.len() ==> item_from_candidate(
                        #[trigger] v@[i],
                        cands@[i],
                        album_name@,
                    ),
                Err(e) => e == LyricsError::NoLyricsFound && cands@.len() == 0,
            }),
    {
        if cands.len() == 0 {
            return Err(LyricsError::NoLyricsFound);
        }
        let ghost orig = cands@;
        let mut rest = cands;
        let mut out: Vec<LyricsItem> = Vec::new();
        let ghost mut k: int = 0;
        proof {
            assert(rest@ =~= orig.skip(0));
        }
        while rest.len() > 0
            invariant
                cands@ == orig,
                0 <= k,
                k + rest@.len() == orig.len(),
                rest@ == orig.skip(k),
                out@.len() == k,
                forall|j: int|
                    0 <= j < k ==> item_from_candidate(#[trigger] out@[j], orig[j], album_name@),
            decreases rest@.len(),
        {
            let c = rest.remove(0);
            proof {
                assert(c == orig[k]);
                assert(rest@ =~= orig.skip(k + 1));
            }
            let mut params: Vec<(String, String)> = Vec::new();
            params.push(("accesskey".to_owned(), c.accesskey));
            params.push(("id".to_owned(), c.download_id));
            proof {
                assert(pairs_view(params@) =~= seq![
                    ("accesskey"@, orig[k].accesskey@),
                    ("id"@, orig[k].download_id@),
                ]);
            }
            let item = LyricsItem {
                source: "Kugou".to_owned(),
                title: c.song,
                artist: c.singer,
                album: album_name.clone(),
                params,
            };
            out.push(item);
            proof {
                k = k + 1;
            }
        }
        Ok(out)
    }

    /// The lyric download request for one candidate: its private
    /// parameters, then Kugou's constant format parameters.
    pub fn download_request(item: &LyricsItem) -> (r: HttpRequest)
        ensures
            r.url@ == "http://lyrics.kugou.com/download"@,
            pairs_view(r.query@) == pairs_view(item.params@) + seq![
                ("ver"@, "1"@),
                ("client"@, "pc"@),
                ("fmt"@, "lrc"@),
                ("charset"@, "utf8"@),
            ],
            pairs_view(r.headers@) == seq![("User-Agent"@, "Mozilla/5.0"@)],
    {
        let mut query = clone_pairs(&item.params);
        query.push(("ver".to_owned(), "1".to_owned()));
        query.push(("client".to_owned(), "pc".to_owned()));
        query.push(("fmt".to_owned(), "lrc".to_owned()));
        query.push(("charset".to_owned(), "utf8".to_owned()));
        let mut headers: Vec<(String, String)> = Vec::new();
        headers.push(("User-Agent".to_owned(), "Mozilla/5.0".to_owned()));
        proof {
            assert(pairs_view(query@) =~= pairs_view(item.params@) + seq![
                ("ver"@, "1"@),
                ("client"@, "pc"@),
                ("fmt"@, "lrc"@),
                ("charset"@, "utf8"@),
            ]);
            assert(pairs_view(headers@) =~= seq![("User-Agent"@, "Mozilla/5.0"@)]);
        }
        HttpRequest { url: "http://lyrics.kugou.com/download".to_owned(), query, headers }
    }
}

} // verus!
