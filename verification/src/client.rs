use vstd::prelude::*;

use crate::cache::{cache_key_of, CacheManager};
use crate::config::Sources;
use crate::error::LyricsError;
use crate::song::SongInfo;
use crate::utils::{ci_matches, ci_matches_str, contains_spec, contains_sub};

pub mod kugou;
pub mod netease;
pub mod qqmusic;

verus! {

// ---------------------------------------------------------------------------
// Candidates and requests
// ---------------------------------------------------------------------------

/// One lyric search candidate: where it came from, what it claims to be,
/// and the provider-private parameters needed to download its body.
#[derive(Debug, Clone)]
pub struct LyricsItem {
    pub source: String,
    pub title: String,
    pub artist: String,
    pub album: String,
    pub params: Vec<(String, String)>,
}

/// The mathematical value of a query or header list.
pub open spec fn pairs_view(v: Seq<(String, String)>) -> Seq<(Seq<char>, Seq<char>)> {
    v.map_values(|p: (String, String)| (p.0@, p.1@))
}

/// A fully shaped HTTP GET request: URL, query parameters, headers.  The
/// surrounding application sends it and decodes the response.
#[derive(Debug)]
pub struct HttpRequest {
    pub url: String,
    pub query: Vec<(String, String)>,
    pub headers: Vec<(String, String)>,
}

/// The query keyword every provider searches with: title and artist,
/// separated by one space.
pub open spec fn keyword_of(song: SongInfo) -> Seq<char> {
    song.title@ + " "@ + song.artist@
}

/// Builds the search keyword for a song.
pub fn search_keyword(song: &SongInfo) -> (r: String)
    ensures
        r@ == keyword_of(*song),
{
    let mut k = song.title.clone();
    k.append(" ");
    k.append(song.artist.as_str());
    k
}

/// Copies a parameter list, pair by pair.
pub(crate) fn clone_pairs(v: &Vec<(String, String)>) -> (r: Vec<(String, String)>)
    ensures
        r@ == v@,
{
    let mut out: Vec<(String, String)> = Vec::new();
    let mut i: usize = 0;
    while i < v.len()
        invariant
            0 <= i <= v@.len(),
            out@.len() == i,
            forall|j: int| 0 <= j < i ==> out@[j] == v@[j],
        decreases v@.len() - i,
    {
        let p = &v[i];
        out.push((p.0.clone(), p.1.clone()));
        i = i + 1;
    }
    proof {
        assert(out@ =~= v@);
    }
    out
}

// ---------------------------------------------------------------------------
// Retry policy
// ---------------------------------------------------------------------------

/// What to do after a failed request attempt.
#[derive(Debug, Clone, Copy, PartialEq, Eq, Structural)]
pub enum RetryDecision {
    /// Try again after this many seconds.
    RetryAfter(u64),
    /// Surface the failure.
    GiveUp,
}

/// The request retry policy shared by all providers: a bounded number of
/// additional attempts with doubling backoff.
pub struct BaseFetcher {
    retries: u8,
}

impl BaseFetcher {
    /// The number of additional attempts made after the first.
    pub closed spec fn retries_spec(&self) -> u8 {
        self.retries
    }

    /// The retry bound is small enough for the backoff shift.
    pub closed spec fn wf(&self) -> bool {
        self.retries <= 62
    }

    /// The standard policy: three additional attempts.
    pub fn new() -> (r: BaseFetcher)
        ensures
            r.wf(),
            r.retries_spec() == 3,
    {
        BaseFetcher { retries: 3 }
    }

    /// Only transport failures are retried; a received-but-malformed
    /// response is surfaced at once.
    pub fn should_retry(&self, e: &LyricsError) -> (r: bool)
        ensures
            r == (*e == LyricsError::TransportError),
    {
        match e {
            LyricsError::TransportError => true,
            _ => false,
        }
    }

    /// The decision after the transport failure of attempt `attempt`
    /// (counted from zero): retry after `2^attempt` seconds while attempts
    /// remain, else give up and surface the last transport error.
    pub fn next_retry(&self, attempt: u8) -> (r: RetryDecision)
        requires
            self.wf(),
        ensures
            attempt < self.retries_spec() ==> r == RetryDecision::RetryAfter(
                (1u64 << attempt) as u64,
            ),
            attempt >= self.retries_spec() ==> r == RetryDecision::GiveUp,
    {
        if attempt < self.retries {
            RetryDecision::RetryAfter(1u64 << attempt)
        } else {
            RetryDecision::GiveUp
        }
    }
}

impl Default for BaseFetcher {
    /// The standard policy.
    fn default() -> (r: BaseFetcher)
        ensures
            r.wf(),
            r.retries_spec() == 3,
    {
        BaseFetcher::new()
    }
}

// ---------------------------------------------------------------------------
// Best-match selection
// ---------------------------------------------------------------------------

/// The candidate's title equals the song's or contains it, case-sensitive.
pub open spec fn title_matches(item_title: Seq<char>, song_title: Seq<char>) -> bool {
    item_title == song_title || contains_spec(item_title, song_title)
}

/// The candidate survives every filter stage: title equals-or-contains;
/// artist case-insensitively equals-or-contains, unless the song's artist
/// is empty; likewise for the album.
pub open spec fn candidate_passes(item: LyricsItem, song: SongInfo) -> bool {
    &&& title_matches(item.title@, song.title@)
    &&& (song.artist@.len() == 0 || ci_matches(item.artist@, song.artist@))
    &&& (song.album@.len() == 0 || ci_matches(item.album@, song.album@))
}

/// The first candidate, in list order, that survives every filter stage.
pub open spec fn first_passing(list: Seq<LyricsItem>, song: SongInfo) -> Option<LyricsItem>
    decreases list.len(),
{
    if list.len() == 0 {
        None
    } else if candidate_passes(list[0], song) {
        Some(list[0])
    } else {
        first_passing(list.drop_first(), song)
    }
}

proof fn lemma_first_passing_at(list: Seq<LyricsItem>, song: SongInfo, k: int)
    requires
        0 <= k <= list.len(),
        forall|j: int| 0 <= j < k ==> !candidate_passes(#[trigger] list[j], song),
        k < list.len() ==> candidate_passes(list[k], song),
    ensures
        first_passing(list, song) == (if k < list.len() {
            Some(list[k])
        } else {
            None::<LyricsItem>
        }),
    decreases k,
{
    if k == 0 {
    } else {
        let t = list.drop_first();
        assert(forall|j: int| 0 <= j < k - 1 ==> !candidate_passes(#[trigger] t[j], song));
        lemma_first_passing_at(t, song, k - 1);
    }
}

/// Whether one candidate survives every filter stage for `song`.
fn passes(item: &LyricsItem, song: &SongInfo) -> (r: bool)
    ensures
        r == candidate_passes(*item, *song),
{
    let title_ok = item.title.eq(&song.title) || contains_sub(
        item.title.as_str(),
        song.title.as_str(),
    );
    let artist_ok = song.artist.as_str().is_empty() || ci_matches_str(
        item.artist.as_str(),
        song.artist.as_str(),
    );
    let album_ok = song.album.as_str().is_empty() || ci_matches_str(
        item.album.as_str(),
        song.album.as_str(),
    );
    title_ok && artist_ok && album_ok
}

/// Narrows a candidate list to the entry most likely matching `song`:
/// stage-wise filtering by title, artist and album, returning the first
/// survivor in original order, or `NoLyricsFound` when none survives.
pub fn get_first(list: Vec<LyricsItem>, song: &SongInfo) -> (r: Result<LyricsItem, LyricsError>)
    ensures
        (match r {
            Ok(item) => first_passing(list@, *song) == Some(item),
            Err(e) => e == LyricsError::NoLyricsFound && first_passing(list@, *song) is None,
        }),
{
    let ghost orig = list@;
    let mut items = list;
    let mut i: usize = 0;
    while i < items.len()
        invariant
            items@ == orig,
            list@ == orig,
            0 <= i <= items@.len(),
            forall|j: int| 0 <= j < i ==> !candidate_passes(#[trigger] items@[j], *song),
        decreases items@.len() - i,
    {
        let hit = passes(&items[i], song);
        if hit {
            proof {
                lemma_first_passing_at(orig, *song, i as int);
            }
            let picked = items.remove(i);
            return Ok(picked);
        }
        i = i + 1;
    }
    proof {
        lemma_first_passing_at(orig, *song, orig.len() as int);
    }
    Err(LyricsError::NoLyricsFound)
}

/// With an empty artist and album, only the title stage filters: the
/// selector returns exactly the first candidate whose title matches or
/// contains the song's title.
pub proof fn lemma_selector_title_only(list: Seq<LyricsItem>, song: SongInfo)
    requires
        song.artist@.len() == 0,
        song.album@.len() == 0,
    ensures
        first_passing(list, song) == (if list.len() == 0 {
            None::<LyricsItem>
        } else if title_matches(list[0].title@, song.title@) {
            Some(list[0])
        } else {
            first_passing(list.drop_first(), song)
        }),
{
}

/// Whatever the artist or album filters do, the selector never returns a
/// candidate that failed the title stage.
pub proof fn lemma_selector_respects_title(list: Seq<LyricsItem>, song: SongInfo)
    ensures
        (match first_passing(list, song) {
            Some(item) => title_matches(item.title@, song.title@),
            None => true,
        }),
    decreases list.len(),
{
    if list.len() > 0 && !candidate_passes(list[0], song) {
        lemma_selector_respects_title(list.drop_first(), song);
    }
}

// ---------------------------------------------------------------------------
// Payload decoding
// ---------------------------------------------------------------------------

/// The bytes a standard-alphabet base64 decode yields, if the text is
/// valid base64.
pub uninterp spec fn base64_decoded(s: Seq<char>) -> Option<Seq<u8>>;

/// Relies on base64's standard-alphabet engine (`BASE64_STANDARD.decode`):
/// the result is a function of the input characters alone.
#[verifier::external_body]
fn base64_decode(s: &str) -> (r: Option<Vec<u8>>)
    ensures
        (match r {
            Some(v) => base64_decoded(s@) == Some(v@),
            None => base64_decoded(s@) is None,
        }),
{
    base64::Engine::decode(&base64::prelude::BASE64_STANDARD, s).ok()
}

/// The characters of a byte string read as UTF-8, if it is valid UTF-8.
pub uninterp spec fn utf8_of(b: Seq<u8>) -> Option<Seq<char>>;

/// Relies on String::from_utf8: the result is a function of the bytes
/// alone.
#[verifier::external_body]
fn utf8_to_string(b: Vec<u8>) -> (r: Option<String>)
    ensures
        (match r {
            Some(s) => utf8_of(b@) == Some(s@),
            None => utf8_of(b@) is None,
        }),
{
    String::from_utf8(b).ok()
}

/// Decodes a base64-wrapped lyric body into text: invalid base64 or
/// invalid UTF-8 is a decode failure, and an empty decoded text counts as
/// "not found" rather than success.
pub fn decode_lyric(encoded: &str) -> (r: Result<String, LyricsError>)
    ensures
        (match r {
            Ok(s) => (match base64_decoded(encoded@) {
                Some(b) => utf8_of(b) == Some(s@) && s@.len() > 0,
                None => false,
            }),
            Err(e) => (match base64_decoded(encoded@) {
                Some(b) => (match utf8_of(b) {
                    Some(t) => e == LyricsError::NoLyricsFound && t.len() == 0,
                    None => e == LyricsError::LyricsDecodeError,
                }),
                None => e == LyricsError::LyricsDecodeError,
            }),
        }),
{
    match base64_decode(encoded) {
        Option::None => Err(LyricsError::LyricsDecodeError),
        Option::Some(bytes) => {
            match utf8_to_string(bytes) {
                Option::None => Err(LyricsError::LyricsDecodeError),
                Option::Some(s) => {
                    if s.as_str().is_empty() {
                        Err(LyricsError::NoLyricsFound)
                    } else {
                        Ok(s)
                    }
                },
            }
        },
    }
}

// ---------------------------------------------------------------------------
// The orchestrator
// ---------------------------------------------------------------------------

/// One enabled lyric provider, in the closed set the engine knows.
#[derive(Debug, Clone, Copy, PartialEq, Eq, Structural)]
pub enum SourceKind {
    Kugou,
    Netease,
    QQMusic,
}

impl SourceKind {
    /// The stable provider identifier used for download routing and cache
    /// tagging.
    pub open spec fn name_spec(self) -> Seq<char> {
        match self {
            SourceKind::Kugou => "Kugou"@,
            SourceKind::Netease => "Netease"@,
            SourceKind::QQMusic => "QQMusic"@,
        }
    }

    /// The provider's name as a string.
    pub fn source_name(&self) -> (r: String)
        ensures
            r@ == self.name_spec(),
    {
        match self {
            SourceKind::Kugou => "Kugou".to_owned(),
            SourceKind::Netease => "Netease".to_owned(),
            SourceKind::QQMusic => "QQMusic".to_owned(),
        }
    }
}

/// The providers enabled by a configuration, in fixed priority order:
/// Kugou, then Netease, then QQMusic.
pub open spec fn enabled_sources(s: Sources) -> Seq<SourceKind> {
    (if s.kugou {
        seq![SourceKind::Kugou]
    } else {
        Seq::empty()
    }) + (if s.netease {
        seq![SourceKind::Netease]
    } else {
        Seq::empty()
    }) + (if s.qq {
        seq![SourceKind::QQMusic]
    } else {
        Seq::empty()
    })
}

/// Progress of one automatic resolution: the song being resolved and the
/// index of the provider to try next.
#[derive(Debug)]
pub struct Resolution {
    pub song: SongInfo,
    pub next: usize,
}

/// How a resolution starts: served from the cache, pending provider
/// fetches, or failed at once because no provider is enabled.
#[derive(Debug)]
pub enum ResolveStart {
    Cached(String),
    Pending(Resolution),
    Failed(LyricsError),
}

/// One step of a pending resolution: finished with a result, or waiting
/// for the next provider.
#[derive(Debug)]
pub enum ResolveStep {
    Done(Result<String, LyricsError>),
    Continue(Resolution),
}

/// How one resolution step changes the cache: a successful fetch stores
/// the text under the song's key, tagged with the provider's name; a
/// failure leaves the cache untouched.
pub open spec fn resolve_step_cache(
    cache: Map<Seq<char>, (Seq<char>, Seq<char>)>,
    sources: Seq<SourceKind>,
    song: SongInfo,
    next: int,
    fetched: Result<Seq<char>, LyricsError>,
) -> Map<Seq<char>, (Seq<char>, Seq<char>)> {
    match fetched {
        Ok(text) => cache.insert(
            cache_key_of(song.artist@, song.title@, song.album@),
            (sources[next].name_spec(), text),
        ),
        Err(..) => cache,
    }
}

/// If one provider fails — with any failure kind — and the next one in
/// priority order succeeds, the resolution's cache holds the successful
/// provider's text, tagged with that provider's name.
pub proof fn lemma_failover(
    cache: Map<Seq<char>, (Seq<char>, Seq<char>)>,
    sources: Seq<SourceKind>,
    song: SongInfo,
    i: int,
    e: LyricsError,
    text: Seq<char>,
)
    requires
        0 <= i,
        i + 1 < sources.len(),
    ensures
        ({
            let after_a = resolve_step_cache(cache, sources, song, i, Err(e));
            let after_b = resolve_step_cache(after_a, sources, song, i + 1, Ok(text));
            let key = cache_key_of(song.artist@, song.title@, song.album@);
            after_b.contains_key(key) && after_b[key] == (sources[i + 1].name_spec(), text)
        }),
{
}

/// The façade over the enabled providers and the cache: checks the cache,
/// walks providers in priority order, and stores the first success.
pub struct LyricsClient {
    pub fetchers: Vec<SourceKind>,
    pub cache: CacheManager,
}

impl LyricsClient {
    /// The enabled providers, in priority order.
    pub open spec fn fetchers_spec(&self) -> Seq<SourceKind> {
        self.fetchers@
    }

    /// The client is usable: its cache is well formed.
    pub open spec fn wf(&self) -> bool {
        self.cache.wf()
    }

    /// A client over the providers a configuration enables, with an empty
    /// cache.
    pub fn new(sources: &Sources) -> (r: LyricsClient)
        ensures
            r.wf(),
            r.fetchers_spec() == enabled_sources(*sources),
            r.cache.contents() == Map::<Seq<char>, (Seq<char>, Seq<char>)>::empty(),
    {
        let mut fetchers: Vec<SourceKind> = Vec::new();
        if sources.kugou {
            fetchers.push(SourceKind::Kugou);
        }
        if sources.netease {
            fetchers.push(SourceKind::Netease);
        }
        if sources.qq {
            fetchers.push(SourceKind::QQMusic);
        }
        proof {
            assert(fetchers@ =~= enabled_sources(*sources));
        }
        LyricsClient { fetchers, cache: CacheManager::new() }
    }

    /// How many providers are enabled.
    pub fn num_fetchers(&self) -> (n: usize)
        ensures
            n == self.fetchers_spec().len(),
    {
        self.fetchers.len()
    }

    /// The provider at one priority position.
    pub fn fetcher(&self, i: usize) -> (k: SourceKind)
        requires
            i < self.fetchers_spec().len(),
        ensures
            k == self.fetchers_spec()[i as int],
    {
        self.fetchers[i]
    }

    /// The provider a pending resolution will try next.
    pub fn current_source(&self, res: &Resolution) -> (k: SourceKind)
        requires
            res.next < self.fetchers_spec().len(),
        ensures
            k == self.fetchers_spec()[res.next as int],
    {
        self.fetchers[res.next]
    }

    /// Starts resolving lyrics for `song`: a cache hit answers at once; a
    /// miss begins the provider walk at priority position zero, or fails
    /// with `NoLyricsFound` when no provider is enabled.
    pub fn get_lyrics(&self, song: &SongInfo) -> (r: ResolveStart)
        requires
            self.wf(),
        ensures
            ({
                let key = cache_key_of(song.artist@, song.title@, song.album@);
                match r {
                    ResolveStart::Cached(text) => self.cache.contents().contains_key(key)
                        && text@ == self.cache.contents()[key].1,
                    ResolveStart::Pending(res) => !self.cache.contents().contains_key(key)
                        && self.fetchers_spec().len() > 0 && res.song == *song && res.next == 0,
                    ResolveStart::Failed(e) => !self.cache.contents().contains_key(key)
                        && self.fetchers_spec().len() == 0 && e == LyricsError::NoLyricsFound,
                }
            }),
    {
        match self.cache.get(song) {
            Option::Some(text) => ResolveStart::Cached(text),
            Option::None => {
                if self.fetchers.len() == 0 {
                    ResolveStart::Failed(LyricsError::NoLyricsFound)
                } else {
                    ResolveStart::Pending(Resolution { song: song.clone(), next: 0 })
                }
            },
        }
    }

    /// Folds one provider outcome into a pending resolution.  A successful
    /// fetch is stored in the cache under the song's key, tagged with the
    /// provider's name, and finishes the resolution; a failure of any kind
    /// moves on to the next provider, or finishes with `NoLyricsFound`
    /// when none is left.
    pub fn resolve_step(&mut self, res: Resolution, fetched: Result<String, LyricsError>) -> (r:
        ResolveStep)
        requires
            old(self).wf(),
            res.next < old(self).fetchers_spec().len(),
        ensures
            final(self).wf(),
            final(self).fetchers_spec() == old(self).fetchers_spec(),
            final(self).cache.contents() == resolve_step_cache(
                old(self).cache.contents(),
                old(self).fetchers_spec(),
                res.song,
                res.next as int,
                (match fetched {
                    Ok(text) => Ok(text@),
                    Err(e) => Err(e),
                }),
            ),
            (match fetched {
                Ok(text) => r matches ResolveStep::Done(d) && d == Ok::<String, LyricsError>(
                    text,
                ),
                Err(..) => {
                    if res.next + 1 < old(self).fetchers_spec().len() {
                        r matches ResolveStep::Continue(res2) && res2.song == res.song
                            && res2.next == res.next + 1
                    } else {
                        r matches ResolveStep::Done(d) && d == Err::<String, LyricsError>(
                            LyricsError::NoLyricsFound,
                        )
                    }
                },
            }),
    {
        match fetched {
            Result::Ok(text) => {
                let source = self.fetchers[res.next].source_name();
                let stored = self.cache.store(&res.song, source.as_str(), text.as_str());
                match stored {
                    Result::Ok(..) => {},
                    Result::Err(..) => {},
                }
                ResolveStep::Done(Ok(text))
            },
            Result::Err(..) => {
                let n = self.fetchers.len();
                if res.next + 1 < n {
                    ResolveStep::Continue(Resolution { song: res.song, next: res.next + 1 })
                } else {
                    ResolveStep::Done(Err(LyricsError::NoLyricsFound))
                }
            },
        }
    }

    /// Concatenates the per-provider search outcomes in priority order,
    /// silently dropping failed providers.
    pub open spec fn concat_ok(results: Seq<Result<Vec<LyricsItem>, LyricsError>>) -> Seq<
        LyricsItem,
    >
        decreases results.len(),
    {
        if results.len() == 0 {
            Seq::empty()
        } else {
            (match results[0] {
                Ok(v) => v@,
                Err(..) => Seq::empty(),
            }) + Self::concat_ok(results.drop_first())
        }
    }

    /// Aggregates the search results of every enabled provider: successes
    /// are concatenated in priority order, failures dropped.
    pub fn get_search(&self, results: Vec<Result<Vec<LyricsItem>, LyricsError>>) -> (r: Vec<
        LyricsItem,
    >)
        ensures
            r@ == Self::concat_ok(results@),
    {
        let ghost orig = results@;
        let mut rest = results;
        let mut out: Vec<LyricsItem> = Vec::new();
        let ghost mut k: int = 0;
        proof {
            assert(rest@ =~= orig.skip(0));
            assert(orig.take(0) =~= Seq::<Result<Vec<LyricsItem>, LyricsError>>::empty());
            assert(out@ =~= Self::concat_ok(orig.take(0)));
        }
        while rest.len() > 0
            invariant
                0 <= k,
                k + rest@.len() == orig.len(),
                rest@ == orig.skip(k),
                out@ == Self::concat_ok(orig.take(k)),
            decreases rest@.len(),
        {
            let x = rest.remove(0);
            proof {
                assert(x == orig[k]);
                assert(rest@ =~= orig.skip(k + 1));
                lemma_concat_ok_push(orig.take(k), orig[k]);
                assert(orig.take(k).push(orig[k]) =~= orig.take(k + 1));
            }
            match x {
                Result::Ok(mut v) => {
                    out.append(&mut v);
                },
                Result::Err(..) => {},
            }
            proof {
                k = k + 1;
            }
        }
        proof {
            assert(orig.take(orig.len() as int) =~= orig);
        }
        out
    }

    /// The first enabled provider whose name matches a candidate's source
    /// tag, used to route a user-driven download.
    pub open spec fn route_spec(sources: Seq<SourceKind>, name: Seq<char>) -> Option<SourceKind>
        decreases sources.len(),
    {
        if sources.len() == 0 {
            None
        } else if sources[0].name_spec() == name {
            Some(sources[0])
        } else {
            Self::route_spec(sources.drop_first(), name)
        }
    }

    /// Finds the provider a candidate belongs to, by its source tag.
    pub fn download_route(&self, item: &LyricsItem) -> (r: Option<SourceKind>)
        ensures
            r == Self::route_spec(self.fetchers_spec(), item.source@),
    {
        let mut i: usize = 0;
        while i < self.fetchers.len()
            invariant
                0 <= i <= self.fetchers@.len(),
                forall|j: int|
                    0 <= j < i ==> (#[trigger] self.fetchers@[j].name_spec()) != item.source@,
            decreases self.fetchers@.len() - i,
        {
            let name = self.fetchers[i].source_name();
            if name.eq(&item.source) {
                proof {
                    lemma_route_at(self.fetchers@, item.source@, i as int);
                }
                return Some(self.fetchers[i]);
            }
            i = i + 1;
        }
        proof {
            lemma_route_at(self.fetchers@, item.source@, self.fetchers@.len() as int);
        }
        None
    }

    /// Completes a user-driven download: a fetched text is stored under the
    /// song's key tagged with the candidate's source; a failed fetch
    /// surfaces as `NoLyricsFound`, leaving the cache untouched.
    pub fn download(&mut self, song: &SongInfo, item: &LyricsItem, fetched: Result<
        String,
        LyricsError,
    >) -> (r: Result<(), LyricsError>)
        requires
            old(self).wf(),
        ensures
            final(self).wf(),
            final(self).fetchers_spec() == old(self).fetchers_spec(),
            (match fetched {
                Ok(text) => r is Ok && final(self).cache.contents()
                    == old(self).cache.contents().insert(
                    cache_key_of(song.artist@, song.title@, song.album@),
                    (item.source@, text@),
                ),
                Err(..) => r == Err::<(), LyricsError>(LyricsError::NoLyricsFound)
                    && final(self).cache.contents() == old(self).cache.contents(),
            }),
    {
        match fetched {
            Result::Ok(text) => {
                let stored = self.cache.store(song, item.source.as_str(), text.as_str());
                match stored {
                    Result::Ok(..) => {},
                    Result::Err(..) => {},
                }
                Ok(())
            },
            Result::Err(..) => Err(LyricsError::NoLyricsFound),
        }
    }
}

proof fn lemma_route_at(sources: Seq<SourceKind>, name: Seq<char>, k: int)
    requires
        0 <= k <= sources.len(),
        forall|j: int| 0 <= j < k ==> (#[trigger] sources[j].name_spec()) != name,
        k < sources.len() ==> sources[k].name_spec() == name,
    ensures
        LyricsClient::route_spec(sources, name) == (if k < sources.len() {
            Some(sources[k])
        } else {
            None::<SourceKind>
        }),
    decreases k,
{
    if k == 0 {
    } else {
        let t = sources.drop_first();
        assert(forall|j: int| 0 <= j < k - 1 ==> (#[trigger] t[j].name_spec()) != name);
        lemma_route_at(t, name, k - 1);
    }
}

proof fn lemma_concat_ok_push(
    s: Seq<Result<Vec<LyricsItem>, LyricsError>>,
    x: Result<Vec<LyricsItem>, LyricsError>,
)
    ensures
        LyricsClient::concat_ok(s.push(x)) == LyricsClient::concat_ok(s) + (match x {
            Ok(v) => v@,
            Err(..) => Seq::<LyricsItem>::empty(),
        }),
    decreases s.len(),
{
    let added = (match x {
        Ok(v) => v@,
        Err(..) => Seq::<LyricsItem>::empty(),
    });
    if s.len() == 0 {
        assert(s.push(x).drop_first() =~= Seq::<Result<Vec<LyricsItem>, LyricsError>>::empty());
        assert(LyricsClient::concat_ok(Seq::<Result<Vec<LyricsItem>, LyricsError>>::empty())
            == Seq::<LyricsItem>::empty());
        assert(LyricsClient::concat_ok(s.push(x)) =~= LyricsClient::concat_ok(s) + added);
    } else {
        assert(s.push(x).drop_first() =~= s.drop_first().push(x));
        lemma_concat_ok_push(s.drop_first(), x);
        assert(LyricsClient::concat_ok(s.push(x)) =~= LyricsClient::concat_ok(s) + added);
    }
}

} // verus!
