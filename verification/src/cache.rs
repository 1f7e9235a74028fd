use vstd::map::*;
use vstd::prelude::*;

use crate::error::LyricsError;
use crate::song::SongInfo;

verus! {

// ---------------------------------------------------------------------------
// Filename sanitization
// ---------------------------------------------------------------------------

/// A character that must not appear in a cache file name: path separators,
/// reserved filesystem punctuation, and control characters.
pub open spec fn is_fs_reserved(c: char) -> bool {
    c == '/' || c == '\\' || c == '?' || c == '<' || c == '>' || c == ':' || c == '*' || c == '|'
        || c == '"' || (c as int) < 32 || (128 <= c as int && c as int <= 159)
}

/// The sanitized form of a file name component.
pub uninterp spec fn sanitized_of(s: Seq<char>) -> Seq<char>;

/// Relies on sanitize_filename::sanitize_with_options, called with fixed
/// options (no Windows-specific rules, truncation on, empty replacement):
/// the result depends on the input characters alone, and its source shows
/// that reserved punctuation, path separators and control characters are
/// removed from it.
#[verifier::external_body]
fn sanitize_name(s: &str) -> (r: String)
    ensures
        r@ == sanitized_of(s@),
        forall|i: int| 0 <= i < r@.len() ==> !is_fs_reserved(#[trigger] r@[i]),
{
    sanitize_filename::sanitize_with_options(
        s,
        sanitize_filename::Options { windows: false, truncate: true, replacement: "" },
    )
}

/// The cache file name of a song: sanitized artist and title — and album,
/// when present — joined with `-`, with the `.lrc` extension.
pub open spec fn cache_key_of(artist: Seq<char>, title: Seq<char>, album: Seq<char>) -> Seq<
    char,
> {
    if album.len() == 0 {
        sanitized_of(artist) + "-"@ + sanitized_of(title) + ".lrc"@
    } else {
        sanitized_of(artist) + "-"@ + sanitized_of(title) + "-"@ + sanitized_of(album) + ".lrc"@
    }
}

/// The cache key of a song depends only on its fingerprint: two songs with
/// equal `(title, artist, album)` triples share one cache entry.
pub proof fn lemma_cache_key_deterministic(a: SongInfo, b: SongInfo)
    requires
        a.fingerprint() == b.fingerprint(),
    ensures
        cache_key_of(a.artist@, a.title@, a.album@) == cache_key_of(b.artist@, b.title@, b.album@),
{
}

// ---------------------------------------------------------------------------
// The store
// ---------------------------------------------------------------------------

/// One cached lyric text, under its file-name key, tagged with the name of
/// the source that produced it.
struct CacheEntry {
    key: String,
    source: String,
    text: String,
}

/// First-match lookup of a key in the entry list.
spec fn lookup(s: Seq<CacheEntry>, key: Seq<char>) -> Option<(Seq<char>, Seq<char>)>
    decreases s.len(),
{
    if s.len() == 0 {
        None
    } else if s[0].key@ == key {
        Some((s[0].source@, s[0].text@))
    } else {
        lookup(s.drop_first(), key)
    }
}

/// No two entries share a key.
spec fn unique_keys(s: Seq<CacheEntry>) -> bool {
    forall|i: int, j: int|
        0 <= i < j < s.len() ==> (#[trigger] s[i].key@) != (#[trigger] s[j].key@)
}

proof fn lemma_lookup_at(s: Seq<CacheEntry>, key: Seq<char>, i: int)
    requires
        0 <= i <= s.len(),
        forall|j: int| 0 <= j < i ==> (#[trigger] s[j].key@) != key,
        i < s.len() ==> s[i].key@ == key,
    ensures
        lookup(s, key) == (if i < s.len() {
            Some((s[i].source@, s[i].text@))
        } else {
            None::<(Seq<char>, Seq<char>)>
        }),
    decreases i,
{
    if i == 0 {
        if s.len() == 0 {
        }
    } else {
        let t = s.drop_first();
        assert(forall|j: int| 0 <= j < i - 1 ==> (#[trigger] t[j].key@) != key);
        lemma_lookup_at(t, key, i - 1);
    }
}

proof fn lemma_lookup_none_no_match(s: Seq<CacheEntry>, key: Seq<char>)
    requires
        lookup(s, key) is None,
    ensures
        forall|j: int| 0 <= j < s.len() ==> (#[trigger] s[j].key@) != key,
    decreases s.len(),
{
    if s.len() > 0 {
        lemma_lookup_none_no_match(s.drop_first(), key);
        assert forall|j: int| 0 <= j < s.len() implies (#[trigger] s[j].key@) != key by {
            if j > 0 {
                assert(s.drop_first()[j - 1].key@ != key);
            }
        }
    }
}

proof fn lemma_lookup_push(s: Seq<CacheEntry>, e: CacheEntry, k2: Seq<char>)
    ensures
        lookup(s.push(e), k2) == (if lookup(s, k2) is Some {
            lookup(s, k2)
        } else if e.key@ == k2 {
            Some((e.source@, e.text@))
        } else {
            None::<(Seq<char>, Seq<char>)>
        }),
    decreases s.len(),
{
    if s.len() == 0 {
        assert(s.push(e).drop_first() =~= Seq::<CacheEntry>::empty());
    } else {
        assert(s.push(e).drop_first() =~= s.drop_first().push(e));
        lemma_lookup_push(s.drop_first(), e, k2);
    }
}

proof fn lemma_lookup_remove(s: Seq<CacheEntry>, i: int, k2: Seq<char>)
    requires
        unique_keys(s),
        0 <= i < s.len(),
    ensures
        lookup(s.remove(i), k2) == (if s[i].key@ == k2 {
            None::<(Seq<char>, Seq<char>)>
        } else {
            lookup(s, k2)
        }),
    decreases i,
{
    if i == 0 {
        assert(s.remove(0) =~= s.drop_first());
        if s[0].key@ == k2 {
            assert(forall|j: int|
                0 <= j < s.drop_first().len() ==> (#[trigger] s.drop_first()[j].key@) != k2);
            lemma_lookup_at(s.drop_first(), k2, s.drop_first().len() as int);
        }
    } else {
        assert(s.remove(i).drop_first() =~= s.drop_first().remove(i - 1));
        assert(unique_keys(s.drop_first())) by {
            assert(forall|x: int, y: int|
                0 <= x < y < s.drop_first().len() ==> (#[trigger] s.drop_first()[x].key@)
                    != (#[trigger] s.drop_first()[y].key@)) by {
                assert(forall|x: int, y: int|
                    0 <= x < y < s.drop_first().len() ==> s.drop_first()[x] == s[x + 1]
                        && s.drop_first()[y] == s[y + 1]);
            }
        }
        lemma_lookup_remove(s.drop_first(), i - 1, k2);
        assert(s.remove(i)[0] == s[0]);
        if s[0].key@ == k2 {
            assert(s[i].key@ != k2);
        }
    }
}

proof fn lemma_remove_unique(s: Seq<CacheEntry>, i: int)
    requires
        unique_keys(s),
        0 <= i < s.len(),
    ensures
        unique_keys(s.remove(i)),
{
    let t = s.remove(i);
    assert forall|x: int, y: int| 0 <= x < y < t.len() implies (#[trigger] t[x].key@)
        != (#[trigger] t[y].key@) by {
        let x0 = if x < i {
            x
        } else {
            x + 1
        };
        let y0 = if y < i {
            y
        } else {
            y + 1
        };
        assert(t[x] == s[x0]);
        assert(t[y] == s[y0]);
    }
}

/// In-memory store of resolved lyric texts, one entry per song fingerprint,
/// keyed by the sanitized cache file name.  The surrounding application
/// mirrors it onto the filesystem.
pub struct CacheManager {
    entries: Vec<CacheEntry>,
}

impl CacheManager {
    /// The entries as a map from key to `(source name, lyric text)`.
    pub closed spec fn contents(&self) -> Map<Seq<char>, (Seq<char>, Seq<char>)> {
        Map::new(
            |k: Seq<char>| lookup(self.entries@, k) is Some,
            |k: Seq<char>| lookup(self.entries@, k)->Some_0,
        )
    }

    /// Internal well-formedness: one entry per key.
    pub closed spec fn wf(&self) -> bool {
        unique_keys(self.entries@)
    }

    /// An empty store.
    pub fn new() -> (r: CacheManager)
        ensures
            r.wf(),
            r.contents() == Map::<Seq<char>, (Seq<char>, Seq<char>)>::empty(),
    {
        let r = CacheManager { entries: Vec::new() };
        proof {
            assert(r.contents() =~= Map::<Seq<char>, (Seq<char>, Seq<char>)>::empty());
        }
        r
    }

    /// The cache file name for a song, with every reserved filesystem
    /// character removed by sanitization.
    pub fn lyrics_name(&self, song: &SongInfo) -> (r: String)
        ensures
            r@ == cache_key_of(song.artist@, song.title@, song.album@),
            forall|i: int| 0 <= i < r@.len() ==> !is_fs_reserved(#[trigger] r@[i]),
    {
        proof {
            reveal_strlit("-");
            reveal_strlit(".lrc");
        }
        let mut name = sanitize_name(song.artist.as_str());
        name.append("-");
        let t = sanitize_name(song.title.as_str());
        name.append(t.as_str());
        if !song.album.as_str().is_empty() {
            proof {
                assert(song.album@.len() > 0);
            }
            name.append("-");
            let a = sanitize_name(song.album.as_str());
            name.append(a.as_str());
        } else {
            proof {
                assert(song.album@.len() == 0);
            }
        }
        name.append(".lrc");
        name
    }

    /// The cached text for `song`, if one is stored.
    pub fn get(&self, song: &SongInfo) -> (r: Option<String>)
        requires
            self.wf(),
        ensures
            (match r {
                Some(t) => {
                    let key = cache_key_of(song.artist@, song.title@, song.album@);
                    self.contents().contains_key(key) && t@ == self.contents()[key].1
                },
                None => !self.contents().contains_key(
                    cache_key_of(song.artist@, song.title@, song.album@),
                ),
            }),
    {
        let key = self.lyrics_name(song);
        let ghost kv = key@;
        let mut i: usize = 0;
        while i < self.entries.len()
            invariant
                kv == key@,
                kv == cache_key_of(song.artist@, song.title@, song.album@),
                0 <= i <= self.entries@.len(),
                forall|j: int| 0 <= j < i ==> (#[trigger] self.entries@[j].key@) != kv,
            decreases self.entries@.len() - i,
        {
            let e = &self.entries[i];
            if e.key.eq(&key) {
                proof {
                    lemma_lookup_at(self.entries@, kv, i as int);
                    assert(self.contents().contains_key(kv));
                    assert(self.contents()[kv] == (self.entries@[i as int].source@,
                    self.entries@[i as int].text@));
                }
                return Some(e.text.clone());
            }
            i = i + 1;
        }
        proof {
            lemma_lookup_at(self.entries@, kv, self.entries@.len() as int);
        }
        None
    }

    /// Stores `content` for `song`, tagged with the producing source's name,
    /// replacing any earlier entry for the same song.
    pub fn store(&mut self, song: &SongInfo, source: &str, content: &str) -> (r: Result<
        (),
        LyricsError,
    >)
        requires
            old(self).wf(),
        ensures
            final(self).wf(),
            r is Ok,
            final(self).contents() == old(self).contents().insert(
                cache_key_of(song.artist@, song.title@, song.album@),
                (source@, content@),
            ),
    {
        let key = self.lyrics_name(song);
        let ghost kv = key@;
        self.delete(song);
        let ghost mid = self.entries@;
        let ghost midm = self.contents();
        let e = CacheEntry { key, source: source.to_owned(), text: content.to_owned() };
        proof {
            assert(!self.contents().contains_key(kv));
            assert(lookup(mid, kv) is None);
            lemma_lookup_none_no_match(mid, kv);
        }
        self.entries.push(e);
        proof {
            assert forall|k2: Seq<char>| true implies lookup(self.entries@, k2) == (
            if lookup(mid, k2) is Some {
                lookup(mid, k2)
            } else if kv == k2 {
                Some((source@, content@))
            } else {
                None::<(Seq<char>, Seq<char>)>
            }) by {
                lemma_lookup_push(mid, e, k2);
            }
            assert(unique_keys(self.entries@)) by {
                lemma_lookup_none_no_match(mid, kv);
                assert(forall|x: int|
                    0 <= x < mid.len() ==> #[trigger] self.entries@[x] == mid[x]);
            }
            assert_maps_equal!(self.contents(), old(self).contents().insert(
                kv,
                (source@, content@),
            ), k2 => {
                assert(lookup(self.entries@, k2) == (if lookup(mid, k2) is Some {
                    lookup(mid, k2)
                } else if kv == k2 {
                    Some((source@, content@))
                } else {
                    None::<(Seq<char>, Seq<char>)>
                }));
                assert(midm.contains_key(k2) == (lookup(mid, k2) is Some));
                if midm.contains_key(k2) {
                    assert(midm[k2] == lookup(mid, k2)->Some_0);
                }
                assert(midm == old(self).contents().remove(kv));
            });
        }
        Ok(())
    }

    /// Removes the entry for `song`, if any; removing an absent entry does
    /// nothing.
    pub fn delete(&mut self, song: &SongInfo)
        requires
            old(self).wf(),
        ensures
            final(self).wf(),
            final(self).contents() == old(self).contents().remove(
                cache_key_of(song.artist@, song.title@, song.album@),
            ),
    {
        let key = self.lyrics_name(song);
        let ghost kv = key@;
        let mut i: usize = 0;
        let mut found = false;
        while !found && i < self.entries.len()
            invariant
                kv == key@,
                self == old(self),
                0 <= i <= self.entries@.len(),
                forall|j: int| 0 <= j < i ==> (#[trigger] self.entries@[j].key@) != kv,
                found ==> i < self.entries@.len() && self.entries@[i as int].key@ == kv,
            decreases self.entries@.len() - i, (if found { 0int } else { 1int }),
        {
            let e = &self.entries[i];
            if e.key.eq(&key) {
                found = true;
            } else {
                i = i + 1;
            }
        }
        if found {
            let ghost pre = self.entries@;
            self.entries.remove(i);
            proof {
                lemma_remove_unique(pre, i as int);
                assert_maps_equal!(self.contents(), old(self).contents().remove(kv), k2 => {
                    lemma_lookup_remove(pre, i as int, k2);
                });
            }
        } else {
            proof {
                lemma_lookup_at(self.entries@, kv, self.entries@.len() as int);
                assert_maps_equal!(self.contents(), old(self).contents().remove(kv), k2 => {});
            }
        }
    }
}

impl Default for CacheManager {
    /// Same as `new`: an empty store.
    fn default() -> (r: CacheManager)
        ensures
            r.wf(),
            r.contents() == Map::<Seq<char>, (Seq<char>, Seq<char>)>::empty(),
    {
        CacheManager::new()
    }
}

/// Round trip: after storing a text for a song, reading the same song's
/// entry yields that very text, whatever the store held before.
pub proof fn lemma_cache_round_trip(
    before: Map<Seq<char>, (Seq<char>, Seq<char>)>,
    key: Seq<char>,
    source: Seq<char>,
    text: Seq<char>,
)
    ensures
        before.insert(key, (source, text)).contains_key(key),
        before.insert(key, (source, text))[key].1 == text,
{
}

} // verus!
