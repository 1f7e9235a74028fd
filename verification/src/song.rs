use vstd::prelude::*;

use crate::error::LyricsError;
use crate::utils::{contains_spec, contains_sub, lower_of, to_lower, trim, trim_spec};

verus! {

// ---------------------------------------------------------------------------
// Song descriptor
// ---------------------------------------------------------------------------

/// Description of the currently playing song, as reported by the host player.
///
/// All times in this crate are measured in centiseconds (hundredths of a
/// second); `duration` is the advisory song length in that unit.  The
/// `track_id` is the player-assigned track identifier, absent when the
/// player does not support one.
#[derive(Debug)]
pub struct SongInfo {
    pub track_id: Option<String>,
    pub title: String,
    pub artist: String,
    pub album: String,
    pub duration: u64,
}

impl SongInfo {
    /// The `(title, artist, album)` triple that identifies a song for
    /// caching and song-change detection; the track identifier and the
    /// advisory duration take no part in it.
    pub open spec fn fingerprint(&self) -> (Seq<char>, Seq<char>, Seq<char>) {
        (self.title@, self.artist@, self.album@)
    }

    /// Whether `self` and `other` name the same song, by fingerprint.
    pub fn same_song(&self, other: &SongInfo) -> (r: bool)
        ensures
            r == (self.fingerprint() == other.fingerprint()),
    {
        self.title == other.title && self.artist == other.artist && self.album == other.album
    }

    /// True when the player reported no usable track identifier, so that
    /// seeking by track is unsupported.
    pub fn track_support(&self) -> (r: bool)
        ensures
            r == (self.track_id is None),
    {
        match &self.track_id {
            Option::None => true,
            Option::Some(_) => false,
        }
    }
}

impl Clone for SongInfo {
    /// An exact copy of the descriptor.
    fn clone(&self) -> (r: SongInfo)
        ensures
            r == *self,
    {
        let track_id = match &self.track_id {
            Option::Some(t) => Option::Some(t.clone()),
            Option::None => Option::None,
        };
        SongInfo {
            track_id,
            title: self.title.clone(),
            artist: self.artist.clone(),
            album: self.album.clone(),
            duration: self.duration,
        }
    }
}

impl Default for SongInfo {
    /// An empty descriptor: no track, empty fingerprint, zero duration.
    fn default() -> (r: SongInfo)
        ensures
            r.track_id is None,
            r.title@ == Seq::<char>::empty(),
            r.artist@ == Seq::<char>::empty(),
            r.album@ == Seq::<char>::empty(),
            r.duration == 0,
    {
        SongInfo {
            track_id: Option::None,
            title: String::new(),
            artist: String::new(),
            album: String::new(),
            duration: 0,
        }
    }
}

// ---------------------------------------------------------------------------
// Player filtering
// ---------------------------------------------------------------------------

/// Identity keywords that disqualify a media player from lyric display
/// (browsers, video players, screen casting).
pub open spec fn player_blacklist() -> Seq<Seq<char>> {
    seq!["browser"@, "video"@, "screen-cast"@, "chromium"@, "firefox"@]
}

/// A player is eligible when its lowercased identity contains none of the
/// blacklist keywords.
pub open spec fn valid_player_spec(identity: Seq<char>) -> bool {
    forall|k: int|
        0 <= k < player_blacklist().len() ==> !contains_spec(
            lower_of(identity),
            #[trigger] player_blacklist()[k],
        )
}

/// Whether a player with the given identity string may supply songs.
pub fn is_valid_player(identity: &str) -> (r: bool)
    ensures
        r == valid_player_spec(identity@),
{
    let low = to_lower(identity);
    let l = low.as_str();
    let r = !(contains_sub(l, "browser") || contains_sub(l, "video") || contains_sub(
        l,
        "screen-cast",
    ) || contains_sub(l, "chromium") || contains_sub(l, "firefox"));
    proof {
        if r {
            assert forall|k: int| 0 <= k < player_blacklist().len() implies !contains_spec(
                lower_of(identity@),
                #[trigger] player_blacklist()[k],
            ) by {
                if k == 0 {
                } else if k == 1 {
                } else if k == 2 {
                } else if k == 3 {
                } else {
                    assert(k == 4);
                }
            }
        } else {
            assert(!valid_player_spec(identity@));
        }
    }
    r
}

// ---------------------------------------------------------------------------
// Playback time
// ---------------------------------------------------------------------------

/// `a + b`, saturating at the top of the range instead of wrapping.
pub open spec fn sat_add_u64(a: u64, b: u64) -> u64 {
    if a + b > u64::MAX {
        u64::MAX
    } else {
        (a + b) as u64
    }
}

/// One successful position read: the wall-clock instant it was taken
/// (centiseconds since an arbitrary epoch) and the position it reported.
#[derive(Debug, Clone, Copy, PartialEq, Eq, Structural)]
pub struct TimeSample {
    pub instant: u64,
    pub position: u64,
}

/// Playback position estimate, updated once per poll tick.
///
/// `current_time` is the estimated playback position in centiseconds.
/// `last_valid_pos` records the last successful position read.
#[derive(Debug, Clone, PartialEq, Eq, Structural, Default)]
pub struct PlayTime {
    pub current_time: u64,
    pub last_valid_pos: Option<TimeSample>,
}

impl PlayTime {
    /// Folds one poll outcome into the estimate.
    ///
    /// A successful read (`Some(pos)`) replaces both the estimate and the
    /// last valid sample.  A failed read extrapolates from the last valid
    /// sample by the wall-clock time elapsed since it — never backward, and
    /// saturating rather than overflowing.  A failed read with no prior
    /// sample leaves the estimate unchanged.
    pub fn advance(self, read: Option<u64>, now: u64) -> (r: PlayTime)
        ensures
            (match read {
                Some(pos) => r.current_time == pos && r.last_valid_pos == Some(
                    TimeSample { instant: now, position: pos },
                ),
                None => r.last_valid_pos == self.last_valid_pos && (match self.last_valid_pos {
                    Some(sample) => r.current_time == sat_add_u64(
                        sample.position,
                        if now >= sample.instant {
                            (now - sample.instant) as u64
                        } else {
                            0u64
                        },
                    ),
                    None => r.current_time == self.current_time,
                }),
            }),
    {
        match read {
            Option::Some(pos) => PlayTime {
                current_time: pos,
                last_valid_pos: Option::Some(TimeSample { instant: now, position: pos }),
            },
            Option::None => {
                match self.last_valid_pos {
                    Option::Some(sample) => {
                        let elapsed = if now >= sample.instant {
                            now - sample.instant
                        } else {
                            0
                        };
                        let current = if sample.position <= u64::MAX - elapsed {
                            sample.position + elapsed
                        } else {
                            u64::MAX
                        };
                        PlayTime { current_time: current, last_valid_pos: Option::Some(sample) }
                    },
                    Option::None => self,
                }
            },
        }
    }
}

// ---------------------------------------------------------------------------
// Player actions
// ---------------------------------------------------------------------------

/// A control request sent to the host player.
#[derive(Debug, Clone, Copy, PartialEq, Eq, Structural)]
pub enum PlayerAction {
    Toggle,
    Left,
    Right,
    Next,
    Previous,
}

impl Default for PlayerAction {
    fn default() -> (r: PlayerAction)
        ensures
            r == PlayerAction::Toggle,
    {
        PlayerAction::Toggle
    }
}

/// How far one seek request moves playback, in centiseconds (5 seconds).
pub const SEEK_STEP: u64 = 500;

/// The position a backward seek aims at, stopping at the song start.
pub fn seek_backward(pos: u64) -> (r: u64)
    ensures
        r == if pos >= SEEK_STEP {
            (pos - SEEK_STEP) as u64
        } else {
            0u64
        },
{
    if pos >= SEEK_STEP {
        pos - SEEK_STEP
    } else {
        0
    }
}

/// The position a forward seek aims at, saturating rather than overflowing.
pub fn seek_forward(pos: u64) -> (r: u64)
    ensures
        r == sat_add_u64(pos, SEEK_STEP),
{
    if pos <= u64::MAX - SEEK_STEP {
        pos + SEEK_STEP
    } else {
        u64::MAX
    }
}

// ---------------------------------------------------------------------------
// Timed-text parsing: specification model
// ---------------------------------------------------------------------------

/// One lyric line with its display interval `[timestamp_start,
/// timestamp_end)`, in centiseconds.
#[derive(Debug, Clone)]
pub struct LyricsLine {
    pub timestamp_start: u64,
    pub timestamp_end: u64,
    pub text: String,
}

/// The index of the first occurrence of `c` in `s`, or `s.len()` if absent.
pub open spec fn first_index_of(s: Seq<char>, c: char) -> int
    decreases s.len(),
{
    if s.len() == 0 {
        0
    } else if s[0] == c {
        0
    } else {
        1 + first_index_of(s.drop_first(), c)
    }
}

pub proof fn lemma_first_index_of(s: Seq<char>, c: char)
    ensures
        0 <= first_index_of(s, c) <= s.len(),
        first_index_of(s, c) < s.len() ==> s[first_index_of(s, c)] == c,
        forall|j: int| 0 <= j < first_index_of(s, c) ==> s[j] != c,
    decreases s.len(),
{
    if s.len() == 0 {
    } else if s[0] == c {
    } else {
        lemma_first_index_of(s.drop_first(), c);
        assert forall|j: int| 0 <= j < first_index_of(s, c) implies s[j] != c by {
            if j > 0 {
                assert(s.drop_first()[j - 1] != c);
            }
        }
    }
}

/// A character that separates the numeric fields of a timestamp tag.
pub open spec fn is_time_sep(c: char) -> bool {
    c == ':' || c == '.'
}

/// The index of the first field separator in `s`, or `s.len()` if absent.
pub open spec fn first_sep_index(s: Seq<char>) -> int
    decreases s.len(),
{
    if s.len() == 0 {
        0
    } else if is_time_sep(s[0]) {
        0
    } else {
        1 + first_sep_index(s.drop_first())
    }
}

pub proof fn lemma_first_sep_index(s: Seq<char>)
    ensures
        0 <= first_sep_index(s) <= s.len(),
        first_sep_index(s) < s.len() ==> is_time_sep(s[first_sep_index(s)]),
        forall|j: int| 0 <= j < first_sep_index(s) ==> !is_time_sep(s[j]),
    decreases s.len(),
{
    if s.len() == 0 {
    } else if is_time_sep(s[0]) {
    } else {
        lemma_first_sep_index(s.drop_first());
        assert forall|j: int| 0 <= j < first_sep_index(s) implies !is_time_sep(s[j]) by {
            if j > 0 {
                assert(!is_time_sep(s.drop_first()[j - 1]));
            }
        }
    }
}

/// `s` split at every field separator; always at least one piece.
pub open spec fn split_fields_spec(s: Seq<char>) -> Seq<Seq<char>>
    decreases s.len(),
    via split_fields_spec_dec
{
    let i = first_sep_index(s);
    if i == s.len() {
        seq![s]
    } else {
        seq![s.take(i)] + split_fields_spec(s.skip(i + 1))
    }
}

#[via_fn]
proof fn split_fields_spec_dec(s: Seq<char>) {
    lemma_first_sep_index(s);
}

/// `s` split at every line feed; always at least one piece.
pub open spec fn split_lines_spec(s: Seq<char>) -> Seq<Seq<char>>
    decreases s.len(),
    via split_lines_spec_dec
{
    let i = first_index_of(s, '\n');
    if i == s.len() {
        seq![s]
    } else {
        seq![s.take(i)] + split_lines_spec(s.skip(i + 1))
    }
}

#[via_fn]
proof fn split_lines_spec_dec(s: Seq<char>) {
    lemma_first_index_of(s, '\n');
}

/// An ASCII decimal digit.
pub open spec fn is_digit_char(c: char) -> bool {
    48 <= c as int && c as int <= 57
}

/// The numeric value of a digit character.
pub open spec fn digit_val(c: char) -> int {
    c as int - 48
}

/// The number denoted by a digit string, most significant digit first.
pub open spec fn digits_val(f: Seq<char>) -> int
    decreases f.len(),
{
    if f.len() == 0 {
        0
    } else {
        digits_val(f.drop_last()) * 10 + digit_val(f.last())
    }
}

/// Ten to the `n`-th power.
pub open spec fn pow10(n: nat) -> int
    decreases n,
{
    if n == 0 {
        1
    } else {
        10 * pow10((n - 1) as nat)
    }
}

/// The longest digit run accepted in one timestamp field.
pub const MAX_FIELD_DIGITS: usize = 15;

/// A well-formed timestamp field: one to fifteen decimal digits.
pub open spec fn is_time_field(f: Seq<char>) -> bool {
    1 <= f.len() <= MAX_FIELD_DIGITS && forall|i: int|
        0 <= i < f.len() ==> is_digit_char(#[trigger] f[i])
}

pub proof fn lemma_digits_val_bound(f: Seq<char>)
    requires
        forall|i: int| 0 <= i < f.len() ==> is_digit_char(#[trigger] f[i]),
    ensures
        0 <= digits_val(f) < pow10(f.len()),
    decreases f.len(),
{
    if f.len() == 0 {
    } else {
        let t = f.drop_last();
        assert(forall|i: int| 0 <= i < t.len() ==> is_digit_char(#[trigger] t[i]));
        lemma_digits_val_bound(t);
        assert(digit_val(f.last()) <= 9);
    }
}

/// The number of centiseconds denoted by the fields of a timestamp tag:
/// minutes, seconds, and optional hundredths (defaulting to zero, also when
/// the third field is not a well-formed digit run).
pub open spec fn centis_of_fields(fs: Seq<Seq<char>>) -> int {
    digits_val(fs[0]) * 6000 + digits_val(fs[1]) * 100 + (if fs.len() >= 3 && is_time_field(
        fs[2],
    ) {
        digits_val(fs[2])
    } else {
        0
    })
}

/// The value of the timestamp tag body `s` (the text between brackets) in
/// centiseconds, or `None` when it is malformed: fewer than two fields, or a
/// minutes or seconds field that is not a digit run of bounded length.
pub open spec fn parse_time_spec(s: Seq<char>) -> Option<u64> {
    let fs = split_fields_spec(s);
    if fs.len() < 2 || !is_time_field(fs[0]) || !is_time_field(fs[1]) {
        None
    } else {
        Some(centis_of_fields(fs) as u64)
    }
}

proof fn lemma_pow10_pos(n: nat)
    ensures
        pow10(n) >= 1,
    decreases n,
{
    if n > 0 {
        lemma_pow10_pos((n - 1) as nat);
    }
}

proof fn lemma_pow10_mono(a: nat, b: nat)
    requires
        a <= b,
    ensures
        pow10(a) <= pow10(b),
    decreases b,
{
    if a < b {
        lemma_pow10_mono(a, (b - 1) as nat);
        lemma_pow10_pos((b - 1) as nat);
    }
}

/// A well-formed timestamp never overflows the centisecond arithmetic.
pub proof fn lemma_centis_bound(fs: Seq<Seq<char>>)
    requires
        fs.len() >= 2,
        is_time_field(fs[0]),
        is_time_field(fs[1]),
    ensures
        0 <= centis_of_fields(fs) < 0x8000_0000_0000_0000,
{
    assert(pow10(15) == 1000000000000000) by {
        reveal_with_fuel(pow10, 16);
    }
    lemma_digits_val_bound(fs[0]);
    lemma_pow10_mono(fs[0].len(), 15);
    lemma_digits_val_bound(fs[1]);
    lemma_pow10_mono(fs[1].len(), 15);
    if fs.len() >= 3 && is_time_field(fs[2]) {
        lemma_digits_val_bound(fs[2]);
        lemma_pow10_mono(fs[2].len(), 15);
    }
}

/// Stably inserts `e` into a time-sorted sequence, after every entry whose
/// timestamp is less than or equal to its own.
pub open spec fn insert_sorted(sorted: Seq<(u64, Seq<char>)>, e: (u64, Seq<char>)) -> Seq<
    (u64, Seq<char>),
>
    decreases sorted.len(),
{
    if sorted.len() == 0 {
        seq![e]
    } else if sorted[0].0 <= e.0 {
        seq![sorted[0]] + insert_sorted(sorted.drop_first(), e)
    } else {
        seq![e] + sorted
    }
}

/// Stable insertion sort of `(timestamp, text)` entries by timestamp:
/// entries with equal timestamps keep their original encounter order.
pub open spec fn sort_entries(entries: Seq<(u64, Seq<char>)>) -> Seq<(u64, Seq<char>)>
    decreases entries.len(),
{
    if entries.len() == 0 {
        Seq::empty()
    } else {
        insert_sorted(sort_entries(entries.drop_last()), entries.last())
    }
}

/// The entries ascend by timestamp.
pub open spec fn time_sorted(s: Seq<(u64, Seq<char>)>) -> bool {
    forall|i: int, j: int| 0 <= i <= j < s.len() ==> (#[trigger] s[i]).0 <= (#[trigger] s[j]).0
}

proof fn lemma_insert_sorted_props(s: Seq<(u64, Seq<char>)>, e: (u64, Seq<char>))
    requires
        time_sorted(s),
    ensures
        time_sorted(insert_sorted(s, e)),
        insert_sorted(s, e).len() == s.len() + 1,
        forall|k: int|
            0 <= k < insert_sorted(s, e).len() ==> ((#[trigger] insert_sorted(s, e)[k]) == e
                || exists|m: int| 0 <= m < s.len() && s[m] == insert_sorted(s, e)[k]),
    decreases s.len(),
{
    let r = insert_sorted(s, e);
    if s.len() == 0 {
    } else if s[0].0 <= e.0 {
        let t = s.drop_first();
        assert(time_sorted(t)) by {
            assert(forall|i: int, j: int|
                0 <= i <= j < t.len() ==> t[i] == s[i + 1] && t[j] == s[j + 1]);
        }
        lemma_insert_sorted_props(t, e);
        let rt = insert_sorted(t, e);
        assert(r == seq![s[0]] + rt);
        assert forall|k: int| 0 <= k < r.len() implies ((#[trigger] r[k]) == e || exists|m: int|
            0 <= m < s.len() && s[m] == r[k]) by {
            if k > 0 {
                assert(r[k] == rt[k - 1]);
                if rt[k - 1] != e {
                    let m = choose|m: int| 0 <= m < t.len() && t[m] == rt[k - 1];
                    assert(s[m + 1] == r[k]);
                }
            } else {
                assert(s[0] == r[0]);
            }
        }
        assert forall|i: int, j: int| 0 <= i <= j < r.len() implies (#[trigger] r[i]).0
            <= (#[trigger] r[j]).0 by {
            if i == 0 && j > 0 {
                assert(r[j] == rt[j - 1]);
                if rt[j - 1] == e {
                } else {
                    let m = choose|m: int| 0 <= m < t.len() && t[m] == rt[j - 1];
                    assert(s[0].0 <= s[m + 1].0);
                }
            } else if i > 0 {
                assert(r[i] == rt[i - 1] && r[j] == rt[j - 1]);
            }
        }
    } else {
        assert(r == seq![e] + s);
    }
}

/// Stable insertion sort really sorts: its result ascends by timestamp,
/// whatever order the entries were collected in.
pub proof fn lemma_sort_entries_sorted(entries: Seq<(u64, Seq<char>)>)
    ensures
        time_sorted(sort_entries(entries)),
        sort_entries(entries).len() == entries.len(),
    decreases entries.len(),
{
    if entries.len() > 0 {
        lemma_sort_entries_sorted(entries.drop_last());
        lemma_insert_sorted_props(sort_entries(entries.drop_last()), entries.last());
    }
}

/// The display order of parsed lines depends on timestamps alone: a
/// sequence built from the sorted entries ascends by start time, and each
/// interval ends where the next begins.
pub proof fn lemma_parse_output_sorted(
    entries: Seq<(u64, Seq<char>)>,
    ls: Seq<LyricsLine>,
    duration: u64,
)
    requires
        lines_match(ls, sort_entries(entries), duration),
    ensures
        forall|i: int, j: int|
            0 <= i <= j < ls.len() ==> (#[trigger] ls[i]).timestamp_start
                <= (#[trigger] ls[j]).timestamp_start,
        forall|i: int|
            0 <= i < ls.len() - 1 ==> (#[trigger] ls[i]).timestamp_end == ls[
                i + 1
            ].timestamp_start,
{
    lemma_sort_entries_sorted(entries);
    let sorted = sort_entries(entries);
    assert forall|i: int, j: int| 0 <= i <= j < ls.len() implies (#[trigger] ls[i]).timestamp_start
        <= (#[trigger] ls[j]).timestamp_start by {
        assert(ls[i].timestamp_start == sorted[i].0);
        assert(ls[j].timestamp_start == sorted[j].0);
    }
}

/// The `(timestamp, text)` pairs contributed by one physical line, or an
/// error when one of its leading bracketed tags is malformed.
pub open spec fn line_entries(line: Seq<char>) -> Result<Seq<(u64, Seq<char>)>, ()> {
    match strip_tags_spec(trim_spec(line)) {
        Ok(p) => Ok(Seq::new(p.0.len(), |i: int| (p.0[i], p.1))),
        Err(e) => Err(e),
    }
}

/// Strips leading `[..]` tags from a trimmed line.  Yields the timestamp of
/// every tag and the trimmed remaining text, or an error if a tag body is
/// not a valid timestamp.  A `[` without a closing `]` ends tag stripping
/// and counts as text.
pub open spec fn strip_tags_spec(s: Seq<char>) -> Result<(Seq<u64>, Seq<char>), ()>
    decreases s.len(),
    via strip_tags_spec_dec
{
    if s.len() == 0 || s[0] != '[' {
        Ok((Seq::empty(), trim_spec(s)))
    } else {
        let j = first_index_of(s, ']');
        if j == s.len() {
            Ok((Seq::empty(), trim_spec(s)))
        } else {
            match parse_time_spec(s.subrange(1, j)) {
                None => Err(()),
                Some(t) => match strip_tags_spec(s.skip(j + 1)) {
                    Err(e) => Err(e),
                    Ok(p) => Ok((seq![t] + p.0, p.1)),
                },
            }
        }
    }
}

#[via_fn]
proof fn strip_tags_spec_dec(s: Seq<char>) {
    lemma_first_index_of(s, ']');
}

/// The `(timestamp, text)` pairs of a whole document, line by line, or an
/// error as soon as any line holds a malformed tag.
pub open spec fn doc_entries(lines: Seq<Seq<char>>) -> Result<Seq<(u64, Seq<char>)>, ()>
    decreases lines.len(),
{
    if lines.len() == 0 {
        Ok(Seq::empty())
    } else {
        match line_entries(lines[0]) {
            Err(e) => Err(e),
            Ok(e0) => match doc_entries(lines.drop_first()) {
                Err(e) => Err(e),
                Ok(rest) => Ok(e0 + rest),
            },
        }
    }
}

/// All `(timestamp, text)` pairs of a raw document, or an error when any
/// line holds a malformed tag.
pub open spec fn parsed_entries(doc: Seq<char>) -> Result<Seq<(u64, Seq<char>)>, ()> {
    doc_entries(split_lines_spec(doc))
}

/// The produced lines carry exactly the sorted entries: each display
/// interval ends where the next begins, and the last ends at the song
/// duration.
pub open spec fn lines_match(ls: Seq<LyricsLine>, sorted: Seq<(u64, Seq<char>)>, duration: u64) -> bool {
    &&& ls.len() == sorted.len()
    &&& forall|i: int|
        0 <= i < ls.len() ==> {
            &&& (#[trigger] ls[i]).timestamp_start == sorted[i].0
            &&& ls[i].text@ == sorted[i].1
            &&& ls[i].timestamp_end == (if i + 1 < sorted.len() {
                sorted[i + 1].0
            } else {
                duration
            })
        }
}


// ---------------------------------------------------------------------------
// Timed-text parsing: executable code
// ---------------------------------------------------------------------------

/// The parser that turns raw timed text into display lines.
pub struct LyricParser;

/// The index of the first occurrence of `c` in `s` at or after `start`,
/// or the length of `s` if there is none.
fn find_char_from(s: &str, start: usize, c: char) -> (r: usize)
    requires
        start <= s@.len(),
    ensures
        start <= r <= s@.len(),
        r < s@.len() ==> s@[r as int] == c,
        forall|j: int| start <= j < r ==> s@[j] != c,
{
    let n = s.unicode_len();
    let mut i = start;
    while i < n
        invariant
            start <= i <= n,
            n == s@.len(),
            forall|j: int| start <= j < i ==> s@[j] != c,
        decreases n - i,
    {
        if s.get_char(i) == c {
            return i;
        }
        i = i + 1;
    }
    i
}

/// The index of the first field separator in `s` at or after `start`,
/// or the length of `s` if there is none.
fn find_sep_from(s: &str, start: usize) -> (r: usize)
    requires
        start <= s@.len(),
    ensures
        start <= r <= s@.len(),
        r < s@.len() ==> is_time_sep(s@[r as int]),
        forall|j: int| start <= j < r ==> !is_time_sep(s@[j]),
{
    let n = s.unicode_len();
    let mut i = start;
    while i < n
        invariant
            start <= i <= n,
            n == s@.len(),
            forall|j: int| start <= j < i ==> !is_time_sep(s@[j]),
        decreases n - i,
    {
        let c = s.get_char(i);
        if c == ':' || c == '.' {
            return i;
        }
        i = i + 1;
    }
    i
}

proof fn lemma_pin_sep(t: Seq<char>, k: int)
    requires
        0 <= k <= t.len(),
        forall|j: int| 0 <= j < k ==> !is_time_sep(#[trigger] t[j]),
        k < t.len() ==> is_time_sep(t[k]),
    ensures
        first_sep_index(t) == k,
{
    lemma_first_sep_index(t);
    let fi = first_sep_index(t);
    if fi < k {
        assert(is_time_sep(t[fi]));
        assert(!is_time_sep(t[fi]));
    }
    if k < fi {
        assert(!is_time_sep(t[k]));
        assert(is_time_sep(t[k]));
    }
}

proof fn lemma_pin_char(t: Seq<char>, c: char, k: int)
    requires
        0 <= k <= t.len(),
        forall|j: int| 0 <= j < k ==> #[trigger] t[j] != c,
        k < t.len() ==> t[k] == c,
    ensures
        first_index_of(t, c) == k,
{
    lemma_first_index_of(t, c);
    let fi = first_index_of(t, c);
    if fi < k {
        assert(t[fi] == c);
        assert(t[fi] != c);
    }
    if k < fi {
        assert(t[k] != c);
        assert(t[k] == c);
    }
}

/// Reads the digit run `s[start..end]` as a number, or `None` when the run
/// is empty, too long, or holds a non-digit.
fn parse_field(s: &str, start: usize, end: usize) -> (r: Option<u64>)
    requires
        start <= end <= s@.len(),
    ensures
        (match r {
            Some(v) => is_time_field(s@.subrange(start as int, end as int)) && v == digits_val(
                s@.subrange(start as int, end as int),
            ),
            None => !is_time_field(s@.subrange(start as int, end as int)),
        }),
{
    let ghost sub = s@.subrange(start as int, end as int);
    if end - start < 1 || end - start > MAX_FIELD_DIGITS {
        return None;
    }
    proof {
        assert(pow10(15) == 1000000000000000) by {
            reveal_with_fuel(pow10, 16);
        }
    }
    let mut acc: u64 = 0;
    let mut i = start;
    while i < end
        invariant
            start <= i <= end,
            end <= s@.len(),
            1 <= end - start <= 15,
            sub == s@.subrange(start as int, end as int),
            forall|j: int| start <= j < i ==> is_digit_char(#[trigger] s@[j]),
            acc == digits_val(s@.subrange(start as int, i as int)),
            0 <= acc < pow10((i - start) as nat),
            pow10(15) == 1000000000000000,
        decreases end - i,
    {
        let c = s.get_char(i);
        let u = c as u32;
        if u < 48 || u > 57 {
            proof {
                assert(!is_digit_char(sub[i - start]));
            }
            return None;
        }
        let d = (u - 48) as u64;
        proof {
            lemma_pow10_mono((i - start + 1) as nat, 15);
            lemma_pow10_pos((i - start) as nat);
            assert(acc * 10 + d < pow10((i - start + 1) as nat)) by {
                assert(pow10((i - start + 1) as nat) == 10 * pow10((i - start) as nat));
                assert(d <= 9);
            }
        }
        let new_acc = acc * 10 + d;
        proof {
            let p = s@.subrange(start as int, i as int);
            let q = s@.subrange(start as int, i + 1);
            assert(q.drop_last() =~= p);
            assert(q.last() == s@[i as int]);
            assert(digit_val(s@[i as int]) == d);
        }
        acc = new_acc;
        i = i + 1;
    }
    proof {
        assert(s@.subrange(start as int, i as int) =~= sub);
        assert(is_time_field(sub));
    }
    Some(acc)
}

impl LyricParser {
    /// Reads a timestamp tag body `mm:ss`, `mm:ss.xx`, or `mm.ss.xx` —
    /// minutes, seconds and optional hundredths — as centiseconds.
    pub fn parse_time(s: &str) -> (r: Option<u64>)
        ensures
            r == parse_time_spec(s@),
    {
        let n = s.unicode_len();
        let ghost fs = split_fields_spec(s@);
        let i0 = find_sep_from(s, 0);
        proof {
            lemma_pin_sep(s@, i0 as int);
        }
        if i0 == n {
            proof {
                assert(fs =~= seq![s@]);
            }
            return None;
        }
        let ghost rest1 = s@.skip(i0 + 1);
        proof {
            assert(fs == seq![s@.take(i0 as int)] + split_fields_spec(rest1));
        }
        let v0_opt = parse_field(s, 0, i0);
        proof {
            assert(s@.subrange(0, i0 as int) =~= s@.take(i0 as int));
            assert(fs[0] == s@.take(i0 as int));
        }
        let v0 = match v0_opt {
            Option::Some(v) => v,
            Option::None => {
                return None;
            },
        };
        let i1 = find_sep_from(s, i0 + 1);
        proof {
            assert forall|j: int| 0 <= j < i1 - i0 - 1 implies !is_time_sep(
                #[trigger] rest1[j],
            ) by {
                assert(rest1[j] == s@[i0 + 1 + j]);
            }
            if (i1 as int) < s@.len() {
                assert(rest1[i1 - i0 - 1] == s@[i1 as int]);
            }
            lemma_pin_sep(rest1, i1 - i0 - 1);
        }
        let v1_opt = parse_field(s, i0 + 1, i1);
        proof {
            assert(s@.subrange(i0 + 1, i1 as int) =~= rest1.take(i1 - i0 - 1));
        }
        if i1 == n {
            proof {
                assert(split_fields_spec(rest1) =~= seq![rest1]);
                assert(s@.subrange(i0 + 1, i1 as int) =~= rest1);
                assert(fs[1] == rest1);
                assert(fs.len() == 2);
            }
            let v1 = match v1_opt {
                Option::Some(v) => v,
                Option::None => {
                    return None;
                },
            };
            proof {
                lemma_centis_bound(fs);
                assert(centis_of_fields(fs) == digits_val(fs[0]) * 6000 + digits_val(fs[1])
                    * 100);
            }
            return Some(v0 * 6000 + v1 * 100);
        }
        let ghost rest2 = s@.skip(i1 + 1);
        proof {
            assert(split_fields_spec(rest1) == seq![rest1.take(i1 - i0 - 1)]
                + split_fields_spec(rest2)) by {
                assert(rest1.skip(i1 - i0 - 1 + 1) =~= rest2);
            }
            assert(fs[1] == rest1.take(i1 - i0 - 1));
            assert(fs.len() >= 3);
        }
        let v1 = match v1_opt {
            Option::Some(v) => v,
            Option::None => {
                return None;
            },
        };
        let i2 = find_sep_from(s, i1 + 1);
        proof {
            assert forall|j: int| 0 <= j < i2 - i1 - 1 implies !is_time_sep(
                #[trigger] rest2[j],
            ) by {
                assert(rest2[j] == s@[i1 + 1 + j]);
            }
            if (i2 as int) < s@.len() {
                assert(rest2[i2 - i1 - 1] == s@[i2 as int]);
            }
            lemma_pin_sep(rest2, i2 - i1 - 1);
            if i2 as int == rest2.len() + i1 + 1 {
                assert(split_fields_spec(rest2) =~= seq![rest2]);
                assert(fs[2] == rest2);
            } else {
                assert(fs[2] == rest2.take(i2 - i1 - 1));
            }
            assert(s@.subrange(i1 + 1, i2 as int) =~= fs[2]);
        }
        let c3 = match parse_field(s, i1 + 1, i2) {
            Option::Some(v) => v,
            Option::None => 0,
        };
        proof {
            lemma_centis_bound(fs);
        }
        Some(v0 * 6000 + v1 * 100 + c3)
    }

    /// Splits one physical line into the timestamps of its leading tags and
    /// its remaining text; fails when a tag body is not a valid timestamp.
    pub fn parse_line(line: &str) -> (r: Result<(Vec<u64>, String), LyricsError>)
        ensures
            (match r {
                Ok(p) => strip_tags_spec(trim_spec(line@)) == Ok::<_, ()>((p.0@, p.1@)),
                Err(e) => e == LyricsError::InvalidTimeFormat && strip_tags_spec(
                    trim_spec(line@),
                ) is Err,
            }),
    {
        let t = trim(line);
        let n = t.unicode_len();
        let mut tags: Vec<u64> = Vec::new();
        let mut pos: usize = 0;
        let mut stop = false;
        proof {
            assert(t@.skip(0) =~= t@);
            match strip_tags_spec(t@) {
                Ok(p2) => {
                    assert(tags@ + p2.0 =~= p2.0);
                },
                Err(..) => {},
            }
        }
        while !stop
            invariant
                0 <= pos <= n,
                n == t@.len(),
                t@ == trim_spec(line@),
                (match strip_tags_spec(t@.skip(pos as int)) {
                    Ok(p2) => strip_tags_spec(t@) == Ok::<_, ()>((tags@ + p2.0, p2.1)),
                    Err(..) => strip_tags_spec(t@) is Err,
                }),
                stop ==> (pos == n || t@[pos as int] != '[' || first_index_of(
                    t@.skip(pos as int),
                    ']',
                ) == t@.skip(pos as int).len()),
            decreases n - pos, (if stop { 0int } else { 1int }),
        {
            if pos >= n {
                stop = true;
            } else if t.get_char(pos) != '[' {
                stop = true;
            } else {
                let ghost rest = t@.skip(pos as int);
                let close = find_char_from(t, pos, ']');
                proof {
                    assert forall|j: int| 0 <= j < close - pos implies #[trigger] rest[j]
                        != ']' by {
                        assert(rest[j] == t@[pos + j]);
                    }
                    if (close as int) < t@.len() {
                        assert(rest[close - pos] == t@[close as int]);
                    }
                    lemma_pin_char(rest, ']', close - pos);
                }
                if close == n {
                    stop = true;
                } else {
                    let tag_body = t.substring_char(pos + 1, close);
                    proof {
                        assert(tag_body@ =~= rest.subrange(1, close - pos));
                    }
                    match Self::parse_time(tag_body) {
                        Option::None => {
                            return Err(LyricsError::InvalidTimeFormat);
                        },
                        Option::Some(v) => {
                            let ghost old_tags = tags@;
                            tags.push(v);
                            proof {
                                assert(rest.skip(close - pos + 1) =~= t@.skip(close + 1));
                                match strip_tags_spec(t@.skip(close + 1)) {
                                    Ok(p3) => {
                                        assert(strip_tags_spec(rest) == Ok::<_, ()>((
                                            seq![v] + p3.0,
                                            p3.1,
                                        )));
                                        assert(tags@ + p3.0 =~= old_tags + (seq![v] + p3.0));
                                    },
                                    Err(..) => {},
                                }
                            }
                            pos = close + 1;
                        },
                    }
                }
            }
        }
        let rest_str = t.substring_char(pos, n);
        let text = trim(rest_str);
        proof {
            assert(rest_str@ =~= t@.skip(pos as int));
            let rest = t@.skip(pos as int);
            if pos == n {
                assert(rest.len() == 0);
            }
            assert(strip_tags_spec(rest) == Ok::<_, ()>((Seq::<u64>::empty(), trim_spec(rest))));
            assert(tags@ + Seq::<u64>::empty() =~= tags@);
        }
        Ok((tags, text.to_owned()))
    }
}


/// One `(timestamp, text)` pair collected while scanning a document.
struct TimedEntry {
    time: u64,
    text: String,
}

/// The mathematical value of a collected entry sequence.
spec fn entry_views(v: Seq<TimedEntry>) -> Seq<(u64, Seq<char>)> {
    v.map_values(|e: TimedEntry| (e.time, e.text@))
}

proof fn lemma_insert_sorted_at(s: Seq<(u64, Seq<char>)>, e: (u64, Seq<char>), p: int)
    requires
        0 <= p <= s.len(),
        forall|j: int| 0 <= j < p ==> (#[trigger] s[j]).0 <= e.0,
        p < s.len() ==> s[p].0 > e.0,
    ensures
        insert_sorted(s, e) == s.take(p) + seq![e] + s.skip(p),
    decreases s.len(),
{
    if s.len() == 0 {
        assert(insert_sorted(s, e) =~= s.take(p) + seq![e] + s.skip(p));
    } else if p == 0 {
        assert(insert_sorted(s, e) =~= s.take(0) + seq![e] + s.skip(0));
    } else {
        let t = s.drop_first();
        assert(forall|j: int| 0 <= j < p - 1 ==> (#[trigger] t[j]).0 <= e.0);
        lemma_insert_sorted_at(t, e, p - 1);
        assert(insert_sorted(s, e) =~= s.take(p) + seq![e] + s.skip(p)) by {
            assert(insert_sorted(s, e) == seq![s[0]] + insert_sorted(t, e));
            assert(t.take(p - 1) =~= s.take(p).drop_first());
            assert(t.skip(p - 1) =~= s.skip(p));
            assert(seq![s[0]] + (t.take(p - 1) + seq![e] + t.skip(p - 1)) =~= s.take(p)
                + seq![e] + s.skip(p));
        }
    }
}

/// Stable insertion sort of the collected entries by timestamp.
fn sort_timed(entries: Vec<TimedEntry>) -> (r: Vec<TimedEntry>)
    ensures
        entry_views(r@) == sort_entries(entry_views(entries@)),
{
    let ghost orig = entries@;
    let mut rest = entries;
    let mut out: Vec<TimedEntry> = Vec::new();
    let ghost mut k: int = 0;
    proof {
        assert(rest@ =~= orig.skip(0));
        assert(orig.take(0) =~= Seq::<TimedEntry>::empty());
        assert(entry_views(Seq::<TimedEntry>::empty()) =~= Seq::<(u64, Seq<char>)>::empty());
    }
    while rest.len() > 0
        invariant
            0 <= k,
            k + rest@.len() == orig.len(),
            rest@ == orig.skip(k),
            entry_views(out@) == sort_entries(entry_views(orig.take(k))),
        decreases rest@.len(),
    {
        let e = rest.remove(0);
        proof {
            assert(e == orig[k]);
            assert(rest@ =~= orig.skip(k + 1));
        }
        let mut p: usize = 0;
        while p < out.len() && out[p].time <= e.time
            invariant
                0 <= p <= out@.len(),
                forall|j: int| 0 <= j < p ==> (#[trigger] out@[j]).time <= e.time,
            decreases out@.len() - p,
        {
            p = p + 1;
        }
        proof {
            let sv = entry_views(out@);
            let ev = (e.time, e.text@);
            assert(forall|j: int| 0 <= j < p ==> (#[trigger] sv[j]).0 <= ev.0);
            lemma_insert_sorted_at(sv, ev, p as int);
        }
        let ghost old_out = out@;
        out.insert(p, e);
        proof {
            let sv = entry_views(old_out);
            let ev = (e.time, e.text@);
            assert(entry_views(out@) =~= sv.take(p as int) + seq![ev] + sv.skip(p as int));
            let taken = orig.take(k + 1);
            assert(taken.drop_last() =~= orig.take(k));
            assert(taken.last() == orig[k]);
            assert(entry_views(taken).drop_last() =~= entry_views(taken.drop_last()));
            assert(entry_views(taken).last() == ev);
            assert(entry_views(taken).len() > 0);
            assert(sort_entries(entry_views(taken)) == insert_sorted(
                sort_entries(entry_views(orig.take(k))),
                ev,
            ));
            k = k + 1;
        }
    }
    proof {
        assert(orig.take(orig.len() as int) =~= orig);
        assert(rest@.len() == 0);
    }
    out
}

/// Chains the sorted entries into display lines: each interval ends where
/// the next begins, and the last ends at the song duration.
fn build_lines(sorted: Vec<TimedEntry>, duration: u64) -> (r: Vec<LyricsLine>)
    ensures
        lines_match(r@, entry_views(sorted@), duration),
{
    let mut out: Vec<LyricsLine> = Vec::new();
    let mut i: usize = 0;
    while i < sorted.len()
        invariant
            0 <= i <= sorted@.len(),
            out@.len() == i,
            forall|j: int|
                0 <= j < i ==> {
                    &&& (#[trigger] out@[j]).timestamp_start == sorted@[j].time
                    &&& out@[j].text@ == sorted@[j].text@
                    &&& out@[j].timestamp_end == (if j + 1 < sorted@.len() {
                        sorted@[j + 1].time
                    } else {
                        duration
                    })
                },
        decreases sorted@.len() - i,
    {
        let end = if i + 1 < sorted.len() {
            sorted[i + 1].time
        } else {
            duration
        };
        let text = sorted[i].text.clone();
        let start = sorted[i].time;
        out.push(LyricsLine { timestamp_start: start, timestamp_end: end, text });
        i = i + 1;
    }
    out
}

impl LyricParser {
    /// Parses a raw timed-text document into the sorted sequence of display
    /// lines for a song of the given duration (centiseconds).
    ///
    /// Every leading `[mm:ss.xx]` tag of every physical line contributes one
    /// line with that line's text.  Entries are ordered by timestamp, ties
    /// keeping their encounter order; each display interval runs to the next
    /// entry's start, the last to the song duration.  A malformed tag fails
    /// the whole parse with `InvalidTimeFormat`; a document without any tag
    /// fails with `EmptyLyrics`.
    pub fn parse(doc: &str, song_duration: u64) -> (r: Result<Vec<LyricsLine>, LyricsError>)
        ensures
            (match r {
                Ok(lines) => (match parsed_entries(doc@) {
                    Ok(es) => es.len() > 0 && lines_match(lines@, sort_entries(es), song_duration),
                    Err(..) => false,
                }),
                Err(e) => (match parsed_entries(doc@) {
                    Ok(es) => e == LyricsError::EmptyLyrics && es.len() == 0,
                    Err(..) => e == LyricsError::InvalidTimeFormat,
                }),
            }),
    {
        let n = doc.unicode_len();
        let mut entries: Vec<TimedEntry> = Vec::new();
        let mut pos: usize = 0;
        let mut done = false;
        proof {
            assert(doc@.skip(0) =~= doc@);
            match doc_entries(split_lines_spec(doc@)) {
                Ok(rest) => {
                    assert(entry_views(entries@) + rest =~= rest);
                },
                Err(..) => {},
            }
        }
        while !done
            invariant
                0 <= pos <= n,
                n == doc@.len(),
                !done ==> (match doc_entries(split_lines_spec(doc@.skip(pos as int))) {
                    Ok(rest) => doc_entries(split_lines_spec(doc@)) == Ok::<_, ()>(
                        entry_views(entries@) + rest,
                    ),
                    Err(..) => doc_entries(split_lines_spec(doc@)) is Err,
                }),
                done ==> doc_entries(split_lines_spec(doc@)) == Ok::<_, ()>(entry_views(entries@)),
            decreases n - pos, (if done { 0int } else { 1int }),
        {
            let ghost rem = doc@.skip(pos as int);
            let line_end = find_char_from(doc, pos, '\n');
            proof {
                assert forall|j: int| 0 <= j < line_end - pos implies #[trigger] rem[j]
                    != '\n' by {
                    assert(rem[j] == doc@[pos + j]);
                }
                if (line_end as int) < doc@.len() {
                    assert(rem[line_end - pos] == doc@[line_end as int]);
                }
                lemma_pin_char(rem, '\n', line_end - pos);
            }
            let seg = doc.substring_char(pos, line_end);
            proof {
                assert(seg@ =~= rem.take(line_end - pos));
            }
            let ghost seg_lines =
                if line_end == n {
                    seq![rem]
                } else {
                    seq![rem.take(line_end - pos)] + split_lines_spec(doc@.skip(line_end + 1))
                };
            proof {
                if line_end == n {
                    assert(seg@ =~= rem);
                    assert(split_lines_spec(rem) == seg_lines);
                } else {
                    assert(rem.skip(line_end - pos + 1) =~= doc@.skip(line_end + 1));
                    assert(split_lines_spec(rem) == seg_lines);
                }
                assert(seg_lines[0] == seg@);
            }
            match Self::parse_line(seg) {
                Result::Err(..) => {
                    proof {
                        assert(line_entries(seg_lines[0]) is Err);
                        assert(doc_entries(seg_lines) is Err);
                    }
                    return Err(LyricsError::InvalidTimeFormat);
                },
                Result::Ok((tags, text)) => {
                    let ghost line_es = Seq::new(tags@.len(), |i: int| (tags@[i], text@));
                    proof {
                        assert(line_entries(seg_lines[0]) == Ok::<_, ()>(line_es));
                    }
                    let ghost before = entries@;
                    let mut ti: usize = 0;
                    while ti < tags.len()
                        invariant
                            0 <= ti <= tags@.len(),
                            entries@.len() == before.len() + ti,
                            forall|x: int| 0 <= x < before.len() ==> entries@[x] == before[x],
                            forall|x: int|
                                0 <= x < ti ==> {
                                    &&& (#[trigger] entries@[before.len() + x]).time == tags@[x]
                                    &&& entries@[before.len() + x].text@ == text@
                                },
                        decreases tags@.len() - ti,
                    {
                        let te = TimedEntry { time: tags[ti], text: text.clone() };
                        entries.push(te);
                        ti = ti + 1;
                    }
                    proof {
                        assert(entry_views(entries@) =~= entry_views(before) + line_es) by {
                            assert forall|j: int| 0 <= j < entries@.len() implies entry_views(
                                entries@,
                            )[j] == (entry_views(before) + line_es)[j] by {
                                if j < before.len() {
                                    assert(entries@[j] == before[j]);
                                } else {
                                    let x = j - before.len();
                                    assert(entries@[before.len() + x].time == tags@[x]);
                                    assert(entries@[before.len() + x].text@ == text@);
                                }
                            }
                        }
                        assert(seg_lines.drop_first() =~= if line_end == n {
                            Seq::<Seq<char>>::empty()
                        } else {
                            split_lines_spec(doc@.skip(line_end + 1))
                        });
                        if line_end == n {
                            assert(doc_entries(Seq::<Seq<char>>::empty()) == Ok::<_, ()>(
                                Seq::<(u64, Seq<char>)>::empty(),
                            ));
                            assert(doc_entries(seg_lines) == Ok::<_, ()>(
                                line_es + Seq::<(u64, Seq<char>)>::empty(),
                            ));
                            assert(line_es + Seq::<(u64, Seq<char>)>::empty() =~= line_es);
                        }
                    }
                    if line_end == n {
                        done = true;
                        proof {
                            match doc_entries(split_lines_spec(doc@)) {
                                Ok(full) => {
                                    assert(full =~= entry_views(entries@));
                                },
                                Err(..) => {},
                            }
                        }
                    } else {
                        proof {
                            match doc_entries(split_lines_spec(doc@.skip(line_end + 1))) {
                                Ok(rest2) => {
                                    assert(doc_entries(seg_lines) == Ok::<_, ()>(
                                        line_es + rest2,
                                    ));
                                    match doc_entries(split_lines_spec(doc@)) {
                                        Ok(full) => {
                                            assert(full =~= entry_views(entries@) + rest2);
                                        },
                                        Err(..) => {},
                                    }
                                },
                                Err(..) => {},
                            }
                        }
                        pos = line_end + 1;
                    }
                },
            }
        }
        if entries.len() == 0 {
            proof {
                assert(entry_views(entries@) =~= Seq::<(u64, Seq<char>)>::empty());
            }
            return Err(LyricsError::EmptyLyrics);
        }
        let ghost es = entry_views(entries@);
        let sorted = sort_timed(entries);
        let lines = build_lines(sorted, song_duration);
        Ok(lines)
    }
}

} // verus!
