use vstd::prelude::*;

use crate::client::LyricsItem;
use crate::error::LyricsError;
use crate::song::{LyricsLine, PlayTime, SongInfo};

verus! {

// ---------------------------------------------------------------------------
// Display metrics
// ---------------------------------------------------------------------------

/// Precomputed display parameters of the lyric viewport.
#[derive(Debug, Clone, Copy, PartialEq, Eq, Structural)]
pub struct ViewMetrics {
    /// Lines that fit the viewport, borders deducted.
    pub visible_lines: usize,
    /// Total number of lyric lines.
    pub content_height: usize,
    /// How far the view can scroll at most.
    pub scroll_range: usize,
}

impl Default for ViewMetrics {
    /// An empty viewport.
    fn default() -> (r: ViewMetrics)
        ensures
            r == (ViewMetrics { visible_lines: 0, content_height: 0, scroll_range: 0 }),
    {
        ViewMetrics { visible_lines: 0, content_height: 0, scroll_range: 0 }
    }
}

// ---------------------------------------------------------------------------
// Current-line selection
// ---------------------------------------------------------------------------

/// The line is on display at time `t`: its interval contains `t`.
pub open spec fn line_active(l: LyricsLine, t: u64) -> bool {
    l.timestamp_start <= t && t < l.timestamp_end
}

/// The index of the first line active at `t`, if any is.
pub open spec fn first_active(lines: Seq<LyricsLine>, t: u64) -> Option<int>
    decreases lines.len(),
{
    if lines.len() == 0 {
        None
    } else if line_active(lines[0], t) {
        Some(0int)
    } else {
        match first_active(lines.drop_first(), t) {
            Some(i) => Some(i + 1),
            None => None,
        }
    }
}

proof fn lemma_first_active_at(lines: Seq<LyricsLine>, t: u64, k: int)
    requires
        0 <= k <= lines.len(),
        forall|j: int| 0 <= j < k ==> !line_active(#[trigger] lines[j], t),
        k < lines.len() ==> line_active(lines[k], t),
    ensures
        first_active(lines, t) == (if k < lines.len() {
            Some(k)
        } else {
            None::<int>
        }),
    decreases k,
{
    if k > 0 {
        let rest = lines.drop_first();
        assert(forall|j: int| 0 <= j < k - 1 ==> !line_active(#[trigger] rest[j], t));
        lemma_first_active_at(rest, t, k - 1);
    }
}

// ---------------------------------------------------------------------------
// Progress
// ---------------------------------------------------------------------------

/// Playback progress in whole percent, unclamped above 100 but saturated
/// to the type's range; zero when the duration is unknown.
pub open spec fn progress_percent_spec(current: u64, duration: u64) -> u16 {
    if duration == 0 {
        0u16
    } else if (current as int) * 100 / (duration as int) > 65535 {
        65535u16
    } else {
        ((current as int) * 100 / (duration as int)) as u16
    }
}

/// Computes the playback progress percentage.
pub fn progress_percent(current: u64, duration: u64) -> (r: u16)
    ensures
        r == progress_percent_spec(current, duration),
{
    if duration == 0 {
        return 0;
    }
    let v: u128 = (current as u128) * 100 / (duration as u128);
    if v > 65535 {
        65535
    } else {
        v as u16
    }
}

// ---------------------------------------------------------------------------
// Lyric screen state
// ---------------------------------------------------------------------------

/// State of the lyric screen: the observed song, the playback estimate,
/// the parsed lines, scroll position, display metrics, and the bounded
/// retry bookkeeping for resolution errors.
#[derive(Debug)]
pub struct LyricState {
    pub song: SongInfo,
    pub play_time: PlayTime,
    pub lyrics: Vec<LyricsLine>,
    pub target_scroll: usize,
    pub view_metrics: ViewMetrics,
    pub error_message: Option<String>,
    pub retry_counter: u32,
    pub progress: u16,
}

/// How many times a failed resolution is retried on later ticks before
/// going silent until the song changes.
pub const MAX_UI_RETRIES: u32 = 5;

/// The seconds waited between two such retries.
pub const UI_RETRY_PAUSE_SECS: u64 = 2;

/// The digit shown for a retry count of one to five.
pub open spec fn retry_digit(n: u32) -> Seq<char> {
    if n == 1 {
        "1"@
    } else if n == 2 {
        "2"@
    } else if n == 3 {
        "3"@
    } else if n == 4 {
        "4"@
    } else {
        "5"@
    }
}

/// The message shown for a resolution error on its `n`-th retry.
pub open spec fn retry_message(e: LyricsError, n: u32) -> Seq<char> {
    "Error: "@ + e.message_spec() + " (Retry "@ + retry_digit(n) + "/5)"@
}

impl LyricState {
    /// The state of a fresh screen, before any song was observed.
    pub open spec fn is_initial(&self) -> bool {
        &&& self.song.track_id is None
        &&& self.song.title@.len() == 0
        &&& self.song.artist@.len() == 0
        &&& self.song.album@.len() == 0
        &&& self.song.duration == 0
        &&& self.play_time == (PlayTime { current_time: 0, last_valid_pos: None })
        &&& self.lyrics@.len() == 0
        &&& self.target_scroll == 0
        &&& self.view_metrics == (ViewMetrics {
            visible_lines: 0,
            content_height: 0,
            scroll_range: 0,
        })
        &&& self.error_message is None
        &&& self.retry_counter == 0
        &&& self.progress == 0
    }

    /// Clears everything, as when the observed song changes or vanishes.
    pub fn reset(&mut self)
        ensures
            final(self).is_initial(),
    {
        *self = LyricState::default();
    }

    /// Recomputes the display parameters for a viewport of the given
    /// height: two border lines are deducted, and the scroll range is what
    /// the content overflows the viewport by.
    pub fn calculate_metrics(&mut self, height: u16)
        ensures
            final(self).view_metrics.visible_lines == (if height >= 2 {
                (height - 2) as usize
            } else {
                0usize
            }),
            final(self).view_metrics.content_height == old(self).lyrics@.len(),
            final(self).view_metrics.scroll_range == (if old(self).lyrics@.len()
                >= final(self).view_metrics.visible_lines {
                (old(self).lyrics@.len() - final(self).view_metrics.visible_lines) as int
            } else {
                0int
            }),
            *final(self) == (LyricState { view_metrics: final(self).view_metrics, ..*old(self) }),
    {
        let visible_lines: usize = if height >= 2 {
            (height - 2) as usize
        } else {
            0
        };
        let content_height = self.lyrics.len();
        let scroll_range = if content_height >= visible_lines {
            content_height - visible_lines
        } else {
            0
        };
        self.view_metrics = ViewMetrics { visible_lines, content_height, scroll_range };
    }

    /// The index of the line whose interval contains the current playback
    /// time: the first such line, or nothing when none matches.
    pub fn find_current_line(&self) -> (r: Option<usize>)
        ensures
            (match r {
                Some(i) => first_active(self.lyrics@, self.play_time.current_time) == Some(
                    i as int,
                ),
                None => first_active(self.lyrics@, self.play_time.current_time) is None,
            }),
    {
        let t = self.play_time.current_time;
        let mut i: usize = 0;
        while i < self.lyrics.len()
            invariant
                t == self.play_time.current_time,
                0 <= i <= self.lyrics@.len(),
                forall|j: int| 0 <= j < i ==> !line_active(#[trigger] self.lyrics@[j], t),
            decreases self.lyrics@.len() - i,
        {
            let line = &self.lyrics[i];
            if line.timestamp_start <= t && t < line.timestamp_end {
                proof {
                    lemma_first_active_at(self.lyrics@, t, i as int);
                }
                return Some(i);
            }
            i = i + 1;
        }
        proof {
            lemma_first_active_at(self.lyrics@, t, self.lyrics@.len() as int);
        }
        None
    }

    /// Scrolls the view so the current line sits mid-viewport, bounded by
    /// the scroll range; without a current line the view stays put.
    pub fn update_scroll(&mut self)
        ensures
            (match first_active(old(self).lyrics@, old(self).play_time.current_time) {
                Some(pos) => {
                    let half = old(self).view_metrics.visible_lines / 2;
                    let off = if pos >= half {
                        pos - half
                    } else {
                        0int
                    };
                    final(self).target_scroll == (if off <= old(self).view_metrics.scroll_range {
                        off
                    } else {
                        old(self).view_metrics.scroll_range as int
                    })
                },
                None => final(self).target_scroll == old(self).target_scroll,
            }),
            *final(self) == (LyricState { target_scroll: final(self).target_scroll, ..*old(self) }),
    {
        match self.find_current_line() {
            Option::Some(pos) => {
                let half = self.view_metrics.visible_lines / 2;
                let off = if pos >= half {
                    pos - half
                } else {
                    0
                };
                let target = if off <= self.view_metrics.scroll_range {
                    off
                } else {
                    self.view_metrics.scroll_range
                };
                self.target_scroll = target;
            },
            Option::None => {},
        }
    }

    /// Recomputes the progress percentage from the playback estimate and
    /// the song duration.
    pub fn update_progress(&mut self)
        ensures
            final(self).progress == progress_percent_spec(
                old(self).play_time.current_time,
                old(self).song.duration,
            ),
            *final(self) == (LyricState { progress: final(self).progress, ..*old(self) }),
    {
        let p = progress_percent(self.play_time.current_time, self.song.duration);
        self.progress = p;
    }

    /// Notes a successful tick: the error display and the retry counter
    /// are cleared.
    pub fn note_success(&mut self)
        ensures
            final(self).error_message is None,
            final(self).retry_counter == 0,
            *final(self) == (LyricState {
                error_message: None,
                retry_counter: 0,
                ..*old(self)
            }),
    {
        self.error_message = None;
        self.retry_counter = 0;
    }

    /// Notes a failed tick.  While fewer than five consecutive retries
    /// have run, the counter advances, the numbered error message is
    /// displayed, and the caller is told to pause two seconds and retry.
    /// After the fifth failure nothing changes and no retry is requested,
    /// until the song changes.
    pub fn register_error(&mut self, e: &LyricsError) -> (r: Option<u64>)
        ensures
            old(self).retry_counter < MAX_UI_RETRIES ==> {
                &&& r == Some(UI_RETRY_PAUSE_SECS)
                &&& final(self).retry_counter == old(self).retry_counter + 1
                &&& final(self).error_message matches Some(m) && m@ == retry_message(
                    *e,
                    (old(self).retry_counter + 1) as u32,
                )
                &&& *final(self) == (LyricState {
                    error_message: final(self).error_message,
                    retry_counter: final(self).retry_counter,
                    ..*old(self)
                })
            },
            old(self).retry_counter >= MAX_UI_RETRIES ==> r is None && *final(self) == *old(self),
    {
        if self.retry_counter < MAX_UI_RETRIES {
            self.retry_counter = self.retry_counter + 1;
            let digit: &str = if self.retry_counter == 1 {
                "1"
            } else if self.retry_counter == 2 {
                "2"
            } else if self.retry_counter == 3 {
                "3"
            } else if self.retry_counter == 4 {
                "4"
            } else {
                "5"
            };
            let mut msg = "Error: ".to_owned();
            msg.append(e.message().as_str());
            msg.append(" (Retry ");
            msg.append(digit);
            msg.append("/5)");
            proof {
                assert(msg@ == retry_message(*e, (old(self).retry_counter + 1) as u32));
            }
            self.error_message = Some(msg);
            Some(UI_RETRY_PAUSE_SECS)
        } else {
            None
        }
    }
}

impl Default for LyricState {
    /// A fresh screen.
    fn default() -> (r: LyricState)
        ensures
            r.is_initial(),
    {
        LyricState {
            song: SongInfo::default(),
            play_time: PlayTime { current_time: 0, last_valid_pos: None },
            lyrics: Vec::new(),
            target_scroll: 0,
            view_metrics: ViewMetrics::default(),
            error_message: None,
            retry_counter: 0,
            progress: 0,
        }
    }
}

// ---------------------------------------------------------------------------
// Search screen state
// ---------------------------------------------------------------------------

/// State of the search screen: the observed song, the aggregated candidate
/// list, an error display, and the flag asking the lyric screen to reload
/// after a user-driven download.
#[derive(Debug)]
pub struct SearchState {
    pub song: SongInfo,
    pub list: Vec<LyricsItem>,
    pub error_message: Option<String>,
    pub reset_lyrics_cache: bool,
}

impl SearchState {
    /// The state of a fresh search screen.
    pub open spec fn is_initial(&self) -> bool {
        &&& self.song.track_id is None
        &&& self.song.title@.len() == 0
        &&& self.song.artist@.len() == 0
        &&& self.song.album@.len() == 0
        &&& self.song.duration == 0
        &&& self.list@.len() == 0
        &&& self.error_message is None
        &&& self.reset_lyrics_cache == false
    }

    /// Clears everything, as when the observed song changes or vanishes.
    pub fn reset(&mut self)
        ensures
            final(self).is_initial(),
    {
        *self = SearchState::default();
    }

    /// Takes the reload request: true exactly once after a download
    /// succeeded, clearing the flag.
    pub fn lyrics_reset(&mut self) -> (r: bool)
        ensures
            r == old(self).reset_lyrics_cache,
            *final(self) == (SearchState { reset_lyrics_cache: false, ..*old(self) }),
    {
        if self.reset_lyrics_cache {
            self.reset_lyrics_cache = false;
            true
        } else {
            false
        }
    }

    /// The candidate at a selection index, if the index is in range.
    pub fn selected(&self, index: usize) -> (r: Option<&LyricsItem>)
        ensures
            (match r {
                Some(item) => index < self.list@.len() && *item == self.list@[index as int],
                None => index >= self.list@.len(),
            }),
    {
        if index < self.list.len() {
            Some(&self.list[index])
        } else {
            None
        }
    }
}

impl Default for SearchState {
    /// A fresh search screen.
    fn default() -> (r: SearchState)
        ensures
            r.is_initial(),
    {
        SearchState {
            song: SongInfo::default(),
            list: Vec::new(),
            error_message: None,
            reset_lyrics_cache: false,
        }
    }
}

} // verus!
