use vstd::prelude::*;

verus! {

/// Failure taxonomy of the whole engine, as a closed enum.
///
/// Transport failures are retryable; decode and parse failures are not.
/// `NoLyricsFound` means no provider produced a text, or no candidate
/// survived best-match filtering — distinct from a transport failure.
#[derive(Debug, Clone, Copy, PartialEq, Eq, Structural)]
pub enum LyricsError {
    /// No eligible media player is reachable on the host.
    NoPlayerFound,
    /// No lyric text could be located, or a search produced no usable candidate.
    NoLyricsFound,
    /// Network or transport failure; the request may be retried.
    TransportError,
    /// A response payload was malformed or could not be decoded as text.
    LyricsDecodeError,
    /// A timestamp tag of a timed-text document could not be parsed.
    InvalidTimeFormat,
    /// A timed-text document yielded no timed lines at all.
    EmptyLyrics,
    /// A cache filesystem operation failed.
    IoError,
}

impl LyricsError {
    /// The user-visible description of this error.
    pub open spec fn message_spec(self) -> Seq<char> {
        match self {
            LyricsError::NoPlayerFound => "No active media player found"@,
            LyricsError::NoLyricsFound => "No lyrics found"@,
            LyricsError::TransportError => "Network request failed"@,
            LyricsError::LyricsDecodeError => "Lyrics decode failed"@,
            LyricsError::InvalidTimeFormat => "Invalid time format"@,
            LyricsError::EmptyLyrics => "Empty lyrics content"@,
            LyricsError::IoError => "Cache I/O failed"@,
        }
    }

    /// Renders the error for display.
    pub fn message(&self) -> (r: String)
        ensures
            r@ == self.message_spec(),
    {
        match self {
            LyricsError::NoPlayerFound => "No active media player found".to_owned(),
            LyricsError::NoLyricsFound => "No lyrics found".to_owned(),
            LyricsError::TransportError => "Network request failed".to_owned(),
            LyricsError::LyricsDecodeError => "Lyrics decode failed".to_owned(),
            LyricsError::InvalidTimeFormat => "Invalid time format".to_owned(),
            LyricsError::EmptyLyrics => "Empty lyrics content".to_owned(),
            LyricsError::IoError => "Cache I/O failed".to_owned(),
        }
    }
}

} // verus!
