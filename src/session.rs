use vstd::prelude::*;

verus! {

/// Sample rate used when the stream does not state one.
pub const DEFAULT_SAMPLE_RATE: u32 = 48000;

/// Channel count used when the stream does not state one: front left and
/// front right.
pub const DEFAULT_CHANNELS: u16 = 2;

/// The sample rate and channel count to open the output with: those the
/// stream states, or the defaults.
pub fn output_format(sample_rate: Option<u32>, channels: Option<u16>) -> (r: (u32, u16))
    ensures
        r.0 == (match sample_rate {
            Some(x) => x,
            None => DEFAULT_SAMPLE_RATE,
        }),
        r.1 == (match channels {
            Some(c) => c,
            None => DEFAULT_CHANNELS,
        }),
{
    let rate = match sample_rate {
        Some(x) => x,
        None => DEFAULT_SAMPLE_RATE,
    };
    let count = match channels {
        Some(c) => c,
        None => DEFAULT_CHANNELS,
    };
    (rate, count)
}

/// The three signals that end a session: the download is complete, the
/// decoding is complete, and playback has drained. Each goes from false to
/// true once and is never reset.
///
/// Its view is the triple (download, decode, drained).
pub struct CompletionState {
    download_complete: bool,
    decode_complete: bool,
    playback_drained: bool,
}

impl View for CompletionState {
    type V = (bool, bool, bool);

    closed spec fn view(&self) -> (bool, bool, bool) {
        (self.download_complete, self.decode_complete, self.playback_drained)
    }
}

impl CompletionState {
    /// A session that has completed nothing.
    pub fn new() -> (r: CompletionState)
        ensures
            r@ == (false, false, false),
    {
        CompletionState { download_complete: false, decode_complete: false, playback_drained: false }
    }

    /// The producer has received every byte, or failed and stopped.
    pub fn mark_download_complete(&mut self)
        ensures
            final(self)@ == (true, old(self)@.1, old(self)@.2),
    {
        self.download_complete = true;
    }

    /// The decode loop reached its complete phase.
    pub fn mark_decode_complete(&mut self)
        ensures
            final(self)@ == (old(self)@.0, true, old(self)@.2),
    {
        self.decode_complete = true;
    }

    /// Reports whether the playback queue was seen empty. Playback has
    /// drained once the queue is empty after decoding completed.
    pub fn observe_queue(&mut self, queue_empty: bool)
        ensures
            final(self)@ == (old(self)@.0, old(self)@.1, old(self)@.2 || (old(self)@.1
                && queue_empty)),
    {
        if self.decode_complete && queue_empty {
            self.playback_drained = true;
        }
    }

    /// Whether the download is complete.
    pub fn is_download_complete(&self) -> (r: bool)
        ensures
            r == self@.0,
    {
        self.download_complete
    }

    /// Whether the decoding is complete.
    pub fn is_decode_complete(&self) -> (r: bool)
        ensures
            r == self@.1,
    {
        self.decode_complete
    }

    /// Whether playback has drained.
    pub fn is_playback_drained(&self) -> (r: bool)
        ensures
            r == self@.2,
    {
        self.playback_drained
    }

    /// Whether the session may end: all three signals are raised.
    pub fn all_done(&self) -> (r: bool)
        ensures
            r == (self@.0 && self@.1 && self@.2),
    {
        self.download_complete && self.decode_complete && self.playback_drained
    }
}

} // verus!
