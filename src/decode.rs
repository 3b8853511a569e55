use vstd::prelude::*;

verus! {

/// Where the decode loop stands.
#[derive(Clone, Copy, Debug, PartialEq, Eq, Structural)]
pub enum Phase {
    /// Not enough bytes buffered yet to start.
    WaitingForThreshold,
    /// Reading and decoding packets.
    Decoding,
    /// The end of the stream was reached; the loop hands off what is left.
    Draining,
    /// Every packet of the stream was read: decoding is complete.
    Complete,
    /// Stopped by an unrecoverable error, or because nobody takes the chunks.
    Aborted,
}

/// What a request for the next packet brought back.
#[derive(Clone, Copy, Debug, PartialEq, Eq, Structural)]
pub enum PacketEvent {
    /// A packet of the track with this id.
    Packet(u32),
    /// The reader has no bytes yet and the producer may still append some.
    NotYet,
    /// The reader reported the end of the stream.
    EndOfStream,
    /// Any other I/O or format error.
    Failed,
}

/// What the loop does after a request for the next packet.
#[derive(Clone, Copy, Debug, PartialEq, Eq, Structural)]
pub enum PacketAction {
    /// Wait for the buffering threshold before reading.
    Wait,
    /// Decode the packet.
    Decode,
    /// Drop the packet: it belongs to another track.
    Discard,
    /// Sleep briefly and ask again, with no cursor moved.
    Retry,
    /// Stop: the whole stream was read.
    Finish,
    /// Stop on a fatal error.
    Abort,
}

/// What decoding one packet gave.
pub enum DecodeEvent<T> {
    /// The packet's interleaved samples.
    Decoded(Vec<T>),
    /// The packet holds malformed data.
    Malformed,
    /// An I/O error while decoding the packet.
    IoFailure,
    /// An unrecoverable decoder error.
    Failed,
}

/// What the loop does with a decoded packet.
pub enum DecodeAction<T> {
    /// Hand these samples to the playback queue as one chunk.
    Deliver(Vec<T>),
    /// Skip the packet and go on with the next.
    Skip,
    /// Stop on a fatal error.
    Abort,
}

/// A track of the probed stream: its id, and whether a decoder exists for
/// its codec.
#[derive(Clone, Copy, Debug, PartialEq, Eq, Structural)]
pub struct TrackInfo {
    pub id: u32,
    pub decodable: bool,
}

/// The id of the first decodable track.
pub open spec fn first_decodable(tracks: Seq<TrackInfo>) -> Option<u32>
    decreases tracks.len(),
{
    if tracks.len() == 0 {
        None
    } else if tracks[0].decodable {
        Some(tracks[0].id)
    } else {
        first_decodable(tracks.drop_first())
    }
}

/// Whether enough is buffered to start: the threshold is reached, or the
/// producer finished with less.
pub open spec fn ready_to_start(buffered: u64, threshold: u64, finished: bool) -> bool {
    buffered >= threshold || finished
}

/// The phase and action after a request for the next packet, in `phase`,
/// with `track` selected and the producer `finished` or not.
pub open spec fn packet_step(
    phase: Phase,
    track: Option<u32>,
    event: PacketEvent,
    finished: bool,
) -> (Phase, PacketAction) {
    match phase {
        Phase::WaitingForThreshold => (phase, PacketAction::Wait),
        Phase::Decoding => match event {
            PacketEvent::Packet(id) => if track == Some(id) {
                (phase, PacketAction::Decode)
            } else {
                (phase, PacketAction::Discard)
            },
            PacketEvent::NotYet => (phase, PacketAction::Retry),
            PacketEvent::EndOfStream => if finished {
                (Phase::Draining, PacketAction::Finish)
            } else {
                (phase, PacketAction::Retry)
            },
            PacketEvent::Failed => (Phase::Aborted, PacketAction::Abort),
        },
        Phase::Draining => (phase, PacketAction::Finish),
        Phase::Complete => (phase, PacketAction::Finish),
        Phase::Aborted => (phase, PacketAction::Abort),
    }
}

/// Whether a decode outcome is unrecoverable.
pub open spec fn is_fatal<T>(event: DecodeEvent<T>) -> bool {
    event is Failed
}

/// The phase after a decode outcome in `phase`.
pub open spec fn decode_phase<T>(phase: Phase, event: DecodeEvent<T>) -> Phase {
    if phase == Phase::Decoding && is_fatal(event) {
        Phase::Aborted
    } else {
        phase
    }
}

/// The action after a decode outcome in `phase`. Samples are delivered only
/// while decoding.
pub open spec fn decode_action<T>(phase: Phase, event: DecodeEvent<T>) -> DecodeAction<T> {
    if phase == Phase::Aborted {
        DecodeAction::Abort
    } else if phase != Phase::Decoding {
        DecodeAction::Skip
    } else {
        match event {
            DecodeEvent::Decoded(samples) => DecodeAction::Deliver(samples),
            DecodeEvent::Malformed => DecodeAction::Skip,
            DecodeEvent::IoFailure => DecodeAction::Skip,
            DecodeEvent::Failed => DecodeAction::Abort,
        }
    }
}

/// The view of a decode loop.
pub struct LoopView {
    pub phase: Phase,
    pub track: Option<u32>,
    pub threshold: u64,
}

/// The decisions of the decode loop: when to start, what to do with each
/// packet request and each decoded packet, and when decoding is complete.
/// The caller performs the reads, the decoding, the sleeps and the hand-off.
pub struct DecodeLoop {
    phase: Phase,
    track: Option<u32>,
    threshold: u64,
}

impl View for DecodeLoop {
    type V = LoopView;

    closed spec fn view(&self) -> LoopView {
        LoopView { phase: self.phase, track: self.track, threshold: self.threshold }
    }
}

/// The id of the first track that a decoder exists for.
pub fn select_track(tracks: &Vec<TrackInfo>) -> (r: Option<u32>)
    ensures
        r == first_decodable(tracks@),
{
    let mut i: usize = 0;
    proof {
        assert(tracks@.skip(0) =~= tracks@);
    }
    while i < tracks.len()
        invariant
            0 <= i <= tracks@.len(),
            first_decodable(tracks@) == first_decodable(tracks@.skip(i as int)),
        decreases tracks@.len() - i,
    {
        proof {
            assert(tracks@.skip(i as int).drop_first() =~= tracks@.skip(i + 1));
        }
        if tracks[i].decodable {
            return Some(tracks[i].id);
        }
        i = i + 1;
    }
    None
}

impl DecodeLoop {
    /// A loop that waits until `threshold` bytes are buffered, with no track
    /// selected yet.
    pub fn new(threshold: u64) -> (r: DecodeLoop)
        ensures
            r@ == (LoopView { phase: Phase::WaitingForThreshold, track: None, threshold }),
    {
        DecodeLoop { phase: Phase::WaitingForThreshold, track: None, threshold }
    }

    /// The current phase.
    pub fn phase(&self) -> (r: Phase)
        ensures
            r == self@.phase,
    {
        self.phase
    }

    /// The selected track, if any.
    pub fn track(&self) -> (r: Option<u32>)
        ensures
            r == self@.track,
    {
        self.track
    }

    /// Whether every packet of the stream has been read and handed on.
    pub fn is_decode_complete(&self) -> (r: bool)
        ensures
            r == (self@.phase == Phase::Complete),
    {
        self.phase == Phase::Complete
    }

    /// Reports how many bytes are buffered and whether the producer has
    /// finished. While waiting, starts decoding once the threshold is
    /// reached or the producer finished. Returns whether the loop is past
    /// waiting.
    pub fn on_buffered(&mut self, buffered: u64, finished: bool) -> (r: bool)
        ensures
            final(self)@.track == old(self)@.track,
            final(self)@.threshold == old(self)@.threshold,
            final(self)@.phase == (if old(self)@.phase == Phase::WaitingForThreshold
                && ready_to_start(buffered, old(self)@.threshold, finished) {
                Phase::Decoding
            } else {
                old(self)@.phase
            }),
            r == (final(self)@.phase != Phase::WaitingForThreshold),
    {
        if self.phase == Phase::WaitingForThreshold && (buffered >= self.threshold || finished) {
            self.phase = Phase::Decoding;
        }
        self.phase != Phase::WaitingForThreshold
    }

    /// Selects the first decodable track of the probed stream. While
    /// decoding, a stream without one aborts the loop.
    pub fn choose_track(&mut self, tracks: &Vec<TrackInfo>) -> (r: Option<u32>)
        ensures
            r == first_decodable(tracks@),
            final(self)@.threshold == old(self)@.threshold,
            final(self)@.track == (if r is Some {
                r
            } else {
                old(self)@.track
            }),
            final(self)@.phase == (if r is None && old(self)@.phase == Phase::Decoding {
                Phase::Aborted
            } else {
                old(self)@.phase
            }),
    {
        let r = select_track(tracks);
        match r {
            Some(id) => {
                self.track = Some(id);
            },
            None => {
                if self.phase == Phase::Decoding {
                    self.phase = Phase::Aborted;
                }
            },
        }
        r
    }

    /// Decides what to do with the outcome of a request for the next packet.
    /// An end of stream counts only once the producer has finished; before
    /// that it is a reason to wait, like a reader with no bytes yet.
    pub fn on_packet(&mut self, event: PacketEvent, finished: bool) -> (r: PacketAction)
        ensures
            (final(self)@.phase, r) == packet_step(old(self)@.phase, old(self)@.track, event, finished),
            final(self)@.track == old(self)@.track,
            final(self)@.threshold == old(self)@.threshold,
    {
        match self.phase {
            Phase::WaitingForThreshold => PacketAction::Wait,
            Phase::Decoding => match event {
                PacketEvent::Packet(id) => {
                    let ours = match self.track {
                        Some(t) => t == id,
                        None => false,
                    };
                    if ours {
                        PacketAction::Decode
                    } else {
                        PacketAction::Discard
                    }
                },
                PacketEvent::NotYet => PacketAction::Retry,
                PacketEvent::EndOfStream => {
                    if finished {
                        self.phase = Phase::Draining;
                        PacketAction::Finish
                    } else {
                        PacketAction::Retry
                    }
                },
                PacketEvent::Failed => {
                    self.phase = Phase::Aborted;
                    PacketAction::Abort
                },
            },
            Phase::Draining => PacketAction::Finish,
            Phase::Complete => PacketAction::Finish,
            Phase::Aborted => PacketAction::Abort,
        }
    }

    /// Decides what to do with the outcome of decoding one packet: deliver
    /// its samples, skip a packet that could not be decoded, or stop on an
    /// unrecoverable error.
    pub fn on_decoded<T>(&mut self, event: DecodeEvent<T>) -> (r: DecodeAction<T>)
        ensures
            final(self)@.phase == decode_phase(old(self)@.phase, event),
            r == decode_action(old(self)@.phase, event),
            final(self)@.track == old(self)@.track,
            final(self)@.threshold == old(self)@.threshold,
    {
        if self.phase == Phase::Aborted {
            DecodeAction::Abort
        } else if self.phase != Phase::Decoding {
            DecodeAction::Skip
        } else {
            match event {
                DecodeEvent::Decoded(samples) => DecodeAction::Deliver(samples),
                DecodeEvent::Malformed => DecodeAction::Skip,
                DecodeEvent::IoFailure => DecodeAction::Skip,
                DecodeEvent::Failed => {
                    self.phase = Phase::Aborted;
                    DecodeAction::Abort
                },
            }
        }
    }

    /// The playback queue no longer takes chunks: a loop that is still
    /// decoding stops.
    pub fn on_send_failed(&mut self)
        ensures
            final(self)@.phase == (if old(self)@.phase == Phase::Decoding {
                Phase::Aborted
            } else {
                old(self)@.phase
            }),
            final(self)@.track == old(self)@.track,
            final(self)@.threshold == old(self)@.threshold,
    {
        if self.phase == Phase::Decoding {
            self.phase = Phase::Aborted;
        }
    }

    /// Ends draining: decoding is complete. Returns whether it is.
    pub fn complete(&mut self) -> (r: bool)
        ensures
            final(self)@.phase == (if old(self)@.phase == Phase::Draining {
                Phase::Complete
            } else {
                old(self)@.phase
            }),
            final(self)@.track == old(self)@.track,
            final(self)@.threshold == old(self)@.threshold,
            r == (final(self)@.phase == Phase::Complete),
    {
        if self.phase == Phase::Draining {
            self.phase = Phase::Complete;
        }
        self.phase == Phase::Complete
    }
}

/// One thing that happens to the decode loop.
pub enum LoopEvent<T> {
    /// A request for the next packet gave this, with the producer finished
    /// or not.
    Read(PacketEvent, bool),
    /// Decoding a packet gave this.
    Decode(DecodeEvent<T>),
    /// The playback queue stopped taking chunks.
    SendFailed,
    /// The loop ended draining.
    Completion,
}

/// The phase after `event` in `phase`, with `track` selected.
pub open spec fn loop_step<T>(phase: Phase, track: Option<u32>, event: LoopEvent<T>) -> Phase {
    match event {
        LoopEvent::Read(e, finished) => packet_step(phase, track, e, finished).0,
        LoopEvent::Decode(e) => decode_phase(phase, e),
        LoopEvent::SendFailed => if phase == Phase::Decoding {
            Phase::Aborted
        } else {
            phase
        },
        LoopEvent::Completion => if phase == Phase::Draining {
            Phase::Complete
        } else {
            phase
        },
    }
}

/// The phase after `events`, one after the other, from `phase`.
pub open spec fn run_phase<T>(phase: Phase, track: Option<u32>, events: Seq<LoopEvent<T>>) -> Phase
    decreases events.len(),
{
    if events.len() == 0 {
        phase
    } else {
        run_phase(loop_step(phase, track, events[0]), track, events.drop_first())
    }
}

/// Whether `event` reports the end of the stream after the producer finished.
pub open spec fn is_final_end<T>(event: LoopEvent<T>) -> bool {
    event == LoopEvent::<T>::Read(PacketEvent::EndOfStream, true)
}

/// Whether `event` stops the loop on an error or on a gone consumer.
pub open spec fn is_stop<T>(event: LoopEvent<T>) -> bool {
    match event {
        LoopEvent::Read(e, _) => e == PacketEvent::Failed,
        LoopEvent::Decode(e) => is_fatal(e),
        LoopEvent::SendFailed => true,
        LoopEvent::Completion => false,
    }
}

/// The samples of each successfully decoded packet, in the order decoded.
pub open spec fn decoded_chunks<T>(events: Seq<DecodeEvent<T>>) -> Seq<Seq<T>>
    decreases events.len(),
{
    if events.len() == 0 {
        Seq::empty()
    } else {
        let rest = decoded_chunks(events.drop_first());
        match events[0] {
            DecodeEvent::Decoded(v) => seq![v@] + rest,
            _ => rest,
        }
    }
}

/// The samples pending in the playback queue after the loop, from `phase`,
/// acted on `events` one after the other and pushed every chunk it
/// delivered, starting with `pending`.
pub open spec fn queued_after<T>(phase: Phase, pending: Seq<T>, events: Seq<DecodeEvent<T>>) -> Seq<
    T,
>
    decreases events.len(),
{
    if events.len() == 0 {
        pending
    } else {
        let next = match decode_action(phase, events[0]) {
            DecodeAction::Deliver(v) => pending + v@,
            _ => pending,
        };
        queued_after(decode_phase(phase, events[0]), next, events.drop_first())
    }
}

/// While decoding without an unrecoverable error, the chunks reach the
/// playback queue in the order their packets were decoded, each once; a
/// packet that failed to decode is skipped and decoding goes on.
pub proof fn lemma_chunks_queued_in_packet_order<T>(pending: Seq<T>, events: Seq<DecodeEvent<T>>)
    requires
        forall|i: int| 0 <= i < events.len() ==> !is_fatal(#[trigger] events[i]),
    ensures
        queued_after(Phase::Decoding, pending, events) == pending + decoded_chunks(events).flatten(),
    decreases events.len(),
{
    if events.len() == 0 {
        assert(decoded_chunks(events).flatten() =~= Seq::<T>::empty());
        assert(pending + Seq::<T>::empty() =~= pending);
    } else {
        let rest = events.drop_first();
        assert forall|i: int| 0 <= i < rest.len() implies !is_fatal(#[trigger] rest[i]) by {
            assert(rest[i] == events[i + 1]);
        }
        assert(!is_fatal(events[0]));
        match events[0] {
            DecodeEvent::Decoded(v) => {
                lemma_chunks_queued_in_packet_order(pending + v@, rest);
                let cs = seq![v@] + decoded_chunks(rest);
                assert(cs.drop_first() =~= decoded_chunks(rest));
                assert(cs.first() == v@);
                assert(pending + v@ + decoded_chunks(rest).flatten() =~= pending + cs.flatten());
            },
            _ => {
                lemma_chunks_queued_in_packet_order(pending, rest);
            },
        }
    }
}

/// Decoding is complete only after a request for the next packet reported
/// the end of the stream with the producer finished: whatever else happens,
/// a packet that failed to decode or a reader with no bytes yet included,
/// the loop does not complete.
pub proof fn lemma_complete_only_after_final_end<T>(
    phase: Phase,
    track: Option<u32>,
    events: Seq<LoopEvent<T>>,
)
    requires
        phase != Phase::Draining,
        phase != Phase::Complete,
        run_phase(phase, track, events) == Phase::Complete,
    ensures
        exists|i: int| 0 <= i < events.len() && is_final_end(#[trigger] events[i]),
    decreases events.len(),
{
    if events.len() == 0 {
    } else {
        let next = loop_step(phase, track, events[0]);
        if next == Phase::Draining || next == Phase::Complete {
            assert(is_final_end(events[0]));
        } else {
            lemma_complete_only_after_final_end(next, track, events.drop_first());
            let i = choose|i: int|
                0 <= i < events.drop_first().len() && is_final_end(#[trigger] events.drop_first()[i]);
            assert(events[i + 1] == events.drop_first()[i]);
        }
    }
}

/// A loop that is decoding stays decoding through any events that neither
/// stop it nor report the end of a finished stream: packets that fail to
/// decode are skipped, and an end of stream before the producer finished is
/// waited out.
pub proof fn lemma_decoding_continues<T>(track: Option<u32>, events: Seq<LoopEvent<T>>)
    requires
        forall|i: int|
            0 <= i < events.len() ==> !is_stop(#[trigger] events[i]) && !is_final_end(events[i]),
    ensures
        run_phase(Phase::Decoding, track, events) == Phase::Decoding,
    decreases events.len(),
{
    if events.len() > 0 {
        let rest = events.drop_first();
        assert(!is_stop(events[0]) && !is_final_end(events[0]));
        assert(loop_step(Phase::Decoding, track, events[0]) == Phase::Decoding);
        assert forall|i: int| 0 <= i < rest.len() implies !is_stop(#[trigger] rest[i])
            && !is_final_end(rest[i]) by {
            assert(rest[i] == events[i + 1]);
        }
        lemma_decoding_continues(track, rest);
    }
}

} // verus!
