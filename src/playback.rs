use vstd::prelude::*;

use std::collections::VecDeque;

verus! {

/// `n` copies of the silence value.
pub open spec fn silence_run<T>(silence: T, n: nat) -> Seq<T> {
    Seq::new(n, |i: int| silence)
}

/// The samples of each chunk.
pub open spec fn chunk_samples<T>(chunks: Seq<Vec<T>>) -> Seq<Seq<T>> {
    chunks.map_values(|c: Vec<T>| c@)
}

/// The samples still to play: the rest of the chunk being played from
/// `head` on, then every queued chunk in order.
pub open spec fn pending<T>(current: Seq<T>, head: int, chunks: Seq<Vec<T>>) -> Seq<T> {
    current.skip(head) + chunk_samples(chunks).flatten()
}

/// How many samples a callback with room for `room` samples takes when
/// `available` are pending.
pub open spec fn take_count(available: nat, room: nat) -> nat {
    if available < room {
        available
    } else {
        room
    }
}

/// What a callback with room for `room` samples writes when `samples` are
/// pending: as many of them as fit, in order, then silence.
pub open spec fn callback_output<T>(samples: Seq<T>, room: nat, silence: T) -> Seq<T> {
    let k = take_count(samples.len(), room);
    samples.take(k as int) + silence_run(silence, (room - k) as nat)
}

/// Everything that `count` callbacks, each with room for `room` samples,
/// write one after the other when `samples` are pending at the start.
pub open spec fn callback_outputs<T>(samples: Seq<T>, room: nat, count: nat, silence: T) -> Seq<T>
    decreases count,
{
    if count == 0 {
        Seq::empty()
    } else {
        let k = take_count(samples.len(), room);
        callback_output(samples, room, silence) + callback_outputs(
            samples.skip(k as int),
            room,
            (count - 1) as nat,
            silence,
        )
    }
}

/// Decoded chunks waiting for the audio callback, in the order they were
/// produced, with the chunk being played and how far it has been played.
///
/// Its view is the sequence of samples still to play.
pub struct PlaybackQueue<T> {
    chunks: VecDeque<Vec<T>>,
    current: Vec<T>,
    head: usize,
}

impl<T> View for PlaybackQueue<T> {
    type V = Seq<T>;

    closed spec fn view(&self) -> Seq<T> {
        pending(self.current@, self.head as int, self.chunks@)
    }
}

impl<T> PlaybackQueue<T> {
    /// The head lies within the chunk being played, and no queued chunk is
    /// empty.
    pub closed spec fn wf(&self) -> bool {
        &&& self.head <= self.current@.len()
        &&& forall|i: int| 0 <= i < self.chunks@.len() ==> self.chunks@[i]@.len() > 0
    }
}

impl<T: Copy> PlaybackQueue<T> {
    /// A queue with nothing to play.
    pub fn new() -> (r: PlaybackQueue<T>)
        ensures
            r.wf(),
            r@ == Seq::<T>::empty(),
    {
        let r = PlaybackQueue { chunks: VecDeque::new(), current: Vec::new(), head: 0 };
        proof {
            assert(chunk_samples(r.chunks@) =~= Seq::<Seq<T>>::empty());
            assert(r@ =~= Seq::<T>::empty());
        }
        r
    }

    /// Queues the samples of one decoded chunk behind all that are pending.
    pub fn push(&mut self, chunk: Vec<T>)
        requires
            old(self).wf(),
        ensures
            final(self).wf(),
            final(self)@ == old(self)@ + chunk@,
    {
        let ghost before = chunk_samples(self.chunks@);
        let ghost samples = chunk@;
        if chunk.len() > 0 {
            self.chunks.push_back(chunk);
            proof {
                assert(chunk_samples(self.chunks@) =~= before.push(samples));
                before.lemma_flatten_push(samples);
            }
        }
        proof {
            assert(self@ =~= old(self)@ + samples);
        }
    }

    /// Whether nothing is left to play.
    pub fn is_empty(&self) -> (r: bool)
        requires
            self.wf(),
        ensures
            r == (self@.len() == 0),
    {
        proof {
            if self.chunks@.len() > 0 {
                let s = chunk_samples(self.chunks@);
                assert(s[0] == self.chunks@[0]@);
                assert(s.flatten() == s[0] + s.drop_first().flatten());
            }
        }
        self.head == self.current.len() && self.chunks.len() == 0
    }

    /// Fills `out` for one audio callback without waiting: the pending
    /// samples in order, as many as fit, then `silence` for the rest. The
    /// part of a chunk that does not fit stays for the next call. Returns how
    /// many samples were taken from the queue.
    pub fn fill(&mut self, out: &mut [T], silence: T) -> (taken: usize)
        requires
            old(self).wf(),
        ensures
            final(self).wf(),
            taken == take_count(old(self)@.len(), old(out)@.len()),
            final(out)@ == callback_output(old(self)@, old(out)@.len(), silence),
            final(self)@ == old(self)@.skip(taken as int),
    {
        let ghost start = self@;
        let mut i: usize = 0;
        while i < out.len()
            invariant
                self.head <= self.current@.len(),
                forall|j: int| 0 <= j < self.chunks@.len() ==> self.chunks@[j]@.len() > 0,
                out@.len() == old(out)@.len(),
                i <= out@.len(),
                i <= start.len(),
                pending(self.current@, self.head as int, self.chunks@) == start.skip(i as int),
                forall|j: int| 0 <= j < i ==> out@[j] == start[j],
            ensures
                i == out@.len() || i == start.len(),
                i <= out@.len(),
                i <= start.len(),
                out@.len() == old(out)@.len(),
                forall|j: int| 0 <= j < i ==> out@[j] == start[j],
                pending(self.current@, self.head as int, self.chunks@) == start.skip(i as int),
                self.head <= self.current@.len(),
                forall|j: int| 0 <= j < self.chunks@.len() ==> self.chunks@[j]@.len() > 0,
            decreases out@.len() - i, self.chunks@.len(),
        {
            if self.head < self.current.len() {
                let ghost p = pending(self.current@, self.head as int, self.chunks@);
                proof {
                    assert(p[0] == self.current@[self.head as int]);
                    assert(p.len() > 0);
                    assert(start.skip(i as int)[0] == start[i as int]);
                }
                out[i] = self.current[self.head];
                self.head = self.head + 1;
                i = i + 1;
                proof {
                    assert(pending(self.current@, self.head as int, self.chunks@) =~= p.drop_first());
                    assert(start.skip(i as int) =~= start.skip(i - 1).drop_first());
                }
            } else {
                let ghost s = chunk_samples(self.chunks@);
                proof {
                    assert(self.current@.skip(self.head as int) =~= Seq::<T>::empty());
                    assert(pending(self.current@, self.head as int, self.chunks@) =~= s.flatten());
                }
                match self.chunks.pop_front() {
                    Some(c) => {
                        proof {
                            assert(s.flatten() == s[0] + s.drop_first().flatten());
                            assert(chunk_samples(self.chunks@) =~= s.drop_first());
                        }
                        self.current = c;
                        self.head = 0;
                        proof {
                            assert(pending(self.current@, 0, self.chunks@) =~= s.flatten());
                        }
                    },
                    None => {
                        proof {
                            assert(s =~= Seq::<Seq<T>>::empty());
                            assert(start.skip(i as int).len() == 0);
                        }
                        break;
                    },
                }
            }
        }
        let taken = i;
        while i < out.len()
            invariant
                out@.len() == old(out)@.len(),
                taken <= i <= out@.len(),
                forall|j: int| 0 <= j < taken ==> out@[j] == start[j],
                forall|j: int| taken <= j < i ==> out@[j] == silence,
            decreases out@.len() - i,
        {
            out[i] = silence;
            i = i + 1;
        }
        proof {
            assert(out@ =~= callback_output(start, old(out)@.len() as nat, silence));
        }
        taken
    }
}

/// Two runs of silence one after the other are one longer run.
pub proof fn lemma_silence_runs_join<T>(silence: T, a: nat, b: nat)
    ensures
        silence_run(silence, a) + silence_run(silence, b) == silence_run(silence, a + b),
{
    assert(silence_run(silence, a) + silence_run(silence, b) =~= silence_run(silence, a + b));
}

/// `count` callbacks of `room` samples each play the pending samples once
/// each, in order, with no sample lost or repeated at a chunk boundary, and
/// write silence once the samples run out.
pub proof fn lemma_callbacks_play_in_order<T>(samples: Seq<T>, room: nat, count: nat, silence: T)
    ensures
        callback_outputs(samples, room, count, silence) == samples.take(
            take_count(samples.len(), count * room) as int,
        ) + silence_run(silence, (count * room - take_count(samples.len(), count * room)) as nat),
    decreases count,
{
    let total = count * room;
    let m = take_count(samples.len(), total);
    if count == 0 {
        assert(total == 0);
        assert(samples.take(0) + silence_run(silence, 0) =~= Seq::<T>::empty());
    } else {
        let k = take_count(samples.len(), room);
        let rest = samples.skip(k as int);
        let rest_total = ((count - 1) as nat) * room;
        lemma_callbacks_play_in_order(rest, room, (count - 1) as nat, silence);
        assert(total == room + rest_total) by (nonlinear_arith)
            requires
                total == count * room,
                rest_total == (count - 1) * room,
                count > 0,
        ;
        let m2 = take_count(rest.len(), rest_total);
        if samples.len() >= room {
            assert(k == room);
            assert(m == k + m2);
            assert(silence_run(silence, 0) =~= Seq::<T>::empty());
            assert(samples.take(k as int) + rest.take(m2 as int) =~= samples.take(m as int));
        } else {
            assert(k == samples.len());
            assert(rest.len() == 0);
            assert(m2 == 0);
            assert(m == k);
            assert(rest.take(0) =~= Seq::<T>::empty());
            lemma_silence_runs_join(silence, (room - k) as nat, rest_total);
            assert(samples.take(k as int) =~= samples.take(m as int));
        }
    }
}

/// When the chunks queued in order hold no more samples than `count`
/// callbacks of `room` samples have room for, those callbacks play every
/// sample of every chunk exactly once, chunk after chunk, then silence.
pub proof fn lemma_callbacks_drain_queued_chunks<T>(
    chunks: Seq<Seq<T>>,
    room: nat,
    count: nat,
    silence: T,
)
    requires
        chunks.flatten().len() <= count * room,
    ensures
        callback_outputs(chunks.flatten(), room, count, silence) == chunks.flatten()
            + silence_run(silence, (count * room - chunks.flatten().len()) as nat),
{
    let samples = chunks.flatten();
    lemma_callbacks_play_in_order(samples, room, count, silence);
    assert(samples.take(samples.len() as int) =~= samples);
}

} // verus!
