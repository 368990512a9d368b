//! The order in which a file is played: batch after batch as the file is read, and at its
//! end what the encoders still held, video before audio. Each sample goes out at its time.
use vstd::prelude::*;
use crate::clock;
use crate::clock::{Delay, MediaClock};
use crate::media::{EncodedBatch, EncodedSample, Track};

verus! {

/// How far a file was read.
#[derive(Debug, Clone, Copy, PartialEq, Eq, Structural)]
pub enum Phase {
    /// There may be more packets.
    Reading,
    /// The packets have ended; the encoders may hold samples.
    Draining,
    /// Nothing more comes.
    Drained,
}

/// What is to be done next.
#[derive(Debug)]
pub enum PumpStep {
    /// Read the next batch from the file.
    ReadBatch,
    /// Take what the encoders still hold.
    Drain,
    /// Wait, if there is something to wait, and then send this sample on this track.
    Send(Option<Delay>, Track, EncodedSample),
    /// Everything was sent.
    Finished,
}

/// Samples, with the track on which they are sent.
pub open spec fn on_track(track: Track, samples: Seq<EncodedSample>) -> Seq<(Track, EncodedSample)> {
    samples.map_values(|s: EncodedSample| (track, s))
}

/// Plays one file.
pub struct MediaPump {
    phase: Phase,
    clock: MediaClock,
    /// What waits to be sent, the next sample last.
    stack: Vec<(Track, EncodedSample)>,
    taken: Ghost<Seq<(Track, EncodedSample)>>,
    handed: Ghost<Seq<(Track, EncodedSample)>>,
}

fn stack_samples(stack: &mut Vec<(Track, EncodedSample)>, track: Track, samples: Vec<EncodedSample>)
    ensures
        final(stack)@.reverse() == on_track(track, samples@) + old(stack)@.reverse(),
{
    let mut samples = samples;
    let ghost all = samples@;
    let ghost before = stack@;
    while samples.len() > 0
        invariant
            samples@.len() <= all.len(),
            samples@ == all.take(samples@.len() as int),
            stack@.reverse() == on_track(track, all.skip(samples@.len() as int)) + before.reverse(),
        decreases samples@.len(),
    {
        let ghost n = samples@.len() as int;
        let ghost middle = stack@;
        let next = samples.pop();
        if let Some(sample) = next {
            stack.push((track, sample));
            proof {
                assert(samples@ =~= all.take(n - 1));
                assert(all.skip(n - 1) =~= seq![sample] + all.skip(n));
                assert(stack@.reverse() =~= seq![(track, sample)] + middle.reverse());
                assert(on_track(track, all.skip(n - 1)) =~= seq![(track, sample)] + on_track(
                    track,
                    all.skip(n),
                ));
                assert(stack@.reverse() =~= on_track(track, all.skip(n - 1)) + before.reverse());
            }
        }
    }
    proof {
        assert(all.skip(0) =~= all);
    }
}

impl MediaPump {
    pub closed spec fn phase(&self) -> Phase {
        self.phase
    }

    /// The clock that paces the samples.
    pub closed spec fn clock(&self) -> MediaClock {
        self.clock
    }

    /// What waits to be sent, the next sample first.
    pub closed spec fn waiting(&self) -> Seq<(Track, EncodedSample)> {
        self.stack@.reverse()
    }

    /// What was taken in so far, in order.
    pub closed spec fn taken(&self) -> Seq<(Track, EncodedSample)> {
        self.taken@
    }

    /// What was handed out to be sent so far, in order.
    pub closed spec fn handed(&self) -> Seq<(Track, EncodedSample)> {
        self.handed@
    }

    /// Nothing is lost, doubled or reordered: what was taken in is what was handed out and
    /// then what waits.
    pub open spec fn wf(&self) -> bool {
        self.taken() == self.handed() + self.waiting()
    }

    /// A pump for a file of which nothing was read.
    pub fn new() -> (p: MediaPump)
        ensures
            p.wf(),
            p.phase() == Phase::Reading,
            p.clock().started_at() is None,
            p.waiting().len() == 0,
            p.taken().len() == 0,
            p.handed().len() == 0,
    {
        let p = MediaPump {
            phase: Phase::Reading,
            clock: MediaClock::new(),
            stack: Vec::new(),
            taken: Ghost(Seq::empty()),
            handed: Ghost(Seq::empty()),
        };
        assert(p.wf());
        p
    }

    /// What is to be done next: send what waits, then read on, and at the end drain the
    /// encoders. A sample is sent after what the clock says is to be waited for it. When
    /// everything is done, everything that was taken in was handed out.
    pub fn next_step(&mut self) -> (step: PumpStep)
        requires
            old(self).wf(),
        ensures
            final(self).wf(),
            final(self).phase() == old(self).phase(),
            final(self).taken() == old(self).taken(),
            step is Send <==> old(self).waiting().len() > 0,
            match step {
                PumpStep::Send(delay, track, sample) => {
                    &&& (track, sample) == old(self).waiting()[0]
                    &&& final(self).waiting() == old(self).waiting().drop_first()
                    &&& final(self).handed() == old(self).handed().push((track, sample))
                    &&& final(self).clock().origin() == old(self).clock().origin()
                    &&& exists|now: u128|
                        #[trigger] clock::is_step(
                            old(self).clock().started_at(),
                            sample.pts_us,
                            now,
                            final(self).clock().started_at(),
                            delay,
                        )
                },
                PumpStep::ReadBatch => old(self).phase() == Phase::Reading,
                PumpStep::Drain => old(self).phase() == Phase::Draining,
                PumpStep::Finished => old(self).phase() == Phase::Drained,
            },
            !(step is Send) ==> {
                &&& final(self).clock() == old(self).clock()
                &&& final(self).waiting() == old(self).waiting()
                &&& final(self).handed() == old(self).handed()
                &&& final(self).handed() == final(self).taken()
            },
    {
        let ghost before = self.stack@;
        match self.stack.pop() {
            Some((track, sample)) => {
                let delay = self.clock.wait_until(sample.pts_us);
                proof {
                    self.handed@ = self.handed@.push((track, sample));
                    assert(before.reverse()[0] == before.last());
                    assert(self.stack@.reverse() =~= before.reverse().drop_first());
                    assert(self.taken() =~= self.handed() + self.waiting());
                }
                PumpStep::Send(delay, track, sample)
            },
            None => {
                proof {
                    assert(self.stack@ =~= before);
                    assert(self.handed() + self.waiting() =~= self.handed());
                }
                match self.phase {
                    Phase::Reading => PumpStep::ReadBatch,
                    Phase::Draining => PumpStep::Drain,
                    Phase::Drained => PumpStep::Finished,
                }
            },
        }
    }

    /// Takes in what was read: a batch, or the end of the packets.
    pub fn batch(&mut self, batch: Option<EncodedBatch>)
        requires
            old(self).wf(),
            old(self).phase() == Phase::Reading,
            old(self).waiting().len() == 0,
        ensures
            final(self).wf(),
            final(self).clock() == old(self).clock(),
            final(self).handed() == old(self).handed(),
            match batch {
                Some(b) => {
                    &&& final(self).phase() == Phase::Reading
                    &&& final(self).waiting() == on_track(b.track(), b.samples())
                    &&& final(self).taken() == old(self).taken() + on_track(
                        b.track(),
                        b.samples(),
                    )
                },
                None => {
                    &&& final(self).phase() == Phase::Draining
                    &&& final(self).waiting().len() == 0
                    &&& final(self).taken() == old(self).taken()
                },
            },
    {
        let ghost before = self.stack@;
        match batch {
            Some(EncodedBatch::Video(samples)) => {
                proof {
                    self.taken@ = self.taken@ + on_track(Track::Video, samples@);
                }
                let ghost all = samples@;
                stack_samples(&mut self.stack, Track::Video, samples);
                proof {
                    assert(self.stack@.reverse() =~= on_track(Track::Video, all));
                    assert(self.taken() =~= self.handed() + self.waiting());
                }
            },
            Some(EncodedBatch::Audio(samples)) => {
                proof {
                    self.taken@ = self.taken@ + on_track(Track::Audio, samples@);
                }
                let ghost all = samples@;
                stack_samples(&mut self.stack, Track::Audio, samples);
                proof {
                    assert(self.stack@.reverse() =~= on_track(Track::Audio, all));
                    assert(self.taken() =~= self.handed() + self.waiting());
                }
            },
            None => {
                self.phase = Phase::Draining;
            },
        }
    }

    /// Takes in what the encoders still held.
    pub fn drained(&mut self, video: Vec<EncodedSample>, audio: Vec<EncodedSample>)
        requires
            old(self).wf(),
            old(self).phase() == Phase::Draining,
            old(self).waiting().len() == 0,
        ensures
            final(self).wf(),
            final(self).phase() == Phase::Drained,
            final(self).clock() == old(self).clock(),
            final(self).handed() == old(self).handed(),
            final(self).waiting() == on_track(Track::Video, video@) + on_track(
                Track::Audio,
                audio@,
            ),
            final(self).taken() == old(self).taken() + on_track(Track::Video, video@) + on_track(
                Track::Audio,
                audio@,
            ),
    {
        let ghost (v, a) = (video@, audio@);
        proof {
            self.taken@ = self.taken@ + on_track(Track::Video, v) + on_track(Track::Audio, a);
        }
        stack_samples(&mut self.stack, Track::Audio, audio);
        proof {
            assert(self.stack@.reverse() =~= on_track(Track::Audio, a));
        }
        stack_samples(&mut self.stack, Track::Video, video);
        self.phase = Phase::Drained;
        proof {
            assert(self.taken() =~= self.handed() + self.waiting());
        }
    }
}

/// Samples go on their track one by one, all of them, in their order.
pub proof fn samples_keep_their_order(track: Track, samples: Seq<EncodedSample>)
    ensures
        on_track(track, samples).len() == samples.len(),
        forall|i: int|
            0 <= i < samples.len() ==> #[trigger] on_track(track, samples)[i] == (
                track,
                samples[i],
            ),
{
}

/// At every moment, what was handed out is the first part of what was taken in, what waits is
/// the rest of it, and nothing else is there.
pub proof fn nothing_is_lost(p: MediaPump)
    requires
        p.wf(),
    ensures
        p.taken().len() == p.handed().len() + p.waiting().len(),
        forall|i: int|
            0 <= i < p.handed().len() ==> #[trigger] p.handed()[i] == p.taken()[i],
        forall|i: int|
            0 <= i < p.waiting().len() ==> #[trigger] p.waiting()[i] == p.taken()[p.handed().len()
                + i],
{
}

/// What a pump does, call by call. It starts with nothing. A batch that is taken in waits on its
/// track, whole and in order, and at the end of the packets come the samples that the encoders
/// still held, video before audio. What waits is handed out one by one, the first first, each
/// after what the clock says; only when nothing waits is more asked for, and it is finished only
/// when the encoders were drained.
pub proof fn a_pump_hands_out_what_it_takes_in()
    ensures
        forall|p: MediaPump| #[trigger]
            call_ensures(MediaPump::new, (), p) ==> p.wf() && p.phase() is Reading
                && p.taken().len() == 0 && p.handed().len() == 0 && p.waiting().len() == 0
                && p.clock().started_at() is None,
        forall|p: &mut MediaPump, b: EncodedBatch| #[trigger]
            call_ensures(MediaPump::batch, (p, Some(b)), ()) ==> {
                let (track, samples) = match b {
                    EncodedBatch::Video(samples) => (Track::Video, samples@),
                    EncodedBatch::Audio(samples) => (Track::Audio, samples@),
                };
                let after = *final(p);
                &&& after.phase() is Reading
                &&& after.handed() == p.handed()
                &&& after.waiting().len() == samples.len()
                &&& after.taken().len() == p.taken().len() + samples.len()
                &&& forall|i: int|
                    0 <= i < samples.len() ==> #[trigger] after.waiting()[i] == (track, samples[i])
            },
        forall|p: &mut MediaPump| #[trigger]
            call_ensures(MediaPump::batch, (p, None), ()) ==> final(p).phase() is Draining
                && final(p).waiting().len() == 0 && final(p).handed() == p.handed()
                && final(p).taken() == p.taken(),
        forall|p: &mut MediaPump, video: Vec<EncodedSample>, audio: Vec<EncodedSample>| #[trigger]
            call_ensures(MediaPump::drained, (p, video, audio), ()) ==> {
                let after = *final(p);
                &&& after.phase() is Drained
                &&& after.handed() == p.handed()
                &&& after.waiting().len() == video@.len() + audio@.len()
                &&& after.taken().len() == p.taken().len() + video@.len() + audio@.len()
                &&& forall|i: int|
                    0 <= i < video@.len() ==> #[trigger] after.waiting()[i] == (
                        Track::Video,
                        video@[i],
                    )
                &&& forall|i: int|
                    video@.len() <= i < video@.len() + audio@.len()
                        ==> #[trigger] after.waiting()[i] == (
                        Track::Audio,
                        audio@[i - video@.len()],
                    )
            },
        forall|p: &mut MediaPump, step: PumpStep| #[trigger]
            call_ensures(MediaPump::next_step, (p,), step) ==> {
                let after = *final(p);
                &&& after.taken() == p.taken() && after.phase() == p.phase()
                &&& p.waiting().len() > 0 ==> (step matches PumpStep::Send(_, track, sample) && (
                    track,
                    sample,
                ) == p.waiting()[0] && after.handed() == p.handed().push((track, sample))
                    && after.waiting() == p.waiting().skip(1))
                &&& step matches PumpStep::Send(delay, _, sample) ==> {
                    let timed = sample.pts_us is Some && sample.pts_us->Some_0 > 0;
                    &&& exists|now: u128| #[trigger]
                        clock::is_step(
                            p.clock().started_at(),
                            sample.pts_us,
                            now,
                            after.clock().started_at(),
                            delay,
                        )
                    &&& !timed ==> delay is None && after.clock().started_at()
                        == p.clock().started_at()
                    &&& timed && p.clock().started_at() is None ==> (delay matches Some(d)
                        && d.secs * 1_000_000_000 + d.nanos == sample.pts_us->Some_0 * 1000)
                    &&& p.clock().started_at() is Some ==> after.clock().started_at()
                        == p.clock().started_at()
                }
                &&& p.waiting().len() == 0 ==> (match p.phase() {
                    Phase::Reading => step is ReadBatch,
                    Phase::Draining => step is Drain,
                    Phase::Drained => step is Finished,
                }) && after.handed() == p.handed() && after.waiting().len() == 0
            },
{
    assert forall|p: &mut MediaPump, step: PumpStep| #[trigger]
        call_ensures(MediaPump::next_step, (p,), step) && p.waiting().len() > 0 implies p.waiting().skip(
        1,
    ) == final(p).waiting() by {
        assert(p.waiting().drop_first() =~= p.waiting().skip(1));
    }
}

} // verus!
