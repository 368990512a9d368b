//! The dry run: a file is encoded to its end, and its samples are counted instead of sent.
use vstd::prelude::*;
use crate::media;
use crate::media::{EncodedBatch, EncodedSample, SampleTally, Track};
use crate::pump::Phase;

verus! {

/// What is to be done next.
#[derive(Debug)]
pub enum DryRunStep {
    /// Read the next batch from the file.
    ReadBatch,
    /// Take what the encoders still hold.
    Drain,
    /// Everything was counted; say this.
    Report(String),
}

/// Counts the samples of one file.
pub struct DryRun {
    phase: Phase,
    tally: SampleTally,
    counted: Ghost<Seq<EncodedBatch>>,
}

impl DryRun {
    pub closed spec fn phase(&self) -> Phase {
        self.phase
    }

    /// The numbers so far.
    pub closed spec fn tally(&self) -> SampleTally {
        self.tally
    }

    /// What was counted so far, in order. What the encoders still held comes last, video
    /// before audio.
    pub closed spec fn counted(&self) -> Seq<EncodedBatch> {
        self.counted@
    }

    /// The numbers are those of all samples that were counted.
    pub open spec fn wf(&self) -> bool {
        &&& self.tally().video == media::samples_on(self.counted(), Track::Video)
        &&& self.tally().audio == media::samples_on(self.counted(), Track::Audio)
    }

    /// A dry run of a file of which nothing was read.
    pub fn new() -> (d: DryRun)
        ensures
            d.wf(),
            d.phase() == Phase::Reading,
            d.counted().len() == 0,
    {
        DryRun { phase: Phase::Reading, tally: SampleTally::new(), counted: Ghost(Seq::empty()) }
    }

    /// What is to be done next: read on, at the end drain the encoders, and then say how many
    /// samples of each track there were.
    pub fn next_step(&self) -> (step: DryRunStep)
        requires
            self.wf(),
        ensures
            match self.phase() {
                Phase::Reading => step is ReadBatch,
                Phase::Draining => step is Drain,
                Phase::Drained => step matches DryRunStep::Report(s) && s@ == media::dry_run_text(
                    media::samples_on(self.counted(), Track::Video),
                    media::samples_on(self.counted(), Track::Audio),
                ),
            },
    {
        match self.phase {
            Phase::Reading => DryRunStep::ReadBatch,
            Phase::Draining => DryRunStep::Drain,
            Phase::Drained => DryRunStep::Report(self.tally.report()),
        }
    }

    /// Whether so many more samples of a track can be counted.
    pub fn has_room(&self, track: Track, more: usize) -> (r: bool)
        requires
            self.wf(),
        ensures
            r == (media::samples_on(self.counted(), track) + more <= usize::MAX),
    {
        match track {
            Track::Video => more <= usize::MAX - self.tally.video,
            Track::Audio => more <= usize::MAX - self.tally.audio,
        }
    }

    /// Takes in what was read: a batch, or the end of the packets.
    pub fn batch(&mut self, batch: Option<EncodedBatch>)
        requires
            old(self).wf(),
            old(self).phase() == Phase::Reading,
            batch matches Some(b) ==> media::samples_on(old(self).counted(), b.track())
                + b.samples().len() <= usize::MAX,
        ensures
            final(self).wf(),
            match batch {
                Some(b) => {
                    &&& final(self).phase() == Phase::Reading
                    &&& final(self).counted() == old(self).counted().push(b)
                },
                None => {
                    &&& final(self).phase() == Phase::Draining
                    &&& final(self).counted() == old(self).counted()
                },
            },
    {
        match batch {
            Some(batch) => self.count(batch),
            None => {
                self.phase = Phase::Draining;
            },
        }
    }

    /// Takes in what the encoders still held.
    pub fn drained(&mut self, video: Vec<EncodedSample>, audio: Vec<EncodedSample>)
        requires
            old(self).wf(),
            old(self).phase() == Phase::Draining,
            media::samples_on(old(self).counted(), Track::Video) + video@.len() <= usize::MAX,
            media::samples_on(old(self).counted(), Track::Audio) + audio@.len() <= usize::MAX,
        ensures
            final(self).wf(),
            final(self).phase() == Phase::Drained,
            final(self).counted() == old(self).counted().push(EncodedBatch::Video(video)).push(
                EncodedBatch::Audio(audio),
            ),
    {
        self.count(EncodedBatch::Video(video));
        self.count(EncodedBatch::Audio(audio));
        self.phase = Phase::Drained;
    }

    fn count(&mut self, batch: EncodedBatch)
        requires
            old(self).wf(),
            media::samples_on(old(self).counted(), batch.track()) + batch.samples().len()
                <= usize::MAX,
        ensures
            final(self).wf(),
            final(self).phase() == old(self).phase(),
            final(self).counted() == old(self).counted().push(batch),
            forall|track: Track|
                media::samples_on(final(self).counted(), track) == media::samples_on(
                    old(self).counted(),
                    track,
                ) + media::samples_in(batch, track),
    {
        self.tally.count(&batch);
        proof {
            let before = self.counted@;
            self.counted@ = before.push(batch);
            assert(self.counted@.drop_last() =~= before);
        }
    }
}

/// What a dry run does, call by call: it counts every batch, and at the end what the encoders
/// still held; then, and only then, it says the totals of everything that was counted.
pub proof fn a_dry_run_counts_everything()
    ensures
        forall|d: DryRun| #[trigger]
            call_ensures(DryRun::new, (), d) ==> d.wf() && d.phase() is Reading
                && d.counted().len() == 0,
        forall|d: &mut DryRun, b: EncodedBatch| #[trigger]
            call_ensures(DryRun::batch, (d, Some(b)), ()) ==> final(d).phase() is Reading
                && final(d).counted() == d.counted() + seq![b],
        forall|d: &mut DryRun| #[trigger]
            call_ensures(DryRun::batch, (d, None), ()) ==> final(d).phase() is Draining
                && final(d).counted() == d.counted(),
        forall|d: &mut DryRun, video: Vec<EncodedSample>, audio: Vec<EncodedSample>| #[trigger]
            call_ensures(DryRun::drained, (d, video, audio), ()) ==> final(d).phase() is Drained
                && final(d).counted() == d.counted() + seq![
                EncodedBatch::Video(video),
                EncodedBatch::Audio(audio),
            ],
        forall|d: DryRun, step: DryRunStep| #[trigger]
            call_ensures(DryRun::next_step, (&d,), step) ==> (match d.phase() {
                Phase::Reading => step is ReadBatch,
                Phase::Draining => step is Drain,
                Phase::Drained => step matches DryRunStep::Report(s) && s@
                    == "dry-run ok: encoded "@ + crate::text::numeral(
                    media::samples_on(d.counted(), Track::Video),
                    10,
                ) + " video samples, "@ + crate::text::numeral(
                    media::samples_on(d.counted(), Track::Audio),
                    10,
                ) + " audio samples"@,
            }),
        forall|d: DryRun, track: Track, more: usize, r: bool| #[trigger]
            call_ensures(DryRun::has_room, (&d, track, more), r) ==> r == (media::samples_on(
                d.counted(),
                track,
            ) + more <= usize::MAX),
{
    assert forall|d: &mut DryRun, b: EncodedBatch| #[trigger]
        call_ensures(DryRun::batch, (d, Some(b)), ()) implies final(d).counted() == d.counted()
        + seq![b] by {
        assert(d.counted().push(b) =~= d.counted() + seq![b]);
    }
    assert forall|d: &mut DryRun, video: Vec<EncodedSample>, audio: Vec<EncodedSample>| #[trigger]
        call_ensures(DryRun::drained, (d, video, audio), ()) implies final(d).counted()
        == d.counted() + seq![EncodedBatch::Video(video), EncodedBatch::Audio(audio)] by {
        assert(d.counted().push(EncodedBatch::Video(video)).push(EncodedBatch::Audio(audio))
            =~= d.counted() + seq![EncodedBatch::Video(video), EncodedBatch::Audio(audio)]);
    }
}

} // verus!
