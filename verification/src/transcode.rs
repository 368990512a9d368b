//! Transcoding: in which order a decoder, a filter and an encoder are served, and the
//! timestamps of the frames that go to the video encoder.
use vstd::prelude::*;
use crate::media::EncodedSample;

verus! {

// ---------------------------------------------------------------------------
// Timestamps of video frames
// ---------------------------------------------------------------------------

/// The timestamps of video frames, in units of the encoder's time base.
#[derive(Debug, Clone, Copy, PartialEq, Eq, Structural)]
pub struct VideoTimeline {
    /// The timestamp of the next frame, if it has none of its own.
    pub next_pts: i64,
    pub frame_duration: i64,
}

impl VideoTimeline {
    /// A timeline that starts at 0.
    pub fn new(frame_duration: i64) -> (t: VideoTimeline)
        ensures
            t.next_pts == 0,
            t.frame_duration == frame_duration,
    {
        VideoTimeline { next_pts: 0, frame_duration }
    }

    /// The timestamp that a frame gets: its own, or the one that follows the last frame.
    pub open spec fn assigned(self, own: Option<i64>) -> i64 {
        match own {
            Some(pts) => pts,
            None => self.next_pts,
        }
    }

    /// The timeline after a frame.
    pub open spec fn after(self, own: Option<i64>) -> VideoTimeline {
        VideoTimeline {
            next_pts: (self.assigned(own) + self.frame_duration) as i64,
            frame_duration: self.frame_duration,
        }
    }

    /// Whether the timestamp after a frame can be represented.
    pub open spec fn fits(self, own: Option<i64>) -> bool {
        i64::MIN <= self.assigned(own) + self.frame_duration <= i64::MAX
    }

    /// Whether the timestamp after a frame can be represented.
    pub fn has_room(&self, own: Option<i64>) -> (r: bool)
        ensures
            r == self.fits(own),
            r == (i64::MIN <= (match own {
                Some(pts) => pts,
                None => self.next_pts,
            }) + self.frame_duration <= i64::MAX),
    {
        let pts: i64 = match own {
            Some(pts) => pts,
            None => self.next_pts,
        };
        pts.checked_add(self.frame_duration).is_some()
    }

    /// Gives a frame its timestamp.
    pub fn assign(&mut self, own: Option<i64>) -> (pts: i64)
        requires
            old(self).fits(own),
        ensures
            pts == old(self).assigned(own),
            *final(self) == old(self).after(own),
            pts == (match own {
                Some(pts) => pts,
                None => old(self).next_pts,
            }),
            final(self).next_pts == pts + final(self).frame_duration,
            final(self).frame_duration == old(self).frame_duration,
    {
        let pts: i64 = match own {
            Some(pts) => pts,
            None => self.next_pts,
        };
        self.next_pts = pts + self.frame_duration;
        pts
    }
}

/// A frame keeps a timestamp of its own, whatever came before it, and a frame without one
/// comes one frame after the frame before it.
pub proof fn frames_keep_their_timestamps(t: VideoTimeline, own: Option<i64>, later: Option<i64>)
    requires
        t.fits(own),
    ensures
        own matches Some(pts) ==> t.assigned(own) == pts,
        later matches Some(pts) ==> t.after(own).assigned(later) == pts,
        later is None ==> t.after(own).assigned(later) == t.assigned(own) + t.frame_duration,
        t.after(own).frame_duration == t.frame_duration,
{
}

/// The timeline after `n` frames that have no timestamps of their own.
pub open spec fn after_untimed(t: VideoTimeline, n: nat) -> VideoTimeline
    decreases n,
{
    if n == 0 {
        t
    } else {
        after_untimed(t, (n - 1) as nat).after(None)
    }
}

/// Frames without timestamps are one frame apart.
pub proof fn untimed_frames_are_even(t: VideoTimeline, n: nat)
    requires
        t.frame_duration >= 0,
        t.next_pts + n * t.frame_duration <= i64::MAX,
    ensures
        after_untimed(t, n).assigned(None) == t.next_pts + n * t.frame_duration,
        after_untimed(t, n).frame_duration == t.frame_duration,
    decreases n,
{
    let d = t.frame_duration as int;
    if n == 0 {
        assert(n * d == 0) by (nonlinear_arith)
            requires
                n == 0,
        ;
    } else {
        let m = (n - 1) as nat;
        assert(n * d == m * d + d && m * d >= 0) by (nonlinear_arith)
            requires
                n == m + 1,
                d >= 0,
        ;
        untimed_frames_are_even(t, m);
    }
}

// ---------------------------------------------------------------------------
// The order of the work
// ---------------------------------------------------------------------------

/// What is to be done next.
#[derive(Debug, Clone, Copy, PartialEq, Eq, Structural)]
pub enum Stage {
    /// Take a frame from the decoder.
    ReceiveFrame,
    /// Hand the frame to the filter.
    FilterFrame,
    /// Take a frame from the filter.
    ReceiveFiltered,
    /// Hand the frame to the encoder.
    EncodeFrame,
    /// Take a packet from the encoder.
    ReceivePacket,
    /// Tell the filter that no more frames come.
    FlushFilter,
    /// Tell the encoder that no more frames come.
    FlushEncoder,
    /// All samples are there.
    Finished,
}

/// What came of it.
#[derive(Debug)]
pub enum PipelineEvent {
    /// The decoder gave a frame, or had none.
    Frame(bool),
    /// The filter gave a frame, or had none.
    Filtered(bool),
    /// The encoder gave a packet, which makes this sample, or had none.
    Packet(Option<EncodedSample>),
    /// What was to be handed over or flushed, was.
    Done,
}

/// Where a run stands.
#[derive(Debug, Clone, Copy, PartialEq, Eq, Structural)]
pub struct PipelineState {
    pub stage: Stage,
    /// There is a filter between decoder and encoder.
    pub filters: bool,
    /// The input has ended: what is left in filter and encoder is to be taken out.
    pub ending: bool,
    pub filter_flushed: bool,
    pub encoder_flushed: bool,
}

impl PipelineState {
    /// The start of a run.
    pub open spec fn start(filters: bool, ending: bool) -> PipelineState {
        PipelineState {
            stage: Stage::ReceiveFrame,
            filters,
            ending,
            filter_flushed: false,
            encoder_flushed: false,
        }
    }

    /// Filter and encoder are flushed in this order and only when the input has ended, the
    /// filter is served only if there is one, and a run that is finished has flushed what it
    /// had to.
    pub open spec fn wf(self) -> bool {
        &&& self.filter_flushed ==> self.ending && self.filters
        &&& self.encoder_flushed ==> self.ending && (self.filters ==> self.filter_flushed)
        &&& (self.stage is FilterFrame || self.stage is ReceiveFiltered || self.stage
            is FlushFilter) ==> self.filters
        &&& (self.stage is ReceiveFrame || self.stage is FilterFrame || self.stage
            is FlushFilter) ==> !self.filter_flushed && !self.encoder_flushed
        &&& (self.stage is ReceiveFiltered || self.stage is EncodeFrame || self.stage
            is FlushEncoder) ==> !self.encoder_flushed
        &&& self.stage is FlushFilter ==> self.ending
        &&& self.stage is FlushEncoder ==> self.ending && (self.filters ==> self.filter_flushed)
        &&& self.stage is Finished ==> self.encoder_flushed == self.ending
    }

    /// The event answers what was to be done.
    pub open spec fn expects(self, event: PipelineEvent) -> bool {
        match self.stage {
            Stage::ReceiveFrame => event is Frame,
            Stage::ReceiveFiltered => event is Filtered,
            Stage::ReceivePacket => event is Packet,
            Stage::FilterFrame => event is Done,
            Stage::EncodeFrame => event is Done,
            Stage::FlushFilter => event is Done,
            Stage::FlushEncoder => event is Done,
            Stage::Finished => false,
        }
    }

    /// Where the run stands after an event. Whatever gives something is asked again; when it
    /// has nothing, what feeds it is asked, and at the end of the input it is flushed once.
    pub open spec fn after(self, event: PipelineEvent) -> PipelineState {
        match (self.stage, event) {
            (Stage::ReceiveFrame, PipelineEvent::Frame(true)) => PipelineState {
                stage: if self.filters {
                    Stage::FilterFrame
                } else {
                    Stage::EncodeFrame
                },
                ..self
            },
            (Stage::ReceiveFrame, PipelineEvent::Frame(false)) => PipelineState {
                stage: if !self.ending {
                    Stage::Finished
                } else if self.filters {
                    Stage::FlushFilter
                } else {
                    Stage::FlushEncoder
                },
                ..self
            },
            (Stage::FilterFrame, _) => PipelineState { stage: Stage::ReceiveFiltered, ..self },
            (Stage::ReceiveFiltered, PipelineEvent::Filtered(true)) => PipelineState {
                stage: Stage::EncodeFrame,
                ..self
            },
            (Stage::ReceiveFiltered, PipelineEvent::Filtered(false)) => PipelineState {
                stage: if self.filter_flushed {
                    Stage::FlushEncoder
                } else {
                    Stage::ReceiveFrame
                },
                ..self
            },
            (Stage::EncodeFrame, _) => PipelineState { stage: Stage::ReceivePacket, ..self },
            (Stage::ReceivePacket, PipelineEvent::Packet(None)) => PipelineState {
                stage: if self.encoder_flushed {
                    Stage::Finished
                } else if self.filters {
                    Stage::ReceiveFiltered
                } else {
                    Stage::ReceiveFrame
                },
                ..self
            },
            (Stage::FlushFilter, _) => PipelineState {
                stage: Stage::ReceiveFiltered,
                filter_flushed: true,
                ..self
            },
            (Stage::FlushEncoder, _) => PipelineState {
                stage: Stage::ReceivePacket,
                encoder_flushed: true,
                ..self
            },
            _ => self,
        }
    }
}

/// The samples after an event: those before, and then the one of a packet that was given.
pub open spec fn samples_after(samples: Seq<EncodedSample>, event: PipelineEvent) -> Seq<
    EncodedSample,
> {
    match event {
        PipelineEvent::Packet(Some(sample)) => samples.push(sample),
        _ => samples,
    }
}

/// One run over a decoder, a filter if there is one, and an encoder.
#[derive(Debug)]
pub struct Pipeline {
    pub state: PipelineState,
    /// The samples so far.
    pub samples: Vec<EncodedSample>,
}

impl Pipeline {
    /// A run over what the decoder has, after a packet or at the end of the input.
    pub fn start(filters: bool, ending: bool) -> (p: Pipeline)
        ensures
            p.state == PipelineState::start(filters, ending),
            p.state.wf(),
            p.samples@.len() == 0,
    {
        Pipeline {
            state: PipelineState {
                stage: Stage::ReceiveFrame,
                filters,
                ending,
                filter_flushed: false,
                encoder_flushed: false,
            },
            samples: Vec::new(),
        }
    }

    /// Takes what came of the stage.
    pub fn advance(&mut self, event: PipelineEvent)
        requires
            old(self).state.wf(),
            old(self).state.expects(event),
        ensures
            final(self).state.wf(),
            final(self).state == old(self).state.after(event),
            final(self).samples@ == samples_after(old(self).samples@, event),
            event matches PipelineEvent::Packet(Some(sample)) ==> final(self).samples@
                == old(self).samples@.push(sample),
            !(event matches PipelineEvent::Packet(Some(_))) ==> final(self).samples@
                == old(self).samples@,
    {
        let state = self.state;
        match state.stage {
            Stage::ReceiveFrame => {
                if let PipelineEvent::Frame(given) = event {
                    self.state.stage = if given {
                        if state.filters {
                            Stage::FilterFrame
                        } else {
                            Stage::EncodeFrame
                        }
                    } else if !state.ending {
                        Stage::Finished
                    } else if state.filters {
                        Stage::FlushFilter
                    } else {
                        Stage::FlushEncoder
                    };
                }
            },
            Stage::FilterFrame => {
                self.state.stage = Stage::ReceiveFiltered;
            },
            Stage::ReceiveFiltered => {
                if let PipelineEvent::Filtered(given) = event {
                    self.state.stage = if given {
                        Stage::EncodeFrame
                    } else if state.filter_flushed {
                        Stage::FlushEncoder
                    } else {
                        Stage::ReceiveFrame
                    };
                }
            },
            Stage::EncodeFrame => {
                self.state.stage = Stage::ReceivePacket;
            },
            Stage::ReceivePacket => {
                if let PipelineEvent::Packet(packet) = event {
                    match packet {
                        Some(sample) => {
                            self.samples.push(sample);
                        },
                        None => {
                            self.state.stage = if state.encoder_flushed {
                                Stage::Finished
                            } else if state.filters {
                                Stage::ReceiveFiltered
                            } else {
                                Stage::ReceiveFrame
                            };
                        },
                    }
                }
            },
            Stage::FlushFilter => {
                self.state.filter_flushed = true;
                self.state.stage = Stage::ReceiveFiltered;
            },
            Stage::FlushEncoder => {
                self.state.encoder_flushed = true;
                self.state.stage = Stage::ReceivePacket;
            },
            Stage::Finished => {},
        }
    }
}

// ---------------------------------------------------------------------------
// Laws
// ---------------------------------------------------------------------------

/// Where a run stands after events.
pub open spec fn after_events(state: PipelineState, events: Seq<PipelineEvent>) -> PipelineState
    decreases events.len(),
{
    if events.len() == 0 {
        state
    } else {
        after_events(state, events.drop_last()).after(events.last())
    }
}

/// Every event answers what was to be done when it came.
pub open spec fn is_run(state: PipelineState, events: Seq<PipelineEvent>) -> bool
    decreases events.len(),
{
    events.len() > 0 ==> {
        &&& is_run(state, events.drop_last())
        &&& after_events(state, events.drop_last()).expects(events.last())
    }
}

/// How often a stage was reached in a run and left again.
pub open spec fn times_left(state: PipelineState, events: Seq<PipelineEvent>, stage: Stage) -> nat
    decreases events.len(),
{
    if events.len() == 0 {
        0
    } else {
        times_left(state, events.drop_last(), stage) + (if after_events(
            state,
            events.drop_last(),
        ).stage == stage {
            1nat
        } else {
            0
        })
    }
}

/// A run keeps its invariant. It flushes the encoder, and the filter if there is one, exactly
/// once where the input has ended, and never where it has not.
pub proof fn flushes_happen_once(filters: bool, ending: bool, events: Seq<PipelineEvent>)
    requires
        is_run(PipelineState::start(filters, ending), events),
    ensures
        ({
            let start = PipelineState::start(filters, ending);
            let state = after_events(start, events);
            &&& state.wf()
            &&& state.filters == filters
            &&& state.ending == ending
            &&& times_left(start, events, Stage::FlushEncoder) == (if state.encoder_flushed {
                1nat
            } else {
                0
            })
            &&& times_left(start, events, Stage::FlushFilter) == (if state.filter_flushed {
                1nat
            } else {
                0
            })
            &&& state.stage is Finished ==> state.encoder_flushed == ending
                && state.filter_flushed == (ending && filters)
        }),
    decreases events.len(),
{
    if events.len() > 0 {
        flushes_happen_once(filters, ending, events.drop_last());
    }
}

/// How many frames the decoder gave.
pub open spec fn frames_in(events: Seq<PipelineEvent>) -> nat
    decreases events.len(),
{
    if events.len() == 0 {
        0
    } else {
        frames_in(events.drop_last()) + (if events.last() == PipelineEvent::Frame(true) {
            1nat
        } else {
            0
        })
    }
}

/// How many frames the filter gave.
pub open spec fn filtered_in(events: Seq<PipelineEvent>) -> nat
    decreases events.len(),
{
    if events.len() == 0 {
        0
    } else {
        filtered_in(events.drop_last()) + (if events.last() == PipelineEvent::Filtered(true) {
            1nat
        } else {
            0
        })
    }
}

/// A frame that stands before a stage has not been through it.
pub open spec fn standing_before(state: PipelineState, stage: Stage) -> nat {
    if state.stage == stage {
        1
    } else {
        0
    }
}

/// No frame is lost or doubled: but for one that is on its way, as many frames go to the
/// filter as the decoder gives, and as many to the encoder as the filter gives; without a
/// filter, as many go to the encoder as the decoder gives.
pub proof fn every_frame_is_handed_on(filters: bool, ending: bool, events: Seq<PipelineEvent>)
    requires
        is_run(PipelineState::start(filters, ending), events),
    ensures
        ({
            let start = PipelineState::start(filters, ending);
            let state = after_events(start, events);
            let filtered = times_left(start, events, Stage::FilterFrame) + standing_before(
                state,
                Stage::FilterFrame,
            );
            let encoded = times_left(start, events, Stage::EncodeFrame) + standing_before(
                state,
                Stage::EncodeFrame,
            );
            if filters {
                filtered == frames_in(events) && encoded == filtered_in(events)
            } else {
                encoded == frames_in(events)
            }
        }),
    decreases events.len(),
{
    if events.len() > 0 {
        every_frame_is_handed_on(filters, ending, events.drop_last());
        flushes_happen_once(filters, ending, events.drop_last());
    }
}

/// Wherever frames go into the encoder or its end is announced, its packets are asked for
/// next, and they are asked for until there are none.
pub proof fn packets_are_taken_at_once(state: PipelineState, event: PipelineEvent)
    requires
        state.wf(),
        state.expects(event),
    ensures
        state.stage is EncodeFrame || state.stage is FlushEncoder ==> state.after(
            event,
        ).stage is ReceivePacket,
        state.stage is ReceivePacket ==> (state.after(event).stage is ReceivePacket
            <==> event->Packet_0 is Some),
{
}

/// Wherever `gave` holds of an event, `had_none` holds of a later one: what gave something was
/// asked again until it had nothing.
pub open spec fn emptied(
    events: Seq<PipelineEvent>,
    gave: spec_fn(PipelineEvent) -> bool,
    had_none: spec_fn(PipelineEvent) -> bool,
) -> bool {
    forall|i: int|
        0 <= i < events.len() && gave(#[trigger] events[i]) ==> exists|j: int|
            i < j < events.len() && had_none(#[trigger] events[j])
}

/// The decoder was asked until it had no frame.
pub open spec fn decoder_emptied(events: Seq<PipelineEvent>) -> bool {
    emptied(
        events,
        |e: PipelineEvent| e == PipelineEvent::Frame(true),
        |e: PipelineEvent| e == PipelineEvent::Frame(false),
    )
}

/// After every frame that went into the filter, and after every frame that came out of it, the
/// filter was asked until it had none.
pub open spec fn filter_emptied(events: Seq<PipelineEvent>) -> bool {
    emptied(
        events,
        |e: PipelineEvent| e == PipelineEvent::Frame(true) || e == PipelineEvent::Filtered(true),
        |e: PipelineEvent| e == PipelineEvent::Filtered(false),
    )
}

/// After every frame that went into the encoder, and after every packet that came out of it,
/// the encoder was asked until it had none.
pub open spec fn encoder_emptied(filters: bool, events: Seq<PipelineEvent>) -> bool {
    emptied(
        events,
        |e: PipelineEvent|
            {
                ||| filters && e == PipelineEvent::Filtered(true)
                ||| !filters && e == PipelineEvent::Frame(true)
                ||| e is Packet && e->Packet_0 is Some
            },
        |e: PipelineEvent| e == PipelineEvent::Packet(None),
    )
}

/// The decoder had no frame: no more comes from the input.
pub open spec fn input_ended(events: Seq<PipelineEvent>) -> bool {
    exists|i: int| 0 <= i < events.len() && #[trigger] events[i] == PipelineEvent::Frame(false)
}

/// After the end of the input the filter had no frame.
pub open spec fn filter_ended(events: Seq<PipelineEvent>) -> bool {
    exists|i: int, j: int|
        0 <= i < j < events.len() && #[trigger] events[i] == PipelineEvent::Frame(false)
            && #[trigger] events[j] == PipelineEvent::Filtered(false)
}

/// One more event leaves nothing behind if it is the answer that there is nothing, or if
/// nothing was left behind and it gives nothing.
proof fn lemma_emptied_step(
    events: Seq<PipelineEvent>,
    gave: spec_fn(PipelineEvent) -> bool,
    had_none: spec_fn(PipelineEvent) -> bool,
)
    requires
        events.len() > 0,
        !gave(events.last()),
        had_none(events.last()) || emptied(events.drop_last(), gave, had_none),
    ensures
        emptied(events, gave, had_none),
{
    let before = events.drop_last();
    let n = events.len() - 1;
    assert forall|i: int| 0 <= i < events.len() && gave(#[trigger] events[i]) implies exists|
        j: int,
    |
        i < j < events.len() && had_none(#[trigger] events[j]) by {
        assert(i < n);
        if had_none(events.last()) {
            assert(had_none(events[n]));
        } else {
            assert(gave(before[i]));
            let j = choose|j: int| i < j < before.len() && had_none(#[trigger] before[j]);
            assert(had_none(events[j]));
        }
    }
}

/// What was emptied wherever a run stands, and what has ended.
proof fn lemma_run_empties(filters: bool, ending: bool, events: Seq<PipelineEvent>)
    requires
        is_run(PipelineState::start(filters, ending), events),
    ensures
        ({
            let s = after_events(PipelineState::start(filters, ending), events);
            let flushing = s.stage is FlushFilter || s.stage is FlushEncoder || s.stage is Finished
                || s.filter_flushed || s.encoder_flushed;
            &&& s.filters == filters && s.ending == ending && s.wf()
            &&& flushing <==> input_ended(events)
            &&& flushing ==> decoder_emptied(events)
            &&& (filters && (s.stage is ReceiveFrame || s.stage is FlushFilter || s.stage
                is FlushEncoder || s.stage is Finished || s.encoder_flushed)) ==> filter_emptied(
                events,
            )
            &&& !(s.stage is EncodeFrame || s.stage is ReceivePacket || (!filters && s.stage
                is FilterFrame)) ==> encoder_emptied(filters, events)
            &&& (filters && ending) ==> ((s.stage is FlushEncoder || s.encoder_flushed)
                <==> filter_ended(events))
            &&& s.stage is Finished ==> events.len() > 0 && events.last() == (if ending {
                PipelineEvent::Packet(None)
            } else {
                PipelineEvent::Frame(false)
            })
        }),
    decreases events.len(),
{
    let start = PipelineState::start(filters, ending);
    let decoder_gave = |e: PipelineEvent| e == PipelineEvent::Frame(true);
    let decoder_none = |e: PipelineEvent| e == PipelineEvent::Frame(false);
    let filter_gave = |e: PipelineEvent|
        e == PipelineEvent::Frame(true) || e == PipelineEvent::Filtered(true);
    let filter_none = |e: PipelineEvent| e == PipelineEvent::Filtered(false);
    let encoder_gave = |e: PipelineEvent|
        {
            ||| filters && e == PipelineEvent::Filtered(true)
            ||| !filters && e == PipelineEvent::Frame(true)
            ||| e is Packet && e->Packet_0 is Some
        };
    let encoder_none = |e: PipelineEvent| e == PipelineEvent::Packet(None);
    flushes_happen_once(filters, ending, events);
    if events.len() > 0 {
        let before = events.drop_last();
        let e = events.last();
        let n = events.len() - 1;
        lemma_run_empties(filters, ending, before);
        let s = after_events(start, before);
        if !decoder_gave(e) && (decoder_none(e) || emptied(before, decoder_gave, decoder_none)) {
            lemma_emptied_step(events, decoder_gave, decoder_none);
        }
        if !filter_gave(e) && (filter_none(e) || emptied(before, filter_gave, filter_none)) {
            lemma_emptied_step(events, filter_gave, filter_none);
        }
        if !encoder_gave(e) && (encoder_none(e) || emptied(before, encoder_gave, encoder_none)) {
            lemma_emptied_step(events, encoder_gave, encoder_none);
        }
        assert(input_ended(events) == (input_ended(before) || decoder_none(e))) by {
            if input_ended(before) {
                let i = choose|i: int|
                    0 <= i < before.len() && #[trigger] before[i] == PipelineEvent::Frame(false);
                assert(events[i] == PipelineEvent::Frame(false));
            } else if decoder_none(e) {
                assert(events[n] == PipelineEvent::Frame(false));
            } else if input_ended(events) {
                let i = choose|i: int|
                    0 <= i < events.len() && #[trigger] events[i] == PipelineEvent::Frame(false);
                assert(before[i] == PipelineEvent::Frame(false));
            }
        }
        assert(filter_ended(events) == (filter_ended(before) || (filter_none(e) && input_ended(
            before,
        )))) by {
            if filter_ended(before) {
                let (i, j) = choose|i: int, j: int|
                    0 <= i < j < before.len() && #[trigger] before[i] == PipelineEvent::Frame(
                        false,
                    ) && #[trigger] before[j] == PipelineEvent::Filtered(false);
                assert(events[i] == PipelineEvent::Frame(false));
                assert(events[j] == PipelineEvent::Filtered(false));
            } else if filter_none(e) && input_ended(before) {
                let i = choose|i: int|
                    0 <= i < before.len() && #[trigger] before[i] == PipelineEvent::Frame(false);
                assert(events[i] == PipelineEvent::Frame(false));
                assert(events[n] == PipelineEvent::Filtered(false));
            } else if filter_ended(events) {
                let (i, j) = choose|i: int, j: int|
                    0 <= i < j < events.len() && #[trigger] events[i] == PipelineEvent::Frame(
                        false,
                    ) && #[trigger] events[j] == PipelineEvent::Filtered(false);
                assert(before[i] == PipelineEvent::Frame(false));
                if j < n {
                    assert(before[j] == PipelineEvent::Filtered(false));
                }
            }
        }
    }
}

/// A run ends only when nothing is left: the decoder was asked until it had no frame, the
/// filter, if there is one, until it had none, and the encoder until it had no packet. While
/// the input goes on, a run ends exactly when the decoder has no frame. At the end of the
/// input it ends exactly when the encoder has no packet after the decoder, and then the
/// filter if there is one, had no frame.
pub proof fn a_run_ends_when_nothing_is_left(
    filters: bool,
    ending: bool,
    events: Seq<PipelineEvent>,
)
    requires
        is_run(PipelineState::start(filters, ending), events),
    ensures
        ({
            let finished = after_events(PipelineState::start(filters, ending), events).stage
                is Finished;
            &&& finished ==> decoder_emptied(events) && encoder_emptied(filters, events) && (
            filters ==> filter_emptied(events))
            &&& !ending ==> (finished <==> events.len() > 0 && events.last()
                == PipelineEvent::Frame(false))
            &&& ending ==> (finished <==> events.len() > 0 && events.last()
                == PipelineEvent::Packet(None) && (if filters {
                filter_ended(events)
            } else {
                input_ended(events)
            }))
        }),
{
    let start = PipelineState::start(filters, ending);
    lemma_run_empties(filters, ending, events);
    if events.len() > 0 {
        lemma_run_empties(filters, ending, events.drop_last());
        if events.last() == PipelineEvent::Packet(None) {
            let s = after_events(start, events.drop_last());
            assert(after_events(start, events) == s.after(events.last()));
        }
    }
}

/// What is fed is emptied before it is fed again: before the decoder is asked for a frame,
/// encoder and filter have nothing left of the frames before it, and before the filter is
/// asked, the encoder has nothing left.
pub proof fn what_is_fed_is_emptied_first(
    filters: bool,
    ending: bool,
    events: Seq<PipelineEvent>,
    k: int,
)
    requires
        is_run(PipelineState::start(filters, ending), events),
        0 <= k < events.len(),
    ensures
        events[k] is Frame ==> encoder_emptied(filters, events.take(k)) && (filters
            ==> filter_emptied(events.take(k))) && !input_ended(events.take(k)),
        events[k] is Filtered ==> filters && encoder_emptied(filters, events.take(k)),
    decreases events.len(),
{
    let start = PipelineState::start(filters, ending);
    if k == events.len() - 1 {
        assert(events.take(k) =~= events.drop_last());
        lemma_run_empties(filters, ending, events.drop_last());
    } else {
        let before = events.drop_last();
        what_is_fed_is_emptied_first(filters, ending, before, k);
        assert(before.take(k) =~= events.take(k));
        assert(before[k] == events[k]);
    }
}

/// What is taken is handed on at once: a frame of the decoder goes to the filter, or without
/// one to the encoder; a frame of the filter goes to the encoder; and what was fed is asked
/// next.
pub proof fn what_is_taken_is_handed_on(
    filters: bool,
    ending: bool,
    events: Seq<PipelineEvent>,
    k: int,
)
    requires
        is_run(PipelineState::start(filters, ending), events),
        0 <= k,
        k + 2 < events.len(),
    ensures
        events[k] == PipelineEvent::Frame(true) ==> events[k + 1] is Done && (if filters {
            events[k + 2] is Filtered
        } else {
            events[k + 2] is Packet
        }),
        events[k] == PipelineEvent::Filtered(true) ==> events[k + 1] is Done && events[k + 2]
            is Packet,
        events[k] matches PipelineEvent::Packet(Some(_)) ==> events[k + 1] is Packet,
    decreases events.len(),
{
    let start = PipelineState::start(filters, ending);
    let before = events.drop_last();
    if k + 2 == events.len() - 1 {
        let b1 = before.drop_last();
        let b0 = b1.drop_last();
        assert(before.last() == events[k + 1] && b1.last() == events[k]);
        assert(is_run(start, before));
        assert(is_run(start, b1));
        assert(is_run(start, b0));
        flushes_happen_once(filters, ending, b0);
        assert(after_events(start, b1) == after_events(start, b0).after(events[k]));
        assert(after_events(start, before) == after_events(start, b1).after(events[k + 1]));
    } else {
        what_is_taken_is_handed_on(filters, ending, before, k);
    }
}

/// The samples of a run.
pub open spec fn samples_of(events: Seq<PipelineEvent>) -> Seq<EncodedSample>
    decreases events.len(),
{
    if events.len() == 0 {
        seq![]
    } else {
        samples_after(samples_of(events.drop_last()), events.last())
    }
}

/// Every packet of the encoder gives its sample, no other event gives one, and the samples
/// come in the order of the packets.
pub proof fn every_packet_gives_its_sample(
    events: Seq<PipelineEvent>,
    more: Seq<PipelineEvent>,
    sample: EncodedSample,
    other: PipelineEvent,
)
    requires
        !(other matches PipelineEvent::Packet(Some(_))),
    ensures
        samples_of(events + more) == samples_of(events) + samples_of(more),
        samples_of(seq![PipelineEvent::Packet(Some(sample))]) == seq![sample],
        samples_of(seq![other]) == Seq::<EncodedSample>::empty(),
    decreases more.len(),
{
    reveal_with_fuel(samples_of, 2);
    let one = seq![PipelineEvent::Packet(Some(sample))];
    assert(one.drop_last() =~= seq![]);
    assert(seq![other].drop_last() =~= seq![]);
    assert(samples_of(one) =~= seq![sample]);
    if more.len() == 0 {
        assert(events + more =~= events);
        assert(samples_of(events) + samples_of(more) =~= samples_of(events));
    } else {
        assert((events + more).drop_last() =~= events + more.drop_last());
        every_packet_gives_its_sample(events, more.drop_last(), sample, other);
        assert(samples_of(events + more) =~= samples_of(events) + samples_of(more));
    }
}

/// Where each answer leads: what gave something is asked again once that is handed on; what has
/// nothing sends the run back to what feeds it; and where that has ended too, it is flushed,
/// once, and then asked to its end.
pub proof fn each_answer_leads_on(state: PipelineState, event: PipelineEvent)
    requires
        state.expects(event),
    ensures
        ({
            let next = state.after(event);
            &&& next.filters == state.filters && next.ending == state.ending
            &&& next.filter_flushed == (state.filter_flushed || state.stage is FlushFilter)
            &&& next.encoder_flushed == (state.encoder_flushed || state.stage is FlushEncoder)
            &&& state.stage is ReceiveFrame && event == PipelineEvent::Frame(true) ==> (
            if state.filters {
                next.stage is FilterFrame
            } else {
                next.stage is EncodeFrame
            })
            &&& state.stage is ReceiveFrame && event == PipelineEvent::Frame(false) ==> (
            if !state.ending {
                next.stage is Finished
            } else if state.filters {
                next.stage is FlushFilter
            } else {
                next.stage is FlushEncoder
            })
            &&& state.stage is FilterFrame ==> next.stage is ReceiveFiltered
            &&& state.stage is ReceiveFiltered && event == PipelineEvent::Filtered(true)
                ==> next.stage is EncodeFrame
            &&& state.stage is ReceiveFiltered && event == PipelineEvent::Filtered(false) ==> (
            if state.filter_flushed {
                next.stage is FlushEncoder
            } else {
                next.stage is ReceiveFrame
            })
            &&& state.stage is EncodeFrame ==> next.stage is ReceivePacket
            &&& state.stage is ReceivePacket && event->Packet_0 is Some ==> next.stage
                is ReceivePacket
            &&& state.stage is ReceivePacket && event->Packet_0 is None ==> (
            if state.encoder_flushed {
                next.stage is Finished
            } else if state.filters {
                next.stage is ReceiveFiltered
            } else {
                next.stage is ReceiveFrame
            })
            &&& state.stage is FlushFilter ==> next.stage is ReceiveFiltered
            &&& state.stage is FlushEncoder ==> next.stage is ReceivePacket
        }),
{
}

/// What the operations of a run do: it starts at the decoder with no samples, each event takes
/// it on, and the sample of a packet comes behind those before it.
pub proof fn a_run_takes_every_event()
    ensures
        forall|filters: bool, ending: bool, p: Pipeline| #[trigger]
            call_ensures(Pipeline::start, (filters, ending), p) ==> {
                &&& p.state.stage is ReceiveFrame
                &&& p.state.filters == filters
                &&& p.state.ending == ending
                &&& !p.state.filter_flushed
                &&& !p.state.encoder_flushed
                &&& p.samples@.len() == 0
            },
        forall|p: &mut Pipeline, event: PipelineEvent| #[trigger]
            call_ensures(Pipeline::advance, (p, event), ()) ==> {
                &&& final(p).state == p.state.after(event)
                &&& event matches PipelineEvent::Packet(Some(sample)) ==> final(p).samples@
                    == p.samples@.push(sample)
                &&& !(event matches PipelineEvent::Packet(Some(_))) ==> final(p).samples@
                    == p.samples@
            },
{
}

/// What giving timestamps does, frame after frame: a frame keeps its own; one without comes one
/// frame after the frame before it, and the first at 0.
pub proof fn timestamps_follow_on()
    ensures
        forall|d: i64, t: VideoTimeline| #[trigger]
            call_ensures(VideoTimeline::new, (d,), t) ==> t.next_pts == 0 && t.frame_duration == d,
        forall|t: &mut VideoTimeline, own: Option<i64>, pts: i64| #[trigger]
            call_ensures(VideoTimeline::assign, (t, own), pts) ==> {
                &&& own matches Some(p) ==> pts == p
                &&& own is None ==> pts == t.next_pts
                &&& final(t).next_pts == pts + t.frame_duration
                &&& final(t).frame_duration == t.frame_duration
            },
        forall|t: VideoTimeline, own: Option<i64>, r: bool| #[trigger]
            call_ensures(VideoTimeline::has_room, (&t, own), r) ==> r == ((match own {
                Some(p) => p,
                None => t.next_pts,
            }) + t.frame_duration <= i64::MAX && (match own {
                Some(p) => p,
                None => t.next_pts,
            }) + t.frame_duration >= i64::MIN),
{
}

} // verus!
