//! One WebTransport stream from its first byte to its last: the signature, the description of
//! the media, and then every sample of the file, each at its time.
use vstd::prelude::*;
use crate::clock;
use crate::clock::{Delay, MediaClock};
use crate::framing;
use crate::media::{EncodedBatch, EncodedSample, Track};
use crate::pump;
use crate::pump::{MediaPump, Phase, PumpStep};

verus! {

/// How far the opening of a stream has come.
#[derive(Debug, Clone, Copy)]
pub enum Opening {
    /// Nothing was written.
    Unsigned,
    /// The signature was written; the file is not open.
    Signed,
    /// The file is open, with video of this size, or without video.
    Sized(Option<(u32, u32)>),
    /// The description of the media was written.
    Open(Option<(u32, u32)>),
}

/// What is to be done next.
#[derive(Debug)]
pub enum StreamStep {
    /// Write these bytes.
    Write(Vec<u8>),
    /// Open the file.
    OpenFile,
    /// Read the next batch from the file.
    ReadBatch,
    /// Take what the encoders still hold.
    Drain,
    /// Wait, if there is something to wait, and then write the header and the data of a frame.
    Send(Option<Delay>, Vec<u8>, Vec<u8>),
    /// Everything was written.
    Finished,
}

/// The bytes before the first sample.
pub open spec fn opening_bytes(opening: Opening) -> Seq<u8> {
    match opening {
        Opening::Unsigned => seq![],
        Opening::Signed | Opening::Sized(_) => framing::signature_bytes(),
        Opening::Open(video_size) => framing::signature_bytes() + framing::metadata_frame(
            video_size,
        ),
    }
}

/// Samples as frames: the kind of a frame says the track.
pub open spec fn framed(samples: Seq<(Track, EncodedSample)>) -> Seq<(u8, EncodedSample)> {
    samples.map_values(|s: (Track, EncodedSample)| (framing::kind_of(s.0), s.1))
}

/// Writes one file to one stream.
pub struct MediaStream {
    opening: Opening,
    pump: MediaPump,
    written: Ghost<Seq<u8>>,
}

impl MediaStream {
    pub closed spec fn opening(&self) -> Opening {
        self.opening
    }

    pub closed spec fn phase(&self) -> Phase {
        self.pump.phase()
    }

    /// The clock that paces the samples.
    pub closed spec fn clock(&self) -> MediaClock {
        self.pump.clock()
    }

    /// What waits to be written, the next sample first.
    pub closed spec fn waiting(&self) -> Seq<(Track, EncodedSample)> {
        self.pump.waiting()
    }

    /// What was taken in so far, in order.
    pub closed spec fn taken(&self) -> Seq<(Track, EncodedSample)> {
        self.pump.taken()
    }

    /// What was handed out to be written so far, in order.
    pub closed spec fn handed(&self) -> Seq<(Track, EncodedSample)> {
        self.pump.handed()
    }

    /// All bytes that were handed out to be written so far.
    pub closed spec fn written(&self) -> Seq<u8> {
        self.written@
    }

    /// The stream holds its opening and then one frame for each sample handed out, and no
    /// sample is taken in before the stream is open.
    pub open spec fn wf(&self) -> bool {
        &&& self.taken() == self.handed() + self.waiting()
        &&& self.written() == opening_bytes(self.opening()) + framing::stream_bytes(
            framed(self.handed()),
        )
        &&& !(self.opening() is Open) ==> {
            &&& self.phase() == Phase::Reading
            &&& self.taken().len() == 0
            &&& self.clock().started_at() is None
        }
    }

    /// A stream to which nothing was written.
    pub fn new() -> (s: MediaStream)
        ensures
            s.wf(),
            s.opening() is Unsigned,
            s.written().len() == 0,
            s.taken().len() == 0,
    {
        let s = MediaStream {
            opening: Opening::Unsigned,
            pump: MediaPump::new(),
            written: Ghost(Seq::empty()),
        };
        proof {
            assert(framed(s.handed()).len() == 0);
            assert(s.written() =~= opening_bytes(s.opening()) + framing::stream_bytes(
                framed(s.handed()),
            ));
        }
        s
    }

    /// What is to be done next: write the signature, open the file, write the description of
    /// the media, and then play the file. A sample is written after what the clock says is to
    /// be waited for it. When everything is done, the stream holds the signature, the
    /// description, and one frame for each sample that was taken in.
    pub fn next_step(&mut self) -> (step: StreamStep)
        requires
            old(self).wf(),
        ensures
            final(self).wf(),
            final(self).phase() == old(self).phase(),
            final(self).taken() == old(self).taken(),
            match old(self).opening() {
                Opening::Unsigned => {
                    &&& step matches StreamStep::Write(bytes)
                    &&& bytes@ == framing::signature_bytes()
                    &&& final(self).opening() is Signed
                    &&& final(self).written() == bytes@
                },
                Opening::Signed => {
                    &&& step is OpenFile
                    &&& final(self).opening() is Signed
                },
                Opening::Sized(video_size) => {
                    &&& step matches StreamStep::Write(bytes)
                    &&& bytes@ == framing::metadata_frame(video_size)
                    &&& final(self).opening() == Opening::Open(video_size)
                    &&& final(self).written() == old(self).written() + bytes@
                },
                Opening::Open(video_size) => {
                    &&& final(self).opening() == old(self).opening()
                    &&& step is Send <==> old(self).waiting().len() > 0
                    &&& match step {
                        StreamStep::Send(delay, header, data) => {
                            let (track, sample) = old(self).waiting()[0];
                            &&& header@ + data@ == framing::frame_bytes(
                                framing::kind_of(track),
                                sample,
                            )
                            &&& data == sample.data
                            &&& final(self).written() == old(self).written() + header@ + data@
                            &&& final(self).waiting() == old(self).waiting().drop_first()
                            &&& final(self).handed() == old(self).handed().push((track, sample))
                            &&& final(self).clock().origin() == old(self).clock().origin()
                            &&& exists|now: u128|
                                #[trigger] clock::is_step(
                                    old(self).clock().started_at(),
                                    sample.pts_us,
                                    now,
                                    final(self).clock().started_at(),
                                    delay,
                                )
                        },
                        StreamStep::ReadBatch => old(self).phase() == Phase::Reading,
                        StreamStep::Drain => old(self).phase() == Phase::Draining,
                        StreamStep::Finished => {
                            &&& old(self).phase() == Phase::Drained
                            &&& final(self).written() == framing::signature_bytes()
                                + framing::metadata_frame(video_size) + framing::stream_bytes(
                                framed(final(self).taken()),
                            )
                        },
                        StreamStep::Write(_) | StreamStep::OpenFile => false,
                    }
                },
            },
            !(step is Send) ==> {
                &&& final(self).clock() == old(self).clock()
                &&& final(self).waiting() == old(self).waiting()
                &&& final(self).handed() == old(self).handed()
            },
            !(step is Send) && !(step is Write) ==> final(self).written() == old(self).written(),
    {
        match self.opening {
            Opening::Unsigned => {
                let bytes = framing::signature();
                self.opening = Opening::Signed;
                proof {
                    self.written@ = bytes@;
                    assert(framed(self.handed()).len() == 0);
                    assert(self.written() =~= opening_bytes(self.opening())
                        + framing::stream_bytes(framed(self.handed())));
                }
                StreamStep::Write(bytes)
            },
            Opening::Signed => StreamStep::OpenFile,
            Opening::Sized(video_size) => {
                let mut sample = framing::metadata_sample(video_size);
                let mut bytes = framing::frame_header(framing::METADATA_KIND, &sample);
                bytes.append(&mut sample.data);
                self.opening = Opening::Open(video_size);
                proof {
                    self.written@ = self.written@ + bytes@;
                    assert(framed(self.handed()).len() == 0);
                    assert(self.written() =~= opening_bytes(self.opening())
                        + framing::stream_bytes(framed(self.handed())));
                }
                StreamStep::Write(bytes)
            },
            Opening::Open(_) => {
                let ghost before = self.handed();
                match self.pump.next_step() {
                    PumpStep::Send(delay, track, sample) => {
                        let header = framing::frame_header(framing::track_kind(track), &sample);
                        proof {
                            let kind = framing::kind_of(track);
                            self.written@ = self.written@ + header@ + sample.data@;
                            framing::lemma_stream_push(framed(before), kind, sample);
                            assert(framed(self.handed()) =~= framed(before).push((kind, sample)));
                            assert(self.written() =~= opening_bytes(self.opening())
                                + framing::stream_bytes(framed(self.handed())));
                        }
                        StreamStep::Send(delay, header, sample.data)
                    },
                    PumpStep::ReadBatch => StreamStep::ReadBatch,
                    PumpStep::Drain => StreamStep::Drain,
                    PumpStep::Finished => StreamStep::Finished,
                }
            },
        }
    }

    /// The file was opened: it has video of this size, or none.
    pub fn file_opened(&mut self, video_size: Option<(u32, u32)>)
        requires
            old(self).wf(),
            old(self).opening() is Signed,
        ensures
            final(self).wf(),
            final(self).opening() == Opening::Sized(video_size),
            final(self).phase() == old(self).phase(),
            final(self).clock() == old(self).clock(),
            final(self).waiting() == old(self).waiting(),
            final(self).taken() == old(self).taken(),
            final(self).handed() == old(self).handed(),
            final(self).written() == old(self).written(),
    {
        self.opening = Opening::Sized(video_size);
    }

    /// Takes in what was read: a batch, or the end of the packets.
    pub fn batch(&mut self, batch: Option<EncodedBatch>)
        requires
            old(self).wf(),
            old(self).opening() is Open,
            old(self).phase() == Phase::Reading,
            old(self).waiting().len() == 0,
        ensures
            final(self).wf(),
            final(self).opening() == old(self).opening(),
            final(self).clock() == old(self).clock(),
            final(self).handed() == old(self).handed(),
            final(self).written() == old(self).written(),
            match batch {
                Some(b) => {
                    &&& final(self).phase() == Phase::Reading
                    &&& final(self).waiting() == pump::on_track(b.track(), b.samples())
                    &&& final(self).taken() == old(self).taken() + pump::on_track(
                        b.track(),
                        b.samples(),
                    )
                },
                None => {
                    &&& final(self).phase() == Phase::Draining
                    &&& final(self).waiting().len() == 0
                    &&& final(self).taken() == old(self).taken()
                },
            },
    {
        self.pump.batch(batch);
    }

    /// Takes in what the encoders still held.
    pub fn drained(&mut self, video: Vec<EncodedSample>, audio: Vec<EncodedSample>)
        requires
            old(self).wf(),
            old(self).opening() is Open,
            old(self).phase() == Phase::Draining,
            old(self).waiting().len() == 0,
        ensures
            final(self).wf(),
            final(self).opening() == old(self).opening(),
            final(self).phase() == Phase::Drained,
            final(self).clock() == old(self).clock(),
            final(self).handed() == old(self).handed(),
            final(self).written() == old(self).written(),
            final(self).waiting() == pump::on_track(Track::Video, video@)
                + pump::on_track(Track::Audio, audio@),
            final(self).taken() == old(self).taken() + pump::on_track(Track::Video, video@)
                + pump::on_track(Track::Audio, audio@),
    {
        self.pump.drained(video, audio);
    }
}

/// At every moment after the opening, what a client has been sent reads as the description of
/// the media and then the samples that were taken in, in their order, up to those that wait.
/// When nothing waits, these are all of them.
pub proof fn written_samples_read_back(s: MediaStream, video_size: Option<(u32, u32)>)
    requires
        s.wf(),
        s.opening() == Opening::Open(video_size),
        forall|i: int|
            0 <= i < s.handed().len() ==> (#[trigger] s.handed()[i]).1.data@.len()
                < 0x1_0000_0000,
    ensures
        s.handed() == s.taken().take(s.taken().len() - s.waiting().len()),
        framing::read_stream(s.written()) == Some(
            seq![
                framing::frame_view(
                    framing::METADATA_KIND,
                    Some(0),
                    1,
                    framing::metadata_bytes(video_size),
                ),
            ] + s.handed().map_values(
                |h: (Track, EncodedSample)| framing::frame_of(framing::kind_of(h.0), h.1),
            ),
        ),
{
    let frames = framed(s.handed());
    assert forall|i: int| 0 <= i < frames.len() implies (#[trigger] frames[i]).1.data@.len()
        < 0x1_0000_0000 by {
        assert(frames[i].1 == s.handed()[i].1);
    }
    framing::whole_stream_reads_back(video_size, frames);
    assert(s.handed() =~= s.taken().take(s.taken().len() - s.waiting().len()));
    assert(frames.map_values(|f: (u8, EncodedSample)| framing::frame_of(f.0, f.1))
        =~= s.handed().map_values(
        |h: (Track, EncodedSample)| framing::frame_of(framing::kind_of(h.0), h.1),
    ));
}

/// What a client gets, at every moment after the opening: the eight bytes `WTMEDIA1`, a frame of
/// kind 0 that is due at 0 and describes the media, and then one frame for each sample handed
/// out, in order: of kind 1 for video and 2 for audio, with the sample's timestamp, or -1, its
/// duration, or 1, and its data. These are the first of the samples that were taken in, and all
/// of them when none waits.
pub proof fn a_client_gets_every_sample(s: MediaStream, video_size: Option<(u32, u32)>)
    requires
        s.wf(),
        s.opening() == Opening::Open(video_size),
        forall|i: int|
            0 <= i < s.handed().len() ==> (#[trigger] s.handed()[i]).1.data@.len()
                < 0x1_0000_0000,
    ensures
        s.written().take(8) == seq![0x57u8, 0x54, 0x4d, 0x45, 0x44, 0x49, 0x41, 0x31],
        framing::read_frames(s.written().skip(8)) matches Some(frames) && {
            &&& frames.len() == 1 + s.handed().len()
            &&& frames[0].kind == 0
            &&& frames[0].pts_us == 0
            &&& frames[0].duration_us == 1
            &&& frames[0].data == framing::metadata_bytes(video_size)
            &&& forall|i: int|
                #![trigger s.handed()[i]]
                0 <= i < s.handed().len() ==> {
                    let (track, sample) = s.handed()[i];
                    let f = frames[i + 1];
                    &&& f.kind == (if track is Video {
                        1u8
                    } else {
                        2u8
                    })
                    &&& sample.pts_us matches Some(p) ==> f.pts_us == p
                    &&& sample.pts_us is None ==> f.pts_us == -1
                    &&& f.duration_us == (if sample.duration_us < 1 {
                        1
                    } else {
                        sample.duration_us as int
                    })
                    &&& f.data == sample.data@
                }
        },
        s.taken().len() == s.handed().len() + s.waiting().len(),
        forall|i: int|
            0 <= i < s.handed().len() ==> #[trigger] s.handed()[i] == s.taken()[i],
        s.waiting().len() == 0 ==> s.handed() == s.taken(),
{
    written_samples_read_back(s, video_size);
    assert(s.handed() + s.waiting() == s.taken());
    if s.waiting().len() == 0 {
        assert(s.handed() + s.waiting() =~= s.handed());
    }
    framing::lemma_signature();
    let sig = framing::signature_bytes();
    assert(s.written().take(8) =~= sig);
    let frames = framing::read_frames(s.written().skip(8))->Some_0;
    assert forall|i: int| #![trigger s.handed()[i]] 0 <= i < s.handed().len() implies frames[i
        + 1] == framing::frame_of(
        framing::kind_of(s.handed()[i].0),
        s.handed()[i].1,
    ) by {}
}

/// What a stream does, call by call. First the signature is written, then the file is opened,
/// then the description of its media is written; then it plays as the file is read, and at the
/// end what the encoders still held, video before audio. What waits is written one by one, the
/// first first, each after what the clock says, and every byte is accounted for.
pub proof fn a_stream_writes_what_it_takes_in()
    ensures
        forall|s: MediaStream| #[trigger]
            call_ensures(MediaStream::new, (), s) ==> s.wf() && s.opening() is Unsigned
                && s.written().len() == 0 && s.taken().len() == 0,
        forall|s: &mut MediaStream, size: Option<(u32, u32)>| #[trigger]
            call_ensures(MediaStream::file_opened, (s, size), ()) ==> final(s).opening()
                == Opening::Sized(size) && final(s).written() == s.written(),
        forall|s: &mut MediaStream, b: EncodedBatch| #[trigger]
            call_ensures(MediaStream::batch, (s, Some(b)), ()) ==> {
                let (track, samples) = match b {
                    EncodedBatch::Video(samples) => (Track::Video, samples@),
                    EncodedBatch::Audio(samples) => (Track::Audio, samples@),
                };
                let after = *final(s);
                &&& after.opening() == s.opening() && after.written() == s.written()
                &&& after.phase() is Reading
                &&& after.handed() == s.handed()
                &&& after.waiting().len() == samples.len()
                &&& forall|i: int|
                    0 <= i < samples.len() ==> #[trigger] after.waiting()[i] == (track, samples[i])
            },
        forall|s: &mut MediaStream| #[trigger]
            call_ensures(MediaStream::batch, (s, None), ()) ==> final(s).phase() is Draining
                && final(s).waiting().len() == 0 && final(s).handed() == s.handed()
                && final(s).opening() == s.opening() && final(s).written() == s.written(),
        forall|s: &mut MediaStream, video: Vec<EncodedSample>, audio: Vec<EncodedSample>|
            #[trigger]
            call_ensures(MediaStream::drained, (s, video, audio), ()) ==> {
                let after = *final(s);
                &&& after.opening() == s.opening() && after.written() == s.written()
                &&& after.phase() is Drained
                &&& after.handed() == s.handed()
                &&& after.waiting().len() == video@.len() + audio@.len()
                &&& forall|i: int|
                    0 <= i < video@.len() ==> #[trigger] after.waiting()[i] == (
                        Track::Video,
                        video@[i],
                    )
                &&& forall|i: int|
                    video@.len() <= i < video@.len() + audio@.len()
                        ==> #[trigger] after.waiting()[i] == (
                        Track::Audio,
                        audio@[i - video@.len()],
                    )
            },
        forall|s: &mut MediaStream, step: StreamStep| #[trigger]
            call_ensures(MediaStream::next_step, (s,), step) ==> {
                let after = *final(s);
                &&& after.taken() == s.taken() && after.phase() == s.phase()
                &&& s.opening() is Unsigned ==> (step matches StreamStep::Write(bytes) && bytes@
                    == seq![0x57u8, 0x54, 0x4d, 0x45, 0x44, 0x49, 0x41, 0x31] && after.opening()
                    is Signed)
                &&& s.opening() is Signed ==> step is OpenFile && after.opening() is Signed
                &&& s.opening() matches Opening::Sized(size) ==> (
                step matches StreamStep::Write(bytes) && bytes@ == framing::metadata_frame(size)
                    && after.opening() == Opening::Open(size) && after.written() == s.written()
                    + bytes@)
                &&& s.opening() is Open ==> after.opening() == s.opening()
                &&& s.opening() is Open && s.waiting().len() > 0 ==> (
                step matches StreamStep::Send(_, header, data) && header@ + data@
                    == framing::frame_bytes(
                    (if s.waiting()[0].0 is Video {
                        1u8
                    } else {
                        2u8
                    }),
                    s.waiting()[0].1,
                ) && data@ == s.waiting()[0].1.data@ && after.written() == s.written() + header@
                    + data@ && after.handed() == s.handed().push(s.waiting()[0])
                    && after.waiting() == s.waiting().skip(1))
                &&& s.opening() is Open ==> (step matches StreamStep::Send(delay, _, _) ==> {
                    let sample = s.waiting()[0].1;
                    let timed = sample.pts_us is Some && sample.pts_us->Some_0 > 0;
                    &&& exists|now: u128| #[trigger]
                        clock::is_step(
                            s.clock().started_at(),
                            sample.pts_us,
                            now,
                            after.clock().started_at(),
                            delay,
                        )
                    &&& !timed ==> delay is None && after.clock().started_at()
                        == s.clock().started_at()
                    &&& timed && s.clock().started_at() is None ==> (delay matches Some(d)
                        && d.secs * 1_000_000_000 + d.nanos == sample.pts_us->Some_0 * 1000)
                    &&& s.clock().started_at() is Some ==> after.clock().started_at()
                        == s.clock().started_at()
                })
                &&& s.opening() is Open && s.waiting().len() == 0 ==> (match s.phase() {
                    Phase::Reading => step is ReadBatch,
                    Phase::Draining => step is Drain,
                    Phase::Drained => step is Finished,
                }) && after.handed() == s.handed() && after.written() == s.written()
            },
{
    framing::lemma_signature();
    assert forall|s: &mut MediaStream, step: StreamStep| #[trigger]
        call_ensures(MediaStream::next_step, (s,), step) && s.opening() is Open
            && s.waiting().len() > 0 implies final(s).waiting() == s.waiting().skip(1) by {
        assert(s.waiting().drop_first() =~= s.waiting().skip(1));
    }
}

} // verus!
