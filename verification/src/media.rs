//! Encoded media: samples, batches of samples, and the packets they are made from.
use vstd::prelude::*;
use vstd::string::*;
use crate::text;

verus! {

/// Ticks per second of the video clock.
pub const VIDEO_CLOCK_RATE: i32 = 90_000;

/// Audio samples per second.
pub const AUDIO_SAMPLE_RATE: i32 = 48_000;

/// How long a video frame lasts where its packet does not say, in microseconds.
pub const DEFAULT_VIDEO_FRAME_DURATION_US: i64 = 33_333;

/// How long an audio packet lasts where it does not say, in microseconds.
pub const DEFAULT_AUDIO_PACKET_DURATION_US: i64 = 20_000;

/// The two tracks of a session.
#[derive(Debug, Clone, Copy, PartialEq, Eq, Structural)]
pub enum Track {
    Video,
    Audio,
}

/// An encoded piece of video or audio.
#[derive(Debug)]
pub struct EncodedSample {
    /// When it is due, in microseconds from the start.
    pub pts_us: Option<i64>,
    /// How long it lasts, in microseconds.
    pub duration_us: i64,
    pub data: Vec<u8>,
}

/// How long a sample is said to last: at least one microsecond.
pub open spec fn play_time(duration_us: i64) -> i64 {
    if duration_us < 1 {
        1
    } else {
        duration_us
    }
}

impl EncodedSample {
    /// How long the sample is said to last, in microseconds.
    pub fn play_time_us(&self) -> (d: i64)
        ensures
            d == play_time(self.duration_us),
            self.duration_us >= 1 ==> d == self.duration_us,
            self.duration_us < 1 ==> d == 1,
    {
        if self.duration_us < 1 {
            1
        } else {
            self.duration_us
        }
    }
}

/// Samples of one track.
#[derive(Debug)]
pub enum EncodedBatch {
    Video(Vec<EncodedSample>),
    Audio(Vec<EncodedSample>),
}

impl EncodedBatch {
    pub open spec fn track(&self) -> Track {
        match self {
            EncodedBatch::Video(_) => Track::Video,
            EncodedBatch::Audio(_) => Track::Audio,
        }
    }

    pub open spec fn samples(&self) -> Seq<EncodedSample> {
        match self {
            EncodedBatch::Video(samples) => samples@,
            EncodedBatch::Audio(samples) => samples@,
        }
    }
}

// ---------------------------------------------------------------------------
// Packets
// ---------------------------------------------------------------------------

/// A packet as an encoder gives it, with its times in the time base of the encoder.
#[derive(Debug)]
pub struct EncodedPacket {
    pub pts: Option<i64>,
    pub dts: Option<i64>,
    pub duration: i64,
    pub data: Option<Vec<u8>>,
}

/// The first of two optional values that is there.
pub open spec fn first_of(a: Option<i64>, b: Option<i64>) -> Option<i64> {
    match a {
        Some(_) => a,
        None => b,
    }
}

/// The first of two optional timestamps that is there.
pub fn timestamp_or(a: Option<i64>, b: Option<i64>) -> (t: Option<i64>)
    ensures
        t == first_of(a, b),
        a is Some ==> t == a,
        a is None ==> t == b,
{
    match a {
        Some(t) => Some(t),
        None => b,
    }
}

impl EncodedPacket {
    /// When the packet is due: its presentation timestamp, or else its decoding timestamp.
    pub fn timestamp(&self) -> (t: Option<i64>)
        ensures
            t == first_of(self.pts, self.dts),
            self.pts is Some ==> t == self.pts,
            self.pts is None ==> t == self.dts,
    {
        timestamp_or(self.pts, self.dts)
    }

    /// How long the packet lasts, if it says so.
    pub fn stated_duration(&self) -> (d: Option<i64>)
        ensures
            d == (if self.duration > 0 {
                Some(self.duration)
            } else {
                None
            }),
    {
        if self.duration > 0 {
            Some(self.duration)
        } else {
            None
        }
    }
}

/// The sample that a packet holds. `pts_us` and `duration_us` are the packet's timestamp and
/// its stated duration in microseconds; `default_duration_us` stands in for a duration that
/// is not stated.
pub fn packet_to_sample(
    packet: EncodedPacket,
    pts_us: Option<i64>,
    duration_us: Option<i64>,
    default_duration_us: i64,
) -> (sample: EncodedSample)
    requires
        pts_us is Some <==> first_of(packet.pts, packet.dts) is Some,
        duration_us is Some <==> packet.duration > 0,
    ensures
        sample.pts_us == pts_us,
        sample.pts_us is Some <==> first_of(packet.pts, packet.dts) is Some,
        packet.duration > 0 ==> Some(sample.duration_us) == duration_us,
        packet.duration <= 0 ==> sample.duration_us == default_duration_us,
        sample.data@ == (match packet.data {
            Some(data) => data@,
            None => Seq::<u8>::empty(),
        }),
{
    let duration_us: i64 = match duration_us {
        Some(d) => d,
        None => default_duration_us,
    };
    let data = match packet.data {
        Some(data) => data,
        None => Vec::new(),
    };
    EncodedSample { pts_us, duration_us, data }
}

// ---------------------------------------------------------------------------
// Streams of a file
// ---------------------------------------------------------------------------

/// The streams of a file that are played.
#[derive(Debug, Clone, Copy, PartialEq, Eq, Structural)]
pub struct ChosenStreams {
    pub video: Option<usize>,
    pub audio: Option<usize>,
}

/// What is wrong with a file that has nothing to play.
pub open spec fn nothing_to_play(input: Seq<char>) -> Seq<char> {
    input + " contains no audio or video stream"@
}

impl ChosenStreams {
    /// At least one stream is played.
    pub open spec fn wf(self) -> bool {
        self.video is Some || self.audio is Some
    }

    /// Chooses the best video and the best audio stream; a file with neither is refused.
    pub fn choose_streams(input: &str, video: Option<usize>, audio: Option<usize>) -> (r: Result<
        ChosenStreams,
        String,
    >)
        ensures
            match r {
                Ok(streams) => streams.video == video && streams.audio == audio && streams.wf(),
                Err(e) => video is None && audio is None && e@ == nothing_to_play(input@),
            },
            r is Ok <==> video is Some || audio is Some,
            r matches Err(e) ==> e@ == input@ + " contains no audio or video stream"@,
    {
        if video.is_none() && audio.is_none() {
            let mut e: String = input.to_owned();
            e.append(" contains no audio or video stream");
            Err(e)
        } else {
            Ok(ChosenStreams { video, audio })
        }
    }

    /// The track that a packet of stream `index` belongs to, if it is played.
    pub fn route(&self, index: usize) -> (track: Option<Track>)
        ensures
            track == self.routed(index),
            track == Some(Track::Video) <==> self.video == Some(index),
            track == Some(Track::Audio) <==> self.audio == Some(index) && self.video != Some(
                index,
            ),
    {
        if self.video == Some(index) {
            Some(Track::Video)
        } else if self.audio == Some(index) {
            Some(Track::Audio)
        } else {
            None
        }
    }

    pub open spec fn routed(self, index: usize) -> Option<Track> {
        if self.video == Some(index) {
            Some(Track::Video)
        } else if self.audio == Some(index) {
            Some(Track::Audio)
        } else {
            None
        }
    }

    /// How many packets are read for the next batch from a file whose next packets are of the
    /// streams `indexes`: one after another until one is played, or to the end.
    pub open spec fn packets_read(self, indexes: Seq<usize>) -> nat
        decreases indexes.len(),
    {
        if indexes.len() == 0 {
            0
        } else if self.routed(indexes[0]) is Some {
            1
        } else {
            1 + self.packets_read(indexes.drop_first())
        }
    }

    /// The track of the next batch from a file whose next packets are of the streams
    /// `indexes`; none where nothing more is played.
    pub open spec fn next_track(self, indexes: Seq<usize>) -> Option<Track> {
        let read = self.packets_read(indexes);
        if read == 0 {
            None
        } else {
            self.routed(indexes[read - 1])
        }
    }

    /// The tracks of all batches of a file with packets of the streams `indexes`, each batch
    /// read where the last one ended.
    pub open spec fn batch_tracks(self, indexes: Seq<usize>) -> Seq<Track>
        decreases indexes.len(),
    {
        proof {
            reading_stops_at_a_played_packet(self, indexes);
        }
        match self.next_track(indexes) {
            Some(track) => seq![track] + self.batch_tracks(
                indexes.skip(self.packets_read(indexes) as int),
            ),
            None => seq![],
        }
    }

    /// The tracks of the packets that are played, in order.
    pub open spec fn played_tracks(self, indexes: Seq<usize>) -> Seq<Track>
        decreases indexes.len(),
    {
        if indexes.len() == 0 {
            seq![]
        } else {
            let rest = self.played_tracks(indexes.drop_first());
            match self.routed(indexes[0]) {
                Some(track) => seq![track] + rest,
                None => rest,
            }
        }
    }
}

/// For a batch exactly the packets up to the first that is played are read, that one
/// included, and all packets where none is played. The batch is on the track of that packet.
pub proof fn reading_stops_at_a_played_packet(streams: ChosenStreams, indexes: Seq<usize>)
    ensures
        streams.packets_read(indexes) <= indexes.len(),
        forall|i: int|
            0 <= i < streams.packets_read(indexes) - 1 ==> streams.routed(#[trigger] indexes[i])
                is None,
        match streams.next_track(indexes) {
            Some(track) => {
                let read = streams.packets_read(indexes);
                read > 0 && streams.routed(indexes[read - 1]) == Some(track)
            },
            None => {
                &&& streams.packets_read(indexes) == indexes.len()
                &&& forall|i: int|
                    0 <= i < indexes.len() ==> streams.routed(#[trigger] indexes[i]) is None
            },
        },
    decreases indexes.len(),
{
    if indexes.len() > 0 && streams.routed(indexes[0]) is None {
        let rest = indexes.drop_first();
        reading_stops_at_a_played_packet(streams, rest);
        let read = streams.packets_read(indexes);
        assert(read == 1 + streams.packets_read(rest));
        assert forall|i: int| 0 <= i < read - 1 implies streams.routed(#[trigger] indexes[i])
            is None by {
            if i > 0 {
                assert(indexes[i] == rest[i - 1]);
            }
        }
        if streams.next_track(rest) is None {
            assert forall|i: int| 0 <= i < indexes.len() implies streams.routed(
                #[trigger] indexes[i],
            ) is None by {
                if i > 0 {
                    assert(indexes[i] == rest[i - 1]);
                }
            }
            assert(streams.routed(indexes[read - 1]) is None);
        } else {
            assert(indexes[read - 1] == rest[streams.packets_read(rest) - 1]);
        }
    }
}

/// Read to its end, a file gives one batch for each packet that is played, in their order, and
/// nothing for the others.
pub proof fn every_played_packet_gives_a_batch(streams: ChosenStreams, indexes: Seq<usize>)
    ensures
        streams.batch_tracks(indexes) == streams.played_tracks(indexes),
    decreases indexes.len(),
{
    reading_stops_at_a_played_packet(streams, indexes);
    if indexes.len() > 0 {
        let rest = indexes.drop_first();
        every_played_packet_gives_a_batch(streams, rest);
        if streams.routed(indexes[0]) is Some {
            assert(indexes.skip(1) =~= rest);
        } else {
            reading_stops_at_a_played_packet(streams, rest);
            let read = streams.packets_read(rest);
            if read > 0 {
                assert(indexes[read as int] == rest[read - 1]);
                assert(indexes.skip(read as int + 1) =~= rest.skip(read as int));
            } else {
                assert(streams.packets_read(indexes) == 1);
            }
        }
    }
}

// ---------------------------------------------------------------------------
// Counting
// ---------------------------------------------------------------------------

/// How many samples of each track were encoded.
#[derive(Debug, Clone, Copy, PartialEq, Eq, Structural)]
pub struct SampleTally {
    pub video: usize,
    pub audio: usize,
}

/// What is said of a file that was encoded to the end without being sent.
pub open spec fn dry_run_text(video: nat, audio: nat) -> Seq<char> {
    "dry-run ok: encoded "@ + text::decimal(video) + " video samples, "@ + text::decimal(audio)
        + " audio samples"@
}

/// How many samples a batch has on a track.
pub open spec fn samples_in(batch: EncodedBatch, track: Track) -> nat {
    if batch.track() == track {
        batch.samples().len()
    } else {
        0
    }
}

/// How many samples all batches together have on a track.
pub open spec fn samples_on(batches: Seq<EncodedBatch>, track: Track) -> nat
    decreases batches.len(),
{
    if batches.len() == 0 {
        0
    } else {
        samples_on(batches.drop_last(), track) + samples_in(batches.last(), track)
    }
}

/// `after` is what becomes of `before` when a batch is counted.
pub open spec fn is_counted(before: SampleTally, batch: EncodedBatch, after: SampleTally) -> bool {
    &&& after.video == before.video + samples_in(batch, Track::Video)
    &&& after.audio == before.audio + samples_in(batch, Track::Audio)
}

/// Counted one after another from the tally of nothing, batches give the number of their
/// samples on each track. `tallies` holds the tally before the first batch and after each.
pub proof fn tallies_are_totals(batches: Seq<EncodedBatch>, tallies: Seq<SampleTally>)
    requires
        tallies.len() == batches.len() + 1,
        tallies[0].video == 0 && tallies[0].audio == 0,
        forall|i: int|
            #![trigger batches[i]]
            0 <= i < batches.len() ==> is_counted(tallies[i], batches[i], tallies[i + 1]),
    ensures
        tallies.last().video == samples_on(batches, Track::Video),
        tallies.last().audio == samples_on(batches, Track::Audio),
    decreases batches.len(),
{
    if batches.len() > 0 {
        let n = batches.len() - 1;
        let (b, t) = (batches.drop_last(), tallies.drop_last());
        assert forall|i: int| #![trigger b[i]] 0 <= i < b.len() implies is_counted(
            t[i],
            b[i],
            t[i + 1],
        ) by {
            assert(b[i] == batches[i]);
        }
        tallies_are_totals(b, t);
        assert(batches[n] == batches.last());
        assert(is_counted(tallies[n], batches[n], tallies[n + 1]));
    }
}

impl SampleTally {
    /// The tally of nothing.
    pub fn new() -> (t: SampleTally)
        ensures
            t.video == 0,
            t.audio == 0,
    {
        SampleTally { video: 0, audio: 0 }
    }

    /// Counts a batch.
    pub fn count(&mut self, batch: &EncodedBatch)
        requires
            old(self).video + samples_in(*batch, Track::Video) <= usize::MAX,
            old(self).audio + samples_in(*batch, Track::Audio) <= usize::MAX,
        ensures
            is_counted(*old(self), *batch, *final(self)),
            match batch {
                EncodedBatch::Video(samples) => final(self).video == old(self).video
                    + samples@.len() && final(self).audio == old(self).audio,
                EncodedBatch::Audio(samples) => final(self).audio == old(self).audio
                    + samples@.len() && final(self).video == old(self).video,
            },
    {
        match batch {
            EncodedBatch::Video(samples) => {
                self.video = self.video + samples.len();
            },
            EncodedBatch::Audio(samples) => {
                self.audio = self.audio + samples.len();
            },
        }
    }

    /// What is said at the end.
    pub fn report(&self) -> (s: String)
        ensures
            s@ == dry_run_text(self.video as nat, self.audio as nat),
    {
        let mut s: String = String::new();
        s.append("dry-run ok: encoded ");
        text::push_decimal(&mut s, self.video as u64);
        s.append(" video samples, ");
        text::push_decimal(&mut s, self.audio as u64);
        s.append(" audio samples");
        proof {
            assert(s@ =~= dry_run_text(self.video as nat, self.audio as nat));
        }
        s
    }
}

// ---------------------------------------------------------------------------
// Laws
// ---------------------------------------------------------------------------

/// Every packet of the chosen video stream is routed to video, every packet of the chosen audio
/// stream to audio, if it is another stream, and no other packet is played.
pub proof fn packets_go_to_their_tracks(
    video: Option<usize>,
    audio: Option<usize>,
    index: usize,
)
    ensures
        ({
            let track = (ChosenStreams { video, audio }).routed(index);
            &&& video == Some(index) ==> track == Some(Track::Video)
            &&& audio == Some(index) && video != Some(index) ==> track == Some(Track::Audio)
            &&& audio != Some(index) && video != Some(index) ==> track is None
        }),
{
}

/// A batch of video is on the video track, one of audio on the audio track, and each holds its
/// samples.
pub proof fn a_batch_is_its_samples(samples: Vec<EncodedSample>)
    ensures
        EncodedBatch::Video(samples).track() == Track::Video,
        EncodedBatch::Video(samples).samples() == samples@,
        EncodedBatch::Audio(samples).track() == Track::Audio,
        EncodedBatch::Audio(samples).samples() == samples@,
{
}

/// A packet is due at its presentation timestamp, if it has one, and else at its decoding
/// timestamp; a sample lasts as long as it says, but at least one microsecond.
pub proof fn packets_say_when_and_how_long(a: Option<i64>, b: Option<i64>, duration_us: i64)
    ensures
        a is Some ==> first_of(a, b) == a,
        a is None ==> first_of(a, b) == b,
        duration_us >= 1 ==> play_time(duration_us) == duration_us,
        duration_us < 1 ==> play_time(duration_us) == 1,
{
}

/// The totals of two lists of batches add up, and the total of one batch is the number of its
/// samples, on its own track.
pub proof fn totals_add_up(
    a: Seq<EncodedBatch>,
    b: Seq<EncodedBatch>,
    track: Track,
    samples: Vec<EncodedSample>,
)
    ensures
        samples_on(a + b, track) == samples_on(a, track) + samples_on(b, track),
        samples_on(seq![EncodedBatch::Video(samples)], track) == (if track is Video {
            samples@.len()
        } else {
            0
        }),
        samples_on(seq![EncodedBatch::Audio(samples)], track) == (if track is Audio {
            samples@.len()
        } else {
            0
        }),
    decreases b.len(),
{
    reveal_with_fuel(samples_on, 2);
    assert(seq![EncodedBatch::Video(samples)].drop_last() =~= seq![]);
    assert(seq![EncodedBatch::Audio(samples)].drop_last() =~= seq![]);
    if b.len() == 0 {
        assert(a + b =~= a);
    } else {
        assert((a + b).drop_last() =~= a + b.drop_last());
        totals_add_up(a, b.drop_last(), track, samples);
    }
}

/// What a dry run says: the two totals, in decimal.
pub proof fn a_dry_run_states_the_totals(video: nat, audio: nat)
    ensures
        dry_run_text(video, audio) == "dry-run ok: encoded "@ + text::numeral(video, 10)
            + " video samples, "@ + text::numeral(audio, 10) + " audio samples"@,
{
}

/// What becomes of a packet: its sample is due when the packet is, lasts as long as the packet
/// says, or else as long as is usual, and holds all its data.
pub proof fn a_sample_is_its_packet(
    packet: EncodedPacket,
    pts_us: Option<i64>,
    duration_us: Option<i64>,
    default_duration_us: i64,
    sample: EncodedSample,
)
    requires
        call_ensures(
            packet_to_sample,
            (packet, pts_us, duration_us, default_duration_us),
            sample,
        ),
    ensures
        sample.pts_us == pts_us,
        packet.duration > 0 ==> duration_us == Some(sample.duration_us),
        packet.duration <= 0 ==> sample.duration_us == default_duration_us,
        packet.data matches Some(data) ==> sample.data@ == data@,
        packet.data is None ==> sample.data@.len() == 0,
{
}

/// What a packet says of itself, and what a sample says of its length.
pub proof fn packets_and_samples_say(
    packet: EncodedPacket,
    due: Option<i64>,
    lasts: Option<i64>,
    sample: EncodedSample,
    time: i64,
)
    requires
        call_ensures(EncodedPacket::timestamp, (&packet,), due),
        call_ensures(EncodedPacket::stated_duration, (&packet,), lasts),
        call_ensures(EncodedSample::play_time_us, (&sample,), time),
    ensures
        packet.pts is Some ==> due == packet.pts,
        packet.pts is None ==> due == packet.dts,
        packet.duration > 0 ==> lasts == Some(packet.duration),
        packet.duration <= 0 ==> lasts is None,
        sample.duration_us >= 1 ==> time == sample.duration_us,
        sample.duration_us < 1 ==> time == 1,
{
}

/// From choosing streams to routing packets: a file with a video or an audio stream is played,
/// packets of its video stream as video, and packets of its audio stream, if that is another,
/// as audio; packets of other streams are not played.
pub proof fn chosen_streams_are_played(
    input: &str,
    video: Option<usize>,
    audio: Option<usize>,
    chosen: Result<ChosenStreams, String>,
    index: usize,
    track: Option<Track>,
)
    requires
        call_ensures(ChosenStreams::choose_streams, (input, video, audio), chosen),
        chosen matches Ok(streams) ==> call_ensures(
            ChosenStreams::route,
            (&streams, index),
            track,
        ),
    ensures
        chosen is Err <==> video is None && audio is None,
        chosen matches Err(e) ==> e@ == input@ + " contains no audio or video stream"@,
        chosen is Ok && video == Some(index) ==> track == Some(Track::Video),
        chosen is Ok && audio == Some(index) && video != Some(index) ==> track == Some(
            Track::Audio,
        ),
        chosen is Ok && audio != Some(index) && video != Some(index) ==> track is None,
{
}

/// What counting does: a batch adds the number of its samples on its track, and nothing on the
/// other; what is said at the end are the two numbers.
pub proof fn counting_adds_batches()
    ensures
        forall|t: SampleTally| #[trigger]
            call_ensures(SampleTally::new, (), t) ==> t.video == 0 && t.audio == 0,
        forall|t: &mut SampleTally, batch: EncodedBatch| #[trigger]
            call_ensures(SampleTally::count, (t, &batch), ()) ==> (match batch {
                EncodedBatch::Video(samples) => final(t).video == t.video + samples@.len()
                    && final(t).audio == t.audio,
                EncodedBatch::Audio(samples) => final(t).audio == t.audio + samples@.len()
                    && final(t).video == t.video,
            }),
        forall|t: SampleTally, s: String| #[trigger]
            call_ensures(SampleTally::report, (&t,), s) ==> s@ == "dry-run ok: encoded "@
                + text::numeral(t.video as nat, 10) + " video samples, "@ + text::numeral(
                t.audio as nat,
                10,
            ) + " audio samples"@,
{
}

} // verus!
