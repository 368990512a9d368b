//! Media: settings, transcoding, pacing and framing.
use realtime_media::clock::{delay_until, paced, Delay, MediaClock};
use realtime_media::dry_run::{DryRun, DryRunStep};
use realtime_media::framing::{
    frame_header, metadata_sample, signature, track_kind, HEADER_SIZE, METADATA_KIND,
};
use realtime_media::media::{
    packet_to_sample, timestamp_or, ChosenStreams, EncodedBatch, EncodedPacket, EncodedSample,
    SampleTally, Track, DEFAULT_AUDIO_PACKET_DURATION_US, DEFAULT_VIDEO_FRAME_DURATION_US,
};
use realtime_media::pump::{MediaPump, PumpStep};
use realtime_media::settings::{
    audio_encoder_name, audio_options, choose_encoder, choose_opus_sample_format, filter_spec,
    make_even, no_audio_encoder, no_video_encoder, sink_frame_size, usable_rate,
    video_encoder_name, video_options, AudioSettings, FilterInput, PixelFormat, Rational,
    SampleFormat, SampleLayout, Scaling, VideoSettings, VideoSource,
};
use realtime_media::stream::{MediaStream, StreamStep};
use realtime_media::text::{push_decimal, push_numeral, push_signed, same_text};
use realtime_media::transcode::{Pipeline, PipelineEvent, Stage, VideoTimeline};

fn sample(pts_us: Option<i64>, duration_us: i64, data: &[u8]) -> EncodedSample {
    EncodedSample { pts_us, duration_us, data: data.to_vec() }
}

fn rational(num: i32, den: i32) -> Rational {
    Rational { num, den }
}

#[test]
fn numbers_are_written_in_a_base() {
    let mut s = String::from("n=");
    push_decimal(&mut s, 0);
    s.push(' ');
    push_decimal(&mut s, u64::MAX);
    s.push(' ');
    push_numeral(&mut s, 0xdeadbeef, 16);
    s.push(' ');
    push_numeral(&mut s, 5, 2);
    s.push(' ');
    push_signed(&mut s, i32::MIN);
    s.push(' ');
    push_signed(&mut s, 7);
    assert_eq!(s, "n=0 18446744073709551615 deadbeef 101 -2147483648 7");
}

#[test]
fn texts_are_compared() {
    assert!(same_text("caf\u{e9}", "caf\u{e9}"));
    assert!(!same_text("a", "b"));
    assert!(!same_text("a", "ab"));
    assert!(same_text("", ""));
}

#[test]
fn sizes_are_made_even() {
    for (value, even) in [(0, 2), (1, 2), (2, 2), (3, 2), (1079, 1078), (u32::MAX, u32::MAX - 1)] {
        assert_eq!(make_even(value), even);
        assert_eq!(make_even(even), even);
    }
}

#[test]
fn rates_must_be_positive() {
    assert_eq!(usable_rate(rational(25, 1)), Some(rational(25, 1)));
    for (num, den) in [(0, 1), (1, 0), (-25, 1), (25, -1)] {
        assert_eq!(usable_rate(rational(num, den)), None);
    }
}

fn source(average: Rational, rate: Rational, decoder: Option<Rational>) -> VideoSource {
    VideoSource {
        width: 1921,
        height: 1,
        average_rate: average,
        rate,
        decoder_rate: decoder,
    }
}

#[test]
fn video_is_encoded_at_the_stated_rate() {
    let none = rational(0, 0);
    let s = VideoSettings::for_source(&source(rational(30_000, 1001), rational(25, 1), None));
    assert_eq!(s.frame_rate, rational(30_000, 1001));
    assert_eq!(s.frame_duration, 3003);
    assert_eq!((s.width, s.height), (1920, 2));
    assert_eq!(s.time_base, rational(1, 90_000));
    assert_eq!((s.format, s.scaling), (PixelFormat::Yuv420p, Scaling::Bilinear));
    assert_eq!((s.bit_rate, s.max_b_frames), (2_000_000, 0));
    let s = VideoSettings::for_source(&source(none, rational(25, 1), Some(rational(50, 1))));
    assert_eq!((s.frame_rate, s.frame_duration), (rational(25, 1), 3600));
    let s = VideoSettings::for_source(&source(none, none, Some(rational(24, 1))));
    assert_eq!((s.frame_rate, s.frame_duration), (rational(24, 1), 3750));
    let s = VideoSettings::for_source(&source(none, none, Some(none)));
    assert_eq!((s.frame_rate, s.frame_duration), (rational(30, 1), 3000));
    let s = VideoSettings::for_source(&source(none, none, None));
    assert_eq!((s.frame_rate, s.frame_duration), (rational(30, 1), 3000));
}

#[test]
fn frames_last_at_least_a_tick() {
    let s = VideoSettings::for_source(&source(rational(90_001, 1), rational(1, 1), None));
    assert_eq!(s.frame_duration, 1);
    let s = VideoSettings::for_source(&source(rational(1, i32::MAX), rational(1, 1), None));
    assert_eq!(s.frame_duration, 90_000 * i64::from(i32::MAX));
}

#[test]
fn encoders_are_chosen_by_name_first() {
    assert_eq!(choose_encoder(Some(1), Some(2), "none"), Ok(1));
    assert_eq!(choose_encoder(None, Some(2), "none"), Ok(2));
    assert_eq!(choose_encoder::<u8>(None, None, "none"), Err("none"));
    assert_eq!(video_encoder_name(), "libx264");
    assert_eq!(audio_encoder_name(), "libopus");
    assert_eq!(no_video_encoder(), "no H264 encoder found; install FFmpeg with libx264 support");
    assert_eq!(no_audio_encoder(), "no Opus encoder found; install FFmpeg with libopus support");
}

#[test]
fn encoders_have_options() {
    assert_eq!(
        video_options(),
        [
            ("preset", "ultrafast"),
            ("tune", "zerolatency"),
            ("profile", "baseline"),
            ("level", "3.1"),
            ("repeat-headers", "1"),
            ("annexb", "1"),
        ]
    );
    assert_eq!(audio_options(), [("application", "audio"), ("frame_duration", "20")]);
}

#[test]
fn opus_takes_the_preferred_format() {
    let i16p = SampleFormat::I16(SampleLayout::Packed);
    let f32p = SampleFormat::F32(SampleLayout::Packed);
    let planar = SampleFormat::F32(SampleLayout::Planar);
    let other = SampleFormat::F64(SampleLayout::Planar);
    assert_eq!(choose_opus_sample_format(Some(vec![other, planar, f32p, i16p])), Ok(i16p));
    assert_eq!(choose_opus_sample_format(Some(vec![other, planar, f32p])), Ok(f32p));
    assert_eq!(choose_opus_sample_format(Some(vec![other, planar])), Ok(planar));
    assert_eq!(choose_opus_sample_format(Some(vec![other, SampleFormat::Unknown])), Ok(other));
    let e = Err("Opus encoder reports no supported sample formats");
    assert_eq!(choose_opus_sample_format(Some(vec![])), e);
    assert_eq!(choose_opus_sample_format(None), e);
}

#[test]
fn audio_is_48_khz() {
    let s = AudioSettings::for_format(SampleFormat::I16(SampleLayout::Packed));
    assert_eq!((s.rate, s.channels, s.bit_rate), (48_000, 2, 96_000));
    assert_eq!(s.time_base, rational(1, 48_000));
    assert_eq!(s.format, SampleFormat::I16(SampleLayout::Packed));
}

#[test]
fn audio_filter_is_described() {
    let mut input = FilterInput {
        time_base: rational(1, 44_100),
        rate: 44_100,
        format: "fltp".to_owned(),
        layout: 0x60f,
        default_layout: 3,
    };
    assert_eq!(
        input.source_args(),
        "time_base=1/44100:sample_rate=44100:sample_fmt=fltp:channel_layout=0x60f"
    );
    input.layout = 0;
    input.time_base = rational(-1, 2);
    assert_eq!(
        input.source_args(),
        "time_base=-1/2:sample_rate=44100:sample_fmt=fltp:channel_layout=0x3"
    );
    assert_eq!(
        filter_spec("s16"),
        "aresample=48000,aformat=channel_layouts=stereo,pan=stereo|c0<FL+FR|c1<FL+FR,volume=0.5,aformat=sample_fmts=s16:channel_layouts=stereo"
    );
}

#[test]
fn filter_cuts_frames_for_encoders_that_need_it() {
    assert_eq!(sink_frame_size(Some(false), 960), Some(960));
    assert_eq!(sink_frame_size(Some(true), 960), None);
    assert_eq!(sink_frame_size(None, 960), None);
}

#[test]
fn streams_are_routed() {
    let s = ChosenStreams::choose_streams("f", Some(2), Some(0)).unwrap();
    assert_eq!(s.route(2), Some(Track::Video));
    assert_eq!(s.route(0), Some(Track::Audio));
    assert_eq!(s.route(1), None);
    let s = ChosenStreams::choose_streams("f", None, Some(1)).unwrap();
    assert_eq!(s.route(1), Some(Track::Audio));
    let s = ChosenStreams::choose_streams("f", Some(1), None).unwrap();
    assert_eq!(s.route(0), None);
    assert_eq!(
        ChosenStreams::choose_streams("f.txt", None, None).unwrap_err(),
        "f.txt contains no audio or video stream"
    );
}

/// Reads a file with packets of the given streams: how many packets each batch takes, and
/// its track, and how many packets are left to read to the end.
fn read_file(streams: ChosenStreams, indexes: &[usize]) -> (Vec<(usize, Track)>, usize) {
    let mut batches = vec![];
    let mut read = 0;
    for &index in indexes {
        read += 1;
        if let Some(track) = streams.route(index) {
            batches.push((read, track));
            read = 0;
        }
    }
    (batches, read)
}

#[test]
fn packets_are_read_up_to_a_played_one() {
    let s = ChosenStreams::choose_streams("f", Some(2), Some(0)).unwrap();
    assert_eq!(
        read_file(s, &[1, 3, 2, 0, 1, 2, 1, 1]),
        (vec![(3, Track::Video), (1, Track::Audio), (2, Track::Video)], 2)
    );
    assert_eq!(read_file(s, &[1, 3, 1]), (vec![], 3));
    assert_eq!(read_file(s, &[]), (vec![], 0));
}

fn packet(pts: Option<i64>, dts: Option<i64>, duration: i64) -> EncodedPacket {
    EncodedPacket { pts, dts, duration, data: Some(vec![1, 2]) }
}

#[test]
fn packets_say_when_they_are_due() {
    assert_eq!(packet(Some(5), Some(4), 0).timestamp(), Some(5));
    assert_eq!(packet(None, Some(4), 0).timestamp(), Some(4));
    assert_eq!(packet(None, None, 0).timestamp(), None);
    assert_eq!(timestamp_or(Some(1), Some(2)), Some(1));
    assert_eq!(packet(None, None, 9).stated_duration(), Some(9));
    assert_eq!(packet(None, None, 0).stated_duration(), None);
    assert_eq!(packet(None, None, -1).stated_duration(), None);
}

#[test]
fn packets_become_samples() {
    let s = packet_to_sample(packet(Some(90), None, 3000), Some(1000), Some(33_333), 7);
    assert_eq!((s.pts_us, s.duration_us, s.data), (Some(1000), 33_333, vec![1, 2]));
    let mut bare = packet(None, None, 0);
    bare.data = None;
    let s = packet_to_sample(bare, None, None, DEFAULT_AUDIO_PACKET_DURATION_US);
    assert_eq!((s.pts_us, s.duration_us, s.data), (None, 20_000, vec![]));
    assert_eq!(DEFAULT_VIDEO_FRAME_DURATION_US, 33_333);
}

#[test]
fn dry_run_counts_samples() {
    let mut tally = SampleTally::new();
    tally.count(&EncodedBatch::Video(vec![sample(None, 1, b""), sample(None, 1, b"")]));
    tally.count(&EncodedBatch::Audio(vec![sample(None, 1, b"")]));
    tally.count(&EncodedBatch::Audio(vec![]));
    assert_eq!(tally.report(), "dry-run ok: encoded 2 video samples, 1 audio samples");
}

#[test]
fn dry_run_counts_to_the_end() {
    let mut run = DryRun::new();
    let mut batches = vec![
        EncodedBatch::Audio(vec![sample(None, 1, b"a")]),
        EncodedBatch::Video(vec![sample(None, 1, b"v"), sample(None, 1, b"w")]),
        EncodedBatch::Audio(vec![]),
    ]
    .into_iter();
    let mut steps = vec![];
    let report = loop {
        match run.next_step() {
            DryRunStep::ReadBatch => {
                steps.push("read");
                run.batch(batches.next());
            }
            DryRunStep::Drain => {
                steps.push("drain");
                run.drained(
                    vec![sample(None, 1, b"x")],
                    vec![sample(None, 1, b"b"), sample(None, 1, b"c"), sample(None, 1, b"d")],
                );
            }
            DryRunStep::Report(report) => break report,
        }
    };
    assert_eq!(steps, ["read", "read", "read", "read", "drain"]);
    assert_eq!(report, "dry-run ok: encoded 3 video samples, 4 audio samples");
}

#[test]
fn dry_run_knows_its_room() {
    let mut run = DryRun::new();
    assert!(run.has_room(Track::Video, usize::MAX));
    run.batch(Some(EncodedBatch::Video(vec![sample(None, 1, b"v")])));
    assert!(!run.has_room(Track::Video, usize::MAX));
    assert!(run.has_room(Track::Video, usize::MAX - 1));
    assert!(run.has_room(Track::Audio, usize::MAX));
}

#[test]
fn frames_without_timestamps_follow_on() {
    let mut t = VideoTimeline::new(3000);
    assert_eq!(t.assign(None), 0);
    assert_eq!(t.assign(None), 3000);
    assert_eq!(t.assign(Some(10_000)), 10_000);
    assert_eq!(t.assign(None), 13_000);
    assert!(t.has_room(Some(i64::MAX - 3000)));
    assert!(!t.has_room(Some(i64::MAX - 2999)));
}

#[test]
fn video_packet_is_transcoded() {
    let mut p = Pipeline::start(false, false);
    assert_eq!(p.state.stage, Stage::ReceiveFrame);
    p.advance(PipelineEvent::Frame(true));
    assert_eq!(p.state.stage, Stage::EncodeFrame);
    p.advance(PipelineEvent::Done);
    assert_eq!(p.state.stage, Stage::ReceivePacket);
    p.advance(PipelineEvent::Packet(Some(sample(Some(1), 1, b"a"))));
    p.advance(PipelineEvent::Packet(Some(sample(Some(2), 1, b"b"))));
    assert_eq!(p.state.stage, Stage::ReceivePacket);
    p.advance(PipelineEvent::Packet(None));
    assert_eq!(p.state.stage, Stage::ReceiveFrame);
    p.advance(PipelineEvent::Frame(false));
    assert_eq!(p.state.stage, Stage::Finished);
    let data: Vec<Vec<u8>> = p.samples.into_iter().map(|s| s.data).collect();
    assert_eq!(data, vec![b"a".to_vec(), b"b".to_vec()]);
}

#[test]
fn end_of_video_flushes_the_encoder() {
    let mut p = Pipeline::start(false, true);
    p.advance(PipelineEvent::Frame(false));
    assert_eq!(p.state.stage, Stage::FlushEncoder);
    p.advance(PipelineEvent::Done);
    assert_eq!(p.state.stage, Stage::ReceivePacket);
    p.advance(PipelineEvent::Packet(None));
    assert_eq!(p.state.stage, Stage::Finished);
}

#[test]
fn end_of_audio_flushes_filter_and_encoder() {
    let mut p = Pipeline::start(true, true);
    let mut stages = vec![];
    for event in [
        PipelineEvent::Frame(true),
        PipelineEvent::Done,
        PipelineEvent::Filtered(true),
        PipelineEvent::Done,
        PipelineEvent::Packet(None),
        PipelineEvent::Filtered(false),
        PipelineEvent::Frame(false),
        PipelineEvent::Done,
        PipelineEvent::Filtered(false),
        PipelineEvent::Done,
        PipelineEvent::Packet(None),
    ] {
        stages.push(p.state.stage);
        p.advance(event);
    }
    assert_eq!(
        stages,
        vec![
            Stage::ReceiveFrame,
            Stage::FilterFrame,
            Stage::ReceiveFiltered,
            Stage::EncodeFrame,
            Stage::ReceivePacket,
            Stage::ReceiveFiltered,
            Stage::ReceiveFrame,
            Stage::FlushFilter,
            Stage::ReceiveFiltered,
            Stage::FlushEncoder,
            Stage::ReceivePacket,
        ]
    );
    assert_eq!(p.state.stage, Stage::Finished);
}

#[test]
fn pump_plays_in_order() {
    let mut pump = MediaPump::new();
    let mut batches = vec![
        EncodedBatch::Video(vec![sample(None, 1, b"v1"), sample(None, 1, b"v2")]),
        EncodedBatch::Video(vec![]),
        EncodedBatch::Audio(vec![sample(None, 1, b"a1")]),
    ]
    .into_iter();
    let mut sent = vec![];
    loop {
        match pump.next_step() {
            PumpStep::ReadBatch => pump.batch(batches.next()),
            PumpStep::Drain => pump.drained(
                vec![sample(None, 1, b"v3")],
                vec![sample(None, 1, b"a2"), sample(None, 1, b"a3")],
            ),
            PumpStep::Send(delay, track, sample) => {
                assert_eq!(delay, None);
                sent.push((track, String::from_utf8(sample.data).unwrap()))
            }
            PumpStep::Finished => break,
        }
    }
    let expected = [
        (Track::Video, "v1"),
        (Track::Video, "v2"),
        (Track::Audio, "a1"),
        (Track::Video, "v3"),
        (Track::Audio, "a2"),
        (Track::Audio, "a3"),
    ];
    assert_eq!(sent, expected.map(|(track, data)| (track, data.to_owned())));
}

#[test]
fn pump_paces_samples() {
    let mut pump = MediaPump::new();
    assert!(matches!(pump.next_step(), PumpStep::ReadBatch));
    let hour = 3_600_000_000;
    pump.batch(Some(EncodedBatch::Audio(vec![
        sample(Some(0), 1, b"a"),
        sample(Some(hour), 1, b"b"),
        sample(Some(hour / 2), 1, b"c"),
        sample(None, 1, b"d"),
    ])));
    let mut delays = vec![];
    while let PumpStep::Send(delay, Track::Audio, _) = pump.next_step() {
        delays.push(delay);
    }
    assert_eq!(delays.len(), 4);
    assert_eq!(delays[0], None);
    assert_eq!(delays[1], Some(Delay { secs: 3600, nanos: 0 }));
    let half = delays[2].unwrap();
    assert!(half.secs == 1800 && half.nanos == 0 || half.secs == 1799);
    assert_eq!(delays[3], None);
}

/// Plays a file to a stream: the steps by name, and the bytes written.
fn stream_file(
    video_size: Option<(u32, u32)>,
    batches: Vec<EncodedBatch>,
    video: Vec<EncodedSample>,
    audio: Vec<EncodedSample>,
) -> (Vec<&'static str>, Vec<u8>) {
    let mut stream = MediaStream::new();
    let mut batches = batches.into_iter();
    let mut rest = Some((video, audio));
    let mut steps = vec![];
    let mut written = vec![];
    loop {
        match stream.next_step() {
            StreamStep::Write(bytes) => {
                steps.push("write");
                written.extend(bytes);
            }
            StreamStep::OpenFile => {
                steps.push("open");
                stream.file_opened(video_size);
            }
            StreamStep::ReadBatch => {
                steps.push("read");
                stream.batch(batches.next());
            }
            StreamStep::Drain => {
                steps.push("drain");
                let (video, audio) = rest.take().unwrap();
                stream.drained(video, audio);
            }
            StreamStep::Send(delay, header, data) => {
                steps.push("send");
                assert_eq!(delay, None);
                assert_eq!(header.len(), HEADER_SIZE);
                written.extend(header);
                written.extend(data);
            }
            StreamStep::Finished => return (steps, written),
        }
    }
}

fn frame(kind: u8, sample: &EncodedSample) -> Vec<u8> {
    let mut frame = frame_header(kind, sample);
    frame.extend(&sample.data);
    frame
}

#[test]
fn stream_is_written_in_order() {
    let (steps, written) = stream_file(
        Some((640, 480)),
        vec![
            EncodedBatch::Audio(vec![sample(None, 5, b"a1")]),
            EncodedBatch::Video(vec![sample(Some(0), 0, b"v1"), sample(Some(-7), 3, b"v2")]),
        ],
        vec![sample(None, 1, b"v3")],
        vec![sample(None, 1, b"a2")],
    );
    assert_eq!(
        steps,
        [
            "write", "open", "write", "read", "send", "read", "send", "send", "read", "drain",
            "send", "send",
        ]
    );
    let mut expected = b"WTMEDIA1".to_vec();
    expected.extend(frame(0, &metadata_sample(Some((640, 480)))));
    expected.extend(frame(2, &sample(None, 5, b"a1")));
    expected.extend(frame(1, &sample(Some(0), 0, b"v1")));
    expected.extend(frame(1, &sample(Some(-7), 3, b"v2")));
    expected.extend(frame(1, &sample(None, 1, b"v3")));
    expected.extend(frame(2, &sample(None, 1, b"a2")));
    assert_eq!(written, expected);
}

#[test]
fn empty_file_is_still_described() {
    let (steps, written) = stream_file(None, vec![], vec![], vec![]);
    assert_eq!(steps, ["write", "open", "write", "read", "drain"]);
    let text = br#"{"video":{"codec":"avc1.42E01F","width":0,"height":0},"audio":{"codec":"opus","sampleRate":48000,"channels":2}}"#;
    let mut expected = b"WTMEDIA1".to_vec();
    expected.extend([0, 0, 0, 0, 0, 0, 0, 0, 0, 0, 0, 0, 0, 0, 0, 0, 1, 0, 0, 0]);
    expected.push(text.len() as u8);
    expected.extend(text);
    assert_eq!(written, expected);
}

#[test]
fn stream_paces_samples() {
    let mut stream = MediaStream::new();
    stream.next_step();
    stream.next_step();
    stream.file_opened(None);
    stream.next_step();
    let hour = 3_600_000_000;
    stream.batch(Some(EncodedBatch::Video(vec![
        sample(Some(hour), 1, b"a"),
        sample(Some(1), 1, b"b"),
    ])));
    match stream.next_step() {
        StreamStep::Send(delay, _, data) => {
            assert_eq!(delay, Some(Delay { secs: 3600, nanos: 0 }));
            assert_eq!(data, b"a");
        }
        step => panic!("{step:?}"),
    }
    let begin = std::time::Instant::now();
    while begin.elapsed().as_millis() < 1 {}
    assert!(matches!(stream.next_step(), StreamStep::Send(None, _, _)));
}

#[test]
fn clock_starts_at_the_first_positive_timestamp() {
    assert_eq!(paced(None, None, 7), (None, None));
    assert_eq!(paced(None, Some(0), 7), (None, None));
    assert_eq!(paced(None, Some(-3), 7), (None, None));
    assert_eq!(
        paced(None, Some(2_000_000), 500),
        (Some(500), Some(Delay { secs: 2, nanos: 0 }))
    );
    assert_eq!(
        paced(Some(500), Some(2_000_000), 500_000_500),
        (Some(500), Some(Delay { secs: 1, nanos: 500_000_000 }))
    );
    assert_eq!(paced(Some(500), None, 900), (Some(500), None));
}

#[test]
fn earlier_sample_does_not_wait_again() {
    let (start, delay) = paced(None, Some(2_000_000), 500);
    assert_eq!(delay, Some(Delay { secs: 2, nanos: 0 }));
    assert_eq!(paced(start, Some(1_000_000), 2_000_000_500), (Some(500), None));
}

#[test]
fn delay_ends_at_the_timestamp() {
    assert_eq!(delay_until(2_500_000, 1_000), Some(Delay { secs: 2, nanos: 499_999_000 }));
    assert_eq!(delay_until(1, 1_000), Some(Delay { secs: 0, nanos: 0 }));
    assert_eq!(delay_until(1, 1_001), None);
    assert_eq!(
        delay_until(i64::MAX, 0),
        Some(Delay { secs: 9_223_372_036_854, nanos: 775_807_000 })
    );
}

#[test]
fn clock_waits_for_positive_timestamps() {
    let mut clock = MediaClock::new();
    assert_eq!(clock.wait_until(None), None);
    assert_eq!(clock.wait_until(Some(0)), None);
    assert_eq!(clock.wait_until(Some(-5)), None);
    let hour = 3_600_000_000;
    let first = clock.wait_until(Some(hour)).unwrap();
    assert!(first.secs == 3600 && first.nanos == 0 || first.secs == 3599);
    let begin = std::time::Instant::now();
    while begin.elapsed().as_millis() < 20 {}
    let second = clock.wait_until(Some(hour)).unwrap();
    assert_eq!(second.secs, 3599);
    assert!(second.nanos <= 980_000_000);
    assert_eq!(clock.wait_until(Some(1)), None);
}

#[test]
fn stream_starts_with_a_signature() {
    assert_eq!(signature(), b"WTMEDIA1");
}

#[test]
fn frame_has_a_header() {
    let header = frame_header(1, &sample(Some(0x0102), 33_333, b"abc"));
    assert_eq!(header.len(), HEADER_SIZE);
    assert_eq!(
        header,
        [1, 0, 0, 0, 0, 0, 0, 1, 2, 0, 0, 0, 0, 0, 0, 0x82, 0x35, 0, 0, 0, 3]
    );
}

#[test]
fn frame_without_a_timestamp_says_so() {
    let header = frame_header(2, &sample(None, -7, b""));
    let mut expected = vec![2];
    expected.extend_from_slice(&(-1i64).to_be_bytes());
    expected.extend_from_slice(&1i64.to_be_bytes());
    expected.extend_from_slice(&0u32.to_be_bytes());
    assert_eq!(header, expected);
}

#[test]
fn frames_are_read_back() {
    let mut stream = vec![];
    let samples = [sample(Some(i64::MIN), i64::MAX, b"first"), sample(Some(-2), 9, b"")];
    for s in &samples {
        stream.extend_from_slice(&frame_header(track_kind(Track::Audio), s));
        stream.extend_from_slice(&s.data);
    }
    let mut rest = stream.as_slice();
    for s in &samples {
        assert_eq!(rest[0], 2);
        assert_eq!(i64::from_be_bytes(rest[1..9].try_into().unwrap()), s.pts_us.unwrap());
        assert_eq!(i64::from_be_bytes(rest[9..17].try_into().unwrap()), s.duration_us);
        let length = u32::from_be_bytes(rest[17..21].try_into().unwrap()) as usize;
        assert_eq!(&rest[21..21 + length], s.data.as_slice());
        rest = &rest[21 + length..];
    }
    assert!(rest.is_empty());
    assert_eq!(track_kind(Track::Video), 1);
}

#[test]
fn metadata_describes_the_media() {
    let s = metadata_sample(Some((1280, 720)));
    assert_eq!((s.pts_us, s.duration_us), (Some(0), 1));
    assert_eq!(
        String::from_utf8(s.data).unwrap(),
        r#"{"video":{"codec":"avc1.42E01F","width":1280,"height":720},"audio":{"codec":"opus","sampleRate":48000,"channels":2}}"#
    );
    let s = metadata_sample(None);
    assert_eq!(
        String::from_utf8(s.data).unwrap(),
        r#"{"video":{"codec":"avc1.42E01F","width":0,"height":0},"audio":{"codec":"opus","sampleRate":48000,"channels":2}}"#
    );
    assert_eq!(METADATA_KIND, 0);
}

#[test]
fn samples_last_at_least_a_microsecond() {
    assert_eq!(sample(None, 0, b"").play_time_us(), 1);
    assert_eq!(sample(None, -3, b"").play_time_us(), 1);
    assert_eq!(sample(None, 20_000, b"").play_time_us(), 20_000);
}
