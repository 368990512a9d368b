//! The byte format of a WebTransport media stream: a signature, then frames, each a header
//! of fixed size and the bytes of a sample. The first frame describes the media.
use vstd::prelude::*;
use vstd::string::*;
use vstd::arithmetic::div_mod::*;
use vstd::arithmetic::power::*;
use vstd::utf8::*;
use crate::media;
use crate::media::{EncodedSample, Track};
use crate::text;

verus! {

/// The size of a frame's header.
pub const HEADER_SIZE: usize = 21;

/// The kind of the frame that describes the media.
pub const METADATA_KIND: u8 = 0;

/// The kind of a frame of video.
pub const VIDEO_KIND: u8 = 1;

/// The kind of a frame of audio.
pub const AUDIO_KIND: u8 = 2;

/// The kind of the frames of a track.
pub open spec fn kind_of(track: Track) -> u8 {
    match track {
        Track::Video => VIDEO_KIND,
        Track::Audio => AUDIO_KIND,
    }
}

/// The kind of the frames of a track.
pub fn track_kind(track: Track) -> (kind: u8)
    ensures
        kind == kind_of(track),
        kind == (if track is Video {
            1u8
        } else {
            2u8
        }),
{
    match track {
        Track::Video => VIDEO_KIND,
        Track::Audio => AUDIO_KIND,
    }
}

/// The bytes with which a stream starts: `WTMEDIA1`.
pub open spec fn signature_bytes() -> Seq<u8> {
    encode_utf8("WTMEDIA1"@)
}

/// The bytes with which a stream starts.
pub fn signature() -> (s: Vec<u8>)
    ensures
        s@ == signature_bytes(),
        s@ == seq![0x57u8, 0x54, 0x4d, 0x45, 0x44, 0x49, 0x41, 0x31],
{
    proof {
        lemma_signature();
    }
    vstd::slice::slice_to_vec("WTMEDIA1".as_bytes())
}

/// The signature is eight bytes of ASCII.
pub proof fn lemma_signature()
    ensures
        signature_bytes() == seq![0x57u8, 0x54, 0x4d, 0x45, 0x44, 0x49, 0x41, 0x31],
{
    reveal_strlit("WTMEDIA1");
    is_ascii_chars_encode_utf8("WTMEDIA1"@);
    assert(signature_bytes() =~= seq![0x57u8, 0x54, 0x4d, 0x45, 0x44, 0x49, 0x41, 0x31]);
}

// ---------------------------------------------------------------------------
// Numbers as bytes
// ---------------------------------------------------------------------------

/// The lowest `width` bytes of `n`, the most significant first.
pub open spec fn big_endian(n: nat, width: nat) -> Seq<u8>
    decreases width,
{
    if width == 0 {
        seq![]
    } else {
        big_endian(n / 256, (width - 1) as nat).push((n % 256) as u8)
    }
}

/// The number that bytes stand for, the most significant first.
pub open spec fn big_endian_value(b: Seq<u8>) -> nat
    decreases b.len(),
{
    if b.len() == 0 {
        0
    } else {
        256 * big_endian_value(b.drop_last()) + b.last() as nat
    }
}

/// Two's complement in 64 bits.
pub open spec fn twos_complement(i: i64) -> nat {
    if i < 0 {
        (i + 0x1_0000_0000_0000_0000) as nat
    } else {
        i as nat
    }
}

/// The number that 64 bits stand for in two's complement.
pub open spec fn twos_complement_value(n: nat) -> int {
    if n >= 0x8000_0000_0000_0000 {
        n - 0x1_0000_0000_0000_0000
    } else {
        n as int
    }
}

fn push_big_endian(out: &mut Vec<u8>, n: u64, width: usize)
    ensures
        final(out)@ == old(out)@ + big_endian(n as nat, width as nat),
    decreases width,
{
    if width > 0 {
        push_big_endian(out, n / 256, width - 1);
        out.push((n % 256) as u8);
        proof {
            assert(out@ =~= old(out)@ + big_endian(n as nat, width as nat));
        }
    } else {
        proof {
            assert(out@ =~= old(out)@ + big_endian(n as nat, width as nat));
        }
    }
}

fn push_signed_big_endian(out: &mut Vec<u8>, i: i64)
    ensures
        final(out)@ == old(out)@ + big_endian(twos_complement(i), 8),
{
    let n: u64 = #[verifier::truncate]
    (i as u64);
    assert(n == (if i < 0 {
        i + 0x1_0000_0000_0000_0000
    } else {
        i as int
    })) by (bit_vector)
        requires
            n == i as u64,
    ;
    push_big_endian(out, n, 8);
}

// ---------------------------------------------------------------------------
// Frames
// ---------------------------------------------------------------------------

/// The header of a frame: its kind, when it is due (-1 if that is not known) and how long it
/// lasts in microseconds, and the lowest 32 bits of the length of its data.
pub open spec fn header_bytes(kind: u8, pts_us: Option<i64>, duration_us: i64, length: nat) -> Seq<
    u8,
> {
    seq![kind] + big_endian(twos_complement(wire_pts(pts_us)), 8) + big_endian(
        twos_complement(media::play_time(duration_us)),
        8,
    ) + big_endian(length % 0x1_0000_0000, 4)
}

/// How a timestamp is sent: -1 stands for none.
pub open spec fn wire_pts(pts_us: Option<i64>) -> i64 {
    match pts_us {
        Some(pts_us) => pts_us,
        None => (-1) as i64,
    }
}

/// A frame: the header and the data.
pub open spec fn frame(kind: u8, pts_us: Option<i64>, duration_us: i64, data: Seq<u8>) -> Seq<u8> {
    header_bytes(kind, pts_us, duration_us, data.len()) + data
}

/// The frame that carries a sample.
pub open spec fn frame_bytes(kind: u8, sample: EncodedSample) -> Seq<u8> {
    frame(kind, sample.pts_us, sample.duration_us, sample.data@)
}

/// The header of the frame that carries a sample. The data of the sample follows it.
pub fn frame_header(kind: u8, sample: &EncodedSample) -> (header: Vec<u8>)
    ensures
        header@ == header_bytes(kind, sample.pts_us, sample.duration_us, sample.data@.len()),
        header@.len() == HEADER_SIZE,
        header@ + sample.data@ == frame_bytes(kind, *sample),
        header@[0] == kind,
{
    let pts_us: i64 = match sample.pts_us {
        Some(pts_us) => pts_us,
        None => -1,
    };
    let mut header: Vec<u8> = Vec::new();
    header.push(kind);
    push_signed_big_endian(&mut header, pts_us);
    push_signed_big_endian(&mut header, sample.play_time_us());
    push_big_endian(&mut header, sample.data.len() as u64 % 0x1_0000_0000, 4);
    proof {
        assert(seq![kind] =~= Seq::<u8>::empty().push(kind));
        lemma_big_endian(twos_complement(pts_us), 8);
        lemma_big_endian(twos_complement(media::play_time(sample.duration_us)), 8);
        lemma_big_endian(sample.data@.len() % 0x1_0000_0000, 4);
    }
    header
}

// ---------------------------------------------------------------------------
// The description of the media
// ---------------------------------------------------------------------------

/// What the first frame says: the codecs, the size of the video (0 by 0 if there is none)
/// and the form of the audio.
pub open spec fn metadata_text(width: u32, height: u32) -> Seq<char> {
    "{\"video\":{\"codec\":\"avc1.42E01F\",\"width\":"@ + text::decimal(width as nat)
        + ",\"height\":"@ + text::decimal(height as nat)
        + "},\"audio\":{\"codec\":\"opus\",\"sampleRate\":48000,\"channels\":2}}"@
}

/// The data of the first frame.
pub open spec fn metadata_bytes(video_size: Option<(u32, u32)>) -> Seq<u8> {
    encode_utf8(
        match video_size {
            Some((width, height)) => metadata_text(width, height),
            None => metadata_text(0, 0),
        },
    )
}

/// The sample of the first frame.
pub open spec fn is_metadata(video_size: Option<(u32, u32)>, sample: EncodedSample) -> bool {
    &&& sample.pts_us == Some(0i64)
    &&& sample.duration_us == 1
    &&& sample.data@ == metadata_bytes(video_size)
}

/// The first frame: it is due at 0 and describes the media.
pub open spec fn metadata_frame(video_size: Option<(u32, u32)>) -> Seq<u8> {
    frame(METADATA_KIND, Some(0), 1, metadata_bytes(video_size))
}

/// The sample of the first frame.
pub fn metadata_sample(video_size: Option<(u32, u32)>) -> (sample: EncodedSample)
    ensures
        is_metadata(video_size, sample),
{
    let (width, height): (u32, u32) = match video_size {
        Some(size) => size,
        None => (0, 0),
    };
    let mut s: String = String::new();
    s.append("{\"video\":{\"codec\":\"avc1.42E01F\",\"width\":");
    text::push_decimal(&mut s, width as u64);
    s.append(",\"height\":");
    text::push_decimal(&mut s, height as u64);
    s.append("},\"audio\":{\"codec\":\"opus\",\"sampleRate\":48000,\"channels\":2}}");
    proof {
        assert(s@ =~= metadata_text(width, height));
    }
    EncodedSample {
        pts_us: Some(0),
        duration_us: 1,
        data: vstd::slice::slice_to_vec(s.as_str().as_bytes()),
    }
}

// ---------------------------------------------------------------------------
// Laws
// ---------------------------------------------------------------------------

/// A number that fits in `width` bytes is read back from them, and there are that many.
pub proof fn lemma_big_endian(n: nat, width: nat)
    ensures
        big_endian(n, width).len() == width,
        n < pow(256, width) ==> big_endian_value(big_endian(n, width)) == n,
    decreases width,
{
    reveal(pow);
    if width > 0 {
        let w = (width - 1) as nat;
        lemma_big_endian(n / 256, w);
        let b = big_endian(n, width);
        assert(b.drop_last() =~= big_endian(n / 256, w));
        if n < pow(256, width) {
            assert(n / 256 < pow(256, w)) by (nonlinear_arith)
                requires
                    n < pow(256, width),
                    pow(256, width) == 256 * pow(256, w),
            ;
        }
    }
}

/// What a reader of the stream takes from a frame.
#[verifier::ext_equal]
pub struct FrameView {
    pub kind: u8,
    pub pts_us: int,
    pub duration_us: int,
    pub data: Seq<u8>,
}

/// Reads the frame at the start of `b`: the frame and the bytes after it, or nothing where
/// the frame is not complete.
pub open spec fn read_frame(b: Seq<u8>) -> Option<(FrameView, Seq<u8>)> {
    let length = big_endian_value(b.subrange(17, 21));
    if b.len() < HEADER_SIZE || b.len() < HEADER_SIZE + length {
        None
    } else {
        Some(
            (
                FrameView {
                    kind: b[0],
                    pts_us: twos_complement_value(big_endian_value(b.subrange(1, 9))),
                    duration_us: twos_complement_value(big_endian_value(b.subrange(9, 17))),
                    data: b.subrange(21, 21 + length as int),
                },
                b.skip(21 + length as int),
            ),
        )
    }
}

/// Reads frames until the bytes end; nothing where the last one is not complete.
pub open spec fn read_frames(b: Seq<u8>) -> Option<Seq<FrameView>>
    decreases b.len(),
{
    if b.len() == 0 {
        Some(seq![])
    } else {
        match read_frame(b) {
            None => None,
            Some((frame, rest)) => match read_frames(rest) {
                None => None,
                Some(frames) => Some(seq![frame] + frames),
            },
        }
    }
}

/// What a reader is meant to take from a frame.
pub open spec fn frame_view(
    kind: u8,
    pts_us: Option<i64>,
    duration_us: i64,
    data: Seq<u8>,
) -> FrameView {
    FrameView {
        kind,
        pts_us: wire_pts(pts_us) as int,
        duration_us: media::play_time(duration_us) as int,
        data,
    }
}

/// What a reader is meant to take from the frame of a sample.
pub open spec fn frame_of(kind: u8, sample: EncodedSample) -> FrameView {
    frame_view(kind, sample.pts_us, sample.duration_us, sample.data@)
}

/// A frame is read back from its bytes, whatever follows it, if the length of its data fits
/// in the 32 bits that the header has for it.
pub proof fn frame_reads_back(
    kind: u8,
    pts_us: Option<i64>,
    duration_us: i64,
    data: Seq<u8>,
    rest: Seq<u8>,
)
    requires
        data.len() < 0x1_0000_0000,
    ensures
        read_frame(frame(kind, pts_us, duration_us, data) + rest) == Some(
            (frame_view(kind, pts_us, duration_us, data), rest),
        ),
{
    let pts = twos_complement(wire_pts(pts_us));
    let duration = twos_complement(media::play_time(duration_us));
    let length = data.len();
    assert(pow(256, 8) == 0x1_0000_0000_0000_0000 && pow(256, 4) == 0x1_0000_0000) by {
        reveal(pow);
        reveal_with_fuel(pow, 9);
    }
    lemma_big_endian(pts, 8);
    lemma_big_endian(duration, 8);
    lemma_big_endian(length, 4);
    let b = frame(kind, pts_us, duration_us, data) + rest;
    assert(length % 0x1_0000_0000 == length);
    assert(b[0] == kind);
    assert(b.subrange(1, 9) =~= big_endian(pts, 8));
    assert(b.subrange(9, 17) =~= big_endian(duration, 8));
    assert(b.subrange(17, 21) =~= big_endian(length, 4));
    assert(b.subrange(21, 21 + length as int) =~= data);
    assert(b.skip(21 + length as int) =~= rest);
}

/// The frames of samples, one after another.
pub open spec fn stream_bytes(frames: Seq<(u8, EncodedSample)>) -> Seq<u8>
    decreases frames.len(),
{
    if frames.len() == 0 {
        seq![]
    } else {
        frame_bytes(frames[0].0, frames[0].1) + stream_bytes(frames.drop_first())
    }
}

/// All frames of a stream are read back from its bytes, in the order in which they were
/// written.
pub proof fn stream_reads_back(frames: Seq<(u8, EncodedSample)>)
    requires
        forall|i: int|
            0 <= i < frames.len() ==> (#[trigger] frames[i]).1.data@.len() < 0x1_0000_0000,
    ensures
        read_frames(stream_bytes(frames)) == Some(
            frames.map_values(|f: (u8, EncodedSample)| frame_of(f.0, f.1)),
        ),
    decreases frames.len(),
{
    let view = |f: (u8, EncodedSample)| frame_of(f.0, f.1);
    if frames.len() == 0 {
        assert(frames.map_values(view) =~= seq![]);
    } else {
        let rest = frames.drop_first();
        assert forall|i: int| 0 <= i < rest.len() implies (#[trigger] rest[i]).1.data@.len()
            < 0x1_0000_0000 by {
            assert(rest[i] == frames[i + 1]);
        }
        stream_reads_back(rest);
        let (kind, sample) = frames[0];
        frame_reads_back(
            kind,
            sample.pts_us,
            sample.duration_us,
            sample.data@,
            stream_bytes(rest),
        );
        lemma_big_endian(twos_complement(wire_pts(sample.pts_us)), 8);
        assert(stream_bytes(frames).len() > 0);
        assert(frames.map_values(view) =~= seq![frame_of(kind, sample)] + rest.map_values(view));
    }
}

/// One more frame is one more piece at the end.
pub proof fn lemma_stream_push(frames: Seq<(u8, EncodedSample)>, kind: u8, sample: EncodedSample)
    ensures
        stream_bytes(frames.push((kind, sample))) == stream_bytes(frames) + frame_bytes(
            kind,
            sample,
        ),
    decreases frames.len(),
{
    let longer = frames.push((kind, sample));
    if frames.len() == 0 {
        assert(longer.drop_first() =~= seq![]);
        assert(stream_bytes(longer.drop_first()) =~= seq![]);
        assert(stream_bytes(longer) =~= stream_bytes(frames) + frame_bytes(kind, sample));
    } else {
        assert(longer.drop_first() =~= frames.drop_first().push((kind, sample)));
        lemma_stream_push(frames.drop_first(), kind, sample);
        assert(stream_bytes(longer) =~= stream_bytes(frames) + frame_bytes(kind, sample));
    }
}

/// The description of the media is short.
proof fn lemma_metadata_short(video_size: Option<(u32, u32)>)
    ensures
        metadata_bytes(video_size).len() < 200,
{
    let (width, height): (u32, u32) = match video_size {
        Some(size) => size,
        None => (0, 0),
    };
    let text = metadata_text(width, height);
    reveal_strlit("{\"video\":{\"codec\":\"avc1.42E01F\",\"width\":");
    reveal_strlit(",\"height\":");
    reveal_strlit("},\"audio\":{\"codec\":\"opus\",\"sampleRate\":48000,\"channels\":2}}");
    assert(pow(10, 10) == 10_000_000_000) by {
        reveal(pow);
        reveal_with_fuel(pow, 11);
    }
    text::lemma_decimal(width as nat);
    text::lemma_decimal(height as nat);
    text::lemma_decimal_short(width as nat, 10);
    text::lemma_decimal_short(height as nat, 10);
    let w = text::decimal(width as nat);
    let h = text::decimal(height as nat);
    assert forall|i: int| 0 <= i < w.len() implies '0' <= #[trigger] w[i] <= '9' by {
        assert(text::is_digit(w[i]));
    }
    assert forall|i: int| 0 <= i < h.len() implies '0' <= #[trigger] h[i] <= '9' by {
        assert(text::is_digit(h[i]));
    }
    assert(is_ascii_chars(text));
    is_ascii_chars_encode_utf8(text);
}

/// Reads a whole stream: the signature, and the frames after it.
pub open spec fn read_stream(b: Seq<u8>) -> Option<Seq<FrameView>> {
    if signature_bytes().is_prefix_of(b) {
        read_frames(b.skip(signature_bytes().len() as int))
    } else {
        None
    }
}

/// What a client reads from a stream that was written to its end: first the description of
/// the media, and then every sample, in the order in which they were written.
pub proof fn whole_stream_reads_back(
    video_size: Option<(u32, u32)>,
    frames: Seq<(u8, EncodedSample)>,
)
    requires
        forall|i: int|
            0 <= i < frames.len() ==> (#[trigger] frames[i]).1.data@.len() < 0x1_0000_0000,
    ensures
        read_stream(signature_bytes() + metadata_frame(video_size) + stream_bytes(frames)) == Some(
            seq![frame_view(METADATA_KIND, Some(0), 1, metadata_bytes(video_size))]
                + frames.map_values(|f: (u8, EncodedSample)| frame_of(f.0, f.1)),
        ),
{
    let b = signature_bytes() + metadata_frame(video_size) + stream_bytes(frames);
    let rest = metadata_frame(video_size) + stream_bytes(frames);
    assert(signature_bytes().is_prefix_of(b));
    assert(b.skip(signature_bytes().len() as int) =~= rest);
    lemma_metadata_short(video_size);
    frame_reads_back(METADATA_KIND, Some(0), 1, metadata_bytes(video_size), stream_bytes(frames));
    stream_reads_back(frames);
    lemma_big_endian(twos_complement(0), 8);
    assert(rest.len() > 0);
}

/// Each byte of a number holds its place: with the last byte counted as 0, byte `k` holds the
/// digit of 256 to the power of `k`.
pub proof fn bytes_hold_their_places(n: nat, width: nat, i: int)
    requires
        0 <= i < width,
    ensures
        big_endian(n, width).len() == width,
        big_endian(n, width)[i] == (n as int / pow(256, (width - 1 - i) as nat)) % 256,
    decreases width,
{
    reveal(pow);
    lemma_big_endian(n, width);
    let w = (width - 1) as nat;
    lemma_big_endian(n / 256, w);
    assert(pow(256, 0) == 1);
    if i == w {
        assert(n as int / 1 == n);
    } else {
        bytes_hold_their_places(n / 256, w, i);
        let k = (w - 1 - i) as nat;
        assert(pow(256, k + 1) == 256 * pow(256, k));
        lemma_pow_positive(256, k);
        lemma_div_denominator(n as int, 256, pow(256, k));
    }
}

/// Where everything stands in a header: the kind is byte 0; bytes 1 to 8 are the timestamp, or
/// all ones where there is none, and bytes 9 to 16 the duration, at least 1, both in
/// microseconds as 64 bits in two's complement; bytes 17 to 20 are the lowest 32 bits of the
/// length. The most significant byte of each comes first.
pub proof fn header_has_its_layout(
    kind: u8,
    pts_us: Option<i64>,
    duration_us: i64,
    length: nat,
    i: int,
)
    ensures
        ({
            let header = header_bytes(kind, pts_us, duration_us, length);
            let pts: int = match pts_us {
                Some(t) => if t < 0 {
                    t + 0x1_0000_0000_0000_0000
                } else {
                    t as int
                },
                None => 0xffff_ffff_ffff_ffff,
            };
            let duration: int = if duration_us < 1 {
                1
            } else {
                duration_us as int
            };
            &&& header.len() == 21
            &&& header[0] == kind
            &&& 0 <= i < 8 ==> header[1 + i] == (pts / pow(256, (7 - i) as nat)) % 256
            &&& 0 <= i < 8 ==> header[9 + i] == (duration / pow(256, (7 - i) as nat)) % 256
            &&& 0 <= i < 4 ==> header[17 + i] == ((length as int % 0x1_0000_0000) / pow(
                256,
                (3 - i) as nat,
            )) % 256
        }),
{
    let pts = twos_complement(wire_pts(pts_us));
    let duration = twos_complement(media::play_time(duration_us));
    lemma_big_endian(pts, 8);
    lemma_big_endian(duration, 8);
    lemma_big_endian(length % 0x1_0000_0000, 4);
    if 0 <= i < 8 {
        bytes_hold_their_places(pts, 8, i);
        bytes_hold_their_places(duration, 8, i);
    }
    if 0 <= i < 4 {
        bytes_hold_their_places(length % 0x1_0000_0000, 4, i);
    }
}

/// A reader of a frame gets the sample: its timestamp, or -1 where it has none, its duration,
/// or 1 where that is less, and all its data; the reader goes on with what follows the frame.
pub proof fn a_reader_gets_the_sample(kind: u8, sample: EncodedSample, rest: Seq<u8>)
    requires
        sample.data@.len() < 0x1_0000_0000,
    ensures
        read_frame(frame_bytes(kind, sample) + rest) matches Some((f, after)) && {
            &&& after == rest
            &&& f.kind == kind
            &&& sample.pts_us matches Some(p) ==> f.pts_us == p
            &&& sample.pts_us is None ==> f.pts_us == -1
            &&& f.duration_us >= 1
            &&& sample.duration_us >= 1 ==> f.duration_us == sample.duration_us
            &&& sample.duration_us < 1 ==> f.duration_us == 1
            &&& f.data == sample.data@
        },
{
    frame_reads_back(kind, sample.pts_us, sample.duration_us, sample.data@, rest);
}

/// The same of the parts of a frame.
pub proof fn a_reader_gets_the_parts(
    kind: u8,
    pts_us: Option<i64>,
    duration_us: i64,
    data: Seq<u8>,
    rest: Seq<u8>,
)
    requires
        data.len() < 0x1_0000_0000,
    ensures
        read_frame(frame(kind, pts_us, duration_us, data) + rest) matches Some((f, after)) && {
            &&& after == rest
            &&& f.kind == kind
            &&& pts_us matches Some(p) ==> f.pts_us == p
            &&& pts_us is None ==> f.pts_us == -1
            &&& duration_us >= 1 ==> f.duration_us == duration_us
            &&& duration_us < 1 ==> f.duration_us == 1
            &&& f.data == data
        },
{
    frame_reads_back(kind, pts_us, duration_us, data, rest);
}

/// The kinds of frames tell the tracks apart, and both from the description of the media.
pub proof fn kinds_tell_tracks_apart(a: Track, b: Track)
    ensures
        kind_of(a) == (if a is Video {
            1u8
        } else {
            2u8
        }),
        kind_of(a) == kind_of(b) <==> a == b,
        kind_of(a) != METADATA_KIND,
        METADATA_KIND == 0,
{
}

/// The description of the media states the width and the height of the video in decimal, each
/// at its name, and 0 by 0 where there is no video.
pub proof fn the_description_states_the_size(width: u32, height: u32)
    ensures
        metadata_bytes(Some((width, height))) == encode_utf8(
            "{\"video\":{\"codec\":\"avc1.42E01F\",\"width\":"@ + text::numeral(width as nat, 10)
                + ",\"height\":"@ + text::numeral(height as nat, 10)
                + "},\"audio\":{\"codec\":\"opus\",\"sampleRate\":48000,\"channels\":2}}"@,
        ),
        metadata_bytes(None) == metadata_bytes(Some((0, 0))),
{
}

/// Different sizes are described differently.
pub proof fn descriptions_tell_sizes_apart(a: (u32, u32), b: (u32, u32))
    requires
        metadata_text(a.0, a.1) == metadata_text(b.0, b.1),
    ensures
        a == b,
{
    let p = "{\"video\":{\"codec\":\"avc1.42E01F\",\"width\":"@;
    let q = ",\"height\":"@;
    let r = "},\"audio\":{\"codec\":\"opus\",\"sampleRate\":48000,\"channels\":2}}"@;
    reveal_strlit(",\"height\":");
    reveal_strlit("},\"audio\":{\"codec\":\"opus\",\"sampleRate\":48000,\"channels\":2}}");
    let (aw, ah) = (text::decimal(a.0 as nat), text::decimal(a.1 as nat));
    let (bw, bh) = (text::decimal(b.0 as nat), text::decimal(b.1 as nat));
    let t = metadata_text(a.0, a.1);
    let s = t.skip(p.len() as int);
    assert(s =~= aw + (q + ah + r));
    assert(s =~= bw + (q + bh + r));
    text::lemma_same_number(a.0 as nat, q + ah + r, b.0 as nat, q + bh + r);
    let s2 = s.skip(aw.len() as int + q.len());
    assert(s2 =~= ah + r);
    assert(s2 =~= bh + r);
    text::lemma_same_number(a.1 as nat, r, b.1 as nat, r);
}

/// What a client reads where a header and the data of its sample were written: the sample.
pub proof fn a_written_sample_is_read(
    kind: u8,
    sample: EncodedSample,
    header: Vec<u8>,
    rest: Seq<u8>,
)
    requires
        call_ensures(frame_header, (kind, &sample), header),
        sample.data@.len() < 0x1_0000_0000,
    ensures
        header@.len() == 21,
        read_frame(header@ + sample.data@ + rest) matches Some((f, after)) && {
            &&& after == rest
            &&& f.kind == kind
            &&& sample.pts_us matches Some(p) ==> f.pts_us == p
            &&& sample.pts_us is None ==> f.pts_us == -1
            &&& sample.duration_us >= 1 ==> f.duration_us == sample.duration_us
            &&& sample.duration_us < 1 ==> f.duration_us == 1
            &&& f.data == sample.data@
        },
{
    a_reader_gets_the_sample(kind, sample, rest);
}

/// What a stream starts with, which kind the frames of a track have, and what the first frame
/// holds.
pub proof fn a_stream_has_its_opening(
    start: Vec<u8>,
    track: Track,
    kind: u8,
    video_size: Option<(u32, u32)>,
    sample: EncodedSample,
)
    requires
        call_ensures(signature, (), start),
        call_ensures(track_kind, (track,), kind),
        call_ensures(metadata_sample, (video_size,), sample),
    ensures
        start@ == seq![0x57u8, 0x54, 0x4d, 0x45, 0x44, 0x49, 0x41, 0x31],
        track is Video ==> kind == 1,
        track is Audio ==> kind == 2,
        sample.pts_us == Some(0i64),
        sample.duration_us == 1,
        ({
            let (width, height): (u32, u32) = match video_size {
                Some(size) => size,
                None => (0, 0),
            };
            sample.data@ == encode_utf8(
                "{\"video\":{\"codec\":\"avc1.42E01F\",\"width\":"@ + text::numeral(
                    width as nat,
                    10,
                ) + ",\"height\":"@ + text::numeral(height as nat, 10)
                    + "},\"audio\":{\"codec\":\"opus\",\"sampleRate\":48000,\"channels\":2}}"@,
            )
        }),
{
    let (width, height): (u32, u32) = match video_size {
        Some(size) => size,
        None => (0, 0),
    };
    the_description_states_the_size(width, height);
}

} // verus!
