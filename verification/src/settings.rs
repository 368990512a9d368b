//! How media is encoded: H264 video and Opus audio that browsers play.
use vstd::prelude::*;
use vstd::string::*;
use crate::media::{AUDIO_SAMPLE_RATE, VIDEO_CLOCK_RATE};
use crate::text;

verus! {

/// A fraction: a time base in seconds, or a rate per second.
#[derive(Debug, Clone, Copy, PartialEq, Eq, Structural)]
pub struct Rational {
    pub num: i32,
    pub den: i32,
}

/// An option of an encoder: its name and its value.
pub type EncoderOption = (&'static str, &'static str);

/// The names and values of encoder options.
pub open spec fn option_texts(options: Seq<EncoderOption>) -> Seq<(Seq<char>, Seq<char>)> {
    options.map_values(|o: EncoderOption| (o.0@, o.1@))
}

/// Takes the encoder found by its name, or else one found by the codec; says what is missing
/// where there is neither.
pub fn choose_encoder<T>(by_name: Option<T>, by_codec: Option<T>, missing: &'static str) -> (r:
    Result<T, &'static str>)
    ensures
        r == (match (by_name, by_codec) {
            (Some(encoder), _) => Ok(encoder),
            (None, Some(encoder)) => Ok(encoder),
            (None, None) => Err(missing),
        }),
{
    match by_name {
        Some(encoder) => Ok(encoder),
        None => match by_codec {
            Some(encoder) => Ok(encoder),
            None => Err(missing),
        },
    }
}

// ---------------------------------------------------------------------------
// Video
// ---------------------------------------------------------------------------

/// The largest even number that is not above `value`, and at least 2: what H264 takes as a
/// width or a height.
pub open spec fn even_size(value: u32) -> u32 {
    if value < 2 {
        2
    } else {
        (value - value % 2) as u32
    }
}

/// Makes a width or a height fit for H264.
pub fn make_even(value: u32) -> (even: u32)
    ensures
        even == even_size(value),
        even % 2 == 0,
        even >= 2,
        value >= 2 ==> even <= value < even + 2,
{
    let size: u32 = if value < 2 {
        2
    } else {
        value
    };
    size - size % 2
}

pub open spec fn is_usable(rate: Rational) -> bool {
    rate.num > 0 && rate.den > 0
}

/// The rate, if both its parts are positive.
pub fn usable_rate(rate: Rational) -> (r: Option<Rational>)
    ensures
        r == (if is_usable(rate) {
            Some(rate)
        } else {
            None
        }),
        r == (if rate.num > 0 && rate.den > 0 {
            Some(rate)
        } else {
            None
        }),
{
    if rate.num > 0 && rate.den > 0 {
        Some(rate)
    } else {
        None
    }
}

/// What is known of a video stream before it is encoded.
#[derive(Debug, Clone, Copy, PartialEq, Eq, Structural)]
pub struct VideoSource {
    pub width: u32,
    pub height: u32,
    /// The average frame rate that the container states.
    pub average_rate: Rational,
    /// The frame rate that the container states.
    pub rate: Rational,
    /// The frame rate that the decoder states.
    pub decoder_rate: Option<Rational>,
}

/// The first usable of the frame rates that are stated, or 30 frames per second.
pub open spec fn chosen_rate(source: VideoSource) -> Rational {
    if is_usable(source.average_rate) {
        source.average_rate
    } else if is_usable(source.rate) {
        source.rate
    } else {
        match source.decoder_rate {
            Some(rate) => if is_usable(rate) {
                rate
            } else {
                (Rational { num: 30, den: 1 })
            },
            None => (Rational { num: 30, den: 1 }),
        }
    }
}

/// How long a frame lasts at a rate, in ticks of the video clock, rounded down; at least one.
pub open spec fn frame_ticks(rate: Rational) -> int {
    let ticks = VIDEO_CLOCK_RATE * rate.den / (rate.num as int);
    if ticks < 1 {
        1
    } else {
        ticks
    }
}

/// How the colours of a picture lie in memory: 8 bits a sample, brightness and two colours in
/// planes of their own, the colours at a quarter, at half, or at full resolution.
#[derive(Debug, Clone, Copy, PartialEq, Eq, Structural)]
pub enum PixelFormat {
    Yuv420p,
    Yuv422p,
    Yuv444p,
}

/// How a picture is brought to another size.
#[derive(Debug, Clone, Copy, PartialEq, Eq, Structural)]
pub enum Scaling {
    FastBilinear,
    Bilinear,
    Bicubic,
}

/// How video is encoded.
#[derive(Debug, Clone, Copy, PartialEq, Eq, Structural)]
pub struct VideoSettings {
    pub width: u32,
    pub height: u32,
    /// The form in which pictures go to the encoder.
    pub format: PixelFormat,
    /// How decoded pictures are brought to the size of the encoder.
    pub scaling: Scaling,
    pub time_base: Rational,
    pub frame_rate: Rational,
    /// How long a frame lasts, in units of the time base.
    pub frame_duration: i64,
    pub bit_rate: usize,
    pub max_b_frames: usize,
}

impl VideoSettings {
    /// How the video of `source` is encoded.
    pub fn for_source(source: &VideoSource) -> (s: VideoSettings)
        ensures
            s.width == even_size(source.width),
            s.height == even_size(source.height),
            s.format == PixelFormat::Yuv420p,
            s.scaling == Scaling::Bilinear,
            s.time_base == (Rational { num: 1, den: VIDEO_CLOCK_RATE }),
            s.frame_rate == chosen_rate(*source),
            s.frame_duration == frame_ticks(chosen_rate(*source)),
            s.frame_duration >= 1,
            s.bit_rate == 2_000_000,
            s.max_b_frames == 0,
    {
        let frame_rate: Rational = match usable_rate(source.average_rate) {
            Some(rate) => rate,
            None => match usable_rate(source.rate) {
                Some(rate) => rate,
                None => {
                    let from_decoder: Option<Rational> = match source.decoder_rate {
                        Some(rate) => usable_rate(rate),
                        None => None,
                    };
                    match from_decoder {
                        Some(rate) => rate,
                        None => Rational { num: 30, den: 1 },
                    }
                },
            },
        };
        let ticks: i64 = VIDEO_CLOCK_RATE as i64 * frame_rate.den as i64 / frame_rate.num as i64;
        let frame_duration: i64 = if ticks < 1 {
            1
        } else {
            ticks
        };
        VideoSettings {
            width: make_even(source.width),
            height: make_even(source.height),
            format: PixelFormat::Yuv420p,
            scaling: Scaling::Bilinear,
            time_base: Rational { num: 1, den: VIDEO_CLOCK_RATE },
            frame_rate,
            frame_duration,
            bit_rate: 2_000_000,
            max_b_frames: 0,
        }
    }
}

/// The name of the encoder that video is encoded with where there is one of that name.
pub fn video_encoder_name() -> (s: &'static str)
    ensures
        s@ == "libx264"@,
{
    "libx264"
}

/// What is said where there is no encoder for video.
pub fn no_video_encoder() -> (s: &'static str)
    ensures
        s@ == "no H264 encoder found; install FFmpeg with libx264 support"@,
{
    "no H264 encoder found; install FFmpeg with libx264 support"
}

/// The options of the video encoder: low delay, baseline profile, Annex-B.
pub fn video_options() -> (options: Vec<EncoderOption>)
    ensures
        option_texts(options@) == seq![
            ("preset"@, "ultrafast"@),
            ("tune"@, "zerolatency"@),
            ("profile"@, "baseline"@),
            ("level"@, "3.1"@),
            ("repeat-headers"@, "1"@),
            ("annexb"@, "1"@),
        ],
{
    let mut options: Vec<EncoderOption> = Vec::new();
    options.push(("preset", "ultrafast"));
    options.push(("tune", "zerolatency"));
    options.push(("profile", "baseline"));
    options.push(("level", "3.1"));
    options.push(("repeat-headers", "1"));
    options.push(("annexb", "1"));
    options
}

// ---------------------------------------------------------------------------
// Audio
// ---------------------------------------------------------------------------

/// How audio samples lie in memory.
#[derive(Debug, Clone, Copy, PartialEq, Eq, Structural)]
pub enum SampleLayout {
    Packed,
    Planar,
}

/// The form of an audio sample.
#[derive(Debug, Clone, Copy, PartialEq, Eq, Structural)]
pub enum SampleFormat {
    Unknown,
    U8(SampleLayout),
    I16(SampleLayout),
    I32(SampleLayout),
    I64(SampleLayout),
    F32(SampleLayout),
    F64(SampleLayout),
}

/// The form in which samples go to the Opus encoder: the first of packed 16-bit integers,
/// packed floats and planar floats that it takes, or else the first form that it takes.
pub open spec fn opus_format(formats: Seq<SampleFormat>) -> Option<SampleFormat> {
    if formats.contains(SampleFormat::I16(SampleLayout::Packed)) {
        Some(SampleFormat::I16(SampleLayout::Packed))
    } else if formats.contains(SampleFormat::F32(SampleLayout::Packed)) {
        Some(SampleFormat::F32(SampleLayout::Packed))
    } else if formats.contains(SampleFormat::F32(SampleLayout::Planar)) {
        Some(SampleFormat::F32(SampleLayout::Planar))
    } else if formats.len() > 0 {
        Some(formats[0])
    } else {
        None
    }
}

fn takes(formats: &Vec<SampleFormat>, format: SampleFormat) -> (r: bool)
    ensures
        r == formats@.contains(format),
{
    let mut i: usize = 0;
    while i < formats.len()
        invariant
            i <= formats@.len(),
            forall|k: int| 0 <= k < i ==> formats@[k] != format,
        decreases formats@.len() - i,
    {
        if formats[i] == format {
            assert(formats@[i as int] == format);
            return true;
        }
        i += 1;
    }
    false
}

/// Chooses the form in which samples go to the Opus encoder, from the forms that it says it
/// takes.
pub fn choose_opus_sample_format(formats: Option<Vec<SampleFormat>>) -> (r: Result<
    SampleFormat,
    &'static str,
>)
    ensures
        match r {
            Ok(format) => formats is Some && opus_format(formats->Some_0@) == Some(format),
            Err(e) => (formats is None || formats->Some_0@.len() == 0) && e@
                == "Opus encoder reports no supported sample formats"@,
        },
{
    let formats = match formats {
        Some(formats) => formats,
        None => {
            return Err("Opus encoder reports no supported sample formats");
        },
    };
    let first: SampleFormat = SampleFormat::I16(SampleLayout::Packed);
    let second: SampleFormat = SampleFormat::F32(SampleLayout::Packed);
    let third: SampleFormat = SampleFormat::F32(SampleLayout::Planar);
    if takes(&formats, first) {
        Ok(first)
    } else if takes(&formats, second) {
        Ok(second)
    } else if takes(&formats, third) {
        Ok(third)
    } else if formats.len() > 0 {
        Ok(formats[0])
    } else {
        Err("Opus encoder reports no supported sample formats")
    }
}

/// How audio is encoded.
#[derive(Debug, Clone, Copy, PartialEq, Eq, Structural)]
pub struct AudioSettings {
    pub rate: i32,
    /// How many channels there are, in the usual places for their number.
    pub channels: u16,
    pub format: SampleFormat,
    pub bit_rate: usize,
    pub time_base: Rational,
}

impl AudioSettings {
    /// How audio is encoded from samples of the given form; it is always stereo.
    pub fn for_format(format: SampleFormat) -> (s: AudioSettings)
        ensures
            s.rate == AUDIO_SAMPLE_RATE,
            s.channels == 2,
            s.format == format,
            s.bit_rate == 96_000,
            s.time_base == (Rational { num: 1, den: AUDIO_SAMPLE_RATE }),
    {
        AudioSettings {
            rate: AUDIO_SAMPLE_RATE,
            channels: 2,
            format,
            bit_rate: 96_000,
            time_base: Rational { num: 1, den: AUDIO_SAMPLE_RATE },
        }
    }
}

/// The name of the encoder that audio is encoded with where there is one of that name.
pub fn audio_encoder_name() -> (s: &'static str)
    ensures
        s@ == "libopus"@,
{
    "libopus"
}

/// What is said where there is no encoder for audio.
pub fn no_audio_encoder() -> (s: &'static str)
    ensures
        s@ == "no Opus encoder found; install FFmpeg with libopus support"@,
{
    "no Opus encoder found; install FFmpeg with libopus support"
}

/// The options of the audio encoder.
pub fn audio_options() -> (options: Vec<EncoderOption>)
    ensures
        option_texts(options@) == seq![("application"@, "audio"@), ("frame_duration"@, "20"@)],
{
    let mut options: Vec<EncoderOption> = Vec::new();
    options.push(("application", "audio"));
    options.push(("frame_duration", "20"));
    options
}

// ---------------------------------------------------------------------------
// The audio filter
// ---------------------------------------------------------------------------

/// What decoded audio looks like when it enters the filter.
#[derive(Debug)]
pub struct FilterInput {
    pub time_base: Rational,
    pub rate: u32,
    /// The name of the form of the samples.
    pub format: String,
    /// The channels that the decoder states, one bit each; 0 if it states none.
    pub layout: u64,
    /// The usual channels for their number, one bit each.
    pub default_layout: u64,
}

/// The arguments of the filter's source.
pub open spec fn source_text(
    time_base: Rational,
    rate: u32,
    format: Seq<char>,
    layout: u64,
) -> Seq<char> {
    "time_base="@ + text::signed_decimal(time_base.num as int) + "/"@ + text::signed_decimal(
        time_base.den as int,
    ) + ":sample_rate="@ + text::decimal(rate as nat) + ":sample_fmt="@ + format
        + ":channel_layout=0x"@ + text::numeral(layout as nat, 16)
}

impl FilterInput {
    /// The channels that enter the filter: those stated, or the usual ones.
    pub open spec fn channels(&self) -> u64 {
        if self.layout == 0 {
            self.default_layout
        } else {
            self.layout
        }
    }

    /// The arguments of the filter's source.
    pub fn source_args(&self) -> (s: String)
        ensures
            s@ == source_text(self.time_base, self.rate, self.format@, self.channels()),
    {
        let layout: u64 = if self.layout == 0 {
            self.default_layout
        } else {
            self.layout
        };
        let mut s: String = String::new();
        s.append("time_base=");
        text::push_signed(&mut s, self.time_base.num);
        s.append("/");
        text::push_signed(&mut s, self.time_base.den);
        s.append(":sample_rate=");
        text::push_decimal(&mut s, self.rate as u64);
        s.append(":sample_fmt=");
        s.append(self.format.as_str());
        s.append(":channel_layout=0x");
        text::push_numeral(&mut s, layout, 16);
        proof {
            assert(s@ =~= source_text(self.time_base, self.rate, self.format@, self.channels()));
        }
        s
    }
}

/// The filter: 48 kHz, stereo, both sides mixed at half volume, in the given form.
pub open spec fn filter_text(format: Seq<char>) -> Seq<char> {
    "aresample=48000,aformat=channel_layouts=stereo,pan=stereo|c0<FL+FR|c1<FL+FR,volume=0.5,aformat=sample_fmts="@
        + format + ":channel_layouts=stereo"@
}

/// The filter that brings decoded audio into the form with the given name.
pub fn filter_spec(format: &str) -> (s: String)
    ensures
        s@ == filter_text(format@),
{
    let mut s: String = String::new();
    s.append(
        "aresample=48000,aformat=channel_layouts=stereo,pan=stereo|c0<FL+FR|c1<FL+FR,volume=0.5,aformat=sample_fmts=",
    );
    s.append(format);
    s.append(":channel_layouts=stereo");
    proof {
        assert(s@ =~= filter_text(format@));
    }
    s
}

/// The size to which the filter cuts its frames: that of the encoder, unless the encoder is
/// not known or takes frames of any size.
pub fn sink_frame_size(takes_any_size: Option<bool>, frame_size: u32) -> (size: Option<u32>)
    ensures
        size == (if takes_any_size == Some(false) {
            Some(frame_size)
        } else {
            None
        }),
{
    match takes_any_size {
        Some(false) => Some(frame_size),
        _ => None,
    }
}

// ---------------------------------------------------------------------------
// Laws
// ---------------------------------------------------------------------------

/// The length of a frame in ticks is exact but for rounding down, unless a frame is shorter
/// than a tick.
pub proof fn frame_ticks_match_the_rate(rate: Rational)
    requires
        is_usable(rate),
        rate.num <= VIDEO_CLOCK_RATE * rate.den,
    ensures
        frame_ticks(rate) * rate.num <= VIDEO_CLOCK_RATE * rate.den,
        VIDEO_CLOCK_RATE * rate.den < (frame_ticks(rate) + 1) * rate.num,
{
    let n = rate.num as int;
    let d = VIDEO_CLOCK_RATE * rate.den;
    let q = d / n;
    assert(q >= 1 && q * n <= d && d < (q + 1) * n) by (nonlinear_arith)
        requires
            0 < n <= d,
            q == d / n,
    ;
}

/// Even sizes stay as they are.
pub proof fn even_size_is_stable(value: u32)
    ensures
        even_size(even_size(value)) == even_size(value),
        value % 2 == 0 && value >= 2 ==> even_size(value) == value,
{
}

/// The frame rate is the first of the three that are stated, average, container, decoder, of
/// which both parts are positive, and 30 frames per second where there is none; so it is always
/// usable.
pub proof fn the_first_usable_rate_is_taken(s: VideoSource)
    ensures
        s.average_rate.num > 0 && s.average_rate.den > 0 ==> chosen_rate(s) == s.average_rate,
        !(s.average_rate.num > 0 && s.average_rate.den > 0) && s.rate.num > 0 && s.rate.den > 0
            ==> chosen_rate(s) == s.rate,
        !(s.average_rate.num > 0 && s.average_rate.den > 0) && !(s.rate.num > 0 && s.rate.den
            > 0) ==> chosen_rate(s) == (match s.decoder_rate {
            Some(r) => if r.num > 0 && r.den > 0 {
                r
            } else {
                (Rational { num: 30, den: 1 })
            },
            None => (Rational { num: 30, den: 1 }),
        }),
        chosen_rate(s).num > 0 && chosen_rate(s).den > 0,
{
}

/// A frame that is shorter than a tick of 1/90000 second lasts one tick.
pub proof fn short_frames_last_a_tick(rate: Rational)
    requires
        rate.num > 0 && rate.den > 0,
        rate.num > 90_000 * rate.den,
    ensures
        frame_ticks(rate) == 1,
{
    let d = VIDEO_CLOCK_RATE * rate.den;
    let n = rate.num as int;
    assert(d / n == 0) by (nonlinear_arith)
        requires
            0 <= d < n,
    ;
}

/// Any other frame lasts as many ticks as fit in it.
pub proof fn frames_last_whole_ticks(rate: Rational, ticks: int)
    requires
        rate.num > 0 && rate.den > 0,
        ticks >= 1,
        ticks * rate.num <= 90_000 * rate.den,
        90_000 * rate.den < (ticks + 1) * rate.num,
    ensures
        frame_ticks(rate) == ticks,
{
    let d = VIDEO_CLOCK_RATE * rate.den;
    let n = rate.num as int;
    let q = d / n;
    assert(q == ticks) by (nonlinear_arith)
        requires
            n > 0,
            ticks * n <= d,
            d < (ticks + 1) * n,
            q == d / n,
    ;
}

/// A size is made even by leaving out at most one, and never falls below 2.
pub proof fn sizes_lose_at_most_one(value: u32)
    ensures
        even_size(value) % 2 == 0,
        even_size(value) >= 2,
        value >= 2 ==> value - 1 <= even_size(value) <= value,
        value < 2 ==> even_size(value) == 2,
{
}

/// The form of samples is one that the encoder takes: packed 16-bit integers if it takes them,
/// else packed floats, else planar floats, else the first that it names; there is none only
/// where it names none.
pub proof fn the_encoder_takes_the_form(formats: Seq<SampleFormat>)
    ensures
        formats.len() == 0 <==> opus_format(formats) is None,
        opus_format(formats) matches Some(f) ==> {
            let i16_packed = SampleFormat::I16(SampleLayout::Packed);
            let f32_packed = SampleFormat::F32(SampleLayout::Packed);
            let f32_planar = SampleFormat::F32(SampleLayout::Planar);
            &&& formats.contains(f)
            &&& formats.contains(i16_packed) ==> f == i16_packed
            &&& formats.contains(f32_packed) ==> f == i16_packed || f == f32_packed
            &&& formats.contains(f32_planar) ==> f == i16_packed || f == f32_packed || f
                == f32_planar
            &&& !formats.contains(i16_packed) && !formats.contains(f32_packed)
                && !formats.contains(f32_planar) ==> f == formats[0]
        },
{
    if formats.len() == 0 {
        assert(!formats.contains(SampleFormat::I16(SampleLayout::Packed)));
    } else {
        assert(formats.contains(formats[0]));
    }
}

/// What enters the filter is described in full: its time base and its rate in decimal, the
/// name of its form, and its channels in hexadecimal, which are those that the decoder states,
/// if it states any.
pub proof fn the_filter_is_told_its_input(input: FilterInput)
    ensures
        input.layout != 0 ==> input.channels() == input.layout,
        input.layout == 0 ==> input.channels() == input.default_layout,
        source_text(input.time_base, input.rate, input.format@, input.channels())
            == "time_base="@ + text::signed_decimal(input.time_base.num as int) + "/"@
            + text::signed_decimal(input.time_base.den as int) + ":sample_rate="@ + text::numeral(
            input.rate as nat,
            10,
        ) + ":sample_fmt="@ + input.format@ + ":channel_layout=0x"@ + text::numeral(
            (if input.layout == 0 {
                input.default_layout
            } else {
                input.layout
            }) as nat,
            16,
        ),
{
}

/// Whatever form is asked for, the filter gives 48 kHz stereo in that form.
pub proof fn the_filter_gives_the_form(format: Seq<char>)
    ensures
        filter_text(format)
            == "aresample=48000,aformat=channel_layouts=stereo,pan=stereo|c0<FL+FR|c1<FL+FR,volume=0.5,aformat=sample_fmts="@
            + format + ":channel_layouts=stereo"@,
{
}

/// How video is encoded, whatever the source: in even sizes that lose at most one line or
/// column, at the first usable rate, in ticks of 1/90000 second, as planar YUV with colours at a
/// quarter, scaled bilinearly, at 2 Mbit/s, without B frames.
pub proof fn video_is_encoded_for_browsers(source: VideoSource, s: VideoSettings)
    requires
        call_ensures(VideoSettings::for_source, (&source,), s),
    ensures
        s.width % 2 == 0 && s.height % 2 == 0,
        source.width >= 2 ==> source.width - 1 <= s.width <= source.width,
        source.width < 2 ==> s.width == 2,
        source.height >= 2 ==> source.height - 1 <= s.height <= source.height,
        source.height < 2 ==> s.height == 2,
        s.time_base.num == 1 && s.time_base.den == 90_000,
        s.frame_rate.num > 0 && s.frame_rate.den > 0,
        source.average_rate.num > 0 && source.average_rate.den > 0 ==> s.frame_rate
            == source.average_rate,
        !(source.average_rate.num > 0 && source.average_rate.den > 0) && source.rate.num > 0
            && source.rate.den > 0 ==> s.frame_rate == source.rate,
        !(source.average_rate.num > 0 && source.average_rate.den > 0) && !(source.rate.num > 0
            && source.rate.den > 0) ==> s.frame_rate == (match source.decoder_rate {
            Some(r) => if r.num > 0 && r.den > 0 {
                r
            } else {
                (Rational { num: 30, den: 1 })
            },
            None => (Rational { num: 30, den: 1 }),
        }),
        s.frame_duration >= 1,
        s.frame_rate.num > 90_000 * s.frame_rate.den ==> s.frame_duration == 1,
        s.frame_rate.num <= 90_000 * s.frame_rate.den ==> s.frame_duration * s.frame_rate.num
            <= 90_000 * s.frame_rate.den && 90_000 * s.frame_rate.den < (s.frame_duration + 1)
            * s.frame_rate.num,
        s.format == PixelFormat::Yuv420p,
        s.scaling == Scaling::Bilinear,
        s.bit_rate == 2_000_000,
        s.max_b_frames == 0,
{
    the_first_usable_rate_is_taken(source);
    sizes_lose_at_most_one(source.width);
    sizes_lose_at_most_one(source.height);
    if s.frame_rate.num > 90_000 * s.frame_rate.den {
        short_frames_last_a_tick(s.frame_rate);
    } else {
        frame_ticks_match_the_rate(s.frame_rate);
    }
}

/// How audio is encoded, whatever the form of its samples: in that form, 48 kHz, stereo, at
/// 96 kbit/s, in ticks of a sample.
pub proof fn audio_is_encoded_for_browsers(format: SampleFormat, s: AudioSettings)
    requires
        call_ensures(AudioSettings::for_format, (format,), s),
    ensures
        s.format == format,
        s.rate == 48_000,
        s.channels == 2,
        s.bit_rate == 96_000,
        s.time_base.num == 1 && s.time_base.den == 48_000,
{
}

/// How encoder, form of samples and size of frames are chosen: the encoder with the right name,
/// or else one for the codec; the form as the encoder takes it; the encoder's size of frames
/// only where it is known to insist on one.
pub proof fn encoders_are_chosen<T>(
    by_name: Option<T>,
    by_codec: Option<T>,
    missing: &'static str,
    encoder: Result<T, &'static str>,
    formats: Option<Vec<SampleFormat>>,
    format: Result<SampleFormat, &'static str>,
    takes_any_size: Option<bool>,
    frame_size: u32,
    size: Option<u32>,
)
    requires
        call_ensures(choose_encoder::<T>, (by_name, by_codec, missing), encoder),
        call_ensures(choose_opus_sample_format, (formats,), format),
        call_ensures(sink_frame_size, (takes_any_size, frame_size), size),
    ensures
        by_name matches Some(e) ==> encoder == Ok::<T, &'static str>(e),
        by_name is None ==> (by_codec matches Some(e) ==> encoder == Ok::<T, &'static str>(e)),
        by_name is None && by_codec is None ==> (encoder matches Err(e) && e@ == missing@),
        format is Ok <==> formats is Some && formats->Some_0@.len() > 0,
        format matches Ok(f) ==> {
            let all = formats->Some_0@;
            let i16_packed = SampleFormat::I16(SampleLayout::Packed);
            let f32_packed = SampleFormat::F32(SampleLayout::Packed);
            let f32_planar = SampleFormat::F32(SampleLayout::Planar);
            &&& all.contains(f)
            &&& all.contains(i16_packed) ==> f == i16_packed
            &&& all.contains(f32_packed) ==> f == i16_packed || f == f32_packed
            &&& all.contains(f32_planar) ==> f == i16_packed || f == f32_packed || f
                == f32_planar
            &&& !all.contains(i16_packed) && !all.contains(f32_packed) && !all.contains(
                f32_planar,
            ) ==> f == all[0]
        },
        takes_any_size == Some(false) ==> size == Some(frame_size),
        takes_any_size != Some(false) ==> size is None,
{
    if let Some(all) = formats {
        the_encoder_takes_the_form(all@);
    }
}

/// What is said to the audio filter, and what it is made of.
pub proof fn the_filter_is_described(
    input: FilterInput,
    args: String,
    format: &str,
    filter: String,
)
    requires
        call_ensures(FilterInput::source_args, (&input,), args),
        call_ensures(filter_spec, (format,), filter),
    ensures
        args@ == "time_base="@ + text::signed_decimal(input.time_base.num as int) + "/"@
            + text::signed_decimal(input.time_base.den as int) + ":sample_rate="@ + text::numeral(
            input.rate as nat,
            10,
        ) + ":sample_fmt="@ + input.format@ + ":channel_layout=0x"@ + text::numeral(
            (if input.layout == 0 {
                input.default_layout
            } else {
                input.layout
            }) as nat,
            16,
        ),
        filter@
            == "aresample=48000,aformat=channel_layouts=stereo,pan=stereo|c0<FL+FR|c1<FL+FR,volume=0.5,aformat=sample_fmts="@
            + format@ + ":channel_layouts=stereo"@,
{
    the_filter_is_told_its_input(input);
}

/// What makes a size even, and which rates count.
pub proof fn sizes_and_rates_are_fit(value: u32, even: u32, rate: Rational, r: Option<Rational>)
    requires
        call_ensures(make_even, (value,), even),
        call_ensures(usable_rate, (rate,), r),
    ensures
        even % 2 == 0,
        value >= 2 ==> value - 1 <= even <= value,
        value < 2 ==> even == 2,
        rate.num > 0 && rate.den > 0 ==> r == Some(rate),
        rate.num <= 0 || rate.den <= 0 ==> r is None,
{
}

} // verus!
