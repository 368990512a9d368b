//! The peer connection: the tracks that it offers, and the wait until it is connected.
use vstd::prelude::*;
use vstd::string::*;
use crate::media::{AUDIO_SAMPLE_RATE, Track, VIDEO_CLOCK_RATE};

verus! {

/// The state of a peer connection.
#[derive(Debug, Clone, Copy, PartialEq, Eq, Structural)]
pub enum PeerState {
    Unspecified,
    New,
    Connecting,
    Connected,
    Disconnected,
    Failed,
    Closed,
}

/// What a state means for the wait until the peer is connected.
#[derive(Debug, Clone, Copy, PartialEq, Eq)]
pub enum PeerProgress {
    /// Streaming can start.
    Connected,
    /// It cannot start, for this reason.
    GivenUp(&'static str),
    /// Wait for the next state.
    Waiting,
}

/// What a state means for the wait, with the reason as text.
pub enum ProgressView {
    Connected,
    GivenUp(Seq<char>),
    Waiting,
}

impl View for PeerProgress {
    type V = ProgressView;

    open spec fn view(&self) -> ProgressView {
        match self {
            PeerProgress::Connected => ProgressView::Connected,
            PeerProgress::GivenUp(why) => ProgressView::GivenUp(why@),
            PeerProgress::Waiting => ProgressView::Waiting,
        }
    }
}

/// What a state means for the wait until the peer is connected.
pub open spec fn progress(state: PeerState) -> ProgressView {
    match state {
        PeerState::Connected => ProgressView::Connected,
        PeerState::Failed => ProgressView::GivenUp("peer connection failed"@),
        PeerState::Closed => ProgressView::GivenUp("peer connection closed before streaming"@),
        _ => ProgressView::Waiting,
    }
}

/// What a state means for the wait until the peer is connected.
pub fn peer_progress(state: PeerState) -> (p: PeerProgress)
    ensures
        p@ == progress(state),
        p is Connected <==> state is Connected,
        p is Waiting <==> !(state is Connected || state is Failed || state is Closed),
        state is Failed ==> (p matches PeerProgress::GivenUp(why) && why@
            == "peer connection failed"@),
        state is Closed ==> (p matches PeerProgress::GivenUp(why) && why@
            == "peer connection closed before streaming"@),
{
    match state {
        PeerState::Connected => PeerProgress::Connected,
        PeerState::Failed => PeerProgress::GivenUp("peer connection failed"),
        PeerState::Closed => PeerProgress::GivenUp("peer connection closed before streaming"),
        _ => PeerProgress::Waiting,
    }
}

/// What the wait comes to while the peer goes through `states`: they are looked at one after
/// another until one ends the wait.
pub open spec fn wait_outcome(states: Seq<PeerState>) -> ProgressView
    decreases states.len(),
{
    if states.len() == 0 {
        ProgressView::Waiting
    } else if progress(states[0]) is Waiting {
        wait_outcome(states.drop_first())
    } else {
        progress(states[0])
    }
}

/// A state that ends the wait.
pub open spec fn is_deciding(state: PeerState) -> bool {
    state is Connected || state is Failed || state is Closed
}

/// The first state that is connected, failed or closed decides the wait, whatever follows.
pub proof fn first_deciding_state_decides(states: Seq<PeerState>, k: int)
    requires
        0 <= k < states.len(),
        is_deciding(states[k]),
        forall|i: int| 0 <= i < k ==> !is_deciding(#[trigger] states[i]),
    ensures
        wait_outcome(states) == progress(states[k]),
        !(wait_outcome(states) is Waiting),
        wait_outcome(states) is Connected <==> states[k] is Connected,
    decreases k,
{
    if k > 0 {
        let rest = states.drop_first();
        assert(!is_deciding(states[0]));
        assert forall|i: int| 0 <= i < k - 1 implies !is_deciding(#[trigger] rest[i]) by {
            assert(rest[i] == states[i + 1]);
        }
        first_deciding_state_decides(rest, k - 1);
    }
}

/// While no state is connected, failed or closed, the wait goes on.
pub proof fn undecided_states_wait(states: Seq<PeerState>)
    requires
        forall|i: int| 0 <= i < states.len() ==> !is_deciding(#[trigger] states[i]),
    ensures
        wait_outcome(states) is Waiting,
    decreases states.len(),
{
    if states.len() > 0 {
        let rest = states.drop_first();
        assert(!is_deciding(states[0]));
        assert forall|i: int| 0 <= i < rest.len() implies !is_deciding(#[trigger] rest[i]) by {
            assert(rest[i] == states[i + 1]);
        }
        undecided_states_wait(rest);
    }
}

/// The codec of a track.
#[derive(Debug, Clone, Copy, PartialEq, Eq, Structural)]
pub enum Codec {
    H264,
    Opus,
}

/// How a track is announced to the browser.
#[derive(Debug, Clone, Copy, PartialEq, Eq)]
pub struct TrackSettings {
    pub codec: Codec,
    pub clock_rate: u32,
    pub channels: u16,
    /// The codec's parameters in SDP.
    pub format: &'static str,
    pub id: &'static str,
    pub stream_id: &'static str,
}

/// How a track is announced to the browser: H264 baseline at level 3.1 in single packets or
/// fragments, or Opus in stereo.
pub fn track_settings(track: Track) -> (s: TrackSettings)
    ensures
        track is Video ==> {
            &&& s.codec == Codec::H264
            &&& s.clock_rate == VIDEO_CLOCK_RATE
            &&& s.channels == 0
            &&& s.format@
                == "level-asymmetry-allowed=1;packetization-mode=1;profile-level-id=42e01f"@
            &&& s.id@ == "video"@
            &&& s.stream_id@ == "rust-ffmpeg-next-video"@
        },
        track is Audio ==> {
            &&& s.codec == Codec::Opus
            &&& s.clock_rate == AUDIO_SAMPLE_RATE
            &&& s.channels == 2
            &&& s.format@ == "minptime=10;useinbandfec=1"@
            &&& s.id@ == "audio"@
            &&& s.stream_id@ == "rust-ffmpeg-next-audio"@
        },
{
    match track {
        Track::Video => TrackSettings {
            codec: Codec::H264,
            clock_rate: VIDEO_CLOCK_RATE as u32,
            channels: 0,
            format: "level-asymmetry-allowed=1;packetization-mode=1;profile-level-id=42e01f",
            id: "video",
            stream_id: "rust-ffmpeg-next-video",
        },
        Track::Audio => TrackSettings {
            codec: Codec::Opus,
            clock_rate: AUDIO_SAMPLE_RATE as u32,
            channels: 2,
            format: "minptime=10;useinbandfec=1",
            id: "audio",
            stream_id: "rust-ffmpeg-next-audio",
        },
    }
}

/// What each state means for the wait, and how the two tracks are announced.
pub proof fn states_and_tracks_are_known(
    state: PeerState,
    p: PeerProgress,
    track: Track,
    s: TrackSettings,
)
    requires
        call_ensures(peer_progress, (state,), p),
        call_ensures(track_settings, (track,), s),
    ensures
        p is Connected <==> state is Connected,
        p is GivenUp <==> state is Failed || state is Closed,
        p is Waiting <==> state is Unspecified || state is New || state is Connecting || state
            is Disconnected,
        state is Failed ==> (p matches PeerProgress::GivenUp(why) && why@
            == "peer connection failed"@),
        state is Closed ==> (p matches PeerProgress::GivenUp(why) && why@
            == "peer connection closed before streaming"@),
        track is Video ==> s.codec is H264 && s.clock_rate == 90_000 && s.channels == 0
            && s.format@
            == "level-asymmetry-allowed=1;packetization-mode=1;profile-level-id=42e01f"@ && s.id@
            == "video"@ && s.stream_id@ == "rust-ffmpeg-next-video"@,
        track is Audio ==> s.codec is Opus && s.clock_rate == 48_000 && s.channels == 2
            && s.format@ == "minptime=10;useinbandfec=1"@ && s.id@ == "audio"@ && s.stream_id@
            == "rust-ffmpeg-next-audio"@,
{
}

} // verus!
