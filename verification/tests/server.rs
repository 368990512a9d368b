//! Pages, signaling, the peer connection and the command line.
use realtime_media::args::{Args, Mode};
use realtime_media::media::Track;
use realtime_media::pages::{static_response, Assets, StaticHttpServer};
use realtime_media::peer::{peer_progress, track_settings, Codec, PeerProgress, PeerState};
use realtime_media::request::HttpRequest;
use realtime_media::response::HttpResponse;
use realtime_media::signaling::{
    answer_response, offer_action, SdpKind, SessionDescription, Signaling, SignalingAction,
};

fn assets() -> Assets {
    Assets {
        index_html: "index".to_owned(),
        main_css: "css".to_owned(),
        main_js: "js".to_owned(),
        webtransport_html: "wt-html".to_owned(),
        webtransport_js: "wt-js".to_owned(),
    }
}

fn request(method: &str, path: &str, body: &str) -> HttpRequest {
    HttpRequest {
        method: method.to_owned(),
        path: path.to_owned(),
        body: body.as_bytes().to_vec(),
    }
}

fn assert_is(r: &HttpResponse, status: &str, content_type: &str, body: &str) {
    assert_eq!(r.status, status);
    assert_eq!(r.content_type, content_type);
    assert_eq!(r.body, body);
}

fn responded(action: SignalingAction) -> HttpResponse {
    match action {
        SignalingAction::Respond(r) => r,
        SignalingAction::Answer(_) => panic!("a response was expected"),
    }
}

fn offered(action: SignalingAction) -> SessionDescription {
    match action {
        SignalingAction::Respond(_) => panic!("an offer was expected"),
        SignalingAction::Answer(d) => d,
    }
}

const OFFER: &str = r#"{"type":"offer","sdp":"v=0\r\n"}"#;
const HTML: &str = "text/html; charset=utf-8";
const SCRIPT: &str = "application/javascript; charset=utf-8";

#[test]
fn pages_are_found_by_path() {
    let a = assets();
    assert_is(&static_response("/", &a, None), "200 OK", HTML, "index");
    assert_is(&static_response("/index.html", &a, None), "200 OK", HTML, "index");
    assert_is(&static_response("/webtransport.html", &a, None), "200 OK", HTML, "wt-html");
    assert_is(
        &static_response("/css/main.css", &a, None),
        "200 OK",
        "text/css; charset=utf-8",
        "css",
    );
    assert_is(&static_response("/js/webrtc.js", &a, None), "200 OK", SCRIPT, "js");
    assert_is(&static_response("/js/webtransport.js", &a, None), "200 OK", SCRIPT, "wt-js");
}

#[test]
fn unknown_pages_are_not_found() {
    for path in ["", "//", "/index.htm", "/index.html/", "/?a", "/css"] {
        let r = static_response(path, &assets(), None);
        assert_is(&r, "404 Not Found", "text/plain", "not found");
    }
}

#[test]
fn config_page_tells_of_the_endpoint() {
    let config = "{}".to_owned();
    let r = static_response("/webtransport-config", &assets(), Some(&config));
    assert_is(&r, "200 OK", "application/json", "{}");
    let r = static_response("/webtransport-config", &assets(), None);
    assert_is(
        &r,
        "200 OK",
        "application/json",
        r#"{"error":"webtransport mode is not running"}"#,
    );
}

#[test]
fn webtransport_config_names_port_and_hash() {
    let server = StaticHttpServer::webtransport("[1, 2]".to_owned(), 4433);
    assert_eq!(
        server.webtransport_config.unwrap(),
        r#"{"url":"https://127.0.0.1:4433/media","serverCertificateHash":[1, 2]}"#
    );
}

#[test]
fn digest_is_written_as_numbers() {
    let mut digest = [0u8; 32];
    digest[0] = 255;
    digest[31] = 10;
    let server = StaticHttpServer::for_digest(&digest, 0);
    let zeros = "0, ".repeat(30);
    assert_eq!(
        server.webtransport_config.unwrap(),
        format!(
            r#"{{"url":"https://127.0.0.1:0/media","serverCertificateHash":[255, {zeros}10]}}"#
        )
    );
}

#[test]
fn certificate_is_named_by_its_hash() {
    let identity = wtransport::Identity::self_signed(["localhost", "127.0.0.1", "::1"]).unwrap();
    let certificate = &identity.certificate_chain().as_slice()[0];
    let hash = certificate.hash().fmt(wtransport::tls::Sha256DigestFmt::BytesArray);
    let server = StaticHttpServer::for_certificate(certificate.der(), 65535).unwrap();
    let expected = StaticHttpServer::webtransport(hash, 65535);
    assert_eq!(server.webtransport_config, expected.webtransport_config);
    assert!(StaticHttpServer::for_certificate(b"no certificate", 1).is_none());
}

#[test]
fn page_server_takes_get_only() {
    let server = StaticHttpServer::webtransport("[]".to_owned(), 1);
    let r = server.respond(&request("GET", "/webtransport-config", ""), &assets());
    assert_is(
        &r,
        "200 OK",
        "application/json",
        r#"{"url":"https://127.0.0.1:1/media","serverCertificateHash":[]}"#,
    );
    for method in ["POST", "get", "GE", "HEAD"] {
        let r = server.respond(&request(method, "/", ""), &assets());
        assert_is(&r, "405 Method Not Allowed", "text/plain", "method not allowed");
    }
}

#[test]
fn signaling_hands_out_pages() {
    let r = responded(Signaling::new().handle(&request("GET", "/", ""), &assets()));
    assert_is(&r, "200 OK", HTML, "index");
    let r = responded(Signaling::new().handle(&request("GET", "/offer", ""), &assets()));
    assert_is(&r, "404 Not Found", "text/plain", "not found");
}

#[test]
fn signaling_knows_no_other_requests() {
    for (method, path) in [("POST", "/"), ("PUT", "/offer"), ("POST", "/offer/")] {
        let r = responded(Signaling::new().handle(&request(method, path, OFFER), &assets()));
        assert_is(&r, "404 Not Found", "text/plain", "not found");
    }
}

#[test]
fn offer_is_decoded() {
    let d = offered(Signaling::new().handle(&request("POST", "/offer", OFFER), &assets()));
    assert_eq!(d.kind, SdpKind::Offer);
    assert_eq!(d.sdp, "v=0\r\n");
}

#[test]
fn every_kind_of_description_is_decoded() {
    for (name, kind) in [
        ("Unspecified", SdpKind::Unspecified),
        ("offer", SdpKind::Offer),
        ("pranswer", SdpKind::Pranswer),
        ("answer", SdpKind::Answer),
        ("rollback", SdpKind::Rollback),
    ] {
        let body = format!(r#"{{"sdp":"s","type":"{name}"}}"#);
        let d = offered(Signaling::new().handle(&request("POST", "/offer", &body), &assets()));
        assert_eq!(d.kind, kind);
        let (r, _) = Signaling::new().conclude(Ok(d));
        assert_eq!(r.body, format!(r#"{{"type":"{name}","sdp":"s"}}"#));
    }
}

#[test]
fn bad_offer_is_refused() {
    let s = Signaling::new();
    let r = responded(s.handle(&request("POST", "/offer", "nonsense"), &assets()));
    assert_eq!(r.status, "500 Internal Server Error");
    assert_eq!(r.content_type, "text/plain");
    assert_eq!(
        r.body,
        "failed to answer offer: failed to parse browser offer JSON: expected ident at line 1 column 2"
    );
    assert!(!s.answered);
}

#[test]
fn decoded_offers_are_followed() {
    let d = offered(offer_action(Ok(SessionDescription {
        kind: SdpKind::Offer,
        sdp: "x".to_owned(),
    })));
    assert_eq!(d.sdp, "x");
    let r = responded(offer_action(Err("why".to_owned())));
    assert_is(
        &r,
        "500 Internal Server Error",
        "text/plain",
        "failed to answer offer: failed to parse browser offer JSON: why",
    );
}

#[test]
fn answers_are_carried() {
    let r = answer_response(Ok("{}".to_owned()));
    assert_is(&r, "200 OK", "application/json", "{}");
    let r = answer_response(Err("e".to_owned()));
    assert_is(&r, "500 Internal Server Error", "text/plain", "failed to answer offer: e");
}

#[test]
fn one_offer_is_answered() {
    let mut s = Signaling::new();
    let (r, completed) = s.conclude(Err("local description was not set".to_owned()));
    assert_is(
        &r,
        "500 Internal Server Error",
        "text/plain",
        "failed to answer offer: local description was not set",
    );
    assert!(!completed);
    assert!(!s.answered);
    offered(s.handle(&request("POST", "/offer", OFFER), &assets()));

    let (r, completed) = s.conclude(Ok(SessionDescription {
        kind: SdpKind::Answer,
        sdp: "v=0\r\n\"".to_owned(),
    }));
    assert_is(&r, "200 OK", "application/json", r#"{"type":"answer","sdp":"v=0\r\n\""}"#);
    assert!(completed);
    assert!(s.answered);
    let read = offered(Signaling::new().handle(&request("POST", "/offer", &r.body), &assets()));
    assert_eq!((read.kind, read.sdp.as_str()), (SdpKind::Answer, "v=0\r\n\""));

    for body in [OFFER, "nonsense"] {
        let r = responded(s.handle(&request("POST", "/offer", body), &assets()));
        assert_is(
            &r,
            "409 Conflict",
            "text/plain",
            "this demo process already has an active WebRTC session; restart cargo run to create a new session",
        );
    }
    let r = responded(s.handle(&request("GET", "/", ""), &assets()));
    assert_is(&r, "200 OK", HTML, "index");
}

#[test]
fn answer_is_told_once() {
    let mut s = Signaling::new();
    assert!(!s.notify(false));
    assert!(s.notify(true));
    assert!(!s.notify(true));
    assert!(!s.notify(false));
}

#[test]
fn first_completed_offer_is_told() {
    let told = |completed: &[bool]| {
        let mut s = Signaling::new();
        completed.iter().map(|&c| s.notify(c)).collect::<Vec<bool>>()
    };
    assert_eq!(told(&[false, false, true, false, true]), [false, false, true, false, false]);
    assert_eq!(told(&[true, true]), [true, false]);
    assert_eq!(told(&[false, false]), [false, false]);
}

#[test]
fn first_deciding_state_ends_the_wait() {
    let wait = |states: &[PeerState]| {
        states
            .iter()
            .map(|&s| peer_progress(s))
            .find(|p| *p != PeerProgress::Waiting)
    };
    assert_eq!(
        wait(&[PeerState::New, PeerState::Connecting, PeerState::Connected, PeerState::Failed]),
        Some(PeerProgress::Connected)
    );
    assert_eq!(
        wait(&[PeerState::Disconnected, PeerState::Failed, PeerState::Connected]),
        Some(PeerProgress::GivenUp("peer connection failed"))
    );
    assert_eq!(
        wait(&[PeerState::Closed, PeerState::Connected]),
        Some(PeerProgress::GivenUp("peer connection closed before streaming"))
    );
    assert_eq!(wait(&[PeerState::New, PeerState::Disconnected]), None);
}

#[test]
fn peer_states_lead_on() {
    assert_eq!(peer_progress(PeerState::Connected), PeerProgress::Connected);
    assert_eq!(
        peer_progress(PeerState::Failed),
        PeerProgress::GivenUp("peer connection failed")
    );
    assert_eq!(
        peer_progress(PeerState::Closed),
        PeerProgress::GivenUp("peer connection closed before streaming")
    );
    for state in [
        PeerState::Unspecified,
        PeerState::New,
        PeerState::Connecting,
        PeerState::Disconnected,
    ] {
        assert_eq!(peer_progress(state), PeerProgress::Waiting);
    }
}

#[test]
fn tracks_are_announced() {
    let video = track_settings(Track::Video);
    assert_eq!(video.codec, Codec::H264);
    assert_eq!(video.clock_rate, 90_000);
    assert_eq!(video.channels, 0);
    assert_eq!(
        video.format,
        "level-asymmetry-allowed=1;packetization-mode=1;profile-level-id=42e01f"
    );
    assert_eq!((video.id, video.stream_id), ("video", "rust-ffmpeg-next-video"));
    let audio = track_settings(Track::Audio);
    assert_eq!(audio.codec, Codec::Opus);
    assert_eq!(audio.clock_rate, 48_000);
    assert_eq!(audio.channels, 2);
    assert_eq!(audio.format, "minptime=10;useinbandfec=1");
    assert_eq!((audio.id, audio.stream_id), ("audio", "rust-ffmpeg-next-audio"));
}

fn args(words: &[&str]) -> Result<Args, &'static str> {
    Args::parse(&words.iter().map(|w| w.to_string()).collect())
}

#[test]
fn command_line_names_a_file() {
    let a = args(&["input.mp4"]).unwrap();
    assert_eq!(a.input, "input.mp4");
    assert_eq!(a.mode(), Mode::WebRtc);
    assert_eq!(args(&["a", "--dry-run"]).unwrap().mode(), Mode::WebRtc);
}

#[test]
fn command_line_takes_options() {
    let a = args(&["--dry-run", "input.mp4", "more"]).unwrap();
    assert_eq!((a.input.as_str(), a.dry_run, a.webtransport), ("input.mp4", true, false));
    assert_eq!(a.mode(), Mode::DryRun);
    let a = args(&["--webtransport", "--dry-run"]).unwrap();
    assert_eq!((a.input.as_str(), a.dry_run, a.webtransport), ("--dry-run", false, true));
    assert_eq!(a.mode(), Mode::WebTransport);
}

#[test]
fn command_line_without_a_file_is_refused() {
    assert_eq!(
        args(&[]).unwrap_err(),
        "usage: cargo run -- [--dry-run] <input-media-file>"
    );
    assert_eq!(
        args(&["--dry-run"]).unwrap_err(),
        "usage: cargo run -- --dry-run <input-media-file>"
    );
    assert_eq!(
        args(&["--webtransport"]).unwrap_err(),
        "usage: cargo run -- --webtransport <input-media-file>"
    );
}
