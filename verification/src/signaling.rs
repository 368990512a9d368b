//! Signaling: the browser posts an offer, the server answers it once.
use vstd::prelude::*;
use vstd::string::*;
use vstd::utf8::*;
use webrtc::peer_connection::sdp::sdp_type::RTCSdpType;
use webrtc::peer_connection::sdp::session_description::RTCSessionDescription;
use crate::pages;
use crate::pages::Assets;
use crate::request;
use crate::request::HttpRequest;
use crate::response;
use crate::response::HttpResponse;
use crate::text;

verus! {

// ---------------------------------------------------------------------------
// Session descriptions
// ---------------------------------------------------------------------------

/// The type of a session description.
#[derive(Debug, Clone, Copy, PartialEq, Eq, Structural)]
pub enum SdpKind {
    Unspecified,
    Offer,
    Pranswer,
    Answer,
    Rollback,
}

/// A session description: its type and its text in SDP.
#[derive(Debug)]
pub struct SessionDescription {
    pub kind: SdpKind,
    pub sdp: String,
}

/// What `serde_json::from_slice` reads in a body as a `RTCSessionDescription`: its type and
/// its SDP, or the message of the error.
pub uninterp spec fn description_in(body: Seq<u8>) -> Result<(SdpKind, Seq<char>), Seq<char>>;

/// What `serde_json::to_string` writes for a `RTCSessionDescription` of this type with this
/// SDP.
pub uninterp spec fn description_json(kind: SdpKind, sdp: Seq<char>) -> Seq<char>;

/// Calls `serde_json::from_slice` for webrtc's `RTCSessionDescription`. Claimed: the type,
/// the SDP and the message of an error are functions of the bytes.
#[verifier::external_body]
fn decode_description(body: &[u8]) -> (r: Result<SessionDescription, String>)
    ensures
        described(r) == description_in(body@),
{
    match serde_json::from_slice::<RTCSessionDescription>(body) {
        Ok(d) => {
            let kind = match d.sdp_type {
                RTCSdpType::Unspecified => SdpKind::Unspecified,
                RTCSdpType::Offer => SdpKind::Offer,
                RTCSdpType::Pranswer => SdpKind::Pranswer,
                RTCSdpType::Answer => SdpKind::Answer,
                RTCSdpType::Rollback => SdpKind::Rollback,
            };
            Ok(SessionDescription { kind, sdp: d.sdp })
        },
        Err(e) => Err(e.to_string()),
    }
}

/// Calls `serde_json::to_string` on webrtc's `RTCSessionDescription`. Claimed: it succeeds,
/// since it only writes a name and two strings to memory, the JSON is a function of the type
/// and the SDP, and `serde_json::from_slice` reads these two back from it.
#[verifier::external_body]
fn encode_description(description: &SessionDescription) -> (r: Result<String, String>)
    ensures
        r is Ok,
        r->Ok_0@ == description_json(description.kind, description.sdp@),
        description_in(encode_utf8(r->Ok_0@)) == described(Ok(*description)),
{
    let mut d = RTCSessionDescription::default();
    d.sdp_type = match description.kind {
        SdpKind::Unspecified => RTCSdpType::Unspecified,
        SdpKind::Offer => RTCSdpType::Offer,
        SdpKind::Pranswer => RTCSdpType::Pranswer,
        SdpKind::Answer => RTCSdpType::Answer,
        SdpKind::Rollback => RTCSdpType::Rollback,
    };
    d.sdp = description.sdp.clone();
    serde_json::to_string(&d).map_err(|e| e.to_string())
}

/// The contents of a description, or the message in its place.
pub open spec fn described(r: Result<SessionDescription, String>) -> Result<
    (SdpKind, Seq<char>),
    Seq<char>,
> {
    match r {
        Ok(d) => Ok((d.kind, d.sdp@)),
        Err(e) => Err(e@),
    }
}

/// The text on either side of a result.
pub open spec fn texts(r: Result<String, String>) -> Result<Seq<char>, Seq<char>> {
    match r {
        Ok(s) => Ok(s@),
        Err(e) => Err(e@),
    }
}

// ---------------------------------------------------------------------------
// Answers
// ---------------------------------------------------------------------------

/// The answer to an offer while a session is active.
pub open spec fn conflict() -> response::ResponseView {
    response::ResponseView {
        status: "409 Conflict"@,
        content_type: "text/plain"@,
        body: "this demo process already has an active WebRTC session; restart cargo run to create a new session"@,
    }
}

/// The answer to an offer that failed for the given reason.
pub open spec fn offer_failed(reason: Seq<char>) -> response::ResponseView {
    response::ResponseView {
        status: "500 Internal Server Error"@,
        content_type: "text/plain"@,
        body: "failed to answer offer: "@ + reason,
    }
}

/// What a request asks for.
pub enum ActionView {
    /// Only this response.
    Respond(response::ResponseView),
    /// That the peer connection take this offer and answer it.
    Answer(SdpKind, Seq<char>),
}

/// What follows from what was read in the body of an offer.
pub open spec fn offer_action_view(
    decoded: Result<(SdpKind, Seq<char>), Seq<char>>,
) -> ActionView {
    match decoded {
        Ok((kind, sdp)) => ActionView::Answer(kind, sdp),
        Err(e) => ActionView::Respond(
            offer_failed("failed to parse browser offer JSON: "@ + e),
        ),
    }
}

/// What a request asks for. Pages are handed out in every state; an offer is taken up only
/// while none was answered.
pub open spec fn action_view(
    answered: bool,
    request: request::RequestView,
    assets: Assets,
) -> ActionView {
    if request.method == "GET"@ {
        ActionView::Respond(pages::static_page(request.path, assets, None))
    } else if request.method == "POST"@ && request.path == "/offer"@ {
        if answered {
            ActionView::Respond(conflict())
        } else {
            offer_action_view(description_in(request.body))
        }
    } else {
        ActionView::Respond(pages::not_found())
    }
}

/// The response that carries an answer, or the reason why there is none.
pub open spec fn answer_view(json: Result<Seq<char>, Seq<char>>) -> response::ResponseView {
    match json {
        Ok(json) => pages::ok("application/json"@, json),
        Err(reason) => offer_failed(reason),
    }
}

/// What a negotiation comes to: the local description as JSON, or a reason.
pub open spec fn answer_json(negotiated: Result<(SdpKind, Seq<char>), Seq<char>>) -> Result<
    Seq<char>,
    Seq<char>,
> {
    match negotiated {
        Ok((kind, sdp)) => Ok(description_json(kind, sdp)),
        Err(reason) => Err(reason),
    }
}

/// What a request asks for.
#[derive(Debug)]
pub enum SignalingAction {
    /// Write this response.
    Respond(HttpResponse),
    /// Let the peer connection take this offer, and conclude with what came of it.
    Answer(SessionDescription),
}

impl View for SignalingAction {
    type V = ActionView;

    open spec fn view(&self) -> ActionView {
        match self {
            SignalingAction::Respond(r) => ActionView::Respond(r@),
            SignalingAction::Answer(d) => ActionView::Answer(d.kind, d.sdp@),
        }
    }
}

fn failure(reason: &str) -> (r: HttpResponse)
    ensures
        r@ == offer_failed(reason@),
{
    let mut body: String = String::new();
    body.append("failed to answer offer: ");
    body.append(reason);
    proof {
        assert(body@ =~= "failed to answer offer: "@ + reason@);
    }
    HttpResponse::new("500 Internal Server Error", "text/plain", body.as_str())
}

/// Follows what was read in the body of an offer.
pub fn offer_action(decoded: Result<SessionDescription, String>) -> (action: SignalingAction)
    ensures
        action@ == offer_action_view(described(decoded)),
        match decoded {
            Ok(d) => action matches SignalingAction::Answer(a) && a.kind == d.kind && a.sdp@
                == d.sdp@,
            Err(_) => action is Respond,
        },
{
    match decoded {
        Ok(description) => SignalingAction::Answer(description),
        Err(e) => {
            let mut reason: String = String::new();
            reason.append("failed to parse browser offer JSON: ");
            reason.append(e.as_str());
            proof {
                assert(reason@ =~= "failed to parse browser offer JSON: "@ + e@);
            }
            SignalingAction::Respond(failure(reason.as_str()))
        },
    }
}

/// The response that carries an answer, or the reason why there is none.
pub fn answer_response(json: Result<String, String>) -> (r: HttpResponse)
    ensures
        r@ == answer_view(texts(json)),
{
    match json {
        Ok(json) => HttpResponse::new("200 OK", "application/json", json.as_str()),
        Err(reason) => failure(reason.as_str()),
    }
}

/// Whether whoever waits is told at an exchange: where it answered an offer and they were not
/// told before.
pub open spec fn is_told(notified: bool, completed: bool) -> bool {
    completed && !notified
}

/// Whether whoever waits was told, after an exchange.
pub open spec fn is_notified(notified: bool, completed: bool) -> bool {
    notified || is_told(notified, completed)
}

/// The state of the signaling server.
pub struct Signaling {
    /// An offer was answered.
    pub answered: bool,
    /// Whoever waits for the answered offer was told of it.
    pub notified: bool,
}

impl Signaling {
    /// A server that has answered no offer.
    pub fn new() -> (s: Signaling)
        ensures
            !s.answered,
            !s.notified,
    {
        Signaling { answered: false, notified: false }
    }

    /// Decides what a request asks for.
    pub fn handle(&self, request: &HttpRequest, assets: &Assets) -> (action: SignalingAction)
        ensures
            action@ == action_view(self.answered, request@, *assets),
    {
        if text::same_text(request.method.as_str(), "GET") {
            SignalingAction::Respond(pages::static_response(request.path.as_str(), assets, None))
        } else if text::same_text(request.method.as_str(), "POST") && text::same_text(
            request.path.as_str(),
            "/offer",
        ) {
            if self.answered {
                SignalingAction::Respond(
                    HttpResponse::new(
                        "409 Conflict",
                        "text/plain",
                        "this demo process already has an active WebRTC session; restart cargo run to create a new session",
                    ),
                )
            } else {
                offer_action(decode_description(request.body.as_slice()))
            }
        } else {
            SignalingAction::Respond(
                HttpResponse::new("404 Not Found", "text/plain", "not found"),
            )
        }
    }

    /// Takes what came of an offer: the local description, or the reason why there is none.
    /// Gives the response to write, and whether the offer is answered by it. Whoever reads
    /// the body of an answer finds the local description in it.
    pub fn conclude(&mut self, negotiated: Result<SessionDescription, String>) -> (r: (
        HttpResponse,
        bool,
    ))
        ensures
            r.0@ == answer_view(answer_json(described(negotiated))),
            r.1 == (negotiated is Ok),
            negotiated is Ok ==> description_in(encode_utf8(r.0.body@)) == described(negotiated),
            final(self).answered == (old(self).answered || r.1),
            final(self).notified == old(self).notified,
    {
        let json = match negotiated {
            Ok(description) => encode_description(&description),
            Err(reason) => Err(reason),
        };
        let completed: bool = json.is_ok();
        if completed {
            self.answered = true;
        }
        (answer_response(json), completed)
    }

    /// Whether whoever waits for the answered offer is to be told now: once, after the first
    /// response that answered an offer was written.
    pub fn notify(&mut self, completed: bool) -> (now: bool)
        ensures
            now == is_told(old(self).notified, completed),
            final(self).notified == is_notified(old(self).notified, completed),
            final(self).answered == old(self).answered,
    {
        if completed && !self.notified {
            self.notified = true;
            true
        } else {
            false
        }
    }
}


// ---------------------------------------------------------------------------
// Laws
// ---------------------------------------------------------------------------

/// A request, and what the peer connection makes of its offer if it is asked to answer it.
pub struct Exchange {
    pub request: request::RequestView,
    pub negotiated: Result<(SdpKind, Seq<char>), Seq<char>>,
}

pub open spec fn is_offer(request: request::RequestView) -> bool {
    request.method == "POST"@ && request.path == "/offer"@
}

/// The response to an exchange, and whether it answers an offer.
pub open spec fn served(answered: bool, assets: Assets, x: Exchange) -> (
    response::ResponseView,
    bool,
) {
    match action_view(answered, x.request, assets) {
        ActionView::Respond(r) => (r, false),
        ActionView::Answer(_, _) => (answer_view(answer_json(x.negotiated)), x.negotiated is Ok),
    }
}

/// Whether an offer was answered in the course of `history`, from the start of the server.
pub open spec fn answered_in(assets: Assets, history: Seq<Exchange>) -> bool
    decreases history.len(),
{
    history.len() > 0 && (answered_in(assets, history.drop_last()) || served(
        answered_in(assets, history.drop_last()),
        assets,
        history.last(),
    ).1)
}

/// Exchange `i` of `history` answers an offer.
pub open spec fn answers_offer(assets: Assets, history: Seq<Exchange>, i: int) -> bool {
    served(answered_in(assets, history.take(i)), assets, history[i]).1
}

/// Once an offer was answered, every further offer is refused with the conflict, whatever
/// its body holds.
pub proof fn later_offers_are_refused(assets: Assets, history: Seq<Exchange>, x: Exchange)
    requires
        answered_in(assets, history),
        is_offer(x.request),
    ensures
        served(answered_in(assets, history), assets, x) == (conflict(), false),
{
    reveal_strlit("GET");
    reveal_strlit("POST");
    assert("GET"@.len() != "POST"@.len());
}

/// In the life of a server at most one offer is answered.
pub proof fn one_offer_is_answered(assets: Assets, history: Seq<Exchange>, i: int, j: int)
    requires
        0 <= i < j < history.len(),
        answers_offer(assets, history, i),
    ensures
        !answers_offer(assets, history, j),
{
    assert(history.take(i + 1).drop_last() =~= history.take(i));
    assert(answered_in(assets, history.take(i + 1)));
    lemma_answered_stays(assets, history, i + 1, j);
}

proof fn lemma_answered_stays(assets: Assets, history: Seq<Exchange>, i: int, j: int)
    requires
        0 <= i <= j <= history.len(),
        answered_in(assets, history.take(i)),
    ensures
        answered_in(assets, history.take(j)),
    decreases j - i,
{
    if i < j {
        lemma_answered_stays(assets, history, i, j - 1);
        assert(history.take(j).drop_last() =~= history.take(j - 1));
    }
}

/// Whether whoever waits was told in the course of `completed`, which says of each exchange
/// whether it answered an offer.
pub open spec fn notified_in(completed: Seq<bool>) -> bool
    decreases completed.len(),
{
    completed.len() > 0 && is_notified(notified_in(completed.drop_last()), completed.last())
}

/// Whoever waits is told at exchange `i`.
pub open spec fn told_at(completed: Seq<bool>, i: int) -> bool {
    is_told(notified_in(completed.take(i)), completed[i])
}

/// Whoever waits is told at the first exchange that answers an offer and at no other, so once
/// if there is such an exchange and else never.
pub proof fn the_answer_is_told_once(completed: Seq<bool>)
    ensures
        forall|i: int|
            0 <= i < completed.len() ==> (#[trigger] told_at(completed, i) <==> completed[i] && (
            forall|j: int| 0 <= j < i ==> !#[trigger] completed[j])),
        forall|i: int, j: int|
            0 <= i < completed.len() && 0 <= j < completed.len() && #[trigger] told_at(
                completed,
                i,
            ) && #[trigger] told_at(completed, j) ==> i == j,
        (exists|i: int| 0 <= i < completed.len() && #[trigger] told_at(completed, i))
            <==> completed.contains(true),
{
    assert forall|i: int| 0 <= i < completed.len() implies (#[trigger] told_at(completed, i)
        <==> completed[i] && (forall|j: int| 0 <= j < i ==> !#[trigger] completed[j])) by {
        lemma_notified(completed.take(i));
        if completed.take(i).contains(true) {
            let j = choose|j: int| 0 <= j < i && completed.take(i)[j];
            assert(completed[j]);
        } else {
            assert forall|j: int| 0 <= j < i implies !#[trigger] completed[j] by {
                assert(completed.take(i)[j] == completed[j]);
            }
        }
    }
    if completed.contains(true) {
        let k = choose|k: int| 0 <= k < completed.len() && completed[k];
        lemma_first_is_told(completed, k);
    }
}

proof fn lemma_notified(completed: Seq<bool>)
    ensures
        notified_in(completed) == completed.contains(true),
    decreases completed.len(),
{
    if completed.len() > 0 {
        let rest = completed.drop_last();
        lemma_notified(rest);
        if rest.contains(true) {
            let j = choose|j: int| 0 <= j < rest.len() && rest[j];
            assert(completed[j]);
        } else if completed.last() {
            assert(completed[completed.len() - 1]);
        } else {
            assert forall|j: int| 0 <= j < completed.len() implies !#[trigger] completed[j] by {
                if j < rest.len() {
                    assert(rest[j] == completed[j]);
                }
            }
        }
    }
}

proof fn lemma_first_is_told(completed: Seq<bool>, k: int)
    requires
        0 <= k < completed.len(),
        completed[k],
    ensures
        exists|i: int| 0 <= i < completed.len() && #[trigger] told_at(completed, i),
    decreases k,
{
    lemma_notified(completed.take(k));
    if completed.take(k).contains(true) {
        let j = choose|j: int| 0 <= j < k && completed.take(k)[j];
        lemma_first_is_told(completed, j);
    } else {
        assert(told_at(completed, k));
    }
}

/// Of each exchange in the life of a server, whether it answered an offer.
pub open spec fn completed_in(assets: Assets, history: Seq<Exchange>) -> Seq<bool> {
    Seq::new(history.len(), |i: int| answers_offer(assets, history, i))
}

/// In the life of a server whoever waits is told exactly at the exchange that answers an offer.
pub proof fn told_when_an_offer_is_answered(assets: Assets, history: Seq<Exchange>, i: int)
    requires
        0 <= i < history.len(),
    ensures
        told_at(completed_in(assets, history), i) <==> answers_offer(assets, history, i),
{
    let completed = completed_in(assets, history);
    the_answer_is_told_once(completed);
    if completed[i] {
        assert forall|j: int| 0 <= j < i implies !#[trigger] completed[j] by {
            if answers_offer(assets, history, j) {
                one_offer_is_answered(assets, history, j, i);
            }
        }
    }
}

/// The first offer that the peer connection takes is answered: the response is `200 OK` and
/// carries the local description.
pub proof fn a_taken_offer_is_answered(assets: Assets, x: Exchange)
    requires
        is_offer(x.request),
        description_in(x.request.body) is Ok,
        x.negotiated is Ok,
    ensures
        served(false, assets, x) == (
            pages::ok("application/json"@, description_json(x.negotiated->Ok_0.0, x.negotiated->Ok_0.1)),
            true,
        ),
{
    reveal_strlit("GET");
    reveal_strlit("POST");
    assert("GET"@.len() != "POST"@.len());
}

/// An offer that fails leaves the server free to answer the next one.
pub proof fn a_failed_offer_changes_nothing(assets: Assets, history: Seq<Exchange>, x: Exchange)
    requires
        !answered_in(assets, history),
        description_in(x.request.body) is Err || x.negotiated is Err,
    ensures
        !answered_in(assets, history.push(x)),
{
    assert(history.push(x).drop_last() =~= history);
}

/// Pages can be loaded again at any time: what a `GET` is answered does not depend on
/// whether an offer was answered.
pub proof fn pages_reload(answered: bool, assets: Assets, x: Exchange)
    requires
        x.request.method == "GET"@,
    ensures
        served(answered, assets, x) == (pages::static_page(x.request.path, assets, None), false),
{
}

/// Every response has a status and a content type that fit on a line of the head, so that
/// the client finds the body.
pub proof fn signaling_answers_are_framed(answered: bool, assets: Assets, x: Exchange)
    ensures
        response::is_plain_line(served(answered, assets, x).0.status),
        response::is_plain_line(served(answered, assets, x).0.content_type),
{
    reveal_strlit("200 OK");
    reveal_strlit("404 Not Found");
    reveal_strlit("409 Conflict");
    reveal_strlit("500 Internal Server Error");
    reveal_strlit("text/plain");
    reveal_strlit("text/html; charset=utf-8");
    reveal_strlit("text/css; charset=utf-8");
    reveal_strlit("application/javascript; charset=utf-8");
    reveal_strlit("application/json");
}

/// The offer reaches the peer connection as the browser sent it: where no offer was answered,
/// what stands in the body of an offer, its type and its whole SDP, is what is to be answered.
pub proof fn the_offer_is_handed_on_whole(
    request: request::RequestView,
    assets: Assets,
    kind: SdpKind,
    sdp: Seq<char>,
)
    requires
        request.method == "POST"@,
        request.path == "/offer"@,
        description_in(request.body) == Ok::<(SdpKind, Seq<char>), Seq<char>>((kind, sdp)),
    ensures
        action_view(false, request, assets) matches ActionView::Answer(k, s) && k == kind && s
            == sdp,
{
    reveal_strlit("GET");
    reveal_strlit("POST");
    assert("GET"@.len() != "POST"@.len());
}

/// An offer that cannot be read is answered with the reason, whole.
pub proof fn an_unreadable_offer_is_answered_with_the_reason(
    request: request::RequestView,
    assets: Assets,
    reason: Seq<char>,
)
    requires
        request.method == "POST"@,
        request.path == "/offer"@,
        description_in(request.body) == Err::<(SdpKind, Seq<char>), Seq<char>>(reason),
    ensures
        action_view(false, request, assets) matches ActionView::Respond(r) && r.status
            == "500 Internal Server Error"@ && r.content_type == "text/plain"@ && r.body
            == "failed to answer offer: "@ + ("failed to parse browser offer JSON: "@ + reason),
{
    reveal_strlit("GET");
    reveal_strlit("POST");
    assert("GET"@.len() != "POST"@.len());
}

/// What an offer is answered: the local description in JSON, whole, or the reason why there is
/// none, whole.
pub proof fn an_answer_carries_what_came_of_the_offer(
    negotiated: Result<(SdpKind, Seq<char>), Seq<char>>,
)
    ensures
        ({
            let r = answer_view(answer_json(negotiated));
            match negotiated {
                Ok((kind, sdp)) => r.status == "200 OK"@ && r.content_type
                    == "application/json"@ && r.body == description_json(kind, sdp),
                Err(reason) => r.status == "500 Internal Server Error"@ && r.content_type
                    == "text/plain"@ && r.body == "failed to answer offer: "@ + reason,
            }
        }),
{
}

/// Whether or not an offer was answered, `GET` is answered with the page at the path, and
/// everything that is neither `GET` nor an offer is not found.
pub proof fn other_requests_get_pages_or_nothing(
    answered: bool,
    request: request::RequestView,
    assets: Assets,
)
    ensures
        request.method == "GET"@ ==> action_view(answered, request, assets)
            == ActionView::Respond(pages::static_page(request.path, assets, None)),
        request.method != "GET"@ && !(request.method == "POST"@ && request.path == "/offer"@)
            ==> (action_view(answered, request, assets) matches ActionView::Respond(r)
            && r.status == "404 Not Found"@ && r.content_type == "text/plain"@ && r.body
            == "not found"@),
{
}

/// While a session is active, every offer is refused, whatever stands in it.
pub proof fn an_active_session_refuses_offers(request: request::RequestView, assets: Assets)
    requires
        request.method == "POST"@,
        request.path == "/offer"@,
    ensures
        action_view(true, request, assets) matches ActionView::Respond(r) && r.status
            == "409 Conflict"@ && r.content_type == "text/plain"@ && r.body
            == "this demo process already has an active WebRTC session; restart cargo run to create a new session"@,
{
    reveal_strlit("GET");
    reveal_strlit("POST");
    assert("GET"@.len() != "POST"@.len());
}

/// The views of actions and descriptions show what they hold.
pub proof fn actions_are_shown(r: HttpResponse, d: SessionDescription, e: String)
    ensures
        SignalingAction::Respond(r)@ == ActionView::Respond(r@),
        SignalingAction::Answer(d)@ == ActionView::Answer(d.kind, d.sdp@),
        described(Ok(d)) == Ok::<(SdpKind, Seq<char>), Seq<char>>((d.kind, d.sdp@)),
        described(Err(e)) == Err::<(SdpKind, Seq<char>), Seq<char>>(e@),
        texts(Ok(e)) == Ok::<Seq<char>, Seq<char>>(e@),
        texts(Err(e)) == Err::<Seq<char>, Seq<char>>(e@),
{
}

/// What a request leads to. An offer that can be read, while none was answered, is handed to
/// the peer connection with its type and its whole SDP; one that cannot is answered with the
/// reason; while a session is active every offer is refused; `GET` gives the page at the path;
/// and there is nothing else.
pub proof fn a_request_leads_to_its_action(
    s: Signaling,
    request: HttpRequest,
    assets: Assets,
    action: SignalingAction,
)
    requires
        call_ensures(Signaling::handle, (&s, &request, &assets), action),
    ensures
        ({
            let offer = request.method@ == "POST"@ && request.path@ == "/offer"@;
            let said = description_in(request.body@);
            &&& offer && !s.answered && said is Ok ==> (action matches SignalingAction::Answer(d)
                && d.kind == said->Ok_0.0 && d.sdp@ == said->Ok_0.1)
            &&& offer && !s.answered && said is Err ==> (action matches SignalingAction::Respond(
                r,
            ) && r.status@ == "500 Internal Server Error"@ && r.content_type@ == "text/plain"@
                && r.body@ == "failed to answer offer: "@ + (
            "failed to parse browser offer JSON: "@ + said->Err_0))
            &&& offer && s.answered ==> (action matches SignalingAction::Respond(r) && r.status@
                == "409 Conflict"@ && r.content_type@ == "text/plain"@ && r.body@
                == "this demo process already has an active WebRTC session; restart cargo run to create a new session"@)
            &&& request.method@ == "GET"@ ==> (action matches SignalingAction::Respond(r) && r@
                == pages::static_page(request.path@, assets, None))
            &&& request.method@ != "GET"@ && !offer ==> (
            action matches SignalingAction::Respond(r) && r.status@ == "404 Not Found"@
                && r.content_type@ == "text/plain"@ && r.body@ == "not found"@)
        }),
{
    reveal_strlit("GET");
    reveal_strlit("POST");
    assert("GET"@.len() != "POST"@.len());
    request::requests_are_shown(request);
    if let SignalingAction::Respond(r) = action {
        response::responses_are_shown(r);
    }
}

/// What reading an offer and answering it lead to, whatever was read and whatever came of it.
pub proof fn offers_and_answers_are_carried_whole(
    decoded: Result<SessionDescription, String>,
    action: SignalingAction,
    json: Result<String, String>,
    r: HttpResponse,
)
    requires
        call_ensures(offer_action, (decoded,), action),
        call_ensures(answer_response, (json,), r),
    ensures
        decoded matches Ok(d) ==> (action matches SignalingAction::Answer(a) && a.kind == d.kind
            && a.sdp@ == d.sdp@),
        decoded matches Err(e) ==> (action matches SignalingAction::Respond(f) && f.status@
            == "500 Internal Server Error"@ && f.body@ == "failed to answer offer: "@ + (
        "failed to parse browser offer JSON: "@ + e@)),
        json matches Ok(text) ==> r.status@ == "200 OK"@ && r.content_type@
            == "application/json"@ && r.body@ == text@,
        json matches Err(reason) ==> r.status@ == "500 Internal Server Error"@
            && r.content_type@ == "text/plain"@ && r.body@ == "failed to answer offer: "@
            + reason@,
{
    if let SignalingAction::Respond(f) = action {
        response::responses_are_shown(f);
    }
    response::responses_are_shown(r);
}

/// What the state of the server goes through: no offer is answered at first; an offer is
/// answered exactly where the peer connection gave a local description, which the browser then
/// reads in the body; it stays answered; and whoever waits is told once, of the first answer.
pub proof fn an_offer_is_answered_for_good()
    ensures
        forall|s: Signaling| #[trigger]
            call_ensures(Signaling::new, (), s) ==> !s.answered && !s.notified,
        forall|
            s: &mut Signaling,
            negotiated: Result<SessionDescription, String>,
            r: (HttpResponse, bool),
        | #[trigger]
            call_ensures(Signaling::conclude, (s, negotiated), r) ==> {
                &&& r.1 == (negotiated is Ok)
                &&& final(s).answered == (s.answered || negotiated is Ok)
                &&& final(s).notified == s.notified
                &&& negotiated matches Ok(d) ==> {
                    &&& r.0.status@ == "200 OK"@
                    &&& r.0.content_type@ == "application/json"@
                    &&& r.0.body@ == description_json(d.kind, d.sdp@)
                    &&& description_in(encode_utf8(r.0.body@)) == Ok::<
                        (SdpKind, Seq<char>),
                        Seq<char>,
                    >((d.kind, d.sdp@))
                }
                &&& negotiated matches Err(reason) ==> {
                    &&& r.0.status@ == "500 Internal Server Error"@
                    &&& r.0.content_type@ == "text/plain"@
                    &&& r.0.body@ == "failed to answer offer: "@ + reason@
                }
            },
        forall|s: &mut Signaling, completed: bool, now: bool| #[trigger]
            call_ensures(Signaling::notify, (s, completed), now) ==> {
                &&& now == (completed && !s.notified)
                &&& final(s).notified == (s.notified || completed)
                &&& final(s).answered == s.answered
            },
{
}

} // verus!
