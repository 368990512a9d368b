//! The pages that the server hands to the browser.
use vstd::prelude::*;
use vstd::string::*;
use crate::request;
use crate::request::HttpRequest;
use crate::response;
use crate::response::HttpResponse;
use crate::text;

verus! {

/// The files of the browser's side.
pub struct Assets {
    pub index_html: String,
    pub main_css: String,
    pub main_js: String,
    pub webtransport_html: String,
    pub webtransport_js: String,
}

/// The answer to a request for `path`.
pub open spec fn static_page(
    path: Seq<char>,
    assets: Assets,
    config: Option<Seq<char>>,
) -> response::ResponseView {
    if path == "/"@ || path == "/index.html"@ {
        ok("text/html; charset=utf-8"@, assets.index_html@)
    } else if path == "/webtransport.html"@ {
        ok("text/html; charset=utf-8"@, assets.webtransport_html@)
    } else if path == "/css/main.css"@ {
        ok("text/css; charset=utf-8"@, assets.main_css@)
    } else if path == "/js/webrtc.js"@ {
        ok("application/javascript; charset=utf-8"@, assets.main_js@)
    } else if path == "/js/webtransport.js"@ {
        ok("application/javascript; charset=utf-8"@, assets.webtransport_js@)
    } else if path == "/webtransport-config"@ {
        ok(
            "application/json"@,
            match config {
                Some(text) => text,
                None => "{\"error\":\"webtransport mode is not running\"}"@,
            },
        )
    } else {
        not_found()
    }
}

pub open spec fn ok(content_type: Seq<char>, body: Seq<char>) -> response::ResponseView {
    response::ResponseView { status: "200 OK"@, content_type, body }
}

pub open spec fn not_found() -> response::ResponseView {
    response::ResponseView {
        status: "404 Not Found"@,
        content_type: "text/plain"@,
        body: "not found"@,
    }
}

/// The text of an optional string.
pub open spec fn optional_text(s: Option<&String>) -> Option<Seq<char>> {
    match s {
        Some(s) => Some(s@),
        None => None,
    }
}

/// Answers a request for `path`.
pub fn static_response(path: &str, assets: &Assets, config: Option<&String>) -> (r: HttpResponse)
    ensures
        r@ == static_page(path@, *assets, optional_text(config)),
{
    if text::same_text(path, "/") || text::same_text(path, "/index.html") {
        HttpResponse::new("200 OK", "text/html; charset=utf-8", assets.index_html.as_str())
    } else if text::same_text(path, "/webtransport.html") {
        HttpResponse::new("200 OK", "text/html; charset=utf-8", assets.webtransport_html.as_str())
    } else if text::same_text(path, "/css/main.css") {
        HttpResponse::new("200 OK", "text/css; charset=utf-8", assets.main_css.as_str())
    } else if text::same_text(path, "/js/webrtc.js") {
        HttpResponse::new("200 OK", "application/javascript; charset=utf-8", assets.main_js.as_str())
    } else if text::same_text(path, "/js/webtransport.js") {
        HttpResponse::new(
            "200 OK",
            "application/javascript; charset=utf-8",
            assets.webtransport_js.as_str(),
        )
    } else if text::same_text(path, "/webtransport-config") {
        let body: &str = match config {
            Some(text) => text.as_str(),
            None => "{\"error\":\"webtransport mode is not running\"}",
        };
        HttpResponse::new("200 OK", "application/json", body)
    } else {
        HttpResponse::new("404 Not Found", "text/plain", "not found")
    }
}

/// The numbers of a sequence of bytes in decimal, with a comma and a space between them.
pub open spec fn comma_separated(bytes: Seq<u8>) -> Seq<char>
    decreases bytes.len(),
{
    if bytes.len() == 0 {
        seq![]
    } else if bytes.len() == 1 {
        text::decimal(bytes[0] as nat)
    } else {
        comma_separated(bytes.drop_last()) + ", "@ + text::decimal(bytes.last() as nat)
    }
}

/// A digest as a JSON array of its bytes.
pub open spec fn bytes_array(bytes: Seq<u8>) -> Seq<char> {
    "["@ + comma_separated(bytes) + "]"@
}

/// What `Certificate::hash` gives for the certificate in a DER encoding; nothing where
/// `Certificate::from_der` finds no certificate in it.
pub uninterp spec fn certificate_digest(der: Seq<u8>) -> Option<Seq<u8>>;

/// Calls `wtransport::tls::Certificate::hash`, the SHA-256 of the DER encoding, on the
/// certificate that `wtransport::tls::Certificate::from_der` makes of the bytes. Claimed:
/// whether the bytes are a certificate, and its hash, are functions of the bytes.
#[verifier::external_body]
fn digest_of(der: &[u8]) -> (digest: Option<[u8; 32]>)
    ensures
        (match digest {
            Some(d) => Some(d@),
            None => None,
        }) == certificate_digest(der@),
{
    wtransport::tls::Certificate::from_der(der.to_vec()).ok().map(|c| *c.hash().as_ref())
}

/// Calls `wtransport::tls::Sha256Digest::fmt` with the format `BytesArray`, which prints the
/// bytes of a digest with `{:?}`. Claimed: the result is the bytes in decimal, a comma and a
/// space between two of them, in square brackets.
#[verifier::external_body]
fn digest_text(digest: &[u8; 32]) -> (s: String)
    ensures
        s@ == bytes_array(digest@),
{
    wtransport::tls::Sha256Digest::new(*digest).fmt(wtransport::tls::Sha256DigestFmt::BytesArray)
}

/// What a page needs to open a WebTransport session: the address of the endpoint and the
/// hash of its certificate.
pub open spec fn config_text(cert_hash: Seq<char>, port: u16) -> Seq<char> {
    "{\"url\":\"https://127.0.0.1:"@ + text::decimal(port as nat)
        + "/media\",\"serverCertificateHash\":"@ + cert_hash + "}"@
}

/// The server that hands out the pages beside a WebTransport endpoint.
pub struct StaticHttpServer {
    pub webtransport_config: Option<String>,
}

impl StaticHttpServer {
    /// What the server tells pages of the endpoint.
    pub open spec fn config(&self) -> Option<Seq<char>> {
        match self.webtransport_config {
            Some(text) => Some(text@),
            None => None,
        }
    }

    /// A server beside the endpoint on `port`, whose certificate has the hash `cert_hash`
    /// (a JSON array of bytes).
    pub fn webtransport(cert_hash: String, port: u16) -> (server: StaticHttpServer)
        ensures
            server.config() == Some(config_text(cert_hash@, port)),
    {
        let mut config: String = String::new();
        config.append("{\"url\":\"https://127.0.0.1:");
        text::push_decimal(&mut config, port as u64);
        config.append("/media\",\"serverCertificateHash\":");
        config.append(cert_hash.as_str());
        config.append("}");
        proof {
            assert(config@ =~= config_text(cert_hash@, port));
        }
        StaticHttpServer { webtransport_config: Some(config) }
    }

    /// A server beside the endpoint on `port`, whose certificate has the SHA-256 digest
    /// `digest`.
    pub fn for_digest(digest: &[u8; 32], port: u16) -> (server: StaticHttpServer)
        ensures
            server.config() == Some(config_text(bytes_array(digest@), port)),
    {
        StaticHttpServer::webtransport(digest_text(digest), port)
    }

    /// A server beside the endpoint on `port`, whose certificate has the DER encoding `der`;
    /// nothing where that is no certificate.
    pub fn for_certificate(der: &[u8], port: u16) -> (server: Option<StaticHttpServer>)
        ensures
            match certificate_digest(der@) {
                Some(digest) => server is Some && server->Some_0.config() == Some(
                    config_text(bytes_array(digest), port),
                ),
                None => server is None,
            },
    {
        match digest_of(der) {
            Some(digest) => Some(StaticHttpServer::for_digest(&digest, port)),
            None => None,
        }
    }

    /// Answers a request: `GET` with the page, any other method with a refusal.
    pub fn respond(&self, request: &HttpRequest, assets: &Assets) -> (r: HttpResponse)
        ensures
            r@ == static_answer(request@, *assets, self.config()),
    {
        if text::same_text(request.method.as_str(), "GET") {
            static_response(request.path.as_str(), assets, self.webtransport_config.as_ref())
        } else {
            HttpResponse::new("405 Method Not Allowed", "text/plain", "method not allowed")
        }
    }
}

/// What a server of pages answers.
pub open spec fn static_answer(
    request: request::RequestView,
    assets: Assets,
    config: Option<Seq<char>>,
) -> response::ResponseView {
    if request.method == "GET"@ {
        static_page(request.path, assets, config)
    } else {
        response::ResponseView {
            status: "405 Method Not Allowed"@,
            content_type: "text/plain"@,
            body: "method not allowed"@,
        }
    }
}

/// Every answer has a status and a content type that fit on a line of the head, so that the
/// client finds the body.
pub proof fn static_answers_are_framed(
    request: request::RequestView,
    assets: Assets,
    config: Option<Seq<char>>,
)
    ensures
        response::is_plain_line(static_answer(request, assets, config).status),
        response::is_plain_line(static_answer(request, assets, config).content_type),
{
    reveal_strlit("200 OK");
    reveal_strlit("404 Not Found");
    reveal_strlit("405 Method Not Allowed");
    reveal_strlit("text/plain");
    reveal_strlit("text/html; charset=utf-8");
    reveal_strlit("text/css; charset=utf-8");
    reveal_strlit("application/javascript; charset=utf-8");
    reveal_strlit("application/json");
}

/// Every page is found at its path, whole, with its type, whatever else the server knows.
pub proof fn every_page_has_its_path(assets: Assets, config: Option<Seq<char>>)
    ensures
        ({
            let html = "text/html; charset=utf-8"@;
            let js = "application/javascript; charset=utf-8"@;
            let at = |path: Seq<char>| static_page(path, assets, config);
            let is = |r: response::ResponseView, content_type: Seq<char>, body: Seq<char>|
                r.status == "200 OK"@ && r.content_type == content_type && r.body == body;
            &&& is(at("/"@), html, assets.index_html@)
            &&& is(at("/index.html"@), html, assets.index_html@)
            &&& is(at("/webtransport.html"@), html, assets.webtransport_html@)
            &&& is(at("/css/main.css"@), "text/css; charset=utf-8"@, assets.main_css@)
            &&& is(at("/js/webrtc.js"@), js, assets.main_js@)
            &&& is(at("/js/webtransport.js"@), js, assets.webtransport_js@)
            &&& config matches Some(text) ==> is(
                at("/webtransport-config"@),
                "application/json"@,
                text,
            )
            &&& config is None ==> is(
                at("/webtransport-config"@),
                "application/json"@,
                "{\"error\":\"webtransport mode is not running\"}"@,
            )
        }),
{
    reveal_strlit("/");
    reveal_strlit("/index.html");
    reveal_strlit("/webtransport.html");
    reveal_strlit("/css/main.css");
    reveal_strlit("/js/webrtc.js");
    reveal_strlit("/js/webtransport.js");
    reveal_strlit("/webtransport-config");
    assert("/css/main.css"@[1] != "/js/webrtc.js"@[1]);
    assert("/"@.len() == 1 && "/index.html"@.len() == 11 && "/webtransport.html"@.len() == 18
        && "/css/main.css"@.len() == 13 && "/js/webrtc.js"@.len() == 13
        && "/js/webtransport.js"@.len() == 19 && "/webtransport-config"@.len() == 20);
}

/// There is nothing at any other path.
pub proof fn other_paths_are_not_found(path: Seq<char>, assets: Assets, config: Option<Seq<char>>)
    requires
        path != "/"@,
        path != "/index.html"@,
        path != "/webtransport.html"@,
        path != "/css/main.css"@,
        path != "/js/webrtc.js"@,
        path != "/js/webtransport.js"@,
        path != "/webtransport-config"@,
    ensures
        static_page(path, assets, config).status == "404 Not Found"@,
        static_page(path, assets, config).content_type == "text/plain"@,
        static_page(path, assets, config).body == "not found"@,
{
}

/// The server of pages answers `GET` with the page at the path, and refuses every other
/// method, whatever the path and the body.
pub proof fn only_pages_are_served(
    request: request::RequestView,
    assets: Assets,
    config: Option<Seq<char>>,
)
    ensures
        request.method == "GET"@ ==> static_answer(request, assets, config) == static_page(
            request.path,
            assets,
            config,
        ),
        request.method != "GET"@ ==> {
            let r = static_answer(request, assets, config);
            r.status == "405 Method Not Allowed"@ && r.content_type == "text/plain"@ && r.body
                == "method not allowed"@
        },
{
}

/// A page is told the port of the endpoint, in decimal, and the hash as it is.
pub proof fn the_configuration_states_the_endpoint(cert_hash: Seq<char>, port: u16)
    ensures
        config_text(cert_hash, port) == "{\"url\":\"https://127.0.0.1:"@ + text::numeral(
            port as nat,
            10,
        ) + "/media\",\"serverCertificateHash\":"@ + cert_hash + "}"@,
{
}

/// Endpoints that differ in their port or their hash are told apart.
pub proof fn configurations_tell_endpoints_apart(
    hash_a: Seq<char>,
    port_a: u16,
    hash_b: Seq<char>,
    port_b: u16,
)
    requires
        config_text(hash_a, port_a) == config_text(hash_b, port_b),
    ensures
        port_a == port_b,
        hash_a == hash_b,
{
    let p = "{\"url\":\"https://127.0.0.1:"@;
    let q = "/media\",\"serverCertificateHash\":"@;
    let r = "}"@;
    reveal_strlit("/media\",\"serverCertificateHash\":");
    reveal_strlit("}");
    let (a, b) = (text::decimal(port_a as nat), text::decimal(port_b as nat));
    let t = config_text(hash_a, port_a);
    let s = t.skip(p.len() as int);
    assert(s =~= a + (q + hash_a + r));
    assert(s =~= b + (q + hash_b + r));
    text::lemma_same_number(port_a as nat, q + hash_a + r, port_b as nat, q + hash_b + r);
    let h = s.skip(a.len() as int + q.len());
    assert(h =~= hash_a + r);
    assert(h =~= hash_b + r);
    assert(hash_a =~= h.drop_last());
    assert(hash_b =~= h.drop_last());
}

/// The bytes of a digest are listed one by one, in their order, with a comma and a space
/// between two.
pub proof fn bytes_are_listed(a: Seq<u8>, b: Seq<u8>, byte: u8)
    requires
        a.len() > 0,
        b.len() > 0,
    ensures
        comma_separated(a + b) == comma_separated(a) + ", "@ + comma_separated(b),
        comma_separated(seq![byte]) == text::numeral(byte as nat, 10),
        bytes_array(a) == "["@ + comma_separated(a) + "]"@,
    decreases b.len(),
{
    assert((a + b).drop_last() =~= a + b.drop_last());
    if b.len() == 1 {
        assert(b.drop_last() =~= seq![]);
        assert(a + b.drop_last() =~= a);
    } else {
        bytes_are_listed(a, b.drop_last(), byte);
        assert(comma_separated(a + b) =~= comma_separated(a) + ", "@ + comma_separated(b));
    }
}

/// What the browser is handed, path by path: each page whole and with its type, what pages need
/// to know of the endpoint, and nothing at any other path.
pub proof fn the_browser_gets_its_pages(
    path: &str,
    assets: Assets,
    config: Option<&String>,
    r: HttpResponse,
)
    requires
        call_ensures(static_response, (path, &assets, config), r),
    ensures
        ({
            let html = "text/html; charset=utf-8"@;
            let js = "application/javascript; charset=utf-8"@;
            let is = |content_type: Seq<char>, body: Seq<char>|
                r.status@ == "200 OK"@ && r.content_type@ == content_type && r.body@ == body;
            &&& path@ == "/"@ || path@ == "/index.html"@ ==> is(html, assets.index_html@)
            &&& path@ == "/webtransport.html"@ ==> is(html, assets.webtransport_html@)
            &&& path@ == "/css/main.css"@ ==> is("text/css; charset=utf-8"@, assets.main_css@)
            &&& path@ == "/js/webrtc.js"@ ==> is(js, assets.main_js@)
            &&& path@ == "/js/webtransport.js"@ ==> is(js, assets.webtransport_js@)
            &&& path@ == "/webtransport-config"@ ==> (match config {
                Some(text) => is("application/json"@, text@),
                None => is(
                    "application/json"@,
                    "{\"error\":\"webtransport mode is not running\"}"@,
                ),
            })
            &&& path@ != "/"@ && path@ != "/index.html"@ && path@ != "/webtransport.html"@
                && path@ != "/css/main.css"@ && path@ != "/js/webrtc.js"@ && path@
                != "/js/webtransport.js"@ && path@ != "/webtransport-config"@ ==> r.status@
                == "404 Not Found"@ && r.content_type@ == "text/plain"@ && r.body@
                == "not found"@
        }),
{
    every_page_has_its_path(assets, optional_text(config));
}

/// The server beside an endpoint hands every page what it was made with: the port, in decimal,
/// and the hash of the certificate, as it is or as the list of its bytes. Where there is no
/// certificate there is no server.
pub proof fn the_server_tells_its_endpoint(
    cert_hash: String,
    port: u16,
    of_hash: StaticHttpServer,
    digest: [u8; 32],
    of_digest: StaticHttpServer,
    der: &[u8],
    of_certificate: Option<StaticHttpServer>,
)
    requires
        call_ensures(StaticHttpServer::webtransport, (cert_hash, port), of_hash),
        call_ensures(StaticHttpServer::for_digest, (&digest, port), of_digest),
        call_ensures(StaticHttpServer::for_certificate, (der, port), of_certificate),
    ensures
        ({
            let told = |server: StaticHttpServer, hash: Seq<char>|
                {
                    &&& server.webtransport_config matches Some(text)
                    &&& text@ == "{\"url\":\"https://127.0.0.1:"@ + text::numeral(port as nat, 10)
                        + "/media\",\"serverCertificateHash\":"@ + hash + "}"@
                };
            &&& told(of_hash, cert_hash@)
            &&& told(of_digest, "["@ + comma_separated(digest@) + "]"@)
            &&& of_certificate is Some <==> certificate_digest(der@) is Some
            &&& of_certificate matches Some(server) ==> told(
                server,
                "["@ + comma_separated(certificate_digest(der@)->Some_0) + "]"@,
            )
        }),
{
}

/// The server of pages answers `GET` with the page at the path, and refuses every other method.
pub proof fn only_get_is_answered(
    server: StaticHttpServer,
    request: HttpRequest,
    assets: Assets,
    r: HttpResponse,
    page: HttpResponse,
    path: &str,
)
    requires
        call_ensures(StaticHttpServer::respond, (&server, &request, &assets), r),
        path@ == request.path@,
        call_ensures(
            static_response,
            (
                path,
                &assets,
                (match server.webtransport_config {
                    Some(text) => Some(&text),
                    None => None,
                }),
            ),
            page,
        ),
    ensures
        request.method@ == "GET"@ ==> r.status@ == page.status@ && r.content_type@
            == page.content_type@ && r.body@ == page.body@,
        request.method@ != "GET"@ ==> r.status@ == "405 Method Not Allowed"@ && r.content_type@
            == "text/plain"@ && r.body@ == "method not allowed"@,
{
    response::responses_are_shown(r);
    response::responses_are_shown(page);
    request::requests_are_shown(request);
}

} // verus!
