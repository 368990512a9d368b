//! HTTP responses.
use vstd::prelude::*;
use vstd::string::*;
use vstd::utf8::*;
use crate::request;
use crate::text;

verus! {

/// A response, before it is written out.
#[derive(Debug)]
pub struct HttpResponse {
    pub status: &'static str,
    pub content_type: &'static str,
    pub body: String,
}

/// What a response says.
#[verifier::ext_equal]
pub struct ResponseView {
    pub status: Seq<char>,
    pub content_type: Seq<char>,
    pub body: Seq<char>,
}

impl View for HttpResponse {
    type V = ResponseView;

    open spec fn view(&self) -> ResponseView {
        ResponseView {
            status: self.status@,
            content_type: self.content_type@,
            body: self.body@,
        }
    }
}

/// The head of a response whose body has `length` bytes.
pub open spec fn head_text(r: ResponseView, length: nat) -> Seq<char> {
    "HTTP/1.1 "@ + r.status + "\r\nContent-Type: "@ + r.content_type + "\r\nContent-Length: "@
        + text::decimal(length) + "\r\nCache-Control: no-store\r\nConnection: close"@
}

/// A response as it is written out.
pub open spec fn response_text(r: ResponseView) -> Seq<char> {
    head_text(r, encode_utf8(r.body).len()) + "\r\n\r\n"@ + r.body
}

impl HttpResponse {
    pub fn new(status: &'static str, content_type: &'static str, body: &str) -> (r: HttpResponse)
        ensures
            r@ == (ResponseView {
                status: status@,
                content_type: content_type@,
                body: body@,
            }),
            r.status@ == status@,
            r.content_type@ == content_type@,
            r.body@ == body@,
    {
        HttpResponse { status, content_type, body: body.to_owned() }
    }

    /// The response as it is written out.
    pub fn render(&self) -> (out: String)
        ensures
            out@ == response_text(self@),
    {
        let length: usize = self.body.as_str().as_bytes().len();
        let mut out: String = String::new();
        out.append("HTTP/1.1 ");
        out.append(self.status);
        out.append("\r\nContent-Type: ");
        out.append(self.content_type);
        out.append("\r\nContent-Length: ");
        text::push_decimal(&mut out, length as u64);
        out.append("\r\nCache-Control: no-store\r\nConnection: close");
        out.append("\r\n\r\n");
        out.append(self.body.as_str());
        proof {
            assert(Seq::<char>::empty() + "HTTP/1.1 "@ =~= "HTTP/1.1 "@);
        }
        out
    }
}

/// Text that fits on one line: no CR and no LF.
pub open spec fn is_plain_line(s: Seq<char>) -> bool {
    !s.contains('\r') && !s.contains('\n')
}

/// A client finds the body: in the bytes of a response the first blank line ends the head,
/// the body is all that follows it, and the length that the head states is the length of the
/// body in bytes.
pub proof fn response_frames_its_body(r: ResponseView)
    requires
        is_plain_line(r.status),
        is_plain_line(r.content_type),
        encode_utf8(r.body).len() <= usize::MAX,
    ensures
        ({
            let head = head_text(r, encode_utf8(r.body).len());
            let end = encode_utf8(head).len() as int;
            let bytes = encode_utf8(response_text(r));
            &&& request::header_end(bytes) == Some(end)
            &&& bytes.skip(end + 4) == encode_utf8(r.body)
            &&& request::content_length(text::lines(head).drop_first()) == encode_utf8(
                r.body,
            ).len()
        }),
{
    let n = encode_utf8(r.body).len();
    let head = head_text(r, n);
    let blank = "\r\n\r\n"@;
    let bytes = encode_utf8(response_text(r));
    reveal_strlit("\r\n\r\n");
    is_ascii_chars_encode_utf8(blank);
    assert(encode_utf8(blank) =~= seq![13u8, 10, 13, 10]);
    text::lemma_encode_concat(head, blank);
    text::lemma_encode_concat(head + blank, r.body);
    lemma_head(r, n as usize);
    request::lemma_head_ends(encode_utf8(head), encode_utf8(r.body));
    assert(bytes =~= encode_utf8(head) + seq![13u8, 10, 13, 10] + encode_utf8(r.body));
    assert(bytes.skip(encode_utf8(head).len() as int + 4) =~= encode_utf8(r.body));
}

/// No blank line stands in the head, and its lines state the length.
proof fn lemma_head(r: ResponseView, n: usize)
    requires
        is_plain_line(r.status),
        is_plain_line(r.content_type),
    ensures
        request::spaced(encode_utf8(head_text(r, n as nat))),
        request::content_length(text::lines(head_text(r, n as nat)).drop_first()) == n,
        text::lines(head_text(r, n as nat)) == seq![
            "HTTP/1.1 "@ + r.status,
            "Content-Type: "@ + r.content_type,
            "Content-Length: "@ + text::numeral(n as nat, 10),
            "Cache-Control: no-store"@,
            "Connection: close"@,
        ],
{
    let head = head_text(r, n as nat);
    let crlf = seq!['\r', '\n'];
    reveal_strlit("HTTP/1.1 ");
    reveal_strlit("\r\nContent-Type: ");
    reveal_strlit("\r\nContent-Length: ");
    reveal_strlit("\r\nCache-Control: no-store\r\nConnection: close");
    reveal_strlit("Content-Type: ");
    reveal_strlit("Content-Length: ");
    reveal_strlit("Cache-Control: no-store");
    reveal_strlit("Connection: close");
    let l0 = "HTTP/1.1 "@ + r.status;
    let l1 = "Content-Type: "@ + r.content_type;
    let l2 = "Content-Length: "@ + text::decimal(n as nat);
    let l3 = "Cache-Control: no-store"@;
    let l4 = "Connection: close"@;
    let t3 = l3 + crlf + l4;
    let t2 = l2 + crlf + t3;
    let t1 = l1 + crlf + t2;
    assert("\r\nContent-Type: "@ =~= crlf + "Content-Type: "@);
    assert("\r\nContent-Length: "@ =~= crlf + "Content-Length: "@);
    assert("\r\nCache-Control: no-store\r\nConnection: close"@ =~= crlf + l3 + crlf + l4);
    assert(head =~= l0 + crlf + t1);

    request::lemma_length_field(n);
    lemma_plain_concat("HTTP/1.1 "@, r.status);
    lemma_plain_concat("Content-Type: "@, r.content_type);
    text::lemma_encode_without(l4, '\r');
    request::lemma_spaced_line(l3, l4);
    request::lemma_spaced_line(l2, t3);
    request::lemma_spaced_line(l1, t2);
    request::lemma_spaced_line(l0, t1);

    text::lemma_lines_first(l0, t1);
    text::lemma_lines_first(l1, t2);
    text::lemma_lines_first(l2, t3);
    text::lemma_lines_first(l3, l4);
    text::lemma_lines_last(l4);
    let lines = text::lines(head);
    assert(lines =~= seq![l0, l1, l2, l3, l4]);
    assert(lines.drop_first() =~= text::lines(t1));
    assert(text::lines(t1)[0] == l1);
    assert(text::lines(t1).drop_first() =~= text::lines(t2));
    assert(text::lines(t2)[0] == l2);
    assert forall|i: int| 0 <= i < 12 implies text::other_than(':')(#[trigger] l1[i]) by {
        assert(l1[i] == "Content-Type: "@[i]);
    }
    assert(l1[12] == ':');
    text::lemma_span_is(l1, text::other_than(':'), 12);
    reveal_strlit("content-length");
    assert(request::length_field(l1) is None);
    assert(request::content_length(text::lines(t2)) == n);
    assert(request::content_length(text::lines(t1)) == n);
}

proof fn lemma_plain_concat(a: Seq<char>, b: Seq<char>)
    requires
        is_plain_line(a),
        is_plain_line(b),
    ensures
        is_plain_line(a + b),
{
    assert forall|i: int| 0 <= i < (a + b).len() implies (a + b)[i] != '\r' && (a + b)[i]
        != '\n' by {
        if i < a.len() {
            assert(a.contains(a[i]));
        } else {
            assert(b.contains(b[i - a.len()]));
        }
    }
}

/// What a header line says of `name`: nothing unless `name`, in capital or small letters, stands
/// before its first colon; then what follows the colon, without the white space around it.
pub open spec fn field_named(line: Seq<char>, name: Seq<char>) -> Option<Seq<char>> {
    let colon = text::span(line, text::other_than(':')) as int;
    if colon < line.len() && text::same_but_for_case(line.take(colon), name) {
        Some(text::trim(line.skip(colon + 1)))
    } else {
        None
    }
}

/// What the first header line that says something of `name` says of it.
pub open spec fn header_value(lines: Seq<Seq<char>>, name: Seq<char>) -> Option<Seq<char>>
    decreases lines.len(),
{
    if lines.len() == 0 {
        None
    } else {
        match field_named(lines[0], name) {
            Some(value) => Some(value),
            None => header_value(lines.drop_first(), name),
        }
    }
}

/// What a client reads in the bytes of a response. The first line of the head is the version of
/// the protocol and then the status; the headers say the type of the content, the length of
/// the body, that it is not to be stored, and that the connection is closed; and what follows
/// the head is the body.
pub proof fn a_client_reads_the_response(r: ResponseView)
    requires
        is_plain_line(r.status),
        is_plain_line(r.content_type),
        encode_utf8(r.body).len() <= usize::MAX,
    ensures
        ({
            let bytes = encode_utf8(response_text(r));
            request::header_end(bytes) matches Some(end) && {
                let lines = text::lines(request::text_of(bytes.take(end)));
                let headers = lines.drop_first();
                &&& lines[0] == "HTTP/1.1 "@ + r.status
                &&& header_value(headers, "content-type"@) == Some(text::trim(r.content_type))
                &&& header_value(headers, "content-length"@) == Some(
                    text::numeral(encode_utf8(r.body).len(), 10),
                )
                &&& header_value(headers, "cache-control"@) == Some("no-store"@)
                &&& header_value(headers, "connection"@) == Some("close"@)
                &&& headers[0] == "Content-Type: "@ + r.content_type
                &&& headers.len() == 4
                &&& bytes.skip(end + 4) == encode_utf8(r.body)
            }
        }),
{
    response_frames_its_body(r);
    let n = encode_utf8(r.body).len();
    let head = head_text(r, n);
    let blank = "\r\n\r\n"@;
    let bytes = encode_utf8(response_text(r));
    let end = encode_utf8(head).len() as int;
    text::lemma_encode_concat(head, blank);
    text::lemma_encode_concat(head + blank, r.body);
    assert(bytes.take(end) =~= encode_utf8(head));
    encode_utf8_valid_utf8(head);
    encode_utf8_decode_utf8(head);
    lemma_head(r, n as usize);
    let lines = text::lines(head);
    let headers = lines.drop_first();

    reveal_strlit("Content-Type: ");
    reveal_strlit("Content-Length: ");
    reveal_strlit("Cache-Control: no-store");
    reveal_strlit("Connection: close");
    reveal_strlit("Content-Type");
    reveal_strlit("Content-Length");
    reveal_strlit("Cache-Control");
    reveal_strlit("Connection");
    reveal_strlit("content-type");
    reveal_strlit("content-length");
    reveal_strlit("cache-control");
    reveal_strlit("connection");
    reveal_strlit("no-store");
    reveal_strlit("close");
    let gap = seq![':', ' '];
    let digits = text::numeral(n, 10);
    let l1 = "Content-Type: "@ + r.content_type;
    let l2 = "Content-Length: "@ + digits;
    let l3 = "Cache-Control: no-store"@;
    let l4 = "Connection: close"@;
    assert(headers =~= seq![l1, l2, l3, l4]);
    assert(headers[0] == l1);
    assert(l1 =~= "Content-Type"@ + gap + r.content_type);
    assert(l2 =~= "Content-Length"@ + gap + digits);
    assert(l3 =~= "Cache-Control"@ + gap + "no-store"@);
    assert(l4 =~= "Connection"@ + gap + "close"@);
    let h2 = headers.drop_first();
    let h3 = h2.drop_first();
    let h4 = h3.drop_first();
    assert(h2 =~= seq![l2, l3, l4]);
    assert(h3 =~= seq![l3, l4]);
    assert(h4 =~= seq![l4]);
    let names = seq!["content-type"@, "content-length"@, "cache-control"@, "connection"@];
    assert forall|i: int| #![trigger names[i]] 0 <= i < 4 implies {
        &&& field_named(l1, names[i]) == (if i == 0 {
            Some(text::trim(r.content_type))
        } else {
            None
        })
        &&& field_named(l2, names[i]) == (if i == 1 {
            Some(text::trim(digits))
        } else {
            None
        })
        &&& field_named(l3, names[i]) == (if i == 2 {
            Some(text::trim("no-store"@))
        } else {
            None
        })
        &&& field_named(l4, names[i]) == (if i == 3 {
            Some(text::trim("close"@))
        } else {
            None
        })
    } by {
        lemma_field_named("Content-Type"@, r.content_type, names[i]);
        lemma_field_named("Content-Length"@, digits, names[i]);
        lemma_field_named("Cache-Control"@, "no-store"@, names[i]);
        lemma_field_named("Connection"@, "close"@, names[i]);
    }
    assert(names[0] == "content-type"@ && names[1] == "content-length"@ && names[2]
        == "cache-control"@ && names[3] == "connection"@);
    text::lemma_decimal(n);
    assert(text::is_digit(digits[0]) && text::is_digit(digits.last()));
    let none = Seq::<char>::empty();
    text::trimming_keeps_the_middle(none, digits, none);
    text::trimming_keeps_the_middle(none, "no-store"@, none);
    text::trimming_keeps_the_middle(none, "close"@, none);
    assert(none + digits + none =~= digits);
    assert(none + "no-store"@ + none =~= "no-store"@);
    assert(none + "close"@ + none =~= "close"@);
    reveal_with_fuel(header_value, 5);
}

/// A header line of the usual form says its value of its name, and nothing of other names.
proof fn lemma_field_named(n: Seq<char>, value: Seq<char>, name: Seq<char>)
    requires
        forall|i: int| 0 <= i < n.len() ==> #[trigger] n[i] != ':',
    ensures
        field_named(n + seq![':', ' '] + value, name) == (if text::same_but_for_case(n, name) {
            Some(text::trim(value))
        } else {
            None
        }),
{
    let line = n + seq![':', ' '] + value;
    let k = n.len() as int;
    assert forall|i: int| 0 <= i < k implies text::other_than(':')(#[trigger] line[i]) by {
        assert(line[i] == n[i]);
    }
    assert(line[k] == ':');
    text::lemma_span_is(line, text::other_than(':'), k);
    assert(line.take(k) =~= n);
    let v = line.skip(k + 1);
    assert(v =~= seq![' '] + value);
    assert(v.drop_first() =~= value);
    assert(text::span(v, text::white()) == 1 + text::span(value, text::white()));
    text::lemma_span(value, text::white());
    assert(v.skip(text::span(v, text::white()) as int) =~= value.skip(
        text::span(value, text::white()) as int,
    ));
}

/// The view of a response shows what it says.
pub proof fn responses_are_shown(r: HttpResponse)
    ensures
        r@.status == r.status@,
        r@.content_type == r.content_type@,
        r@.body == r.body@,
{
}

/// From making a response to reading it: a client finds the status, the type of the content and
/// the body that the response was made with.
pub proof fn a_written_response_is_read(
    status: &'static str,
    content_type: &'static str,
    body: &str,
    r: HttpResponse,
    out: String,
)
    requires
        call_ensures(HttpResponse::new, (status, content_type, body), r),
        call_ensures(HttpResponse::render, (&r,), out),
        is_plain_line(status@),
        is_plain_line(content_type@),
        encode_utf8(body@).len() <= usize::MAX,
    ensures
        ({
            let bytes = encode_utf8(out@);
            request::header_end(bytes) matches Some(end) && {
                let lines = text::lines(request::text_of(bytes.take(end)));
                let headers = lines.drop_first();
                &&& lines[0] == "HTTP/1.1 "@ + status@
                &&& header_value(headers, "content-type"@) == Some(text::trim(content_type@))
                &&& headers[0] == "Content-Type: "@ + content_type@
                &&& header_value(headers, "content-length"@) == Some(
                    text::numeral(encode_utf8(body@).len(), 10),
                )
                &&& header_value(headers, "cache-control"@) == Some("no-store"@)
                &&& header_value(headers, "connection"@) == Some("close"@)
                &&& bytes.skip(end + 4) == encode_utf8(body@)
            }
        }),
{
    a_client_reads_the_response(r@);
}

} // verus!
