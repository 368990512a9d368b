//! HTTP requests: finding the end of the head, reading the head, and collecting the body.
use vstd::prelude::*;
use vstd::utf8::*;
use crate::text;

verus! {

/// How many bytes are read at a time while the head is not complete.
pub const READ_SIZE: usize = 1024;

/// A head that is still incomplete after this many bytes is refused.
pub const HEAD_LIMIT: usize = 131_072;

/// Why a request cannot be served.
#[derive(Debug, Clone, Copy, PartialEq, Eq, Structural)]
pub enum HttpError {
    ClosedInHead,
    HeadTooLarge,
    MissingRequestLine,
    MissingMethod,
    MissingPath,
    ClosedInBody,
    /// The body would end past the last position that memory has.
    LengthOverflow,
}

/// The message of an error.
pub open spec fn error_text(e: HttpError) -> Seq<char> {
    match e {
        HttpError::ClosedInHead => "client closed connection before sending a complete HTTP request"@,
        HttpError::HeadTooLarge => "HTTP request headers are too large"@,
        HttpError::MissingRequestLine => "missing HTTP request line"@,
        HttpError::MissingMethod => "missing HTTP method"@,
        HttpError::MissingPath => "missing HTTP path"@,
        HttpError::ClosedInBody => "client closed connection before sending complete HTTP body"@,
        HttpError::LengthOverflow => "attempt to add with overflow"@,
    }
}

impl HttpError {
    pub fn message(&self) -> (m: &'static str)
        ensures
            m@ == error_text(*self),
    {
        match self {
            HttpError::ClosedInHead =>
                "client closed connection before sending a complete HTTP request",
            HttpError::HeadTooLarge => "HTTP request headers are too large",
            HttpError::MissingRequestLine => "missing HTTP request line",
            HttpError::MissingMethod => "missing HTTP method",
            HttpError::MissingPath => "missing HTTP path",
            HttpError::ClosedInBody => "client closed connection before sending complete HTTP body",
            HttpError::LengthOverflow => "attempt to add with overflow",
        }
    }
}

// ---------------------------------------------------------------------------
// The end of the head
// ---------------------------------------------------------------------------

/// The bytes CR LF CR LF stand at `i`.
pub open spec fn blank_line_at(b: Seq<u8>, i: int) -> bool {
    &&& 0 <= i
    &&& i + 4 <= b.len()
    &&& b[i] == 13
    &&& b[i + 1] == 10
    &&& b[i + 2] == 13
    &&& b[i + 3] == 10
}

/// `i` is the first position of CR LF CR LF.
pub open spec fn is_header_end(b: Seq<u8>, i: int) -> bool {
    &&& blank_line_at(b, i)
    &&& forall|j: int| 0 <= j < i ==> !#[trigger] blank_line_at(b, j)
}

/// The first position of CR LF CR LF, if there is one.
pub open spec fn header_end(b: Seq<u8>) -> Option<int> {
    if exists|i: int| is_header_end(b, i) {
        Some(choose|i: int| is_header_end(b, i))
    } else {
        None
    }
}

/// Finds the end of the head: the first CR LF CR LF.
pub fn find_header_end(buffer: &[u8]) -> (end: Option<usize>)
    ensures
        match end {
            Some(i) => is_header_end(buffer@, i as int) && header_end(buffer@) == Some(i as int),
            None => header_end(buffer@) is None && forall|i: int| !blank_line_at(buffer@, i),
        },
        end matches Some(i) ==> i + 4 <= buffer@.len() && buffer@.subrange(i as int, i + 4) == seq![
            13u8,
            10,
            13,
            10,
        ],
        forall|j: int|
            0 <= j && j + 4 <= buffer@.len() && (end matches Some(i) ==> j < i)
                ==> #[trigger] buffer@.subrange(j, j + 4) != seq![13u8, 10, 13, 10],
{
    let mut i: usize = 0;
    let n: usize = buffer.len();
    while n >= 4 && i <= n - 4
        invariant
            n == buffer@.len(),
            n >= 4 ==> i <= n - 3,
            n < 4 ==> i == 0,
            forall|j: int| 0 <= j < i ==> !#[trigger] blank_line_at(buffer@, j),
        decreases n - i,
    {
        if buffer[i] == 13 && buffer[i + 1] == 10 && buffer[i + 2] == 13 && buffer[i + 3] == 10 {
            proof {
                lemma_header_end(buffer@, i as int);
                lemma_blank_lines(buffer@);
            }
            return Some(i);
        }
        i += 1;
    }
    proof {
        assert forall|j: int| !blank_line_at(buffer@, j) by {
            if blank_line_at(buffer@, j) {
                assert(0 <= j < i);
            }
        }
        lemma_blank_lines(buffer@);
    }
    None
}

/// A blank line is four bytes.
proof fn lemma_blank_lines(b: Seq<u8>)
    ensures
        forall|j: int|
            0 <= j && j + 4 <= b.len() ==> (#[trigger] b.subrange(j, j + 4) == seq![
                13u8,
                10,
                13,
                10,
            ] <==> blank_line_at(b, j)),
{
    assert forall|j: int| 0 <= j && j + 4 <= b.len() implies (#[trigger] b.subrange(j, j + 4)
        == seq![13u8, 10, 13, 10] <==> blank_line_at(b, j)) by {
        let four = b.subrange(j, j + 4);
        assert(four[0] == b[j] && four[1] == b[j + 1] && four[2] == b[j + 2] && four[3] == b[j
            + 3]);
        if blank_line_at(b, j) {
            assert(four =~= seq![13u8, 10, 13, 10]);
        }
    }
}

/// There is only one first position.
pub proof fn lemma_header_end(b: Seq<u8>, i: int)
    requires
        is_header_end(b, i),
    ensures
        header_end(b) == Some(i),
{
    let k = choose|k: int| is_header_end(b, k);
    assert(is_header_end(b, k));
    assert(k == i) by {
        if k < i {
            assert(!blank_line_at(b, k));
        }
        if i < k {
            assert(!blank_line_at(b, i));
        }
    }
}


// ---------------------------------------------------------------------------
// The head
// ---------------------------------------------------------------------------

/// What a head says, as text.
#[verifier::ext_equal]
pub struct HeadView {
    pub method: Seq<char>,
    pub path: Seq<char>,
    pub content_length: usize,
}

/// The head of a request.
#[derive(Debug)]
pub struct RequestHead {
    pub method: String,
    pub path: String,
    pub content_length: usize,
}

impl View for RequestHead {
    type V = HeadView;

    open spec fn view(&self) -> HeadView {
        HeadView {
            method: self.method@,
            path: self.path@,
            content_length: self.content_length,
        }
    }
}

/// What a header line says of the length of the body: nothing unless its name, up to the
/// first colon, is `content-length` in capital or small letters; then the number in its
/// value, or 0 where the value is no number.
pub open spec fn length_field(line: Seq<char>) -> Option<usize> {
    let colon = text::span(line, text::other_than(':')) as int;
    if colon < line.len() && text::same_but_for_case(line.take(colon), "content-length"@) {
        match text::parse_usize(text::trim(line.skip(colon + 1))) {
            Some(n) => Some(n),
            None => Some(0),
        }
    } else {
        None
    }
}

/// The length of the body: what the first header line that names it says, or 0.
pub open spec fn content_length(lines: Seq<Seq<char>>) -> usize
    decreases lines.len(),
{
    if lines.len() == 0 {
        0
    } else {
        match length_field(lines[0]) {
            Some(n) => n,
            None => content_length(lines.drop_first()),
        }
    }
}

/// What the text of a head says: the first two words of its first line are the method and
/// the path, the other lines are header lines.
pub open spec fn head_of(head: Seq<char>) -> Result<HeadView, HttpError> {
    let lines = text::lines(head);
    let words = text::words(lines[0]);
    if lines.len() == 0 {
        Err(HttpError::MissingRequestLine)
    } else if words.len() == 0 {
        Err(HttpError::MissingMethod)
    } else if words.len() == 1 {
        Err(HttpError::MissingPath)
    } else {
        Ok(
            HeadView {
                method: words[0],
                path: words[1],
                content_length: content_length(lines.drop_first()),
            },
        )
    }
}

/// Reads a header line, `s[from..to]`.
fn read_length_field(s: &Vec<char>, from: usize, to: usize) -> (n: Option<usize>)
    requires
        from <= to <= s@.len(),
    ensures
        n == length_field(s@.subrange(from as int, to as int)),
{
    let colon: usize = text::find_char(s, from, to, ':');
    let ghost line = s@.subrange(from as int, to as int);
    proof {
        assert(line.take(colon - from) =~= s@.subrange(from as int, colon as int));
    }
    if colon == to || !text::is_named(s, from, colon, "content-length") {
        return None;
    }
    let start: usize = text::skip_white(s, colon + 1, to);
    let end: usize = text::trimmed_end(s, start, to);
    proof {
        let value = line.skip(colon - from + 1);
        assert(value =~= s@.subrange(colon + 1, to as int));
        assert(value.skip(start - (colon + 1)) =~= s@.subrange(start as int, to as int));
    }
    match text::read_usize(s, start, end) {
        Some(n) => Some(n),
        None => Some(0),
    }
}

/// Reads the text of a head.
pub fn parse_head(head: &str) -> (r: Result<RequestHead, HttpError>)
    ensures
        match r {
            Ok(h) => head_of(head@) == Ok::<HeadView, HttpError>(h@),
            Err(e) => head_of(head@) == Err::<HeadView, HttpError>(e),
        },
{
    let s = text::chars_of(head);
    proof {
        assert(s@.skip(0) =~= head@);
    }
    if s.len() == 0 {
        return Err(HttpError::MissingRequestLine);
    }
    let (end, next) = text::next_line(&s, 0);
    let ghost all = text::lines(head@);
    let ghost line = s@.subrange(0, end as int);
    proof {
        assert(all[0] == line);
        assert(all.drop_first() =~= text::lines(s@.skip(next as int)));
    }
    let (method_start, method_end) = match text::next_word(&s, 0, end) {
        Some(word) => word,
        None => {
            return Err(HttpError::MissingMethod);
        },
    };
    let ghost rest = s@.subrange(method_end as int, end as int);
    let (path_start, path_end) = match text::next_word(&s, method_end, end) {
        Some(word) => word,
        None => {
            return Err(HttpError::MissingPath);
        },
    };
    proof {
        let words = text::words(line);
        assert(words[0] == s@.subrange(method_start as int, method_end as int));
        assert(words[1] == text::words(rest)[0]);
    }
    let mut at: usize = next;
    let mut length: Option<usize> = None;
    while at < s.len() && length.is_none()
        invariant
            at <= s@.len(),
            content_length(all.drop_first()) == match length {
                Some(n) => n,
                None => content_length(text::lines(s@.skip(at as int))),
            },
        decreases s@.len() - at,
    {
        let (line_end, following) = text::next_line(&s, at);
        proof {
            let ls = text::lines(s@.skip(at as int));
            assert(ls[0] == s@.subrange(at as int, line_end as int));
            assert(ls.drop_first() =~= text::lines(s@.skip(following as int)));
        }
        length = read_length_field(&s, at, line_end);
        at = following;
    }
    proof {
        if at == s@.len() {
            assert(s@.skip(at as int) =~= seq![]);
        }
    }
    let content_length: usize = match length {
        Some(n) => n,
        None => 0,
    };
    Ok(
        RequestHead {
            method: text::string_of(&s, method_start, method_end),
            path: text::string_of(&s, path_start, path_end),
            content_length,
        },
    )
}


// ---------------------------------------------------------------------------
// Collecting a request
// ---------------------------------------------------------------------------

/// What `String::from_utf8_lossy` makes of bytes that are not UTF-8.
pub uninterp spec fn utf8_lossy(bytes: Seq<u8>) -> Seq<char>;

/// The text of bytes: what they encode, or a replacement where they are not UTF-8.
pub open spec fn text_of(bytes: Seq<u8>) -> Seq<char> {
    if valid_utf8(bytes) {
        decode_utf8(bytes)
    } else {
        utf8_lossy(bytes)
    }
}

/// Calls `String::from_utf8_lossy`, which decodes UTF-8 and puts the replacement character
/// where the bytes are not UTF-8. Claimed: valid UTF-8 gives the text that it encodes, and
/// the text of other bytes is a function of them.
#[verifier::external_body]
fn lossy_text(bytes: &[u8]) -> (text: String)
    ensures
        text@ == (if valid_utf8(bytes@) {
            decode_utf8(bytes@)
        } else {
            utf8_lossy(bytes@)
        }),
{
    String::from_utf8_lossy(bytes).into_owned()
}

/// What a request says.
#[verifier::ext_equal]
pub struct RequestView {
    pub method: Seq<char>,
    pub path: Seq<char>,
    pub body: Seq<u8>,
}

/// A complete request.
#[derive(Debug)]
pub struct HttpRequest {
    pub method: String,
    pub path: String,
    pub body: Vec<u8>,
}

impl View for HttpRequest {
    type V = RequestView;

    open spec fn view(&self) -> RequestView {
        RequestView { method: self.method@, path: self.path@, body: self.body@ }
    }
}

/// How far the bytes received so far go.
pub enum Progress {
    /// The head has not ended.
    Head,
    /// They are no request.
    Invalid(HttpError),
    /// The head has ended; this many bytes of the body are missing.
    Body(nat),
    Complete(RequestView),
}

/// How far `received` goes: the head ends at the first CR LF CR LF, and the body has the
/// length that the head says.
pub open spec fn progress(received: Seq<u8>) -> Progress {
    match header_end(received) {
        None => Progress::Head,
        Some(end) => match head_of(text_of(received.take(end))) {
            Err(e) => Progress::Invalid(e),
            Ok(head) => {
                let stop = end + 4 + head.content_length;
                if stop > usize::MAX {
                    Progress::Invalid(HttpError::LengthOverflow)
                } else if received.len() < stop {
                    Progress::Body((stop - received.len()) as nat)
                } else {
                    Progress::Complete(
                        RequestView {
                            method: head.method,
                            path: head.path,
                            body: received.subrange(end + 4, stop),
                        },
                    )
                }
            },
        },
    }
}

/// What comes of one read. An empty read means that the client has closed the connection.
pub open spec fn outcome(received: Seq<u8>, chunk: Seq<u8>) -> Result<
    Option<RequestView>,
    HttpError,
> {
    if chunk.len() == 0 {
        if header_end(received) is None {
            Err(HttpError::ClosedInHead)
        } else {
            Err(HttpError::ClosedInBody)
        }
    } else {
        match progress(received + chunk) {
            Progress::Head => if received.len() + chunk.len() > HEAD_LIMIT {
                Err(HttpError::HeadTooLarge)
            } else {
                Ok(None)
            },
            Progress::Invalid(e) => Err(e),
            Progress::Body(_) => Ok(None),
            Progress::Complete(request) => Ok(Some(request)),
        }
    }
}

/// More bytes do not move the end of the head.
pub proof fn lemma_header_end_stays(b: Seq<u8>, more: Seq<u8>)
    ensures
        header_end(b) matches Some(i) ==> is_header_end(b, i) && header_end(b + more) == Some(i)
            && (b + more).take(i) == b.take(i),
{
    if let Some(i) = header_end(b) {
        assert(is_header_end(b, i));
        let c = b + more;
        assert(blank_line_at(c, i));
        assert forall|j: int| 0 <= j < i implies !#[trigger] blank_line_at(c, j) by {
            assert(!blank_line_at(b, j));
        }
        lemma_header_end(c, i);
        assert(c.take(i) =~= b.take(i));
    }
}

/// The head of the request being read, and where in the bytes its body starts and stops.
struct Parsed {
    head: RequestHead,
    start: usize,
    stop: usize,
}

/// Collects one request from the pieces in which it arrives.
pub struct RequestReader {
    buffer: Vec<u8>,
    parsed: Option<Parsed>,
}

impl RequestReader {
    /// The bytes received so far.
    pub closed spec fn received(&self) -> Seq<u8> {
        self.buffer@
    }

    /// What is kept of the head is what the bytes received say.
    pub closed spec fn wf(&self) -> bool {
        match self.parsed {
            None => progress(self.buffer@) is Head || progress(self.buffer@) is Invalid,
            Some(p) => {
                &&& header_end(self.buffer@) == Some(p.start - 4)
                &&& is_header_end(self.buffer@, p.start - 4)
                &&& head_of(text_of(self.buffer@.take(p.start - 4))) == Ok::<
                    HeadView,
                    HttpError,
                >(p.head@)
                &&& p.stop == p.start + p.head.content_length
            },
        }
    }

    /// A reader that has received nothing.
    pub fn new() -> (r: RequestReader)
        ensures
            r.wf(),
            r.received() == Seq::<u8>::empty(),
    {
        let r = RequestReader { buffer: Vec::new(), parsed: None };
        proof {
            assert(r.buffer@ =~= Seq::<u8>::empty());
            assert(header_end(r.buffer@) is None);
        }
        r
    }

    /// How many bytes to ask for next.
    pub fn wanted(&self) -> (n: usize)
        requires
            self.wf(),
        ensures
            match progress(self.received()) {
                Progress::Head => n == READ_SIZE,
                Progress::Invalid(_) => n == READ_SIZE,
                Progress::Body(missing) => n == missing,
                Progress::Complete(_) => n == 0,
            },
    {
        match &self.parsed {
            None => READ_SIZE,
            Some(p) => if self.buffer.len() < p.stop {
                p.stop - self.buffer.len()
            } else {
                0
            },
        }
    }

    /// Takes the bytes of one read. Gives the request once it is complete.
    pub fn receive(&mut self, chunk: &[u8]) -> (r: Result<Option<HttpRequest>, HttpError>)
        requires
            old(self).wf(),
        ensures
            final(self).wf(),
            final(self).received() == old(self).received() + chunk@,
            match r {
                Ok(None) => outcome(old(self).received(), chunk@) == Ok::<
                    Option<RequestView>,
                    HttpError,
                >(None),
                Ok(Some(request)) => outcome(old(self).received(), chunk@) == Ok::<
                    Option<RequestView>,
                    HttpError,
                >(Some(request@)),
                Err(e) => outcome(old(self).received(), chunk@) == Err::<
                    Option<RequestView>,
                    HttpError,
                >(e),
            },
    {
        let ghost before = self.buffer@;
        if chunk.len() == 0 {
            proof {
                assert(before + chunk@ =~= before);
            }
            return match find_header_end(self.buffer.as_slice()) {
                None => Err(HttpError::ClosedInHead),
                Some(_) => Err(HttpError::ClosedInBody),
            };
        }
        self.buffer.extend_from_slice(chunk);
        proof {
            assert(self.buffer@ =~= before + chunk@);
            lemma_header_end_stays(before, chunk@);
        }
        if self.parsed.is_none() {
            let end: usize = match find_header_end(self.buffer.as_slice()) {
                None => {
                    return if self.buffer.len() > HEAD_LIMIT {
                        Err(HttpError::HeadTooLarge)
                    } else {
                        Ok(None)
                    };
                },
                Some(end) => end,
            };
            let head_text = lossy_text(vstd::slice::slice_subrange(self.buffer.as_slice(), 0, end));
            proof {
                assert(self.buffer@.subrange(0, end as int) =~= self.buffer@.take(end as int));
            }
            let head = match parse_head(head_text.as_str()) {
                Err(e) => {
                    return Err(e);
                },
                Ok(head) => head,
            };
            let held: usize = self.buffer.len();
            assert(end + 4 <= held);
            let start: usize = end + 4;
            if head.content_length > usize::MAX - start {
                return Err(HttpError::LengthOverflow);
            }
            let stop: usize = start + head.content_length;
            self.parsed = Some(Parsed { head, start, stop });
        }
        match &self.parsed {
            None => Ok(None),
            Some(p) => if self.buffer.len() < p.stop {
                Ok(None)
            } else {
                Ok(
                    Some(
                        HttpRequest {
                            method: p.head.method.clone(),
                            path: p.head.path.clone(),
                            body: vstd::slice::slice_to_vec(
                                vstd::slice::slice_subrange(
                                    self.buffer.as_slice(),
                                    p.start,
                                    p.stop,
                                ),
                            ),
                        },
                    ),
                )
            },
        }
    }
}


// ---------------------------------------------------------------------------
// Laws
// ---------------------------------------------------------------------------

/// Bytes that follow a complete request do not change it, bytes that follow a refused head
/// do not save it, and every byte of a body brings its end one nearer.
pub proof fn more_bytes(received: Seq<u8>, more: Seq<u8>)
    ensures
        match progress(received) {
            Progress::Head => true,
            Progress::Invalid(e) => progress(received + more) == Progress::Invalid(e),
            Progress::Body(missing) => if more.len() < missing {
                progress(received + more) == Progress::Body((missing - more.len()) as nat)
            } else {
                progress(received + more) is Complete
            },
            Progress::Complete(request) => progress(received + more) == Progress::Complete(
                request,
            ),
        },
{
    lemma_header_end_stays(received, more);
    if let Some(end) = header_end(received) {
        if let Ok(head) = head_of(text_of(received.take(end))) {
            let stop = end + 4 + head.content_length;
            if stop <= received.len() {
                assert((received + more).subrange(end + 4, stop) =~= received.subrange(
                    end + 4,
                    stop,
                ));
            }
        }
    }
}

/// What comes of reads that bring `pieces` one after another: the first that is refused, or
/// that completes the request, decides.
pub open spec fn read_pieces(received: Seq<u8>, pieces: Seq<Seq<u8>>) -> Result<
    Option<RequestView>,
    HttpError,
>
    decreases pieces.len(),
{
    if pieces.len() == 0 {
        Ok(None)
    } else {
        match outcome(received, pieces[0]) {
            Ok(None) => read_pieces(received + pieces[0], pieces.drop_first()),
            decided => decided,
        }
    }
}

/// All pieces in one.
pub open spec fn joined(pieces: Seq<Seq<u8>>) -> Seq<u8>
    decreases pieces.len(),
{
    if pieces.len() == 0 {
        seq![]
    } else {
        pieces[0] + joined(pieces.drop_first())
    }
}

/// It does not matter in which pieces a request arrives: where all the bytes make a complete
/// request, and its head ends within the limit, reading the pieces gives that request.
pub proof fn pieces_do_not_matter(pieces: Seq<Seq<u8>>, request: RequestView, end: int)
    requires
        forall|i: int| 0 <= i < pieces.len() ==> (#[trigger] pieces[i]).len() > 0,
        progress(joined(pieces)) == Progress::Complete(request),
        header_end(joined(pieces)) == Some(end),
        end + 4 <= HEAD_LIMIT + 1,
    ensures
        read_pieces(Seq::empty(), pieces) == Ok::<Option<RequestView>, HttpError>(Some(request)),
{
    let none = Seq::<u8>::empty();
    assert(none + joined(pieces) =~= joined(pieces));
    assert(header_end(none) is None);
    lemma_read_pieces(none, pieces, request, end);
}

proof fn lemma_read_pieces(
    received: Seq<u8>,
    pieces: Seq<Seq<u8>>,
    request: RequestView,
    end: int,
)
    requires
        forall|i: int| 0 <= i < pieces.len() ==> (#[trigger] pieces[i]).len() > 0,
        progress(received) is Head || progress(received) is Body,
        progress(received + joined(pieces)) == Progress::Complete(request),
        header_end(received + joined(pieces)) == Some(end),
        end + 4 <= HEAD_LIMIT + 1,
    ensures
        read_pieces(received, pieces) == Ok::<Option<RequestView>, HttpError>(Some(request)),
    decreases pieces.len(),
{
    if pieces.len() == 0 {
        assert(received + joined(pieces) =~= received);
    } else {
        let first = pieces[0];
        let rest = pieces.drop_first();
        let now = received + first;
        assert(received + joined(pieces) =~= now + joined(rest));
        more_bytes(now, joined(rest));
        match progress(now) {
            Progress::Head => {
                if now.len() > HEAD_LIMIT {
                    assert(is_header_end(now + joined(rest), end));
                    assert(blank_line_at(now, end));
                    assert forall|j: int| 0 <= j < end implies !#[trigger] blank_line_at(
                        now,
                        j,
                    ) by {
                        assert(!blank_line_at(now + joined(rest), j));
                    }
                    lemma_header_end(now, end);
                }
                lemma_read_pieces(now, rest, request, end);
            },
            Progress::Body(_) => {
                lemma_read_pieces(now, rest, request, end);
            },
            _ => {},
        }
    }
}

/// The head of a plain request with a body of `n` bytes.
pub open spec fn plain_head(method: Seq<char>, path: Seq<char>, n: usize) -> Seq<char> {
    method + " "@ + path + " HTTP/1.1"@ + seq!['\r', '\n'] + ("Content-Length: "@ + text::decimal(
        n as nat,
    ))
}

/// A method, a path and a length that are written as a plain head are read back from it.
pub proof fn plain_head_reads_back(method: Seq<char>, path: Seq<char>, n: usize)
    requires
        method.len() > 0,
        path.len() > 0,
        forall|i: int| 0 <= i < method.len() ==> !text::is_white_space(#[trigger] method[i]),
        forall|i: int| 0 <= i < path.len() ==> !text::is_white_space(#[trigger] path[i]),
    ensures
        head_of(plain_head(method, path, n)) == Ok::<HeadView, HttpError>(
            HeadView { method, path, content_length: n },
        ),
{
    reveal_strlit(" ");
    reveal_strlit(" HTTP/1.1");
    let tail = path + " HTTP/1.1"@;
    let line = method + " "@ + path + " HTTP/1.1"@;
    let field = "Content-Length: "@ + text::decimal(n as nat);
    lemma_length_field(n);
    assert(!line.contains('\n')) by {
        assert forall|i: int| 0 <= i < line.len() implies line[i] != '\n' by {
            if i < method.len() {
                assert(line[i] == method[i]);
            } else if method.len() + 1 <= i < method.len() + 1 + path.len() {
                assert(line[i] == path[i - method.len() - 1]);
            }
        }
    }
    text::lemma_lines_first(line, field);
    text::lemma_lines_last(field);
    let lines = text::lines(plain_head(method, path, n));
    assert(lines =~= seq![line, field]);
    assert(lines.drop_first() =~= seq![field]);
    assert(content_length(seq![field]) == n);

    let after = " "@ + tail;
    assert(line =~= method + after);
    text::lemma_words_first(method, after);
    assert(after =~= seq![' '] + tail);
    text::lemma_words_skip(' ', tail);
    text::lemma_words_first(path, " HTTP/1.1"@);
    let words = text::words(line);
    assert(words[0] == method);
    assert(words[1] == path);
}

/// Every CR in `b` is followed, two places on, by something else, and `b` does not start
/// with one: there is no blank line in `b`, nor across its end.
pub open spec fn spaced(b: Seq<u8>) -> bool {
    &&& b.len() > 0
    &&& b[0] != 13
    &&& forall|j: int|
        0 <= j < b.len() && #[trigger] b[j] == 13 ==> j + 2 < b.len() && b[j + 2] != 13
}

/// A line in front of a text without blank lines makes no blank line.
pub proof fn lemma_spaced_line(line: Seq<char>, rest: Seq<char>)
    requires
        line.len() > 0,
        !line.contains('\r'),
        !rest.contains('\r') && rest.len() > 0 || spaced(encode_utf8(rest)),
    ensures
        spaced(encode_utf8(line + seq!['\r', '\n'] + rest)),
{
    let crlf = seq!['\r', '\n'];
    is_ascii_chars_encode_utf8(crlf);
    assert(encode_utf8(crlf) =~= seq![13u8, 10]);
    text::lemma_encode_concat(line, crlf);
    text::lemma_encode_concat(line + crlf, rest);
    text::lemma_encode_without(line, '\r');
    if !rest.contains('\r') {
        text::lemma_encode_without(rest, '\r');
    }
    let x = encode_utf8(line);
    let y = encode_utf8(rest);
    let b = encode_utf8(line + crlf + rest);
    assert(b =~= x + seq![13u8, 10] + y);
    assert(x.contains(x[0]));
    assert(y.contains(y[0]));
    assert forall|j: int| 0 <= j < b.len() && #[trigger] b[j] == 13 implies j + 2 < b.len()
        && b[j + 2] != 13 by {
        if j < x.len() {
            assert(x.contains(x[j]));
        } else if j == x.len() {
            assert(b[j + 2] == y[0]);
        } else if j >= x.len() + 2 {
            let k = j - x.len() - 2;
            assert(b[j] == y[k]);
            assert(y.contains(y[k]));
            assert(b[j + 2] == y[k + 2]);
        }
    }
}

/// A head without a blank line ends at the blank line that follows it.
pub proof fn lemma_head_ends(head: Seq<u8>, body: Seq<u8>)
    requires
        spaced(head),
    ensures
        header_end(head + seq![13u8, 10, 13, 10] + body) == Some(head.len() as int),
{
    let b = head + seq![13u8, 10, 13, 10] + body;
    let end = head.len() as int;
    assert(blank_line_at(b, end));
    assert forall|j: int| 0 <= j < end implies !#[trigger] blank_line_at(b, j) by {
        assert(b[j] == head[j]);
        if head[j] == 13 {
            assert(b[j + 2] == head[j + 2]);
        }
    }
    lemma_header_end(b, end);
}

/// A request that a client sends whole, with a plain head, is the request that is read: its
/// method, its path and its body come out as they went in, whatever bytes follow it.
pub proof fn plain_request_reads_back(
    method: Seq<char>,
    path: Seq<char>,
    body: Seq<u8>,
    more: Seq<u8>,
)
    requires
        method.len() > 0,
        path.len() > 0,
        forall|i: int| 0 <= i < method.len() ==> !text::is_white_space(#[trigger] method[i]),
        forall|i: int| 0 <= i < path.len() ==> !text::is_white_space(#[trigger] path[i]),
        plain_request(method, path, body).len() <= usize::MAX,
    ensures
        progress(plain_request(method, path, body) + more) == Progress::Complete(
            RequestView { method, path, body },
        ),
{
    let n = body.len() as usize;
    let line = method + " "@ + path + " HTTP/1.1"@;
    let field = "Content-Length: "@ + text::decimal(n as nat);
    let head = plain_head(method, path, n);
    let bytes = encode_utf8(head);
    let all = plain_request(method, path, body);
    reveal_strlit(" ");
    reveal_strlit(" HTTP/1.1");
    assert forall|i: int| 0 <= i < line.len() implies line[i] != '\r' by {
        if i < method.len() {
            assert(line[i] == method[i]);
        } else if method.len() + 1 <= i < method.len() + 1 + path.len() {
            assert(line[i] == path[i - method.len() - 1]);
        }
    }
    lemma_length_field(n);
    lemma_spaced_line(line, field);
    lemma_head_ends(bytes, body);
    encode_utf8_valid_utf8(head);
    encode_utf8_decode_utf8(head);
    plain_head_reads_back(method, path, n);
    let end = bytes.len() as int;
    assert(all.take(end) =~= bytes);
    assert(all.subrange(end + 4, end + 4 + n) =~= body);
    more_bytes(all, more);
}

/// The bytes of a plain request.
pub open spec fn plain_request(method: Seq<char>, path: Seq<char>, body: Seq<u8>) -> Seq<u8> {
    encode_utf8(plain_head(method, path, body.len() as usize)) + seq![13u8, 10, 13, 10] + body
}

/// The header line that states a length states that length, and is one line.
pub proof fn lemma_length_field(n: usize)
    ensures
        length_field("Content-Length: "@ + text::decimal(n as nat)) == Some(n),
        !("Content-Length: "@ + text::decimal(n as nat)).contains('\n'),
        !("Content-Length: "@ + text::decimal(n as nat)).contains('\r'),
        ("Content-Length: "@ + text::decimal(n as nat)).len() > 0,
{
    reveal_strlit("Content-Length: ");
    reveal_strlit("content-length");
    let digits = text::decimal(n as nat);
    let line = "Content-Length: "@ + digits;
    text::decimal_reads_back(n);
    text::lemma_decimal(n as nat);
    assert forall|i: int| 0 <= i < 14 implies text::other_than(':')(#[trigger] line[i]) by {
        assert(line[i] == "Content-Length: "@[i]);
    }
    assert(line[14] == ':');
    text::lemma_span_is(line, text::other_than(':'), 14);
    assert(text::same_but_for_case(line.take(14), "content-length"@));
    assert(text::is_digit(digits[0]));
    assert(text::is_digit(digits.last()));
    assert(line.skip(15) =~= seq![' '] + digits);
    text::lemma_trim(digits);
    assert forall|i: int| 0 <= i < line.len() implies line[i] != '\n' && line[i] != '\r' by {
        if i < 16 {
            assert(line[i] == "Content-Length: "@[i]);
        } else {
            assert(line[i] == digits[i - 16]);
            assert(text::is_digit(digits[i - 16]));
        }
    }
}

/// The head ends where CR LF CR LF first stands, wherever that is, and nowhere else.
pub proof fn the_head_ends_at_the_first_blank_line(b: Seq<u8>, i: int)
    requires
        0 <= i,
        i + 4 <= b.len(),
        b.subrange(i, i + 4) == seq![13u8, 10, 13, 10],
        forall|j: int|
            0 <= j < i ==> #[trigger] b.subrange(j, j + 4) != seq![13u8, 10, 13, 10],
    ensures
        header_end(b) == Some(i),
{
    lemma_blank_lines(b);
    assert forall|j: int| 0 <= j < i implies !#[trigger] blank_line_at(b, j) by {
        assert(b.subrange(j, j + 4) != seq![13u8, 10, 13, 10]);
    }
    assert(b.subrange(i, i + 4) == seq![13u8, 10, 13, 10]);
    lemma_header_end(b, i);
}

/// A head without CR LF CR LF has not ended.
pub proof fn a_head_without_a_blank_line_goes_on(b: Seq<u8>)
    requires
        forall|j: int|
            0 <= j && j + 4 <= b.len() ==> #[trigger] b.subrange(j, j + 4) != seq![
                13u8,
                10,
                13,
                10,
            ],
    ensures
        header_end(b) is None,
{
    lemma_blank_lines(b);
    assert forall|i: int| !is_header_end(b, i) by {
        if is_header_end(b, i) {
            assert(b.subrange(i, i + 4) != seq![13u8, 10, 13, 10]);
        }
    }
}

/// White space in front does not count.
proof fn lemma_words_after_white(gap: Seq<char>, s: Seq<char>)
    requires
        forall|i: int| 0 <= i < gap.len() ==> text::is_white_space(#[trigger] gap[i]),
    ensures
        text::words(gap + s) == text::words(s),
    decreases gap.len(),
{
    if gap.len() == 0 {
        assert(gap + s =~= s);
    } else {
        let rest = gap.drop_first();
        assert forall|i: int| 0 <= i < rest.len() implies text::is_white_space(
            #[trigger] rest[i],
        ) by {
            assert(rest[i] == gap[i + 1]);
        }
        lemma_words_after_white(rest, s);
        assert(gap + s =~= seq![gap[0]] + (rest + s));
        text::lemma_words_skip(gap[0], rest + s);
    }
}

/// Of the request line the first word is the method and the second the path, as they are, with
/// any white space around them; what else is on the line does not count, and the length of the
/// body is what the other lines say.
pub proof fn the_request_line_is_read(
    before: Seq<char>,
    method: Seq<char>,
    between: Seq<char>,
    path: Seq<char>,
    after: Seq<char>,
    headers: Seq<char>,
)
    requires
        forall|i: int| 0 <= i < before.len() ==> text::is_white_space(#[trigger] before[i]),
        forall|i: int| 0 <= i < between.len() ==> text::is_white_space(#[trigger] between[i]),
        forall|i: int| 0 <= i < method.len() ==> !text::is_white_space(#[trigger] method[i]),
        forall|i: int| 0 <= i < path.len() ==> !text::is_white_space(#[trigger] path[i]),
        method.len() > 0 && between.len() > 0 && path.len() > 0,
        after.len() > 0 ==> text::is_white_space(after[0]),
        !(before + method + between + path + after).contains('\n'),
    ensures
        head_of(before + method + between + path + after + seq!['\r', '\n'] + headers) matches Ok(
            h,
        ) && h.method == method && h.path == path && h.content_length == content_length(
            text::lines(headers),
        ),
        head_of(before + method + between + path + after) matches Ok(h) && h.method == method
            && h.path == path && h.content_length == 0,
{
    let line = before + method + between + path + after;
    let tail = path + after;
    let rest = between + tail;
    assert(line =~= before + (method + rest));
    lemma_words_after_white(before, method + rest);
    assert(rest[0] == between[0]);
    text::lemma_words_first(method, rest);
    lemma_words_after_white(between, tail);
    text::lemma_words_first(path, after);
    let words = text::words(line);
    assert(words[0] == method);
    assert(words[1] == text::words(rest)[0]);
    assert(words[1] == path);
    text::lemma_lines_first(line, headers);
    let lines = text::lines(line + seq!['\r', '\n'] + headers);
    assert(lines[0] == line);
    assert(lines.drop_first() =~= text::lines(headers));
    text::lemma_lines_last(line);
    assert(text::lines(line).drop_first() =~= seq![]);
    assert(content_length(text::lines(line).drop_first()) == 0);
}

/// No text has no request line; a first line without words has no method, and one with a
/// single word has no path.
pub proof fn incomplete_heads_are_refused(
    before: Seq<char>,
    word: Seq<char>,
    after: Seq<char>,
    headers: Seq<char>,
)
    requires
        forall|i: int| 0 <= i < before.len() ==> text::is_white_space(#[trigger] before[i]),
        forall|i: int| 0 <= i < after.len() ==> text::is_white_space(#[trigger] after[i]),
        forall|i: int| 0 <= i < word.len() ==> !text::is_white_space(#[trigger] word[i]),
        !(before + word + after).contains('\n'),
    ensures
        head_of(seq![]) == Err::<HeadView, HttpError>(HttpError::MissingRequestLine),
        head_of(before + word + after + seq!['\r', '\n'] + headers) == Err::<HeadView, HttpError>(
            if word.len() == 0 {
                HttpError::MissingMethod
            } else {
                HttpError::MissingPath
            },
        ),
{
    let line = before + word + after;
    let none = Seq::<char>::empty();
    assert(text::words(none).len() == 0);
    lemma_words_after_white(after, none);
    assert(after + none =~= after);
    assert(line =~= before + (word + after));
    lemma_words_after_white(before, word + after);
    if word.len() == 0 {
        assert(word + after =~= after);
    } else {
        text::lemma_words_first(word, after);
    }
    text::lemma_lines_first(line, headers);
    assert(text::lines(line + seq!['\r', '\n'] + headers)[0] == line);
}

/// A header line that names the length, in capital or small letters, says the number that
/// stands after the colon, with any white space around it, and 0 where no number stands there.
pub proof fn a_stated_length_is_read(
    name: Seq<char>,
    left: Seq<char>,
    value: Seq<char>,
    right: Seq<char>,
)
    requires
        name.len() == 14,
        forall|i: int|
            #![trigger name[i]]
            0 <= i < 14 ==> name[i] == "content-length"@[i] || 'A' <= name[i] <= 'Z'
                && name[i] as u32 + 32 == "content-length"@[i] as u32,
        forall|i: int| 0 <= i < left.len() ==> text::is_white_space(#[trigger] left[i]),
        forall|i: int| 0 <= i < right.len() ==> text::is_white_space(#[trigger] right[i]),
        value.len() > 0 ==> !text::is_white_space(value[0]) && !text::is_white_space(
            value.last(),
        ),
    ensures
        length_field(name + seq![':'] + (left + value + right)) == (match text::parse_usize(
            value,
        ) {
            Some(n) => Some(n),
            None => Some(0usize),
        }),
{
    reveal_strlit("content-length");
    let line = name + seq![':'] + (left + value + right);
    text::case_is_all_that_may_differ(name, "content-length"@);
    assert forall|i: int| 0 <= i < 14 implies text::other_than(':')(#[trigger] line[i]) by {
        assert(line[i] == name[i]);
    }
    assert(line[14] == ':');
    text::lemma_span_is(line, text::other_than(':'), 14);
    assert(line.take(14) =~= name);
    assert(line.skip(15) =~= left + value + right);
    text::trimming_keeps_the_middle(left, value, right);
}

/// A line without a colon, and one with another name before its first colon, says nothing of
/// the length.
pub proof fn other_lines_state_no_length(name: Seq<char>, value: Seq<char>)
    requires
        !name.contains(':'),
        !text::same_but_for_case(name, "content-length"@),
    ensures
        length_field(name + seq![':'] + value) is None,
        length_field(name) is None,
{
    let line = name + seq![':'] + value;
    let k = name.len() as int;
    assert forall|i: int| 0 <= i < k implies text::other_than(':')(#[trigger] line[i]) by {
        assert(name.contains(name[i]));
        assert(line[i] == name[i]);
    }
    assert(line[k] == ':');
    text::lemma_span_is(line, text::other_than(':'), k);
    assert(line.take(k) =~= name);
    assert forall|i: int| 0 <= i < k implies text::other_than(':')(#[trigger] name[i]) by {
        assert(name.contains(name[i]));
    }
    text::lemma_span_is(name, text::other_than(':'), k);
}

/// The first line that states a length counts, however many lines are before and after it; a
/// body whose length is not stated is empty.
pub proof fn the_first_stated_length_counts(
    before: Seq<Seq<char>>,
    line: Seq<char>,
    n: usize,
    after: Seq<Seq<char>>,
)
    requires
        forall|i: int| 0 <= i < before.len() ==> length_field(#[trigger] before[i]) is None,
        length_field(line) == Some(n),
    ensures
        content_length(before + seq![line] + after) == n,
        content_length(before) == 0,
    decreases before.len(),
{
    let lines = before + seq![line] + after;
    if before.len() == 0 {
        assert(lines[0] == line);
    } else {
        let rest = before.drop_first();
        assert forall|i: int| 0 <= i < rest.len() implies length_field(#[trigger] rest[i])
            is None by {
            assert(rest[i] == before[i + 1]);
        }
        the_first_stated_length_counts(rest, line, n, after);
        assert(lines[0] == before[0]);
        assert(lines.drop_first() =~= rest + seq![line] + after);
    }
}

/// Whatever a head says, the request has the method and the path that it says, and as many of
/// the bytes after its blank line as it says are the body; what follows is not looked at. With
/// fewer bytes, as many as are missing are waited for.
pub proof fn a_request_has_its_body(
    head: Seq<char>,
    ended: Seq<u8>,
    h: HeadView,
    bytes: Seq<u8>,
)
    requires
        ended == encode_utf8(head) + seq![13u8, 10, 13, 10],
        head_of(head) == Ok::<HeadView, HttpError>(h),
        forall|j: int|
            0 <= j < encode_utf8(head).len() ==> #[trigger] ended.subrange(j, j + 4) != seq![
                13u8,
                10,
                13,
                10,
            ],
        encode_utf8(head).len() + 4 + h.content_length <= usize::MAX,
    ensures
        ({
            let received = ended + bytes;
            let n = h.content_length;
            &&& bytes.len() >= n ==> (progress(received) matches Progress::Complete(r) && r.method
                == h.method && r.path == h.path && r.body == bytes.take(n as int))
            &&& bytes.len() < n ==> progress(received) == Progress::Body((n - bytes.len()) as nat)
        }),
{
    let e = encode_utf8(head);
    let blank = seq![13u8, 10, 13, 10];
    let end = e.len() as int;
    let received = ended + bytes;
    assert(received.subrange(end, end + 4) =~= blank);
    assert forall|j: int| 0 <= j < end implies #[trigger] received.subrange(j, j + 4) != blank by {
        assert(received.subrange(j, j + 4) =~= ended.subrange(j, j + 4));
    }
    the_head_ends_at_the_first_blank_line(received, end);
    assert(received.take(end) =~= e);
    encode_utf8_valid_utf8(head);
    encode_utf8_decode_utf8(head);
    let stop = end + 4 + h.content_length;
    if bytes.len() >= h.content_length {
        assert(received.subrange(end + 4, stop) =~= bytes.take(h.content_length as int));
    }
}

/// A client that closes the connection gets no request: before the end of the head and after
/// it, with a reason of its own. A head that has not ended is refused when it is longer than
/// 131072 bytes, and no sooner.
pub proof fn requests_end_or_are_refused(received: Seq<u8>, chunk: Seq<u8>)
    ensures
        chunk.len() == 0 ==> outcome(received, chunk) == Err::<Option<RequestView>, HttpError>(
            if header_end(received) is None {
                HttpError::ClosedInHead
            } else {
                HttpError::ClosedInBody
            },
        ),
        chunk.len() > 0 && header_end(received + chunk) is None ==> outcome(received, chunk) == (
        if received.len() + chunk.len() > 131_072 {
            Err::<Option<RequestView>, HttpError>(HttpError::HeadTooLarge)
        } else {
            Ok(None)
        }),
{
}

/// A read that brings the last byte of a request gives that request, and one that does not
/// gives none.
pub proof fn a_request_is_given_when_it_is_complete(received: Seq<u8>, chunk: Seq<u8>)
    requires
        chunk.len() > 0,
    ensures
        progress(received + chunk) matches Progress::Complete(r) ==> outcome(received, chunk)
            == Ok::<Option<RequestView>, HttpError>(Some(r)),
        progress(received + chunk) is Body ==> outcome(received, chunk) == Ok::<
            Option<RequestView>,
            HttpError,
        >(None),
        progress(received + chunk) matches Progress::Invalid(e) ==> outcome(received, chunk)
            == Err::<Option<RequestView>, HttpError>(e),
{
}

/// The view of a head shows what it says.
pub proof fn heads_are_shown(h: RequestHead)
    ensures
        h@.method == h.method@,
        h@.path == h.path@,
        h@.content_length == h.content_length,
{
}

/// The view of a request shows what it says.
pub proof fn requests_are_shown(r: HttpRequest)
    ensures
        r@.method == r.method@,
        r@.path == r.path@,
        r@.body == r.body@,
{
}

/// Bytes that are UTF-8 are read as what they encode; others as the standard library replaces
/// them.
pub proof fn heads_are_read_as_text(bytes: Seq<u8>)
    ensures
        valid_utf8(bytes) ==> text_of(bytes) == decode_utf8(bytes),
        !valid_utf8(bytes) ==> text_of(bytes) == utf8_lossy(bytes),
{
}

/// Whatever bytes come before the blank line, what they say as text decides: a head that is
/// refused refuses the request, with the same reason; a body that would end past the last
/// position is refused; else the request has the method and the path of the head, and the body
/// are as many bytes after the blank line as the head says.
pub proof fn the_head_decides(received: Seq<u8>, end: int)
    requires
        header_end(received) == Some(end),
    ensures
        match head_of(text_of(received.take(end))) {
            Err(e) => progress(received) == Progress::Invalid(e),
            Ok(h) => {
                let stop = end + 4 + h.content_length;
                &&& stop > usize::MAX ==> progress(received) == Progress::Invalid(
                    HttpError::LengthOverflow,
                )
                &&& stop <= usize::MAX && received.len() < stop ==> progress(received)
                    == Progress::Body((stop - received.len()) as nat)
                &&& stop <= usize::MAX && received.len() >= stop ==> (progress(
                    received,
                ) matches Progress::Complete(r) && r.method == h.method && r.path == h.path
                    && r.body == received.subrange(end + 4, stop))
            },
        },
{
}

/// Where the end of a head is found, and what a head is found to say.
pub proof fn heads_are_found_and_read(
    buffer: &[u8],
    end: Option<usize>,
    head: &str,
    r: Result<RequestHead, HttpError>,
)
    requires
        call_ensures(find_header_end, (buffer,), end),
        call_ensures(parse_head, (head,), r),
    ensures
        end matches Some(i) ==> i + 4 <= buffer@.len() && buffer@.subrange(i as int, i + 4)
            == seq![13u8, 10, 13, 10],
        forall|j: int|
            0 <= j && j + 4 <= buffer@.len() && (end is None || j < end->Some_0)
                ==> #[trigger] buffer@.subrange(j, j + 4) != seq![13u8, 10, 13, 10],
        r matches Ok(h) ==> (head_of(head@) matches Ok(v) && v.method == h.method@ && v.path
            == h.path@ && v.content_length == h.content_length),
        r matches Err(e) ==> head_of(head@) == Err::<HeadView, HttpError>(e),
{
}

/// What a reader of requests does: it keeps all bytes, in order; it gives a request exactly when
/// the bytes make one, with the method, the path and the body that they say; and it asks for
/// what is missing of the body, and no more.
pub proof fn a_reader_gives_the_request()
    ensures
        forall|r: RequestReader| #[trigger]
            call_ensures(RequestReader::new, (), r) ==> r.wf() && r.received().len() == 0,
        forall|reader: RequestReader, n: usize| #[trigger]
            call_ensures(RequestReader::wanted, (&reader,), n) ==> (match progress(
                reader.received(),
            ) {
                Progress::Head => n == 1024,
                Progress::Invalid(_) => n == 1024,
                Progress::Body(missing) => n == missing,
                Progress::Complete(_) => n == 0,
            }),
        forall|
            reader: &mut RequestReader,
            chunk: &[u8],
            r: Result<Option<HttpRequest>, HttpError>,
        | #[trigger]
            call_ensures(RequestReader::receive, (reader, chunk), r) ==> {
                &&& final(reader).received() == reader.received() + chunk@
                &&& r matches Ok(Some(request)) ==> (outcome(
                    reader.received(),
                    chunk@,
                ) matches Ok(Some(v)) && v.method == request.method@ && v.path == request.path@
                    && v.body == request.body@)
                &&& r matches Ok(None) ==> outcome(reader.received(), chunk@) == Ok::<
                    Option<RequestView>,
                    HttpError,
                >(None)
                &&& r matches Err(e) ==> outcome(reader.received(), chunk@) == Err::<
                    Option<RequestView>,
                    HttpError,
                >(e)
            },
{
}

/// What is said of each error.
pub proof fn errors_say_what_is_wrong(e: HttpError, m: &'static str)
    requires
        call_ensures(HttpError::message, (&e,), m),
    ensures
        e is ClosedInHead ==> m@
            == "client closed connection before sending a complete HTTP request"@,
        e is HeadTooLarge ==> m@ == "HTTP request headers are too large"@,
        e is MissingRequestLine ==> m@ == "missing HTTP request line"@,
        e is MissingMethod ==> m@ == "missing HTTP method"@,
        e is MissingPath ==> m@ == "missing HTTP path"@,
        e is ClosedInBody ==> m@
            == "client closed connection before sending complete HTTP body"@,
{
}

} // verus!
