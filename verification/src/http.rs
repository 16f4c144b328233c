//! The wire-protocol core: the closed vocabularies of the protocol
//! (method, status, content type), the request and response values, the
//! decoder from collected lines, the encoder to exact wire bytes, and the
//! route resolver.

use vstd::prelude::*;

verus! {

use vstd::string::StrSliceExecFns;
use vstd::string::StringExecFns;
use vstd::utf8::encode_utf8;
use crate::bytebuf::bytes_as_slice;
use crate::bytebuf::bytes_content;
use crate::bytebuf::bytes_from_vec;
use crate::bytebuf::bytes_len;
use crate::bytebuf::bytes_new;
use crate::digits::dec_chars;
use crate::digits::u64_to_dec;
use crate::utils::spec_header_split;
use crate::utils::spec_join_slash;
use crate::utils::spec_split_slash;
use crate::utils::spec_tokens;
use crate::utils::split_header_line;
use crate::utils::split_path;
use crate::utils::str_eq;
use crate::utils::tokenize;

/// Body format carried in the `Content-Type` header.
#[derive(Clone, Copy, Debug, PartialEq, Eq, Structural)]
pub enum ContentType {
    HTML,
    JSON,
    XML,
    PLAIN,
}

/// The canonical MIME string for each content type.
pub open spec fn content_type_text(c: ContentType) -> Seq<char> {
    match c {
        ContentType::HTML => "text/html"@,
        ContentType::JSON => "application/json"@,
        ContentType::XML => "application/xml"@,
        ContentType::PLAIN => "text/plain"@,
    }
}

impl ContentType {
    pub fn to_string(&self) -> (r: String)
        ensures
            r@ == content_type_text(*self),
    {
        match self {
            ContentType::HTML => String::from_str("text/html"),
            ContentType::JSON => String::from_str("application/json"),
            ContentType::XML => String::from_str("application/xml"),
            ContentType::PLAIN => String::from_str("text/plain"),
        }
    }
}

/// Response status for the in-scope routes.
#[derive(Clone, Copy, Debug, PartialEq, Eq, Structural)]
pub enum StatusCode {
    OK,
    NotFound,
}

/// The status-line text (numeric status and reason phrase) for each status.
pub open spec fn status_text(s: StatusCode) -> Seq<char> {
    match s {
        StatusCode::OK => "200 OK"@,
        StatusCode::NotFound => "404 Not Found"@,
    }
}

impl StatusCode {
    pub fn to_str(&self) -> (r: &'static str)
        ensures
            r@ == status_text(*self),
    {
        match self {
            StatusCode::OK => "200 OK",
            StatusCode::NotFound => "404 Not Found",
        }
    }
}

/// The closed set of recognized request methods. An unknown token is a
/// decode failure, never a variant.
#[derive(Clone, Copy, Debug, PartialEq, Eq, Structural)]
pub enum HTTPMethod {
    GET,
    POST,
    PUT,
    DELETE,
    PATCH,
    OPTIONS,
    HEAD,
    CONNECT,
    TRACE,
}

/// The token that names each method on the wire.
pub open spec fn method_text(m: HTTPMethod) -> Seq<char> {
    match m {
        HTTPMethod::GET => "GET"@,
        HTTPMethod::POST => "POST"@,
        HTTPMethod::PUT => "PUT"@,
        HTTPMethod::DELETE => "DELETE"@,
        HTTPMethod::PATCH => "PATCH"@,
        HTTPMethod::OPTIONS => "OPTIONS"@,
        HTTPMethod::HEAD => "HEAD"@,
        HTTPMethod::CONNECT => "CONNECT"@,
        HTTPMethod::TRACE => "TRACE"@,
    }
}

/// The method a token resolves to, or `None` for an unrecognized token.
pub open spec fn spec_method_of(s: Seq<char>) -> Option<HTTPMethod> {
    if s == "GET"@ {
        Some(HTTPMethod::GET)
    } else if s == "POST"@ {
        Some(HTTPMethod::POST)
    } else if s == "PUT"@ {
        Some(HTTPMethod::PUT)
    } else if s == "DELETE"@ {
        Some(HTTPMethod::DELETE)
    } else if s == "PATCH"@ {
        Some(HTTPMethod::PATCH)
    } else if s == "OPTIONS"@ {
        Some(HTTPMethod::OPTIONS)
    } else if s == "HEAD"@ {
        Some(HTTPMethod::HEAD)
    } else if s == "CONNECT"@ {
        Some(HTTPMethod::CONNECT)
    } else if s == "TRACE"@ {
        Some(HTTPMethod::TRACE)
    } else {
        None
    }
}

impl HTTPMethod {
    pub fn to_string(&self) -> (r: String)
        ensures
            r@ == method_text(*self),
    {
        match self {
            HTTPMethod::GET => String::from_str("GET"),
            HTTPMethod::POST => String::from_str("POST"),
            HTTPMethod::PUT => String::from_str("PUT"),
            HTTPMethod::DELETE => String::from_str("DELETE"),
            HTTPMethod::PATCH => String::from_str("PATCH"),
            HTTPMethod::OPTIONS => String::from_str("OPTIONS"),
            HTTPMethod::HEAD => String::from_str("HEAD"),
            HTTPMethod::CONNECT => String::from_str("CONNECT"),
            HTTPMethod::TRACE => String::from_str("TRACE"),
        }
    }

    pub fn from_str(method: &str) -> (r: Option<HTTPMethod>)
        ensures
            r == spec_method_of(method@),
    {
        if str_eq(method, "GET") {
            Some(HTTPMethod::GET)
        } else if str_eq(method, "POST") {
            Some(HTTPMethod::POST)
        } else if str_eq(method, "PUT") {
            Some(HTTPMethod::PUT)
        } else if str_eq(method, "DELETE") {
            Some(HTTPMethod::DELETE)
        } else if str_eq(method, "PATCH") {
            Some(HTTPMethod::PATCH)
        } else if str_eq(method, "OPTIONS") {
            Some(HTTPMethod::OPTIONS)
        } else if str_eq(method, "HEAD") {
            Some(HTTPMethod::HEAD)
        } else if str_eq(method, "CONNECT") {
            Some(HTTPMethod::CONNECT)
        } else if str_eq(method, "TRACE") {
            Some(HTTPMethod::TRACE)
        } else {
            None
        }
    }
}

/// A recognized token resolves back to the method that names it: no method
/// token is lost or confused in a decode/encode round trip.
pub proof fn lemma_method_round_trip(m: HTTPMethod)
    ensures
        spec_method_of(method_text(m)) == Some(m),
{
    reveal_strlit("GET");
    reveal_strlit("POST");
    reveal_strlit("PUT");
    reveal_strlit("DELETE");
    reveal_strlit("PATCH");
    reveal_strlit("OPTIONS");
    reveal_strlit("HEAD");
    reveal_strlit("CONNECT");
    reveal_strlit("TRACE");
    assert("GET"@.len() == 3 && "GET"@[0] == 'G');
    assert("POST"@.len() == 4 && "POST"@[0] == 'P');
    assert("PUT"@.len() == 3 && "PUT"@[0] == 'P');
    assert("DELETE"@.len() == 6 && "DELETE"@[0] == 'D');
    assert("PATCH"@.len() == 5 && "PATCH"@[0] == 'P');
    assert("OPTIONS"@.len() == 7 && "OPTIONS"@[0] == 'O');
    assert("HEAD"@.len() == 4 && "HEAD"@[0] == 'H');
    assert("CONNECT"@.len() == 7 && "CONNECT"@[0] == 'C');
    assert("TRACE"@.len() == 5 && "TRACE"@[0] == 'T');
}

/// A token recognized as method `m` is exactly `m`'s name: decoding is the
/// inverse of encoding on the recognized tokens.
pub proof fn lemma_method_token_faithful(s: Seq<char>, m: HTTPMethod)
    requires
        spec_method_of(s) == Some(m),
    ensures
        method_text(m) == s,
{
}

/// A response value: what the encoder turns into wire bytes.
pub struct HTTPResponse {
    pub status_code: StatusCode,
    pub content_type: ContentType,
    pub body: bytes::Bytes,
}

/// The mathematical content of a response.
#[verifier::ext_equal]
pub struct ResponseView {
    pub status_code: StatusCode,
    pub content_type: ContentType,
    pub body: Seq<u8>,
}

impl View for HTTPResponse {
    type V = ResponseView;

    open spec fn view(&self) -> ResponseView {
        ResponseView {
            status_code: self.status_code,
            content_type: self.content_type,
            body: bytes_content(self.body),
        }
    }
}

/// The header block of an encoded response: status line, `Content-Type`,
/// `Content-Length` over the exact byte length of the body, each line
/// CRLF-terminated, then the blank separator line.
pub open spec fn spec_head_chars(s: StatusCode, c: ContentType, n: nat) -> Seq<char> {
    "HTTP/1.1 "@ + status_text(s) + "\r\nContent-Type: "@ + content_type_text(c)
        + "\r\nContent-Length: "@ + dec_chars(n) + "\r\n\r\n"@
}

/// The exact bytes owed on the wire for a response: the UTF-8 (here all
/// ASCII) bytes of the header block, then the body bytes unchanged.
pub open spec fn spec_encode_response(r: ResponseView) -> Seq<u8> {
    encode_utf8(spec_head_chars(r.status_code, r.content_type, r.body.len())) + r.body
}

fn append_slice_u8(out: &mut Vec<u8>, src: &[u8])
    ensures
        final(out)@ == old(out)@ + src@,
{
    let mut i: usize = 0;
    while i < src.len()
        invariant
            i <= src@.len(),
            out@ == old(out)@ + src@.subrange(0, i as int),
        decreases src@.len() - i,
    {
        let b = *vstd::slice::slice_index_get(src, i);
        out.push(b);
        proof {
            assert(old(out)@ + src@.subrange(0, i as int) + seq![src@[i as int]] =~= old(out)@
                + src@.subrange(0, i as int + 1));
        }
        i += 1;
    }
    proof {
        assert(src@.subrange(0, src@.len() as int) =~= src@);
    }
}

impl HTTPResponse {
    /// Encodes the response into the exact byte sequence to write to the
    /// peer.
    pub fn to_bytes(&self) -> (r: bytes::Bytes)
        ensures
            bytes_content(r) == spec_encode_response(self@),
    {
        let mut head = String::new();
        head.append("HTTP/1.1 ");
        head.append(self.status_code.to_str());
        head.append("\r\nContent-Type: ");
        let ct = self.content_type.to_string();
        head.append(ct.as_str());
        head.append("\r\nContent-Length: ");
        let n = bytes_len(&self.body);
        let num = u64_to_dec(n as u64);
        head.append(num.as_str());
        head.append("\r\n\r\n");
        proof {
            assert(head@ =~= spec_head_chars(
                self.status_code,
                self.content_type,
                bytes_content(self.body).len(),
            ));
        }
        let mut out = head.as_str().as_bytes_vec();
        let body = bytes_as_slice(&self.body);
        append_slice_u8(&mut out, body);
        bytes_from_vec(out)
    }
}

/// A request value: what decoding a connection's collected lines yields.
pub struct HTTPRequest {
    pub method: HTTPMethod,
    pub paths: Vec<String>,
    pub headers: Vec<(String, String)>,
    pub body: bytes::Bytes,
}

/// The mathematical content of a request.
#[verifier::ext_equal]
pub struct RequestView {
    pub method: HTTPMethod,
    pub paths: Seq<Seq<char>>,
    pub headers: Seq<(Seq<char>, Seq<char>)>,
    pub body: Seq<u8>,
}

impl View for HTTPRequest {
    type V = RequestView;

    open spec fn view(&self) -> RequestView {
        RequestView {
            method: self.method,
            paths: self.paths.deep_view(),
            headers: self.headers.deep_view(),
            body: bytes_content(self.body),
        }
    }
}

/// Decode failures, each surfaced distinctly.
#[derive(Clone, Copy, Debug, PartialEq, Eq, Structural)]
pub enum DecodeError {
    /// End of stream before a complete request-line.
    Incomplete,
    /// A request-line with fewer than two tokens.
    MalformedRequestLine,
    /// A method token outside the closed method set.
    UnsupportedMethod,
    /// A header line without a `: ` separator.
    MalformedHeader,
}

/// All header lines split into (name, value) pairs in order, or nothing
/// as soon as one line holds no `: ` separator.
pub open spec fn spec_parse_headers(lines: Seq<Seq<char>>) -> Option<
    Seq<(Seq<char>, Seq<char>)>,
>
    decreases lines.len(),
{
    if lines.len() == 0 {
        Some(Seq::empty())
    } else {
        match spec_header_split(lines[0]) {
            None => None,
            Some(kv) => match spec_parse_headers(lines.drop_first()) {
                None => None,
                Some(t) => Some(seq![kv] + t),
            },
        }
    }
}

/// What decoding the collected lines yields: the first line is the
/// request-line (method token, then request-target), the rest are header
/// lines, and the body is empty, no body being read in this scope.
pub open spec fn spec_parse_request(lines: Seq<Seq<char>>) -> Result<RequestView, DecodeError> {
    if lines.len() == 0 {
        Err(DecodeError::Incomplete)
    } else {
        let toks = spec_tokens(lines[0]);
        if toks.len() < 2 {
            Err(DecodeError::MalformedRequestLine)
        } else {
            match spec_method_of(toks[0]) {
                None => Err(DecodeError::UnsupportedMethod),
                Some(m) => match spec_parse_headers(lines.drop_first()) {
                    None => Err(DecodeError::MalformedHeader),
                    Some(hs) => Ok(
                        RequestView {
                            method: m,
                            paths: spec_split_slash(toks[1]),
                            headers: hs,
                            body: Seq::empty(),
                        },
                    ),
                },
            }
        }
    }
}

/// The value of the first header whose name matches the key exactly, or
/// nothing when no name matches.
pub open spec fn spec_lookup(hs: Seq<(Seq<char>, Seq<char>)>, key: Seq<char>) -> Option<Seq<char>>
    decreases hs.len(),
{
    if hs.len() == 0 {
        None
    } else if hs[0].0 == key {
        Some(hs[0].1)
    } else {
        spec_lookup(hs.drop_first(), key)
    }
}

/// Lookup finds exactly the first matching pair: it returns nothing
/// precisely when no name matches, and where an index holds the first
/// match, it returns that pair's value.
pub proof fn lemma_lookup_first_match(hs: Seq<(Seq<char>, Seq<char>)>, key: Seq<char>)
    ensures
        (spec_lookup(hs, key) is None <==> (forall|i: int|
            0 <= i < hs.len() ==> (#[trigger] hs[i]).0 != key)),
        forall|i: int|
            0 <= i < hs.len() && (#[trigger] hs[i]).0 == key && (forall|j: int|
                0 <= j < i ==> (#[trigger] hs[j]).0 != key) ==> spec_lookup(hs, key) == Some(
                hs[i].1,
            ),
    decreases hs.len(),
{
    if hs.len() == 0 {
    } else {
        let tail = hs.drop_first();
        lemma_lookup_first_match(tail, key);
        assert(forall|i: int| 0 <= i < tail.len() ==> #[trigger] tail[i] == hs[i + 1]);
        if hs[0].0 == key {
        } else {
            if spec_lookup(tail, key) is None {
                assert forall|i: int| 0 <= i < hs.len() implies (#[trigger] hs[i]).0
                    != key by {
                    if i >= 1 {
                        assert(tail[i - 1] == hs[i]);
                    }
                }
            }
            if forall|i: int| 0 <= i < hs.len() ==> (#[trigger] hs[i]).0 != key {
                assert forall|i: int| 0 <= i < tail.len() implies (#[trigger] tail[i]).0
                    != key by {
                    assert(tail[i] == hs[i + 1]);
                }
            }
            assert forall|i: int|
                0 <= i < hs.len() && (#[trigger] hs[i]).0 == key && (forall|j: int|
                    0 <= j < i ==> (#[trigger] hs[j]).0 != key) implies spec_lookup(hs, key)
                == Some(hs[i].1) by {
                assert(i >= 1);
                assert(tail[i - 1].0 == key);
                assert(forall|j: int| 0 <= j < i - 1 ==> (#[trigger] tail[j]).0 != key);
            }
        }
    }
}

impl HTTPRequest {
    /// Decodes the collected request-line and header lines into a request,
    /// or reports which way the lines are unusable.
    pub fn from_lines(lines: &Vec<String>) -> (r: Result<HTTPRequest, DecodeError>)
        ensures
            match r {
                Ok(req) => spec_parse_request(lines.deep_view()) == Ok::<
                    RequestView,
                    DecodeError,
                >(req@),
                Err(e) => spec_parse_request(lines.deep_view()) == Err::<
                    RequestView,
                    DecodeError,
                >(e),
            },
    {
        if lines.len() == 0 {
            return Err(DecodeError::Incomplete);
        }
        let toks = tokenize(lines[0].as_str());
        if toks.len() < 2 {
            return Err(DecodeError::MalformedRequestLine);
        }
        let m = match HTTPMethod::from_str(toks[0].as_str()) {
            None => {
                return Err(DecodeError::UnsupportedMethod);
            },
            Some(m) => m,
        };
        let paths = split_path(toks[1].as_str());
        proof {
            assert(lines.deep_view()[0] == lines@[0].deep_view());
            assert(toks.deep_view()[0] == toks@[0].deep_view());
            assert(toks.deep_view()[1] == toks@[1].deep_view());
        }
        let ghost tail = lines.deep_view().drop_first();
        let mut headers: Vec<(String, String)> = Vec::new();
        let mut i: usize = 1;
        while i < lines.len()
            invariant
                1 <= i <= lines.len(),
                tail == lines.deep_view().drop_first(),
                lines.deep_view().len() == lines@.len(),
                toks.deep_view() == spec_tokens(lines.deep_view()[0]),
                toks.deep_view().len() >= 2,
                spec_method_of(toks.deep_view()[0]) == Some(m),
                spec_parse_headers(tail) == match spec_parse_headers(
                    lines.deep_view().skip(i as int),
                ) {
                    None => None::<Seq<(Seq<char>, Seq<char>)>>,
                    Some(t) => Some(headers.deep_view() + t),
                },
            decreases lines.len() - i,
        {
            let ghost rem = lines.deep_view().skip(i as int);
            proof {
                assert(rem[0] == lines.deep_view()[i as int]);
                assert(rem.drop_first() =~= lines.deep_view().skip(i as int + 1));
            }
            match split_header_line(lines[i].as_str()) {
                None => {
                    proof {
                        assert(spec_parse_headers(rem) is None);
                        assert(spec_parse_headers(tail) is None);
                        assert(spec_tokens(lines.deep_view()[0]) == toks.deep_view());
                        assert(spec_method_of(spec_tokens(lines.deep_view()[0])[0]) is Some);
                        assert(spec_parse_request(lines.deep_view()) == Err::<
                            RequestView,
                            DecodeError,
                        >(DecodeError::MalformedHeader));
                    }
                    return Err(DecodeError::MalformedHeader);
                },
                Some(kv) => {
                    let ghost old_headers = headers.deep_view();
                    headers.push(kv);
                    proof {
                        assert(headers.deep_view() =~= old_headers + seq![
                            (kv.0@, kv.1@),
                        ]);
                        if spec_parse_headers(rem.drop_first()) is Some {
                            assert(old_headers + (seq![(kv.0@, kv.1@)] + spec_parse_headers(
                                rem.drop_first(),
                            )->0) =~= headers.deep_view() + spec_parse_headers(
                                rem.drop_first(),
                            )->0);
                        }
                    }
                },
            }
            i += 1;
        }
        proof {
            assert(lines.deep_view().skip(lines.len() as int)
                =~= Seq::<Seq<char>>::empty());
            assert(headers.deep_view() + Seq::<(Seq<char>, Seq<char>)>::empty()
                =~= headers.deep_view());
        }
        let req = HTTPRequest { method: m, paths, headers, body: bytes_new() };
        proof {
            let parsed = spec_parse_request(lines.deep_view());
            assert(toks.deep_view()[0] == toks@[0].deep_view());
            assert(toks.deep_view()[1] == toks@[1].deep_view());
            assert(req@ =~= parsed->Ok_0);
        }
        Ok(req)
    }

    /// The value of the first header named `key`, name compared by exact
    /// match, or nothing when no header is so named.
    pub fn get_headers(&self, key: &str) -> (r: Option<String>)
        ensures
            match r {
                Some(v) => spec_lookup(self@.headers, key@) == Some(v@),
                None => spec_lookup(self@.headers, key@) is None,
            },
    {
        let mut i: usize = 0;
        proof {
            assert(self@.headers.skip(0) =~= self@.headers);
        }
        while i < self.headers.len()
            invariant
                i <= self.headers.len(),
                spec_lookup(self@.headers, key@) == spec_lookup(
                    self@.headers.skip(i as int),
                    key@,
                ),
            decreases self.headers.len() - i,
        {
            proof {
                assert(self@.headers.skip(i as int)[0] == self@.headers[i as int]);
                assert(self@.headers.skip(i as int).drop_first() =~= self@.headers.skip(
                    i as int + 1,
                ));
            }
            if str_eq(self.headers[i].0.as_str(), key) {
                return Some(self.headers[i].1.clone());
            }
            i += 1;
        }
        proof {
            assert(self@.headers.skip(self.headers.len() as int) =~= Seq::<
                (Seq<char>, Seq<char>),
            >::empty());
        }
        None
    }
}

/// The header lines of a re-encoded request, each `name: value` and
/// CRLF-terminated, in order.
pub open spec fn spec_header_lines(hs: Seq<(Seq<char>, Seq<char>)>) -> Seq<char>
    decreases hs.len(),
{
    if hs.len() == 0 {
        Seq::empty()
    } else {
        hs[0].0 + ": "@ + hs[0].1 + "\r\n"@ + spec_header_lines(hs.drop_first())
    }
}

/// The bytes of a re-encoded request: request-line (method token, one
/// space, the target rejoined from its segments), header lines, and the
/// blank separator line.
pub open spec fn spec_encode_request(rv: RequestView) -> Seq<u8> {
    encode_utf8(
        method_text(rv.method) + " "@ + spec_join_slash(rv.paths) + "\r\n"@ + spec_header_lines(
            rv.headers,
        ) + "\r\n"@,
    )
}

fn header_lines_from(hs: &Vec<(String, String)>, i: usize) -> (r: String)
    requires
        i <= hs.len(),
    ensures
        r@ == spec_header_lines(hs.deep_view().skip(i as int)),
    decreases hs.len() - i,
{
    if i >= hs.len() {
        proof {
            assert(hs.deep_view().skip(i as int) =~= Seq::<(Seq<char>, Seq<char>)>::empty());
        }
        String::new()
    } else {
        let mut s = hs[i].0.clone();
        s.append(": ");
        s.append(hs[i].1.as_str());
        s.append("\r\n");
        let rest = header_lines_from(hs, i + 1);
        s.append(rest.as_str());
        proof {
            let ss = hs.deep_view().skip(i as int);
            assert(ss[0] == hs.deep_view()[i as int]);
            assert(ss.drop_first() =~= hs.deep_view().skip(i as int + 1));
            assert(s@ =~= spec_header_lines(ss));
        }
        s
    }
}

impl HTTPRequest {
    /// Re-encodes the request's line and headers as they would stand on
    /// the wire (the body is not written: none is read in this scope).
    pub fn to_bytes(&self) -> (r: bytes::Bytes)
        ensures
            bytes_content(r) == spec_encode_request(self@),
    {
        let mut s = self.method.to_string();
        s.append(" ");
        let joined = crate::utils::join_slash(&self.paths);
        s.append(joined.as_str());
        s.append("\r\n");
        let hl = header_lines_from(&self.headers, 0);
        s.append(hl.as_str());
        s.append("\r\n");
        proof {
            assert(self.headers.deep_view().skip(0) =~= self.headers.deep_view());
            assert(s@ =~= method_text(self.method) + " "@ + spec_join_slash(self@.paths)
                + "\r\n"@ + spec_header_lines(self@.headers) + "\r\n"@);
        }
        bytes_from_vec(s.as_str().as_bytes_vec())
    }
}

fn str_to_body(s: &str) -> (b: bytes::Bytes)
    ensures
        bytes_content(b) == encode_utf8(s@),
{
    bytes_from_vec(s.as_bytes_vec())
}

/// The response every unmatched `GET` target draws.
pub open spec fn spec_not_found() -> ResponseView {
    ResponseView {
        status_code: StatusCode::NotFound,
        content_type: ContentType::PLAIN,
        body: Seq::empty(),
    }
}

fn not_found() -> (r: HTTPResponse)
    ensures
        r@ == spec_not_found(),
{
    HTTPResponse {
        status_code: StatusCode::NotFound,
        content_type: ContentType::PLAIN,
        body: bytes_new(),
    }
}

/// The fixed route table, keyed on the method and the first real path
/// segment. `GET /echo/<value>` answers the value itself; `GET /` answers
/// empty; `GET /user-agent` answers the `User-Agent` header's value; any
/// other `GET` target draws 404. A missing echo segment or a missing
/// `User-Agent` header is the peer's malformed request and likewise draws
/// 404 rather than tearing the connection down. A non-`GET` method
/// resolves to no templated response at all: the caller answers it with
/// the bare 405 status line.
pub open spec fn spec_resolve(rv: RequestView) -> Option<ResponseView> {
    if !(rv.method is GET) {
        None
    } else if rv.paths.len() >= 2 && rv.paths[1] == "echo"@ {
        if rv.paths.len() >= 3 {
            Some(
                ResponseView {
                    status_code: StatusCode::OK,
                    content_type: ContentType::PLAIN,
                    body: encode_utf8(rv.paths[2]),
                },
            )
        } else {
            Some(spec_not_found())
        }
    } else if rv.paths.len() >= 2 && rv.paths[1].len() == 0 {
        Some(
            ResponseView {
                status_code: StatusCode::OK,
                content_type: ContentType::PLAIN,
                body: Seq::empty(),
            },
        )
    } else if rv.paths.len() >= 2 && rv.paths[1] == "user-agent"@ {
        match spec_lookup(rv.headers, "User-Agent"@) {
            Some(v) => Some(
                ResponseView {
                    status_code: StatusCode::OK,
                    content_type: ContentType::PLAIN,
                    body: encode_utf8(v),
                },
            ),
            None => Some(spec_not_found()),
        }
    } else {
        Some(spec_not_found())
    }
}

/// Decides a response for a decoded request from the fixed route table,
/// without I/O. `None` stands for a method outside the table, answered by
/// the bare 405 status line.
pub fn resolve(req: &HTTPRequest) -> (r: Option<HTTPResponse>)
    ensures
        match r {
            Some(resp) => spec_resolve(req@) == Some(resp@),
            None => spec_resolve(req@) is None,
        },
{
    match req.method {
        HTTPMethod::GET => {
            proof {
                if req.paths.len() >= 2 {
                    assert(req@.paths[1] == req.paths@[1].deep_view());
                }
                if req.paths.len() >= 3 {
                    assert(req@.paths[2] == req.paths@[2].deep_view());
                }
            }
            if req.paths.len() >= 2 && str_eq(req.paths[1].as_str(), "echo") {
                if req.paths.len() >= 3 {
                    let body = str_to_body(req.paths[2].as_str());
                    Some(
                        HTTPResponse {
                            status_code: StatusCode::OK,
                            content_type: ContentType::PLAIN,
                            body,
                        },
                    )
                } else {
                    Some(not_found())
                }
            } else if req.paths.len() >= 2 && req.paths[1].as_str().is_empty() {
                Some(
                    HTTPResponse {
                        status_code: StatusCode::OK,
                        content_type: ContentType::PLAIN,
                        body: bytes_new(),
                    },
                )
            } else if req.paths.len() >= 2 && str_eq(req.paths[1].as_str(), "user-agent") {
                match req.get_headers("User-Agent") {
                    Some(v) => {
                        let body = str_to_body(v.as_str());
                        Some(
                            HTTPResponse {
                                status_code: StatusCode::OK,
                                content_type: ContentType::PLAIN,
                                body,
                            },
                        )
                    },
                    None => Some(not_found()),
                }
            } else {
                Some(not_found())
            }
        },
        _ => None,
    }
}

/// The bytes of the bare 405 answer: a status line and the blank line,
/// with no header template at all.
pub open spec fn spec_bare_405() -> Seq<u8> {
    encode_utf8("HTTP/1.1 405 Method Not Allowed\r\n\r\n"@)
}

/// The bytes owed for a decoded request: the encoded resolved response,
/// or the bare 405 line for a method outside the route table.
pub open spec fn spec_respond(rv: RequestView) -> Seq<u8> {
    match spec_resolve(rv) {
        Some(resp) => spec_encode_response(resp),
        None => spec_bare_405(),
    }
}

/// Resolves a decoded request and encodes the answer: the entire
/// compute half of handling one connection after its lines are read.
pub fn handle_request(req: &HTTPRequest) -> (out: bytes::Bytes)
    ensures
        bytes_content(out) == spec_respond(req@),
{
    match resolve(req) {
        Some(resp) => resp.to_bytes(),
        None => bytes_from_vec("HTTP/1.1 405 Method Not Allowed\r\n\r\n".as_bytes_vec()),
    }
}

/// Drives one connection's collected lines end to end: decode, resolve,
/// encode. `None` reports a decode failure, on which nothing is to be
/// written to the peer.
pub fn handle_lines(lines: &Vec<String>) -> (out: Option<bytes::Bytes>)
    ensures
        match out {
            Some(b) => spec_parse_request(lines.deep_view()) is Ok && bytes_content(b)
                == spec_respond(spec_parse_request(lines.deep_view())->Ok_0),
            None => spec_parse_request(lines.deep_view()) is Err,
        },
{
    match HTTPRequest::from_lines(lines) {
        Ok(req) => Some(handle_request(&req)),
        Err(_) => None,
    }
}

/// The head of the response template up to the `Content-Length` line.
pub open spec fn spec_head_before_length(s: StatusCode, c: ContentType) -> Seq<char> {
    "HTTP/1.1 "@ + status_text(s) + "\r\nContent-Type: "@ + content_type_text(c) + "\r\n"@
}

/// Every templated response carries a `Content-Length: N` line, where `N`
/// is the decimal numeral of the exact byte count of the body.
pub proof fn lemma_content_length_emitted(rv: ResponseView)
    ensures
        spec_head_chars(rv.status_code, rv.content_type, rv.body.len())
            == spec_head_before_length(rv.status_code, rv.content_type) + ("Content-Length: "@
            + dec_chars(rv.body.len()) + "\r\n"@) + "\r\n"@,
{
    reveal_strlit("\r\nContent-Length: ");
    reveal_strlit("\r\n");
    reveal_strlit("Content-Length: ");
    reveal_strlit("\r\n\r\n");
    assert("\r\nContent-Length: "@ =~= "\r\n"@ + "Content-Length: "@);
    assert("\r\n\r\n"@ =~= "\r\n"@ + "\r\n"@);
    assert(spec_head_chars(rv.status_code, rv.content_type, rv.body.len())
        =~= spec_head_before_length(rv.status_code, rv.content_type) + ("Content-Length: "@
        + dec_chars(rv.body.len()) + "\r\n"@) + "\r\n"@);
}

/// Decoding a valid request-line and re-encoding its method and path
/// loses nothing: the method token comes back as the same token, and the
/// path segments rejoin to exactly the original request-target.
pub proof fn lemma_request_line_round_trip(line: Seq<char>)
    requires
        spec_tokens(line).len() >= 2,
        spec_method_of(spec_tokens(line)[0]) is Some,
    ensures
        spec_parse_request(seq![line]) is Ok,
        method_text(spec_parse_request(seq![line])->Ok_0.method) == spec_tokens(line)[0],
        spec_join_slash(spec_parse_request(seq![line])->Ok_0.paths) == spec_tokens(line)[1],
{
    assert(seq![line].drop_first() =~= Seq::<Seq<char>>::empty());
    assert(seq![line][0] == line);
    let m = spec_method_of(spec_tokens(line)[0])->0;
    lemma_method_token_faithful(spec_tokens(line)[0], m);
    crate::utils::lemma_join_split_slash(spec_tokens(line)[1]);
}

/// A decoded request never has an empty segment sequence: splitting the
/// target always yields at least one segment.
pub proof fn lemma_parse_request_paths_nonempty(lines: Seq<Seq<char>>)
    requires
        spec_parse_request(lines) is Ok,
    ensures
        spec_parse_request(lines)->Ok_0.paths.len() >= 1,
{
    crate::utils::lemma_split_slash_len(spec_tokens(lines[0])[1]);
}

} // verus!
