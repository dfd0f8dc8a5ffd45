//! The opening handshake: one HTTP request, read line by line, answered with
//! the viewer page, an error, or the upgrade to a WebSocket.

use vstd::prelude::*;
use vstd::string::StringExecFns;
use vstd::string::StrSliceExecFns;
use vstd::utf8::encode_utf8;
use base64::prelude::BASE64_STANDARD;
use base64::Engine;
use sha1::Digest;
use sha1::Sha1;
use crate::text::{
    chars_of, find_char, first_index_of, is_prefix, match_prefix, spells, text_of, trim_end,
    trim_end_index,
};

verus! {

/// The GUID that RFC 6455 appends to the client's key.
pub const WEBSOCKET_GUID: &'static str = "258EAFA5-E914-47DA-95CA-C5AB0DC85B11";

/// The header that carries the client's key, up to and including the space
/// after the colon.
pub const KEY_HEADER: &'static str = "Sec-WebSocket-Key: ";

/// Lines fed to a handshake take fewer bytes than this, which keeps the
/// digest's input below the size its bit counter can hold.
pub const MAX_LINE_LEN: u64 = 0x1000_0000_0000_0000;

/// Whether a line is short enough to be fed to a handshake.
pub fn line_fits(line: &str) -> (b: bool)
    ensures
        b == (encode_utf8(line@).len() < MAX_LINE_LEN),
{
    let bytes = line.as_bytes();
    (bytes.len() as u64) < MAX_LINE_LEN
}

/// The SHA-1 digest of a byte string.
pub uninterp spec fn sha1_digest(data: Seq<u8>) -> Seq<u8>;

/// The base64 text of a byte string, standard alphabet, padded.
pub uninterp spec fn base64_standard(data: Seq<u8>) -> Seq<char>;

/// Calls `Sha1::digest` of the `sha1` crate. The digest is a function of the
/// input alone and is 20 bytes long. Inputs of 2^61 bytes or more, whose
/// length in bits the hasher cannot count in 64 bits, are left out.
#[verifier::external_body]
fn sha1_of(data: &[u8]) -> (digest: Vec<u8>)
    requires
        data@.len() < 0x2000_0000_0000_0000,
    ensures
        digest@ == sha1_digest(data@),
        digest@.len() == 20,
{
    Sha1::digest(data).to_vec()
}

/// Calls `Engine::encode` on `BASE64_STANDARD` of the `base64` crate. The
/// text is a function of the input alone. Inputs whose encoded length would
/// not fit an allocation are left out.
#[verifier::external_body]
fn base64_of(data: &[u8]) -> (text: String)
    requires
        data@.len() <= 0x1000_0000,
    ensures
        text@ == base64_standard(data@),
{
    BASE64_STANDARD.encode(data)
}

/// The accept token that answers a client's key: the base64 text of the
/// SHA-1 digest of the key followed by the GUID.
pub open spec fn accept_token_text(key: Seq<char>) -> Seq<char> {
    base64_standard(sha1_digest(encode_utf8(key) + encode_utf8(WEBSOCKET_GUID@)))
}

/// The bytes of a text are the bytes of its parts, one after the other.
pub proof fn lemma_encoded_concat(a: Seq<char>, b: Seq<char>)
    ensures
        encode_utf8(a + b) == encode_utf8(a) + encode_utf8(b),
    decreases a.len(),
{
    if a.len() == 0 {
        assert(a + b =~= b);
        assert(encode_utf8(a) + encode_utf8(b) =~= encode_utf8(b));
    } else {
        lemma_encoded_concat(a.drop_first(), b);
        assert((a + b).drop_first() =~= a.drop_first() + b);
        assert(encode_utf8(a + b) =~= encode_utf8(a) + encode_utf8(b));
    }
}

/// A part of a text takes no more bytes than the text.
pub proof fn lemma_encoded_part(s: Seq<char>, from: int, to: int)
    requires
        0 <= from <= to <= s.len(),
    ensures
        encode_utf8(s.subrange(from, to)).len() <= encode_utf8(s).len(),
{
    let part = s.subrange(from, to);
    assert(s =~= s.take(from) + part + s.skip(to));
    lemma_encoded_concat(s.take(from) + part, s.skip(to));
    lemma_encoded_concat(s.take(from), part);
}

/// Computes the accept token for a client's key.
pub fn accept_token(key: &str) -> (token: String)
    requires
        encode_utf8(key@).len() < MAX_LINE_LEN,
    ensures
        token@ == accept_token_text(key@),
{
    let mut data: Vec<u8> = key.as_bytes_vec();
    let guid = WEBSOCKET_GUID.as_bytes();
    proof {
        reveal_strlit("258EAFA5-E914-47DA-95CA-C5AB0DC85B11");
        assert(vstd::string::is_ascii(WEBSOCKET_GUID));
        vstd::string::is_ascii_spec_bytes(WEBSOCKET_GUID);
    }
    data.extend_from_slice(guid);
    assert(data@ == encode_utf8(key@) + encode_utf8(WEBSOCKET_GUID@));
    let digest = sha1_of(data.as_slice());
    base64_of(digest.as_slice())
}

/// The first line of every upgrade response, with its fixed headers, up to
/// the value of the accept header.
pub const UPGRADE_HEAD: &'static str =
    "HTTP/1.1 101 Switching Protocols\r\nUpgrade: websocket\r\nConnection: Upgrade\r\nSec-WebSocket-Accept: ";

/// The end of a response head: the end of the last header and an empty line.
pub const HEAD_END: &'static str = "\r\n\r\n";

/// The head that precedes the viewer page.
pub const OK_HEAD: &'static str = "HTTP/1.1 200 OK\r\n\r\n";

/// The whole response to a request for an unknown path.
pub const NOT_FOUND_RESPONSE: &'static str =
    "HTTP/1.1 404 NOT FOUND\r\n\r\n<html><body>Path not found</body></html>";

/// The whole response to a request that is not `GET` over `HTTP/1.1`.
pub const BAD_REQUEST_RESPONSE: &'static str = "HTTP/1.1 400 BAD REQUEST\r\n\r\n";

/// The head of the response sent when serving a connection failed; the
/// failure's description follows it.
pub const INTERNAL_ERROR_HEAD: &'static str = "HTTP/1.1 500 INTERNAL SERVER ERROR\r\n\r\n";

/// The text of the upgrade response that carries `token`.
pub open spec fn upgrade_text(token: Seq<char>) -> Seq<char> {
    UPGRADE_HEAD@ + token + HEAD_END@
}

/// Builds the upgrade response for an accept token.
pub fn upgrade_response(token: &str) -> (response: String)
    ensures
        response@ == upgrade_text(token@),
{
    let mut response = String::from_str(UPGRADE_HEAD);
    response.append(token);
    response.append(HEAD_END);
    response
}

/// Builds the response that reports a failure while serving a connection.
pub fn internal_error_response(detail: &str) -> (response: String)
    ensures
        response@ == INTERNAL_ERROR_HEAD@ + detail@,
{
    let mut response = String::from_str(INTERNAL_ERROR_HEAD);
    response.append(detail);
    response
}

/// The two parts of `s` around its first `c`; two empty texts when `s` holds
/// no `c`.
pub open spec fn split_once(s: Seq<char>, c: char) -> (Seq<char>, Seq<char>) {
    let i = first_index_of(s, c) as int;
    if i < s.len() {
        (s.take(i), s.skip(i + 1))
    } else {
        (Seq::empty(), Seq::empty())
    }
}

/// The three parts of a request line.
pub struct RequestLine {
    pub method: String,
    pub path: String,
    pub version: String,
}

/// The texts of the three parts of a request line.
pub struct RequestLineView {
    pub method: Seq<char>,
    pub path: Seq<char>,
    pub version: Seq<char>,
}

impl View for RequestLine {
    type V = RequestLineView;

    open spec fn view(&self) -> RequestLineView {
        RequestLineView { method: self.method@, path: self.path@, version: self.version@ }
    }
}

/// A request line split at its first two spaces: the method before the first,
/// the path between them, the version after the second. Where a space is
/// missing, the parts from there on are empty.
pub open spec fn request_line_parts(line: Seq<char>) -> RequestLineView {
    let (method, rest) = split_once(line, ' ');
    let (path, version) = split_once(rest, ' ');
    RequestLineView { method, path, version }
}

/// Splits a request line into method, path and version.
pub fn parse_request_line(line: &str) -> (parts: RequestLine)
    ensures
        parts@ == request_line_parts(line@),
{
    let chars = chars_of(line);
    let n = chars.len();
    assert(chars@.subrange(0, n as int) == line@);
    let first = find_char(&chars, 0, n, ' ');
    if first >= n {
        return RequestLine { method: String::new(), path: String::new(), version: String::new() };
    }
    let method = text_of(&chars, 0, first);
    assert(line@.skip(first + 1) == chars@.subrange(first + 1, n as int));
    let second = find_char(&chars, first + 1, n, ' ');
    if second >= n {
        return RequestLine { method, path: String::new(), version: String::new() };
    }
    let path = text_of(&chars, first + 1, second);
    let version = text_of(&chars, second + 1, n);
    proof {
        let rest = line@.skip(first + 1);
        assert(rest.take(second - (first + 1)) == chars@.subrange(first + 1, second as int));
        assert(rest.skip(second - (first + 1) + 1) == chars@.subrange(second + 1, n as int));
    }
    RequestLine { method, path, version }
}

/// Where a handshake stands.
#[derive(Clone, Copy, Debug, PartialEq, Eq, Structural)]
pub enum HandshakeState {
    /// No request line has been read yet.
    AwaitingRequestLine,
    /// The request line is known; headers are being read.
    AwaitingHeaders,
    /// The request was answered with the upgrade to a WebSocket.
    Upgraded,
    /// The request was answered with the viewer page.
    PlainHttpServed,
    /// The request was answered with an error.
    Rejected,
}

/// What a handshake has read so far.
pub struct HandshakeView {
    pub state: HandshakeState,
    pub request_line: Seq<char>,
    pub token: Option<Seq<char>>,
}

/// The key carried by a header line, if the line is the key header.
pub open spec fn key_of(line: Seq<char>) -> Option<Seq<char>> {
    if is_prefix(KEY_HEADER@, line) {
        Some(line.skip(KEY_HEADER@.len() as int))
    } else {
        None
    }
}

/// Whether a request line asks with `GET` over `HTTP/1.1`.
pub open spec fn well_formed_request(line: Seq<char>) -> bool {
    let parts = request_line_parts(line);
    parts.method == "GET"@ && parts.version == "HTTP/1.1"@
}

/// The state a handshake ends in once the headers are over.
pub open spec fn outcome(request_line: Seq<char>, token: Option<Seq<char>>) -> HandshakeState {
    if !well_formed_request(request_line) {
        HandshakeState::Rejected
    } else if token is Some {
        HandshakeState::Upgraded
    } else if request_line_parts(request_line).path == "/"@ {
        HandshakeState::PlainHttpServed
    } else {
        HandshakeState::Rejected
    }
}

/// The HTTP status a finished handshake answers with; `0` before that.
pub open spec fn status_of(h: HandshakeView) -> u16 {
    match h.state {
        HandshakeState::Upgraded => 101,
        HandshakeState::PlainHttpServed => 200,
        HandshakeState::Rejected => if well_formed_request(h.request_line) {
            404
        } else {
            400
        },
        _ => 0,
    }
}

/// The handshake after one more line. Trailing whitespace, the line ending
/// included, does not count. An empty line ends the request; the first line
/// that is not empty is the request line; of the later ones only the key
/// header is read, the last one winning.
pub open spec fn after_line(h: HandshakeView, raw: Seq<char>) -> HandshakeView {
    let line = trim_end(raw);
    match h.state {
        HandshakeState::AwaitingRequestLine => if line.len() == 0 {
            HandshakeView { state: HandshakeState::Rejected, ..h }
        } else {
            HandshakeView { state: HandshakeState::AwaitingHeaders, request_line: line, ..h }
        },
        HandshakeState::AwaitingHeaders => if line.len() == 0 {
            HandshakeView { state: outcome(h.request_line, h.token), ..h }
        } else {
            match key_of(line) {
                Some(key) => HandshakeView { token: Some(accept_token_text(key)), ..h },
                None => h,
            }
        },
        _ => h,
    }
}

/// The bytes a finished handshake answers with, given the viewer page;
/// nothing before it has finished.
pub open spec fn response_bytes(h: HandshakeView, page: Seq<u8>) -> Seq<u8> {
    match h.state {
        HandshakeState::Upgraded => encode_utf8(upgrade_text(h.token->0)),
        HandshakeState::PlainHttpServed => encode_utf8(OK_HEAD@) + page,
        HandshakeState::Rejected => if well_formed_request(h.request_line) {
            encode_utf8(NOT_FOUND_RESPONSE@)
        } else {
            encode_utf8(BAD_REQUEST_RESPONSE@)
        },
        _ => Seq::empty(),
    }
}

/// The handshake of one connection.
pub struct Handshake {
    state: HandshakeState,
    request_line: String,
    token: Option<String>,
}

impl View for Handshake {
    type V = HandshakeView;

    closed spec fn view(&self) -> HandshakeView {
        HandshakeView {
            state: self.state,
            request_line: self.request_line@,
            token: match self.token {
                Some(t) => Some(t@),
                None => None,
            },
        }
    }
}

impl Handshake {
    /// A handshake can only have upgraded with a token.
    #[verifier::type_invariant]
    closed spec fn inv(&self) -> bool {
        self.state == HandshakeState::Upgraded ==> self.token is Some
    }

    /// A handshake that has read nothing.
    pub fn new() -> (h: Self)
        ensures
            h@ == (HandshakeView {
                state: HandshakeState::AwaitingRequestLine,
                request_line: Seq::empty(),
                token: None,
            }),
    {
        Handshake {
            state: HandshakeState::AwaitingRequestLine,
            request_line: String::new(),
            token: None,
        }
    }

    /// Where the handshake stands.
    pub fn state(&self) -> (s: HandshakeState)
        ensures
            s == self@.state,
    {
        self.state
    }

    /// Whether the request has been answered, so that no further line is read.
    pub fn is_finished(&self) -> (b: bool)
        ensures
            b == (self@.state != HandshakeState::AwaitingRequestLine && self@.state
                != HandshakeState::AwaitingHeaders),
    {
        match self.state {
            HandshakeState::AwaitingRequestLine | HandshakeState::AwaitingHeaders => false,
            _ => true,
        }
    }

    /// Whether the request line asks with `GET` over `HTTP/1.1`.
    fn request_is_well_formed(&self) -> (b: bool)
        ensures
            b == well_formed_request(self@.request_line),
    {
        let parts = parse_request_line(self.request_line.as_str());
        let method = chars_of(parts.method.as_str());
        let version = chars_of(parts.version.as_str());
        assert(method@.subrange(0, method@.len() as int) == method@);
        assert(version@.subrange(0, version@.len() as int) == version@);
        spells(&method, 0, method.len(), "GET") && spells(&version, 0, version.len(), "HTTP/1.1")
    }

    /// The state to end in once the headers are over.
    fn decide(&self) -> (s: HandshakeState)
        ensures
            s == outcome(self@.request_line, self@.token),
    {
        if !self.request_is_well_formed() {
            return HandshakeState::Rejected;
        }
        if self.token.is_some() {
            return HandshakeState::Upgraded;
        }
        let parts = parse_request_line(self.request_line.as_str());
        let path = chars_of(parts.path.as_str());
        assert(path@.subrange(0, path@.len() as int) == path@);
        if spells(&path, 0, path.len(), "/") {
            HandshakeState::PlainHttpServed
        } else {
            HandshakeState::Rejected
        }
    }

    /// Takes the next line of the request, with or without its line ending.
    pub fn feed_line(&mut self, raw: &str)
        requires
            encode_utf8(raw@).len() < MAX_LINE_LEN,
        ensures
            final(self)@ == after_line(old(self)@, raw@),
    {
        proof {
            use_type_invariant(&*self);
        }
        if self.is_finished() {
            return ;
        }
        let chars = chars_of(raw);
        let n = chars.len();
        assert(chars@.subrange(0, n as int) == raw@);
        let end = trim_end_index(&chars, 0, n);
        assert(chars@.subrange(0, end as int) == trim_end(raw@));
        match self.state {
            HandshakeState::AwaitingRequestLine => {
                if end == 0 {
                    self.state = HandshakeState::Rejected;
                } else {
                    self.request_line = text_of(&chars, 0, end);
                    self.state = HandshakeState::AwaitingHeaders;
                }
            },
            _ => {
                if end == 0 {
                    let next = self.decide();
                    self.state = next;
                } else {
                    match match_prefix(&chars, 0, end, KEY_HEADER) {
                        Some(start) => {
                            let key = text_of(&chars, start, end);
                            assert(trim_end(raw@).skip(start as int) == key@);
                            proof {
                                lemma_encoded_part(raw@, start as int, end as int);
                            }
                            self.token = Some(accept_token(key.as_str()));
                        },
                        None => {},
                    }
                }
            },
        }
    }

    /// Ends the request where the stream ended or failed before an empty line:
    /// the handshake goes on as after an empty line.
    pub fn end_of_input(&mut self)
        ensures
            final(self)@ == after_line(old(self)@, Seq::empty()),
    {
        proof {
            reveal_strlit("");
        }
        self.feed_line("");
    }

    /// The HTTP status the handshake answered with; `0` while it is reading.
    pub fn status(&self) -> (code: u16)
        ensures
            code == status_of(self@),
    {
        match self.state {
            HandshakeState::Upgraded => 101,
            HandshakeState::PlainHttpServed => 200,
            HandshakeState::Rejected => if self.request_is_well_formed() {
                404
            } else {
                400
            },
            _ => 0,
        }
    }

    /// The bytes to answer with, given the viewer page; empty while the
    /// handshake is reading.
    pub fn response(&self, page: &[u8]) -> (bytes: Vec<u8>)
        ensures
            bytes@ == response_bytes(self@, page@),
    {
        proof {
            use_type_invariant(self);
        }
        match self.state {
            HandshakeState::Upgraded => {
                match &self.token {
                    Some(token) => upgrade_response(token.as_str()).as_str().as_bytes_vec(),
                    None => Vec::new(),
                }
            },
            HandshakeState::PlainHttpServed => {
                let mut bytes = OK_HEAD.as_bytes_vec();
                bytes.extend_from_slice(page);
                assert(bytes@ == encode_utf8(OK_HEAD@) + page@);
                bytes
            },
            HandshakeState::Rejected => if self.request_is_well_formed() {
                NOT_FOUND_RESPONSE.as_bytes_vec()
            } else {
                BAD_REQUEST_RESPONSE.as_bytes_vec()
            },
            _ => Vec::new(),
        }
    }
}

} // verus!
