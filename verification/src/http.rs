//! The HTTP/1.1 exchange that delivers one record: the request as the bytes
//! that go on the wire, and the reading of whatever bytes come back.

use vstd::prelude::*;
use vstd::slice::{slice_subrange, slice_to_vec};
use vstd::string::*;
use crate::text::{decimal_digits, push_bytes, push_text, push_unsigned};

verus! {

/// Seconds allowed for writing the request.
pub const WRITE_TIMEOUT_SECS: u64 = 3;

/// Seconds allowed for reading the response.
pub const READ_TIMEOUT_SECS: u64 = 5;

/// The request that writes `body` under `path` at `host`:`port`: the request
/// line, the headers with the length of `body` in bytes, a blank line, and
/// `body` as it is. The connection is to be closed after the response.
pub open spec fn request_bytes(
    path: Seq<u8>,
    host: Seq<u8>,
    port: u16,
    token: Seq<u8>,
    body: Seq<u8>,
) -> Seq<u8> {
    "POST ".spec_bytes() + path + " HTTP/1.1\r\nHost: ".spec_bytes() + host + ":".spec_bytes()
        + decimal_digits(port as nat) + "\r\nAuthorization: Token ".spec_bytes() + token
        + "\r\nContent-Type: text/plain; charset=utf-8\r\nContent-Length: ".spec_bytes()
        + decimal_digits(body.len()) + "\r\nConnection: close\r\n\r\n".spec_bytes() + body
}

/// Builds the request that writes `body` under `path`.
pub fn build_request(path: &[u8], host: &str, port: u16, token: &str, body: &[u8]) -> (request:
    Vec<u8>)
    ensures
        request@ == request_bytes(path@, host.spec_bytes(), port, token.spec_bytes(), body@),
{
    let mut out: Vec<u8> = Vec::new();
    push_text(&mut out, "POST ");
    push_bytes(&mut out, path);
    push_text(&mut out, " HTTP/1.1\r\nHost: ");
    push_text(&mut out, host);
    push_text(&mut out, ":");
    push_unsigned(&mut out, port as u128);
    push_text(&mut out, "\r\nAuthorization: Token ");
    push_text(&mut out, token);
    push_text(&mut out, "\r\nContent-Type: text/plain; charset=utf-8\r\nContent-Length: ");
    push_unsigned(&mut out, body.len() as u128);
    push_text(&mut out, "\r\nConnection: close\r\n\r\n");
    push_bytes(&mut out, body);
    out
}

/// Whether `pattern` stands in `s` at index `i`.
pub open spec fn occurs_at(s: Seq<u8>, pattern: Seq<u8>, i: int) -> bool {
    0 <= i && i + pattern.len() <= s.len() && s.subrange(i, i + pattern.len()) == pattern
}

/// The first index at or after `from` at which `pattern` stands in `s`.
pub open spec fn find_from(s: Seq<u8>, pattern: Seq<u8>, from: int) -> Option<int>
    decreases s.len() - from + 1,
{
    if from < 0 || from + pattern.len() > s.len() {
        None
    } else if occurs_at(s, pattern, from) {
        Some(from)
    } else {
        find_from(s, pattern, from + 1)
    }
}

/// The first index at which `pattern` stands in `s`.
pub open spec fn find(s: Seq<u8>, pattern: Seq<u8>) -> Option<int> {
    find_from(s, pattern, 0)
}

/// Whether `pattern` stands somewhere in `s`.
pub open spec fn contains(s: Seq<u8>, pattern: Seq<u8>) -> bool {
    find(s, pattern) is Some
}

/// What `find_from` returns is the least index from `from` on at which the
/// pattern stands; it returns none only where the pattern stands at no such
/// index.
pub proof fn lemma_find_from(s: Seq<u8>, pattern: Seq<u8>, from: int)
    requires
        0 <= from,
    ensures
        match find_from(s, pattern, from) {
            Some(i) => from <= i && occurs_at(s, pattern, i) && forall|j: int|
                from <= j < i ==> !occurs_at(s, pattern, j),
            None => forall|j: int| from <= j ==> !occurs_at(s, pattern, j),
        },
    decreases s.len() - from + 1,
{
    if from + pattern.len() <= s.len() && !occurs_at(s, pattern, from) {
        lemma_find_from(s, pattern, from + 1);
    }
}

/// The first line of a response: what stands before the first line feed,
/// without a carriage return just before it, or the whole response where it
/// holds no line feed. An empty response has no first line.
pub open spec fn first_line(response: Seq<u8>) -> Option<Seq<u8>> {
    if response.len() == 0 {
        None
    } else {
        match find(response, seq![0x0Au8]) {
            Some(end) => if end > 0 && response[end - 1] == 0x0D {
                Some(response.subrange(0, end - 1))
            } else {
                Some(response.subrange(0, end))
            },
            None => Some(response),
        }
    }
}

/// What follows the first blank line of a response, if it has one.
pub open spec fn body_detail(response: Seq<u8>) -> Option<Seq<u8>> {
    match find(response, "\r\n\r\n".spec_bytes()) {
        Some(i) => Some(response.skip(i + "\r\n\r\n".spec_bytes().len())),
        None => None,
    }
}

/// Whether a status line reports that the record was taken: it holds the
/// status code 204 or 200 with a space on either side.
pub open spec fn is_success_line(line: Seq<u8>) -> bool {
    contains(line, " 204 ".spec_bytes()) || contains(line, " 200 ".spec_bytes())
}

/// Where in the exchange the transport failed.
#[derive(Clone, Copy, Debug, PartialEq, Eq, Structural)]
pub enum TransportStage {
    Connect,
    Write,
    Read,
    /// The peer closed the connection without sending a byte.
    EmptyResponse,
}

/// How an exchange ended.
#[derive(Clone, Debug, PartialEq, Eq)]
pub enum HttpExchangeResult {
    /// The peer answered with status 200 or 204.
    Success,
    /// The peer answered with another status.
    RemoteError {
        /// First line of the response.
        status_line: Vec<u8>,
        /// What the response holds after its first blank line, if it has one.
        body_detail: Option<Vec<u8>>,
    },
    /// The exchange did not get as far as a response.
    TransportError { stage: TransportStage, cause: String },
}

/// An `HttpExchangeResult` as a value of specifications.
pub enum HttpExchangeView {
    Success,
    RemoteError { status_line: Seq<u8>, body_detail: Option<Seq<u8>> },
    TransportError { stage: TransportStage, cause: Seq<char> },
}

impl View for HttpExchangeResult {
    type V = HttpExchangeView;

    open spec fn view(&self) -> HttpExchangeView {
        match self {
            HttpExchangeResult::Success => HttpExchangeView::Success,
            HttpExchangeResult::RemoteError { status_line, body_detail } => {
                HttpExchangeView::RemoteError {
                    status_line: status_line@,
                    body_detail: match body_detail {
                        Some(detail) => Some(detail@),
                        None => None,
                    },
                }
            },
            HttpExchangeResult::TransportError { stage, cause } => HttpExchangeView::TransportError {
                stage: *stage,
                cause: cause@,
            },
        }
    }
}

/// What a response means. Only its first line decides between success and a
/// remote error; a remote error carries that line and what follows the first
/// blank line. A response of no bytes is a failure of the transport.
pub open spec fn classified(response: Seq<u8>) -> HttpExchangeView {
    match first_line(response) {
        None => HttpExchangeView::TransportError {
            stage: TransportStage::EmptyResponse,
            cause: Seq::<char>::empty(),
        },
        Some(line) => if is_success_line(line) {
            HttpExchangeView::Success
        } else {
            HttpExchangeView::RemoteError { status_line: line, body_detail: body_detail(response) }
        },
    }
}

/// Tests `occurs_at` for an index at which the pattern has room.
fn matches_at(s: &[u8], pattern: &[u8], at: usize) -> (b: bool)
    requires
        at + pattern.len() <= s.len(),
    ensures
        b == occurs_at(s@, pattern@, at as int),
{
    let m: usize = pattern.len();
    let mut k: usize = 0;
    while k < m
        invariant
            k <= m,
            m == pattern.len(),
            at + m <= s.len(),
            forall|j: int| 0 <= j < k ==> s@[at + j] == pattern@[j],
        decreases m - k,
    {
        if s[at + k] != pattern[k] {
            return false;
        }
        k = k + 1;
    }
    assert(s@.subrange(at as int, at + m) =~= pattern@);
    true
}

/// The first index at which `pattern` stands in `s`.
pub fn find_bytes(s: &[u8], pattern: &[u8]) -> (r: Option<usize>)
    ensures
        match r {
            Some(i) => find(s@, pattern@) == Some(i as int),
            None => find(s@, pattern@) is None,
        },
{
    let n: usize = s.len();
    let m: usize = pattern.len();
    if m > n {
        return None;
    }
    let last: usize = n - m;
    let mut i: usize = 0;
    while i < last
        invariant
            i <= last,
            last == n - m,
            n == s.len(),
            m == pattern.len(),
            find(s@, pattern@) == find_from(s@, pattern@, i as int),
        decreases last - i,
    {
        if matches_at(s, pattern, i) {
            return Some(i);
        }
        i = i + 1;
    }
    if matches_at(s, pattern, last) {
        Some(last)
    } else {
        assert(find_from(s@, pattern@, last + 1) is None);
        None
    }
}

/// Reads a response.
pub fn classify_response(response: &[u8]) -> (r: HttpExchangeResult)
    ensures
        r@ == classified(response@),
{
    let n: usize = response.len();
    if n == 0 {
        return HttpExchangeResult::TransportError {
            stage: TransportStage::EmptyResponse,
            cause: String::new(),
        };
    }
    let line_feed: [u8; 1] = [0x0Au8];
    assert(line_feed@ =~= seq![0x0Au8]);
    let line: &[u8] = match find_bytes(response, line_feed.as_slice()) {
        Some(end) => {
            proof {
                lemma_find_from(response@, seq![0x0Au8], 0);
            }
            if end > 0 && response[end - 1] == 0x0D {
                slice_subrange(response, 0, end - 1)
            } else {
                slice_subrange(response, 0, end)
            }
        },
        None => response,
    };
    if find_bytes(line, " 204 ".as_bytes()).is_some() || find_bytes(
        line,
        " 200 ".as_bytes(),
    ).is_some() {
        return HttpExchangeResult::Success;
    }
    let blank_line: &[u8] = "\r\n\r\n".as_bytes();
    let detail: Option<Vec<u8>> = match find_bytes(response, blank_line) {
        Some(i) => {
            proof {
                lemma_find_from(response@, blank_line@, 0);
            }
            let rest: Vec<u8> = slice_to_vec(slice_subrange(response, i + blank_line.len(), n));
            Some(rest)
        },
        None => None,
    };
    HttpExchangeResult::RemoteError { status_line: slice_to_vec(line), body_detail: detail }
}

} // verus!
