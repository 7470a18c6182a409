//! Reading a response head out of the receive buffer: the status line, the
//! header lines, and the framing rule of the body that follows.
use vstd::prelude::*;
use crate::bytes::{
    contains_ignore_case, contains_ignore_case_exec, copy_range, decimal_value,
    eq_ignore_case, eq_ignore_case_exec, find_byte, find_byte_exec, find_crlf, find_crlf_exec,
    is_crlf_at, is_digit, lemma_find_byte_bounds, lemma_find_crlf_bounds, parse_decimal, trim,
    trim_range,
};
use crate::error::Error;
use crate::headers::{headers_view, Header, Method};

verus! {

/// How the end of a response body is found.
#[derive(Clone, Copy, Debug, PartialEq, Eq, Structural)]
pub enum BodyFraming {
    /// Exactly this many bytes follow the head.
    Fixed(usize),
    /// The body uses the chunked transfer coding.
    Chunked,
    /// The body runs until the transport ends.
    ToClose,
}

/// Where the reading of a response head stands.
#[derive(Clone, Copy, Debug, PartialEq, Eq, Structural)]
pub enum HeadProgress {
    /// The head is not complete and the buffer has room for more bytes.
    NeedMore,
    /// The head is complete and takes this many bytes at the start of the buffer.
    Complete(usize),
    /// The buffer is full and holds no complete head.
    BufferTooSmall,
}

pub open spec fn is_head_end_at(s: Seq<u8>, i: int) -> bool {
    is_crlf_at(s, i) && is_crlf_at(s, i + 2)
}

/// The first index at or after `from` where the blank line `\r\n\r\n` that
/// closes a head starts, or -1.
pub open spec fn find_head_end(s: Seq<u8>, from: int) -> int
    decreases s.len() - from,
{
    if from < 0 || from + 3 >= s.len() {
        -1
    } else if is_head_end_at(s, from) {
        from
    } else {
        find_head_end(s, from + 1)
    }
}

/// The length of the head at the start of `s`, or -1 when `s` holds no complete head.
pub open spec fn head_len(s: Seq<u8>) -> int {
    if find_head_end(s, 0) == -1 {
        -1
    } else {
        find_head_end(s, 0) + 4
    }
}

pub open spec fn spec_head_progress(filled: Seq<u8>, capacity: nat) -> HeadProgress {
    if head_len(filled) != -1 {
        HeadProgress::Complete(head_len(filled) as usize)
    } else if filled.len() >= capacity {
        HeadProgress::BufferTooSmall
    } else {
        HeadProgress::NeedMore
    }
}

/// Judges the first `filled` bytes of `rx_buf`: a complete head, room for
/// more bytes, or a full buffer with no complete head.
pub fn head_progress(rx_buf: &[u8], filled: usize) -> (r: HeadProgress)
    requires
        filled <= rx_buf.len(),
    ensures
        r == spec_head_progress(rx_buf@.subrange(0, filled as int), rx_buf@.len()),
{
    let ghost s = rx_buf@.subrange(0, filled as int);
    let mut i: usize = 0;
    while i < filled && filled - i > 3
        invariant
            filled <= rx_buf.len(),
            s == rx_buf@.subrange(0, filled as int),
            find_head_end(s, 0) == find_head_end(s, i as int),
        decreases filled - i,
    {
        if rx_buf[i] == 13u8 && rx_buf[i + 1] == 10u8 && rx_buf[i + 2] == 13u8 && rx_buf[i + 3]
            == 10u8 {
            return HeadProgress::Complete(i + 4);
        }
        i = i + 1;
    }
    if filled >= rx_buf.len() {
        HeadProgress::BufferTooSmall
    } else {
        HeadProgress::NeedMore
    }
}

pub open spec fn http_prefix() -> Seq<u8> {
    seq![72u8, 84u8, 84u8, 80u8, 47u8]
}

/// The status code of the status line `s[0..e]`: `HTTP/<version> <3 digits>`,
/// then the end of the line or a space and a reason phrase.
pub open spec fn status_of(s: Seq<u8>, e: int) -> Option<u16> {
    let sp = find_byte(s, 32u8, 0, e);
    if 5 <= e <= s.len() && s.subrange(0, 5) == http_prefix() && sp >= 5 && sp + 4 <= e
        && is_digit(s[sp + 1]) && is_digit(s[sp + 2]) && is_digit(s[sp + 3]) && (sp + 4 == e
        || s[sp + 4] == 32u8) {
        Some(
            ((s[sp + 1] - 48) as int * 100 + (s[sp + 2] - 48) as int * 10 + (s[sp + 3]
                - 48) as int) as u16,
        )
    } else {
        None
    }
}

fn parse_status(s: &[u8], e: usize) -> (r: Option<u16>)
    requires
        e <= s.len(),
    ensures
        r == status_of(s@, e as int),
{
    if e < 5 || s[0] != 72u8 || s[1] != 84u8 || s[2] != 84u8 || s[3] != 80u8 || s[4] != 47u8 {
        assert(e < 5 || s@.subrange(0, 5) != http_prefix()) by {
            if e >= 5 && s@.subrange(0, 5) == http_prefix() {
                assert(s@.subrange(0, 5)[0] == s@[0]);
                assert(s@.subrange(0, 5)[1] == s@[1]);
                assert(s@.subrange(0, 5)[2] == s@[2]);
                assert(s@.subrange(0, 5)[3] == s@[3]);
                assert(s@.subrange(0, 5)[4] == s@[4]);
            }
        }
        return None;
    }
    assert(s@.subrange(0, 5) =~= http_prefix());
    proof {
        lemma_find_byte_bounds(s@, 32u8, 0, e as int);
    }
    match find_byte_exec(s, 32u8, 0, e) {
        None => None,
        Some(sp) => {
            if sp < 5 || sp > e - 4 {
                return None;
            }
            let d1 = s[sp + 1];
            let d2 = s[sp + 2];
            let d3 = s[sp + 3];
            if !(48u8 <= d1 && d1 <= 57u8 && 48u8 <= d2 && d2 <= 57u8 && 48u8 <= d3 && d3 <= 57u8) {
                return None;
            }
            if sp + 4 != e && s[sp + 4] != 32u8 {
                return None;
            }
            Some(((d1 - 48) as u16) * 100 + ((d2 - 48) as u16) * 10 + ((d3 - 48) as u16))
        },
    }
}

/// The header lines from `pos` on, up to and including the blank line that
/// ends them, and the index just past that blank line; `None` when a line
/// has no `:` or the blank line is missing.
pub open spec fn parse_header_lines(s: Seq<u8>, pos: int) -> Option<
    (Seq<(Seq<u8>, Seq<u8>)>, int),
>
    decreases s.len() - pos,
{
    let e = find_crlf(s, pos);
    if pos < 0 || e < pos || e + 2 > s.len() {
        None
    } else if e == pos {
        Some((seq![], pos + 2))
    } else {
        let c = find_byte(s, 58u8, pos, e);
        if c < pos || c >= e {
            None
        } else {
            match parse_header_lines(s, e + 2) {
                None => None,
                Some((rest, end)) => Some(
                    (seq![(trim(s.subrange(pos, c)), trim(s.subrange(c + 1, e)))] + rest, end),
                ),
            }
        }
    }
}

pub open spec fn transfer_encoding_name() -> Seq<u8> {
    seq![116u8, 114u8, 97u8, 110u8, 115u8, 102u8, 101u8, 114u8, 45u8, 101u8, 110u8, 99u8, 111u8, 100u8, 105u8, 110u8, 103u8]
}

pub open spec fn content_length_name() -> Seq<u8> {
    seq![99u8, 111u8, 110u8, 116u8, 101u8, 110u8, 116u8, 45u8, 108u8, 101u8, 110u8, 103u8, 116u8, 104u8]
}

pub open spec fn chunked_token() -> Seq<u8> {
    seq![99u8, 104u8, 117u8, 110u8, 107u8, 101u8, 100u8]
}

/// Whether some `Transfer-Encoding` header names the chunked coding.
pub open spec fn any_chunked(hs: Seq<(Seq<u8>, Seq<u8>)>) -> bool
    decreases hs.len(),
{
    hs.len() > 0 && (any_chunked(hs.drop_last()) || (eq_ignore_case(
        hs.last().0,
        transfer_encoding_name(),
    ) && contains_ignore_case(hs.last().1, chunked_token())))
}

/// The index of the first `Content-Length` header at or after `i`, or -1.
pub open spec fn first_content_length(hs: Seq<(Seq<u8>, Seq<u8>)>, i: int) -> int
    decreases hs.len() - i,
{
    if i < 0 || i >= hs.len() {
        -1
    } else if eq_ignore_case(hs[i].0, content_length_name()) {
        i
    } else {
        first_content_length(hs, i + 1)
    }
}

/// A header value that is a non-empty run of decimal digits whose value fits in `usize`.
pub open spec fn is_length_value(v: Seq<u8>) -> bool {
    v.len() > 0 && (forall|i: int| 0 <= i < v.len() ==> is_digit(#[trigger] v[i]))
        && decimal_value(v) <= usize::MAX
}

/// Responses that carry no body whatever their headers say.
pub open spec fn is_bodiless(method: Method, status: u16) -> bool {
    method == Method::HEAD || (100 <= status < 200) || status == 204 || status == 304
}

/// The framing of the body of a response with this status and these headers,
/// to a request with this method.
pub open spec fn framing_of(method: Method, status: u16, hs: Seq<(Seq<u8>, Seq<u8>)>) -> BodyFraming {
    if is_bodiless(method, status) {
        BodyFraming::Fixed(0)
    } else if any_chunked(hs) {
        BodyFraming::Chunked
    } else {
        let i = first_content_length(hs, 0);
        if i != -1 && is_length_value(hs[i].1) {
            BodyFraming::Fixed(decimal_value(hs[i].1) as usize)
        } else {
            BodyFraming::ToClose
        }
    }
}

/// A parsed response head: what `parse_head` hands back, as plain values.
pub struct HeadModel {
    pub status: u16,
    pub headers: Seq<(Seq<u8>, Seq<u8>)>,
    pub framing: BodyFraming,
    pub head_len: int,
}

/// The head at the start of `s`, read in answer to a request with `method`.
pub open spec fn spec_parse_head(s: Seq<u8>, method: Method) -> Result<HeadModel, Error> {
    let e = find_crlf(s, 0);
    if e == -1 {
        Err(Error::MalformedStatus)
    } else {
        match status_of(s, e) {
            None => Err(Error::MalformedStatus),
            Some(status) => match parse_header_lines(s, e + 2) {
                None => Err(Error::MalformedHeader),
                Some((hs, end)) => Ok(
                    HeadModel {
                        status,
                        headers: hs,
                        framing: framing_of(method, status, hs),
                        head_len: end,
                    },
                ),
            },
        }
    }
}

/// The status, the headers and the body framing of a response.
#[derive(Debug)]
pub struct ResponseHead {
    pub status: u16,
    pub headers: Vec<Header>,
    pub framing: BodyFraming,
    /// How many bytes of the receive buffer the head takes; the body starts there.
    pub head_len: usize,
}

impl ResponseHead {
    pub open spec fn model(&self) -> HeadModel {
        HeadModel {
            status: self.status,
            headers: headers_view(self.headers@),
            framing: self.framing,
            head_len: self.head_len as int,
        }
    }

    /// The value of the first header named `name`, ignoring ASCII case.
    pub fn header(&self, name: &[u8]) -> (r: Option<&Vec<u8>>)
        ensures
            match r {
                Some(v) => exists|i: int|
                    0 <= i < self.headers@.len() && eq_ignore_case(self.headers@[i].name@, name@)
                        && v@ == self.headers@[i].value@ && forall|j: int|
                        0 <= j < i ==> !eq_ignore_case(self.headers@[j].name@, name@),
                None => forall|i: int|
                    0 <= i < self.headers@.len() ==> !eq_ignore_case(
                        self.headers@[i].name@,
                        name@,
                    ),
            },
    {
        let mut i: usize = 0;
        while i < self.headers.len()
            invariant
                i <= self.headers@.len(),
                forall|j: int| 0 <= j < i ==> !eq_ignore_case(self.headers@[j].name@, name@),
            decreases self.headers@.len() - i,
        {
            if eq_ignore_case_exec(self.headers[i].name.as_slice(), name) {
                return Some(&self.headers[i].value);
            }
            i = i + 1;
        }
        None
    }
}

fn transfer_encoding_name_exec() -> (r: Vec<u8>)
    ensures
        r@ == transfer_encoding_name(),
{
    let r = vec![116u8, 114u8, 97u8, 110u8, 115u8, 102u8, 101u8, 114u8, 45u8, 101u8, 110u8, 99u8, 111u8, 100u8, 105u8, 110u8, 103u8];
    assert(r@ =~= transfer_encoding_name());
    r
}

fn content_length_name_exec() -> (r: Vec<u8>)
    ensures
        r@ == content_length_name(),
{
    let r = vec![99u8, 111u8, 110u8, 116u8, 101u8, 110u8, 116u8, 45u8, 108u8, 101u8, 110u8, 103u8, 116u8, 104u8];
    assert(r@ =~= content_length_name());
    r
}

fn chunked_token_exec() -> (r: Vec<u8>)
    ensures
        r@ == chunked_token(),
{
    let r = vec![99u8, 104u8, 117u8, 110u8, 107u8, 101u8, 100u8];
    assert(r@ =~= chunked_token());
    r
}

/// Decides how the body of a response is framed.
pub fn body_framing(method: Method, status: u16, headers: &Vec<Header>) -> (r: BodyFraming)
    ensures
        r == framing_of(method, status, headers_view(headers@)),
{
    let ghost hv = headers_view(headers@);
    if method == Method::HEAD || (100 <= status && status < 200) || status == 204 || status == 304 {
        return BodyFraming::Fixed(0);
    }
    let te = transfer_encoding_name_exec();
    let ch = chunked_token_exec();
    let mut chunked = false;
    let mut i: usize = 0;
    while i < headers.len()
        invariant
            i <= headers@.len(),
            hv == headers_view(headers@),
            te@ == transfer_encoding_name(),
            ch@ == chunked_token(),
            chunked == any_chunked(hv.subrange(0, i as int)),
        decreases headers@.len() - i,
    {
        let h = &headers[i];
        let this = eq_ignore_case_exec(h.name.as_slice(), te.as_slice())
            && contains_ignore_case_exec(h.value.as_slice(), ch.as_slice());
        assert(hv.subrange(0, i + 1).drop_last() =~= hv.subrange(0, i as int));
        assert(hv.subrange(0, i + 1).last() == hv[i as int]);
        chunked = chunked || this;
        i = i + 1;
    }
    assert(hv.subrange(0, headers@.len() as int) =~= hv);
    if chunked {
        return BodyFraming::Chunked;
    }
    let cl = content_length_name_exec();
    let mut j: usize = 0;
    while j < headers.len()
        invariant
            j <= headers@.len(),
            hv == headers_view(headers@),
            cl@ == content_length_name(),
            !is_bodiless(method, status),
            !any_chunked(hv),
            first_content_length(hv, 0) == first_content_length(hv, j as int),
        decreases headers@.len() - j,
    {
        assert(hv[j as int] == headers@[j as int]@);
        if eq_ignore_case_exec(headers[j].name.as_slice(), cl.as_slice()) {
            let v = headers[j].value.as_slice();
            assert(first_content_length(hv, 0) == j);
            return match parse_decimal(v, 0, v.len()) {
                Some(n) => {
                    assert(v@.subrange(0, v@.len() as int) =~= v@);
                    BodyFraming::Fixed(n)
                },
                None => {
                    assert(v@.subrange(0, v@.len() as int) =~= v@);
                    BodyFraming::ToClose
                },
            };
        }
        j = j + 1;
    }
    BodyFraming::ToClose
}

/// Parses the response head at the start of `s`, received in answer to a
/// request with `method`.
pub fn parse_head(s: &[u8], method: Method) -> (r: Result<ResponseHead, Error>)
    ensures
        match (r, spec_parse_head(s@, method)) {
            (Ok(h), Ok(m)) => h.model() == m,
            (Err(e1), Err(e2)) => e1 == e2,
            _ => false,
        },
{
    proof {
        lemma_find_crlf_bounds(s@, 0);
    }
    let e = match find_crlf_exec(s, 0) {
        None => return Err(Error::MalformedStatus),
        Some(e) => e,
    };
    let status = match parse_status(s, e) {
        None => return Err(Error::MalformedStatus),
        Some(c) => c,
    };
    let mut headers: Vec<Header> = Vec::new();
    let mut pos: usize = e + 2;
    let ghost start = pos as int;
    loop
        invariant
            pos <= s.len(),
            find_crlf(s@, 0) != -1,
            start == find_crlf(s@, 0) + 2,
            status_of(s@, find_crlf(s@, 0)) == Some(status),
            parse_header_lines(s@, start) == match parse_header_lines(s@, pos as int) {
                None => None,
                Some((rest, end)) => Some((headers_view(headers@) + rest, end)),
            },
        decreases s.len() - pos,
    {
        proof {
            lemma_find_crlf_bounds(s@, pos as int);
        }
        let le = match find_crlf_exec(s, pos) {
            None => {
                assert(parse_header_lines(s@, pos as int) is None);
                return Err(Error::MalformedHeader);
            },
            Some(le) => le,
        };
        if le == pos {
            assert(headers_view(headers@) + seq![] =~= headers_view(headers@));
            let framing = body_framing(method, status, &headers);
            let head = ResponseHead { status, headers, framing, head_len: pos + 2 };
            assert(head.model().headers == headers_view(head.headers@));
            return Ok(head);
        }
        proof {
            lemma_find_byte_bounds(s@, 58u8, pos as int, le as int);
        }
        let c = match find_byte_exec(s, 58u8, pos, le) {
            None => return Err(Error::MalformedHeader),
            Some(c) => c,
        };
        let (nlo, nhi) = trim_range(s, pos, c);
        let (vlo, vhi) = trim_range(s, c + 1, le);
        let h = Header { name: copy_range(s, nlo, nhi), value: copy_range(s, vlo, vhi) };
        let ghost old_hv = headers_view(headers@);
        headers.push(h);
        proof {
            assert(headers_view(headers@) =~= old_hv.push(h@));
            match parse_header_lines(s@, le + 2) {
                None => {},
                Some((rest, end)) => {
                    assert(old_hv + (seq![h@] + rest) =~= headers_view(headers@) + rest);
                },
            }
        }
        pos = le + 2;
    }
}

proof fn lemma_find_head_end_prefix(s: Seq<u8>, k: int, from: int)
    requires
        0 <= from,
        0 <= k <= s.len(),
    ensures
        find_head_end(s.subrange(0, k), from) == if find_head_end(s, from) != -1 && find_head_end(
            s,
            from,
        ) + 4 <= k {
            find_head_end(s, from)
        } else {
            -1
        },
    decreases s.len() - from,
{
    let p = s.subrange(0, k);
    if from + 3 >= s.len() {
    } else if from + 3 >= k {
        if is_head_end_at(s, from) {
        } else {
            lemma_find_head_end_prefix(s, k, from + 1);
            lemma_find_head_end_ge(s, from + 1);
        }
    } else {
        assert(p[from] == s[from] && p[from + 1] == s[from + 1] && p[from + 2] == s[from + 2]
            && p[from + 3] == s[from + 3]);
        if !is_head_end_at(s, from) {
            lemma_find_head_end_prefix(s, k, from + 1);
        }
    }
}

proof fn lemma_find_head_end_ge(s: Seq<u8>, from: int)
    requires
        0 <= from,
    ensures
        find_head_end(s, from) == -1 || find_head_end(s, from) >= from,
    decreases s.len() - from,
{
    if from + 3 < s.len() && !is_head_end_at(s, from) {
        lemma_find_head_end_ge(s, from + 1);
    }
}

/// When the receive buffer holds the first `capacity` bytes of what the
/// server sent, a head that fits (one that exactly fills the buffer
/// included) is complete, and a longer head (one byte beyond the buffer
/// included) fails as too large for the buffer.
pub proof fn lemma_head_fits_buffer(stream: Seq<u8>, capacity: nat)
    requires
        capacity <= stream.len(),
    ensures
        head_len(stream) != -1 && head_len(stream) <= capacity ==> spec_head_progress(
            stream.subrange(0, capacity as int),
            capacity,
        ) == HeadProgress::Complete(head_len(stream) as usize),
        (head_len(stream) == -1 || head_len(stream) > capacity) ==> spec_head_progress(
            stream.subrange(0, capacity as int),
            capacity,
        ) == HeadProgress::BufferTooSmall,
        head_len(stream) == capacity ==> spec_head_progress(
            stream.subrange(0, capacity as int),
            capacity,
        ) == HeadProgress::Complete(capacity as usize),
        head_len(stream) == capacity + 1 ==> spec_head_progress(
            stream.subrange(0, capacity as int),
            capacity,
        ) == HeadProgress::BufferTooSmall,
{
    lemma_find_head_end_prefix(stream, capacity as int, 0);
}

/// One step of reading a response head into `rx_buf`, of which `filled`
/// bytes have arrived: the parsed head once it is complete, `None` while
/// more bytes are needed and fit, `BufferTooSmall` when they do not.
pub fn read_head_step(rx_buf: &[u8], filled: usize, method: Method) -> (r: Result<Option<ResponseHead>, Error>)
    requires
        filled <= rx_buf.len(),
    ensures
        match spec_head_progress(rx_buf@.subrange(0, filled as int), rx_buf@.len()) {
            HeadProgress::NeedMore => r == Ok::<Option<ResponseHead>, Error>(None),
            HeadProgress::BufferTooSmall => r == Err::<Option<ResponseHead>, Error>(Error::BufferTooSmall),
            HeadProgress::Complete(n) => match (r, spec_parse_head(rx_buf@.subrange(0, n as int), method)) {
                (Ok(Some(h)), Ok(m)) => h.model() == m,
                (Err(e1), Err(e2)) => e1 == e2,
                _ => false,
            },
        },
{
    match head_progress(rx_buf, filled) {
        HeadProgress::NeedMore => Ok(None),
        HeadProgress::BufferTooSmall => Err(Error::BufferTooSmall),
        HeadProgress::Complete(n) => {
            proof {
                let s = rx_buf@.subrange(0, filled as int);
                lemma_find_head_end_bound(s, 0);
                lemma_find_head_end_ge(s, 0);
                assert(head_len(s) <= filled);
                assert(n as int == head_len(s));
            }
            let head = copy_range(rx_buf, 0, n);
            match parse_head(head.as_slice(), method) {
                Ok(h) => Ok(Some(h)),
                Err(e) => Err(e),
            }
        },
    }
}

proof fn lemma_find_head_end_bound(s: Seq<u8>, from: int)
    requires
        0 <= from,
    ensures
        find_head_end(s, from) == -1 || find_head_end(s, from) + 4 <= s.len(),
    decreases s.len() - from,
{
    if from + 3 < s.len() && !is_head_end_at(s, from) {
        lemma_find_head_end_bound(s, from + 1);
    }
}

} // verus!
