//! What a server reads back from a serialized request: the request line,
//! the header lines in order, and the body.
use vstd::prelude::*;
use crate::bytes::{decimal, decimal_value, find_byte, find_crlf, is_crlf_at, is_digit, is_space, trim, trim_start};
use crate::response::parse_header_lines;
use crate::body::lemma_chunked_round_trip;
use crate::chunked::{run, ChunkState};
use crate::headers::{headers_view, Method};
use crate::request::{
    chunks_view, concat_chunks, crlf, effective_path, header_line, header_lines, opt_view, Request,
    RequestBody,
};

verus! {

pub open spec fn no_cr(s: Seq<u8>) -> bool {
    forall|i: int| 0 <= i < s.len() ==> s[i] != 13u8
}

/// A header that reads back as written: a non-empty name without `:`, and
/// neither name nor value holding a `\r` or starting or ending with a space or tab.
pub open spec fn valid_header(n: Seq<u8>, v: Seq<u8>) -> bool {
    &&& n.len() > 0
    &&& no_cr(n)
    &&& forall|i: int| 0 <= i < n.len() ==> n[i] != 58u8
    &&& !is_space(n[0]) && !is_space(n.last())
    &&& no_cr(v)
    &&& v.len() > 0 ==> !is_space(v[0]) && !is_space(v.last())
}

proof fn lemma_find_crlf_skip(s: Seq<u8>, from: int, to: int)
    requires
        0 <= from <= to,
        is_crlf_at(s, to),
        forall|j: int| from <= j < to ==> s[j] != 13u8,
    ensures
        find_crlf(s, from) == to,
    decreases to - from,
{
    if from < to {
        lemma_find_crlf_skip(s, from + 1, to);
    }
}

proof fn lemma_find_byte_skip(s: Seq<u8>, b: u8, from: int, to: int, end: int)
    requires
        0 <= from <= to < end <= s.len(),
        s[to] == b,
        forall|j: int| from <= j < to ==> s[j] != b,
    ensures
        find_byte(s, b, from, end) == to,
    decreases to - from,
{
    if from < to {
        lemma_find_byte_skip(s, b, from + 1, to, end);
    }
}

proof fn lemma_trim_plain(v: Seq<u8>)
    requires
        v.len() > 0 ==> !is_space(v[0]) && !is_space(v.last()),
    ensures
        trim(v) == v,
        trim(seq![32u8] + v) == v,
{
    assert((seq![32u8] + v).drop_first() =~= v);
    assert(trim_start(v) == v);
    assert(trim_start(seq![32u8] + v) == trim_start(v));
}

/// One header line at `pos` reads back as its name and value.
proof fn lemma_parse_one_line(s: Seq<u8>, pos: int, n: Seq<u8>, v: Seq<u8>)
    requires
        valid_header(n, v),
        0 <= pos,
        pos + header_line(n, v).len() <= s.len(),
        s.subrange(pos, pos + header_line(n, v).len()) == header_line(n, v),
    ensures
        find_crlf(s, pos) == pos + n.len() + 2 + v.len(),
        find_byte(s, 58u8, pos, pos + n.len() + 2 + v.len()) == pos + n.len(),
        trim(s.subrange(pos, pos + n.len())) == n,
        trim(s.subrange(pos + n.len() + 1, pos + n.len() + 2 + v.len())) == v,
{
    let l = header_line(n, v);
    let e = pos + n.len() + 2 + v.len();
    assert forall|j: int| 0 <= j < l.len() implies s[pos + j] == l[j] by {
        assert(s.subrange(pos, pos + l.len())[j] == s[pos + j]);
    }
    assert forall|j: int| pos <= j < e implies s[j] != 13u8 by {
        assert(s[j] == l[j - pos]);
        if j - pos < n.len() {
            assert(l[j - pos] == n[j - pos]);
        } else if j - pos < n.len() + 2 {
        } else {
            assert(l[j - pos] == v[j - pos - n.len() - 2]);
        }
    }
    assert(s[e] == l[e - pos] && s[e + 1] == l[e + 1 - pos]);
    lemma_find_crlf_skip(s, pos, e);
    assert forall|j: int| pos <= j < pos + n.len() implies s[j] != 58u8 by {
        assert(s[j] == l[j - pos]);
        assert(l[j - pos] == n[j - pos]);
    }
    assert(s[pos + n.len()] == l[n.len() as int]);
    lemma_find_byte_skip(s, 58u8, pos, pos + n.len(), e);
    assert(s.subrange(pos, pos + n.len()) =~= n);
    assert forall|j: int| 0 <= j < v.len() + 1 implies #[trigger] s.subrange(pos + n.len() + 1, e)[j]
        == (seq![32u8] + v)[j] by {
        assert(s.subrange(pos + n.len() + 1, e)[j] == s[pos + n.len() + 1 + j]);
        assert(s[pos + n.len() + 1 + j] == l[n.len() + 1 + j]);
        if j == 0 {
            assert(l[n.len() + 1int] == 32u8);
        } else {
            assert(l[n.len() + 1 + j] == v[j - 1]);
        }
    }
    assert(s.subrange(pos + n.len() + 1, e) =~= seq![32u8] + v);
    lemma_trim_plain(n);
    lemma_trim_plain(v);
}

pub proof fn lemma_header_lines_append(a: Seq<(Seq<u8>, Seq<u8>)>, b: Seq<(Seq<u8>, Seq<u8>)>)
    ensures
        header_lines(a + b) == header_lines(a) + header_lines(b),
    decreases b.len(),
{
    if b.len() == 0 {
        assert(a + b =~= a);
        assert(header_lines(a) + Seq::<u8>::empty() =~= header_lines(a));
    } else {
        assert((a + b).drop_last() =~= a + b.drop_last());
        assert((a + b).last() == b.last());
        lemma_header_lines_append(a, b.drop_last());
        assert(header_lines(a) + header_lines(b.drop_last()) + header_line(b.last().0, b.last().1)
            =~= header_lines(a) + (header_lines(b.drop_last()) + header_line(b.last().0, b.last().1)));
    }
}

proof fn lemma_header_lines_single(h: (Seq<u8>, Seq<u8>))
    ensures
        header_lines(seq![h]) == header_line(h.0, h.1),
{
    assert(seq![h].drop_last() =~= Seq::<(Seq<u8>, Seq<u8>)>::empty());
    assert(seq![h].last() == h);
    assert(header_lines(Seq::<(Seq<u8>, Seq<u8>)>::empty()) == Seq::<u8>::empty());
    assert(Seq::<u8>::empty() + header_line(h.0, h.1) =~= header_line(h.0, h.1));
}

/// Header lines followed by the blank line read back as the same headers, in order.
pub proof fn lemma_parse_header_lines(s: Seq<u8>, pos: int, hs: Seq<(Seq<u8>, Seq<u8>)>)
    requires
        forall|i: int| 0 <= i < hs.len() ==> valid_header(#[trigger] hs[i].0, hs[i].1),
        0 <= pos,
        pos + header_lines(hs).len() + 2 <= s.len(),
        s.subrange(pos, pos + header_lines(hs).len() + 2) == header_lines(hs) + crlf(),
    ensures
        parse_header_lines(s, pos) == Some((hs, pos + header_lines(hs).len() + 2)),
    decreases hs.len(),
{
    let block = header_lines(hs) + crlf();
    if hs.len() == 0 {
        assert(s[pos] == s.subrange(pos, pos + 2)[0]);
        assert(s[pos + 1] == s.subrange(pos, pos + 2)[1]);
        lemma_find_crlf_skip(s, pos, pos);
        assert(hs =~= Seq::<(Seq<u8>, Seq<u8>)>::empty());
    } else {
        let h = hs[0];
        let tail = hs.drop_first();
        assert(hs =~= seq![h] + tail);
        lemma_header_lines_append(seq![h], tail);
        lemma_header_lines_single(h);
        let l = header_line(h.0, h.1);
        assert(header_lines(hs) == l + header_lines(tail));
        assert(s.subrange(pos, pos + l.len()) =~= s.subrange(pos, pos + block.len()).subrange(0, l.len() as int));
        assert(block.subrange(0, l.len() as int) =~= l);
        lemma_parse_one_line(s, pos, h.0, h.1);
        let next = pos + l.len();
        assert(next == pos + h.0.len() + 2 + h.1.len() + 2);
        assert forall|i: int| 0 <= i < tail.len() implies valid_header(#[trigger] tail[i].0, tail[i].1) by {
            assert(tail[i] == hs[i + 1]);
        }
        assert(s.subrange(next, next + header_lines(tail).len() + 2) =~= s.subrange(pos, pos + block.len()).subrange(l.len() as int, block.len() as int));
        assert(block.subrange(l.len() as int, block.len() as int) =~= header_lines(tail) + crlf());
        lemma_parse_header_lines(s, next, tail);
        assert(seq![(trim(s.subrange(pos, pos + h.0.len())), trim(s.subrange(pos + h.0.len() + 1, pos + h.0.len() + 2 + h.1.len())))] + tail =~= hs);
    }
}

/// The decimal numeral of `n` is a run of digits that reads back as `n`.
pub proof fn lemma_decimal_round_trip(n: nat)
    ensures
        decimal(n).len() > 0,
        forall|i: int| 0 <= i < decimal(n).len() ==> is_digit(#[trigger] decimal(n)[i]),
        decimal_value(decimal(n)) == n,
    decreases n,
{
    if n >= 10 {
        lemma_decimal_round_trip(n / 10);
        assert(decimal(n).drop_last() =~= decimal(n / 10));
        assert(decimal(n).last() == (48 + n % 10) as u8);
        assert((n / 10) * 10 + n % 10 == n);
        assert forall|i: int| 0 <= i < decimal(n).len() implies is_digit(#[trigger] decimal(n)[i]) by {
            if i < decimal(n).len() - 1 {
                assert(decimal(n)[i] == decimal(n / 10)[i]);
            }
        }
    } else {
        assert(decimal(n).drop_last() =~= Seq::<u8>::empty());
        assert(decimal(n).last() == (48 + n) as u8);
        assert(decimal_value(Seq::<u8>::empty()) == 0);
    }
}

pub open spec fn no_space(s: Seq<u8>) -> bool {
    forall|i: int| 0 <= i < s.len() ==> s[i] != 32u8
}

pub open spec fn host_name() -> Seq<u8> {
    seq![72u8, 111u8, 115u8, 116u8]
}

pub open spec fn content_length_field() -> Seq<u8> {
    seq![67u8, 111u8, 110u8, 116u8, 101u8, 110u8, 116u8, 45u8, 76u8, 101u8, 110u8, 103u8, 116u8, 104u8]
}

pub open spec fn transfer_encoding_field() -> Seq<u8> {
    seq![84u8, 114u8, 97u8, 110u8, 115u8, 102u8, 101u8, 114u8, 45u8, 69u8, 110u8, 99u8, 111u8, 100u8, 105u8, 110u8, 103u8]
}

pub open spec fn chunked_value() -> Seq<u8> {
    seq![99u8, 104u8, 117u8, 110u8, 107u8, 101u8, 100u8]
}

pub open spec fn http_version() -> Seq<u8> {
    seq![32u8, 72u8, 84u8, 84u8, 80u8, 47u8, 49u8, 46u8, 49u8]
}

/// The headers a request puts on the wire, in order: `Host`, the extra
/// headers, then the one that frames the body.
pub open spec fn sent_headers(r: Request) -> Seq<(Seq<u8>, Seq<u8>)> {
    (match r.host {
        Some(h) => seq![(host_name(), h@)],
        None => Seq::empty(),
    }) + headers_view(r.headers@) + (match r.body {
        RequestBody::Empty => Seq::empty(),
        RequestBody::Fixed(b) => seq![(content_length_field(), decimal(b@.len()))],
        RequestBody::Chunked(_) => seq![(transfer_encoding_field(), chunked_value())],
    })
}

/// What a server reads from the bytes `w` of a request: the method token,
/// the target, the header lines in order, and the bytes after the head.
pub open spec fn read_request(w: Seq<u8>) -> Option<(Seq<u8>, Seq<u8>, Seq<(Seq<u8>, Seq<u8>)>, Seq<u8>)> {
    let e = find_crlf(w, 0);
    let sp = find_byte(w, 32u8, 0, e);
    if e < 0 || sp < 0 || sp + 10 > e || w.subrange(e - 9, e) != http_version() {
        None
    } else {
        match parse_header_lines(w, e + 2) {
            None => None,
            Some((hs, end)) => Some((w.subrange(0, sp), w.subrange(sp + 1, e - 9), hs, w.subrange(end, w.len() as int))),
        }
    }
}

proof fn lemma_method_token(m: Method)
    ensures
        m.spec_token().len() > 0,
        no_cr(m.spec_token()),
        no_space(m.spec_token()),
{
}

proof fn lemma_sent_header_lines(r: Request)
    requires
        r.content_type is None,
        r.basic_auth is None,
    ensures
        header_lines(sent_headers(r)) == r.spec_host_line() + header_lines(headers_view(r.headers@))
            + r.spec_content_type_line() + r.spec_auth_line() + r.spec_framing_line(),
{
    let a: Seq<(Seq<u8>, Seq<u8>)> = match r.host {
        Some(h) => seq![(host_name(), h@)],
        None => Seq::empty(),
    };
    let c: Seq<(Seq<u8>, Seq<u8>)> = match r.body {
        RequestBody::Empty => Seq::empty(),
        RequestBody::Fixed(b) => seq![(content_length_field(), decimal(b@.len()))],
        RequestBody::Chunked(_) => seq![(transfer_encoding_field(), chunked_value())],
    };
    let hv = headers_view(r.headers@);
    lemma_header_lines_append(a + hv, c);
    lemma_header_lines_append(a, hv);
    match r.host {
        Some(h) => {
            lemma_header_lines_single((host_name(), h@));
            assert(header_lines(a) =~= r.spec_host_line());
        },
        None => {
            assert(header_lines(a) =~= r.spec_host_line());
        },
    }
    match r.body {
        RequestBody::Empty => {
            assert(header_lines(c) =~= r.spec_framing_line());
        },
        RequestBody::Fixed(b) => {
            lemma_header_lines_single((content_length_field(), decimal(b@.len())));
            assert(header_lines(c) =~= r.spec_framing_line());
        },
        RequestBody::Chunked(_) => {
            lemma_header_lines_single((transfer_encoding_field(), chunked_value()));
            assert(header_lines(c) =~= r.spec_framing_line());
        },
    }
    assert(r.spec_content_type_line() =~= Seq::<u8>::empty());
    assert(r.spec_auth_line() =~= Seq::<u8>::empty());
    assert(header_lines(sent_headers(r)) =~= r.spec_host_line() + header_lines(hv)
        + r.spec_content_type_line() + r.spec_auth_line() + r.spec_framing_line());
}

/// The request line reads back as the method token and the target.
proof fn lemma_request_line_reads_back(w: Seq<u8>, m: Seq<u8>, p: Seq<u8>, rest: Seq<u8>)
    requires
        no_cr(m),
        no_space(m),
        no_cr(p),
        w == m + seq![32u8] + p + http_version() + crlf() + rest,
    ensures
        find_crlf(w, 0) == m.len() + 1 + p.len() + 9,
        find_byte(w, 32u8, 0, (m.len() + 1 + p.len() + 9) as int) == m.len(),
        w.subrange((m.len() + 1 + p.len()) as int, (m.len() + 1 + p.len() + 9) as int) == http_version(),
        w.subrange(0, m.len() as int) == m,
        w.subrange(m.len() + 1int, (m.len() + 1 + p.len()) as int) == p,
        w.subrange((m.len() + 1 + p.len() + 11) as int, w.len() as int) == rest,
{
    let rl = m + seq![32u8] + p + http_version() + crlf();
    let e: int = (m.len() + 1 + p.len() + 9) as int;
    assert forall|j: int| 0 <= j < e implies w[j] != 13u8 by {
        assert(w[j] == rl[j]);
        if j < m.len() {
            assert(rl[j] == m[j]);
        } else if j == m.len() {
        } else if j < m.len() + 1 + p.len() {
            assert(rl[j] == p[j - m.len() - 1]);
        } else {
            assert(rl[j] == http_version()[j - m.len() - 1 - p.len()]);
        }
    }
    assert(w[e] == rl[e] && w[e + 1] == rl[e + 1]);
    lemma_find_crlf_skip(w, 0, e);
    assert forall|j: int| 0 <= j < m.len() implies w[j] != 32u8 by {
        assert(w[j] == rl[j]);
        assert(rl[j] == m[j]);
    }
    assert(w[m.len() as int] == rl[m.len() as int]);
    lemma_find_byte_skip(w, 32u8, 0, m.len() as int, e);
    assert(w.subrange(e - 9, e) =~= http_version());
    assert(w.subrange(0, m.len() as int) =~= m);
    assert(w.subrange(m.len() + 1int, e - 9) =~= p);
    assert(w.subrange(e + 2, w.len() as int) =~= rest);
}

/// A serialized request reads back, on the server's side, as the method,
/// the target path, the headers in order and the body it was built from:
/// a body of known length under a `Content-Length` that reads back as its
/// length, a chunked body as bytes that decode to its fragments joined.
/// The request carries no content type or credentials, its target no space
/// or `\r`, and its headers read back as written.
#[verifier::rlimit(40)]
pub proof fn lemma_request_round_trip(r: Request)
    requires
        r.content_type is None,
        r.basic_auth is None,
        no_cr(effective_path(opt_view(r.base_path), r.path@)),
        no_space(effective_path(opt_view(r.base_path), r.path@)),
        forall|i: int| 0 <= i < sent_headers(r).len() ==> valid_header(#[trigger] sent_headers(r)[i].0, sent_headers(r)[i].1),
        r.body matches RequestBody::Chunked(cs) ==> forall|i: int| 0 <= i < cs@.len() ==> (#[trigger] cs@[i])@.len() <= usize::MAX,
    ensures
        read_request(r.spec_wire()) == Some(
            (
                r.method.spec_token(),
                effective_path(opt_view(r.base_path), r.path@),
                sent_headers(r),
                r.spec_body(),
            ),
        ),
        match r.body {
            RequestBody::Fixed(b) => decimal_value(decimal(b@.len())) == b@.len(),
            RequestBody::Chunked(cs) => run(ChunkState::Size { value: 0, any: false }, r.spec_body())
                == Some((ChunkState::Done, concat_chunks(chunks_view(cs@)))),
            RequestBody::Empty => r.spec_body().len() == 0,
        },
{
    let w = r.spec_wire();
    let m = r.method.spec_token();
    let p = effective_path(opt_view(r.base_path), r.path@);
    let hl = header_lines(sent_headers(r));
    let rest = hl + crlf() + r.spec_body();
    lemma_method_token(r.method);
    lemma_sent_header_lines(r);
    assert(w =~= m + seq![32u8] + p + http_version() + crlf() + rest);
    lemma_request_line_reads_back(w, m, p, rest);
    let e: int = (m.len() + 1 + p.len() + 9) as int;
    let hn: int = hl.len() as int;
    assert(w.subrange(e + 2, e + 2 + hn + 2) =~= rest.subrange(0, hn + 2));
    assert(rest.subrange(0, hn + 2) =~= hl + crlf());
    lemma_parse_header_lines(w, e + 2, sent_headers(r));
    assert(w.subrange(e + 2 + hn + 2, w.len() as int) =~= rest.subrange(hn + 2, rest.len() as int));
    assert(rest.subrange(hn + 2, rest.len() as int) =~= r.spec_body());
    match r.body {
        RequestBody::Fixed(b) => {
            lemma_decimal_round_trip(b@.len());
        },
        RequestBody::Chunked(cs) => {
            let cv = chunks_view(cs@);
            assert forall|i: int| 0 <= i < cv.len() implies (#[trigger] cv[i]).len() <= usize::MAX by {
                assert(cv[i] == cs@[i]@);
            }
            lemma_chunked_round_trip(cv);
        },
        RequestBody::Empty => {},
    }
}

} // verus!
