//! The body reader: how many bytes to ask the transport for next, and what
//! the bytes that came back mean, under each of the three framing rules.
use vstd::prelude::*;
use crate::bytes::push_all;
use crate::bytes::{hex, hex_digit};
use crate::chunked::{hex_value, lemma_run_append, limit, run, ChunkState, ChunkedDecoder};
use crate::request::{chunk_piece, chunked_encoding, chunks_encoding, concat_chunks, crlf, last_chunk};
use crate::error::Error;
use crate::response::BodyFraming;

verus! {

/// A single-pass reader over one response body.
#[derive(Clone, Copy, Debug, PartialEq, Eq, Structural)]
pub enum BodyReader {
    /// This many body bytes are still to come.
    Fixed { remaining: usize },
    /// A chunked body, decoded as it arrives.
    Chunked { state: ChunkState },
    /// A body that ends with the transport; `ended` once it has.
    ToClose { ended: bool },
}

impl BodyReader {
    pub open spec fn spec_new(framing: BodyFraming) -> BodyReader {
        match framing {
            BodyFraming::Fixed(n) => BodyReader::Fixed { remaining: n },
            BodyFraming::Chunked => BodyReader::Chunked {
                state: ChunkState::Size { value: 0, any: false },
            },
            BodyFraming::ToClose => BodyReader::ToClose { ended: false },
        }
    }

    /// The most bytes that the reader may take next without reading past the body.
    pub open spec fn limit(self) -> nat {
        match self {
            BodyReader::Fixed { remaining } => remaining as nat,
            BodyReader::Chunked { state } => limit(state),
            BodyReader::ToClose { ended } => if ended {
                0
            } else {
                usize::MAX as nat
            },
        }
    }

    /// Whether the whole body has been read.
    pub open spec fn is_terminal(self) -> bool {
        match self {
            BodyReader::Fixed { remaining } => remaining == 0,
            BodyReader::Chunked { state } => state == ChunkState::Done,
            BodyReader::ToClose { ended } => ended,
        }
    }

    pub open spec fn spec_wants(self, cap: nat) -> nat {
        if cap < self.limit() {
            cap
        } else {
            self.limit()
        }
    }

    /// The reader after `input` has arrived from the transport, and the body
    /// bytes it yields.
    pub open spec fn spec_feed(self, input: Seq<u8>) -> Result<(BodyReader, Seq<u8>), Error> {
        match self {
            BodyReader::Fixed { remaining } => Ok(
                (BodyReader::Fixed { remaining: (remaining - input.len()) as usize }, input),
            ),
            BodyReader::Chunked { state } => match run(state, input) {
                Some((st, out)) => Ok((BodyReader::Chunked { state: st }, out)),
                None => Err(Error::ChunkFraming),
            },
            BodyReader::ToClose { ended } => Ok((self, input)),
        }
    }

    /// The reader once the transport has reported its end.
    pub open spec fn spec_end_of_stream(self) -> Result<BodyReader, Error> {
        match self {
            BodyReader::ToClose { ended } => Ok(BodyReader::ToClose { ended: true }),
            _ => if self.is_terminal() {
                Ok(self)
            } else {
                Err(Error::UnexpectedEof)
            },
        }
    }

    /// A reader for a body framed as `framing`.
    pub fn new(framing: BodyFraming) -> (r: BodyReader)
        ensures
            r == Self::spec_new(framing),
    {
        match framing {
            BodyFraming::Fixed(n) => BodyReader::Fixed { remaining: n },
            BodyFraming::Chunked => BodyReader::Chunked { state: ChunkedDecoder::new().state },
            BodyFraming::ToClose => BodyReader::ToClose { ended: false },
        }
    }

    /// Whether the whole body has been read.
    pub fn is_done(&self) -> (r: bool)
        ensures
            r == self.is_terminal(),
    {
        match self {
            BodyReader::Fixed { remaining } => *remaining == 0,
            BodyReader::Chunked { state } => ChunkedDecoder { state: *state }.is_done(),
            BodyReader::ToClose { ended } => *ended,
        }
    }

    /// How many bytes to ask the transport for when the caller has room for
    /// `cap`: none once the body is complete.
    pub fn wants(&self, cap: usize) -> (r: usize)
        ensures
            r as nat == self.spec_wants(cap as nat),
    {
        match self {
            BodyReader::Fixed { remaining } => if cap < *remaining {
                cap
            } else {
                *remaining
            },
            BodyReader::Chunked { state } => ChunkedDecoder { state: *state }.wants(cap),
            BodyReader::ToClose { ended } => if *ended {
                0
            } else {
                cap
            },
        }
    }

    /// Takes `input`, the bytes the transport returned, and appends the body
    /// bytes they carry to `out`.
    pub fn feed(&mut self, input: &[u8], out: &mut Vec<u8>) -> (r: Result<(), Error>)
        requires
            input.len() <= old(self).limit(),
        ensures
            match old(self).spec_feed(input@) {
                Ok((rd, o)) => r is Ok && *final(self) == rd && final(out)@ == old(out)@ + o,
                Err(e) => r == Err::<(), Error>(e),
            },
    {
        match self {
            BodyReader::Fixed { remaining } => {
                push_all(out, input);
                *self = BodyReader::Fixed { remaining: *remaining - input.len() };
                Ok(())
            },
            BodyReader::Chunked { state } => {
                let mut d = ChunkedDecoder { state: *state };
                match d.feed(input, out) {
                    Ok(()) => {
                        proof {
                            let n = old(out)@.len() as int;
                            assert(out@ =~= old(out)@ + out@.subrange(n, out@.len() as int));
                        }
                        *self = BodyReader::Chunked { state: d.state };
                        Ok(())
                    },
                    Err(()) => Err(Error::ChunkFraming),
                }
            },
            BodyReader::ToClose { ended } => {
                push_all(out, input);
                Ok(())
            },
        }
    }

    /// Records that the transport reported its end: the end of a body that
    /// runs to the close, an error for a framed body that is not complete.
    pub fn end_of_stream(&mut self) -> (r: Result<(), Error>)
        ensures
            match old(self).spec_end_of_stream() {
                Ok(rd) => r is Ok && *final(self) == rd,
                Err(e) => r == Err::<(), Error>(e) && *final(self) == *old(self),
            },
    {
        match self {
            BodyReader::ToClose { ended } => {
                *self = BodyReader::ToClose { ended: true };
                Ok(())
            },
            _ => if self.is_done() {
                Ok(())
            } else {
                Err(Error::UnexpectedEof)
            },
        }
    }
}

/// Once a body reader is complete it asks for nothing more, and a further
/// read or end of stream succeeds, yields no byte and leaves it as it is.
pub proof fn lemma_terminal_reader_is_idempotent(rd: BodyReader, cap: nat)
    requires
        rd.is_terminal(),
    ensures
        rd.spec_wants(cap) == 0,
        rd.limit() == 0,
        rd.spec_feed(Seq::<u8>::empty()) == Ok::<(BodyReader, Seq<u8>), Error>((rd, Seq::<u8>::empty())),
        rd.spec_end_of_stream() == Ok::<BodyReader, Error>(rd),
{
    reveal_with_fuel(run, 1);
}

/// The reader after each of `inputs` in turn, and all the body bytes they
/// yield; `None` when one of them is more than the reader may take or
/// breaks the framing.
pub open spec fn feed_all(rd: BodyReader, inputs: Seq<Seq<u8>>) -> Option<(BodyReader, Seq<u8>)>
    decreases inputs.len(),
{
    if inputs.len() == 0 {
        Some((rd, Seq::<u8>::empty()))
    } else {
        match feed_all(rd, inputs.drop_last()) {
            None => None,
            Some((r1, o1)) => if inputs.last().len() > r1.limit() {
                None
            } else {
                match r1.spec_feed(inputs.last()) {
                    Ok((r2, o2)) => Some((r2, o1 + o2)),
                    Err(_) => None,
                }
            },
        }
    }
}

/// A body of declared length `n` yields exactly the bytes it is fed, however
/// they are split into reads, until `n` bytes have come: it never takes
/// more, it is complete exactly when `n` have come, and an end of stream
/// before that is an error.
pub proof fn lemma_fixed_body_delivers_declared_length(n: usize, inputs: Seq<Seq<u8>>)
    ensures
        concat_chunks(inputs).len() <= n ==> feed_all(BodyReader::Fixed { remaining: n }, inputs)
            == Some(
            (
                BodyReader::Fixed { remaining: (n - concat_chunks(inputs).len()) as usize },
                concat_chunks(inputs),
            ),
        ),
        concat_chunks(inputs).len() > n ==> feed_all(BodyReader::Fixed { remaining: n }, inputs)
            is None,
        concat_chunks(inputs).len() <= n ==> ((BodyReader::Fixed {
            remaining: (n - concat_chunks(inputs).len()) as usize,
        }).is_terminal() <==> concat_chunks(inputs).len() == n),
        concat_chunks(inputs).len() < n ==> (BodyReader::Fixed {
            remaining: (n - concat_chunks(inputs).len()) as usize,
        }).spec_end_of_stream() == Err::<BodyReader, Error>(Error::UnexpectedEof),
    decreases inputs.len(),
{
    if inputs.len() > 0 {
        lemma_fixed_body_delivers_declared_length(n, inputs.drop_last());
        assert(concat_chunks(inputs) == concat_chunks(inputs.drop_last()) + inputs.last());
        if concat_chunks(inputs.drop_last()).len() > n {
        }
    }
}

proof fn lemma_hex_value_of_digit(d: nat)
    requires
        d < 16,
    ensures
        hex_value(hex_digit(d)) == Some(d),
{
}

/// The size digits of a chunk leave the decoder holding the size.
proof fn lemma_run_hex(n: nat)
    requires
        n <= usize::MAX,
    ensures
        run(ChunkState::Size { value: 0, any: false }, hex(n)) == Some(
            (ChunkState::Size { value: n as usize, any: true }, Seq::<u8>::empty()),
        ),
    decreases n,
{
    reveal_with_fuel(run, 2);
    if n < 16 {
        lemma_hex_value_of_digit(n);
    } else {
        let d = n % 16;
        let q = n / 16;
        lemma_run_hex(q);
        lemma_hex_value_of_digit(d);
        assert(hex(n) =~= hex(q) + seq![hex_digit(d)]);
        lemma_run_append(ChunkState::Size { value: 0, any: false }, hex(q), seq![hex_digit(d)]);
        assert(q * 16 + d == n);
        assert(seq![hex_digit(d)].drop_first() =~= Seq::<u8>::empty());
        assert(Seq::<u8>::empty() + Seq::<u8>::empty() =~= Seq::<u8>::empty());
    }
}

/// The data of a chunk of size `k` passes through unchanged.
proof fn lemma_run_data(k: usize, c: Seq<u8>)
    requires
        c.len() == k,
        k > 0,
    ensures
        run(ChunkState::Data { remaining: k }, c) == Some((ChunkState::DataCr, c)),
    decreases c.len(),
{
    if k == 1 {
        reveal_with_fuel(run, 2);
        assert(c.drop_first() =~= Seq::<u8>::empty());
        assert(seq![c[0]] + Seq::<u8>::empty() =~= c);
    } else {
        lemma_run_data((k - 1) as usize, c.drop_first());
        assert(seq![c[0]] + c.drop_first() =~= c);
    }
}

/// One non-empty chunk on the wire yields its data and leaves the decoder
/// ready for the next size line.
proof fn lemma_run_piece(c: Seq<u8>)
    requires
        c.len() <= usize::MAX,
    ensures
        run(ChunkState::Size { value: 0, any: false }, chunk_piece(c)) == Some(
            (ChunkState::Size { value: 0, any: false }, c),
        ),
{
    let s0 = ChunkState::Size { value: 0, any: false };
    if c.len() == 0 {
        assert(chunk_piece(c) =~= Seq::<u8>::empty());
        assert(c =~= Seq::<u8>::empty());
    } else {
        let k = c.len() as usize;
        lemma_run_hex(c.len());
        reveal_with_fuel(run, 3);
        assert(crlf().drop_first().drop_first() =~= Seq::<u8>::empty());
        assert(run(ChunkState::Size { value: k, any: true }, crlf()) == Some(
            (ChunkState::Data { remaining: k }, Seq::<u8>::empty()),
        ));
        lemma_run_data(k, c);
        assert(run(ChunkState::DataCr, crlf()) == Some((s0, Seq::<u8>::empty())));
        lemma_run_append(s0, hex(c.len()), crlf());
        lemma_run_append(s0, hex(c.len()) + crlf(), c);
        lemma_run_append(s0, hex(c.len()) + crlf() + c, crlf());
        assert(Seq::<u8>::empty() + Seq::<u8>::empty() =~= Seq::<u8>::empty());
        assert(Seq::<u8>::empty() + c =~= c);
        assert(c + Seq::<u8>::empty() =~= c);
    }
}

proof fn lemma_run_chunks(cs: Seq<Seq<u8>>)
    requires
        forall|i: int| 0 <= i < cs.len() ==> (#[trigger] cs[i]).len() <= usize::MAX,
    ensures
        run(ChunkState::Size { value: 0, any: false }, chunks_encoding(cs)) == Some(
            (ChunkState::Size { value: 0, any: false }, concat_chunks(cs)),
        ),
    decreases cs.len(),
{
    let s0 = ChunkState::Size { value: 0, any: false };
    if cs.len() > 0 {
        let init = cs.drop_last();
        assert forall|i: int| 0 <= i < init.len() implies (#[trigger] init[i]).len() <= usize::MAX by {
            assert(init[i] == cs[i]);
        }
        lemma_run_chunks(init);
        assert(cs.last() == cs[cs.len() - 1]);
        lemma_run_piece(cs.last());
        lemma_run_append(s0, chunks_encoding(init), chunk_piece(cs.last()));
    }
}

/// Fragments sent in the chunked coding come out of the decoder as their
/// concatenation, with the decoder at the end of the body.
pub proof fn lemma_chunked_round_trip(cs: Seq<Seq<u8>>)
    requires
        forall|i: int| 0 <= i < cs.len() ==> (#[trigger] cs[i]).len() <= usize::MAX,
    ensures
        run(ChunkState::Size { value: 0, any: false }, chunked_encoding(cs)) == Some(
            (ChunkState::Done, concat_chunks(cs)),
        ),
        (BodyReader::Chunked { state: ChunkState::Size { value: 0, any: false } }).spec_feed(
            chunked_encoding(cs),
        ) == Ok::<(BodyReader, Seq<u8>), Error>(
            (BodyReader::Chunked { state: ChunkState::Done }, concat_chunks(cs)),
        ),
{
    let s0 = ChunkState::Size { value: 0, any: false };
    lemma_run_chunks(cs);
    reveal_with_fuel(run, 6);
    assert(run(s0, last_chunk()) == Some((ChunkState::Done, Seq::<u8>::empty())));
    lemma_run_append(s0, chunks_encoding(cs), last_chunk());
    assert(concat_chunks(cs) + Seq::<u8>::empty() =~= concat_chunks(cs));
}

/// Reading a chunked body in two pieces yields what reading it at once
/// does: how the bytes are split into reads does not matter.
pub proof fn lemma_chunked_reads_compose(st: ChunkState, a: Seq<u8>, b: Seq<u8>)
    ensures
        (BodyReader::Chunked { state: st }).spec_feed(a + b) == match (BodyReader::Chunked {
            state: st,
        }).spec_feed(a) {
            Err(e) => Err(e),
            Ok((r1, o1)) => match r1.spec_feed(b) {
                Err(e) => Err(e),
                Ok((r2, o2)) => Ok((r2, o1 + o2)),
            },
        },
{
    lemma_run_append(st, a, b);
}

} // verus!
