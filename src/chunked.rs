//! A decoder for the chunked transfer coding, fed one transport read at a
//! time and never asking for a byte past the end of the body.
use vstd::prelude::*;

verus! {

/// Where the decoder stands in the chunked body.
#[derive(Clone, Copy, Debug, PartialEq, Eq, Structural)]
pub enum ChunkState {
    /// Reading the hexadecimal size of the next chunk; `any` once a digit was read.
    Size { value: usize, any: bool },
    /// The size line's `\r` was read; its `\n` comes next.
    SizeLf { value: usize },
    /// Inside a chunk's data, with this many bytes left (never zero).
    Data { remaining: usize },
    /// A chunk's data is over; its `\r` comes next.
    DataCr,
    /// A chunk's `\r` was read; its `\n` comes next.
    DataLf,
    /// At the start of a trailer line, after the last chunk.
    TrailerStart,
    /// Inside a trailer line, which is skipped.
    TrailerLine,
    /// A trailer line's `\r` was read; its `\n` comes next.
    TrailerLf,
    /// The `\r` of the blank line that ends the body was read.
    FinalLf,
    /// The body is complete.
    Done,
}

pub open spec fn hex_value(b: u8) -> Option<nat> {
    if 48u8 <= b && b <= 57u8 {
        Some((b - 48) as nat)
    } else if 97u8 <= b && b <= 102u8 {
        Some((b - 87) as nat)
    } else if 65u8 <= b && b <= 70u8 {
        Some((b - 55) as nat)
    } else {
        None
    }
}

/// One byte of input: the next state and the body byte it yields, if any;
/// `None` when the byte breaks the framing.
pub open spec fn step(st: ChunkState, b: u8) -> Option<(ChunkState, Seq<u8>)> {
    match st {
        ChunkState::Size { value, any } => match hex_value(b) {
            Some(d) => if value * 16 + d <= usize::MAX {
                Some((ChunkState::Size { value: (value * 16 + d) as usize, any: true }, seq![]))
            } else {
                None
            },
            None => if b == 13u8 && any {
                Some((ChunkState::SizeLf { value }, seq![]))
            } else {
                None
            },
        },
        ChunkState::SizeLf { value } => if b != 10u8 {
            None
        } else if value == 0 {
            Some((ChunkState::TrailerStart, seq![]))
        } else {
            Some((ChunkState::Data { remaining: value }, seq![]))
        },
        ChunkState::Data { remaining } => if remaining <= 1 {
            Some((ChunkState::DataCr, seq![b]))
        } else {
            Some((ChunkState::Data { remaining: (remaining - 1) as usize }, seq![b]))
        },
        ChunkState::DataCr => if b == 13u8 {
            Some((ChunkState::DataLf, seq![]))
        } else {
            None
        },
        ChunkState::DataLf => if b == 10u8 {
            Some((ChunkState::Size { value: 0, any: false }, seq![]))
        } else {
            None
        },
        ChunkState::TrailerStart => if b == 13u8 {
            Some((ChunkState::FinalLf, seq![]))
        } else {
            Some((ChunkState::TrailerLine, seq![]))
        },
        ChunkState::TrailerLine => if b == 13u8 {
            Some((ChunkState::TrailerLf, seq![]))
        } else {
            Some((ChunkState::TrailerLine, seq![]))
        },
        ChunkState::TrailerLf => if b == 10u8 {
            Some((ChunkState::TrailerStart, seq![]))
        } else {
            None
        },
        ChunkState::FinalLf => if b == 10u8 {
            Some((ChunkState::Done, seq![]))
        } else {
            None
        },
        ChunkState::Done => None,
    }
}

/// The state after all of `bs` and the body bytes they yield, or `None` when
/// they break the framing.
pub open spec fn run(st: ChunkState, bs: Seq<u8>) -> Option<(ChunkState, Seq<u8>)>
    decreases bs.len(),
{
    if bs.len() == 0 {
        Some((st, seq![]))
    } else {
        match step(st, bs[0]) {
            None => None,
            Some((st2, o)) => match run(st2, bs.drop_first()) {
                None => None,
                Some((st3, out)) => Some((st3, o + out)),
            },
        }
    }
}

/// How many bytes the decoder may take next without reading past the body's end.
pub open spec fn limit(st: ChunkState) -> nat {
    match st {
        ChunkState::Data { remaining } => remaining as nat,
        ChunkState::Done => 0,
        _ => 1,
    }
}

pub proof fn lemma_run_append(st: ChunkState, a: Seq<u8>, b: Seq<u8>)
    ensures
        run(st, a + b) == match run(st, a) {
            None => None,
            Some((st2, o)) => match run(st2, b) {
                None => None,
                Some((st3, o2)) => Some((st3, o + o2)),
            },
        },
    decreases a.len(),
{
    if a.len() == 0 {
        assert(a + b =~= b);
        match run(st, b) {
            None => {},
            Some((st3, o2)) => {
                assert(seq![] + o2 =~= o2);
            },
        }
    } else {
        assert((a + b).drop_first() =~= a.drop_first() + b);
        assert((a + b)[0] == a[0]);
        match step(st, a[0]) {
            None => {},
            Some((st2, o)) => {
                lemma_run_append(st2, a.drop_first(), b);
                match run(st2, a.drop_first()) {
                    None => {},
                    Some((st4, o4)) => match run(st4, b) {
                        None => {},
                        Some((st5, o5)) => {
                            assert(o + (o4 + o5) =~= (o + o4) + o5);
                        },
                    },
                }
            },
        }
    }
}

/// An incremental decoder for a chunked body.
#[derive(Clone, Copy, Debug)]
pub struct ChunkedDecoder {
    pub state: ChunkState,
}

impl ChunkedDecoder {
    pub fn new() -> (r: ChunkedDecoder)
        ensures
            r.state == (ChunkState::Size { value: 0, any: false }),
    {
        ChunkedDecoder { state: ChunkState::Size { value: 0, any: false } }
    }

    pub fn is_done(&self) -> (r: bool)
        ensures
            r == (self.state == ChunkState::Done),
    {
        match self.state {
            ChunkState::Done => true,
            _ => false,
        }
    }

    /// How many bytes to ask the transport for, given room for `cap`.
    pub fn wants(&self, cap: usize) -> (r: usize)
        ensures
            r as nat == if cap < limit(self.state) {
                cap as nat
            } else {
                limit(self.state)
            },
    {
        let l: usize = match self.state {
            ChunkState::Data { remaining } => remaining,
            ChunkState::Done => 0,
            _ => 1,
        };
        if cap < l {
            cap
        } else {
            l
        }
    }

    fn step_exec(st: ChunkState, b: u8) -> (r: Option<(ChunkState, Option<u8>)>)
        ensures
            match (r, step(st, b)) {
                (None, None) => true,
                (Some((s1, o1)), Some((s2, o2))) => s1 == s2 && o2 == match o1 {
                    Some(x) => seq![x],
                    None => Seq::<u8>::empty(),
                },
                _ => false,
            },
    {
        match st {
            ChunkState::Size { value, any } => {
                let d: Option<usize> = if 48u8 <= b && b <= 57u8 {
                    Some((b - 48) as usize)
                } else if 97u8 <= b && b <= 102u8 {
                    Some((b - 87) as usize)
                } else if 65u8 <= b && b <= 70u8 {
                    Some((b - 55) as usize)
                } else {
                    None
                };
                match d {
                    Some(d) => {
                        if value > (usize::MAX - d) / 16 {
                            assert(value * 16 + d > usize::MAX) by (nonlinear_arith)
                                requires
                                    value > (usize::MAX - d) / 16,
                                    d < 16,
                            ;
                            None
                        } else {
                            assert(value * 16 + d <= usize::MAX) by (nonlinear_arith)
                                requires
                                    value <= (usize::MAX - d) / 16,
                                    d < 16,
                            ;
                            Some((ChunkState::Size { value: value * 16 + d, any: true }, None))
                        }
                    },
                    None => if b == 13u8 && any {
                        Some((ChunkState::SizeLf { value }, None))
                    } else {
                        None
                    },
                }
            },
            ChunkState::SizeLf { value } => if b != 10u8 {
                None
            } else if value == 0 {
                Some((ChunkState::TrailerStart, None))
            } else {
                Some((ChunkState::Data { remaining: value }, None))
            },
            ChunkState::Data { remaining } => if remaining <= 1 {
                Some((ChunkState::DataCr, Some(b)))
            } else {
                Some((ChunkState::Data { remaining: remaining - 1 }, Some(b)))
            },
            ChunkState::DataCr => if b == 13u8 {
                Some((ChunkState::DataLf, None))
            } else {
                None
            },
            ChunkState::DataLf => if b == 10u8 {
                Some((ChunkState::Size { value: 0, any: false }, None))
            } else {
                None
            },
            ChunkState::TrailerStart => if b == 13u8 {
                Some((ChunkState::FinalLf, None))
            } else {
                Some((ChunkState::TrailerLine, None))
            },
            ChunkState::TrailerLine => if b == 13u8 {
                Some((ChunkState::TrailerLf, None))
            } else {
                Some((ChunkState::TrailerLine, None))
            },
            ChunkState::TrailerLf => if b == 10u8 {
                Some((ChunkState::TrailerStart, None))
            } else {
                None
            },
            ChunkState::FinalLf => if b == 10u8 {
                Some((ChunkState::Done, None))
            } else {
                None
            },
            ChunkState::Done => None,
        }
    }

    /// Decodes `input`, appending the body bytes it carries to `out`.
    /// Fails when `input` breaks the chunked framing; the decoder is then
    /// left in an unspecified state.
    pub fn feed(&mut self, input: &[u8], out: &mut Vec<u8>) -> (r: Result<(), ()>)
        ensures
            r is Ok <==> run(old(self).state, input@) is Some,
            r is Ok ==> run(old(self).state, input@) == Some(
                (final(self).state, final(out)@.subrange(old(out)@.len() as int, final(out)@.len() as int)),
            ),
            r is Ok ==> old(out)@.len() <= final(out)@.len(),
            r is Ok ==> old(out)@ == final(out)@.subrange(0, old(out)@.len() as int),
    {
        let ghost st0 = self.state;
        let ghost out0 = out@;
        let mut i: usize = 0;
        while i < input.len()
            invariant
                i <= input.len(),
                st0 == old(self).state,
                out0 == old(out)@,
                out0.len() <= out@.len(),
                out@.subrange(0, out0.len() as int) == out0,
                run(st0, input@.subrange(0, i as int)) == Some(
                    (self.state, out@.subrange(out0.len() as int, out@.len() as int)),
                ),
            decreases input.len() - i,
        {
            proof {
                lemma_run_append(st0, input@.subrange(0, i as int), seq![input@[i as int]]);
                assert(input@.subrange(0, i as int) + seq![input@[i as int]] =~= input@.subrange(0, i + 1));
                assert(seq![input@[i as int]].drop_first() =~= Seq::<u8>::empty());
            }
            let ghost sti = self.state;
            match Self::step_exec(self.state, input[i]) {
                None => {
                    proof {
                        assert(run(sti, seq![input@[i as int]]) is None);
                        lemma_run_append(st0, input@.subrange(0, i + 1), input@.subrange(i + 1, input@.len() as int));
                        assert(input@.subrange(0, i + 1) + input@.subrange(i + 1, input@.len() as int) =~= input@);
                    }
                    return Err(());
                },
                Some((s, o)) => {
                    proof {
                        reveal_with_fuel(run, 2);
                        let os = match o {
                            Some(x) => seq![x],
                            None => Seq::<u8>::empty(),
                        };
                        assert(os + Seq::<u8>::empty() =~= os);
                        assert(run(sti, seq![input@[i as int]]) == Some((s, os)));
                    }
                    let ghost prev = out@;
                    match o {
                        Some(x) => {
                            out.push(x);
                        },
                        None => {},
                    }
                    assert(out@.subrange(out0.len() as int, out@.len() as int) =~= prev.subrange(
                        out0.len() as int, prev.len() as int) + match o {
                            Some(x) => seq![x],
                            None => Seq::<u8>::empty(),
                        });
                    assert(out@.subrange(0, out0.len() as int) =~= out0);
                    self.state = s;
                },
            }
            i = i + 1;
        }
        assert(input@.subrange(0, input@.len() as int) =~= input@);
        Ok(())
    }
}

} // verus!
