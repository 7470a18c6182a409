//! Byte-level helpers shared by the serializer and the parser: line ends,
//! whitespace trimming, ASCII case folding and decimal / hexadecimal numerals.
use vstd::prelude::*;

verus! {

pub open spec fn is_crlf_at(s: Seq<u8>, i: int) -> bool {
    0 <= i && i + 1 < s.len() && s[i] == 13u8 && s[i + 1] == 10u8
}

/// The first index at or after `from` where `\r\n` starts, or -1.
pub open spec fn find_crlf(s: Seq<u8>, from: int) -> int
    decreases s.len() - from,
{
    if from < 0 || from + 1 >= s.len() {
        -1
    } else if is_crlf_at(s, from) {
        from
    } else {
        find_crlf(s, from + 1)
    }
}

pub proof fn lemma_find_crlf_bounds(s: Seq<u8>, from: int)
    requires
        0 <= from,
    ensures
        find_crlf(s, from) == -1 || (from <= find_crlf(s, from) && is_crlf_at(
            s,
            find_crlf(s, from),
        )),
        find_crlf(s, from) != -1 ==> forall|j: int|
            from <= j < find_crlf(s, from) ==> !is_crlf_at(s, j),
        find_crlf(s, from) == -1 ==> forall|j: int| from <= j ==> !is_crlf_at(s, j),
    decreases s.len() - from,
{
    if from + 1 >= s.len() {
    } else if is_crlf_at(s, from) {
    } else {
        lemma_find_crlf_bounds(s, from + 1);
    }
}

/// Searches `s` for `\r\n` from `from` on.
pub fn find_crlf_exec(s: &[u8], from: usize) -> (r: Option<usize>)
    ensures
        match r {
            Some(i) => i as int == find_crlf(s@, from as int),
            None => find_crlf(s@, from as int) == -1,
        },
{
    let mut i: usize = from;
    while i < s.len() && i + 1 < s.len()
        invariant
            from <= i,
            find_crlf(s@, from as int) == find_crlf(s@, i as int),
        decreases s.len() - i,
    {
        if s[i] == 13u8 && s[i + 1] == 10u8 {
            return Some(i);
        }
        i = i + 1;
    }
    None
}

pub open spec fn is_space(b: u8) -> bool {
    b == 32u8 || b == 9u8
}

pub open spec fn trim_start(s: Seq<u8>) -> Seq<u8>
    decreases s.len(),
{
    if s.len() > 0 && is_space(s[0]) {
        trim_start(s.drop_first())
    } else {
        s
    }
}

pub open spec fn trim_end(s: Seq<u8>) -> Seq<u8>
    decreases s.len(),
{
    if s.len() > 0 && is_space(s.last()) {
        trim_end(s.drop_last())
    } else {
        s
    }
}

/// `s` without the spaces and tabs at either end.
pub open spec fn trim(s: Seq<u8>) -> Seq<u8> {
    trim_end(trim_start(s))
}

/// The bounds `lo..hi` of `s[start..end]` once spaces and tabs are cut off both ends.
pub fn trim_range(s: &[u8], start: usize, end: usize) -> (r: (usize, usize))
    requires
        start <= end <= s.len(),
    ensures
        start <= r.0 <= r.1 <= end,
        s@.subrange(r.0 as int, r.1 as int) == trim(s@.subrange(start as int, end as int)),
{
    let mut lo: usize = start;
    while lo < end && (s[lo] == 32u8 || s[lo] == 9u8)
        invariant
            start <= lo <= end <= s.len(),
            trim_start(s@.subrange(start as int, end as int)) == trim_start(
                s@.subrange(lo as int, end as int),
            ),
        decreases end - lo,
    {
        assert(s@.subrange(lo as int, end as int).drop_first() =~= s@.subrange(
            lo + 1,
            end as int,
        ));
        lo = lo + 1;
    }
    let mut hi: usize = end;
    while hi > lo && (s[hi - 1] == 32u8 || s[hi - 1] == 9u8)
        invariant
            start <= lo <= hi <= end <= s.len(),
            trim_start(s@.subrange(start as int, end as int)) == s@.subrange(lo as int, end as int),
            trim_end(s@.subrange(lo as int, end as int)) == trim_end(
                s@.subrange(lo as int, hi as int),
            ),
        decreases hi - lo,
    {
        assert(s@.subrange(lo as int, hi as int).drop_last() =~= s@.subrange(
            lo as int,
            hi - 1,
        ));
        hi = hi - 1;
    }
    (lo, hi)
}

pub open spec fn to_lower(b: u8) -> u8 {
    if 65u8 <= b && b <= 90u8 {
        (b + 32) as u8
    } else {
        b
    }
}

/// ASCII case-insensitive equality.
pub open spec fn eq_ignore_case(a: Seq<u8>, b: Seq<u8>) -> bool {
    a.len() == b.len() && forall|i: int| 0 <= i < a.len() ==> to_lower(a[i]) == to_lower(b[i])
}

fn lower_exec(b: u8) -> (r: u8)
    ensures
        r == to_lower(b),
{
    if 65u8 <= b && b <= 90u8 {
        b + 32
    } else {
        b
    }
}

pub fn eq_ignore_case_exec(a: &[u8], b: &[u8]) -> (r: bool)
    ensures
        r == eq_ignore_case(a@, b@),
{
    if a.len() != b.len() {
        return false;
    }
    let mut i: usize = 0;
    while i < a.len()
        invariant
            a.len() == b.len(),
            i <= a.len(),
            forall|j: int| 0 <= j < i ==> to_lower(a@[j]) == to_lower(b@[j]),
        decreases a.len() - i,
    {
        if lower_exec(a[i]) != lower_exec(b[i]) {
            return false;
        }
        i = i + 1;
    }
    true
}

/// Whether `p` occurs in `s` at `i`, ignoring ASCII case.
pub open spec fn occurs_at_ignore_case(s: Seq<u8>, p: Seq<u8>, i: int) -> bool {
    0 <= i && i + p.len() <= s.len() && eq_ignore_case(s.subrange(i, i + p.len()), p)
}

pub open spec fn contains_ignore_case(s: Seq<u8>, p: Seq<u8>) -> bool {
    exists|i: int| occurs_at_ignore_case(s, p, i)
}

pub fn contains_ignore_case_exec(s: &[u8], p: &[u8]) -> (r: bool)
    ensures
        r == contains_ignore_case(s@, p@),
{
    if p.len() > s.len() {
        return false;
    }
    let mut i: usize = 0;
    while i <= s.len() - p.len()
        invariant
            p.len() <= s.len(),
            i <= s.len() - p.len() + 1,
            forall|j: int| 0 <= j < i ==> !occurs_at_ignore_case(s@, p@, j),
        decreases s.len() - i,
    {
        let mut k: usize = 0;
        let mut same = true;
        while k < p.len()
            invariant
                i + p.len() <= s.len(),
                k <= p.len(),
                same == forall|j: int| 0 <= j < k ==> to_lower(s@[i + j]) == to_lower(p@[j]),
            decreases p.len() - k,
        {
            if lower_exec(s[i + k]) != lower_exec(p[k]) {
                same = false;
            }
            k = k + 1;
        }
        if same {
            assert(occurs_at_ignore_case(s@, p@, i as int));
            return true;
        }
        assert(!eq_ignore_case(s@.subrange(i as int, i + p.len()), p@)) by {
            if eq_ignore_case(s@.subrange(i as int, i + p.len()), p@) {
                assert forall|j: int| 0 <= j < p.len() implies to_lower(s@[i + j]) == to_lower(
                    p@[j],
                ) by {
                    assert(s@.subrange(i as int, i + p.len())[j] == s@[i + j]);
                }
            }
        }
        i = i + 1;
    }
    false
}

pub open spec fn is_digit(b: u8) -> bool {
    48u8 <= b && b <= 57u8
}

/// The decimal numeral of `n`, most significant digit first.
pub open spec fn decimal(n: nat) -> Seq<u8>
    decreases n,
{
    if n < 10 {
        seq![(48 + n) as u8]
    } else {
        decimal(n / 10).push((48 + n % 10) as u8)
    }
}

pub fn push_decimal(out: &mut Vec<u8>, n: usize)
    ensures
        final(out)@ == old(out)@ + decimal(n as nat),
    decreases n,
{
    if n >= 10 {
        push_decimal(out, n / 10);
    }
    out.push((48 + n % 10) as u8);
    assert(final(out)@ =~= old(out)@ + decimal(n as nat));
}

pub open spec fn hex_digit(d: nat) -> u8 {
    if d < 10 {
        (48 + d) as u8
    } else {
        (87 + d) as u8
    }
}

/// The lower-case hexadecimal numeral of `n`, most significant digit first.
pub open spec fn hex(n: nat) -> Seq<u8>
    decreases n,
{
    if n < 16 {
        seq![hex_digit(n)]
    } else {
        hex(n / 16).push(hex_digit(n % 16))
    }
}

pub fn push_hex(out: &mut Vec<u8>, n: usize)
    ensures
        final(out)@ == old(out)@ + hex(n as nat),
    decreases n,
{
    if n >= 16 {
        push_hex(out, n / 16);
    }
    let d: usize = n % 16;
    let b: u8 = if d < 10 {
        (48 + d) as u8
    } else {
        (87 + d) as u8
    };
    out.push(b);
    assert(final(out)@ =~= old(out)@ + hex(n as nat));
}

/// The value of a numeral of decimal digits.
pub open spec fn decimal_value(s: Seq<u8>) -> nat
    decreases s.len(),
{
    if s.len() == 0 {
        0
    } else {
        decimal_value(s.drop_last()) * 10 + (s.last() - 48) as nat
    }
}

/// Reads `s[start..end]` as a decimal numeral: `Some` exactly when it is a
/// non-empty run of digits whose value fits in `usize`.
pub fn parse_decimal(s: &[u8], start: usize, end: usize) -> (r: Option<usize>)
    requires
        start <= end <= s.len(),
    ensures
        r.is_some() <==> (start < end && (forall|i: int|
            start <= i < end ==> is_digit(#[trigger] s@[i])) && decimal_value(
            s@.subrange(start as int, end as int),
        ) <= usize::MAX),
        r.is_some() ==> r.unwrap() as nat == decimal_value(s@.subrange(start as int, end as int)),
{
    if start == end {
        return None;
    }
    let mut i: usize = start;
    let mut acc: usize = 0;
    while i < end
        invariant
            start <= i <= end <= s.len(),
            forall|j: int| start <= j < i ==> is_digit(#[trigger] s@[j]),
            acc as nat == decimal_value(s@.subrange(start as int, i as int)),
        decreases end - i,
    {
        let b = s[i];
        assert(s@.subrange(start as int, i + 1).drop_last() =~= s@.subrange(
            start as int,
            i as int,
        ));
        if !(48u8 <= b && b <= 57u8) {
            return None;
        }
        if acc > (usize::MAX - 9) / 10 {
            proof {
                lemma_decimal_value_grows(s@.subrange(start as int, end as int), i - start + 1);
                assert(s@.subrange(start as int, end as int).subrange(0, i - start + 1)
                    =~= s@.subrange(start as int, i + 1));
            }
            assert(decimal_value(s@.subrange(start as int, i + 1)) >= acc * 10) by (nonlinear_arith)
                requires
                    decimal_value(s@.subrange(start as int, i + 1)) == acc * 10 + (b - 48) as nat,
            ;
            if acc > usize::MAX / 10 || acc * 10 > usize::MAX - ((b - 48) as usize) {
                return None;
            }
        }
        acc = acc * 10 + (b - 48) as usize;
        i = i + 1;
    }
    assert(s@.subrange(start as int, i as int) =~= s@.subrange(start as int, end as int));
    Some(acc)
}

/// A prefix's value never exceeds the whole numeral's.
pub proof fn lemma_decimal_value_grows(s: Seq<u8>, k: int)
    requires
        0 <= k <= s.len(),
    ensures
        decimal_value(s.subrange(0, k)) <= decimal_value(s),
    decreases s.len() - k,
{
    if k < s.len() {
        lemma_decimal_value_grows(s, k + 1);
        assert(s.subrange(0, k + 1).drop_last() =~= s.subrange(0, k));
    } else {
        assert(s.subrange(0, k) =~= s);
    }
}

/// The first index at or after `from` and before `end` that holds `b`, or -1.
pub open spec fn find_byte(s: Seq<u8>, b: u8, from: int, end: int) -> int
    decreases end - from,
{
    if from < 0 || from >= end || from >= s.len() {
        -1
    } else if s[from] == b {
        from
    } else {
        find_byte(s, b, from + 1, end)
    }
}

pub proof fn lemma_find_byte_bounds(s: Seq<u8>, b: u8, from: int, end: int)
    requires
        0 <= from,
        end <= s.len(),
    ensures
        find_byte(s, b, from, end) == -1 || (from <= find_byte(s, b, from, end) < end
            && s[find_byte(s, b, from, end)] == b),
    decreases end - from,
{
    if from >= end {
    } else if s[from] == b {
    } else {
        lemma_find_byte_bounds(s, b, from + 1, end);
    }
}

pub fn find_byte_exec(s: &[u8], b: u8, from: usize, end: usize) -> (r: Option<usize>)
    requires
        end <= s.len(),
    ensures
        match r {
            Some(i) => i as int == find_byte(s@, b, from as int, end as int),
            None => find_byte(s@, b, from as int, end as int) == -1,
        },
{
    let mut i: usize = from;
    while i < end
        invariant
            from <= i,
            end <= s.len(),
            find_byte(s@, b, from as int, end as int) == find_byte(s@, b, i as int, end as int),
        decreases end - i,
    {
        if s[i] == b {
            return Some(i);
        }
        i = i + 1;
    }
    None
}

/// Copies `s[start..end]` into a new vector.
pub fn copy_range(s: &[u8], start: usize, end: usize) -> (r: Vec<u8>)
    requires
        start <= end <= s.len(),
    ensures
        r@ == s@.subrange(start as int, end as int),
{
    let mut r: Vec<u8> = Vec::new();
    let mut i: usize = start;
    while i < end
        invariant
            start <= i <= end <= s.len(),
            r@ == s@.subrange(start as int, i as int),
        decreases end - i,
    {
        r.push(s[i]);
        assert(r@ =~= s@.subrange(start as int, i + 1));
        i = i + 1;
    }
    r
}

/// Appends all of `s` to `out`.
pub fn push_all(out: &mut Vec<u8>, s: &[u8])
    ensures
        final(out)@ == old(out)@ + s@,
{
    let mut i: usize = 0;
    while i < s.len()
        invariant
            i <= s.len(),
            out@ == old(out)@ + s@.subrange(0, i as int),
        decreases s.len() - i,
    {
        out.push(s[i]);
        assert(out@ =~= old(out)@ + s@.subrange(0, i + 1));
        i = i + 1;
    }
    assert(s@.subrange(0, s@.len() as int) =~= s@);
}

} // verus!
