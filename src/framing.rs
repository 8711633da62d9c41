//! Length-prefixed framing: `Content-Length: N\r\n\r\n` followed by `N` bytes.

use vstd::prelude::*;

verus! {

/// Why a byte stream could not be read as a frame.
#[derive(Debug, Clone, Copy, PartialEq, Eq, Structural)]
pub enum FrameError {
    /// The header block has no terminating blank line yet, or the body is short.
    Incomplete,
    /// The header block ended without a `Content-Length` line.
    MissingLength,
    /// A `Content-Length` line whose value is not a decimal number that fits.
    BadLength,
}

/// The bytes of `Content-Length: `.
pub open spec fn length_prefix() -> Seq<u8> {
    seq![67u8, 111, 110, 116, 101, 110, 116, 45, 76, 101, 110, 103, 116, 104, 58, 32]
}

pub open spec fn crlf() -> Seq<u8> {
    seq![13u8, 10]
}

pub open spec fn is_digit(b: u8) -> bool {
    48 <= b <= 57
}

pub open spec fn all_digits(d: Seq<u8>) -> bool {
    forall|i: int| 0 <= i < d.len() ==> is_digit(#[trigger] d[i])
}

/// The number that a string of decimal digits denotes.
pub open spec fn digits_value(d: Seq<u8>) -> nat
    decreases d.len(),
{
    if d.len() == 0 {
        0
    } else {
        digits_value(d.drop_last()) * 10 + (d.last() - 48) as nat
    }
}

/// The shortest decimal spelling of `n`.
pub open spec fn decimal(n: nat) -> Seq<u8>
    decreases n,
{
    if n < 10 {
        seq![(48 + n) as u8]
    } else {
        decimal(n / 10).push((48 + n % 10) as u8)
    }
}

/// A complete frame around `body`.
pub open spec fn frame(body: Seq<u8>) -> Seq<u8> {
    length_prefix() + decimal(body.len()) + crlf() + crlf() + body
}

/// The index of the first CRLF at or after `from`, or -1 where there is none.
pub open spec fn line_end(s: Seq<u8>, from: int) -> int
    decreases s.len() - from,
{
    if from < 0 || from + 1 >= s.len() {
        -1
    } else if s[from] == 13 && s[from + 1] == 10 {
        from
    } else {
        line_end(s, from + 1)
    }
}

/// What one header line says of the body length: `None` for a line of
/// another header, `Some(Ok(n))` for a valid `Content-Length`, `Some(Err(..))`
/// for an invalid one.
pub open spec fn length_of_line(line: Seq<u8>) -> Option<Result<nat, FrameError>> {
    let p = length_prefix();
    if line.len() >= p.len() && line.subrange(0, p.len() as int) == p {
        let v = line.subrange(p.len() as int, line.len() as int);
        if v.len() > 0 && all_digits(v) && digits_value(v) <= usize::MAX {
            Some(Ok(digits_value(v)))
        } else {
            Some(Err(FrameError::BadLength))
        }
    } else {
        None
    }
}

/// Reads header lines from `pos`, with `len` the body length seen so far; on
/// the blank line, gives where the body starts and how long it is.
pub open spec fn header_from(s: Seq<u8>, pos: int, len: Option<nat>) -> Result<
    (nat, nat),
    FrameError,
>
    decreases s.len() - pos,
{
    let e = line_end(s, pos);
    if pos < 0 || e < pos || e + 2 > s.len() {
        Err(FrameError::Incomplete)
    } else if e == pos {
        match len {
            Some(n) => Ok(((pos + 2) as nat, n)),
            None => Err(FrameError::MissingLength),
        }
    } else {
        match length_of_line(s.subrange(pos, e)) {
            Some(Err(err)) => Err(err),
            Some(Ok(n)) => header_from(s, e + 2, Some(n)),
            None => header_from(s, e + 2, len),
        }
    }
}

/// The header of the frame at the start of `s`: where its body starts, and its length.
pub open spec fn header_spec(s: Seq<u8>) -> Result<(nat, nat), FrameError> {
    header_from(s, 0, None)
}

/// The frame at the start of `s`: its body and the number of bytes it takes.
pub open spec fn decode_spec(s: Seq<u8>) -> Result<(Seq<u8>, nat), FrameError> {
    match header_spec(s) {
        Ok((start, n)) => if start + n <= s.len() {
            Ok((s.subrange(start as int, (start + n) as int), start + n))
        } else {
            Err(FrameError::Incomplete)
        },
        Err(e) => Err(e),
    }
}

proof fn lemma_decimal_digits(n: nat)
    ensures
        all_digits(decimal(n)),
        decimal(n).len() > 0,
        digits_value(decimal(n)) == n,
    decreases n,
{
    if n >= 10 {
        lemma_decimal_digits(n / 10);
        let d = decimal(n);
        assert(d.drop_last() =~= decimal(n / 10));
        assert(d.last() == (48 + n % 10) as u8);
        assert(n == (n / 10) * 10 + n % 10);
    } else {
        let d = decimal(n);
        assert(d.drop_last() =~= Seq::<u8>::empty());
        assert(digits_value(d.drop_last()) == 0);
        assert(d.last() == (48 + n) as u8);
    }
}

fn push_decimal(out: &mut Vec<u8>, n: usize)
    ensures
        final(out)@ == old(out)@ + decimal(n as nat),
    decreases n,
{
    if n >= 10 {
        push_decimal(out, n / 10);
    }
    out.push((48 + n % 10) as u8);
    proof {
        if n < 10 {
            assert(final(out)@ =~= old(out)@ + decimal(n as nat));
        } else {
            assert(final(out)@ =~= old(out)@ + decimal(n as nat));
        }
    }
}

/// Writes `body` as a frame.
pub fn encode_frame(body: &[u8]) -> (r: Vec<u8>)
    ensures
        r@ == frame(body@),
{
    let mut r: Vec<u8> = vec![67u8, 111, 110, 116, 101, 110, 116, 45, 76, 101, 110, 103, 116, 104, 58, 32];
    assert(r@ =~= length_prefix());
    push_decimal(&mut r, body.len());
    r.push(13);
    r.push(10);
    r.push(13);
    r.push(10);
    let ghost head = r@;
    let mut i: usize = 0;
    while i < body.len()
        invariant
            i <= body@.len(),
            r@ == head + body@.subrange(0, i as int),
        decreases body@.len() - i,
    {
        r.push(body[i]);
        i = i + 1;
        assert(r@ =~= head + body@.subrange(0, i as int));
    }
    assert(body@.subrange(0, body@.len() as int) =~= body@);
    assert(r@ =~= frame(body@));
    r
}

proof fn lemma_digits_prefix_le(d: Seq<u8>, i: int)
    requires
        0 <= i <= d.len(),
    ensures
        digits_value(d.subrange(0, i)) <= digits_value(d),
    decreases d.len(),
{
    if i < d.len() {
        assert(d.drop_last() =~= d.subrange(0, d.len() - 1));
        lemma_digits_prefix_le(d.drop_last(), i);
        assert(d.drop_last().subrange(0, i) =~= d.subrange(0, i));
    } else {
        assert(d.subrange(0, i) =~= d);
    }
}

fn find_line_end(s: &[u8], from: usize) -> (r: Option<usize>)
    requires
        from <= s@.len(),
    ensures
        match r {
            Some(e) => line_end(s@, from as int) == e as int && from <= e && e + 2 <= s@.len(),
            None => line_end(s@, from as int) == -1,
        },
{
    let mut i: usize = from;
    while s.len() - i > 1
        invariant
            from <= i <= s@.len(),
            line_end(s@, from as int) == line_end(s@, i as int),
        decreases s@.len() - i,
    {
        if s[i] == 13 && s[i + 1] == 10 {
            return Some(i);
        }
        i = i + 1;
    }
    None
}

/// Reads the header line `s[pos..e]` as `length_of_line` does.
fn length_of_range(s: &[u8], pos: usize, e: usize) -> (r: Option<Result<usize, FrameError>>)
    requires
        pos <= e <= s@.len(),
    ensures
        match r {
            Some(Ok(n)) => length_of_line(s@.subrange(pos as int, e as int)) == Some(
                Ok::<nat, FrameError>(n as nat),
            ),
            Some(Err(err)) => length_of_line(s@.subrange(pos as int, e as int)) == Some(
                Err::<nat, FrameError>(err),
            ),
            None => length_of_line(s@.subrange(pos as int, e as int)).is_none(),
        },
{
    let ghost line = s@.subrange(pos as int, e as int);
    let prefix: [u8; 16] = [67u8, 111, 110, 116, 101, 110, 116, 45, 76, 101, 110, 103, 116, 104, 58, 32];
    assert(prefix@ =~= length_prefix());
    if e - pos < 16 {
        return None;
    }
    let mut k: usize = 0;
    while k < 16
        invariant
            k <= 16,
            pos + 16 <= e <= s@.len(),
            prefix@ == length_prefix(),
            line == s@.subrange(pos as int, e as int),
            forall|j: int| 0 <= j < k ==> s@[pos + j] == length_prefix()[j],
        decreases 16 - k,
    {
        if s[pos + k] != prefix[k] {
            assert(line[k as int] == s@[pos + k]);
            assert(line.subrange(0, 16)[k as int] == line[k as int]);
            assert(line.subrange(0, 16)[k as int] != length_prefix()[k as int]);
            return None;
        }
        k = k + 1;
    }
    assert(line.subrange(0, 16) =~= length_prefix());
    let ghost v = line.subrange(16, line.len() as int);
    let start = pos + 16;
    assert(v =~= s@.subrange(start as int, e as int));
    if start == e {
        return Some(Err(FrameError::BadLength));
    }
    let mut n: usize = 0;
    let mut i: usize = start;
    while i < e
        invariant
            start <= i <= e <= s@.len(),
            start == pos + 16,
            line == s@.subrange(pos as int, e as int),
            line.subrange(0, 16) == length_prefix(),
            v == line.subrange(16, line.len() as int),
            v == s@.subrange(start as int, e as int),
            all_digits(s@.subrange(start as int, i as int)),
            n as nat == digits_value(s@.subrange(start as int, i as int)),
        decreases e - i,
    {
        let b = s[i];
        if b < 48 || b > 57 {
            assert(v[i - start] == b);
            assert(!is_digit(v[i - start]));
            return Some(Err(FrameError::BadLength));
        }
        let d = (b - 48) as usize;
        let ghost next = s@.subrange(start as int, i + 1);
        assert(next.drop_last() =~= s@.subrange(start as int, i as int));
        if n > (usize::MAX - d) / 10 {
            proof {
                assert(digits_value(next) > usize::MAX) by (nonlinear_arith)
                    requires
                        digits_value(next) == n * 10 + d,
                        n > (usize::MAX - d) / 10,
                        d <= 9,
                ;
                if all_digits(v) {
                    assert(v.subrange(0, i + 1 - start) =~= next);
                    lemma_digits_prefix_le(v, i + 1 - start);
                }
            }
            return Some(Err(FrameError::BadLength));
        }
        assert(n * 10 + d <= usize::MAX) by (nonlinear_arith)
            requires
                n <= (usize::MAX - d) / 10,
                d <= 9,
        ;
        n = n * 10 + d;
        i = i + 1;
    }
    assert(s@.subrange(start as int, e as int) =~= v);
    Some(Ok(n))
}

/// Reads the header block at the start of `s`: where the body starts, and
/// its length.
pub fn read_header(s: &[u8]) -> (r: Result<(usize, usize), FrameError>)
    ensures
        match r {
            Ok((start, n)) => header_spec(s@) == Ok::<(nat, nat), FrameError>(
                (start as nat, n as nat),
            ) && start <= s@.len(),
            Err(e) => header_spec(s@) == Err::<(nat, nat), FrameError>(e),
        },
{
    let mut pos: usize = 0;
    let mut len: Option<usize> = None;
    let total = s.len();
    loop
        invariant
            total == s@.len(),
            pos <= s@.len(),
            header_spec(s@) == header_from(s@, pos as int, match len {
                Some(n) => Some(n as nat),
                None => None,
            }),
        decreases s@.len() - pos,
    {
        match find_line_end(s, pos) {
            None => {
                return Err(FrameError::Incomplete);
            },
            Some(e) => {
                assert(e + 2 <= s@.len());
                if e == pos {
                    return match len {
                        Some(n) => Ok((pos + 2, n)),
                        None => Err(FrameError::MissingLength),
                    };
                }
                match length_of_range(s, pos, e) {
                    Some(Err(err)) => {
                        return Err(err);
                    },
                    Some(Ok(n)) => {
                        len = Some(n);
                    },
                    None => {},
                }
                pos = e + 2;
            },
        }
    }
}

/// Reads the frame at the start of `s`: its body and the number of bytes it takes.
pub fn decode_frame(s: &[u8]) -> (r: Result<(Vec<u8>, usize), FrameError>)
    ensures
        match r {
            Ok((body, used)) => decode_spec(s@) == Ok::<(Seq<u8>, nat), FrameError>(
                (body@, used as nat),
            ),
            Err(e) => decode_spec(s@) == Err::<(Seq<u8>, nat), FrameError>(e),
        },
{
    match read_header(s) {
        Err(e) => Err(e),
        Ok((start, n)) => {
            if n > s.len() - start {
                return Err(FrameError::Incomplete);
            }
            let mut body: Vec<u8> = Vec::new();
            let mut i: usize = start;
            let end = start + n;
            while i < end
                invariant
                    end == start + n,
                    start <= i <= start + n <= s@.len(),
                    body@ == s@.subrange(start as int, i as int),
                decreases end - i,
            {
                body.push(s[i]);
                i = i + 1;
                assert(body@ =~= s@.subrange(start as int, i as int));
            }
            Ok((body, end))
        },
    }
}

proof fn lemma_line_end_at(s: Seq<u8>, from: int, e: int)
    requires
        0 <= from <= e,
        e + 1 < s.len(),
        s[e] == 13,
        s[e + 1] == 10,
        forall|i: int| from <= i < e ==> s[i] != 13,
    ensures
        line_end(s, from) == e,
    decreases e - from,
{
    if from < e {
        lemma_line_end_at(s, from + 1, e);
    }
}

/// Reading back a frame that `encode_frame` wrote gives the body, byte for
/// byte, and consumes the whole frame.
pub proof fn lemma_frame_round_trip(body: Seq<u8>)
    requires
        body.len() <= usize::MAX,
    ensures
        decode_spec(frame(body)) == Ok::<(Seq<u8>, nat), FrameError>((body, frame(body).len())),
{
    let f = frame(body);
    let p = length_prefix();
    let d = decimal(body.len());
    lemma_decimal_digits(body.len());
    let l: int = 16 + d.len() as int;
    assert(f[l] == 13 && f[l + 1] == 10 && f[l + 2] == 13 && f[l + 3] == 10);
    assert forall|i: int| 0 <= i < l implies f[i] != 13 by {
        if i < 16 {
            assert(f[i] == p[i]);
        } else {
            assert(f[i] == d[i - 16]);
            assert(is_digit(d[i - 16]));
        }
    }
    lemma_line_end_at(f, 0, l);
    lemma_line_end_at(f, l + 2, l + 2);
    let line = f.subrange(0, l);
    assert(line.subrange(0, 16) =~= p);
    assert(line.subrange(16, line.len() as int) =~= d);
    assert(length_of_line(line) == Some(Ok::<nat, FrameError>(body.len())));
    assert(header_from(f, l + 2, Some(body.len())) == Ok::<(nat, nat), FrameError>(
        ((l + 4) as nat, body.len()),
    ));
    assert(f.subrange(l + 4, l + 4 + body.len()) =~= body);
}

} // verus!
