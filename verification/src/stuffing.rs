//! Byte stuffing.
//!
//! A frame ends with the delimiter byte, so the delimiter must not occur
//! inside it. Stuffing cuts a payload at its delimiter bytes and writes each
//! piece behind a code byte that holds the piece's length plus one. The
//! delimiters themselves are dropped: the reader puts one back between two
//! pieces. A piece of 254 bytes or more is cut once more after every 254
//! bytes; the code 255 marks such a cut, behind which the reader puts no
//! delimiter back.

use vstd::prelude::*;
use vstd::slice::slice_subrange;

verus! {

/// The byte that ends a frame.
pub const DELIMITER: u8 = 0;

/// The longest piece behind one code byte.
pub const LONG_RUN: usize = 254;

/// The code of a piece of `LONG_RUN` bytes that no delimiter follows.
pub const LONG_CODE: u8 = 255;

/// The index of the first delimiter in `bytes`, or their length where there
/// is none.
pub open spec fn first_delimiter(bytes: Seq<u8>) -> nat
    decreases bytes.len(),
{
    if bytes.len() == 0 || bytes[0] == DELIMITER {
        0
    } else {
        1 + first_delimiter(bytes.drop_first())
    }
}

/// No byte of `bytes` is the delimiter.
pub open spec fn delimiter_free(bytes: Seq<u8>) -> bool {
    forall|i: int| 0 <= i < bytes.len() ==> bytes[i] != DELIMITER
}

/// The stuffed form of a payload.
pub open spec fn stuffed(payload: Seq<u8>) -> Seq<u8>
    decreases payload.len(),
{
    let run = first_delimiter(payload) as int;
    if run >= LONG_RUN {
        proof {
            lemma_first_delimiter(payload);
        }
        seq![LONG_CODE] + payload.take(LONG_RUN as int) + stuffed(payload.skip(LONG_RUN as int))
    } else if run >= payload.len() {
        seq![(run + 1) as u8] + payload
    } else {
        seq![(run + 1) as u8] + payload.take(run) + stuffed(payload.skip(run + 1))
    }
}

/// The payload that the stuffed bytes `body` stand for, or `None` where a
/// code byte is the delimiter or points past the end. `body` is a frame
/// without its delimiter.
pub open spec fn unstuffed(body: Seq<u8>) -> Option<Seq<u8>>
    decreases body.len(),
{
    if body.len() == 0 {
        Some(Seq::empty())
    } else {
        let code = body[0] as int;
        if code == 0 || code > body.len() {
            None
        } else {
            let rest = body.skip(code);
            let gap = if code != LONG_CODE && rest.len() > 0 {
                seq![DELIMITER]
            } else {
                Seq::empty()
            };
            match unstuffed(rest) {
                Some(tail) => Some(body.subrange(1, code) + gap + tail),
                None => None,
            }
        }
    }
}

/// `first_delimiter` lies within the bytes, has no delimiter before it and,
/// where it is an index, a delimiter at it.
pub proof fn lemma_first_delimiter(bytes: Seq<u8>)
    ensures
        first_delimiter(bytes) <= bytes.len(),
        delimiter_free(bytes.take(first_delimiter(bytes) as int)),
        first_delimiter(bytes) < bytes.len() ==> bytes[first_delimiter(bytes) as int] == DELIMITER,
    decreases bytes.len(),
{
    if bytes.len() > 0 && bytes[0] != DELIMITER {
        let tail = bytes.drop_first();
        lemma_first_delimiter(tail);
        let at = first_delimiter(tail) as int;
        let head = bytes.take(at + 1);
        assert forall|i: int| 0 <= i < head.len() implies head[i] != DELIMITER by {
            if i > 0 {
                assert(tail.take(at)[i - 1] != DELIMITER);
            }
        }
    }
}

/// An index with no delimiter before it, and a delimiter or the end at it, is
/// `first_delimiter`.
pub proof fn lemma_first_delimiter_at(bytes: Seq<u8>, at: int)
    requires
        0 <= at <= bytes.len(),
        delimiter_free(bytes.take(at)),
        at < bytes.len() ==> bytes[at] == DELIMITER,
    ensures
        first_delimiter(bytes) == at,
    decreases at,
{
    if at > 0 {
        assert(bytes.take(at)[0] != DELIMITER);
        let tail = bytes.drop_first();
        let head = tail.take(at - 1);
        assert forall|i: int| 0 <= i < head.len() implies head[i] != DELIMITER by {
            assert(bytes.take(at)[i + 1] != DELIMITER);
        }
        lemma_first_delimiter_at(tail, at - 1);
    }
}

/// Bytes without a delimiter keep none when more bytes without one follow, and
/// the first delimiter of a sequence is found in any extension of it.
pub proof fn lemma_first_delimiter_extend(bytes: Seq<u8>, more: Seq<u8>)
    ensures
        first_delimiter(bytes) < bytes.len() ==> first_delimiter(bytes + more) == first_delimiter(
            bytes,
        ),
        first_delimiter(bytes) >= bytes.len() ==> first_delimiter(bytes + more) == bytes.len()
            + first_delimiter(more),
{
    lemma_first_delimiter(bytes);
    lemma_first_delimiter(more);
    let whole = bytes + more;
    let at: int = if first_delimiter(bytes) < bytes.len() {
        first_delimiter(bytes) as int
    } else {
        (bytes.len() + first_delimiter(more)) as int
    };
    let head = whole.take(at);
    assert forall|i: int| 0 <= i < head.len() implies head[i] != DELIMITER by {
        if i < bytes.len() {
            assert(bytes.take(first_delimiter(bytes) as int)[i] != DELIMITER);
        } else {
            assert(more.take(first_delimiter(more) as int)[i - bytes.len()] != DELIMITER);
        }
    }
    lemma_first_delimiter_at(whole, at);
}

/// Stuffing leaves no delimiter. It adds one byte, and one more for every
/// 254 bytes of the payload at most.
pub proof fn lemma_stuffed_shape(payload: Seq<u8>)
    ensures
        payload.len() + 1 <= stuffed(payload).len() <= payload.len() + 1 + payload.len() / 254,
        delimiter_free(stuffed(payload)),
    decreases payload.len(),
{
    lemma_first_delimiter(payload);
    let run = first_delimiter(payload) as int;
    let out = stuffed(payload);
    if run >= LONG_RUN {
        let tail = payload.skip(LONG_RUN as int);
        lemma_stuffed_shape(tail);
        assert forall|i: int| 0 <= i < out.len() implies out[i] != DELIMITER by {
            if 1 <= i <= LONG_RUN {
                assert(out[i] == payload.take(run)[i - 1]);
            } else if i > LONG_RUN {
                assert(out[i] == stuffed(tail)[i - LONG_RUN - 1]);
            }
        }
    } else if run >= payload.len() {
        assert(payload.take(run) =~= payload);
    } else {
        let tail = payload.skip(run + 1);
        lemma_stuffed_shape(tail);
        assert forall|i: int| 0 <= i < out.len() implies out[i] != DELIMITER by {
            if 1 <= i <= run {
                assert(out[i] == payload.take(run)[i - 1]);
            } else if i > run {
                assert(out[i] == stuffed(tail)[i - run - 1]);
            }
        }
    }
}

/// Unstuffing what was stuffed gives the payload back.
pub proof fn lemma_unstuff_stuffed(payload: Seq<u8>)
    ensures
        unstuffed(stuffed(payload)) == Some(payload),
    decreases payload.len(),
{
    lemma_first_delimiter(payload);
    let run = first_delimiter(payload) as int;
    let body = stuffed(payload);
    if run >= LONG_RUN {
        let tail = payload.skip(LONG_RUN as int);
        let code = LONG_CODE as int;
        lemma_stuffed_shape(tail);
        lemma_unstuff_stuffed(tail);
        assert(body.skip(code) =~= stuffed(tail));
        assert(body.subrange(1, code) =~= payload.take(LONG_RUN as int));
        assert(payload.take(LONG_RUN as int) + Seq::<u8>::empty() + tail =~= payload);
    } else if run >= payload.len() {
        let code = run + 1;
        assert(body.skip(code) =~= Seq::<u8>::empty());
        assert(unstuffed(Seq::<u8>::empty()) == Some(Seq::<u8>::empty()));
        assert(body.subrange(1, code) + Seq::<u8>::empty() + Seq::<u8>::empty() =~= payload);
    } else {
        let code = run + 1;
        let tail = payload.skip(run + 1);
        lemma_stuffed_shape(tail);
        lemma_unstuff_stuffed(tail);
        assert(body.skip(code) =~= stuffed(tail));
        assert(body.subrange(1, code) =~= payload.take(run));
        assert(payload.take(run) + seq![DELIMITER] + tail =~= payload);
    }
}

/// The place of the first delimiter at or after `from`, or the length of
/// `bytes` where none follows.
pub fn find_delimiter(bytes: &[u8], from: usize) -> (at: usize)
    requires
        from <= bytes.len(),
    ensures
        at == from + first_delimiter(bytes@.skip(from as int)),
        from <= at <= bytes.len(),
{
    let ghost rest = bytes@.skip(from as int);
    let mut at: usize = from;
    while at < bytes.len() && bytes[at] != DELIMITER
        invariant
            from <= at <= bytes.len(),
            rest == bytes@.skip(from as int),
            delimiter_free(rest.take(at - from)),
        decreases bytes.len() - at,
    {
        let ghost seen = rest.take(at - from);
        at = at + 1;
        let ghost head = rest.take(at - from);
        assert forall|i: int| 0 <= i < head.len() implies head[i] != DELIMITER by {
            if i < seen.len() {
                assert(seen[i] != DELIMITER);
            }
        }
    }
    proof {
        lemma_first_delimiter_at(rest, at - from);
    }
    at
}

/// Appends the stuffed form of `payload` to `out`.
pub fn stuff(payload: &[u8], out: &mut Vec<u8>)
    ensures
        final(out)@ == old(out)@ + stuffed(payload@),
{
    let mut pos: usize = 0;
    let mut done = false;
    assert(payload@.skip(0) =~= payload@);
    while !done
        invariant
            pos <= payload.len(),
            !done ==> out@ + stuffed(payload@.skip(pos as int)) == old(out)@ + stuffed(payload@),
            done ==> out@ == old(out)@ + stuffed(payload@),
        decreases payload.len() - pos + (if done { 0int } else { 1int }),
    {
        let ghost rest = payload@.skip(pos as int);
        let ghost before = out@;
        let found = find_delimiter(payload, pos);
        let long = found - pos >= LONG_RUN;
        let stop = if long { pos + LONG_RUN } else { found };
        let code: u8 = if long { LONG_CODE } else { (stop - pos + 1) as u8 };
        out.push(code);
        let mut i: usize = pos;
        while i < stop
            invariant
                pos <= i <= stop <= payload.len(),
                out@ == before.push(code) + payload@.subrange(pos as int, i as int),
            decreases stop - i,
        {
            out.push(payload[i]);
            i = i + 1;
            assert(out@ =~= before.push(code) + payload@.subrange(pos as int, i as int));
        }
        assert(payload@.subrange(pos as int, stop as int) =~= rest.take(stop - pos));
        if long {
            assert(rest.skip(LONG_RUN as int) =~= payload@.skip(stop as int));
            assert(out@ + stuffed(payload@.skip(stop as int)) =~= before + stuffed(rest));
            pos = stop;
        } else if stop == payload.len() {
            assert(rest.take(stop - pos) =~= rest);
            assert(out@ =~= before + stuffed(rest));
            done = true;
        } else {
            assert(rest.skip(stop - pos + 1) =~= payload@.skip(stop + 1));
            assert(out@ + stuffed(payload@.skip(stop + 1)) =~= before + stuffed(rest));
            pos = stop + 1;
        }
    }
}

/// The payload behind the stuffed bytes `body`, or `None` where a code byte
/// is the delimiter or points past the end.
pub fn unstuff(body: &[u8]) -> (payload: Option<Vec<u8>>)
    ensures
        match payload {
            Some(bytes) => unstuffed(body@) == Some(bytes@),
            None => unstuffed(body@) is None,
        },
{
    let mut out: Vec<u8> = Vec::new();
    let mut at: usize = 0;
    proof {
        assert(body@.skip(0) =~= body@);
        if let Some(tail) = unstuffed(body@) {
            assert(out@ + tail =~= tail);
        }
    }
    while at < body.len()
        invariant
            at <= body.len(),
            unstuffed(body@) == match unstuffed(body@.skip(at as int)) {
                Some(tail) => Some(out@ + tail),
                None => None,
            },
        decreases body.len() - at,
    {
        let ghost rest = body@.skip(at as int);
        let ghost before = out@;
        let code: usize = body[at] as usize;
        assert(rest[0] == body@[at as int]);
        if code == 0 || code > body.len() - at {
            return None;
        }
        let piece = slice_subrange(body, at + 1, at + code);
        let mut i: usize = 0;
        while i < piece.len()
            invariant
                i <= piece.len(),
                out@ == before + piece@.take(i as int),
            decreases piece.len() - i,
        {
            out.push(piece[i]);
            i = i + 1;
            assert(out@ =~= before + piece@.take(i as int));
        }
        assert(piece@.take(i as int) =~= rest.subrange(1, code as int));
        at = at + code;
        assert(rest.skip(code as int) =~= body@.skip(at as int));
        if code != LONG_CODE as usize && at < body.len() {
            out.push(DELIMITER);
        }
        assert(unstuffed(rest) == match unstuffed(body@.skip(at as int)) {
            Some(tail) => Some(
                rest.subrange(1, code as int) + (if code != LONG_CODE && at < body.len() {
                    seq![DELIMITER]
                } else {
                    Seq::empty()
                }) + tail,
            ),
            None => None,
        });
        assert(forall|tail: Seq<u8>|
            before + (rest.subrange(1, code as int) + (if code != LONG_CODE && at < body.len() {
                seq![DELIMITER]
            } else {
                Seq::empty()
            }) + tail) =~= #[trigger] (out@ + tail));
    }
    assert(body@.skip(at as int) =~= Seq::<u8>::empty());
    assert(out@ + Seq::<u8>::empty() =~= out@);
    Some(out)
}

} // verus!
