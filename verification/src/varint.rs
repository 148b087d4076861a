//! Variable-length integers.
//!
//! An integer is written in groups of seven bits, least significant group
//! first. Every byte but the last has its high bit set. A reader accepts at
//! most `width` bytes, and in the last of a full-width integer only values up
//! to `top`, so that nothing read exceeds the integer type it is read for.

use vstd::prelude::*;

verus! {

/// The bytes of `n`, in the shortest form.
pub open spec fn varint(n: nat) -> Seq<u8>
    decreases n,
{
    if n < 128 {
        seq![n as u8]
    } else {
        seq![(n % 128 + 128) as u8] + varint(n / 128)
    }
}

/// One more than the largest value that `width` bytes can hold when the last
/// byte of a full-width integer is at most `top`.
pub open spec fn span(width: nat, top: nat) -> nat
    decreases width,
{
    if width == 0 {
        0
    } else if width == 1 {
        top + 1
    } else {
        128 * span((width - 1) as nat, top)
    }
}

/// At least one value fits in one byte or more.
pub proof fn lemma_span_positive(width: nat, top: nat)
    requires
        width >= 1,
    ensures
        span(width, top) >= 1,
    decreases width,
{
    if width > 1 {
        lemma_span_positive((width - 1) as nat, top);
    }
}

/// What reading one integer off the front of a byte sequence yields.
pub enum Scanned {
    /// The integer and the number of bytes it occupied.
    Value { value: nat, used: nat },
    /// The bytes ran out inside the integer.
    Short,
    /// The integer is longer than `width` bytes or exceeds its type.
    Bad,
}

/// Reads one integer off the front of `bytes`.
pub open spec fn scan(bytes: Seq<u8>, width: nat, top: nat) -> Scanned
    decreases width,
{
    if width == 0 {
        Scanned::Bad
    } else if bytes.len() == 0 {
        Scanned::Short
    } else if bytes[0] < 128 {
        if width == 1 && bytes[0] > top {
            Scanned::Bad
        } else {
            Scanned::Value { value: bytes[0] as nat, used: 1 }
        }
    } else {
        match scan(bytes.drop_first(), (width - 1) as nat, top) {
            Scanned::Value { value, used } => Scanned::Value {
                value: ((bytes[0] - 128) + 128 * value) as nat,
                used: used + 1,
            },
            other => other,
        }
    }
}

/// What [`take_varint`] returns: the executable form of [`Scanned`].
#[derive(Debug, Clone, Copy, PartialEq, Eq)]
pub enum Scan {
    /// The integer and the number of bytes it occupied.
    Value { value: u32, used: usize },
    /// The bytes ran out inside the integer.
    Short,
    /// The integer is longer than `width` bytes or exceeds its type.
    Bad,
}

impl View for Scan {
    type V = Scanned;

    open spec fn view(&self) -> Scanned {
        match *self {
            Scan::Value { value, used } => Scanned::Value { value: value as nat, used: used as nat },
            Scan::Short => Scanned::Short,
            Scan::Bad => Scanned::Bad,
        }
    }
}

/// A value that was read is below `span`, and took between one and `width`
/// bytes, all of them present.
pub proof fn lemma_scan_bounds(bytes: Seq<u8>, width: nat, top: nat)
    ensures
        scan(bytes, width, top) matches Scanned::Value { value, used } ==> value < span(width, top)
            && 1 <= used <= width && used <= bytes.len(),
    decreases width,
{
    if width > 0 && bytes.len() > 0 {
        if bytes[0] >= 128 {
            lemma_scan_bounds(bytes.drop_first(), (width - 1) as nat, top);
        } else if width > 1 {
            lemma_span_positive((width - 1) as nat, top);
        }
    }
}

/// The shortest form of a value below `span` has at most `width` bytes.
pub proof fn lemma_varint_len(n: nat, width: nat, top: nat)
    requires
        n < span(width, top),
        top < 128,
    ensures
        1 <= varint(n).len() <= width,
    decreases n,
{
    if n >= 128 {
        lemma_varint_len(n / 128, (width - 1) as nat, top);
    }
}

/// Reading back what was written gives the value and its length, whatever
/// follows it.
pub proof fn lemma_scan_varint(n: nat, rest: Seq<u8>, width: nat, top: nat)
    requires
        n < span(width, top),
        top < 128,
    ensures
        scan(varint(n) + rest, width, top) == (Scanned::Value { value: n, used: varint(n).len() }),
    decreases n,
{
    let bytes = varint(n) + rest;
    if n >= 128 {
        let tail = varint(n / 128);
        assert(bytes.drop_first() =~= tail + rest);
        lemma_scan_varint(n / 128, rest, (width - 1) as nat, top);
    }
}

/// An integer cut short reads as `Short`: no proper prefix of its bytes is
/// taken for a value.
pub proof fn lemma_scan_prefix(n: nat, cut: int, width: nat, top: nat)
    requires
        n < span(width, top),
        top < 128,
        0 <= cut < varint(n).len(),
    ensures
        scan(varint(n).take(cut), width, top) == Scanned::Short,
    decreases n,
{
    let bytes = varint(n).take(cut);
    if n >= 128 && cut > 0 {
        let tail = varint(n / 128);
        assert(bytes.drop_first() =~= tail.take(cut - 1));
        lemma_scan_prefix(n / 128, cut - 1, (width - 1) as nat, top);
    }
}

/// Appends the shortest form of `n` to `out`.
pub fn put_varint(n: u32, out: &mut Vec<u8>)
    ensures
        final(out)@ == old(out)@ + varint(n as nat),
{
    let mut value: u32 = n;
    while value >= 128
        invariant
            out@ + varint(value as nat) == old(out)@ + varint(n as nat),
        decreases value,
    {
        let low: u8 = (value % 128) as u8;
        let ghost before = out@;
        out.push(low + 128);
        assert(out@ + varint((value / 128) as nat) =~= before + varint(value as nat));
        value = value / 128;
    }
    let ghost before = out@;
    out.push(value as u8);
    assert(out@ =~= before + varint(value as nat));
}

/// Reads one integer from `bytes`, starting at `at`.
pub fn take_varint(bytes: &[u8], at: usize, width: u8, top: u8) -> (r: Scan)
    requires
        at <= bytes.len(),
        span(width as nat, top as nat) <= u32::MAX + 1,
    ensures
        r@ == scan(bytes@.skip(at as int), width as nat, top as nat),
    decreases width,
{
    let ghost rest = bytes@.skip(at as int);
    if width == 0 {
        Scan::Bad
    } else if at >= bytes.len() {
        Scan::Short
    } else {
        let first: u8 = bytes[at];
        assert(rest[0] == first);
        if first < 128 {
            if width == 1 && first > top {
                Scan::Bad
            } else {
                proof {
                    lemma_scan_bounds(rest, width as nat, top as nat);
                }
                Scan::Value { value: first as u32, used: 1 }
            }
        } else {
            assert(rest.drop_first() =~= bytes@.skip(at + 1));
            proof {
                lemma_scan_bounds(rest, width as nat, top as nat);
            }
            match take_varint(bytes, at + 1, width - 1, top) {
                Scan::Value { value, used } => Scan::Value {
                    value: (first - 128) as u32 + 128 * value,
                    used: used + 1,
                },
                Scan::Short => Scan::Short,
                Scan::Bad => Scan::Bad,
            }
        }
    }
}

} // verus!
