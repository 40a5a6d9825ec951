//! Base-128 variable-length integers, least significant group first.

use vstd::prelude::*;

verus! {

/// The bytes that stand for `v`: seven bits per byte, low groups first, the
/// top bit set on every byte but the last.
pub open spec fn varint_bytes(v: nat) -> Seq<u8>
    decreases v,
{
    if v < 128 {
        seq![v as u8]
    } else {
        seq![(128 + v % 128) as u8] + varint_bytes(v / 128)
    }
}

/// The integer at the head of `b` and the number of bytes it takes, reading
/// at most `limit` bytes; `None` where `b` ends too early, the integer takes
/// more than `limit` bytes or does not fit in 64 bits.
pub open spec fn varint_at(b: Seq<u8>, limit: nat) -> Option<(u64, nat)>
    decreases limit,
{
    if limit == 0 || b.len() == 0 {
        None
    } else if b[0] < 128 {
        Some((b[0] as u64, 1nat))
    } else {
        match varint_at(b.skip(1), (limit - 1) as nat) {
            Some((v, n)) => if (b[0] - 128) + 128 * v <= u64::MAX {
                Some((((b[0] - 128) + 128 * v) as u64, n + 1))
            } else {
                None
            },
            None => None,
        }
    }
}

/// A 64-bit integer takes at most ten bytes.
pub open spec fn parse_varint(b: Seq<u8>) -> Option<(u64, nat)> {
    varint_at(b, 10)
}

/// 128 to the power of `n`.
pub open spec fn pow128(n: nat) -> nat
    decreases n,
{
    if n == 0 {
        1
    } else {
        128 * pow128((n - 1) as nat)
    }
}

/// An integer takes at least one byte.
pub proof fn lemma_varint_len(v: nat)
    ensures
        varint_bytes(v).len() >= 1,
    decreases v,
{
    if v >= 128 {
        lemma_varint_len(v / 128);
    }
}

/// What was read took at least one byte, no more than the limit and no
/// more than there are.
pub proof fn lemma_varint_at_bounds(b: Seq<u8>, limit: nat)
    ensures
        match varint_at(b, limit) {
            Some((_, n)) => 1 <= n <= limit && n <= b.len(),
            None => true,
        },
    decreases limit,
{
    if limit != 0 && b.len() != 0 && b[0] >= 128 {
        lemma_varint_at_bounds(b.skip(1), (limit - 1) as nat);
    }
}

proof fn lemma_round_trip_bounded(v: nat, rest: Seq<u8>, limit: nat)
    requires
        limit >= 1,
        v < pow128(limit),
        v <= u64::MAX,
    ensures
        varint_at(varint_bytes(v) + rest, limit) == Some((v as u64, varint_bytes(v).len())),
    decreases limit,
{
    let b = varint_bytes(v) + rest;
    lemma_varint_len(v);
    if v < 128 {
        assert(b[0] == v as u8);
    } else {
        assert(pow128(1) == 128) by {
            reveal_with_fuel(pow128, 2);
        }
        assert(limit >= 2);
        let tail = varint_bytes(v / 128);
        assert(b[0] == (128 + v % 128) as u8);
        assert(b.skip(1) =~= tail + rest);
        assert(v / 128 < pow128((limit - 1) as nat));
        lemma_round_trip_bounded(v / 128, rest, (limit - 1) as nat);
        assert((b[0] - 128) + 128 * (v / 128) == v);
        assert(varint_bytes(v).len() == tail.len() + 1);
    }
}

/// Reading what `varint_bytes` wrote gives the integer back, whatever follows.
pub proof fn lemma_varint_round_trip(v: u64, rest: Seq<u8>)
    ensures
        parse_varint(varint_bytes(v as nat) + rest) == Some((v, varint_bytes(v as nat).len())),
{
    assert(pow128(10) > u64::MAX) by {
        reveal_with_fuel(pow128, 11);
    }
    lemma_round_trip_bounded(v as nat, rest, 10);
}

/// Appends the bytes of `v` to `buf`.
pub fn put_varint(buf: &mut Vec<u8>, v: u64)
    ensures
        final(buf)@ == old(buf)@ + varint_bytes(v as nat),
    decreases v,
{
    if v < 128 {
        buf.push(v as u8);
        assert(final(buf)@ =~= old(buf)@ + varint_bytes(v as nat));
    } else {
        buf.push((128 + v % 128) as u8);
        put_varint(buf, v / 128);
        assert(final(buf)@ =~= old(buf)@ + varint_bytes(v as nat));
    }
}

fn take_bounded(b: &[u8], pos: usize, limit: u8) -> (r: Option<(u64, usize)>)
    requires
        pos <= b.len(),
    ensures
        match r {
            Some((v, n)) => varint_at(b@.skip(pos as int), limit as nat) == Some((v, n as nat))
                && pos + n <= b.len(),
            None => varint_at(b@.skip(pos as int), limit as nat) is None,
        },
    decreases limit,
{
    if limit == 0 || pos >= b.len() {
        return None;
    }
    let byte = b[pos];
    if byte < 128 {
        return Some((byte as u64, 1));
    }
    proof {
        assert(b@.skip(pos as int).skip(1) =~= b@.skip(pos + 1));
        lemma_varint_at_bounds(b@.skip(pos + 1), (limit - 1) as nat);
    }
    match take_bounded(b, pos + 1, limit - 1) {
        Some((v, n)) => {
            let low: u64 = (byte - 128) as u64;
            if v <= (u64::MAX - low) / 128 {
                Some((low + 128 * v, n + 1))
            } else {
                None
            }
        },
        None => None,
    }
}

/// Reads the integer that starts at `pos`, with the number of bytes it took.
pub fn take_varint(b: &[u8], pos: usize) -> (r: Option<(u64, usize)>)
    requires
        pos <= b.len(),
    ensures
        match r {
            Some((v, n)) => parse_varint(b@.skip(pos as int)) == Some((v, n as nat)) && 1 <= n
                && pos + n <= b.len(),
            None => parse_varint(b@.skip(pos as int)) is None,
        },
{
    proof {
        lemma_varint_at_bounds(b@.skip(pos as int), 10);
    }
    take_bounded(b, pos, 10)
}

} // verus!
