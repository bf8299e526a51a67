//! Little-endian numbers in byte sequences.

use vstd::prelude::*;

verus! {

/// The number that the first `n` bytes of `b` from `at` write, lowest byte
/// first.
pub open spec fn le_value(b: Seq<u8>, at: int, n: nat) -> nat
    decreases n,
{
    if n == 0 {
        0
    } else {
        b[at] as nat + 256 * le_value(b, at + 1, (n - 1) as nat)
    }
}

/// `x` in `n` bytes, lowest byte first; what does not fit is dropped.
pub open spec fn le_bytes(x: nat, n: nat) -> Seq<u8>
    decreases n,
{
    if n == 0 {
        Seq::empty()
    } else {
        seq![(x % 256) as u8] + le_bytes(x / 256, (n - 1) as nat)
    }
}

/// 256 to the power `n`.
pub open spec fn byte_range(n: nat) -> nat
    decreases n,
{
    if n == 0 {
        1
    } else {
        256 * byte_range((n - 1) as nat)
    }
}

/// A number written in little-endian bytes has that many bytes and reads back
/// as itself, wherever the bytes stand.
pub proof fn le_round_trip(x: nat, n: nat, b: Seq<u8>, at: int)
    requires
        x < byte_range(n),
        0 <= at,
        at + n <= b.len(),
        b.subrange(at, at + n) == le_bytes(x, n),
    ensures
        le_bytes(x, n).len() == n,
        le_value(b, at, n) == x,
    decreases n,
{
    le_bytes_len(x, n);
    if n > 0 {
        let m = (n - 1) as nat;
        assert(b.subrange(at, at + n)[0] == b[at]);
        assert(b.subrange(at + 1, at + n) =~= b.subrange(at, at + n).subrange(1, n as int));
        assert(le_bytes(x, n).subrange(1, n as int) =~= le_bytes(x / 256, m)) by {
            le_bytes_len(x / 256, m);
        }
        assert(b.subrange(at + 1, at + 1 + m) == le_bytes(x / 256, m));
        assert(x / 256 < byte_range(m));
        le_round_trip(x / 256, m, b, at + 1);
    }
}

pub proof fn le_bytes_len(x: nat, n: nat)
    ensures
        le_bytes(x, n).len() == n,
    decreases n,
{
    if n > 0 {
        le_bytes_len(x / 256, (n - 1) as nat);
    }
}

/// Appends `x` in `n` little-endian bytes.
pub fn push_le(out: &mut Vec<u8>, x: u64, n: usize)
    ensures
        final(out)@ == old(out)@ + le_bytes(x as nat, n as nat),
{
    let mut rest: u64 = x;
    let mut i: usize = 0;
    let ghost start = out@;
    assert(start + le_bytes(x as nat, n as nat) =~= out@ + le_bytes(
        rest as nat,
        (n - i) as nat,
    ));
    while i < n
        invariant
            i <= n,
            start + le_bytes(x as nat, n as nat) == out@ + le_bytes(rest as nat, (n - i) as nat),
        decreases n - i,
    {
        let ghost before = out@;
        let ghost whole = rest as nat;
        out.push((rest % 256) as u8);
        rest = rest / 256;
        i = i + 1;
        proof {
            assert(le_bytes(whole, (n - i + 1) as nat) == seq![(whole % 256) as u8] + le_bytes(
                whole / 256,
                (n - i) as nat,
            ));
            assert(out@ + le_bytes(rest as nat, (n - i) as nat) =~= before + le_bytes(
                whole,
                (n - i + 1) as nat,
            ));
        }
    }
    assert(out@ + le_bytes(rest as nat, 0) =~= out@);
}

/// Reads the number in the `n` bytes of `b` from `at`.
pub fn read_le(b: &Vec<u8>, at: usize, n: usize) -> (r: u64)
    requires
        at + n <= b.len(),
        n <= 8,
    ensures
        r == le_value(b@, at as int, n as nat),
        r < byte_range(n as nat),
    decreases n,
{
    if n == 0 {
        0
    } else {
        let rest: u64 = read_le(b, at + 1, n - 1);
        proof {
            byte_range_bound((n - 1) as nat);
            assert(byte_range(n as nat) == 256 * byte_range((n - 1) as nat));
        }
        b[at] as u64 + 256 * rest
    }
}

proof fn byte_range_bound(n: nat)
    requires
        n <= 7,
    ensures
        byte_range(n) <= 0x100_0000_0000_0000,
{
    reveal_with_fuel(byte_range, 8);
}

/// `x` in `bits` bits of two's complement, as an unsigned number.
pub open spec fn twos(x: int, range: int) -> nat {
    (if x < 0 {
        x + range
    } else {
        x
    }) as nat
}

/// The signed number that `u` is in two's complement with `range` values.
pub open spec fn signed(u: nat, range: int) -> int {
    if 2 * u >= range {
        u - range
    } else {
        u as int
    }
}

} // verus!
