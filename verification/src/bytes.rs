//! Numbers as sequences of bytes.
use vstd::prelude::*;

verus! {

/// The lowest `n` bytes of a number, least significant first.
pub open spec fn le_bytes(x: nat, n: nat) -> Seq<u8>
    decreases n,
{
    if n == 0 {
        Seq::empty()
    } else {
        seq![(x % 256) as u8] + le_bytes(x / 256, (n - 1) as nat)
    }
}

/// The lowest `n` bytes of a number, most significant first.
pub open spec fn be_bytes(x: nat, n: nat) -> Seq<u8>
    decreases n,
{
    if n == 0 {
        Seq::empty()
    } else {
        be_bytes(x / 256, (n - 1) as nat).push((x % 256) as u8)
    }
}

/// The number that bytes write, most significant first.
pub open spec fn be_value(s: Seq<u8>) -> nat
    decreases s.len(),
{
    if s.len() == 0 {
        0
    } else {
        be_value(s.drop_last()) * 256 + s.last() as nat
    }
}

pub open spec fn pow256(n: nat) -> nat
    decreases n,
{
    if n == 0 {
        1
    } else {
        256 * pow256((n - 1) as nat)
    }
}

proof fn lemma_pow256_u64()
    ensures
        pow256(8) == 0x1_0000_0000_0000_0000,
{
    reveal_with_fuel(pow256, 9);
}

pub proof fn lemma_be_bytes_len(x: nat, n: nat)
    ensures
        be_bytes(x, n).len() == n,
    decreases n,
{
    if n > 0 {
        lemma_be_bytes_len(x / 256, (n - 1) as nat);
    }
}

pub proof fn lemma_le_bytes_len(x: nat, n: nat)
    ensures
        le_bytes(x, n).len() == n,
    decreases n,
{
    if n > 0 {
        lemma_le_bytes_len(x / 256, (n - 1) as nat);
    }
}

/// Two numbers that fit in `n` bytes are the same where their bytes are.
pub proof fn lemma_le_bytes_injective(x: nat, y: nat, n: nat)
    requires
        le_bytes(x, n) == le_bytes(y, n),
        x < pow256(n),
        y < pow256(n),
    ensures
        x == y,
    decreases n,
{
    if n > 0 {
        let a = le_bytes(x, n);
        let b = le_bytes(y, n);
        lemma_le_bytes_len(x / 256, (n - 1) as nat);
        lemma_le_bytes_len(y / 256, (n - 1) as nat);
        assert(a.skip(1) =~= le_bytes(x / 256, (n - 1) as nat));
        assert(b.skip(1) =~= le_bytes(y / 256, (n - 1) as nat));
        assert(a[0] == (x % 256) as u8);
        assert(b[0] == (y % 256) as u8);
        lemma_le_bytes_injective(x / 256, y / 256, (n - 1) as nat);
    }
}

proof fn lemma_be_round_trip(x: nat, n: nat)
    requires
        x < pow256(n),
    ensures
        be_value(be_bytes(x, n)) == x,
    decreases n,
{
    if n > 0 {
        lemma_be_round_trip(x / 256, (n - 1) as nat);
        let s = be_bytes(x, n);
        assert(s.drop_last() == be_bytes(x / 256, (n - 1) as nat));
    }
}

/// Reading back the eight bytes of a 64-bit number gives the number.
pub proof fn lemma_u64_be_round_trip(x: u64)
    ensures
        be_value(be_bytes(x as nat, 8)) == x,
        be_bytes(x as nat, 8).len() == 8,
{
    lemma_pow256_u64();
    lemma_be_round_trip(x as nat, 8);
    lemma_be_bytes_len(x as nat, 8);
}

proof fn lemma_be_value_bound(s: Seq<u8>)
    ensures
        be_value(s) < pow256(s.len()),
    decreases s.len(),
{
    if s.len() > 0 {
        lemma_be_value_bound(s.drop_last());
    }
}

/// The eight bytes of a number, least significant first.
pub fn u64_le(x: u64) -> (r: Vec<u8>)
    ensures
        r@ == le_bytes(x as nat, 8),
{
    let mut out: Vec<u8> = Vec::new();
    let mut rest: u64 = x;
    let mut i: usize = 0;
    while i < 8
        invariant
            i <= 8,
            out@ + le_bytes(rest as nat, (8 - i) as nat) == le_bytes(x as nat, 8),
        decreases 8 - i,
    {
        let ghost before = out@;
        let ghost tail = le_bytes((rest / 256) as nat, (7 - i) as nat);
        assert(le_bytes(rest as nat, (8 - i) as nat) == seq![(rest % 256) as u8] + tail);
        out.push((rest % 256) as u8);
        assert(out@ + tail == before + (seq![(rest % 256) as u8] + tail));
        rest = rest / 256;
        i += 1;
    }
    assert(out@ + le_bytes(rest as nat, 0) == out@);
    out
}

/// The eight bytes of a number, most significant first.
pub fn u64_be(x: u64) -> (r: Vec<u8>)
    ensures
        r@ == be_bytes(x as nat, 8),
{
    u64_be_low(x, 8)
}

fn u64_be_low(x: u64, n: usize) -> (r: Vec<u8>)
    ensures
        r@ == be_bytes(x as nat, n as nat),
    decreases n,
{
    if n == 0 {
        Vec::new()
    } else {
        let mut out = u64_be_low(x / 256, n - 1);
        out.push((x % 256) as u8);
        out
    }
}

/// The number that eight bytes write, most significant first.
pub fn u64_from_be(s: &[u8]) -> (r: u64)
    requires
        s@.len() == 8,
    ensures
        r == be_value(s@),
{
    let mut value: u64 = 0;
    let mut i: usize = 0;
    proof {
        lemma_pow256_u64();
        lemma_be_value_bound(s@);
    }
    assert(s@.take(0) == Seq::<u8>::empty());
    while i < 8
        invariant
            s@.len() == 8,
            i <= 8,
            value == be_value(s@.take(i as int)),
        decreases 8 - i,
    {
        proof {
            reveal_with_fuel(pow256, 9);
            lemma_be_value_bound(s@.take(i as int));
            assert(s@.take(i + 1).drop_last() == s@.take(i as int));
            assert(pow256(i as nat) <= pow256(7)) by {
                reveal_with_fuel(pow256, 9);
            }
        }
        value = value * 256 + s[i] as u64;
        i += 1;
    }
    assert(s@.take(8) == s@);
    value
}

/// The value of bytes, most significant first: one more byte makes what stands before it count
/// 256 times.
pub proof fn lemma_be_value(s: Seq<u8>, b: u8)
    ensures
        be_value(s.push(b)) == be_value(s) * 256 + b,
        be_value(Seq::empty()) == 0,
{
    assert(s.push(b).drop_last() =~= s);
}

} // verus!
