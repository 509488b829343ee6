//! Little-endian integers and two's complement, the building blocks of
//! every fixed-width wire value.

use vstd::prelude::*;

verus! {

/// `256^n`: the number of distinct values an `n`-byte field can hold.
pub open spec fn base(n: nat) -> nat
    decreases n,
{
    if n == 0 {
        1
    } else {
        256 * base((n - 1) as nat)
    }
}

/// The unsigned integer whose little-endian byte string is `s`.
pub open spec fn le_value(s: Seq<u8>) -> nat
    decreases s.len(),
{
    if s.len() == 0 {
        0
    } else {
        s[0] as nat + 256 * le_value(s.drop_first())
    }
}

/// The `n` low bytes of `x`, least significant first.
pub open spec fn le_bytes(x: nat, n: nat) -> Seq<u8>
    decreases n,
{
    if n == 0 {
        Seq::empty()
    } else {
        seq![(x % 256) as u8] + le_bytes(x / 256, (n - 1) as nat)
    }
}

/// The signed reading of the `n`-byte unsigned value `u` (two's complement).
pub open spec fn as_signed(u: nat, n: nat) -> int {
    if u < base(n) / 2 {
        u as int
    } else {
        u - base(n)
    }
}

/// The `n`-byte two's-complement bit pattern of `v`, read as unsigned.
pub open spec fn as_unsigned(v: int, n: nat) -> nat {
    if v >= 0 {
        v as nat
    } else {
        (v + base(n)) as nat
    }
}

/// `v` fits in `n` bytes of two's complement.
pub open spec fn fits_signed(v: int, n: nat) -> bool {
    -(base(n) / 2) <= v < base(n) / 2
}

pub proof fn lemma_base_positive(n: nat)
    ensures
        base(n) >= 1,
        n >= 1 ==> base(n) % 2 == 0 && base(n) >= 256,
    decreases n,
{
    if n > 0 {
        lemma_base_positive((n - 1) as nat);
    }
}

pub proof fn lemma_base_monotone(a: nat, b: nat)
    requires
        a <= b,
    ensures
        base(a) <= base(b),
    decreases b,
{
    if a < b {
        lemma_base_monotone(a, (b - 1) as nat);
        lemma_base_positive((b - 1) as nat);
    }
}

/// The widths the codec works with, as concrete numbers.
pub proof fn lemma_base_values()
    ensures
        base(1) == 0x100,
        base(2) == 0x1_0000,
        base(4) == 0x1_0000_0000,
        base(8) == 0x1_0000_0000_0000_0000,
        base(16) == 0x1_0000_0000_0000_0000_0000_0000_0000_0000,
{
    reveal_with_fuel(base, 17);
}

pub proof fn lemma_le_value_bound(s: Seq<u8>)
    ensures
        le_value(s) < base(s.len()),
    decreases s.len(),
{
    if s.len() > 0 {
        lemma_le_value_bound(s.drop_first());
        let r = le_value(s.drop_first());
        let b = base((s.len() - 1) as nat);
        assert(s[0] as nat + 256 * r < 256 * b) by (nonlinear_arith)
            requires
                r < b,
                s[0] < 256,
        ;
    }
}

pub proof fn lemma_le_bytes_len(x: nat, n: nat)
    ensures
        le_bytes(x, n).len() == n,
    decreases n,
{
    if n > 0 {
        lemma_le_bytes_len(x / 256, (n - 1) as nat);
    }
}

/// Writing `x` in `n` bytes and reading it back gives `x` when it fits.
pub proof fn lemma_le_round_trip(x: nat, n: nat)
    requires
        x < base(n),
    ensures
        le_value(le_bytes(x, n)) == x,
        le_bytes(x, n).len() == n,
    decreases n,
{
    lemma_le_bytes_len(x, n);
    if n > 0 {
        let b = base((n - 1) as nat);
        assert(x / 256 < b) by (nonlinear_arith)
            requires
                x < 256 * b,
        ;
        lemma_le_round_trip(x / 256, (n - 1) as nat);
        let s = le_bytes(x, n);
        assert(s.drop_first() =~= le_bytes(x / 256, (n - 1) as nat));
        assert(x == x % 256 + 256 * (x / 256)) by (nonlinear_arith);
    }
}

/// Reading a byte string and writing the number back gives the same bytes.
pub proof fn lemma_le_bytes_of_value(s: Seq<u8>)
    ensures
        le_bytes(le_value(s), s.len()) == s,
    decreases s.len(),
{
    if s.len() > 0 {
        let r = le_value(s.drop_first());
        let x = le_value(s);
        let a = s[0] as nat;
        assert(x % 256 == a && x / 256 == r) by (nonlinear_arith)
            requires
                x == a + 256 * r,
                a < 256,
        ;
        lemma_le_bytes_of_value(s.drop_first());
        assert(le_bytes(x, s.len()) =~= s);
    }
}

/// Two numbers below `base(n)` with the same `n`-byte form are equal.
pub proof fn lemma_le_bytes_injective(x: nat, y: nat, n: nat)
    requires
        x < base(n),
        y < base(n),
        le_bytes(x, n) == le_bytes(y, n),
    ensures
        x == y,
{
    lemma_le_round_trip(x, n);
    lemma_le_round_trip(y, n);
}

/// Two's complement reading and writing undo each other.
pub proof fn lemma_signed_round_trip(u: nat, v: int, n: nat)
    requires
        n >= 1,
    ensures
        u < base(n) ==> fits_signed(as_signed(u, n), n) && as_unsigned(as_signed(u, n), n) == u,
        fits_signed(v, n) ==> as_unsigned(v, n) < base(n) && as_signed(as_unsigned(v, n), n) == v,
{
    lemma_base_positive(n);
}

/// `256^n` for a field narrower than 16 bytes.
fn base_exec(n: usize) -> (r: u128)
    requires
        n < 16,
    ensures
        r == base(n as nat),
{
    proof {
        lemma_base_values();
        lemma_base_monotone(n as nat, 15);
        lemma_base_monotone(15, 16);
    }
    let mut r: u128 = 1;
    let mut i: usize = 0;
    while i < n
        invariant
            i <= n,
            n < 16,
            r == base(i as nat),
            base(n as nat) <= base(15),
            base(15) < base(16),
            base(16) == 0x1_0000_0000_0000_0000_0000_0000_0000_0000,
        decreases n - i,
    {
        proof {
            lemma_base_monotone((i + 1) as nat, n as nat);
        }
        r = r * 256;
        i = i + 1;
    }
    r
}

/// Reads the `n`-byte little-endian unsigned integer at `input[start..]`.
pub fn read_le(input: &[u8], start: usize, n: usize) -> (r: u128)
    requires
        n <= 16,
        start + n <= input@.len(),
    ensures
        r as nat == le_value(input@.subrange(start as int, start + n)),
        (r as nat) < base(n as nat),
{
    proof {
        lemma_base_values();
    }
    let len: usize = input.len();
    let mut acc: u128 = 0;
    let mut i: usize = n;
    while i > 0
        invariant
            i <= n,
            n <= 16,
            len == input@.len(),
            start + n <= input@.len(),
            acc as nat == le_value(input@.subrange(start + i, start + n)),
            (acc as nat) < base((n - i) as nat),
            base(16) == 0x1_0000_0000_0000_0000_0000_0000_0000_0000,
        decreases i,
    {
        i = i - 1;
        let b = input[start + i];
        proof {
            let s = input@.subrange(start + i, start + n);
            assert(s.drop_first() =~= input@.subrange(start + i + 1, start + n));
            lemma_base_monotone((n - i) as nat, 16);
            let p = base((n - i - 1) as nat);
            assert(b as nat + 256 * acc < 256 * p) by (nonlinear_arith)
                requires
                    acc < p,
                    b < 256,
            ;
        }
        acc = acc * 256 + b as u128;
    }
    acc
}

/// Appends the `n` low bytes of `x` to `out`, least significant first.
pub fn write_le(out: &mut Vec<u8>, x: u128, n: usize)
    requires
        n <= 16,
        (x as nat) < base(n as nat),
    ensures
        final(out)@ == old(out)@ + le_bytes(x as nat, n as nat),
{
    let ghost start = old(out)@;
    let mut rest: u128 = x;
    let mut i: usize = 0;
    while i < n
        invariant
            i <= n,
            out@ + le_bytes(rest as nat, (n - i) as nat) == start + le_bytes(x as nat, n as nat),
        decreases n - i,
    {
        let ghost before = out@;
        out.push((rest % 256) as u8);
        proof {
            assert(out@ + le_bytes((rest / 256) as nat, (n - i - 1) as nat) =~= before + le_bytes(
                rest as nat,
                (n - i) as nat,
            ));
        }
        rest = rest / 256;
        i = i + 1;
    }
    assert(out@ =~= out@ + le_bytes(rest as nat, 0));
}

/// The signed reading of the `n`-byte unsigned value `u`.
pub fn to_signed(u: u128, n: usize) -> (r: i128)
    requires
        1 <= n <= 16,
        (u as nat) < base(n as nat),
    ensures
        r as int == as_signed(u as nat, n as nat),
        fits_signed(r as int, n as nat),
{
    proof {
        lemma_base_values();
        lemma_base_positive(n as nat);
        lemma_signed_round_trip(u as nat, 0, n as nat);
    }
    if n == 16 {
        if u < 0x8000_0000_0000_0000_0000_0000_0000_0000 {
            u as i128
        } else {
            -((u128::MAX - u) as i128) - 1
        }
    } else {
        let b = base_exec(n);
        proof {
            lemma_base_monotone(n as nat, 15);
            lemma_base_monotone(15, 16);
        }
        if u < b / 2 {
            u as i128
        } else {
            u as i128 - b as i128
        }
    }
}

/// The `n`-byte two's-complement bit pattern of `v`, read as unsigned.
pub fn to_unsigned(v: i128, n: usize) -> (r: u128)
    requires
        1 <= n <= 16,
        fits_signed(v as int, n as nat),
    ensures
        r as nat == as_unsigned(v as int, n as nat),
        (r as nat) < base(n as nat),
{
    proof {
        lemma_base_values();
        lemma_base_positive(n as nat);
        lemma_signed_round_trip(0, v as int, n as nat);
    }
    if v >= 0 {
        v as u128
    } else if n == 16 {
        u128::MAX - ((-(v + 1)) as u128)
    } else {
        let b = base_exec(n);
        proof {
            lemma_base_monotone(n as nat, 15);
            lemma_base_monotone(15, 16);
        }
        (v + b as i128) as u128
    }
}

} // verus!
