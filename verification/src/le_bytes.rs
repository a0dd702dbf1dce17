//! Little-endian integer encoding, as used by the instruction layout.

use vstd::prelude::*;

verus! {

/// `256^n`.
pub open spec fn pow256(n: nat) -> nat
    decreases n,
{
    if n == 0 {
        1
    } else {
        256 * pow256((n - 1) as nat)
    }
}

/// The value of a byte sequence read least significant byte first.
pub open spec fn le_value(b: Seq<u8>) -> nat
    decreases b.len(),
{
    if b.len() == 0 {
        0
    } else {
        le_value(b.drop_last()) + (b.last() as nat) * pow256((b.len() - 1) as nat)
    }
}

/// The `n` low bytes of `v`, least significant byte first.
pub open spec fn le_bytes(v: nat, n: nat) -> Seq<u8>
    decreases n,
{
    if n == 0 {
        Seq::empty()
    } else {
        le_bytes(v, (n - 1) as nat).push(((v / pow256((n - 1) as nat)) % 256) as u8)
    }
}

/// `256^n` is positive and grows with `n`.
pub proof fn lemma_pow256_grows(m: nat, n: nat)
    requires
        m <= n,
    ensures
        0 < pow256(m) <= pow256(n),
    decreases n,
{
    if n > m {
        lemma_pow256_grows(m, (n - 1) as nat);
    } else if n > 0 {
        lemma_pow256_grows(0, (n - 1) as nat);
    }
}

/// `256^4` and `256^8` as numbers.
pub proof fn lemma_pow256_values()
    ensures
        pow256(4) == 0x1_0000_0000,
        pow256(8) == 0x1_0000_0000_0000_0000,
{
    reveal_with_fuel(pow256, 9);
}

/// `le_bytes(v, n)` has `n` bytes.
pub proof fn lemma_le_bytes_len(v: nat, n: nat)
    ensures
        le_bytes(v, n).len() == n,
    decreases n,
{
    if n > 0 {
        lemma_le_bytes_len(v, (n - 1) as nat);
    }
}

/// A value read from `n` bytes is below `256^n`.
pub proof fn lemma_le_value_bound(b: Seq<u8>)
    ensures
        le_value(b) < pow256(b.len()),
    decreases b.len(),
{
    if b.len() > 0 {
        let p = pow256((b.len() - 1) as nat);
        lemma_le_value_bound(b.drop_last());
        let last = b.last() as int;
        assert(last * p <= 255 * p) by (nonlinear_arith)
            requires
                0 <= last <= 255,
                p >= 0,
        ;
    }
}

/// Reading back `n` written bytes gives the value modulo `256^n`.
pub proof fn lemma_le_value_of_bytes(v: nat, n: nat)
    ensures
        le_value(le_bytes(v, n)) == v % pow256(n),
    decreases n,
{
    lemma_pow256_grows(0, n);
    if n == 0 {
        assert(v % 1 == 0);
    } else {
        let k = (n - 1) as nat;
        let p = pow256(k);
        lemma_pow256_grows(0, k);
        lemma_le_value_of_bytes(v, k);
        lemma_le_bytes_len(v, n);
        assert(le_bytes(v, n).drop_last() =~= le_bytes(v, k));
        vstd::arithmetic::div_mod::lemma_mod_breakdown(v as int, p as int, 256);
        assert(p * 256 == pow256(n));
        vstd::arithmetic::div_mod::lemma_mod_pos_bound((v / p) as int, 256);
        let byte = (v / p) % 256;
        assert(p * byte == byte * p) by (nonlinear_arith);
    }
}

/// Adding a multiple of `256^k` does not change the `k` low bytes.
proof fn lemma_le_bytes_add_multiple(v: nat, m: nat, k: nat)
    ensures
        le_bytes(v + m * pow256(k), k) == le_bytes(v, k),
    decreases k,
{
    if k > 0 {
        let j = (k - 1) as nat;
        let p = pow256(j);
        lemma_pow256_grows(0, j);
        assert(m * pow256(k) == (256 * m) * p) by (nonlinear_arith)
            requires
                pow256(k) == 256 * p,
        ;
        lemma_le_bytes_add_multiple(v, 256 * m, j);
        vstd::arithmetic::div_mod::lemma_hoist_over_denominator(v as int, (256 * m) as int, p);
        assert(((v + (256 * m) * p) as int) / (p as int) == (v / p) as int + 256 * m);
        vstd::arithmetic::div_mod::lemma_mod_multiples_vanish(m as int, (v / p) as int, 256);
        assert(256 * m + v / p == 256 * (m as int) + (v / p) as int);
    }
}

/// Writing the value read from some bytes gives the same bytes back.
pub proof fn lemma_le_bytes_of_value(b: Seq<u8>)
    ensures
        le_bytes(le_value(b), b.len()) == b,
    decreases b.len(),
{
    if b.len() > 0 {
        let k = (b.len() - 1) as nat;
        let p = pow256(k);
        let rest = le_value(b.drop_last());
        let last = b.last() as nat;
        lemma_pow256_grows(0, k);
        lemma_le_bytes_of_value(b.drop_last());
        lemma_le_value_bound(b.drop_last());
        lemma_le_bytes_add_multiple(rest, last, k);
        vstd::arithmetic::div_mod::lemma_fundamental_div_mod_converse(
            (rest + last * p) as int,
            p as int,
            last as int,
            rest as int,
        );
        assert(le_bytes(le_value(b), b.len()) =~= b);
    }
}

/// Byte `i` of the encoding is digit `i` of the value in base 256: the
/// least significant byte comes first.
pub proof fn lemma_le_bytes_digit(v: nat, n: nat, i: int)
    requires
        0 <= i < n,
    ensures
        le_bytes(v, n)[i] == (v / pow256(i as nat)) % 256,
    decreases n,
{
    lemma_le_bytes_len(v, (n - 1) as nat);
    if i < n - 1 {
        lemma_le_bytes_digit(v, (n - 1) as nat, i);
    }
    lemma_pow256_grows(0, i as nat);
    vstd::arithmetic::div_mod::lemma_mod_pos_bound((v / pow256(i as nat)) as int, 256);
}

/// Write the `n` low bytes of `v` at `pos`, least significant first.
pub fn write_le<const N: usize>(data: &mut [u8; N], pos: usize, v: u128, n: usize)
    requires
        pos + n <= N,
    ensures
        final(data)@ == old(data)@.subrange(0, pos as int) + le_bytes(v as nat, n as nat) + old(
            data,
        )@.subrange(pos + n, N as int),
{
    let ghost orig = data@;
    assert(pow256(0) == 1);
    assert(v as nat / 1 == v);
    let mut x = v;
    let mut i: usize = 0;
    while i < n
        invariant
            i <= n,
            pos + n <= N,
            data@.len() == N,
            x == v as nat / pow256(i as nat),
            forall|j: int| 0 <= j < pos ==> data@[j] == orig[j],
            forall|j: int| pos + i <= j < N ==> data@[j] == orig[j],
            data@.subrange(pos as int, pos + i) == le_bytes(v as nat, i as nat),
        decreases n - i,
    {
        proof {
            lemma_pow256_grows(0, i as nat);
            lemma_le_bytes_len(v as nat, i as nat);
        }
        data[pos + i] = (x % 256) as u8;
        proof {
            vstd::arithmetic::div_mod::lemma_div_denominator(v as int, pow256(i as nat) as int, 256);
            assert(pow256(i as nat) * 256 == pow256((i + 1) as nat));
            assert(data@.subrange(pos as int, pos + i + 1) =~= le_bytes(v as nat, (i + 1) as nat));
        }
        x = x / 256;
        i += 1;
    }
    proof {
        lemma_le_bytes_len(v as nat, n as nat);
    }
    assert(data@ =~= orig.subrange(0, pos as int) + le_bytes(v as nat, n as nat) + orig.subrange(
        pos + n,
        N as int,
    ));
}

/// Read `n` bytes at `pos` as a little-endian number (at most 8 bytes).
pub fn read_le(data: &[u8], pos: usize, n: usize) -> (v: u128)
    requires
        pos + n <= data@.len(),
        n <= 8,
    ensures
        v == le_value(data@.subrange(pos as int, pos + n)),
        v < pow256(n as nat),
{
    let len = data.len();
    let mut acc: u128 = 0;
    let mut mult: u128 = 1;
    let mut i: usize = 0;
    proof {
        lemma_pow256_values();
        assert(data@.subrange(pos as int, pos as int) =~= Seq::<u8>::empty());
    }
    while i < n
        invariant
            i <= n,
            n <= 8,
            pos + n <= data@.len(),
            len == data@.len(),
            mult == pow256(i as nat),
            acc == le_value(data@.subrange(pos as int, pos + i)),
            pow256(8) == 0x1_0000_0000_0000_0000,
        decreases n - i,
    {
        let ghost s = data@.subrange(pos as int, pos + i + 1);
        proof {
            lemma_le_value_bound(data@.subrange(pos as int, pos + i));
            lemma_pow256_grows((i + 1) as nat, 8);
            assert(s.drop_last() =~= data@.subrange(pos as int, pos + i));
            let b = data@[pos + i] as int;
            let m = mult as int;
            assert(b * m <= 255 * m) by (nonlinear_arith)
                requires
                    0 <= b <= 255,
                    m >= 0,
            ;
        }
        acc = acc + (data[pos + i] as u128) * mult;
        mult = mult * 256;
        i += 1;
    }
    proof {
        lemma_le_value_bound(data@.subrange(pos as int, pos + n));
    }
    acc
}

} // verus!
