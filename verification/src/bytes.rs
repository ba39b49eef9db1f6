//! Little-endian and big-endian readings of byte strings, and the fixed-size
//! byte arrays that the wire types are made of.
use vstd::prelude::*;

verus! {

/// `256^n`.
pub open spec fn pow256(n: nat) -> nat
    decreases n,
{
    if n == 0 {
        1
    } else {
        256 * pow256((n - 1) as nat)
    }
}

/// The `n` low bytes of `v`, least significant first. Values of `2^(8n)` and
/// above are cut to their low `n` bytes, as a fixed-width number is.
pub open spec fn le_bytes(v: nat, n: nat) -> Seq<u8>
    decreases n,
{
    if n == 0 {
        Seq::empty()
    } else {
        seq![(v % 256) as u8] + le_bytes(v / 256, (n - 1) as nat)
    }
}

/// The number that `s` spells, least significant byte first.
pub open spec fn le_value(s: Seq<u8>) -> nat
    decreases s.len(),
{
    if s.len() == 0 {
        0
    } else {
        s[0] as nat + 256 * le_value(s.drop_first())
    }
}

/// The number that `s` spells, most significant byte first.
pub open spec fn be_value(s: Seq<u8>) -> nat
    decreases s.len(),
{
    if s.len() == 0 {
        0
    } else {
        be_value(s.drop_last()) * 256 + s.last() as nat
    }
}

pub proof fn lemma_pow256_positive(n: nat)
    ensures
        pow256(n) >= 1,
    decreases n,
{
    if n > 0 {
        lemma_pow256_positive((n - 1) as nat);
    }
}

pub proof fn lemma_pow256_values()
    ensures
        pow256(4) == 0x1_0000_0000,
        pow256(8) == 0x1_0000_0000_0000_0000,
        pow256(16) == 0x1_0000_0000_0000_0000_0000_0000_0000_0000,
{
    reveal_with_fuel(pow256, 17);
}

pub proof fn lemma_le_bytes_len(v: nat, n: nat)
    ensures
        #[trigger] le_bytes(v, n).len() == n,
    decreases n,
{
    if n > 0 {
        lemma_le_bytes_len(v / 256, (n - 1) as nat);
    }
}

pub proof fn lemma_le_value_bound(s: Seq<u8>)
    ensures
        le_value(s) < pow256(s.len()),
    decreases s.len(),
{
    if s.len() > 0 {
        lemma_le_value_bound(s.drop_first());
        let r = le_value(s.drop_first());
        let p = pow256((s.len() - 1) as nat);
        assert(r + 1 <= p);
        assert(256 * r + 256 <= 256 * p) by (nonlinear_arith)
            requires
                r + 1 <= p,
        ;
    }
}

/// Reading back the bytes of `v` gives `v` cut to `n` bytes.
pub proof fn lemma_le_value_of_bytes(v: nat, n: nat)
    ensures
        le_value(le_bytes(v, n)) == v % pow256(n),
    decreases n,
{
    lemma_le_bytes_len(v, n);
    if n > 0 {
        let q = v / 256;
        let m = (n - 1) as nat;
        lemma_le_value_of_bytes(q, m);
        let b = le_bytes(v, n);
        assert(b.drop_first() =~= le_bytes(q, m));
        lemma_pow256_positive(m);
        let p = pow256(m);
        assert(v % 256 + 256 * (q % p) == v % (256 * p)) by (nonlinear_arith)
            requires
                p >= 1,
                q == v / 256,
        {
            vstd::arithmetic::div_mod::lemma_breakdown(v as int, 256, p as int);
        }
    } else {
        assert(pow256(0) == 1);
    }
}

/// The bytes of the number that `s` spells are `s` itself.
pub proof fn lemma_le_bytes_of_value(s: Seq<u8>)
    ensures
        le_bytes(le_value(s), s.len()) == s,
    decreases s.len(),
{
    if s.len() > 0 {
        let t = s.drop_first();
        lemma_le_bytes_of_value(t);
        let v = le_value(s);
        assert(v == s[0] as nat + 256 * le_value(t));
        assert(v % 256 == s[0] as nat) by (nonlinear_arith)
            requires
                v == s[0] as nat + 256 * le_value(t),
                s[0] < 256,
        ;
        assert(v / 256 == le_value(t)) by (nonlinear_arith)
            requires
                v == s[0] as nat + 256 * le_value(t),
                s[0] < 256,
        ;
        assert(le_bytes(v, s.len()) =~= seq![s[0]] + le_bytes(le_value(t), t.len()));
        assert(s =~= seq![s[0]] + t);
    } else {
        assert(s =~= Seq::<u8>::empty());
    }
}

/// Two numbers below `256^n` with the same `n` bytes are equal.
pub proof fn lemma_le_bytes_injective(a: nat, b: nat, n: nat)
    requires
        a < pow256(n),
        b < pow256(n),
        le_bytes(a, n) == le_bytes(b, n),
    ensures
        a == b,
{
    lemma_le_value_of_bytes(a, n);
    lemma_le_value_of_bytes(b, n);
    vstd::arithmetic::div_mod::lemma_small_mod(a, pow256(n));
    vstd::arithmetic::div_mod::lemma_small_mod(b, pow256(n));
}

/// The `n` bytes of `v`, least significant first.
pub fn encode_le(v: u128, n: usize) -> (r: Vec<u8>)
    requires
        n <= 16,
    ensures
        r@ == le_bytes(v as nat, n as nat),
{
    let mut r: Vec<u8> = Vec::new();
    let mut x: u128 = v;
    let mut i: usize = 0;
    while i < n
        invariant
            i <= n,
            r@ + le_bytes(x as nat, (n - i) as nat) == le_bytes(v as nat, n as nat),
        decreases n - i,
    {
        let ghost old_r = r@;
        let ghost old_x = x;
        r.push((x % 256) as u8);
        x = x / 256;
        i = i + 1;
        assert(le_bytes(old_x as nat, (n - i + 1) as nat) == seq![(old_x % 256) as u8] + le_bytes(
            x as nat,
            (n - i) as nat,
        ));
        assert(r@ + le_bytes(x as nat, (n - i) as nat) =~= old_r + le_bytes(
            old_x as nat,
            (n - i + 1) as nat,
        ));
    }
    assert(le_bytes(x as nat, 0) =~= Seq::<u8>::empty());
    assert(r@ =~= r@ + le_bytes(x as nat, 0));
    r
}

/// The number that `s` spells, least significant byte first.
pub fn decode_le(s: &[u8]) -> (r: u128)
    requires
        s@.len() <= 16,
    ensures
        r as nat == le_value(s@),
{
    let n = s.len();
    let mut acc: u128 = 0;
    let mut i: usize = n;
    proof {
        assert(s@.skip(n as int) =~= Seq::<u8>::empty());
    }
    while i > 0
        invariant
            i <= n,
            n == s@.len(),
            n <= 16,
            acc as nat == le_value(s@.skip(i as int)),
        decreases i,
    {
        i = i - 1;
        let ghost t = s@.skip(i as int);
        proof {
            assert(t.drop_first() =~= s@.skip(i + 1));
            lemma_le_value_bound(t);
            assert(t.len() <= 16);
            lemma_pow256_monotone(t.len(), 16);
            lemma_pow256_values();
            assert(le_value(t) == t[0] as nat + 256 * le_value(t.drop_first()));
        }
        acc = acc * 256 + s[i] as u128;
    }
    proof {
        assert(s@.skip(0) =~= s@);
    }
    acc
}

pub proof fn lemma_pow256_monotone(a: nat, b: nat)
    requires
        a <= b,
    ensures
        pow256(a) <= pow256(b),
    decreases b,
{
    if a < b {
        lemma_pow256_monotone(a, (b - 1) as nat);
        lemma_pow256_positive((b - 1) as nat);
    }
}

} // verus!
