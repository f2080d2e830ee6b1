//! Rational reducer: greatest common divisor, with a scan-scoped memo cache,
//! and reduction of a width/height pair to lowest terms.

use vstd::prelude::*;
use vstd::arithmetic::div_mod::lemma_fundamental_div_mod;

verus! {

/// `d` divides `a`: some multiple of `d` equals `a`.
pub open spec fn divides(d: nat, a: nat) -> bool {
    exists|k: nat| a == #[trigger] (d * k)
}

/// Greatest common divisor by the Euclidean algorithm:
/// `gcd(a, 0) == a` and `gcd(a, b) == gcd(b, a % b)` for `b > 0`.
pub open spec fn spec_gcd(a: nat, b: nat) -> nat
    decreases b,
{
    if b == 0 {
        a
    } else {
        spec_gcd(b, a % b)
    }
}

/// The gcd of two numbers divides both of them.
pub proof fn lemma_gcd_divides(a: nat, b: nat)
    ensures
        divides(spec_gcd(a, b), a),
        divides(spec_gcd(a, b), b),
    decreases b,
{
    let g = spec_gcd(a, b);
    if b == 0 {
        assert(a == g * 1);
        assert(b == g * 0);
    } else {
        lemma_gcd_divides(b, a % b);
        let k1 = choose|k: nat| b == #[trigger] (g * k);
        let k2 = choose|k: nat| (a % b) == #[trigger] (g * k);
        lemma_fundamental_div_mod(a as int, b as int);
        let q = a as int / b as int;
        assert(q >= 0);
        assert(a == b * q + (a % b));
        assert(a == g * (k1 * q as nat + k2)) by (nonlinear_arith)
            requires
                a == b * q + (a % b),
                b == g * k1,
                (a % b) == g * k2,
                q >= 0,
        ;
    }
}

/// Any common divisor of `a` and `b` divides their gcd.
pub proof fn lemma_common_divisor_divides_gcd(a: nat, b: nat, d: nat)
    requires
        divides(d, a),
        divides(d, b),
    ensures
        divides(d, spec_gcd(a, b)),
    decreases b,
{
    if b == 0 {
    } else {
        // d divides a and b, so d divides a % b.
        let k1 = choose|k: nat| a == #[trigger] (d * k);
        let k2 = choose|k: nat| b == #[trigger] (d * k);
        lemma_fundamental_div_mod(a as int, b as int);
        let q = a as int / b as int;
        assert(a % b == a - b * q);
        if d == 0 {
            assert(a == 0) by (nonlinear_arith)
                requires
                    a == d * k1,
                    d == 0,
            ;
            assert(b == 0) by (nonlinear_arith)
                requires
                    b == d * k2,
                    d == 0,
            ;
        } else {
            let m = k1 - k2 * q;
            assert(a % b == d * m) by (nonlinear_arith)
                requires
                    a % b == a - b * q,
                    a == d * k1,
                    b == d * k2,
                    m == k1 - k2 * q,
            ;
            assert(m >= 0) by (nonlinear_arith)
                requires
                    a % b == d * m,
                    a % b >= 0,
                    d > 0,
            ;
            assert((a % b) == d * (m as nat));
            lemma_common_divisor_divides_gcd(b, a % b, d);
        }
    }
}

/// The gcd is positive as soon as one argument is.
pub proof fn lemma_gcd_pos(a: nat, b: nat)
    requires
        a > 0 || b > 0,
    ensures
        spec_gcd(a, b) > 0,
    decreases b,
{
    if b > 0 {
        lemma_gcd_pos(b, a % b);
    }
}

/// A divisor of a positive number is no larger than it.
pub proof fn lemma_divides_le(d: nat, a: nat)
    requires
        divides(d, a),
        a > 0,
    ensures
        0 < d <= a,
{
    let k = choose|k: nat| a == #[trigger] (d * k);
    assert(0 < d <= a) by (nonlinear_arith)
        requires
            a == d * k,
            a > 0,
    ;
}

/// The gcd does not depend on the order of its arguments.
pub proof fn lemma_gcd_comm(a: nat, b: nat)
    ensures
        spec_gcd(a, b) == spec_gcd(b, a),
{
    if a == 0 && b == 0 {
    } else {
        let g1 = spec_gcd(a, b);
        let g2 = spec_gcd(b, a);
        lemma_gcd_divides(a, b);
        lemma_gcd_divides(b, a);
        lemma_common_divisor_divides_gcd(b, a, g1);
        lemma_common_divisor_divides_gcd(a, b, g2);
        lemma_gcd_pos(a, b);
        lemma_gcd_pos(b, a);
        lemma_divides_le(g1, g2);
        lemma_divides_le(g2, g1);
    }
}

/// A width/height pair reduced to lowest terms: both parts divided by the gcd.
pub open spec fn spec_reduce(a: nat, b: nat) -> (nat, nat) {
    (a / spec_gcd(a, b), b / spec_gcd(a, b))
}

/// Dividing a multiple of `g` by `g` inverts the multiplication.
proof fn lemma_div_exact(a: nat, g: nat)
    requires
        g > 0,
        divides(g, a),
    ensures
        a == g * (a / g),
{
    let k = choose|k: nat| a == #[trigger] (g * k);
    assert(a / g == k) by (nonlinear_arith)
        requires
            a == g * k,
            g > 0,
    ;
}

/// Reducing a pair of positive numbers yields a coprime pair, and reducing
/// an already reduced pair changes nothing.
pub proof fn lemma_reduce_coprime(a: nat, b: nat)
    requires
        a > 0,
        b > 0,
    ensures
        spec_gcd(spec_reduce(a, b).0, spec_reduce(a, b).1) == 1,
        spec_reduce(a, b).0 > 0,
        spec_reduce(a, b).1 > 0,
        spec_reduce(spec_reduce(a, b).0, spec_reduce(a, b).1) == spec_reduce(a, b),
{
    let g = spec_gcd(a, b);
    lemma_gcd_pos(a, b);
    lemma_gcd_divides(a, b);
    let a1 = a / g;
    let b1 = b / g;
    lemma_div_exact(a, g);
    lemma_div_exact(b, g);
    assert(a1 > 0) by (nonlinear_arith)
        requires
            a == g * a1,
            a > 0,
    ;
    assert(b1 > 0) by (nonlinear_arith)
        requires
            b == g * b1,
            b > 0,
    ;
    let g1 = spec_gcd(a1, b1);
    lemma_gcd_pos(a1, b1);
    lemma_gcd_divides(a1, b1);
    let ka = choose|k: nat| a1 == #[trigger] (g1 * k);
    let kb = choose|k: nat| b1 == #[trigger] (g1 * k);
    // g * g1 is a common divisor of a and b.
    assert(a == (g * g1) * ka) by (nonlinear_arith)
        requires
            a == g * a1,
            a1 == g1 * ka,
    ;
    assert(b == (g * g1) * kb) by (nonlinear_arith)
        requires
            b == g * b1,
            b1 == g1 * kb,
    ;
    assert(divides(g * g1, a));
    assert(divides(g * g1, b));
    lemma_common_divisor_divides_gcd(a, b, g * g1);
    lemma_divides_le(g * g1, g);
    assert(g1 == 1) by (nonlinear_arith)
        requires
            g * g1 <= g,
            g > 0,
            g1 > 0,
    ;
    // With gcd 1 the second reduction divides by 1.
    assert(a1 / 1nat == a1);
    assert(b1 / 1nat == b1);
}

/// Greatest common divisor of `a` and `b` by the Euclidean algorithm.
pub fn gcd(a: usize, b: usize) -> (g: usize)
    ensures
        g as nat == spec_gcd(a as nat, b as nat),
    decreases b,
{
    if b == 0 {
        a
    } else {
        gcd(b, a % b)
    }
}

/// Memo cache for gcd results, keyed by the unordered pair of arguments.
/// It lives for a whole scan, so a ratio that recurs across candidates is
/// reduced only once.
pub struct GcdCache {
    map: std::collections::HashMap<u128, usize>,
}

/// Canonical cache key of the unordered pair `{a, b}`: the larger element
/// packed into the high 64 bits, the smaller into the low 64 bits.
pub open spec fn pair_key(a: usize, b: usize) -> u128 {
    let hi: nat = if a >= b {
        a as nat
    } else {
        b as nat
    };
    let lo: nat = if a >= b {
        b as nat
    } else {
        a as nat
    };
    (hi * 0x1_0000_0000_0000_0000 + lo) as u128
}

/// Equal keys name the same unordered pair, so their gcds agree.
proof fn lemma_pair_key_injective(a: usize, b: usize, c: usize, d: usize)
    requires
        pair_key(a, b) == pair_key(c, d),
    ensures
        spec_gcd(a as nat, b as nat) == spec_gcd(c as nat, d as nat),
{
    let base: int = 0x1_0000_0000_0000_0000;
    let hi1: int = if a >= b { a as int } else { b as int };
    let lo1: int = if a >= b { b as int } else { a as int };
    let hi2: int = if c >= d { c as int } else { d as int };
    let lo2: int = if c >= d { d as int } else { c as int };
    assert((usize::MAX as int) < base);
    let k: int = hi1 * base + lo1;
    assert(k == hi2 * base + lo2);
    vstd::arithmetic::div_mod::lemma_fundamental_div_mod_converse(k, base, hi1, lo1);
    vstd::arithmetic::div_mod::lemma_fundamental_div_mod_converse(k, base, hi2, lo2);
    assert(hi1 == hi2 && lo1 == lo2);
    if (a >= b) != (c >= d) {
        lemma_gcd_comm(a as nat, b as nat);
    }
}

impl GcdCache {
    /// Every entry stores the gcd of the pair its key encodes.
    pub closed spec fn wf(&self) -> bool {
        forall|a: usize, b: usize|
            self.map@.contains_key(#[trigger] pair_key(a, b)) ==> self.map@[pair_key(a, b)] as nat
                == spec_gcd(a as nat, b as nat)
    }

    /// An empty cache.
    pub fn new() -> (c: GcdCache)
        ensures
            c.wf(),
    {
        GcdCache { map: std::collections::HashMap::new() }
    }
}

/// `gcd`, memoized in `cache` under the unordered pair `{a, b}`.
pub fn gcd_cached(a: usize, b: usize, cache: &mut GcdCache) -> (g: usize)
    requires
        old(cache).wf(),
    ensures
        final(cache).wf(),
        g as nat == spec_gcd(a as nat, b as nat),
{
    broadcast use vstd::std_specs::hash::group_hash_axioms;

    let hi: usize = if a >= b { a } else { b };
    let lo: usize = if a >= b { b } else { a };
    let key: u128 = (hi as u128) * 0x1_0000_0000_0000_0000 + (lo as u128);
    assert(key == pair_key(a, b));
    match cache.map.get(&key) {
        Option::Some(g) => *g,
        Option::None => {
            let g = gcd(a, b);
            cache.map.insert(key, g);
            proof {
                assert forall|x: usize, y: usize|
                    cache.map@.contains_key(#[trigger] pair_key(x, y)) implies cache.map@[pair_key(
                    x,
                    y,
                )] as nat == spec_gcd(x as nat, y as nat) by {
                    if pair_key(x, y) == pair_key(a, b) {
                        lemma_pair_key_injective(x, y, a, b);
                    }
                }
            }
            g
        },
    }
}

/// A width/height pair divided by its greatest common divisor.
/// Invariant: numerator and denominator are positive and coprime.
#[derive(Clone, Copy, Debug, PartialEq, Eq, Structural)]
pub struct ReducedRatio {
    pub num: u32,
    pub den: u32,
}

/// The reduced ratio of a width/height pair, as a value.
pub open spec fn spec_ratio_of(width: u32, height: u32) -> ReducedRatio {
    ReducedRatio {
        num: spec_reduce(width as nat, height as nat).0 as u32,
        den: spec_reduce(width as nat, height as nat).1 as u32,
    }
}

/// Reduces `width : height` to lowest terms, memoizing the gcd in `cache`.
pub fn calculate_aspect_ratio(width: u32, height: u32, cache: &mut GcdCache) -> (r: ReducedRatio)
    requires
        width > 0,
        height > 0,
        old(cache).wf(),
    ensures
        final(cache).wf(),
        r == spec_ratio_of(width, height),
        r.num > 0,
        r.den > 0,
        spec_gcd(r.num as nat, r.den as nat) == 1,
{
    let g = gcd_cached(width as usize, height as usize, cache);
    proof {
        lemma_gcd_pos(width as nat, height as nat);
        lemma_gcd_divides(width as nat, height as nat);
        lemma_divides_le(spec_gcd(width as nat, height as nat), width as nat);
        lemma_reduce_coprime(width as nat, height as nat);
    }
    let num = width / (g as u32);
    let den = height / (g as u32);
    ReducedRatio { num, den }
}

} // verus!
