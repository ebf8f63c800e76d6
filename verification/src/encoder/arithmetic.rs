//! Common divisors, common multiples and alignment.

use vstd::prelude::*;

verus! {

/// `d` divides `n`.
pub open spec fn divides(d: int, n: int) -> bool {
    exists|k: int| #[trigger] (d * k) == n
}

/// The greatest common divisor, by Euclid's algorithm; that of 0 and 0 is 0.
pub open spec fn gcd_of(a: nat, b: nat) -> nat
    decreases b,
{
    if b == 0 {
        a
    } else {
        gcd_of(b, a % b)
    }
}

/// `x` rounded up to a multiple of `alignment`; alignments 0 and 1 change nothing.
pub open spec fn aligned_up(x: int, alignment: int) -> int {
    if alignment <= 1 {
        x
    } else {
        (x + alignment - 1) / alignment * alignment
    }
}

/// The least common multiple without regard to its size; 0 if a number is 0.
pub open spec fn lcm_of(a: nat, b: nat) -> int {
    if a == 0 || b == 0 {
        0
    } else {
        a as int / gcd_of(a, b) as int * b
    }
}

proof fn lemma_divides_combination(d: int, x: int, y: int, s: int, t: int)
    requires
        divides(d, x),
        divides(d, y),
    ensures
        divides(d, x * s + y * t),
{
    let k = choose|k: int| #[trigger] (d * k) == x;
    let l = choose|l: int| #[trigger] (d * l) == y;
    assert(d * (k * s + l * t) == x * s + y * t) by (nonlinear_arith)
        requires
            d * k == x,
            d * l == y,
    ;
}

/// Factors by which the greatest common divisor is a combination of the numbers.
spec fn bezout(a: nat, b: nat) -> (int, int)
    decreases b,
{
    if b == 0 {
        (1, 0)
    } else {
        let (x, y) = bezout(b, a % b);
        (y, x - (a as int / b as int) * y)
    }
}

proof fn lemma_bezout(a: nat, b: nat)
    ensures
        gcd_of(a, b) == a * bezout(a, b).0 + b * bezout(a, b).1,
    decreases b,
{
    if b > 0 {
        let r = a % b;
        let q = a as int / b as int;
        lemma_bezout(b, r);
        let (x, y) = bezout(b, r);
        vstd::arithmetic::div_mod::lemma_fundamental_div_mod(a as int, b as int);
        assert(bezout(a, b) == (y, x - q * y));
        assert(b * x + r * y == a * y + b * (x - q * y)) by (nonlinear_arith)
            requires
                a == b * q + r,
        ;
    } else {
        assert(bezout(a, b) == (1int, 0int));
    }
}

proof fn lemma_gcd_divides(a: nat, b: nat)
    ensures
        divides(gcd_of(a, b) as int, a as int),
        divides(gcd_of(a, b) as int, b as int),
        a + b > 0 ==> gcd_of(a, b) > 0,
    decreases b,
{
    let g = gcd_of(a, b) as int;
    if b == 0 {
        assert(g * 1 == a);
        assert(g * 0 == b);
    } else {
        let r = a % b;
        let q = a as int / b as int;
        lemma_gcd_divides(b, r);
        lemma_divides_combination(g, b as int, r as int, q, 1);
        vstd::arithmetic::div_mod::lemma_fundamental_div_mod(a as int, b as int);
    }
}

/// The greatest common divisor divides both numbers, and every common divisor
/// divides it.
pub proof fn law_gcd_is_greatest(a: nat, b: nat)
    ensures
        divides(gcd_of(a, b) as int, a as int),
        divides(gcd_of(a, b) as int, b as int),
        forall|d: int|
            divides(d, a as int) && divides(d, b as int) ==> #[trigger] divides(
                d,
                gcd_of(a, b) as int,
            ),
{
    lemma_gcd_divides(a, b);
    lemma_bezout(a, b);
    let (x, y) = bezout(a, b);
    assert forall|d: int| divides(d, a as int) && divides(d, b as int) implies #[trigger] divides(
        d,
        gcd_of(a, b) as int,
    ) by {
        lemma_divides_combination(d, a as int, b as int, x, y);
    }
}

proof fn lemma_common_multiple(
    a: int,
    b: int,
    g: int,
    l: int,
    m0: int,
    m: int,
    s: int,
    t: int,
    x: int,
    y: int,
)
    requires
        g == a * x + b * y,
        a * s == m,
        b * t == m,
        m0 == a * l,
        g * l == b,
    ensures
        m * g == m0 * g * (t * x + s * y),
{
    assert(m0 * g == a * b) by (nonlinear_arith)
        requires
            m0 == a * l,
            g * l == b,
    ;
    assert(m * (a * x) == (a * b) * (t * x)) by (nonlinear_arith)
        requires
            b * t == m,
    ;
    assert(m * (b * y) == (a * b) * (s * y)) by (nonlinear_arith)
        requires
            a * s == m,
    ;
    assert(m * g == m * (a * x) + m * (b * y)) by (nonlinear_arith)
        requires
            g == a * x + b * y,
    ;
    assert((a * b) * (t * x) + (a * b) * (s * y) == (a * b) * (t * x + s * y)) by (nonlinear_arith);
}

/// The least common multiple is a multiple of both numbers, and divides every
/// common multiple.
pub proof fn law_lcm_is_least(a: nat, b: nat)
    requires
        a > 0,
        b > 0,
    ensures
        divides(a as int, lcm_of(a, b)),
        divides(b as int, lcm_of(a, b)),
        lcm_of(a, b) > 0,
        forall|m: int|
            #[trigger] divides(a as int, m) && divides(b as int, m) ==> divides(lcm_of(a, b), m),
{
    let g = gcd_of(a, b) as int;
    lemma_gcd_divides(a, b);
    lemma_bezout(a, b);
    let (x, y) = bezout(a, b);
    let k = choose|k: int| #[trigger] (g * k) == a;
    let l = choose|l: int| #[trigger] (g * l) == b;
    assert(a as int == k * g + 0) by (nonlinear_arith)
        requires
            g * k == a,
    ;
    vstd::arithmetic::div_mod::lemma_fundamental_div_mod_converse(a as int, g, k, 0);
    let m0 = lcm_of(a, b);
    assert(m0 == k * b);
    assert(k > 0 && l > 0) by (nonlinear_arith)
        requires
            g * k == a,
            g * l == b,
            g > 0,
            a > 0,
            b > 0,
    ;
    assert(m0 == a * l && m0 == b * k && m0 > 0) by (nonlinear_arith)
        requires
            m0 == k * b,
            g * k == a,
            g * l == b,
            k > 0,
            b > 0,
    ;
    assert forall|m: int| #[trigger] divides(a as int, m) && divides(b as int, m) implies divides(
        m0,
        m,
    ) by {
        let s = choose|s: int| #[trigger] (a * s) == m;
        let t = choose|t: int| #[trigger] (b * t) == m;
        // m * g == a * b * (t * x + s * y), and m0 * g == a * b.
        let ai = a as int;
        let bi = b as int;
        lemma_common_multiple(ai, bi, g, l, m0, m, s, t, x, y);
        assert(m == m0 * (t * x + s * y)) by (nonlinear_arith)
            requires
                m * g == m0 * g * (t * x + s * y),
                g > 0,
        ;
    }
}

/// Alignment gives the least multiple that is not below the value.
pub proof fn law_align_up_is_least(x: int, alignment: int)
    requires
        alignment >= 1,
    ensures
        aligned_up(x, alignment) % alignment == 0,
        x <= aligned_up(x, alignment) < x + alignment,
{
    if alignment > 1 {
        let y = x + alignment - 1;
        let q = y / alignment;
        vstd::arithmetic::div_mod::lemma_fundamental_div_mod(y, alignment);
        vstd::arithmetic::div_mod::lemma_mod_multiples_basic(q, alignment);
        assert(q * alignment == alignment * q) by (nonlinear_arith);
    }
}

/// Compute greatest common divisor of two values.
pub fn gcd(a: u32, b: u32) -> (g: u32)
    ensures
        g == gcd_of(a as nat, b as nat),
        g <= a || g <= b,
        a > 0 || b > 0 ==> g > 0,
{
    let ghost a0 = a as nat;
    let ghost b0 = b as nat;
    let mut a = a;
    let mut b = b;
    while b != 0
        invariant
            gcd_of(a as nat, b as nat) == gcd_of(a0, b0),
            a <= a0 || a <= b0,
            b <= a0 || b <= b0,
            a0 > 0 || b0 > 0 ==> a > 0 || b > 0,
        decreases b,
    {
        let tmp: u32 = a % b;
        a = b;
        b = tmp;
    }
    a
}

/// Compute least common multiple of two values; one that does not fit becomes
/// the largest value.
pub fn lcm(a: u32, b: u32) -> (m: u32)
    ensures
        m == if lcm_of(a as nat, b as nat) <= u32::MAX {
            lcm_of(a as nat, b as nat)
        } else {
            u32::MAX as int
        },
{
    if a == 0 || b == 0 {
        0
    } else {
        let g: u32 = gcd(a, b);
        let q: u32 = a / g;
        proof {
            assert(0 <= q * b <= u32::MAX * u32::MAX) by (nonlinear_arith)
                requires
                    0 <= q <= u32::MAX,
                    0 <= b <= u32::MAX,
            ;
        }
        let wide: u64 = q as u64 * b as u64;
        if wide <= u32::MAX as u64 {
            wide as u32
        } else {
            u32::MAX
        }
    }
}

/// Align a value up to the next multiple of the given alignment.
pub fn align_up(value: u32, alignment: u32) -> (aligned: u32)
    requires
        aligned_up(value as int, alignment as int) <= u32::MAX,
    ensures
        aligned == aligned_up(value as int, alignment as int),
{
    if alignment <= 1 {
        value
    } else {
        let q: u32 = value / alignment;
        let r: u32 = value % alignment;
        proof {
            let v = value as int;
            let m = alignment as int;
            vstd::arithmetic::div_mod::lemma_fundamental_div_mod(v, m);
            if r == 0 {
                assert(v + m - 1 == (q as int) * m + (m - 1)) by (nonlinear_arith)
                    requires
                        v == m * (q as int) + r as int,
                        r == 0,
                ;
                vstd::arithmetic::div_mod::lemma_fundamental_div_mod_converse(
                    v + m - 1,
                    m,
                    q as int,
                    m - 1,
                );
            } else {
                assert(v + m - 1 == (q as int + 1) * m + (r as int - 1)) by (nonlinear_arith)
                    requires
                        v == m * (q as int) + r as int,
                ;
                vstd::arithmetic::div_mod::lemma_fundamental_div_mod_converse(
                    v + m - 1,
                    m,
                    q as int + 1,
                    r as int - 1,
                );
                assert(q + 1 <= u32::MAX) by (nonlinear_arith)
                    requires
                        (q as int + 1) * m <= u32::MAX,
                        m >= 2,
                ;
            }
        }
        let blocks: u32 = if r == 0 {
            q
        } else {
            q + 1
        };
        blocks * alignment
    }
}

} // verus!
