use vstd::prelude::*;

use vstd::arithmetic::div_mod::{
    lemma_div_pos_is_pos, lemma_fundamental_div_mod, lemma_fundamental_div_mod_converse,
    lemma_mod_pos_bound,
};

verus! {

/// 2^64: one limb of a `u128`.
pub const LIMB: u128 = 0x1_0000_0000_0000_0000;

/// 2^128.
pub open spec fn two_128() -> int {
    u128::MAX as int + 1
}

/// 2^256: the bound that every intermediate of the reward formula must stay below.
pub open spec fn two_256() -> int {
    two_128() * two_128()
}

/// An unsigned 256-bit integer held as two 128-bit halves.
#[derive(Clone, Copy, Debug, PartialEq, Eq)]
pub struct Wide {
    pub hi: u128,
    pub lo: u128,
}

impl Wide {
    pub open spec fn value(self) -> int {
        self.hi * two_128() + self.lo
    }
}

/// `v` split at a limb.
proof fn lemma_limb_split(v: int)
    requires
        0 <= v,
    ensures
        v == LIMB * (v / (LIMB as int)) + v % (LIMB as int),
        0 <= v % (LIMB as int) < LIMB,
        0 <= v / (LIMB as int),
{
    lemma_fundamental_div_mod(v, (LIMB as int));
    lemma_mod_pos_bound(v, (LIMB as int));
    lemma_div_pos_is_pos(v, (LIMB as int));
}

proof fn lemma_limb_product(x: int, y: int)
    requires
        0 <= x < LIMB,
        0 <= y < LIMB,
    ensures
        0 <= x * y <= (LIMB - 1) * (LIMB - 1),
{
    assert(0 <= x * y <= (LIMB - 1) * (LIMB - 1)) by (nonlinear_arith)
        requires
            0 <= x < LIMB,
            0 <= y < LIMB,
    ;
}

proof fn lemma_split_product(a1: int, a0: int, b1: int, b0: int)
    ensures
        (a1 * LIMB + a0) * (b1 * LIMB + b0) == (a1 * b1) * (LIMB * LIMB) + (a0 * b1 + a1 * b0)
            * LIMB + a0 * b0,
{
    assert((a1 * LIMB + a0) * (b1 * LIMB + b0) == (a1 * b1) * (LIMB * LIMB) + (a0 * b1 + a1 * b0)
        * LIMB + a0 * b0) by (nonlinear_arith);
}

/// The full product of two `u128`.
pub fn mul_full(a: u128, b: u128) -> (r: Wide)
    ensures
        r.value() == a * b,
{
    let a1 = a / LIMB;
    let a0 = a % LIMB;
    let b1 = b / LIMB;
    let b0 = b % LIMB;
    proof {
        lemma_limb_split(a as int);
        lemma_limb_split(b as int);
        lemma_limb_product(a0 as int, b0 as int);
        lemma_limb_product(a0 as int, b1 as int);
        lemma_limb_product(a1 as int, b0 as int);
        lemma_limb_product(a1 as int, b1 as int);
    }
    let ll = a0 * b0;
    let lh = a0 * b1;
    let hl = a1 * b0;
    let hh = a1 * b1;
    proof {
        lemma_limb_split(ll as int);
        lemma_limb_split(lh as int);
        lemma_limb_split(hl as int);
    }
    let x = ll / LIMB + lh % LIMB + hl % LIMB;
    proof {
        lemma_limb_split(x as int);
        lemma_split_product(a1 as int, a0 as int, b1 as int, b0 as int);
    }
    let lo = (x % LIMB) * LIMB + ll % LIMB;
    let hi = hh + lh / LIMB + hl / LIMB + x / LIMB;
    proof {
        let base = LIMB as int;
        assert(two_128() == base * base);
        assert(a * b == (a1 * base + a0) * (b1 * base + b0));
        assert(a * b == hh * (base * base) + (lh + hl) * base + ll);
        let (q_lh, r_lh) = (lh / LIMB, lh % LIMB);
        let (q_hl, r_hl) = (hl / LIMB, hl % LIMB);
        let (q_ll, r_ll) = (ll / LIMB, ll % LIMB);
        let (q_x, r_x) = (x / LIMB, x % LIMB);
        assert(a * b == (hi as int) * (base * base) + lo) by (nonlinear_arith)
            requires
                base == LIMB as int,
                a * b == hh * (base * base) + (lh + hl) * base + ll,
                lh == q_lh * base + r_lh,
                hl == q_hl * base + r_hl,
                ll == q_ll * base + r_ll,
                x == q_ll + r_lh + r_hl,
                x == q_x * base + r_x,
                lo == r_x * base + r_ll,
                hi == hh + q_lh + q_hl + q_x,
        ;
    }
    Wide { hi, lo }
}

proof fn lemma_distribute(h: int, l: int, m: int)
    ensures
        (h * two_128() + l) * m == (h * m) * two_128() + l * m,
{
    assert((h * two_128() + l) * m == (h * m) * two_128() + l * m) by (nonlinear_arith);
}

proof fn lemma_nonneg_product(x: int, y: int)
    requires
        0 <= x,
        0 <= y,
    ensures
        0 <= x * y,
{
    assert(0 <= x * y) by (nonlinear_arith)
        requires
            0 <= x,
            0 <= y,
    ;
}

proof fn lemma_carry_cases(hm: int, chi: int, clo: int, v: int)
    requires
        v == hm * two_128() + chi * two_128() + clo,
        0 <= chi < two_128(),
        0 <= clo < two_128(),
        0 <= hm,
    ensures
        v == (hm + chi) * two_128() + clo,
        (hm + chi < two_128()) <==> v < two_256(),
{
    let t = two_128();
    assert(v == (hm + chi) * t + clo && ((hm + chi < t) <==> v < t * t)) by (nonlinear_arith)
        requires
            v == hm * t + chi * t + clo,
            0 <= chi < t,
            0 <= clo < t,
            0 <= hm,
    ;
}

/// `w * m`, or `None` where it reaches 2^256.
pub fn mul_wide(w: Wide, m: u128) -> (r: Option<Wide>)
    ensures
        r is Some <==> w.value() * m < two_256(),
        r matches Some(v) ==> v.value() == w.value() * m,
{
    let c = mul_full(w.lo, m);
    proof {
        lemma_distribute(w.hi as int, w.lo as int, m as int);
        lemma_nonneg_product(w.lo as int, m as int);
        lemma_nonneg_product(w.hi as int, m as int);
        lemma_carry_cases(w.hi * m, c.hi as int, c.lo as int, w.value() * m);
    }
    let h = match w.hi.checked_mul(m) {
        Some(v) => v,
        None => return None,
    };
    match h.checked_add(c.hi) {
        Some(hi) => Some(Wide { hi, lo: c.lo }),
        None => None,
    }
}

proof fn lemma_large_product(x: int, y: int)
    requires
        x >= two_128(),
        y >= two_128(),
    ensures
        x * y >= two_256(),
{
    assert(x * y >= two_128() * two_128()) by (nonlinear_arith)
        requires
            x >= two_128(),
            y >= two_128(),
            two_128() > 0,
    ;
}

pub(crate) proof fn lemma_halves(w: Wide)
    ensures
        w.hi == 0 ==> w.value() == w.lo,
        w.hi > 0 ==> w.value() >= two_128(),
        w.value() >= 0,
{
    let t = two_128();
    let (h, l) = (w.hi as int, w.lo as int);
    assert((h == 0 ==> h * t + l == l) && (h > 0 ==> h * t + l >= t) && h * t + l >= 0) by (
    nonlinear_arith)
        requires
            t > 0,
            h >= 0,
            l >= 0,
    ;
}

/// `x * y`, or `None` where it reaches 2^256.
pub fn mul_wides(x: Wide, y: Wide) -> (r: Option<Wide>)
    ensures
        r is Some <==> x.value() * y.value() < two_256(),
        r matches Some(v) ==> v.value() == x.value() * y.value(),
{
    proof {
        lemma_halves(x);
        lemma_halves(y);
    }
    if x.hi == 0 {
        assert(y.value() * x.lo == x.value() * y.value()) by (nonlinear_arith)
            requires
                x.value() == x.lo as int,
        ;
        mul_wide(y, x.lo)
    } else if y.hi == 0 {
        mul_wide(x, y.lo)
    } else {
        proof {
            lemma_large_product(x.value(), y.value());
        }
        None
    }
}

/// `w + x`, or `None` where it reaches 2^256.
pub fn add_small(w: Wide, x: u128) -> (r: Option<Wide>)
    ensures
        r is Some <==> w.value() + x < two_256(),
        r matches Some(v) ==> v.value() == w.value() + x,
{
    proof {
        let t = two_128();
        let (h, l) = (w.hi as int, w.lo as int);
        assert((h + 1) * t + (l + x - t) == h * t + l + x) by (nonlinear_arith);
        assert(h + 1 >= t && l + x >= t ==> h * t + l + x >= t * t) by (nonlinear_arith)
            requires
                t > 0,
                l >= 0,
                x >= 0,
        ;
    }
    if w.lo <= u128::MAX - x {
        Some(Wide { hi: w.hi, lo: w.lo + x })
    } else {
        match w.hi.checked_add(1) {
            Some(hi) => Some(Wide { hi, lo: w.lo - (u128::MAX - x) - 1 }),
            None => None,
        }
    }
}

proof fn lemma_quotient_bound(q: int, d: int, t: int)
    requires
        0 < d,
        0 <= q,
        q * d <= t,
        t < d * LIMB,
    ensures
        q < LIMB,
{
    assert(q < LIMB) by (nonlinear_arith)
        requires
            0 < d,
            q * d <= t,
            t < d * LIMB,
    ;
}

/// `w / d` for a divisor below 2^64, by long division over 64-bit limbs.
pub fn div_small(w: Wide, d: u128) -> (r: Wide)
    requires
        0 < d < LIMB,
    ensures
        r.value() == w.value() / (d as int),
{
    let q_hi = w.hi / d;
    let r1 = w.hi % d;
    let l1 = w.lo / LIMB;
    let l0 = w.lo % LIMB;
    proof {
        lemma_fundamental_div_mod(w.hi as int, d as int);
        lemma_mod_pos_bound(w.hi as int, d as int);
        lemma_div_pos_is_pos(w.hi as int, d as int);
        lemma_limb_split(w.lo as int);
    }
    let t1 = r1 * LIMB + l1;
    let q1 = t1 / d;
    let r2 = t1 % d;
    proof {
        lemma_fundamental_div_mod(t1 as int, d as int);
        lemma_mod_pos_bound(t1 as int, d as int);
        lemma_div_pos_is_pos(t1 as int, d as int);
        lemma_quotient_bound(q1 as int, d as int, t1 as int);
    }
    let t0 = r2 * LIMB + l0;
    let q0 = t0 / d;
    let rem = t0 % d;
    proof {
        lemma_fundamental_div_mod(t0 as int, d as int);
        lemma_mod_pos_bound(t0 as int, d as int);
        lemma_div_pos_is_pos(t0 as int, d as int);
        lemma_quotient_bound(q0 as int, d as int, t0 as int);
    }
    let r = Wide { hi: q_hi, lo: q1 * LIMB + q0 };
    proof {
        let t = two_128();
        let base = LIMB as int;
        let (hi, lo, dd) = (w.hi as int, w.lo as int, d as int);
        let (qh, a1, a0, b1, b2, c0, c1, rm) = (
            q_hi as int,
            q1 as int,
            q0 as int,
            r1 as int,
            r2 as int,
            l0 as int,
            l1 as int,
            rem as int,
        );
        assert(t == base * base);
        assert(hi * t + lo == dd * (qh * t + (a1 * base + a0)) + rm) by (nonlinear_arith)
            requires
                t == base * base,
                hi == dd * qh + b1,
                lo == base * c1 + c0,
                t1 == b1 * base + c1,
                t1 == dd * a1 + b2,
                t0 == b2 * base + c0,
                t0 == dd * a0 + rm,
        ;
        assert(w.value() == d * r.value() + rem);
        let (wv, rv) = (w.value(), r.value());
        assert(wv == rv * dd + rm) by (nonlinear_arith)
            requires
                wv == dd * rv + rm,
        ;
        lemma_fundamental_div_mod_converse(w.value(), d as int, r.value(), rem as int);
    }
    r
}

} // verus!
