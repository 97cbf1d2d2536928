//! Edge weights from traversal signals.
//!
//! An edge's weight is `max(0, traversals - 2 * backups) / max(1, traversals + backups)`:
//! continuing along an edge endorses it, backing up from it counts double against it.
use vstd::prelude::*;

verus! {

/// The traversal and backup counters of an edge, from which its weight follows.
#[derive(Debug, Clone, Copy, PartialEq, Eq, Structural)]
pub struct Weight {
    pub traversals: i64,
    pub backups: i64,
}

/// Numerator of the weight: `max(0, traversals - 2 * backups)`.
pub open spec fn weight_numerator(traversals: int, backups: int) -> int {
    if traversals - 2 * backups > 0 {
        traversals - 2 * backups
    } else {
        0
    }
}

/// Denominator of the weight: `max(1, traversals + backups)`.
pub open spec fn weight_denominator(traversals: int, backups: int) -> int {
    if traversals + backups > 1 {
        traversals + backups
    } else {
        1
    }
}

impl Weight {
    pub open spec fn numerator(self) -> int {
        weight_numerator(self.traversals as int, self.backups as int)
    }

    pub open spec fn denominator(self) -> int {
        weight_denominator(self.traversals as int, self.backups as int)
    }

    /// The weight of a fresh edge.
    pub open spec fn fresh() -> Weight {
        Weight { traversals: 0, backups: 0 }
    }

    /// The counters after one more traversal of the edge.
    pub fn traversed(self) -> (r: Weight)
        requires
            self.traversals < i64::MAX,
        ensures
            r.traversals == self.traversals + 1,
            r.backups == self.backups,
    {
        Weight { traversals: self.traversals + 1, backups: self.backups }
    }

    /// The counters after one more backup from the edge's target.
    pub fn backed_up(self) -> (r: Weight)
        requires
            self.backups < i64::MAX,
        ensures
            r.traversals == self.traversals,
            r.backups == self.backups + 1,
    {
        Weight { traversals: self.traversals, backups: self.backups + 1 }
    }
}

/// `a`'s weight is strictly greater than `b`'s.
pub open spec fn heavier(a: Weight, b: Weight) -> bool {
    a.numerator() * b.denominator() > b.numerator() * a.denominator()
}

/// The exact weight `numerator / denominator` of the given counters.
pub fn weight_fraction(traversals: i64, backups: i64) -> (r: (u128, u128))
    ensures
        r.0 == weight_numerator(traversals as int, backups as int),
        r.1 == weight_denominator(traversals as int, backups as int),
{
    let t = traversals as i128;
    let b = backups as i128;
    let n: i128 = if t - 2 * b > 0 { t - 2 * b } else { 0 };
    let d: i128 = if t + b > 1 { t + b } else { 1 };
    (n as u128, d as u128)
}

proof fn lemma_compare_by_quotients(na: int, da: int, nb: int, db: int, qa: int, ra: int, qb: int, rb: int)
    requires
        da > 0,
        db > 0,
        na == qa * da + ra,
        nb == qb * db + rb,
        0 <= ra < da,
        0 <= rb < db,
        qa >= 0,
        qb >= 0,
    ensures
        (na * db > nb * da) == (qa > qb || (qa == qb && ra * db > rb * da)),
{
    assert(na * db == qa * da * db + ra * db) by (nonlinear_arith)
        requires na == qa * da + ra;
    assert(nb * da == qb * db * da + rb * da) by (nonlinear_arith)
        requires nb == qb * db + rb;
    assert(qa * da * db == qa * (da * db)) by (nonlinear_arith);
    assert(qb * db * da == qb * (da * db)) by (nonlinear_arith);
    if qa > qb {
        assert(qa * (da * db) >= qb * (da * db) + da * db) by (nonlinear_arith)
            requires qa >= qb + 1, da > 0, db > 0;
        assert(rb * da < db * da) by (nonlinear_arith)
            requires rb < db, da > 0;
        assert(ra * db >= 0) by (nonlinear_arith)
            requires ra >= 0, db > 0;
        assert(da * db == db * da) by (nonlinear_arith);
    } else if qa < qb {
        assert(qb * (da * db) >= qa * (da * db) + da * db) by (nonlinear_arith)
            requires qb >= qa + 1, da > 0, db > 0;
        assert(ra * db < da * db) by (nonlinear_arith)
            requires ra < da, db > 0;
        assert(rb * da >= 0) by (nonlinear_arith)
            requires rb >= 0, da > 0;
    }
}

/// Whether edge weight `a` is strictly greater than edge weight `b`.
pub fn is_heavier(a: Weight, b: Weight) -> (r: bool)
    ensures
        r == heavier(a, b),
{
    let (na, da) = weight_fraction(a.traversals, a.backups);
    let (nb, db) = weight_fraction(b.traversals, b.backups);
    let qa = na / da;
    let ra = na % da;
    let qb = nb / db;
    let rb = nb % db;
    proof {
        vstd::arithmetic::div_mod::lemma_fundamental_div_mod(na as int, da as int);
        vstd::arithmetic::div_mod::lemma_fundamental_div_mod(nb as int, db as int);
        assert(na == qa * da + ra) by (nonlinear_arith)
            requires na == da * qa + ra;
        assert(nb == qb * db + rb) by (nonlinear_arith)
            requires nb == db * qb + rb;
        lemma_compare_by_quotients(na as int, da as int, nb as int, db as int, qa as int, ra as int, qb as int, rb as int);
    }
    if qa != qb {
        qa > qb
    } else {
        assert(ra * db < 0x1_0000_0000_0000_0000_0000_0000_0000_0000) by (nonlinear_arith)
            requires ra < da, da < 0x1_0000_0000_0000_0000, db < 0x1_0000_0000_0000_0000;
        assert(rb * da < 0x1_0000_0000_0000_0000_0000_0000_0000_0000) by (nonlinear_arith)
            requires rb < db, da < 0x1_0000_0000_0000_0000, db < 0x1_0000_0000_0000_0000;
        ra * db > rb * da
    }
}

/// With non-negative counters the weight lies between 0 and 1.
pub proof fn lemma_weight_in_unit_interval(w: Weight)
    requires
        w.traversals >= 0,
        w.backups >= 0,
    ensures
        0 <= w.numerator() <= w.denominator(),
        w.denominator() >= 1,
{
}

/// A fresh edge has weight 0, and so does any edge backed up from at least half as often
/// as it was traversed.
pub proof fn lemma_weight_zero(w: Weight)
    requires
        w.traversals <= 2 * w.backups,
    ensures
        w.numerator() == 0,
{
}

/// An edge that was only ever traversed (at least once) has weight 1.
pub proof fn lemma_weight_full(w: Weight)
    requires
        w.traversals >= 1,
        w.backups == 0,
    ensures
        w.numerator() == w.denominator(),
{
}

/// Being heavier is irreflexive and transitive, so it orders weights strictly.
pub proof fn lemma_heavier_strict_order(a: Weight, b: Weight, c: Weight)
    ensures
        !heavier(a, a),
        heavier(a, b) && heavier(b, c) ==> heavier(a, c),
        heavier(a, b) ==> !heavier(b, a),
{
    let (na, da, nb, db, nc, dc) = (a.numerator(), a.denominator(), b.numerator(), b.denominator(), c.numerator(), c.denominator());
    assert(na * db > nb * da && nb * dc > nc * db ==> na * dc > nc * da) by (nonlinear_arith)
        requires da > 0, db > 0, dc > 0, na >= 0, nb >= 0, nc >= 0;
}

/// Traversing an edge never makes it lighter: a learner who continues along an edge
/// endorses it.
pub proof fn lemma_traversal_never_lowers(w: Weight, v: Weight)
    requires
        w.traversals >= 0,
        w.backups >= 0,
        v.traversals == w.traversals + 1,
        v.backups == w.backups,
    ensures
        !heavier(w, v),
{
    let t = w.traversals as int;
    let b = w.backups as int;
    if t - 2 * b > 0 {
        assert((t - 2 * b) * (t + 1 + b) <= (t + 1 - 2 * b) * (t + b)) by (nonlinear_arith)
            requires t - 2 * b > 0, b >= 0;
        assert(w.numerator() == t - 2 * b);
        assert(v.numerator() == t + 1 - 2 * b);
        assert(v.denominator() == t + 1 + b);
        if t + b > 1 {
            assert(w.denominator() == t + b);
        } else {
            assert(t == 1 && b == 0);
        }
    } else {
        assert(w.numerator() == 0);
        assert(v.numerator() >= 0);
        assert(0 * v.denominator() <= v.numerator() * w.denominator()) by (nonlinear_arith)
            requires v.numerator() >= 0, w.denominator() >= 1;
    }
}

/// Backing up from an edge's target never makes the edge heavier: it counts against the edge.
pub proof fn lemma_backup_never_raises(w: Weight, v: Weight)
    requires
        w.traversals >= 0,
        w.backups >= 0,
        v.traversals == w.traversals,
        v.backups == w.backups + 1,
    ensures
        !heavier(v, w),
{
    let (nv, dv, nw, dw) = (v.numerator(), v.denominator(), w.numerator(), w.denominator());
    assert(nv <= nw);
    assert(dv >= dw);
    assert(nv * dw <= nw * dv) by (nonlinear_arith)
        requires 0 <= nv <= nw, 1 <= dw <= dv;
}

} // verus!
