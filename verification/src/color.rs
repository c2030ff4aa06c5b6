//! Colors and the multi-sample pixel accumulator.
//!
//! A `Color` is a `Vec3` whose components are intended to lie in `[0, 1]`
//! (that is, `[0, SCALE]` in quanta). `MultipleSamplesColor` accumulates a
//! running componentwise sum of samples and a sample count; `output_rgb`
//! averages, gamma-corrects with a square root, clamps to `[0, 0.999]` and
//! widens to the 8-bit range `[0, 255]`.

use crate::fixed::{fx_clamp, fx_div, fx_sqrt, sat_div, sat_sqrt, LIM, SCALE};
use crate::vec3::{vadd, vmul, Vec3};
use vstd::math::{max, min};
use vstd::prelude::*;

verus! {

/// A color; components are fixed-point channel intensities.
pub type Color = Vec3;

/// The clamp ceiling `0.999` in quanta (truncated).
pub const CLAMP_MAX: i64 = 65470;

/// Map one finished channel intensity to `[0, 255]`: clamp into
/// `[0, 0.999]`, scale by 256 and truncate.
pub open spec fn byte_of_channel(c: int) -> int {
    (min(max(c, 0), CLAMP_MAX as int) * 256) / (SCALE as int)
}

/// The full per-channel output map for a sum of `count` samples: average,
/// take the square root (gamma 2), then widen to 8 bits.
pub open spec fn channel_out(sum: int, count: int) -> int {
    byte_of_channel(sat_sqrt(sat_div(sum, count * (SCALE as int))))
}

/// Map one finished channel intensity to an 8-bit value.
pub fn color_to_i(color: i64) -> (r: usize)
    ensures
        r as int == byte_of_channel(color as int),
        r <= 255,
{
    let c = fx_clamp(color, 0, CLAMP_MAX);
    let v: u64 = (c as u64) * 256 / 65536;
    v as usize
}

/// All channels lie in the color range `[0, 1]`.
pub open spec fn color_in_unit(c: Color) -> bool {
    0 <= c.x <= SCALE && 0 <= c.y <= SCALE && 0 <= c.z <= SCALE
}

/// Componentwise products of colors in `[0, 1]` stay in `[0, 1]`, and
/// attenuating never brightens a channel.
pub proof fn lemma_vmul_in_unit(a: Color, b: Color)
    requires
        color_in_unit(a),
        color_in_unit(b),
    ensures
        color_in_unit(vmul(a, b)),
        vmul(a, b).x <= b.x && vmul(a, b).y <= b.y && vmul(a, b).z <= b.z,
{
    crate::fixed::lemma_sat_mul_unit_range(a.x as int, b.x as int);
    crate::fixed::lemma_sat_mul_unit_range(a.y as int, b.y as int);
    crate::fixed::lemma_sat_mul_unit_range(a.z as int, b.z as int);
}

/// Attenuating black gives black: every channel product with zero is zero.
pub proof fn lemma_vmul_black(a: Color)
    ensures
        vmul(a, Vec3 { x: 0i64, y: 0i64, z: 0i64 }) == (Vec3 { x: 0i64, y: 0i64, z: 0i64 }),
{
    assert(a.x as int * 0 == 0) by (nonlinear_arith);
    assert(a.y as int * 0 == 0) by (nonlinear_arith);
    assert(a.z as int * 0 == 0) by (nonlinear_arith);
}

/// The accumulator's sum after folding in the samples of `s` one by one.
pub open spec fn acc_sum(s: Seq<Vec3>) -> Vec3
    decreases s.len(),
{
    if s.len() == 0 {
        Vec3 { x: 0i64, y: 0i64, z: 0i64 }
    } else {
        vadd(acc_sum(s.drop_last()), s.last())
    }
}

/// The plain componentwise integer sum of the samples of `s`.
pub open spec fn color_sum_int(s: Seq<Vec3>) -> (int, int, int)
    decreases s.len(),
{
    if s.len() == 0 {
        (0int, 0int, 0int)
    } else {
        let p = color_sum_int(s.drop_last());
        (p.0 + s.last().x, p.1 + s.last().y, p.2 + s.last().z)
    }
}

/// Every sample has all channels in the color range `[0, 1]`.
pub open spec fn all_channels_unit(s: Seq<Vec3>) -> bool {
    forall|i: int|
        0 <= i < s.len() ==> 0 <= #[trigger] s[i].x <= SCALE && 0 <= s[i].y <= SCALE && 0 <= s[i].z
            <= SCALE
}

/// Folding one more sample extends the accumulated sum.
pub proof fn lemma_acc_sum_push(s: Seq<Vec3>, c: Vec3)
    ensures
        acc_sum(s.push(c)) == vadd(acc_sum(s), c),
{
    assert(s.push(c).drop_last() =~= s);
}

/// For in-range samples whose total stays inside the saturation window,
/// the accumulated sum is the plain integer sum: no saturation occurs.
pub proof fn lemma_acc_sum_exact(s: Seq<Vec3>)
    requires
        all_channels_unit(s),
        s.len() * (SCALE as int) <= LIM as int,
    ensures
        acc_sum(s).x == color_sum_int(s).0,
        acc_sum(s).y == color_sum_int(s).1,
        acc_sum(s).z == color_sum_int(s).2,
        0 <= color_sum_int(s).0 <= s.len() * (SCALE as int),
        0 <= color_sum_int(s).1 <= s.len() * (SCALE as int),
        0 <= color_sum_int(s).2 <= s.len() * (SCALE as int),
    decreases s.len(),
{
    if s.len() > 0 {
        assert(all_channels_unit(s.drop_last()));
        lemma_acc_sum_exact(s.drop_last());
    }
}

/// Removing an element takes its channels out of the integer sum.
proof fn lemma_color_sum_remove(s: Seq<Vec3>, i: int)
    requires
        0 <= i < s.len(),
    ensures
        color_sum_int(s).0 == color_sum_int(s.remove(i)).0 + s[i].x,
        color_sum_int(s).1 == color_sum_int(s.remove(i)).1 + s[i].y,
        color_sum_int(s).2 == color_sum_int(s.remove(i)).2 + s[i].z,
    decreases s.len(),
{
    if i == s.len() - 1 {
        assert(s.remove(i) =~= s.drop_last());
    } else {
        lemma_color_sum_remove(s.drop_last(), i);
        assert(s.remove(i).drop_last() =~= s.drop_last().remove(i));
        assert(s.remove(i).last() == s.last());
    }
}

/// The plain integer sum depends only on the multiset of samples, not on
/// their order.
pub proof fn lemma_color_sum_permutation(s1: Seq<Vec3>, s2: Seq<Vec3>)
    requires
        s1.to_multiset() == s2.to_multiset(),
    ensures
        color_sum_int(s1) == color_sum_int(s2),
    decreases s1.len(),
{
    s1.to_multiset_ensures();
    s2.to_multiset_ensures();
    if s1.len() == 0 {
        assert(s2.len() == 0);
    } else {
        let a = s1.last();
        assert(s1[s1.len() - 1] == a);
        assert(s1.contains(a));
        assert(s1.to_multiset().count(a) > 0);
        assert(s2.to_multiset().count(a) > 0);
        assert(s2.contains(a));
        let j = choose|j: int| 0 <= j < s2.len() && s2[j] == a;
        assert(s1.drop_last() =~= s1.remove(s1.len() - 1));
        assert(s1.remove(s1.len() - 1).to_multiset() == s1.to_multiset().remove(a));
        assert(s2.remove(j).to_multiset() == s2.to_multiset().remove(a));
        lemma_color_sum_permutation(s1.drop_last(), s2.remove(j));
        lemma_color_sum_remove(s1, s1.len() - 1);
        lemma_color_sum_remove(s2, j);
    }
}

/// Multi-sample accumulation is order-independent: folding the same
/// multiset of in-range samples in any order leaves the same sum (and the
/// same count), so the finished pixel is identical.
pub proof fn lemma_accumulation_order_independent(s1: Seq<Vec3>, s2: Seq<Vec3>)
    requires
        all_channels_unit(s1),
        s1.len() * (SCALE as int) <= LIM as int,
        s1.to_multiset() == s2.to_multiset(),
    ensures
        acc_sum(s1) == acc_sum(s2),
{
    s1.to_multiset_ensures();
    s2.to_multiset_ensures();
    assert(s1.len() == s2.len());
    assert(all_channels_unit(s2)) by {
        assert forall|i: int| 0 <= i < s2.len() implies 0 <= #[trigger] s2[i].x <= SCALE && 0
            <= s2[i].y <= SCALE && 0 <= s2[i].z <= SCALE by {
            assert(s2.contains(s2[i]));
            assert(s2.to_multiset().count(s2[i]) > 0);
            assert(s1.to_multiset().count(s2[i]) > 0);
            assert(s1.contains(s2[i]));
            let j = choose|j: int| 0 <= j < s1.len() && s1[j] == s2[i];
            assert(0 <= s1[j].x <= SCALE && 0 <= s1[j].y <= SCALE && 0 <= s1[j].z <= SCALE);
        }
    }
    lemma_acc_sum_exact(s1);
    lemma_acc_sum_exact(s2);
    lemma_color_sum_permutation(s1, s2);
}

/// Running componentwise sum of color samples with a sample count.
pub struct MultipleSamplesColor {
    pub color_sum: Color,
    pub samples_count: usize,
}

impl MultipleSamplesColor {
    /// A fresh accumulator: zero sum, zero samples.
    pub fn new() -> (r: Self)
        ensures
            r.color_sum == (Vec3 { x: 0i64, y: 0i64, z: 0i64 }),
            r.samples_count == 0,
    {
        Self { color_sum: Vec3 { x: 0, y: 0, z: 0 }, samples_count: 0 }
    }

    /// Fold one more sample into the running sum.
    pub fn add(&mut self, color: &Color)
        requires
            old(self).samples_count < usize::MAX,
        ensures
            final (self).color_sum == vadd(old(self).color_sum, *color),
            final (self).samples_count == old(self).samples_count + 1,
    {
        self.color_sum = self.color_sum.add(color);
        self.samples_count = self.samples_count + 1;
    }

    /// Finish the pixel: average the samples, gamma-correct each channel
    /// with a square root, clamp and widen to 8 bits.
    pub fn output_rgb(&self) -> (r: (usize, usize, usize))
        requires
            self.samples_count * (SCALE as int) <= LIM as int,
        ensures
            r.0 as int == channel_out(self.color_sum.x as int, self.samples_count as int),
            r.1 as int == channel_out(self.color_sum.y as int, self.samples_count as int),
            r.2 as int == channel_out(self.color_sum.z as int, self.samples_count as int),
            r.0 <= 255 && r.1 <= 255 && r.2 <= 255,
    {
        let count_fx: i64 = (self.samples_count as i64) * SCALE;
        let rr = color_to_i(fx_sqrt(fx_div(self.color_sum.x, count_fx)));
        let gg = color_to_i(fx_sqrt(fx_div(self.color_sum.y, count_fx)));
        let bb = color_to_i(fx_sqrt(fx_div(self.color_sum.z, count_fx)));
        (rr, gg, bb)
    }
}

} // verus!
