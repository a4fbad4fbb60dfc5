//! Perceptual volume curve and the volume slider.
//!
//! The mixer works in linear amplitude gain, where 1.0 is unity, but a
//! linear slider feels wrong to the ear: doubling gain does not sound
//! twice as loud. The converter here maps between linear gain and a
//! perceptual loudness fraction on a cube-law curve (gain grows as the
//! cube of the fraction), so slider ticks feel evenly spaced.
//!
//! All arithmetic is exact fixed point. A perceptual fraction is measured
//! in millionths of 1.0 ([`PERCEPTUAL_SCALE`]); a linear volume in ten
//! thousandths of unity gain, up to [`MAX_VOLUME`] (2.0). Out-of-range
//! inputs are clamped to the nearest boundary, never rejected. On these
//! grids the conversion round-trips exactly: see
//! [`lemma_volume_round_trip`].

use vstd::arithmetic::div_mod::lemma_div_by_multiple;
use vstd::arithmetic::div_mod::lemma_div_is_ordered;
use vstd::arithmetic::div_mod::lemma_div_plus_one;
use vstd::prelude::*;

verus! {

/// One whole perceptual fraction (1.0) in fixed-point millionths.
pub const PERCEPTUAL_SCALE: u32 = 1_000_000;

/// Unity linear gain (1.0) in fixed-point ten-thousandths.
pub const VOLUME_UNITY: u32 = 10_000;

/// The top of the converter's domain: a linear gain of 2.0, which maps to
/// the full perceptual fraction.
pub const MAX_VOLUME: u32 = 20_000;

/// The linear volume of the cube-law curve at perceptual fraction `p`:
/// scaled so that a fraction of 0 gives silence and the full fraction
/// gives [`MAX_VOLUME`].
pub open spec fn vol_of(p: int) -> int {
    (MAX_VOLUME as int) * p * p * p / ((PERCEPTUAL_SCALE as int) * (PERCEPTUAL_SCALE as int)
        * (PERCEPTUAL_SCALE as int))
}

/// A perceptual fraction clamped to the representable range.
pub open spec fn clamped_perceptual(p: int) -> int {
    if p < 0 {
        0
    } else if p > PERCEPTUAL_SCALE {
        PERCEPTUAL_SCALE as int
    } else {
        p
    }
}

/// A linear volume clamped to the converter's domain.
pub open spec fn clamped_volume(v: int) -> int {
    if v < 0 {
        0
    } else if v > MAX_VOLUME {
        MAX_VOLUME as int
    } else {
        v
    }
}

/// `p` is the perceptual fraction assigned to linear volume `v`: the least
/// fraction whose cube-law volume reaches `v`.
pub open spec fn is_perceptual_for(v: int, p: int) -> bool {
    &&& 0 <= p <= PERCEPTUAL_SCALE
    &&& vol_of(p) >= v
    &&& forall|q: int| 0 <= q < p ==> vol_of(q) < v
}

/// The curve is monotone: a larger fraction never gives a smaller volume.
proof fn lemma_vol_of_monotone(p1: int, p2: int)
    requires
        0 <= p1 <= p2,
    ensures
        vol_of(p1) <= vol_of(p2),
{
    assert((MAX_VOLUME as int) * p1 * p1 * p1 <= (MAX_VOLUME as int) * p2 * p2 * p2)
        by (nonlinear_arith)
        requires
            0 <= p1 <= p2,
    ;
    lemma_div_is_ordered(
        (MAX_VOLUME as int) * p1 * p1 * p1,
        (MAX_VOLUME as int) * p2 * p2 * p2,
        (PERCEPTUAL_SCALE as int) * (PERCEPTUAL_SCALE as int) * (PERCEPTUAL_SCALE as int),
    );
}

/// Within the domain the curve climbs by at most one volume step per
/// fraction step, so it takes every volume value on the way up.
proof fn lemma_vol_of_step(p: int)
    requires
        1 <= p <= PERCEPTUAL_SCALE,
    ensures
        vol_of(p) <= vol_of(p - 1) + 1,
{
    let d = (PERCEPTUAL_SCALE as int) * (PERCEPTUAL_SCALE as int) * (PERCEPTUAL_SCALE as int);
    assert((MAX_VOLUME as int) * p * p * p <= (MAX_VOLUME as int) * (p - 1) * (p - 1) * (p - 1)
        + 1_000_000_000_000_000_000) by (nonlinear_arith)
        requires
            1 <= p <= 1_000_000,
    ;
    assert(d == 1_000_000_000_000_000_000);
    lemma_div_is_ordered(
        (MAX_VOLUME as int) * p * p * p,
        (MAX_VOLUME as int) * (p - 1) * (p - 1) * (p - 1) + d,
        d,
    );
    lemma_div_plus_one((MAX_VOLUME as int) * (p - 1) * (p - 1) * (p - 1), d);
}

/// The full perceptual fraction maps to exactly the top of the domain.
proof fn lemma_vol_of_max()
    ensures
        vol_of(PERCEPTUAL_SCALE as int) == MAX_VOLUME as int,
{
    let d = (PERCEPTUAL_SCALE as int) * (PERCEPTUAL_SCALE as int) * (PERCEPTUAL_SCALE as int);
    assert((MAX_VOLUME as int) * (PERCEPTUAL_SCALE as int) * (PERCEPTUAL_SCALE as int)
        * (PERCEPTUAL_SCALE as int) == (MAX_VOLUME as int) * d);
    lemma_div_by_multiple(MAX_VOLUME as int, d);
    assert((MAX_VOLUME as int) * d == d * (MAX_VOLUME as int)) by (nonlinear_arith);
}

/// The curve stays within the volume domain.
proof fn lemma_vol_of_bounds(p: int)
    requires
        0 <= p <= PERCEPTUAL_SCALE,
    ensures
        0 <= vol_of(p) <= MAX_VOLUME as int,
{
    lemma_vol_of_monotone(0, p);
    lemma_vol_of_monotone(p, PERCEPTUAL_SCALE as int);
    lemma_vol_of_max();
}

/// The cube-law volume at fraction `p`, computed exactly.
fn vol_of_exec(p: u32) -> (v: u32)
    requires
        p <= PERCEPTUAL_SCALE,
    ensures
        v as int == vol_of(p as int),
        v <= MAX_VOLUME,
{
    let p64: u64 = p as u64;
    proof {
        assert((p64 as int) * (p64 as int) <= 1_000_000_000_000) by (nonlinear_arith)
            requires
                p64 <= 1_000_000,
        ;
    }
    let sq: u64 = p64 * p64;
    proof {
        assert((sq as int) * (p64 as int) <= 1_000_000_000_000_000_000) by (nonlinear_arith)
            requires
                sq <= 1_000_000_000_000 && p64 <= 1_000_000,
        ;
    }
    let cube: u128 = (sq as u128) * (p64 as u128);
    proof {
        assert((MAX_VOLUME as int) * (cube as int) <= 20_000_000_000_000_000_000_000)
            by (nonlinear_arith)
            requires
                0 <= cube as int <= 1_000_000_000_000_000_000,
        ;
    }
    let num: u128 = (MAX_VOLUME as u128) * cube;
    let v128: u128 = num / 1_000_000_000_000_000_000u128;
    proof {
        assert((PERCEPTUAL_SCALE as int) * (PERCEPTUAL_SCALE as int) * (PERCEPTUAL_SCALE as int)
            == 1_000_000_000_000_000_000);
        assert(num as int == (MAX_VOLUME as int) * (p as int) * (p as int) * (p as int))
            by (nonlinear_arith)
            requires
                sq as int == (p as int) * (p as int),
                cube as int == (sq as int) * (p as int),
                num as int == (MAX_VOLUME as int) * (cube as int),
        ;
        lemma_div_is_ordered(
            num as int,
            20_000_000_000_000_000_000_000,
            1_000_000_000_000_000_000,
        );
        assert(20_000_000_000_000_000_000_000int / 1_000_000_000_000_000_000 == 20_000);
    }
    v128 as u32
}

/// The linear volume for a perceptual fraction, on the cube-law curve.
///
/// A fraction outside the representable range is clamped to the nearest
/// boundary first.
pub fn to_volume(perceptual: i64) -> (v: u32)
    ensures
        v as int == vol_of(clamped_perceptual(perceptual as int)),
        v <= MAX_VOLUME,
{
    let p: u32 = if perceptual < 0 {
        0
    } else if perceptual > PERCEPTUAL_SCALE as i64 {
        PERCEPTUAL_SCALE
    } else {
        perceptual as u32
    };
    vol_of_exec(p)
}

/// The perceptual fraction for a linear volume: the least fraction whose
/// cube-law volume reaches it, found by binary search.
///
/// A volume outside the converter's domain is clamped to the nearest
/// boundary first. Silence maps to the zero fraction and nothing else
/// does.
pub fn to_perceptual(volume: i64) -> (p: u32)
    ensures
        p <= PERCEPTUAL_SCALE,
        is_perceptual_for(clamped_volume(volume as int), p as int),
        (clamped_volume(volume as int) == 0) <==> (p == 0),
{
    let cv: u32 = if volume < 0 {
        0
    } else if volume > MAX_VOLUME as i64 {
        MAX_VOLUME
    } else {
        volume as u32
    };
    proof {
        lemma_vol_of_max();
    }
    let mut lo: u32 = 0;
    let mut hi: u32 = PERCEPTUAL_SCALE;
    while lo < hi
        invariant
            lo <= hi <= PERCEPTUAL_SCALE,
            cv <= MAX_VOLUME,
            vol_of(hi as int) >= cv,
            forall|q: int| 0 <= q < lo ==> vol_of(q) < cv,
        decreases hi - lo,
    {
        let mid: u32 = lo + (hi - lo) / 2;
        let vm: u32 = vol_of_exec(mid);
        if vm >= cv {
            hi = mid;
        } else {
            let ghost old_lo = lo as int;
            lo = mid + 1;
            proof {
                assert forall|q: int| 0 <= q < lo implies vol_of(q) < cv by {
                    if q >= old_lo {
                        lemma_vol_of_monotone(q, mid as int);
                    }
                }
            }
        }
    }
    proof {
        if lo == 0 {
            assert(vol_of(0) == 0);
        } else {
            assert(vol_of(0) < cv);
        }
    }
    lo
}

/// Law: converting a linear volume to its perceptual fraction and back
/// returns that volume exactly, anywhere in the converter's domain.
pub proof fn lemma_volume_round_trip(v: int, p: int)
    requires
        0 <= v <= MAX_VOLUME as int,
        is_perceptual_for(v, p),
    ensures
        vol_of(p) == v,
{
    if p == 0 {
        assert(vol_of(0) == 0);
    } else {
        assert(vol_of(p - 1) < v);
        lemma_vol_of_step(p);
    }
}

/// Law: the perceptual fraction grows strictly with the linear volume —
/// a strictly louder gain always shows as a strictly larger fraction.
pub proof fn lemma_perceptual_strictly_monotone(v1: int, v2: int, p1: int, p2: int)
    requires
        0 <= v1 < v2 <= MAX_VOLUME as int,
        is_perceptual_for(v1, p1),
        is_perceptual_for(v2, p2),
    ensures
        p1 < p2,
{
    lemma_volume_round_trip(v1, p1);
    if p2 <= p1 {
        lemma_vol_of_monotone(p2, p1);
        assert(false);
    }
}

/// Law: converting a perceptual fraction to its linear volume and back
/// gives the least fraction with that same volume — never a larger one,
/// and never one that sounds different.
pub proof fn lemma_perceptual_round_trip(p: int, p2: int)
    requires
        0 <= p <= PERCEPTUAL_SCALE as int,
        is_perceptual_for(vol_of(p), p2),
    ensures
        p2 <= p,
        vol_of(p2) == vol_of(p),
{
    if p < p2 {
        assert(vol_of(p) < vol_of(p));
        assert(false);
    }
    lemma_vol_of_bounds(p);
    lemma_volume_round_trip(vol_of(p), p2);
}

/// How many ticks the volume slider supports.
pub const MAX_TICKS: u32 = 20;

/// The initial linear volume, half of unity gain: set below 0 dB so the
/// user can still turn the volume up.
pub const DEFAULT_MAIN_VOLUME: u32 = 5_000;

/// The perceptual fraction shown by a slider at `t` ticks: ticks are
/// evenly spaced on the perceptual axis.
pub open spec fn fraction_of_ticks(t: int) -> int {
    t * (PERCEPTUAL_SCALE as int) / (MAX_TICKS as int)
}

/// The volume slider's state: a tick count in `[0, MAX_TICKS]` standing
/// for a discretized perceptual loudness. Derived values — the perceptual
/// fraction and the linear gain — are computed on demand, never stored.
pub struct VolumeSliderSettings {
    ticks: u32,
}

impl View for VolumeSliderSettings {
    type V = int;

    closed spec fn view(&self) -> int {
        self.ticks as int
    }
}

impl VolumeSliderSettings {
    /// The tick count stays in `[0, MAX_TICKS]`; established by
    /// [`Default::default`] and preserved by every method.
    pub open spec fn wf(self) -> bool {
        0 <= self@ <= MAX_TICKS
    }

    /// Moves the slider one tick up, saturating at [`MAX_TICKS`].
    pub fn increment(&mut self)
        requires
            old(self).wf(),
        ensures
            final(self).wf(),
            old(self)@ < MAX_TICKS ==> final(self)@ == old(self)@ + 1,
            old(self)@ == MAX_TICKS ==> final(self)@ == MAX_TICKS,
    {
        if self.ticks < MAX_TICKS {
            self.ticks = self.ticks + 1;
        }
    }

    /// Moves the slider one tick down, saturating at zero.
    pub fn decrement(&mut self)
        requires
            old(self).wf(),
        ensures
            final(self).wf(),
            old(self)@ > 0 ==> final(self)@ == old(self)@ - 1,
            old(self)@ == 0 ==> final(self)@ == 0,
    {
        if self.ticks > 0 {
            self.ticks = self.ticks - 1;
        }
    }

    /// The current tick count.
    pub fn ticks(&self) -> (t: u32)
        ensures
            t as int == self@,
    {
        self.ticks
    }

    /// The slider position as a perceptual fraction, in millionths.
    pub fn perceptual_fraction(&self) -> (f: u32)
        requires
            self.wf(),
        ensures
            f as int == fraction_of_ticks(self@),
            f <= PERCEPTUAL_SCALE,
    {
        let f: u32 = self.ticks * (PERCEPTUAL_SCALE / MAX_TICKS);
        proof {
            lemma_div_by_multiple((self.ticks as int) * 50_000, 20);
            assert((self.ticks as int) * 50_000 * 20 == (self.ticks as int) * (
            PERCEPTUAL_SCALE as int)) by (nonlinear_arith);
        }
        f
    }

    /// The linear gain for the current slider position, on the cube-law
    /// curve.
    pub fn linear_volume(&self) -> (v: u32)
        requires
            self.wf(),
        ensures
            v as int == vol_of(fraction_of_ticks(self@)),
            v <= MAX_VOLUME,
    {
        let f = self.perceptual_fraction();
        to_volume(f as i64)
    }
}

impl Default for VolumeSliderSettings {
    /// The initial slider position: the perceptual fraction of
    /// [`DEFAULT_MAIN_VOLUME`], rounded to the nearest tick.
    fn default() -> (d: Self)
        ensures
            d.wf(),
            exists|p: int|
                #[trigger] is_perceptual_for(DEFAULT_MAIN_VOLUME as int, p) && d@ == ((
                MAX_TICKS as int) * p + (PERCEPTUAL_SCALE as int) / 2) / (PERCEPTUAL_SCALE as int),
    {
        let p: u32 = to_perceptual(DEFAULT_MAIN_VOLUME as i64);
        let t: u32 = (MAX_TICKS * p + PERCEPTUAL_SCALE / 2) / PERCEPTUAL_SCALE;
        proof {
            lemma_div_is_ordered(
                (MAX_TICKS as int) * (p as int) + 500_000,
                20_500_000,
                1_000_000,
            );
            assert(20_500_000int / 1_000_000 == 20);
            assert(is_perceptual_for(DEFAULT_MAIN_VOLUME as int, p as int));
        }
        VolumeSliderSettings { ticks: t }
    }
}

} // verus!
