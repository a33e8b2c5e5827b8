//! The spec-matching engine: data types for display specifications and
//! hardware modes, and the algorithms that select the best mode for a
//! possibly-partial specification.
//!
//! Refresh rates are carried as integer millihertz (1 Hz = 1000 mHz), so the
//! fixed 0.1 Hz comparison tolerance becomes an exact integer bound of 100 mHz.

use vstd::prelude::*;

use crate::platform::stub::{lemma_stub_catalog_wf, stub_mode_catalog};
use crate::platform::PlatformDisplayManager;

verus! {

/// The failures this library signals. `NoMatch` is the matcher's only
/// failure: no mode satisfies the applicable policy for the given
/// specification and catalog. `Unsupported` comes from the platform backend
/// when it cannot change the display.
#[derive(Debug, Clone, Copy, PartialEq, Eq)]
pub enum DisplayError {
    NoMatch,
    Unsupported,
}

/// Absolute tolerance for refresh-rate comparison: 0.1 Hz, in millihertz.
/// It absorbs platform rounding of reported rates (e.g. 59.94 vs 60).
pub const RATE_TOLERANCE_MILLIHERTZ: u32 = 100;

/// A user-requested display configuration. Every field is optional;
/// `width` and `height` are always both present or both absent.
#[derive(Debug, Clone, Copy, PartialEq, Eq)]
pub struct DisplaySpec {
    pub width: Option<u32>,
    pub height: Option<u32>,
    /// Target vertical refresh in millihertz.
    pub refresh_millihertz: Option<u32>,
    /// A reduced ratio, e.g. (16, 9).
    pub aspect_ratio: Option<(u32, u32)>,
}

/// A concrete display capability reported by hardware: always fully specified.
#[derive(Debug, Clone, Copy, PartialEq, Eq)]
pub struct DisplayMode {
    pub width: u32,
    pub height: u32,
    /// Vertical refresh in millihertz.
    pub refresh_millihertz: u32,
}

impl DisplayMode {
    /// A hardware-reported mode has at least one nonzero dimension. Reducing
    /// the aspect ratio divides by gcd(width, height), which is zero only for
    /// a 0x0 mode; real hardware never reports one.
    pub open spec fn wf(self) -> bool {
        self.width != 0 || self.height != 0
    }
}

/// Greatest common divisor by the Euclidean algorithm (`spec_gcd(a, 0) == a`).
pub open spec fn spec_gcd(a: nat, b: nat) -> nat
    decreases b,
{
    if b == 0 {
        a
    } else {
        spec_gcd(b, a % b)
    }
}

/// The gcd of two numbers that are not both zero is positive.
pub proof fn lemma_gcd_pos(a: nat, b: nat)
    requires
        a > 0 || b > 0,
    ensures
        spec_gcd(a, b) > 0,
    decreases b,
{
    if b > 0 {
        lemma_gcd_pos(b, a % b);
    }
}

/// Both components of a rate comparison agree within the fixed tolerance
/// (inclusive). Mirrors rejecting a pair whose difference exceeds 0.1 Hz.
pub open spec fn rate_within_tolerance(a: u32, b: u32) -> bool {
    -(RATE_TOLERANCE_MILLIHERTZ as int) <= a - b <= RATE_TOLERANCE_MILLIHERTZ as int
}

/// The two rates differ by strictly less than the tolerance. The refresh-rate
/// selection policy uses this strict form when searching for an exact match.
pub open spec fn rate_strictly_within(a: u32, b: u32) -> bool {
    -(RATE_TOLERANCE_MILLIHERTZ as int) < a - b < RATE_TOLERANCE_MILLIHERTZ as int
}

/// The resolution `w` x `h`, reduced by its gcd, equals the ratio `rw:rh`.
pub open spec fn ratio_matches(w: u32, h: u32, rw: u32, rh: u32) -> bool {
    let g = spec_gcd(w as nat, h as nat) as int;
    w as int / g == rw as int && h as int / g == rh as int
}

/// Permissive filter semantics between two specifications: every field that is
/// present on the `constraint` side and comparable on the `cand` side must
/// agree; absence on either side imposes no requirement.
pub open spec fn spec_spec_matches(cand: DisplaySpec, constraint: DisplaySpec) -> bool {
    &&& match (constraint.width, constraint.height, cand.width, cand.height) {
        (Some(fw), Some(fh), Some(w), Some(h)) => w == fw && h == fh,
        _ => true,
    }
    &&& match (constraint.aspect_ratio, cand.width, cand.height) {
        (Some((rw, rh)), Some(w), Some(h)) => ratio_matches(w, h, rw, rh),
        _ => true,
    }
    &&& match (constraint.refresh_millihertz, cand.refresh_millihertz) {
        (Some(fr), Some(r)) => rate_within_tolerance(r, fr),
        _ => true,
    }
}

/// The specification a concrete mode presents when it is compared against a
/// request: width, height and refresh rate populated, aspect ratio absent.
pub open spec fn mode_as_spec(m: DisplayMode) -> DisplaySpec {
    DisplaySpec {
        width: Some(m.width),
        height: Some(m.height),
        refresh_millihertz: Some(m.refresh_millihertz),
        aspect_ratio: None,
    }
}

/// Filter semantics of a concrete mode against a specification: present
/// filter fields must agree with the mode, absent ones impose nothing.
pub open spec fn spec_mode_matches_filter(m: DisplayMode, filter: DisplaySpec) -> bool {
    spec_spec_matches(mode_as_spec(m), filter)
}

/// Greatest common divisor of two non-negative integers by repeated
/// remainder; used to reduce a (width, height) pair to its lowest-terms
/// aspect ratio. `gcd(a, 0) == a`.
pub fn gcd(a: u32, b: u32) -> (g: u32)
    ensures
        g == spec_gcd(a as nat, b as nat),
{
    let mut x = a;
    let mut y = b;
    while y != 0
        invariant
            spec_gcd(x as nat, y as nat) == spec_gcd(a as nat, b as nat),
        decreases y,
    {
        let temp = y;
        y = x % y;
        x = temp;
    }
    x
}

/// The elements of `s` whose resolution is exactly `w` x `h`, in order.
pub open spec fn resolution_pool(s: Seq<DisplayMode>, w: u32, h: u32) -> Seq<DisplayMode>
    decreases s.len(),
{
    if s.len() == 0 {
        Seq::empty()
    } else {
        let rest = resolution_pool(s.drop_last(), w, h);
        if s.last().width == w && s.last().height == h {
            rest.push(s.last())
        } else {
            rest
        }
    }
}

/// The elements of `s` whose reduced aspect ratio is exactly `rw:rh`, in order.
pub open spec fn aspect_pool(s: Seq<DisplayMode>, rw: u32, rh: u32) -> Seq<DisplayMode>
    decreases s.len(),
{
    if s.len() == 0 {
        Seq::empty()
    } else {
        let rest = aspect_pool(s.drop_last(), rw, rh);
        if ratio_matches(s.last().width, s.last().height, rw, rh) {
            rest.push(s.last())
        } else {
            rest
        }
    }
}

/// Some element of the pool has a rate strictly within tolerance of `t`.
pub open spec fn has_rate_strictly_within(pool: Seq<DisplayMode>, t: u32) -> bool {
    exists|i: int|
        0 <= i < pool.len() && rate_strictly_within(
            (#[trigger] pool[i]).refresh_millihertz,
            t,
        )
}

/// Some element of the pool has a rate strictly above `t`.
pub open spec fn has_rate_above(pool: Seq<DisplayMode>, t: u32) -> bool {
    exists|i: int| 0 <= i < pool.len() && (#[trigger] pool[i]).refresh_millihertz > t
}

/// Some element of the pool has a rate strictly below `t`.
pub open spec fn has_rate_below(pool: Seq<DisplayMode>, t: u32) -> bool {
    exists|i: int| 0 <= i < pool.len() && (#[trigger] pool[i]).refresh_millihertz < t
}

/// `m` is the first pool element whose rate is strictly within tolerance of `t`.
pub open spec fn is_first_rate_match(pool: Seq<DisplayMode>, t: u32, m: DisplayMode) -> bool {
    exists|i: int|
        {
            &&& 0 <= i < pool.len()
            &&& #[trigger] pool[i] == m
            &&& rate_strictly_within(m.refresh_millihertz, t)
            &&& forall|j: int|
                0 <= j < i ==> !rate_strictly_within((#[trigger] pool[j]).refresh_millihertz, t)
        }
}

/// `m` is the pool element with the smallest rate strictly above `t`;
/// among equal rates, the earliest element.
pub open spec fn is_closest_overshoot(pool: Seq<DisplayMode>, t: u32, m: DisplayMode) -> bool {
    exists|i: int|
        {
            &&& 0 <= i < pool.len()
            &&& #[trigger] pool[i] == m
            &&& m.refresh_millihertz > t
            &&& forall|j: int|
                0 <= j < pool.len() && (#[trigger] pool[j]).refresh_millihertz > t
                    ==> pool[j].refresh_millihertz >= m.refresh_millihertz
            &&& forall|j: int|
                0 <= j < i && (#[trigger] pool[j]).refresh_millihertz > t
                    ==> pool[j].refresh_millihertz > m.refresh_millihertz
        }
}

/// `m` is the pool element with the largest rate strictly below `t`;
/// among equal rates, the latest element.
pub open spec fn is_closest_undershoot(pool: Seq<DisplayMode>, t: u32, m: DisplayMode) -> bool {
    exists|i: int|
        {
            &&& 0 <= i < pool.len()
            &&& #[trigger] pool[i] == m
            &&& m.refresh_millihertz < t
            &&& forall|j: int|
                0 <= j < pool.len() && (#[trigger] pool[j]).refresh_millihertz < t
                    ==> pool[j].refresh_millihertz <= m.refresh_millihertz
            &&& forall|j: int|
                i < j < pool.len() && (#[trigger] pool[j]).refresh_millihertz < t
                    ==> pool[j].refresh_millihertz < m.refresh_millihertz
        }
}

/// `m` is the pool element with the maximum rate; among equal rates, the
/// latest element.
pub open spec fn is_max_rate(pool: Seq<DisplayMode>, m: DisplayMode) -> bool {
    exists|i: int|
        {
            &&& 0 <= i < pool.len()
            &&& #[trigger] pool[i] == m
            &&& forall|j: int|
                0 <= j < pool.len() ==> (#[trigger] pool[j]).refresh_millihertz
                    <= m.refresh_millihertz
            &&& forall|j: int|
                i < j < pool.len() ==> (#[trigger] pool[j]).refresh_millihertz
                    < m.refresh_millihertz
        }
}

/// The refresh-rate selection policy over a pool of candidate modes.
/// With a target rate: first strictly-within match, else smallest rate above
/// the target, else largest rate below it, else (defensively) the first
/// element. With no target: the maximum rate. An empty pool yields no choice.
pub open spec fn refresh_choice(
    pool: Seq<DisplayMode>,
    target: Option<u32>,
    r: Option<DisplayMode>,
) -> bool {
    if pool.len() == 0 {
        r is None
    } else {
        match target {
            Some(t) => {
                if has_rate_strictly_within(pool, t) {
                    r matches Some(m) && is_first_rate_match(pool, t, m)
                } else if has_rate_above(pool, t) {
                    r matches Some(m) && is_closest_overshoot(pool, t, m)
                } else if has_rate_below(pool, t) {
                    r matches Some(m) && is_closest_undershoot(pool, t, m)
                } else {
                    r == Some(pool[0])
                }
            },
            None => r matches Some(m) && is_max_rate(pool, m),
        }
    }
}

/// Squared Euclidean distance between a mode's resolution and a target
/// resolution. Comparing squared distances orders modes exactly as comparing
/// the distances themselves.
pub open spec fn dist2(m: DisplayMode, w: u32, h: u32) -> int {
    (m.width - w) * (m.width - w) + (m.height - h) * (m.height - h)
}

/// `r` is the element of `s` at minimum distance from the target resolution;
/// on equal distances, the earliest element. An empty catalog yields nothing.
pub open spec fn closest_by_distance(
    s: Seq<DisplayMode>,
    w: u32,
    h: u32,
    r: Option<DisplayMode>,
) -> bool {
    if s.len() == 0 {
        r is None
    } else {
        r matches Some(m) && exists|i: int|
            {
                &&& 0 <= i < s.len()
                &&& #[trigger] s[i] == m
                &&& forall|j: int| 0 <= j < s.len() ==> dist2(m, w, h) <= dist2(#[trigger] s[j], w, h)
                &&& forall|j: int| 0 <= j < i ==> dist2(#[trigger] s[j], w, h) > dist2(m, w, h)
            }
    }
}

proof fn lemma_abs_diff_sq(a: int, b: int, d: int)
    requires
        d == if a >= b {
            a - b
        } else {
            b - a
        },
    ensures
        d * d == (a - b) * (a - b),
{
    if a < b {
        assert((b - a) * (b - a) == (a - b) * (a - b)) by (nonlinear_arith);
    }
}

/// Squared distance in (width, height) space, exactly; `u64` squares of `u32`
/// differences cannot overflow, and their sum fits in a `u128`.
fn squared_distance(m: DisplayMode, w: u32, h: u32) -> (d: u128)
    ensures
        d as int == dist2(m, w, h),
{
    let dw: u64 = if m.width >= w {
        (m.width - w) as u64
    } else {
        (w - m.width) as u64
    };
    let dh: u64 = if m.height >= h {
        (m.height - h) as u64
    } else {
        (h - m.height) as u64
    };
    proof {
        lemma_abs_diff_sq(m.width as int, w as int, dw as int);
        lemma_abs_diff_sq(m.height as int, h as int, dh as int);
        assert(dw as int * dw as int <= 0xffff_ffff * 0xffff_ffff) by (nonlinear_arith)
            requires
                0 <= dw as int <= 0xffff_ffff,
        ;
        assert(dh as int * dh as int <= 0xffff_ffff * 0xffff_ffff) by (nonlinear_arith)
            requires
                0 <= dh as int <= 0xffff_ffff,
        ;
    }
    let sw: u64 = dw * dw;
    let sh: u64 = dh * dh;
    (sw as u128) + (sh as u128)
}

impl DisplaySpec {
    /// The closest-match policy. With a concrete resolution, resolve it
    /// resolution-first; with an aspect ratio, restrict the catalog to that
    /// ratio and pick by refresh-rate policy; with neither, no match.
    #[verifier::loop_isolation(false)]
    pub fn to_concrete_spec(&self, available_modes: &Vec<DisplayMode>) -> (r: Option<
        DisplayMode,
    >)
        requires
            // the aspect-ratio path reduces each catalog mode's resolution
            !(self.width is Some && self.height is Some) && self.aspect_ratio is Some
                ==> forall|i: int|
                0 <= i < available_modes@.len() ==> (#[trigger] available_modes@[i]).wf(),
        ensures
            available_modes@.len() == 0 ==> r is None,
            self.width is Some && self.height is Some ==> ({
                let pool = resolution_pool(available_modes@, self.width->0, self.height->0);
                &&& pool.len() > 0 ==> refresh_choice(pool, self.refresh_millihertz, r)
                &&& pool.len() == 0 ==> closest_by_distance(
                    available_modes@,
                    self.width->0,
                    self.height->0,
                    r,
                )
            }),
            !(self.width is Some && self.height is Some) && self.aspect_ratio is Some ==> ({
                let ratio = self.aspect_ratio->0;
                let pool = aspect_pool(available_modes@, ratio.0, ratio.1);
                &&& pool.len() > 0 ==> refresh_choice(pool, self.refresh_millihertz, r)
                &&& pool.len() == 0 ==> r is None
            }),
            !(self.width is Some && self.height is Some) && self.aspect_ratio is None ==> r
                is None,
    {
        // If we have a concrete width and height, find the exact or closest match
        if let (Some(target_width), Some(target_height)) = (self.width, self.height) {
            return self.find_best_mode_for_resolution(
                available_modes,
                target_width,
                target_height,
            );
        }
        // If we have an aspect ratio, find the modes matching that ratio
        if let Some((w_ratio, h_ratio)) = self.aspect_ratio {
            let n = available_modes.len();
            let mut matching_modes: Vec<DisplayMode> = Vec::new();
            let mut i: usize = 0;
            while i < n
                invariant
                    n == available_modes@.len(),
                    i <= n,
                    forall|k: int|
                        0 <= k < available_modes@.len() ==> (#[trigger] available_modes@[k]).wf(),
                    matching_modes@ == aspect_pool(
                        available_modes@.take(i as int),
                        w_ratio,
                        h_ratio,
                    ),
                decreases n - i,
            {
                let m = available_modes[i];
                proof {
                    assert(available_modes@.take(i as int + 1).drop_last() =~= available_modes@.take(
                        i as int,
                    ));
                    lemma_gcd_pos(m.width as nat, m.height as nat);
                }
                let g = gcd(m.width, m.height);
                let actual_w_ratio = m.width / g;
                let actual_h_ratio = m.height / g;
                if actual_w_ratio == w_ratio && actual_h_ratio == h_ratio {
                    matching_modes.push(m);
                }
                i += 1;
            }
            proof {
                assert(available_modes@.take(n as int) =~= available_modes@);
            }
            if matching_modes.len() == 0 {
                return None;
            }
            return self.find_best_mode_by_refresh_rate(&matching_modes);
        }
        None
    }

    /// Resolution-first search: if any catalog mode has exactly the target
    /// resolution, pick among those by refresh-rate policy; otherwise fall
    /// back to the mode closest in (width, height) distance, whose own rate
    /// is used as-is.
    #[verifier::loop_isolation(false)]
    fn find_best_mode_for_resolution(
        &self,
        available_modes: &Vec<DisplayMode>,
        target_width: u32,
        target_height: u32,
    ) -> (r: Option<DisplayMode>)
        ensures
            ({
                let pool = resolution_pool(available_modes@, target_width, target_height);
                &&& pool.len() > 0 ==> refresh_choice(pool, self.refresh_millihertz, r)
                &&& pool.len() == 0 ==> closest_by_distance(
                    available_modes@,
                    target_width,
                    target_height,
                    r,
                )
            }),
    {
        // First, try to find exact resolution matches
        let n = available_modes.len();
        let mut resolution_matches: Vec<DisplayMode> = Vec::new();
        let mut i: usize = 0;
        while i < n
            invariant
                n == available_modes@.len(),
                i <= n,
                resolution_matches@ == resolution_pool(
                    available_modes@.take(i as int),
                    target_width,
                    target_height,
                ),
            decreases n - i,
        {
            let m = available_modes[i];
            proof {
                assert(available_modes@.take(i as int + 1).drop_last() =~= available_modes@.take(
                    i as int,
                ));
            }
            if m.width == target_width && m.height == target_height {
                resolution_matches.push(m);
            }
            i += 1;
        }
        proof {
            assert(available_modes@.take(n as int) =~= available_modes@);
        }
        if resolution_matches.len() > 0 {
            return self.find_best_mode_by_refresh_rate(&resolution_matches);
        }
        // If no exact resolution match, find the closest resolution
        if n == 0 {
            return None;
        }
        let mut best: usize = 0;
        let mut best_d: u128 = squared_distance(available_modes[0], target_width, target_height);
        let mut i: usize = 1;
        while i < n
            invariant
                n == available_modes@.len(),
                best < i <= n,
                best_d as int == dist2(
                    available_modes@[best as int],
                    target_width,
                    target_height,
                ),
                forall|j: int|
                    0 <= j < i ==> dist2(available_modes@[best as int], target_width, target_height)
                        <= dist2(#[trigger] available_modes@[j], target_width, target_height),
                forall|j: int|
                    0 <= j < best ==> dist2(
                        #[trigger] available_modes@[j],
                        target_width,
                        target_height,
                    ) > dist2(available_modes@[best as int], target_width, target_height),
            decreases n - i,
        {
            let d = squared_distance(available_modes[i], target_width, target_height);
            if d < best_d {
                best = i;
                best_d = d;
            }
            i += 1;
        }
        Some(available_modes[best])
    }

    /// Apply the refresh-rate policy to a pool of modes that already share
    /// the desired resolution or aspect ratio.
    #[verifier::loop_isolation(false)]
    fn find_best_mode_by_refresh_rate(&self, modes: &Vec<DisplayMode>) -> (r: Option<DisplayMode>)
        ensures
            refresh_choice(modes@, self.refresh_millihertz, r),
    {
        let n = modes.len();
        if n == 0 {
            return None;
        }
        if let Some(target_rate) = self.refresh_millihertz {
            // First try to find an exact refresh-rate match
            let mut i: usize = 0;
            while i < n
                invariant
                    n == modes@.len(),
                    i <= n,
                    forall|j: int|
                        0 <= j < i ==> !rate_strictly_within(
                            (#[trigger] modes@[j]).refresh_millihertz,
                            target_rate,
                        ),
                decreases n - i,
            {
                let m = modes[i];
                let diff = if m.refresh_millihertz >= target_rate {
                    m.refresh_millihertz - target_rate
                } else {
                    target_rate - m.refresh_millihertz
                };
                if diff < RATE_TOLERANCE_MILLIHERTZ {
                    proof {
                        assert(modes@[i as int] == m && rate_strictly_within(
                            m.refresh_millihertz,
                            target_rate,
                        ));
                        assert(has_rate_strictly_within(modes@, target_rate));
                        assert(is_first_rate_match(modes@, target_rate, m));
                    }
                    return Some(m);
                }
                i += 1;
            }
            // If no exact match, prefer the closest higher refresh rate
            let mut above: Option<usize> = None;
            let mut i: usize = 0;
            while i < n
                invariant
                    n == modes@.len(),
                    i <= n,
                    match above {
                        Some(b) => {
                            &&& b < i <= n
                            &&& modes@[b as int].refresh_millihertz > target_rate
                            &&& forall|j: int|
                                0 <= j < i && (#[trigger] modes@[j]).refresh_millihertz
                                    > target_rate ==> modes@[j].refresh_millihertz
                                    >= modes@[b as int].refresh_millihertz
                            &&& forall|j: int|
                                0 <= j < b && (#[trigger] modes@[j]).refresh_millihertz
                                    > target_rate ==> modes@[j].refresh_millihertz
                                    > modes@[b as int].refresh_millihertz
                        },
                        None => forall|j: int|
                            0 <= j < i ==> !((#[trigger] modes@[j]).refresh_millihertz
                                > target_rate),
                    },
                decreases n - i,
            {
                if modes[i].refresh_millihertz > target_rate {
                    match above {
                        None => above = Some(i),
                        Some(b) => {
                            if modes[i].refresh_millihertz < modes[b].refresh_millihertz {
                                above = Some(i);
                            }
                        },
                    }
                }
                i += 1;
            }
            if let Some(b) = above {
                return Some(modes[b]);
            }
            // If no higher rate is available, take the highest lower rate
            let mut below: Option<usize> = None;
            let mut i: usize = 0;
            while i < n
                invariant
                    n == modes@.len(),
                    i <= n,
                    match below {
                        Some(b) => {
                            &&& b < i <= n
                            &&& modes@[b as int].refresh_millihertz < target_rate
                            &&& forall|j: int|
                                0 <= j < i && (#[trigger] modes@[j]).refresh_millihertz
                                    < target_rate ==> modes@[j].refresh_millihertz
                                    <= modes@[b as int].refresh_millihertz
                            &&& forall|j: int|
                                b < j < i && (#[trigger] modes@[j]).refresh_millihertz
                                    < target_rate ==> modes@[j].refresh_millihertz
                                    < modes@[b as int].refresh_millihertz
                        },
                        None => forall|j: int|
                            0 <= j < i ==> !((#[trigger] modes@[j]).refresh_millihertz
                                < target_rate),
                    },
                decreases n - i,
            {
                if modes[i].refresh_millihertz < target_rate {
                    match below {
                        None => below = Some(i),
                        Some(b) => {
                            if modes[i].refresh_millihertz >= modes[b].refresh_millihertz {
                                below = Some(i);
                            }
                        },
                    }
                }
                i += 1;
            }
            if let Some(b) = below {
                return Some(modes[b]);
            }
            // Defensive fallback; cannot occur for a non-empty pool, since a
            // rate neither above, below, nor within tolerance of the target
            // would have to equal it exactly.
            Some(modes[0])
        } else {
            // No refresh rate specified: return the mode with the highest rate
            let mut b: usize = 0;
            let mut i: usize = 1;
            while i < n
                invariant
                    n == modes@.len(),
                    b < i <= n,
                    forall|j: int|
                        0 <= j < i ==> (#[trigger] modes@[j]).refresh_millihertz
                            <= modes@[b as int].refresh_millihertz,
                    forall|j: int|
                        b < j < i ==> (#[trigger] modes@[j]).refresh_millihertz
                            < modes@[b as int].refresh_millihertz,
                decreases n - i,
            {
                if modes[i].refresh_millihertz >= modes[b].refresh_millihertz {
                    b = i;
                }
                i += 1;
            }
            Some(modes[b])
        }
    }

    /// Does this specification pass the given filter? Every filter field that
    /// is present and comparable must agree; absence means "don't care".
    /// This is an asymmetric, permissive filter, not a symmetric equality.
    pub fn matches_filter(&self, filter: &DisplaySpec) -> (r: bool)
        requires
            // reducing a 0x0 resolution would divide by gcd(0, 0) == 0
            !(filter.aspect_ratio is Some && self.width == Some(0u32) && self.height == Some(
                0u32,
            )),
        ensures
            r == spec_spec_matches(*self, *filter),
    {
        // Check width and height
        if let (Some(filter_width), Some(filter_height)) = (filter.width, filter.height) {
            if let (Some(width), Some(height)) = (self.width, self.height) {
                if width != filter_width || height != filter_height {
                    return false;
                }
            }
        }
        // Check aspect ratio
        if let Some((filter_w_ratio, filter_h_ratio)) = filter.aspect_ratio {
            if let (Some(width), Some(height)) = (self.width, self.height) {
                proof {
                    lemma_gcd_pos(width as nat, height as nat);
                }
                let g = gcd(width, height);
                let actual_w_ratio = width / g;
                let actual_h_ratio = height / g;
                if actual_w_ratio != filter_w_ratio || actual_h_ratio != filter_h_ratio {
                    return false;
                }
            }
        }
        // Check refresh rate
        if let Some(filter_rate) = filter.refresh_millihertz {
            if let Some(rate) = self.refresh_millihertz {
                let diff = if rate >= filter_rate {
                    rate - filter_rate
                } else {
                    filter_rate - rate
                };
                if diff > RATE_TOLERANCE_MILLIHERTZ {
                    return false;
                }
            }
        }
        true
    }
}

impl DisplayMode {
    /// Does this concrete mode pass the given filter? Present filter fields
    /// must agree with the mode's values; absent ones impose no constraint.
    pub fn matches_filter(&self, filter: &DisplaySpec) -> (r: bool)
        requires
            filter.aspect_ratio is Some ==> self.wf(),
        ensures
            r == spec_mode_matches_filter(*self, *filter),
    {
        // Check width and height
        if let (Some(filter_width), Some(filter_height)) = (filter.width, filter.height) {
            if self.width != filter_width || self.height != filter_height {
                return false;
            }
        }
        // Check aspect ratio
        if let Some((filter_w_ratio, filter_h_ratio)) = filter.aspect_ratio {
            proof {
                lemma_gcd_pos(self.width as nat, self.height as nat);
            }
            let g = gcd(self.width, self.height);
            let actual_w_ratio = self.width / g;
            let actual_h_ratio = self.height / g;
            if actual_w_ratio != filter_w_ratio || actual_h_ratio != filter_h_ratio {
                return false;
            }
        }
        // Check refresh rate
        if let Some(filter_rate) = filter.refresh_millihertz {
            let diff = if self.refresh_millihertz >= filter_rate {
                self.refresh_millihertz - filter_rate
            } else {
                filter_rate - self.refresh_millihertz
            };
            if diff > RATE_TOLERANCE_MILLIHERTZ {
                return false;
            }
        }
        true
    }
}

impl DisplaySpec {
    /// Structural agreement for the exact-match policy: every field present
    /// on this request must agree with the candidate `other`; the candidate's
    /// aspect ratio is derived from its own resolution.
    fn matches_exact(&self, other: &DisplaySpec) -> (r: bool)
        requires
            !(self.aspect_ratio is Some && other.width == Some(0u32) && other.height == Some(
                0u32,
            )),
        ensures
            r == spec_spec_matches(*other, *self),
    {
        // Check width and height
        if let (Some(self_width), Some(self_height)) = (self.width, self.height) {
            if let (Some(other_width), Some(other_height)) = (other.width, other.height) {
                if self_width != other_width || self_height != other_height {
                    return false;
                }
            }
        }
        // Check aspect ratio against the candidate's actual resolution
        if let Some((w_ratio, h_ratio)) = self.aspect_ratio {
            if let (Some(other_width), Some(other_height)) = (other.width, other.height) {
                proof {
                    lemma_gcd_pos(other_width as nat, other_height as nat);
                }
                let g = gcd(other_width, other_height);
                let actual_w_ratio = other_width / g;
                let actual_h_ratio = other_height / g;
                if w_ratio != actual_w_ratio || h_ratio != actual_h_ratio {
                    return false;
                }
            }
        }
        // Check refresh rate
        if let Some(self_rate) = self.refresh_millihertz {
            if let Some(other_rate) = other.refresh_millihertz {
                let diff = if self_rate >= other_rate {
                    self_rate - other_rate
                } else {
                    other_rate - self_rate
                };
                if diff > RATE_TOLERANCE_MILLIHERTZ {
                    return false;
                }
            }
        }
        true
    }
}

/// An empty filter matches every mode: with no field present, no comparison
/// can disagree.
pub proof fn lemma_empty_filter_matches_all(m: DisplayMode)
    ensures
        spec_mode_matches_filter(
            m,
            (DisplaySpec {
                width: None,
                height: None,
                refresh_millihertz: None,
                aspect_ratio: None,
            }),
        ),
{
}

/// A mode matches a filter that states exactly the mode's own width and
/// height and nothing else.
pub proof fn lemma_mode_matches_own_resolution(m: DisplayMode)
    ensures
        spec_mode_matches_filter(
            m,
            (DisplaySpec {
                width: Some(m.width),
                height: Some(m.height),
                refresh_millihertz: None,
                aspect_ratio: None,
            }),
        ),
{
}

/// Switches and inspects the display through the platform backend, using the
/// matcher to turn a specification into a concrete mode.
pub struct DisplayManager {
    platform_manager: PlatformDisplayManager,
}

impl DisplayManager {
    pub fn new() -> (r: Result<Self, DisplayError>)
        ensures
            r is Ok,
    {
        match PlatformDisplayManager::new() {
            Ok(platform_manager) => Ok(DisplayManager { platform_manager }),
            Err(e) => Err(e),
        }
    }

    /// The exact-match policy: the first catalog mode all of whose requested
    /// fields agree with the request, or no match at all — never a close
    /// substitute.
    #[verifier::loop_isolation(false)]
    pub fn find_exact_match(&self, spec: &DisplaySpec, available_modes: &Vec<DisplayMode>) -> (r:
        Option<DisplayMode>)
        requires
            // the aspect-ratio check reduces each candidate's resolution
            spec.aspect_ratio is Some ==> forall|i: int|
                0 <= i < available_modes@.len() ==> (#[trigger] available_modes@[i]).wf(),
        ensures
            available_modes@.len() == 0 ==> r is None,
            r matches Some(m) ==> exists|i: int|
                {
                    &&& 0 <= i < available_modes@.len()
                    &&& #[trigger] available_modes@[i] == m
                    &&& spec_mode_matches_filter(m, *spec)
                    &&& forall|j: int|
                        0 <= j < i ==> !spec_mode_matches_filter(
                            #[trigger] available_modes@[j],
                            *spec,
                        )
                },
            r is None ==> forall|i: int|
                0 <= i < available_modes@.len() ==> !spec_mode_matches_filter(
                    #[trigger] available_modes@[i],
                    *spec,
                ),
    {
        let n = available_modes.len();
        let mut i: usize = 0;
        while i < n
            invariant
                i <= n,
                forall|j: int|
                    0 <= j < i ==> !spec_mode_matches_filter(
                        #[trigger] available_modes@[j],
                        *spec,
                    ),
            decreases n - i,
        {
            let mode = available_modes[i];
            let mode_spec = DisplaySpec {
                width: Some(mode.width),
                height: Some(mode.height),
                refresh_millihertz: Some(mode.refresh_millihertz),
                aspect_ratio: None,
            };
            proof {
                assert(mode_spec == mode_as_spec(mode));
            }
            if spec.matches_exact(&mode_spec) {
                return Some(mode);
            }
            i += 1;
        }
        None
    }

    /// Pick a mode for the specification under the requested policy and ask
    /// the platform backend to apply it. With the built-in stub backend the
    /// application step always fails, so the result distinguishes exactly
    /// whether the matcher found a mode (`Unsupported`) or not (`NoMatch`).
    pub fn switch_display(&self, spec: &DisplaySpec, exact: bool) -> (r: Result<
        DisplayMode,
        DisplayError,
    >)
        ensures
            r is Err,
            ({
                let modes = stub_mode_catalog();
                let no_match = if exact {
                    forall|i: int|
                        0 <= i < modes.len() ==> !spec_mode_matches_filter(
                            #[trigger] modes[i],
                            *spec,
                        )
                } else {
                    !(spec.width is Some && spec.height is Some) && (match spec.aspect_ratio {
                        Some((rw, rh)) => aspect_pool(modes, rw, rh).len() == 0,
                        None => true,
                    })
                };
                r == if no_match {
                    Err::<DisplayMode, DisplayError>(DisplayError::NoMatch)
                } else {
                    Err::<DisplayMode, DisplayError>(DisplayError::Unsupported)
                }
            }),
    {
        proof {
            lemma_stub_catalog_wf();
        }
        let available_modes = match self.platform_manager.get_available_modes() {
            Ok(modes) => modes,
            Err(e) => {
                return Err(e);
            },
        };
        let target_mode = if exact {
            // For an exact match, require a mode that agrees on every stated field
            self.find_exact_match(spec, &available_modes)
        } else {
            // Otherwise use the closest-match policy
            spec.to_concrete_spec(&available_modes)
        };
        match target_mode {
            Some(mode) => {
                match self.platform_manager.set_display_mode(&mode) {
                    Ok(_) => Ok(mode),
                    Err(e) => Err(e),
                }
            },
            None => Err(DisplayError::NoMatch),
        }
    }

    /// The catalog of modes the platform backend reports.
    pub fn list_available_modes(&self) -> (r: Result<Vec<DisplayMode>, DisplayError>)
        ensures
            r matches Ok(modes) && modes@ == stub_mode_catalog(),
    {
        self.platform_manager.get_available_modes()
    }

    /// The mode the platform backend reports as current.
    pub fn get_current_display_mode(&self) -> (r: Result<DisplayMode, DisplayError>)
        ensures
            r matches Ok(m) && m == crate::platform::stub::stub_current_mode(),
    {
        self.platform_manager.get_current_display_mode()
    }
}

} // verus!
