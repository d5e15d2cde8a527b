//! Which boundary reflects a ray at the end of a step.
use vstd::prelude::*;
use crate::binary32::Binary32;
use crate::binary32::zero;
use crate::binary32::ZERO_BITS;

verus! {

/// The boundary that a ray meets at the end of a step.
#[derive(Clone, Copy, Debug, PartialEq, Eq, Structural)]
pub enum BoundaryHit {
    /// The sea surface (`z = 0`, depth positive down).
    Surface,
    /// The bottom.
    Bottom,
    /// Neither.
    NoHit,
}

/// At most one boundary per step, the surface first: the surface when the ray
/// is at or above `z = 0` and heading up, else the bottom when it is at or
/// below the bottom depth and heading down.
pub open spec fn spec_reflection_boundary(z: Binary32, dz: Binary32, z_bottom: Binary32) -> BoundaryHit {
    if z.spec_le(zero()) && dz.spec_lt(zero()) {
        BoundaryHit::Surface
    } else if z_bottom.spec_le(z) && zero().spec_lt(dz) {
        BoundaryHit::Bottom
    } else {
        BoundaryHit::NoHit
    }
}

/// Decide which boundary reflects a ray at depth `z` whose slowness has
/// vertical component `dz`, over a bottom at depth `z_bottom`.
pub fn reflection_boundary(z: Binary32, dz: Binary32, z_bottom: Binary32) -> (r: BoundaryHit)
    ensures
        r == spec_reflection_boundary(z, dz, z_bottom),
{
    let zero_value = Binary32 { bits: ZERO_BITS };
    if z.less_or_equal(&zero_value) && dz.less_than(&zero_value) {
        BoundaryHit::Surface
    } else if z_bottom.less_or_equal(&z) && zero_value.less_than(&dz) {
        BoundaryHit::Bottom
    } else {
        BoundaryHit::NoHit
    }
}

/// A ray heading down never meets the surface and a ray heading up never
/// meets the bottom.
pub proof fn lemma_boundary_follows_heading(z: Binary32, dz: Binary32, z_bottom: Binary32)
    ensures
        spec_reflection_boundary(z, dz, z_bottom) == BoundaryHit::Surface ==> dz.spec_lt(zero()),
        spec_reflection_boundary(z, dz, z_bottom) == BoundaryHit::Bottom ==> zero().spec_lt(dz),
{
}

/// Which boundary reflects, by the sign of the heading and the depth:
/// heading up at or above the surface gives the surface; heading down at or
/// below the bottom depth gives the bottom, however far below; every other
/// case, a level heading, a NaN depth or heading included, gives no hit.
pub proof fn lemma_reflection_boundary_cases(z: Binary32, dz: Binary32, z_bottom: Binary32)
    ensures
        !z.spec_is_nan() && !dz.spec_is_nan() && z.order_key() <= 0 && dz.order_key() < 0
            ==> spec_reflection_boundary(z, dz, z_bottom) == BoundaryHit::Surface,
        !z.spec_is_nan() && !dz.spec_is_nan() && z.order_key() > 0 && dz.order_key() < 0
            ==> spec_reflection_boundary(z, dz, z_bottom) == BoundaryHit::NoHit,
        !z.spec_is_nan() && !dz.spec_is_nan() && !z_bottom.spec_is_nan() && z_bottom.order_key() <= z.order_key()
            && dz.order_key() > 0 ==> spec_reflection_boundary(z, dz, z_bottom) == BoundaryHit::Bottom,
        !z.spec_is_nan() && !dz.spec_is_nan() && !z_bottom.spec_is_nan() && z.order_key() < z_bottom.order_key()
            && dz.order_key() > 0 ==> spec_reflection_boundary(z, dz, z_bottom) == BoundaryHit::NoHit,
        !dz.spec_is_nan() && dz.order_key() == 0 ==> spec_reflection_boundary(z, dz, z_bottom) == BoundaryHit::NoHit,
        dz.spec_is_nan() || z.spec_is_nan() ==> spec_reflection_boundary(z, dz, z_bottom) == BoundaryHit::NoHit,
        z_bottom.spec_is_nan() && dz.order_key() > 0 ==> spec_reflection_boundary(z, dz, z_bottom) == BoundaryHit::NoHit,
{
}

/// A ray reflected by the bottom at some depth is reflected at any greater depth.
pub proof fn lemma_bottom_hit_deeper(z: Binary32, deeper: Binary32, dz: Binary32, z_bottom: Binary32)
    requires
        spec_reflection_boundary(z, dz, z_bottom) == BoundaryHit::Bottom,
        !deeper.spec_is_nan(),
        z.order_key() <= deeper.order_key(),
    ensures
        spec_reflection_boundary(deeper, dz, z_bottom) == BoundaryHit::Bottom,
{
}

} // verus!
