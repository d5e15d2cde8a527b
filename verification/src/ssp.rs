//! Sound-speed grid axes and the cursor that tracks the current cell.
use vstd::prelude::*;
use crate::binary32::Binary32;
use crate::grid::copy_axis;
use crate::grid::find_cell_index;
use crate::grid::march_cell_index;
use crate::grid::is_cell_of;
use crate::grid::march_result;
use crate::grid::march_start_ok;
use crate::grid::no_nan;
use crate::grid::strictly_increasing;
use crate::grid::lemma_march_keeps_found_cell;
use crate::grid::lemma_march_result_reusable;
use crate::input::config::SimulationConfig;
use crate::input::config::SoundSpeed;
use crate::grid::lemma_index_in_range;
use crate::grid::lemma_prefix_product_bounded;

verus! {

/// Cell indices of the sound-speed grid along x, y and z.
#[derive(Clone, Copy, Debug, PartialEq, Eq, Structural)]
pub struct SSPCursor {
    pub i: usize,
    pub j: usize,
    pub k: usize,
}

/// The axes of the sound-speed grid.
pub struct SSPAxes {
    pub x: Vec<Binary32>,
    pub y: Vec<Binary32>,
    pub z: Vec<Binary32>,
}

impl SSPAxes {
    /// Each axis has a cell and no NaN coordinate.
    pub open spec fn searchable(&self) -> bool {
        &&& self.x@.len() >= 2 && no_nan(self.x@)
        &&& self.y@.len() >= 2 && no_nan(self.y@)
        &&& self.z@.len() >= 2 && no_nan(self.z@)
    }

    /// Each axis strictly increases.
    pub open spec fn sorted(&self) -> bool {
        strictly_increasing(self.x@) && strictly_increasing(self.y@) && strictly_increasing(self.z@)
    }

    /// The cursor holds the position on every axis.
    pub open spec fn holds(&self, position: [Binary32; 3], c: SSPCursor) -> bool {
        &&& is_cell_of(self.x@, position[0], c.i as int)
        &&& is_cell_of(self.y@, position[1], c.j as int)
        &&& is_cell_of(self.z@, position[2], c.k as int)
    }

    /// The cursor can march to the position on every axis.
    pub open spec fn can_march(&self, position: [Binary32; 3], c: SSPCursor) -> bool {
        &&& march_start_ok(self.x@, position[0], c.i as int)
        &&& march_start_ok(self.y@, position[1], c.j as int)
        &&& march_start_ok(self.z@, position[2], c.k as int)
    }

    /// `after` is `before` marched to the position on every axis.
    pub open spec fn marched(&self, position: [Binary32; 3], before: SSPCursor, after: SSPCursor) -> bool {
        &&& march_result(self.x@, position[0], before.i as int, after.i as int)
        &&& march_result(self.y@, position[1], before.j as int, after.j as int)
        &&& march_result(self.z@, position[2], before.k as int, after.k as int)
    }
}

/// The axes of the sound-speed grid of the configuration.
pub fn init_ssp_axes(config: &SimulationConfig) -> (axes: SSPAxes)
    ensures
        axes.x@ == config.ssp.x_ssp_m@,
        axes.y@ == config.ssp.y_ssp_m@,
        axes.z@ == config.ssp.z_ssp_m@,
{
    SSPAxes {
        x: copy_axis(&config.ssp.x_ssp_m),
        y: copy_axis(&config.ssp.y_ssp_m),
        z: copy_axis(&config.ssp.z_ssp_m),
    }
}

/// The sound speed at grid node `(ix, iy, iz)`: `c_m_s` is flattened with z
/// fastest, then y, then x, so the node is entry `((ix * ny) + iy) * nz + iz`.
pub fn sound_speed_at(ssp: &SoundSpeed, ix: usize, iy: usize, iz: usize) -> (c: Binary32)
    requires
        ssp.c_m_s@.len() == ssp.x_ssp_m@.len() * ssp.y_ssp_m@.len() * ssp.z_ssp_m@.len(),
        ix < ssp.x_ssp_m@.len(),
        iy < ssp.y_ssp_m@.len(),
        iz < ssp.z_ssp_m@.len(),
    ensures
        c == ssp.c_m_s@[(ix * ssp.y_ssp_m@.len() + iy) * ssp.z_ssp_m@.len() + iz],
{
    let ny = ssp.y_ssp_m.len();
    let nz = ssp.z_ssp_m.len();
    let total = ssp.c_m_s.len();
    proof {
        let nx = ssp.x_ssp_m@.len() as int;
        lemma_index_in_range(ix as int, iy as int, iz as int, nx, ny as int, nz as int);
        lemma_prefix_product_bounded(nx, ny as int, nz as int);
        assert(0 <= ix * ny) by (nonlinear_arith)
            requires
                0 <= ix,
                0 <= ny,
        ;
        assert(ix * ny <= ix * ny + iy);
        assert((ix * ny + iy) * nz + iz < total);
    }
    ssp.c_m_s[(ix * ny + iy) * nz + iz]
}

/// Initialize an SSP cursor at a world position, by binary search on each axis.
pub fn init_ssp_cursor(position: [Binary32; 3], ssp: &SSPAxes) -> (c: SSPCursor)
    requires
        ssp.searchable(),
        !position[0].spec_is_nan(),
        !position[1].spec_is_nan(),
        !position[2].spec_is_nan(),
    ensures
        c.i <= ssp.x@.len() - 2,
        c.j <= ssp.y@.len() - 2,
        c.k <= ssp.z@.len() - 2,
        ssp.sorted() ==> ssp.holds(position, c),
{
    SSPCursor {
        i: find_cell_index(&ssp.x, position[0]),
        j: find_cell_index(&ssp.y, position[1]),
        k: find_cell_index(&ssp.z, position[2]),
    }
}

/// March an SSP cursor to a new world position.
pub fn update_ssp_cursor(position: [Binary32; 3], ssp: &SSPAxes, cursor: &mut SSPCursor)
    requires
        ssp.can_march(position, *old(cursor)),
    ensures
        ssp.marched(position, *old(cursor), *final(cursor)),
{
    march_cell_index(&ssp.x, position[0], &mut cursor.i);
    march_cell_index(&ssp.y, position[1], &mut cursor.j);
    march_cell_index(&ssp.z, position[2], &mut cursor.k);
}

/// Updating a freshly initialized cursor at the position where it was
/// initialized does not move it (strictly increasing axes).
pub proof fn lemma_update_keeps_initial_cursor(ssp: SSPAxes, position: [Binary32; 3], c: SSPCursor, r: SSPCursor)
    requires
        ssp.sorted(),
        ssp.holds(position, c),
        ssp.marched(position, c, r),
    ensures
        r == c,
{
    lemma_march_keeps_found_cell(ssp.x@, position[0], c.i as int, r.i as int);
    lemma_march_keeps_found_cell(ssp.y@, position[1], c.j as int, r.j as int);
    lemma_march_keeps_found_cell(ssp.z@, position[2], c.k as int, r.k as int);
}

/// A cursor that has marched can march again, to any next position.
pub proof fn lemma_cursor_stays_usable(ssp: SSPAxes, position: [Binary32; 3], before: SSPCursor, after: SSPCursor, next: [Binary32; 3])
    requires
        ssp.marched(position, before, after),
    ensures
        ssp.can_march(next, after),
{
    lemma_march_result_reusable(ssp.x@, position[0], before.i as int, after.i as int, next[0]);
    lemma_march_result_reusable(ssp.y@, position[1], before.j as int, after.j as int, next[1]);
    lemma_march_result_reusable(ssp.z@, position[2], before.k as int, after.k as int, next[2]);
}

} // verus!
