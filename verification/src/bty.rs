//! Bathymetry: grid axes, depths, runtime bottom model and the cursor that
//! tracks the current cell.
use vstd::prelude::*;
use crate::binary32::Binary32;
use crate::binary32::ONE_BITS;
use crate::binary32::ZERO_BITS;
use crate::grid::copy_axis;
use crate::grid::find_cell_index;
use crate::grid::march_cell_index;
use crate::grid::is_cell_of;
use crate::grid::march_result;
use crate::grid::march_start_ok;
use crate::grid::no_nan;
use crate::grid::strictly_increasing;
use crate::grid::lemma_march_keeps_found_cell;
use crate::grid::lemma_march_result_reusable;
use crate::input::config::BottomBoundaryModel;
use crate::input::config::SimulationConfig;

verus! {

/// Cell indices of the bathymetry grid along x and y.
#[derive(Clone, Copy, Debug, PartialEq, Eq, Structural)]
pub struct BTYCursor {
    pub i: usize,
    pub j: usize,
}

/// Bottom model with the optional attenuations resolved (absent means `0.0`).
#[derive(Clone, Copy, Debug, PartialEq, Eq, Structural)]
pub enum BottomBoundaryRuntimeModel {
    Rigid,
    Acoustic {
        compressional_speed_m_s: Binary32,
        density_g_cm3: Binary32,
        compressional_attenuation_db_per_wavelength: Binary32,
    },
    Elastic {
        compressional_speed_m_s: Binary32,
        shear_speed_m_s: Binary32,
        density_g_cm3: Binary32,
        compressional_attenuation_db_per_wavelength: Binary32,
        shear_attenuation_db_per_wavelength: Binary32,
    },
}

/// Bathymetry grid and runtime bottom parameters. `z` holds the depths
/// flattened with y fastest: the depth at `(ix, iy)` is `z[ix * ny + iy]`.
pub struct BTYfield {
    pub x: Vec<Binary32>,
    pub y: Vec<Binary32>,
    pub z: Vec<Binary32>,
    pub bottom_model: BottomBoundaryRuntimeModel,
    pub water_density_g_cm3: Binary32,
}

/// The given value, or `default` when absent.
pub open spec fn value_or(v: Option<Binary32>, default: Binary32) -> Binary32 {
    match v {
        Some(x) => x,
        None => default,
    }
}

fn unwrap_or(v: Option<Binary32>, default: Binary32) -> (r: Binary32)
    ensures
        r == value_or(v, default),
{
    match v {
        Some(x) => x,
        None => default,
    }
}

/// The runtime form of an input bottom model.
pub open spec fn runtime_model(m: BottomBoundaryModel) -> BottomBoundaryRuntimeModel {
    let zero = Binary32 { bits: ZERO_BITS };
    match m {
        BottomBoundaryModel::Rigid => BottomBoundaryRuntimeModel::Rigid,
        BottomBoundaryModel::Acoustic {
            compressional_speed_m_s,
            density_g_cm3,
            compressional_attenuation_db_per_wavelength,
        } => BottomBoundaryRuntimeModel::Acoustic {
            compressional_speed_m_s,
            density_g_cm3,
            compressional_attenuation_db_per_wavelength: value_or(compressional_attenuation_db_per_wavelength, zero),
        },
        BottomBoundaryModel::Elastic {
            compressional_speed_m_s,
            shear_speed_m_s,
            density_g_cm3,
            compressional_attenuation_db_per_wavelength,
            shear_attenuation_db_per_wavelength,
        } => BottomBoundaryRuntimeModel::Elastic {
            compressional_speed_m_s,
            shear_speed_m_s,
            density_g_cm3,
            compressional_attenuation_db_per_wavelength: value_or(compressional_attenuation_db_per_wavelength, zero),
            shear_attenuation_db_per_wavelength: value_or(shear_attenuation_db_per_wavelength, zero),
        },
    }
}

/// Resolve the defaults of an input bottom model.
pub fn bottom_runtime_model(m: &BottomBoundaryModel) -> (r: BottomBoundaryRuntimeModel)
    ensures
        r == runtime_model(*m),
{
    let zero = Binary32 { bits: ZERO_BITS };
    match m {
        BottomBoundaryModel::Rigid => BottomBoundaryRuntimeModel::Rigid,
        BottomBoundaryModel::Acoustic {
            compressional_speed_m_s,
            density_g_cm3,
            compressional_attenuation_db_per_wavelength,
        } => BottomBoundaryRuntimeModel::Acoustic {
            compressional_speed_m_s: *compressional_speed_m_s,
            density_g_cm3: *density_g_cm3,
            compressional_attenuation_db_per_wavelength: unwrap_or(*compressional_attenuation_db_per_wavelength, zero),
        },
        BottomBoundaryModel::Elastic {
            compressional_speed_m_s,
            shear_speed_m_s,
            density_g_cm3,
            compressional_attenuation_db_per_wavelength,
            shear_attenuation_db_per_wavelength,
        } => BottomBoundaryRuntimeModel::Elastic {
            compressional_speed_m_s: *compressional_speed_m_s,
            shear_speed_m_s: *shear_speed_m_s,
            density_g_cm3: *density_g_cm3,
            compressional_attenuation_db_per_wavelength: unwrap_or(*compressional_attenuation_db_per_wavelength, zero),
            shear_attenuation_db_per_wavelength: unwrap_or(*shear_attenuation_db_per_wavelength, zero),
        },
    }
}

impl BTYfield {
    /// The depths fill the `x` by `y` grid.
    pub open spec fn wf(&self) -> bool {
        self.z@.len() == self.x@.len() * self.y@.len()
    }

    /// Each axis has a cell and no NaN coordinate.
    pub open spec fn searchable(&self) -> bool {
        &&& self.x@.len() >= 2 && no_nan(self.x@)
        &&& self.y@.len() >= 2 && no_nan(self.y@)
    }

    /// Both axes strictly increase.
    pub open spec fn sorted(&self) -> bool {
        strictly_increasing(self.x@) && strictly_increasing(self.y@)
    }

    /// The cursor holds the horizontal position on both axes.
    pub open spec fn holds(&self, position: [Binary32; 3], c: BTYCursor) -> bool {
        &&& is_cell_of(self.x@, position[0], c.i as int)
        &&& is_cell_of(self.y@, position[1], c.j as int)
    }

    /// The cursor can march to the horizontal position on both axes.
    pub open spec fn can_march(&self, position: [Binary32; 3], c: BTYCursor) -> bool {
        &&& march_start_ok(self.x@, position[0], c.i as int)
        &&& march_start_ok(self.y@, position[1], c.j as int)
    }

    /// `after` is `before` marched to the horizontal position on both axes.
    pub open spec fn marched(&self, position: [Binary32; 3], before: BTYCursor, after: BTYCursor) -> bool {
        &&& march_result(self.x@, position[0], before.i as int, after.i as int)
        &&& march_result(self.y@, position[1], before.j as int, after.j as int)
    }

    /// The depth at grid node `(i, j)`.
    pub fn depth_at(&self, i: usize, j: usize) -> (d: Binary32)
        requires
            self.wf(),
            i < self.x@.len(),
            j < self.y@.len(),
        ensures
            d == self.z@[i * self.y@.len() + j],
    {
        let ny = self.y.len();
        let total = self.z.len();
        proof {
            let nx = self.x@.len() as int;
            let nyi = ny as int;
            assert(i * nyi + j < nx * nyi) by (nonlinear_arith)
                requires
                    0 <= i < nx,
                    0 <= j < nyi,
            ;
            assert(0 <= i * nyi) by (nonlinear_arith)
                requires
                    0 <= i,
                    0 <= nyi,
            ;
            assert(i * nyi + j < total);
        }
        self.z[i * ny + j]
    }
}

/// Build the bathymetry runtime fields from the configuration: the axes and
/// depths as given, the bottom model with its defaults resolved, and a water
/// density of `1.0` g/cm3 when none is given.
pub fn init_bty(config: &SimulationConfig) -> (bty: BTYfield)
    requires
        config.bathymetry.z_bty_m@.len() == config.bathymetry.x_bty_m@.len() * config.bathymetry.y_bty_m@.len(),
    ensures
        bty.wf(),
        bty.x@ == config.bathymetry.x_bty_m@,
        bty.y@ == config.bathymetry.y_bty_m@,
        bty.z@ == config.bathymetry.z_bty_m@,
        bty.bottom_model == runtime_model(config.bathymetry.bottom_model),
        bty.water_density_g_cm3 == value_or(config.bathymetry.water_density_g_cm3, Binary32 { bits: ONE_BITS }),
{
    BTYfield {
        x: copy_axis(&config.bathymetry.x_bty_m),
        y: copy_axis(&config.bathymetry.y_bty_m),
        z: copy_axis(&config.bathymetry.z_bty_m),
        bottom_model: bottom_runtime_model(&config.bathymetry.bottom_model),
        water_density_g_cm3: unwrap_or(config.bathymetry.water_density_g_cm3, Binary32 { bits: ONE_BITS }),
    }
}

/// Initialize a bathymetry cursor at a world position, by binary search on each axis.
pub fn init_bty_cursor(position: [Binary32; 3], bty: &BTYfield) -> (c: BTYCursor)
    requires
        bty.searchable(),
        !position[0].spec_is_nan(),
        !position[1].spec_is_nan(),
    ensures
        c.i <= bty.x@.len() - 2,
        c.j <= bty.y@.len() - 2,
        bty.sorted() ==> bty.holds(position, c),
{
    BTYCursor { i: find_cell_index(&bty.x, position[0]), j: find_cell_index(&bty.y, position[1]) }
}

/// March a bathymetry cursor to a new world position.
pub fn update_bty_cursor(position: [Binary32; 3], bty: &BTYfield, cursor: &mut BTYCursor)
    requires
        bty.can_march(position, *old(cursor)),
    ensures
        bty.marched(position, *old(cursor), *final(cursor)),
{
    march_cell_index(&bty.x, position[0], &mut cursor.i);
    march_cell_index(&bty.y, position[1], &mut cursor.j);
}

/// Updating a freshly initialized cursor at the position where it was
/// initialized does not move it (strictly increasing axes).
pub proof fn lemma_update_keeps_initial_bty_cursor(bty: BTYfield, position: [Binary32; 3], c: BTYCursor, r: BTYCursor)
    requires
        bty.sorted(),
        bty.holds(position, c),
        bty.marched(position, c, r),
    ensures
        r == c,
{
    lemma_march_keeps_found_cell(bty.x@, position[0], c.i as int, r.i as int);
    lemma_march_keeps_found_cell(bty.y@, position[1], c.j as int, r.j as int);
}

/// A bathymetry cursor that has marched can march again, to any next position.
pub proof fn lemma_bty_cursor_stays_usable(bty: BTYfield, position: [Binary32; 3], before: BTYCursor, after: BTYCursor, next: [Binary32; 3])
    requires
        bty.marched(position, before, after),
    ensures
        bty.can_march(next, after),
{
    lemma_march_result_reusable(bty.x@, position[0], before.i as int, after.i as int, next[0]);
    lemma_march_result_reusable(bty.y@, position[1], before.j as int, after.j as int, next[1]);
}

/// Resolving a bottom model keeps every given value: the kind of model, the
/// speeds, the density and each given attenuation are carried unchanged, and
/// an attenuation becomes `0.0` only when it is absent.
pub proof fn lemma_runtime_model_keeps_given_values(m: BottomBoundaryModel)
    ensures
        m is Rigid ==> runtime_model(m) is Rigid,
        m matches BottomBoundaryModel::Acoustic {
            compressional_speed_m_s: c,
            density_g_cm3: d,
            compressional_attenuation_db_per_wavelength: a,
        } ==> runtime_model(m) matches BottomBoundaryRuntimeModel::Acoustic {
            compressional_speed_m_s: c2,
            density_g_cm3: d2,
            compressional_attenuation_db_per_wavelength: a2,
        } && c2 == c && d2 == d && (a matches Some(x) ==> a2 == x) && (a is None ==> a2.bits == ZERO_BITS),
        m matches BottomBoundaryModel::Elastic {
            compressional_speed_m_s: c,
            shear_speed_m_s: cs,
            density_g_cm3: d,
            compressional_attenuation_db_per_wavelength: a,
            shear_attenuation_db_per_wavelength: b,
        } ==> runtime_model(m) matches BottomBoundaryRuntimeModel::Elastic {
            compressional_speed_m_s: c2,
            shear_speed_m_s: cs2,
            density_g_cm3: d2,
            compressional_attenuation_db_per_wavelength: a2,
            shear_attenuation_db_per_wavelength: b2,
        } && c2 == c && cs2 == cs && d2 == d && (a matches Some(x) ==> a2 == x) && (a is None ==> a2.bits
            == ZERO_BITS) && (b matches Some(y) ==> b2 == y) && (b is None ==> b2.bits == ZERO_BITS),
{
}

/// A given water density is kept; `1.0` stands in only for an absent one.
pub proof fn lemma_water_density_kept_or_one(v: Option<Binary32>)
    ensures
        v matches Some(x) ==> value_or(v, Binary32 { bits: ONE_BITS }) == x,
        v is None ==> value_or(v, Binary32 { bits: ONE_BITS }).bits == ONE_BITS,
{
}

} // verus!
