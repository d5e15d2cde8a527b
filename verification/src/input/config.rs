//! Configuration schema and validation.
//!
//! Every real-valued input is held as a `Binary32` (the bit pattern of the
//! `f32` that the JSON input gives). Validation collects errors and warnings
//! section by section, in the order ssp, bathymetry, source, receivers, beam,
//! and corrects negative depths (positive-down convention) to their absolute
//! value.
use vstd::prelude::*;
use crate::binary32::Binary32;
use crate::binary32::zero;
use crate::binary32::lemma_abs_not_negative;
use crate::binary32::ZERO_BITS;
use crate::binary32::NINETY_BITS;
use crate::binary32::MINUS_NINETY_BITS;

verus! {

/// Sound-speed grid: axis coordinates and the flattened speeds (z fastest, then y, then x).
pub struct SoundSpeed {
    pub x_ssp_m: Vec<Binary32>,
    pub y_ssp_m: Vec<Binary32>,
    pub z_ssp_m: Vec<Binary32>,
    pub c_m_s: Vec<Binary32>,
}

/// Bathymetry grid (depths flattened with y fastest) and bottom parameters.
pub struct Bathymetry {
    pub x_bty_m: Vec<Binary32>,
    pub y_bty_m: Vec<Binary32>,
    pub z_bty_m: Vec<Binary32>,
    pub water_density_g_cm3: Option<Binary32>,
    pub bottom_model: BottomBoundaryModel,
}

/// Bottom boundary model as given in the input.
#[derive(Clone, Copy, Debug, PartialEq, Eq, Structural)]
pub enum BottomBoundaryModel {
    Rigid,
    Acoustic {
        compressional_speed_m_s: Binary32,
        density_g_cm3: Binary32,
        compressional_attenuation_db_per_wavelength: Option<Binary32>,
    },
    Elastic {
        compressional_speed_m_s: Binary32,
        shear_speed_m_s: Binary32,
        density_g_cm3: Binary32,
        compressional_attenuation_db_per_wavelength: Option<Binary32>,
        shear_attenuation_db_per_wavelength: Option<Binary32>,
    },
}

/// Source position `[x, y, z]`, frequencies and launch fans (degrees).
pub struct Source {
    pub position: [Binary32; 3],
    pub freq_hz: Vec<Binary32>,
    pub launch_elev_deg: Vec<Binary32>,
    pub launch_azim_deg: Vec<Binary32>,
}

/// Receivers: `"grid"` (the vectors are axes) or `"array"` (the vectors are
/// the coordinates of each receiver).
pub struct Receivers {
    pub config_type: String,
    pub x_rcvr_m: Vec<Binary32>,
    pub y_rcvr_m: Vec<Binary32>,
    pub z_rcvr_m: Vec<Binary32>,
}

/// Ray integration scheme.
#[derive(Clone, Copy, Debug, PartialEq, Eq, Structural)]
pub enum IntegrationMethod {
    Euler,
    Rk2,
}

/// Beam tracing settings.
pub struct BeamSettings {
    pub step_m: Binary32,
    pub max_steps: usize,
    pub max_range_m: Binary32,
    pub store_ray_paths: bool,
    pub show_progress: bool,
    pub atomic_progress_counter: bool,
    pub integration_method: IntegrationMethod,
}

/// The whole simulation input.
pub struct SimulationConfig {
    pub ssp: SoundSpeed,
    pub bathymetry: Bathymetry,
    pub source: Source,
    pub receivers: Receivers,
    pub beam: BeamSettings,
}

/// A reason for which validation rejects a configuration.
#[derive(Clone, Copy, Debug, PartialEq, Eq, Structural)]
pub enum ConfigError {
    /// `ssp.c_m_s` is empty.
    SoundSpeedsEmpty,
    /// Some sound speed is not `> 0` (a NaN is not).
    SoundSpeedNotPositive,
    /// `bathymetry.z_bty_m` is empty.
    BathymetryDepthsEmpty,
    /// The water density is given and not `> 0`.
    WaterDensityNotPositive,
    /// The acoustic bottom's compressional speed is not `> 0`.
    AcousticCompressionalSpeedNotPositive,
    /// The acoustic bottom's density is not `> 0`.
    AcousticDensityNotPositive,
    /// The acoustic bottom's compressional attenuation is given and not `>= 0`.
    AcousticCompressionalAttenuationNegative,
    /// The elastic bottom's compressional speed is not `> 0`.
    ElasticCompressionalSpeedNotPositive,
    /// The elastic bottom's shear speed is not `> 0`.
    ElasticShearSpeedNotPositive,
    /// The elastic bottom's density is not `> 0`.
    ElasticDensityNotPositive,
    /// The elastic bottom's compressional attenuation is given and not `>= 0`.
    ElasticCompressionalAttenuationNegative,
    /// The elastic bottom's shear attenuation is given and not `>= 0`.
    ElasticShearAttenuationNegative,
    /// Some launch elevation does not lie within `[-90, 90]` degrees.
    LaunchElevationOutOfRange,
    /// `receivers.config_type` is neither `"grid"` nor `"array"`.
    ReceiverConfigTypeUnknown,
    /// `beam.step_m` is not `> 0`.
    StepNotPositive,
    /// `beam.max_steps == 0`.
    MaxStepsZero,
    /// `beam.max_range_m` is not `> 0`.
    MaxRangeNotPositive,
}

/// Where a corrected depth was found.
#[derive(Clone, Copy, Debug, PartialEq, Eq, Structural)]
pub enum DepthSource {
    /// An entry of `ssp.z_ssp_m`.
    SoundSpeedAxis,
    /// The depth of the source position.
    SourcePosition,
    /// An entry of `receivers.z_rcvr_m`.
    ReceiverDepths,
}

/// A negative depth that validation replaced by its absolute value.
#[derive(Clone, Copy, Debug, PartialEq, Eq, Structural)]
pub struct ConfigWarning {
    pub source: DepthSource,
    /// The depth as given; the corrected depth is its absolute value.
    pub original: Binary32,
}

/// An optional real input that is absent by default.
pub fn default_none_f32() -> (r: Option<Binary32>)
    ensures
        r is None,
{
    None
}

/// Boolean switches are off by default.
pub fn default_false() -> (r: bool)
    ensures
        r == false,
{
    false
}

/// Euler integration is the default scheme.
pub fn default_integration_method() -> (r: IntegrationMethod)
    ensures
        r == IntegrationMethod::Euler,
{
    IntegrationMethod::Euler
}

/// A rigid bottom is the default bottom model.
pub fn default_bottom_boundary_model() -> (r: BottomBoundaryModel)
    ensures
        r == BottomBoundaryModel::Rigid,
{
    BottomBoundaryModel::Rigid
}

// ----- what validation decides -----

/// The depth is below zero (so it breaks the positive-down convention).
pub open spec fn depth_is_negative(z: Binary32) -> bool {
    z.spec_lt(zero())
}

/// A depth after correction.
pub open spec fn corrected_depth(z: Binary32) -> Binary32 {
    if depth_is_negative(z) {
        z.spec_abs()
    } else {
        z
    }
}

/// Depths after correction.
pub open spec fn corrected_depths(zs: Seq<Binary32>) -> Seq<Binary32> {
    zs.map_values(|z: Binary32| corrected_depth(z))
}

/// The warnings for the negative entries of `zs`, in order.
pub open spec fn depth_warnings(zs: Seq<Binary32>, source: DepthSource) -> Seq<ConfigWarning>
    decreases zs.len(),
{
    if zs.len() == 0 {
        Seq::empty()
    } else {
        depth_warnings(zs.drop_last(), source) + if depth_is_negative(zs.last()) {
            seq![ConfigWarning { source, original: zs.last() }]
        } else {
            Seq::empty()
        }
    }
}

/// `[e]` when `cond` holds, else nothing.
pub open spec fn error_if(cond: bool, e: ConfigError) -> Seq<ConfigError> {
    if cond {
        seq![e]
    } else {
        Seq::empty()
    }
}

/// The value is not `> 0` (zero, negative or NaN).
pub open spec fn not_positive(v: Binary32) -> bool {
    !zero().spec_lt(v)
}

/// The optional value is given and is not `>= 0` (negative or NaN).
pub open spec fn given_and_negative(v: Option<Binary32>) -> bool {
    v matches Some(x) && !zero().spec_le(x)
}

/// The elevation lies within `[-90, 90]` degrees (a NaN does not).
pub open spec fn elevation_in_range(e: Binary32) -> bool {
    Binary32 { bits: MINUS_NINETY_BITS }.spec_le(e) && e.spec_le(Binary32 { bits: NINETY_BITS })
}

/// Some launch elevation does not lie within `[-90, 90]`.
pub open spec fn some_elevation_out_of_range(elev: Seq<Binary32>) -> bool {
    exists|i: int| 0 <= i < elev.len() && !elevation_in_range(#[trigger] elev[i])
}

impl SoundSpeed {
    pub open spec fn errors(&self) -> Seq<ConfigError> {
        error_if(self.c_m_s@.len() == 0, ConfigError::SoundSpeedsEmpty) + error_if(
            exists|i: int| 0 <= i < self.c_m_s@.len() && not_positive(#[trigger] self.c_m_s@[i]),
            ConfigError::SoundSpeedNotPositive,
        )
    }

    pub open spec fn warnings(&self) -> Seq<ConfigWarning> {
        depth_warnings(self.z_ssp_m@, DepthSource::SoundSpeedAxis)
    }

    /// Only the depth axis changes.
    pub open spec fn corrected_from(&self, old: SoundSpeed) -> bool {
        &&& self.x_ssp_m@ == old.x_ssp_m@
        &&& self.y_ssp_m@ == old.y_ssp_m@
        &&& self.z_ssp_m@ == corrected_depths(old.z_ssp_m@)
        &&& self.c_m_s@ == old.c_m_s@
    }
}

impl BottomBoundaryModel {
    pub open spec fn errors(&self) -> Seq<ConfigError> {
        match *self {
            BottomBoundaryModel::Rigid => Seq::empty(),
            BottomBoundaryModel::Acoustic {
                compressional_speed_m_s,
                density_g_cm3,
                compressional_attenuation_db_per_wavelength,
            } => error_if(
                not_positive(compressional_speed_m_s),
                ConfigError::AcousticCompressionalSpeedNotPositive,
            ) + error_if(not_positive(density_g_cm3), ConfigError::AcousticDensityNotPositive)
                + error_if(
                given_and_negative(compressional_attenuation_db_per_wavelength),
                ConfigError::AcousticCompressionalAttenuationNegative,
            ),
            BottomBoundaryModel::Elastic {
                compressional_speed_m_s,
                shear_speed_m_s,
                density_g_cm3,
                compressional_attenuation_db_per_wavelength,
                shear_attenuation_db_per_wavelength,
            } => error_if(
                not_positive(compressional_speed_m_s),
                ConfigError::ElasticCompressionalSpeedNotPositive,
            ) + error_if(not_positive(shear_speed_m_s), ConfigError::ElasticShearSpeedNotPositive)
                + error_if(not_positive(density_g_cm3), ConfigError::ElasticDensityNotPositive)
                + error_if(
                given_and_negative(compressional_attenuation_db_per_wavelength),
                ConfigError::ElasticCompressionalAttenuationNegative,
            ) + error_if(
                given_and_negative(shear_attenuation_db_per_wavelength),
                ConfigError::ElasticShearAttenuationNegative,
            ),
        }
    }
}

impl Bathymetry {
    pub open spec fn errors(&self) -> Seq<ConfigError> {
        error_if(self.z_bty_m@.len() == 0, ConfigError::BathymetryDepthsEmpty) + error_if(
            self.water_density_g_cm3 matches Some(v) && not_positive(v),
            ConfigError::WaterDensityNotPositive,
        ) + self.bottom_model.errors()
    }
}

impl Source {
    pub open spec fn errors(&self) -> Seq<ConfigError> {
        error_if(
            some_elevation_out_of_range(self.launch_elev_deg@),
            ConfigError::LaunchElevationOutOfRange,
        )
    }

    pub open spec fn warnings(&self) -> Seq<ConfigWarning> {
        depth_warnings(seq![self.position[2]], DepthSource::SourcePosition)
    }

    /// Only the depth of the position changes.
    pub open spec fn corrected_from(&self, old: Source) -> bool {
        &&& self.position[0] == old.position[0]
        &&& self.position[1] == old.position[1]
        &&& self.position[2] == corrected_depth(old.position[2])
        &&& self.freq_hz@ == old.freq_hz@
        &&& self.launch_elev_deg@ == old.launch_elev_deg@
        &&& self.launch_azim_deg@ == old.launch_azim_deg@
    }
}

impl Receivers {
    pub open spec fn errors(&self) -> Seq<ConfigError> {
        error_if(
            self.config_type@ != "grid"@ && self.config_type@ != "array"@,
            ConfigError::ReceiverConfigTypeUnknown,
        )
    }

    pub open spec fn warnings(&self) -> Seq<ConfigWarning> {
        depth_warnings(self.z_rcvr_m@, DepthSource::ReceiverDepths)
    }

    /// Only the depths change.
    pub open spec fn corrected_from(&self, old: Receivers) -> bool {
        &&& self.config_type == old.config_type
        &&& self.x_rcvr_m@ == old.x_rcvr_m@
        &&& self.y_rcvr_m@ == old.y_rcvr_m@
        &&& self.z_rcvr_m@ == corrected_depths(old.z_rcvr_m@)
    }
}

impl BeamSettings {
    pub open spec fn errors(&self) -> Seq<ConfigError> {
        error_if(not_positive(self.step_m), ConfigError::StepNotPositive) + error_if(
            self.max_steps == 0,
            ConfigError::MaxStepsZero,
        ) + error_if(not_positive(self.max_range_m), ConfigError::MaxRangeNotPositive)
    }
}

impl SimulationConfig {
    /// Every error of the configuration, section by section.
    pub open spec fn errors(&self) -> Seq<ConfigError> {
        self.ssp.errors() + self.bathymetry.errors() + self.source.errors()
            + self.receivers.errors() + self.beam.errors()
    }

    /// Every depth correction of the configuration, section by section.
    pub open spec fn warnings(&self) -> Seq<ConfigWarning> {
        self.ssp.warnings() + self.source.warnings() + self.receivers.warnings()
    }

    /// `self` is `old` with every negative depth corrected and nothing else changed.
    pub open spec fn corrected_from(&self, old: SimulationConfig) -> bool {
        &&& self.ssp.corrected_from(old.ssp)
        &&& self.bathymetry == old.bathymetry
        &&& self.source.corrected_from(old.source)
        &&& self.receivers.corrected_from(old.receivers)
        &&& self.beam == old.beam
    }
}

// ----- validation -----

/// `s` holds exactly the characters of `lit`.
pub(crate) fn string_is(s: &String, lit: &str) -> (r: bool)
    ensures
        r == (s@ == lit@),
{
    let owned: String = lit.to_owned();
    *s == owned
}

/// Some value of `vs` is not `> 0`.
fn any_not_positive(vs: &Vec<Binary32>) -> (r: bool)
    ensures
        r == exists|i: int| 0 <= i < vs@.len() && not_positive(#[trigger] vs@[i]),
{
    let zero_value = Binary32 { bits: ZERO_BITS };
    let mut i: usize = 0;
    while i < vs.len()
        invariant
            i <= vs.len(),
            zero_value == zero(),
            forall|j: int| 0 <= j < i ==> !not_positive(#[trigger] vs@[j]),
        decreases vs.len() - i,
    {
        if !zero_value.less_than(&vs[i]) {
            return true;
        }
        i = i + 1;
    }
    false
}

/// Replace each negative depth of `zs` by its absolute value, and record a
/// warning for each one, in order.
fn correct_depths(zs: &mut Vec<Binary32>, source: DepthSource, warnings: &mut Vec<ConfigWarning>)
    ensures
        final(zs)@ == corrected_depths(old(zs)@),
        final(warnings)@ == old(warnings)@ + depth_warnings(old(zs)@, source),
{
    let ghost zs0 = zs@;
    let ghost w0 = warnings@;
    let zero_value = Binary32 { bits: ZERO_BITS };
    let mut i: usize = 0;
    while i < zs.len()
        invariant
            zero_value == zero(),
            zs@.len() == zs0.len(),
            i <= zs@.len(),
            forall|j: int| 0 <= j < i ==> #[trigger] zs@[j] == corrected_depth(zs0[j]),
            forall|j: int| i <= j < zs@.len() ==> #[trigger] zs@[j] == zs0[j],
            warnings@ == w0 + depth_warnings(zs0.subrange(0, i as int), source),
        decreases zs.len() - i,
    {
        let z = zs[i];
        assert(zs0.subrange(0, i + 1).drop_last() =~= zs0.subrange(0, i as int));
        if z.less_than(&zero_value) {
            warnings.push(ConfigWarning { source, original: z });
            zs.set(i, z.abs());
        }
        assert(warnings@ =~= w0 + depth_warnings(zs0.subrange(0, i + 1), source));
        i = i + 1;
    }
    assert(zs0.subrange(0, zs0.len() as int) =~= zs0);
    assert(zs@ =~= corrected_depths(zs0));
}

impl SoundSpeed {
    /// Check the sound speeds and correct negative depths.
    pub fn validate(&mut self, errors: &mut Vec<ConfigError>, warnings: &mut Vec<ConfigWarning>)
        ensures
            final(errors)@ == old(errors)@ + old(self).errors(),
            final(warnings)@ == old(warnings)@ + old(self).warnings(),
            final(self).corrected_from(*old(self)),
    {
        let ghost e0 = errors@;
        if self.c_m_s.len() == 0 {
            errors.push(ConfigError::SoundSpeedsEmpty);
        }
        if any_not_positive(&self.c_m_s) {
            errors.push(ConfigError::SoundSpeedNotPositive);
        }
        assert(errors@ =~= e0 + self.errors());
        correct_depths(&mut self.z_ssp_m, DepthSource::SoundSpeedAxis, warnings);
    }
}

/// `v` is not `> 0`.
fn check_not_positive(v: Binary32) -> (r: bool)
    ensures
        r == not_positive(v),
{
    !Binary32 { bits: ZERO_BITS }.less_than(&v)
}

/// `v` is given and not `>= 0`.
fn check_given_and_negative(v: Option<Binary32>) -> (r: bool)
    ensures
        r == given_and_negative(v),
{
    match v {
        Some(x) => !Binary32 { bits: ZERO_BITS }.less_or_equal(&x),
        None => false,
    }
}

impl BottomBoundaryModel {
    /// Check that speeds and densities are `> 0` and attenuations, when given, `>= 0`.
    pub fn validate(&self, errors: &mut Vec<ConfigError>)
        ensures
            final(errors)@ == old(errors)@ + self.errors(),
    {
        let ghost e0 = errors@;
        match self {
            BottomBoundaryModel::Rigid => {},
            BottomBoundaryModel::Acoustic {
                compressional_speed_m_s,
                density_g_cm3,
                compressional_attenuation_db_per_wavelength,
            } => {
                if check_not_positive(*compressional_speed_m_s) {
                    errors.push(ConfigError::AcousticCompressionalSpeedNotPositive);
                }
                if check_not_positive(*density_g_cm3) {
                    errors.push(ConfigError::AcousticDensityNotPositive);
                }
                if check_given_and_negative(*compressional_attenuation_db_per_wavelength) {
                    errors.push(ConfigError::AcousticCompressionalAttenuationNegative);
                }
            },
            BottomBoundaryModel::Elastic {
                compressional_speed_m_s,
                shear_speed_m_s,
                density_g_cm3,
                compressional_attenuation_db_per_wavelength,
                shear_attenuation_db_per_wavelength,
            } => {
                if check_not_positive(*compressional_speed_m_s) {
                    errors.push(ConfigError::ElasticCompressionalSpeedNotPositive);
                }
                if check_not_positive(*shear_speed_m_s) {
                    errors.push(ConfigError::ElasticShearSpeedNotPositive);
                }
                if check_not_positive(*density_g_cm3) {
                    errors.push(ConfigError::ElasticDensityNotPositive);
                }
                if check_given_and_negative(*compressional_attenuation_db_per_wavelength) {
                    errors.push(ConfigError::ElasticCompressionalAttenuationNegative);
                }
                if check_given_and_negative(*shear_attenuation_db_per_wavelength) {
                    errors.push(ConfigError::ElasticShearAttenuationNegative);
                }
            },
        }
        assert(errors@ =~= e0 + self.errors());
    }
}

impl Bathymetry {
    /// Check the depths, the water density and the bottom model.
    pub fn validate(&self, errors: &mut Vec<ConfigError>, warnings: &mut Vec<ConfigWarning>)
        ensures
            final(errors)@ == old(errors)@ + self.errors(),
            final(warnings)@ == old(warnings)@,
    {
        let ghost e0 = errors@;
        if self.z_bty_m.len() == 0 {
            errors.push(ConfigError::BathymetryDepthsEmpty);
        }
        if let Some(value) = self.water_density_g_cm3 {
            if check_not_positive(value) {
                errors.push(ConfigError::WaterDensityNotPositive);
            }
        }
        self.bottom_model.validate(errors);
        assert(errors@ =~= e0 + self.errors());
    }
}

impl Source {
    /// Correct a negative source depth and check the launch elevations.
    pub fn validate(&mut self, errors: &mut Vec<ConfigError>, warnings: &mut Vec<ConfigWarning>)
        ensures
            final(errors)@ == old(errors)@ + old(self).errors(),
            final(warnings)@ == old(warnings)@ + old(self).warnings(),
            final(self).corrected_from(*old(self)),
    {
        let ghost w0 = warnings@;
        let ghost depth = self.position[2];
        let z = self.position[2];
        if z.less_than(&Binary32 { bits: ZERO_BITS }) {
            warnings.push(ConfigWarning { source: DepthSource::SourcePosition, original: z });
            self.position[2] = z.abs();
        }
        proof {
            let one = seq![depth];
            assert(one.drop_last() =~= Seq::<Binary32>::empty());
            assert(depth_warnings(one.drop_last(), DepthSource::SourcePosition) =~= Seq::empty());
            assert(one.last() == depth);
            assert(warnings@ =~= w0 + depth_warnings(one, DepthSource::SourcePosition));
        }
        let low = Binary32 { bits: MINUS_NINETY_BITS };
        let high = Binary32 { bits: NINETY_BITS };
        let mut out_of_range = false;
        let mut i: usize = 0;
        while i < self.launch_elev_deg.len()
            invariant
                i <= self.launch_elev_deg@.len(),
                low == (Binary32 { bits: MINUS_NINETY_BITS }),
                high == (Binary32 { bits: NINETY_BITS }),
                !out_of_range ==> forall|j: int| 0 <= j < i ==> elevation_in_range(#[trigger] self.launch_elev_deg@[j]),
                out_of_range ==> some_elevation_out_of_range(self.launch_elev_deg@),
            decreases self.launch_elev_deg.len() - i,
        {
            let a = self.launch_elev_deg[i];
            if !(low.less_or_equal(&a) && a.less_or_equal(&high)) {
                out_of_range = true;
            }
            i = i + 1;
        }
        if out_of_range {
            errors.push(ConfigError::LaunchElevationOutOfRange);
        }
    }
}

impl Receivers {
    /// Check the receiver mode and correct negative depths.
    pub fn validate(&mut self, errors: &mut Vec<ConfigError>, warnings: &mut Vec<ConfigWarning>)
        ensures
            final(errors)@ == old(errors)@ + old(self).errors(),
            final(warnings)@ == old(warnings)@ + old(self).warnings(),
            final(self).corrected_from(*old(self)),
    {
        if !string_is(&self.config_type, "grid") && !string_is(&self.config_type, "array") {
            errors.push(ConfigError::ReceiverConfigTypeUnknown);
        }
        correct_depths(&mut self.z_rcvr_m, DepthSource::ReceiverDepths, warnings);
    }
}

impl BeamSettings {
    /// Check that the step, the step count and the range are positive.
    pub fn validate(&self, errors: &mut Vec<ConfigError>, warnings: &mut Vec<ConfigWarning>)
        ensures
            final(errors)@ == old(errors)@ + self.errors(),
            final(warnings)@ == old(warnings)@,
    {
        let ghost e0 = errors@;
        if check_not_positive(self.step_m) {
            errors.push(ConfigError::StepNotPositive);
        }
        if self.max_steps == 0 {
            errors.push(ConfigError::MaxStepsZero);
        }
        if check_not_positive(self.max_range_m) {
            errors.push(ConfigError::MaxRangeNotPositive);
        }
        assert(errors@ =~= e0 + self.errors());
    }
}

impl SimulationConfig {
    /// Validate every section. Negative depths are corrected whatever the
    /// outcome; the result is `Ok` with the warnings when no section has an
    /// error, and `Err` with every error otherwise.
    pub fn validate(&mut self) -> (r: Result<Vec<ConfigWarning>, Vec<ConfigError>>)
        ensures
            final(self).corrected_from(*old(self)),
            r is Ok <==> old(self).errors().len() == 0,
            r matches Ok(w) ==> w@ == old(self).warnings(),
            r matches Err(e) ==> e@ == old(self).errors(),
    {
        let mut errors: Vec<ConfigError> = Vec::new();
        let mut warnings: Vec<ConfigWarning> = Vec::new();
        self.ssp.validate(&mut errors, &mut warnings);
        self.bathymetry.validate(&mut errors, &mut warnings);
        self.source.validate(&mut errors, &mut warnings);
        self.receivers.validate(&mut errors, &mut warnings);
        self.beam.validate(&mut errors, &mut warnings);
        assert(errors@ =~= old(self).errors());
        assert(warnings@ =~= old(self).warnings());
        if errors.len() == 0 {
            Ok(warnings)
        } else {
            Err(errors)
        }
    }
}

// ----- laws of validation -----

/// A corrected depth is not negative, and correcting it again leaves it as it is.
proof fn lemma_corrected_depth(z: Binary32)
    ensures
        !depth_is_negative(corrected_depth(z)),
        corrected_depth(corrected_depth(z)) == corrected_depth(z),
{
    lemma_abs_not_negative(z);
}

/// Corrected depths raise no warning and are fixed by a second correction.
proof fn lemma_corrected_depths(zs: Seq<Binary32>, source: DepthSource)
    ensures
        depth_warnings(corrected_depths(zs), source) == Seq::<ConfigWarning>::empty(),
        corrected_depths(corrected_depths(zs)) == corrected_depths(zs),
    decreases zs.len(),
{
    if zs.len() > 0 {
        lemma_corrected_depths(zs.drop_last(), source);
        assert(corrected_depths(zs).drop_last() =~= corrected_depths(zs.drop_last()));
        lemma_corrected_depth(zs.last());
        assert(depth_warnings(corrected_depths(zs), source) =~= Seq::<ConfigWarning>::empty());
    }
    assert forall|i: int| 0 <= i < zs.len() implies #[trigger] corrected_depths(corrected_depths(zs))[i]
        == corrected_depths(zs)[i] by {
        lemma_corrected_depth(zs[i]);
    }
    assert(corrected_depths(corrected_depths(zs)) =~= corrected_depths(zs));
}

/// After validation no depth of the configuration is negative: every depth
/// of the sound-speed axis, the source depth and every receiver depth.
pub proof fn lemma_validated_depths_not_negative(old: SimulationConfig, validated: SimulationConfig)
    requires
        validated.corrected_from(old),
    ensures
        forall|i: int| 0 <= i < validated.ssp.z_ssp_m@.len() ==> !depth_is_negative(#[trigger] validated.ssp.z_ssp_m@[i]),
        !depth_is_negative(validated.source.position[2]),
        forall|i: int| 0 <= i < validated.receivers.z_rcvr_m@.len() ==> !depth_is_negative(#[trigger] validated.receivers.z_rcvr_m@[i]),
{
    assert forall|i: int| 0 <= i < validated.ssp.z_ssp_m@.len() implies !depth_is_negative(#[trigger] validated.ssp.z_ssp_m@[i]) by {
        lemma_corrected_depth(old.ssp.z_ssp_m@[i]);
    }
    lemma_corrected_depth(old.source.position[2]);
    assert forall|i: int| 0 <= i < validated.receivers.z_rcvr_m@.len() implies !depth_is_negative(#[trigger] validated.receivers.z_rcvr_m@[i]) by {
        lemma_corrected_depth(old.receivers.z_rcvr_m@[i]);
    }
}

/// Validation settles a configuration: a validated configuration has the
/// same errors as before, raises no warning, and a second validation leaves it
/// as it is.
pub proof fn lemma_validation_idempotent(old: SimulationConfig, validated: SimulationConfig)
    requires
        validated.corrected_from(old),
    ensures
        validated.errors() == old.errors(),
        validated.warnings() == Seq::<ConfigWarning>::empty(),
        validated.corrected_from(validated),
{
    lemma_corrected_depths(old.ssp.z_ssp_m@, DepthSource::SoundSpeedAxis);
    lemma_corrected_depths(old.receivers.z_rcvr_m@, DepthSource::ReceiverDepths);
    lemma_corrected_depths(seq![old.source.position[2]], DepthSource::SourcePosition);
    lemma_corrected_depth(old.source.position[2]);
    let z = validated.source.position[2];
    assert(seq![z].drop_last() =~= Seq::<Binary32>::empty());
    assert(depth_warnings(seq![z].drop_last(), DepthSource::SourcePosition) =~= Seq::empty());
    assert(validated.ssp.errors() =~= old.ssp.errors());
    assert(validated.warnings() =~= Seq::<ConfigWarning>::empty());
    assert(validated.errors() =~= old.errors());
}

/// Position of 90 degrees in the numeric order; -90 degrees stands at its
/// negation.
pub open spec fn ninety_key() -> int {
    Binary32 { bits: NINETY_BITS }.order_key()
}

/// The checks of single values, in the numeric order of the values: a value
/// is "not positive" when it is NaN or at most zero, an optional value is
/// "given and negative" when it is present and NaN or below zero, a depth is
/// negative when it is a number below zero, and an elevation is in range
/// when it is a number between -90 and 90 degrees, both included.
pub proof fn lemma_value_checks(v: Binary32, o: Option<Binary32>)
    ensures
        not_positive(v) <==> (v.spec_is_nan() || v.order_key() <= 0),
        given_and_negative(o) <==> (o is Some && (o->0.spec_is_nan() || o->0.order_key() < 0)),
        depth_is_negative(v) <==> (!v.spec_is_nan() && v.order_key() < 0),
        elevation_in_range(v) <==> (!v.spec_is_nan() && -ninety_key() <= v.order_key() <= ninety_key()),
        ninety_key() == 0x42b4_0000,
{
}

/// The source section reports the launch-elevation error exactly when some
/// launch elevation, wherever it stands in the list, is NaN, below -90 or
/// above 90 degrees; it reports nothing else.
pub proof fn lemma_source_elevation_error(s: Source)
    ensures
        s.errors() == (if exists|i: int|
            0 <= i < s.launch_elev_deg@.len() && ((#[trigger] s.launch_elev_deg@[i]).spec_is_nan()
                || s.launch_elev_deg@[i].order_key() < -ninety_key()
                || ninety_key() < s.launch_elev_deg@[i].order_key()) {
            seq![ConfigError::LaunchElevationOutOfRange]
        } else {
            Seq::<ConfigError>::empty()
        }),
{
    let elev = s.launch_elev_deg@;
    assert forall|i: int| 0 <= i < elev.len() implies (!elevation_in_range(#[trigger] elev[i]) <==> (
    elev[i].spec_is_nan() || elev[i].order_key() < -ninety_key()
        || ninety_key() < elev[i].order_key())) by {
        lemma_value_checks(elev[i], None);
    }
}

/// The sound-speed section reports that the speeds are empty exactly when
/// they are, then that a speed is not positive exactly when some speed,
/// wherever it stands, is NaN or at most zero.
pub proof fn lemma_sound_speed_errors(s: SoundSpeed)
    ensures
        s.errors() == (if s.c_m_s@.len() == 0 {
            seq![ConfigError::SoundSpeedsEmpty]
        } else {
            Seq::<ConfigError>::empty()
        }) + (if exists|i: int|
            0 <= i < s.c_m_s@.len() && ((#[trigger] s.c_m_s@[i]).spec_is_nan() || s.c_m_s@[i].order_key() <= 0) {
            seq![ConfigError::SoundSpeedNotPositive]
        } else {
            Seq::<ConfigError>::empty()
        }),
{
    let c = s.c_m_s@;
    assert forall|i: int| 0 <= i < c.len() implies (not_positive(#[trigger] c[i]) <==> (c[i].spec_is_nan()
        || c[i].order_key() <= 0)) by {
        lemma_value_checks(c[i], None);
    }
}

/// Correcting depths keeps their number; an entry that is not a negative
/// number stays as it is, and a negative one becomes the number of the same
/// size with the opposite sign.
pub proof fn lemma_corrected_depths_entrywise(zs: Seq<Binary32>)
    ensures
        corrected_depths(zs).len() == zs.len(),
        forall|i: int| 0 <= i < zs.len() ==> {
            let z = #[trigger] zs[i];
            let c = corrected_depths(zs)[i];
            &&& (zs[i].spec_is_nan() || 0 <= z.order_key()) ==> c == z
            &&& (!z.spec_is_nan() && z.order_key() < 0) ==> (!c.spec_is_nan() && c.order_key() == -z.order_key())
        },
{
}

/// The depth warnings are, in order, one for each entry that is a negative
/// number, carrying that entry as given and the section it came from.
pub proof fn lemma_depth_warnings_are_negative_entries(zs: Seq<Binary32>, source: DepthSource)
    ensures
        depth_warnings(zs, source) == zs.filter(|z: Binary32| !z.spec_is_nan() && z.order_key() < 0).map_values(
            |z: Binary32| (ConfigWarning { source, original: z }),
        ),
    decreases zs.len(),
{
    let pred = |z: Binary32| !z.spec_is_nan() && z.order_key() < 0;
    let f = |z: Binary32| (ConfigWarning { source, original: z });
    if zs.len() > 0 {
        lemma_depth_warnings_are_negative_entries(zs.drop_last(), source);
        let rest = zs.drop_last().filter(pred);
        reveal(Seq::filter);
        assert(depth_is_negative(zs.last()) == pred(zs.last()));
        if pred(zs.last()) {
            assert(zs.filter(pred) == rest.push(zs.last()));
            assert(rest.push(zs.last()).map_values(f) =~= rest.map_values(f) + seq![f(zs.last())]);
        } else {
            assert(zs.filter(pred) == rest);
        }
        assert(depth_warnings(zs, source) =~= zs.filter(pred).map_values(f));
    }
}

/// An error is among those of `a + b` when it is among those of `a` or of `b`.
proof fn lemma_concat_contains(a: Seq<ConfigError>, b: Seq<ConfigError>, x: ConfigError)
    ensures
        (a + b).contains(x) <==> (a.contains(x) || b.contains(x)),
{
    if a.contains(x) {
        let i = choose|i: int| 0 <= i < a.len() && a[i] == x;
        assert((a + b)[i] == x);
    }
    if b.contains(x) {
        let i = choose|i: int| 0 <= i < b.len() && b[i] == x;
        assert((a + b)[a.len() + i] == x);
    }
    if (a + b).contains(x) {
        let i = choose|i: int| 0 <= i < (a + b).len() && (a + b)[i] == x;
        if i < a.len() {
            assert(a[i] == x);
        } else {
            assert(b[i - a.len()] == x);
        }
    }
}

/// `error_if(c, e)` holds `x` exactly when `c` holds and `x` is `e`.
proof fn lemma_error_if_contains(c: bool, e: ConfigError, x: ConfigError)
    ensures
        error_if(c, e).contains(x) <==> (c && x == e),
        error_if(c, e).len() <= 1,
{
    if c {
        assert(error_if(c, e)[0] == e);
    }
}

/// The acoustic bottom is refused for a compressional speed that is NaN or
/// at most zero, for a density that is NaN or at most zero, and for a
/// compressional attenuation that is given and NaN or below zero, each
/// reported once, and for nothing else.
pub proof fn lemma_acoustic_bottom_errors(m: BottomBoundaryModel, speed: Binary32, density: Binary32, attenuation: Option<Binary32>)
    requires
        m == (BottomBoundaryModel::Acoustic {
            compressional_speed_m_s: speed,
            density_g_cm3: density,
            compressional_attenuation_db_per_wavelength: attenuation,
        }),
    ensures
        m.errors().contains(ConfigError::AcousticCompressionalSpeedNotPositive) <==> (speed.spec_is_nan() || speed.order_key() <= 0),
        m.errors().contains(ConfigError::AcousticDensityNotPositive) <==> (density.spec_is_nan() || density.order_key() <= 0),
        m.errors().contains(ConfigError::AcousticCompressionalAttenuationNegative) <==> (attenuation is Some && (attenuation->0.spec_is_nan() || attenuation->0.order_key() < 0)),
        forall|x: ConfigError| #[trigger] m.errors().contains(x) ==> (x == ConfigError::AcousticCompressionalSpeedNotPositive || x == ConfigError::AcousticDensityNotPositive || x == ConfigError::AcousticCompressionalAttenuationNegative),
        m.errors().len() <= 3,
{
    let a = error_if(not_positive(speed), ConfigError::AcousticCompressionalSpeedNotPositive);
    let b = error_if(not_positive(density), ConfigError::AcousticDensityNotPositive);
    let c = error_if(given_and_negative(attenuation), ConfigError::AcousticCompressionalAttenuationNegative);
    assert(m.errors() == a + b + c);
    assert forall|x: ConfigError| #[trigger] m.errors().contains(x) <==> ((not_positive(speed) && x == ConfigError::AcousticCompressionalSpeedNotPositive) || (not_positive(density) && x == ConfigError::AcousticDensityNotPositive) || (given_and_negative(attenuation) && x == ConfigError::AcousticCompressionalAttenuationNegative)) by {
        lemma_concat_contains(a + b, c, x);
        lemma_concat_contains(a, b, x);
        lemma_error_if_contains(not_positive(speed), ConfigError::AcousticCompressionalSpeedNotPositive, x);
        lemma_error_if_contains(not_positive(density), ConfigError::AcousticDensityNotPositive, x);
        lemma_error_if_contains(given_and_negative(attenuation), ConfigError::AcousticCompressionalAttenuationNegative, x);
    }
    lemma_value_checks(speed, attenuation);
    lemma_value_checks(density, attenuation);
    lemma_error_if_contains(not_positive(speed), ConfigError::AcousticCompressionalSpeedNotPositive, ConfigError::AcousticCompressionalSpeedNotPositive);
    lemma_error_if_contains(not_positive(density), ConfigError::AcousticDensityNotPositive, ConfigError::AcousticDensityNotPositive);
    lemma_error_if_contains(given_and_negative(attenuation), ConfigError::AcousticCompressionalAttenuationNegative, ConfigError::AcousticCompressionalAttenuationNegative);
}

/// The elastic bottom is refused for a compressional speed, a shear speed or
/// a density that is NaN or at most zero, and for a compressional or shear
/// attenuation that is given and NaN or below zero, each reported once, and
/// for nothing else.
pub proof fn lemma_elastic_bottom_errors(
    m: BottomBoundaryModel,
    speed: Binary32,
    shear: Binary32,
    density: Binary32,
    attenuation: Option<Binary32>,
    shear_attenuation: Option<Binary32>,
)
    requires
        m == (BottomBoundaryModel::Elastic {
            compressional_speed_m_s: speed,
            shear_speed_m_s: shear,
            density_g_cm3: density,
            compressional_attenuation_db_per_wavelength: attenuation,
            shear_attenuation_db_per_wavelength: shear_attenuation,
        }),
    ensures
        m.errors().contains(ConfigError::ElasticCompressionalSpeedNotPositive) <==> (speed.spec_is_nan() || speed.order_key() <= 0),
        m.errors().contains(ConfigError::ElasticShearSpeedNotPositive) <==> (shear.spec_is_nan() || shear.order_key() <= 0),
        m.errors().contains(ConfigError::ElasticDensityNotPositive) <==> (density.spec_is_nan() || density.order_key() <= 0),
        m.errors().contains(ConfigError::ElasticCompressionalAttenuationNegative) <==> (attenuation is Some && (attenuation->0.spec_is_nan() || attenuation->0.order_key() < 0)),
        m.errors().contains(ConfigError::ElasticShearAttenuationNegative) <==> (shear_attenuation is Some && (shear_attenuation->0.spec_is_nan() || shear_attenuation->0.order_key() < 0)),
        forall|x: ConfigError| #[trigger] m.errors().contains(x) ==> (x == ConfigError::ElasticCompressionalSpeedNotPositive || x == ConfigError::ElasticShearSpeedNotPositive || x == ConfigError::ElasticDensityNotPositive || x == ConfigError::ElasticCompressionalAttenuationNegative || x == ConfigError::ElasticShearAttenuationNegative),
        m.errors().len() <= 5,
{
    let c1 = not_positive(speed);
    let c2 = not_positive(shear);
    let c3 = not_positive(density);
    let c4 = given_and_negative(attenuation);
    let c5 = given_and_negative(shear_attenuation);
    let e1 = ConfigError::ElasticCompressionalSpeedNotPositive;
    let e2 = ConfigError::ElasticShearSpeedNotPositive;
    let e3 = ConfigError::ElasticDensityNotPositive;
    let e4 = ConfigError::ElasticCompressionalAttenuationNegative;
    let e5 = ConfigError::ElasticShearAttenuationNegative;
    let s1 = error_if(c1, e1);
    let s2 = error_if(c2, e2);
    let s3 = error_if(c3, e3);
    let s4 = error_if(c4, e4);
    let s5 = error_if(c5, e5);
    assert(m.errors() == s1 + s2 + s3 + s4 + s5);
    assert forall|x: ConfigError| #[trigger] m.errors().contains(x) <==> ((c1 && x == e1) || (c2 && x == e2) || (c3 && x == e3) || (c4 && x == e4) || (c5 && x == e5)) by {
        lemma_concat_contains(s1 + s2 + s3 + s4, s5, x);
        lemma_concat_contains(s1 + s2 + s3, s4, x);
        lemma_concat_contains(s1 + s2, s3, x);
        lemma_concat_contains(s1, s2, x);
        lemma_error_if_contains(c1, e1, x);
        lemma_error_if_contains(c2, e2, x);
        lemma_error_if_contains(c3, e3, x);
        lemma_error_if_contains(c4, e4, x);
        lemma_error_if_contains(c5, e5, x);
    }
    lemma_value_checks(speed, attenuation);
    lemma_value_checks(shear, shear_attenuation);
    lemma_value_checks(density, attenuation);
    assert(m.errors().contains(e1) == c1);
    assert(m.errors().contains(e2) == c2);
    assert(m.errors().contains(e3) == c3);
    assert(m.errors().contains(e4) == c4);
    assert(m.errors().contains(e5) == c5);
    lemma_error_if_contains(c1, e1, e1);
    lemma_error_if_contains(c2, e2, e2);
    lemma_error_if_contains(c3, e3, e3);
    lemma_error_if_contains(c4, e4, e4);
    lemma_error_if_contains(c5, e5, e5);
}

/// The beam settings are refused for a step that is NaN or at most zero, a
/// step count of zero, and a maximum range that is NaN or at most zero, each
/// reported once, and for nothing else.
pub proof fn lemma_beam_errors(b: BeamSettings)
    ensures
        b.errors().contains(ConfigError::StepNotPositive) <==> (b.step_m.spec_is_nan() || b.step_m.order_key() <= 0),
        b.errors().contains(ConfigError::MaxStepsZero) <==> b.max_steps == 0,
        b.errors().contains(ConfigError::MaxRangeNotPositive) <==> (b.max_range_m.spec_is_nan() || b.max_range_m.order_key() <= 0),
        forall|x: ConfigError| #[trigger] b.errors().contains(x) ==> (x == ConfigError::StepNotPositive || x == ConfigError::MaxStepsZero || x == ConfigError::MaxRangeNotPositive),
        b.errors().len() <= 3,
{
    let c1 = not_positive(b.step_m);
    let c2 = b.max_steps == 0;
    let c3 = not_positive(b.max_range_m);
    let e1 = ConfigError::StepNotPositive;
    let e2 = ConfigError::MaxStepsZero;
    let e3 = ConfigError::MaxRangeNotPositive;
    let s1 = error_if(c1, e1);
    let s2 = error_if(c2, e2);
    let s3 = error_if(c3, e3);
    assert(b.errors() == s1 + s2 + s3);
    assert forall|x: ConfigError| #[trigger] b.errors().contains(x) <==> ((c1 && x == e1) || (c2 && x == e2) || (c3 && x == e3)) by {
        lemma_concat_contains(s1 + s2, s3, x);
        lemma_concat_contains(s1, s2, x);
        lemma_error_if_contains(c1, e1, x);
        lemma_error_if_contains(c2, e2, x);
        lemma_error_if_contains(c3, e3, x);
    }
    lemma_value_checks(b.step_m, None);
    lemma_value_checks(b.max_range_m, None);
    assert(b.errors().contains(e1) == c1);
    assert(b.errors().contains(e2) == c2);
    assert(b.errors().contains(e3) == c3);
    lemma_error_if_contains(c1, e1, e1);
    lemma_error_if_contains(c2, e2, e2);
    lemma_error_if_contains(c3, e3, e3);
}

/// The bathymetry section is refused for empty depths and for a water
/// density that is given and NaN or at most zero, each reported once;
/// every other error it reports is one of the bottom model's.
pub proof fn lemma_bathymetry_errors(b: Bathymetry)
    ensures
        b.errors().contains(ConfigError::BathymetryDepthsEmpty) <==> b.z_bty_m@.len() == 0,
        b.errors().contains(ConfigError::WaterDensityNotPositive) <==> (b.water_density_g_cm3 is Some && (b.water_density_g_cm3->0.spec_is_nan() || b.water_density_g_cm3->0.order_key() <= 0)),
        forall|x: ConfigError| x != ConfigError::BathymetryDepthsEmpty && x != ConfigError::WaterDensityNotPositive ==> (#[trigger] b.errors().contains(x) <==> b.bottom_model.errors().contains(x)),
{
    let c1 = b.z_bty_m@.len() == 0;
    let c2 = b.water_density_g_cm3 matches Some(v) && not_positive(v);
    let e1 = ConfigError::BathymetryDepthsEmpty;
    let e2 = ConfigError::WaterDensityNotPositive;
    let s1 = error_if(c1, e1);
    let s2 = error_if(c2, e2);
    let s3 = b.bottom_model.errors();
    assert(b.errors() == s1 + s2 + s3);
    assert forall|x: ConfigError| #[trigger] b.errors().contains(x) <==> ((c1 && x == e1) || (c2 && x == e2) || s3.contains(x)) by {
        lemma_concat_contains(s1 + s2, s3, x);
        lemma_concat_contains(s1, s2, x);
        lemma_error_if_contains(c1, e1, x);
        lemma_error_if_contains(c2, e2, x);
    }
    bottom_model_errors_are_its_own(b.bottom_model, e1);
    bottom_model_errors_are_its_own(b.bottom_model, e2);
    if let Some(v) = b.water_density_g_cm3 {
        lemma_value_checks(v, None);
    }
    assert(b.errors().contains(e1) == c1);
    assert(b.errors().contains(e2) == c2);
}

/// A bottom model reports only errors of its own kind.
proof fn bottom_model_errors_are_its_own(m: BottomBoundaryModel, x: ConfigError)
    ensures
        m.errors().contains(x) ==> match x {
            ConfigError::AcousticCompressionalSpeedNotPositive => m is Acoustic,
            ConfigError::AcousticDensityNotPositive => m is Acoustic,
            ConfigError::AcousticCompressionalAttenuationNegative => m is Acoustic,
            ConfigError::ElasticCompressionalSpeedNotPositive => m is Elastic,
            ConfigError::ElasticShearSpeedNotPositive => m is Elastic,
            ConfigError::ElasticDensityNotPositive => m is Elastic,
            ConfigError::ElasticCompressionalAttenuationNegative => m is Elastic,
            ConfigError::ElasticShearAttenuationNegative => m is Elastic,
            _ => false,
        },
{
    match m {
        BottomBoundaryModel::Rigid => {},
        BottomBoundaryModel::Acoustic { compressional_speed_m_s, density_g_cm3, compressional_attenuation_db_per_wavelength } => {
            lemma_acoustic_bottom_errors(m, compressional_speed_m_s, density_g_cm3, compressional_attenuation_db_per_wavelength);
        },
        BottomBoundaryModel::Elastic {
            compressional_speed_m_s,
            shear_speed_m_s,
            density_g_cm3,
            compressional_attenuation_db_per_wavelength,
            shear_attenuation_db_per_wavelength,
        } => {
            lemma_elastic_bottom_errors(m, compressional_speed_m_s, shear_speed_m_s, density_g_cm3, compressional_attenuation_db_per_wavelength, shear_attenuation_db_per_wavelength);
        },
    }
}

/// A configuration is refused for an out-of-range launch elevation exactly
/// when some launch elevation, wherever it stands in the list, is NaN, below
/// -90 or above 90 degrees.
pub proof fn lemma_config_elevation_error(cfg: SimulationConfig)
    ensures
        cfg.errors().contains(ConfigError::LaunchElevationOutOfRange) <==> exists|i: int|
            0 <= i < cfg.source.launch_elev_deg@.len() && ((#[trigger] cfg.source.launch_elev_deg@[i]).spec_is_nan()
                || cfg.source.launch_elev_deg@[i].order_key() < -ninety_key()
                || ninety_key() < cfg.source.launch_elev_deg@[i].order_key()),
{
    let x = ConfigError::LaunchElevationOutOfRange;
    let a = cfg.ssp.errors();
    let b = cfg.bathymetry.errors();
    let c = cfg.source.errors();
    let d = cfg.receivers.errors();
    let e = cfg.beam.errors();
    lemma_concat_contains(a + b + c + d, e, x);
    lemma_concat_contains(a + b + c, d, x);
    lemma_concat_contains(a + b, c, x);
    lemma_concat_contains(a, b, x);
    lemma_concat_contains(error_if(cfg.ssp.c_m_s@.len() == 0, ConfigError::SoundSpeedsEmpty), error_if(
        exists|i: int| 0 <= i < cfg.ssp.c_m_s@.len() && not_positive(#[trigger] cfg.ssp.c_m_s@[i]),
        ConfigError::SoundSpeedNotPositive), x);
    lemma_error_if_contains(cfg.ssp.c_m_s@.len() == 0, ConfigError::SoundSpeedsEmpty, x);
    lemma_error_if_contains(exists|i: int| 0 <= i < cfg.ssp.c_m_s@.len() && not_positive(#[trigger] cfg.ssp.c_m_s@[i]),
        ConfigError::SoundSpeedNotPositive, x);
    lemma_bathymetry_errors(cfg.bathymetry);
    bottom_model_errors_are_its_own(cfg.bathymetry.bottom_model, x);
    lemma_error_if_contains(cfg.receivers.config_type@ != "grid"@ && cfg.receivers.config_type@ != "array"@,
        ConfigError::ReceiverConfigTypeUnknown, x);
    lemma_beam_errors(cfg.beam);
    lemma_source_elevation_error(cfg.source);
    lemma_error_if_contains(true, x, x);
}

} // verus!
