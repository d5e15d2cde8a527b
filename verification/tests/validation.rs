use rtrs::binary32::Binary32;
use rtrs::input::config::{
    Bathymetry, BeamSettings, BottomBoundaryModel, ConfigError, ConfigWarning, DepthSource,
    IntegrationMethod, Receivers, SimulationConfig, SoundSpeed, Source,
};

fn b(v: f32) -> Binary32 {
    Binary32 { bits: v.to_bits() }
}

fn bs(vs: &[f32]) -> Vec<Binary32> {
    vs.iter().map(|v| b(*v)).collect()
}

fn vals(vs: &[Binary32]) -> Vec<f32> {
    vs.iter().map(|v| f32::from_bits(v.bits)).collect()
}

/// The minimal example of the input reference.
fn minimal_example() -> SimulationConfig {
    SimulationConfig {
        ssp: SoundSpeed {
            x_ssp_m: bs(&[0.0, 30000.0]),
            y_ssp_m: bs(&[0.0, 30000.0]),
            z_ssp_m: bs(&[0.0, 150.0]),
            c_m_s: bs(&[1500.0, 1503.0, 1500.0, 1503.0, 1500.0, 1503.0, 1500.0, 1503.0]),
        },
        bathymetry: Bathymetry {
            x_bty_m: bs(&[0.0, 30000.0]),
            y_bty_m: bs(&[0.0, 30000.0]),
            z_bty_m: bs(&[150.0, 150.0, 150.0, 150.0]),
            water_density_g_cm3: None,
            bottom_model: BottomBoundaryModel::Elastic {
                compressional_speed_m_s: b(1700.0),
                shear_speed_m_s: b(400.0),
                density_g_cm3: b(1.6),
                compressional_attenuation_db_per_wavelength: Some(b(0.5)),
                shear_attenuation_db_per_wavelength: Some(b(0.35)),
            },
        },
        source: Source {
            position: [b(0.0), b(0.0), b(50.0)],
            freq_hz: bs(&[100.0]),
            launch_elev_deg: bs(&[-10.0, 0.0, 10.0]),
            launch_azim_deg: bs(&[0.0]),
        },
        receivers: Receivers {
            config_type: "grid".to_string(),
            x_rcvr_m: bs(&[0.0, 1000.0]),
            y_rcvr_m: bs(&[0.0]),
            z_rcvr_m: bs(&[20.0, 40.0]),
        },
        beam: BeamSettings {
            step_m: b(5.0),
            max_steps: 20000,
            max_range_m: b(30000.0),
            store_ray_paths: false,
            show_progress: false,
            atomic_progress_counter: false,
            integration_method: IntegrationMethod::Euler,
        },
    }
}

fn errors_of(mut cfg: SimulationConfig) -> Vec<ConfigError> {
    match cfg.validate() {
        Ok(_) => Vec::new(),
        Err(e) => e,
    }
}

#[test]
fn minimal_example_validates_without_warning() {
    let mut cfg = minimal_example();
    let r = cfg.validate();
    assert_eq!(r, Ok(Vec::new()));
    assert_eq!(vals(&cfg.ssp.z_ssp_m), vec![0.0, 150.0]);
}

#[test]
fn negative_depths_are_corrected_with_warnings_in_order() {
    let mut cfg = minimal_example();
    cfg.ssp.z_ssp_m = bs(&[-5.0, 0.0, 150.0, -1.5]);
    cfg.source.position[2] = b(-50.0);
    cfg.receivers.z_rcvr_m = bs(&[20.0, -40.0]);
    let r = cfg.validate();
    assert_eq!(
        r,
        Ok(vec![
            ConfigWarning { source: DepthSource::SoundSpeedAxis, original: b(-5.0) },
            ConfigWarning { source: DepthSource::SoundSpeedAxis, original: b(-1.5) },
            ConfigWarning { source: DepthSource::SourcePosition, original: b(-50.0) },
            ConfigWarning { source: DepthSource::ReceiverDepths, original: b(-40.0) },
        ])
    );
    assert_eq!(vals(&cfg.ssp.z_ssp_m), vec![5.0, 0.0, 150.0, 1.5]);
    assert_eq!(f32::from_bits(cfg.source.position[2].bits), 50.0);
    assert_eq!(vals(&cfg.receivers.z_rcvr_m), vec![20.0, 40.0]);
}

#[test]
fn negative_zero_depth_is_not_corrected() {
    let mut cfg = minimal_example();
    cfg.receivers.z_rcvr_m = bs(&[-0.0]);
    assert_eq!(cfg.validate(), Ok(Vec::new()));
    assert_eq!(cfg.receivers.z_rcvr_m[0].bits, (-0.0f32).to_bits());
}

#[test]
fn validating_twice_gives_no_warning() {
    let mut cfg = minimal_example();
    cfg.ssp.z_ssp_m = bs(&[-5.0, 150.0]);
    cfg.source.position[2] = b(-1.0);
    assert!(cfg.validate().is_ok());
    assert_eq!(cfg.validate(), Ok(Vec::new()));
}

#[test]
fn depths_are_corrected_even_when_validation_fails() {
    let mut cfg = minimal_example();
    cfg.ssp.z_ssp_m = bs(&[-5.0, 150.0]);
    cfg.beam.max_steps = 0;
    assert_eq!(cfg.validate(), Err(vec![ConfigError::MaxStepsZero]));
    assert_eq!(vals(&cfg.ssp.z_ssp_m), vec![5.0, 150.0]);
}

#[test]
fn empty_sound_speeds_are_rejected() {
    let mut cfg = minimal_example();
    cfg.ssp.c_m_s = Vec::new();
    assert_eq!(errors_of(cfg), vec![ConfigError::SoundSpeedsEmpty]);
}

#[test]
fn non_positive_sound_speeds_are_rejected() {
    let mut cfg = minimal_example();
    cfg.ssp.c_m_s = bs(&[1500.0, 0.0, -3.0]);
    assert_eq!(errors_of(cfg), vec![ConfigError::SoundSpeedNotPositive]);
    let mut cfg = minimal_example();
    cfg.ssp.c_m_s = bs(&[-0.0]);
    assert_eq!(errors_of(cfg), vec![ConfigError::SoundSpeedNotPositive]);
}

#[test]
fn nan_sound_speed_is_rejected() {
    let mut cfg = minimal_example();
    cfg.ssp.c_m_s = bs(&[1500.0, f32::NAN]);
    assert_eq!(errors_of(cfg), vec![ConfigError::SoundSpeedNotPositive]);
}

#[test]
fn nan_beam_settings_are_rejected() {
    let mut cfg = minimal_example();
    cfg.beam.step_m = b(f32::NAN);
    cfg.beam.max_range_m = b(f32::NAN);
    assert_eq!(errors_of(cfg), vec![ConfigError::StepNotPositive, ConfigError::MaxRangeNotPositive]);
}

#[test]
fn nan_launch_elevation_is_rejected() {
    let mut cfg = minimal_example();
    cfg.source.launch_elev_deg = bs(&[0.0, f32::NAN]);
    assert_eq!(errors_of(cfg), vec![ConfigError::LaunchElevationOutOfRange]);
}

#[test]
fn nan_bottom_parameters_are_rejected() {
    let mut cfg = minimal_example();
    cfg.bathymetry.water_density_g_cm3 = Some(b(f32::NAN));
    cfg.bathymetry.bottom_model = BottomBoundaryModel::Elastic {
        compressional_speed_m_s: b(f32::NAN),
        shear_speed_m_s: b(400.0),
        density_g_cm3: b(1.6),
        compressional_attenuation_db_per_wavelength: Some(b(f32::NAN)),
        shear_attenuation_db_per_wavelength: None,
    };
    assert_eq!(
        errors_of(cfg),
        vec![
            ConfigError::WaterDensityNotPositive,
            ConfigError::ElasticCompressionalSpeedNotPositive,
            ConfigError::ElasticCompressionalAttenuationNegative,
        ]
    );
}

#[test]
fn bathymetry_errors() {
    let mut cfg = minimal_example();
    cfg.bathymetry.z_bty_m = Vec::new();
    cfg.bathymetry.water_density_g_cm3 = Some(b(0.0));
    cfg.bathymetry.bottom_model = BottomBoundaryModel::Acoustic {
        compressional_speed_m_s: b(-1.0),
        density_g_cm3: b(0.0),
        compressional_attenuation_db_per_wavelength: Some(b(-0.1)),
    };
    assert_eq!(
        errors_of(cfg),
        vec![
            ConfigError::BathymetryDepthsEmpty,
            ConfigError::WaterDensityNotPositive,
            ConfigError::AcousticCompressionalSpeedNotPositive,
            ConfigError::AcousticDensityNotPositive,
            ConfigError::AcousticCompressionalAttenuationNegative,
        ]
    );
}

#[test]
fn elastic_bottom_errors() {
    let mut cfg = minimal_example();
    cfg.bathymetry.bottom_model = BottomBoundaryModel::Elastic {
        compressional_speed_m_s: b(0.0),
        shear_speed_m_s: b(-400.0),
        density_g_cm3: b(-1.6),
        compressional_attenuation_db_per_wavelength: Some(b(-0.5)),
        shear_attenuation_db_per_wavelength: Some(b(-0.35)),
    };
    assert_eq!(
        errors_of(cfg),
        vec![
            ConfigError::ElasticCompressionalSpeedNotPositive,
            ConfigError::ElasticShearSpeedNotPositive,
            ConfigError::ElasticDensityNotPositive,
            ConfigError::ElasticCompressionalAttenuationNegative,
            ConfigError::ElasticShearAttenuationNegative,
        ]
    );
}

#[test]
fn zero_attenuation_is_accepted() {
    let mut cfg = minimal_example();
    cfg.bathymetry.bottom_model = BottomBoundaryModel::Acoustic {
        compressional_speed_m_s: b(1700.0),
        density_g_cm3: b(1.5),
        compressional_attenuation_db_per_wavelength: Some(b(0.0)),
    };
    assert_eq!(errors_of(cfg), Vec::<ConfigError>::new());
}

#[test]
fn launch_elevations_must_lie_in_range() {
    let mut cfg = minimal_example();
    cfg.source.launch_elev_deg = bs(&[-90.0, 0.0, 90.0]);
    assert_eq!(errors_of(cfg), Vec::<ConfigError>::new());
    let mut cfg = minimal_example();
    cfg.source.launch_elev_deg = bs(&[0.0, 90.5]);
    assert_eq!(errors_of(cfg), vec![ConfigError::LaunchElevationOutOfRange]);
    let mut cfg = minimal_example();
    cfg.source.launch_elev_deg = bs(&[-91.0, -100.0]);
    assert_eq!(errors_of(cfg), vec![ConfigError::LaunchElevationOutOfRange]);
}

#[test]
fn receiver_config_type_must_be_grid_or_array() {
    let mut cfg = minimal_example();
    cfg.receivers.config_type = "array".to_string();
    assert_eq!(errors_of(cfg), Vec::<ConfigError>::new());
    let mut cfg = minimal_example();
    cfg.receivers.config_type = "Grid".to_string();
    assert_eq!(errors_of(cfg), vec![ConfigError::ReceiverConfigTypeUnknown]);
    let mut cfg = minimal_example();
    cfg.receivers.config_type = "line".to_string();
    assert_eq!(errors_of(cfg), vec![ConfigError::ReceiverConfigTypeUnknown]);
}

#[test]
fn beam_settings_errors() {
    let mut cfg = minimal_example();
    cfg.beam.step_m = b(0.0);
    cfg.beam.max_steps = 0;
    cfg.beam.max_range_m = b(-1.0);
    assert_eq!(
        errors_of(cfg),
        vec![ConfigError::StepNotPositive, ConfigError::MaxStepsZero, ConfigError::MaxRangeNotPositive]
    );
}

#[test]
fn errors_come_section_by_section() {
    let mut cfg = minimal_example();
    cfg.beam.step_m = b(-1.0);
    cfg.receivers.config_type = "mesh".to_string();
    cfg.source.launch_elev_deg = bs(&[95.0]);
    cfg.ssp.c_m_s = Vec::new();
    assert_eq!(
        errors_of(cfg),
        vec![
            ConfigError::SoundSpeedsEmpty,
            ConfigError::LaunchElevationOutOfRange,
            ConfigError::ReceiverConfigTypeUnknown,
            ConfigError::StepNotPositive,
        ]
    );
}

#[test]
fn defaults() {
    assert_eq!(rtrs::input::config::default_false(), false);
    assert_eq!(rtrs::input::config::default_integration_method(), IntegrationMethod::Euler);
    assert_eq!(rtrs::input::config::default_none_f32(), None);
    assert_eq!(rtrs::input::config::default_bottom_boundary_model(), BottomBoundaryModel::Rigid);
}
