use rtrs::binary32::Binary32;
use rtrs::bty::{bottom_runtime_model, init_bty, BottomBoundaryRuntimeModel};
use rtrs::influence::{init_pressure_layout, is_array_mode, no_arrival};
use rtrs::input::config::{
    Bathymetry, BeamSettings, BottomBoundaryModel, IntegrationMethod, Receivers, SimulationConfig,
    SoundSpeed, Source,
};
use rtrs::ssp::{init_ssp_axes, sound_speed_at};

fn b(v: f32) -> Binary32 {
    Binary32 { bits: v.to_bits() }
}

fn bs(vs: &[f32]) -> Vec<Binary32> {
    vs.iter().map(|v| b(*v)).collect()
}

fn config(config_type: &str, x: &[f32], y: &[f32], z: &[f32]) -> SimulationConfig {
    SimulationConfig {
        ssp: SoundSpeed {
            x_ssp_m: bs(&[0.0, 10.0]),
            y_ssp_m: bs(&[0.0, 20.0]),
            z_ssp_m: bs(&[0.0, 30.0]),
            c_m_s: bs(&[1500.0; 8]),
        },
        bathymetry: Bathymetry {
            x_bty_m: bs(&[0.0, 10.0, 20.0]),
            y_bty_m: bs(&[0.0, 10.0]),
            z_bty_m: bs(&[100.0, 101.0, 110.0, 111.0, 120.0, 121.0]),
            water_density_g_cm3: None,
            bottom_model: BottomBoundaryModel::Acoustic {
                compressional_speed_m_s: b(1700.0),
                density_g_cm3: b(1.5),
                compressional_attenuation_db_per_wavelength: None,
            },
        },
        source: Source {
            position: [b(0.0), b(0.0), b(5.0)],
            freq_hz: bs(&[50.0, 100.0, 200.0]),
            launch_elev_deg: bs(&[0.0]),
            launch_azim_deg: bs(&[0.0]),
        },
        receivers: Receivers {
            config_type: config_type.to_string(),
            x_rcvr_m: bs(x),
            y_rcvr_m: bs(y),
            z_rcvr_m: bs(z),
        },
        beam: BeamSettings {
            step_m: b(1.0),
            max_steps: 10,
            max_range_m: b(50.0),
            store_ray_paths: false,
            show_progress: false,
            atomic_progress_counter: false,
            integration_method: IntegrationMethod::Euler,
        },
    }
}

#[test]
fn array_mode_ignores_case() {
    assert!(is_array_mode(&"array".to_string()));
    assert!(is_array_mode(&"ARRAY".to_string()));
    assert!(is_array_mode(&"Array".to_string()));
    assert!(!is_array_mode(&"grid".to_string()));
    assert!(!is_array_mode(&"arrays".to_string()));
}

#[test]
fn grid_layout_uses_axes() {
    let cfg = config("grid", &[0.0, 1000.0], &[0.0], &[20.0, 40.0]);
    let l = init_pressure_layout(&cfg).expect("grid layout");
    assert!(!l.is_array);
    assert_eq!((l.n_freq, l.nx, l.ny, l.nz), (3, 2, 1, 2));
    assert_eq!(l.x_m, bs(&[0.0, 1000.0]));
    assert_eq!(l.z_m, bs(&[20.0, 40.0]));
    assert!(l.receiver_positions_m.is_none());
    assert_eq!(l.receiver_index(1, 0, 1), 3);
    assert_eq!(l.receiver_index(0, 0, 1), 1);
    let arrivals = l.init_arrivals();
    assert_eq!(arrivals.len(), 4);
    assert!(arrivals.iter().all(|r| *r == no_arrival()));
}

#[test]
fn array_layout_zips_coordinates() {
    let cfg = config("Array", &[1.0, 2.0], &[3.0, 4.0], &[5.0, 6.0]);
    let l = init_pressure_layout(&cfg).expect("array layout");
    assert!(l.is_array);
    assert_eq!((l.nx, l.ny, l.nz), (2, 1, 1));
    assert!(l.x_m.is_empty() && l.y_m.is_empty() && l.z_m.is_empty());
    assert_eq!(
        l.receiver_positions_m,
        Some(vec![[b(1.0), b(3.0), b(5.0)], [b(2.0), b(4.0), b(6.0)]])
    );
    assert_eq!(l.receiver_index(1, 0, 0), 1);
}

#[test]
fn array_layout_needs_equal_lengths() {
    let cfg = config("array", &[1.0, 2.0], &[3.0], &[5.0, 6.0]);
    assert!(init_pressure_layout(&cfg).is_none());
}

#[test]
fn row_major_receiver_index() {
    let cfg = config("grid", &[0.0, 1.0, 2.0], &[0.0, 1.0], &[0.0, 1.0, 2.0, 3.0]);
    let l = init_pressure_layout(&cfg).unwrap();
    let mut seen = Vec::new();
    for ix in 0..3 {
        for iy in 0..2 {
            for iz in 0..4 {
                seen.push(l.receiver_index(ix, iy, iz));
            }
        }
    }
    assert_eq!(seen, (0..24).collect::<Vec<usize>>());
}

#[test]
fn bathymetry_defaults_and_depth_lookup() {
    let cfg = config("grid", &[0.0], &[0.0], &[0.0]);
    let bty = init_bty(&cfg);
    assert_eq!(bty.water_density_g_cm3, b(1.0));
    assert_eq!(
        bty.bottom_model,
        BottomBoundaryRuntimeModel::Acoustic {
            compressional_speed_m_s: b(1700.0),
            density_g_cm3: b(1.5),
            compressional_attenuation_db_per_wavelength: b(0.0),
        }
    );
    assert_eq!(bty.depth_at(0, 1), b(101.0));
    assert_eq!(bty.depth_at(1, 0), b(110.0));
    assert_eq!(bty.depth_at(2, 1), b(121.0));
}

#[test]
fn bottom_model_defaults() {
    assert_eq!(bottom_runtime_model(&BottomBoundaryModel::Rigid), BottomBoundaryRuntimeModel::Rigid);
    let m = BottomBoundaryModel::Elastic {
        compressional_speed_m_s: b(1700.0),
        shear_speed_m_s: b(400.0),
        density_g_cm3: b(1.6),
        compressional_attenuation_db_per_wavelength: Some(b(0.5)),
        shear_attenuation_db_per_wavelength: None,
    };
    assert_eq!(
        bottom_runtime_model(&m),
        BottomBoundaryRuntimeModel::Elastic {
            compressional_speed_m_s: b(1700.0),
            shear_speed_m_s: b(400.0),
            density_g_cm3: b(1.6),
            compressional_attenuation_db_per_wavelength: b(0.5),
            shear_attenuation_db_per_wavelength: b(0.0),
        }
    );
}

#[test]
fn given_water_density_is_kept() {
    let mut cfg = config("grid", &[0.0], &[0.0], &[0.0]);
    cfg.bathymetry.water_density_g_cm3 = Some(b(1.025));
    assert_eq!(init_bty(&cfg).water_density_g_cm3, b(1.025));
}

#[test]
fn ssp_axes_copy_configuration() {
    let cfg = config("grid", &[0.0], &[0.0], &[0.0]);
    let axes = init_ssp_axes(&cfg);
    assert_eq!(axes.x, bs(&[0.0, 10.0]));
    assert_eq!(axes.y, bs(&[0.0, 20.0]));
    assert_eq!(axes.z, bs(&[0.0, 30.0]));
}

#[test]
fn sound_speeds_are_z_fastest() {
    let mut cfg = config("grid", &[0.0], &[0.0], &[0.0]);
    let mut c = Vec::new();
    for i in 0..2 {
        for j in 0..2 {
            for k in 0..2 {
                c.push(1500.0 + 100.0 * i as f32 + 10.0 * j as f32 + k as f32);
            }
        }
    }
    cfg.ssp.c_m_s = bs(&c);
    assert_eq!(sound_speed_at(&cfg.ssp, 1, 0, 1), b(1601.0));
    assert_eq!(sound_speed_at(&cfg.ssp, 0, 1, 0), b(1510.0));
    assert_eq!(sound_speed_at(&cfg.ssp, 1, 1, 1), b(1611.0));
}
