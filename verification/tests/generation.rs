//! Tests of material classification and terrain generation.

use noise::{Fbm, NoiseFn, Perlin};
use regolith::map::{MineralCell, MineralMap};
use regolith::material::{MineralType, PhysicsType};
use regolith::ConfigError;

/// Samples the three noise fields for a grid, exactly as an application
/// would: a fractal field at 0.02 units per cell, a detail field at 0.1, and
/// a relief field (seed offset by 1000) at 0.05, each in thousandths.
fn sample_fields(seed: u32, width: usize, height: usize) -> (Vec<i32>, Vec<i32>, Vec<i32>) {
    let fbm = Fbm::<Perlin>::new(seed);
    let detail = Perlin::new(seed);
    let relief = Perlin::new(seed.wrapping_add(1000));
    let mut t = Vec::with_capacity(width * height);
    let mut d = Vec::with_capacity(width * height);
    let mut r = Vec::with_capacity(width * height);
    for y in 0..height {
        for x in 0..width {
            let xf = x as f64;
            let yf = y as f64;
            t.push((fbm.get([xf * 0.02, yf * 0.02]) * 1000.0) as i32);
            d.push((detail.get([xf * 0.1, yf * 0.1]) * 1000.0) as i32);
            r.push((relief.get([xf * 0.05, yf * 0.05]) * 1000.0) as i32);
        }
    }
    (t, d, r)
}

fn generate(seed: u32, width: usize, height: usize) -> MineralMap {
    let (t, d, r) = sample_fields(seed, width, height);
    MineralMap::generate(width, height, &t, &d, &r).unwrap()
}

#[test]
fn physics_classes_follow_the_table() {
    assert_eq!(MineralType::Empty.physics_type(), PhysicsType::Empty);
    assert_eq!(MineralType::Diamond.physics_type(), PhysicsType::Solid);
    assert_eq!(MineralType::Uranium.physics_type(), PhysicsType::Solid);
    assert_eq!(MineralType::Coal.physics_type(), PhysicsType::Granular);
    assert_eq!(MineralType::Iron.physics_type(), PhysicsType::Granular);
    assert_eq!(MineralType::Copper.physics_type(), PhysicsType::Granular);
    assert_eq!(MineralType::Gold.physics_type(), PhysicsType::Flowing);
    assert_eq!(MineralType::Silver.physics_type(), PhysicsType::Flowing);
}

#[test]
fn threshold_table_maps_combined_values() {
    // Ungated bands, at a shallow depth.
    assert_eq!(MineralType::from_noise_value(-2500, 0, 10), MineralType::Empty);
    assert_eq!(MineralType::from_noise_value(-500, 0, 10), MineralType::Coal);
    assert_eq!(MineralType::from_noise_value(500, 0, 10), MineralType::Iron);
    assert_eq!(MineralType::from_noise_value(1500, 0, 10), MineralType::Copper);
    // Gated bands, deep enough.
    assert_eq!(MineralType::from_noise_value(-1500, 9, 10), MineralType::Uranium);
    assert_eq!(MineralType::from_noise_value(2500, 9, 10), MineralType::Silver);
    assert_eq!(MineralType::from_noise_value(3500, 8, 10), MineralType::Gold);
    assert_eq!(MineralType::from_noise_value(4500, 9, 10), MineralType::Diamond);
    // Values past every band are empty.
    assert_eq!(MineralType::from_noise_value(5500, 9, 10), MineralType::Empty);
}

#[test]
fn failed_depth_gate_falls_through() {
    // A would-be Uranium value at shallow depth falls through to Coal.
    assert_eq!(MineralType::from_noise_value(-1500, 1, 10), MineralType::Coal);
    // A would-be Silver, Gold or Diamond value at shallow depth falls
    // through to the final Empty row.
    assert_eq!(MineralType::from_noise_value(2500, 1, 10), MineralType::Empty);
    assert_eq!(MineralType::from_noise_value(3500, 1, 10), MineralType::Empty);
    assert_eq!(MineralType::from_noise_value(4500, 1, 10), MineralType::Empty);
}

#[test]
fn depth_gates_are_strict() {
    // A depth factor that only reaches the bound is not enough; it must
    // exceed it: depth 6/10 is not > 0.6.
    assert_eq!(MineralType::from_noise_value(-1500, 6, 10), MineralType::Coal);
    assert_eq!(MineralType::from_noise_value(-1500, 7, 10), MineralType::Uranium);
    // 5/10 is not > 0.5.
    assert_eq!(MineralType::from_noise_value(2500, 5, 10), MineralType::Empty);
    assert_eq!(MineralType::from_noise_value(2500, 6, 10), MineralType::Silver);
}

#[test]
fn generate_rejects_zero_dimensions() {
    let empty: Vec<i32> = Vec::new();
    assert!(matches!(
        MineralMap::generate(0, 5, &empty, &empty, &empty),
        Err(ConfigError::ZeroDimension)
    ));
    assert!(matches!(
        MineralMap::generate(5, 0, &empty, &empty, &empty),
        Err(ConfigError::ZeroDimension)
    ));
}

#[test]
fn generate_rejects_short_sample_fields() {
    let good = vec![0i32; 6];
    let bad = vec![0i32; 5];
    assert!(matches!(
        MineralMap::generate(3, 2, &bad, &good, &good),
        Err(ConfigError::SampleCountMismatch)
    ));
    assert!(matches!(
        MineralMap::generate(3, 2, &good, &good, &bad),
        Err(ConfigError::SampleCountMismatch)
    ));
    assert!(MineralMap::generate(3, 2, &good, &good, &good).is_ok());
    // A zero dimension is reported before a sample-field defect.
    assert!(matches!(
        MineralMap::generate(0, 2, &bad, &bad, &bad),
        Err(ConfigError::ZeroDimension)
    ));
}

#[test]
fn generate_applies_the_formulas() {
    // One deep cell with hand-picked samples: t = 500, d = 100 gives
    // combined 5*500 + 100 = 2600 (0.52), density 7600, and at depth 9/10
    // the Silver band; height = 7600 * 100 + 40 * 200 = 768000.
    let m = MineralMap::generate(1, 10, &vec![500i32; 10], &vec![100i32; 10], &vec![40i32; 10])
        .unwrap();
    let c = m.cell_at(0, 9).unwrap();
    assert_eq!(c.mineral_type, MineralType::Silver);
    assert_eq!(c.density, 7600);
    assert!(!c.sampled);
    assert!(!c.mined);
    assert_eq!(m.height_at(0, 9).unwrap(), 768000);
    // The same combined value at the surface falls through to Empty, so its
    // height is zero while its density keeps the formula value.
    let top = m.cell_at(0, 0).unwrap();
    assert_eq!(top.mineral_type, MineralType::Empty);
    assert_eq!(top.density, 7600);
    assert_eq!(m.height_at(0, 0).unwrap(), 0);
}

#[test]
fn generation_is_deterministic() {
    let (t1, d1, r1) = sample_fields(77, 16, 12);
    let (t2, d2, r2) = sample_fields(77, 16, 12);
    assert_eq!(t1, t2);
    assert_eq!(d1, d2);
    assert_eq!(r1, r2);
    let a = MineralMap::generate(16, 12, &t1, &d1, &r1).unwrap();
    let b = MineralMap::generate(16, 12, &t2, &d2, &r2).unwrap();
    for y in 0..12 {
        for x in 0..16 {
            assert_eq!(a.cell_at(x, y), b.cell_at(x, y));
            assert_eq!(a.height_at(x, y), b.height_at(x, y));
        }
    }
}

#[test]
fn different_seeds_differ_somewhere() {
    let a = generate(1, 32, 32);
    let b = generate(2, 32, 32);
    let mut differs = false;
    for y in 0..32 {
        for x in 0..32 {
            if a.cell_at(x, y) != b.cell_at(x, y) || a.height_at(x, y) != b.height_at(x, y) {
                differs = true;
            }
        }
    }
    assert!(differs);
}

#[test]
fn generated_empty_cells_have_zero_height() {
    let m = generate(42, 48, 48);
    let mut empties = 0;
    for y in 0..48 {
        for x in 0..48 {
            let c = m.cell_at(x, y).unwrap();
            if c.mineral_type == MineralType::Empty {
                assert_eq!(m.height_at(x, y).unwrap(), 0);
                empties += 1;
            }
        }
    }
    // The fields really do produce some empty cells at this seed.
    assert!(empties > 0);
}

#[test]
fn accessors_reject_out_of_bounds() {
    let m = generate(5, 8, 6);
    assert_eq!(m.width(), 8);
    assert_eq!(m.height(), 6);
    assert!(m.cell_at(7, 5).is_some());
    assert!(m.cell_at(8, 0).is_none());
    assert!(m.cell_at(0, 6).is_none());
    assert!(m.height_at(8, 0).is_none());
    assert!(m.height_at(0, 6).is_none());
}

#[test]
fn default_cell_is_untouched_and_empty() {
    let c: MineralCell = Default::default();
    assert_eq!(c.mineral_type, MineralType::Empty);
    assert_eq!(c.density, 0);
    assert!(!c.sampled);
    assert!(!c.mined);
}
