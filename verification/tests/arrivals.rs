use rtrs::binary32::Binary32;
use rtrs::reflect::{reflection_boundary, BoundaryHit};
use rtrs::influence::{crosses_caustic, merge_arrival, merge_arrival_fields, no_arrival, record_arrival, ArrivalRecord};

fn b(v: f32) -> Binary32 {
    Binary32 { bits: v.to_bits() }
}

fn rec(d: f32, a: f32) -> ArrivalRecord {
    ArrivalRecord { delay_s: b(d), amplitude: b(a) }
}

#[test]
fn empty_record_is_infinite_delay_zero_amplitude() {
    let r = no_arrival();
    assert_eq!(f32::from_bits(r.delay_s.bits), f32::INFINITY);
    assert_eq!(f32::from_bits(r.amplitude.bits), 0.0);
}

#[test]
fn earlier_arrival_replaces_record() {
    let mut r = no_arrival();
    record_arrival(&mut r, b(2.0), b(0.1));
    assert_eq!(r, rec(2.0, 0.1));
    record_arrival(&mut r, b(1.5), b(0.01));
    assert_eq!(r, rec(1.5, 0.01));
    record_arrival(&mut r, b(3.0), b(9.0));
    assert_eq!(r, rec(1.5, 0.01));
}

#[test]
fn simultaneous_arrival_keeps_larger_amplitude() {
    let mut r = rec(1.5, 0.2);
    record_arrival(&mut r, b(1.5), b(-0.3));
    assert_eq!(r, rec(1.5, -0.3));
    record_arrival(&mut r, b(1.5), b(0.3));
    assert_eq!(r, rec(1.5, -0.3));
    record_arrival(&mut r, b(1.5), b(0.1));
    assert_eq!(r, rec(1.5, -0.3));
}

#[test]
fn merge_keeps_strictly_earlier_record() {
    let mut d = rec(2.0, 0.5);
    merge_arrival(&mut d, &rec(1.0, 0.1));
    assert_eq!(d, rec(1.0, 0.1));
    merge_arrival(&mut d, &rec(1.0, 9.0));
    assert_eq!(d, rec(1.0, 0.1));
    merge_arrival(&mut d, &no_arrival());
    assert_eq!(d, rec(1.0, 0.1));
    let mut e = no_arrival();
    merge_arrival(&mut e, &rec(4.0, 0.2));
    assert_eq!(e, rec(4.0, 0.2));
}

#[test]
fn merge_grouping_does_not_matter() {
    let a = vec![rec(1.0, 0.1), rec(5.0, 0.5), no_arrival()];
    let bb = vec![rec(2.0, 0.2), rec(5.0, 0.7), rec(3.0, 0.3)];
    let c = vec![rec(0.5, 0.9), rec(4.0, 0.4), rec(3.0, 0.6)];
    let mut left = a.clone();
    merge_arrival_fields(&mut left, &bb);
    merge_arrival_fields(&mut left, &c);
    let mut right_inner = bb.clone();
    merge_arrival_fields(&mut right_inner, &c);
    let mut right = a.clone();
    merge_arrival_fields(&mut right, &right_inner);
    assert_eq!(left, right);
    assert_eq!(left, vec![rec(0.5, 0.9), rec(4.0, 0.4), rec(3.0, 0.3)]);
}

#[test]
fn caustic_detection() {
    assert!(crosses_caustic(b(1.0), b(-1.0)));
    assert!(crosses_caustic(b(1.0), b(0.0)));
    assert!(crosses_caustic(b(-1.0), b(2.0)));
    assert!(crosses_caustic(b(-1.0), b(-0.0)));
    assert!(!crosses_caustic(b(1.0), b(2.0)));
    assert!(!crosses_caustic(b(-1.0), b(-2.0)));
    assert!(!crosses_caustic(b(0.0), b(1.0)));
    assert!(!crosses_caustic(b(0.0), b(-1.0)));
    assert!(!crosses_caustic(b(f32::NAN), b(1.0)));
}

#[test]
fn reflection_boundary_surface_first() {
    assert_eq!(reflection_boundary(b(-0.1), b(-1.0), b(100.0)), BoundaryHit::Surface);
    assert_eq!(reflection_boundary(b(0.0), b(-1.0), b(0.0)), BoundaryHit::Surface);
    assert_eq!(reflection_boundary(b(0.0), b(1.0), b(0.0)), BoundaryHit::Bottom);
    assert_eq!(reflection_boundary(b(0.0), b(0.0), b(100.0)), BoundaryHit::NoHit);
    assert_eq!(reflection_boundary(b(100.0), b(0.5), b(100.0)), BoundaryHit::Bottom);
    assert_eq!(reflection_boundary(b(101.0), b(-0.5), b(100.0)), BoundaryHit::NoHit);
    assert_eq!(reflection_boundary(b(50.0), b(0.5), b(100.0)), BoundaryHit::NoHit);
}
