//! Tests drive the library through its floating-point face: values are
//! turned into 64-bit order-preserving keys (the sign-flip encoding of the
//! IEEE bit pattern, with negative zero normalized), handed to the library,
//! and results are decoded back.

use piecewise::coord::{REAL_KEY_MAX, REAL_KEY_MIN, ZERO_KEY};
use piecewise::{Coord, Eval, Piecewise, PiecewiseErr};

const HIGH: u64 = 0x8000_0000_0000_0000;

fn key(v: f64) -> u64 {
    let v = if v == 0.0 { 0.0 } else { v };
    let b = v.to_bits();
    if b & HIGH != 0 {
        !b
    } else {
        b | HIGH
    }
}

fn val(k: u64) -> f64 {
    if k & HIGH != 0 {
        f64::from_bits(k ^ HIGH)
    } else {
        f64::from_bits(!k)
    }
}

fn coord(x: f64, y: f64) -> Coord {
    Coord::new(key(x), key(y)).unwrap()
}

fn eval(p: &Piecewise, x: f64) -> Result<f64, PiecewiseErr> {
    match p.y_at_x(key(x))? {
        Eval::Exact(y) => Ok(val(y)),
        Eval::Segment(a, b) => {
            let (x1, y1) = (val(a.x()), val(a.y()));
            let (x2, y2) = (val(b.x()), val(b.y()));
            let slope = (y1 - y2) / (x1 - x2);
            Ok(slope * (x - x1) + y1)
        }
    }
}

fn sidearm() -> Piecewise {
    let points = vec![coord(0.0, 18.0), coord(90.0, 36.0), coord(100.0, 42.0)];
    Piecewise::try_from(points).unwrap()
}

fn pairs_to_floats(pairs: Vec<(u64, u64)>) -> Vec<(f64, f64)> {
    pairs.into_iter().map(|(x, y)| (val(x), val(y))).collect()
}

fn floats_to_pairs(floats: &[(f64, f64)]) -> Vec<(u64, u64)> {
    floats.iter().map(|&(x, y)| (key(x), key(y))).collect()
}

#[test]
fn try_from() {
    let z = sidearm();
    assert_eq!(eval(&z, 33.0).unwrap().floor(), 24.0);
    assert_eq!(eval(&z, 93.0).unwrap().floor(), 37.0);
}

#[test]
fn serialize() {
    let z = sidearm();
    let floats = pairs_to_floats(z.to_pairs());
    assert_eq!(
        serde_json::to_string(&floats).unwrap(),
        "[[0.0,18.0],[90.0,36.0],[100.0,42.0]]"
    );
}

#[test]
fn deserialize() {
    let floats: Vec<(f64, f64)> = serde_json::from_str("[[0,18],[90,36.0],[100.0,42.0]]").unwrap();
    let z = Piecewise::from_pairs(floats_to_pairs(&floats)).unwrap();
    let out = pairs_to_floats(z.to_pairs());
    assert_eq!(
        serde_json::to_string(&out).unwrap(),
        "[[0.0,18.0],[90.0,36.0],[100.0,42.0]]"
    );
}

#[test]
fn interpolation_values() {
    let z = sidearm();
    assert!((eval(&z, 33.0).unwrap() - 24.6).abs() < 1e-9);
    assert!((eval(&z, 93.0).unwrap() - 37.8).abs() < 1e-9);
}

#[test]
fn exact_recovery() {
    let z = sidearm();
    assert_eq!(eval(&z, 0.0).unwrap(), 18.0);
    assert_eq!(eval(&z, 90.0).unwrap(), 36.0);
    assert_eq!(eval(&z, 100.0).unwrap(), 42.0);
    assert_eq!(eval(&z, -0.0).unwrap(), 18.0);
    let dup = Piecewise::try_from(vec![coord(1.0, 2.0), coord(1.0, 2.0), coord(3.0, 4.0)]).unwrap();
    assert_eq!(eval(&dup, 1.0).unwrap(), 2.0);
}

#[test]
fn domain_boundary() {
    let z = sidearm();
    assert_eq!(eval(&z, -0.5), Err(PiecewiseErr::NotInDomain));
    assert_eq!(eval(&z, 100.5), Err(PiecewiseErr::NotInDomain));
    assert_eq!(eval(&z, -1e300), Err(PiecewiseErr::NotInDomain));
    assert!(eval(&z, 0.0).is_ok());
    assert!(eval(&z, 100.0).is_ok());
    assert!(eval(&z, 50.0).is_ok());
}

#[test]
fn nan_rejection() {
    assert_eq!(
        Coord::new(key(f64::NAN), key(1.0)),
        Err(PiecewiseErr::InputNaN)
    );
    assert_eq!(
        Coord::new(key(1.0), key(-f64::NAN)),
        Err(PiecewiseErr::InputNaN)
    );
    let r = Piecewise::from_pairs(floats_to_pairs(&[(0.0, 1.0), (f64::NAN, 2.0)]));
    assert_eq!(r.unwrap_err(), PiecewiseErr::InputNaN);
    let z = sidearm();
    assert_eq!(eval(&z, f64::NAN), Err(PiecewiseErr::InputNaN));
}

#[test]
fn empty_rejection() {
    assert_eq!(
        Piecewise::try_from(Vec::new()).unwrap_err(),
        PiecewiseErr::InputEmpty
    );
    assert_eq!(
        Piecewise::from_pairs(Vec::new()).unwrap_err(),
        PiecewiseErr::InputEmpty
    );
}

#[test]
fn undefined_rejection() {
    let r = Piecewise::try_from(vec![coord(1.0, 2.0), coord(1.0, 3.0)]);
    assert_eq!(r.unwrap_err(), PiecewiseErr::InputUndefined);
    let r = Piecewise::from_pairs(floats_to_pairs(&[(1.0, 2.0), (1.0, 3.0)]));
    assert_eq!(r.unwrap_err(), PiecewiseErr::InputUndefined);
}

#[test]
fn round_trip() {
    let unsorted = Piecewise::try_from(vec![
        coord(100.0, 42.0),
        coord(0.0, 18.0),
        coord(90.0, 36.0),
    ])
    .unwrap();
    let canonical = sidearm();
    assert_eq!(unsorted.to_pairs(), canonical.to_pairs());
    let rebuilt = Piecewise::from_pairs(unsorted.to_pairs()).unwrap();
    assert_eq!(rebuilt.to_pairs(), canonical.to_pairs());
}

#[test]
fn single_point_domain() {
    let p = Piecewise::try_from(vec![coord(5.0, 7.0)]).unwrap();
    assert_eq!(eval(&p, 5.0).unwrap(), 7.0);
    assert_eq!(eval(&p, 5.0000001), Err(PiecewiseErr::NotInDomain));
    assert_eq!(eval(&p, 4.9999999), Err(PiecewiseErr::NotInDomain));
}

#[test]
fn infinite_coordinates() {
    assert_eq!(key(f64::NEG_INFINITY), REAL_KEY_MIN);
    assert_eq!(key(f64::INFINITY), REAL_KEY_MAX);
    let p = Piecewise::try_from(vec![coord(f64::NEG_INFINITY, 1.0), coord(0.0, 2.0)]).unwrap();
    assert_eq!(eval(&p, f64::NEG_INFINITY).unwrap(), 1.0);
}

#[test]
fn zero_coord() {
    let c = Coord::zero();
    assert_eq!(c.x(), ZERO_KEY);
    assert_eq!(c.y(), ZERO_KEY);
    assert_eq!(val(ZERO_KEY), 0.0);
    assert_eq!(key(0.0), ZERO_KEY);
}

#[test]
fn unchecked_accessors() {
    let c = Coord::new_unchecked(key(2.5), key(-3.5));
    assert_eq!(val(c.x()), 2.5);
    assert_eq!(val(c.y()), -3.5);
    assert_eq!(c, coord(2.5, -3.5));
}

#[test]
fn error_messages() {
    assert_eq!(
        PiecewiseErr::InputEmpty.message(),
        "The provided segment is empty"
    );
    assert_eq!(
        PiecewiseErr::InputUndefined.message(),
        "The function is undefined"
    );
    assert_eq!(
        PiecewiseErr::NotInDomain.message(),
        "The value is not in the domain"
    );
    assert_eq!(PiecewiseErr::InputNaN.message(), "The value provided is NaN");
}
