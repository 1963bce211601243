use spline_viz::bspline::{clamped_knots, KnotFraction};

fn values(knots: &[KnotFraction]) -> Vec<f32> {
    knots.iter().map(|k| k.num as f32 / k.den as f32).collect()
}

const EPS: f32 = 1e-4;

fn approx(a: f32, b: f32) -> bool {
    (a - b).abs() < EPS
}

#[test]
fn knots_length() {
    // n control points → n + 4 knots
    for n in 4..=8 {
        assert_eq!(clamped_knots(n).len(), n + 4);
    }
}

#[test]
fn knots_n4_is_all_clamped() {
    // [0,0,0,0, 1,1,1,1]
    let k = values(&clamped_knots(4));
    assert_eq!(&k[..4], &[0.0, 0.0, 0.0, 0.0]);
    assert_eq!(&k[4..], &[1.0, 1.0, 1.0, 1.0]);
}

#[test]
fn knots_n5_has_one_interior() {
    // [0,0,0,0, 0.5, 1,1,1,1]
    let k = values(&clamped_knots(5));
    assert!(approx(k[4], 0.5));
    assert_eq!(&k[5..], &[1.0, 1.0, 1.0, 1.0]);
}

#[test]
fn knots_n6_interior_spacing() {
    // [0,0,0,0, 1/3, 2/3, 1,1,1,1]
    let k = values(&clamped_knots(6));
    assert!(approx(k[4], 1.0 / 3.0));
    assert!(approx(k[5], 2.0 / 3.0));
}

#[test]
fn knots_start_and_end_clamped() {
    for n in 4..=9 {
        let k = values(&clamped_knots(n));
        assert_eq!(&k[..4], &[0.0, 0.0, 0.0, 0.0]);
        assert_eq!(&k[n..], &[1.0, 1.0, 1.0, 1.0]);
    }
}

#[test]
fn knots_exact_fractions() {
    let k = clamped_knots(6);
    assert_eq!(k[4], KnotFraction { num: 1, den: 3 });
    assert_eq!(k[5], KnotFraction { num: 2, den: 3 });
    assert_eq!(k[3], KnotFraction { num: 0, den: 1 });
    assert_eq!(k[6], KnotFraction { num: 1, den: 1 });
}

#[test]
fn knots_three_points_has_no_interior() {
    // n = 3: four zeros then three ones
    let k = values(&clamped_knots(3));
    assert_eq!(k, vec![0.0, 0.0, 0.0, 0.0, 1.0, 1.0, 1.0]);
}

#[test]
fn knots_nondecreasing_in_unit_interval() {
    for n in 3..40usize {
        let k = clamped_knots(n);
        for w in k.windows(2) {
            assert!(w[0].num * w[1].den <= w[1].num * w[0].den);
        }
        for x in &k {
            assert!(x.den > 0 && x.num <= x.den);
        }
    }
}
