use wallrnd::color::Color;
use wallrnd::fixed::isqrt;
use wallrnd::frame::Frame;
use wallrnd::pos::{crossprod_sign, Pos};
use wallrnd::trig::{cos_deg, div_cos, mul_cos, mul_sin, mul_tan, normalize, sin_deg};

#[test]
fn sines_of_whole_degrees() {
    assert_eq!(sin_deg(0), 0);
    assert_eq!(sin_deg(30), 500_000);
    assert_eq!(sin_deg(90), 1_000_000);
    assert_eq!(sin_deg(150), 500_000);
    assert_eq!(sin_deg(210), -500_000);
    assert_eq!(sin_deg(270), -1_000_000);
    assert_eq!(sin_deg(-30), -500_000);
    assert_eq!(sin_deg(390), 500_000);
    assert_eq!(cos_deg(0), 1_000_000);
    assert_eq!(cos_deg(60), 500_000);
    assert_eq!(cos_deg(30), 866_025);
    assert_eq!(cos_deg(180), -1_000_000);
    assert_eq!(cos_deg(-120), -500_000);
}

#[test]
fn table_agrees_with_the_real_sine() {
    for a in -720..720 {
        let want = (a as f64).to_radians().sin() * 1_000_000.0;
        assert!((sin_deg(a) as f64 - want).abs() <= 0.5001, "sine of {}", a);
        let want = (a as f64).to_radians().cos() * 1_000_000.0;
        assert!((cos_deg(a) as f64 - want).abs() <= 0.5001, "cosine of {}", a);
    }
}

#[test]
fn angles_are_brought_into_one_turn() {
    assert_eq!(normalize(0), 0);
    assert_eq!(normalize(360), 0);
    assert_eq!(normalize(-1), 359);
    assert_eq!(normalize(725), 5);
    assert_eq!(normalize(i32::MIN), 232);
}

#[test]
fn lengths_are_scaled_and_rounded() {
    assert_eq!(mul_cos(10_000, 30), 8660);
    assert_eq!(mul_sin(10_000, 30), 5000);
    assert_eq!(mul_cos(-10_000, 30), -8660);
    assert_eq!(mul_sin(3, 30), 2);
    assert_eq!(mul_sin(-3, 30), -2);
    assert_eq!(div_cos(8660, 30), 10_000);
    assert_eq!(div_cos(100, 90), 0);
    assert_eq!(mul_tan(10_000, 45), 10_000);
    assert_eq!(mul_tan(10_000, 30), 5774);
}

#[test]
fn polar_vectors() {
    assert_eq!(Pos::polar(0, 500), Pos(500, 0));
    assert_eq!(Pos::polar(90, 500), Pos(0, 500));
    assert_eq!(Pos::polar(180, 500), Pos(-500, 0));
    assert_eq!(Pos::polar(-90, 500), Pos(0, -500));
    assert_eq!(Pos::polar(60, 1000), Pos(500, 866));
    assert_eq!(Pos::polar_sum(350, 70, 1000), Pos(500, 866));
    for a in 0..360 {
        let p = Pos::polar(a, 12_345);
        let q = Pos::polar(a + 180, 12_345);
        assert_eq!(q, p.neg());
    }
}

#[test]
fn vector_arithmetic() {
    let a = Pos(3, -4);
    let b = Pos(10, 20);
    assert_eq!(a.plus(b), Pos(13, 16));
    assert_eq!(a.minus(b), Pos(-7, -24));
    assert_eq!(a.times(3), Pos(9, -12));
    assert_eq!(b.over(3), Pos(3, 7));
    assert_eq!(Pos(-10, -20).over(3), Pos(-3, -7));
    assert_eq!(a.dot(b), -50);
    assert_eq!(a.cross(b), 100);
    assert_eq!(a.dot_self(), 25);
    assert_eq!(a.norm(), 5);
    assert_eq!(a.dist(Pos(0, 0)), 5);
    assert_eq!(a.dist2(b), 49 + 576);
    assert_eq!(a.into_tuple(), (3, -4));
    assert_eq!(Pos::zero(), Pos(0, 0));
}

#[test]
fn projection_on_a_direction() {
    assert_eq!(Pos(300, 400).project(Pos(10, 0)), Pos(300, 0));
    assert_eq!(Pos(300, 400).project(Pos(0, -7)), Pos(0, 400));
    assert_eq!(Pos(300, 400).project(Pos(1, 1)), Pos(350, 350));
    assert_eq!(Pos(300, 400).project(Pos(-400, 300)), Pos(0, 0));
    assert_eq!(Pos(300, 400).project(Pos(0, 0)), Pos(0, 0));
    assert_eq!(Pos(-10, 0).project(Pos(3, 1)), Pos(-9, -3));
}

#[test]
fn arithmetic_saturates_at_the_ends_of_the_range() {
    let far = Pos(i32::MAX, i32::MIN);
    assert_eq!(far.plus(Pos(1, -1)), far);
    assert_eq!(far.minus(Pos(-5, 5)), far);
    assert_eq!(far.times(2), far);
    assert_eq!(Pos(i32::MIN, 0).neg(), Pos(i32::MAX, 0));
    assert_eq!(far.dot_self(), (i32::MAX as i128).pow(2) + (i32::MIN as i128).pow(2));
}

#[test]
fn integer_square_roots() {
    assert_eq!(isqrt(0), 0);
    assert_eq!(isqrt(1), 1);
    assert_eq!(isqrt(3), 1);
    assert_eq!(isqrt(4), 2);
    assert_eq!(isqrt(99), 9);
    assert_eq!(isqrt(100), 10);
    assert_eq!(isqrt(1 << 66), 1 << 33);
    assert_eq!(isqrt((1 << 66) - 1), (1 << 33) - 1);
}

#[test]
fn side_of_a_line() {
    assert!(crossprod_sign(Pos(1, 0), Pos(0, 1), Pos(0, 0)));
    assert!(!crossprod_sign(Pos(0, 1), Pos(1, 0), Pos(0, 0)));
    assert!(!crossprod_sign(Pos(2, 2), Pos(1, 1), Pos(0, 0)));
}

#[test]
fn lines_meet() {
    let p = Pos::intersect((Pos(0, 0), 0), (Pos(700, -300), 90));
    assert_eq!(p, Some(Pos(700, 0)));
    let p = Pos::intersect((Pos(0, 0), 45), (Pos(1000, 0), 135));
    assert_eq!(p, Some(Pos(500, 500)));
    assert_eq!(Pos::intersect((Pos(0, 0), 10), (Pos(5, 5), 10)), None);
    assert_eq!(Pos::intersect((Pos(0, 0), 10), (Pos(5, 5), 190)), None);
}

#[test]
fn interpolation() {
    let a = Pos(0, 100);
    let b = Pos(1000, -100);
    assert_eq!(Pos::lerp(a, b, 0, 4), a);
    assert_eq!(Pos::lerp(a, b, 4, 4), b);
    assert_eq!(Pos::lerp(a, b, 1, 4), Pos(250, 50));
    assert_eq!(Pos::lerp(a, b, 0, 0), a);
}

#[test]
fn frame_corners_and_center() {
    let f = Frame { x: 3, y: 5, w: 1000, h: 601 };
    assert_eq!(f.into_tuple(), (3, 5, 1003, 606));
    assert_eq!(f.center(), Pos(50_300, 30_500));
}

#[test]
fn frame_admits_a_margin_of_a_tenth() {
    let f = Frame { x: 0, y: 0, w: 1000, h: 600 };
    assert!(f.is_inside(Pos(0, 0)));
    assert!(f.is_inside(Pos(-9_999, -5_999)));
    assert!(!f.is_inside(Pos(-10_000, 0)));
    assert!(!f.is_inside(Pos(0, -6_000)));
    assert!(f.is_inside(Pos(109_999, 65_999)));
    assert!(!f.is_inside(Pos(110_000, 100)));
    assert!(!f.is_inside(Pos(100, 66_000)));
}

#[test]
fn random_points_lie_in_the_widened_frame() {
    let f = Frame { x: 10, y: 20, w: 200, h: 100 };
    let mut rng = rand::thread_rng();
    for _ in 0..500 {
        let p = Pos::random(&f, &mut rng);
        assert!(p.0 >= 1000 - 2000 && p.0 < 1000 - 2000 + 24_000);
        assert!(p.1 >= 2000 - 1000 && p.1 < 2000 - 1000 + 12_000);
    }
    let flat = Frame { x: 1, y: 2, w: 0, h: 0 };
    assert_eq!(Pos::random(&flat, &mut rng), Pos(100, 200));
    assert_eq!(Pos::placed(&f, 7, 9), Pos(-993, 1009));
}

#[test]
fn blend_of_two_colours() {
    let a = Color(200, 0, 50);
    let b = Color(0, 100, 50);
    assert_eq!(a.meanpoint(b, 100), a);
    assert_eq!(a.meanpoint(b, 0), b);
    assert_eq!(a.meanpoint(b, 40), Color(80, 60, 50));
    assert_eq!(a.meanpoint(b, 33), Color(66, 67, 50));
    assert_eq!(Color(-7, -7, -7).meanpoint(Color(0, 0, 0), 50), Color(-4, -4, -4));
}

#[test]
fn blend_with_itself_changes_nothing() {
    for c in [Color(0, 0, 0), Color(255, 17, 1), Color(-300, 999, 128), Color(i32::MAX, i32::MIN, 5)] {
        for w in 0..=100 {
            assert_eq!(c.meanpoint(c, w), c);
        }
    }
}

#[test]
fn shown_colours_are_within_range() {
    assert_eq!(Color(-5, 300, 128).validate(), Color(0, 255, 128));
    assert_eq!(Color(0, 255, 7).validate(), Color(0, 255, 7));
    assert_eq!(Color(i32::MIN, i32::MAX, 256).validate(), Color(0, 255, 255));
    let mut rng = rand::thread_rng();
    for _ in 0..200 {
        let c = Color(250, 3, 128).variate(&mut rng, 40).meanpoint(Color(-90, 400, 0), 70).validate();
        assert!((0..=255).contains(&c.0) && (0..=255).contains(&c.1) && (0..=255).contains(&c.2));
    }
}

#[test]
fn noise_stays_below_its_amount() {
    let mut rng = rand::thread_rng();
    let c = Color(100, 0, 255);
    assert_eq!(c.variate(&mut rng, 0), c);
    assert_eq!(c.variate(&mut rng, 1), c);
    let mut moved = false;
    for _ in 0..300 {
        let v = c.variate(&mut rng, 10);
        assert!((v.0 - 100).abs() < 10 && v.1.abs() < 10 && (v.2 - 255).abs() < 10);
        moved = moved || v != c;
    }
    assert!(moved);
    assert_eq!(c.shifted(-200, 5, 1), Color(-100, 5, 256));
    assert_eq!(Color(i32::MAX, 0, 0).shifted(1, 0, 0), Color(i32::MAX, 0, 0));
}

#[test]
fn random_colours_stay_below_255() {
    let mut rng = rand::thread_rng();
    for _ in 0..300 {
        let c = Color::random(&mut rng);
        assert!((0..255).contains(&c.0) && (0..255).contains(&c.1) && (0..255).contains(&c.2));
    }
}
