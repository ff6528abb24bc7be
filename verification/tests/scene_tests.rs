use wallrnd::color::Color;
use wallrnd::frame::Frame;
use wallrnd::pos::Pos;
use wallrnd::salt::{Salt, SaltItem};
use wallrnd::scene::{
    bearing_of, zigzag_at, ColorItem, Contains, Disc, HalfPlane, Sawtooth, Scene, Shape,
    ShapeError, Spiral, Stripe, Triangle, Wave,
};

fn plain(shade: Color) -> ColorItem {
    ColorItem { shade, deviation: 0, theme: Color(0, 0, 0), weight: 100, salt: Salt::none() }
}

#[test]
fn disc_holds_what_is_nearer_than_its_radius() {
    let d = Disc { center: Pos(1000, 1000), radius: 500, color: plain(Color(9, 9, 9)) };
    let mut rng = rand::thread_rng();
    assert!(d.includes(Pos(1000, 1000)));
    assert!(d.includes(Pos(1499, 1000)));
    assert!(d.includes(Pos(1300, 1399)));
    assert!(!d.includes(Pos(1500, 1000)));
    assert!(!d.includes(Pos(1300, 1400)));
    assert!(!d.includes(Pos(1000, 499)));
    assert_eq!(d.contains(Pos(1499, 1000), &mut rng), Some(Color(9, 9, 9)));
    assert_eq!(d.contains(Pos(1500, 1000), &mut rng), None);
}

#[test]
fn disc_agrees_with_the_distance_everywhere() {
    let d = Disc { center: Pos(-30, 40), radius: 25, color: plain(Color(0, 0, 0)) };
    for x in -70..10 {
        for y in 0..80 {
            let dx = (x + 30) as i64;
            let dy = (y - 40) as i64;
            assert_eq!(d.includes(Pos(x, y)), dx * dx + dy * dy < 625);
        }
    }
}

#[test]
fn half_plane_holds_the_side_away_from_its_reference() {
    let h = HalfPlane { limit: Pos(100, 0), reference: Pos(200, 0), color: plain(Color(1, 2, 3)) };
    assert!(h.includes(Pos(99, 500)));
    assert!(h.includes(Pos(-1000, -70)));
    assert!(!h.includes(Pos(100, 3)));
    assert!(!h.includes(Pos(101, 3)));
    let t = HalfPlane::toward(Pos(0, 0), 90, plain(Color(0, 0, 0)));
    assert_eq!(t.reference, Pos(0, 10_000));
    assert!(t.includes(Pos(5, -1)));
    assert!(!t.includes(Pos(5, 1)));
}

#[test]
fn half_plane_faces_within_its_variance() {
    let mut rng = rand::thread_rng();
    for _ in 0..200 {
        let h = HalfPlane::random(&mut rng, Pos(10, 20), 90, 2, plain(Color(0, 0, 0)));
        let wanted: Vec<Pos> = (88..=92).map(|a| Pos(10, 20).plus(Pos::polar(a, 10_000))).collect();
        assert!(wanted.contains(&h.reference));
    }
    let h = HalfPlane::random(&mut rng, Pos(0, 0), 180, 0, plain(Color(0, 0, 0)));
    assert_eq!(h.reference, Pos(-10_000, 0));
}

#[test]
fn triangle_holds_its_inside_in_either_order() {
    let c = plain(Color(0, 0, 0));
    let t = Triangle { a: Pos(0, 0), b: Pos(100, 0), c: Pos(0, 100), color: c.duplicate() };
    let u = Triangle { a: Pos(0, 0), b: Pos(0, 100), c: Pos(100, 0), color: c };
    for tri in [&t, &u] {
        assert!(tri.includes(Pos(10, 10)));
        assert!(tri.includes(Pos(49, 50)));
        assert!(!tri.includes(Pos(60, 60)));
        assert!(!tri.includes(Pos(-1, 10)));
        assert!(!tri.includes(Pos(10, -1)));
    }
}

#[test]
fn inscribed_triangle_has_its_corners_on_the_circle() {
    let d = Disc { center: Pos(100, 100), radius: 1000, color: plain(Color(5, 5, 5)) };
    let t = Triangle::inscribed(d, 0, 90, 90);
    assert_eq!((t.a, t.b, t.c), (Pos(1100, 100), Pos(100, 1100), Pos(-900, 100)));
    assert_eq!(t.color.shade, Color(5, 5, 5));
    let mut rng = rand::thread_rng();
    let d = Disc { center: Pos(0, 0), radius: 1000, color: plain(Color(5, 5, 5)) };
    let t = Triangle::random(&mut rng, d);
    for p in [t.a, t.b, t.c] {
        assert!((p.norm() - 1000).abs() <= 1);
    }
}

#[test]
fn stripe_holds_the_band_between_its_lines() {
    let s = Stripe { limit: Pos(0, 0), reference: Pos(100, 0), color: plain(Color(0, 0, 0)) };
    assert!(s.includes(Pos(1, 900)));
    assert!(s.includes(Pos(99, -900)));
    assert!(!s.includes(Pos(0, 5)));
    assert!(!s.includes(Pos(100, 5)));
    assert!(!s.includes(Pos(150, 5)));
    let a = Stripe::across(Pos(10, 10), 90, plain(Color(0, 0, 0)), 300);
    assert_eq!(a.reference, Pos(10, 310));
}

#[test]
fn bearings_in_whole_degrees() {
    assert_eq!(bearing_of(0, 0), 0);
    assert_eq!(bearing_of(100, 0), 0);
    assert_eq!(bearing_of(0, 100), 90);
    assert_eq!(bearing_of(-100, 0), -180);
    assert_eq!(bearing_of(0, -100), -90);
    assert_eq!(bearing_of(100, 100), 45);
    assert_eq!(bearing_of(1000, 1), 0);
    assert_eq!(bearing_of(1000, -1), -1);
    for a in -179..180 {
        let x = ((a as f64 + 0.5).to_radians().cos() * 1.0e6) as i64;
        let y = ((a as f64 + 0.5).to_radians().sin() * 1.0e6) as i64;
        assert_eq!(bearing_of(x, y), a);
    }
}

#[test]
fn spiral_bands_alternate() {
    let s = Spiral { center: Pos(0, 0), width: 100, tightness: 0, color: plain(Color(0, 0, 0)) };
    // along the direction where the bearing is zero the bands are rings
    assert!(s.includes(Pos(0, -50)));
    assert!(!s.includes(Pos(0, -150)));
    assert!(s.includes(Pos(0, -250)));
    assert!(!s.includes(Pos(0, -350)));
    // a quarter turn on, the bands have moved by half their width
    assert!(s.includes(Pos(-40, 0)));
    assert!(!s.includes(Pos(-60, 0)));
    assert!(!s.includes(Pos(-140, 0)));
    assert!(s.includes(Pos(-160, 0)));
    let none = Spiral { center: Pos(0, 0), width: 0, tightness: 0, color: plain(Color(0, 0, 0)) };
    assert!(!none.includes(Pos(0, 0)));
    assert!(!none.includes(Pos(5, 5)));
}

#[test]
fn wave_boundary_follows_the_cosine() {
    // one degree of phase for each canvas unit along the line
    let w = Wave {
        limit: Pos(0, 0),
        reference: Pos(10_000, 0),
        amplitude: 1000,
        frequency: 1000,
        color: plain(Color(0, 0, 0)),
    };
    assert!(w.includes(Pos(999, 0)));
    assert!(!w.includes(Pos(1000, 0)));
    assert!(w.includes(Pos(499, 6000)));
    assert!(!w.includes(Pos(501, 6000)));
    assert!(w.includes(Pos(-1, 9000)));
    assert!(!w.includes(Pos(0, 9000)));
    assert!(w.includes(Pos(-1001, 18_000)));
    assert!(!w.includes(Pos(-999, 18_000)));
    assert!(w.includes(Pos(499, -6000)));
    let flat = Wave {
        limit: Pos(3, 3),
        reference: Pos(3, 3),
        amplitude: 1000,
        frequency: 1000,
        color: plain(Color(0, 0, 0)),
    };
    assert!(!flat.includes(Pos(-500, 3)));
}

#[test]
fn zigzag_rises_and_falls() {
    assert_eq!(zigzag_at(0), 0);
    assert_eq!(zigzag_at(250), 250);
    assert_eq!(zigzag_at(1000), 1000);
    assert_eq!(zigzag_at(1250), 750);
    assert_eq!(zigzag_at(2000), 0);
    assert_eq!(zigzag_at(2250), -250);
    assert_eq!(zigzag_at(3000), -1000);
    assert_eq!(zigzag_at(3250), -750);
    assert_eq!(zigzag_at(4000), 0);
    assert_eq!(zigzag_at(-250), -250);
    assert_eq!(zigzag_at(-1250), -750);
}

#[test]
fn sawtooth_boundary_follows_the_zigzag() {
    // a thousandth of a rise for each hundredth of a canvas unit along the line
    let s = Sawtooth {
        limit: Pos(0, 0),
        reference: Pos(0, 10_000),
        amplitude: 1000,
        frequency: 100_000,
        color: plain(Color(0, 0, 0)),
    };
    assert!(!s.includes(Pos(0, 0)));
    assert!(s.includes(Pos(0, -1)));
    assert!(s.includes(Pos(500, 499)));
    assert!(!s.includes(Pos(500, 500)));
    assert!(s.includes(Pos(1500, 499)));
    assert!(!s.includes(Pos(1500, 500)));
    assert!(s.includes(Pos(2500, -501)));
    assert!(!s.includes(Pos(2500, -500)));
}

#[test]
fn wave_frequencies_follow_the_width() {
    let mut rng = rand::thread_rng();
    let w = Wave::random(&mut rng, Pos(0, 0), 0, 60, 7, plain(Color(0, 0, 0)));
    assert_eq!(w.reference, Pos(10_000, 0));
    assert_eq!(w.frequency, 1910);
    assert_eq!(w.amplitude, 7);
    let s = Sawtooth::random(&mut rng, Pos(0, 0), 90, 60, 7, plain(Color(0, 0, 0)));
    assert_eq!(s.reference, Pos(0, 10_000));
    assert_eq!(s.frequency, 16_667);
    let z = Wave::random(&mut rng, Pos(0, 0), 0, 0, 7, plain(Color(0, 0, 0)));
    assert_eq!(z.frequency, 0);
}

#[test]
fn sample_without_noise_is_the_blend() {
    let mut rng = rand::thread_rng();
    let c = ColorItem {
        shade: Color(200, 0, 0),
        deviation: 0,
        theme: Color(0, 100, 0),
        weight: 40,
        salt: Salt::none(),
    };
    assert_eq!(c.sample(&mut rng), Color(80, 60, 0));
}

#[test]
fn certain_salt_takes_the_place_of_the_colour() {
    let mut rng = rand::thread_rng();
    let never = SaltItem { color: Color(1, 1, 1), likeliness: 0, variability: 0 };
    let always = SaltItem { color: Color(7, 8, 9), likeliness: 1_000_000, variability: 0 };
    let later = SaltItem { color: Color(3, 3, 3), likeliness: 1_000_000, variability: 0 };
    assert_eq!(never.sample(&mut rng), None);
    assert_eq!(always.sample(&mut rng), Some(Color(7, 8, 9)));
    assert!(always.fires(999_999) && !never.fires(0));
    let salt = Salt(vec![never, always, later]);
    assert_eq!(salt.sample(&mut rng), Some(Color(7, 8, 9)));
    assert_eq!(Salt::none().sample(&mut rng), None);
    assert_eq!(Salt(vec![never]).sample(&mut rng), None);
    let c = ColorItem {
        shade: Color(200, 0, 0),
        deviation: 0,
        theme: Color(0, 100, 0),
        weight: 40,
        salt,
    };
    assert_eq!(c.sample(&mut rng), Color(7, 8, 9));
}

#[test]
fn salt_shows_up_as_often_as_it_is_likely() {
    let mut rng = rand::thread_rng();
    let item = SaltItem { color: Color(1, 1, 1), likeliness: 250_000, variability: 0 };
    let n = 20_000;
    let hits = (0..n).filter(|_| item.sample(&mut rng).is_some()).count();
    assert!((hits as f64 / n as f64 - 0.25).abs() < 0.03);
}

#[test]
fn topmost_shape_gives_the_colour() {
    let mut rng = rand::thread_rng();
    let scene = Scene {
        bg: plain(Color(1, 1, 1)),
        items: vec![
            Shape::Disc(Disc { center: Pos(0, 0), radius: 100, color: plain(Color(10, 0, 0)) }),
            Shape::Disc(Disc { center: Pos(0, 0), radius: 200, color: plain(Color(20, 0, 0)) }),
            Shape::HalfPlane(HalfPlane {
                limit: Pos(1000, 0),
                reference: Pos(0, 0),
                color: plain(Color(30, 0, 0)),
            }),
        ],
    };
    assert_eq!(scene.color(Pos(50, 0), &mut rng), Color(10, 0, 0));
    assert_eq!(scene.color(Pos(150, 0), &mut rng), Color(20, 0, 0));
    assert_eq!(scene.color(Pos(1500, 0), &mut rng), Color(30, 0, 0));
    assert_eq!(scene.color(Pos(500, 0), &mut rng), Color(1, 1, 1));
    let empty = Scene { bg: plain(Color(4, 5, 6)), items: vec![] };
    assert_eq!(empty.color(Pos(0, 0), &mut rng), Color(4, 5, 6));
}

#[test]
fn random_discs_keep_to_their_size() {
    let mut rng = rand::thread_rng();
    let f = Frame { x: 0, y: 0, w: 1000, h: 600 };
    let d = Disc::sized(&f, Pos(0, 0), plain(Color(0, 0, 0)), 500, 0);
    assert_eq!(d.radius, 6000);
    let d = Disc::sized(&f, Pos(0, 0), plain(Color(0, 0, 0)), 500, 999);
    assert_eq!(d.radius, 35_970);
    for _ in 0..100 {
        let d = Disc::random(&mut rng, &f, plain(Color(0, 0, 0)), 250);
        assert!(d.radius >= 6000 && d.radius < 6000 + 15_000);
        assert!(f.is_inside(d.center) || d.center.0 == -10_000 || d.center.1 == -6000);
    }
}

#[test]
fn boundaries_need_a_direction() {
    let c = || plain(Color(0, 0, 0));
    assert_eq!(Wave::new(Pos(1, 1), Pos(1, 1), 5, 5, c()).err(), Some(ShapeError::NoDirection));
    assert_eq!(Sawtooth::new(Pos(1, 1), Pos(1, 1), 5, 5, c()).err(), Some(ShapeError::NoDirection));
    let w = Wave::new(Pos(1, 1), Pos(1, 2), 5, 6, c()).unwrap();
    assert_eq!((w.limit, w.reference, w.amplitude, w.frequency), (Pos(1, 1), Pos(1, 2), 5, 6));
    let s = Sawtooth::new(Pos(1, 1), Pos(2, 1), 5, 6, c()).unwrap();
    assert_eq!((s.limit, s.reference, s.amplitude, s.frequency), (Pos(1, 1), Pos(2, 1), 5, 6));
}
