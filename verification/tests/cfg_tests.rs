use wallrnd::cfg::{Pattern, SceneCfg, Tiling};
use wallrnd::chooser::Chooser;
use wallrnd::color::Color;
use wallrnd::frame::Frame;
use wallrnd::paint::{
    band_width_of, create_concentric_circles, create_crossed_stripes, create_free_circles,
    create_free_spirals, create_free_stripes, create_free_triangles, create_parallel_stripes,
    create_sawteeth, create_waves, discs, farthest_corner,
};
use wallrnd::pos::Pos;
use wallrnd::salt::{Salt, SaltItem};
use wallrnd::scene::{Contains, Scene, Shape};
use wallrnd::tesselate::TilingError;
use wallrnd::{ThemeItem, Verbosity};

fn red_cfg(pattern: Pattern, tiling: Tiling) -> SceneCfg {
    SceneCfg {
        theme: Chooser::new(vec![(ThemeItem(Color(200, 0, 0), None, None, Salt::none()), 1)]),
        weight: 100,
        deviation: 0,
        frame: Frame { x: 0, y: 0, w: 1000, h: 600 },
        pattern,
        tiling,
        nb_pattern: 5,
        var_stripes: 10,
        size_tiling: 5000,
        nb_delaunay: 100,
        width_pattern: 300,
        line_width: 100,
        line_color: Color(0, 0, 0),
        tightness_spiral: 1000,
    }
}

#[test]
fn concentric_circles_share_a_centre_and_grow_evenly() {
    let mut rng = rand::thread_rng();
    let cfg = red_cfg(Pattern::ConcentricCircles, Tiling::Hexagons);
    let items = create_concentric_circles(&mut rng, &cfg);
    assert_eq!(items.len(), 5);
    let center = items[0].center;
    let corners = [Pos(0, 0), Pos(100_000, 0), Pos(0, 60_000), Pos(100_000, 60_000)];
    let d = corners.iter().map(|c| center.dist(*c)).max().unwrap();
    assert_eq!(farthest_corner(&cfg.frame, center), d);
    for (k, disc) in items.iter().enumerate() {
        assert_eq!(disc.center, center);
        assert_eq!(disc.radius as i64, d * (k as i64 + 1) / 5);
        assert_eq!(disc.color.theme, Color(200, 0, 0));
        assert_eq!(disc.color.deviation, 0);
        assert_eq!(disc.color.weight, 100);
    }
    assert_eq!(items[4].radius as i64, d);
    let innermost = items[0].color.shade;
    let second = items[1].color.shade;
    let first_radius = items[0].radius;
    let scene = Scene { bg: cfg.choose_color(&mut rng), items: discs(items) };
    for p in [center, center.plus(Pos(first_radius - 1, 0)), center.minus(Pos(0, first_radius / 2))] {
        assert_eq!(scene.color(p, &mut rng), innermost);
    }
    assert_eq!(scene.color(center.plus(Pos(first_radius, 0)), &mut rng), second);
}

#[test]
fn scene_of_concentric_circles() {
    let mut rng = rand::thread_rng();
    let cfg = red_cfg(Pattern::ConcentricCircles, Tiling::Hexagons);
    let scene = Scene::new(&cfg, &mut rng);
    assert_eq!(scene.items.len(), 5);
    let mut radii = vec![];
    for s in &scene.items {
        match s {
            Shape::Disc(d) => radii.push(d.radius),
            _ => panic!("a shape that is no disc"),
        }
    }
    let mut sorted = radii.clone();
    sorted.sort();
    assert_eq!(radii, sorted);
    assert_eq!(scene.bg.theme, Color(200, 0, 0));
    // every point of the frame lies in the outermost disc
    for p in [Pos(1000, 1000), Pos(99_000, 59_000), Pos(50_000, 1000)] {
        assert!(scene.items[4].contains(p, &mut rng).is_some());
    }
}

#[test]
fn recipes_come_from_the_theme() {
    let mut rng = rand::thread_rng();
    let mut cfg = red_cfg(Pattern::FreeCircles, Tiling::Hexagons);
    let salt = Salt(vec![SaltItem { color: Color(1, 2, 3), likeliness: 5, variability: 1 }]);
    cfg.theme = Chooser::new(vec![
        (ThemeItem(Color(10, 20, 30), Some(7), None, salt), 1),
        (ThemeItem(Color(40, 50, 60), None, Some(33), Salt::none()), 3),
    ]);
    let mut seen = [0usize; 2];
    for _ in 0..400 {
        let c = cfg.choose_color(&mut rng);
        assert!((0..255).contains(&c.shade.0));
        if c.theme == Color(10, 20, 30) {
            assert_eq!((c.deviation, c.weight, c.salt.0.len()), (7, 100, 1));
            seen[0] += 1;
        } else {
            assert_eq!(c.theme, Color(40, 50, 60));
            assert_eq!((c.deviation, c.weight, c.salt.0.len()), (0, 33, 0));
            seen[1] += 1;
        }
    }
    assert!(seen[0] > 40 && seen[1] > 200);
    cfg.theme = Chooser::default();
    let c = cfg.choose_color(&mut rng);
    assert_eq!((c.theme, c.deviation, c.weight, c.salt.0.len()), (Color(0, 0, 0), 0, 100, 0));
}

#[test]
fn free_patterns_have_as_many_shapes_as_asked_for() {
    let mut rng = rand::thread_rng();
    let cfg = red_cfg(Pattern::FreeCircles, Tiling::Hexagons);
    let circles = create_free_circles(&mut rng, &cfg);
    assert_eq!(circles.len(), 5);
    for w in circles.windows(2) {
        assert!(w[0].radius <= w[1].radius);
    }
    for d in &circles {
        assert!(d.radius >= 6000 && d.radius < 6000 + 30_000);
    }
    assert_eq!(create_free_triangles(&mut rng, &cfg).len(), 5);
    let stripes = create_free_stripes(&mut rng, &cfg);
    assert_eq!(stripes.len(), 5);
    for s in &stripes {
        let width = s.reference.dist(s.limit);
        assert!(width >= 9000 - 1 && width <= 27_000);
    }
    let spirals = create_free_spirals(&mut rng, &cfg);
    assert_eq!(spirals.len(), 5);
    for w in spirals.windows(2) {
        assert!(w[0].width <= w[1].width);
    }
    for s in &spirals {
        assert!(s.width >= 9000 && s.width < 27_000);
        assert_eq!(s.tightness, 1000);
    }
    assert_eq!(band_width_of(600, 300, 0), 9000);
    assert_eq!(band_width_of(600, 300, 500), 18_000);
    let mut none = red_cfg(Pattern::FreeCircles, Tiling::Hexagons);
    none.nb_pattern = 0;
    assert_eq!(create_free_circles(&mut rng, &none).len(), 0);
    assert_eq!(create_concentric_circles(&mut rng, &none).len(), 0);
    assert_eq!(create_parallel_stripes(&mut rng, &none).len(), 1);
}

#[test]
fn rows_run_across_the_middle_of_the_frame() {
    let mut rng = rand::thread_rng();
    let cfg = red_cfg(Pattern::ParallelStripes, Tiling::Hexagons);
    let stripes = create_parallel_stripes(&mut rng, &cfg);
    assert_eq!(stripes.len(), 6);
    let first = stripes[0].limit;
    let last = stripes[5].limit;
    let mid = Pos::lerp(first, last, 1, 2);
    assert!((mid.0 - 50_000).abs() <= 1 && (mid.1 - 30_000).abs() <= 1);
    assert!((first.dist(last) - 160_000).abs() <= 2);
    for (i, s) in stripes.iter().enumerate() {
        assert_eq!(s.limit, Pos::lerp(first, last, i as u32, 5));
        assert!((s.reference.dist(s.limit) - 10_000).abs() <= 1);
    }
    let crossed = create_crossed_stripes(&mut rng, &cfg);
    assert_eq!(crossed.len(), 12);
    let along = crossed[10].limit.minus(crossed[0].limit);
    let across = crossed[11].limit.minus(crossed[1].limit);
    assert!(along.dot(across).abs() < 160_000 * 160_000 / 50);
    let waves = create_waves(&mut rng, &cfg);
    assert_eq!(waves.len(), 6);
    for w in &waves {
        assert!(w.amplitude == 16_000 || w.amplitude == 15_999);
        assert_eq!(w.frequency, 1910);
    }
    let saws = create_sawteeth(&mut rng, &cfg);
    assert_eq!(saws.len(), 6);
    for s in &saws {
        assert!(s.amplitude == 16_000 || s.amplitude == 15_999);
        assert_eq!(s.frequency, 16_667);
    }
}

#[test]
fn every_pattern_makes_its_shapes() {
    let mut rng = rand::thread_rng();
    let expected = [5, 5, 5, 5, 5, 6, 12, 6, 6];
    for i in 0..9 {
        let cfg = red_cfg(Pattern::nth(i), Tiling::Hexagons);
        let items = cfg.create_items(&mut rng);
        assert_eq!(items.len(), expected[i as usize]);
        let kind = |s: &Shape| match s {
            Shape::Disc(_) => 0,
            Shape::Triangle(_) => 1,
            Shape::Stripe(_) => 2,
            Shape::Spiral(_) => 3,
            Shape::HalfPlane(_) => 4,
            Shape::Wave(_) => 5,
            Shape::Sawtooth(_) => 6,
        };
        let wanted = [0, 1, 2, 3, 0, 4, 4, 5, 6][i as usize];
        assert!(items.iter().all(|s| kind(s) == wanted));
    }
}

#[test]
fn every_tiling_fills_the_frame() {
    let mut rng = rand::thread_rng();
    for i in 0..7 {
        let mut cfg = red_cfg(Pattern::FreeCircles, Tiling::nth(i));
        cfg.frame = Frame { x: 0, y: 0, w: 300, h: 200 };
        cfg.size_tiling = 2000;
        let tiles = cfg.make_tiling(&mut rng).unwrap();
        assert!(tiles.len() > 20);
        let corners = [6, 3, 0, 0, 4, 3, 5][i as usize];
        if corners > 0 {
            assert!(tiles.iter().all(|t| t.1.data.0.len() == corners));
        }
    }
    let cfg = red_cfg(Pattern::FreeCircles, Tiling::Delaunay);
    assert_eq!(cfg.lattice_tiling(0, 0).err(), Some(TilingError::DegenerateInput));
    let mut cfg = red_cfg(Pattern::FreeCircles, Tiling::Rhombus);
    cfg.frame = Frame { x: 0, y: 0, w: 100, h: 100 };
    let slim = cfg.lattice_tiling(0, 0).unwrap();
    assert_eq!(slim[0].1.data.0[1].minus(slim[0].0), Pos(0, 2000));
    let wide = cfg.lattice_tiling(0, 999).unwrap();
    assert_eq!(wide[0].1.data.0[1].minus(wide[0].0), Pos(0, 4997));
    cfg.size_tiling = 0;
    assert_eq!(cfg.make_tiling(&mut rng).err(), Some(TilingError::BadSize));
}

#[test]
fn patterns_and_tilings_by_number() {
    assert_eq!(Pattern::nth(0), Pattern::FreeCircles);
    assert_eq!(Pattern::nth(4), Pattern::ConcentricCircles);
    assert_eq!(Pattern::nth(8), Pattern::ParallelSawteeth);
    assert_eq!(Pattern::nth(99), Pattern::ParallelSawteeth);
    assert_eq!(Tiling::nth(0), Tiling::Hexagons);
    assert_eq!(Tiling::nth(5), Tiling::Delaunay);
    assert_eq!(Tiling::nth(6), Tiling::Pentagons);
    let mut rng = rand::thread_rng();
    let mut patterns = std::collections::HashSet::new();
    let mut tilings = std::collections::HashSet::new();
    for _ in 0..500 {
        patterns.insert(format!("{:?}", Pattern::choose_one(&mut rng)));
        tilings.insert(format!("{:?}", Tiling::choose_one(&mut rng)));
    }
    assert_eq!((patterns.len(), tilings.len()), (9, 7));
}

#[test]
fn verbosity_letters() {
    let v = Verbosity::from("IW");
    assert_eq!((v.info, v.warn, v.prog, v.details), (true, true, false, false));
    let v = Verbosity::from("A");
    assert_eq!((v.info, v.warn, v.prog, v.details), (true, true, true, true));
    let v = Verbosity::from("");
    assert_eq!(v, Verbosity::default());
    let v = Verbosity::from("DxP");
    assert_eq!((v.info, v.warn, v.prog, v.details), (false, false, true, true));
    assert_eq!(Verbosity::parse(b"DxP?").1, Some(1));
    assert_eq!(Verbosity::parse(b"PDIWA").1, None);
}
