use std::collections::HashSet;
use wallrnd::delaunay::{delaunay_tiles, random_delaunay, scatter, triangulate_tiling};
use wallrnd::frame::Frame;
use wallrnd::pentagon::{
    pentagons_type1, pentagons_type2, pentagons_type3, pentagons_type4, pentagons_type5, Pentagon,
};
use wallrnd::pos::Pos;
use wallrnd::shape::Movable;
use wallrnd::svg::Path;
use wallrnd::tesselate::{
    periodic_grid_tiling, tile_hexagons, tile_hybrid_hexagons_triangles,
    tile_hybrid_squares_triangles, tile_rhombus, tile_triangles, Placement, TilingError,
};

fn anchors(tiles: &[(Pos, Path)]) -> Vec<Pos> {
    tiles.iter().map(|t| t.0).collect()
}

fn error_of(r: Result<Vec<(Pos, Path)>, TilingError>) -> Option<TilingError> {
    r.err()
}

#[test]
fn hexagons_form_a_triangular_lattice() {
    let f = Frame { x: 0, y: 0, w: 200, h: 200 };
    let tiles = tile_hexagons(&f, 5000, 0).unwrap();
    let at = anchors(&tiles);
    let set: HashSet<Pos> = at.iter().cloned().collect();
    assert_eq!(set.len(), at.len());
    assert!(at.contains(&Pos(10_000, 10_000)));
    let idir = Pos(7500, -4330);
    let jdir = Pos(7500, 4330);
    for p in &at {
        assert!(f.is_inside(*p));
        assert!(-2000 < p.0 && p.0 < 22_000 && -2000 < p.1 && p.1 < 22_000);
        // every neighbour in the widened frame is an anchor too
        for q in [p.plus(jdir), p.minus(jdir), p.plus(idir), p.minus(idir)] {
            assert_eq!(f.is_inside(q), set.contains(&q));
        }
        // the nearest anchors are one pitch away
        let nearest = at.iter().filter(|q| *q != p).map(|q| p.dist(*q)).min().unwrap();
        assert!((nearest - 8660).abs() <= 1);
    }
    // the lattice has rows 43.3 apart, and every second row is shifted by half a pitch
    for p in &at {
        let i_plus_j = (p.0 - 10_000) / 7500;
        assert_eq!((p.0 - 10_000) % 7500, 0);
        assert_eq!((p.1 - 10_000) % 4330, 0);
        let j_minus_i = (p.1 - 10_000) / 4330;
        assert_eq!((i_plus_j + j_minus_i).rem_euclid(2), 0);
    }
    assert_eq!(at.len(), 7);
    for t in &tiles {
        assert_eq!(t.1.data.0.len(), 6);
        for v in &t.1.data.0 {
            assert!((v.dist(t.0) - 5000).abs() <= 1);
        }
        assert_eq!(t.1.stroke_width, 0);
    }
}

#[test]
fn every_lattice_point_of_the_frame_is_drawn_once() {
    let f = Frame { x: 10, y: 20, w: 300, h: 150 };
    for rot in [0, 13, 45, 90, 200, 359] {
        let tiles = tile_hexagons(&f, 1500, rot).unwrap();
        let at = anchors(&tiles);
        let set: HashSet<Pos> = at.iter().cloned().collect();
        assert_eq!(set.len(), at.len());
        // the frame has room for this many hexagons, give or take those on its edge
        let area = 360.0 * 180.0;
        let cell = 1.5 * 3f64.sqrt() * 15.0 * 15.0;
        let expected = area / cell;
        assert!((at.len() as f64) > 0.8 * expected && (at.len() as f64) < 1.2 * expected);
        for p in &at {
            assert!(f.is_inside(*p));
        }
    }
}

#[test]
fn cells_hold_the_copies_of_each_tiling() {
    let f = Frame { x: 0, y: 0, w: 100, h: 100 };
    let hex = tile_hexagons(&f, 1000, 30).unwrap();
    let tri = tile_triangles(&f, 1000, 30).unwrap();
    let hyb = tile_hybrid_hexagons_triangles(&f, 1000, 30).unwrap();
    let squ = tile_hybrid_squares_triangles(&f, 1000, 30).unwrap();
    let rho = tile_rhombus(&f, 1000, 600, 30).unwrap();
    assert!(hex.len() > 0 && tri.len() == 2 * hex.len());
    assert_eq!(hyb.len() % 3, 0);
    assert_eq!(squ.len() % 20, 0);
    assert!(rho.iter().all(|t| t.1.data.0.len() == 4));
    assert!(tri.iter().all(|t| t.1.data.0.len() == 3));
    let sides: Vec<usize> = squ.iter().take(20).map(|t| t.1.data.0.len()).collect();
    assert_eq!(sides, vec![3, 3, 3, 4, 3, 3, 4, 3, 3, 4, 3, 3, 4, 3, 3, 4, 3, 3, 4, 3]);
    let sides: Vec<usize> = hyb.iter().take(3).map(|t| t.1.data.0.len()).collect();
    assert_eq!(sides, vec![6, 3, 3]);
}

#[test]
fn tilings_work_at_every_angle() {
    let f = Frame { x: 0, y: 0, w: 60, h: 40 };
    for rot in -10..370 {
        assert!(tile_hexagons(&f, 700, rot).unwrap().len() > 0);
        assert!(tile_triangles(&f, 700, rot).unwrap().len() > 0);
        assert!(tile_hybrid_hexagons_triangles(&f, 700, rot).unwrap().len() > 0);
        assert!(tile_hybrid_squares_triangles(&f, 700, rot).unwrap().len() > 0);
        assert!(tile_rhombus(&f, 700, 400, rot).unwrap().len() > 0);
    }
}

#[test]
fn pentagons_close_at_every_angle() {
    let f = Frame { x: 0, y: 0, w: 60, h: 40 };
    for rot in 0..360 {
        let a = pentagons_type1(&f, 700, rot).unwrap();
        let b = pentagons_type2(&f, 700, rot).unwrap();
        let c = pentagons_type3(&f, 700, rot).unwrap();
        let d = pentagons_type4(&f, 700, rot).unwrap();
        let e = pentagons_type5(&f, 700, rot).unwrap();
        assert!(a.len() > 0 && a.len() % 2 == 0);
        assert!(b.len() > 0 && b.len() % 4 == 0);
        assert!(c.len() > 0 && c.len() % 3 == 0);
        assert!(d.len() > 0 && d.len() % 4 == 0);
        assert!(e.len() > 0 && e.len() % 18 == 0);
        for t in a.iter().chain(&b).chain(&c).chain(&d).chain(&e) {
            assert_eq!(t.1.data.0.len(), 5);
        }
    }
}

#[test]
fn sizes_must_be_positive() {
    let f = Frame { x: 0, y: 0, w: 100, h: 100 };
    for size in [0, -1, -700, i32::MIN] {
        assert_eq!(error_of(tile_hexagons(&f, size, 0)), Some(TilingError::BadSize));
        assert_eq!(error_of(tile_triangles(&f, size, 0)), Some(TilingError::BadSize));
        assert_eq!(error_of(tile_hybrid_hexagons_triangles(&f, size, 0)), Some(TilingError::BadSize));
        assert_eq!(error_of(tile_hybrid_squares_triangles(&f, size, 0)), Some(TilingError::BadSize));
        assert_eq!(error_of(tile_rhombus(&f, size, 100, 0)), Some(TilingError::BadSize));
        assert_eq!(error_of(tile_rhombus(&f, 100, size, 0)), Some(TilingError::BadSize));
        assert_eq!(error_of(pentagons_type1(&f, size, 0)), Some(TilingError::BadSize));
        assert_eq!(error_of(pentagons_type2(&f, size, 0)), Some(TilingError::BadSize));
        assert_eq!(error_of(pentagons_type3(&f, size, 0)), Some(TilingError::BadSize));
        assert_eq!(error_of(pentagons_type4(&f, size, 0)), Some(TilingError::BadSize));
        assert_eq!(error_of(pentagons_type5(&f, size, 0)), Some(TilingError::BadSize));
    }
}

#[test]
fn parallel_directions_span_no_lattice() {
    let f = Frame { x: 0, y: 0, w: 100, h: 100 };
    let cell = || vec![Placement { shape: Movable::hexagon(500, 0), offset: Pos(0, 0) }];
    let r = periodic_grid_tiling(&f, &cell(), Pos(100, 50), Pos(200, 100));
    assert_eq!(error_of(r), Some(TilingError::DegenerateBasis));
    let r = periodic_grid_tiling(&f, &cell(), Pos(0, 0), Pos(200, 100));
    assert_eq!(error_of(r), Some(TilingError::DegenerateBasis));
    let r = periodic_grid_tiling(&f, &cell(), Pos(100, -50), Pos(-100, 50));
    assert_eq!(error_of(r), Some(TilingError::DegenerateBasis));
}

#[test]
fn square_lattice_is_filled_row_by_row() {
    let f = Frame { x: 0, y: 0, w: 10, h: 10 };
    let cell = vec![Placement { shape: Movable::square(100, 0), offset: Pos(5, 5) }];
    let tiles = periodic_grid_tiling(&f, &cell, Pos(400, 0), Pos(0, 400)).unwrap();
    let at: HashSet<Pos> = anchors(&tiles).into_iter().collect();
    let mut expected = HashSet::new();
    for i in [-1, 0, 1] {
        for j in [-1, 0, 1] {
            expected.insert(Pos(505 + 400 * i, 505 + 400 * j));
        }
    }
    assert_eq!(at, expected);
    assert_eq!(tiles.len(), 9);
    // the point that was met last has its turn first
    let order: Vec<(i32, i32)> = tiles.iter().map(|t| t.0.into_tuple()).collect();
    assert_eq!(
        order,
        vec![
            (505, 505),
            (105, 505),
            (105, 105),
            (105, 905),
            (905, 505),
            (905, 105),
            (905, 905),
            (505, 105),
            (505, 905)
        ]
    );
    assert_eq!(tiles[0].0, Pos(505, 505));
    assert_eq!(tiles[0].1.data.0, vec![Pos(576, 576), Pos(434, 576), Pos(434, 434), Pos(576, 434)]);
}

#[test]
fn lattice_points_that_no_walk_reaches_are_left_out() {
    // the point one step back and one step up lies in the frame, but every
    // single step from the centre leaves it
    let f = Frame { x: 0, y: 0, w: 10, h: 10 };
    let cell = vec![Placement { shape: Movable::square(10, 0), offset: Pos(0, 0) }];
    let tiles = periodic_grid_tiling(&f, &cell, Pos(10_000, 0), Pos(9_900, 100)).unwrap();
    assert_eq!(anchors(&tiles), vec![Pos(500, 500)]);
    assert!(f.is_inside(Pos(500, 500).minus(Pos(10_000, 0)).plus(Pos(9_900, 100))));
}

#[test]
fn a_centre_outside_the_widened_frame_gives_no_tile() {
    let f = Frame { x: usize::MAX, y: 0, w: 10, h: 10 };
    assert_eq!(tile_hexagons(&f, 500, 0).unwrap().len(), 0);
}

#[test]
fn motifs_are_regular() {
    let h = Movable::hexagon(1000, 0);
    assert_eq!(h.len(), 6);
    assert_eq!(h.vertex(0), Pos(1000, 0));
    assert_eq!(h.vertex(1), Pos(500, 866));
    assert_eq!(h.vertex(3), Pos(-1000, 0));
    assert_eq!(h.side(5), Pos(500, 866));
    assert_eq!(h.side(0), Pos(-500, 866));
    let t = Movable::triangle(1000, 90);
    assert_eq!((t.vertex(0), t.vertex(1), t.vertex(2)), (Pos(0, 1000), Pos(-866, -500), Pos(866, -500)));
    let s = Movable::square(1000, 0);
    assert_eq!(s.vertex(0), Pos(707, 707));
    assert_eq!(s.vertex(2), Pos(-707, -707));
    let r = Movable::rhombus(1000, 400, 0);
    assert_eq!(
        (r.vertex(0), r.vertex(1), r.vertex(2), r.vertex(3)),
        (Pos(1000, 0), Pos(0, 400), Pos(-1000, 0), Pos(0, -400))
    );
    let (anchor, path) = t.render(Pos(10, 20));
    assert_eq!(anchor, Pos(10, 20));
    assert_eq!(path.data.0, vec![Pos(10, 1020), Pos(-856, -480), Pos(876, -480)]);
    assert!(Movable::from(vec![]).is_none());
    assert_eq!(Movable::from(vec![Pos(1, 2)]).unwrap().duplicate().vertex(0), Pos(1, 2));
}

#[test]
fn pentagon_angles_must_close() {
    let good = Pentagon { rot: 0, sizes: [1200, 1000, 900], angles: [110, 80, 100, 110, 140] };
    assert!(good.closes());
    let m = good.to_movable().unwrap();
    assert_eq!(m.len(), 5);
    let bad = Pentagon { rot: 0, sizes: [1200, 1000, 900], angles: [110, 80, 100, 110, 141] };
    assert!(!bad.closes());
    assert_eq!(bad.to_movable().err(), Some(TilingError::MalformedAngles));
    let families: [[i32; 5]; 6] = [
        [110, 80, 100, 110, 140],
        [150, 70, 100, 110, 110],
        [110, 100, 70, 150, 110],
        [103, 120, 120, 77, 120],
        [100, 90, 130, 90, 130],
        [90, 120, 60, 150, 120],
    ];
    for angles in families {
        let sum: i32 = angles.iter().map(|a| 180 - a).sum();
        assert_eq!(sum.rem_euclid(360), 0);
        assert!(Pentagon { rot: 77, sizes: [500, 500, 500], angles }.closes());
    }
    // a pentagon whose last two sides run along the same line
    let open = Pentagon { rot: 0, sizes: [1000, 1000, 1000], angles: [90, 90, 90, 90, 180] };
    assert!(open.closes());
    assert_eq!(open.to_movable().err(), Some(TilingError::FailedIntersection));
}

#[test]
fn pentagon_is_a_closed_outline_around_its_middle() {
    // a house: a square with a roof
    let p = Pentagon { rot: 0, sizes: [1000, 1000, 707], angles: [90, 90, 135, 90, 135] };
    assert!(p.closes());
    let m = p.to_movable().unwrap();
    let corners: Vec<Pos> = (0..5).map(|i| m.vertex(i)).collect();
    assert_eq!(corners[0], Pos(-500, -700));
    assert_eq!(corners[1], Pos(500, -700));
    assert_eq!(corners[2], Pos(500, 300));
    assert_eq!(corners[3], Pos(0, 800));
    assert_eq!(corners[4], Pos(-500, 300));
    assert_eq!(m.side(4), Pos(0, -1000));
    // turned by a right angle, the house lies on its side
    let q = Pentagon { rot: 90, sizes: [1000, 1000, 707], angles: [90, 90, 135, 90, 135] };
    let m = q.to_movable().unwrap();
    assert_eq!(m.vertex(0), Pos(700, -500));
    assert_eq!(m.vertex(3), Pos(-800, 0));
}

#[test]
fn triangles_between_four_points() {
    let pts = vec![Pos(0, 0), Pos(300, 0), Pos(300, 300), Pos(0, 300)];
    let tiles = triangulate_tiling(&pts).unwrap();
    assert_eq!(tiles.len(), 2);
    let mut covered = HashSet::new();
    for (anchor, path) in &tiles {
        let c = &path.data.0;
        assert_eq!(c.len(), 3);
        assert_eq!(*anchor, Pos((c[0].0 + c[1].0 + c[2].0) / 3, (c[0].1 + c[1].1 + c[2].1) / 3));
        for p in c {
            assert!(pts.contains(p));
            covered.insert(*p);
        }
    }
    assert_eq!(covered.len(), 4);
}

#[test]
fn triangulation_tiles_follow_the_corner_list() {
    let pts = vec![Pos(0, 0), Pos(90, 0), Pos(0, 90), Pos(90, 91)];
    let tiles = delaunay_tiles(&pts, &vec![0, 1, 2, 1, 3, 2, 0]);
    assert_eq!(tiles.len(), 2);
    assert_eq!(tiles[0].0, Pos(30, 30));
    assert_eq!(tiles[0].1.data.0, vec![Pos(0, 0), Pos(90, 0), Pos(0, 90)]);
    assert_eq!(tiles[1].0, Pos(60, 60));
    assert_eq!(tiles[1].1.data.0, vec![Pos(90, 0), Pos(90, 91), Pos(0, 90)]);
    assert_eq!(delaunay_tiles(&pts, &vec![]).len(), 0);
}

#[test]
fn points_on_a_line_span_no_triangle() {
    let line = vec![Pos(0, 0), Pos(100, 100), Pos(200, 200), Pos(300, 300)];
    assert_eq!(error_of(triangulate_tiling(&line)), Some(TilingError::DegenerateInput));
    assert_eq!(error_of(triangulate_tiling(&vec![])), Some(TilingError::DegenerateInput));
    assert_eq!(error_of(triangulate_tiling(&vec![Pos(1, 1)])), Some(TilingError::DegenerateInput));
    assert_eq!(
        error_of(triangulate_tiling(&vec![Pos(1, 1), Pos(5, 9)])),
        Some(TilingError::DegenerateInput)
    );
    let f = Frame { x: 0, y: 0, w: 100, h: 100 };
    let mut rng = rand::thread_rng();
    assert_eq!(error_of(random_delaunay(&f, &mut rng, 2)), Some(TilingError::DegenerateInput));
}

#[test]
fn scattered_points_are_triangulated() {
    let f = Frame { x: 0, y: 0, w: 400, h: 300 };
    let mut rng = rand::thread_rng();
    let pts = scatter(&f, &mut rng, 200);
    assert_eq!(pts.len(), 200);
    for p in &pts {
        assert!(-4000 <= p.0 && p.0 < 44_000 && -3000 <= p.1 && p.1 < 33_000);
    }
    let tiles = random_delaunay(&f, &mut rng, 200).unwrap();
    assert!(tiles.len() > 200 && tiles.len() < 400);
    for (anchor, path) in &tiles {
        assert_eq!(path.data.0.len(), 3);
        assert!(-4000 <= anchor.0 && anchor.0 < 44_000);
    }
}
