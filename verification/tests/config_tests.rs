use wallrnd::cfg::{Pattern, Tiling};
use wallrnd::chooser::Chooser;
use wallrnd::color::Color;
use wallrnd::deserializer::{
    add_shape, choose_theme_shapes, color_from_text, color_from_value, copy_theme,
    eligible_entries, lookup, lookup_color, pattern_from_name, read_colors, read_pattern_settings,
    read_shapes, read_span, read_themes, read_tiling_settings, resolve_global, shapes_from_value,
    theme_from_value, theme_item_from_value, tiling_from_name, ConfigError, Value,
};
use wallrnd::frame::Frame;
use wallrnd::log::{parse_int, Logger, Reader};
use wallrnd::optionfmt::{
    ConfigColors, ConfigData, ConfigEntry, ConfigGlobal, ConfigLines, ConfigPatterns,
    ConfigShapes, ConfigThemes, ConfigTilings, MetaConfig,
};
use wallrnd::pos::Pos;
use wallrnd::salt::{Salt, SaltItem};
use wallrnd::scene::{ColorItem, Disc, HalfPlane, Sawtooth, Shape, Spiral, Stripe, Triangle, Wave};
use wallrnd::svg::{Data, Document, Path};
use wallrnd::text::{find_word_end, parse_hex_pair, parse_number, push_hundredths, push_number, push_signed, same};

fn text(s: &str) -> Value {
    Value::Text(s.as_bytes().to_vec())
}

fn name(s: &str) -> Vec<u8> {
    s.as_bytes().to_vec()
}

fn palette() -> Vec<(Vec<u8>, Color)> {
    vec![(name("red"), Color(255, 0, 0)), (name("sea"), Color(0, 105, 148)), (name("red"), Color(200, 0, 0))]
}

#[test]
fn numbers_are_written_in_decimal() {
    let mut out = String::new();
    push_number(&mut out, 0);
    out.push(' ');
    push_number(&mut out, 1234567890);
    out.push(' ');
    push_signed(&mut out, -17);
    out.push(' ');
    push_signed(&mut out, 5);
    out.push(' ');
    push_hundredths(&mut out, 1234);
    out.push(' ');
    push_hundredths(&mut out, -5);
    out.push(' ');
    push_hundredths(&mut out, 100);
    out.push(' ');
    push_number(&mut out, u128::MAX);
    assert_eq!(out, "0 1234567890 -17 5 12.34 -0.05 1.00 340282366920938463463374607431768211455");
}

#[test]
fn numbers_are_read_from_digits_alone() {
    assert_eq!(parse_number(b"0", 10), Some(0));
    assert_eq!(parse_number(b"007", 10), Some(7));
    assert_eq!(parse_number(b"2400", u64::MAX), Some(2400));
    assert_eq!(parse_number(b"18446744073709551615", u64::MAX), Some(u64::MAX));
    assert_eq!(parse_number(b"18446744073709551616", u64::MAX), None);
    assert_eq!(parse_number(b"101", 100), None);
    assert_eq!(parse_number(b"100", 100), Some(100));
    assert_eq!(parse_number(b"", 100), None);
    assert_eq!(parse_number(b"+1", 100), None);
    assert_eq!(parse_number(b"1a", 100), None);
    assert_eq!(parse_int(b"-12", 100), Some(-12));
    assert_eq!(parse_int(b"12", 100), Some(12));
    assert_eq!(parse_int(b"-", 100), None);
    assert_eq!(parse_int(b"--1", 100), None);
    assert_eq!(parse_hex_pair(b'f', b'F'), Some(255));
    assert_eq!(parse_hex_pair(b'0', b'a'), Some(10));
    assert_eq!(parse_hex_pair(b'g', b'0'), None);
    assert!(same(b"abc", b"abc") && !same(b"abc", b"abd") && !same(b"ab", b"abc"));
    assert_eq!(find_word_end(b"ab cd", 0, b' '), 2);
    assert_eq!(find_word_end(b"ab cd", 3, b' '), 5);
    assert_eq!(find_word_end(b"ab cd", 2, b' '), 2);
}

#[test]
fn colours_by_name_code_and_channels() {
    let dict = palette();
    assert_eq!(lookup_color(&dict, b"red"), Some(Color(200, 0, 0)));
    assert_eq!(lookup_color(&dict, b"blue"), None);
    assert_eq!(color_from_text(b"sea", &dict), Some(Color(0, 105, 148)));
    assert_eq!(color_from_text(b"#0000FF", &dict), Some(Color(0, 0, 255)));
    assert_eq!(color_from_text(b"#a1b2c3", &dict), Some(Color(161, 178, 195)));
    assert_eq!(color_from_text(b"#a1b2c", &dict), None);
    assert_eq!(color_from_text(b"#a1b2cg", &dict), None);
    assert_eq!(color_from_text(b"0000FFF", &dict), None);
    assert_eq!(color_from_value(&text("red"), &dict), Ok(Color(200, 0, 0)));
    assert_eq!(color_from_value(&text("rad"), &dict), Err(ConfigError::InvalidColor));
    let triple = Value::Array(vec![Value::Integer(0), Value::Integer(0), Value::Integer(255)]);
    assert_eq!(color_from_value(&triple, &dict), Ok(Color(0, 0, 255)));
    let pair = Value::Array(vec![Value::Integer(0), Value::Integer(0)]);
    assert_eq!(color_from_value(&pair, &dict), Err(ConfigError::InvalidColor));
    let mixed = Value::Array(vec![Value::Integer(0), text("0"), Value::Integer(255)]);
    assert_eq!(color_from_value(&mixed, &dict), Err(ConfigError::InvalidColor));
    let far = Value::Array(vec![Value::Integer(i64::MAX), Value::Integer(i64::MIN), Value::Integer(-1)]);
    assert_eq!(color_from_value(&far, &dict), Ok(Color(i32::MAX, i32::MIN, -1)));
    assert_eq!(color_from_value(&Value::Integer(3), &dict), Err(ConfigError::InvalidColor));
    assert_eq!(color_from_value(&Value::Other, &dict), Err(ConfigError::InvalidColor));
}

#[test]
fn items_of_a_theme() {
    let dict = palette();
    let item = theme_item_from_value(&text("sea x3 ~20 !40"), &dict);
    assert_eq!((item.color, item.share, item.deviation, item.weight), (Color(0, 105, 148), 3, Some(20), Some(40)));
    let item = theme_item_from_value(&text("  #102030   "), &dict);
    assert_eq!((item.color, item.share, item.deviation, item.weight), (Color(16, 32, 48), 1, None, None));
    let item = theme_item_from_value(&text("red x0 ~x !101"), &dict);
    assert_eq!((item.color, item.share, item.deviation, item.weight), (Color(200, 0, 0), 1, None, None));
    let item = theme_item_from_value(&text("nothing x2 !100 !"), &dict);
    assert_eq!((item.color, item.share, item.deviation, item.weight), (Color(0, 0, 0), 2, None, None));
    let item = theme_item_from_value(&Value::Integer(5), &dict);
    assert_eq!((item.color, item.share, item.deviation, item.weight), (Color(0, 0, 0), 1, None, None));
    let item = theme_item_from_value(&text(""), &dict);
    assert_eq!((item.color, item.share), (Color(0, 0, 0), 1));
}

#[test]
fn themes_are_lists_of_items_and_of_themes() {
    let dict = palette();
    let warm = theme_from_value(&Value::Array(vec![text("red x2"), text("#ffff00")]), &dict, &vec![]).unwrap();
    let weights: Vec<usize> = warm.extract().iter().map(|e| e.1).collect();
    assert_eq!(weights, vec![2, 1]);
    assert_eq!(warm.extract()[1].0 .0, Color(255, 255, 0));
    let themes = vec![(name("warm"), warm)];
    let all = theme_from_value(&Value::Array(vec![text("warm"), text("sea x5 !10")]), &dict, &themes).unwrap();
    let entries = all.extract();
    assert_eq!(entries.len(), 3);
    assert_eq!((entries[0].0 .0, entries[0].1), (Color(200, 0, 0), 2));
    assert_eq!((entries[2].0 .0, entries[2].0 .2, entries[2].1), (Color(0, 105, 148), Some(10), 5));
    assert_eq!(theme_from_value(&text("warm"), &dict, &themes).err(), Some(ConfigError::InvalidTheme));
    assert_eq!(theme_from_value(&Value::Other, &dict, &themes).err(), Some(ConfigError::InvalidTheme));
    assert_eq!(copy_theme(&all).extract().len(), 3);
    assert_eq!(lookup(&themes, b"warm"), Some(0));
    assert_eq!(lookup(&themes, b"cold"), None);
}

#[test]
fn shapes_by_their_names() {
    assert_eq!(tiling_from_name(b"H"), Some(Tiling::Hexagons));
    assert_eq!(tiling_from_name(b"tri."), Some(Tiling::Triangles));
    assert_eq!(tiling_from_name(b"hexagons&squares"), Some(Tiling::HexagonsAndTriangles));
    assert_eq!(tiling_from_name(b"S&T"), Some(Tiling::SquaresAndTriangles));
    assert_eq!(tiling_from_name(b"rhombus"), Some(Tiling::Rhombus));
    assert_eq!(tiling_from_name(b"del."), Some(Tiling::Delaunay));
    assert_eq!(tiling_from_name(b"h"), None);
    assert_eq!(pattern_from_name(b"FC"), Some(Pattern::FreeCircles));
    assert_eq!(pattern_from_name(b"f-tri."), Some(Pattern::FreeTriangles));
    assert_eq!(pattern_from_name(b"free-stripes"), Some(Pattern::FreeStripes));
    assert_eq!(pattern_from_name(b"FP"), Some(Pattern::FreeSpirals));
    assert_eq!(pattern_from_name(b"concentric-circles"), Some(Pattern::ConcentricCircles));
    assert_eq!(pattern_from_name(b"PS"), Some(Pattern::ParallelStripes));
    assert_eq!(pattern_from_name(b"c-str."), Some(Pattern::CrossedStripes));
    assert_eq!(pattern_from_name(b"PW"), Some(Pattern::ParallelWaves));
    assert_eq!(pattern_from_name(b"parallel-sawteeth"), Some(Pattern::ParallelSawteeth));
    assert_eq!(pattern_from_name(b"H"), None);
    let mut tilings = Chooser::default();
    let mut patterns = Chooser::default();
    assert!(add_shape(b"H", 2, &mut tilings, &mut patterns));
    assert!(add_shape(b"CC", 3, &mut tilings, &mut patterns));
    assert!(!add_shape(b"??", 3, &mut tilings, &mut patterns));
    assert!(add_shape(b"T", 0, &mut tilings, &mut patterns));
    assert_eq!(tilings.extract(), vec![(Tiling::Hexagons, 2)]);
    assert_eq!(patterns.extract(), vec![(Pattern::ConcentricCircles, 3)]);
}

#[test]
fn combinations_of_shapes() {
    let basic = Value::Array(vec![
        text("H"),
        Value::Array(vec![text("FC"), Value::Integer(4)]),
        Value::Array(vec![text("T"), Value::Integer(0)]),
        Value::Array(vec![text("T")]),
        Value::Integer(1),
        text("unknown"),
    ]);
    let list = vec![(name("basic"), basic), (name("more"), Value::Array(vec![text("basic"), text("D"), text("PW")]))];
    let shapes = read_shapes(&list);
    assert_eq!(shapes.len(), 2);
    assert_eq!(shapes[0].1 .0.extract(), vec![(Pattern::FreeCircles, 4)]);
    assert_eq!(shapes[0].1 .1.extract(), vec![(Tiling::Hexagons, 1)]);
    assert_eq!(shapes[1].1 .0.extract(), vec![(Pattern::FreeCircles, 4), (Pattern::ParallelWaves, 1)]);
    assert_eq!(shapes[1].1 .1.extract(), vec![(Tiling::Hexagons, 1), (Tiling::Delaunay, 1)]);
    let (p, t) = shapes_from_value(&text("H"), &shapes);
    assert!(p.is_empty() && t.is_empty());
}

#[test]
fn named_colours_build_on_each_other() {
    let list = vec![
        (name("night"), text("#000010")),
        (name("dusk"), text("night")),
        (name("broken"), text("#00001")),
        (name("day"), Value::Array(vec![Value::Integer(250), Value::Integer(250), Value::Integer(200)])),
    ];
    let colors = read_colors(&list);
    assert_eq!(
        colors,
        vec![(name("night"), Color(0, 0, 16)), (name("dusk"), Color(0, 0, 16)), (name("day"), Color(250, 250, 200))]
    );
    let themes = read_themes(
        &vec![
            (name("dark"), Value::Array(vec![text("night x4"), text("dusk")])),
            (name("none"), text("night")),
            (name("both"), Value::Array(vec![text("dark"), text("day")])),
        ],
        &colors,
    );
    assert_eq!(themes.len(), 2);
    assert_eq!(themes[1].0, name("both"));
    assert_eq!(themes[1].1.extract().len(), 3);
}

#[test]
fn spans_of_the_day() {
    assert_eq!(read_span(&None), (0, 2400));
    assert_eq!(read_span(&Some(name("800-1730"))), (800, 1730));
    assert_eq!(read_span(&Some(name("-1200"))), (0, 1200));
    assert_eq!(read_span(&Some(name("1200-"))), (1200, 2400));
    assert_eq!(read_span(&Some(name("1200"))), (1200, 2400));
    assert_eq!(read_span(&Some(name("-"))), (0, 2400));
    assert_eq!(read_span(&Some(name("a-b"))), (0, 2400));
    assert_eq!(read_span(&Some(name("1-2-3"))), (1, 2));
    assert_eq!(read_span(&Some(name(""))), (0, 2400));
}

fn entry(span: Option<&str>, weight: Option<usize>, theme: &str) -> ConfigEntry {
    ConfigEntry {
        span: span.map(name),
        weight,
        themes: Some(vec![name(theme)]),
        shapes: None,
        line_color: Some(name("#010203")),
    }
}

#[test]
fn entries_are_chosen_by_the_time_of_the_day() {
    let mut rng = rand::thread_rng();
    let entries = vec![
        entry(Some("0-1200"), None, "morning"),
        entry(Some("1200-2400"), Some(3), "evening"),
        entry(Some("1100-1300"), Some(0), "never"),
        entry(None, Some(2), "always"),
    ];
    assert_eq!(eligible_entries(&entries, 600).extract(), vec![(0, 1), (3, 2)]);
    assert_eq!(eligible_entries(&entries, 1200).extract(), vec![(0, 1), (1, 3), (3, 2)]);
    assert_eq!(eligible_entries(&entries, 2500).extract(), vec![]);
    let some = Some(entries);
    for _ in 0..50 {
        let (theme, shapes, line) = choose_theme_shapes(&mut rng, &some, 600);
        assert!(theme == name("morning") || theme == name("always"));
        assert_eq!(shapes, name(""));
        assert_eq!(line, name("#010203"));
    }
    assert_eq!(choose_theme_shapes(&mut rng, &some, 2500), (vec![], vec![], vec![]));
    assert_eq!(choose_theme_shapes(&mut rng, &None, 600), (vec![], vec![], vec![]));
}

fn patterns() -> ConfigPatterns {
    ConfigPatterns {
        nb_free_circles: Some(3),
        nb_free_triangles: None,
        nb_free_stripes: None,
        nb_free_spirals: None,
        nb_concentric_circles: None,
        nb_parallel_stripes: Some(4),
        nb_crossed_stripes: None,
        nb_parallel_waves: None,
        nb_parallel_sawteeth: None,
        var_parallel_stripes: Some(1),
        var_crossed_stripes: None,
        width_spiral: Some(50),
        width_stripe: None,
        width_wave: None,
        width_sawtooth: None,
        tightness_spiral: None,
    }
}

fn tilings() -> ConfigTilings {
    ConfigTilings {
        size_hex: Some(900),
        size_tri: None,
        size_hex_and_tri: None,
        size_squ_and_tri: None,
        size_rho: None,
        size_pen: None,
        nb_delaunay: Some(77),
    }
}

#[test]
fn settings_fall_back_on_their_defaults() {
    let g = resolve_global(&None);
    assert_eq!((g.deviation, g.weight, g.size, g.width, g.height), (20, 40, 1500, 1000, 600));
    let given = ConfigGlobal { deviation: Some(5), weight: Some(101), size: None, width: Some(80), height: None };
    let g = resolve_global(&Some(given));
    assert_eq!((g.deviation, g.weight, g.size, g.width, g.height), (5, 40, 1500, 80, 600));
    let data = Some(ConfigData { patterns: Some(patterns()), tilings: Some(tilings()) });
    assert_eq!(read_pattern_settings(&data, Pattern::FreeCircles), (3, 0, 0));
    assert_eq!(read_pattern_settings(&data, Pattern::FreeTriangles), (15, 0, 0));
    assert_eq!(read_pattern_settings(&data, Pattern::FreeSpirals), (3, 0, 50));
    assert_eq!(read_pattern_settings(&data, Pattern::ParallelStripes), (4, 1, 0));
    assert_eq!(read_pattern_settings(&data, Pattern::CrossedStripes), (10, 10, 0));
    assert_eq!(read_pattern_settings(&None, Pattern::FreeStripes), (7, 0, 100));
    assert_eq!(read_pattern_settings(&None, Pattern::ConcentricCircles), (5, 0, 0));
    assert_eq!(read_pattern_settings(&None, Pattern::ParallelWaves), (15, 0, 300));
    assert_eq!(read_pattern_settings(&None, Pattern::ParallelSawteeth), (15, 0, 300));
    assert_eq!(read_tiling_settings(&data, Tiling::Hexagons, 1500), (900, 0));
    assert_eq!(read_tiling_settings(&data, Tiling::Triangles, 1500), (1500, 0));
    assert_eq!(read_tiling_settings(&data, Tiling::Delaunay, 1500), (0, 77));
    assert_eq!(read_tiling_settings(&None, Tiling::Delaunay, 1500), (0, 1000));
    assert_eq!(read_tiling_settings(&None, Tiling::Pentagons, 1500), (1500, 0));
}

fn lines() -> ConfigLines {
    ConfigLines {
        width: Some(250),
        color: Some(name("sea")),
        del_width: None,
        del_color: Some(name("nothing")),
        hex_width: Some(10),
        hex_color: Some(name("#ffffff")),
        tri_width: None,
        tri_color: None,
        rho_width: None,
        rho_color: None,
        hex_and_tri_width: None,
        hex_and_tri_color: None,
        squ_and_tri_width: None,
        squ_and_tri_color: None,
        pen_width: None,
        pen_color: None,
    }
}

#[test]
fn lines_of_each_tiling() {
    let dict = palette();
    assert_eq!(lines().get_settings(Tiling::Hexagons, &dict), (10, Color(255, 255, 255)));
    assert_eq!(lines().get_settings(Tiling::Delaunay, &dict), (250, Color(0, 105, 148)));
    assert_eq!(lines().get_settings(Tiling::Rhombus, &dict), (250, Color(0, 105, 148)));
    assert_eq!(lines().get_settings(Tiling::Rhombus, &vec![]), (250, Color(0, 0, 0)));
}

#[test]
fn configuration_becomes_a_scene() {
    let mut rng = rand::thread_rng();
    let empty = MetaConfig { global: None, lines: None, colors: None, themes: None, shapes: None, data: None, entry: None };
    let cfg = empty.pick_cfg(&mut rng, 1200);
    assert_eq!(cfg.frame, Frame { x: 0, y: 0, w: 1000, h: 600 });
    assert_eq!((cfg.deviation, cfg.weight, cfg.line_width, cfg.line_color), (20, 40, 100, Color(0, 0, 0)));
    assert_eq!(cfg.theme.len(), 1);
    let full = MetaConfig {
        global: Some(ConfigGlobal { deviation: Some(0), weight: Some(100), size: Some(2000), width: Some(300), height: Some(200) }),
        lines: Some(lines()),
        colors: Some(ConfigColors { list: vec![(name("sea"), text("#006994")), (name("sun"), text("#ffcc00"))] }),
        themes: Some(ConfigThemes { list: vec![(name("beach"), Value::Array(vec![text("sea x3"), text("sun")]))] }),
        shapes: Some(ConfigShapes { list: vec![(name("rings"), Value::Array(vec![text("CC"), text("H")]))] }),
        data: Some(ConfigData { patterns: Some(patterns()), tilings: Some(tilings()) }),
        entry: Some(vec![ConfigEntry {
            span: Some(name("0-2400")),
            weight: None,
            themes: Some(vec![name("beach")]),
            shapes: Some(vec![name("rings")]),
            line_color: Some(name("sun")),
        }]),
    };
    let cfg = full.pick_cfg(&mut rng, 1200);
    assert_eq!(cfg.frame, Frame { x: 0, y: 0, w: 300, h: 200 });
    assert_eq!((cfg.pattern, cfg.tiling), (Pattern::ConcentricCircles, Tiling::Hexagons));
    assert_eq!((cfg.nb_pattern, cfg.var_stripes, cfg.width_pattern), (5, 0, 0));
    assert_eq!((cfg.size_tiling, cfg.nb_delaunay), (900, 0));
    assert_eq!((cfg.line_width, cfg.line_color), (10, Color(255, 204, 0)));
    let weights: Vec<usize> = cfg.theme.extract().iter().map(|e| e.1).collect();
    assert_eq!(weights, vec![3, 1]);
    assert_eq!(cfg.tightness_spiral, 1000);
}

fn recipe(shade: Color) -> ColorItem {
    ColorItem {
        shade,
        deviation: 3,
        theme: Color(0, -4, 300),
        weight: 40,
        salt: Salt(vec![SaltItem { color: Color(1, 2, 3), likeliness: 500_000, variability: 9 }]),
    }
}

#[test]
fn scene_is_written_down_and_read_again() {
    let logger = Logger {
        frame: Frame { x: 1, y: 2, w: 1000, h: 600 },
        bg: recipe(Color(10, 20, 30)),
        objects: vec![
            Shape::Disc(Disc { center: Pos(-5, 7), radius: 100, color: recipe(Color(1, 1, 1)) }),
            Shape::HalfPlane(HalfPlane { limit: Pos(1, 2), reference: Pos(3, 4), color: recipe(Color(2, 2, 2)) }),
            Shape::Triangle(Triangle { a: Pos(1, 2), b: Pos(3, 4), c: Pos(5, -6), color: recipe(Color(3, 3, 3)) }),
            Shape::Spiral(Spiral { center: Pos(1, 2), width: 30, tightness: 4, color: recipe(Color(4, 4, 4)) }),
            Shape::Stripe(Stripe { limit: Pos(1, 2), reference: Pos(3, 4), color: recipe(Color(5, 5, 5)) }),
            Shape::Wave(Wave { limit: Pos(1, 2), reference: Pos(3, 4), amplitude: 5, frequency: 6, color: recipe(Color(6, 6, 6)) }),
            Shape::Sawtooth(Sawtooth { limit: Pos(1, 2), reference: Pos(3, 4), amplitude: -5, frequency: 6, color: recipe(Color(7, 7, 7)) }),
        ],
    };
    let written = logger.to_text();
    assert!(written.starts_with(
        "1 2 1000 600 # 10 20 30 0 -4 300 1 2 3 500000 9 # 3 40 # 7 Disc -5 7 100 1 1 1 0 -4 300 1 2 3 500000 9 # 3 40 # # HalfPlane 1 2 3 4 "
    ));
    assert!(written.ends_with("Sawtooth 1 2 3 4 -5 6 7 7 7 0 -4 300 1 2 3 500000 9 # 3 40 # # "));
    let read = Logger::restore(written.as_bytes()).unwrap();
    assert_eq!(read.frame, logger.frame);
    assert_eq!(read.objects.len(), 7);
    assert_eq!(read.to_text(), written);
    assert_eq!(format!("{:?}", read.objects), format!("{:?}", logger.objects));
    assert_eq!(format!("{:?}", read.bg), format!("{:?}", logger.bg));
}

#[test]
fn text_that_is_no_scene_is_refused() {
    assert!(Logger::restore(b"").is_none());
    assert!(Logger::restore(b"1 2 3 4 # ").is_none());
    assert!(Logger::restore(b"1 2 3 # 0 0 0 0 0 0 # 0 0 # 0 ").is_none());
    assert!(Logger::restore(b"1 2 3 4 # 0 0 0 0 0 0 # 0 101 # 0 ").is_none());
    assert!(Logger::restore(b"1 2 3 4 # 0 0 0 0 0 0 # 0 0 # 1 ").is_none());
    assert!(Logger::restore(b"1 2 3 4 # 0 0 0 0 0 0 # 0 0 # 1 Circle 0 0 1 0 0 0 0 0 0 # 0 0 # # ").is_none());
    assert!(Logger::restore(b"1 2 3 4 # 0 0 0 0 0 0 # 0 0 # 1 Disc 0 0 1 0 0 0 0 0 0 # 0 0 # ").is_none());
    let ok = Logger::restore(b"1 2 3 4 # 0 0 0 0 0 0 # 0 0 # 1 Disc 0 0 1 0 0 0 0 0 0 # 0 0 # # ").unwrap();
    assert_eq!(ok.objects.len(), 1);
    let ok = Logger::restore(b"1 2 3 4 # 0 0 0 0 0 0 # 0 100 # 0").unwrap();
    assert_eq!((ok.bg.weight, ok.objects.len()), (100, 0));
    let mut reader = Reader::new(b"12 -x #");
    assert_eq!(reader.word(), Some(b"12".to_vec()));
    assert_eq!(reader.whole(100), None);
    assert!(reader.hash());
    assert_eq!(reader.word(), None);
}

#[test]
fn image_as_svg() {
    let mut doc = Document::new(Frame { x: 0, y: 0, w: 100, h: 50 });
    assert_eq!(doc.to_svg(), "<svg viewBox=\"0 0 100 50\" xmlns=\"http://www.w3.org/2000/svg\">\n</svg>");
    let mut data = Data::new(Pos(0, 0));
    data.line_to(Pos(1050, 0));
    let path = Path::new(data.with_line_to(Pos(1050, -25)))
        .with_fill_color(Color(300, 128, -1))
        .with_stroke_color(Color(1, 2, 3))
        .with_stroke_width(150);
    assert_eq!(
        path.data.0,
        vec![Pos(0, 0), Pos(1050, 0), Pos(1050, -25)]
    );
    doc.add(path);
    doc.add(Path::new(Data(vec![])));
    assert_eq!(
        doc.to_svg(),
        "<svg viewBox=\"0 0 100 50\" xmlns=\"http://www.w3.org/2000/svg\">\n\
         <path d=\"M0.00,0.00 L10.50,0.00 L10.50,-0.25 z\" fill=\"rgb(255,128,0)\" stroke=\"rgb(1,2,3)\" stroke-width=\"1.50\" />\n\
         <path d=\"z\" fill=\"rgb(255,255,255)\" stroke=\"rgb(0,0,0)\" stroke-width=\"0.00\" />\n\
         </svg>"
    );
    assert_eq!(Color(-3, 256, 77).to_display(), "rgb(0,255,77)");
    let shifted = Document::new(Frame { x: 10, y: 20, w: 100, h: 50 });
    assert!(shifted.to_svg().starts_with("<svg viewBox=\"10 20 110 70\""));
}
