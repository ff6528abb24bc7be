//! The settings as a configuration gives them, each one optional.

use vstd::prelude::*;
use crate::deserializer::Value;

verus! {

/// All settings of a configuration.
pub struct MetaConfig {
    pub global: Option<ConfigGlobal>,
    pub lines: Option<ConfigLines>,
    pub colors: Option<ConfigColors>,
    pub themes: Option<ConfigThemes>,
    pub shapes: Option<ConfigShapes>,
    pub data: Option<ConfigData>,
    pub entry: Option<Vec<ConfigEntry>>,
}

/// Settings that hold for every scene.
pub struct ConfigGlobal {
    pub deviation: Option<u32>,
    pub weight: Option<u32>,
    pub size: Option<i32>,
    pub width: Option<usize>,
    pub height: Option<usize>,
}

/// How the outlines of the tiles are drawn, in general and for each tiling.
pub struct ConfigLines {
    pub width: Option<i32>,
    pub color: Option<Vec<u8>>,
    pub del_width: Option<i32>,
    pub del_color: Option<Vec<u8>>,
    pub hex_width: Option<i32>,
    pub hex_color: Option<Vec<u8>>,
    pub tri_width: Option<i32>,
    pub tri_color: Option<Vec<u8>>,
    pub rho_width: Option<i32>,
    pub rho_color: Option<Vec<u8>>,
    pub hex_and_tri_width: Option<i32>,
    pub hex_and_tri_color: Option<Vec<u8>>,
    pub squ_and_tri_width: Option<i32>,
    pub squ_and_tri_color: Option<Vec<u8>>,
    pub pen_width: Option<i32>,
    pub pen_color: Option<Vec<u8>>,
}

/// Named colours, in the order in which they are read.
pub struct ConfigColors {
    pub list: Vec<(Vec<u8>, Value)>,
}

/// Named themes, in the order in which they are read.
pub struct ConfigThemes {
    pub list: Vec<(Vec<u8>, Value)>,
}

/// Named combinations of patterns and tilings, in the order in which they are read.
pub struct ConfigShapes {
    pub list: Vec<(Vec<u8>, Value)>,
}

/// Settings of the patterns and of the tilings.
pub struct ConfigData {
    pub patterns: Option<ConfigPatterns>,
    pub tilings: Option<ConfigTilings>,
}

/// Sizes of the tilings.
pub struct ConfigTilings {
    pub size_hex: Option<i32>,
    pub size_tri: Option<i32>,
    pub size_hex_and_tri: Option<i32>,
    pub size_squ_and_tri: Option<i32>,
    pub size_rho: Option<i32>,
    pub size_pen: Option<i32>,
    pub nb_delaunay: Option<usize>,
}

/// Numbers and widths of the patterns.
pub struct ConfigPatterns {
    pub nb_free_circles: Option<u32>,
    pub nb_free_triangles: Option<u32>,
    pub nb_free_stripes: Option<u32>,
    pub nb_free_spirals: Option<u32>,
    pub nb_concentric_circles: Option<u32>,
    pub nb_parallel_stripes: Option<u32>,
    pub nb_crossed_stripes: Option<u32>,
    pub nb_parallel_waves: Option<u32>,
    pub nb_parallel_sawteeth: Option<u32>,
    pub var_parallel_stripes: Option<u32>,
    pub var_crossed_stripes: Option<u32>,
    pub width_spiral: Option<i32>,
    pub width_stripe: Option<i32>,
    pub width_wave: Option<i32>,
    pub width_sawtooth: Option<i32>,
    pub tightness_spiral: Option<i32>,
}

/// Themes and shapes for a span of the day, with the weight of the entry
/// among those of the same time.
pub struct ConfigEntry {
    pub span: Option<Vec<u8>>,
    pub weight: Option<usize>,
    pub themes: Option<Vec<Vec<u8>>>,
    pub shapes: Option<Vec<Vec<u8>>>,
    pub line_color: Option<Vec<u8>>,
}

} // verus!
