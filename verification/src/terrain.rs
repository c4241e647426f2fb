use vstd::prelude::*;

verus! {

/// The kinds of terrain a cell, pixel or region can have. `Village` is never
/// produced by generation; it is an in-game upgrade applied to a `Grass`
/// region after the fact.
#[derive(Debug, Clone, Copy, PartialEq, Eq, Structural)]
pub enum TerrainType {
    Village,
    Grass,
    Forest,
    Hill,
    Mountain,
    Water,
}

/// A transient per-region overlay owned by the game-state machine; the map
/// only stores it.
#[derive(Debug, Clone, Copy, PartialEq, Eq, Structural)]
pub enum Marker {
    Worker,
    DeadWorker,
    Roman,
    DeadRoman,
    Occupied,
    FogOfWar,
}

/// Noise samples are integers in thousandths (milli-units) of the noise
/// field's own scale; the thresholds below are hand-tuned for one board size
/// and visual style, expressed in those units.
pub const ELEVATION_THRESHOLD_MOUNTAIN: i64 = 70000;

pub const ELEVATION_THRESHOLD_HILL: i64 = 50000;

pub const ELEVATION_THRESHOLD_WATER: i64 = 0;

pub const FOREST_THRESHOLD_ON_HILL: i64 = 10000;

pub const FOREST_THRESHOLD_ON_GRASS: i64 = 200000;

/// The elevation margin above the water line below which no decorative prop
/// is placed.
pub const PROP_SHORE_MARGIN: i64 = 5000;

/// Terrain of a pixel, from its elevation and forest-density samples.
pub open spec fn spec_classify(e: i64, f: i64) -> TerrainType {
    if e > ELEVATION_THRESHOLD_MOUNTAIN {
        TerrainType::Mountain
    } else if e > ELEVATION_THRESHOLD_HILL {
        if f > FOREST_THRESHOLD_ON_HILL {
            TerrainType::Forest
        } else {
            TerrainType::Hill
        }
    } else if e > ELEVATION_THRESHOLD_WATER {
        if f > FOREST_THRESHOLD_ON_GRASS {
            TerrainType::Forest
        } else {
            TerrainType::Grass
        }
    } else {
        TerrainType::Water
    }
}

/// Maps an (elevation, forest-density) sample pair to a terrain type via the
/// fixed thresholds. Pure and total.
pub fn classify(e: i64, f: i64) -> (t: TerrainType)
    ensures
        t == spec_classify(e, f),
{
    if e > ELEVATION_THRESHOLD_MOUNTAIN {
        TerrainType::Mountain
    } else if e > ELEVATION_THRESHOLD_HILL {
        if f > FOREST_THRESHOLD_ON_HILL {
            TerrainType::Forest
        } else {
            TerrainType::Hill
        }
    } else if e > ELEVATION_THRESHOLD_WATER {
        if f > FOREST_THRESHOLD_ON_GRASS {
            TerrainType::Forest
        } else {
            TerrainType::Grass
        }
    } else {
        TerrainType::Water
    }
}

/// Terrain of a decorative-prop site: as `spec_classify`, but the shore band
/// just above the water line and the water itself carry no prop terrain.
pub open spec fn spec_classify_prop(e: i64, f: i64) -> Option<TerrainType> {
    if e > ELEVATION_THRESHOLD_MOUNTAIN {
        Some(TerrainType::Mountain)
    } else if e > ELEVATION_THRESHOLD_HILL {
        if f > FOREST_THRESHOLD_ON_HILL {
            Some(TerrainType::Forest)
        } else {
            Some(TerrainType::Hill)
        }
    } else if e > ELEVATION_THRESHOLD_WATER + PROP_SHORE_MARGIN {
        if f > FOREST_THRESHOLD_ON_GRASS {
            Some(TerrainType::Forest)
        } else {
            Some(TerrainType::Grass)
        }
    } else {
        None
    }
}

/// Classifies a decorative-prop site from its sample pair.
pub fn classify_prop(e: i64, f: i64) -> (t: Option<TerrainType>)
    ensures
        t == spec_classify_prop(e, f),
{
    if e > ELEVATION_THRESHOLD_MOUNTAIN {
        Some(TerrainType::Mountain)
    } else if e > ELEVATION_THRESHOLD_HILL {
        if f > FOREST_THRESHOLD_ON_HILL {
            Some(TerrainType::Forest)
        } else {
            Some(TerrainType::Hill)
        }
    } else if e > ELEVATION_THRESHOLD_WATER + PROP_SHORE_MARGIN {
        if f > FOREST_THRESHOLD_ON_GRASS {
            Some(TerrainType::Forest)
        } else {
            Some(TerrainType::Grass)
        }
    } else {
        None
    }
}

/// A marker may only be placed on a region whose terrain is neither water nor
/// mountain: placement eligibility is a pure function of the terrain type.
pub fn can_place_marker(t: TerrainType) -> (r: bool)
    ensures
        r == (t != TerrainType::Water && t != TerrainType::Mountain),
{
    match t {
        TerrainType::Water => false,
        TerrainType::Mountain => false,
        _ => true,
    }
}

} // verus!
