use vstd::prelude::*;

use crate::pixmap::MAP_SIZE;

verus! {

/// Pre-sampled coherent-noise values for every pixel of the canvas, in
/// milli-units, row-major. Three independently seeded fields: elevation and
/// forest density drive terrain, the third jitters the occupation frontier.
///
/// The floating-point noise synthesis (and the elevation field's two-pass
/// amplitude/bias calibration) happens outside the library; the generator
/// works for any values handed in here, and is deterministic in them.
pub struct NoiseFields {
    pub elevation: Vec<i32>,
    pub forest: Vec<i32>,
    pub occupation: Vec<i32>,
}

impl NoiseFields {
    /// Each grid covers the whole canvas, one sample per pixel.
    pub open spec fn wf(self) -> bool {
        &&& self.elevation@.len() == MAP_SIZE * MAP_SIZE
        &&& self.forest@.len() == MAP_SIZE * MAP_SIZE
        &&& self.occupation@.len() == MAP_SIZE * MAP_SIZE
    }

    pub open spec fn spec_elevation(self, x: int, y: int) -> i64 {
        self.elevation@[y * 160 + x] as i64
    }

    pub open spec fn spec_forest(self, x: int, y: int) -> i64 {
        self.forest@[y * 160 + x] as i64
    }

    pub open spec fn spec_occupation(self, x: int, y: int) -> i64 {
        self.occupation@[y * 160 + x] as i64
    }

    /// Whether the three grids have the right size; callers of `generate`
    /// check this before handing the fields over.
    pub fn check(&self) -> (r: bool)
        ensures
            r == self.wf(),
    {
        self.elevation.len() == MAP_SIZE * MAP_SIZE && self.forest.len() == MAP_SIZE * MAP_SIZE
            && self.occupation.len() == MAP_SIZE * MAP_SIZE
    }

    /// The elevation sample at pixel (x, y).
    pub fn elevation_at(&self, x: usize, y: usize) -> (e: i64)
        requires
            self.wf(),
            x < MAP_SIZE,
            y < MAP_SIZE,
        ensures
            e == self.spec_elevation(x as int, y as int),
    {
        self.elevation[y * MAP_SIZE + x] as i64
    }

    /// The forest-density sample at pixel (x, y).
    pub fn forest_at(&self, x: usize, y: usize) -> (f: i64)
        requires
            self.wf(),
            x < MAP_SIZE,
            y < MAP_SIZE,
        ensures
            f == self.spec_forest(x as int, y as int),
    {
        self.forest[y * MAP_SIZE + x] as i64
    }

    /// The occupation-jitter sample at pixel (x, y).
    pub fn occupation_at(&self, x: usize, y: usize) -> (o: i64)
        requires
            self.wf(),
            x < MAP_SIZE,
            y < MAP_SIZE,
        ensures
            o == self.spec_occupation(x as int, y as int),
    {
        self.occupation[y * MAP_SIZE + x] as i64
    }
}

} // verus!
