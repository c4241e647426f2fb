use vstd::prelude::*;

use crate::cell::Cell;
use crate::level::MAX_NUM_REGIONS;
use crate::cell::Contents;
use crate::cell::empty_cell;
use crate::noise::NoiseFields;
use crate::pixmap::BITMAP_SIZE;
use crate::pixmap::MAP_SIZE;
use crate::pixmap::PROPMAP_SIZE;
use crate::pixmap::PROP_GRID_CELL_SIZE;
use crate::pixmap::PROP_GRID_SIZE;
use crate::rng::rng_usize_below;
use crate::terrain::Marker;
use crate::terrain::TerrainType;

verus! {

/// Width and height of the coarse cell grid.
pub const GRID_SIZE: usize = 16;

/// Pixels per coarse-grid cell, in each axis.
pub const GRID_CELL_SIZE: usize = MAP_SIZE / GRID_SIZE;

/// Cells in the coarse grid.
pub const GRID_CELLS: usize = GRID_SIZE * GRID_SIZE;

/// Cells in the fine decoration grid.
pub const PROP_GRID_CELLS: usize = PROP_GRID_SIZE * PROP_GRID_SIZE;

/// The generated game board: per-pixel terrain bitmaps, the coarse region
/// grid, the fine decoration grid with its region back-references, and the
/// occupation-frontier state.
pub struct Board {
    /// Pixel is water.
    pub water_bitmap: Vec<u8>,
    /// Pixel is mountain.
    pub mountain_bitmap: Vec<u8>,
    /// Pixel carries surface texture (forest/hill/mountain hatching).
    pub surface_bitmap: Vec<u8>,
    /// Ink stamps marking region placement points.
    pub ink_bitmap: Vec<u8>,
    /// Pixels currently drawn as occupied territory.
    pub occupation_bitmap: Vec<u8>,
    /// Prop to draw per fine cell, packed two to a byte.
    pub propmap: Vec<u8>,
    /// True terrain per fine cell, packed two to a byte.
    pub surface_propmap: Vec<u8>,
    /// Region id owning each fine cell, row-major, -1 when unclaimed.
    pub prop_region_map: Vec<i8>,
    /// The coarse grid, row-major.
    pub cells: Vec<Cell>,
    /// Occupation-jitter noise per pixel, in milli-units; empty until
    /// `generate` stores it.
    pub occupation_noise: Vec<i32>,
}

impl Board {
    /// The sizes every operation relies on.
    pub open spec fn wf(self) -> bool {
        &&& self.water_bitmap@.len() == BITMAP_SIZE
        &&& self.mountain_bitmap@.len() == BITMAP_SIZE
        &&& self.surface_bitmap@.len() == BITMAP_SIZE
        &&& self.ink_bitmap@.len() == BITMAP_SIZE
        &&& self.occupation_bitmap@.len() == BITMAP_SIZE
        &&& self.propmap@.len() == PROPMAP_SIZE
        &&& self.surface_propmap@.len() == PROPMAP_SIZE
        &&& self.prop_region_map@.len() == PROP_GRID_CELLS
        &&& self.cells@.len() == GRID_CELLS
    }

    /// The coarse cell at row `r`, column `c`.
    pub open spec fn spec_cell(self, r: int, c: int) -> Cell {
        self.cells@[r * 16 + c]
    }
}

fn zero_bytes(n: usize) -> (v: Vec<u8>)
    ensures
        v@.len() == n,
        forall|i: int| 0 <= i < n ==> v@[i] == 0u8,
{
    let mut v: Vec<u8> = Vec::new();
    let mut i: usize = 0;
    while i < n
        invariant
            i <= n,
            v@.len() == i,
            forall|k: int| 0 <= k < i ==> v@[k] == 0u8,
        decreases n - i,
    {
        v.push(0u8);
        i = i + 1;
    }
    v
}

impl Board {
    /// A board with every bitmap and packed map all-zero, every fine-grid
    /// claim zero, every cell untouched at centroid (0, 0), and no
    /// occupation-jitter grid; `generate` turns it into a playable board.
    pub fn empty() -> (m: Board)
        ensures
            m.wf(),
            forall|i: int|
                0 <= i < GRID_CELLS ==> m.cells@[i] == (Cell {
                    centroid_x: 0u8,
                    centroid_y: 0u8,
                    contents: Contents::Empty,
                }),
            forall|k: int| 0 <= k < BITMAP_SIZE ==> m.water_bitmap@[k] == 0u8,
            forall|k: int| 0 <= k < BITMAP_SIZE ==> m.mountain_bitmap@[k] == 0u8,
            forall|k: int| 0 <= k < BITMAP_SIZE ==> m.surface_bitmap@[k] == 0u8,
            forall|k: int| 0 <= k < BITMAP_SIZE ==> m.ink_bitmap@[k] == 0u8,
            forall|k: int| 0 <= k < BITMAP_SIZE ==> m.occupation_bitmap@[k] == 0u8,
            forall|k: int| 0 <= k < PROPMAP_SIZE ==> m.propmap@[k] == 0u8,
            forall|k: int| 0 <= k < PROPMAP_SIZE ==> m.surface_propmap@[k] == 0u8,
            forall|k: int| 0 <= k < PROP_GRID_CELLS ==> m.prop_region_map@[k] == 0i8,
            m.occupation_noise@.len() == 0,
    {
        let mut cells: Vec<Cell> = Vec::new();
        let mut i: usize = 0;
        while i < GRID_CELLS
            invariant
                i <= GRID_CELLS,
                cells@.len() == i,
                forall|k: int|
                    0 <= k < i ==> cells@[k] == (Cell {
                        centroid_x: 0u8,
                        centroid_y: 0u8,
                        contents: Contents::Empty,
                    }),
            decreases GRID_CELLS - i,
        {
            cells.push(empty_cell());
            i = i + 1;
        }
        let mut prop_region_map: Vec<i8> = Vec::new();
        let mut j: usize = 0;
        while j < PROP_GRID_CELLS
            invariant
                j <= PROP_GRID_CELLS,
                prop_region_map@.len() == j,
                forall|k: int| 0 <= k < j ==> prop_region_map@[k] == 0i8,
            decreases PROP_GRID_CELLS - j,
        {
            prop_region_map.push(0i8);
            j = j + 1;
        }
        Board {
            water_bitmap: zero_bytes(BITMAP_SIZE),
            mountain_bitmap: zero_bytes(BITMAP_SIZE),
            surface_bitmap: zero_bytes(BITMAP_SIZE),
            ink_bitmap: zero_bytes(BITMAP_SIZE),
            occupation_bitmap: zero_bytes(BITMAP_SIZE),
            propmap: zero_bytes(PROPMAP_SIZE),
            surface_propmap: zero_bytes(PROPMAP_SIZE),
            prop_region_map,
            cells,
            occupation_noise: Vec::new(),
        }
    }

    /// Reads the coarse cell at (r, c).
    fn get_cell(&self, r: usize, c: usize) -> (cell: Cell)
        requires
            self.wf(),
            r < GRID_SIZE,
            c < GRID_SIZE,
        ensures
            cell == self.spec_cell(r as int, c as int),
    {
        self.cells[r * GRID_SIZE + c]
    }

    /// Replaces the coarse cell at (r, c), leaving everything else.
    fn set_cell(&mut self, r: usize, c: usize, cell: Cell)
        requires
            old(self).wf(),
            r < GRID_SIZE,
            c < GRID_SIZE,
        ensures
            final(self).wf(),
            final(self).cells@ == old(self).cells@.update(r * 16 + c, cell),
            final(self).water_bitmap == old(self).water_bitmap,
            final(self).mountain_bitmap == old(self).mountain_bitmap,
            final(self).surface_bitmap == old(self).surface_bitmap,
            final(self).ink_bitmap == old(self).ink_bitmap,
            final(self).occupation_bitmap == old(self).occupation_bitmap,
            final(self).propmap == old(self).propmap,
            final(self).surface_propmap == old(self).surface_propmap,
            final(self).prop_region_map == old(self).prop_region_map,
            final(self).occupation_noise == old(self).occupation_noise,
    {
        self.cells.set(r * GRID_SIZE + c, cell);
    }
}

/// Centroid coordinate bounds that `pick_random_centroid_xy_at_rc`
/// guarantees: the point lies in a band owned by its own row and column, so
/// centroids of distinct cells never coincide.
pub open spec fn centroid_in_band(cell: Cell, r: int, c: int) -> bool {
    &&& 10 * c + 1 <= cell.centroid_x <= 10 * c + 10
    &&& 10 * r + 1 <= cell.centroid_y <= 10 * r + 10
    &&& cell.centroid_x < MAP_SIZE - 5
    &&& cell.centroid_y < MAP_SIZE - 5
}

/// Picks a jittered placement point inside coarse cell (r, c): a uniformly
/// random interior offset, clamped away from the canvas border, then snapped
/// to the center of its fine-grid cell.
pub fn pick_random_centroid_xy_at_rc(r: usize, c: usize, rng: &mut fastrand::Rng) -> (xy: (
    usize,
    usize,
))
    requires
        r < GRID_SIZE,
        c < GRID_SIZE,
    ensures
        10 * c + 1 <= xy.0 <= 10 * c + 10,
        10 * r + 1 <= xy.1 <= 10 * r + 10,
        xy.0 % 4 == 2,
        xy.1 % 4 == 2,
        6 <= xy.0 < MAP_SIZE - 5,
        6 <= xy.1 < MAP_SIZE - 5,
{
    let padding: usize = 2;
    let inner_x: usize = padding + rng_usize_below(rng, GRID_CELL_SIZE - 2 * padding);
    let inner_y: usize = padding + rng_usize_below(rng, GRID_CELL_SIZE - 2 * padding);
    let x: usize = c * GRID_CELL_SIZE + inner_x;
    let y: usize = r * GRID_CELL_SIZE + inner_y;
    let lo: usize = GRID_CELL_SIZE / 2 + padding;
    let hi: usize = MAP_SIZE - 1 - padding - GRID_CELL_SIZE / 2;
    let x: usize = if x < lo {
        lo
    } else if x > hi {
        hi
    } else {
        x
    };
    let y: usize = if y < lo {
        lo
    } else if y > hi {
        hi
    } else {
        y
    };
    let x: usize = (x / PROP_GRID_CELL_SIZE) * PROP_GRID_CELL_SIZE + PROP_GRID_CELL_SIZE / 2;
    let y: usize = (y / PROP_GRID_CELL_SIZE) * PROP_GRID_CELL_SIZE + PROP_GRID_CELL_SIZE / 2;
    (x, y)
}

} // verus!

verus! {

/// Squared pixel distance from a cell's centroid to a point.
pub open spec fn spec_sqdist(cell: Cell, x: int, y: int) -> int {
    (cell.centroid_x - x) * (cell.centroid_x - x) + (cell.centroid_y - y) * (cell.centroid_y - y)
}

impl Board {
    /// The home coarse cell of a point: integer division, clamped to the
    /// grid.
    pub open spec fn spec_home_rc(self, x: int, y: int) -> (int, int) {
        let xx = if x > 0 { x } else { 0 };
        let yy = if y > 0 { y } else { 0 };
        let r = if yy / 10 < 15 { yy / 10 } else { 15 };
        let c = if xx / 10 < 15 { xx / 10 } else { 15 };
        (r, c)
    }

    /// Top-left corner of the 2x2 candidate neighborhood for a point: the
    /// home cell, shifted up or left when the point falls before the home
    /// cell's own centroid (centroids are jittered, not grid-aligned).
    pub open spec fn spec_r0_c0(self, x: int, y: int) -> (int, int) {
        let rc = self.spec_home_rc(x, y);
        let r = rc.0;
        let c = rc.1;
        let r0 = if r > 0 && (r == 15 || y < self.spec_cell(r, c).centroid_y) {
            r - 1
        } else {
            r
        };
        let c0 = if c > 0 && (c == 15 || x < self.spec_cell(r, c).centroid_x) {
            c - 1
        } else {
            c
        };
        (r0, c0)
    }

    fn r0_c0_for_xy(&self, x: i32, y: i32) -> (rc: (usize, usize))
        requires
            self.wf(),
        ensures
            rc.0 as int == self.spec_r0_c0(x as int, y as int).0,
            rc.1 as int == self.spec_r0_c0(x as int, y as int).1,
            rc.0 <= 14,
            rc.1 <= 14,
    {
        let xx: usize = if x > 0 {
            x as usize
        } else {
            0
        };
        let yy: usize = if y > 0 {
            y as usize
        } else {
            0
        };
        let mut r: usize = yy / GRID_CELL_SIZE;
        if r > GRID_SIZE - 1 {
            r = GRID_SIZE - 1;
        }
        let mut c: usize = xx / GRID_CELL_SIZE;
        if c > GRID_SIZE - 1 {
            c = GRID_SIZE - 1;
        }
        let cell = self.get_cell(r, c);
        let r0: usize = if r > 0 && (r + 1 == GRID_SIZE || y < cell.centroid_y as i32) {
            r - 1
        } else {
            r
        };
        let c0: usize = if c > 0 && (c + 1 == GRID_SIZE || x < cell.centroid_x as i32) {
            c - 1
        } else {
            c
        };
        (r0, c0)
    }

    fn sqdist_at(&self, r: usize, c: usize, x: i32, y: i32) -> (d: i64)
        requires
            self.wf(),
            r < GRID_SIZE,
            c < GRID_SIZE,
            -100000 <= x <= 100000,
            -100000 <= y <= 100000,
        ensures
            d == spec_sqdist(self.spec_cell(r as int, c as int), x as int, y as int),
            d >= 0,
            0 <= x < 160 && 0 <= y < 160 ==> d <= 200000,
    {
        let cell = self.get_cell(r, c);
        let ddx: i64 = cell.centroid_x as i64 - x as i64;
        let ddy: i64 = cell.centroid_y as i64 - y as i64;
        proof {
            assert(ddx * ddx <= 100255 * 100255 && ddx * ddx >= 0) by (nonlinear_arith)
                requires
                    -100255 <= ddx <= 100255,
            ;
            assert(ddy * ddy <= 100255 * 100255 && ddy * ddy >= 0) by (nonlinear_arith)
                requires
                    -100255 <= ddy <= 100255,
            ;
            if -256 <= ddx <= 256 && -256 <= ddy <= 256 {
                assert(ddx * ddx <= 256 * 256) by (nonlinear_arith)
                    requires
                        -256 <= ddx <= 256,
                ;
                assert(ddy * ddy <= 256 * 256) by (nonlinear_arith)
                    requires
                        -256 <= ddy <= 256,
                ;
            }
        }
        ddx * ddx + ddy * ddy
    }

    /// The candidate cell closest to a point, by squared distance; among
    /// equally close candidates, the one the scan meets first (lower-right,
    /// lower-left, upper-right, then upper-left).
    pub open spec fn spec_closest_rc(self, x: int, y: int) -> (int, int, int) {
        let rc0 = self.spec_r0_c0(x, y);
        let r0 = rc0.0;
        let c0 = rc0.1;
        let d0 = spec_sqdist(self.spec_cell(r0 + 1, c0 + 1), x, y);
        let d1 = spec_sqdist(self.spec_cell(r0 + 1, c0), x, y);
        let d2 = spec_sqdist(self.spec_cell(r0, c0 + 1), x, y);
        let d3 = spec_sqdist(self.spec_cell(r0, c0), x, y);
        if d0 <= d1 && d0 <= d2 && d0 <= d3 {
            (r0 + 1, c0 + 1, d0)
        } else if d1 <= d2 && d1 <= d3 {
            (r0 + 1, c0, d1)
        } else if d2 <= d3 {
            (r0, c0 + 1, d2)
        } else {
            (r0, c0, d3)
        }
    }

    /// Finds the coarse cell whose centroid is nearest to pixel (x, y), and
    /// the squared distance to it.
    fn closest_rc_to_xy(&self, x: i32, y: i32) -> (res: (usize, usize, i64))
        requires
            self.wf(),
            -100000 <= x <= 100000,
            -100000 <= y <= 100000,
        ensures
            res.0 as int == self.spec_closest_rc(x as int, y as int).0,
            res.1 as int == self.spec_closest_rc(x as int, y as int).1,
            res.2 as int == self.spec_closest_rc(x as int, y as int).2,
            res.0 < GRID_SIZE,
            res.1 < GRID_SIZE,
    {
        let (r0, c0) = self.r0_c0_for_xy(x, y);
        let d0 = self.sqdist_at(r0 + 1, c0 + 1, x, y);
        let d1 = self.sqdist_at(r0 + 1, c0, x, y);
        let d2 = self.sqdist_at(r0, c0 + 1, x, y);
        let d3 = self.sqdist_at(r0, c0, x, y);
        if d0 <= d1 && d0 <= d2 && d0 <= d3 {
            (r0 + 1, c0 + 1, d0)
        } else if d1 <= d2 && d1 <= d3 {
            (r0 + 1, c0, d1)
        } else if d2 <= d3 {
            (r0, c0 + 1, d2)
        } else {
            (r0, c0, d3)
        }
    }

    /// Whether all four candidate cells around a point are occupied.
    pub open spec fn spec_enclosed(self, x: int, y: int) -> bool {
        let rc0 = self.spec_r0_c0(x, y);
        let r0 = rc0.0;
        let c0 = rc0.1;
        &&& self.spec_cell(r0, c0).spec_is_occupied()
        &&& self.spec_cell(r0, c0 + 1).spec_is_occupied()
        &&& self.spec_cell(r0 + 1, c0).spec_is_occupied()
        &&& self.spec_cell(r0 + 1, c0 + 1).spec_is_occupied()
    }

    /// The nearest-occupied-cell search: candidates are admitted if occupied
    /// or within 4 pixels; the result carries the chosen cell, its squared
    /// distance, whether the point is fully enclosed (which caps the
    /// effective distance), and whether the chosen cell is in fact occupied
    /// (otherwise the effective distance is a far sentinel).
    pub open spec fn spec_closest_occupied(self, x: int, y: int) -> (int, int, int, bool, bool) {
        let rc0 = self.spec_r0_c0(x, y);
        let r0 = rc0.0;
        let c0 = rc0.1;
        let enclosed = self.spec_enclosed(x, y);
        let d0 = spec_sqdist(self.spec_cell(r0 + 1, c0 + 1), x, y);
        let d1 = spec_sqdist(self.spec_cell(r0 + 1, c0), x, y);
        let d2 = spec_sqdist(self.spec_cell(r0, c0 + 1), x, y);
        let d3 = spec_sqdist(self.spec_cell(r0, c0), x, y);
        let ok0 = self.spec_cell(r0 + 1, c0 + 1).spec_is_occupied() || d0 < 16;
        let ok1 = self.spec_cell(r0 + 1, c0).spec_is_occupied() || d1 < 16;
        let ok2 = self.spec_cell(r0, c0 + 1).spec_is_occupied() || d2 < 16;
        let ok3 = self.spec_cell(r0, c0).spec_is_occupied() || d3 < 16;
        if ok0 && (!ok1 || d0 <= d1) && (!ok2 || d0 <= d2) && (!ok3 || d0 <= d3) {
            (r0 + 1, c0 + 1, d0, enclosed, self.spec_cell(r0 + 1, c0 + 1).spec_is_occupied())
        } else if ok1 && (!ok2 || d1 <= d2) && (!ok3 || d1 <= d3) {
            (r0 + 1, c0, d1, enclosed, self.spec_cell(r0 + 1, c0).spec_is_occupied())
        } else if ok2 && (!ok3 || d2 <= d3) {
            (r0, c0 + 1, d2, enclosed, self.spec_cell(r0, c0 + 1).spec_is_occupied())
        } else if ok3 {
            (r0, c0, d3, enclosed, self.spec_cell(r0, c0).spec_is_occupied())
        } else {
            (r0, c0, 0, false, false)
        }
    }

    fn closest_occupied_rc_to_xy(&self, x: i32, y: i32) -> (res: (usize, usize, i64, bool, bool))
        requires
            self.wf(),
            0 <= x < MAP_SIZE,
            0 <= y < MAP_SIZE,
        ensures
            res.0 as int == self.spec_closest_occupied(x as int, y as int).0,
            res.1 as int == self.spec_closest_occupied(x as int, y as int).1,
            res.2 as int == self.spec_closest_occupied(x as int, y as int).2,
            res.3 == self.spec_closest_occupied(x as int, y as int).3,
            res.4 == self.spec_closest_occupied(x as int, y as int).4,
            res.0 < GRID_SIZE,
            res.1 < GRID_SIZE,
            0 <= res.2 <= 200000,
    {
        let (r0, c0) = self.r0_c0_for_xy(x, y);
        let occ_ul = self.get_cell(r0, c0).is_occupied();
        let occ_ur = self.get_cell(r0, c0 + 1).is_occupied();
        let occ_ll = self.get_cell(r0 + 1, c0).is_occupied();
        let occ_lr = self.get_cell(r0 + 1, c0 + 1).is_occupied();
        let enclosed = occ_ul && occ_ur && occ_ll && occ_lr;
        let d0 = self.sqdist_at(r0 + 1, c0 + 1, x, y);
        let d1 = self.sqdist_at(r0 + 1, c0, x, y);
        let d2 = self.sqdist_at(r0, c0 + 1, x, y);
        let d3 = self.sqdist_at(r0, c0, x, y);
        let ok0 = occ_lr || d0 < 16;
        let ok1 = occ_ll || d1 < 16;
        let ok2 = occ_ur || d2 < 16;
        let ok3 = occ_ul || d3 < 16;
        if ok0 && (!ok1 || d0 <= d1) && (!ok2 || d0 <= d2) && (!ok3 || d0 <= d3) {
            (r0 + 1, c0 + 1, d0, enclosed, occ_lr)
        } else if ok1 && (!ok2 || d1 <= d2) && (!ok3 || d1 <= d3) {
            (r0 + 1, c0, d1, enclosed, occ_ll)
        } else if ok2 && (!ok3 || d2 <= d3) {
            (r0, c0 + 1, d2, enclosed, occ_ur)
        } else if ok3 {
            (r0, c0, d3, enclosed, occ_ul)
        } else {
            (r0, c0, 0, false, false)
        }
    }
}

} // verus!

verus! {

/// Fewest regions the badness-driven pruning aims to keep.
pub const MIN_NUM_REGIONS_TARGET: usize = 25;

/// Most regions the badness-driven pruning may leave.
pub const MAX_NUM_REGIONS_TARGET: usize = 35;

/// Centroids closer than this (in pixels) make both cells bad.
pub const MIN_DISTANCE_BETWEEN_REGIONS: i64 = 20;

/// A forced merge reaches at most this far (in pixels).
pub const MAX_DISTANCE_BETWEEN_REGIONS: i64 = 30;

pub open spec fn is_unmerged(cell: Cell) -> bool {
    cell.contents is Unmerged
}

pub open spec fn is_region_cell(cell: Cell) -> bool {
    cell.contents is Region
}

/// How many of the first `k` cells satisfy `f`.
pub open spec fn count_matching(s: Seq<Cell>, f: spec_fn(Cell) -> bool, k: int) -> int
    decreases k,
{
    if k <= 0 {
        0
    } else {
        count_matching(s, f, k - 1) + if f(s[k - 1]) {
            1int
        } else {
            0int
        }
    }
}

pub open spec fn unmerged_fn() -> spec_fn(Cell) -> bool {
    |c: Cell| is_unmerged(c)
}

pub open spec fn region_fn() -> spec_fn(Cell) -> bool {
    |c: Cell| is_region_cell(c)
}

/// How many cells of the whole grid are still unmerged region candidates.
pub open spec fn count_unmerged(s: Seq<Cell>) -> int {
    count_matching(s, unmerged_fn(), s.len() as int)
}

proof fn lemma_count_matching_update(s: Seq<Cell>, f: spec_fn(Cell) -> bool, j: int, x: Cell, k: int)
    requires
        0 <= j < s.len(),
        0 <= k <= s.len(),
    ensures
        count_matching(s.update(j, x), f, k) == count_matching(s, f, k) + (if j < k {
            (if f(x) {
                1int
            } else {
                0int
            }) - (if f(s[j]) {
                1int
            } else {
                0int
            })
        } else {
            0int
        }),
    decreases k,
{
    if k > 0 {
        lemma_count_matching_update(s, f, j, x, k - 1);
    }
}

proof fn lemma_count_matching_bounds(s: Seq<Cell>, f: spec_fn(Cell) -> bool, k: int)
    requires
        0 <= k <= s.len(),
    ensures
        0 <= count_matching(s, f, k) <= k,
    decreases k,
{
    if k > 0 {
        lemma_count_matching_bounds(s, f, k - 1);
    }
}

/// Cell states during the merge phases: every cell is an unmerged candidate,
/// merged with an in-range parent reference, or culled.
pub open spec fn merge_stage(cells: Seq<Cell>) -> bool {
    forall|i: int|
        0 <= i < cells.len() ==> match (#[trigger] cells[i]).contents {
            Contents::Unmerged { .. } => true,
            Contents::Merged { parent_row, parent_col, .. } => parent_row < 16 && parent_col < 16,
            Contents::Culled { .. } => true,
            _ => false,
        }
}

/// Both grids give every cell the same centroid.
pub open spec fn same_centroids(a: Seq<Cell>, b: Seq<Cell>) -> bool {
    &&& a.len() == b.len()
    &&& forall|i: int|
        0 <= i < a.len() ==> b[i].centroid_x == a[i].centroid_x && b[i].centroid_y
            == a[i].centroid_y
}

/// The boards agree on everything but the coarse cell grid.
pub open spec fn same_except_cells(a: Board, b: Board) -> bool {
    &&& b.water_bitmap == a.water_bitmap
    &&& b.mountain_bitmap == a.mountain_bitmap
    &&& b.surface_bitmap == a.surface_bitmap
    &&& b.ink_bitmap == a.ink_bitmap
    &&& b.occupation_bitmap == a.occupation_bitmap
    &&& b.propmap == a.propmap
    &&& b.surface_propmap == a.surface_propmap
    &&& b.prop_region_map == a.prop_region_map
    &&& b.occupation_noise == a.occupation_noise
    &&& b.cells@.len() == a.cells@.len()
}

/// The four orthogonal direction offsets, for randomized neighbor visits.
fn direction_offsets() -> (dirs: Vec<(i8, i8)>)
    ensures
        dirs@.len() == 4,
        dirs@ == seq![(1i8, 0i8), (-1i8, 0i8), (0i8, 1i8), (0i8, -1i8)],
{
    let mut dirs: Vec<(i8, i8)> = Vec::new();
    dirs.push((1i8, 0i8));
    dirs.push((-1i8, 0i8));
    dirs.push((0i8, 1i8));
    dirs.push((0i8, -1i8));
    proof {
        assert(dirs@ =~= seq![(1i8, 0i8), (-1i8, 0i8), (0i8, 1i8), (0i8, -1i8)]);
    }
    dirs
}

/// A direction pair drawn from the shuffled offsets is a unit step.
pub open spec fn is_unit_dir(d: (i8, i8)) -> bool {
    d == (1i8, 0i8) || d == (-1i8, 0i8) || d == (0i8, 1i8) || d == (0i8, -1i8)
}

/// Whether the soft-merge scan accepts direction `d` from the cell at
/// (r, c): the unit step stays on the grid and lands on an unmerged cell of
/// the same terrain as the one at (r, c).
pub open spec fn soft_dir_ok(cells: Seq<Cell>, r: int, c: int, d: (i8, i8)) -> bool {
    &&& is_unit_dir(d)
    &&& !(r == 0 && d.0 < 0)
    &&& !(c == 0 && d.1 < 0)
    &&& !(r == 15 && d.0 > 0)
    &&& !(c == 15 && d.1 > 0)
    &&& cells[(r + d.0 as int) * 16 + (c + d.1 as int)].contents is Unmerged
    &&& cells[(r + d.0 as int) * 16 + (c + d.1 as int)].contents->Unmerged_terrain_type == cells[r
        * 16 + c].contents->Unmerged_terrain_type
}

/// As `soft_dir_ok`, but edge pinning also refuses to merge into a corner
/// cell.
pub open spec fn edge_dir_ok(cells: Seq<Cell>, r: int, c: int, d: (i8, i8)) -> bool {
    &&& soft_dir_ok(cells, r, c, d)
    &&& !((r + d.0 as int == 0 || r + d.0 as int == 15) && (c + d.1 as int == 0 || c + d.1 as int
        == 15))
}

/// The cell re-tagged as merged into the parent at (pr, pc) with terrain
/// `t`.
pub open spec fn merged_into(cell: Cell, pr: int, pc: int, t: TerrainType) -> Cell {
    Cell {
        contents: Contents::Merged {
            parent_row: pr as u8,
            parent_col: pc as u8,
            parent_terrain_type: t,
        },
        ..cell
    }
}

/// The cell with its merge importance bumped (saturating), exactly as
/// `make_more_important` leaves it.
pub open spec fn bumped(cell: Cell) -> Cell {
    match cell.contents {
        Contents::Unmerged { terrain_type, merge_importance } => Cell {
            contents: Contents::Unmerged {
                terrain_type,
                merge_importance: if merge_importance < 255 {
                    (merge_importance + 1) as u8
                } else {
                    merge_importance
                },
            },
            ..cell
        },
        _ => cell,
    }
}

/// The terrain a cell's contents carry, where they carry one.
pub open spec fn spec_terrain_of(cell: Cell) -> Option<TerrainType> {
    match cell.contents {
        Contents::Unmerged { terrain_type, .. } => Some(terrain_type),
        Contents::Merged { parent_terrain_type, .. } => Some(parent_terrain_type),
        Contents::Region { terrain_type, .. } => Some(terrain_type),
        Contents::Subregion { parent_terrain_type, .. } => Some(parent_terrain_type),
        _ => None,
    }
}

/// Every merged cell's parent reference points at a cell of the terrain the
/// link records, or at a dead end that carries no terrain: merging never
/// joins different terrains.
pub open spec fn parents_terrain_consistent(cells: Seq<Cell>) -> bool {
    forall|i: int|
        0 <= i < cells.len() ==> match (#[trigger] cells[i]).contents {
            Contents::Merged { parent_row, parent_col, parent_terrain_type } => {
                spec_terrain_of(cells[parent_row as int * 16 + parent_col as int]) is None
                    || spec_terrain_of(cells[parent_row as int * 16 + parent_col as int]) == Some(
                    parent_terrain_type,
                )
            },
            _ => true,
        }
}

/// Every subregion's recorded terrain agrees with the terrain of a region
/// carrying its parent id.
pub open spec fn subregion_terrains_agree(cells: Seq<Cell>) -> bool {
    forall|i: int|
        0 <= i < cells.len() ==> match (#[trigger] cells[i]).contents {
            Contents::Subregion { parent_region_id, parent_terrain_type, .. } => exists|j: int|
                0 <= j < cells.len() && match (#[trigger] cells[j]).contents {
                    Contents::Region { region_id, terrain_type, .. } => region_id
                        == parent_region_id && terrain_type == parent_terrain_type,
                    _ => false,
                },
            _ => true,
        }
}

proof fn lemma_terrain_preserving_consistency(a: Seq<Cell>, b: Seq<Cell>)
    requires
        a.len() == GRID_CELLS,
        b.len() == GRID_CELLS,
        parents_terrain_consistent(a),
        forall|i: int|
            0 <= i < GRID_CELLS ==> (spec_terrain_of(#[trigger] b[i]) == spec_terrain_of(a[i])
                || spec_terrain_of(b[i]) is None),
        forall|i: int|
            0 <= i < GRID_CELLS && (#[trigger] b[i]).contents is Merged && b[i].contents
                != a[i].contents ==> (spec_terrain_of(
                b[b[i].contents->Merged_parent_row as int * 16
                    + b[i].contents->Merged_parent_col as int],
            ) is None || spec_terrain_of(
                b[b[i].contents->Merged_parent_row as int * 16
                    + b[i].contents->Merged_parent_col as int],
            ) == Some(b[i].contents->Merged_parent_terrain_type)),
        forall|i: int|
            0 <= i < GRID_CELLS && (#[trigger] b[i]).contents is Merged
                ==> b[i].contents->Merged_parent_row < 16 && b[i].contents->Merged_parent_col < 16,
    ensures
        parents_terrain_consistent(b),
{
    assert forall|i: int| 0 <= i < GRID_CELLS implies match (#[trigger] b[i]).contents {
        Contents::Merged { parent_row, parent_col, parent_terrain_type } => {
            spec_terrain_of(b[parent_row as int * 16 + parent_col as int]) is None
                || spec_terrain_of(b[parent_row as int * 16 + parent_col as int]) == Some(
                parent_terrain_type,
            )
        },
        _ => true,
    } by {
        match b[i].contents {
            Contents::Merged { parent_row, parent_col, parent_terrain_type } => {
                assert(0 <= (parent_row as int * 16 + parent_col as int) < GRID_CELLS);
                if b[i].contents == a[i].contents {
                    assert(match a[i].contents {
                        Contents::Merged { parent_row: pr, parent_col: pc, parent_terrain_type: pt } => {
                            spec_terrain_of(a[pr as int * 16 + pc as int]) is None
                                || spec_terrain_of(a[pr as int * 16 + pc as int]) == Some(pt)
                        },
                        _ => true,
                    });
                }
            },
            _ => (),
        }
    }
}

/// What one successful soft merge leaves behind: for some accepted direction,
/// either the cell merged into a crucial neighbor (which is left as it was),
/// or a coin decided which of the pair merged into the other, the surviving
/// parent gaining importance.
pub open spec fn soft_merged(a: Seq<Cell>, b: Seq<Cell>, r: int, c: int) -> bool {
    exists|d: (i8, i8)|
        #[trigger] soft_dir_ok(a, r, c, d) && {
            let rr = r + d.0 as int;
            let cc = c + d.1 as int;
            let t = a[r * 16 + c].contents->Unmerged_terrain_type;
            ||| (a[rr * 16 + cc].spec_is_crucial() && b == a.update(
                r * 16 + c,
                merged_into(a[r * 16 + c], rr, cc, t),
            ))
            ||| (!a[rr * 16 + cc].spec_is_crucial() && b == a.update(
                rr * 16 + cc,
                merged_into(a[rr * 16 + cc], r, c, t),
            ).update(r * 16 + c, bumped(a[r * 16 + c])))
            ||| (!a[rr * 16 + cc].spec_is_crucial() && b == a.update(
                r * 16 + c,
                merged_into(a[r * 16 + c], rr, cc, t),
            ).update(rr * 16 + cc, bumped(a[rr * 16 + cc])))
        }
}

/// What one successful edge merge leaves behind: the edge cell merged as the
/// child into a neighbor accepted by some direction, the parent gaining
/// importance.
pub open spec fn edge_merged(a: Seq<Cell>, b: Seq<Cell>, r: int, c: int) -> bool {
    exists|d: (i8, i8)|
        #[trigger] edge_dir_ok(a, r, c, d) && {
            let rr = r + d.0 as int;
            let cc = c + d.1 as int;
            let t = a[r * 16 + c].contents->Unmerged_terrain_type;
            b == a.update(r * 16 + c, merged_into(a[r * 16 + c], rr, cc, t)).update(
                rr * 16 + cc,
                bumped(a[rr * 16 + cc]),
            )
        }
}

impl Board {
    /// Tries to merge the cell at (r, c) into a randomly chosen same-terrain
    /// orthogonal neighbor; a coin flip decides which of the two survives,
    /// and the survivor gains merge importance. Crucial cells and their
    /// crucial neighbors are never demoted.
    #[verifier::rlimit(100)]
    fn soft_merge_cell(&mut self, r: usize, c: usize, rng: &mut fastrand::Rng)
        requires
            old(self).wf(),
            merge_stage(old(self).cells@),
            r < GRID_SIZE,
            c < GRID_SIZE,
        ensures
            final(self).wf(),
            merge_stage(final(self).cells@),
            same_centroids(old(self).cells@, final(self).cells@),
            same_except_cells(*old(self), *final(self)),
            forall|i: int|
                0 <= i < GRID_CELLS && !is_unmerged(old(self).cells@[i]) ==> final(self).cells@[i]
                    == old(self).cells@[i],
            forall|i: int|
                0 <= i < GRID_CELLS && final(self).cells@[i].contents is Culled ==> final(self).cells@[i] == old(self).cells@[i],
            forall|i: int|
                0 <= i < GRID_CELLS ==> (spec_terrain_of(#[trigger] final(self).cells@[i])
                    == spec_terrain_of(old(self).cells@[i]) || spec_terrain_of(
                    final(self).cells@[i],
                ) is None),
            parents_terrain_consistent(old(self).cells@) ==> parents_terrain_consistent(
                final(self).cells@,
            ),
            !(is_unmerged(old(self).cells@[r * 16 + c]) && !old(self).cells@[r * 16
                + c].spec_is_crucial() && (exists|d: (i8, i8)|
                soft_dir_ok(old(self).cells@, r as int, c as int, d))) ==> *final(self) == *old(
                self,
            ),
            (is_unmerged(old(self).cells@[r * 16 + c]) && !old(self).cells@[r * 16
                + c].spec_is_crucial() && (exists|d: (i8, i8)|
                soft_dir_ok(old(self).cells@, r as int, c as int, d))) ==> (soft_merged(
                old(self).cells@,
                final(self).cells@,
                r as int,
                c as int,
            ) && count_unmerged(final(self).cells@) == count_unmerged(old(self).cells@) - 1),
    {
        let ghost gr = r as int;
        let ghost gc = c as int;
        let cell = self.get_cell(r, c);
        let terrain_type = match cell.contents {
            Contents::Unmerged { terrain_type, .. } => terrain_type,
            _ => {
                return ;
            },
        };
        if cell.is_crucial() {
            return ;
        }
        let mut adjacents = direction_offsets();
        let ghost dirs0 = adjacents@;
        crate::rng::rng_shuffle_dirs(rng, &mut adjacents);
        let mut k: usize = 0;
        while k < 4
            invariant
                *self == *old(self),
                self.wf(),
                merge_stage(self.cells@),
                adjacents@.len() == 4,
                adjacents@.to_multiset() == dirs0.to_multiset(),
                dirs0 == seq![(1i8, 0i8), (-1i8, 0i8), (0i8, 1i8), (0i8, -1i8)],
                forall|i: int| 0 <= i < 4 ==> is_unit_dir(#[trigger] adjacents@[i]),
                r < GRID_SIZE,
                c < GRID_SIZE,
                gr == r as int && gc == c as int,
                is_unmerged(old(self).cells@[r * 16 + c]),
                !old(self).cells@[gr * 16 + gc].spec_is_crucial(),
                old(self).cells@[gr * 16 + gc].contents->Unmerged_terrain_type == terrain_type,
                forall|kk: int|
                    0 <= kk < k ==> !soft_dir_ok(old(self).cells@, gr, gc, #[trigger] adjacents@[kk]),
            decreases 4 - k,
        {
            let (dr, dc) = adjacents[k];
            let ghost d = adjacents@[k as int];
            let skip = (r == 0 && dr < 0) || (c == 0 && dc < 0) || (r + 1 == GRID_SIZE && dr > 0)
                || (c + 1 == GRID_SIZE && dc > 0);
            if !skip {
                let rr: usize = if dr == -1 {
                    r - 1
                } else if dr == 1 {
                    r + 1
                } else {
                    r
                };
                let cc: usize = if dc == -1 {
                    c - 1
                } else if dc == 1 {
                    c + 1
                } else {
                    c
                };
                proof {
                    assert(rr as int == gr + d.0 as int && cc as int == gc + d.1 as int);
                    assert(rr * 16 + cc != r * 16 + c);
                }
                let neighbor = self.get_cell(rr, cc);
                let tt_matches = match neighbor.contents {
                    Contents::Unmerged { terrain_type: tt, .. } => tt == terrain_type,
                    _ => false,
                };
                if tt_matches {
                    proof {
                        assert(soft_dir_ok(old(self).cells@, gr, gc, d));
                    }
                    let ghost before = self.cells@;
                    if neighbor.is_crucial() {
                        let me = self.get_cell(r, c);
                        self.set_cell(
                            r,
                            c,
                            Cell {
                                contents: Contents::Merged {
                                    parent_row: rr as u8,
                                    parent_col: cc as u8,
                                    parent_terrain_type: terrain_type,
                                },
                                ..me
                            },
                        );
                        proof {
                            assert(self.cells@ == before.update(
                                gr * 16 + gc,
                                merged_into(before[gr * 16 + gc], gr + d.0 as int, gc + d.1 as int, terrain_type),
                            ));
                            assert(soft_merged(before, self.cells@, gr, gc));
                            lemma_count_matching_update(
                                before,
                                unmerged_fn(),
                                gr * 16 + gc,
                                self.cells@[gr * 16 + gc],
                                GRID_CELLS as int,
                            );
                            lemma_unmerged_fn(before[gr * 16 + gc]);
                            lemma_unmerged_fn(self.cells@[gr * 16 + gc]);
                            assert(merge_stage(self.cells@));
                            if parents_terrain_consistent(old(self).cells@) {
                                assert forall|i2: int|
                                    0 <= i2 < GRID_CELLS && (#[trigger] self.cells@[i2]).contents is Merged implies self.cells@[i2].contents->Merged_parent_row
                                    < 16 && self.cells@[i2].contents->Merged_parent_col < 16 by {}
                                lemma_terrain_preserving_consistency(old(self).cells@, self.cells@);
                            }
                        }
                        return ;
                    } else if crate::rng::rng_bool(rng) {
                        self.set_cell(
                            rr,
                            cc,
                            Cell {
                                contents: Contents::Merged {
                                    parent_row: r as u8,
                                    parent_col: c as u8,
                                    parent_terrain_type: terrain_type,
                                },
                                ..neighbor
                            },
                        );
                        let ghost mid = self.cells@;
                        let mut me = self.get_cell(r, c);
                        me.make_more_important();
                        self.set_cell(r, c, me);
                        proof {
                            assert(mid == before.update(
                                (gr + d.0 as int) * 16 + (gc + d.1 as int),
                                merged_into(
                                    before[(gr + d.0 as int) * 16 + (gc + d.1 as int)],
                                    gr,
                                    gc,
                                    terrain_type,
                                ),
                            ));
                            assert(self.cells@ == mid.update(
                                gr * 16 + gc,
                                bumped(before[gr * 16 + gc]),
                            ));
                            assert(soft_merged(before, self.cells@, gr, gc));
                            lemma_count_matching_update(
                                before,
                                unmerged_fn(),
                                (gr + d.0 as int) * 16 + (gc + d.1 as int),
                                mid[(gr + d.0 as int) * 16 + (gc + d.1 as int)],
                                GRID_CELLS as int,
                            );
                            lemma_count_matching_update(
                                mid,
                                unmerged_fn(),
                                gr * 16 + gc,
                                self.cells@[gr * 16 + gc],
                                GRID_CELLS as int,
                            );
                            lemma_unmerged_fn(before[(gr + d.0 as int) * 16 + (gc + d.1 as int)]);
                            lemma_unmerged_fn(mid[(gr + d.0 as int) * 16 + (gc + d.1 as int)]);
                            lemma_unmerged_fn(mid[gr * 16 + gc]);
                            lemma_unmerged_fn(self.cells@[gr * 16 + gc]);
                            assert(merge_stage(self.cells@));
                            if parents_terrain_consistent(old(self).cells@) {
                                assert forall|i2: int|
                                    0 <= i2 < GRID_CELLS && (#[trigger] self.cells@[i2]).contents is Merged implies self.cells@[i2].contents->Merged_parent_row
                                    < 16 && self.cells@[i2].contents->Merged_parent_col < 16 by {}
                                lemma_terrain_preserving_consistency(old(self).cells@, self.cells@);
                            }
                        }
                        return ;
                    } else {
                        let me = self.get_cell(r, c);
                        self.set_cell(
                            r,
                            c,
                            Cell {
                                contents: Contents::Merged {
                                    parent_row: rr as u8,
                                    parent_col: cc as u8,
                                    parent_terrain_type: terrain_type,
                                },
                                ..me
                            },
                        );
                        let ghost mid = self.cells@;
                        let mut other = self.get_cell(rr, cc);
                        other.make_more_important();
                        self.set_cell(rr, cc, other);
                        proof {
                            assert(mid == before.update(
                                gr * 16 + gc,
                                merged_into(
                                    before[gr * 16 + gc],
                                    gr + d.0 as int,
                                    gc + d.1 as int,
                                    terrain_type,
                                ),
                            ));
                            assert(self.cells@ == mid.update(
                                (gr + d.0 as int) * 16 + (gc + d.1 as int),
                                bumped(before[(gr + d.0 as int) * 16 + (gc + d.1 as int)]),
                            ));
                            assert(soft_merged(before, self.cells@, gr, gc));
                            lemma_count_matching_update(
                                before,
                                unmerged_fn(),
                                gr * 16 + gc,
                                mid[gr * 16 + gc],
                                GRID_CELLS as int,
                            );
                            lemma_count_matching_update(
                                mid,
                                unmerged_fn(),
                                (gr + d.0 as int) * 16 + (gc + d.1 as int),
                                self.cells@[(gr + d.0 as int) * 16 + (gc + d.1 as int)],
                                GRID_CELLS as int,
                            );
                            lemma_unmerged_fn(before[gr * 16 + gc]);
                            lemma_unmerged_fn(mid[gr * 16 + gc]);
                            lemma_unmerged_fn(mid[(gr + d.0 as int) * 16 + (gc + d.1 as int)]);
                            lemma_unmerged_fn(
                                self.cells@[(gr + d.0 as int) * 16 + (gc + d.1 as int)],
                            );
                            assert(merge_stage(self.cells@));
                            if parents_terrain_consistent(old(self).cells@) {
                                assert forall|i2: int|
                                    0 <= i2 < GRID_CELLS && (#[trigger] self.cells@[i2]).contents is Merged implies self.cells@[i2].contents->Merged_parent_row
                                    < 16 && self.cells@[i2].contents->Merged_parent_col < 16 by {}
                                lemma_terrain_preserving_consistency(old(self).cells@, self.cells@);
                            }
                        }
                        return ;
                    }
                } else {
                    proof {
                        assert(!soft_dir_ok(old(self).cells@, gr, gc, d));
                    }
                }
            } else {
                proof {
                    assert(!soft_dir_ok(old(self).cells@, gr, gc, d));
                }
            }
            k = k + 1;
        }
        proof {
            broadcast use vstd::seq_lib::group_to_multiset_ensures;

            assert forall|d2: (i8, i8)| is_unit_dir(d2) implies !soft_dir_ok(
                old(self).cells@,
                gr,
                gc,
                d2,
            ) by {
                assert(dirs0.contains(d2)) by {
                    if d2 == (1i8, 0i8) {
                        assert(dirs0[0] == d2);
                    } else if d2 == (-1i8, 0i8) {
                        assert(dirs0[1] == d2);
                    } else if d2 == (0i8, 1i8) {
                        assert(dirs0[2] == d2);
                    } else {
                        assert(dirs0[3] == d2);
                    }
                }
                assert(adjacents@.to_multiset().count(d2) > 0);
                assert(adjacents@.contains(d2));
                let kk = choose|kk: int| 0 <= kk < adjacents@.len() && adjacents@[kk] == d2;
                assert(!soft_dir_ok(old(self).cells@, gr, gc, adjacents@[kk]));
            }
        }
    }

    /// Tries one merge of an outer-ring cell into a same-terrain, non-corner
    /// neighbor, visiting neighbors in random order; reduces artifacts at the
    /// map border.
    #[verifier::rlimit(100)]
    fn merge_edge_cell(&mut self, r: usize, c: usize, rng: &mut fastrand::Rng)
        requires
            old(self).wf(),
            merge_stage(old(self).cells@),
            r < GRID_SIZE,
            c < GRID_SIZE,
        ensures
            final(self).wf(),
            merge_stage(final(self).cells@),
            same_centroids(old(self).cells@, final(self).cells@),
            same_except_cells(*old(self), *final(self)),
            forall|i: int|
                0 <= i < GRID_CELLS && !is_unmerged(old(self).cells@[i]) ==> final(self).cells@[i]
                    == old(self).cells@[i],
            forall|i: int|
                0 <= i < GRID_CELLS && final(self).cells@[i].contents is Culled ==> final(self).cells@[i] == old(self).cells@[i],
            forall|i: int|
                0 <= i < GRID_CELLS ==> (spec_terrain_of(#[trigger] final(self).cells@[i])
                    == spec_terrain_of(old(self).cells@[i]) || spec_terrain_of(
                    final(self).cells@[i],
                ) is None),
            parents_terrain_consistent(old(self).cells@) ==> parents_terrain_consistent(
                final(self).cells@,
            ),
            !(is_unmerged(old(self).cells@[r * 16 + c]) && !old(self).cells@[r * 16
                + c].spec_is_crucial() && (exists|d: (i8, i8)|
                edge_dir_ok(old(self).cells@, r as int, c as int, d))) ==> *final(self) == *old(
                self,
            ),
            (is_unmerged(old(self).cells@[r * 16 + c]) && !old(self).cells@[r * 16
                + c].spec_is_crucial() && (exists|d: (i8, i8)|
                edge_dir_ok(old(self).cells@, r as int, c as int, d))) ==> (edge_merged(
                old(self).cells@,
                final(self).cells@,
                r as int,
                c as int,
            ) && count_unmerged(final(self).cells@) == count_unmerged(old(self).cells@) - 1),
    {
        let ghost gr = r as int;
        let ghost gc = c as int;
        let cell = self.get_cell(r, c);
        let terrain_type = match cell.contents {
            Contents::Unmerged { terrain_type, .. } => terrain_type,
            _ => {
                return ;
            },
        };
        if cell.is_crucial() {
            return ;
        }
        let mut adjacents = direction_offsets();
        let ghost dirs0 = adjacents@;
        crate::rng::rng_shuffle_dirs(rng, &mut adjacents);
        let mut k: usize = 0;
        while k < 4
            invariant
                *self == *old(self),
                self.wf(),
                merge_stage(self.cells@),
                adjacents@.len() == 4,
                adjacents@.to_multiset() == dirs0.to_multiset(),
                dirs0 == seq![(1i8, 0i8), (-1i8, 0i8), (0i8, 1i8), (0i8, -1i8)],
                forall|i: int| 0 <= i < 4 ==> is_unit_dir(#[trigger] adjacents@[i]),
                r < GRID_SIZE,
                c < GRID_SIZE,
                gr == r as int && gc == c as int,
                is_unmerged(old(self).cells@[r * 16 + c]),
                !old(self).cells@[gr * 16 + gc].spec_is_crucial(),
                old(self).cells@[gr * 16 + gc].contents->Unmerged_terrain_type == terrain_type,
                forall|kk: int|
                    0 <= kk < k ==> !edge_dir_ok(old(self).cells@, gr, gc, #[trigger] adjacents@[kk]),
            decreases 4 - k,
        {
            let (dr, dc) = adjacents[k];
            let ghost d = adjacents@[k as int];
            let skip = (r == 0 && dr < 0) || (c == 0 && dc < 0) || (r + 1 == GRID_SIZE && dr > 0)
                || (c + 1 == GRID_SIZE && dc > 0);
            if !skip {
                let rr: usize = if dr == -1 {
                    r - 1
                } else if dr == 1 {
                    r + 1
                } else {
                    r
                };
                let cc: usize = if dc == -1 {
                    c - 1
                } else if dc == 1 {
                    c + 1
                } else {
                    c
                };
                proof {
                    assert(rr as int == gr + d.0 as int && cc as int == gc + d.1 as int);
                    assert(rr * 16 + cc != r * 16 + c);
                }
                let corner = (rr == 0 || rr == GRID_SIZE - 1) && (cc == 0 || cc == GRID_SIZE - 1);
                if !corner {
                    let neighbor = self.get_cell(rr, cc);
                    let tt_matches = match neighbor.contents {
                        Contents::Unmerged { terrain_type: tt, .. } => tt == terrain_type,
                        _ => false,
                    };
                    if tt_matches {
                        proof {
                            assert(edge_dir_ok(old(self).cells@, gr, gc, d));
                        }
                        let ghost before = self.cells@;
                        let me = self.get_cell(r, c);
                        self.set_cell(
                            r,
                            c,
                            Cell {
                                contents: Contents::Merged {
                                    parent_row: rr as u8,
                                    parent_col: cc as u8,
                                    parent_terrain_type: terrain_type,
                                },
                                ..me
                            },
                        );
                        let ghost mid = self.cells@;
                        let mut other = self.get_cell(rr, cc);
                        other.make_more_important();
                        self.set_cell(rr, cc, other);
                        proof {
                            assert(mid == before.update(
                                gr * 16 + gc,
                                merged_into(
                                    before[gr * 16 + gc],
                                    gr + d.0 as int,
                                    gc + d.1 as int,
                                    terrain_type,
                                ),
                            ));
                            assert(self.cells@ == mid.update(
                                (gr + d.0 as int) * 16 + (gc + d.1 as int),
                                bumped(before[(gr + d.0 as int) * 16 + (gc + d.1 as int)]),
                            ));
                            assert(edge_merged(before, self.cells@, gr, gc));
                            lemma_count_matching_update(
                                before,
                                unmerged_fn(),
                                gr * 16 + gc,
                                mid[gr * 16 + gc],
                                GRID_CELLS as int,
                            );
                            lemma_count_matching_update(
                                mid,
                                unmerged_fn(),
                                (gr + d.0 as int) * 16 + (gc + d.1 as int),
                                self.cells@[(gr + d.0 as int) * 16 + (gc + d.1 as int)],
                                GRID_CELLS as int,
                            );
                            lemma_unmerged_fn(before[gr * 16 + gc]);
                            lemma_unmerged_fn(mid[gr * 16 + gc]);
                            lemma_unmerged_fn(mid[(gr + d.0 as int) * 16 + (gc + d.1 as int)]);
                            lemma_unmerged_fn(
                                self.cells@[(gr + d.0 as int) * 16 + (gc + d.1 as int)],
                            );
                            assert(merge_stage(self.cells@));
                            if parents_terrain_consistent(old(self).cells@) {
                                assert forall|i2: int|
                                    0 <= i2 < GRID_CELLS && (#[trigger] self.cells@[i2]).contents is Merged implies self.cells@[i2].contents->Merged_parent_row
                                    < 16 && self.cells@[i2].contents->Merged_parent_col < 16 by {}
                                lemma_terrain_preserving_consistency(old(self).cells@, self.cells@);
                            }
                        }
                        return ;
                    } else {
                        proof {
                            assert(!edge_dir_ok(old(self).cells@, gr, gc, d));
                        }
                    }
                } else {
                    proof {
                        assert(!edge_dir_ok(old(self).cells@, gr, gc, d));
                    }
                }
            } else {
                proof {
                    assert(!edge_dir_ok(old(self).cells@, gr, gc, d));
                }
            }
            k = k + 1;
        }
        proof {
            broadcast use vstd::seq_lib::group_to_multiset_ensures;

            assert forall|d2: (i8, i8)| is_unit_dir(d2) implies !edge_dir_ok(
                old(self).cells@,
                gr,
                gc,
                d2,
            ) by {
                assert(dirs0.contains(d2)) by {
                    if d2 == (1i8, 0i8) {
                        assert(dirs0[0] == d2);
                    } else if d2 == (-1i8, 0i8) {
                        assert(dirs0[1] == d2);
                    } else if d2 == (0i8, 1i8) {
                        assert(dirs0[2] == d2);
                    } else {
                        assert(dirs0[3] == d2);
                    }
                }
                assert(adjacents@.to_multiset().count(d2) > 0);
                assert(adjacents@.contains(d2));
                let kk = choose|kk: int| 0 <= kk < adjacents@.len() && adjacents@[kk] == d2;
                assert(!edge_dir_ok(old(self).cells@, gr, gc, adjacents@[kk]));
            }
        }
    }
}

} // verus!

verus! {

proof fn lemma_count_matching_exists(s: Seq<Cell>, f: spec_fn(Cell) -> bool, k: int)
    requires
        0 <= k <= s.len(),
        count_matching(s, f, k) > 0,
    ensures
        exists|i: int| 0 <= i < k && f(s[i]),
    decreases k,
{
    if k > 0 {
        if f(s[k - 1]) {
            assert(0 <= k - 1 < k && f(s[k - 1]));
        } else {
            lemma_count_matching_exists(s, f, k - 1);
        }
    }
}

/// Squared pixel distance between two cells' centroids.
pub open spec fn spec_centroid_sqdist(a: Cell, b: Cell) -> int {
    (a.centroid_x - b.centroid_x) * (a.centroid_x - b.centroid_x) + (a.centroid_y - b.centroid_y)
        * (a.centroid_y - b.centroid_y)
}

/// The neighbor tallies the badness score is built from, folded over the
/// first `k` offsets (row-major) of the 9x9 box around (r, c): unmerged
/// cells within the maximum region spacing, counted as (closer than the
/// minimum spacing, same terrain, different terrain).
pub open spec fn spec_badness_counts(cells: Seq<Cell>, r: int, c: int, k: int) -> (int, int, int)
    decreases k,
{
    if k <= 0 {
        (0, 0, 0)
    } else {
        let prev = spec_badness_counts(cells, r, c, k - 1);
        let rr = r + (k - 1) / 9 - 4;
        let cc = c + (k - 1) % 9 - 4;
        if (rr == r && cc == c) || rr < 0 || rr >= 16 || cc < 0 || cc >= 16 {
            prev
        } else {
            match cells[rr * 16 + cc].contents {
                Contents::Unmerged { terrain_type: tt, .. } => {
                    let sq = spec_centroid_sqdist(cells[rr * 16 + cc], cells[r * 16 + c]);
                    if sq > MAX_DISTANCE_BETWEEN_REGIONS * MAX_DISTANCE_BETWEEN_REGIONS {
                        prev
                    } else {
                        (
                            prev.0 + if sq < MIN_DISTANCE_BETWEEN_REGIONS
                                * MIN_DISTANCE_BETWEEN_REGIONS {
                                1int
                            } else {
                                0int
                            },
                            prev.1 + if tt == cells[r * 16
                                + c].contents->Unmerged_terrain_type {
                                1int
                            } else {
                                0int
                            },
                            prev.2 + if tt == cells[r * 16
                                + c].contents->Unmerged_terrain_type {
                                0int
                            } else {
                                1int
                            },
                        )
                    }
                },
                _ => prev,
            }
        }
    }
}

/// The smaller of a tally and its cap.
pub open spec fn spec_min_cap(v: int, cap: int) -> int {
    if v < cap {
        v
    } else {
        cap
    }
}

/// The badness score of the cell at (r, c): zero for anything but an
/// unmerged candidate; for a candidate, a base of 10, plus 25 on the outer
/// ring, minus nearby different-terrain cells (capped at 4), plus nearby
/// same-terrain cells (capped at 4), plus ten per too-close neighbor (capped
/// at 8).
pub open spec fn spec_cell_badness(cells: Seq<Cell>, r: int, c: int) -> int {
    if !(cells[r * 16 + c].contents is Unmerged) {
        0
    } else {
        let counts = spec_badness_counts(cells, r, c, 81);
        10 + (if r == 0 || c == 0 || r == 15 || c == 15 {
            25int
        } else {
            0int
        }) - spec_min_cap(counts.2, 4) + spec_min_cap(counts.1, 4) + 10 * spec_min_cap(counts.0, 8)
    }
}

proof fn lemma_badness_counts_bounds(cells: Seq<Cell>, r: int, c: int, k: int)
    requires
        0 <= k,
    ensures
        0 <= spec_badness_counts(cells, r, c, k).0 <= k,
        0 <= spec_badness_counts(cells, r, c, k).1 <= k,
        0 <= spec_badness_counts(cells, r, c, k).2 <= k,
    decreases k,
{
    if k > 0 {
        lemma_badness_counts_bounds(cells, r, c, k - 1);
    }
}

/// An eligible forced-merge parent for the unmerged cell at (r, c): a
/// same-terrain unmerged cell in the 9x9 search box, within the maximum
/// region spacing by squared centroid distance.
pub open spec fn spec_force_parent_ok(cells: Seq<Cell>, r: int, c: int, rr: int, cc: int) -> bool {
    &&& 0 <= rr < 16
    &&& 0 <= cc < 16
    &&& !(rr == r && cc == c)
    &&& r - 4 <= rr <= r + 4
    &&& c - 4 <= cc <= c + 4
    &&& cells[rr * 16 + cc].contents is Unmerged
    &&& cells[rr * 16 + cc].contents->Unmerged_terrain_type == cells[r * 16
        + c].contents->Unmerged_terrain_type
    &&& spec_centroid_sqdist(cells[rr * 16 + cc], cells[r * 16 + c])
        <= MAX_DISTANCE_BETWEEN_REGIONS * MAX_DISTANCE_BETWEEN_REGIONS
}

impl Board {
    /// Integer badness of an unmerged cell, exactly `spec_cell_badness`: a
    /// border penalty, minus nearby different-terrain cells (they usefully
    /// separate regions), plus nearby same-terrain cells (redundancy), plus a
    /// heavy penalty for neighbors closer than the minimum region spacing.
    /// Non-candidates score zero; candidates score at least 6.
    fn calculate_cell_badness(&self, r: usize, c: usize) -> (b: i8)
        requires
            self.wf(),
            r < GRID_SIZE,
            c < GRID_SIZE,
        ensures
            b as int == spec_cell_badness(self.cells@, r as int, c as int),
            is_unmerged(self.spec_cell(r as int, c as int)) ==> 6 <= b <= 119,
            !is_unmerged(self.spec_cell(r as int, c as int)) ==> b == 0,
    {
        let cell = self.get_cell(r, c);
        let terrain_type = match cell.contents {
            Contents::Unmerged { terrain_type, .. } => terrain_type,
            _ => {
                return 0;
            },
        };
        let ghost gr = r as int;
        let ghost gc = c as int;
        let mut num_too_close: usize = 0;
        let mut num_close_similar: usize = 0;
        let mut num_close_different: usize = 0;
        let mut i: usize = 0;
        while i < 9
            invariant
                self.wf(),
                r < GRID_SIZE,
                c < GRID_SIZE,
                i <= 9,
                self.cells@[gr * 16 + gc] == cell,
                cell.contents == (Contents::Unmerged {
                    terrain_type,
                    merge_importance: cell.contents->Unmerged_merge_importance,
                }),
                gr == r as int && gc == c as int,
                num_too_close as int == spec_badness_counts(self.cells@, gr, gc, i as int * 9).0,
                num_close_similar as int == spec_badness_counts(self.cells@, gr, gc, i as int * 9).1,
                num_close_different as int == spec_badness_counts(
                    self.cells@,
                    gr,
                    gc,
                    i as int * 9,
                ).2,
                num_too_close <= 81,
                num_close_similar <= 81,
                num_close_different <= 81,
            decreases 9 - i,
        {
            let mut j: usize = 0;
            while j < 9
                invariant
                    self.wf(),
                    r < GRID_SIZE,
                    c < GRID_SIZE,
                    i < 9,
                    j <= 9,
                    self.cells@[gr * 16 + gc] == cell,
                    cell.contents == (Contents::Unmerged {
                        terrain_type,
                        merge_importance: cell.contents->Unmerged_merge_importance,
                    }),
                    gr == r as int && gc == c as int,
                    num_too_close as int == spec_badness_counts(
                        self.cells@,
                        gr,
                        gc,
                        i as int * 9 + j as int,
                    ).0,
                    num_close_similar as int == spec_badness_counts(
                        self.cells@,
                        gr,
                        gc,
                        i as int * 9 + j as int,
                    ).1,
                    num_close_different as int == spec_badness_counts(
                        self.cells@,
                        gr,
                        gc,
                        i as int * 9 + j as int,
                    ).2,
                    num_too_close <= 81,
                    num_close_similar <= 81,
                    num_close_different <= 81,
                decreases 9 - j,
            {
                proof {
                    let k = i as int * 9 + j as int;
                    assert(k / 9 == i as int && k % 9 == j as int);
                    lemma_badness_counts_bounds(self.cells@, gr, gc, k + 1);
                }
                let in_center = i == 4 && j == 4;
                let rri: i64 = r as i64 + i as i64 - 4;
                let cci: i64 = c as i64 + j as i64 - 4;
                if !in_center && 0 <= rri && rri < GRID_SIZE as i64 && 0 <= cci && cci
                    < GRID_SIZE as i64 {
                    let rr = rri as usize;
                    let cc = cci as usize;
                    let other = self.get_cell(rr, cc);
                    let other_tt = match other.contents {
                        Contents::Unmerged { terrain_type: tt, .. } => Some(tt),
                        _ => None,
                    };
                    if let Some(tt) = other_tt {
                        let dx: i64 = other.centroid_x as i64 - cell.centroid_x as i64;
                        let dy: i64 = other.centroid_y as i64 - cell.centroid_y as i64;
                        proof {
                            assert(0 <= dx * dx <= 255 * 255) by (nonlinear_arith)
                                requires
                                    -255 <= dx <= 255,
                            ;
                            assert(0 <= dy * dy <= 255 * 255) by (nonlinear_arith)
                                requires
                                    -255 <= dy <= 255,
                            ;
                        }
                        let sqdis: i64 = dx * dx + dy * dy;
                        if sqdis <= MAX_DISTANCE_BETWEEN_REGIONS * MAX_DISTANCE_BETWEEN_REGIONS {
                            if sqdis < MIN_DISTANCE_BETWEEN_REGIONS
                                * MIN_DISTANCE_BETWEEN_REGIONS {
                                num_too_close = num_too_close + 1;
                            }
                            if tt == terrain_type {
                                num_close_similar = num_close_similar + 1;
                            } else {
                                num_close_different = num_close_different + 1;
                            }
                        }
                    }
                }
                j = j + 1;
            }
            i = i + 1;
        }
        proof {
            lemma_badness_counts_bounds(self.cells@, gr, gc, 81);
        }
        let mut badness: i64 = 10;
        if r == 0 || c == 0 || r == GRID_SIZE - 1 || c == GRID_SIZE - 1 {
            badness = badness + 25;
        }
        let capped_diff: i64 = if num_close_different < 4 {
            num_close_different as i64
        } else {
            4
        };
        let capped_sim: i64 = if num_close_similar < 4 {
            num_close_similar as i64
        } else {
            4
        };
        let capped_close: i64 = if num_too_close < 8 {
            num_too_close as i64
        } else {
            8
        };
        badness = badness - capped_diff + capped_sim + 10 * capped_close;
        badness as i8
    }

    /// Forces the unmerged cell at (r, c) out of the candidate set: it
    /// merges into a nearest eligible parent — a same-terrain unmerged cell
    /// in the 9x9 search box within the maximum region spacing, at minimal
    /// squared centroid distance — or is culled only when no eligible parent
    /// exists. Any other cell is left alone.
    fn force_merge_cell(&mut self, r: usize, c: usize)
        requires
            old(self).wf(),
            merge_stage(old(self).cells@),
            r < GRID_SIZE,
            c < GRID_SIZE,
        ensures
            final(self).wf(),
            merge_stage(final(self).cells@),
            same_centroids(old(self).cells@, final(self).cells@),
            same_except_cells(*old(self), *final(self)),
            forall|i: int|
                0 <= i < GRID_CELLS && i != r * 16 + c ==> final(self).cells@[i]
                    == old(self).cells@[i],
            is_unmerged(old(self).cells@[r * 16 + c]) ==> !is_unmerged(
                final(self).cells@[r * 16 + c],
            ),
            is_unmerged(old(self).cells@[r * 16 + c]) ==> (final(self).cells@[r * 16
                + c].contents is Merged || final(self).cells@[r * 16 + c].contents == (
            Contents::Culled { occupation_percentage: 0u8 })),
            !is_unmerged(old(self).cells@[r * 16 + c]) ==> *final(self) == *old(self),
            forall|i: int|
                0 <= i < GRID_CELLS ==> (spec_terrain_of(#[trigger] final(self).cells@[i])
                    == spec_terrain_of(old(self).cells@[i]) || spec_terrain_of(
                    final(self).cells@[i],
                ) is None),
            parents_terrain_consistent(old(self).cells@) ==> parents_terrain_consistent(
                final(self).cells@,
            ),
            (is_unmerged(old(self).cells@[r * 16 + c]) && !(exists|r2: int, c2: int|
                spec_force_parent_ok(old(self).cells@, r as int, c as int, r2, c2))) ==> final(self).cells@[r * 16 + c] == (Cell {
                contents: Contents::Culled { occupation_percentage: 0u8 },
                ..old(self).cells@[r * 16 + c]
            }),
            (is_unmerged(old(self).cells@[r * 16 + c]) && (exists|r2: int, c2: int|
                spec_force_parent_ok(old(self).cells@, r as int, c as int, r2, c2))) ==> (exists|
                rr: int,
                cc: int,
            |
                {
                    &&& #[trigger] spec_force_parent_ok(old(self).cells@, r as int, c as int, rr, cc)
                    &&& final(self).cells@[r * 16 + c] == (Cell {
                        contents: Contents::Merged {
                            parent_row: rr as u8,
                            parent_col: cc as u8,
                            parent_terrain_type: old(self).cells@[r * 16
                                + c].contents->Unmerged_terrain_type,
                        },
                        ..old(self).cells@[r * 16 + c]
                    })
                    &&& forall|r2: int, c2: int|
                        #[trigger] spec_force_parent_ok(old(self).cells@, r as int, c as int, r2, c2)
                            ==> spec_centroid_sqdist(
                            old(self).cells@[r2 * 16 + c2],
                            old(self).cells@[r * 16 + c],
                        ) >= spec_centroid_sqdist(
                            old(self).cells@[rr * 16 + cc],
                            old(self).cells@[r * 16 + c],
                        )
                }),
    {
        let ghost gr = r as int;
        let ghost gc = c as int;
        let cell = self.get_cell(r, c);
        let terrain_type = match cell.contents {
            Contents::Unmerged { terrain_type, .. } => terrain_type,
            _ => {
                return ;
            },
        };
        let mut closest_parent: Option<(usize, usize)> = None;
        let mut closest_sqdis: i64 = 2 * MAX_DISTANCE_BETWEEN_REGIONS * MAX_DISTANCE_BETWEEN_REGIONS;
        let mut i: usize = 0;
        while i < 9
            invariant
                *self == *old(self),
                self.wf(),
                r < GRID_SIZE,
                c < GRID_SIZE,
                i <= 9,
                gr == r as int && gc == c as int,
                self.cells@[gr * 16 + gc] == cell,
                cell.contents is Unmerged,
                cell.contents->Unmerged_terrain_type == terrain_type,
                match closest_parent {
                    Some((pr, pc)) => {
                        &&& pr < GRID_SIZE
                        &&& pc < GRID_SIZE
                        &&& spec_force_parent_ok(self.cells@, gr, gc, pr as int, pc as int)
                        &&& closest_sqdis == spec_centroid_sqdist(
                            self.cells@[pr as int * 16 + pc as int],
                            self.cells@[gr * 16 + gc],
                        )
                        &&& forall|r2: int, c2: int|
                            #[trigger] spec_force_parent_ok(self.cells@, gr, gc, r2, c2) && (r2 - gr
                                + 4) * 9 + (c2 - gc + 4) < i as int * 9 ==> spec_centroid_sqdist(
                                self.cells@[r2 * 16 + c2],
                                self.cells@[gr * 16 + gc],
                            ) >= closest_sqdis
                    },
                    None => {
                        &&& closest_sqdis == 1800
                        &&& forall|r2: int, c2: int|
                            #[trigger] spec_force_parent_ok(self.cells@, gr, gc, r2, c2) ==> (r2
                                - gr + 4) * 9 + (c2 - gc + 4) >= i as int * 9
                    },
                },
            decreases 9 - i,
        {
            let mut j: usize = 0;
            while j < 9
                invariant
                    *self == *old(self),
                    self.wf(),
                    r < GRID_SIZE,
                    c < GRID_SIZE,
                    i < 9,
                    j <= 9,
                    gr == r as int && gc == c as int,
                    self.cells@[gr * 16 + gc] == cell,
                    cell.contents is Unmerged,
                    cell.contents->Unmerged_terrain_type == terrain_type,
                    match closest_parent {
                        Some((pr, pc)) => {
                            &&& pr < GRID_SIZE
                            &&& pc < GRID_SIZE
                            &&& spec_force_parent_ok(self.cells@, gr, gc, pr as int, pc as int)
                            &&& closest_sqdis == spec_centroid_sqdist(
                                self.cells@[pr as int * 16 + pc as int],
                                self.cells@[gr * 16 + gc],
                            )
                            &&& forall|r2: int, c2: int|
                                #[trigger] spec_force_parent_ok(self.cells@, gr, gc, r2, c2) && (r2
                                    - gr + 4) * 9 + (c2 - gc + 4) < i as int * 9 + j as int
                                    ==> spec_centroid_sqdist(
                                    self.cells@[r2 * 16 + c2],
                                    self.cells@[gr * 16 + gc],
                                ) >= closest_sqdis
                        },
                        None => {
                            &&& closest_sqdis == 1800
                            &&& forall|r2: int, c2: int|
                                #[trigger] spec_force_parent_ok(self.cells@, gr, gc, r2, c2) ==> (r2
                                    - gr + 4) * 9 + (c2 - gc + 4) >= i as int * 9 + j as int
                        },
                    },
                decreases 9 - j,
            {
                let in_center = i == 4 && j == 4;
                let rri: i64 = r as i64 + i as i64 - 4;
                let cci: i64 = c as i64 + j as i64 - 4;
                let ghost k = i as int * 9 + j as int;
                if !in_center && 0 <= rri && rri < GRID_SIZE as i64 && 0 <= cci && cci
                    < GRID_SIZE as i64 {
                    let rr = rri as usize;
                    let cc = cci as usize;
                    let other = self.get_cell(rr, cc);
                    let other_tt = match other.contents {
                        Contents::Unmerged { terrain_type: tt, .. } => Some(tt),
                        _ => None,
                    };
                    let mut took = false;
                    if let Some(tt) = other_tt {
                        if tt == terrain_type {
                            let dx: i64 = other.centroid_x as i64 - cell.centroid_x as i64;
                            let dy: i64 = other.centroid_y as i64 - cell.centroid_y as i64;
                            proof {
                                assert(0 <= dx * dx <= 255 * 255) by (nonlinear_arith)
                                    requires
                                        -255 <= dx <= 255,
                                ;
                                assert(0 <= dy * dy <= 255 * 255) by (nonlinear_arith)
                                    requires
                                        -255 <= dy <= 255,
                                ;
                            }
                            let sqdis: i64 = dx * dx + dy * dy;
                            if sqdis <= MAX_DISTANCE_BETWEEN_REGIONS * MAX_DISTANCE_BETWEEN_REGIONS
                                && sqdis < closest_sqdis {
                                closest_parent = Some((rr, cc));
                                closest_sqdis = sqdis;
                                took = true;
                            }
                        }
                    }
                    proof {
                        assert forall|r2: int, c2: int|
                            #[trigger] spec_force_parent_ok(self.cells@, gr, gc, r2, c2) && (r2 - gr
                                + 4) * 9 + (c2 - gc + 4) == k implies r2 == rri as int && c2
                            == cci as int by {
                            assert(0 <= r2 - gr + 4 <= 8 && 0 <= c2 - gc + 4 <= 8);
                        }
                    }
                } else {
                    proof {
                        assert forall|r2: int, c2: int|
                            #[trigger] spec_force_parent_ok(self.cells@, gr, gc, r2, c2) implies (r2
                                - gr + 4) * 9 + (c2 - gc + 4) != k by {
                            assert(0 <= r2 - gr + 4 <= 8 && 0 <= c2 - gc + 4 <= 8);
                        }
                    }
                }
                j = j + 1;
            }
            i = i + 1;
        }
        proof {
            assert forall|r2: int, c2: int|
                #[trigger] spec_force_parent_ok(self.cells@, gr, gc, r2, c2) implies (r2 - gr + 4)
                    * 9 + (c2 - gc + 4) < 81 by {
                assert(0 <= r2 - gr + 4 <= 8 && 0 <= c2 - gc + 4 <= 8);
            }
        }
        match closest_parent {
            Some((rr, cc)) => {
                self.set_cell(
                    r,
                    c,
                    Cell {
                        contents: Contents::Merged {
                            parent_row: rr as u8,
                            parent_col: cc as u8,
                            parent_terrain_type: terrain_type,
                        },
                        ..cell
                    },
                );
            },
            None => {
                self.set_cell(
                    r,
                    c,
                    Cell { contents: Contents::Culled { occupation_percentage: 0 }, ..cell },
                );
            },
        }
        proof {
            assert(merge_stage(self.cells@));
            if parents_terrain_consistent(old(self).cells@) {
                assert forall|i2: int|
                    0 <= i2 < GRID_CELLS && (#[trigger] self.cells@[i2]).contents is Merged implies self.cells@[i2].contents->Merged_parent_row
                    < 16 && self.cells@[i2].contents->Merged_parent_col < 16 by {}
                lemma_terrain_preserving_consistency(old(self).cells@, self.cells@);
            }
        }
    }
}

} // verus!

verus! {

fn zeroed_badness() -> (v: Vec<i8>)
    ensures
        v@.len() == GRID_CELLS,
        forall|i: int| 0 <= i < GRID_CELLS ==> v@[i] == 0i8,
{
    let mut v: Vec<i8> = Vec::new();
    let mut i: usize = 0;
    while i < GRID_CELLS
        invariant
            i <= GRID_CELLS,
            v@.len() == i,
            forall|k: int| 0 <= k < i ==> v@[k] == 0i8,
        decreases GRID_CELLS - i,
    {
        v.push(0i8);
        i = i + 1;
    }
    v
}

proof fn lemma_unmerged_fn(c: Cell)
    ensures
        unmerged_fn()(c) == is_unmerged(c),
{
}

impl Board {
    /// Badness-driven forced pruning: repeatedly force-merges the candidate
    /// cell with the highest badness (ties broken toward the highest
    /// row-major index, deterministically) until the badness falls under 16
    /// with at most `MAX_NUM_REGIONS_TARGET` candidates left, or only
    /// `MIN_NUM_REGIONS_TARGET` candidates remain. Starting from at least
    /// `MIN_NUM_REGIONS_TARGET` candidates, it therefore ends inside the
    /// target band; starting under it, it changes nothing.
    pub fn prune_to_band(&mut self)
        requires
            old(self).wf(),
            merge_stage(old(self).cells@),
        ensures
            final(self).wf(),
            merge_stage(final(self).cells@),
            same_centroids(old(self).cells@, final(self).cells@),
            same_except_cells(*old(self), *final(self)),
            count_unmerged(final(self).cells@) <= MAX_NUM_REGIONS_TARGET as int,
            count_unmerged(final(self).cells@) <= count_unmerged(old(self).cells@),
            count_unmerged(old(self).cells@) >= MIN_NUM_REGIONS_TARGET as int ==> count_unmerged(
                final(self).cells@,
            ) >= MIN_NUM_REGIONS_TARGET as int,
            count_unmerged(old(self).cells@) < MIN_NUM_REGIONS_TARGET as int ==> count_unmerged(
                final(self).cells@,
            ) == count_unmerged(old(self).cells@),
            forall|i: int|
                0 <= i < GRID_CELLS && final(self).cells@[i].contents is Culled ==> (final(self).cells@[i] == old(self).cells@[i] || final(self).cells@[i].contents == (
                Contents::Culled { occupation_percentage: 0u8 })),
            parents_terrain_consistent(old(self).cells@) ==> parents_terrain_consistent(
                final(self).cells@,
            ),
    {
        let mut cell_badness = zeroed_badness();
        let mut num_candidates: usize = 0;
        let mut idx: usize = 0;
        while idx < GRID_CELLS
            invariant
                *self == *old(self),
                self.wf(),
                merge_stage(self.cells@),
                cell_badness@.len() == GRID_CELLS,
                idx <= GRID_CELLS,
                num_candidates as int == count_matching(self.cells@, unmerged_fn(), idx as int),
                num_candidates <= idx,
                forall|i: int|
                    0 <= i < GRID_CELLS ==> (#[trigger] cell_badness@[i] > 0 ==> is_unmerged(
                        self.cells@[i],
                    )),
                forall|i: int|
                    0 <= i < idx && is_unmerged(self.cells@[i]) ==> 6 <= #[trigger] cell_badness@[i],
                forall|i: int| idx <= i < GRID_CELLS ==> cell_badness@[i] == 0,
            decreases GRID_CELLS - idx,
        {
            let r = idx / GRID_SIZE;
            let c = idx % GRID_SIZE;
            let cell = self.get_cell(r, c);
            proof {
                assert(r * 16 + c == idx);
                lemma_unmerged_fn(self.cells@[idx as int]);
            }
            match cell.contents {
                Contents::Unmerged { .. } => {
                    let b = self.calculate_cell_badness(r, c);
                    cell_badness.set(idx, b);
                    num_candidates = num_candidates + 1;
                },
                _ => (),
            }
            idx = idx + 1;
        }
        while num_candidates > MIN_NUM_REGIONS_TARGET
            invariant
                self.wf(),
                merge_stage(self.cells@),
                same_centroids(old(self).cells@, self.cells@),
                same_except_cells(*old(self), *self),
                cell_badness@.len() == GRID_CELLS,
                num_candidates as int == count_unmerged(self.cells@),
                count_unmerged(self.cells@) <= count_unmerged(old(self).cells@),
                count_unmerged(old(self).cells@) >= MIN_NUM_REGIONS_TARGET as int ==> num_candidates
                    >= MIN_NUM_REGIONS_TARGET,
                count_unmerged(old(self).cells@) < MIN_NUM_REGIONS_TARGET as int ==> num_candidates
                    as int == count_unmerged(old(self).cells@),
                forall|i: int|
                    0 <= i < GRID_CELLS ==> (#[trigger] cell_badness@[i] > 0 ==> is_unmerged(
                        self.cells@[i],
                    )),
                forall|i: int|
                    0 <= i < GRID_CELLS && is_unmerged(self.cells@[i]) ==> 6
                        <= #[trigger] cell_badness@[i],
                forall|i: int|
                    0 <= i < GRID_CELLS && self.cells@[i].contents is Culled ==> (self.cells@[i]
                        == old(self).cells@[i] || self.cells@[i].contents == (Contents::Culled {
                        occupation_percentage: 0u8,
                    })),
                parents_terrain_consistent(old(self).cells@) ==> parents_terrain_consistent(
                    self.cells@,
                ),
            ensures
                self.wf(),
                merge_stage(self.cells@),
                same_centroids(old(self).cells@, self.cells@),
                same_except_cells(*old(self), *self),
                forall|i: int|
                    0 <= i < GRID_CELLS && self.cells@[i].contents is Culled ==> (self.cells@[i]
                        == old(self).cells@[i] || self.cells@[i].contents == (Contents::Culled {
                        occupation_percentage: 0u8,
                    })),
                parents_terrain_consistent(old(self).cells@) ==> parents_terrain_consistent(
                    self.cells@,
                ),
                count_unmerged(self.cells@) <= MAX_NUM_REGIONS_TARGET as int,
                count_unmerged(self.cells@) <= count_unmerged(old(self).cells@),
                count_unmerged(old(self).cells@) >= MIN_NUM_REGIONS_TARGET as int ==> count_unmerged(
                    self.cells@,
                ) >= MIN_NUM_REGIONS_TARGET as int,
                count_unmerged(old(self).cells@) < MIN_NUM_REGIONS_TARGET as int ==> count_unmerged(
                    self.cells@,
                ) == count_unmerged(old(self).cells@),
            decreases num_candidates,
        {
            let mut best_i: usize = 0;
            let mut best_b: i8 = cell_badness[0];
            let mut j: usize = 1;
            while j < GRID_CELLS
                invariant
                    cell_badness@.len() == GRID_CELLS,
                    best_i < GRID_CELLS,
                    1 <= j <= GRID_CELLS,
                    best_b == cell_badness@[best_i as int],
                    forall|kk: int| 0 <= kk < j ==> cell_badness@[kk] <= best_b,
                decreases GRID_CELLS - j,
            {
                if cell_badness[j] >= best_b {
                    best_b = cell_badness[j];
                    best_i = j;
                }
                j = j + 1;
            }
            proof {
                lemma_count_matching_exists(self.cells@, unmerged_fn(), GRID_CELLS as int);
                let w = choose|i: int| 0 <= i < GRID_CELLS && unmerged_fn()(self.cells@[i]);
                lemma_unmerged_fn(self.cells@[w]);
                assert(cell_badness@[w] >= 6);
                assert(best_b >= 6);
            }
            if best_b < 16 && num_candidates <= MAX_NUM_REGIONS_TARGET {
                break ;
            }
            let r = best_i / GRID_SIZE;
            let c = best_i % GRID_SIZE;
            proof {
                assert(r * 16 + c == best_i);
                assert(is_unmerged(self.cells@[best_i as int]));
            }
            let ghost prev_cells = self.cells@;
            self.force_merge_cell(r, c);
            proof {
                assert(self.cells@ =~= prev_cells.update(
                    best_i as int,
                    self.cells@[best_i as int],
                ));
                lemma_count_matching_update(
                    prev_cells,
                    unmerged_fn(),
                    best_i as int,
                    self.cells@[best_i as int],
                    GRID_CELLS as int,
                );
                lemma_unmerged_fn(prev_cells[best_i as int]);
                lemma_unmerged_fn(self.cells@[best_i as int]);
            }
            cell_badness.set(best_i, 0);
            num_candidates = num_candidates - 1;
            let mut bi: usize = 0;
            while bi < 9
                invariant
                    self.wf(),
                    cell_badness@.len() == GRID_CELLS,
                    r < GRID_SIZE,
                    c < GRID_SIZE,
                    forall|i: int|
                        0 <= i < GRID_CELLS ==> (#[trigger] cell_badness@[i] > 0 ==> is_unmerged(
                            self.cells@[i],
                        )),
                    forall|i: int|
                        0 <= i < GRID_CELLS && is_unmerged(self.cells@[i]) ==> 6
                            <= #[trigger] cell_badness@[i],
                decreases 9 - bi,
            {
                let mut bj: usize = 0;
                while bj < 9
                    invariant
                        self.wf(),
                        cell_badness@.len() == GRID_CELLS,
                        r < GRID_SIZE,
                        c < GRID_SIZE,
                        bi < 9,
                        forall|i: int|
                            0 <= i < GRID_CELLS ==> (#[trigger] cell_badness@[i] > 0
                                ==> is_unmerged(self.cells@[i])),
                        forall|i: int|
                            0 <= i < GRID_CELLS && is_unmerged(self.cells@[i]) ==> 6
                                <= #[trigger] cell_badness@[i],
                    decreases 9 - bj,
                {
                    let in_center = bi == 4 && bj == 4;
                    let rri: i64 = r as i64 + bi as i64 - 4;
                    let cci: i64 = c as i64 + bj as i64 - 4;
                    if !in_center && 0 <= rri && rri < GRID_SIZE as i64 && 0 <= cci && cci
                        < GRID_SIZE as i64 {
                        let rr = rri as usize;
                        let cc = cci as usize;
                        let other = self.get_cell(rr, cc);
                        match other.contents {
                            Contents::Unmerged { .. } => {
                                let b = self.calculate_cell_badness(rr, cc);
                                cell_badness.set(rr * GRID_SIZE + cc, b);
                            },
                            _ => (),
                        }
                    }
                    bj = bj + 1;
                }
                bi = bi + 1;
            }
        }
    }
}

} // verus!

verus! {

proof fn lemma_count_matching_mono(s: Seq<Cell>, f: spec_fn(Cell) -> bool, k1: int, k2: int)
    requires
        0 <= k1 <= k2 <= s.len(),
    ensures
        count_matching(s, f, k1) <= count_matching(s, f, k2),
    decreases k2 - k1,
{
    if k1 < k2 {
        lemma_count_matching_mono(s, f, k1, k2 - 1);
        lemma_count_matching_bounds(s, f, k1);
    }
}

proof fn lemma_count_matching_equiv(
    a: Seq<Cell>,
    b: Seq<Cell>,
    f: spec_fn(Cell) -> bool,
    g: spec_fn(Cell) -> bool,
    k: int,
)
    requires
        a.len() == b.len(),
        0 <= k <= a.len(),
        forall|i: int| 0 <= i < a.len() ==> f(#[trigger] a[i]) == g(b[i]),
    ensures
        count_matching(a, f, k) == count_matching(b, g, k),
    decreases k,
{
    if k > 0 {
        lemma_count_matching_equiv(a, b, f, g, k - 1);
    }
}

proof fn lemma_region_fn(c: Cell)
    ensures
        region_fn()(c) == is_region_cell(c),
{
}

/// Region ids are dense in grid scan order: each region cell's id equals the
/// number of region cells strictly before it.
pub open spec fn region_ids_dense(cells: Seq<Cell>) -> bool {
    forall|i: int|
        0 <= i < cells.len() ==> match (#[trigger] cells[i]).contents {
            Contents::Region { region_id, .. } => region_id as int == count_matching(
                cells,
                region_fn(),
                i,
            ),
            _ => true,
        }
}

/// Cell states after materialization: regions and subregions carry ids below
/// `n`, merged cells still have in-range parent references, and nothing is
/// left untallied or unmerged.
pub open spec fn resolution_stage(cells: Seq<Cell>, n: int) -> bool {
    forall|i: int|
        0 <= i < cells.len() ==> match (#[trigger] cells[i]).contents {
            Contents::Region { region_id, .. } => 0 <= region_id < n,
            Contents::Subregion { parent_region_id, .. } => 0 <= parent_region_id < n,
            Contents::Merged { parent_row, parent_col, .. } => parent_row < 16 && parent_col < 16,
            Contents::Culled { .. } => true,
            _ => false,
        }
}

/// Terminal cell states: every cell is a region, a subregion of a valid
/// region, or culled.
pub open spec fn terminal_cells(cells: Seq<Cell>, n: int) -> bool {
    forall|i: int|
        0 <= i < cells.len() ==> match (#[trigger] cells[i]).contents {
            Contents::Region { region_id, .. } => 0 <= region_id < n,
            Contents::Subregion { parent_region_id, .. } => 0 <= parent_region_id < n,
            Contents::Culled { .. } => true,
            _ => false,
        }
}

impl Board {
    /// How many cells of the grid are regions.
    pub open spec fn num_regions(self) -> int {
        count_matching(self.cells@, region_fn(), self.cells@.len() as int)
    }

    /// Turns every remaining unmerged cell into a region with a freshly
    /// assigned dense id (grid scan order), no marker and zero occupation.
    #[verifier::rlimit(100)]
    pub fn materialize_regions(&mut self)
        requires
            old(self).wf(),
            merge_stage(old(self).cells@),
            count_unmerged(old(self).cells@) <= MAX_NUM_REGIONS_TARGET as int,
        ensures
            final(self).wf(),
            same_centroids(old(self).cells@, final(self).cells@),
            same_except_cells(*old(self), *final(self)),
            final(self).num_regions() == count_unmerged(old(self).cells@),
            region_ids_dense(final(self).cells@),
            resolution_stage(final(self).cells@, final(self).num_regions()),
            forall|i: int|
                0 <= i < GRID_CELLS && !is_unmerged(old(self).cells@[i]) ==> final(self).cells@[i]
                    == old(self).cells@[i],
            forall|i: int|
                0 <= i < GRID_CELLS ==> match (#[trigger] final(self).cells@[i]).contents {
                    Contents::Region { marker, occupation_percentage, .. } => marker is None
                        && occupation_percentage == 0,
                    _ => true,
                },
            forall|i: int|
                0 <= i < GRID_CELLS && is_unmerged(old(self).cells@[i]) ==> final(self).cells@[i].contents is Region,
            parents_terrain_consistent(old(self).cells@) ==> parents_terrain_consistent(
                final(self).cells@,
            ),
            forall|i: int|
                0 <= i < GRID_CELLS ==> spec_terrain_of(#[trigger] final(self).cells@[i])
                    == spec_terrain_of(old(self).cells@[i]),
    {
        let ghost orig = old(self).cells@;
        let mut num_regions: usize = 0;
        let mut idx: usize = 0;
        while idx < GRID_CELLS
            invariant
                self.wf(),
                same_centroids(orig, self.cells@),
                same_except_cells(*old(self), *self),
                merge_stage(orig),
                orig.len() == GRID_CELLS,
                count_unmerged(orig) <= MAX_NUM_REGIONS_TARGET as int,
                idx <= GRID_CELLS,
                num_regions as int == count_matching(orig, unmerged_fn(), idx as int),
                forall|i: int| idx <= i < GRID_CELLS ==> self.cells@[i] == orig[i],
                forall|i: int|
                    0 <= i < idx && !is_unmerged(orig[i]) ==> self.cells@[i] == orig[i],
                forall|i: int|
                    0 <= i < idx && is_unmerged(orig[i]) ==> #[trigger] self.cells@[i] == (Cell {
                        contents: Contents::Region {
                            region_id: count_matching(orig, unmerged_fn(), i) as i8,
                            terrain_type: orig[i].contents->Unmerged_terrain_type,
                            marker: None,
                            occupation_percentage: 0,
                        },
                        ..orig[i]
                    }),
            decreases GRID_CELLS - idx,
        {
            let r = idx / GRID_SIZE;
            let c = idx % GRID_SIZE;
            proof {
                assert(r * 16 + c == idx);
                lemma_unmerged_fn(orig[idx as int]);
                lemma_count_matching_mono(orig, unmerged_fn(), idx as int, GRID_CELLS as int);
                lemma_count_matching_mono(orig, unmerged_fn(), idx + 1, GRID_CELLS as int);
            }
            let cell = self.get_cell(r, c);
            match cell.contents {
                Contents::Unmerged { terrain_type, merge_importance: _ } => {
                    self.set_cell(
                        r,
                        c,
                        Cell {
                            contents: Contents::Region {
                                region_id: num_regions as i8,
                                terrain_type,
                                marker: None,
                                occupation_percentage: 0,
                            },
                            ..cell
                        },
                    );
                    num_regions = num_regions + 1;
                },
                _ => (),
            }
            idx = idx + 1;
        }
        proof {
            assert forall|i: int| 0 <= i < GRID_CELLS implies region_fn()(
                #[trigger] self.cells@[i],
            ) == unmerged_fn()(orig[i]) by {
                lemma_region_fn(self.cells@[i]);
                lemma_unmerged_fn(orig[i]);
            }
            lemma_count_matching_equiv(
                self.cells@,
                orig,
                region_fn(),
                unmerged_fn(),
                GRID_CELLS as int,
            );
            assert forall|i: int|
                0 <= i < GRID_CELLS && self.cells@[i].contents is Region implies match self.cells@[i].contents {
                Contents::Region { region_id, .. } => region_id as int == count_matching(
                    self.cells@,
                    region_fn(),
                    i,
                ) && 0 <= region_id < self.num_regions(),
                _ => true,
            } by {
                lemma_count_matching_equiv(self.cells@, orig, region_fn(), unmerged_fn(), i);
                lemma_count_matching_bounds(orig, unmerged_fn(), i);
                lemma_count_matching_mono(orig, unmerged_fn(), i, GRID_CELLS as int);
                lemma_unmerged_fn(orig[i]);
                lemma_count_matching_mono(orig, unmerged_fn(), i + 1, GRID_CELLS as int);
            }
            assert forall|i: int| 0 <= i < GRID_CELLS implies match (#[trigger] self.cells@[i]).contents {
                Contents::Region { region_id, .. } => 0 <= region_id < self.num_regions(),
                Contents::Subregion { parent_region_id, .. } => 0 <= parent_region_id
                    < self.num_regions(),
                Contents::Merged { parent_row, parent_col, .. } => parent_row < 16 && parent_col
                    < 16,
                Contents::Culled { .. } => true,
                _ => false,
            } by {
                if !is_unmerged(orig[i]) {
                    assert(self.cells@[i] == orig[i]);
                }
            }
        }
    }

    /// What following merge-parent links from (r, c) yields within `hops`
    /// further steps: a region's id, a subregion's parent id, or nothing when
    /// the chain dead-ends or runs out of steps.
    pub open spec fn spec_parent_chain(self, r: int, c: int, hops: nat) -> Option<i8>
        decreases hops,
    {
        match self.spec_cell(r, c).contents {
            Contents::Region { region_id, .. } => Some(region_id),
            Contents::Subregion { parent_region_id, .. } => Some(parent_region_id),
            Contents::Merged { parent_row, parent_col, .. } => if hops == 0 {
                None
            } else {
                self.spec_parent_chain(parent_row as int, parent_col as int, (hops - 1) as nat)
            },
            _ => None,
        }
    }

    /// Resolves a merge-parent chain to the terminal region's id, following
    /// at most 10 hops (9 link steps); a chain that runs deeper is treated as
    /// having no parent (a defensive bound against unexpected cycles).
    fn find_parent_region_id(&self, r: usize, c: usize) -> (res: Option<i8>)
        requires
            self.wf(),
            resolution_stage(self.cells@, self.num_regions()),
            r < GRID_SIZE,
            c < GRID_SIZE,
        ensures
            res == self.spec_parent_chain(r as int, c as int, 9),
            match res {
                Some(id) => 0 <= id < self.num_regions(),
                None => true,
            },
    {
        let mut rr: usize = r;
        let mut cc: usize = c;
        let mut hops: usize = 0;
        while hops < 10
            invariant
                self.wf(),
                resolution_stage(self.cells@, self.num_regions()),
                rr < GRID_SIZE,
                cc < GRID_SIZE,
                hops <= 10,
                self.spec_parent_chain(r as int, c as int, 9) == (if hops <= 9 {
                    self.spec_parent_chain(rr as int, cc as int, (9 - hops) as nat)
                } else {
                    None::<i8>
                }),
            decreases 10 - hops,
        {
            let cell = self.get_cell(rr, cc);
            match cell.contents {
                Contents::Region { region_id, .. } => {
                    return Some(region_id);
                },
                Contents::Subregion { parent_region_id, .. } => {
                    return Some(parent_region_id);
                },
                Contents::Merged { parent_row, parent_col, parent_terrain_type: _ } => {
                    rr = parent_row as usize;
                    cc = parent_col as usize;
                },
                _ => {
                    return None;
                },
            }
            hops = hops + 1;
        }
        None
    }

    /// Resolves every merged cell: it becomes a subregion of the region its
    /// parent chain reaches, or culled when the chain dead-ends. Regions and
    /// culled cells are untouched.
    #[verifier::rlimit(100)]
    pub fn resolve_parents(&mut self)
        requires
            old(self).wf(),
            resolution_stage(old(self).cells@, old(self).num_regions()),
        ensures
            final(self).wf(),
            same_centroids(old(self).cells@, final(self).cells@),
            same_except_cells(*old(self), *final(self)),
            final(self).num_regions() == old(self).num_regions(),
            terminal_cells(final(self).cells@, final(self).num_regions()),
            forall|i: int|
                0 <= i < GRID_CELLS && !(old(self).cells@[i].contents is Merged)
                    ==> final(self).cells@[i] == old(self).cells@[i],
            forall|i: int|
                0 <= i < GRID_CELLS && old(self).cells@[i].contents is Merged
                    ==> match final(self).cells@[i].contents {
                        Contents::Subregion { occupation_percentage, .. } => occupation_percentage
                            == 0,
                        Contents::Culled { occupation_percentage } => occupation_percentage == 0,
                        _ => false,
                    },
            region_ids_dense(old(self).cells@) ==> region_ids_dense(final(self).cells@),
    {
        let ghost orig = old(self).cells@;
        let ghost n = old(self).num_regions();
        let mut idx: usize = 0;
        while idx < GRID_CELLS
            invariant
                self.wf(),
                orig.len() == GRID_CELLS,
                same_centroids(orig, self.cells@),
                same_except_cells(*old(self), *self),
                resolution_stage(self.cells@, n),
                self.num_regions() == n,
                idx <= GRID_CELLS,
                forall|i: int| idx <= i < GRID_CELLS ==> self.cells@[i] == orig[i],
                forall|i: int|
                    0 <= i < GRID_CELLS && !(orig[i].contents is Merged) ==> self.cells@[i]
                        == orig[i],
                forall|i: int|
                    0 <= i < idx && orig[i].contents is Merged ==> match (
                    #[trigger] self.cells@[i]).contents {
                        Contents::Subregion { occupation_percentage, .. } => occupation_percentage
                            == 0,
                        Contents::Culled { occupation_percentage } => occupation_percentage == 0,
                        _ => false,
                    },
            decreases GRID_CELLS - idx,
        {
            let r = idx / GRID_SIZE;
            let c = idx % GRID_SIZE;
            proof {
                assert(r * 16 + c == idx);
            }
            let cell = self.get_cell(r, c);
            match cell.contents {
                Contents::Merged { parent_row, parent_col, parent_terrain_type } => {
                    let region_id = self.find_parent_region_id(
                        parent_row as usize,
                        parent_col as usize,
                    );
                    let ghost prev = self.cells@;
                    match region_id {
                        Some(parent_region_id) => {
                            self.set_cell(
                                r,
                                c,
                                Cell {
                                    contents: Contents::Subregion {
                                        parent_region_id,
                                        parent_terrain_type,
                                        occupation_percentage: 0,
                                    },
                                    ..cell
                                },
                            );
                        },
                        None => {
                            self.set_cell(
                                r,
                                c,
                                Cell {
                                    contents: Contents::Culled { occupation_percentage: 0 },
                                    ..cell
                                },
                            );
                        },
                    }
                    proof {
                        assert forall|i: int| 0 <= i < GRID_CELLS implies region_fn()(
                            #[trigger] self.cells@[i],
                        ) == region_fn()(prev[i]) by {
                            lemma_region_fn(self.cells@[i]);
                            lemma_region_fn(prev[i]);
                        }
                        lemma_count_matching_equiv(
                            self.cells@,
                            prev,
                            region_fn(),
                            region_fn(),
                            GRID_CELLS as int,
                        );
                    }
                },
                _ => (),
            }
            idx = idx + 1;
        }
        proof {
            assert forall|i: int|
                0 <= i < GRID_CELLS && self.cells@[i].contents is Region implies self.cells@[i]
                == orig[i] by {}
            if region_ids_dense(orig) {
                assert forall|i: int|
                    0 <= i < GRID_CELLS && self.cells@[i].contents is Region implies match self.cells@[i].contents {
                    Contents::Region { region_id, .. } => region_id as int == count_matching(
                        self.cells@,
                        region_fn(),
                        i,
                    ),
                    _ => true,
                } by {
                    assert forall|k: int| 0 <= k < GRID_CELLS implies region_fn()(
                        #[trigger] self.cells@[k],
                    ) == region_fn()(orig[k]) by {
                        lemma_region_fn(self.cells@[k]);
                        lemma_region_fn(orig[k]);
                    }
                    lemma_count_matching_equiv(self.cells@, orig, region_fn(), region_fn(), i);
                }
            }
        }
    }
}

} // verus!

verus! {

/// Every cell's centroid lies in the band of its own row and column.
pub open spec fn centroids_placed(cells: Seq<Cell>) -> bool {
    forall|r: int, c: int|
        0 <= r < 16 && 0 <= c < 16 ==> centroid_in_band(#[trigger] cells[r * 16 + c], r, c)
}

impl Board {
    /// Gives every cell a fresh jittered centroid and empty tally counters.
    fn init_cells(&mut self, rng: &mut fastrand::Rng)
        requires
            old(self).wf(),
        ensures
            final(self).wf(),
            same_except_cells(*old(self), *final(self)),
            centroids_placed(final(self).cells@),
            forall|i: int| 0 <= i < GRID_CELLS ==> final(self).cells@[i].contents is Tally,
    {
        let mut idx: usize = 0;
        while idx < GRID_CELLS
            invariant
                self.wf(),
                same_except_cells(*old(self), *self),
                idx <= GRID_CELLS,
                forall|i: int|
                    0 <= i < idx ==> centroid_in_band(#[trigger] self.cells@[i], i / 16, i % 16),
                forall|i: int| 0 <= i < idx ==> self.cells@[i].contents is Tally,
            decreases GRID_CELLS - idx,
        {
            let r = idx / GRID_SIZE;
            let c = idx % GRID_SIZE;
            proof {
                assert(r * 16 + c == idx);
            }
            let (x, y) = pick_random_centroid_xy_at_rc(r, c, rng);
            self.set_cell(
                r,
                c,
                Cell {
                    centroid_x: x as u8,
                    centroid_y: y as u8,
                    contents: Contents::Tally {
                        n_water: 0,
                        n_mountain: 0,
                        n_hill: 0,
                        n_forest: 0,
                        n_grass: 0,
                    },
                },
            );
            idx = idx + 1;
        }
        proof {
            assert forall|r: int, c: int| 0 <= r < 16 && 0 <= c < 16 implies centroid_in_band(
                #[trigger] self.cells@[r * 16 + c],
                r,
                c,
            ) by {
                let i = r * 16 + c;
                assert(0 <= i < GRID_CELLS);
                assert(i / 16 == r && i % 16 == c);
            }
        }
    }

    /// Realizes every tallied cell as its dominant terrain or culls it; after
    /// this, every cell is an unmerged candidate or culled.
    fn realize_all(&mut self)
        requires
            old(self).wf(),
        ensures
            final(self).wf(),
            same_centroids(old(self).cells@, final(self).cells@),
            same_except_cells(*old(self), *final(self)),
            merge_stage(final(self).cells@),
            forall|i: int|
                0 <= i < GRID_CELLS ==> final(self).cells@[i] == (match old(self).cells@[i].spec_dominant_terrain() {
                    Some(t) => Cell {
                        contents: Contents::Unmerged { terrain_type: t, merge_importance: 0 },
                        ..old(self).cells@[i]
                    },
                    None => Cell {
                        contents: Contents::Culled { occupation_percentage: 0 },
                        ..old(self).cells@[i]
                    },
                }),
    {
        let mut idx: usize = 0;
        while idx < GRID_CELLS
            invariant
                self.wf(),
                same_centroids(old(self).cells@, self.cells@),
                same_except_cells(*old(self), *self),
                idx <= GRID_CELLS,
                forall|i: int| idx <= i < GRID_CELLS ==> self.cells@[i] == old(self).cells@[i],
                forall|i: int|
                    0 <= i < idx ==> #[trigger] self.cells@[i] == (match old(self).cells@[i].spec_dominant_terrain() {
                        Some(t) => Cell {
                            contents: Contents::Unmerged { terrain_type: t, merge_importance: 0 },
                            ..old(self).cells@[i]
                        },
                        None => Cell {
                            contents: Contents::Culled { occupation_percentage: 0 },
                            ..old(self).cells@[i]
                        },
                    }),
            decreases GRID_CELLS - idx,
        {
            let r = idx / GRID_SIZE;
            let c = idx % GRID_SIZE;
            proof {
                assert(r * 16 + c == idx);
            }
            let mut cell = self.get_cell(r, c);
            cell.realize_terrain();
            self.set_cell(r, c, cell);
            idx = idx + 1;
        }
    }
}

impl Board {
    /// Nudges each region's placement point toward noise values that are
    /// representative of its terrain type, trying up to 100 random re-picks
    /// inside the same cell and keeping the best-seen position. Purely
    /// cosmetic: contents are untouched.
    fn refine_centroids(&mut self, rng: &mut fastrand::Rng, fields: &NoiseFields)
        requires
            old(self).wf(),
            fields.wf(),
            centroids_placed(old(self).cells@),
        ensures
            final(self).wf(),
            same_except_cells(*old(self), *final(self)),
            centroids_placed(final(self).cells@),
            forall|i: int|
                0 <= i < GRID_CELLS ==> final(self).cells@[i].contents == old(self).cells@[i].contents,
            forall|i: int|
                0 <= i < GRID_CELLS && !(old(self).cells@[i].contents is Region) ==> final(self).cells@[i] == old(self).cells@[i],
    {
        let mut idx: usize = 0;
        while idx < GRID_CELLS
            invariant
                self.wf(),
                fields.wf(),
                same_except_cells(*old(self), *self),
                centroids_placed(self.cells@),
                idx <= GRID_CELLS,
                forall|i: int|
                    0 <= i < GRID_CELLS ==> self.cells@[i].contents == old(self).cells@[i].contents,
                forall|i: int|
                    0 <= i < GRID_CELLS && !(old(self).cells@[i].contents is Region)
                        ==> self.cells@[i] == old(self).cells@[i],
            decreases GRID_CELLS - idx,
        {
            let r = idx / GRID_SIZE;
            let c = idx % GRID_SIZE;
            proof {
                assert(r * 16 + c == idx);
            }
            let cell = self.get_cell(r, c);
            let terrain_type = match cell.contents {
                Contents::Region { terrain_type, .. } => Some(terrain_type),
                _ => None,
            };
            if let Some(terrain_type) = terrain_type {
                let (te, tf): (i64, i64) = match terrain_type {
                    TerrainType::Water => (-100000, 0),
                    TerrainType::Mountain => (1000000, 0),
                    TerrainType::Hill => (60000, -200000),
                    TerrainType::Forest => (20000, 400000),
                    TerrainType::Grass => (10000, -200000),
                    TerrainType::Village => (10000, -200000),
                };
                let x = cell.centroid_x as usize;
                let y = cell.centroid_y as usize;
                let e = fields.elevation_at(x, y);
                let f = fields.forest_at(x, y);
                let de: i64 = if te >= e {
                    te - e
                } else {
                    e - te
                };
                let df: i64 = if tf >= f {
                    tf - f
                } else {
                    f - tf
                };
                let mut badness: i64 = de + df;
                if (te > 0 && e < 2000) || (te < 0 && e > -2000) {
                    badness = badness + 1000000;
                }
                let mut tries: usize = 0;
                while tries < 100
                    invariant
                        -100000 <= te <= 1000000,
                        -200000 <= tf <= 400000,
                        old(self).cells@[r * 16 + c].contents is Region,
                        self.wf(),
                        fields.wf(),
                        same_except_cells(*old(self), *self),
                        centroids_placed(self.cells@),
                        r < GRID_SIZE,
                        c < GRID_SIZE,
                        forall|i: int|
                            0 <= i < GRID_CELLS ==> self.cells@[i].contents == old(self).cells@[i].contents,
                        forall|i: int|
                            0 <= i < GRID_CELLS && !(old(self).cells@[i].contents is Region)
                                ==> self.cells@[i] == old(self).cells@[i],
                    decreases 100 - tries,
                {
                    if badness < 2000 {
                        break ;
                    }
                    let (x, y) = pick_random_centroid_xy_at_rc(r, c, rng);
                    let e = fields.elevation_at(x, y);
                    let f = fields.forest_at(x, y);
                    let de: i64 = if te >= e {
                        te - e
                    } else {
                        e - te
                    };
                    let df: i64 = if tf >= f {
                        tf - f
                    } else {
                        f - tf
                    };
                    let mut b: i64 = de + df;
                    if (te > 0 && e < 2000) || (te < 0 && e > -2000) {
                        b = b + 1000000;
                    }
                    if b + 1000 < badness {
                        let me = self.get_cell(r, c);
                        self.set_cell(
                            r,
                            c,
                            Cell { centroid_x: x as u8, centroid_y: y as u8, ..me },
                        );
                        badness = b;
                        proof {
                            assert forall|rr: int, cc: int|
                                0 <= rr < 16 && 0 <= cc < 16 implies centroid_in_band(
                                #[trigger] self.cells@[rr * 16 + cc],
                                rr,
                                cc,
                            ) by {
                                if rr * 16 + cc != r * 16 + c {
                                    assert(self.cells@[rr * 16 + cc] == old(self).cells@[rr * 16 + cc] || true);
                                }
                            }
                        }
                    }
                    tries = tries + 1;
                }
            }
            idx = idx + 1;
        }
    }
}

} // verus!

verus! {

/// Terrain of pixel (x, y), classified from the noise fields.
pub open spec fn spec_pixel_terrain(fields: NoiseFields, x: int, y: int) -> TerrainType {
    crate::terrain::spec_classify(fields.spec_elevation(x, y), fields.spec_forest(x, y))
}

/// Whether pixel (x, y) carries surface hatching for terrain `t`: a sparse
/// deterministic dither, densest on mountains.
pub open spec fn spec_has_surface(x: int, y: int, t: TerrainType) -> bool {
    match t {
        TerrainType::Forest => (x + y) % 2 == 0 && x % 4 == 0 && (x / 2 + y) % 4 == 0,
        TerrainType::Hill => (x / 2 + y) % 2 == 0 && (x / 2 + y) % 4 == 0 && y % 2 == 0,
        TerrainType::Mountain => (x + y) % 2 == 0,
        _ => false,
    }
}

impl Board {
    /// Scans every canvas pixel: classifies it, fills the water, mountain and
    /// surface bitmaps exactly, and adds the pixel to the tally of the cell
    /// whose centroid is nearest.
    #[verifier::rlimit(100)]
    fn tally_pixels(&mut self, fields: &NoiseFields)
        requires
            old(self).wf(),
            fields.wf(),
        ensures
            final(self).wf(),
            same_centroids(old(self).cells@, final(self).cells@),
            final(self).ink_bitmap == old(self).ink_bitmap,
            final(self).occupation_bitmap == old(self).occupation_bitmap,
            final(self).propmap == old(self).propmap,
            final(self).surface_propmap == old(self).surface_propmap,
            final(self).prop_region_map == old(self).prop_region_map,
            final(self).occupation_noise == old(self).occupation_noise,
            forall|i: int, j: int|
                0 <= i < 160 && 0 <= j < 160 ==> crate::pixmap::spec_is_on(
                    final(self).water_bitmap@,
                    i,
                    j,
                ) == (spec_pixel_terrain(*fields, i, j) == TerrainType::Water),
            forall|i: int, j: int|
                0 <= i < 160 && 0 <= j < 160 ==> crate::pixmap::spec_is_on(
                    final(self).mountain_bitmap@,
                    i,
                    j,
                ) == (spec_pixel_terrain(*fields, i, j) == TerrainType::Mountain),
            forall|i: int, j: int|
                0 <= i < 160 && 0 <= j < 160 ==> crate::pixmap::spec_is_on(
                    final(self).surface_bitmap@,
                    i,
                    j,
                ) == spec_has_surface(i, j, spec_pixel_terrain(*fields, i, j)),
            forall|i: int|
                0 <= i < GRID_CELLS && !(old(self).cells@[i].contents is Tally) ==> final(self).cells@[i] == old(self).cells@[i],
            forall|i: int|
                0 <= i < GRID_CELLS && old(self).cells@[i].contents is Tally ==> final(self).cells@[i].contents is Tally,
    {
        let mut y: usize = 0;
        while y < MAP_SIZE
            invariant
                self.wf(),
                fields.wf(),
                y <= MAP_SIZE,
                same_centroids(old(self).cells@, self.cells@),
                self.ink_bitmap == old(self).ink_bitmap,
                self.occupation_bitmap == old(self).occupation_bitmap,
                self.propmap == old(self).propmap,
                self.surface_propmap == old(self).surface_propmap,
                self.prop_region_map == old(self).prop_region_map,
                self.occupation_noise == old(self).occupation_noise,
                forall|i: int, j: int|
                    0 <= i < 160 && 0 <= j < 160 ==> crate::pixmap::spec_is_on(
                        self.water_bitmap@,
                        i,
                        j,
                    ) == (if j < y {
                        spec_pixel_terrain(*fields, i, j) == TerrainType::Water
                    } else {
                        crate::pixmap::spec_is_on(old(self).water_bitmap@, i, j)
                    }),
                forall|i: int, j: int|
                    0 <= i < 160 && 0 <= j < 160 ==> crate::pixmap::spec_is_on(
                        self.mountain_bitmap@,
                        i,
                        j,
                    ) == (if j < y {
                        spec_pixel_terrain(*fields, i, j) == TerrainType::Mountain
                    } else {
                        crate::pixmap::spec_is_on(old(self).mountain_bitmap@, i, j)
                    }),
                forall|i: int, j: int|
                    0 <= i < 160 && 0 <= j < 160 ==> crate::pixmap::spec_is_on(
                        self.surface_bitmap@,
                        i,
                        j,
                    ) == (if j < y {
                        spec_has_surface(i, j, spec_pixel_terrain(*fields, i, j))
                    } else {
                        crate::pixmap::spec_is_on(old(self).surface_bitmap@, i, j)
                    }),
                forall|i: int|
                    0 <= i < GRID_CELLS && !(old(self).cells@[i].contents is Tally)
                        ==> self.cells@[i] == old(self).cells@[i],
                forall|i: int|
                    0 <= i < GRID_CELLS && old(self).cells@[i].contents is Tally
                        ==> self.cells@[i].contents is Tally,
            decreases MAP_SIZE - y,
        {
            let mut x: usize = 0;
            while x < MAP_SIZE
                invariant
                    self.wf(),
                    fields.wf(),
                    y < MAP_SIZE,
                    x <= MAP_SIZE,
                    same_centroids(old(self).cells@, self.cells@),
                    self.ink_bitmap == old(self).ink_bitmap,
                    self.occupation_bitmap == old(self).occupation_bitmap,
                    self.propmap == old(self).propmap,
                    self.surface_propmap == old(self).surface_propmap,
                    self.prop_region_map == old(self).prop_region_map,
                    self.occupation_noise == old(self).occupation_noise,
                    forall|i: int, j: int|
                        0 <= i < 160 && 0 <= j < 160 ==> crate::pixmap::spec_is_on(
                            self.water_bitmap@,
                            i,
                            j,
                        ) == (if j < y || (j == y && i < x) {
                            spec_pixel_terrain(*fields, i, j) == TerrainType::Water
                        } else {
                            crate::pixmap::spec_is_on(old(self).water_bitmap@, i, j)
                        }),
                    forall|i: int, j: int|
                        0 <= i < 160 && 0 <= j < 160 ==> crate::pixmap::spec_is_on(
                            self.mountain_bitmap@,
                            i,
                            j,
                        ) == (if j < y || (j == y && i < x) {
                            spec_pixel_terrain(*fields, i, j) == TerrainType::Mountain
                        } else {
                            crate::pixmap::spec_is_on(old(self).mountain_bitmap@, i, j)
                        }),
                    forall|i: int, j: int|
                        0 <= i < 160 && 0 <= j < 160 ==> crate::pixmap::spec_is_on(
                            self.surface_bitmap@,
                            i,
                            j,
                        ) == (if j < y || (j == y && i < x) {
                            spec_has_surface(i, j, spec_pixel_terrain(*fields, i, j))
                        } else {
                            crate::pixmap::spec_is_on(old(self).surface_bitmap@, i, j)
                        }),
                    forall|i: int|
                        0 <= i < GRID_CELLS && !(old(self).cells@[i].contents is Tally)
                            ==> self.cells@[i] == old(self).cells@[i],
                    forall|i: int|
                        0 <= i < GRID_CELLS && old(self).cells@[i].contents is Tally
                            ==> self.cells@[i].contents is Tally,
                decreases MAP_SIZE - x,
            {
                let (r, c, _distance) = self.closest_rc_to_xy(x as i32, y as i32);
                let e = fields.elevation_at(x, y);
                let f = fields.forest_at(x, y);
                let terrain_type = crate::terrain::classify(e, f);
                if terrain_type == TerrainType::Water {
                    crate::pixmap::draw_on_bitmap(&mut self.water_bitmap, x, y);
                } else {
                    crate::pixmap::erase_on_bitmap(&mut self.water_bitmap, x, y);
                }
                if terrain_type == TerrainType::Mountain {
                    crate::pixmap::draw_on_bitmap(&mut self.mountain_bitmap, x, y);
                } else {
                    crate::pixmap::erase_on_bitmap(&mut self.mountain_bitmap, x, y);
                }
                let has_surface = match terrain_type {
                    TerrainType::Forest => {
                        ((x + y) % 2 == 0) && (x % 4 == 0) && ((x / 2 + y) % 4 == 0)
                    },
                    TerrainType::Hill => {
                        ((x / 2 + y) % 2 == 0) && ((x / 2 + y) % 4 == 0) && (y % 2 == 0)
                    },
                    TerrainType::Mountain => (x + y) % 2 == 0,
                    _ => false,
                };
                if has_surface {
                    crate::pixmap::draw_on_bitmap(&mut self.surface_bitmap, x, y);
                } else {
                    crate::pixmap::erase_on_bitmap(&mut self.surface_bitmap, x, y);
                }
                let mut cell = self.get_cell(r, c);
                cell.add_tally(terrain_type);
                self.set_cell(r, c, cell);
                x = x + 1;
            }
            y = y + 1;
        }
    }
}

} // verus!

verus! {

/// Every fine-grid claim is either unclaimed (-1) or a valid region id.
pub open spec fn prop_claims_valid(pm: Seq<i8>, n: int) -> bool {
    forall|k: int| 0 <= k < pm.len() ==> -1 <= #[trigger] pm[k] < n
}

/// The prop terrain actually stored for a fine cell: mountain and hill props
/// only on alternating cells, so their decoration is sparser.
pub open spec fn spec_prop_thinned(fields: NoiseFields, u: int, v: int) -> Option<TerrainType> {
    let t = crate::terrain::spec_classify_prop(
        fields.spec_elevation(4 * u, 4 * v),
        fields.spec_forest(4 * u, 4 * v),
    );
    match t {
        Some(TerrainType::Mountain) => if (u + v) % 2 == 0 {
            t
        } else {
            None
        },
        Some(TerrainType::Hill) => if (u + v) % 2 == 0 {
            t
        } else {
            None
        },
        _ => t,
    }
}

impl Board {
    /// Stamps a small ink mark at every non-water region's placement point.
    fn draw_region_clearings(&mut self)
        requires
            old(self).wf(),
            centroids_placed(old(self).cells@),
        ensures
            final(self).wf(),
            final(self).cells == old(self).cells,
            final(self).water_bitmap == old(self).water_bitmap,
            final(self).mountain_bitmap == old(self).mountain_bitmap,
            final(self).surface_bitmap == old(self).surface_bitmap,
            final(self).occupation_bitmap == old(self).occupation_bitmap,
            final(self).propmap == old(self).propmap,
            final(self).surface_propmap == old(self).surface_propmap,
            final(self).prop_region_map == old(self).prop_region_map,
            final(self).occupation_noise == old(self).occupation_noise,
    {
        let mut idx: usize = 0;
        while idx < GRID_CELLS
            invariant
                self.wf(),
                centroids_placed(self.cells@),
                self.cells == old(self).cells,
                self.water_bitmap == old(self).water_bitmap,
                self.mountain_bitmap == old(self).mountain_bitmap,
                self.surface_bitmap == old(self).surface_bitmap,
                self.occupation_bitmap == old(self).occupation_bitmap,
                self.propmap == old(self).propmap,
                self.surface_propmap == old(self).surface_propmap,
                self.prop_region_map == old(self).prop_region_map,
                self.occupation_noise == old(self).occupation_noise,
            decreases GRID_CELLS - idx,
        {
            let r = idx / GRID_SIZE;
            let c = idx % GRID_SIZE;
            proof {
                assert(r * 16 + c == idx);
                assert(centroid_in_band(self.cells@[idx as int], r as int, c as int));
            }
            let cell = self.get_cell(r, c);
            let stamp = match cell.contents {
                Contents::Region { terrain_type: TerrainType::Water, .. } => false,
                Contents::Region { .. } => true,
                _ => false,
            };
            if stamp {
                let x = cell.centroid_x as usize;
                let y = cell.centroid_y as usize;
                crate::pixmap::draw_on_bitmap(&mut self.ink_bitmap, x, y);
                crate::pixmap::draw_on_bitmap(&mut self.ink_bitmap, x + 1, y);
                crate::pixmap::draw_on_bitmap(&mut self.ink_bitmap, x, y + 1);
                crate::pixmap::draw_on_bitmap(&mut self.ink_bitmap, x + 1, y + 1);
                crate::pixmap::draw_on_bitmap(&mut self.ink_bitmap, x - 1, y);
                crate::pixmap::draw_on_bitmap(&mut self.ink_bitmap, x, y + 2);
                crate::pixmap::draw_on_bitmap(&mut self.ink_bitmap, x - 1, y + 2);
                crate::pixmap::draw_on_bitmap(&mut self.ink_bitmap, x + 1, y + 2);
                crate::pixmap::draw_on_bitmap(&mut self.ink_bitmap, x - 1, y + 1);
            }
            idx = idx + 1;
        }
    }

    /// Classifies every fine cell for decoration: stores the prop to draw
    /// (thinned on mountains and hills) and the true terrain, and claims the
    /// cell for the nearest coarse cell's region when the terrains agree.
    #[verifier::rlimit(100)]
    fn place_props(&mut self, fields: &NoiseFields)
        requires
            old(self).wf(),
            fields.wf(),
            terminal_cells(old(self).cells@, old(self).num_regions()),
        ensures
            final(self).wf(),
            final(self).cells == old(self).cells,
            final(self).water_bitmap == old(self).water_bitmap,
            final(self).mountain_bitmap == old(self).mountain_bitmap,
            final(self).surface_bitmap == old(self).surface_bitmap,
            final(self).ink_bitmap == old(self).ink_bitmap,
            final(self).occupation_bitmap == old(self).occupation_bitmap,
            final(self).occupation_noise == old(self).occupation_noise,
            forall|u: int, v: int|
                0 <= u < 40 && 0 <= v < 40 ==> crate::pixmap::spec_prop_nibble(
                    final(self).surface_propmap@,
                    u,
                    v,
                ) == crate::pixmap::spec_prop_encode(
                    crate::terrain::spec_classify_prop(
                        fields.spec_elevation(4 * u, 4 * v),
                        fields.spec_forest(4 * u, 4 * v),
                    ),
                ),
            forall|u: int, v: int|
                0 <= u < 40 && 0 <= v < 40 ==> crate::pixmap::spec_prop_nibble(
                    final(self).propmap@,
                    u,
                    v,
                ) == crate::pixmap::spec_prop_encode(spec_prop_thinned(*fields, u, v)),
            prop_claims_valid(final(self).prop_region_map@, final(self).num_regions()),
    {
        let mut v: usize = 0;
        while v < PROP_GRID_SIZE
            invariant
                self.wf(),
                fields.wf(),
                v <= PROP_GRID_SIZE,
                terminal_cells(self.cells@, self.num_regions()),
                self.cells == old(self).cells,
                self.water_bitmap == old(self).water_bitmap,
                self.mountain_bitmap == old(self).mountain_bitmap,
                self.surface_bitmap == old(self).surface_bitmap,
                self.ink_bitmap == old(self).ink_bitmap,
                self.occupation_bitmap == old(self).occupation_bitmap,
                self.occupation_noise == old(self).occupation_noise,
                forall|i: int, j: int|
                    0 <= i < 40 && 0 <= j < 40 && j < v ==> crate::pixmap::spec_prop_nibble(
                        self.surface_propmap@,
                        i,
                        j,
                    ) == crate::pixmap::spec_prop_encode(
                        crate::terrain::spec_classify_prop(
                            fields.spec_elevation(4 * i, 4 * j),
                            fields.spec_forest(4 * i, 4 * j),
                        ),
                    ),
                forall|i: int, j: int|
                    0 <= i < 40 && 0 <= j < 40 && j < v ==> crate::pixmap::spec_prop_nibble(
                        self.propmap@,
                        i,
                        j,
                    ) == crate::pixmap::spec_prop_encode(spec_prop_thinned(*fields, i, j)),
                forall|k: int| 0 <= k < v * 40 ==> -1 <= #[trigger] self.prop_region_map@[k] < self.num_regions(),
            decreases PROP_GRID_SIZE - v,
        {
            let mut u: usize = 0;
            while u < PROP_GRID_SIZE
                invariant
                    self.wf(),
                    fields.wf(),
                    v < PROP_GRID_SIZE,
                    u <= PROP_GRID_SIZE,
                    terminal_cells(self.cells@, self.num_regions()),
                    self.cells == old(self).cells,
                    self.water_bitmap == old(self).water_bitmap,
                    self.mountain_bitmap == old(self).mountain_bitmap,
                    self.surface_bitmap == old(self).surface_bitmap,
                    self.ink_bitmap == old(self).ink_bitmap,
                    self.occupation_bitmap == old(self).occupation_bitmap,
                    self.occupation_noise == old(self).occupation_noise,
                    forall|i: int, j: int|
                        0 <= i < 40 && 0 <= j < 40 && (j < v || (j == v && i < u))
                            ==> crate::pixmap::spec_prop_nibble(self.surface_propmap@, i, j)
                            == crate::pixmap::spec_prop_encode(
                            crate::terrain::spec_classify_prop(
                                fields.spec_elevation(4 * i, 4 * j),
                                fields.spec_forest(4 * i, 4 * j),
                            ),
                        ),
                    forall|i: int, j: int|
                        0 <= i < 40 && 0 <= j < 40 && (j < v || (j == v && i < u))
                            ==> crate::pixmap::spec_prop_nibble(self.propmap@, i, j)
                            == crate::pixmap::spec_prop_encode(spec_prop_thinned(*fields, i, j)),
                    forall|k: int|
                        0 <= k < v * 40 + u ==> -1 <= #[trigger] self.prop_region_map@[k]
                            < self.num_regions(),
                decreases PROP_GRID_SIZE - u,
            {
                let x = PROP_GRID_CELL_SIZE * u;
                let y = PROP_GRID_CELL_SIZE * v;
                let e = fields.elevation_at(x, y);
                let f = fields.forest_at(x, y);
                let terrain_type = crate::terrain::classify_prop(e, f);
                let prop_type = match terrain_type {
                    Some(TerrainType::Mountain) => if (u + v) % 2 == 0 {
                        terrain_type
                    } else {
                        None
                    },
                    Some(TerrainType::Hill) => if (u + v) % 2 == 0 {
                        terrain_type
                    } else {
                        None
                    },
                    _ => terrain_type,
                };
                crate::pixmap::set_on_propmap(&mut self.propmap, u, v, prop_type);
                crate::pixmap::set_on_propmap(&mut self.surface_propmap, u, v, terrain_type);
                self.prop_region_map.set(v * PROP_GRID_SIZE + u, -1i8);
                if terrain_type.is_some() {
                    let (r, c, _distance) = self.closest_rc_to_xy(x as i32, y as i32);
                    let cell = self.get_cell(r, c);
                    let id_and_tt: Option<(i8, TerrainType)> = match cell.contents {
                        Contents::Region { region_id, terrain_type: tt, .. } => Some(
                            (region_id, tt),
                        ),
                        Contents::Subregion {
                            parent_region_id,
                            parent_terrain_type,
                            ..
                        } => Some((parent_region_id, parent_terrain_type)),
                        _ => None,
                    };
                    if let Some((region_id, tt)) = id_and_tt {
                        proof {
                            assert(self.cells@[r as int * 16 + c as int] == cell);
                            assert(-1 <= region_id < self.num_regions());
                        }
                        let matches_tt = match (terrain_type, tt) {
                            (Some(TerrainType::Village), TerrainType::Village) => true,
                            (Some(TerrainType::Grass), TerrainType::Grass) => true,
                            (Some(TerrainType::Forest), TerrainType::Forest) => true,
                            (Some(TerrainType::Hill), TerrainType::Hill) => true,
                            (Some(TerrainType::Mountain), TerrainType::Mountain) => true,
                            (Some(TerrainType::Water), TerrainType::Water) => true,
                            _ => false,
                        };
                        if matches_tt {
                            self.prop_region_map.set(v * PROP_GRID_SIZE + u, region_id);
                        }
                    }
                }
                proof {
                    lemma_count_matching_bounds(
                        self.cells@,
                        region_fn(),
                        self.cells@.len() as int,
                    );
                }
                u = u + 1;
            }
            v = v + 1;
        }
    }

    /// Clears decorative props in a small window around every region's
    /// placement point, so props never overlap the placement marker.
    fn remove_props_around_clearings(&mut self)
        requires
            old(self).wf(),
        ensures
            final(self).wf(),
            final(self).cells == old(self).cells,
            final(self).water_bitmap == old(self).water_bitmap,
            final(self).mountain_bitmap == old(self).mountain_bitmap,
            final(self).surface_bitmap == old(self).surface_bitmap,
            final(self).ink_bitmap == old(self).ink_bitmap,
            final(self).occupation_bitmap == old(self).occupation_bitmap,
            final(self).surface_propmap == old(self).surface_propmap,
            final(self).prop_region_map == old(self).prop_region_map,
            final(self).occupation_noise == old(self).occupation_noise,
            forall|u: int, v: int|
                0 <= u < 40 && 0 <= v < 40 ==> (crate::pixmap::spec_prop_nibble(
                    final(self).propmap@,
                    u,
                    v,
                ) == crate::pixmap::spec_prop_nibble(old(self).propmap@, u, v)
                    || crate::pixmap::spec_prop_nibble(final(self).propmap@, u, v) == 0),
    {
        let mut idx: usize = 0;
        while idx < GRID_CELLS
            invariant
                self.wf(),
                self.cells == old(self).cells,
                self.water_bitmap == old(self).water_bitmap,
                self.mountain_bitmap == old(self).mountain_bitmap,
                self.surface_bitmap == old(self).surface_bitmap,
                self.ink_bitmap == old(self).ink_bitmap,
                self.occupation_bitmap == old(self).occupation_bitmap,
                self.surface_propmap == old(self).surface_propmap,
                self.prop_region_map == old(self).prop_region_map,
                self.occupation_noise == old(self).occupation_noise,
                forall|u: int, v: int|
                    0 <= u < 40 && 0 <= v < 40 ==> (crate::pixmap::spec_prop_nibble(
                        self.propmap@,
                        u,
                        v,
                    ) == crate::pixmap::spec_prop_nibble(old(self).propmap@, u, v)
                        || crate::pixmap::spec_prop_nibble(self.propmap@, u, v) == 0),
            decreases GRID_CELLS - idx,
        {
            let r = idx / GRID_SIZE;
            let c = idx % GRID_SIZE;
            let cell = self.get_cell(r, c);
            let is_region = match cell.contents {
                Contents::Region { .. } => true,
                _ => false,
            };
            if is_region {
                let u: usize = (cell.centroid_x as usize) / PROP_GRID_CELL_SIZE;
                let v: usize = (cell.centroid_y as usize) / PROP_GRID_CELL_SIZE;
                let mut dv: usize = 0;
                while dv < 3
                    invariant
                        self.wf(),
                        self.cells == old(self).cells,
                        self.water_bitmap == old(self).water_bitmap,
                        self.mountain_bitmap == old(self).mountain_bitmap,
                        self.surface_bitmap == old(self).surface_bitmap,
                        self.ink_bitmap == old(self).ink_bitmap,
                        self.occupation_bitmap == old(self).occupation_bitmap,
                        self.surface_propmap == old(self).surface_propmap,
                        self.prop_region_map == old(self).prop_region_map,
                        self.occupation_noise == old(self).occupation_noise,
                        u < 64,
                        v < 64,
                        forall|i: int, j: int|
                            0 <= i < 40 && 0 <= j < 40 ==> (crate::pixmap::spec_prop_nibble(
                                self.propmap@,
                                i,
                                j,
                            ) == crate::pixmap::spec_prop_nibble(old(self).propmap@, i, j)
                                || crate::pixmap::spec_prop_nibble(self.propmap@, i, j) == 0),
                    decreases 3 - dv,
                {
                    let du_hi: usize = if dv == 0 {
                        3
                    } else {
                        4
                    };
                    let mut dui: usize = 0;
                    while dui < du_hi
                        invariant
                            self.wf(),
                            self.cells == old(self).cells,
                            self.water_bitmap == old(self).water_bitmap,
                            self.mountain_bitmap == old(self).mountain_bitmap,
                            self.surface_bitmap == old(self).surface_bitmap,
                            self.ink_bitmap == old(self).ink_bitmap,
                            self.occupation_bitmap == old(self).occupation_bitmap,
                            self.surface_propmap == old(self).surface_propmap,
                            self.prop_region_map == old(self).prop_region_map,
                            self.occupation_noise == old(self).occupation_noise,
                            u < 64,
                            v < 64,
                            dv < 3,
                            du_hi <= 4,
                            forall|i: int, j: int|
                                0 <= i < 40 && 0 <= j < 40 ==> (crate::pixmap::spec_prop_nibble(
                                    self.propmap@,
                                    i,
                                    j,
                                ) == crate::pixmap::spec_prop_nibble(old(self).propmap@, i, j)
                                    || crate::pixmap::spec_prop_nibble(self.propmap@, i, j) == 0),
                        decreases du_hi - dui,
                    {
                        let uui: i64 = u as i64 + dui as i64 - 1;
                        let vvi: i64 = v as i64 + dv as i64;
                        if 0 <= uui && uui < PROP_GRID_SIZE as i64 && vvi < PROP_GRID_SIZE as i64 {
                            crate::pixmap::set_on_propmap(
                                &mut self.propmap,
                                uui as usize,
                                vvi as usize,
                                None,
                            );
                        }
                        dui = dui + 1;
                    }
                    dv = dv + 1;
                }
            }
            idx = idx + 1;
        }
    }

    /// Up to five relaxation passes: an unclaimed fine cell with defined
    /// terrain adopts the region id of a randomly ordered orthogonal neighbor
    /// with the same true terrain; stops early when a pass changes nothing.
    fn relax_unclaimed(&mut self, rng: &mut fastrand::Rng)
        requires
            old(self).wf(),
            prop_claims_valid(old(self).prop_region_map@, old(self).num_regions()),
        ensures
            final(self).wf(),
            final(self).cells == old(self).cells,
            final(self).water_bitmap == old(self).water_bitmap,
            final(self).mountain_bitmap == old(self).mountain_bitmap,
            final(self).surface_bitmap == old(self).surface_bitmap,
            final(self).ink_bitmap == old(self).ink_bitmap,
            final(self).occupation_bitmap == old(self).occupation_bitmap,
            final(self).propmap == old(self).propmap,
            final(self).surface_propmap == old(self).surface_propmap,
            final(self).occupation_noise == old(self).occupation_noise,
            prop_claims_valid(final(self).prop_region_map@, final(self).num_regions()),
    {
        let mut pass: usize = 0;
        while pass < 5
            invariant
                self.wf(),
                self.cells == old(self).cells,
                self.water_bitmap == old(self).water_bitmap,
                self.mountain_bitmap == old(self).mountain_bitmap,
                self.surface_bitmap == old(self).surface_bitmap,
                self.ink_bitmap == old(self).ink_bitmap,
                self.occupation_bitmap == old(self).occupation_bitmap,
                self.propmap == old(self).propmap,
                self.surface_propmap == old(self).surface_propmap,
                self.occupation_noise == old(self).occupation_noise,
                prop_claims_valid(self.prop_region_map@, self.num_regions()),
            ensures
                self.wf(),
                self.cells == old(self).cells,
                self.water_bitmap == old(self).water_bitmap,
                self.mountain_bitmap == old(self).mountain_bitmap,
                self.surface_bitmap == old(self).surface_bitmap,
                self.ink_bitmap == old(self).ink_bitmap,
                self.occupation_bitmap == old(self).occupation_bitmap,
                self.propmap == old(self).propmap,
                self.surface_propmap == old(self).surface_propmap,
                self.occupation_noise == old(self).occupation_noise,
                prop_claims_valid(self.prop_region_map@, self.num_regions()),
            decreases 5 - pass,
        {
            let mut any = false;
            let mut v: usize = 0;
            while v < PROP_GRID_SIZE
                invariant
                    self.wf(),
                    self.cells == old(self).cells,
                    self.water_bitmap == old(self).water_bitmap,
                    self.mountain_bitmap == old(self).mountain_bitmap,
                    self.surface_bitmap == old(self).surface_bitmap,
                    self.ink_bitmap == old(self).ink_bitmap,
                    self.occupation_bitmap == old(self).occupation_bitmap,
                    self.propmap == old(self).propmap,
                    self.surface_propmap == old(self).surface_propmap,
                    self.occupation_noise == old(self).occupation_noise,
                    prop_claims_valid(self.prop_region_map@, self.num_regions()),
                decreases PROP_GRID_SIZE - v,
            {
                let mut u: usize = 0;
                while u < PROP_GRID_SIZE
                    invariant
                        self.wf(),
                        v < PROP_GRID_SIZE,
                        self.cells == old(self).cells,
                        self.water_bitmap == old(self).water_bitmap,
                        self.mountain_bitmap == old(self).mountain_bitmap,
                        self.surface_bitmap == old(self).surface_bitmap,
                        self.ink_bitmap == old(self).ink_bitmap,
                        self.occupation_bitmap == old(self).occupation_bitmap,
                        self.propmap == old(self).propmap,
                        self.surface_propmap == old(self).surface_propmap,
                        self.occupation_noise == old(self).occupation_noise,
                        prop_claims_valid(self.prop_region_map@, self.num_regions()),
                    decreases PROP_GRID_SIZE - u,
                {
                    if self.prop_region_map[v * PROP_GRID_SIZE + u] < 0 {
                        let terrain_type = crate::pixmap::get_from_propmap(
                            &self.surface_propmap,
                            u,
                            v,
                        );
                        if terrain_type.is_some() {
                            let mut adjacents = direction_offsets();
                            crate::rng::rng_shuffle_dirs(rng, &mut adjacents);
                            let mut k: usize = 0;
                            while k < 4
                                invariant
                                    self.wf(),
                                    u < PROP_GRID_SIZE,
                                    v < PROP_GRID_SIZE,
                                    adjacents@.len() == 4,
                                    forall|i: int|
                                        0 <= i < 4 ==> is_unit_dir(#[trigger] adjacents@[i]),
                                    self.cells == old(self).cells,
                                    self.water_bitmap == old(self).water_bitmap,
                                    self.mountain_bitmap == old(self).mountain_bitmap,
                                    self.surface_bitmap == old(self).surface_bitmap,
                                    self.ink_bitmap == old(self).ink_bitmap,
                                    self.occupation_bitmap == old(self).occupation_bitmap,
                                    self.propmap == old(self).propmap,
                                    self.surface_propmap == old(self).surface_propmap,
                                    self.occupation_noise == old(self).occupation_noise,
                                    prop_claims_valid(self.prop_region_map@, self.num_regions()),
                                decreases 4 - k,
                            {
                                let (dv, du) = adjacents[k];
                                let skip = (v == 0 && dv < 0) || (u == 0 && du < 0) || (v + 1
                                    == PROP_GRID_SIZE && dv > 0) || (u + 1 == PROP_GRID_SIZE && du
                                    > 0);
                                if !skip {
                                    let uu: usize = if du == -1 {
                                        u - 1
                                    } else if du == 1 {
                                        u + 1
                                    } else {
                                        u
                                    };
                                    let vv: usize = if dv == -1 {
                                        v - 1
                                    } else if dv == 1 {
                                        v + 1
                                    } else {
                                        v
                                    };
                                    if self.prop_region_map[vv * PROP_GRID_SIZE + uu] >= 0 {
                                        let neighbor_tt = crate::pixmap::get_from_propmap(
                                            &self.surface_propmap,
                                            uu,
                                            vv,
                                        );
                                        let same = match (terrain_type, neighbor_tt) {
                                            (Some(a), Some(b)) => a == b,
                                            (None, None) => true,
                                            _ => false,
                                        };
                                        if same {
                                            let id = self.prop_region_map[vv * PROP_GRID_SIZE
                                                + uu];
                                            self.prop_region_map.set(v * PROP_GRID_SIZE + u, id);
                                            any = true;
                                        }
                                    }
                                }
                                k = k + 1;
                            }
                        }
                    }
                    u = u + 1;
                }
                v = v + 1;
            }
            if !any {
                break ;
            }
            pass = pass + 1;
        }
    }
}

} // verus!

verus! {

proof fn lemma_centroids_preserved(a: Seq<Cell>, b: Seq<Cell>)
    requires
        a.len() == GRID_CELLS,
        centroids_placed(a),
        same_centroids(a, b),
    ensures
        centroids_placed(b),
{
    assert forall|r: int, c: int| 0 <= r < 16 && 0 <= c < 16 implies centroid_in_band(
        #[trigger] b[r * 16 + c],
        r,
        c,
    ) by {
        assert(centroid_in_band(a[r * 16 + c], r, c));
        assert(b[r * 16 + c].centroid_x == a[r * 16 + c].centroid_x);
        assert(b[r * 16 + c].centroid_y == a[r * 16 + c].centroid_y);
    }
}

fn copy_samples(src: &Vec<i32>) -> (v: Vec<i32>)
    ensures
        v@ == src@,
{
    let mut v: Vec<i32> = Vec::new();
    let mut i: usize = 0;
    while i < src.len()
        invariant
            i <= src@.len(),
            v@.len() == i,
            forall|k: int| 0 <= k < i ==> v@[k] == src@[k],
        decreases src@.len() - i,
    {
        v.push(src[i]);
        i = i + 1;
    }
    proof {
        assert(v@ =~= src@);
    }
    v
}

/// Freshly generated state: no cell carries a marker or a nonzero occupation
/// percentage yet.
pub open spec fn fresh_cells(cells: Seq<Cell>) -> bool {
    forall|i: int|
        0 <= i < cells.len() ==> match (#[trigger] cells[i]).contents {
            Contents::Region { marker, occupation_percentage, .. } => marker is None
                && occupation_percentage == 0,
            Contents::Subregion { occupation_percentage, .. } => occupation_percentage == 0,
            Contents::Culled { occupation_percentage } => occupation_percentage == 0,
            _ => true,
        }
}

impl Board {
    /// What `generate` establishes: every cell is terminal, region ids are
    /// dense in grid scan order, fine-grid claims point at real regions,
    /// centroids sit inside their own cells' bands, and the occupation-jitter
    /// grid is in place.
    pub open spec fn generated(self) -> bool {
        &&& terminal_cells(self.cells@, self.num_regions())
        &&& region_ids_dense(self.cells@)
        &&& 0 <= self.num_regions() <= MAX_NUM_REGIONS_TARGET as int
        &&& centroids_placed(self.cells@)
        &&& prop_claims_valid(self.prop_region_map@, self.num_regions())
        &&& self.occupation_noise@.len() == MAP_SIZE * MAP_SIZE
    }

    /// Generates the whole board from the random source and the pre-sampled
    /// noise fields: jittered centroids, per-pixel terrain bitmaps,
    /// nearest-centroid pixel tallies, terrain realization, edge pinning,
    /// checkerboard soft merging, badness-driven pruning into the target
    /// band, region materialization with dense ids, parent resolution,
    /// centroid refinement, and the decoration layer with its region claims.
    /// Deterministic in the random source's state and the fields.
    ///
    /// The (ghost) result is the number of region candidates the merge phases
    /// left for pruning: whenever at least `MIN_NUM_REGIONS_TARGET`
    /// candidates survive merging - which the tuning arranges on real noise -
    /// the final region count lies inside the target band.
    #[verifier::rlimit(100)]
    pub fn generate(&mut self, rng: &mut fastrand::Rng, fields: &NoiseFields) -> (candidates:
        Ghost<int>)
        requires
            old(self).wf(),
            fields.wf(),
        ensures
            final(self).wf(),
            final(self).generated(),
            fresh_cells(final(self).cells@),
            final(self).occupation_noise@ == fields.occupation@,
            candidates@ >= MIN_NUM_REGIONS_TARGET as int ==> final(self).num_regions()
                >= MIN_NUM_REGIONS_TARGET as int,
            candidates@ < MIN_NUM_REGIONS_TARGET as int ==> final(self).num_regions()
                == candidates@,
            forall|i: int, j: int|
                0 <= i < 160 && 0 <= j < 160 ==> crate::pixmap::spec_is_on(
                    final(self).water_bitmap@,
                    i,
                    j,
                ) == (spec_pixel_terrain(*fields, i, j) == TerrainType::Water),
            forall|i: int, j: int|
                0 <= i < 160 && 0 <= j < 160 ==> crate::pixmap::spec_is_on(
                    final(self).mountain_bitmap@,
                    i,
                    j,
                ) == (spec_pixel_terrain(*fields, i, j) == TerrainType::Mountain),
            forall|i: int, j: int|
                0 <= i < 160 && 0 <= j < 160 ==> crate::pixmap::spec_is_on(
                    final(self).surface_bitmap@,
                    i,
                    j,
                ) == spec_has_surface(i, j, spec_pixel_terrain(*fields, i, j)),
            forall|u: int, v: int|
                0 <= u < 40 && 0 <= v < 40 ==> crate::pixmap::spec_prop_nibble(
                    final(self).surface_propmap@,
                    u,
                    v,
                ) == crate::pixmap::spec_prop_encode(
                    crate::terrain::spec_classify_prop(
                        fields.spec_elevation(4 * u, 4 * v),
                        fields.spec_forest(4 * u, 4 * v),
                    ),
                ),
    {
        self.occupation_noise = copy_samples(&fields.occupation);
        self.init_cells(rng);
        let ghost after_init = self.cells@;
        self.tally_pixels(fields);
        proof {
            lemma_centroids_preserved(after_init, self.cells@);
        }
        let ghost after_tally = self.cells@;
        self.realize_all();
        proof {
            lemma_centroids_preserved(after_tally, self.cells@);
            assert(fresh_cells(self.cells@));
        }
        let ghost base = *self;
        let mut i: usize = 0;
        while i < GRID_SIZE
            invariant
                self.wf(),
                merge_stage(self.cells@),
                centroids_placed(self.cells@),
                fresh_cells(self.cells@),
                same_except_cells(base, *self),
                self.water_bitmap == base.water_bitmap,
                self.mountain_bitmap == base.mountain_bitmap,
                self.surface_bitmap == base.surface_bitmap,
                self.ink_bitmap == base.ink_bitmap,
                self.occupation_bitmap == base.occupation_bitmap,
                self.propmap == base.propmap,
                self.surface_propmap == base.surface_propmap,
                self.prop_region_map == base.prop_region_map,
                self.occupation_noise == base.occupation_noise,
            decreases GRID_SIZE - i,
        {
            let ghost before = self.cells@;
            self.merge_edge_cell(i, 0, rng);
            self.merge_edge_cell(i, GRID_SIZE - 1, rng);
            self.merge_edge_cell(0, i, rng);
            self.merge_edge_cell(GRID_SIZE - 1, i, rng);
            proof {
                lemma_centroids_preserved(before, self.cells@);
            }
            i = i + 1;
        }
        let mut r: usize = 1;
        while r < GRID_SIZE - 1
            invariant
                self.wf(),
                merge_stage(self.cells@),
                centroids_placed(self.cells@),
                fresh_cells(self.cells@),
                same_except_cells(base, *self),
                self.water_bitmap == base.water_bitmap,
                self.mountain_bitmap == base.mountain_bitmap,
                self.surface_bitmap == base.surface_bitmap,
                self.ink_bitmap == base.ink_bitmap,
                self.occupation_bitmap == base.occupation_bitmap,
                self.propmap == base.propmap,
                self.surface_propmap == base.surface_propmap,
                self.prop_region_map == base.prop_region_map,
                self.occupation_noise == base.occupation_noise,
            decreases GRID_SIZE - 1 - r,
        {
            let mut c: usize = 1;
            while c < GRID_SIZE - 1
                invariant
                    self.wf(),
                    merge_stage(self.cells@),
                    centroids_placed(self.cells@),
                    fresh_cells(self.cells@),
                    same_except_cells(base, *self),
                    r < GRID_SIZE,
                    self.water_bitmap == base.water_bitmap,
                    self.mountain_bitmap == base.mountain_bitmap,
                    self.surface_bitmap == base.surface_bitmap,
                    self.ink_bitmap == base.ink_bitmap,
                    self.occupation_bitmap == base.occupation_bitmap,
                    self.propmap == base.propmap,
                    self.surface_propmap == base.surface_propmap,
                    self.prop_region_map == base.prop_region_map,
                    self.occupation_noise == base.occupation_noise,
                decreases GRID_SIZE - 1 - c,
            {
                if (r + c) % 2 == 0 {
                    let ghost before = self.cells@;
                    self.soft_merge_cell(r, c, rng);
                    proof {
                        lemma_centroids_preserved(before, self.cells@);
                    }
                }
                c = c + 1;
            }
            r = r + 1;
        }
        let mut r: usize = 1;
        while r < GRID_SIZE - 1
            invariant
                self.wf(),
                merge_stage(self.cells@),
                centroids_placed(self.cells@),
                fresh_cells(self.cells@),
                same_except_cells(base, *self),
                self.water_bitmap == base.water_bitmap,
                self.mountain_bitmap == base.mountain_bitmap,
                self.surface_bitmap == base.surface_bitmap,
                self.ink_bitmap == base.ink_bitmap,
                self.occupation_bitmap == base.occupation_bitmap,
                self.propmap == base.propmap,
                self.surface_propmap == base.surface_propmap,
                self.prop_region_map == base.prop_region_map,
                self.occupation_noise == base.occupation_noise,
            decreases GRID_SIZE - r,
        {
            let mut c: usize = 1;
            while c < GRID_SIZE - 1
                invariant
                    self.wf(),
                    merge_stage(self.cells@),
                    centroids_placed(self.cells@),
                    fresh_cells(self.cells@),
                    same_except_cells(base, *self),
                    r < GRID_SIZE,
                    self.water_bitmap == base.water_bitmap,
                    self.mountain_bitmap == base.mountain_bitmap,
                    self.surface_bitmap == base.surface_bitmap,
                    self.ink_bitmap == base.ink_bitmap,
                    self.occupation_bitmap == base.occupation_bitmap,
                    self.propmap == base.propmap,
                    self.surface_propmap == base.surface_propmap,
                    self.prop_region_map == base.prop_region_map,
                    self.occupation_noise == base.occupation_noise,
                decreases GRID_SIZE - 1 - c,
            {
                let ghost before = self.cells@;
                self.soft_merge_cell(r, c, rng);
                proof {
                    lemma_centroids_preserved(before, self.cells@);
                }
                c = c + 1;
            }
            r = r + 2;
        }
        let mut r: usize = 2;
        while r < GRID_SIZE - 2
            invariant
                self.wf(),
                merge_stage(self.cells@),
                centroids_placed(self.cells@),
                fresh_cells(self.cells@),
                same_except_cells(base, *self),
                self.water_bitmap == base.water_bitmap,
                self.mountain_bitmap == base.mountain_bitmap,
                self.surface_bitmap == base.surface_bitmap,
                self.ink_bitmap == base.ink_bitmap,
                self.occupation_bitmap == base.occupation_bitmap,
                self.propmap == base.propmap,
                self.surface_propmap == base.surface_propmap,
                self.prop_region_map == base.prop_region_map,
                self.occupation_noise == base.occupation_noise,
            decreases GRID_SIZE - r,
        {
            let mut c: usize = 1;
            while c < GRID_SIZE - 1
                invariant
                    self.wf(),
                    merge_stage(self.cells@),
                    centroids_placed(self.cells@),
                    fresh_cells(self.cells@),
                    same_except_cells(base, *self),
                    r < GRID_SIZE,
                    self.water_bitmap == base.water_bitmap,
                    self.mountain_bitmap == base.mountain_bitmap,
                    self.surface_bitmap == base.surface_bitmap,
                    self.ink_bitmap == base.ink_bitmap,
                    self.occupation_bitmap == base.occupation_bitmap,
                    self.propmap == base.propmap,
                    self.surface_propmap == base.surface_propmap,
                    self.prop_region_map == base.prop_region_map,
                    self.occupation_noise == base.occupation_noise,
                decreases GRID_SIZE - c,
            {
                let ghost before = self.cells@;
                self.soft_merge_cell(r, c, rng);
                proof {
                    lemma_centroids_preserved(before, self.cells@);
                }
                c = c + 2;
            }
            r = r + 2;
        }
        let ghost before_prune = self.cells@;
        let ghost candidates = count_unmerged(self.cells@);
        proof {
            lemma_count_matching_bounds(self.cells@, region_fn(), self.cells@.len() as int);
        }
        self.prune_to_band();
        proof {
            lemma_centroids_preserved(before_prune, self.cells@);
            assert(fresh_cells(self.cells@));
        }
        let ghost before_mat = self.cells@;
        self.materialize_regions();
        proof {
            lemma_centroids_preserved(before_mat, self.cells@);
            assert forall|i: int| 0 <= i < GRID_CELLS implies match (
            #[trigger] self.cells@[i]).contents {
                Contents::Region { marker, occupation_percentage, .. } => marker is None
                    && occupation_percentage == 0,
                Contents::Subregion { occupation_percentage, .. } => occupation_percentage == 0,
                Contents::Culled { occupation_percentage } => occupation_percentage == 0,
                _ => true,
            } by {
                if !is_unmerged(before_mat[i]) {
                    assert(self.cells@[i] == before_mat[i]);
                }
            }
            assert(fresh_cells(self.cells@));
        }
        let ghost before_res = self.cells@;
        self.resolve_parents();
        proof {
            lemma_centroids_preserved(before_res, self.cells@);
            assert forall|i: int| 0 <= i < GRID_CELLS implies match (
            #[trigger] self.cells@[i]).contents {
                Contents::Region { marker, occupation_percentage, .. } => marker is None
                    && occupation_percentage == 0,
                Contents::Subregion { occupation_percentage, .. } => occupation_percentage == 0,
                Contents::Culled { occupation_percentage } => occupation_percentage == 0,
                _ => true,
            } by {
                if !(before_res[i].contents is Merged) {
                    assert(self.cells@[i] == before_res[i]);
                }
            }
            assert(fresh_cells(self.cells@));
        }
        let ghost before_ref = *self;
        self.refine_centroids(rng, fields);
        proof {
            assert forall|k: int| 0 <= k < GRID_CELLS implies region_fn()(
                #[trigger] self.cells@[k],
            ) == region_fn()(before_ref.cells@[k]) by {
                lemma_region_fn(self.cells@[k]);
                lemma_region_fn(before_ref.cells@[k]);
            }
            lemma_count_matching_equiv(
                self.cells@,
                before_ref.cells@,
                region_fn(),
                region_fn(),
                GRID_CELLS as int,
            );
            assert forall|i: int|
                0 <= i < GRID_CELLS && self.cells@[i].contents is Region implies match self.cells@[i].contents {
                Contents::Region { region_id, .. } => region_id as int == count_matching(
                    self.cells@,
                    region_fn(),
                    i,
                ),
                _ => true,
            } by {
                lemma_count_matching_equiv(
                    self.cells@,
                    before_ref.cells@,
                    region_fn(),
                    region_fn(),
                    i,
                );
            }
            assert(terminal_cells(self.cells@, self.num_regions()));
            assert(region_ids_dense(self.cells@));
            assert(fresh_cells(self.cells@));
        }
        self.draw_region_clearings();
        self.place_props(fields);
        self.remove_props_around_clearings();
        self.relax_unclaimed(rng);
        proof {
            lemma_count_matching_bounds(self.cells@, region_fn(), self.cells@.len() as int);
            assert(terminal_cells(self.cells@, self.num_regions()));
            assert(region_ids_dense(self.cells@));
            assert(0 <= self.num_regions() <= MAX_NUM_REGIONS_TARGET as int);
            assert(centroids_placed(self.cells@));
            assert(prop_claims_valid(self.prop_region_map@, self.num_regions()));
            assert(self.occupation_noise@.len() == MAP_SIZE * MAP_SIZE);
        }
        Ghost(candidates)
    }
}

} // verus!

verus! {

/// The (id, terrain) pairs of the region cells among the first `k` cells of
/// the grid, in scan order.
pub open spec fn spec_regions_upto(cells: Seq<Cell>, k: int) -> Seq<(i8, TerrainType)>
    decreases k,
{
    if k <= 0 {
        Seq::empty()
    } else {
        let prev = spec_regions_upto(cells, k - 1);
        match cells[k - 1].contents {
            Contents::Region { region_id, terrain_type, .. } => prev.push(
                (region_id, terrain_type),
            ),
            _ => prev,
        }
    }
}

/// Whether a cell is a region with this exact id.
pub open spec fn region_has_id(cell: Cell, id: i8) -> bool {
    match cell.contents {
        Contents::Region { region_id, .. } => region_id == id,
        _ => false,
    }
}

/// The cell with its marker replaced, where it is a region; otherwise
/// unchanged.
pub open spec fn with_marker(cell: Cell, m: Option<Marker>) -> Cell {
    match cell.contents {
        Contents::Region { region_id, terrain_type, marker, occupation_percentage } => Cell {
            contents: Contents::Region {
                region_id,
                terrain_type,
                marker: m,
                occupation_percentage,
            },
            ..cell
        },
        _ => cell,
    }
}

/// The cell as `occupy_region(id)` leaves it: regions with that id and
/// subregions referencing it go to one percent occupation; all else is
/// unchanged.
pub open spec fn occupied_mark(cell: Cell, id: i8) -> Cell {
    match cell.contents {
        Contents::Region { region_id, terrain_type, marker, occupation_percentage } => if region_id
            == id {
            Cell {
                contents: Contents::Region {
                    region_id,
                    terrain_type,
                    marker,
                    occupation_percentage: 1,
                },
                ..cell
            }
        } else {
            cell
        },
        Contents::Subregion { parent_region_id, parent_terrain_type, occupation_percentage } => if parent_region_id
            == id {
            Cell {
                contents: Contents::Subregion {
                    parent_region_id,
                    parent_terrain_type,
                    occupation_percentage: 1,
                },
                ..cell
            }
        } else {
            cell
        },
        _ => cell,
    }
}

/// The cell as `place_village(id)` leaves it: the region with that id and the
/// subregions referencing it report village terrain; all else is unchanged.
pub open spec fn village_mark(cell: Cell, id: i8) -> Cell {
    match cell.contents {
        Contents::Region { region_id, terrain_type, marker, occupation_percentage } => if region_id
            == id {
            Cell {
                contents: Contents::Region {
                    region_id,
                    terrain_type: TerrainType::Village,
                    marker,
                    occupation_percentage,
                },
                ..cell
            }
        } else {
            cell
        },
        Contents::Subregion { parent_region_id, parent_terrain_type, occupation_percentage } => if parent_region_id
            == id {
            Cell {
                contents: Contents::Subregion {
                    parent_region_id,
                    parent_terrain_type: TerrainType::Village,
                    occupation_percentage,
                },
                ..cell
            }
        } else {
            cell
        },
        _ => cell,
    }
}

impl Board {
    /// Enumerates the clickable regions in grid scan order as (id, terrain)
    /// pairs, exactly `spec_regions_upto` over the whole grid. On a generated
    /// board the k-th pair carries id k: ids are unique and densely cover
    /// 0..n.
    pub fn regions(&self) -> (result: Vec<(i8, TerrainType)>)
        requires
            self.wf(),
        ensures
            result@ == spec_regions_upto(self.cells@, GRID_CELLS as int),
            result@.len() == self.num_regions(),
            region_ids_dense(self.cells@) ==> forall|k: int|
                0 <= k < result@.len() ==> (#[trigger] result@[k]).0 as int == k,
    {
        let mut result: Vec<(i8, TerrainType)> = Vec::new();
        let mut idx: usize = 0;
        while idx < GRID_CELLS
            invariant
                self.wf(),
                idx <= GRID_CELLS,
                result@ == spec_regions_upto(self.cells@, idx as int),
                result@.len() == count_matching(self.cells@, region_fn(), idx as int),
                region_ids_dense(self.cells@) ==> forall|k: int|
                    0 <= k < result@.len() ==> (#[trigger] result@[k]).0 as int == k,
            decreases GRID_CELLS - idx,
        {
            let r = idx / GRID_SIZE;
            let c = idx % GRID_SIZE;
            proof {
                assert(r * 16 + c == idx);
                lemma_region_fn(self.cells@[idx as int]);
            }
            let cell = self.get_cell(r, c);
            match cell.contents {
                Contents::Region { region_id, terrain_type, .. } => {
                    result.push((region_id, terrain_type));
                },
                _ => (),
            }
            idx = idx + 1;
        }
        result
    }

    /// Stores (or clears) the marker of the region with this id; a silent
    /// no-op when no region has it. On a generated board at most one cell
    /// matches.
    pub fn set_marker_in_region(&mut self, region_id: i8, marker: Option<Marker>)
        requires
            old(self).wf(),
        ensures
            final(self).wf(),
            same_except_cells(*old(self), *final(self)),
            same_centroids(old(self).cells@, final(self).cells@),
            forall|i: int|
                0 <= i < GRID_CELLS && !region_has_id(old(self).cells@[i], region_id) ==> final(self).cells@[i] == old(self).cells@[i],
            (exists|i: int| 0 <= i < GRID_CELLS && region_has_id(old(self).cells@[i], region_id))
                ==> exists|i: int|
                0 <= i < GRID_CELLS && region_has_id(old(self).cells@[i], region_id) && final(self).cells@[i] == with_marker(old(self).cells@[i], marker) && (forall|j: int|
                    0 <= j < GRID_CELLS && j != i ==> final(self).cells@[j] == old(self).cells@[j]),
            !(exists|i: int| 0 <= i < GRID_CELLS && region_has_id(old(self).cells@[i], region_id))
                ==> *final(self) == *old(self),
    {
        let mut idx: usize = 0;
        while idx < GRID_CELLS
            invariant
                *self == *old(self),
                self.wf(),
                idx <= GRID_CELLS,
                forall|i: int|
                    0 <= i < idx ==> !region_has_id(#[trigger] old(self).cells@[i], region_id),
            decreases GRID_CELLS - idx,
        {
            let r = idx / GRID_SIZE;
            let c = idx % GRID_SIZE;
            proof {
                assert(r * 16 + c == idx);
            }
            let cell = self.get_cell(r, c);
            let matched = match cell.contents {
                Contents::Region { region_id: rid, .. } => rid == region_id,
                _ => false,
            };
            if matched {
                self.set_cell(r, c, with_marker_exec(cell, marker));
                proof {
                    let wi = idx as int;
                    assert(region_has_id(old(self).cells@[wi], region_id));
                    assert(self.cells@[wi] == with_marker(old(self).cells@[wi], marker));
                    assert(forall|j: int|
                        0 <= j < GRID_CELLS && j != wi ==> self.cells@[j] == old(self).cells@[j]);
                }
                return ;
            }
            idx = idx + 1;
        }
    }

    /// Marks the region with this id, and every subregion referencing it, as
    /// occupied at a one percent watermark; a silent no-op elsewhere.
    pub fn occupy_region(&mut self, region_id: i8)
        requires
            old(self).wf(),
        ensures
            final(self).wf(),
            same_except_cells(*old(self), *final(self)),
            same_centroids(old(self).cells@, final(self).cells@),
            forall|i: int|
                0 <= i < GRID_CELLS ==> final(self).cells@[i] == occupied_mark(
                    #[trigger] old(self).cells@[i],
                    region_id,
                ),
    {
        let mut idx: usize = 0;
        while idx < GRID_CELLS
            invariant
                self.wf(),
                idx <= GRID_CELLS,
                same_except_cells(*old(self), *self),
                same_centroids(old(self).cells@, self.cells@),
                forall|i: int|
                    0 <= i < idx ==> self.cells@[i] == occupied_mark(
                        #[trigger] old(self).cells@[i],
                        region_id,
                    ),
                forall|i: int| idx <= i < GRID_CELLS ==> self.cells@[i] == old(self).cells@[i],
            decreases GRID_CELLS - idx,
        {
            let r = idx / GRID_SIZE;
            let c = idx % GRID_SIZE;
            proof {
                assert(r * 16 + c == idx);
            }
            let cell = self.get_cell(r, c);
            match cell.contents {
                Contents::Region { region_id: rid, terrain_type, marker, .. } => {
                    if rid == region_id {
                        self.set_cell(
                            r,
                            c,
                            Cell {
                                contents: Contents::Region {
                                    region_id: rid,
                                    terrain_type,
                                    marker,
                                    occupation_percentage: 1,
                                },
                                ..cell
                            },
                        );
                    }
                },
                Contents::Subregion { parent_region_id, parent_terrain_type, .. } => {
                    if parent_region_id == region_id {
                        self.set_cell(
                            r,
                            c,
                            Cell {
                                contents: Contents::Subregion {
                                    parent_region_id,
                                    parent_terrain_type,
                                    occupation_percentage: 1,
                                },
                                ..cell
                            },
                        );
                    }
                },
                _ => (),
            }
            idx = idx + 1;
        }
    }
}

/// Builds the marker-replaced cell.
fn with_marker_exec(cell: Cell, m: Option<Marker>) -> (out: Cell)
    ensures
        out == with_marker(cell, m),
{
    match cell.contents {
        Contents::Region { region_id, terrain_type, marker: _, occupation_percentage } => Cell {
            contents: Contents::Region { region_id, terrain_type, marker: m, occupation_percentage },
            ..cell
        },
        _ => cell,
    }
}

/// The placement point the village props are reworked around: the centroid
/// of the region cell with this id met last in scan order among the first
/// `k` cells, or (0, 0) when none matches.
pub open spec fn spec_village_center_upto(cells: Seq<Cell>, id: i8, k: int) -> (int, int)
    decreases k,
{
    if k <= 0 {
        (0, 0)
    } else if region_has_id(cells[k - 1], id) {
        (cells[k - 1].centroid_x as int, cells[k - 1].centroid_y as int)
    } else {
        spec_village_center_upto(cells, id, k - 1)
    }
}

/// The prop nibble a fine cell holds after a village upgrade of the region
/// with this id: cells claimed by the region, holding a prop, within the
/// village radius of the placement point become a village prop on even u+v
/// and are cleared on odd u+v; every other cell keeps its prop.
pub open spec fn spec_village_nibble(b: Board, id: i8, u: int, v: int) -> u8 {
    let ctr = spec_village_center_upto(b.cells@, id, GRID_CELLS as int);
    let dx = 4 * u - ctr.0;
    let dy = 4 * v - ctr.1;
    if b.prop_region_map@[v * 40 + u] == id && crate::pixmap::spec_prop_nibble(b.propmap@, u, v)
        != 0 && dx * dx + dy * dy <= 225 {
        if (u + v) % 2 == 0 {
            crate::pixmap::spec_prop_encode(Some(TerrainType::Village))
        } else {
            0u8
        }
    } else {
        crate::pixmap::spec_prop_nibble(b.propmap@, u, v)
    }
}

impl Board {
    /// Upgrades the region with this id (and the subregions referencing it)
    /// to village terrain, and converts or clears the decorative props within
    /// a fixed radius of the region's placement point. Region topology,
    /// claims and adjacency are untouched.
    pub fn place_village(&mut self, region_id: i8)
        requires
            old(self).wf(),
        ensures
            final(self).wf(),
            final(self).water_bitmap == old(self).water_bitmap,
            final(self).mountain_bitmap == old(self).mountain_bitmap,
            final(self).surface_bitmap == old(self).surface_bitmap,
            final(self).ink_bitmap == old(self).ink_bitmap,
            final(self).occupation_bitmap == old(self).occupation_bitmap,
            final(self).surface_propmap == old(self).surface_propmap,
            final(self).prop_region_map == old(self).prop_region_map,
            final(self).occupation_noise == old(self).occupation_noise,
            same_centroids(old(self).cells@, final(self).cells@),
            forall|i: int|
                0 <= i < GRID_CELLS ==> final(self).cells@[i] == village_mark(
                    #[trigger] old(self).cells@[i],
                    region_id,
                ),
            forall|u: int, v: int|
                0 <= u < 40 && 0 <= v < 40 ==> crate::pixmap::spec_prop_nibble(
                    final(self).propmap@,
                    u,
                    v,
                ) == spec_village_nibble(*old(self), region_id, u, v),
    {
        let ghost orig = *old(self);
        let mut centerx: i64 = 0;
        let mut centery: i64 = 0;
        let mut idx: usize = 0;
        while idx < GRID_CELLS
            invariant
                self.wf(),
                idx <= GRID_CELLS,
                0 <= centerx <= 255,
                0 <= centery <= 255,
                self.water_bitmap == old(self).water_bitmap,
                self.mountain_bitmap == old(self).mountain_bitmap,
                self.surface_bitmap == old(self).surface_bitmap,
                self.ink_bitmap == old(self).ink_bitmap,
                self.occupation_bitmap == old(self).occupation_bitmap,
                self.propmap == old(self).propmap,
                self.surface_propmap == old(self).surface_propmap,
                self.prop_region_map == old(self).prop_region_map,
                self.occupation_noise == old(self).occupation_noise,
                same_centroids(old(self).cells@, self.cells@),
                (centerx as int, centery as int) == spec_village_center_upto(
                    old(self).cells@,
                    region_id,
                    idx as int,
                ),
                forall|i: int|
                    0 <= i < idx ==> self.cells@[i] == village_mark(
                        #[trigger] old(self).cells@[i],
                        region_id,
                    ),
                forall|i: int| idx <= i < GRID_CELLS ==> self.cells@[i] == old(self).cells@[i],
            decreases GRID_CELLS - idx,
        {
            let r = idx / GRID_SIZE;
            let c = idx % GRID_SIZE;
            proof {
                assert(r * 16 + c == idx);
            }
            let cell = self.get_cell(r, c);
            match cell.contents {
                Contents::Region { region_id: rid, marker, occupation_percentage, .. } => {
                    if rid == region_id {
                        self.set_cell(
                            r,
                            c,
                            Cell {
                                contents: Contents::Region {
                                    region_id: rid,
                                    terrain_type: TerrainType::Village,
                                    marker,
                                    occupation_percentage,
                                },
                                ..cell
                            },
                        );
                        centerx = cell.centroid_x as i64;
                        centery = cell.centroid_y as i64;
                    }
                },
                Contents::Subregion { parent_region_id, occupation_percentage, .. } => {
                    if parent_region_id == region_id {
                        self.set_cell(
                            r,
                            c,
                            Cell {
                                contents: Contents::Subregion {
                                    parent_region_id,
                                    parent_terrain_type: TerrainType::Village,
                                    occupation_percentage,
                                },
                                ..cell
                            },
                        );
                    }
                },
                _ => (),
            }
            idx = idx + 1;
        }
        let mut v: usize = 0;
        while v < PROP_GRID_SIZE
            invariant
                self.wf(),
                v <= PROP_GRID_SIZE,
                0 <= centerx <= 255,
                0 <= centery <= 255,
                self.water_bitmap == old(self).water_bitmap,
                self.mountain_bitmap == old(self).mountain_bitmap,
                self.surface_bitmap == old(self).surface_bitmap,
                self.ink_bitmap == old(self).ink_bitmap,
                self.occupation_bitmap == old(self).occupation_bitmap,
                self.surface_propmap == old(self).surface_propmap,
                self.prop_region_map == old(self).prop_region_map,
                self.occupation_noise == old(self).occupation_noise,
                same_centroids(old(self).cells@, self.cells@),
                (centerx as int, centery as int) == spec_village_center_upto(
                    orig.cells@,
                    region_id,
                    GRID_CELLS as int,
                ),
                orig == *old(self),
                forall|i: int|
                    0 <= i < GRID_CELLS ==> self.cells@[i] == village_mark(
                        #[trigger] old(self).cells@[i],
                        region_id,
                    ),
                forall|i: int, j: int|
                    0 <= i < 40 && 0 <= j < 40 ==> crate::pixmap::spec_prop_nibble(
                        self.propmap@,
                        i,
                        j,
                    ) == (if j < v {
                        spec_village_nibble(orig, region_id, i, j)
                    } else {
                        crate::pixmap::spec_prop_nibble(orig.propmap@, i, j)
                    }),
            decreases PROP_GRID_SIZE - v,
        {
            let mut u: usize = 0;
            while u < PROP_GRID_SIZE
                invariant
                    self.wf(),
                    v < PROP_GRID_SIZE,
                    u <= PROP_GRID_SIZE,
                    0 <= centerx <= 255,
                    0 <= centery <= 255,
                    self.water_bitmap == old(self).water_bitmap,
                    self.mountain_bitmap == old(self).mountain_bitmap,
                    self.surface_bitmap == old(self).surface_bitmap,
                    self.ink_bitmap == old(self).ink_bitmap,
                    self.occupation_bitmap == old(self).occupation_bitmap,
                    self.surface_propmap == old(self).surface_propmap,
                    self.prop_region_map == old(self).prop_region_map,
                    self.occupation_noise == old(self).occupation_noise,
                    same_centroids(old(self).cells@, self.cells@),
                    (centerx as int, centery as int) == spec_village_center_upto(
                        orig.cells@,
                        region_id,
                        GRID_CELLS as int,
                    ),
                    orig == *old(self),
                    forall|i: int|
                        0 <= i < GRID_CELLS ==> self.cells@[i] == village_mark(
                            #[trigger] old(self).cells@[i],
                            region_id,
                        ),
                    forall|i: int, j: int|
                        0 <= i < 40 && 0 <= j < 40 ==> crate::pixmap::spec_prop_nibble(
                            self.propmap@,
                            i,
                            j,
                        ) == (if j < v || (j == v && i < u) {
                            spec_village_nibble(orig, region_id, i, j)
                        } else {
                            crate::pixmap::spec_prop_nibble(orig.propmap@, i, j)
                        }),
                decreases PROP_GRID_SIZE - u,
            {
                let claimed = self.prop_region_map[v * PROP_GRID_SIZE + u] == region_id;
                if claimed {
                    let existing = crate::pixmap::get_from_propmap(&self.propmap, u, v);
                    if existing.is_some() {
                        let x: i64 = (u * PROP_GRID_CELL_SIZE) as i64;
                        let y: i64 = (v * PROP_GRID_CELL_SIZE) as i64;
                        let dx: i64 = x - centerx;
                        let dy: i64 = y - centery;
                        proof {
                            assert(0 <= dx * dx <= 255 * 255) by (nonlinear_arith)
                                requires
                                    -255 <= dx <= 255,
                            ;
                            assert(0 <= dy * dy <= 255 * 255) by (nonlinear_arith)
                                requires
                                    -255 <= dy <= 255,
                            ;
                        }
                        if dx * dx + dy * dy <= 15 * 15 {
                            let prop = if (u + v) % 2 == 0 {
                                Some(TerrainType::Village)
                            } else {
                                None
                            };
                            crate::pixmap::set_on_propmap(&mut self.propmap, u, v, prop);
                        }
                    }
                }
                u = u + 1;
            }
            v = v + 1;
        }
    }

    /// The region id shown under a cursor pixel, if any: the nearest-centroid
    /// cell's region (or its subregion's parent), rejecting matches farther
    /// than a generous distance bound.
    pub open spec fn spec_hovered(self, x: int, y: int) -> Option<i8> {
        let rcd = self.spec_closest_rc(x, y);
        if rcd.2 > 1000000 {
            None
        } else {
            match self.spec_cell(rcd.0, rcd.1).contents {
                Contents::Region { region_id, .. } => Some(region_id),
                Contents::Subregion { parent_region_id, .. } => Some(parent_region_id),
                _ => None,
            }
        }
    }

    /// Hit-tests a cursor position (in map-local pixels, possibly outside the
    /// canvas) against the region grid.
    pub fn determine_hovered_region_id(&self, x: i32, y: i32) -> (res: Option<i8>)
        requires
            self.wf(),
            -100000 <= x <= 100000,
            -100000 <= y <= 100000,
        ensures
            res == self.spec_hovered(x as int, y as int),
            terminal_cells(self.cells@, self.num_regions()) ==> match res {
                Some(id) => 0 <= id < self.num_regions(),
                None => true,
            },
    {
        let (r, c, sqdis) = self.closest_rc_to_xy(x, y);
        if sqdis > 1000000 {
            return None;
        }
        let cell = self.get_cell(r, c);
        match cell.contents {
            Contents::Region { region_id, .. } => Some(region_id),
            Contents::Subregion { parent_region_id, .. } => Some(parent_region_id),
            _ => None,
        }
    }
}

} // verus!

verus! {

/// Among the first `n` fine cells in row-major order, some cell is claimed by
/// region `a` while its left or top neighbor is claimed by region `b`.
pub open spec fn claims_adjacent_upto(pm: Seq<i8>, a: i8, b: i8, n: int) -> bool {
    exists|u: int, v: int|
        0 <= u < 40 && 0 <= v < 40 && v * 40 + u < n && #[trigger] pm[v * 40 + u] == a && ((u > 0
            && pm[v * 40 + u - 1] == b) || (v > 0 && pm[(v - 1) * 40 + u] == b))
}

/// Some fine cell is claimed by region `a` while its left or top neighbor is
/// claimed by region `b`.
pub open spec fn claims_adjacent(pm: Seq<i8>, a: i8, b: i8) -> bool {
    claims_adjacent_upto(pm, a, b, 1600)
}

/// Among the first `n` fine cells, some cell on the outer edge of the fine
/// grid is claimed by region `a`.
pub open spec fn claim_on_border_upto(pm: Seq<i8>, a: i8, n: int) -> bool {
    exists|u: int, v: int|
        0 <= u < 40 && 0 <= v < 40 && v * 40 + u < n && #[trigger] pm[v * 40 + u] == a && (u == 0
            || v == 0 || u == 39 || v == 39)
}

/// Some fine cell on the outer edge of the fine grid is claimed by region
/// `a`.
pub open spec fn claim_on_border(pm: Seq<i8>, a: i8) -> bool {
    claim_on_border_upto(pm, a, 1600)
}

proof fn lemma_claims_adjacent_step(pm: Seq<i8>, a: i8, b: i8, u: int, v: int)
    requires
        pm.len() == 1600,
        0 <= u < 40,
        0 <= v < 40,
    ensures
        claims_adjacent_upto(pm, a, b, v * 40 + u + 1) == (claims_adjacent_upto(pm, a, b, v * 40
            + u) || (pm[v * 40 + u] == a && ((u > 0 && pm[v * 40 + u - 1] == b) || (v > 0 && pm[(v
            - 1) * 40 + u] == b)))),
{
    let k = v * 40 + u;
    if claims_adjacent_upto(pm, a, b, k + 1) {
        let (uu, vv): (int, int) = choose|uu: int, vv: int|
            0 <= uu < 40 && 0 <= vv < 40 && vv * 40 + uu < k + 1 && #[trigger] pm[vv * 40 + uu]
                == a && ((uu > 0 && pm[vv * 40 + uu - 1] == b) || (vv > 0 && pm[(vv - 1) * 40 + uu]
                == b));
        if vv * 40 + uu < k {
            assert(claims_adjacent_upto(pm, a, b, k));
        } else {
            assert(vv == v && uu == u);
        }
    }
    if claims_adjacent_upto(pm, a, b, k) {
        let (uu, vv): (int, int) = choose|uu: int, vv: int|
            0 <= uu < 40 && 0 <= vv < 40 && vv * 40 + uu < k && #[trigger] pm[vv * 40 + uu] == a
                && ((uu > 0 && pm[vv * 40 + uu - 1] == b) || (vv > 0 && pm[(vv - 1) * 40 + uu]
                == b));
        assert(claims_adjacent_upto(pm, a, b, k + 1));
    }
    if pm[k] == a && ((u > 0 && pm[k - 1] == b) || (v > 0 && pm[(v - 1) * 40 + u] == b)) {
        assert(0 <= u < 40 && 0 <= v < 40 && v * 40 + u < k + 1 && pm[v * 40 + u] == a && ((u > 0
            && pm[v * 40 + u - 1] == b) || (v > 0 && pm[(v - 1) * 40 + u] == b)));
        assert(claims_adjacent_upto(pm, a, b, k + 1));
    }
}

proof fn lemma_claim_on_border_step(pm: Seq<i8>, a: i8, u: int, v: int)
    requires
        pm.len() == 1600,
        0 <= u < 40,
        0 <= v < 40,
    ensures
        claim_on_border_upto(pm, a, v * 40 + u + 1) == (claim_on_border_upto(pm, a, v * 40 + u) || (
        pm[v * 40 + u] == a && (u == 0 || v == 0 || u == 39 || v == 39))),
{
    let k = v * 40 + u;
    if claim_on_border_upto(pm, a, k + 1) {
        let (uu, vv): (int, int) = choose|uu: int, vv: int|
            0 <= uu < 40 && 0 <= vv < 40 && vv * 40 + uu < k + 1 && #[trigger] pm[vv * 40 + uu]
                == a && (uu == 0 || vv == 0 || uu == 39 || vv == 39);
        if vv * 40 + uu < k {
            assert(claim_on_border_upto(pm, a, k));
        } else {
            assert(vv == v && uu == u);
        }
    }
    if claim_on_border_upto(pm, a, k) {
        let (uu, vv): (int, int) = choose|uu: int, vv: int|
            0 <= uu < 40 && 0 <= vv < 40 && vv * 40 + uu < k && #[trigger] pm[vv * 40 + uu] == a
                && (uu == 0 || vv == 0 || uu == 39 || vv == 39);
        assert(claim_on_border_upto(pm, a, k + 1));
    }
    if pm[k] == a && (u == 0 || v == 0 || u == 39 || v == 39) {
        assert(0 <= u < 40 && 0 <= v < 40 && v * 40 + u < k + 1 && pm[v * 40 + u] == a && (u == 0
            || v == 0 || u == 39 || v == 39));
        assert(claim_on_border_upto(pm, a, k + 1));
    }
}

/// Records the symmetric adjacency edge (i, j): j joins i's set and i joins
/// j's.
fn add_adjacency_pair(adjacency: &mut Vec<crate::bitset::RegionSet>, i: usize, j: usize)
    requires
        old(adjacency)@.len() == MAX_NUM_REGIONS,
        i < MAX_NUM_REGIONS,
        j < MAX_NUM_REGIONS,
        i != j,
    ensures
        final(adjacency)@.len() == MAX_NUM_REGIONS,
        crate::bitset::bitset_elems(final(adjacency)@[i as int]) == crate::bitset::bitset_elems(
            old(adjacency)@[i as int],
        ).insert(j as int),
        crate::bitset::bitset_elems(final(adjacency)@[j as int]) == crate::bitset::bitset_elems(
            old(adjacency)@[j as int],
        ).insert(i as int),
        forall|a: int|
            0 <= a < MAX_NUM_REGIONS && a != i && a != j ==> final(adjacency)@[a] == old(
                adjacency,
            )@[a],
{
    let mut ti = crate::bitset::rs_copy(&adjacency[i]);
    ti.insert(j);
    adjacency.set(i, ti);
    let mut tj = crate::bitset::rs_copy(&adjacency[j]);
    tj.insert(i);
    adjacency.set(j, tj);
}

impl Board {
    /// Derives the region adjacency graph and the border-region set from the
    /// fine grid's claims: every claimed cell whose left or top neighbor is
    /// claimed by a different region yields a symmetric edge, and every
    /// claimed cell touching the fine grid's outer edge marks its region as a
    /// border region. Pre-existing entries are kept.
    #[verifier::rlimit(100)]
    pub fn fill_adjacency(
        &self,
        adjacency: &mut Vec<crate::bitset::RegionSet>,
        border_adjacency: &mut crate::bitset::RegionSet,
    )
        requires
            self.wf(),
            prop_claims_valid(self.prop_region_map@, MAX_NUM_REGIONS as int),
            old(adjacency)@.len() == MAX_NUM_REGIONS,
        ensures
            final(adjacency)@.len() == MAX_NUM_REGIONS,
            forall|a: int, b: int|
                0 <= a < MAX_NUM_REGIONS && 0 <= b < MAX_NUM_REGIONS
                    ==> (#[trigger] crate::bitset::bitset_elems(final(adjacency)@[a]).contains(b)
                    <==> (crate::bitset::bitset_elems(old(adjacency)@[a]).contains(b) || (a != b
                    && (claims_adjacent(self.prop_region_map@, a as i8, b as i8)
                    || claims_adjacent(self.prop_region_map@, b as i8, a as i8))))),
            forall|a: int|
                0 <= a < MAX_NUM_REGIONS ==> (crate::bitset::bitset_elems(
                    *final(border_adjacency),
                ).contains(a) <==> (crate::bitset::bitset_elems(*old(border_adjacency)).contains(a)
                    || claim_on_border(self.prop_region_map@, a as i8))),
            (forall|a: int, b: int|
                0 <= a < MAX_NUM_REGIONS && 0 <= b < MAX_NUM_REGIONS
                    ==> (#[trigger] crate::bitset::bitset_elems(old(adjacency)@[a]).contains(b)
                    <==> crate::bitset::bitset_elems(old(adjacency)@[b]).contains(a))) ==> (forall|
                a: int,
                b: int,
            |
                0 <= a < MAX_NUM_REGIONS && 0 <= b < MAX_NUM_REGIONS
                    ==> (#[trigger] crate::bitset::bitset_elems(final(adjacency)@[a]).contains(b)
                    <==> crate::bitset::bitset_elems(final(adjacency)@[b]).contains(a))),
    {
        let ghost pm = self.prop_region_map@;
        let mut v: usize = 0;
        while v < PROP_GRID_SIZE
            invariant
                self.wf(),
                prop_claims_valid(pm, MAX_NUM_REGIONS as int),
                pm == self.prop_region_map@,
                v <= PROP_GRID_SIZE,
                adjacency@.len() == MAX_NUM_REGIONS,
                forall|a: int, b: int|
                    0 <= a < MAX_NUM_REGIONS && 0 <= b < MAX_NUM_REGIONS
                        ==> (#[trigger] crate::bitset::bitset_elems(adjacency@[a]).contains(b)
                        <==> (crate::bitset::bitset_elems(old(adjacency)@[a]).contains(b) || (a
                        != b && (claims_adjacent_upto(pm, a as i8, b as i8, v as int * 40)
                        || claims_adjacent_upto(pm, b as i8, a as i8, v as int * 40))))),
                forall|a: int|
                    0 <= a < MAX_NUM_REGIONS ==> (crate::bitset::bitset_elems(
                        *border_adjacency,
                    ).contains(a) <==> (crate::bitset::bitset_elems(
                        *old(border_adjacency),
                    ).contains(a) || claim_on_border_upto(pm, a as i8, v as int * 40))),
            decreases PROP_GRID_SIZE - v,
        {
            let mut u: usize = 0;
            while u < PROP_GRID_SIZE
                invariant
                    self.wf(),
                    prop_claims_valid(pm, MAX_NUM_REGIONS as int),
                    pm == self.prop_region_map@,
                    v < PROP_GRID_SIZE,
                    u <= PROP_GRID_SIZE,
                    adjacency@.len() == MAX_NUM_REGIONS,
                    forall|a: int, b: int|
                        0 <= a < MAX_NUM_REGIONS && 0 <= b < MAX_NUM_REGIONS
                            ==> (#[trigger] crate::bitset::bitset_elems(adjacency@[a]).contains(b)
                            <==> (crate::bitset::bitset_elems(old(adjacency)@[a]).contains(b) || (a
                            != b && (claims_adjacent_upto(
                            pm,
                            a as i8,
                            b as i8,
                            v as int * 40 + u as int,
                        ) || claims_adjacent_upto(pm, b as i8, a as i8, v as int * 40 + u as int))))),
                    forall|a: int|
                        0 <= a < MAX_NUM_REGIONS ==> (crate::bitset::bitset_elems(
                            *border_adjacency,
                        ).contains(a) <==> (crate::bitset::bitset_elems(
                            *old(border_adjacency),
                        ).contains(a) || claim_on_border_upto(
                            pm,
                            a as i8,
                            v as int * 40 + u as int,
                        ))),
                decreases PROP_GRID_SIZE - u,
            {
                let i_id: i8 = self.prop_region_map[v * PROP_GRID_SIZE + u];
                let ghost adj_before = adjacency@;
                let ghost border_before = *border_adjacency;
                let mut left_j: i8 = -1;
                let mut top_j: i8 = -1;
                if i_id >= 0 {
                    if u > 0 {
                        let j = self.prop_region_map[v * PROP_GRID_SIZE + u - 1];
                        if i_id != j && j >= 0 {
                            left_j = j;
                            add_adjacency_pair(adjacency, i_id as usize, j as usize);
                        }
                    }
                    if v > 0 {
                        let j = self.prop_region_map[(v - 1) * PROP_GRID_SIZE + u];
                        if i_id != j && j >= 0 && j != left_j {
                            top_j = j;
                            add_adjacency_pair(adjacency, i_id as usize, j as usize);
                        }
                    }
                    if u == 0 || v == 0 || u == PROP_GRID_SIZE - 1 || v == PROP_GRID_SIZE - 1 {
                        border_adjacency.insert(i_id as usize);
                    }
                }
                proof {
                    let k = v as int * 40 + u as int;
                    assert forall|a: int, b: int|
                        0 <= a < MAX_NUM_REGIONS && 0 <= b
                            < MAX_NUM_REGIONS implies (#[trigger] crate::bitset::bitset_elems(
                        adjacency@[a],
                    ).contains(b) <==> (crate::bitset::bitset_elems(old(adjacency)@[a]).contains(b)
                        || (a != b && (claims_adjacent_upto(pm, a as i8, b as i8, k + 1)
                        || claims_adjacent_upto(pm, b as i8, a as i8, k + 1))))) by {
                        lemma_claims_adjacent_step(pm, a as i8, b as i8, u as int, v as int);
                        lemma_claims_adjacent_step(pm, b as i8, a as i8, u as int, v as int);
                    }
                    assert forall|a: int|
                        0 <= a < MAX_NUM_REGIONS implies (crate::bitset::bitset_elems(
                        *border_adjacency,
                    ).contains(a) <==> (crate::bitset::bitset_elems(
                        *old(border_adjacency),
                    ).contains(a) || claim_on_border_upto(pm, a as i8, k + 1))) by {
                        lemma_claim_on_border_step(pm, a as i8, u as int, v as int);
                    }
                }
                u = u + 1;
            }
            v = v + 1;
        }
    }
}

} // verus!

verus! {

/// Whether the (real-valued) distance sqrt(s) pixels lies under m
/// milli-pixels, compared exactly in integers.
pub open spec fn spec_sq_lt(s: int, m: int) -> bool {
    m > 0 && s * 1000000 < m * m
}

/// The frontier's effective-distance comparison: when the pixel is fully
/// enclosed by occupied cells, the distance is capped just under four pixels.
pub open spec fn spec_eff_lt(s: int, capped: bool, m: int) -> bool {
    if capped {
        3990 < m || spec_sq_lt(s, m)
    } else {
        spec_sq_lt(s, m)
    }
}

/// The cell with its occupation watermark raised to at least `p`; cells
/// without a percentage are unchanged.
pub open spec fn raised_cell(cell: Cell, p: u8) -> Cell {
    match cell.spec_occupation() {
        Some(p0) => cell.spec_with_occupation(
            if p0 < p {
                p
            } else {
                p0
            },
        ),
        None => cell,
    }
}

impl Board {
    /// The watermark the frontier pass at completion `p` uses for the cell at
    /// (r, c).
    pub open spec fn spec_frontier_q(self, p: u8, r: int, c: int) -> int {
        match self.spec_cell(r, c).spec_occupation() {
            Some(p0) => if p0 < p {
                p as int
            } else {
                p0 as int
            },
            None => 0,
        }
    }

    /// The occupation-jitter sample at a pixel, clamped to two pixels either
    /// way, in milli-pixels.
    pub open spec fn spec_frontier_noise(self, x: int, y: int) -> int {
        let v = self.occupation_noise@[y * 160 + x] as int;
        if v < -2000 {
            -2000
        } else if v > 2000 {
            2000
        } else {
            v
        }
    }

    /// Whether `update_occupation_map(p)` draws the sampled pixel (x, y):
    /// the pixel is on the sparse diagonal lattice, its nearest eligible cell
    /// is occupied, the pixel is neither water nor mountain, and its distance
    /// falls under the percentage-scaled inner radius, or within a fixed band
    /// beyond it with the clamped jitter noise pushing the boundary outward.
    pub open spec fn spec_frontier_draw(self, p: u8, x: int, y: int) -> bool {
        if (x + y) % 6 != 0 {
            false
        } else {
            let res = self.spec_closest_occupied(x, y);
            if !res.4 {
                false
            } else if crate::pixmap::spec_is_on(self.water_bitmap@, x, y)
                || crate::pixmap::spec_is_on(self.mountain_bitmap@, x, y) {
                false
            } else {
                let q = self.spec_frontier_q(p, res.0, res.1);
                let m = if q >= 100 {
                    4000int
                } else {
                    40 * q
                };
                if spec_eff_lt(res.2, res.3, m) {
                    true
                } else if spec_eff_lt(res.2, res.3, m + 20000) {
                    self.occupation_noise@.len() == MAP_SIZE * MAP_SIZE && spec_eff_lt(
                        res.2,
                        res.3,
                        m + self.spec_frontier_noise(x, y),
                    )
                } else {
                    false
                }
            }
        }
    }

    /// Whether pixel (i, j) ends a frontier pass set: it is drawn itself, or
    /// a drawn pixel dilates onto it from the right, below, or diagonally.
    pub open spec fn spec_frontier_set(self, p: u8, i: int, j: int) -> bool {
        ||| self.spec_frontier_draw(p, i, j)
        ||| (i + 1 < 160 && j > 0 && self.spec_frontier_draw(p, i + 1, j))
        ||| (j + 1 < 160 && i > 0 && self.spec_frontier_draw(p, i, j + 1))
        ||| (i + 1 < 160 && j + 1 < 160 && self.spec_frontier_draw(p, i + 1, j + 1))
    }
}

/// Whether pixel (i, j) has been visited when the scan stands at (x, y).
pub open spec fn pixel_processed(i: int, j: int, x: int, y: int) -> bool {
    j < y || (j == y && i < x)
}

impl Board {
    /// Mid-scan value of pixel (i, j): only visited neighbors have dilated
    /// onto it yet.
    pub open spec fn spec_frontier_partial(self, p: u8, i: int, j: int, x: int, y: int) -> bool {
        ||| self.spec_frontier_draw(p, i, j)
        ||| (i + 1 < 160 && j > 0 && pixel_processed(i + 1, j, x, y) && self.spec_frontier_draw(
            p,
            i + 1,
            j,
        ))
        ||| (j + 1 < 160 && i > 0 && pixel_processed(i, j + 1, x, y) && self.spec_frontier_draw(
            p,
            i,
            j + 1,
        ))
        ||| (i + 1 < 160 && j + 1 < 160 && pixel_processed(i + 1, j + 1, x, y)
            && self.spec_frontier_draw(p, i + 1, j + 1))
    }
}

fn eff_lt(s: i64, capped: bool, m: i64) -> (r: bool)
    requires
        0 <= s <= 200000,
        -100000 <= m <= 100000,
    ensures
        r == spec_eff_lt(s as int, capped, m as int),
{
    proof {
        assert(0 <= s * 1000000 <= 200000 * 1000000) by (nonlinear_arith)
            requires
                0 <= s <= 200000,
        ;
        assert(0 <= m * m <= 100000 * 100000) by (nonlinear_arith)
            requires
                -100000 <= m <= 100000,
        ;
    }
    let sq = m > 0 && s * 1000000 < m * m;
    if capped {
        3990 < m || sq
    } else {
        sq
    }
}

proof fn lemma_search_stable(a: Board, b: Board, x: int, y: int)
    requires
        a.wf(),
        b.wf(),
        forall|i: int|
            0 <= i < GRID_CELLS ==> ((#[trigger] b.cells@[i]).centroid_x == a.cells@[i].centroid_x
                && b.cells@[i].centroid_y == a.cells@[i].centroid_y
                && b.cells@[i].spec_is_occupied() == a.cells@[i].spec_is_occupied()),
    ensures
        b.spec_closest_occupied(x, y) == a.spec_closest_occupied(x, y),
{
    let rc = a.spec_home_rc(x, y);
    let r = rc.0;
    let c = rc.1;
    assert(0 <= r < 16 && 0 <= c < 16);
    assert(b.cells@[r * 16 + c].centroid_x == a.cells@[r * 16 + c].centroid_x);
    assert(b.spec_home_rc(x, y) == a.spec_home_rc(x, y));
    assert(b.spec_r0_c0(x, y) == a.spec_r0_c0(x, y));
    let rc0 = a.spec_r0_c0(x, y);
    let r0 = rc0.0;
    let c0 = rc0.1;
    assert(0 <= r0 <= 14 && 0 <= c0 <= 14);
    assert(b.cells@[r0 * 16 + c0].spec_is_occupied() == a.cells@[r0 * 16 + c0].spec_is_occupied());
    assert(b.cells@[r0 * 16 + c0 + 1].spec_is_occupied() == a.cells@[r0 * 16 + c0
        + 1].spec_is_occupied());
    assert(b.cells@[(r0 + 1) * 16 + c0].spec_is_occupied() == a.cells@[(r0 + 1) * 16
        + c0].spec_is_occupied());
    assert(b.cells@[(r0 + 1) * 16 + c0 + 1].spec_is_occupied() == a.cells@[(r0 + 1) * 16 + c0
        + 1].spec_is_occupied());
    assert(b.cells@[r0 * 16 + c0].centroid_x == a.cells@[r0 * 16 + c0].centroid_x);
    assert(b.cells@[r0 * 16 + c0 + 1].centroid_x == a.cells@[r0 * 16 + c0 + 1].centroid_x);
    assert(b.cells@[(r0 + 1) * 16 + c0].centroid_x == a.cells@[(r0 + 1) * 16 + c0].centroid_x);
    assert(b.cells@[(r0 + 1) * 16 + c0 + 1].centroid_x == a.cells@[(r0 + 1) * 16 + c0
        + 1].centroid_x);
}

impl Board {
    /// Re-rasterizes the 1-bit occupied-territory bitmap for completion
    /// `percentage`, raising each reached cell's occupation watermark (it
    /// never lowers: within a session a cell's percentage only grows), and
    /// dilating each drawn pixel onto its three upper-left neighbors to
    /// compensate for the sparse sampling.
    #[verifier::rlimit(100)]
    pub fn update_occupation_map(&mut self, percentage: u8)
        requires
            old(self).wf(),
        ensures
            final(self).wf(),
            same_centroids(old(self).cells@, final(self).cells@),
            final(self).water_bitmap == old(self).water_bitmap,
            final(self).mountain_bitmap == old(self).mountain_bitmap,
            final(self).surface_bitmap == old(self).surface_bitmap,
            final(self).ink_bitmap == old(self).ink_bitmap,
            final(self).propmap == old(self).propmap,
            final(self).surface_propmap == old(self).surface_propmap,
            final(self).prop_region_map == old(self).prop_region_map,
            final(self).occupation_noise == old(self).occupation_noise,
            forall|i: int|
                0 <= i < GRID_CELLS ==> (final(self).cells@[i] == old(self).cells@[i] || (old(self).cells@[i].spec_is_occupied() && final(self).cells@[i] == raised_cell(
                    #[trigger] old(self).cells@[i],
                    percentage,
                ))),
            forall|i: int|
                0 <= i < GRID_CELLS ==> match (#[trigger] old(self).cells@[i]).spec_occupation() {
                    Some(p0) => final(self).cells@[i].spec_occupation() is Some && p0 <= final(self).cells@[i].spec_occupation().unwrap(),
                    None => final(self).cells@[i] == old(self).cells@[i],
                },
            forall|i: int, j: int|
                0 <= i < 160 && 0 <= j < 160 ==> crate::pixmap::spec_is_on(
                    final(self).occupation_bitmap@,
                    i,
                    j,
                ) == old(self).spec_frontier_set(percentage, i, j),
    {
        let ghost orig = *old(self);
        let mut y: usize = 0;
        while y < MAP_SIZE
            invariant
                self.wf(),
                y <= MAP_SIZE,
                orig == *old(self),
                orig.wf(),
                same_centroids(orig.cells@, self.cells@),
                self.water_bitmap == orig.water_bitmap,
                self.mountain_bitmap == orig.mountain_bitmap,
                self.surface_bitmap == orig.surface_bitmap,
                self.ink_bitmap == orig.ink_bitmap,
                self.propmap == orig.propmap,
                self.surface_propmap == orig.surface_propmap,
                self.prop_region_map == orig.prop_region_map,
                self.occupation_noise == orig.occupation_noise,
                forall|i: int|
                    0 <= i < GRID_CELLS ==> (self.cells@[i] == orig.cells@[i] || (
                    orig.cells@[i].spec_is_occupied() && self.cells@[i] == raised_cell(
                        #[trigger] orig.cells@[i],
                        percentage,
                    ))),
                forall|i: int, j: int|
                    0 <= i < 160 && 0 <= j < 160 ==> crate::pixmap::spec_is_on(
                        self.occupation_bitmap@,
                        i,
                        j,
                    ) == (if pixel_processed(i, j, 0, y as int) {
                        orig.spec_frontier_partial(percentage, i, j, 0, y as int)
                    } else {
                        crate::pixmap::spec_is_on(orig.occupation_bitmap@, i, j)
                    }),
            decreases MAP_SIZE - y,
        {
            let mut x: usize = 0;
            while x < MAP_SIZE
                invariant
                    self.wf(),
                    y < MAP_SIZE,
                    x <= MAP_SIZE,
                    orig == *old(self),
                    orig.wf(),
                    same_centroids(orig.cells@, self.cells@),
                    self.water_bitmap == orig.water_bitmap,
                    self.mountain_bitmap == orig.mountain_bitmap,
                    self.surface_bitmap == orig.surface_bitmap,
                    self.ink_bitmap == orig.ink_bitmap,
                    self.propmap == orig.propmap,
                    self.surface_propmap == orig.surface_propmap,
                    self.prop_region_map == orig.prop_region_map,
                    self.occupation_noise == orig.occupation_noise,
                    forall|i: int|
                        0 <= i < GRID_CELLS ==> (self.cells@[i] == orig.cells@[i] || (
                        orig.cells@[i].spec_is_occupied() && self.cells@[i] == raised_cell(
                            #[trigger] orig.cells@[i],
                            percentage,
                        ))),
                    forall|i: int, j: int|
                        0 <= i < 160 && 0 <= j < 160 ==> crate::pixmap::spec_is_on(
                            self.occupation_bitmap@,
                            i,
                            j,
                        ) == (if pixel_processed(i, j, x as int, y as int) {
                            orig.spec_frontier_partial(percentage, i, j, x as int, y as int)
                        } else {
                            crate::pixmap::spec_is_on(orig.occupation_bitmap@, i, j)
                        }),
                decreases MAP_SIZE - x,
            {
                proof {
                    lemma_search_stable(orig, *self, x as int, y as int);
                }
                let draw: bool = if (x + y) % 6 > 0 {
                    false
                } else {
                    let (r, c, s, capped, near) = self.closest_occupied_rc_to_xy(
                        x as i32,
                        y as i32,
                    );
                    if !near {
                        false
                    } else if crate::pixmap::is_on_bitmap(&self.water_bitmap, x, y)
                        || crate::pixmap::is_on_bitmap(&self.mountain_bitmap, x, y) {
                        false
                    } else {
                        let mut cell = self.get_cell(r, c);
                        let ghost prev_cell = cell;
                        let q = cell.update_occupation_percentage(percentage);
                        self.set_cell(r, c, cell);
                        proof {
                            let i = r as int * 16 + c as int;
                            assert(self.cells@[i] == cell);
                            assert(prev_cell == orig.cells@[i] || (orig.cells@[i].spec_is_occupied()
                                && prev_cell == raised_cell(orig.cells@[i], percentage)));
                            assert(cell == raised_cell(orig.cells@[i], percentage));
                            assert(q as int == orig.spec_frontier_q(percentage, r as int, c as int));
                        }
                        let m: i64 = if q >= 100 {
                            4000
                        } else {
                            40 * (q as i64)
                        };
                        if eff_lt(s, capped, m) {
                            true
                        } else if eff_lt(s, capped, m + 20000) {
                            if self.occupation_noise.len() == MAP_SIZE * MAP_SIZE {
                                let nv0: i32 = self.occupation_noise[y * MAP_SIZE + x];
                                let nv: i64 = if nv0 < -2000 {
                                    -2000
                                } else if nv0 > 2000 {
                                    2000
                                } else {
                                    nv0 as i64
                                };
                                eff_lt(s, capped, m + nv)
                            } else {
                                false
                            }
                        } else {
                            false
                        }
                    }
                };
                proof {
                    assert(draw == orig.spec_frontier_draw(percentage, x as int, y as int));
                }
                if draw {
                    crate::pixmap::draw_on_bitmap(&mut self.occupation_bitmap, x, y);
                    if x > 0 && y > 0 {
                        crate::pixmap::draw_on_bitmap(&mut self.occupation_bitmap, x - 1, y);
                        crate::pixmap::draw_on_bitmap(&mut self.occupation_bitmap, x, y - 1);
                        crate::pixmap::draw_on_bitmap(&mut self.occupation_bitmap, x - 1, y - 1);
                    }
                } else {
                    crate::pixmap::erase_on_bitmap(&mut self.occupation_bitmap, x, y);
                }
                x = x + 1;
            }
            y = y + 1;
        }
        proof {
            assert forall|i: int, j: int| 0 <= i < 160 && 0 <= j < 160 implies crate::pixmap::spec_is_on(
                self.occupation_bitmap@,
                i,
                j,
            ) == orig.spec_frontier_set(percentage, i, j) by {
                assert(pixel_processed(i, j, 0, 160));
            }
            assert forall|i: int| 0 <= i < GRID_CELLS implies match (
            #[trigger] orig.cells@[i]).spec_occupation() {
                Some(p0) => self.cells@[i].spec_occupation() is Some && p0
                    <= self.cells@[i].spec_occupation().unwrap(),
                None => self.cells@[i] == orig.cells@[i],
            } by {
                assert(self.cells@[i] == orig.cells@[i] || (orig.cells@[i].spec_is_occupied()
                    && self.cells@[i] == raised_cell(orig.cells@[i], percentage)));
            }
        }
    }
}

} // verus!

verus! {

impl Board {
    /// Emits the full frame's drawing commands: surface texture, highlight
    /// props, water, the occupation frontier with its drop shadow, placement
    /// ink, boats on water regions, decorative props (highlighted for the
    /// hovered region or terrain), and per-region markers layered with the
    /// combat-preview hints. The host executes the commands in order.
    /// Rendering detail is presentation, not board state: nothing here
    /// mutates the board.
    pub fn draw(
        &self,
        hovered_region_id: Option<i8>,
        highlighted_terrain_type: Option<TerrainType>,
        blood_palette: bool,
        kill_preview: &crate::bitset::RegionSet,
        attack_preview: &crate::bitset::RegionSet,
        support_preview: &crate::bitset::RegionSet,
        gather_preview: &crate::bitset::RegionSet,
    ) -> (res: Vec<crate::render::DrawCmd>)
        requires
            self.wf(),
            terminal_cells(self.cells@, MAX_NUM_REGIONS as int),
            prop_claims_valid(self.prop_region_map@, MAX_NUM_REGIONS as int),
        ensures
            res@.len() >= 2,
            res@[1] is BlitSurfaceMap,
    {
        let mut cmds: Vec<crate::render::DrawCmd> = Vec::new();
        let mut is_empty: Vec<bool> = Vec::new();
        let mut k: usize = 0;
        while k < MAX_NUM_REGIONS
            invariant
                is_empty@.len() == k,
                k <= MAX_NUM_REGIONS,
            decreases MAX_NUM_REGIONS - k,
        {
            is_empty.push(false);
            k = k + 1;
        }
        let mut idx: usize = 0;
        while idx < GRID_CELLS
            invariant
                self.wf(),
                terminal_cells(self.cells@, MAX_NUM_REGIONS as int),
                is_empty@.len() == MAX_NUM_REGIONS,
            decreases GRID_CELLS - idx,
        {
            let r = idx / GRID_SIZE;
            let c = idx % GRID_SIZE;
            proof {
                assert(r * 16 + c == idx);
            }
            let cell = self.get_cell(r, c);
            match cell.contents {
                Contents::Region { region_id, marker, occupation_percentage, terrain_type: _ } => {
                    is_empty.set(
                        region_id as usize,
                        marker.is_none() && occupation_percentage == 0,
                    );
                },
                _ => (),
            }
            idx = idx + 1;
        }
        cmds.push(crate::render::DrawCmd::Colors(0x20));
        cmds.push(crate::render::DrawCmd::BlitSurfaceMap);
        cmds.push(crate::render::DrawCmd::Colors(0x40));
        proof {
            assert(cmds@.len() >= 2 && cmds@[1] is BlitSurfaceMap);
        }
        if hovered_region_id.is_some() || highlighted_terrain_type.is_some() {
            let mut v: usize = 0;
            while v < PROP_GRID_SIZE
                invariant
                    self.wf(),
                    prop_claims_valid(self.prop_region_map@, MAX_NUM_REGIONS as int),
                    is_empty@.len() == MAX_NUM_REGIONS,
                    cmds@.len() >= 2 && cmds@[1] is BlitSurfaceMap,
                    v <= PROP_GRID_SIZE,
                decreases PROP_GRID_SIZE - v,
            {
                let mut u: usize = 0;
                while u < PROP_GRID_SIZE
                    invariant
                        self.wf(),
                        prop_claims_valid(self.prop_region_map@, MAX_NUM_REGIONS as int),
                        is_empty@.len() == MAX_NUM_REGIONS,
                        cmds@.len() >= 2 && cmds@[1] is BlitSurfaceMap,
                        v < PROP_GRID_SIZE,
                        u <= PROP_GRID_SIZE,
                    decreases PROP_GRID_SIZE - u,
                {
                    let region_id = self.prop_region_map[v * PROP_GRID_SIZE + u];
                    let hovered_matches = match hovered_region_id {
                        Some(h) => h == region_id,
                        None => false,
                    };
                    if region_id >= 0 && is_empty[region_id as usize] && (
                    highlighted_terrain_type.is_some() || hovered_matches) {
                        let x: i32 = 2 + (u * PROP_GRID_CELL_SIZE) as i32;
                        let y: i32 = 7 + (v * PROP_GRID_CELL_SIZE) as i32;
                        let alt: u8 = ((23 * u + 71 * v + 59 * (u + v)) % 97) as u8;
                        let tt = crate::pixmap::get_from_propmap(&self.surface_propmap, u, v);
                        let tt_matches = match (tt, highlighted_terrain_type) {
                            (Some(a), Some(b)) => a == b,
                            _ => false,
                        };
                        if hovered_matches || tt_matches {
                            match tt {
                                Some(TerrainType::Mountain) => {
                                    cmds.push(
                                        crate::render::DrawCmd::Sprite(
                                            crate::sprites::draw_surface(x, y, alt),
                                        ),
                                    );
                                },
                                Some(TerrainType::Hill) => {
                                    cmds.push(
                                        crate::render::DrawCmd::Sprite(
                                            crate::sprites::draw_surface(x, y, alt),
                                        ),
                                    );
                                },
                                Some(TerrainType::Grass) => {
                                    cmds.push(
                                        crate::render::DrawCmd::Sprite(
                                            crate::sprites::draw_surface(x, y, alt),
                                        ),
                                    );
                                },
                                _ => (),
                            }
                        }
                    }
                    u = u + 1;
                }
                v = v + 1;
            }
        }
        cmds.push(crate::render::DrawCmd::Colors(0x20));
        cmds.push(crate::render::DrawCmd::BlitWater);
        cmds.push(crate::render::DrawCmd::Colors(0x10));
        cmds.push(crate::render::DrawCmd::BlitOccupation { dy: 0 });
        cmds.push(crate::render::DrawCmd::Colors(0x20));
        cmds.push(crate::render::DrawCmd::BlitOccupation { dy: 3 });
        cmds.push(crate::render::DrawCmd::Colors(0x30));
        cmds.push(crate::render::DrawCmd::BlitInk);
        proof {
            assert(cmds@.len() >= 2 && cmds@[1] is BlitSurfaceMap);
        }
        let mut idx: usize = 0;
        while idx < GRID_CELLS
            invariant
                self.wf(),
                cmds@.len() >= 2 && cmds@[1] is BlitSurfaceMap,
                idx <= GRID_CELLS,
            decreases GRID_CELLS - idx,
        {
            let r = idx / GRID_SIZE;
            let c = idx % GRID_SIZE;
            proof {
                assert(r * 16 + c == idx);
            }
            let cell = self.get_cell(r, c);
            let is_water_region = match cell.contents {
                Contents::Region { terrain_type: TerrainType::Water, .. } => true,
                _ => false,
            };
            if is_water_region {
                cmds.push(crate::render::DrawCmd::Colors(0x1320));
                cmds.push(
                    crate::render::DrawCmd::Sprite(
                        crate::sprites::draw_boat(
                            2 + cell.centroid_x as i32,
                            7 + cell.centroid_y as i32,
                            ((2 * r + 3 * c) % 17) as u8,
                        ),
                    ),
                );
            }
            idx = idx + 1;
        }
        let mut v: usize = 0;
        while v < PROP_GRID_SIZE
            invariant
                self.wf(),
                prop_claims_valid(self.prop_region_map@, MAX_NUM_REGIONS as int),
                is_empty@.len() == MAX_NUM_REGIONS,
                cmds@.len() >= 2 && cmds@[1] is BlitSurfaceMap,
                v <= PROP_GRID_SIZE,
            decreases PROP_GRID_SIZE - v,
        {
            let mut u: usize = 0;
            while u < PROP_GRID_SIZE
                invariant
                    self.wf(),
                    prop_claims_valid(self.prop_region_map@, MAX_NUM_REGIONS as int),
                    is_empty@.len() == MAX_NUM_REGIONS,
                    cmds@.len() >= 2 && cmds@[1] is BlitSurfaceMap,
                    v < PROP_GRID_SIZE,
                    u <= PROP_GRID_SIZE,
                decreases PROP_GRID_SIZE - u,
            {
                let region_id = self.prop_region_map[v * PROP_GRID_SIZE + u];
                let terrain_type = crate::pixmap::get_from_propmap(&self.propmap, u, v);
                let hovered_matches = match hovered_region_id {
                    Some(h) => h == region_id,
                    None => false,
                };
                let tt_matches = match (terrain_type, highlighted_terrain_type) {
                    (Some(a), Some(b)) => a == b,
                    (None, None) => true,
                    _ => false,
                };
                if region_id >= 0 && is_empty[region_id as usize] && (hovered_matches
                    || tt_matches) {
                    cmds.push(crate::render::DrawCmd::Colors(0x4320));
                } else {
                    cmds.push(crate::render::DrawCmd::Colors(0x1320));
                }
                let x: i32 = 2 + (u * PROP_GRID_CELL_SIZE) as i32;
                let y: i32 = 7 + (v * PROP_GRID_CELL_SIZE) as i32 + (u % 2) as i32;
                let alt: u8 = ((23 * u + 71 * v + 59 * (u + v)) % 97) as u8;
                match terrain_type {
                    Some(TerrainType::Mountain) => {
                        cmds.push(
                            crate::render::DrawCmd::Sprite(
                                crate::sprites::draw_mountain(x, y + 4, alt),
                            ),
                        );
                    },
                    Some(TerrainType::Hill) => {
                        cmds.push(
                            crate::render::DrawCmd::Sprite(crate::sprites::draw_hill(x, y, alt)),
                        );
                    },
                    Some(TerrainType::Forest) => {
                        cmds.push(
                            crate::render::DrawCmd::Sprite(
                                crate::sprites::draw_tree(x - 1, y, alt),
                            ),
                        );
                    },
                    Some(TerrainType::Village) => {
                        cmds.push(crate::render::DrawCmd::House { x: x - 1, y, alt });
                    },
                    Some(TerrainType::Grass) => {
                        let is_placing_blood = hovered_matches && blood_palette;
                        if alt < 25 && (u + v) % 2 > 0 && !is_placing_blood {
                            cmds.push(
                                crate::render::DrawCmd::Sprite(
                                    crate::sprites::draw_grass(x, y, alt),
                                ),
                            );
                        }
                    },
                    _ => (),
                }
                u = u + 1;
            }
            v = v + 1;
        }
        let mut idx: usize = 0;
        while idx < GRID_CELLS
            invariant
                self.wf(),
                terminal_cells(self.cells@, MAX_NUM_REGIONS as int),
                cmds@.len() >= 2 && cmds@[1] is BlitSurfaceMap,
                idx <= GRID_CELLS,
            decreases GRID_CELLS - idx,
        {
            let r = idx / GRID_SIZE;
            let c = idx % GRID_SIZE;
            proof {
                assert(r * 16 + c == idx);
            }
            let cell = self.get_cell(r, c);
            match cell.contents {
                Contents::Region { region_id, marker: Some(marker), .. } => {
                    let is_killed = kill_preview.contains(region_id as usize);
                    let flag: u8 = match marker {
                        Marker::Roman => if is_killed {
                            1
                        } else {
                            0
                        },
                        Marker::DeadRoman => 1,
                        Marker::Worker => if is_killed {
                            3
                        } else {
                            2
                        },
                        Marker::DeadWorker => 3,
                        Marker::Occupied => 0,
                        Marker::FogOfWar => 3,
                    };
                    let x: i32 = 2 + cell.centroid_x as i32;
                    let y: i32 = 7 + cell.centroid_y as i32;
                    cmds.push(crate::render::DrawCmd::Colors(0x3210));
                    cmds.push(crate::render::DrawCmd::Flag { x, y, flag });
                    cmds.push(crate::render::DrawCmd::Colors(0x2310));
                    if is_killed {
                        cmds.push(crate::render::DrawCmd::KilledTown { x, y });
                    } else if attack_preview.contains(region_id as usize) {
                        cmds.push(crate::render::DrawCmd::AttackingTown { x, y });
                    } else if support_preview.contains(region_id as usize) {
                        cmds.push(crate::render::DrawCmd::SupportingTown { x, y });
                    } else if gather_preview.contains(region_id as usize) {
                        cmds.push(crate::render::DrawCmd::GatheringTown { x, y });
                    }
                },
                Contents::Region { region_id, marker: None, .. } => {
                    let hovered_matches = match hovered_region_id {
                        Some(h) => h == region_id,
                        None => false,
                    };
                    if hovered_matches {
                        let x: i32 = 2 + cell.centroid_x as i32;
                        let y: i32 = 7 + cell.centroid_y as i32;
                        cmds.push(crate::render::DrawCmd::Colors(0x4310));
                        if kill_preview.contains(region_id as usize) {
                            cmds.push(crate::render::DrawCmd::Colors(0x2310));
                            cmds.push(crate::render::DrawCmd::KilledTown { x, y });
                        } else if attack_preview.contains(region_id as usize) {
                            cmds.push(crate::render::DrawCmd::HoveredTown { x, y });
                            cmds.push(crate::render::DrawCmd::Colors(0x2310));
                            cmds.push(crate::render::DrawCmd::AttackingTown { x: x + 6, y });
                        } else {
                            cmds.push(crate::render::DrawCmd::HoveredTown { x, y });
                        }
                    }
                },
                _ => (),
            }
            idx = idx + 1;
        }
        cmds
    }
}

} // verus!

verus! {

/// Region ids are unique: on a board with dense ids, region cells met later
/// in scan order carry strictly greater ids.
pub proof fn lemma_region_ids_unique(b: Board, i: int, j: int)
    requires
        b.wf(),
        region_ids_dense(b.cells@),
        0 <= i < j < GRID_CELLS,
        b.cells@[i].contents is Region,
        b.cells@[j].contents is Region,
    ensures
        b.cells@[i].contents->Region_region_id < b.cells@[j].contents->Region_region_id,
{
    lemma_region_fn(b.cells@[i]);
    assert(count_matching(b.cells@, region_fn(), i + 1) == count_matching(b.cells@, region_fn(), i)
        + 1);
    lemma_count_matching_mono(b.cells@, region_fn(), i + 1, j);
}

/// Upgrading one region to a village leaves every other region's cell, and in
/// particular its terrain, untouched.
pub proof fn lemma_village_spares_other_regions(cell: Cell, id: i8, other: i8)
    requires
        id != other,
        region_has_id(cell, other),
    ensures
        village_mark(cell, id) == cell,
{
}

/// At full completion the frontier reaches its own origin: any sampled
/// non-water, non-mountain pixel within four pixels of its nearest occupied
/// cell is drawn by `update_occupation_map(100)`.
pub proof fn lemma_frontier_reaches_origin(b: Board, x: int, y: int)
    requires
        b.wf(),
        0 <= x < 160,
        0 <= y < 160,
        (x + y) % 6 == 0,
        b.spec_closest_occupied(x, y).4,
        b.spec_closest_occupied(x, y).2 < 16,
        !crate::pixmap::spec_is_on(b.water_bitmap@, x, y),
        !crate::pixmap::spec_is_on(b.mountain_bitmap@, x, y),
    ensures
        b.spec_frontier_draw(100, x, y),
{
    let res = b.spec_closest_occupied(x, y);
    let q = b.spec_frontier_q(100, res.0, res.1);
    assert(q >= 100);
    assert(spec_eff_lt(res.2, res.3, 4000));
}

/// Hit-testing at a region's own placement point always returns that
/// region's id.
pub proof fn lemma_hover_at_centroid(b: Board, r: int, c: int)
    requires
        b.wf(),
        centroids_placed(b.cells@),
        0 <= r < 16,
        0 <= c < 16,
        b.cells@[r * 16 + c].contents is Region,
    ensures
        b.spec_hovered(
            b.cells@[r * 16 + c].centroid_x as int,
            b.cells@[r * 16 + c].centroid_y as int,
        ) == Some(b.cells@[r * 16 + c].contents->Region_region_id),
{
    let cell = b.cells@[r * 16 + c];
    let x = cell.centroid_x as int;
    let y = cell.centroid_y as int;
    assert(centroid_in_band(cell, r, c));
    let rc = b.spec_home_rc(x, y);
    let hr = rc.0;
    let hc = rc.1;
    assert(hr == r || hr == r + 1);
    assert(hc == c || hc == c + 1);
    assert(0 <= hr <= 15 && 0 <= hc <= 15);
    assert(centroid_in_band(b.cells@[hr * 16 + hc], hr, hc));
    let rc0 = b.spec_r0_c0(x, y);
    let r0 = rc0.0;
    let c0 = rc0.1;
    assert(0 <= r0 <= 14 && 0 <= c0 <= 14);
    assert(r0 == r || r0 + 1 == r);
    assert(c0 == c || c0 + 1 == c);
    assert(centroid_in_band(b.cells@[r0 * 16 + c0], r0, c0));
    assert(centroid_in_band(b.cells@[r0 * 16 + c0 + 1], r0, c0 + 1));
    assert(centroid_in_band(b.cells@[(r0 + 1) * 16 + c0], r0 + 1, c0));
    assert(centroid_in_band(b.cells@[(r0 + 1) * 16 + c0 + 1], r0 + 1, c0 + 1));
    assert(cell.centroid_x - x == 0 && cell.centroid_y - y == 0);
    assert(spec_sqdist(cell, x, y) == 0);
    if !(r0 == r && c0 == c) {
        lemma_candidate_far(b, r, c, r0, c0, x, y);
    }
    if !(r0 == r && c0 + 1 == c) {
        lemma_candidate_far(b, r, c, r0, c0 + 1, x, y);
    }
    if !(r0 + 1 == r && c0 == c) {
        lemma_candidate_far(b, r, c, r0 + 1, c0, x, y);
    }
    if !(r0 + 1 == r && c0 + 1 == c) {
        lemma_candidate_far(b, r, c, r0 + 1, c0 + 1, x, y);
    }
    let chosen = b.spec_closest_rc(x, y);
    assert(chosen.0 == r && chosen.1 == c && chosen.2 == 0);
}

/// A centroid band point of cell (r, c) is at least one pixel away from any
/// other cell's centroid, whose band never overlaps.
proof fn lemma_candidate_far(b: Board, r: int, c: int, rr: int, cc: int, x: int, y: int)
    requires
        b.wf(),
        centroids_placed(b.cells@),
        0 <= r < 16,
        0 <= c < 16,
        0 <= rr < 16,
        0 <= cc < 16,
        !(rr == r && cc == c),
        10 * c + 1 <= x <= 10 * c + 10,
        10 * r + 1 <= y <= 10 * r + 10,
    ensures
        spec_sqdist(b.cells@[rr * 16 + cc], x, y) >= 1,
{
    let other = b.cells@[rr * 16 + cc];
    assert(centroid_in_band(other, rr, cc));
    let dx = other.centroid_x - x;
    let dy = other.centroid_y - y;
    if cc != c {
        assert(dx >= 1 || dx <= -1);
        assert(dx * dx >= 1) by (nonlinear_arith)
            requires
                dx >= 1 || dx <= -1,
        ;
        assert(dy * dy >= 0) by (nonlinear_arith);
    } else {
        assert(rr != r);
        assert(dy >= 1 || dy <= -1);
        assert(dy * dy >= 1) by (nonlinear_arith)
            requires
                dy >= 1 || dy <= -1,
        ;
        assert(dx * dx >= 0) by (nonlinear_arith);
    }
}

} // verus!
