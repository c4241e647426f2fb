use vstd::prelude::*;

use crate::terrain::Marker;
use crate::terrain::TerrainType;

verus! {

/// The contents of a coarse-grid cell. During generation a cell moves
/// monotonically through these states and ends in exactly one of `Region`,
/// `Subregion` or `Culled`.
#[derive(Debug, Clone, Copy)]
pub enum Contents {
    /// Not yet touched by generation.
    Empty,
    /// Transient per-terrain pixel counters, accumulated while scanning the
    /// pixels nearest to this cell.
    Tally { n_water: u8, n_mountain: u8, n_hill: u8, n_forest: u8, n_grass: u8 },
    /// A realized terrain type, still a candidate for becoming a region.
    /// Importance 3 or more makes the cell immune to further merging.
    Unmerged { terrain_type: TerrainType, merge_importance: u8 },
    /// Merged into a parent cell; parent references form a chain.
    Merged { parent_row: u8, parent_col: u8, parent_terrain_type: TerrainType },
    /// No surviving parent; not clickable, but it can still carry an
    /// occupation percentage.
    Culled { occupation_percentage: u8 },
    /// Terminal state: a clickable region with a stable dense id.
    Region { region_id: i8, terrain_type: TerrainType, marker: Option<Marker>, occupation_percentage: u8 },
    /// A cell whose merge parent resolved to a region.
    Subregion { parent_region_id: i8, parent_terrain_type: TerrainType, occupation_percentage: u8 },
}

/// One coarse-grid cell: a jittered centroid pixel position and the evolving
/// contents.
#[derive(Debug, Clone, Copy)]
pub struct Cell {
    pub centroid_x: u8,
    pub centroid_y: u8,
    pub contents: Contents,
}

/// The cell every grid slot starts out as.
pub fn empty_cell() -> (c: Cell)
    ensures
        c.centroid_x == 0,
        c.centroid_y == 0,
        c.contents is Empty,
{
    Cell { centroid_x: 0, centroid_y: 0, contents: Contents::Empty }
}

impl Cell {
    /// The occupation percentage of the cell, where its state carries one.
    pub open spec fn spec_occupation(self) -> Option<u8> {
        match self.contents {
            Contents::Culled { occupation_percentage } => Some(occupation_percentage),
            Contents::Region { occupation_percentage, .. } => Some(occupation_percentage),
            Contents::Subregion { occupation_percentage, .. } => Some(occupation_percentage),
            _ => None,
        }
    }

    /// The same cell with its occupation percentage replaced by `p`; cells
    /// whose state carries no percentage are unchanged.
    pub open spec fn spec_with_occupation(self, p: u8) -> Cell {
        match self.contents {
            Contents::Culled { occupation_percentage } => Cell {
                contents: Contents::Culled { occupation_percentage: p },
                ..self
            },
            Contents::Region { region_id, terrain_type, marker, occupation_percentage } => Cell {
                contents: Contents::Region {
                    region_id,
                    terrain_type,
                    marker,
                    occupation_percentage: p,
                },
                ..self
            },
            Contents::Subregion {
                parent_region_id,
                parent_terrain_type,
                occupation_percentage,
            } => Cell {
                contents: Contents::Subregion {
                    parent_region_id,
                    parent_terrain_type,
                    occupation_percentage: p,
                },
                ..self
            },
            _ => self,
        }
    }

    pub open spec fn spec_is_occupied(self) -> bool {
        match self.spec_occupation() {
            Some(p) => p > 0,
            None => false,
        }
    }

    /// Whether the cell counts as occupied territory: its state carries an
    /// occupation percentage and that percentage is positive.
    pub fn is_occupied(&self) -> (r: bool)
        ensures
            r == self.spec_is_occupied(),
    {
        match self.contents {
            Contents::Culled { occupation_percentage } => occupation_percentage > 0,
            Contents::Region { occupation_percentage, .. } => occupation_percentage > 0,
            Contents::Subregion { occupation_percentage, .. } => occupation_percentage > 0,
            _ => false,
        }
    }

    /// Raises the cell's occupation percentage to `percentage` if that is
    /// higher (a monotonic watermark; it never lowers), and returns the
    /// percentage now stored. Cells without a percentage are untouched and
    /// report zero.
    pub fn update_occupation_percentage(&mut self, percentage: u8) -> (r: u8)
        ensures
            match old(self).spec_occupation() {
                Some(p0) => {
                    &&& r == (if p0 < percentage {
                        percentage
                    } else {
                        p0
                    })
                    &&& *final(self) == old(self).spec_with_occupation(r)
                },
                None => r == 0 && *final(self) == *old(self),
            },
            final(self).spec_occupation() is Some ==> final(self).spec_occupation().unwrap()
                >= old(self).spec_occupation().unwrap(),
    {
        match &mut self.contents {
            Contents::Culled { occupation_percentage } => {
                if *occupation_percentage < percentage {
                    *occupation_percentage = percentage;
                    percentage
                } else {
                    *occupation_percentage
                }
            },
            Contents::Region { occupation_percentage, .. } => {
                if *occupation_percentage < percentage {
                    *occupation_percentage = percentage;
                    percentage
                } else {
                    *occupation_percentage
                }
            },
            Contents::Subregion { occupation_percentage, .. } => {
                if *occupation_percentage < percentage {
                    *occupation_percentage = percentage;
                    percentage
                } else {
                    *occupation_percentage
                }
            },
            _ => 0,
        }
    }

    /// Bumps the merge importance of an unmerged cell (saturating, so it
    /// cannot wrap; in practice a cell gains importance at most once per
    /// neighbor). Other states are untouched.
    pub fn make_more_important(&mut self)
        ensures
            match old(self).contents {
                Contents::Unmerged { terrain_type, merge_importance } => *final(self) == Cell {
                    contents: Contents::Unmerged {
                        terrain_type,
                        merge_importance: if merge_importance < 255 {
                            (merge_importance + 1) as u8
                        } else {
                            merge_importance
                        },
                    },
                    ..*old(self)
                },
                _ => *final(self) == *old(self),
            },
    {
        match &mut self.contents {
            Contents::Unmerged { merge_importance, .. } => {
                if *merge_importance < 255 {
                    *merge_importance = *merge_importance + 1;
                }
            },
            _ => (),
        }
    }

    pub open spec fn spec_is_crucial(self) -> bool {
        match self.contents {
            Contents::Unmerged { merge_importance, .. } => merge_importance >= 3,
            _ => false,
        }
    }

    /// Whether the cell has accumulated enough merge importance to be immune
    /// to further merging.
    pub fn is_crucial(&self) -> (r: bool)
        ensures
            r == self.spec_is_crucial(),
    {
        match self.contents {
            Contents::Unmerged { merge_importance, .. } => merge_importance >= 3,
            _ => false,
        }
    }

    /// The tally counters with the counter for `t` incremented, saturating at
    /// 250 so each fits one byte. A village tally is never counted.
    pub open spec fn spec_with_tally(self, t: TerrainType) -> Cell {
        match self.contents {
            Contents::Tally { n_water, n_mountain, n_hill, n_forest, n_grass } => Cell {
                contents: Contents::Tally {
                    n_water: if t == TerrainType::Water && n_water < 250 {
                        (n_water + 1) as u8
                    } else {
                        n_water
                    },
                    n_mountain: if t == TerrainType::Mountain && n_mountain < 250 {
                        (n_mountain + 1) as u8
                    } else {
                        n_mountain
                    },
                    n_hill: if t == TerrainType::Hill && n_hill < 250 {
                        (n_hill + 1) as u8
                    } else {
                        n_hill
                    },
                    n_forest: if t == TerrainType::Forest && n_forest < 250 {
                        (n_forest + 1) as u8
                    } else {
                        n_forest
                    },
                    n_grass: if t == TerrainType::Grass && n_grass < 250 {
                        (n_grass + 1) as u8
                    } else {
                        n_grass
                    },
                },
                ..self
            },
            _ => self,
        }
    }

    /// Counts one pixel of terrain `t` toward the cell's tally.
    pub fn add_tally(&mut self, terrain_type: TerrainType)
        ensures
            *final(self) == old(self).spec_with_tally(terrain_type),
    {
        match &mut self.contents {
            Contents::Tally { n_water, n_mountain, n_hill, n_forest, n_grass } => {
                match terrain_type {
                    TerrainType::Grass => {
                        if *n_grass < 250 {
                            *n_grass = *n_grass + 1;
                        }
                    },
                    TerrainType::Forest => {
                        if *n_forest < 250 {
                            *n_forest = *n_forest + 1;
                        }
                    },
                    TerrainType::Hill => {
                        if *n_hill < 250 {
                            *n_hill = *n_hill + 1;
                        }
                    },
                    TerrainType::Mountain => {
                        if *n_mountain < 250 {
                            *n_mountain = *n_mountain + 1;
                        }
                    },
                    TerrainType::Water => {
                        if *n_water < 250 {
                            *n_water = *n_water + 1;
                        }
                    },
                    TerrainType::Village => (),
                }
            },
            _ => (),
        }
    }

    /// The dominant terrain of a full tally: water wins with more than three
    /// quarters of the (capped) pixel count; otherwise mountain, hill, forest
    /// and grass win with a strict majority, checked in that order.
    pub open spec fn spec_dominant_terrain(self) -> Option<TerrainType> {
        match self.contents {
            Contents::Tally { n_water, n_mountain, n_hill, n_forest, n_grass } => {
                let sum = n_water + n_mountain + n_hill + n_forest + n_grass;
                let total = if sum < 250 {
                    sum
                } else {
                    250
                };
                if n_water > 3 * total / 4 {
                    Some(TerrainType::Water)
                } else if n_mountain > total / 2 {
                    Some(TerrainType::Mountain)
                } else if n_hill > total / 2 {
                    Some(TerrainType::Hill)
                } else if n_forest > total / 2 {
                    Some(TerrainType::Forest)
                } else if n_grass > total / 2 {
                    Some(TerrainType::Grass)
                } else {
                    None
                }
            },
            _ => None,
        }
    }

    /// Realizes a tallied cell as its dominant terrain, or culls it when no
    /// terrain dominates. A cell in any other state is culled outright (the
    /// generator only calls this on tallied cells).
    pub fn realize_terrain(&mut self)
        ensures
            *final(self) == (match old(self).spec_dominant_terrain() {
                Some(t) => Cell {
                    contents: Contents::Unmerged { terrain_type: t, merge_importance: 0 },
                    ..*old(self)
                },
                None => Cell { contents: Contents::Culled { occupation_percentage: 0 }, ..*old(self) },
            }),
    {
        let terrain_type: Option<TerrainType> = match self.contents {
            Contents::Tally { n_water, n_mountain, n_hill, n_forest, n_grass } => {
                let n_total: u16 = (n_water as u16) + (n_mountain as u16) + (n_hill as u16) + (
                n_forest as u16) + (n_grass as u16);
                let n_total: u8 = if n_total < 250 {
                    n_total as u8
                } else {
                    250
                };
                if (n_water as u16) > 3 * (n_total as u16) / 4 {
                    Some(TerrainType::Water)
                } else if n_mountain > n_total / 2 {
                    Some(TerrainType::Mountain)
                } else if n_hill > n_total / 2 {
                    Some(TerrainType::Hill)
                } else if n_forest > n_total / 2 {
                    Some(TerrainType::Forest)
                } else if n_grass > n_total / 2 {
                    Some(TerrainType::Grass)
                } else {
                    None
                }
            },
            _ => None,
        };
        match terrain_type {
            Some(t) => {
                self.contents = Contents::Unmerged { terrain_type: t, merge_importance: 0 };
            },
            None => {
                self.contents = Contents::Culled { occupation_percentage: 0 };
            },
        }
    }
}

} // verus!
