use vstd::prelude::*;

use crate::render::DrawCmd;
use crate::sprites;
use crate::terrain::Marker;
use crate::terrain::TerrainType;

verus! {

/// Quantifier of a regional decree: it binds all markers of a kind, or
/// forbids any.
#[derive(Debug, Clone, Copy, PartialEq, Eq, Structural)]
pub enum AllOrNone {
    All,
    NoneOf,
}

/// Whether a regional decree constrains markers in a terrain or near it.
#[derive(Debug, Clone, Copy, PartialEq, Eq, Structural)]
pub enum InOrNear {
    In,
    Near,
}

/// A rule the Roman occupiers hand down, rendered as a short pictographic
/// sentence.
#[derive(Debug, Clone, Copy, PartialEq, Eq, Structural)]
pub enum Decree {
    Regional { all_or_none: AllOrNone, marker: Marker, in_or_near: InOrNear, terrain_type: TerrainType },
    AllRomansAdjacent,
    NoWorkersAdjacent,
    NoRomansInAmbush,
    Dummy,
}

/// One icon of the resource bar or objectives panel.
#[derive(Debug, Clone, Copy, PartialEq, Eq, Structural)]
pub enum Icon {
    Score,
    Grain,
    Wood,
    Wine,
    Gold,
    Town,
}

/// One element of a pictographic sentence.
#[derive(Debug, Clone, Copy)]
pub enum Part {
    Word(&'static str),
    Marker(Marker),
    TerrainType(TerrainType),
    Icon(Icon),
    Period,
    Newline,
}

/// Horizontal pixels a part advances the layout cursor by.
pub open spec fn spec_part_advance(p: Part) -> int {
    match p {
        Part::Word(s) => 8 * (s@.len() as int) + 4,
        Part::Period => 4,
        Part::Newline => 0,
        Part::Marker(_) => 10,
        Part::TerrainType(TerrainType::Water) => 16,
        Part::TerrainType(_) => 12,
        Part::Icon(Icon::Town) => 16,
        Part::Icon(_) => 8,
    }
}

/// The layout cursor's horizontal position after the first `k` parts: each
/// part advances it, a line break resets it.
pub open spec fn spec_layout_dx(parts: Seq<Part>, k: int) -> int
    decreases k,
{
    if k <= 0 {
        0
    } else if parts[k - 1] is Newline {
        0
    } else {
        spec_layout_dx(parts, k - 1) + spec_part_advance(parts[k - 1])
    }
}

impl Part {
    /// Emits the drawing commands for one part anchored at (x, y) and returns
    /// the horizontal advance (capped defensively; the cap is never reached
    /// by the sentences this library builds).
    pub fn draw(&self, x: i32, y: i32) -> (res: (Vec<DrawCmd>, i32))
        requires
            -11000 <= x <= 11000,
            -11000 <= y <= 11000,
        ensures
            res.1 as int == (if spec_part_advance(*self) <= 512 {
                spec_part_advance(*self)
            } else {
                512int
            }),
    {
        let mut cmds: Vec<DrawCmd> = Vec::new();
        match *self {
            Part::Word(word) => {
                cmds.push(DrawCmd::Colors(0x03));
                cmds.push(DrawCmd::Text { s: word, x, y });
                let len: usize = word.unicode_len();
                let adv: i32 = if len <= 63 {
                    (len as i32) * 8 + 4
                } else {
                    512
                };
                (cmds, adv)
            },
            Part::Period => {
                cmds.push(DrawCmd::Colors(0x03));
                cmds.push(DrawCmd::Text { s: ".", x: x - 4, y });
                (cmds, 4)
            },
            Part::Newline => (cmds, 0),
            Part::Marker(marker) => {
                let flag: u8 = match marker {
                    Marker::Roman => 0,
                    Marker::DeadRoman => 1,
                    Marker::Worker => 2,
                    Marker::DeadWorker => 3,
                    Marker::Occupied => 0,
                    Marker::FogOfWar => 3,
                };
                cmds.push(DrawCmd::Colors(0x3210));
                cmds.push(DrawCmd::Flag { x: x + 2, y: y + 8, flag });
                (cmds, 10)
            },
            Part::TerrainType(TerrainType::Village) => {
                cmds.push(DrawCmd::Colors(0x1320));
                cmds.push(DrawCmd::House { x, y: y + 5, alt: 0 });
                cmds.push(DrawCmd::House { x: x + 4, y: y + 6, alt: 0 });
                cmds.push(DrawCmd::House { x: x + 8, y: y + 5, alt: 0 });
                (cmds, 12)
            },
            Part::TerrainType(TerrainType::Grass) => {
                cmds.push(DrawCmd::Colors(0x1320));
                cmds.push(DrawCmd::Sprite(sprites::draw_grass(x, y + 1, 0)));
                cmds.push(DrawCmd::Sprite(sprites::draw_grass(x + 4, y + 6, 4)));
                cmds.push(DrawCmd::Sprite(sprites::draw_grass(x + 8, y + 1, 5)));
                (cmds, 12)
            },
            Part::TerrainType(TerrainType::Forest) => {
                cmds.push(DrawCmd::Colors(0x1320));
                cmds.push(DrawCmd::Sprite(sprites::draw_tree(x, y + 6, 0)));
                cmds.push(DrawCmd::Sprite(sprites::draw_tree(x + 4, y + 7, 0)));
                cmds.push(DrawCmd::Sprite(sprites::draw_tree(x + 8, y + 6, 0)));
                (cmds, 12)
            },
            Part::TerrainType(TerrainType::Hill) => {
                cmds.push(DrawCmd::Colors(0x1320));
                cmds.push(DrawCmd::Sprite(sprites::draw_hill(x, y + 4, 1)));
                cmds.push(DrawCmd::Sprite(sprites::draw_hill(x + 3, y + 8, 0)));
                cmds.push(DrawCmd::Sprite(sprites::draw_hill(x + 8, y + 3, 2)));
                (cmds, 12)
            },
            Part::TerrainType(TerrainType::Mountain) => {
                cmds.push(DrawCmd::Colors(0x1320));
                cmds.push(DrawCmd::Sprite(sprites::draw_mountain(x + 2, y + 8, 0)));
                (cmds, 12)
            },
            Part::TerrainType(TerrainType::Water) => {
                cmds.push(DrawCmd::Colors(0x20));
                cmds.push(DrawCmd::Sprite(sprites::draw_surface(x + 4, y, 0)));
                cmds.push(DrawCmd::Sprite(sprites::draw_surface(x + 2, y + 2, 0)));
                cmds.push(DrawCmd::Sprite(sprites::draw_surface(x + 6, y + 2, 0)));
                cmds.push(DrawCmd::Sprite(sprites::draw_surface(x + 4, y + 4, 0)));
                cmds.push(DrawCmd::Sprite(sprites::draw_surface(x + 2, y + 6, 0)));
                cmds.push(DrawCmd::Sprite(sprites::draw_surface(x + 6, y + 6, 0)));
                cmds.push(DrawCmd::Sprite(sprites::draw_surface(x + 4, y + 8, 0)));
                cmds.push(DrawCmd::Colors(0x1320));
                cmds.push(DrawCmd::Sprite(sprites::draw_boat(x + 4, y + 4, 0)));
                (cmds, 16)
            },
            Part::Icon(Icon::Score) => {
                cmds.push(DrawCmd::Colors(0x3210));
                cmds.push(DrawCmd::ScoreIcon { x: x - 4, y: y - 1 });
                (cmds, 8)
            },
            Part::Icon(Icon::Grain) => {
                cmds.push(DrawCmd::Colors(0x3210));
                cmds.push(DrawCmd::GrainIcon { x: x - 2, y: y - 1 });
                (cmds, 8)
            },
            Part::Icon(Icon::Wood) => {
                cmds.push(DrawCmd::Colors(0x3210));
                cmds.push(DrawCmd::WoodIcon { x: x - 2, y: y - 1 });
                (cmds, 8)
            },
            Part::Icon(Icon::Wine) => {
                cmds.push(DrawCmd::Colors(0x3210));
                cmds.push(DrawCmd::WineIcon { x: x - 2, y: y - 1 });
                (cmds, 8)
            },
            Part::Icon(Icon::Gold) => {
                cmds.push(DrawCmd::Colors(0x3210));
                cmds.push(DrawCmd::GoldIcon { x: x - 2, y: y - 1 });
                (cmds, 8)
            },
            Part::Icon(Icon::Town) => {
                cmds.push(DrawCmd::Colors(0x2310));
                cmds.push(DrawCmd::HoveredTown { x: x + 2, y: y + 2 });
                (cmds, 16)
            },
        }
    }
}

/// Lays a pictographic sentence out from (x, y): each part advances the
/// cursor, a line break starts a new 11-pixel-high line. Returns the emitted
/// commands and the cursor's final horizontal offset.
pub fn draw_parts(parts: &Vec<Part>, x: i32, y: i32) -> (res: (Vec<DrawCmd>, i32))
    requires
        -2000 <= x <= 2000,
        -2000 <= y <= 2000,
    ensures
        (parts@.len() <= 40 && (forall|i: int|
            0 <= i < parts@.len() ==> spec_part_advance(#[trigger] parts@[i]) <= 200)) ==> res.1
            as int == spec_layout_dx(parts@, parts@.len() as int),
{
    let ghost small = parts@.len() <= 40 && (forall|i: int|
        0 <= i < parts@.len() ==> spec_part_advance(#[trigger] parts@[i]) <= 200);
    let mut cmds: Vec<DrawCmd> = Vec::new();
    let mut dx: i32 = 0;
    let mut dy: i32 = 0;
    let mut k: usize = 0;
    while k < parts.len()
        invariant
            -2000 <= x <= 2000,
            -2000 <= y <= 2000,
            k <= parts@.len(),
            0 <= dx <= 8512,
            0 <= dy <= 8000,
            small ==> (parts@.len() <= 40 && (forall|i: int|
                0 <= i < parts@.len() ==> spec_part_advance(#[trigger] parts@[i]) <= 200)),
            small ==> dx as int == spec_layout_dx(parts@, k as int) && dx <= 8000,
        decreases parts@.len() - k,
    {
        let part = &parts[k];
        let (mut ops, adv) = part.draw(x + dx, y + dy);
        cmds.append(&mut ops);
        dx = if dx + adv <= 8512 {
            dx + adv
        } else {
            8512
        };
        match part {
            Part::Newline => {
                dx = 0;
                dy = if dy + 11 <= 8000 {
                    dy + 11
                } else {
                    8000
                };
            },
            _ => (),
        }
        proof {
            if small {
                lemma_layout_dx_bound(parts@, k + 1);
                assert(dx as int == spec_layout_dx(parts@, k + 1));
            }
        }
        k = k + 1;
    }
    (cmds, dx)
}

proof fn lemma_layout_dx_bound(parts: Seq<Part>, k: int)
    requires
        0 <= k <= parts.len(),
        forall|i: int| 0 <= i < parts.len() ==> spec_part_advance(#[trigger] parts[i]) <= 200,
    ensures
        0 <= spec_layout_dx(parts, k) <= 200 * k,
    decreases k,
{
    if k > 0 {
        lemma_layout_dx_bound(parts, k - 1);
    }
}

impl Decree {
    /// The five-part pictographic sentence stating this decree.
    pub fn parts(&self) -> (res: Vec<Part>)
        ensures
            res@.len() == 5,
            forall|i: int|
                0 <= i < 5 ==> spec_part_advance(#[trigger] res@[i]) <= 200,
    {
        let mut v: Vec<Part> = Vec::new();
        match *self {
            Decree::Regional { all_or_none, marker, in_or_near, terrain_type } => {
                let quantifier = match all_or_none {
                    AllOrNone::All => "All",
                    AllOrNone::NoneOf => "No",
                };
                let relation = match in_or_near {
                    InOrNear::In => "in",
                    InOrNear::Near => "near",
                };
                v.push(Part::Word(quantifier));
                v.push(Part::Marker(marker));
                v.push(Part::Word(relation));
                v.push(Part::TerrainType(terrain_type));
                v.push(Part::Period);
                proof {
                    reveal_strlit("All");
                    reveal_strlit("No");
                    reveal_strlit("in");
                    reveal_strlit("near");
                }
            },
            Decree::AllRomansAdjacent => {
                v.push(Part::Word("All"));
                v.push(Part::Marker(Marker::Roman));
                v.push(Part::Word("near"));
                v.push(Part::Marker(Marker::Roman));
                v.push(Part::Period);
                proof {
                    reveal_strlit("All");
                    reveal_strlit("near");
                }
            },
            Decree::NoWorkersAdjacent => {
                v.push(Part::Word("No"));
                v.push(Part::Marker(Marker::Worker));
                v.push(Part::Word("near"));
                v.push(Part::Marker(Marker::Worker));
                v.push(Part::Period);
                proof {
                    reveal_strlit("No");
                    reveal_strlit("near");
                }
            },
            Decree::NoRomansInAmbush => {
                v.push(Part::Word("No"));
                v.push(Part::Marker(Marker::Roman));
                v.push(Part::Word("as"));
                v.push(Part::Marker(Marker::DeadRoman));
                v.push(Part::Period);
                proof {
                    reveal_strlit("No");
                    reveal_strlit("as");
                }
            },
            Decree::Dummy => {
                v.push(Part::Word("Place"));
                v.push(Part::Marker(Marker::Worker));
                v.push(Part::Marker(Marker::Worker));
                v.push(Part::Marker(Marker::Worker));
                v.push(Part::Marker(Marker::Worker));
                proof {
                    reveal_strlit("Place");
                }
            },
        }
        v
    }

    /// Emits the commands drawing this decree's sentence at (x, y) and
    /// returns the layout cursor's final horizontal offset.
    pub fn draw(&self, x: i32, y: i32) -> (res: (Vec<DrawCmd>, i32))
        requires
            -2000 <= x <= 2000,
            -2000 <= y <= 2000,
    {
        let parts = self.parts();
        draw_parts(&parts, x, y)
    }
}

/// A scripted tutorial message shown between turns.
#[derive(Debug, Clone, Copy, PartialEq, Eq, Structural)]
pub enum Tutorial {
    PlaceBanners,
    FeedWorkers,
    Harvest,
    FirstKill,
    RomansHaveCome,
    Tribute,
    Village,
}

impl Tutorial {
    /// Emits the commands drawing this tutorial message at (x, y). The text
    /// is display data; the layout itself is `draw_parts`.
    pub fn draw(&self, x: i32, y: i32) -> (res: Vec<DrawCmd>)
        requires
            -2000 <= x <= 2000,
            -2000 <= y <= 2000,
    {
        let mut parts: Vec<Part> = Vec::new();
        match *self {
            Tutorial::PlaceBanners => {
                parts.push(Part::Word("Greetings,"));
                parts.push(Part::Newline);
                parts.push(Part::Word("your highness!"));
                parts.push(Part::Newline);
                parts.push(Part::Newline);
                parts.push(Part::Word("Place"));
                parts.push(Part::Marker(Marker::Worker));
                parts.push(Part::Word("on"));
                parts.push(Part::Icon(Icon::Town));
                parts.push(Part::Newline);
                parts.push(Part::Word("to score 1"));
                parts.push(Part::Icon(Icon::Score));
                parts.push(Part::Newline);
                parts.push(Part::Word("and gather"));
                parts.push(Part::Newline);
                parts.push(Part::Word("1"));
                parts.push(Part::Icon(Icon::Grain));
                parts.push(Part::Word("/"));
                parts.push(Part::Icon(Icon::Wood));
                parts.push(Part::Word("/"));
                parts.push(Part::Icon(Icon::Gold));
                parts.push(Part::Word("/"));
                parts.push(Part::Icon(Icon::Wine));
                parts.push(Part::Period);
                parts.push(Part::Newline);
                parts.push(Part::Newline);
                parts.push(Part::Word("After 4"));
                parts.push(Part::Marker(Marker::Worker));
                parts.push(Part::Newline);
                parts.push(Part::Word("a new day"));
                parts.push(Part::Newline);
                parts.push(Part::Word("begins."));
            },
            Tutorial::FeedWorkers => {
                parts.push(Part::Word("Each"));
                parts.push(Part::Marker(Marker::Worker));
                parts.push(Part::Word("consumes"));
                parts.push(Part::Newline);
                parts.push(Part::Word("1"));
                parts.push(Part::Icon(Icon::Grain));
                parts.push(Part::Word(" (or 1"));
                parts.push(Part::Icon(Icon::Wine));
                parts.push(Part::Word(")"));
                parts.push(Part::Newline);
                parts.push(Part::Word("per day."));
                parts.push(Part::Newline);
                parts.push(Part::Newline);
                parts.push(Part::Word("Keep placing"));
                parts.push(Part::Marker(Marker::Worker));
                parts.push(Part::Newline);
                parts.push(Part::Word("until the map"));
                parts.push(Part::Newline);
                parts.push(Part::Word("is full."));
                parts.push(Part::Newline);
                parts.push(Part::Newline);
                parts.push(Part::Word("(Hover the"));
                parts.push(Part::Newline);
                parts.push(Part::Word("resource bar"));
                parts.push(Part::Newline);
                parts.push(Part::Word("for hints.)"));
            },
            Tutorial::Harvest => {
                parts.push(Part::Word("Wonderful!"));
                parts.push(Part::Newline);
                parts.push(Part::Newline);
                parts.push(Part::Word("During harvest"));
                parts.push(Part::Newline);
                parts.push(Part::Word("each"));
                parts.push(Part::Marker(Marker::Worker));
                parts.push(Part::Word("gathers"));
                parts.push(Part::Newline);
                parts.push(Part::Word("an additional"));
                parts.push(Part::Newline);
                parts.push(Part::Word("1"));
                parts.push(Part::Icon(Icon::Grain));
                parts.push(Part::Word("/"));
                parts.push(Part::Icon(Icon::Wood));
                parts.push(Part::Word("/"));
                parts.push(Part::Icon(Icon::Gold));
                parts.push(Part::Word("/"));
                parts.push(Part::Icon(Icon::Wine));
                parts.push(Part::Period);
            },
            Tutorial::FirstKill => {
                parts.push(Part::Word("Ah!"));
                parts.push(Part::Newline);
                parts.push(Part::Newline);
                parts.push(Part::Word("Your grace,"));
                parts.push(Part::Newline);
                parts.push(Part::Word("one of your"));
                parts.push(Part::Marker(Marker::Worker));
                parts.push(Part::Newline);
                parts.push(Part::Word("seems to have"));
                parts.push(Part::Newline);
                parts.push(Part::Word("fought and"));
                parts.push(Part::Newline);
                parts.push(Part::Word("killed a"));
                parts.push(Part::Marker(Marker::Roman));
                parts.push(Part::Period);
                parts.push(Part::Newline);
                parts.push(Part::Newline);
                parts.push(Part::Word("Let us pray"));
                parts.push(Part::Newline);
                parts.push(Part::Word("the Romans"));
                parts.push(Part::Newline);
                parts.push(Part::Word("forgive you..."));
            },
            Tutorial::RomansHaveCome => {
                parts.push(Part::Word("The Romans"));
                parts.push(Part::Newline);
                parts.push(Part::Word("have come!"));
                parts.push(Part::Newline);
                parts.push(Part::Newline);
                parts.push(Part::Word("Your highness,"));
                parts.push(Part::Newline);
                parts.push(Part::Word("a"));
                parts.push(Part::Marker(Marker::Roman));
                parts.push(Part::Word("has seized"));
                parts.push(Part::Newline);
                parts.push(Part::Word("control of the"));
                parts.push(Part::Newline);
                parts.push(Part::Word("beach."));
                parts.push(Part::Newline);
                parts.push(Part::Word("Our"));
                parts.push(Part::Marker(Marker::Worker));
                parts.push(Part::Word("cannot"));
                parts.push(Part::Newline);
                parts.push(Part::Word("defeat"));
                parts.push(Part::Marker(Marker::Roman));
                parts.push(Part::Word("in"));
                parts.push(Part::Newline);
                parts.push(Part::Word("a region in"));
                parts.push(Part::Newline);
                parts.push(Part::Word("Roman hands."));
            },
            Tutorial::Tribute => {
                parts.push(Part::Word("The Romans"));
                parts.push(Part::Newline);
                parts.push(Part::Word("demand that"));
                parts.push(Part::Newline);
                parts.push(Part::Word("a tribute of"));
                parts.push(Part::Newline);
                parts.push(Part::Word("15"));
                parts.push(Part::Icon(Icon::Wine));
                parts.push(Part::Word("is paid."));
                parts.push(Part::Newline);
                parts.push(Part::Newline);
                parts.push(Part::Word("If we do not"));
                parts.push(Part::Newline);
                parts.push(Part::Word("obey their"));
                parts.push(Part::Newline);
                parts.push(Part::Word("decrees, the"));
                parts.push(Part::Newline);
                parts.push(Part::Word("Roman Emperor"));
                parts.push(Part::Newline);
                parts.push(Part::Word("will send more"));
                parts.push(Part::Newline);
                parts.push(Part::Marker(Marker::Roman));
                parts.push(Part::Period);
            },
            Tutorial::Village => {
                return Vec::new();
            },
        }
        let (cmds, _dx) = draw_parts(&parts, x, y);
        cmds
    }
}

} // verus!
