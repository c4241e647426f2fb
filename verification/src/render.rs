use vstd::prelude::*;

use crate::sprites::BlitOp;

verus! {

/// One drawing command for the host renderer. The library computes what to
/// draw and where; the host performs the blits and text output.
#[derive(Debug, Clone, Copy)]
pub enum DrawCmd {
    /// Select the draw-color mapping for the commands that follow.
    Colors(u16),
    /// Blit a sub-rectangle of a named sprite sheet.
    Sprite(BlitOp),
    /// Blit the board's water bitmap over the map frame.
    BlitWater,
    /// Blit the board's surface-texture bitmap over the map frame.
    BlitSurfaceMap,
    /// Blit the board's ink (placement-point) bitmap over the map frame.
    BlitInk,
    /// Blit the board's occupation bitmap, shifted down by `dy` rows.
    BlitOccupation { dy: i32 },
    /// A marker flag sprite.
    Flag { x: i32, y: i32, flag: u8 },
    /// A village house sprite.
    House { x: i32, y: i32, alt: u8 },
    /// The hovered-town highlight.
    HoveredTown { x: i32, y: i32 },
    /// The killed-town overlay.
    KilledTown { x: i32, y: i32 },
    /// The attacking-town overlay.
    AttackingTown { x: i32, y: i32 },
    /// The supporting-town overlay.
    SupportingTown { x: i32, y: i32 },
    /// The gathering-town overlay.
    GatheringTown { x: i32, y: i32 },
    /// A word of pixel-font text.
    Text { s: &'static str, x: i32, y: i32 },
    /// The score icon.
    ScoreIcon { x: i32, y: i32 },
    /// The grain icon.
    GrainIcon { x: i32, y: i32 },
    /// The wood icon.
    WoodIcon { x: i32, y: i32 },
    /// The wine icon.
    WineIcon { x: i32, y: i32 },
    /// The gold icon.
    GoldIcon { x: i32, y: i32 },
}

} // verus!
