use vstd::prelude::*;

verus! {

/// Which sprite sheet a blit reads from. The sheets' pixel data lives with
/// the renderer; this library computes only geometry.
#[derive(Debug, Clone, Copy, PartialEq, Eq, Structural)]
pub enum SpriteSheet {
    Surface,
    Grass,
    Tree,
    Hill,
    Mountain,
    Boat,
}

/// One sub-rectangle blit of a sprite sheet onto the screen: destination
/// pixel, sub-rect size, source offset, sheet width, and pixel depth.
#[derive(Debug, Clone, Copy, PartialEq, Eq, Structural)]
pub struct BlitOp {
    pub sheet: SpriteSheet,
    pub x: i32,
    pub y: i32,
    pub w: u32,
    pub h: u32,
    pub src_x: u32,
    pub src_y: u32,
    pub stride: u32,
    pub two_bpp: bool,
}

/// A water-ripple tuft: frame chosen by `alt` among the sheet's four, drawn
/// centered above the anchor.
pub fn draw_surface(x: i32, y: i32, alt: u8) -> (op: BlitOp)
    requires
        -20000 <= x <= 20000,
        -20000 <= y <= 20000,
    ensures
        op == (BlitOp {
            sheet: SpriteSheet::Surface,
            x: (x + 1 - 4) as i32,
            y: (y + 1 - 4) as i32,
            w: 8,
            h: 4,
            src_x: (((alt as u32) % 4) * 8) as u32,
            src_y: 0,
            stride: 32,
            two_bpp: false,
        }),
{
    let frame = (alt as u32) % 4;
    BlitOp {
        sheet: SpriteSheet::Surface,
        x: x + 1 - 4,
        y: y + 1 - 4,
        w: 8,
        h: 4,
        src_x: frame * 8,
        src_y: 0,
        stride: 32,
        two_bpp: false,
    }
}

/// A grass tuft: one of seven frames.
pub fn draw_grass(x: i32, y: i32, alt: u8) -> (op: BlitOp)
    requires
        -20000 <= x <= 20000,
        -20000 <= y <= 20000,
    ensures
        op == (BlitOp {
            sheet: SpriteSheet::Grass,
            x: (x + 1 - 2) as i32,
            y: (y + 1 - 2) as i32,
            w: 4,
            h: 2,
            src_x: (((alt as u32) % 7) * 4) as u32,
            src_y: 0,
            stride: 28,
            two_bpp: true,
        }),
{
    let frame = (alt as u32) % 7;
    BlitOp {
        sheet: SpriteSheet::Grass,
        x: x + 1 - 2,
        y: y + 1 - 2,
        w: 4,
        h: 2,
        src_x: frame * 4,
        src_y: 0,
        stride: 28,
        two_bpp: true,
    }
}

/// A tree: the sheet's single frame.
pub fn draw_tree(x: i32, y: i32, alt: u8) -> (op: BlitOp)
    requires
        -20000 <= x <= 20000,
        -20000 <= y <= 20000,
    ensures
        op == (BlitOp {
            sheet: SpriteSheet::Tree,
            x: (x + 1 - 4) as i32,
            y: (y + 1 - 8) as i32,
            w: 8,
            h: 8,
            src_x: 0,
            src_y: 0,
            stride: 8,
            two_bpp: true,
        }),
{
    let frame = (alt as u32) % 1;
    BlitOp {
        sheet: SpriteSheet::Tree,
        x: x + 1 - 4,
        y: y + 1 - 8,
        w: 8,
        h: 8,
        src_x: frame * 8,
        src_y: 0,
        stride: 8,
        two_bpp: true,
    }
}

/// A hill: the sheet's single frame.
pub fn draw_hill(x: i32, y: i32, alt: u8) -> (op: BlitOp)
    requires
        -20000 <= x <= 20000,
        -20000 <= y <= 20000,
    ensures
        op == (BlitOp {
            sheet: SpriteSheet::Hill,
            x: (x + 1 - 6) as i32,
            y: (y + 1 - 4) as i32,
            w: 12,
            h: 4,
            src_x: 0,
            src_y: 0,
            stride: 12,
            two_bpp: true,
        }),
{
    let frame = (alt as u32) % 1;
    BlitOp {
        sheet: SpriteSheet::Hill,
        x: x + 1 - 6,
        y: y + 1 - 4,
        w: 12,
        h: 4,
        src_x: frame * 12,
        src_y: 0,
        stride: 12,
        two_bpp: true,
    }
}

/// A mountain: one of three frames.
pub fn draw_mountain(x: i32, y: i32, alt: u8) -> (op: BlitOp)
    requires
        -20000 <= x <= 20000,
        -20000 <= y <= 20000,
    ensures
        op == (BlitOp {
            sheet: SpriteSheet::Mountain,
            x: (x + 1 - 6) as i32,
            y: (y + 1 - 12) as i32,
            w: 12,
            h: 12,
            src_x: (((alt as u32) % 3) * 12) as u32,
            src_y: 0,
            stride: 36,
            two_bpp: true,
        }),
{
    let frame = (alt as u32) % 3;
    BlitOp {
        sheet: SpriteSheet::Mountain,
        x: x + 1 - 6,
        y: y + 1 - 12,
        w: 12,
        h: 12,
        src_x: frame * 12,
        src_y: 0,
        stride: 36,
        two_bpp: true,
    }
}

/// A boat bobbing on a water region: one of two frames.
pub fn draw_boat(x: i32, y: i32, alt: u8) -> (op: BlitOp)
    requires
        -20000 <= x <= 20000,
        -20000 <= y <= 20000,
    ensures
        op == (BlitOp {
            sheet: SpriteSheet::Boat,
            x: (x + 1 - 2) as i32,
            y: (y + 1 - 4) as i32,
            w: 4,
            h: 4,
            src_x: (((alt as u32) % 2) * 4) as u32,
            src_y: 0,
            stride: 8,
            two_bpp: true,
        }),
{
    let frame = (alt as u32) % 2;
    BlitOp {
        sheet: SpriteSheet::Boat,
        x: x + 1 - 2,
        y: y + 1 - 4,
        w: 4,
        h: 4,
        src_x: frame * 4,
        src_y: 0,
        stride: 8,
        two_bpp: true,
    }
}

} // verus!
