use vstd::prelude::*;

use crate::terrain::TerrainType;

verus! {

/// Width and height of the square pixel canvas.
pub const MAP_SIZE: usize = 160;

/// Bytes in a 1-bit-per-pixel bitmap covering the whole canvas.
pub const BITMAP_SIZE: usize = MAP_SIZE * MAP_SIZE / 8;

/// Width and height of the fine decoration grid.
pub const PROP_GRID_SIZE: usize = 40;

/// Pixels per fine-grid cell, in each axis.
pub const PROP_GRID_CELL_SIZE: usize = MAP_SIZE / PROP_GRID_SIZE;

/// Bytes in a packed map holding one 4-bit value per fine-grid cell.
pub const PROPMAP_SIZE: usize = PROP_GRID_SIZE * PROP_GRID_SIZE / 2;

/// Row-major bit offset of pixel (x, y) in a canvas bitmap.
pub open spec fn pix_offset(x: int, y: int) -> int {
    y * 160 + x
}

/// Whether pixel (x, y) is set in a canvas bitmap.
pub open spec fn spec_is_on(bm: Seq<u8>, x: int, y: int) -> bool {
    bm[pix_offset(x, y) / 8] & (0x80u8 >> ((pix_offset(x, y) % 8) as u8)) != 0
}

proof fn lemma_offset_distinct(x1: int, y1: int, x2: int, y2: int)
    requires
        0 <= x1 < 160,
        0 <= y1 < 160,
        0 <= x2 < 160,
        0 <= y2 < 160,
        !(x1 == x2 && y1 == y2),
    ensures
        pix_offset(x1, y1) != pix_offset(x2, y2),
        pix_offset(x1, y1) / 8 == pix_offset(x2, y2) / 8 ==> pix_offset(x1, y1) % 8 != pix_offset(
            x2,
            y2,
        ) % 8,
{
    let o1 = pix_offset(x1, y1);
    let o2 = pix_offset(x2, y2);
    assert(o1 != o2);
    assert(o1 == 8 * (o1 / 8) + o1 % 8);
    assert(o2 == 8 * (o2 / 8) + o2 % 8);
}

proof fn lemma_set_bit(b: u8, s: u8, t: u8)
    requires
        s < 8,
        t < 8,
    ensures
        (b | (0x80u8 >> s)) & (0x80u8 >> s) != 0,
        s != t ==> ((b | (0x80u8 >> s)) & (0x80u8 >> t) != 0) == (b & (0x80u8 >> t) != 0),
{
    assert((b | (0x80u8 >> s)) & (0x80u8 >> s) != 0 && (s != t ==> ((b | (0x80u8 >> s)) & (
    0x80u8 >> t) != 0) == (b & (0x80u8 >> t) != 0))) by (bit_vector)
        requires
            s < 8 && t < 8,
    ;
}

proof fn lemma_clear_bit(b: u8, s: u8, t: u8)
    requires
        s < 8,
        t < 8,
    ensures
        (b & !(0x80u8 >> s)) & (0x80u8 >> s) == 0,
        s != t ==> ((b & !(0x80u8 >> s)) & (0x80u8 >> t) != 0) == (b & (0x80u8 >> t) != 0),
{
    assert((b & !(0x80u8 >> s)) & (0x80u8 >> s) == 0 && (s != t ==> ((b & !(0x80u8 >> s)) & (
    0x80u8 >> t) != 0) == (b & (0x80u8 >> t) != 0))) by (bit_vector)
        requires
            s < 8 && t < 8,
    ;
}

/// Sets pixel (x, y) in a canvas bitmap, leaving every other pixel as it was.
pub fn draw_on_bitmap(bitmap: &mut Vec<u8>, x: usize, y: usize)
    requires
        old(bitmap)@.len() == BITMAP_SIZE,
        x < MAP_SIZE,
        y < MAP_SIZE,
    ensures
        final(bitmap)@.len() == BITMAP_SIZE,
        forall|i: int, j: int|
            0 <= i < 160 && 0 <= j < 160 ==> spec_is_on(final(bitmap)@, i, j) == ((i == x && j
                == y) || spec_is_on(old(bitmap)@, i, j)),
{
    let offset: usize = y * MAP_SIZE + x;
    let byte_offset: usize = offset / 8;
    let bit_shift: usize = offset % 8;
    let b: u8 = bitmap[byte_offset];
    let nb: u8 = b | (0x80u8 >> (bit_shift as u8));
    bitmap.set(byte_offset, nb);
    proof {
        assert forall|i: int, j: int| 0 <= i < 160 && 0 <= j < 160 implies spec_is_on(
            bitmap@,
            i,
            j,
        ) == ((i == x && j == y) || spec_is_on(old(bitmap)@, i, j)) by {
            let off = pix_offset(i, j);
            if i == x && j == y {
                lemma_set_bit(b, (offset % 8) as u8, (off % 8) as u8);
            } else {
                lemma_offset_distinct(i, j, x as int, y as int);
                if off / 8 == byte_offset {
                    lemma_set_bit(b, (offset % 8) as u8, (off % 8) as u8);
                }
            }
        }
    }
}

/// Clears pixel (x, y) in a canvas bitmap, leaving every other pixel as it
/// was.
pub fn erase_on_bitmap(bitmap: &mut Vec<u8>, x: usize, y: usize)
    requires
        old(bitmap)@.len() == BITMAP_SIZE,
        x < MAP_SIZE,
        y < MAP_SIZE,
    ensures
        final(bitmap)@.len() == BITMAP_SIZE,
        forall|i: int, j: int|
            0 <= i < 160 && 0 <= j < 160 ==> spec_is_on(final(bitmap)@, i, j) == (!(i == x && j
                == y) && spec_is_on(old(bitmap)@, i, j)),
{
    let offset: usize = y * MAP_SIZE + x;
    let byte_offset: usize = offset / 8;
    let bit_shift: usize = offset % 8;
    let b: u8 = bitmap[byte_offset];
    let nb: u8 = b & !(0x80u8 >> (bit_shift as u8));
    bitmap.set(byte_offset, nb);
    proof {
        assert forall|i: int, j: int| 0 <= i < 160 && 0 <= j < 160 implies spec_is_on(
            bitmap@,
            i,
            j,
        ) == (!(i == x && j == y) && spec_is_on(old(bitmap)@, i, j)) by {
            let off = pix_offset(i, j);
            if i == x && j == y {
                lemma_clear_bit(b, (offset % 8) as u8, (off % 8) as u8);
            } else {
                lemma_offset_distinct(i, j, x as int, y as int);
                if off / 8 == byte_offset {
                    lemma_clear_bit(b, (offset % 8) as u8, (off % 8) as u8);
                }
            }
        }
    }
}

/// Reads pixel (x, y) from a canvas bitmap.
pub fn is_on_bitmap(bitmap: &Vec<u8>, x: usize, y: usize) -> (r: bool)
    requires
        bitmap@.len() == BITMAP_SIZE,
        x < MAP_SIZE,
        y < MAP_SIZE,
    ensures
        r == spec_is_on(bitmap@, x as int, y as int),
{
    let offset: usize = y * MAP_SIZE + x;
    let byte_offset: usize = offset / 8;
    let bit_shift: usize = offset % 8;
    bitmap[byte_offset] & (0x80u8 >> (bit_shift as u8)) != 0
}

/// The 4-bit code a prop terrain value is stored as. Water and "no prop"
/// share the zero code, so water is not representable in a prop map.
pub open spec fn spec_prop_encode(t: Option<TerrainType>) -> u8 {
    match t {
        Option::None => 0u8,
        Option::Some(TerrainType::Village) => 3u8,
        Option::Some(TerrainType::Grass) => 1u8,
        Option::Some(TerrainType::Forest) => 5u8,
        Option::Some(TerrainType::Hill) => 10u8,
        Option::Some(TerrainType::Mountain) => 12u8,
        Option::Some(TerrainType::Water) => 0u8,
    }
}

/// The terrain value a 4-bit code reads back as.
pub open spec fn spec_prop_decode(n: u8) -> Option<TerrainType> {
    if n == 0 {
        Option::None
    } else if n <= 2 {
        Option::Some(TerrainType::Grass)
    } else if n <= 4 {
        Option::Some(TerrainType::Village)
    } else if n <= 9 {
        Option::Some(TerrainType::Forest)
    } else if n <= 11 {
        Option::Some(TerrainType::Hill)
    } else {
        Option::Some(TerrainType::Mountain)
    }
}

/// Row-major cell offset of fine-grid cell (u, v) in a prop map.
pub open spec fn prop_offset(u: int, v: int) -> int {
    v * 40 + u
}

/// The 4-bit code stored for fine-grid cell (u, v): the high nibble at even
/// offsets, the low nibble at odd ones.
pub open spec fn spec_prop_nibble(pm: Seq<u8>, u: int, v: int) -> u8 {
    if prop_offset(u, v) % 2 == 0 {
        pm[prop_offset(u, v) / 2] >> 4u8
    } else {
        pm[prop_offset(u, v) / 2] & 0x0fu8
    }
}

proof fn lemma_prop_offset_distinct(u1: int, v1: int, u2: int, v2: int)
    requires
        0 <= u1 < 40,
        0 <= v1 < 40,
        0 <= u2 < 40,
        0 <= v2 < 40,
        !(u1 == u2 && v1 == v2),
    ensures
        prop_offset(u1, v1) != prop_offset(u2, v2),
        prop_offset(u1, v1) / 2 == prop_offset(u2, v2) / 2 ==> prop_offset(u1, v1) % 2
            != prop_offset(u2, v2) % 2,
{
    let o1 = prop_offset(u1, v1);
    let o2 = prop_offset(u2, v2);
    assert(o1 != o2);
    assert(o1 == 2 * (o1 / 2) + o1 % 2);
    assert(o2 == 2 * (o2 / 2) + o2 % 2);
}

proof fn lemma_nibble_set(b: u8, val: u8)
    requires
        val < 16,
    ensures
        ((b & 0x0fu8) | (val << 4u8)) >> 4u8 == val,
        ((b & 0x0fu8) | (val << 4u8)) & 0x0fu8 == b & 0x0fu8,
        ((b & 0xf0u8) | val) & 0x0fu8 == val,
        ((b & 0xf0u8) | val) >> 4u8 == b >> 4u8,
{
    assert(((b & 0x0fu8) | (val << 4u8)) >> 4u8 == val && ((b & 0x0fu8) | (val << 4u8)) & 0x0fu8
        == b & 0x0fu8 && ((b & 0xf0u8) | val) & 0x0fu8 == val && ((b & 0xf0u8) | val) >> 4u8 == b
        >> 4u8) by (bit_vector)
        requires
            val < 16,
    ;
}

/// Stores a prop terrain value for fine-grid cell (u, v), leaving every other
/// cell as it was. Water reads back as no prop.
pub fn set_on_propmap(propmap: &mut Vec<u8>, u: usize, v: usize, terrain_type: Option<TerrainType>)
    requires
        old(propmap)@.len() == PROPMAP_SIZE,
        u < PROP_GRID_SIZE,
        v < PROP_GRID_SIZE,
    ensures
        final(propmap)@.len() == PROPMAP_SIZE,
        forall|i: int, j: int|
            0 <= i < 40 && 0 <= j < 40 ==> spec_prop_nibble(final(propmap)@, i, j) == (if i == u
                && j == v {
                spec_prop_encode(terrain_type)
            } else {
                spec_prop_nibble(old(propmap)@, i, j)
            }),
{
    let value: u8 = match terrain_type {
        Option::None => 0,
        Option::Some(TerrainType::Village) => 3,
        Option::Some(TerrainType::Grass) => 1,
        Option::Some(TerrainType::Forest) => 5,
        Option::Some(TerrainType::Hill) => 10,
        Option::Some(TerrainType::Mountain) => 12,
        Option::Some(TerrainType::Water) => 0,
    };
    let offset: usize = v * PROP_GRID_SIZE + u;
    let byte_offset: usize = offset / 2;
    let b: u8 = propmap[byte_offset];
    let nb: u8 = if offset % 2 == 0 {
        (b & 0x0fu8) | (value << 4u8)
    } else {
        (b & 0xf0u8) | value
    };
    propmap.set(byte_offset, nb);
    proof {
        assert forall|i: int, j: int| 0 <= i < 40 && 0 <= j < 40 implies spec_prop_nibble(
            propmap@,
            i,
            j,
        ) == (if i == u && j == v {
            spec_prop_encode(terrain_type)
        } else {
            spec_prop_nibble(old(propmap)@, i, j)
        }) by {
            let off = prop_offset(i, j);
            lemma_nibble_set(b, value);
            if !(i == u && j == v) {
                lemma_prop_offset_distinct(i, j, u as int, v as int);
            }
        }
    }
}

/// Reads the prop terrain value of fine-grid cell (u, v).
pub fn get_from_propmap(propmap: &Vec<u8>, u: usize, v: usize) -> (r: Option<TerrainType>)
    requires
        propmap@.len() == PROPMAP_SIZE,
        u < PROP_GRID_SIZE,
        v < PROP_GRID_SIZE,
    ensures
        r == spec_prop_decode(spec_prop_nibble(propmap@, u as int, v as int)),
{
    let offset: usize = v * PROP_GRID_SIZE + u;
    let byte_offset: usize = offset / 2;
    let b: u8 = propmap[byte_offset];
    let value: u8 = if offset % 2 == 0 {
        b >> 4u8
    } else {
        b & 0x0fu8
    };
    proof {
        assert(b >> 4u8 < 16 && (b & 0x0fu8) < 16) by (bit_vector);
    }
    if value == 0 {
        None
    } else if value <= 2 {
        Some(TerrainType::Grass)
    } else if value <= 4 {
        Some(TerrainType::Village)
    } else if value <= 9 {
        Some(TerrainType::Forest)
    } else if value <= 11 {
        Some(TerrainType::Hill)
    } else {
        Some(TerrainType::Mountain)
    }
}

} // verus!
