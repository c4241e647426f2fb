use roman_map::cell::{Cell, Contents};
use roman_map::decree::{AllOrNone, Decree, InOrNear, Part};
use roman_map::level::{draw_resource_value, draw_score, draw_threat_value};
use roman_map::menu::{InputSnapshot, Menu, Transition};
use roman_map::music::{determine_note, Music};
use roman_map::pixmap;
use roman_map::sprites;
use roman_map::terrain::{can_place_marker, classify, classify_prop, Marker, TerrainType};

#[test]
fn classify_each_branch() {
    assert_eq!(classify(80000, 0), TerrainType::Mountain);
    assert_eq!(classify(60000, 20000), TerrainType::Forest);
    assert_eq!(classify(60000, 0), TerrainType::Hill);
    assert_eq!(classify(10000, 300000), TerrainType::Forest);
    assert_eq!(classify(10000, 0), TerrainType::Grass);
    assert_eq!(classify(-1000, 500000), TerrainType::Water);
}

#[test]
fn classify_thresholds_are_strict() {
    assert_eq!(classify(70000, 0), TerrainType::Hill);
    assert_eq!(classify(50000, 999999), TerrainType::Forest);
    assert_eq!(classify(0, 0), TerrainType::Water);
    assert_eq!(classify(1, 0), TerrainType::Grass);
}

#[test]
fn placement_eligibility_rejects_water_and_mountain() {
    assert!(!can_place_marker(TerrainType::Water));
    assert!(!can_place_marker(TerrainType::Mountain));
    assert!(can_place_marker(TerrainType::Grass));
    assert!(can_place_marker(TerrainType::Forest));
    assert!(can_place_marker(TerrainType::Hill));
    assert!(can_place_marker(TerrainType::Village));
}

#[test]
fn classify_prop_shore_band_is_bare() {
    assert_eq!(classify_prop(3000, 0), None);
    assert_eq!(classify_prop(6000, 0), Some(TerrainType::Grass));
    assert_eq!(classify_prop(-100, 0), None);
    assert_eq!(classify_prop(80000, 0), Some(TerrainType::Mountain));
}

#[test]
fn bitmap_draw_erase_roundtrip() {
    let mut bm = vec![0u8; pixmap::BITMAP_SIZE];
    assert!(!pixmap::is_on_bitmap(&bm, 17, 23));
    pixmap::draw_on_bitmap(&mut bm, 17, 23);
    assert!(pixmap::is_on_bitmap(&bm, 17, 23));
    assert!(!pixmap::is_on_bitmap(&bm, 16, 23));
    assert!(!pixmap::is_on_bitmap(&bm, 18, 23));
    assert!(!pixmap::is_on_bitmap(&bm, 17, 22));
    pixmap::erase_on_bitmap(&mut bm, 17, 23);
    assert!(!pixmap::is_on_bitmap(&bm, 17, 23));
    assert!(bm.iter().all(|b| *b == 0));
}

#[test]
fn propmap_set_get_roundtrip() {
    let mut pm = vec![0u8; pixmap::PROPMAP_SIZE];
    pixmap::set_on_propmap(&mut pm, 3, 5, Some(TerrainType::Forest));
    assert_eq!(pixmap::get_from_propmap(&pm, 3, 5), Some(TerrainType::Forest));
    assert_eq!(pixmap::get_from_propmap(&pm, 4, 5), None);
    pixmap::set_on_propmap(&mut pm, 3, 5, Some(TerrainType::Village));
    assert_eq!(pixmap::get_from_propmap(&pm, 3, 5), Some(TerrainType::Village));
    pixmap::set_on_propmap(&mut pm, 3, 5, None);
    assert_eq!(pixmap::get_from_propmap(&pm, 3, 5), None);
}

#[test]
fn propmap_water_reads_back_as_no_prop() {
    let mut pm = vec![0u8; pixmap::PROPMAP_SIZE];
    pixmap::set_on_propmap(&mut pm, 0, 0, Some(TerrainType::Water));
    assert_eq!(pixmap::get_from_propmap(&pm, 0, 0), None);
}

fn tally_cell(w: u8, m: u8, h: u8, f: u8, g: u8) -> Cell {
    Cell {
        centroid_x: 0,
        centroid_y: 0,
        contents: Contents::Tally { n_water: w, n_mountain: m, n_hill: h, n_forest: f, n_grass: g },
    }
}

#[test]
fn realize_water_needs_three_quarters() {
    let mut cell = tally_cell(76, 6, 6, 6, 6);
    cell.realize_terrain();
    match cell.contents {
        Contents::Unmerged { terrain_type, merge_importance } => {
            assert_eq!(terrain_type, TerrainType::Water);
            assert_eq!(merge_importance, 0);
        }
        _ => panic!("expected an unmerged water cell"),
    }
    let mut cell = tally_cell(75, 0, 0, 0, 25);
    cell.realize_terrain();
    match cell.contents {
        Contents::Culled { occupation_percentage } => assert_eq!(occupation_percentage, 0),
        _ => panic!("water needs strictly more than three quarters"),
    }
}

#[test]
fn realize_majority_priority_order() {
    let mut cell = tally_cell(0, 51, 49, 0, 0);
    cell.realize_terrain();
    match cell.contents {
        Contents::Unmerged { terrain_type, .. } => assert_eq!(terrain_type, TerrainType::Mountain),
        _ => panic!("expected a mountain cell"),
    }
    let mut cell = tally_cell(0, 0, 0, 30, 70);
    cell.realize_terrain();
    match cell.contents {
        Contents::Unmerged { terrain_type, .. } => assert_eq!(terrain_type, TerrainType::Grass),
        _ => panic!("expected a grass cell"),
    }
}

#[test]
fn realize_no_majority_culls() {
    let mut cell = tally_cell(20, 20, 20, 20, 20);
    cell.realize_terrain();
    assert!(matches!(cell.contents, Contents::Culled { .. }));
}

#[test]
fn cell_occupation_watermark_never_lowers() {
    let mut cell = Cell {
        centroid_x: 0,
        centroid_y: 0,
        contents: Contents::Culled { occupation_percentage: 40 },
    };
    assert_eq!(cell.update_occupation_percentage(30), 40);
    assert_eq!(cell.update_occupation_percentage(70), 70);
    assert_eq!(cell.update_occupation_percentage(50), 70);
}

#[test]
fn note_melody_values() {
    assert_eq!(determine_note(0, 213), 12);
    assert_eq!(determine_note(12, 213), 0);
    // 213 * 1 % 313 == 213, 213 % 8 == 5, and the sixth scale degree is 8.
    assert_eq!(determine_note(1, 213), 8);
}

#[test]
fn music_plays_every_fourteenth_tick() {
    let mut music = Music::main_theme();
    assert_eq!(music.update(), Some((3, 1)));
    for _ in 0..13 {
        assert_eq!(music.update(), None);
    }
    // Second note: t == 1, scale degree 8 above base -9, volume faded to 2.
    assert_eq!(music.update(), Some((-1, 2)));
}

#[test]
fn score_digits_are_exact() {
    let op = draw_score(123, 4, 5);
    assert_eq!(op.digits, vec![b'1', b'2', b'3']);
    assert_eq!((op.x, op.y), (4, 5));
    let op = draw_score(7, 0, 0);
    assert_eq!(op.digits, vec![b'0', b'0', b'7']);
    let op = draw_resource_value(42, 0, 0);
    assert_eq!(op.digits, vec![b'4', b'2']);
    let op = draw_threat_value(9, 0, 0);
    assert_eq!(op.digits, vec![b'9']);
}

#[test]
fn boat_sprite_geometry() {
    let op = sprites::draw_boat(10, 20, 3);
    assert_eq!(op.sheet, sprites::SpriteSheet::Boat);
    assert_eq!((op.x, op.y), (9, 17));
    assert_eq!((op.w, op.h), (4, 4));
    assert_eq!(op.src_x, 4);
    assert_eq!(op.stride, 8);
    assert!(op.two_bpp);
}

#[test]
fn mountain_sprite_frames_wrap() {
    let a = sprites::draw_mountain(0, 0, 0);
    let b = sprites::draw_mountain(0, 0, 3);
    assert_eq!(a.src_x, b.src_x);
    let c = sprites::draw_mountain(0, 0, 2);
    assert_eq!(c.src_x, 24);
}

#[test]
fn decree_sentence_layout_width() {
    let decree = Decree::NoWorkersAdjacent;
    let parts = decree.parts();
    assert_eq!(parts.len(), 5);
    // "No" is 20 wide, each marker 10, "near" 36, the period 4.
    let (_cmds, dx) = decree.draw(0, 0);
    assert_eq!(dx, 20 + 10 + 36 + 10 + 4);
}

#[test]
fn decree_regional_parts_shape() {
    let decree = Decree::Regional {
        all_or_none: AllOrNone::All,
        marker: Marker::Worker,
        in_or_near: InOrNear::In,
        terrain_type: TerrainType::Hill,
    };
    let parts = decree.parts();
    assert!(matches!(parts[0], Part::Word("All")));
    assert!(matches!(parts[1], Part::Marker(Marker::Worker)));
    assert!(matches!(parts[2], Part::Word("in")));
    assert!(matches!(parts[3], Part::TerrainType(TerrainType::Hill)));
    assert!(matches!(parts[4], Part::Period));
}

#[test]
fn menu_click_arms_loading_transition() {
    let mut menu = Menu::new();
    let idle = InputSnapshot { gamepad: 0, mousebuttons: 0, mouse_x: 0, mouse_y: 0 };
    assert_eq!(menu.update(idle), None);
    assert!(menu.loading_transition.is_none());
    // Press the action button: nothing selected yet, so nothing is armed,
    // but the first entry becomes selected.
    let press = InputSnapshot { gamepad: 1, mousebuttons: 0, mouse_x: 0, mouse_y: 0 };
    assert_eq!(menu.update(press), None);
    assert!(menu.loading_transition.is_none());
    // Release, then press again: now the selected entry is clicked.
    assert_eq!(menu.update(idle), None);
    assert_eq!(menu.update(press), None);
    assert_eq!(menu.loading_transition, Some(Transition::Start { rng_seed: 1 }));
    // The next frame hands the transition out.
    assert_eq!(menu.update(idle), Some(Transition::Start { rng_seed: 1 }));
}
