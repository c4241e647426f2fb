use perlin2d::PerlinNoise2D;
use roman_map::bitset::RegionSet;
use roman_map::cell::Contents;
use roman_map::level::MAX_NUM_REGIONS;
use roman_map::map::Board;
use roman_map::noise::NoiseFields;
use roman_map::pixmap::{is_on_bitmap, MAP_SIZE};
use roman_map::terrain::TerrainType;

const GRID_SIZE: usize = 16;
const GRID_CELL_SIZE: usize = 10;

/// Builds the three pre-sampled noise grids the generator consumes, the same
/// way the host does: three independently seeded coherent-noise fields, the
/// elevation field calibrated in two passes (rescale the amplitude so the
/// standard deviation over the coarse-cell centers hits the target, then
/// re-center the bias), all sampled at pixel centers and quantized to
/// milli-units.
fn build_noise_fields(rng: &mut fastrand::Rng) -> NoiseFields {
    let seed = rng.u16(..) as i32;
    let mut elevation = PerlinNoise2D::new(5, 50.0, 1.0, 1.0, 2.0, (160.0, 160.0), 35.0, seed);
    let n = (GRID_SIZE * GRID_SIZE) as f64;
    let mut total = 0.0;
    for r in 0..GRID_SIZE {
        for c in 0..GRID_SIZE {
            let x = c * GRID_CELL_SIZE + GRID_CELL_SIZE / 2;
            let y = r * GRID_CELL_SIZE + GRID_CELL_SIZE / 2;
            total += elevation.get_noise(x as f64 + 0.5, y as f64 + 0.5);
        }
    }
    let average = total / n;
    let mut spread = 0.0;
    for r in 0..GRID_SIZE {
        for c in 0..GRID_SIZE {
            let x = c * GRID_CELL_SIZE + GRID_CELL_SIZE / 2;
            let y = r * GRID_CELL_SIZE + GRID_CELL_SIZE / 2;
            let difference = elevation.get_noise(x as f64 + 0.5, y as f64 + 0.5) - average;
            spread += difference * difference;
        }
    }
    let standard_deviation = (spread / n).sqrt();
    elevation.set_amplitude(50.0 * 25.0 / standard_deviation);
    let mut total = 0.0;
    for r in 0..GRID_SIZE {
        for c in 0..GRID_SIZE {
            let x = c * GRID_CELL_SIZE + GRID_CELL_SIZE / 2;
            let y = r * GRID_CELL_SIZE + GRID_CELL_SIZE / 2;
            total += elevation.get_noise(x as f64 + 0.5, y as f64 + 0.5);
        }
    }
    elevation.set_bias(2.0 * 35.0 - total / n);

    let seed = rng.u16(..) as i32;
    let forest = PerlinNoise2D::new(5, 50.0, 1.0, 2.0, 2.0, (160.0, 160.0), 0.0, seed);
    let seed = rng.u16(..) as i32;
    let occupation = PerlinNoise2D::new(5, 0.25, 2.0, 2.0, 2.0, (160.0, 160.0), 0.0, seed);

    let mut fields = NoiseFields {
        elevation: Vec::with_capacity(MAP_SIZE * MAP_SIZE),
        forest: Vec::with_capacity(MAP_SIZE * MAP_SIZE),
        occupation: Vec::with_capacity(MAP_SIZE * MAP_SIZE),
    };
    for y in 0..MAP_SIZE {
        for x in 0..MAP_SIZE {
            let fx = x as f64 + 0.5;
            let fy = y as f64 + 0.5;
            fields.elevation.push((elevation.get_noise(fx, fy) * 1000.0) as i32);
            fields.forest.push((forest.get_noise(fx, fy) * 1000.0) as i32);
            fields.occupation.push((occupation.get_noise(fx, fy) * 1000.0) as i32);
        }
    }
    fields
}

fn generate_board(seed: u64) -> Board {
    let mut rng = fastrand::Rng::with_seed(seed);
    let fields = build_noise_fields(&mut rng);
    assert!(fields.check());
    let mut board = Board::empty();
    board.generate(&mut rng, &fields);
    board
}

fn adjacency_of(board: &Board) -> (Vec<RegionSet>, RegionSet) {
    let mut adjacency: Vec<RegionSet> = Vec::new();
    for _ in 0..MAX_NUM_REGIONS {
        adjacency.push(RegionSet::new());
    }
    let mut border = RegionSet::new();
    board.fill_adjacency(&mut adjacency, &mut border);
    (adjacency, border)
}

#[test]
fn seed_zero_region_count_in_band() {
    let board = generate_board(0);
    let regions = board.regions();
    assert!(regions.len() >= 25, "only {} regions", regions.len());
    assert!(regions.len() <= 35, "{} regions", regions.len());
}

#[test]
fn region_ids_unique_and_dense() {
    for seed in [0u64, 1, 7, 42] {
        let board = generate_board(seed);
        let regions = board.regions();
        for (k, (id, _terrain)) in regions.iter().enumerate() {
            assert_eq!(*id as usize, k);
        }
    }
}

#[test]
fn generation_is_deterministic_per_seed() {
    let a = generate_board(0);
    let b = generate_board(0);
    assert_eq!(a.regions(), b.regions());
    let (adj_a, _) = adjacency_of(&a);
    let (adj_b, _) = adjacency_of(&b);
    for i in 0..MAX_NUM_REGIONS {
        for j in 0..MAX_NUM_REGIONS {
            assert_eq!(adj_a[i].contains(j), adj_b[i].contains(j));
        }
    }
    assert_eq!(a.occupation_bitmap, b.occupation_bitmap);
    assert_eq!(a.water_bitmap, b.water_bitmap);
}

#[test]
fn adjacency_is_symmetric_and_populated() {
    let board = generate_board(0);
    let fresh = RegionSet::new();
    for i in 0..MAX_NUM_REGIONS {
        assert!(!fresh.contains(i), "a fresh bitset must be empty");
    }
    let (adjacency, border) = adjacency_of(&board);
    let mut any_edge = false;
    for i in 0..MAX_NUM_REGIONS {
        for j in 0..MAX_NUM_REGIONS {
            assert_eq!(adjacency[i].contains(j), adjacency[j].contains(i));
            any_edge = any_edge || adjacency[i].contains(j);
        }
    }
    assert!(any_edge, "a generated map has at least one adjacency");
    let mut any_border = false;
    for i in 0..MAX_NUM_REGIONS {
        any_border = any_border || border.contains(i);
    }
    assert!(any_border, "a generated map touches the fine grid's edge");
}

#[test]
fn place_village_changes_only_that_region() {
    let board_before = generate_board(0);
    let mut board = generate_board(0);
    let regions = board.regions();
    let (grass_id, _) = *regions
        .iter()
        .find(|(_, t)| *t == TerrainType::Grass)
        .expect("seed 0 yields at least one grass region");
    board.place_village(grass_id);
    let after = board.regions();
    for (k, (id, terrain)) in after.iter().enumerate() {
        assert_eq!(*id, regions[k].0);
        if *id == grass_id {
            assert_eq!(*terrain, TerrainType::Village);
        } else {
            assert_eq!(*terrain, regions[k].1);
        }
    }
    // Adjacency is untouched by the upgrade.
    let (adj_before, _) = adjacency_of(&board_before);
    let (adj_after, _) = adjacency_of(&board);
    for i in 0..MAX_NUM_REGIONS {
        for j in 0..MAX_NUM_REGIONS {
            assert_eq!(adj_before[i].contains(j), adj_after[i].contains(j));
        }
    }
}

#[test]
fn set_marker_does_not_alter_terrain() {
    let mut board = generate_board(0);
    let regions = board.regions();
    let (adjacency, _) = adjacency_of(&board);
    // Pick any two adjacent regions.
    let mut pair = None;
    for i in 0..regions.len() {
        for j in 0..regions.len() {
            if i != j && adjacency[i].contains(j) {
                pair = Some((i, j));
            }
        }
    }
    let (i, j) = pair.expect("seed 0 yields adjacent regions");
    board.set_marker_in_region(i as i8, Some(roman_map::terrain::Marker::Worker));
    let after = board.regions();
    assert_eq!(after[j].1, regions[j].1);
    assert_eq!(after, regions);
}

#[test]
fn occupation_watermark_is_monotone() {
    let mut board = generate_board(0);
    let regions = board.regions();
    board.occupy_region(regions[0].0);
    board.update_occupation_map(30);
    let before: Vec<Option<u8>> = board
        .cells
        .iter()
        .map(|cell| match cell.contents {
            Contents::Culled { occupation_percentage } => Some(occupation_percentage),
            Contents::Region { occupation_percentage, .. } => Some(occupation_percentage),
            Contents::Subregion { occupation_percentage, .. } => Some(occupation_percentage),
            _ => None,
        })
        .collect();
    board.update_occupation_map(60);
    for (k, cell) in board.cells.iter().enumerate() {
        let now = match cell.contents {
            Contents::Culled { occupation_percentage } => Some(occupation_percentage),
            Contents::Region { occupation_percentage, .. } => Some(occupation_percentage),
            Contents::Subregion { occupation_percentage, .. } => Some(occupation_percentage),
            _ => None,
        };
        match (before[k], now) {
            (Some(b), Some(n)) => assert!(n >= b, "cell {} watermark shrank: {} -> {}", k, b, n),
            (None, None) => (),
            _ => panic!("cell {} changed its state kind", k),
        }
    }
}

#[test]
fn frontier_reaches_occupied_region_at_full_completion() {
    let mut board = generate_board(0);
    let regions = board.regions();
    // Occupy a land region (never water) and rasterize at full completion.
    let (id, _) = *regions
        .iter()
        .find(|(_, t)| *t == TerrainType::Grass)
        .expect("seed 0 yields a grass region");
    board.occupy_region(id);
    board.update_occupation_map(100);
    // Find that region's cell and look for a drawn pixel near its centroid.
    let mut found = false;
    for cell in board.cells.iter() {
        if let Contents::Region { region_id, .. } = cell.contents {
            if region_id == id {
                let cx = cell.centroid_x as i32;
                let cy = cell.centroid_y as i32;
                for dy in -5i32..=5 {
                    for dx in -5i32..=5 {
                        let x = cx + dx;
                        let y = cy + dy;
                        if x >= 0 && y >= 0 && (x as usize) < MAP_SIZE && (y as usize) < MAP_SIZE {
                            if is_on_bitmap(&board.occupation_bitmap, x as usize, y as usize) {
                                found = true;
                            }
                        }
                    }
                }
            }
        }
    }
    assert!(found, "the frontier must reach its own origin at full completion");
}

#[test]
fn hover_at_centroid_returns_region_id() {
    let board = generate_board(0);
    let mut tested = 0;
    for cell in board.cells.iter() {
        if let Contents::Region { region_id, .. } = cell.contents {
            let hit = board
                .determine_hovered_region_id(cell.centroid_x as i32, cell.centroid_y as i32);
            assert_eq!(hit, Some(region_id));
            tested += 1;
        }
    }
    assert!(tested > 0, "seed 0 yields regions");
}

#[test]
fn hover_far_outside_returns_none() {
    let board = generate_board(0);
    assert_eq!(board.determine_hovered_region_id(-5000, -5000), None);
    assert_eq!(board.determine_hovered_region_id(90000, 90000), None);
}

#[test]
fn empty_board_has_no_regions() {
    let board = Board::empty();
    assert!(board.regions().is_empty());
}

#[test]
fn region_terrain_is_never_village_after_generation() {
    let board = generate_board(0);
    for (_, terrain) in board.regions() {
        assert_ne!(terrain, TerrainType::Village);
    }
}
