//! Tests of mining and of the automaton tick.

use regolith::map::{MineralCell, MineralMap};
use regolith::material::MineralType;
use regolith::rng::TickRng;
use regolith::ConfigError;

fn cell(mineral_type: MineralType, density: i64) -> MineralCell {
    MineralCell { mineral_type, density, sampled: false, mined: false }
}

fn empty_cell() -> MineralCell {
    cell(MineralType::Empty, 0)
}

fn map_of(width: usize, height: usize, cells: Vec<MineralCell>, heights: Vec<i64>) -> MineralMap {
    MineralMap::from_parts(width, height, cells, heights).unwrap()
}

fn snapshot(m: &MineralMap) -> (Vec<MineralCell>, Vec<i64>) {
    let mut cells = Vec::new();
    let mut heights = Vec::new();
    for y in 0..m.height() {
        for x in 0..m.width() {
            cells.push(m.cell_at(x, y).unwrap());
            heights.push(m.height_at(x, y).unwrap());
        }
    }
    (cells, heights)
}

fn count_filled(m: &MineralMap) -> usize {
    let mut n = 0;
    for y in 0..m.height() {
        for x in 0..m.width() {
            if m.cell_at(x, y).unwrap().mineral_type != MineralType::Empty {
                n += 1;
            }
        }
    }
    n
}

fn check_empty_height_zero(m: &MineralMap) {
    for y in 0..m.height() {
        for x in 0..m.width() {
            if m.cell_at(x, y).unwrap().mineral_type == MineralType::Empty {
                assert_eq!(m.height_at(x, y).unwrap(), 0);
            }
        }
    }
}

/// A 4x4 playground with a mix of physics classes and heights.
fn playground() -> MineralMap {
    let e = empty_cell();
    let cells = vec![
        cell(MineralType::Iron, 6000), e, cell(MineralType::Diamond, 9000), cell(MineralType::Gold, 7000),
        e, cell(MineralType::Coal, 4000), e, e,
        cell(MineralType::Silver, 8000), e, cell(MineralType::Uranium, 9500), cell(MineralType::Copper, 5000),
        e, cell(MineralType::Iron, 5500), e, cell(MineralType::Coal, 3000),
    ];
    let heights = vec![
        600000, 0, 900000, 700000,
        0, 400000, 0, 0,
        800000, 0, 950000, 500000,
        0, 550000, 0, 300000,
    ];
    map_of(4, 4, cells, heights)
}

#[test]
fn from_parts_checks_each_error() {
    let e = empty_cell();
    assert!(matches!(
        MineralMap::from_parts(0, 3, Vec::new(), Vec::new()),
        Err(ConfigError::ZeroDimension)
    ));
    assert!(matches!(
        MineralMap::from_parts(2, 1, vec![e], vec![0, 0]),
        Err(ConfigError::CellCountMismatch)
    ));
    assert!(matches!(
        MineralMap::from_parts(2, 1, vec![e, e], vec![0]),
        Err(ConfigError::HeightCountMismatch)
    ));
    assert!(matches!(
        MineralMap::from_parts(2, 1, vec![e, e], vec![0, 5]),
        Err(ConfigError::EmptyCellWithHeight)
    ));
    assert!(MineralMap::from_parts(2, 1, vec![e, e], vec![0, 0]).is_ok());
}

#[test]
fn from_parts_reports_the_first_defect() {
    let e = empty_cell();
    // With several defects at once, the first in order wins: dimensions,
    // then cell storage, then height storage, then the invariant.
    assert!(matches!(
        MineralMap::from_parts(0, 1, vec![e], vec![0, 0]),
        Err(ConfigError::ZeroDimension)
    ));
    assert!(matches!(
        MineralMap::from_parts(2, 1, vec![e], vec![0]),
        Err(ConfigError::CellCountMismatch)
    ));
    assert!(matches!(
        MineralMap::from_parts(2, 1, vec![e, e], vec![7]),
        Err(ConfigError::HeightCountMismatch)
    ));
}

#[test]
fn mining_clears_the_square_and_nothing_else() {
    let mut m = playground();
    let (pre_cells, pre_heights) = snapshot(&m);
    m.mine(1, 1, 1);
    for y in 0..4usize {
        for x in 0..4usize {
            let c = m.cell_at(x, y).unwrap();
            let h = m.height_at(x, y).unwrap();
            let inside = x <= 2 && y <= 2;
            if inside {
                assert_eq!(c.mineral_type, MineralType::Empty);
                assert_eq!(c.density, 0);
                assert!(c.mined);
                assert_eq!(c.sampled, pre_cells[y * 4 + x].sampled);
                assert_eq!(h, 0);
            } else {
                assert_eq!(c, pre_cells[y * 4 + x]);
                assert_eq!(h, pre_heights[y * 4 + x]);
            }
        }
    }
    check_empty_height_zero(&m);
}

#[test]
fn mining_is_idempotent() {
    let mut m = playground();
    m.mine(1, 1, 1);
    let (cells1, heights1) = snapshot(&m);
    m.mine(1, 1, 1);
    let (cells2, heights2) = snapshot(&m);
    assert_eq!(cells1, cells2);
    assert_eq!(heights1, heights2);
}

#[test]
fn mining_clips_to_the_grid() {
    let mut m = playground();
    let (pre_cells, pre_heights) = snapshot(&m);
    // A far-away center touches nothing.
    m.mine(100, 100, 3);
    let (cells, heights) = snapshot(&m);
    assert_eq!(cells, pre_cells);
    assert_eq!(heights, pre_heights);
    // A negative center clips to the near corner.
    m.mine(-1, -1, 1);
    let corner = m.cell_at(0, 0).unwrap();
    assert_eq!(corner.mineral_type, MineralType::Empty);
    assert!(corner.mined);
    assert_eq!(m.height_at(0, 0).unwrap(), 0);
    assert_eq!(m.cell_at(1, 1).unwrap(), pre_cells[5]);
}

#[test]
fn worked_example_single_forced_step() {
    // A 4x1 strip: a granular cell of height 50.0 beside a void, then two
    // solid cells.  With every gate forced, one tick moves the material one
    // cell east and nothing else.
    let src = MineralCell {
        mineral_type: MineralType::Iron,
        density: 7000,
        sampled: true,
        mined: false,
    };
    let solid_a = cell(MineralType::Diamond, 9000);
    let solid_b = cell(MineralType::Uranium, 9500);
    let cells = vec![src, empty_cell(), solid_a, solid_b];
    let heights = vec![500000, 0, 800000, 800000];
    let mut m = map_of(4, 1, cells, heights);
    let mut rng = TickRng::forced();
    m.step(&mut rng);

    let moved_from = m.cell_at(0, 0).unwrap();
    assert_eq!(moved_from.mineral_type, MineralType::Empty);
    assert_eq!(moved_from.density, 0);
    assert!(moved_from.sampled);
    assert!(moved_from.mined);
    assert_eq!(m.height_at(0, 0).unwrap(), 0);

    let moved_to = m.cell_at(1, 0).unwrap();
    assert_eq!(moved_to.mineral_type, MineralType::Iron);
    assert_eq!(moved_to.density, 7000);
    assert!(moved_to.sampled);
    assert!(moved_to.mined);
    assert_eq!(m.height_at(1, 0).unwrap(), 500000);

    assert_eq!(m.cell_at(2, 0).unwrap(), solid_a);
    assert_eq!(m.height_at(2, 0).unwrap(), 800000);
    assert_eq!(m.cell_at(3, 0).unwrap(), solid_b);
    assert_eq!(m.height_at(3, 0).unwrap(), 800000);
}

#[test]
fn first_claim_wins() {
    // Two granular cells flank one void.  Scanned in row-major order, the
    // western cell claims the void first; the eastern cell then sees the
    // slot filled in the buffer and stays put.
    let g = cell(MineralType::Coal, 6000);
    let cells = vec![g, empty_cell(), g];
    let heights = vec![400000, 0, 400000];
    let mut m = map_of(3, 1, cells, heights);
    let mut rng = TickRng::forced();
    m.step(&mut rng);
    assert_eq!(m.cell_at(0, 0).unwrap().mineral_type, MineralType::Empty);
    assert_eq!(m.cell_at(1, 0).unwrap().mineral_type, MineralType::Coal);
    assert_eq!(m.height_at(1, 0).unwrap(), 400000);
    // The eastern cell found no free destination and did not move.
    assert_eq!(m.cell_at(2, 0).unwrap(), g);
    assert_eq!(m.height_at(2, 0).unwrap(), 400000);
}

#[test]
fn vacated_slot_can_be_claimed_later_in_the_same_tick() {
    // The middle cell moves west into the void; the eastern cell then moves
    // into the slot the middle cell vacated, because the buffer already
    // shows it empty and the pre-tick height difference is large enough.
    let cells = vec![
        empty_cell(),
        cell(MineralType::Coal, 4000),
        cell(MineralType::Iron, 8000),
    ];
    let heights = vec![0, 300000, 600000];
    let mut m = map_of(3, 1, cells, heights);
    let mut rng = TickRng::forced();
    m.step(&mut rng);
    assert_eq!(m.cell_at(0, 0).unwrap().mineral_type, MineralType::Coal);
    assert_eq!(m.height_at(0, 0).unwrap(), 300000);
    assert_eq!(m.cell_at(1, 0).unwrap().mineral_type, MineralType::Iron);
    assert_eq!(m.height_at(1, 0).unwrap(), 600000);
    assert_eq!(m.cell_at(2, 0).unwrap().mineral_type, MineralType::Empty);
    assert_eq!(m.height_at(2, 0).unwrap(), 0);
}

#[test]
fn too_small_a_drop_blocks_the_move() {
    // Granular needs a drop above 20.0; 15.0 is not enough even when every
    // random gate passes.
    let cells = vec![cell(MineralType::Iron, 5000), empty_cell()];
    let heights = vec![150000, 0];
    let mut m = map_of(2, 1, cells, heights);
    let mut rng = TickRng::forced();
    m.step(&mut rng);
    assert_eq!(m.cell_at(0, 0).unwrap().mineral_type, MineralType::Iron);
    assert_eq!(m.height_at(0, 0).unwrap(), 150000);
    assert_eq!(m.cell_at(1, 0).unwrap().mineral_type, MineralType::Empty);
    // Flowing only needs a drop above 10.0, so the same height moves.
    let cells = vec![cell(MineralType::Gold, 5000), empty_cell()];
    let heights = vec![150000, 0];
    let mut m = map_of(2, 1, cells, heights);
    let mut rng = TickRng::forced();
    m.step(&mut rng);
    assert_eq!(m.cell_at(0, 0).unwrap().mineral_type, MineralType::Empty);
    assert_eq!(m.cell_at(1, 0).unwrap().mineral_type, MineralType::Gold);
}

#[test]
fn step_conserves_filled_cell_count() {
    let mut m = playground();
    let before = count_filled(&m);
    assert_eq!(m.filled_cells(), before);
    let mut rng = TickRng::from_seed(12345);
    for _ in 0..50 {
        m.step(&mut rng);
        assert_eq!(count_filled(&m), before);
        assert_eq!(m.filled_cells(), before);
    }
}

#[test]
fn step_never_moves_solid_cells() {
    let mut m = playground();
    let (pre_cells, pre_heights) = snapshot(&m);
    let mut rng = TickRng::from_seed(99);
    for _ in 0..50 {
        m.step(&mut rng);
    }
    for y in 0..4usize {
        for x in 0..4usize {
            let i = y * 4 + x;
            let was_solid = matches!(
                pre_cells[i].mineral_type,
                MineralType::Diamond | MineralType::Uranium
            );
            if was_solid {
                assert_eq!(m.cell_at(x, y).unwrap(), pre_cells[i]);
                assert_eq!(m.height_at(x, y).unwrap(), pre_heights[i]);
            }
        }
    }
}

#[test]
fn step_keeps_empty_height_invariant() {
    let mut m = playground();
    let mut rng = TickRng::from_seed(7);
    for _ in 0..50 {
        m.step(&mut rng);
        check_empty_height_zero(&m);
    }
}

#[test]
fn step_on_unit_grid_is_a_noop() {
    let mut m = map_of(1, 1, vec![cell(MineralType::Coal, 5000)], vec![990000]);
    let mut rng = TickRng::forced();
    m.step(&mut rng);
    assert_eq!(m.cell_at(0, 0).unwrap(), cell(MineralType::Coal, 5000));
    assert_eq!(m.height_at(0, 0).unwrap(), 990000);
}

#[test]
fn equal_seeds_give_equal_ticks() {
    let mut a = playground();
    let mut b = playground();
    let mut rng_a = TickRng::from_seed(2024);
    let mut rng_b = TickRng::from_seed(2024);
    for _ in 0..30 {
        a.step(&mut rng_a);
        b.step(&mut rng_b);
    }
    let (cells_a, heights_a) = snapshot(&a);
    let (cells_b, heights_b) = snapshot(&b);
    assert_eq!(cells_a, cells_b);
    assert_eq!(heights_a, heights_b);
}

#[test]
fn mining_then_stepping_pours_material_into_the_pit() {
    // Mine a pit beside tall granular material, then let it settle with
    // every gate forced: the material beside the pit falls in.
    let g = cell(MineralType::Iron, 9000);
    let cells = vec![g, g, g];
    let heights = vec![900000, 900000, 900000];
    let mut m = map_of(3, 1, cells, heights);
    m.mine(2, 0, 0);
    assert_eq!(m.cell_at(2, 0).unwrap().mineral_type, MineralType::Empty);
    let mut rng = TickRng::forced();
    m.step(&mut rng);
    // The middle cell moved east into the pit.
    assert_eq!(m.cell_at(1, 0).unwrap().mineral_type, MineralType::Empty);
    assert_eq!(m.cell_at(2, 0).unwrap().mineral_type, MineralType::Iron);
    assert_eq!(m.height_at(2, 0).unwrap(), 900000);
    check_empty_height_zero(&m);
}
