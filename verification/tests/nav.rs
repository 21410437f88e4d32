use axiom_core::nav::{cell_walkable, nav_grid_from_tiles, top_down_cell_path, NavGrid};

const SOLID: u8 = 1;
const SPIKE: u8 = 2;

fn test_grid(width: usize, height: usize, solids: &[(usize, usize)]) -> (Vec<u8>, NavGrid) {
    let mut tiles = vec![0u8; width * height];
    for (x, y) in solids {
        tiles[y * width + x] = SOLID;
    }
    let grid = nav_grid_from_tiles(width, height, &tiles, &vec![SOLID, SPIKE]).unwrap();
    (tiles, grid)
}

fn legal_step(grid: &NavGrid, a: (i32, i32), b: (i32, i32)) -> bool {
    let dx = b.0 - a.0;
    let dy = b.1 - a.1;
    if dx.abs() > 1 || dy.abs() > 1 || (dx == 0 && dy == 0) {
        return false;
    }
    if !cell_walkable(grid, b.0 as i64, b.1 as i64) {
        return false;
    }
    if dx != 0 && dy != 0 {
        return cell_walkable(grid, (a.0 + dx) as i64, a.1 as i64)
            && cell_walkable(grid, a.0 as i64, (a.1 + dy) as i64);
    }
    true
}

#[test]
fn top_down_path_avoids_solid_cells() {
    let (tiles, grid) = test_grid(6, 4, &[(2, 1), (2, 2)]);
    // From the point (8, 24) to (72, 24) with 16-pixel tiles.
    let path = top_down_cell_path(&grid, (0, 1), (4, 1)).expect("path should exist");
    assert!(path.len() > 1);
    for (tx, ty) in path {
        assert_ne!(tiles[ty as usize * 6 + tx as usize], SOLID);
    }
}

#[test]
fn top_down_cell_walkable_rejects_invalid_cells() {
    let (_, grid) = test_grid(4, 4, &[(1, 1)]);
    assert!(cell_walkable(&grid, 0, 0));
    assert!(!cell_walkable(&grid, 1, 1));
    assert!(!cell_walkable(&grid, -1, 0));
    assert!(!cell_walkable(&grid, 0, 5));

    let mut hazard_tiles = vec![0u8; 4 * 4];
    hazard_tiles[2 * 4 + 2] = SPIKE;
    let hazard = nav_grid_from_tiles(4, 4, &hazard_tiles, &vec![SOLID, SPIKE]).unwrap();
    assert!(!cell_walkable(&hazard, 2, 2));
}

#[test]
fn top_down_path_supports_diagonal_steps_without_corner_cutting() {
    let (_, open) = test_grid(4, 4, &[]);
    // From the point (8, 8) to (40, 40) with 16-pixel tiles.
    let path = top_down_cell_path(&open, (0, 0), (2, 2)).expect("open diagonal path should exist");
    assert!(!path.is_empty());
    assert!(path[0] == (1, 1), "expected first step to be diagonal in open space");

    let (_, blocked) = test_grid(4, 4, &[(1, 0), (0, 1)]);
    let none = top_down_cell_path(&blocked, (0, 0), (2, 2));
    assert!(none.is_none(), "path should not cut diagonally through blocked corner");
}

#[test]
fn path_steps_are_legal_and_end_at_goal() {
    let (_, grid) = test_grid(7, 5, &[(3, 0), (3, 1), (3, 2), (3, 3), (1, 3), (5, 1)]);
    let start = (0, 0);
    let goal = (6, 0);
    let path = top_down_cell_path(&grid, start, goal).expect("a detour below the wall exists");
    let mut prev = start;
    for &cell in &path {
        assert!(legal_step(&grid, prev, cell), "illegal step {:?} -> {:?}", prev, cell);
        prev = cell;
    }
    assert_eq!(*path.last().unwrap(), goal);
}

#[test]
fn path_to_self_is_empty_and_walled_goal_is_unreachable() {
    let (_, grid) = test_grid(5, 5, &[(3, 2), (3, 3), (3, 4), (4, 2)]);
    assert_eq!(top_down_cell_path(&grid, (1, 1), (1, 1)), Some(vec![]));
    // (4, 3) and (4, 4) are enclosed by the wall and the grid's edge.
    assert_eq!(top_down_cell_path(&grid, (0, 0), (4, 4)), None);
    // A blocked goal and a goal off the grid are never reached.
    assert_eq!(top_down_cell_path(&grid, (0, 0), (3, 3)), None);
    assert_eq!(top_down_cell_path(&grid, (0, 0), (9, 0)), None);
}

#[test]
fn straight_corridor_path_has_one_cell_per_step() {
    let (_, grid) = test_grid(5, 1, &[]);
    assert_eq!(
        top_down_cell_path(&grid, (0, 0), (4, 0)),
        Some(vec![(1, 0), (2, 0), (3, 0), (4, 0)])
    );
}

#[test]
fn grid_from_tiles_marks_blocking_ids_and_rejects_huge_sizes() {
    let tiles = vec![0u8, 1, 2, 3];
    let grid = nav_grid_from_tiles(2, 2, &tiles, &vec![SOLID]).unwrap();
    assert_eq!(grid.blocked, vec![false, true, false, false]);
    // Cells past the end of the tile buffer are free.
    let short = nav_grid_from_tiles(3, 1, &vec![1u8], &vec![SOLID]).unwrap();
    assert_eq!(short.blocked, vec![true, false, false]);
    assert!(nav_grid_from_tiles(1usize << 31, 1, &vec![], &vec![]).is_none());
}

#[test]
fn paths_take_the_fewest_moves() {
    let (_, open) = test_grid(5, 5, &[]);
    // Diagonal moves count once: four moves reach (4, 2) from the corner.
    assert_eq!(top_down_cell_path(&open, (0, 0), (4, 2)).unwrap().len(), 4);
    // A wall with one gap at the bottom forces a detour of known length.
    let (_, walled) = test_grid(5, 5, &[(2, 0), (2, 1), (2, 2), (2, 3)]);
    let path = top_down_cell_path(&walled, (0, 0), (4, 0)).unwrap();
    assert_eq!(path.len(), 10);
    assert!(path.contains(&(2, 4)));
}

#[test]
fn blocking_tables_for_movement_and_sight() {
    let tiles = vec![0, 1, 2, 3];
    let g = axiom_core::nav::top_down_grid(2, 2, &tiles).expect("fits");
    assert_eq!(g.blocked, vec![false, true, true, false]);
    let s = axiom_core::nav::sight_grid(2, 2, &tiles).expect("fits");
    assert_eq!(s.blocked, vec![false, true, false, false]);
    let short = axiom_core::nav::top_down_grid(3, 1, &vec![2]).expect("fits");
    assert_eq!(short.blocked, vec![true, false, false]);
}
