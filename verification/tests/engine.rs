use cellular::ca::{CA, ValidationError};

#[test]
fn construction_rejects_small_width() {
    for rule in [0u8, 1, 22, 150, 255] {
        let r = CA::new(1, 5, rule);
        assert!(matches!(r, Err(ValidationError::DimensionsTooSmall)));
        let r = CA::new(0, 5, rule);
        assert!(matches!(r, Err(ValidationError::DimensionsTooSmall)));
    }
}

#[test]
fn construction_rejects_small_height() {
    for rule in [0u8, 1, 22, 150, 255] {
        let r = CA::new(5, 1, rule);
        assert!(matches!(r, Err(ValidationError::DimensionsTooSmall)));
        let r = CA::new(5, 0, rule);
        assert!(matches!(r, Err(ValidationError::DimensionsTooSmall)));
    }
}

#[test]
fn construction_accepts_minimum() {
    let ca = CA::new(2, 2, 90).unwrap();
    assert_eq!(ca.width(), 2);
    assert_eq!(ca.height(), 2);
    assert_eq!(ca.rule(), 90);
}

#[test]
fn new_grid_is_all_dead() {
    let ca = CA::new(6, 4, 110).unwrap();
    let grid = ca.grid();
    assert_eq!(grid.len(), 4);
    for row in grid {
        assert_eq!(row.len(), 6);
        for &cell in row {
            assert!(!cell);
        }
    }
}

#[test]
fn dimensions_hold_for_lifetime() {
    let mut ca = CA::new(9, 5, 30).unwrap();
    ca.fill(4, 4);
    for _ in 0..25 {
        ca.update();
        assert_eq!(ca.width(), 9);
        assert_eq!(ca.height(), 5);
        assert_eq!(ca.rule(), 30);
        let grid = ca.grid();
        assert_eq!(grid.len(), 5);
        for row in grid {
            assert_eq!(row.len(), 9);
        }
    }
}

#[test]
fn fill_and_clear_single_cell() {
    let mut ca = CA::new(4, 3, 0).unwrap();
    ca.fill(2, 1);
    assert!(ca.grid()[1][2]);
    for (y, row) in ca.grid().iter().enumerate() {
        for (x, &cell) in row.iter().enumerate() {
            assert_eq!(cell, x == 2 && y == 1);
        }
    }
    ca.clear(2, 1);
    for row in ca.grid() {
        for &cell in row {
            assert!(!cell);
        }
    }
}

#[test]
fn single_seed_rule_150_scenario() {
    let mut ca = CA::new(7, 2, 150).unwrap();
    ca.fill(3, 1);
    ca.update();
    let grid = ca.grid();
    assert_eq!(grid[0], vec![false, false, false, true, false, false, false]);
    assert_eq!(grid[1], vec![false, false, true, true, true, false, false]);
}

#[test]
fn single_seed_rule_30_one_step() {
    let mut ca = CA::new(7, 2, 30).unwrap();
    ca.fill(3, 1);
    ca.update();
    assert_eq!(
        ca.grid()[1],
        vec![false, false, true, true, true, false, false]
    );
}

#[test]
fn scroll_moves_every_row_up() {
    let mut ca = CA::new(5, 4, 105).unwrap();
    ca.fill(1, 1);
    ca.fill(2, 2);
    ca.fill(3, 3);
    let before = ca.grid().clone();
    ca.update();
    let after = ca.grid();
    for y in 0..3 {
        assert_eq!(after[y], before[y + 1]);
    }
}

#[test]
fn rule_zero_keeps_all_dead() {
    let mut ca = CA::new(8, 3, 0).unwrap();
    for _ in 0..10 {
        ca.update();
        for row in ca.grid() {
            for &cell in row {
                assert!(!cell);
            }
        }
    }
}

#[test]
fn rule_255_fills_interior_and_stays() {
    let mut ca = CA::new(8, 3, 255).unwrap();
    ca.fill(4, 2);
    for _ in 0..5 {
        ca.update();
        let bottom = &ca.grid()[2];
        assert!(!bottom[0]);
        assert!(!bottom[7]);
        for x in 1..7 {
            assert!(bottom[x]);
        }
    }
}

#[test]
fn boundary_columns_stay_dead() {
    for rule in [0u8, 30, 90, 110, 150, 255] {
        let mut ca = CA::new(6, 4, rule).unwrap();
        ca.fill(2, 3);
        ca.fill(3, 3);
        for _ in 0..20 {
            ca.update();
            for row in ca.grid() {
                assert!(!row[0]);
                assert!(!row[5]);
            }
        }
    }
}

#[test]
fn seeded_boundary_cell_is_copied_not_recomputed() {
    let mut ca = CA::new(5, 3, 0).unwrap();
    ca.fill(0, 2);
    ca.update();
    let bottom = &ca.grid()[2];
    assert!(bottom[0]);
    for x in 1..5 {
        assert!(!bottom[x]);
    }
    ca.update();
    assert!(ca.grid()[2][0]);
    assert!(ca.grid()[1][0]);
}

#[test]
fn consecutive_updates_keep_shape_but_change_content() {
    let mut ca = CA::new(7, 2, 150).unwrap();
    ca.fill(3, 1);
    ca.update();
    let first = ca.grid().clone();
    ca.update();
    let second = ca.grid().clone();
    assert_eq!(first.len(), second.len());
    assert_eq!(first[0].len(), second[0].len());
    assert_ne!(first, second);
    assert_eq!(
        second[1],
        vec![false, true, false, true, false, true, false]
    );
}
