use das_grid::{
    check_rules, CellSizeParams, DasGridError, FrameSizeParams, Grid, MoveDirection, MOVE_DOWN,
    MOVE_LEFT, MOVE_RIGHT, MOVE_UP,
};

fn unit() -> (u32, u32) {
    (1f32.to_bits(), 1f32.to_bits())
}

fn never(_: (i32, i32), _: &i32) -> Result<(), DasGridError> {
    Err(DasGridError::RuleFailed)
}

fn always(_: (i32, i32), _: &i32) -> Result<(), DasGridError> {
    Ok(())
}

fn not_seven(_: (i32, i32), value: &i32) -> Result<(), DasGridError> {
    if *value == 7 {
        return Err(DasGridError::RuleFailed);
    }
    Ok(())
}

fn not_in_first_row(at: (i32, i32), _: &i32) -> Result<(), DasGridError> {
    if at.0 == 0 {
        return Err(DasGridError::ValueNotFound);
    }
    Ok(())
}

type Rule = fn((i32, i32), &i32) -> Result<(), DasGridError>;

/// A grid of 3 rows and 2 columns that holds 1..=6 in storage order:
///
/// ```text
/// 1 2
/// 3 4
/// 5 6
/// ```
fn three_by_two() -> Grid<i32> {
    Grid::new_from_vector((3, 2), unit(), vec![1, 2, 3, 4, 5, 6])
}

#[test]
fn set_then_get_returns_the_value() {
    let mut g = Grid::new((3, 4), unit(), 0);
    for x in 0..3 {
        for y in 0..4 {
            g.set((x, y), &(10 * x + y)).unwrap();
        }
    }
    for x in 0..3 {
        for y in 0..4 {
            assert_eq!(g.get((x, y)), Ok(&(10 * x + y)));
        }
    }
}

#[test]
fn set_changes_one_cell_only() {
    let mut g = three_by_two();
    g.set((1, 1), &50).unwrap();
    assert_eq!(g.get_flatten_grid(), vec![1, 2, 3, 50, 5, 6]);
}

#[test]
fn storage_offset_is_x_times_cols_plus_y() {
    let g = three_by_two();
    assert_eq!(g.to_index((0, 0)), 0);
    assert_eq!(g.to_index((0, 1)), 1);
    assert_eq!(g.to_index((1, 0)), 2);
    assert_eq!(g.to_index((2, 1)), 5);
    assert_eq!(g.get((1, 0)), Ok(&3));
    assert_eq!(g.get((2, 0)), Ok(&5));
}

#[test]
fn get_and_set_outside_are_refused() {
    let mut g = three_by_two();
    for p in [(-1, 0), (0, -1), (3, 0), (0, 2), (3, 2), (i32::MAX, 0), (0, i32::MIN)] {
        assert_eq!(g.get(p), Err(DasGridError::OutOfGrid));
        assert_eq!(g.set(p, &9), Err(DasGridError::OutOfGrid));
        assert_eq!(g.get_mut(p), Err(DasGridError::OutOfGrid));
        assert_eq!(g.check_grid_bounds(p), Err(DasGridError::OutOfGrid));
    }
    assert_eq!(g.get_flatten_grid(), vec![1, 2, 3, 4, 5, 6]);
}

#[test]
fn bounds_follow_rows_for_x_and_cols_for_y() {
    let g = three_by_two();
    assert_eq!(g.check_grid_bounds((2, 1)), Ok(()));
    assert_eq!(g.check_grid_bounds((1, 2)), Err(DasGridError::OutOfGrid));
}

#[test]
fn new_grid_has_rows_times_cols_default_cells() {
    let g = Grid::new((3, 5), unit(), 7);
    assert_eq!(g.size(), 15);
    assert_eq!(g.rows(), 3);
    assert_eq!(g.cols(), 5);
    assert_eq!(g.default_value(), 7);
    assert_eq!(g.get_flatten_grid(), vec![7; 15]);
    for p in g.enumerate() {
        assert_eq!(g.get(p), Ok(&7));
    }
}

#[test]
fn new_takes_params_or_pairs() {
    let frame = FrameSizeParams::from((2, 3));
    assert_eq!((frame.rows, frame.cols), (2, 3));
    let cell = CellSizeParams::from((10u32, 20u32));
    assert_eq!((cell.width, cell.height), (10, 20));
    let g = Grid::new(frame, cell, 'x');
    assert_eq!(g.size(), 6);
    assert_eq!(g.rows(), 2);
    assert_eq!(g.cols(), 3);
    assert_eq!(g.get_cell_size(), (10, 20));
}

#[test]
fn cell_size_comes_back_unchanged() {
    let size = (32.5f32.to_bits(), 0.25f32.to_bits());
    let mut g = Grid::new((4, 4), size, 0);
    let (w, h) = g.get_cell_size();
    assert_eq!(f32::from_bits(w), 32.5);
    assert_eq!(f32::from_bits(h), 0.25);
    let sub = g.get_subgrid((1, 1), 2, 2).unwrap();
    assert_eq!(sub.get_cell_size(), size);
    let shape = g.fill_subgrid((1, 1), (2, 2), &1).unwrap();
    assert_eq!(shape.get_cell_size(), size);
}

#[test]
fn new_from_vector_takes_the_first_value_as_default() {
    let mut g = Grid::new_from_vector((1, 3), unit(), vec![9, 8, 7]);
    assert_eq!(g.default_value(), 9);
    g.mov((0, 2), (0, 1)).unwrap();
    assert_eq!(g.get_flatten_grid(), vec![9, 7, 9]);
}

#[test]
fn new_from_vector_accepts_an_odd_length() {
    let g = Grid::new_from_vector((3, 3), unit(), (1..=9).collect());
    assert_eq!(g.size(), 9);
    assert_eq!(g.get((2, 2)), Ok(&9));
    assert_eq!(g.get((1, 0)), Ok(&4));
    assert_eq!(g.get((0, 1)), Ok(&2));
}

#[test]
fn mov_moves_the_value_and_resets_the_source() {
    let mut g = three_by_two();
    assert_eq!(g.mov((0, 1), (2, 1)), Ok(()));
    assert_eq!(g.get((2, 1)), Ok(&2));
    assert_eq!(g.get((0, 1)), Ok(&1));
    assert_eq!(g.get_flatten_grid(), vec![1, 1, 3, 4, 5, 2]);
}

#[test]
fn mov_onto_itself_keeps_the_value() {
    let mut g = three_by_two();
    assert_eq!(g.mov((1, 1), (1, 1)), Ok(()));
    assert_eq!(g.get((1, 1)), Ok(&4));
    assert_eq!(g.get_flatten_grid(), vec![1, 2, 3, 4, 5, 6]);
}

#[test]
fn mov_outside_changes_nothing() {
    let mut g = three_by_two();
    assert_eq!(g.mov((0, 1), (0, 2)), Err(DasGridError::OutOfGrid));
    assert_eq!(g.mov((3, 0), (0, 0)), Err(DasGridError::OutOfGrid));
    assert_eq!(g.get_flatten_grid(), vec![1, 2, 3, 4, 5, 6]);
}

#[test]
fn directions_have_unit_offsets() {
    assert_eq!(MOVE_RIGHT, (0, 1));
    assert_eq!(MOVE_LEFT, (0, -1));
    assert_eq!(MOVE_UP, (-1, 0));
    assert_eq!(MOVE_DOWN, (1, 0));
    assert_eq!(MoveDirection::Right.offset(), MOVE_RIGHT);
    assert_eq!(MoveDirection::Left.offset(), MOVE_LEFT);
    assert_eq!(MoveDirection::Up.offset(), MOVE_UP);
    assert_eq!(MoveDirection::Down.offset(), MOVE_DOWN);
}

#[test]
fn mov_to_returns_the_destination() {
    let mut g = three_by_two();
    assert_eq!(g.mov_to((1, 0), MoveDirection::Right), Ok((1, 1)));
    assert_eq!(g.get_flatten_grid(), vec![1, 2, 1, 3, 5, 6]);
    assert_eq!(g.mov_to((1, 1), MoveDirection::Down), Ok((2, 1)));
    assert_eq!(g.get_flatten_grid(), vec![1, 2, 1, 1, 5, 3]);
    assert_eq!(g.mov_to((2, 1), MoveDirection::Left), Ok((2, 0)));
    assert_eq!(g.get_flatten_grid(), vec![1, 2, 1, 1, 3, 1]);
    assert_eq!(g.mov_to((2, 0), MoveDirection::Up), Ok((1, 0)));
    assert_eq!(g.get_flatten_grid(), vec![1, 2, 3, 1, 1, 1]);
}

#[test]
fn mov_to_off_each_edge_is_refused_and_changes_nothing() {
    let mut g = three_by_two();
    assert_eq!(g.mov_to((1, 0), MoveDirection::Left), Err(DasGridError::OutOfGrid));
    assert_eq!(g.mov_to((1, 1), MoveDirection::Right), Err(DasGridError::OutOfGrid));
    assert_eq!(g.mov_to((0, 1), MoveDirection::Up), Err(DasGridError::OutOfGrid));
    assert_eq!(g.mov_to((2, 1), MoveDirection::Down), Err(DasGridError::OutOfGrid));
    assert_eq!(g.mov_to((5, 5), MoveDirection::Down), Err(DasGridError::OutOfGrid));
    assert_eq!(g.mov_to((-1, 0), MoveDirection::Down), Err(DasGridError::OutOfGrid));
    assert_eq!(
        g.mov_to((i32::MAX, i32::MAX), MoveDirection::Right),
        Err(DasGridError::OutOfGrid)
    );
    assert_eq!(
        g.mov_to((i32::MIN, i32::MIN), MoveDirection::Left),
        Err(DasGridError::OutOfGrid)
    );
    assert_eq!(g.get_flatten_grid(), vec![1, 2, 3, 4, 5, 6]);
}

#[test]
fn two_by_two_scenario() {
    let mut g = Grid::new((2, 2), unit(), 0);
    g.set((0, 1), &1).unwrap();
    assert_eq!(g.mov_to((0, 1), MoveDirection::Right), Err(DasGridError::OutOfGrid));
    assert_eq!(g.get_flatten_grid(), vec![0, 1, 0, 0]);
    assert_eq!(g.mov_to((0, 1), MoveDirection::Down), Ok((1, 1)));
    assert_eq!(g.get((0, 1)), Ok(&0));
    assert_eq!(g.get((1, 1)), Ok(&1));
    assert_eq!(g.get_flatten_grid(), vec![0, 0, 0, 1]);
}

#[test]
fn rows_and_columns_of_a_sequence() {
    let g = Grid::new_from_vector((2, 2), unit(), vec![1, 2, 3, 4]);
    assert_eq!(g.get_row(1), Ok(vec![3, 4]));
    assert_eq!(g.get_col(1), Ok(vec![2, 4]));
    assert_eq!(g.get_row(0), Ok(vec![1, 2]));
    assert_eq!(g.get_col(0), Ok(vec![1, 3]));
}

#[test]
fn rows_and_columns_of_an_oblong_grid() {
    let g = three_by_two();
    assert_eq!(g.get_row(0), Ok(vec![1, 2]));
    assert_eq!(g.get_row(2), Ok(vec![5, 6]));
    assert_eq!(g.get_row(3), Err(DasGridError::OutOfGrid));
    assert_eq!(g.get_row(-1), Err(DasGridError::OutOfGrid));
    assert_eq!(g.get_col(0), Ok(vec![1, 3, 5]));
    assert_eq!(g.get_col(1), Ok(vec![2, 4, 6]));
    assert_eq!(g.get_col(2), Err(DasGridError::OutOfGrid));
    assert_eq!(g.get_col(-1), Err(DasGridError::OutOfGrid));
}

#[test]
fn rows_and_columns_cross() {
    let g = three_by_two();
    for (x, y) in g.enumerate() {
        let row = g.get_row(x).unwrap();
        let col = g.get_col(y).unwrap();
        assert_eq!(row[y as usize], col[x as usize]);
        assert_eq!(g.get((x, y)), Ok(&row[y as usize]));
    }
}

#[test]
fn enumerate_lists_each_coordinate_once_in_storage_order() {
    let g = three_by_two();
    let coords = g.enumerate();
    assert_eq!(coords, vec![(0, 0), (0, 1), (1, 0), (1, 1), (2, 0), (2, 1)]);
    for (i, p) in coords.iter().enumerate() {
        assert_eq!(g.to_index(*p), i);
        assert_eq!(g.check_grid_bounds(*p), Ok(()));
    }
    let with_values = g.enumerate_with_value();
    assert_eq!(
        with_values,
        vec![(0, 0, &1), (0, 1, &2), (1, 0, &3), (1, 1, &4), (2, 0, &5), (2, 1, &6)]
    );
}

#[test]
fn enumerate_agrees_with_set_and_get() {
    let mut g = Grid::new((4, 3), unit(), 0);
    let coords = g.enumerate();
    assert_eq!(coords.len(), 12);
    for (i, p) in coords.iter().enumerate() {
        g.set(*p, &(i as i32)).unwrap();
    }
    assert_eq!(g.get_flatten_grid(), (0..12).collect::<Vec<i32>>());
    let mut seen = coords.clone();
    seen.sort();
    seen.dedup();
    assert_eq!(seen.len(), 12);
}

#[test]
fn enumerate_covers_a_single_row() {
    let g = Grid::new_from_vector((1, 3), unit(), vec![5, 6, 7]);
    assert_eq!(g.enumerate(), vec![(0, 0), (0, 1), (0, 2)]);
    assert_eq!(g.enumerate_with_value(), vec![(0, 0, &5), (0, 1, &6), (0, 2, &7)]);
}

#[test]
fn enumerate_covers_a_single_column() {
    let g = Grid::new_from_vector((3, 1), unit(), vec![5, 6, 7]);
    assert_eq!(g.enumerate(), vec![(0, 0), (1, 0), (2, 0)]);
    assert_eq!(g.enumerate_with_value(), vec![(0, 0, &5), (1, 0, &6), (2, 0, &7)]);
}

#[test]
fn enumerate_covers_a_single_cell() {
    let g = Grid::new((1, 1), unit(), 3);
    assert_eq!(g.enumerate(), vec![(0, 0)]);
    assert_eq!(g.size(), 1);
}

#[test]
fn check_rules_stops_at_the_first_refusal() {
    let rules: Vec<Rule> = vec![always, not_in_first_row, never];
    assert_eq!(check_rules(&rules, (0, 0), &1), Err(DasGridError::ValueNotFound));
    assert_eq!(check_rules(&rules, (1, 0), &1), Err(DasGridError::RuleFailed));
    let rules: Vec<Rule> = vec![always, not_seven];
    assert_eq!(check_rules(&rules, (0, 0), &1), Ok(()));
    assert_eq!(check_rules(&rules, (0, 0), &7), Err(DasGridError::RuleFailed));
    let rules: Vec<Rule> = vec![];
    assert_eq!(check_rules(&rules, (0, 0), &7), Ok(()));
}

#[test]
fn set_with_failing_rule_changes_nothing() {
    let mut g = three_by_two();
    let rules: Vec<Rule> = vec![never];
    assert_eq!(g.set_with_rules((1, 1), &50, rules), Err(DasGridError::RuleFailed));
    assert_eq!(g.get((1, 1)), Ok(&4));
    assert_eq!(g.get_flatten_grid(), vec![1, 2, 3, 4, 5, 6]);
}

#[test]
fn set_with_rules_judges_the_new_value() {
    let mut g = three_by_two();
    let rules: Vec<Rule> = vec![always, not_seven];
    assert_eq!(g.set_with_rules((1, 1), &7, rules), Err(DasGridError::RuleFailed));
    assert_eq!(g.get((1, 1)), Ok(&4));
    let rules: Vec<Rule> = vec![always, not_seven];
    assert_eq!(g.set_with_rules((1, 1), &8, rules), Ok(()));
    assert_eq!(g.get((1, 1)), Ok(&8));
    let rules: Vec<Rule> = vec![];
    assert_eq!(g.set_with_rules((2, 0), &7, rules), Ok(()));
    assert_eq!(g.get_flatten_grid(), vec![1, 2, 3, 8, 7, 6]);
}

#[test]
fn set_with_rules_asks_the_rules_before_the_bounds() {
    let mut g = three_by_two();
    let rules: Vec<Rule> = vec![never];
    assert_eq!(g.set_with_rules((9, 9), &1, rules), Err(DasGridError::RuleFailed));
    let rules: Vec<Rule> = vec![always];
    assert_eq!(g.set_with_rules((9, 9), &1, rules), Err(DasGridError::OutOfGrid));
    assert_eq!(g.get_flatten_grid(), vec![1, 2, 3, 4, 5, 6]);
}

#[test]
fn mov_with_rules_judges_the_destination() {
    let mut g = Grid::new_from_vector((3, 2), unit(), vec![1, 2, 7, 4, 5, 6]);
    let rules: Vec<Rule> = vec![not_seven];
    assert_eq!(g.mov_with_rules((0, 1), (1, 0), rules), Err(DasGridError::RuleFailed));
    assert_eq!(g.get_flatten_grid(), vec![1, 2, 7, 4, 5, 6]);
    let rules: Vec<Rule> = vec![not_seven];
    assert_eq!(g.mov_with_rules((1, 0), (1, 1), rules), Ok(()));
    assert_eq!(g.get_flatten_grid(), vec![1, 2, 1, 7, 5, 6]);
    let rules: Vec<Rule> = vec![never];
    assert_eq!(g.mov_with_rules((1, 0), (3, 1), rules), Err(DasGridError::OutOfGrid));
    let rules: Vec<Rule> = vec![never];
    assert_eq!(g.mov_with_rules((0, 2), (1, 1), rules), Err(DasGridError::OutOfGrid));
    assert_eq!(g.get_flatten_grid(), vec![1, 2, 1, 7, 5, 6]);
}

#[test]
fn mov_to_with_rules_judges_the_destination() {
    let mut g = Grid::new_from_vector((3, 2), unit(), vec![1, 2, 7, 4, 5, 6]);
    let rules: Vec<Rule> = vec![not_seven];
    assert_eq!(
        g.mov_to_with_rules((0, 0), MoveDirection::Down, rules),
        Err(DasGridError::RuleFailed)
    );
    assert_eq!(g.get_flatten_grid(), vec![1, 2, 7, 4, 5, 6]);
    let rules: Vec<Rule> = vec![not_seven];
    assert_eq!(g.mov_to_with_rules((0, 1), MoveDirection::Left, rules), Ok((0, 0)));
    assert_eq!(g.get_flatten_grid(), vec![2, 1, 7, 4, 5, 6]);
    let rules: Vec<Rule> = vec![never];
    assert_eq!(
        g.mov_to_with_rules((2, 1), MoveDirection::Right, rules),
        Err(DasGridError::OutOfGrid)
    );
    assert_eq!(g.get_flatten_grid(), vec![2, 1, 7, 4, 5, 6]);
}

#[test]
fn stamp_copies_each_cell_at_its_offset() {
    let mut g = Grid::new((4, 4), unit(), 0);
    let sub = three_by_two();
    assert_eq!(g.stamp_subgrid((1, 0), &sub), Ok(()));
    assert_eq!(
        g.get_flatten_grid(),
        vec![0, 0, 0, 0, 1, 2, 0, 0, 3, 4, 0, 0, 5, 6, 0, 0]
    );
    assert_eq!(g.stamp_subgrid((0, 2), &sub), Ok(()));
    assert_eq!(
        g.get_flatten_grid(),
        vec![0, 0, 1, 2, 1, 2, 3, 4, 3, 4, 5, 6, 5, 6, 0, 0]
    );
}

#[test]
fn stamp_drops_what_lands_outside() {
    let mut g = Grid::new((3, 3), unit(), 0);
    let sub = Grid::new_from_vector((2, 2), unit(), vec![1, 2, 3, 4]);
    assert_eq!(g.stamp_subgrid((2, 2), &sub), Ok(()));
    assert_eq!(g.get_flatten_grid(), vec![0, 0, 0, 0, 0, 0, 0, 0, 1]);
    assert_eq!(g.stamp_subgrid((2, 1), &sub), Ok(()));
    assert_eq!(g.get_flatten_grid(), vec![0, 0, 0, 0, 0, 0, 0, 1, 2]);
    assert_eq!(g.stamp_subgrid((1, 2), &sub), Ok(()));
    assert_eq!(g.get_flatten_grid(), vec![0, 0, 0, 0, 0, 1, 0, 1, 3]);
}

#[test]
fn stamp_refuses_a_larger_grid_and_an_origin_outside() {
    let mut g = Grid::new((2, 3), unit(), 0);
    let tall = Grid::new((3, 1), unit(), 1);
    let wide = Grid::new((1, 4), unit(), 1);
    assert_eq!(g.stamp_subgrid((0, 0), &tall), Err(DasGridError::SubgridOverflow));
    assert_eq!(g.stamp_subgrid((0, 0), &wide), Err(DasGridError::SubgridOverflow));
    assert_eq!(g.stamp_subgrid((9, 9), &wide), Err(DasGridError::SubgridOverflow));
    assert_eq!(g.check_grid_overflow(&tall), Err(DasGridError::SubgridOverflow));
    assert_eq!(g.check_grid_overflow(&wide), Err(DasGridError::SubgridOverflow));
    assert_eq!(g.check_frame_overflow(2, 3), Ok(()));
    assert_eq!(g.check_frame_overflow(3, 2), Err(DasGridError::SubgridOverflow));
    let small = Grid::new((1, 1), unit(), 1);
    assert_eq!(g.check_grid_overflow(&small), Ok(()));
    assert_eq!(g.stamp_subgrid((2, 0), &small), Err(DasGridError::OutOfGrid));
    assert_eq!(g.stamp_subgrid((0, 3), &small), Err(DasGridError::OutOfGrid));
    assert_eq!(g.stamp_subgrid((0, -1), &small), Err(DasGridError::OutOfGrid));
    assert_eq!(g.get_flatten_grid(), vec![0; 6]);
    assert_eq!(g.stamp_subgrid((1, 2), &small), Ok(()));
    assert_eq!(g.get_flatten_grid(), vec![0, 0, 0, 0, 0, 1]);
}

#[test]
fn subgrid_then_stamp_restores_the_region() {
    let source = Grid::new_from_vector((4, 4), unit(), (1..=16).collect());
    let sub = source.get_subgrid((1, 1), 2, 3).unwrap();
    assert_eq!(sub.rows(), 2);
    assert_eq!(sub.cols(), 3);
    assert_eq!(sub.get_flatten_grid(), vec![6, 7, 8, 10, 11, 12]);
    let mut target = Grid::new((4, 4), unit(), 0);
    assert_eq!(target.stamp_subgrid((1, 1), &sub), Ok(()));
    assert_eq!(
        target.get_flatten_grid(),
        vec![0, 0, 0, 0, 0, 6, 7, 8, 0, 10, 11, 12, 0, 0, 0, 0]
    );
    let mut same = Grid::new_from_vector((4, 4), unit(), (1..=16).collect());
    assert_eq!(same.stamp_subgrid((1, 1), &sub), Ok(()));
    assert_eq!(same.get_flatten_grid(), (1..=16).collect::<Vec<i32>>());
}

#[test]
fn subgrid_then_stamp_restores_a_region_past_the_edge() {
    let source = Grid::new_from_vector((4, 4), unit(), (1..=16).collect());
    let sub = source.get_subgrid((1, 2), 2, 3).unwrap();
    assert_eq!(sub.get_flatten_grid(), vec![7, 8, 1, 11, 12, 1]);
    let mut target = Grid::new((4, 4), unit(), 0);
    assert_eq!(target.stamp_subgrid((1, 2), &sub), Ok(()));
    assert_eq!(
        target.get_flatten_grid(),
        vec![0, 0, 0, 0, 0, 0, 7, 8, 0, 0, 11, 12, 0, 0, 0, 0]
    );
}

#[test]
fn subgrid_past_the_edge_holds_the_default() {
    let g = Grid::new_from_vector((3, 3), unit(), (1..=9).collect());
    let sub = g.get_subgrid((2, 1), 3, 2).unwrap();
    assert_eq!(sub.get_flatten_grid(), vec![8, 9, 1, 1, 1, 1]);
    assert_eq!(sub.default_value(), 1);
}

#[test]
fn subgrid_refuses_an_origin_outside_and_a_larger_region() {
    let g = Grid::new((3, 3), unit(), 0);
    assert_eq!(g.get_subgrid((3, 0), 1, 1).err(), Some(DasGridError::OutOfGrid));
    assert_eq!(g.get_subgrid((3, 0), 4, 4).err(), Some(DasGridError::OutOfGrid));
    assert_eq!(g.get_subgrid((0, 0), 4, 1).err(), Some(DasGridError::SubgridOverflow));
    assert_eq!(g.get_subgrid((0, 0), 1, 4).err(), Some(DasGridError::SubgridOverflow));
    assert_eq!(
        g.get_subgrid((0, 0), i32::MAX, i32::MAX).err(),
        Some(DasGridError::SubgridOverflow)
    );
}

#[test]
fn subgrid_does_not_follow_its_parent() {
    let mut g = Grid::new_from_vector((2, 2), unit(), vec![1, 2, 3, 4]);
    let sub = g.get_subgrid((0, 0), 2, 2).unwrap();
    g.set((0, 0), &9).unwrap();
    assert_eq!(sub.get_flatten_grid(), vec![1, 2, 3, 4]);
}

#[test]
fn fill_subgrid_fills_the_region_and_returns_its_shape() {
    let mut g = Grid::new_from_vector((3, 3), unit(), (1..=9).collect());
    let shape = g.fill_subgrid((1, 0), (2, 1), &0).unwrap();
    assert_eq!(g.get_flatten_grid(), vec![1, 2, 3, 0, 5, 6, 0, 8, 9]);
    assert_eq!(shape.rows(), 2);
    assert_eq!(shape.cols(), 1);
    assert_eq!(shape.get_flatten_grid(), vec![1, 1]);
    let shape = g.fill_subgrid((0, 1), (1, 2), &4).unwrap();
    assert_eq!(g.get_flatten_grid(), vec![1, 4, 4, 0, 5, 6, 0, 8, 9]);
    assert_eq!(shape.rows(), 1);
    assert_eq!(shape.cols(), 2);
}

#[test]
fn fill_subgrid_drops_what_lies_outside() {
    let mut g = Grid::new_from_vector((3, 3), unit(), (1..=9).collect());
    g.fill_subgrid((2, 2), (2, 2), &0).unwrap();
    assert_eq!(g.get_flatten_grid(), vec![1, 2, 3, 4, 5, 6, 7, 8, 0]);
}

#[test]
fn fill_subgrid_refuses_an_origin_outside_and_a_larger_region() {
    let mut g = Grid::new((3, 3), unit(), 0);
    assert_eq!(g.fill_subgrid((0, 3), (1, 1), &1).err(), Some(DasGridError::OutOfGrid));
    assert_eq!(g.fill_subgrid((0, 3), (4, 4), &1).err(), Some(DasGridError::OutOfGrid));
    assert_eq!(g.fill_subgrid((0, 0), (4, 1), &1).err(), Some(DasGridError::SubgridOverflow));
    assert_eq!(g.fill_subgrid((0, 0), (1, 4), &1).err(), Some(DasGridError::SubgridOverflow));
    assert_eq!(g.get_flatten_grid(), vec![0; 9]);
}

#[test]
fn fill_overwrites_every_cell() {
    let mut g = three_by_two();
    g.fill(&4);
    assert_eq!(g.get_flatten_grid(), vec![4; 6]);
    assert_eq!(g.default_value(), 1);
    assert_eq!(g.size(), 6);
    assert_eq!(g.rows(), 3);
    assert_eq!(g.cols(), 2);
}

#[test]
fn stamp_with_rules_copies_when_every_rule_accepts() {
    let mut g = Grid::new((3, 3), unit(), 0);
    let sub = Grid::new_from_vector((2, 2), unit(), vec![1, 2, 3, 4]);
    let rules: Vec<Rule> = vec![always, not_seven];
    assert_eq!(g.stamp_subgrid_with_rules((1, 1), sub, rules), Ok(()));
    assert_eq!(g.get_flatten_grid(), vec![0, 0, 0, 0, 1, 2, 0, 3, 4]);
}

#[test]
fn stamp_with_rules_judges_what_the_destination_holds() {
    let mut g = Grid::new((2, 2), unit(), 0);
    let sub = Grid::new((2, 2), unit(), 7);
    let rules: Vec<Rule> = vec![not_seven];
    assert_eq!(g.stamp_subgrid_with_rules((0, 0), sub, rules), Ok(()));
    assert_eq!(g.get_flatten_grid(), vec![7; 4]);
}

#[test]
fn stamp_with_rules_keeps_what_was_copied_before_a_refusal() {
    let mut g = Grid::new_from_vector((3, 3), unit(), vec![0, 0, 0, 0, 0, 0, 0, 7, 0]);
    let sub = Grid::new_from_vector((2, 2), unit(), vec![1, 2, 3, 4]);
    let rules: Vec<Rule> = vec![not_seven];
    assert_eq!(
        g.stamp_subgrid_with_rules((1, 1), sub, rules),
        Err(DasGridError::RuleFailed)
    );
    assert_eq!(g.get_flatten_grid(), vec![0, 0, 0, 0, 1, 2, 0, 7, 0]);
}

#[test]
fn stamp_with_rules_returns_the_error_of_the_rule() {
    let mut g = Grid::new((2, 2), unit(), 0);
    let sub = Grid::new((1, 1), unit(), 5);
    let rules: Vec<Rule> = vec![always, not_in_first_row, never];
    assert_eq!(
        g.stamp_subgrid_with_rules((0, 1), sub, rules),
        Err(DasGridError::ValueNotFound)
    );
    assert_eq!(g.get_flatten_grid(), vec![0; 4]);
}

#[test]
fn stamp_with_rules_drops_what_lands_outside() {
    let mut g = Grid::new((2, 2), unit(), 0);
    let sub = Grid::new_from_vector((2, 2), unit(), vec![1, 2, 3, 4]);
    let rules: Vec<Rule> = vec![always];
    assert_eq!(g.stamp_subgrid_with_rules((1, 1), sub, rules), Ok(()));
    assert_eq!(g.get_flatten_grid(), vec![0, 0, 0, 1]);
}

#[test]
fn stamp_with_rules_checks_size_then_origin() {
    let mut g = Grid::new((2, 2), unit(), 0);
    let rules: Vec<Rule> = vec![never];
    let big = Grid::new((3, 3), unit(), 1);
    assert_eq!(
        g.stamp_subgrid_with_rules((5, 5), big, rules),
        Err(DasGridError::SubgridOverflow)
    );
    let rules: Vec<Rule> = vec![never];
    let small = Grid::new((1, 1), unit(), 1);
    assert_eq!(
        g.stamp_subgrid_with_rules((5, 5), small, rules),
        Err(DasGridError::OutOfGrid)
    );
    assert_eq!(g.get_flatten_grid(), vec![0; 4]);
}

#[test]
fn get_mut_writes_one_cell() {
    let mut g = three_by_two();
    *g.get_mut((2, 1)).unwrap() += 10;
    assert_eq!(g.get_flatten_grid(), vec![1, 2, 3, 4, 5, 16]);
}

#[test]
fn a_grid_is_walked_in_storage_order() {
    let g = three_by_two();
    let walked: Vec<i32> = g.into_iter().copied().collect();
    assert_eq!(walked, vec![1, 2, 3, 4, 5, 6]);
}
