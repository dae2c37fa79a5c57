use game_of_life::{Cell, Universe};

fn from_marks(rows: &[&str]) -> Universe {
    let height: u32 = rows.len() as u32;
    let width: u32 = rows[0].chars().count() as u32;
    let mut cells: Vec<Cell> = Vec::new();
    for row in rows {
        for mark in row.chars() {
            cells.push(if mark == '#' { Cell::Alive } else { Cell::Dead });
        }
    }
    Universe::from_cells(width, height, cells).expect("a rectangle of marks")
}

fn marks_of(universe: &Universe) -> Vec<String> {
    let width: usize = universe.width() as usize;
    universe
        .cells()
        .chunks(width)
        .map(|row| row.iter().map(|cell| if *cell == Cell::Alive { '#' } else { '.' }).collect())
        .collect()
}

#[test]
fn blinker_oscillates_with_period_two() {
    let mut universe = from_marks(&[
        ".....", //
        ".....", //
        ".###.", //
        ".....", //
        ".....",
    ]);
    universe.tick();
    assert_eq!(marks_of(&universe), vec![".....", "..#..", "..#..", "..#..", "....."]);
    universe.tick();
    assert_eq!(marks_of(&universe), vec![".....", ".....", ".###.", ".....", "....."]);
}

#[test]
fn blinker_oscillates_on_four_by_four() {
    let mut universe = from_marks(&[
        "....", //
        "###.", //
        "....", //
        "....",
    ]);
    universe.tick();
    assert_eq!(marks_of(&universe), vec![".#..", ".#..", ".#..", "...."]);
    universe.tick();
    assert_eq!(marks_of(&universe), vec!["....", "###.", "....", "...."]);
}

#[test]
fn blinker_across_the_edge_oscillates() {
    let mut universe = from_marks(&[
        "##..#", //
        ".....", //
        ".....", //
        ".....", //
        ".....",
    ]);
    universe.tick();
    assert_eq!(marks_of(&universe), vec!["#....", "#....", ".....", ".....", "#...."]);
    universe.tick();
    assert_eq!(marks_of(&universe), vec!["##..#", ".....", ".....", ".....", "....."]);
}

#[test]
fn three_by_three_row_fills_the_torus_and_dies() {
    let mut universe = from_marks(&[
        "...", //
        "###", //
        "...",
    ]);
    universe.tick();
    assert_eq!(marks_of(&universe), vec!["###", "###", "###"]);
    universe.tick();
    assert_eq!(marks_of(&universe), vec!["...", "...", "..."]);
}

#[test]
fn empty_grid_stays_empty() {
    let shapes: [(u32, u32); 5] = [(1, 1), (2, 2), (3, 3), (8, 5), (1, 12)];
    for (width, height) in shapes {
        let count: usize = (width * height) as usize;
        let mut universe =
            Universe::from_cells(width, height, vec![Cell::Dead; count]).expect("all dead");
        for _ in 0..10 {
            universe.tick();
            assert_eq!(universe.cells(), vec![Cell::Dead; count].as_slice());
        }
    }
}

#[test]
fn block_is_a_still_life() {
    let rows = ["......", "..##..", "..##..", "......", "......"];
    let mut universe = from_marks(&rows);
    for _ in 0..5 {
        universe.tick();
        assert_eq!(marks_of(&universe), rows.to_vec());
    }
}

#[test]
fn glider_travels_one_cell_in_four_generations() {
    let mut universe = from_marks(&[
        ".#....", //
        "..#...", //
        "###...", //
        "......", //
        "......", //
        "......",
    ]);
    for _ in 0..4 {
        universe.tick();
    }
    assert_eq!(
        marks_of(&universe),
        vec!["......", "..#...", "...#..", ".###..", "......", "......"]
    );
}

#[test]
fn seeded_four_by_four_settles_into_stripes() {
    let mut universe = Universe::new(4, 4);
    universe.tick();
    assert_eq!(marks_of(&universe), vec!["#.#.", "#.#.", "#.#.", "#.#."]);
    universe.tick();
    assert_eq!(marks_of(&universe), vec!["#.#.", "#.#.", "#.#.", "#.#."]);
}

#[test]
fn seeded_three_by_two_after_one_tick() {
    let mut universe = Universe::new(3, 2);
    assert_eq!(marks_of(&universe), vec!["#.#", ".#."]);
    universe.tick();
    assert_eq!(marks_of(&universe), vec!["#.#", "..."]);
}

#[test]
fn seeded_five_by_three_dies_out() {
    let mut universe = Universe::new(5, 3);
    assert_eq!(marks_of(&universe), vec!["#.#.#", ".###.", "#.#.#"]);
    universe.tick();
    assert_eq!(marks_of(&universe), vec![".....", ".....", "....."]);
}

#[test]
fn single_live_cell_dies_of_its_own_company() {
    let mut universe = Universe::new(1, 1);
    universe.tick();
    assert_eq!(universe.cells(), &[Cell::Dead]);
}

#[test]
fn tick_keeps_the_dimensions_and_the_cell_count() {
    let mut universe = Universe::new(11, 7);
    for _ in 0..20 {
        universe.tick();
        assert_eq!(universe.cells().len(), 77);
        assert_eq!(universe.width(), 11);
        assert_eq!(universe.height(), 7);
    }
}

#[test]
fn every_cell_changes_at_once() {
    let mut universe = from_marks(&[
        ".....", //
        "..#..", //
        ".###.", //
        ".....", //
        ".....",
    ]);
    universe.tick();
    assert_eq!(marks_of(&universe), vec![".....", ".###.", ".###.", "..#..", "....."]);
}

fn next_to(place: u32, centre: u32, extent: u32) -> bool {
    place == centre || place == (centre + 1) % extent || (place + 1) % extent == centre
}

#[test]
fn blinker_turns_wherever_it_lies() {
    let shapes: [(u32, u32); 4] = [(4, 4), (4, 6), (5, 5), (7, 4)];
    for (width, height) in shapes {
        for row in 0..height {
            for col in 0..width {
                let mut flat: Vec<Cell> = Vec::new();
                let mut upright: Vec<Cell> = Vec::new();
                for r in 0..height {
                    for c in 0..width {
                        let lying = r == row && next_to(c, col, width);
                        let standing = c == col && next_to(r, row, height);
                        flat.push(if lying { Cell::Alive } else { Cell::Dead });
                        upright.push(if standing { Cell::Alive } else { Cell::Dead });
                    }
                }
                let mut universe =
                    Universe::from_cells(width, height, flat.clone()).expect("one cell each");
                universe.tick();
                assert_eq!(universe.cells(), upright.as_slice());
                universe.tick();
                assert_eq!(universe.cells(), flat.as_slice());
            }
        }
    }
}
