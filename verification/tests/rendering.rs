use game_of_life::{Cell, Universe};

#[test]
fn render_writes_one_line_for_each_row() {
    let shapes: [(u32, u32); 5] = [(1, 1), (4, 4), (7, 3), (3, 7), (16, 9)];
    for (width, height) in shapes {
        let text = Universe::new(width, height).render();
        assert_eq!(text.lines().count(), height as usize);
        assert_eq!(text.matches('\n').count(), height as usize);
        assert!(text.ends_with('\n'));
        for line in text.lines() {
            assert_eq!(line.chars().count(), width as usize);
        }
        assert_eq!(text.chars().count(), (height * (width + 1)) as usize);
    }
}

#[test]
fn render_of_the_seeded_four_by_four() {
    let text = Universe::new(4, 4).render();
    assert_eq!(text, "◼◻◼◻\n◼◻◼◼\n◼◻◼◻\n◼◻◼◻\n");
}

#[test]
fn render_maps_each_cell_to_its_symbol() {
    let cells = vec![Cell::Dead, Cell::Alive, Cell::Alive, Cell::Alive, Cell::Dead, Cell::Dead];
    let universe = Universe::from_cells(3, 2, cells).expect("six cells");
    assert_eq!(universe.render(), "\u{25FB}\u{25FC}\u{25FC}\n\u{25FC}\u{25FB}\u{25FB}\n");
}

#[test]
fn render_of_single_cells() {
    let dead = Universe::from_cells(1, 1, vec![Cell::Dead]).expect("one cell");
    assert_eq!(dead.render(), "◻\n");
    let alive = Universe::from_cells(1, 1, vec![Cell::Alive]).expect("one cell");
    assert_eq!(alive.render(), "◼\n");
}

#[test]
fn render_does_not_change_the_universe() {
    let universe = Universe::new(6, 5);
    let before: Vec<Cell> = universe.cells().to_vec();
    let first = universe.render();
    let second = universe.render();
    assert_eq!(first, second);
    assert_eq!(universe.cells(), before.as_slice());
}

#[test]
fn render_follows_the_ticks() {
    let mut universe = Universe::new(4, 4);
    universe.tick();
    assert_eq!(universe.render(), "◼◻◼◻\n◼◻◼◻\n◼◻◼◻\n◼◻◼◻\n");
}
