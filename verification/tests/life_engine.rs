use automata::cell::{CellState, RuleParams};
use automata::color::Rgba;
use automata::engine::{Automata, AutomataParams};
use automata::grid::GridSize;
use automata::life::{Life, LifeParams, LifeRule};

fn b3s23() -> RuleParams {
    RuleParams::Life(LifeParams { alive_percent: 50, rule: LifeRule::from_str("B3S23").unwrap() })
}

fn life_grid(g: GridSize, alive: &[usize], threads: usize, chunks: usize) -> Automata {
    let total = g.cols * g.rows;
    let cells: Vec<CellState> = (0..total)
        .map(|i| {
            if alive.contains(&i) {
                CellState::Life(Life::Alive)
            } else {
                CellState::Life(Life::Dead)
            }
        })
        .collect();
    Automata::from_cells(g, AutomataParams { threads, chunks }, b3s23(), cells).unwrap()
}

fn alive_indices(engine: &Automata) -> Vec<usize> {
    (0..engine.total_cells())
        .filter(|&i| engine.cell_at(i) == CellState::Life(Life::Alive))
        .collect()
}

#[test]
fn blinker_oscillates() {
    let g = GridSize { cols: 3, rows: 3 };
    // vertical bar in the middle column
    let mut engine = life_grid(g, &[3, 4, 5], 1, 1);
    engine.next();
    // horizontal bar in the middle row
    assert_eq!(alive_indices(&engine), vec![1, 4, 7]);
    engine.next();
    assert_eq!(alive_indices(&engine), vec![3, 4, 5]);
}

#[test]
fn block_is_a_still_life() {
    let g = GridSize { cols: 3, rows: 3 };
    let mut engine = life_grid(g, &[0, 1, 3, 4], 2, 3);
    engine.next();
    assert_eq!(alive_indices(&engine), vec![0, 1, 3, 4]);
}

#[test]
fn isolated_cell_dies() {
    let g = GridSize { cols: 3, rows: 3 };
    let mut engine = life_grid(g, &[4], 1, 1);
    engine.next();
    assert_eq!(alive_indices(&engine), Vec::<usize>::new());
}

#[test]
fn dead_cell_with_three_neighbors_is_born() {
    let g = GridSize { cols: 3, rows: 3 };
    // cells 3, 1, 7 are neighbors of the dead center 4
    let mut engine = life_grid(g, &[1, 3, 7], 1, 1);
    engine.next();
    let alive = alive_indices(&engine);
    assert!(alive.contains(&4));
}

#[test]
fn advance_is_chunk_and_thread_independent() {
    let g = GridSize { cols: 5, rows: 4 };
    let alive = [2, 3, 7, 8, 9, 12, 13, 14, 17];
    let mut one = life_grid(g, &alive, 1, 1);
    let mut many = life_grid(g, &alive, 4, 7);
    one.next();
    many.next();
    for i in 0..one.total_cells() {
        assert_eq!(one.cell_at(i), many.cell_at(i));
    }
}

#[test]
fn colors_follow_generations() {
    let black = Rgba { red: 0, green: 0, blue: 0, alpha: 255 };
    let white = Rgba { red: 255, green: 255, blue: 255, alpha: 255 };
    let g = GridSize { cols: 3, rows: 3 };
    let mut engine = life_grid(g, &[3, 4, 5], 1, 1);
    // generation 0: colors reflect only the supplied cells
    assert_eq!(engine.generation(), 0);
    assert_eq!(engine.color_at(4), black);
    assert_eq!(engine.color_at(1), white);
    engine.next();
    // exactly one rule application: the blinker flipped
    assert_eq!(engine.generation(), 1);
    assert_eq!(engine.color_at(1), black);
    assert_eq!(engine.color_at(3), white);
}
