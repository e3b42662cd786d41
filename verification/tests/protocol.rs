use automata::cell::{CellState, RuleParams};
use automata::cyclic::Cyclic;
use automata::engine::{Automata, AutomataParams, ProtocolError};
use automata::grid::GridSize;
use automata::life::{Life, LifeParams, LifeRule};

fn b3s23() -> RuleParams {
    RuleParams::Life(LifeParams { alive_percent: 50, rule: LifeRule::from_str("B3S23").unwrap() })
}

fn two_by_two(threads: usize, chunks: usize) -> Automata {
    let cells = vec![
        CellState::Life(Life::Alive),
        CellState::Life(Life::Alive),
        CellState::Life(Life::Alive),
        CellState::Life(Life::Dead),
    ];
    Automata::from_cells(
        GridSize { cols: 2, rows: 2 },
        AutomataParams { threads, chunks },
        b3s23(),
        cells,
    )
    .unwrap()
}

#[test]
fn split_phase_generation_matches_inline_advance() {
    // drive the dispatch/collect/swap protocol by hand, out of order,
    // and compare against the inline driver
    let mut manual = two_by_two(2, 2);
    let mut inline = two_by_two(1, 1);

    manual.begin_generation().unwrap();
    let mut all_results = Vec::new();
    for ci in 0..manual.chunk_count() {
        let chunk = manual.chunk_at(ci);
        let results =
            Automata::calculate_chunk(manual.grid_size(), manual.rule_params(), manual.current_cells(), chunk);
        all_results.extend(results);
    }
    // arrival order does not matter: feed the results back to front
    while let Some((index, state)) = all_results.pop() {
        manual.record_result(index, state).unwrap();
    }
    manual.finish_generation().unwrap();

    inline.next();
    for i in 0..4 {
        assert_eq!(manual.cell_at(i), inline.cell_at(i));
    }
    assert_eq!(manual.generation(), 1);
}

#[test]
fn record_outside_a_generation_is_rejected() {
    let mut engine = two_by_two(1, 1);
    let err = engine.record_result(0, CellState::Life(Life::Dead)).unwrap_err();
    assert_eq!(err, ProtocolError::WrongPhase);
}

#[test]
fn out_of_range_result_is_rejected() {
    let mut engine = two_by_two(1, 1);
    engine.begin_generation().unwrap();
    let err = engine.record_result(4, CellState::Life(Life::Dead)).unwrap_err();
    assert_eq!(err, ProtocolError::IndexOutOfRange);
}

#[test]
fn duplicate_result_is_rejected() {
    let mut engine = two_by_two(1, 1);
    engine.begin_generation().unwrap();
    engine.record_result(0, CellState::Life(Life::Dead)).unwrap();
    let err = engine.record_result(0, CellState::Life(Life::Alive)).unwrap_err();
    assert_eq!(err, ProtocolError::DuplicateResult);
}

#[test]
fn foreign_state_is_rejected() {
    let mut engine = two_by_two(1, 1);
    engine.begin_generation().unwrap();
    let err = engine.record_result(0, CellState::Cyclic(Cyclic { value: 0 })).unwrap_err();
    assert_eq!(err, ProtocolError::InvalidState);
}

#[test]
fn early_swap_is_rejected() {
    let mut engine = two_by_two(1, 1);
    engine.begin_generation().unwrap();
    engine.record_result(0, CellState::Life(Life::Dead)).unwrap();
    let err = engine.finish_generation().unwrap_err();
    assert_eq!(err, ProtocolError::Incomplete);
}

#[test]
fn double_begin_is_rejected() {
    let mut engine = two_by_two(1, 1);
    engine.begin_generation().unwrap();
    let err = engine.begin_generation().unwrap_err();
    assert_eq!(err, ProtocolError::WrongPhase);
}

#[test]
fn finish_while_idle_is_rejected() {
    let mut engine = two_by_two(1, 1);
    let err = engine.finish_generation().unwrap_err();
    assert_eq!(err, ProtocolError::WrongPhase);
}

#[test]
fn chunks_are_dispatched_round_robin() {
    let cells = vec![CellState::Life(Life::Dead); 12];
    let engine = Automata::from_cells(
        GridSize { cols: 4, rows: 3 },
        AutomataParams { threads: 3, chunks: 5 },
        b3s23(),
        cells,
    )
    .unwrap();
    let workers: Vec<usize> = (0..engine.chunk_count()).map(|c| engine.worker_of_chunk(c)).collect();
    assert_eq!(workers, vec![0, 1, 2, 0, 1]);
}
