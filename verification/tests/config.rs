use automata::args::{rule_params_for, CellType, CyclicArgs, LifeArgs, PercentArg};
use automata::brain::{Brain, BrainParams};
use automata::cell::{CellState, RuleParams};
use automata::color::{palette_colors, Palette};
use automata::cyclic::{Cyclic, CyclicParams};
use automata::engine::{Automata, AutomataParams, ConfigError};
use automata::grid::GridSize;
use automata::life::{Life, LifeParams, LifeRule};

fn brain_params(percent: u8) -> RuleParams {
    RuleParams::Brain(BrainParams { alive_percent: percent })
}

#[test]
fn oversized_grid_is_rejected() {
    let err = Automata::new(
        GridSize { cols: usize::MAX, rows: 2 },
        AutomataParams { threads: 1, chunks: 1 },
        brain_params(50),
    )
    .unwrap_err();
    assert_eq!(err, ConfigError::GridTooLarge);
}

#[test]
fn zero_threads_is_rejected() {
    let err = Automata::new(
        GridSize { cols: 4, rows: 4 },
        AutomataParams { threads: 0, chunks: 1 },
        brain_params(50),
    )
    .unwrap_err();
    assert_eq!(err, ConfigError::ZeroThreads);
}

#[test]
fn zero_chunks_is_rejected() {
    let err = Automata::new(
        GridSize { cols: 4, rows: 4 },
        AutomataParams { threads: 1, chunks: 0 },
        brain_params(50),
    )
    .unwrap_err();
    assert_eq!(err, ConfigError::ZeroChunks);
}

#[test]
fn more_chunks_than_cells_is_rejected() {
    let err = Automata::new(
        GridSize { cols: 2, rows: 2 },
        AutomataParams { threads: 1, chunks: 5 },
        brain_params(50),
    )
    .unwrap_err();
    assert_eq!(err, ConfigError::TooManyChunks);
}

#[test]
fn zero_threshold_is_rejected() {
    let params = RuleParams::Cyclic(
        CyclicParams { palette: palette_colors(Palette::Rainbow), threshold: 0 },
    );
    let err = Automata::new(
        GridSize { cols: 4, rows: 4 },
        AutomataParams { threads: 1, chunks: 1 },
        params,
    )
    .unwrap_err();
    assert_eq!(err, ConfigError::InvalidParams);
}

#[test]
fn empty_palette_is_rejected() {
    let params = RuleParams::Cyclic(CyclicParams { palette: Vec::new(), threshold: 1 });
    let err = Automata::new(
        GridSize { cols: 4, rows: 4 },
        AutomataParams { threads: 1, chunks: 1 },
        params,
    )
    .unwrap_err();
    assert_eq!(err, ConfigError::InvalidParams);
}

#[test]
fn wrong_cell_count_is_rejected() {
    let err = Automata::from_cells(
        GridSize { cols: 2, rows: 2 },
        AutomataParams { threads: 1, chunks: 1 },
        brain_params(50),
        vec![CellState::Brain(Brain::Dead); 3],
    )
    .unwrap_err();
    assert_eq!(err, ConfigError::InvalidCells);
}

#[test]
fn foreign_initial_cell_is_rejected() {
    let mut cells = vec![CellState::Brain(Brain::Dead); 4];
    cells[2] = CellState::Life(Life::Alive);
    let err = Automata::from_cells(
        GridSize { cols: 2, rows: 2 },
        AutomataParams { threads: 1, chunks: 1 },
        brain_params(50),
        cells,
    )
    .unwrap_err();
    assert_eq!(err, ConfigError::InvalidCells);
}

#[test]
fn out_of_palette_initial_value_is_rejected() {
    let params = RuleParams::Cyclic(
        CyclicParams { palette: palette_colors(Palette::Rainbow), threshold: 1 },
    );
    let err = Automata::from_cells(
        GridSize { cols: 2, rows: 2 },
        AutomataParams { threads: 1, chunks: 1 },
        params,
        vec![CellState::Cyclic(Cyclic { value: 8 }); 4],
    )
    .unwrap_err();
    assert_eq!(err, ConfigError::InvalidCells);
}

#[test]
fn zero_percent_sampling_leaves_every_cell_dead() {
    let engine = Automata::new(
        GridSize { cols: 8, rows: 8 },
        AutomataParams { threads: 2, chunks: 4 },
        brain_params(0),
    )
    .unwrap();
    assert_eq!(engine.generation(), 0);
    for i in 0..engine.total_cells() {
        assert_eq!(engine.cell_at(i), CellState::Brain(Brain::Dead));
    }
}

#[test]
fn full_percent_sampling_leaves_every_cell_alive() {
    let engine = Automata::new(
        GridSize { cols: 8, rows: 8 },
        AutomataParams { threads: 2, chunks: 4 },
        RuleParams::Life(
            LifeParams { alive_percent: 100, rule: LifeRule::from_str("B3S23").unwrap() },
        ),
    )
    .unwrap();
    for i in 0..engine.total_cells() {
        assert_eq!(engine.cell_at(i), CellState::Life(Life::Alive));
    }
}

#[test]
fn random_cyclic_sampling_stays_inside_the_palette() {
    let params = RuleParams::Cyclic(
        CyclicParams { palette: palette_colors(Palette::Rainbow), threshold: 1 },
    );
    let engine = Automata::new(
        GridSize { cols: 16, rows: 16 },
        AutomataParams { threads: 1, chunks: 1 },
        params,
    )
    .unwrap();
    for i in 0..engine.total_cells() {
        match engine.cell_at(i) {
            CellState::Cyclic(c) => assert!(c.value < 8),
            _ => panic!("not a cyclic cell"),
        }
    }
}

#[test]
fn configuration_maps_to_rule_parameters() {
    let life = CellType::Life(LifeArgs {
        rule: LifeRule::from_str("B36S23").unwrap(),
        percent_arg: PercentArg { percentage: 30 },
    });
    match rule_params_for(&life) {
        RuleParams::Life(lp) => {
            assert_eq!(lp.alive_percent, 30);
            assert_eq!(lp.rule.birth, (1 << 3) | (1 << 6));
        },
        _ => panic!("wrong kind"),
    }

    let cyclic = CellType::Cyclic(CyclicArgs { threshold: 3, palette: Palette::Grayscale });
    match rule_params_for(&cyclic) {
        RuleParams::Cyclic(cp) => {
            assert_eq!(cp.threshold, 3);
            assert_eq!(cp.palette, palette_colors(Palette::Grayscale));
        },
        _ => panic!("wrong kind"),
    }

    let brain = CellType::Brain(PercentArg { percentage: 55 });
    match rule_params_for(&brain) {
        RuleParams::Brain(bp) => assert_eq!(bp.alive_percent, 55),
        _ => panic!("wrong kind"),
    }
}
