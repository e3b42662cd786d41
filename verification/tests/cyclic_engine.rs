use automata::cell::{sample_from_draw, CellState, RuleParams};
use automata::color::{palette_colors, Palette, Rgba};
use automata::cyclic::{Cyclic, CyclicParams};
use automata::engine::{Automata, AutomataParams};
use automata::grid::GridSize;

fn cyclic_params(threshold: u8) -> RuleParams {
    RuleParams::Cyclic(
        CyclicParams { palette: palette_colors(Palette::Rainbow), threshold },
    )
}

fn cyclic_grid(g: GridSize, values: &[usize], threshold: u8) -> Automata {
    let cells: Vec<CellState> =
        values.iter().map(|&v| CellState::Cyclic(Cyclic { value: v })).collect();
    Automata::from_cells(g, AutomataParams { threads: 1, chunks: 1 }, cyclic_params(threshold), cells)
        .unwrap()
}

fn values(engine: &Automata) -> Vec<usize> {
    (0..engine.total_cells())
        .map(|i| match engine.cell_at(i) {
            CellState::Cyclic(c) => c.value,
            _ => panic!("not a cyclic cell"),
        })
        .collect()
}

#[test]
fn cell_advances_when_a_neighbor_holds_the_target() {
    // 1 x 2 grid: the left cell sees a neighbor already at its target 1,
    // the right cell sees no neighbor at its target 2
    let g = GridSize { cols: 2, rows: 1 };
    let mut engine = cyclic_grid(g, &[0, 1], 1);
    engine.next();
    assert_eq!(values(&engine), vec![1, 1]);
}

#[test]
fn value_wraps_around_the_palette() {
    // palette has 8 colors: 7 advances to (7 + 1) % 8 == 0
    let g = GridSize { cols: 2, rows: 1 };
    let mut engine = cyclic_grid(g, &[7, 0], 1);
    engine.next();
    // the left cell wrapped to 0; the right cell's target 1 was absent
    assert_eq!(values(&engine), vec![0, 0]);
}

#[test]
fn threshold_two_needs_two_matching_neighbors() {
    // 3 x 1 grid, center at 0 with both neighbors at 1: meets threshold 2
    let g = GridSize { cols: 3, rows: 1 };
    let mut engine = cyclic_grid(g, &[1, 0, 1], 2);
    engine.next();
    // center advanced; the outer cells each saw no neighbor at 2
    assert_eq!(values(&engine), vec![1, 1, 1]);
}

#[test]
fn threshold_not_met_keeps_the_value() {
    // center at 0 with a single matching neighbor misses threshold 2
    let g = GridSize { cols: 3, rows: 1 };
    let mut engine = cyclic_grid(g, &[1, 0, 3], 2);
    engine.next();
    assert_eq!(values(&engine), vec![1, 0, 3]);
}

#[test]
fn color_query_reads_the_palette() {
    let palette = palette_colors(Palette::Rainbow);
    let g = GridSize { cols: 2, rows: 1 };
    let engine = cyclic_grid(g, &[5, 2], 1);
    assert_eq!(engine.color_at(0), palette[5]);
    assert_eq!(engine.color_at(1), palette[2]);
}

#[test]
fn rainbow_palette_has_eight_colors() {
    let palette = palette_colors(Palette::Rainbow);
    assert_eq!(palette.len(), 8);
    assert_eq!(palette[0], Rgba { red: 255, green: 109, blue: 193, alpha: 255 });
}

#[test]
fn grayscale_palette_darkens() {
    let palette = palette_colors(Palette::Grayscale);
    assert_eq!(palette.len(), 18);
    assert_eq!(palette[0], Rgba { red: 255, green: 255, blue: 255, alpha: 255 });
    assert_eq!(palette[1], Rgba { red: 127, green: 127, blue: 127, alpha: 255 });
    for w in palette.windows(2) {
        assert!(w[1].red <= w[0].red);
    }
}

#[test]
fn sampling_draw_picks_the_palette_index() {
    let p = cyclic_params(1);
    assert_eq!(sample_from_draw(&p, 0), CellState::Cyclic(Cyclic { value: 0 }));
    assert_eq!(sample_from_draw(&p, 7), CellState::Cyclic(Cyclic { value: 7 }));
}
