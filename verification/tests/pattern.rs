use sound_garden::pattern::{parse_gates, parse_values, Cell, ChannelClock, Pattern};

type Frame = [f64; 2];

fn wrap_phase(phase: f64) -> f64 {
    if phase.is_finite() {
        phase.rem_euclid(1.0)
    } else {
        0.0
    }
}

/// Where a cell lies in the cycle, from its path.
fn bounds(path: &[(usize, usize)]) -> (f64, f64) {
    let mut start = 0.0;
    let mut duration = 1.0;
    let mut end = 1.0;
    for &(index, count) in path {
        let step = duration / count as f64;
        let cell_start = start + step * index as f64;
        end = if index + 1 == count { start + duration } else { cell_start + step };
        start = cell_start;
        duration = step;
    }
    (start, end)
}

fn cell_index<T>(phase: f64, cells: &[Cell<T>]) -> usize {
    let phase = wrap_phase(phase);
    cells
        .iter()
        .position(|cell| {
            let (start, end) = bounds(&cell.path);
            phase >= start && phase < end
        })
        .unwrap_or_else(|| cells.len().saturating_sub(1))
}

struct Clocks {
    previous: [Option<f64>; 2],
    clocks: [ChannelClock; 2],
}

impl Clocks {
    fn new() -> Self {
        Clocks { previous: [None; 2], clocks: [ChannelClock::new(), ChannelClock::new()] }
    }

    fn update(&mut self, phase: &Frame) {
        for channel in 0..2 {
            let p = wrap_phase(phase[channel]);
            let wrapped = self.previous[channel].is_some_and(|prev| prev > p);
            self.clocks[channel].advance(wrapped);
            self.previous[channel] = Some(p);
        }
    }
}

struct Values {
    pattern: Pattern<(usize, usize)>,
    text: Vec<char>,
    valid: bool,
    clocks: Clocks,
}

fn token_value(text: &[char], range: (usize, usize)) -> Option<f64> {
    let token: String = text[range.0..range.1].iter().collect();
    token.parse::<f64>().ok().filter(|v| v.is_finite())
}

impl Values {
    fn new(pattern: &str) -> Self {
        let parsed = parse_values(pattern);
        let text: Vec<char> = pattern.chars().collect();
        let valid = parsed.tokens.iter().all(|&range| token_value(&text, range).is_some());
        Values { pattern: parsed.cells, text, valid, clocks: Clocks::new() }
    }

    fn perform(&mut self, phase: Frame) -> Frame {
        self.clocks.update(&phase);
        let mut frame = [0.0; 2];
        if !self.valid || self.pattern.is_empty() {
            return frame;
        }
        for channel in 0..2 {
            let cells = self.pattern.cells(self.clocks.clocks[channel].cycle_count);
            let range = cells[cell_index(phase[channel], cells)].value;
            frame[channel] = token_value(&self.text, range).unwrap();
        }
        frame
    }
}

struct Gates {
    pattern: Pattern<bool>,
    clocks: Clocks,
}

impl Gates {
    fn new(pattern: &str) -> Self {
        Gates { pattern: parse_gates(pattern), clocks: Clocks::new() }
    }

    fn perform(&mut self, phase: Frame) -> Frame {
        self.clocks.update(&phase);
        let mut frame = [0.0; 2];
        if self.pattern.is_empty() {
            return frame;
        }
        for channel in 0..2 {
            let cells = self.pattern.cells(self.clocks.clocks[channel].cycle_count);
            frame[channel] = if cells[cell_index(phase[channel], cells)].value { 1.0 } else { 0.0 };
        }
        frame
    }
}

struct Trigger {
    pattern: Pattern<bool>,
    previous: [Option<f64>; 2],
    clocks: [ChannelClock; 2],
}

impl Trigger {
    fn new(pattern: &str) -> Self {
        Trigger {
            pattern: parse_gates(pattern),
            previous: [None; 2],
            clocks: [ChannelClock::new(), ChannelClock::new()],
        }
    }

    fn perform(&mut self, phase: Frame) -> Frame {
        let mut frame = [0.0; 2];
        if self.pattern.is_empty() {
            return frame;
        }
        for channel in 0..2 {
            let p = wrap_phase(phase[channel]);
            let wrapped = self.previous[channel].is_some_and(|prev| prev > p);
            self.clocks[channel].advance(wrapped);
            let cells = self.pattern.cells(self.clocks[channel].cycle_count);
            let index = cell_index(p, cells);
            let fires = self.clocks[channel].enter(index, cells[index].value, wrapped);
            frame[channel] = if fires { 1.0 } else { 0.0 };
            self.previous[channel] = Some(p);
        }
        frame
    }
}

#[test]
fn value_pattern_selects_by_wrapped_phase_per_channel() {
    let mut pat = Values::new("60, 64,67,72");
    assert_eq!(pat.perform([0.0, 0.2499]), [60.0, 60.0]);
    assert_eq!(pat.perform([0.25, 0.9999]), [64.0, 72.0]);
    assert_eq!(pat.perform([1.0, -0.25]), [60.0, 72.0]);
    assert_eq!(pat.perform([f64::NAN, f64::INFINITY]), [60.0, 60.0]);
}

#[test]
fn value_pattern_subdivides_bracketed_groups() {
    let mut pat = Values::new("60,[64,67],72,67");
    assert_eq!(pat.perform([0.0, 0.2499]), [60.0, 60.0]);
    assert_eq!(pat.perform([0.25, 0.3749]), [64.0, 64.0]);
    assert_eq!(pat.perform([0.375, 0.4999]), [67.0, 67.0]);
    assert_eq!(pat.perform([0.5, 0.75]), [72.0, 67.0]);
}

#[test]
fn value_pattern_repeats_atoms_and_groups() {
    let mut pat = Values::new("60*2,[64,67]*2");
    assert_eq!(pat.perform([0.0, 0.2499]), [60.0, 60.0]);
    assert_eq!(pat.perform([0.25, 0.4999]), [60.0, 60.0]);
    assert_eq!(pat.perform([0.5, 0.6249]), [64.0, 64.0]);
    assert_eq!(pat.perform([0.625, 0.7499]), [67.0, 67.0]);
    assert_eq!(pat.perform([0.75, 0.8749]), [64.0, 64.0]);
    assert_eq!(pat.perform([0.875, 0.9999]), [67.0, 67.0]);
}

#[test]
fn value_pattern_holds_previous_value_for_underscore() {
    let mut pat = Values::new("60,_,[64,_],_");
    assert_eq!(pat.perform([0.0, 0.2499]), [60.0, 60.0]);
    assert_eq!(pat.perform([0.25, 0.4999]), [60.0, 60.0]);
    assert_eq!(pat.perform([0.5, 0.6249]), [64.0, 64.0]);
    assert_eq!(pat.perform([0.625, 0.7499]), [64.0, 64.0]);
    assert_eq!(pat.perform([0.75, 0.9999]), [64.0, 64.0]);
}

#[test]
fn value_pattern_initial_holds_wrap_to_last_value() {
    let mut pat = Values::new("_,60,64,_");
    assert_eq!(pat.perform([0.0, 0.2499]), [64.0, 64.0]);
    assert_eq!(pat.perform([0.25, 0.4999]), [60.0, 60.0]);
    assert_eq!(pat.perform([0.5, 0.9999]), [64.0, 64.0]);
}

#[test]
fn value_pattern_supports_euclidean_rhythms_as_held_values() {
    let mut pat = Values::new("60(3,8)");
    assert_eq!(pat.perform([0.0, 0.1249]), [60.0, 60.0]);
    assert_eq!(pat.perform([0.125, 0.2499]), [60.0, 60.0]);
    assert_eq!(pat.perform([0.25, 0.3749]), [60.0, 60.0]);
    assert_eq!(pat.perform([0.375, 0.4999]), [60.0, 60.0]);
}

#[test]
fn value_pattern_alternates_each_forward_cycle() {
    let mut pat = Values::new("<60,64;67,72>");
    assert_eq!(pat.perform([0.0, 0.0]), [60.0, 60.0]);
    assert_eq!(pat.perform([0.5, 0.5]), [64.0, 64.0]);
    assert_eq!(pat.perform([0.0, 0.0]), [67.0, 67.0]);
    assert_eq!(pat.perform([0.5, 0.5]), [72.0, 72.0]);
    assert_eq!(pat.perform([0.0, 0.0]), [60.0, 60.0]);
}

#[test]
fn value_pattern_alternates_inside_sequences_and_groups() {
    let mut pat = Values::new("60,<64;67>,[72,<76;79>]");
    assert_eq!(pat.perform([0.0, 0.34]), [60.0, 64.0]);
    assert_eq!(pat.perform([0.67, 0.84]), [72.0, 76.0]);
    assert_eq!(pat.perform([0.0, 0.34]), [60.0, 67.0]);
    assert_eq!(pat.perform([0.67, 0.84]), [72.0, 79.0]);
}

#[test]
fn invalid_value_patterns_output_zero() {
    for pattern in [
        "", "_", "_*4", "60,,64", "abc", "NaN", "inf", "1e309", "60,[64", "60*", "60*0", "60(5,4)",
        "60(3,0)", "<60,64;>",
    ] {
        let mut pat = Values::new(pattern);
        assert_eq!(pat.perform([0.5, 0.5]), [0.0, 0.0]);
    }
}

#[test]
fn gate_pattern_uses_dense_visual_notation() {
    let mut gate = Gates::new("x. X.");
    assert_eq!(gate.perform([0.0, 0.24]), [1.0, 1.0]);
    assert_eq!(gate.perform([0.25, 0.5]), [0.0, 1.0]);
    assert_eq!(gate.perform([0.75, 1.0]), [0.0, 1.0]);
}

#[test]
fn gate_pattern_subdivides_bracketed_groups() {
    let mut gate = Gates::new("x[x.]..");
    assert_eq!(gate.perform([0.0, 0.24]), [1.0, 1.0]);
    assert_eq!(gate.perform([0.25, 0.3749]), [1.0, 1.0]);
    assert_eq!(gate.perform([0.375, 0.5]), [0.0, 0.0]);
}

#[test]
fn gate_pattern_repeats_atoms_and_groups() {
    let mut gate = Gates::new("x*2[x.]*2");
    assert_eq!(gate.perform([0.0, 0.2499]), [1.0, 1.0]);
    assert_eq!(gate.perform([0.25, 0.4999]), [1.0, 1.0]);
    assert_eq!(gate.perform([0.5, 0.6249]), [1.0, 1.0]);
    assert_eq!(gate.perform([0.625, 0.7499]), [0.0, 0.0]);
    assert_eq!(gate.perform([0.75, 0.8749]), [1.0, 1.0]);
    assert_eq!(gate.perform([0.875, 0.9999]), [0.0, 0.0]);
}

#[test]
fn gate_pattern_alternates_each_forward_cycle() {
    let mut gate = Gates::new("<x.;.x>");
    assert_eq!(gate.perform([0.0, 0.0]), [1.0, 1.0]);
    assert_eq!(gate.perform([0.5, 0.5]), [0.0, 0.0]);
    assert_eq!(gate.perform([0.0, 0.0]), [0.0, 0.0]);
    assert_eq!(gate.perform([0.5, 0.5]), [1.0, 1.0]);
    assert_eq!(gate.perform([0.0, 0.0]), [1.0, 1.0]);
}

#[test]
fn gate_pattern_alternates_inside_groups() {
    let mut gate = Gates::new("x[<x.;.x>]x");
    assert_eq!(gate.perform([0.4, 0.55]), [1.0, 0.0]);
    assert_eq!(gate.perform([0.0, 0.0]), [1.0, 1.0]);
    assert_eq!(gate.perform([0.4, 0.55]), [0.0, 1.0]);
}

#[test]
fn gate_pattern_supports_euclidean_rhythms() {
    let mut gate = Gates::new("x(3,8)");
    assert_eq!(gate.perform([0.0, 0.1249]), [1.0, 1.0]);
    assert_eq!(gate.perform([0.125, 0.2499]), [0.0, 0.0]);
    assert_eq!(gate.perform([0.25, 0.3749]), [0.0, 0.0]);
    assert_eq!(gate.perform([0.375, 0.4999]), [1.0, 1.0]);
    assert_eq!(gate.perform([0.5, 0.6249]), [0.0, 0.0]);
    assert_eq!(gate.perform([0.625, 0.7499]), [0.0, 0.0]);
    assert_eq!(gate.perform([0.75, 0.8749]), [1.0, 1.0]);
    assert_eq!(gate.perform([0.875, 0.9999]), [0.0, 0.0]);
}

#[test]
fn gate_pattern_subdivides_and_repeats_euclidean_rhythms() {
    let mut gate = Gates::new("[e(1,2).]*2");
    assert_eq!(gate.perform([0.0, 0.1249]), [1.0, 1.0]);
    assert_eq!(gate.perform([0.125, 0.4999]), [0.0, 0.0]);
    assert_eq!(gate.perform([0.5, 0.6249]), [1.0, 1.0]);
    assert_eq!(gate.perform([0.625, 0.9999]), [0.0, 0.0]);
}

#[test]
fn invalid_gate_patterns_output_zero() {
    for pattern in ["", "x..q", "1..0", "x[.", "x*", "x*0", "e(5,4)", "e(3,0)", "e(3,)"] {
        let mut gate = Gates::new(pattern);
        assert_eq!(gate.perform([0.0, 0.5]), [0.0, 0.0]);
    }
}

#[test]
fn trigger_fires_on_initial_active_cell_entry_cell_changes_and_forward_wrap() {
    let mut trig = Trigger::new("x.");
    assert_eq!(trig.perform([0.0, 0.5]), [1.0, 0.0]);
    assert_eq!(trig.perform([0.1, 0.75]), [0.0, 0.0]);
    assert_eq!(trig.perform([0.5, 0.0]), [0.0, 1.0]);
    assert_eq!(trig.perform([0.0, 0.25]), [1.0, 0.0]);
}

#[test]
fn single_cell_trigger_fires_once_per_forward_cycle() {
    let mut trig = Trigger::new("x");
    assert_eq!(trig.perform([0.0, 0.0]), [1.0, 1.0]);
    assert_eq!(trig.perform([0.5, 0.5]), [0.0, 0.0]);
    assert_eq!(trig.perform([0.0, 0.75]), [1.0, 0.0]);
}

#[test]
fn gate_pattern_period_is_the_lcm_of_alternation_lengths() {
    // Alternatives of two and three: the pattern repeats after six cycles.
    let pattern = parse_gates("<x;.> <x;.;.>");
    assert_eq!(pattern.period(), 6);
    let on_off = |cycle: usize| -> Vec<bool> { pattern.cells(cycle).iter().map(|c| c.value).collect() };
    assert_eq!(on_off(0), vec![true, true]);
    assert_eq!(on_off(1), vec![false, false]);
    assert_eq!(on_off(2), vec![true, false]);
    assert_eq!(on_off(3), vec![false, true]);
    assert_eq!(on_off(6), on_off(0));
    assert_eq!(on_off(7), on_off(1));
}

#[test]
fn gate_cells_carry_their_paths() {
    let pattern = parse_gates("x[.x]");
    let paths: Vec<Vec<(usize, usize)>> = pattern.cells(0).iter().map(|c| c.path.clone()).collect();
    assert_eq!(paths, vec![vec![(0, 2)], vec![(1, 2), (0, 2)], vec![(1, 2), (1, 2)]]);
}

#[test]
fn euclidean_gate_with_out_of_range_arguments_is_an_empty_step() {
    // The rhythm adds no cell, so the single x fills the cycle.
    let pattern = parse_gates("x e(5,4)");
    assert_eq!(pattern.period(), 1);
    assert_eq!(pattern.cells(0).len(), 1);
    assert_eq!(pattern.cells(0)[0].path, vec![(0, 2)]);
}

#[test]
fn value_tokens_include_alternatives_never_played() {
    // The inner alternation only ever takes its first branch, but the
    // second token still has to be a number.
    let parsed = parse_values("<<60;abc>;64>");
    assert_eq!(parsed.tokens, vec![(2, 4), (5, 8), (10, 12)]);
    let mut pat = Values::new("<<60;abc>;64>");
    assert_eq!(pat.perform([0.0, 0.0]), [0.0, 0.0]);
}

#[test]
fn value_holds_take_the_range_of_the_value_before() {
    let parsed = parse_values("_,7 ,_");
    assert_eq!(parsed.cells.period(), 1);
    let values: Vec<(usize, usize)> = parsed.cells.cells(0).iter().map(|c| c.value).collect();
    assert_eq!(values, vec![(2, 3), (2, 3), (2, 3)]);
}

#[test]
fn value_repeat_without_count_is_refused() {
    assert!(parse_values("60*").cells.is_empty());
    assert!(parse_values("60*0").cells.is_empty());
    assert_eq!(parse_values("60 *3").cells.cells(0).len(), 3);
}

/// The exact span of a cell: numerator and denominator of its start.
fn span(path: &[(usize, usize)]) -> (u64, u64) {
    let mut num = 0u64;
    let mut den = 1u64;
    for &(index, count) in path {
        num = num * count as u64 + index as u64;
        den *= count as u64;
    }
    (num, den)
}

#[test]
fn cells_of_each_cycle_tile_the_cycle() {
    for text in ["x . [x x x] <x [. x]>", "x(3,8) [x .]*2", "<x; . .; [x x]>"] {
        let pattern = parse_gates(text);
        assert!(!pattern.is_empty(), "{}", text);
        for cycle in 0..pattern.period() {
            let cells = pattern.cells(cycle);
            let (n0, _) = span(&cells[0].path);
            assert_eq!(n0, 0, "{}", text);
            for pair in cells.windows(2) {
                let (na, da) = span(&pair[0].path);
                let (nb, db) = span(&pair[1].path);
                assert_eq!((na + 1) * db, nb * da, "{}", text);
            }
            let (nl, dl) = span(&cells[cells.len() - 1].path);
            assert_eq!(nl + 1, dl, "{}", text);
        }
    }
}
