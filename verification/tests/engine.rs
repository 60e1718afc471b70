use eca::automaton::{Automaton, BLACK, WHITE};

fn mk_row(bits: &[u8]) -> Vec<bool> {
    bits.iter().map(|&b| b != 0).collect()
}

#[test]
fn eval_deterministic_repeated_calls() {
    let a = Automaton::with_seed(30, 1, mk_row(&[0, 0, 0, 0, 0]));
    for &l in &[false, true] {
        for &c in &[false, true] {
            for &r in &[false, true] {
                let first = a.eval(l, c, r);
                for _ in 0..3 {
                    assert_eq!(a.eval(l, c, r), first);
                }
            }
        }
    }
}

#[test]
fn eval_rule30_table() {
    let a = Automaton::with_seed(30, 1, mk_row(&[0, 0, 0, 0, 0]));
    assert!(!a.eval(false, false, false));
    assert!(a.eval(false, false, true));
    assert!(a.eval(false, true, false));
    assert!(a.eval(false, true, true));
    assert!(a.eval(true, false, false));
    assert!(!a.eval(true, false, true));
    assert!(!a.eval(true, true, false));
    assert!(!a.eval(true, true, true));
}

#[test]
fn eval_bit_layout_single_bit_rules() {
    for i in 0..8u8 {
        let a = Automaton::with_seed(1u8 << i, 1, mk_row(&[0, 0, 0]));
        for idx in 0..8u8 {
            let l = idx & 4 != 0;
            let c = idx & 2 != 0;
            let r = idx & 1 != 0;
            assert_eq!(a.eval(l, c, r), idx == i);
        }
    }
}

#[test]
fn history_length_and_cell_count_invariant() {
    let mut a = Automaton::with_seed(110, 12, mk_row(&[0, 1, 0, 1, 1, 0, 1]));
    for _ in 0..50 {
        a.step();
        assert_eq!(a.states.len(), 12);
        let total: usize = a.states.iter().map(|r| r.len()).sum();
        assert_eq!(total, 7 * 12);
    }
}

#[test]
fn age_starts_zero_and_increments() {
    let mut a = Automaton::with_seed(110, 4, mk_row(&[1, 0, 0]));
    assert_eq!(a.age(), 0);
    for k in 1..=10 {
        a.step();
        assert_eq!(a.age(), k);
    }
}

#[test]
fn rule30_triangle_golden() {
    let mut a = Automaton::with_seed(30, 4, mk_row(&[0, 0, 0, 1, 0, 0, 0]));
    a.step();
    a.step();
    a.step();
    assert_eq!(a.states[0], mk_row(&[0, 0, 0, 1, 0, 0, 0]));
    assert_eq!(a.states[1], mk_row(&[0, 0, 1, 1, 1, 0, 0]));
    assert_eq!(a.states[2], mk_row(&[0, 1, 1, 0, 0, 1, 0]));
    assert_eq!(a.states[3], mk_row(&[1, 1, 0, 1, 1, 1, 1]));
}

#[test]
fn step_scrolls_history() {
    let mut a = Automaton::with_seed(30, 5, mk_row(&[1, 1, 0, 1]));
    let before = a.states.clone();
    a.step();
    for i in 0..4 {
        assert_eq!(a.states[i], before[i + 1]);
    }
}

#[test]
fn uniform_all_true() {
    let a = Automaton::with_seed(30, 2, mk_row(&[1, 1, 1, 1]));
    assert!(a.uniform());
}

#[test]
fn uniform_all_false() {
    let a = Automaton::with_seed(30, 2, mk_row(&[0, 0, 0, 0]));
    assert!(a.uniform());
}

#[test]
fn uniform_mixed_row() {
    let a = Automaton::with_seed(30, 2, mk_row(&[1, 0, 1, 0]));
    assert!(!a.uniform());
}

#[test]
fn periodic_detects_each_period() {
    for p in 1..=9usize {
        let mut states: Vec<Vec<bool>> = Vec::new();
        for k in 0..20 {
            let mut r = vec![false; 12];
            r[k % p] = true;
            states.push(r);
        }
        let a = Automaton { rule: 0, states, age: 0 };
        assert!(a.periodic(), "period {} not detected", p);
    }
}

#[test]
fn periodic_false_without_repetition() {
    let mut states: Vec<Vec<bool>> = Vec::new();
    for k in 0..20 {
        let mut r = vec![false; 20];
        r[k] = true;
        states.push(r);
    }
    let a = Automaton { rule: 0, states, age: 0 };
    assert!(!a.periodic());
}

#[test]
fn render_size_and_two_colors() {
    let mut a = Automaton::with_seed(30, 20, mk_row(&[0, 0, 1, 0, 0]));
    a.step();
    a.step();
    let buf = a.render();
    assert_eq!(buf.len(), 5 * 20);
    assert!(buf.iter().all(|&px| px == BLACK || px == WHITE));
}

#[test]
fn render_exact_pixels() {
    let a = Automaton::with_seed(7, 2, mk_row(&[1, 0, 1]));
    let buf = a.render();
    assert_eq!(buf, vec![BLACK, BLACK, BLACK, WHITE, BLACK, WHITE]);
}

#[test]
fn new_random_seed_dimensions() {
    let a = Automaton::new(30, 6, 9);
    assert_eq!(a.age(), 0);
    assert_eq!(a.states.len(), 9);
    for r in &a.states {
        assert_eq!(r.len(), 6);
    }
    for r in &a.states[..8] {
        assert!(r.iter().all(|&b| !b));
    }
}
