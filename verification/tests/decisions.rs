use resolver_hook::heap::{find_heap, select_heap};
use resolver_hook::matrix::{fill_matrix, fill_vector, flatten_rows, DenseParams};
use resolver_hook::resolver::{lby_updated, rotation_sign_positive, TrainingGate};

#[test]
fn find_heap_takes_first_match() {
    let heaps = [0usize, 0x30_0000, 0x40_0000];
    assert_eq!(find_heap(&heaps, |h| h != 0), Some(0x30_0000));
    assert_eq!(find_heap(&heaps, |h| h > 0x35_0000), Some(0x40_0000));
    assert_eq!(find_heap(&heaps, |h| h == 7), None);
    assert_eq!(find_heap(&[], |_| true), None);
}

#[test]
fn select_heap_keeps_choice() {
    assert_eq!(select_heap(0, &[0, 0, 0x50_0000, 0x60_0000]), 0x50_0000);
    assert_eq!(select_heap(0x50_0000, &[0x70_0000]), 0x50_0000);
    assert_eq!(select_heap(0, &[0, 0]), 0);
    assert_eq!(select_heap(0, &[]), 0);
    let first = select_heap(0, &[0x20_0000]);
    assert_eq!(select_heap(first, &[0x90_0000]), first);
}

#[test]
fn lby_update_table() {
    assert!(lby_updated(true, false, true));
    assert!(!lby_updated(true, false, false));
    assert!(lby_updated(false, true, false));
    assert!(lby_updated(true, true, false));
    assert!(!lby_updated(false, false, true));
}

#[test]
fn rotation_signs() {
    let signs: Vec<bool> = (0..6).map(rotation_sign_positive).collect();
    assert_eq!(signs, vec![true, true, false, true, false, true]);
}

#[test]
fn training_every_fourth_off_target_tick() {
    let mut gate = TrainingGate::new();
    assert_eq!(gate.skip_count(), 0);
    let trained: Vec<bool> = (0..8).map(|_| gate.observe(true, true, false)).collect();
    assert_eq!(trained, vec![false, false, true, false, false, false, true, false]);
    assert_eq!(gate.skip_count(), 0);
    assert!(!gate.observe(false, true, true));
    assert_eq!(gate.skip_count(), 0);
    assert!(gate.observe(true, false, true));
    assert_eq!(gate.skip_count(), 1);
    assert!(!gate.observe(true, false, false));
    assert!(!gate.observe(true, false, false));
    assert_eq!(gate.skip_count(), 3);
}

#[test]
fn flatten_and_fill() {
    let m = vec![vec![1, 2, 3], vec![4, 5, 6]];
    let flat = flatten_rows(&m);
    assert_eq!(flat, vec![1, 2, 3, 4, 5, 6]);
    assert_eq!(fill_matrix(&flat, 2, 3, 0), m);
    assert_eq!(fill_matrix(&vec![7, 8, 9, 10], 2, 3, 0), vec![vec![7, 8, 9], vec![10, 0, 0]]);
    assert_eq!(fill_vector(&vec![1.5f32], 3, 0.0), vec![1.5, 0.0, 0.0]);
}

#[test]
fn dense_params_roundtrip() {
    let p = DenseParams {
        weights: vec![vec![0.5f32, -1.0], vec![2.0, 0.25], vec![1.0, 1.0]],
        biases: vec![0.1, 0.2, 0.3],
        weight_grads: vec![vec![0.0, 1.0], vec![2.0, 3.0], vec![4.0, 5.0]],
        bias_grads: vec![9.0, 8.0, 7.0],
    };
    let raw = p.to_raw_data();
    assert_eq!(raw.0, vec![0.5, -1.0, 2.0, 0.25, 1.0, 1.0]);
    let q = DenseParams::from_raw_data(raw, 2, 3, 0.0);
    assert_eq!(q.weights, p.weights);
    assert_eq!(q.biases, p.biases);
    assert_eq!(q.weight_grads, p.weight_grads);
    assert_eq!(q.bias_grads, p.bias_grads);
}
