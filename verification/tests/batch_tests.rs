//! Tests of the batch engine: construction, navigation, merging,
//! draining, and the group algebra.

use zset_store::{FileZSet, FileZSetBuilder};

/// Drain a cursor into the ordered (key, weight) run it walks.
fn drain_cursor(z: &FileZSet) -> Vec<(i64, i64)> {
    let mut out = Vec::new();
    let mut c = z.cursor();
    while c.key_valid() {
        if c.val_valid() {
            let k = c.key();
            let w = c.weight();
            out.push((k, w));
            c.step_val();
        }
        c.step_key();
    }
    out
}

fn batch_of(tuples: Vec<(i64, i64)>) -> FileZSet {
    FileZSet::from_tuples(tuples)
}

#[test]
fn builder_round_trip() {
    let mut b = FileZSetBuilder::new_builder();
    b.reserve(3);
    b.push((1, 2));
    b.push((3, -1));
    b.push((7, 5));
    let z = b.done();
    assert_eq!(drain_cursor(&z), vec![(1, 2), (3, -1), (7, 5)]);
}

#[test]
fn from_tuples_consolidates() {
    let z = batch_of(vec![(3, 1), (1, 2), (3, 2), (2, 0), (1, -2)]);
    assert_eq!(drain_cursor(&z), vec![(3, 3)]);
    assert_eq!(z.len(), 1);
    assert!(!z.is_empty());
}

#[test]
fn canonical_form_holds() {
    let z = batch_of(vec![(5, 1), (-2, 3), (5, -4), (9, 2), (0, 7)]);
    let run = drain_cursor(&z);
    for i in 0..run.len() {
        assert_ne!(run[i].1, 0);
        if i + 1 < run.len() {
            assert!(run[i].0 < run[i + 1].0);
        }
    }
    assert_eq!(run, vec![(-2, 3), (0, 7), (5, -3), (9, 2)]);
}

#[test]
fn add_cancels_key() {
    // A = {(1,+2), (3,+1)}, B = {(1,-2), (2,+5)}: key 1 cancels and is
    // elided.
    let a = batch_of(vec![(1, 2), (3, 1)]);
    let b = batch_of(vec![(1, -2), (2, 5)]);
    let sum = a.add_by_ref(&b);
    assert_eq!(drain_cursor(&sum), vec![(2, 5), (3, 1)]);
}

#[test]
fn add_is_commutative() {
    let a = batch_of(vec![(1, 2), (3, 1), (8, -4)]);
    let b = batch_of(vec![(1, -1), (2, 5), (8, 4)]);
    let ab = a.add_by_ref(&b);
    let ba = b.add_by_ref(&a);
    assert_eq!(ab, ba);
}

#[test]
fn add_neg_is_empty() {
    let a = batch_of(vec![(1, 2), (3, 1), (8, -4)]);
    let n = a.neg_by_ref();
    let sum = a.add_by_ref(&n);
    assert!(sum.is_empty());
    assert_eq!(sum, FileZSet::empty());
}

#[test]
fn add_assign_variants_agree() {
    let a = batch_of(vec![(1, 2), (3, 1)]);
    let b = batch_of(vec![(3, 4), (4, -1)]);
    let plain = a.add_by_ref(&b);
    let mut via_assign = batch_of(vec![(1, 2), (3, 1)]);
    via_assign.add_assign_by_ref(&b);
    assert_eq!(plain, via_assign);
    let mut via_move = batch_of(vec![(1, 2), (3, 1)]);
    via_move.add_assign(b);
    assert_eq!(plain, via_move);
    let a2 = batch_of(vec![(1, 2), (3, 1)]);
    let b2 = batch_of(vec![(3, 4), (4, -1)]);
    assert_eq!(plain, a2.add(b2));
}

#[test]
fn merge_with_unit_fuel_matches_unbounded() {
    let a = batch_of(vec![(1, 2), (3, 1), (5, -2), (9, 4)]);
    let b = batch_of(vec![(2, 1), (3, -1), (5, 2), (10, 6)]);

    // Unbounded in one call.
    let mut m1 = a.begin_merge(&b);
    let mut fuel: i64 = i64::MAX;
    m1.work(&a, &b, &mut fuel);
    assert!(m1.is_complete(&a, &b));
    let big = m1.done();

    // Unit fuel, many calls; the anti-starvation floor still does one
    // step per call even under a zero budget.
    let mut m2 = a.begin_merge(&b);
    let mut calls = 0;
    while !m2.is_complete(&a, &b) {
        let mut unit: i64 = if calls % 2 == 0 { 1 } else { 0 };
        m2.work(&a, &b, &mut unit);
        calls += 1;
    }
    let small = m2.done();

    assert_eq!(big, small);
    assert!(calls > 1);
    assert_eq!(drain_cursor(&big), vec![(1, 2), (2, 1), (9, 4), (10, 6)]);
}

#[test]
fn merge_with_key_filter_drops_entries() {
    let a = batch_of(vec![(1, 2), (3, 1), (5, -2)]);
    let b = batch_of(vec![(2, 1), (5, 2)]);
    let mut m = a.begin_merge(&b);
    let keep = |k: &i64| -> bool { *k != 2 && *k != 3 };
    while !m.is_complete(&a, &b) {
        let mut fuel: i64 = 1;
        m.work_with_filter(&a, &b, &keep, &mut fuel);
    }
    let z = m.done();
    assert_eq!(drain_cursor(&z), vec![(1, 2)]);
}

#[test]
fn retain_keeps_matching_entries() {
    let mut z = batch_of(vec![(1, 2), (2, -3), (3, 4), (4, -5), (5, 6)]);
    z.retain(|k: &i64, w: &i64| *k % 2 == 1 && *w > 0);
    assert_eq!(drain_cursor(&z), vec![(1, 2), (3, 4), (5, 6)]);
}

#[test]
fn truncate_drops_keys_below_bound() {
    let mut z = batch_of(vec![(1, 1), (2, 1), (3, 1), (4, 1)]);
    z.truncate_keys_below(&3);
    assert_eq!(drain_cursor(&z), vec![(3, 1), (4, 1)]);
}

#[test]
fn consumer_matches_cursor() {
    let z = batch_of(vec![(1, 2), (3, -1), (7, 5)]);
    let by_cursor = drain_cursor(&z);
    let mut by_consumer = Vec::new();
    let mut c = z.consumer();
    while c.key_valid() {
        let peek = c.peek_key();
        let (k, mut values) = c.next_key();
        assert_eq!(peek, k);
        assert!(values.value_valid());
        assert_eq!(values.remaining_values(), 1);
        let (_, w, _) = values.next_value();
        assert!(!values.value_valid());
        assert_eq!(values.remaining_values(), 0);
        by_consumer.push((k, w));
    }
    assert_eq!(by_cursor, by_consumer);
}

#[test]
fn consumer_seek_key_skips_forward() {
    let z = batch_of(vec![(1, 2), (3, -1), (7, 5)]);
    let mut c = z.consumer();
    c.seek_key(&2);
    assert_eq!(c.peek_key(), 3);
    c.seek_key(&8);
    assert!(!c.key_valid());
}

#[test]
fn cursor_navigation() {
    let z = batch_of(vec![(1, 2), (3, -1), (7, 5)]);
    let mut c = z.cursor();
    assert!(c.key_valid());
    assert_eq!(c.key(), 1);
    c.seek_key(&3);
    assert_eq!(c.key(), 3);
    assert_eq!(c.weight(), -1);
    c.seek_key(&4);
    assert_eq!(c.key(), 7);
    c.step_key();
    assert!(!c.key_valid());
    c.rewind_keys();
    assert_eq!(c.key(), 1);
    c.fast_forward_keys();
    assert_eq!(c.key(), 7);
    c.step_key_reverse();
    assert_eq!(c.key(), 3);
    c.seek_key_reverse(&2);
    assert_eq!(c.key(), 1);
    c.step_key_reverse();
    assert!(!c.key_valid());
}

#[test]
fn cursor_predicate_seek() {
    let z = batch_of(vec![(1, 2), (3, -1), (7, 5)]);
    let mut c = z.cursor();
    c.seek_key_with(|k: &i64| *k >= 5);
    assert_eq!(c.key(), 7);
    c.seek_key_with_reverse(|k: &i64| *k <= 2);
    assert_eq!(c.key(), 1);
}

#[test]
fn cursor_value_dimension() {
    let z = batch_of(vec![(1, 2)]);
    let mut c = z.cursor();
    assert!(c.val_valid());
    assert_eq!(*c.val(), ());
    c.step_val();
    assert!(!c.val_valid());
    c.rewind_vals();
    assert!(c.val_valid());
    c.step_val_reverse();
    assert!(!c.val_valid());
    c.fast_forward_vals();
    assert!(c.val_valid());
    c.seek_val(&());
    assert!(c.val_valid());
    c.seek_val_with(|_: &()| false);
    assert!(!c.val_valid());
}

#[test]
fn fold_times_applies_once_per_key() {
    let z = batch_of(vec![(1, 2), (3, -1)]);
    let mut c = z.cursor();
    let total = c.fold_times(10i64, |acc: i64, _: &(), w: &i64| acc + *w);
    assert_eq!(total, 12);
    let through = c.fold_times_through(&(), 0i64, |acc: i64, _: &(), w: &i64| acc + *w);
    assert_eq!(through, 2);
    c.step_key();
    c.step_key();
    assert!(!c.key_valid());
    assert_eq!(c.fold_times(7i64, |acc: i64, _: &(), w: &i64| acc + *w), 7);
}

#[test]
fn batch_metadata() {
    let z = batch_of(vec![(1, 2), (3, -1)]);
    assert_eq!(z.key_count(), 2);
    assert_eq!(z.num_entries_shallow(), 2);
    assert_eq!(z.num_entries_deep(), 2);
    assert_eq!(z.lower().len(), 1);
    assert_eq!(z.upper().len(), 0);
    assert_eq!(FileZSet::item_from(9, ()), 9);
    let mut m = batch_of(vec![(1, 2)]);
    m.recede_to(&());
    assert_eq!(m, batch_of(vec![(1, 2)]));
    assert_eq!(FileZSet::from_keys(vec![(2, 1), (1, 1)]), batch_of(vec![(1, 1), (2, 1)]));
}

#[test]
fn empty_batches() {
    let e = FileZSet::empty();
    assert!(e.is_empty());
    assert_eq!(e.len(), 0);
    assert!(!e.cursor().key_valid());
    assert_eq!(e.clone().add(FileZSet::empty()), FileZSet::empty());
    let mut t = FileZSet::empty();
    t.truncate_keys_below(&0);
    assert!(t.is_empty());
    let mut r = FileZSet::empty();
    r.retain(|_: &i64, _: &i64| true);
    assert!(r.is_empty());
    assert_eq!(FileZSet::from_tuples(Vec::new()), FileZSet::empty());
}

#[test]
fn extreme_weights_cancel() {
    let a = batch_of(vec![(1, i64::MAX)]);
    let b = batch_of(vec![(1, i64::MIN + 1)]);
    assert_eq!(a.add_by_ref(&b), FileZSet::empty());
    let c = batch_of(vec![(1, i64::MAX), (2, i64::MIN + 1)]);
    assert_eq!(c.neg_by_ref(), batch_of(vec![(1, -i64::MAX), (2, i64::MAX)]));
}

#[test]
fn sample_keys_returns_present_keys() {
    let z = batch_of(vec![(1, 1), (2, 1), (3, 1), (4, 1), (5, 1)]);
    let mut rng = zset_store::sampling::new_thread_rng();
    let mut sample = Vec::new();
    z.sample_keys(&mut rng, 10, &mut sample);
    assert_eq!(sample, vec![1, 2, 3, 4, 5]);
    z.sample_keys(&mut rng, 3, &mut sample);
    assert_eq!(sample.len(), 3);
    for k in sample {
        assert!((1..=5).contains(&k));
    }
}

#[test]
fn display_renders_indented_layer() {
    let z = batch_of(vec![(1, 2), (3, -1)]);
    let s = z.display();
    assert_eq!(s, "layer:\n    1 -> 2\n    3 -> -1\n");
}

#[test]
fn mock_output_consumer_collects_buffers() {
    let mut c = zset_store::MockOutputConsumer::new();
    assert_eq!(c.max_buffer_size_bytes(), usize::MAX);
    c.batch_start(0);
    c.push_buffer(&[1, 2, 3]);
    c.push_buffer(&[4]);
    c.batch_end();
    assert_eq!(c.data, vec![1, 2, 3, 4]);
    let small = zset_store::MockOutputConsumer::with_max_buffer_size_bytes(16);
    assert_eq!(small.max_buffer_size_bytes(), 16);
    assert!(small.data.is_empty());
}
