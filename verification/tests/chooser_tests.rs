use wallrnd::chooser::{Chooser, ChooserError};

#[test]
fn empty_chooser_has_nothing_to_draw() {
    let c: Chooser<u8> = Chooser::default();
    let mut rng = rand::thread_rng();
    assert!(c.is_empty());
    assert_eq!(c.choose_one(&mut rng), None);
    assert!(c.choose_ref(&mut rng).is_none());
    assert_eq!(c.extract(), vec![]);
}

#[test]
fn new_of_nothing_is_the_empty_chooser() {
    let c: Chooser<char> = Chooser::new(vec![]);
    assert_eq!(c.len(), 0);
    let mut rng = rand::thread_rng();
    assert_eq!(c.choose_one(&mut rng), None);
}

#[test]
fn dichotomy_finds_the_first_sum_above_the_draw() {
    let c = Chooser::new(vec![('a', 2), ('b', 1), ('c', 3)]);
    let expected = [0, 0, 1, 2, 2, 2];
    for (u, want) in expected.iter().enumerate() {
        assert_eq!(c.dichotomy(u), *want);
    }
    assert_eq!(*c.pick(0), 'a');
    assert_eq!(*c.pick(1), 'a');
    assert_eq!(*c.pick(2), 'b');
    assert_eq!(*c.pick(3), 'c');
    assert_eq!(*c.pick(5), 'c');
}

#[test]
fn single_item_is_always_picked() {
    let c = Chooser::new(vec![("only", 7)]);
    for u in 0..7 {
        assert_eq!(*c.pick(u), "only");
    }
    let mut rng = rand::thread_rng();
    for _ in 0..20 {
        assert_eq!(c.choose_one(&mut rng), Some("only"));
    }
}

#[test]
fn each_item_gets_as_many_draws_as_its_weight() {
    let weights = [5usize, 1, 9, 2, 2, 30, 1];
    let items: Vec<(usize, usize)> = weights.iter().cloned().enumerate().collect();
    let c = Chooser::new(items);
    let total: usize = weights.iter().sum();
    let mut counts = vec![0usize; weights.len()];
    for u in 0..total {
        counts[*c.pick(u)] += 1;
    }
    assert_eq!(counts, weights.to_vec());
}

#[test]
fn pick_gives_the_same_items_for_the_same_draws() {
    let c = Chooser::new(vec![("x", 3), ("y", 4), ("z", 5)]);
    let draws = [11usize, 0, 3, 7, 2, 6, 10, 4];
    let first: Vec<&str> = draws.iter().map(|u| *c.pick(*u)).collect();
    let second: Vec<&str> = draws.iter().map(|u| *c.pick(*u)).collect();
    assert_eq!(first, second);
    assert_eq!(first, vec!["z", "x", "y", "z", "x", "y", "z", "y"]);
}

#[test]
fn frequencies_follow_the_weights() {
    let c = Chooser::new(vec![(0usize, 1), (1, 2), (2, 7)]);
    let mut rng = rand::thread_rng();
    let n = 40_000;
    let mut counts = [0usize; 3];
    for _ in 0..n {
        counts[c.choose_one(&mut rng).unwrap()] += 1;
    }
    let share = |k: usize| counts[k] as f64 / n as f64;
    assert!((share(0) - 0.1).abs() < 0.02);
    assert!((share(1) - 0.2).abs() < 0.02);
    assert!((share(2) - 0.7).abs() < 0.02);
}

#[test]
fn extract_gives_back_the_weights() {
    let items = vec![("a", 4), ("b", 1), ("c", 10)];
    let c = Chooser::new(items.clone());
    assert_eq!(c.extract(), items);
    assert_eq!(c.len(), 3);
}

#[test]
fn push_refuses_a_weight_of_zero() {
    let mut c: Chooser<u8> = Chooser::default();
    assert_eq!(c.push(1, 0), Err(ChooserError::ZeroWeight));
    assert!(c.is_empty());
    assert_eq!(c.push(1, 3), Ok(()));
    assert_eq!(c.push(2, 4), Ok(()));
    assert_eq!(c.extract(), vec![(1, 3), (2, 4)]);
    assert_eq!(*c.pick(3), 2);
}

#[test]
fn push_refuses_a_total_that_does_not_fit() {
    let mut c: Chooser<u8> = Chooser::default();
    assert_eq!(c.push(1, usize::MAX), Ok(()));
    assert_eq!(c.push(2, 1), Err(ChooserError::Overflow));
    assert_eq!(c.extract(), vec![(1, usize::MAX)]);
}

#[test]
fn append_stops_at_the_first_item_that_is_refused() {
    let mut c = Chooser::new(vec![('a', 1)]);
    assert_eq!(c.append(vec![('b', 2), ('c', 3)]), Ok(()));
    assert_eq!(c.extract(), vec![('a', 1), ('b', 2), ('c', 3)]);
    assert_eq!(c.append(vec![('d', 4), ('e', 0), ('f', 6)]), Err(ChooserError::ZeroWeight));
    assert_eq!(c.extract(), vec![('a', 1), ('b', 2), ('c', 3), ('d', 4)]);
}
