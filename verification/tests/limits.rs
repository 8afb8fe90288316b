//! the limited iterator on sources of the tests' own.

use shear::iter::{Limit, Limited, LimitedIter};

/// characters that each count as one, with `...` as the marker.
struct Units {
    chars: Vec<char>,
    next: usize,
}

impl Units {
    fn of(value: &str) -> Self {
        Self {
            chars: value.chars().collect(),
            next: 0,
        }
    }
}

impl Limited for Units {
    type Item = char;

    fn next_item(&mut self) -> Option<char> {
        let item = self.chars.get(self.next).copied();
        if item.is_some() {
            self.next += 1;
        }
        item
    }

    fn contd() -> Vec<char> {
        vec!['.', '.', '.']
    }

    fn element_size(_: &char) -> usize {
        1
    }
}

/// numbers that weigh what they say, with `[2, 5]` as the marker.
struct Weights {
    items: Vec<usize>,
    next: usize,
}

impl Limited for Weights {
    type Item = usize;

    fn next_item(&mut self) -> Option<usize> {
        let item = self.items.get(self.next).copied();
        if item.is_some() {
            self.next += 1;
        }
        item
    }

    fn contd() -> Vec<usize> {
        vec![2, 5]
    }

    fn element_size(item: &usize) -> usize {
        *item
    }
}

/// numbers that weigh what they say, with `[5, 1]` as the marker.
struct HeavyFirst {
    items: Vec<usize>,
    next: usize,
}

impl Limited for HeavyFirst {
    type Item = usize;

    fn next_item(&mut self) -> Option<usize> {
        let item = self.items.get(self.next).copied();
        if item.is_some() {
            self.next += 1;
        }
        item
    }

    fn contd() -> Vec<usize> {
        vec![5, 1]
    }

    fn element_size(item: &usize) -> usize {
        *item
    }
}

fn units(value: &str, budget: usize) -> String {
    Units::of(value).limited(budget).collect().into_iter().collect()
}

fn weights(items: &[usize], budget: usize) -> Vec<usize> {
    Weights {
        items: items.to_vec(),
        next: 0,
    }
    .limited(budget)
    .collect()
}

fn heavy_first(items: &[usize], budget: usize) -> Vec<usize> {
    HeavyFirst {
        items: items.to_vec(),
        next: 0,
    }
    .limited(budget)
    .collect()
}

const VALUES: [&str; 7] = ["", "1", "12", "123", "1234", "123456", "a much longer value"];

#[test]
fn a_budget_of_zero_yields_nothing() {
    for value in VALUES {
        assert_eq!(units(value, 0), "");
    }
    assert_eq!(weights(&[0, 0], 0), Vec::<usize>::new());
}

#[test]
fn an_empty_source_yields_nothing_whatever_the_budget() {
    for budget in 0..8 {
        assert_eq!(units("", budget), "");
    }
}

#[test]
fn a_value_that_fits_a_budget_above_the_marker_is_unchanged() {
    for value in VALUES {
        let count = value.chars().count();
        for budget in count.max(4)..count + 5 {
            assert_eq!(units(value, budget), value);
        }
    }
}

#[test]
fn the_output_never_takes_more_than_the_budget() {
    for value in VALUES {
        for budget in 0..24 {
            assert!(units(value, budget).chars().count() <= budget);
        }
    }
    for budget in 0..24 {
        let total: usize = weights(&[3, 0, 4, 5, 1], budget).iter().sum();
        assert!(total <= budget);
    }
}

#[test]
fn limiting_twice_is_limiting_once() {
    for value in VALUES {
        for budget in 0..24 {
            let once = units(value, budget);
            assert_eq!(units(&once, budget), once);
        }
    }
}

#[test]
fn a_budget_no_larger_than_the_marker_yields_what_fits_of_the_marker() {
    for value in ["1", "12", "123456"] {
        assert_eq!(units(value, 1), ".");
        assert_eq!(units(value, 2), "..");
        assert_eq!(units(value, 3), "...");
    }
}

#[test]
fn the_marker_is_cut_by_weight() {
    // the marker weighs 7: of `[2, 5]` only `2` fits into 3, 4, 5 and 6.
    for budget in 3..7 {
        assert_eq!(weights(&[1], budget), vec![2]);
    }
    assert_eq!(weights(&[1], 7), vec![2, 5]);
    assert_eq!(weights(&[1], 1), Vec::<usize>::new());
    // where the first item of the marker is too heavy, nothing is left of it.
    assert_eq!(heavy_first(&[1], 3), Vec::<usize>::new());
    assert_eq!(heavy_first(&[1], 5), vec![5]);
    assert_eq!(heavy_first(&[1], 6), vec![5, 1]);
}

#[test]
fn the_rest_is_kept_where_it_fits_without_the_marker() {
    // one place is left for `2` when it comes, and `234` fits the three more of the marker.
    assert_eq!(units("1234", 4), "1234");
    assert_eq!(units("12345", 4), "1...");
    assert_eq!(weights(&[3, 4, 5], 12), vec![3, 4, 5]);
    assert_eq!(weights(&[3, 4, 5], 19), vec![3, 4, 5]);
}

#[test]
fn what_does_not_fit_is_replaced_by_the_marker() {
    // 11 - 7 = 4 is left for the items: `3` fits, `4` does not, and 12 > 11.
    assert_eq!(weights(&[3, 4, 5], 11), vec![3, 2, 5]);
    // items without weight are kept as long as the source is read.
    assert_eq!(weights(&[0, 3, 0, 4, 5], 11), vec![0, 3, 0, 2, 5]);
    assert_eq!(weights(&[9, 9], 8), vec![2, 5]);
}

#[test]
fn an_iterator_that_yields_everything_is_finished_after_the_last_none() {
    let mut iter = LimitedIter::new(Units::of("123456"), 6);
    for expected in "123456".chars() {
        assert!(!iter.is_finished());
        assert_eq!(iter.next(), Some(expected));
        assert!(!iter.is_finished(), "iterator should not be finished");
    }
    assert_eq!(iter.next(), None);
    assert!(iter.is_finished(), "iterator should be finished");
    assert_eq!(iter.next(), None);
    assert!(iter.is_finished(), "iterator should stay finished");
}

#[test]
fn an_iterator_that_truncates_is_finished_after_the_last_none() {
    let mut iter = Units::of("123456").limited(5);
    for expected in "12...".chars() {
        assert_eq!(iter.next(), Some(expected));
        assert!(!iter.is_finished());
    }
    assert_eq!(iter.next(), None);
    assert!(iter.is_finished());
}

#[test]
fn an_iterator_is_finished_at_once_for_no_budget_or_no_source() {
    assert!(Units::of("123456").limited(0).is_finished());
    assert!(Units::of("").limited(5).is_finished());
    assert!(Units::of("").limited(2).is_finished());
    assert!(!Units::of("1").limited(1).is_finished());
}

#[test]
fn an_empty_marker_leaves_an_unfinished_iterator_that_yields_nothing() {
    let mut iter = HeavyFirst {
        items: vec![1],
        next: 0,
    }
    .limited(3);
    assert!(!iter.is_finished());
    assert_eq!(iter.next(), None);
    assert!(iter.is_finished());
}
