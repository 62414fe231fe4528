use alan::dataset::{ascending, check_permutation, shuffled};
use alan::tensor::{Batch, Dataset, Tensor};
use alan::x16;

fn samples(n: i16) -> Vec<Tensor<x16, 1>> {
    (0..n).map(|i| Tensor([x16(i)])).collect()
}

fn labels(n: i16) -> Vec<Tensor<x16, 2>> {
    (0..n).map(|i| Tensor([x16(10 * i), x16(10 * i + 1)])).collect()
}

#[test]
fn construction_fails_when_the_length_is_no_multiple_of_the_batch_size() {
    assert!(Dataset::<2, x16, 1, 2>::new(samples(5), labels(5)).is_none());
}

#[test]
fn construction_fails_when_data_and_labels_differ_in_length() {
    assert!(Dataset::<2, x16, 1, 2>::new(samples(4), labels(5)).is_none());
    assert!(Dataset::<1, x16, 1, 2>::new(samples(4), labels(5)).is_none());
    assert!(Dataset::<1, x16, 1, 2>::new(samples(5), labels(4)).is_none());
}

#[test]
fn construction_fails_for_a_batch_size_of_zero() {
    assert!(Dataset::<0, x16, 1, 2>::new(samples(4), labels(4)).is_none());
    assert!(Dataset::<0, x16, 1, 2>::new(samples(0), labels(0)).is_none());
}

#[test]
fn construction_succeeds_on_whole_batches() {
    assert!(Dataset::<2, x16, 1, 2>::new(samples(4), labels(4)).is_some());
    assert!(Dataset::<4, x16, 1, 2>::new(samples(4), labels(4)).is_some());
    assert!(Dataset::<1, x16, 1, 2>::new(samples(5), labels(5)).is_some());
    let empty = Dataset::<3, x16, 1, 2>::new(samples(0), labels(0));
    assert!(empty.is_some());
    assert!(empty.unwrap().next().is_none());
}

#[test]
fn construction_with_an_order_checks_the_order() {
    assert!(Dataset::<2, x16, 1, 2>::with_order(samples(4), labels(4), vec![3, 1, 0, 2]).is_some());
    assert!(Dataset::<2, x16, 1, 2>::with_order(samples(4), labels(4), vec![3, 1, 0]).is_none());
    assert!(Dataset::<2, x16, 1, 2>::with_order(samples(4), labels(4), vec![3, 1, 0, 4]).is_none());
    assert!(Dataset::<2, x16, 1, 2>::with_order(samples(4), labels(4), vec![3, 1, 0, 1]).is_none());
    assert!(Dataset::<2, x16, 1, 2>::with_order(samples(5), labels(5), vec![0, 1, 2, 3, 4]).is_none());
    assert!(Dataset::<2, x16, 1, 2>::with_order(samples(4), labels(5), vec![0, 1, 2, 3]).is_none());
    assert!(Dataset::<0, x16, 1, 2>::with_order(samples(0), labels(0), vec![]).is_none());
}

#[test]
fn batches_come_in_the_order_given() {
    let mut dataset =
        Dataset::<2, x16, 1, 2>::with_order(samples(6), labels(6), vec![4, 0, 5, 2, 1, 3]).unwrap();
    assert_eq!(dataset.len(), 6);
    assert_eq!(dataset.order(), vec![4, 0, 5, 2, 1, 3]);
    let (data, label) = dataset.next().unwrap();
    assert_eq!(data, Batch([Tensor([x16(4)]), Tensor([x16(0)])]));
    assert_eq!(label, Batch([Tensor([x16(40), x16(41)]), Tensor([x16(0), x16(1)])]));
    let (data, label) = dataset.next().unwrap();
    assert_eq!(data, Batch([Tensor([x16(5)]), Tensor([x16(2)])]));
    assert_eq!(label, Batch([Tensor([x16(50), x16(51)]), Tensor([x16(20), x16(21)])]));
    let (data, label) = dataset.next().unwrap();
    assert_eq!(data, Batch([Tensor([x16(1)]), Tensor([x16(3)])]));
    assert_eq!(label, Batch([Tensor([x16(10), x16(11)]), Tensor([x16(30), x16(31)])]));
    assert!(dataset.next().is_none());
    assert!(dataset.next().is_none());
}

#[test]
fn a_pass_hands_out_every_sample_once_with_its_label() {
    let mut dataset = Dataset::<3, x16, 1, 2>::new(samples(12), labels(12)).unwrap();
    for _ in 0..3 {
        let mut seen = vec![false; 12];
        let mut batches = 0;
        while let Some((data, label)) = dataset.next() {
            batches += 1;
            for e in 0..3 {
                let i = data.get(e, 0).0;
                assert!(!seen[i as usize]);
                seen[i as usize] = true;
                assert_eq!(label.get(e, 0), x16(10 * i));
                assert_eq!(label.get(e, 1), x16(10 * i + 1));
            }
        }
        assert_eq!(batches, 4);
        assert!(seen.iter().all(|s| *s));
        assert!(dataset.next().is_none());
        dataset.refresh();
    }
}

#[test]
fn refresh_starts_a_new_pass() {
    let mut dataset =
        Dataset::<2, x16, 1, 2>::with_order(samples(4), labels(4), vec![0, 1, 2, 3]).unwrap();
    assert!(dataset.next().is_some());
    dataset.refresh();
    let mut order = dataset.order();
    order.sort();
    assert_eq!(order, vec![0, 1, 2, 3]);
    assert!(dataset.next().is_some());
    assert!(dataset.next().is_some());
    assert!(dataset.next().is_none());
}

#[test]
fn ascending_counts_up() {
    assert_eq!(ascending(0), Vec::<usize>::new());
    assert_eq!(ascending(4), vec![0, 1, 2, 3]);
}

#[test]
fn shuffled_is_a_permutation_and_not_the_ascending_order() {
    let order = shuffled(64);
    assert!(check_permutation(&order, 64));
    let mut sorted = order.clone();
    sorted.sort();
    assert_eq!(sorted, ascending(64));
    assert_ne!(order, ascending(64));
    assert_eq!(shuffled(0), Vec::<usize>::new());
    assert_eq!(shuffled(1), vec![0]);
}

#[test]
fn check_permutation_tells_permutations_apart() {
    assert!(check_permutation(&vec![], 0));
    assert!(check_permutation(&vec![0], 1));
    assert!(check_permutation(&vec![2, 0, 1], 3));
    assert!(!check_permutation(&vec![2, 0, 1], 4));
    assert!(!check_permutation(&vec![2, 0, 3], 3));
    assert!(!check_permutation(&vec![2, 0, 2], 3));
    assert!(!check_permutation(&vec![0], 0));
}
