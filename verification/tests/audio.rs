use kintaro::audio::{sort_vecs, sum_all_waveforms, sum_vec, waveforms_mix_in_range};

#[test]
fn sum_vec_adds_sample_by_sample() {
    let mut a = vec![1, 2, 3, 4];
    sum_vec(&mut a, &[10, 20]);
    assert_eq!(a, vec![11, 22, 3, 4]);
    let mut b = vec![1, 2];
    sum_vec(&mut b, &[5, 6, 7]);
    assert_eq!(b, vec![6, 8]);
}

#[test]
fn sort_vecs_puts_the_longest_first() {
    let mut v = vec![vec![1], vec![1, 2, 3], vec![], vec![4, 5]];
    sort_vecs(&mut v);
    assert_eq!(v, vec![vec![1, 2, 3], vec![4, 5], vec![1], vec![]]);
}

#[test]
fn sort_vecs_keeps_every_waveform() {
    let mut v = vec![vec![9, 9], vec![1, 2], vec![3]];
    sort_vecs(&mut v);
    assert_eq!(v.len(), 3);
    assert!(v[0].len() == 2 && v[1].len() == 2 && v[2] == vec![3]);
    assert!(v.contains(&vec![9, 9]) && v.contains(&vec![1, 2]));
}

#[test]
fn sum_all_waveforms_mixes_pointwise() {
    let mixed = sum_all_waveforms(vec![vec![1, 1], vec![10, 20, 30], vec![100]]);
    assert_eq!(mixed, vec![111, 21, 30]);
}

#[test]
fn sum_all_waveforms_of_one_waveform_is_that_waveform() {
    assert_eq!(sum_all_waveforms(vec![vec![7, 8, 9]]), vec![7, 8, 9]);
    assert_eq!(sum_all_waveforms(vec![vec![]]), Vec::<u8>::new());
}

#[test]
fn sum_all_waveforms_does_not_depend_on_order() {
    let a = sum_all_waveforms(vec![vec![1, 2], vec![3], vec![4, 5, 6]]);
    let b = sum_all_waveforms(vec![vec![4, 5, 6], vec![1, 2], vec![3]]);
    assert_eq!(a, b);
    assert_eq!(a, vec![8, 7, 6]);
}

#[test]
fn waveforms_mix_in_range_finds_an_overflowing_sample() {
    assert!(waveforms_mix_in_range(&vec![vec![100, 200], vec![155, 55, 255]]));
    assert!(!waveforms_mix_in_range(&vec![vec![100, 201], vec![155, 55]]));
    assert!(!waveforms_mix_in_range(&vec![vec![1, 1, 1], vec![1, 1, 255]]));
    assert!(waveforms_mix_in_range(&vec![]));
    assert!(waveforms_mix_in_range(&vec![vec![], vec![255]]));
}
