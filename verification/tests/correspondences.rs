use registration_opencl::correspondence::valid_correspondences;

#[test]
fn keeps_found_and_in_range_pairs_in_order() {
    let indices = vec![3, -1, 0, 7, 2];
    let within = vec![true, true, false, true, true];
    assert_eq!(valid_correspondences(&indices, &within), vec![0, 3, 4]);
}

#[test]
fn nothing_kept_without_pairs() {
    assert!(valid_correspondences(&vec![], &vec![]).is_empty());
    assert!(valid_correspondences(&vec![-1, -5], &vec![true, true]).is_empty());
    assert!(valid_correspondences(&vec![1, 2], &vec![false, false]).is_empty());
}

#[test]
fn selection_feeds_the_error_estimate() {
    let indices = vec![0, 1, -1, 2];
    let dists = vec![0.25f32, 4.0, 0.0, 1.0];
    let max_dist2 = 1.0f32;
    let within: Vec<bool> = dists.iter().map(|d| !(*d > max_dist2)).collect();
    let kept = valid_correspondences(&indices, &within);
    assert_eq!(kept, vec![0, 3]);
    let sum: f32 = kept.iter().map(|&j| dists[j]).sum();
    assert_eq!((sum / kept.len() as f32).sqrt(), (1.25f32 / 2.0).sqrt());
}
