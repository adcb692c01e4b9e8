use audio_feature::aggregate::{aggregate, group_size, normalize};
use audio_feature::error::ConfigError;

fn total(vectors: &[Vec<u64>]) -> u128 {
    vectors.iter().flatten().map(|e| *e as u128).sum()
}

#[test]
fn seven_vectors_in_groups_of_three() {
    let vectors: Vec<Vec<u64>> = (1..=7u64).map(|i| vec![i, 10 * i, 100 + i]).collect();
    let merged = aggregate(&vectors, 3).unwrap();
    assert_eq!(merged.len(), 3);
    assert_eq!(merged[0], vec![6, 60, 306]);
    assert_eq!(merged[1], vec![15, 150, 315]);
    assert_eq!(merged[2], vectors[6]);
}

#[test]
fn groups_add_up_band_by_band() {
    let vectors: Vec<Vec<u64>> = vec![vec![1, 2], vec![3, 4], vec![5, 6], vec![7, 8], vec![9, 10]];
    for size in 1..=6usize {
        let merged = aggregate(&vectors, size).unwrap();
        let by_hand: Vec<Vec<u64>> = vectors
            .chunks(size)
            .map(|group| (0..2).map(|band| group.iter().map(|v| v[band]).sum()).collect())
            .collect();
        assert_eq!(merged, by_hand);
    }
}

#[test]
fn regrouping_keeps_the_energy() {
    let vectors: Vec<Vec<u64>> = (0..23u64).map(|i| vec![i * i, 1000 - i, 7, i % 3]).collect();
    for size in [1usize, 2, 3, 5, 22, 23, 24, 1000] {
        let merged = aggregate(&vectors, size).unwrap();
        assert_eq!(total(&merged), total(&vectors));
        for band in 0..4 {
            let before: u64 = vectors.iter().map(|v| v[band]).sum();
            let after: u64 = merged.iter().map(|v| v[band]).sum();
            assert_eq!(before, after);
        }
    }
}

#[test]
fn groups_of_one_change_nothing() {
    let vectors: Vec<Vec<u64>> = vec![vec![4, 5, 6], vec![1, 2, 3]];
    assert_eq!(aggregate(&vectors, 1).unwrap(), vectors);
}

#[test]
fn one_group_holds_everything() {
    let vectors: Vec<Vec<u64>> = vec![vec![4, 5, 6], vec![1, 2, 3], vec![10, 20, 30]];
    assert_eq!(aggregate(&vectors, 3).unwrap(), vec![vec![15, 27, 39]]);
    assert_eq!(aggregate(&vectors, usize::MAX).unwrap(), vec![vec![15, 27, 39]]);
}

#[test]
fn nothing_merges_to_nothing() {
    let vectors: Vec<Vec<u64>> = vec![];
    assert_eq!(aggregate(&vectors, 4).unwrap(), Vec::<Vec<u64>>::new());
}

#[test]
fn vectors_without_bands_merge_to_vectors_without_bands() {
    let vectors: Vec<Vec<u64>> = vec![vec![], vec![], vec![]];
    assert_eq!(aggregate(&vectors, 2).unwrap(), vec![Vec::<u64>::new(), Vec::new()]);
}

#[test]
fn group_size_zero_is_refused() {
    let vectors: Vec<Vec<u64>> = vec![vec![1], vec![2]];
    assert_eq!(aggregate(&vectors, 0).unwrap_err(), ConfigError::ZeroGroupSize);
    assert_eq!(aggregate(&Vec::new(), 0).unwrap_err(), ConfigError::ZeroGroupSize);
}

#[test]
fn group_sums_stop_at_the_top() {
    let vectors: Vec<Vec<u64>> = vec![vec![u64::MAX, 1], vec![1, 2], vec![5, 5]];
    assert_eq!(aggregate(&vectors, 2).unwrap(), vec![vec![u64::MAX, 3], vec![5, 5]]);
}

#[test]
fn group_size_follows_from_the_rates() {
    assert_eq!(group_size(44100, 512, 4), Ok(21));
    assert_eq!(group_size(44100, 512, 1), Ok(86));
    assert_eq!(group_size(48000, 512, 93), Ok(1));
    assert_eq!(group_size(512, 512, 1), Ok(1));
}

#[test]
fn rates_that_leave_no_window_to_a_note_are_refused() {
    assert_eq!(group_size(44100, 512, 87), Err(ConfigError::ZeroGroupSize));
    assert_eq!(group_size(511, 512, 1), Err(ConfigError::ZeroGroupSize));
    assert_eq!(group_size(0, 512, 4), Err(ConfigError::ZeroSampleRate));
    assert_eq!(group_size(44100, 0, 4), Err(ConfigError::ZeroWindowLength));
    assert_eq!(group_size(44100, 512, 0), Err(ConfigError::ZeroNoteRate));
    assert_eq!(group_size(0, 0, 0), Err(ConfigError::ZeroSampleRate));
    assert_eq!(group_size(1, 0, 0), Err(ConfigError::ZeroWindowLength));
}

#[test]
fn energies_are_weighed_by_bandwidth() {
    let energies: Vec<u64> = vec![1000, 1000, 999, 0, 4100];
    let bands = vec![0..100, 100..300, 300..400, 400..500, 900..5000];
    assert_eq!(normalize(&energies, &bands), vec![10, 5, 9, 0, 1]);
    assert_eq!(normalize(&Vec::new(), &Vec::new()), Vec::<u64>::new());
}
