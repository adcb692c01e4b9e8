use audio_feature::contour::{argmax, contour_of, dominant_bands, encode};

/// A vector of eight bands whose dominant band is `band`.
fn peak_at(band: usize) -> Vec<u64> {
    let mut energies = vec![1u64; 8];
    energies[band] = 50;
    energies
}

#[test]
fn repeat_up_and_down() {
    assert_eq!(contour_of(&vec![2, 2]), "*r");
    assert_eq!(contour_of(&vec![1, 3]), "*u");
    assert_eq!(contour_of(&vec![5, 2]), "*d");
}

#[test]
fn repeat_up_and_down_from_energies() {
    assert_eq!(encode(&vec![peak_at(2), peak_at(2)]), "*r");
    assert_eq!(encode(&vec![peak_at(1), peak_at(3)]), "*u");
    assert_eq!(encode(&vec![peak_at(5), peak_at(2)]), "*d");
}

#[test]
fn one_vector_gives_the_sentinel_alone() {
    assert_eq!(encode(&vec![peak_at(4)]), "*");
    assert_eq!(contour_of(&vec![7]), "*");
}

#[test]
fn contour_has_one_symbol_for_each_vector() {
    let bands = [3usize, 3, 4, 7, 0, 0, 0, 6, 5, 5];
    for length in 1..=bands.len() {
        let vectors: Vec<Vec<u64>> = bands[..length].iter().map(|b| peak_at(*b)).collect();
        let code = encode(&vectors);
        assert_eq!(code.chars().count(), length);
        assert!(code.starts_with('*'));
        assert!(code.chars().skip(1).all(|c| c == 'u' || c == 'd' || c == 'r'));
    }
    let vectors: Vec<Vec<u64>> = bands.iter().map(|b| peak_at(*b)).collect();
    assert_eq!(encode(&vectors), "*ruudrrudr");
}

#[test]
fn first_of_equal_maxima_is_dominant() {
    assert_eq!(argmax(&vec![1, 9, 3, 9, 9]), 1);
    assert_eq!(argmax(&vec![0, 0, 0]), 0);
    assert_eq!(argmax(&vec![5]), 0);
    assert_eq!(argmax(&vec![1, 2, 3]), 2);
    assert_eq!(argmax(&vec![u64::MAX, 0, u64::MAX]), 0);
}

#[test]
fn vector_without_bands_has_dominant_band_zero() {
    assert_eq!(argmax(&vec![]), 0);
    assert_eq!(encode(&vec![vec![], vec![]]), "*r");
}

#[test]
fn dominant_bands_follow_the_vectors() {
    let vectors = vec![peak_at(0), peak_at(7), vec![4, 4, 2], vec![]];
    assert_eq!(dominant_bands(&vectors), vec![0, 7, 0, 0]);
    assert_eq!(dominant_bands(&vec![]), Vec::<usize>::new());
}
