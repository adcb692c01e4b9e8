//! The pitch contour of a sequence of energy vectors.
//!
//! The band that holds the most energy stands for the pitch of a frame. The
//! contour says, frame after frame, whether that band went up, went down or
//! stayed where it was.

use vstd::prelude::*;
use crate::aggregate::rows;
use crate::energy::EnergyVector;

verus! {

/// True when `band` is the dominant band of a vector: no band holds more, and
/// no earlier band holds as much.
pub open spec fn is_dominant(energies: Seq<u64>, band: int) -> bool {
    &&& 0 <= band < energies.len()
    &&& forall|j: int| 0 <= j < energies.len() ==> energies[j] <= energies[band]
    &&& forall|j: int| 0 <= j < band ==> energies[j] < energies[band]
}

/// The dominant band of a vector: the first of the bands that hold the most
/// energy. A vector without bands has dominant band 0.
pub open spec fn dominant_band(energies: Seq<u64>) -> int {
    if energies.len() == 0 {
        0
    } else {
        choose|band: int| is_dominant(energies, band)
    }
}

/// A vector has one dominant band, and `dominant_band` names it.
pub proof fn lemma_dominant_unique(energies: Seq<u64>, band: int)
    requires
        is_dominant(energies, band),
    ensures
        dominant_band(energies) == band,
{
    let other = dominant_band(energies);
    assert(is_dominant(energies, other));
}

/// The dominant band of each vector, in order.
pub open spec fn dominants_of(vectors: Seq<Seq<u64>>) -> Seq<int> {
    Seq::new(vectors.len(), |i: int| dominant_band(vectors[i]))
}

/// Band numbers as mathematical integers.
pub open spec fn indices(bands: Seq<usize>) -> Seq<int> {
    bands.map_values(|band: usize| band as int)
}

/// The symbol for one step of the dominant band: `u` for up, `d` for down,
/// `r` for a repeat.
pub open spec fn symbol(previous: int, current: int) -> char {
    if current > previous {
        'u'
    } else if current < previous {
        'd'
    } else {
        'r'
    }
}

/// The contour of a sequence of dominant bands: a `*` for the first, one
/// symbol for the step to each of the others.
pub open spec fn contour(dominants: Seq<int>) -> Seq<char> {
    Seq::new(
        dominants.len(),
        |i: int| if i == 0 { '*' } else { symbol(dominants[i - 1], dominants[i]) },
    )
}

/// The dominant band of a vector: the first of the bands that hold the most
/// energy, or 0 for a vector without bands.
pub fn argmax(energies: &EnergyVector) -> (band: usize)
    ensures
        band == dominant_band(energies@),
        energies.len() > 0 ==> is_dominant(energies@, band as int),
{
    if energies.len() == 0 {
        return 0;
    }
    let mut best: usize = 0;
    let mut i: usize = 1;
    while i < energies.len()
        invariant
            1 <= i <= energies.len(),
            is_dominant(energies@.take(i as int), best as int),
        decreases energies.len() - i,
    {
        if energies[i] > energies[best] {
            best = i;
        }
        i += 1;
    }
    proof {
        assert(energies@.take(i as int) =~= energies@);
        lemma_dominant_unique(energies@, best as int);
    }
    best
}

/// The dominant band of each vector, in order.
pub fn dominant_bands(vectors: &Vec<EnergyVector>) -> (dominants: Vec<usize>)
    ensures
        indices(dominants@) == dominants_of(rows(vectors@)),
{
    let mut dominants: Vec<usize> = Vec::with_capacity(vectors.len());
    let mut i: usize = 0;
    while i < vectors.len()
        invariant
            i <= vectors.len(),
            dominants.len() == i,
            indices(dominants@) == dominants_of(rows(vectors@).take(i as int)),
        decreases vectors.len() - i,
    {
        let ghost before = dominants@;
        let band = argmax(&vectors[i]);
        dominants.push(band);
        i += 1;
        assert forall|j: int| 0 <= j < i implies indices(dominants@)[j] == dominants_of(
            rows(vectors@).take(i as int),
        )[j] by {
            if j < i - 1 {
                assert(indices(before)[j] == dominants_of(rows(vectors@).take(i - 1))[j]);
            } else {
                assert(rows(vectors@)[j] == vectors@[j]@);
            }
        }
        assert(indices(dominants@) =~= dominants_of(rows(vectors@).take(i as int)));
    }
    assert(rows(vectors@).take(i as int) =~= rows(vectors@));
    dominants
}

/// Writes down how a sequence of dominant bands moves: a `*` to begin with,
/// then for each band after the first `u` if it lies above the one before it,
/// `d` if below, `r` if it is the same.
pub fn contour_of(dominants: &Vec<usize>) -> (code: String)
    requires
        dominants.len() >= 1,
    ensures
        code@ == contour(indices(dominants@)),
        code@.len() == dominants.len(),
        code@[0] == '*',
{
    proof {
        reveal_strlit("*");
        reveal_strlit("u");
        reveal_strlit("d");
        reveal_strlit("r");
    }
    let mut code = String::from_str("*");
    let mut i: usize = 1;
    assert(code@ =~= contour(indices(dominants@)).take(1));
    while i < dominants.len()
        invariant
            1 <= i <= dominants.len(),
            "u"@ == seq!['u'],
            "d"@ == seq!['d'],
            "r"@ == seq!['r'],
            code@ == contour(indices(dominants@)).take(i as int),
        decreases dominants.len() - i,
    {
        let previous = dominants[i - 1];
        let current = dominants[i];
        if current > previous {
            code.append("u");
        } else if current < previous {
            code.append("d");
        } else {
            code.append("r");
        }
        i += 1;
        assert(code@ =~= contour(indices(dominants@)).take(i as int));
    }
    assert(contour(indices(dominants@)).take(i as int) =~= contour(indices(dominants@)));
    code
}

/// The contour of a sequence of energy vectors: a `*` for the first vector,
/// then for each vector after it `u`, `d` or `r` as its dominant band lies
/// above, below or on that of the vector before it. The sequence must hold at
/// least one vector.
pub fn encode(vectors: &Vec<EnergyVector>) -> (code: String)
    requires
        vectors.len() >= 1,
    ensures
        code@ == contour(dominants_of(rows(vectors@))),
        code@.len() == vectors.len(),
        code@[0] == '*',
{
    let dominants = dominant_bands(vectors);
    assert(indices(dominants@).len() == dominants@.len());
    contour_of(&dominants)
}

} // verus!
