//! Merging energy vectors over time, and weighing them by bandwidth.

use vstd::prelude::*;
use crate::band_energy::FreqBand;
use crate::energy::{lemma_saturated_step, saturated, EnergyVector};
use crate::error::ConfigError;

verus! {

/// A sequence of energy vectors as plain sequences.
pub open spec fn rows(vectors: Seq<Vec<u64>>) -> Seq<Seq<u64>> {
    vectors.map_values(|v: Vec<u64>| v@)
}

/// True when every vector has one energy for each of `width` bands.
pub open spec fn uniform(vectors: Seq<Seq<u64>>, width: nat) -> bool {
    forall|i: int| 0 <= i < vectors.len() ==> (#[trigger] vectors[i]).len() == width
}

/// The number of bands of a sequence of vectors of one width.
pub open spec fn width_of(vectors: Seq<Seq<u64>>) -> nat {
    if vectors.len() == 0 {
        0
    } else {
        vectors[0].len()
    }
}

/// The number of groups that `count` vectors fall into: full groups, and one
/// more for what is left over.
pub open spec fn group_count(count: nat, group_size: nat) -> nat {
    ((count + group_size - 1) / (group_size as int)) as nat
}

/// Where group `k` starts.
pub open spec fn group_start(group_size: nat, k: int) -> int {
    k * group_size
}

/// Where group `k` ends: a full group later, or with the last vector.
pub open spec fn group_end(count: nat, group_size: nat, k: int) -> int {
    if (k + 1) * group_size < count {
        (k + 1) * group_size
    } else {
        count as int
    }
}

/// The sum of one band over the vectors `start..end`.
pub open spec fn column_sum(vectors: Seq<Seq<u64>>, band: int, start: int, end: int) -> int
    decreases end - start,
{
    if end <= start {
        0
    } else {
        column_sum(vectors, band, start, end - 1) + vectors[end - 1][band]
    }
}

/// The sum of one band over group `k`, before it is cut to an energy.
pub open spec fn group_sum(vectors: Seq<Seq<u64>>, group_size: nat, k: int, band: int) -> int {
    column_sum(vectors, band, group_start(group_size, k), group_end(vectors.len(), group_size, k))
}

/// The vectors merged in groups of `group_size`: one vector for each group,
/// holding for each band the sum over the group.
pub open spec fn aggregated(vectors: Seq<Seq<u64>>, group_size: nat) -> Seq<Seq<u64>> {
    Seq::new(
        group_count(vectors.len(), group_size),
        |k: int| Seq::new(width_of(vectors), |band: int| saturated(group_sum(vectors, group_size, k, band))),
    )
}

/// The sum of every energy of the first `bands` bands of every vector.
pub open spec fn total_energy(vectors: Seq<Seq<u64>>, bands: int) -> int
    decreases bands,
{
    if bands <= 0 {
        0
    } else {
        total_energy(vectors, bands - 1) + column_sum(vectors, bands - 1, 0, vectors.len() as int)
    }
}

/// True when no group sum is too large for an energy.
pub open spec fn groups_fit(vectors: Seq<Seq<u64>>, group_size: nat) -> bool {
    forall|k: int, band: int|
        0 <= k < group_count(vectors.len(), group_size) && 0 <= band < width_of(vectors)
            ==> #[trigger] group_sum(vectors, group_size, k, band) <= u64::MAX
}

/// A sum of energies is not negative.
pub proof fn lemma_column_sum_bounds(vectors: Seq<Seq<u64>>, band: int, start: int, end: int)
    ensures
        0 <= column_sum(vectors, band, start, end),
    decreases end - start,
{
    if start < end {
        lemma_column_sum_bounds(vectors, band, start, end - 1);
    }
}

/// A sum over a range is the sum over its two parts.
pub proof fn lemma_column_sum_split(vectors: Seq<Seq<u64>>, band: int, start: int, middle: int, end: int)
    requires
        start <= middle <= end,
    ensures
        column_sum(vectors, band, start, end) == column_sum(vectors, band, start, middle)
            + column_sum(vectors, band, middle, end),
    decreases end - middle,
{
    if middle < end {
        lemma_column_sum_split(vectors, band, start, middle, end - 1);
    }
}

/// The groups tile the vectors: group `k` starts inside the sequence, ends
/// where group `k + 1` starts, is not empty, and the last group ends with the
/// last vector.
pub proof fn lemma_group_bounds(count: nat, group_size: nat, k: int)
    requires
        group_size > 0,
        0 <= k < group_count(count, group_size),
    ensures
        0 <= group_start(group_size, k) < group_end(count, group_size, k) <= count,
        group_end(count, group_size, k) - group_start(group_size, k) <= group_size,
        k + 1 < group_count(count, group_size) ==> group_end(count, group_size, k) == group_start(
            group_size,
            k + 1,
        ),
        k + 1 == group_count(count, group_size) ==> group_end(count, group_size, k) == count,
{
    let groups = group_count(count, group_size) as int;
    let g = group_size as int;
    let n = count as int;
    assert(groups == (n + g - 1) / g);
    assert(groups * g <= n + g - 1 < (groups + 1) * g && 0 <= k * g && k * g + g == (k + 1) * g && (k
        + 1) * g + g == (k + 2) * g && (k + 1 < groups ==> (k + 2) * g <= groups * g) && (k + 1
        <= groups ==> (k + 1) * g <= groups * g)) by (nonlinear_arith)
        requires
            g > 0,
            0 <= k,
            groups == (n + g - 1) / g,
    ;
}

/// Aggregation adds up: the merged vector of group `k` holds, for each band,
/// the sum of that band over the members of the group, which are the vectors
/// from `k * group_size` up to the next group or the end.
pub proof fn lemma_aggregated_is_group_sum(vectors: Seq<Seq<u64>>, group_size: nat, k: int, band: int)
    requires
        group_size > 0,
        0 <= k < group_count(vectors.len(), group_size),
        0 <= band < width_of(vectors),
    ensures
        aggregated(vectors, group_size).len() == group_count(vectors.len(), group_size),
        aggregated(vectors, group_size)[k].len() == width_of(vectors),
        aggregated(vectors, group_size)[k][band] == saturated(
            column_sum(vectors, band, k * group_size, group_end(vectors.len(), group_size, k)),
        ),
        group_sum(vectors, group_size, k, band) <= u64::MAX ==> aggregated(vectors, group_size)[k][band]
            == column_sum(vectors, band, k * group_size, group_end(vectors.len(), group_size, k)),
{
    lemma_column_sum_bounds(
        vectors,
        band,
        group_start(group_size, k),
        group_end(vectors.len(), group_size, k),
    );
}

/// The first `k` merged vectors hold, in one band, what the vectors of the
/// first `k` groups held.
proof fn lemma_groups_conserve(vectors: Seq<Seq<u64>>, group_size: nat, band: int, k: int)
    requires
        group_size > 0,
        0 <= band < width_of(vectors),
        groups_fit(vectors, group_size),
        0 <= k <= group_count(vectors.len(), group_size),
    ensures
        column_sum(aggregated(vectors, group_size), band, 0, k) == column_sum(
            vectors,
            band,
            0,
            if k < group_count(vectors.len(), group_size) {
                group_start(group_size, k)
            } else {
                vectors.len() as int
            },
        ),
    decreases k,
{
    let count = vectors.len();
    assert(count == 0 <==> group_count(count, group_size) == 0) by (nonlinear_arith)
        requires
            group_size > 0,
    ;
    assert(group_start(group_size, 0) == 0);
    if k > 0 {
        let start = group_start(group_size, k - 1);
        let end = group_end(count, group_size, k - 1);
        lemma_groups_conserve(vectors, group_size, band, k - 1);
        lemma_group_bounds(count, group_size, k - 1);
        lemma_aggregated_is_group_sum(vectors, group_size, k - 1, band);
        assert(group_sum(vectors, group_size, k - 1, band) <= u64::MAX);
        lemma_column_sum_split(vectors, band, 0, start, end);
    }
}

/// Regrouping keeps the energy of a band: as long as no group sum is cut at
/// the top, a band summed over the merged vectors gives what it gave over the
/// vectors that went in.
pub proof fn lemma_band_energy_conserved(vectors: Seq<Seq<u64>>, group_size: nat, band: int)
    requires
        group_size > 0,
        uniform(vectors, width_of(vectors)),
        0 <= band < width_of(vectors),
        groups_fit(vectors, group_size),
    ensures
        column_sum(
            aggregated(vectors, group_size),
            band,
            0,
            aggregated(vectors, group_size).len() as int,
        ) == column_sum(vectors, band, 0, vectors.len() as int),
{
    lemma_groups_conserve(vectors, group_size, band, group_count(vectors.len(), group_size) as int);
}

/// The first `bands` bands hold as much after regrouping as before.
proof fn lemma_bands_conserve(vectors: Seq<Seq<u64>>, group_size: nat, bands: int)
    requires
        group_size > 0,
        uniform(vectors, width_of(vectors)),
        0 <= bands <= width_of(vectors),
        groups_fit(vectors, group_size),
    ensures
        total_energy(aggregated(vectors, group_size), bands) == total_energy(vectors, bands),
    decreases bands,
{
    if bands > 0 {
        lemma_bands_conserve(vectors, group_size, bands - 1);
        lemma_band_energy_conserved(vectors, group_size, bands - 1);
    }
}

/// Regrouping keeps the energy: as long as no group sum is cut at the top, all
/// the energies of the merged vectors together are all the energies of the
/// vectors that went in.
pub proof fn lemma_total_energy_conserved(vectors: Seq<Seq<u64>>, group_size: nat)
    requires
        group_size > 0,
        uniform(vectors, width_of(vectors)),
        groups_fit(vectors, group_size),
    ensures
        total_energy(aggregated(vectors, group_size), width_of(vectors) as int) == total_energy(
            vectors,
            width_of(vectors) as int,
        ),
        vectors.len() > 0 ==> width_of(aggregated(vectors, group_size)) == width_of(vectors),
{
    lemma_bands_conserve(vectors, group_size, width_of(vectors) as int);
    assert(vectors.len() == 0 <==> group_count(vectors.len(), group_size) == 0) by (nonlinear_arith)
        requires
            group_size > 0,
    ;
}

/// Sums the vectors `start..end` band by band.
fn merge_group(vectors: &Vec<EnergyVector>, start: usize, end: usize, width: usize) -> (sums: EnergyVector)
    requires
        start <= end <= vectors.len(),
        uniform(rows(vectors@), width as nat),
    ensures
        sums@ == Seq::new(
            width as nat,
            |band: int| saturated(column_sum(rows(vectors@), band, start as int, end as int)),
        ),
{
    let mut sums: Vec<u64> = Vec::with_capacity(width);
    let mut band: usize = 0;
    while band < width
        invariant
            band <= width,
            start <= end <= vectors.len(),
            uniform(rows(vectors@), width as nat),
            sums@ == Seq::new(
                band as nat,
                |b: int| saturated(column_sum(rows(vectors@), b, start as int, end as int)),
            ),
        decreases width - band,
    {
        let mut sum: u64 = 0;
        let mut i: usize = start;
        while i < end
            invariant
                band < width,
                start <= i <= end <= vectors.len(),
                uniform(rows(vectors@), width as nat),
                sum == saturated(column_sum(rows(vectors@), band as int, start as int, i as int)),
            decreases end - i,
        {
            proof {
                lemma_column_sum_bounds(rows(vectors@), band as int, start as int, i as int);
                lemma_saturated_step(
                    column_sum(rows(vectors@), band as int, start as int, i as int),
                    rows(vectors@)[i as int][band as int] as int,
                );
                assert(rows(vectors@)[i as int].len() == width);
            }
            sum = sum.saturating_add(vectors[i][band]);
            i += 1;
        }
        sums.push(sum);
        band += 1;
        assert(sums@ =~= Seq::new(
            band as nat,
            |b: int| saturated(column_sum(rows(vectors@), b, start as int, end as int)),
        ));
    }
    sums
}

/// Merges a sequence of energy vectors in groups of `group_size`, in order:
/// each group gives one vector, the sum of its members band by band. What is
/// left over at the end forms a last, shorter group. A group size of zero is
/// refused.
pub fn aggregate(vectors: &Vec<EnergyVector>, group_size: usize) -> (merged: Result<Vec<EnergyVector>, ConfigError>)
    requires
        uniform(rows(vectors@), width_of(rows(vectors@))),
    ensures
        match merged {
            Ok(groups) => group_size > 0 && rows(groups@) == aggregated(rows(vectors@), group_size as nat),
            Err(fault) => group_size == 0 && fault == ConfigError::ZeroGroupSize,
        },
{
    if group_size == 0 {
        return Err(ConfigError::ZeroGroupSize);
    }
    let count = vectors.len();
    let width = if count == 0 { 0 } else { vectors[0].len() };
    let ghost all = rows(vectors@);
    let ghost expected = aggregated(all, group_size as nat);
    let mut groups: Vec<Vec<u64>> = Vec::new();
    let mut start: usize = 0;
    assert(count == 0 <==> group_count(count as nat, group_size as nat) == 0) by (nonlinear_arith)
        requires
            group_size > 0,
    ;
    assert(group_start(group_size as nat, 0) == 0);
    while start < count
        invariant
            group_size > 0,
            count == vectors.len(),
            all == rows(vectors@),
            expected == aggregated(all, group_size as nat),
            width == width_of(all),
            uniform(all, width as nat),
            groups.len() <= expected.len(),
            start == (if groups.len() < expected.len() {
                group_start(group_size as nat, groups.len() as int)
            } else {
                count as int
            }),
            forall|j: int| 0 <= j < groups.len() ==> (#[trigger] groups[j])@ == expected[j],
        decreases expected.len() - groups.len(),
    {
        proof {
            let k = groups.len() as int;
            lemma_group_bounds(count as nat, group_size as nat, k);
            assert((k + 1) * group_size == k * group_size + group_size) by (nonlinear_arith);
        }
        let end = if count - start > group_size { start + group_size } else { count };
        assert(end == group_end(count as nat, group_size as nat, groups.len() as int));
        let sums = merge_group(vectors, start, end, width);
        assert(sums@ =~= expected[groups.len() as int]);
        groups.push(sums);
        start = end;
    }
    proof {
        if groups.len() < expected.len() {
            lemma_group_bounds(count as nat, group_size as nat, groups.len() as int);
        }
        assert(rows(groups@) =~= expected);
    }
    Ok(groups)
}

/// The number of windows that make one note: the windows per second, rounded
/// down, divided by the notes per second, rounded down.
pub open spec fn windows_per_note(sample_rate: u32, window_length: usize, notes_per_second: u32) -> int {
    (sample_rate as int / window_length as int) / notes_per_second as int
}

/// The reason for which no group size follows from the rates, if there is one.
pub open spec fn rate_fault(sample_rate: u32, window_length: usize, notes_per_second: u32) -> Option<ConfigError> {
    if sample_rate == 0 {
        Some(ConfigError::ZeroSampleRate)
    } else if window_length == 0 {
        Some(ConfigError::ZeroWindowLength)
    } else if notes_per_second == 0 {
        Some(ConfigError::ZeroNoteRate)
    } else if windows_per_note(sample_rate, window_length, notes_per_second) == 0 {
        Some(ConfigError::ZeroGroupSize)
    } else {
        None
    }
}

/// The group size that merges windows into notes. Refuses a rate or a window
/// of zero, and rates that leave less than one window to a note.
pub fn group_size(sample_rate: u32, window_length: usize, notes_per_second: u32) -> (size: Result<usize, ConfigError>)
    ensures
        match rate_fault(sample_rate, window_length, notes_per_second) {
            Some(fault) => size == Err::<usize, ConfigError>(fault),
            None => size == Ok::<usize, ConfigError>(
                windows_per_note(sample_rate, window_length, notes_per_second) as usize,
            ) && windows_per_note(sample_rate, window_length, notes_per_second) > 0,
        },
{
    if sample_rate == 0 {
        return Err(ConfigError::ZeroSampleRate);
    }
    if window_length == 0 {
        return Err(ConfigError::ZeroWindowLength);
    }
    if notes_per_second == 0 {
        return Err(ConfigError::ZeroNoteRate);
    }
    let windows_per_second: u64 = (sample_rate as u64) / (window_length as u64);
    let size: u64 = windows_per_second / (notes_per_second as u64);
    if size == 0 {
        return Err(ConfigError::ZeroGroupSize);
    }
    Ok(size as usize)
}

/// The energies of one vector, each divided by the width in Hz of its band
/// and rounded down.
pub open spec fn normalized(energies: Seq<u64>, freq_bands: Seq<FreqBand>) -> Seq<u64> {
    Seq::new(energies.len(), |b: int| (energies[b] / ((freq_bands[b].end - freq_bands[b].start) as u64)) as u64)
}

/// Weighs the energies of one vector by bandwidth, so that a wide band does
/// not win for its width alone: each energy is divided by the width in Hz of
/// its band, rounded down.
pub fn normalize(energies: &EnergyVector, freq_bands: &Vec<FreqBand>) -> (weighed: EnergyVector)
    requires
        energies.len() == freq_bands.len(),
        forall|b: int| 0 <= b < freq_bands.len() ==> (#[trigger] freq_bands[b]).start < freq_bands[b].end,
    ensures
        weighed@ == normalized(energies@, freq_bands@),
{
    let mut weighed: Vec<u64> = Vec::with_capacity(energies.len());
    let mut b: usize = 0;
    while b < energies.len()
        invariant
            b <= energies.len(),
            energies.len() == freq_bands.len(),
            forall|j: int| 0 <= j < freq_bands.len() ==> (#[trigger] freq_bands[j]).start < freq_bands[j].end,
            weighed@ == normalized(energies@.take(b as int), freq_bands@),
        decreases energies.len() - b,
    {
        let width = freq_bands[b].end - freq_bands[b].start;
        weighed.push(energies[b] / (width as u64));
        b += 1;
        assert(weighed@ =~= normalized(energies@.take(b as int), freq_bands@));
    }
    assert(energies@.take(b as int) =~= energies@);
    weighed
}

} // verus!
