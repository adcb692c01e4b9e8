//! From frequency bands in Hz to bin ranges of a fixed window.

use vstd::prelude::*;
use vstd::arithmetic::div_mod::lemma_div_is_ordered;
use vstd::arithmetic::mul::lemma_mul_inequality;
use crate::energy::{lemma_saturated_step, saturated, EnergyVector};
use crate::error::ConfigError;
use rustfft::num_complex::Complex32;
use crate::spectrum::{
    bin_magnitude, is_flat, is_silent, lemma_floor_sqrt_unique, magnitude, plan_forward,
    planned_length, planned_scratch, planned_spectrum, run_planned, scratch_for, Bin, EnergyPolicy,
    Planned,
};

verus! {

/// A half-open range of frequencies in Hz.
pub type FreqBand = std::ops::Range<usize>;

/// The bin that a frequency falls into: `frequency * window_length / sample_rate`,
/// rounded down.
pub open spec fn bin_index(frequency: int, window_length: int, sample_rate: int) -> int {
    (frequency * window_length) / sample_rate
}

/// A half-open range of bins, `start..end`.
#[derive(Default, Debug, Clone, Copy)]
pub struct IndexBand {
    pub start: usize,
    pub end: usize,
}

/// The reason for which one band cannot be mapped, if there is one.
pub open spec fn band_fault(band: FreqBand, sample_rate: u32, binsize: usize) -> Option<ConfigError> {
    let start = bin_index(band.start as int, binsize as int, sample_rate as int);
    let end = bin_index(band.end as int, binsize as int, sample_rate as int);
    if sample_rate == 0 {
        Some(ConfigError::ZeroSampleRate)
    } else if !(start <= end <= binsize) {
        Some(ConfigError::BandOutOfRange)
    } else {
        None
    }
}

/// The bins of a band that can be mapped.
pub open spec fn mapped_band(band: FreqBand, sample_rate: u32, binsize: usize) -> IndexBand {
    IndexBand {
        start: bin_index(band.start as int, binsize as int, sample_rate as int) as usize,
        end: bin_index(band.end as int, binsize as int, sample_rate as int) as usize,
    }
}

/// Bins follow frequencies: a lower frequency never maps to a higher bin.
pub proof fn lemma_bin_index_monotonic(low: nat, high: nat, window_length: nat, sample_rate: nat)
    requires
        low <= high,
        sample_rate > 0,
    ensures
        0 <= bin_index(low as int, window_length as int, sample_rate as int)
            <= bin_index(high as int, window_length as int, sample_rate as int),
{
    let (low, high, width) = (low as int, high as int, window_length as int);
    lemma_mul_inequality(low, high, width);
    lemma_mul_inequality(0, low, width);
    lemma_div_is_ordered(0, low * width, sample_rate as int);
    lemma_div_is_ordered(low * width, high * width, sample_rate as int);
}

/// A band whose lower bound does not lie above its upper bound maps to bins in
/// the same order, so it can only be refused for reaching past the window.
pub proof fn lemma_ordered_band_maps_in_order(band: FreqBand, sample_rate: u32, binsize: usize)
    requires
        sample_rate > 0,
        band.start <= band.end,
    ensures
        bin_index(band.start as int, binsize as int, sample_rate as int) <= bin_index(
            band.end as int,
            binsize as int,
            sample_rate as int,
        ),
        band_fault(band, sample_rate, binsize) is Some <==> bin_index(
            band.end as int,
            binsize as int,
            sample_rate as int,
        ) > binsize,
        band_fault(band, sample_rate, binsize) is None ==> mapped_band(band, sample_rate, binsize).start
            <= mapped_band(band, sample_rate, binsize).end,
{
    lemma_bin_index_monotonic(band.start as nat, band.end as nat, binsize as nat, sample_rate as nat);
}

/// The bin of one frequency, wide enough to hold any product of two `usize`.
fn to_index(frequency: usize, sample_rate: u32, binsize: usize) -> (index: u128)
    requires
        sample_rate > 0,
    ensures
        index == bin_index(frequency as int, binsize as int, sample_rate as int),
{
    assert(frequency * binsize <= 0xffff_ffff_ffff_ffff * 0xffff_ffff_ffff_ffff) by (nonlinear_arith)
        requires
            0 <= frequency <= 0xffff_ffff_ffff_ffff,
            0 <= binsize <= 0xffff_ffff_ffff_ffff,
    ;
    let product: u128 = (frequency as u128) * (binsize as u128);
    product / (sample_rate as u128)
}

impl IndexBand {
    /// True when the band lies in order inside a window of `window_length` bins.
    pub open spec fn fits(&self, window_length: usize) -> bool {
        self.start <= self.end <= window_length
    }

    /// Maps a frequency band to the bins of a window of `binsize` samples taken
    /// at `sample_rate`. Refuses a zero sample rate, and a band whose bins are
    /// out of order or reach past the window.
    pub fn from(band: &FreqBand, sample_rate: u32, binsize: usize) -> (mapped: Result<IndexBand, ConfigError>)
        ensures
            match band_fault(*band, sample_rate, binsize) {
                Some(fault) => mapped == Err::<IndexBand, ConfigError>(fault),
                None => mapped == Ok::<IndexBand, ConfigError>(mapped_band(*band, sample_rate, binsize))
                    && mapped_band(*band, sample_rate, binsize).fits(binsize),
            },
    {
        if sample_rate == 0 {
            return Err(ConfigError::ZeroSampleRate);
        }
        let start = to_index(band.start, sample_rate, binsize);
        let end = to_index(band.end, sample_rate, binsize);
        if start > end || end > binsize as u128 {
            return Err(ConfigError::BandOutOfRange);
        }
        Ok(IndexBand { start: start as usize, end: end as usize })
    }
}

/// The reason for which a configuration cannot be used, if there is one. The
/// sample rate is looked at first, then the window, then the bands.
pub open spec fn config_fault(freq_bands: Seq<FreqBand>, sample_rate: u32, window_length: usize) -> Option<ConfigError> {
    if sample_rate == 0 {
        Some(ConfigError::ZeroSampleRate)
    } else if window_length == 0 {
        Some(ConfigError::ZeroWindowLength)
    } else if freq_bands.len() == 0 {
        Some(ConfigError::NoBands)
    } else if exists|i: int| 0 <= i < freq_bands.len() && #[trigger] band_fault(freq_bands[i], sample_rate, window_length) is Some {
        Some(ConfigError::BandOutOfRange)
    } else {
        None
    }
}

/// The bins of every band of a configuration, in band order.
pub open spec fn mapped_bands(freq_bands: Seq<FreqBand>, sample_rate: u32, window_length: usize) -> Seq<IndexBand> {
    Seq::new(freq_bands.len(), |i: int| mapped_band(freq_bands[i], sample_rate, window_length))
}

/// What a builder or a calculator stands for: the bands as bin ranges, the
/// length of the window, and how a bin is measured.
pub struct Configuration {
    pub bands: Seq<IndexBand>,
    pub window_length: usize,
    pub policy: EnergyPolicy,
}

impl Configuration {
    /// There is a window and at least one band, and every band lies inside the
    /// window.
    pub open spec fn valid(self) -> bool {
        &&& self.window_length > 0
        &&& self.bands.len() > 0
        &&& forall|b: int| 0 <= b < self.bands.len() ==> (#[trigger] self.bands[b]).fits(self.window_length)
    }
}

/// The samples of one window: the first `window_length` samples of the block,
/// followed by zeros where the block is shorter.
pub open spec fn window_of(samples: Seq<i16>, window_length: nat) -> Seq<i16> {
    Seq::new(window_length, |i: int| if i < samples.len() { samples[i] } else { 0i16 })
}

/// The sum of the magnitudes of the bins `start..end`.
pub open spec fn magnitude_sum(spectrum: Seq<Bin>, policy: EnergyPolicy, start: int, end: int) -> int
    decreases end - start,
{
    if end <= start {
        0
    } else {
        magnitude_sum(spectrum, policy, start, end - 1) + bin_magnitude(spectrum[end - 1], policy)
    }
}

/// The energy of one band of a spectrum.
pub open spec fn band_energy(spectrum: Seq<Bin>, band: IndexBand, policy: EnergyPolicy) -> u64 {
    saturated(magnitude_sum(spectrum, policy, band.start as int, band.end as int))
}

/// The energy of every band of a spectrum, in band order.
pub open spec fn band_energies_of(spectrum: Seq<Bin>, bands: Seq<IndexBand>, policy: EnergyPolicy) -> Seq<u64> {
    Seq::new(bands.len(), |b: int| band_energy(spectrum, bands[b], policy))
}

/// True when every energy is zero.
pub open spec fn all_zero(energies: Seq<u64>) -> bool {
    forall|b: int| 0 <= b < energies.len() ==> energies[b] == 0
}

/// The energies that a plan and a configuration give for a block of samples:
/// the band sums of the spectrum that the plan gives for the block's window.
pub open spec fn planned_energies(planned: Planned, configuration: Configuration, samples: Seq<i16>) -> Seq<u64> {
    band_energies_of(
        planned_spectrum(planned, window_of(samples, configuration.window_length as nat)),
        configuration.bands,
        configuration.policy,
    )
}

/// True when two blocks hold the same samples up to the end of the window.
pub open spec fn agree_over_window(first: Seq<i16>, second: Seq<i16>, window_length: nat) -> bool {
    forall|i: int|
        0 <= i < window_length ==> (i < first.len() <==> i < second.len()) && (i < first.len()
            ==> first[i] == second[i])
}

/// One plan, one answer: under one plan and one configuration, blocks that
/// hold the same samples up to the end of the window have the same energies.
/// Equal blocks are the plainest case.
pub proof fn lemma_energies_repeat(
    planned: Planned,
    configuration: Configuration,
    first: Seq<i16>,
    second: Seq<i16>,
)
    requires
        agree_over_window(first, second, configuration.window_length as nat),
    ensures
        planned_energies(planned, configuration, first) == planned_energies(
            planned,
            configuration,
            second,
        ),
{
    assert(window_of(first, configuration.window_length as nat) =~= window_of(
        second,
        configuration.window_length as nat,
    ));
}

/// A flat spectrum has no energy in any range of bins.
pub proof fn lemma_flat_sum_is_zero(spectrum: Seq<Bin>, policy: EnergyPolicy, start: int, end: int)
    requires
        is_flat(spectrum),
        0 <= start,
        end <= spectrum.len(),
    ensures
        magnitude_sum(spectrum, policy, start, end) == 0,
    decreases end - start,
{
    if start < end {
        lemma_flat_sum_is_zero(spectrum, policy, start, end - 1);
        let bin = spectrum[end - 1];
        assert(bin.re == 0 && bin.im == 0);
        lemma_floor_sqrt_unique(0, 0);
    }
}

/// Copies a block of samples into a window of its own: a block that is too
/// long loses its tail, one that is too short is filled up with zeros.
pub fn fill_window(samples: &[i16], window_length: usize) -> (window: Vec<i16>)
    ensures
        window@ == window_of(samples@, window_length as nat),
{
    let mut window: Vec<i16> = Vec::with_capacity(window_length);
    let mut i: usize = 0;
    while i < window_length
        invariant
            i <= window_length,
            window@ == window_of(samples@, i as nat),
        decreases window_length - i,
    {
        let sample: i16 = if i < samples.len() { samples[i] } else { 0 };
        window.push(sample);
        i += 1;
        assert(window@ =~= window_of(samples@, i as nat));
    }
    window
}

/// Sums a spectrum over bands: for each band, the magnitudes of its bins.
pub fn band_energies(spectrum: &Vec<Bin>, bands: &Vec<IndexBand>, policy: EnergyPolicy) -> (energies: EnergyVector)
    requires
        forall|b: int| 0 <= b < bands.len() ==> (#[trigger] bands[b]).fits(spectrum.len()),
    ensures
        energies@ == band_energies_of(spectrum@, bands@, policy),
{
    let mut energies: Vec<u64> = Vec::with_capacity(bands.len());
    let mut b: usize = 0;
    while b < bands.len()
        invariant
            b <= bands.len(),
            forall|j: int| 0 <= j < bands.len() ==> (#[trigger] bands[j]).fits(spectrum.len()),
            energies@ == band_energies_of(spectrum@, bands@.take(b as int), policy),
        decreases bands.len() - b,
    {
        let band = bands[b];
        let mut energy: u64 = 0;
        let mut k: usize = band.start;
        while k < band.end
            invariant
                band.start <= k <= band.end <= spectrum.len(),
                0 <= magnitude_sum(spectrum@, policy, band.start as int, k as int),
                energy == saturated(magnitude_sum(spectrum@, policy, band.start as int, k as int)),
            decreases band.end - k,
        {
            let size = magnitude(&spectrum[k], policy);
            proof {
                lemma_saturated_step(
                    magnitude_sum(spectrum@, policy, band.start as int, k as int),
                    size as int,
                );
            }
            energy = energy.saturating_add(size);
            k += 1;
        }
        energies.push(energy);
        b += 1;
        assert(energies@ =~= band_energies_of(spectrum@, bands@.take(b as int), policy));
    }
    assert(bands@.take(b as int) =~= bands@);
    energies
}

/// Frequency bands mapped to the bins of a fixed window: the first of the two
/// steps that lead to a calculator.
pub struct Builder {
    bands: Vec<IndexBand>,
    window_length: usize,
    policy: EnergyPolicy,
}

impl View for Builder {
    type V = Configuration;

    closed spec fn view(&self) -> Configuration {
        Configuration { bands: self.bands@, window_length: self.window_length, policy: self.policy }
    }
}

impl Builder {
    #[verifier::type_invariant]
    spec fn well_formed(&self) -> bool {
        self@.valid()
    }

    /// Maps the bands of a configuration to bin ranges and checks each of them
    /// against the window. Bins are measured by the absolute value of their
    /// real part unless `with_policy` says otherwise.
    pub fn new(freq_bands: Vec<FreqBand>, sample_rate: u32, window_length: usize) -> (built: Result<Builder, ConfigError>)
        ensures
            match config_fault(freq_bands@, sample_rate, window_length) {
                Some(fault) => built matches Err(e) && e == fault,
                None => built matches Ok(builder) && builder@ == (Configuration {
                    bands: mapped_bands(freq_bands@, sample_rate, window_length),
                    window_length,
                    policy: EnergyPolicy::AbsReal,
                }) && builder@.valid(),
            },
    {
        if sample_rate == 0 {
            return Err(ConfigError::ZeroSampleRate);
        }
        if window_length == 0 {
            return Err(ConfigError::ZeroWindowLength);
        }
        if freq_bands.len() == 0 {
            return Err(ConfigError::NoBands);
        }
        let mut bands: Vec<IndexBand> = Vec::with_capacity(freq_bands.len());
        let mut i: usize = 0;
        while i < freq_bands.len()
            invariant
                sample_rate > 0,
                i <= freq_bands.len(),
                bands@ == mapped_bands(freq_bands@.take(i as int), sample_rate, window_length),
                forall|j: int| 0 <= j < i ==> #[trigger] band_fault(freq_bands@[j], sample_rate, window_length) is None,
            decreases freq_bands.len() - i,
        {
            match IndexBand::from(&freq_bands[i], sample_rate, window_length) {
                Ok(band) => bands.push(band),
                Err(fault) => {
                    assert(band_fault(freq_bands@[i as int], sample_rate, window_length) is Some);
                    return Err(fault);
                },
            }
            i += 1;
            assert(bands@ =~= mapped_bands(freq_bands@.take(i as int), sample_rate, window_length));
        }
        assert(freq_bands@.take(i as int) =~= freq_bands@);
        assert forall|b: int| 0 <= b < bands@.len() implies (#[trigger] bands@[b]).fits(window_length) by {
            assert(band_fault(freq_bands@[b], sample_rate, window_length) is None);
        }
        Ok(Builder { bands, window_length, policy: EnergyPolicy::AbsReal })
    }

    /// Chooses how a bin is measured.
    pub fn with_policy(self, policy: EnergyPolicy) -> (chosen: Builder)
        ensures
            chosen@ == (Configuration { policy, ..self@ }),
    {
        proof {
            use_type_invariant(&self);
        }
        Builder { bands: self.bands, window_length: self.window_length, policy }
    }

    /// Turns the checked configuration into the calculator that works with
    /// it: plans the forward transform for its window and makes the scratch
    /// space that the plan asks for, once for all the windows to come.
    pub fn build(self) -> (calculator: Calculator)
        ensures
            calculator@ == self@,
            calculator@.valid(),
            planned_length(calculator.plan()) == self@.window_length,
            calculator.scratch_length() == planned_scratch(calculator.plan()),
    {
        proof {
            use_type_invariant(&self);
        }
        let plan = plan_forward(self.window_length);
        let scratch = scratch_for(&plan);
        Calculator {
            bands: self.bands,
            window_length: self.window_length,
            policy: self.policy,
            plan,
            scratch,
        }
    }
}

/// Computes the band energies of one window after another, with the transform
/// that was planned and the scratch space that was made when it was built.
pub struct Calculator {
    bands: Vec<IndexBand>,
    window_length: usize,
    policy: EnergyPolicy,
    plan: Planned,
    scratch: Vec<Complex32>,
}

impl View for Calculator {
    type V = Configuration;

    closed spec fn view(&self) -> Configuration {
        Configuration { bands: self.bands@, window_length: self.window_length, policy: self.policy }
    }
}

impl Calculator {
    #[verifier::type_invariant]
    spec fn well_formed(&self) -> bool {
        &&& self@.valid()
        &&& planned_length(self.plan) == self.window_length
        &&& self.scratch.len() == planned_scratch(self.plan)
    }

    /// The planned transform that the calculator owns.
    pub closed spec fn plan(&self) -> Planned {
        self.plan
    }

    /// The amount of scratch space that the calculator owns.
    pub closed spec fn scratch_length(&self) -> nat {
        self.scratch.len() as nat
    }

    /// The energies that this calculator gives for a block of samples.
    pub open spec fn energies_of(&self, samples: Seq<i16>) -> Seq<u64> {
        planned_energies(self.plan(), self@, samples)
    }

    /// True when a call has left the calculator as it was: the same
    /// configuration, the same plan, as much scratch space.
    pub open spec fn same_as(&self, before: &Calculator) -> bool {
        &&& self@ == before@
        &&& self.plan() == before.plan()
        &&& self.scratch_length() == before.scratch_length()
    }

    /// The bin ranges of the bands, in band order.
    pub fn bands(&self) -> (bands: &Vec<IndexBand>)
        ensures
            bands@ == self@.bands,
            self@.valid(),
    {
        proof {
            use_type_invariant(self);
        }
        &self.bands
    }

    /// The number of samples in a window.
    pub fn window_length(&self) -> (length: usize)
        ensures
            length == self@.window_length,
            planned_length(self.plan()) == length,
    {
        proof {
            use_type_invariant(self);
        }
        self.window_length
    }

    /// How a bin is measured.
    pub fn policy(&self) -> (policy: EnergyPolicy)
        ensures
            policy == self@.policy,
    {
        self.policy
    }

    /// The band energies of a block of samples held in a slice. The block is
    /// cut or filled up to the length of the window first; the window is
    /// transformed with the calculator's plan and summed over each band. Only
    /// the contents of the scratch space change.
    pub fn process_slice(&mut self, samples: &[i16]) -> (energies: EnergyVector)
        ensures
            energies@ == old(self).energies_of(samples@),
            energies.len() == old(self)@.bands.len(),
            is_silent(window_of(samples@, old(self)@.window_length as nat)) ==> all_zero(energies@),
            final(self).same_as(old(self)),
    {
        let window = fill_window(samples, self.window_length);
        self.process_inner(window)
    }

    /// The band energies of a block of samples. The block is cut or filled up
    /// to the length of the window first; the window is transformed with the
    /// calculator's plan and summed over each band. Only the contents of the
    /// scratch space change.
    pub fn process(&mut self, samples: Vec<i16>) -> (energies: EnergyVector)
        ensures
            energies@ == old(self).energies_of(samples@),
            energies.len() == old(self)@.bands.len(),
            is_silent(window_of(samples@, old(self)@.window_length as nat)) ==> all_zero(energies@),
            final(self).same_as(old(self)),
    {
        self.process_slice(samples.as_slice())
    }

    /// The band energies of one full window: transforms it, then sums the
    /// spectrum over each band.
    fn process_inner(&mut self, window: Vec<i16>) -> (energies: EnergyVector)
        requires
            window.len() == old(self)@.window_length,
        ensures
            energies@ == band_energies_of(
                planned_spectrum(old(self).plan(), window@),
                old(self)@.bands,
                old(self)@.policy,
            ),
            energies.len() == old(self)@.bands.len(),
            is_silent(window@) ==> all_zero(energies@),
            final(self).same_as(old(self)),
    {
        proof {
            use_type_invariant(&*self);
        }
        let spectrum = run_planned(&self.plan, &window, &mut self.scratch);
        let energies = band_energies(&spectrum, &self.bands, self.policy);
        proof {
            if is_silent(window@) {
                assert forall|b: int| 0 <= b < energies@.len() implies energies@[b] == 0 by {
                    let band = self.bands@[b];
                    assert(band.fits(self.window_length));
                    lemma_flat_sum_is_zero(spectrum@, self.policy, band.start as int, band.end as int);
                }
            }
        }
        energies
    }
}

} // verus!
