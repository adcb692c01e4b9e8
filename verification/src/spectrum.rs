//! The spectrum of one window: the transform, and the size of a bin.

use vstd::prelude::*;
use vstd::math::abs;
use std::sync::Arc;
use rustfft::num_complex::{Complex32, ComplexFloat};
use rustfft::{Fft, FftPlanner};

verus! {

/// One frequency bin of a transformed window. Both parts are whole numbers:
/// what the transform computed, cut toward zero.
#[derive(Clone, Copy, Debug, PartialEq, Eq, Structural)]
pub struct Bin {
    pub re: i64,
    pub im: i64,
}

/// How much a bin adds to the energy of its band.
#[derive(Clone, Copy, Debug, PartialEq, Eq, Structural)]
pub enum EnergyPolicy {
    /// The absolute value of the real part. Cheap, and blind to phase.
    AbsReal,
    /// The length of the bin as a complex number, rounded down.
    Magnitude,
}

/// True when every sample of the window is zero.
pub open spec fn is_silent(window: Seq<i16>) -> bool {
    forall|i: int| 0 <= i < window.len() ==> window[i] == 0
}

/// True when every bin of the spectrum is zero.
pub open spec fn is_flat(spectrum: Seq<Bin>) -> bool {
    forall|k: int| 0 <= k < spectrum.len() ==> (#[trigger] spectrum[k]).re == 0 && spectrum[k].im == 0
}

/// True when `root` is the square root of `n`, rounded down.
pub open spec fn is_floor_sqrt(n: int, root: int) -> bool {
    0 <= root && root * root <= n < (root + 1) * (root + 1)
}

/// The square root of `n`, rounded down.
pub open spec fn floor_sqrt(n: int) -> int {
    choose|root: int| is_floor_sqrt(n, root)
}

/// What a bin adds to its band under a policy.
pub open spec fn bin_magnitude(bin: Bin, policy: EnergyPolicy) -> int {
    match policy {
        EnergyPolicy::AbsReal => abs(bin.re as int) as int,
        EnergyPolicy::Magnitude => floor_sqrt(bin.re * bin.re + bin.im * bin.im),
    }
}

/// Squaring keeps the order of numbers that are not negative.
proof fn lemma_square_ordered(a: int, b: int)
    by (nonlinear_arith)
    requires
        0 <= a <= b,
    ensures
        a * a <= b * b,
{
}

/// A number has one rounded-down square root, and `floor_sqrt` names it.
pub proof fn lemma_floor_sqrt_unique(n: int, root: int)
    requires
        is_floor_sqrt(n, root),
    ensures
        floor_sqrt(n) == root,
{
    let other = floor_sqrt(n);
    assert(is_floor_sqrt(n, other));
    if other < root {
        lemma_square_ordered(other + 1, root);
    } else if root < other {
        lemma_square_ordered(root + 1, other);
    }
}

/// The square root of `n`, rounded down, by bisection.
pub fn integer_sqrt(n: u128) -> (root: u64)
    ensures
        is_floor_sqrt(n as int, root as int),
        root == floor_sqrt(n as int),
{
    let mut low: u128 = 0;
    let mut high: u128 = 0x1_0000_0000_0000_0000;
    assert(0x1_0000_0000_0000_0000int * 0x1_0000_0000_0000_0000int
        == 0x1_0000_0000_0000_0000_0000_0000_0000_0000int) by (nonlinear_arith);
    while high - low > 1
        invariant
            low < high <= 0x1_0000_0000_0000_0000,
            low * low <= n < high * high,
        decreases high - low,
    {
        let middle: u128 = low + (high - low) / 2;
        proof {
            lemma_square_ordered(middle as int, 0xffff_ffff_ffff_ffff);
        }
        if middle * middle <= n {
            low = middle;
        } else {
            high = middle;
        }
    }
    proof {
        lemma_floor_sqrt_unique(n as int, low as int);
    }
    low as u64
}

/// The absolute value of a signed number, which always fits unsigned.
fn absolute(value: i64) -> (size: u64)
    ensures
        size == abs(value as int),
{
    if value >= 0 {
        value as u64
    } else if value == i64::MIN {
        0x8000_0000_0000_0000
    } else {
        (-value) as u64
    }
}

/// What a bin adds to the energy of its band under a policy.
pub fn magnitude(bin: &Bin, policy: EnergyPolicy) -> (size: u64)
    ensures
        size == bin_magnitude(*bin, policy),
{
    match policy {
        EnergyPolicy::AbsReal => absolute(bin.re),
        EnergyPolicy::Magnitude => {
            let re: u128 = absolute(bin.re) as u128;
            let im: u128 = absolute(bin.im) as u128;
            proof {
                lemma_square_ordered(re as int, 0x8000_0000_0000_0000);
                lemma_square_ordered(im as int, 0x8000_0000_0000_0000);
                assert(0x8000_0000_0000_0000int * 0x8000_0000_0000_0000int
                    == 0x4000_0000_0000_0000_0000_0000_0000_0000int) by (nonlinear_arith);
                assert(re * re == bin.re * bin.re) by (nonlinear_arith)
                    requires
                        re == bin.re || re == -bin.re,
                ;
                assert(im * im == bin.im * bin.im) by (nonlinear_arith)
                    requires
                        im == bin.im || im == -bin.im,
                ;
            }
            integer_sqrt(re * re + im * im)
        },
    }
}

/// The numbers that the transform computes in: the parts of a `Complex32`.
type Real = <Complex32 as ComplexFloat>::Real;

/// A forward transform that `rustfft` planned for windows of one length.
/// What is inside is the planner's choice and stays closed.
#[verifier::external_body]
pub struct Planned {
    fft: Arc<dyn Fft<Real>>,
}

/// A complex number of `rustfft`. The library carries such numbers as scratch
/// space and never looks inside.
#[verifier::external_type_specification]
#[verifier::external_body]
#[verifier::reject_recursive_types(T)]
pub struct ExComplex<T>(rustfft::num_complex::Complex<T>);

/// The length of the windows that a plan transforms.
pub uninterp spec fn planned_length(planned: Planned) -> nat;

/// The amount of scratch space that a plan asks for.
pub uninterp spec fn planned_scratch(planned: Planned) -> nat;

/// The spectrum that a plan gives for a window of its length, each part of
/// each bin cut to a whole number toward zero.
pub uninterp spec fn planned_spectrum(planned: Planned, window: Seq<i16>) -> Seq<Bin>;

/// Plans a forward transform for windows of `window_length` samples, with
/// `FftPlanner::new` and `FftPlanner::plan_fft_forward`.
///
/// Trusted, not proved: the plan is one for the length asked for. Which
/// algorithm it holds is not said: the planner picks it by the processor it
/// finds, so two plans for one length need not agree to the last digit.
#[verifier::external_body]
pub(crate) fn plan_forward(window_length: usize) -> (planned: Planned)
    ensures
        planned_length(planned) == window_length,
{
    Planned { fft: FftPlanner::new().plan_fft_forward(window_length) }
}

/// Makes the scratch space of a plan: as many zeros as
/// `Fft::get_inplace_scratch_len` asks for.
///
/// Trusted, not proved: the length is the one that the plan asks for.
#[verifier::external_body]
pub(crate) fn scratch_for(planned: &Planned) -> (scratch: Vec<Complex32>)
    ensures
        scratch.len() == planned_scratch(*planned),
{
    vec![Complex32::default(); planned.fft.get_inplace_scratch_len()]
}

/// Transforms one window to the frequency domain with a plan.
///
/// The body runs `Fft::process_with_scratch` once over the samples as real
/// numbers, with the scratch space it is handed. Each part of each bin is
/// then cut to a whole number toward zero.
///
/// Trusted, not proved: the spectrum is settled by the plan and the window,
/// whatever the scratch space held; it has as many bins as the window has
/// samples; the transform, being a sum of products with its input, turns a
/// silent window into a flat spectrum; and the scratch space keeps its length.
/// The transform panics on scratch space that is too short and on a window of
/// another length than the plan's: both are left out.
#[verifier::external_body]
pub(crate) fn run_planned(planned: &Planned, window: &Vec<i16>, scratch: &mut Vec<Complex32>) -> (spectrum: Vec<Bin>)
    requires
        window.len() == planned_length(*planned),
        old(scratch).len() >= planned_scratch(*planned),
    ensures
        spectrum@ == planned_spectrum(*planned, window@),
        spectrum.len() == window.len(),
        is_silent(window@) ==> is_flat(spectrum@),
        final(scratch).len() == old(scratch).len(),
    no_unwind
{
    let mut buffer: Vec<Complex32> =
        window.iter().map(|s| Complex32::new((*s).into(), Default::default())).collect();
    planned.fft.process_with_scratch(&mut buffer, scratch);
    buffer.iter().map(|c| Bin { re: c.re as i64, im: c.im as i64 }).collect()
}

} // verus!
