//! The sampler: evaluates a user function at the positions of a grid, and
//! beside each position, for the centered difference that estimates the
//! derivative there.

use vstd::prelude::*;

verus! {

/// Why a sampling request is refused.
#[derive(Clone, Copy, Debug, PartialEq, Eq)]
pub enum ConfigError {
    /// Fewer than two samples were asked for.
    TooFewSamples,
    /// The domain has no length, so neither has the difference step.
    DegenerateDomain,
}

/// One position of the grid with its two neighbours for the centered
/// difference: `x - delta` and `x + delta`.
#[derive(Clone, Copy, Debug)]
pub struct Probe<S> {
    pub x: S,
    pub behind: S,
    pub ahead: S,
}

/// The function's values at the three positions of a probe.
#[derive(Clone, Copy, Debug)]
pub struct Reading<S> {
    /// The position that was sampled.
    pub x: S,
    /// The value at `x`.
    pub y: S,
    /// The value at `x - delta`.
    pub y_behind: S,
    /// The value at `x + delta`.
    pub y_ahead: S,
}

/// The error that a request for `count` samples meets, if any. Too few
/// samples are reported before a degenerate domain.
pub open spec fn refusal(count: int, degenerate: bool) -> Option<ConfigError> {
    if count < 2 {
        Some(ConfigError::TooFewSamples)
    } else if degenerate {
        Some(ConfigError::DegenerateDomain)
    } else {
        None
    }
}

/// `reading` is what `f` can return at time `t` for `probe`.
pub open spec fn reads<S, F: Fn(S, S) -> S>(f: F, t: S, probe: Probe<S>, reading: Reading<S>) -> bool {
    &&& reading.x == probe.x
    &&& call_ensures(f, (probe.x, t), reading.y)
    &&& call_ensures(f, (probe.behind, t), reading.y_behind)
    &&& call_ensures(f, (probe.ahead, t), reading.y_ahead)
}

/// `f` may be called at time `t` on the three positions of `probe`.
pub open spec fn admits<S, F: Fn(S, S) -> S>(f: F, t: S, probe: Probe<S>) -> bool {
    &&& call_requires(f, (probe.x, t))
    &&& call_requires(f, (probe.behind, t))
    &&& call_requires(f, (probe.ahead, t))
}

/// Sampling keeps the grid: reading `k` sits at the position of probe `k`,
/// so whatever order holds between the positions of any two probes holds
/// between the positions of their readings. An increasing grid gives
/// increasing samples.
pub proof fn lemma_sampling_keeps_order<S, F: Fn(S, S) -> S>(
    f: F,
    t: S,
    probes: Seq<Probe<S>>,
    readings: Seq<Reading<S>>,
    before: spec_fn(S, S) -> bool,
)
    requires
        readings.len() == probes.len(),
        forall|k: int| 0 <= k < probes.len() ==> reads(f, t, probes[k], #[trigger] readings[k]),
        forall|i: int, j: int|
            0 <= i < j < probes.len() ==> before((#[trigger] probes[i]).x, (#[trigger] probes[j]).x),
    ensures
        forall|i: int, j: int|
            0 <= i < j < readings.len() ==> before(
                (#[trigger] readings[i]).x,
                (#[trigger] readings[j]).x,
            ),
{
    assert forall|i: int, j: int| 0 <= i < j < readings.len() implies before(
        (#[trigger] readings[i]).x,
        (#[trigger] readings[j]).x,
    ) by {
        assert(reads(f, t, probes[i], readings[i]));
        assert(reads(f, t, probes[j], readings[j]));
        assert(before(probes[i].x, probes[j].x));
    }
}

/// Checks a sampling request before anything is computed, and returns the
/// number of segments that its samples will span. `degenerate` says that
/// the two ends of the domain coincide.
pub fn check_request(count: usize, degenerate: bool) -> (r: Result<usize, ConfigError>)
    ensures
        match r {
            Ok(segments) => refusal(count as int, degenerate) is None && segments == count - 1,
            Err(e) => refusal(count as int, degenerate) == Some(e),
        },
{
    if count < 2 {
        Err(ConfigError::TooFewSamples)
    } else if degenerate {
        Err(ConfigError::DegenerateDomain)
    } else {
        Ok(count - 1)
    }
}

/// Samples `f` at time `t`: one reading per probe, in the order of the
/// probes. Fewer than two probes are refused.
pub fn sample<S: Copy, F: Fn(S, S) -> S>(probes: &Vec<Probe<S>>, t: S, f: F) -> (r: Result<
    Vec<Reading<S>>,
    ConfigError,
>)
    requires
        forall|k: int| 0 <= k < probes.len() ==> admits(f, t, #[trigger] probes[k]),
    ensures
        probes.len() < 2 <==> r is Err,
        r matches Err(e) ==> e == ConfigError::TooFewSamples,
        r matches Ok(readings) ==> {
            &&& readings.len() == probes.len()
            &&& forall|k: int|
                0 <= k < probes.len() ==> reads(f, t, probes[k], #[trigger] readings[k])
        },
{
    let n: usize = probes.len();
    if n < 2 {
        return Err(ConfigError::TooFewSamples);
    }
    let mut readings: Vec<Reading<S>> = Vec::new();
    let mut k: usize = 0;
    while k < n
        invariant
            n == probes.len(),
            k <= n,
            readings.len() == k,
            forall|i: int| 0 <= i < probes.len() ==> admits(f, t, #[trigger] probes[i]),
            forall|i: int| 0 <= i < k ==> reads(f, t, probes[i], #[trigger] readings[i]),
        decreases n - k,
    {
        let probe: Probe<S> = probes[k];
        assert(admits(f, t, probes[k as int]));
        let y: S = f(probe.x, t);
        let y_behind: S = f(probe.behind, t);
        let y_ahead: S = f(probe.ahead, t);
        readings.push(Reading { x: probe.x, y, y_behind, y_ahead });
        k = k + 1;
    }
    Ok(readings)
}

} // verus!
