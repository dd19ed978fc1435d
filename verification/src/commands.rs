use vstd::prelude::*;

use crate::amplitude::{amp_metrics_spec, amp_ok, amp_tiles, run_smoothness_calc, AmpMetrics};
use crate::image::{image_metrics_spec, run_image_calc, Image, ImageMetrics};
use crate::phase::{phase_metrics_spec, phase_tiles, run_phase_calcs, PhaseMetrics};
use crate::scalar::Scalar;
use crate::solutions::SolutionSet;

verus! {

/// Which metric subset a run computes.
pub enum Commands {
    /// Image RMS and dynamic range.
    ImgMetrics,
    /// Amplitude smoothness and the phase metrics together.
    CalMetrics,
    /// Amplitude smoothness only.
    AmpMetrics,
    /// Phase RMSE and cross-polarization distance only.
    PhaseMetrics,
}

/// Everything one run computed; the vectors a command does not produce stay
/// empty.
pub struct MetricsReport<T> {
    pub amp: Vec<AmpMetrics<T>>,
    pub phase: Vec<PhaseMetrics<T>>,
    pub image: Vec<ImageMetrics<T>>,
}

/// The indices below `n` of observations the amplitude engine succeeds on,
/// ascending.
pub open spec fn amp_ok_below<T: Scalar>(ss: Seq<SolutionSet<T>>, n: int) -> Seq<int>
    decreases n,
{
    if n <= 0 {
        Seq::empty()
    } else if amp_ok(ss[n - 1]) {
        amp_ok_below(ss, n - 1).push(n - 1)
    } else {
        amp_ok_below(ss, n - 1)
    }
}

/// The indices of observations the amplitude engine succeeds on, ascending:
/// a failed observation is omitted and the batch goes on.
pub open spec fn amp_ok_indices<T: Scalar>(ss: Seq<SolutionSet<T>>) -> Seq<int> {
    amp_ok_below(ss, ss.len() as int)
}

proof fn lemma_amp_ok_below<T: Scalar>(ss: Seq<SolutionSet<T>>, n: int)
    ensures
        forall|i: int|
            0 <= i < amp_ok_below(ss, n).len() ==> {
                &&& 0 <= #[trigger] amp_ok_below(ss, n)[i] < n
                &&& amp_ok(ss[amp_ok_below(ss, n)[i]])
            },
    decreases n,
{
    if n > 0 {
        lemma_amp_ok_below(ss, n - 1);
        let prev = amp_ok_below(ss, n - 1);
        let cur = amp_ok_below(ss, n);
        if amp_ok(ss[n - 1]) {
            assert(cur == prev.push(n - 1));
            assert(forall|i: int| 0 <= i < prev.len() ==> cur[i] == prev[i]);
            assert(cur[cur.len() - 1] == n - 1);
        } else {
            assert(cur == prev);
        }
    }
}

/// Computes image metrics for each image, in order.
pub fn run_img_metrics<T: Scalar>(images: &Vec<Image<T>>) -> (r: Vec<ImageMetrics<T>>)
    requires
        forall|i: int| 0 <= i < images@.len() ==> (#[trigger] images@[i]).well_formed(),
    ensures
        r@.len() == images@.len(),
        forall|i: int| 0 <= i < r@.len() ==> image_metrics_spec(images@[i], r@[i]),
{
    let mut r: Vec<ImageMetrics<T>> = Vec::new();
    let mut i: usize = 0;
    while i < images.len()
        invariant
            forall|k: int| 0 <= k < images@.len() ==> (#[trigger] images@[k]).well_formed(),
            0 <= i <= images@.len(),
            r@.len() == i,
            forall|k: int| 0 <= k < i ==> image_metrics_spec(images@[k], r@[k]),
        decreases images@.len() - i,
    {
        r.push(run_image_calc(&images[i]));
        i += 1;
    }
    r
}

/// Computes amplitude metrics for each observation, in order, skipping the
/// observations the engine fails on: one observation's failure does not
/// abort the batch.
pub fn run_amp_metrics<T: Scalar>(solutions: &Vec<SolutionSet<T>>) -> (r: Vec<AmpMetrics<T>>)
    requires
        forall|i: int| 0 <= i < solutions@.len() ==> (#[trigger] solutions@[i]).well_formed(),
    ensures
        r@.len() == amp_ok_indices(solutions@).len(),
        forall|k: int|
            0 <= k < r@.len() ==> amp_metrics_spec(
                solutions@[amp_ok_indices(solutions@)[k]],
                r@[k],
            ),
{
    let mut r: Vec<AmpMetrics<T>> = Vec::new();
    let mut i: usize = 0;
    while i < solutions.len()
        invariant
            forall|k: int| 0 <= k < solutions@.len() ==> (#[trigger] solutions@[k]).well_formed(),
            0 <= i <= solutions@.len(),
            r@.len() == amp_ok_below(solutions@, i as int).len(),
            forall|k: int|
                0 <= k < r@.len() ==> amp_metrics_spec(
                    solutions@[amp_ok_below(solutions@, i as int)[k]],
                    r@[k],
                ),
        decreases solutions@.len() - i,
    {
        proof {
            lemma_amp_ok_below(solutions@, i as int);
        }
        match run_smoothness_calc(&solutions[i]) {
            Ok(m) => {
                r.push(m);
            },
            Err(_) => {},
        }
        i += 1;
    }
    r
}

/// Computes phase metrics for each observation, in order.
pub fn run_phase_metrics<T: Scalar>(solutions: &Vec<SolutionSet<T>>) -> (r: Vec<PhaseMetrics<T>>)
    requires
        forall|i: int| 0 <= i < solutions@.len() ==> (#[trigger] solutions@[i]).well_formed(),
    ensures
        r@.len() == solutions@.len(),
        forall|i: int| 0 <= i < r@.len() ==> phase_metrics_spec(solutions@[i], r@[i]),
{
    let mut r: Vec<PhaseMetrics<T>> = Vec::new();
    let mut i: usize = 0;
    while i < solutions.len()
        invariant
            forall|k: int| 0 <= k < solutions@.len() ==> (#[trigger] solutions@[k]).well_formed(),
            0 <= i <= solutions@.len(),
            r@.len() == i,
            forall|k: int| 0 <= k < i ==> phase_metrics_spec(solutions@[k], r@[k]),
        decreases solutions@.len() - i,
    {
        r.push(run_phase_calcs(&solutions[i]));
        i += 1;
    }
    r
}

/// Computes both calibration metric sets over the same observations.
pub fn run_cal_metrics<T: Scalar>(solutions: &Vec<SolutionSet<T>>) -> (r: (
    Vec<AmpMetrics<T>>,
    Vec<PhaseMetrics<T>>,
))
    requires
        forall|i: int| 0 <= i < solutions@.len() ==> (#[trigger] solutions@[i]).well_formed(),
    ensures
        r.0@.len() == amp_ok_indices(solutions@).len(),
        forall|k: int|
            0 <= k < r.0@.len() ==> amp_metrics_spec(
                solutions@[amp_ok_indices(solutions@)[k]],
                r.0@[k],
            ),
        r.1@.len() == solutions@.len(),
        forall|i: int| 0 <= i < r.1@.len() ==> phase_metrics_spec(solutions@[i], r.1@[i]),
{
    let amp = run_amp_metrics(solutions);
    let phase = run_phase_metrics(solutions);
    (amp, phase)
}

impl Commands {
    /// Runs the selected metric subset over the loaded observations and
    /// images; the vectors of an unselected metric stay empty.
    pub fn run<T: Scalar>(
        &self,
        solutions: &Vec<SolutionSet<T>>,
        images: &Vec<Image<T>>,
    ) -> (r: MetricsReport<T>)
        requires
            forall|i: int| 0 <= i < solutions@.len() ==> (#[trigger] solutions@[i]).well_formed(),
            forall|i: int| 0 <= i < images@.len() ==> (#[trigger] images@[i]).well_formed(),
        ensures
            match *self {
                Commands::ImgMetrics => {
                    &&& r.image@.len() == images@.len()
                    &&& forall|i: int|
                        0 <= i < r.image@.len() ==> image_metrics_spec(images@[i], r.image@[i])
                    &&& r.amp@.len() == 0
                    &&& r.phase@.len() == 0
                },
                Commands::AmpMetrics => {
                    &&& r.amp@.len() == amp_ok_indices(solutions@).len()
                    &&& forall|k: int|
                        0 <= k < r.amp@.len() ==> amp_metrics_spec(
                            solutions@[amp_ok_indices(solutions@)[k]],
                            r.amp@[k],
                        )
                    &&& r.phase@.len() == 0
                    &&& r.image@.len() == 0
                },
                Commands::PhaseMetrics => {
                    &&& r.phase@.len() == solutions@.len()
                    &&& forall|i: int|
                        0 <= i < r.phase@.len() ==> phase_metrics_spec(solutions@[i], r.phase@[i])
                    &&& r.amp@.len() == 0
                    &&& r.image@.len() == 0
                },
                Commands::CalMetrics => {
                    &&& r.amp@.len() == amp_ok_indices(solutions@).len()
                    &&& forall|k: int|
                        0 <= k < r.amp@.len() ==> amp_metrics_spec(
                            solutions@[amp_ok_indices(solutions@)[k]],
                            r.amp@[k],
                        )
                    &&& r.phase@.len() == solutions@.len()
                    &&& forall|i: int|
                        0 <= i < r.phase@.len() ==> phase_metrics_spec(solutions@[i], r.phase@[i])
                    &&& r.image@.len() == 0
                },
            },
    {
        match self {
            Commands::ImgMetrics => {
                let image = run_img_metrics(images);
                MetricsReport { amp: Vec::new(), phase: Vec::new(), image }
            },
            Commands::CalMetrics => {
                let (amp, phase) = run_cal_metrics(solutions);
                MetricsReport { amp, phase, image: Vec::new() }
            },
            Commands::AmpMetrics => {
                let amp = run_amp_metrics(solutions);
                MetricsReport { amp, phase: Vec::new(), image: Vec::new() }
            },
            Commands::PhaseMetrics => {
                let phase = run_phase_metrics(solutions);
                MetricsReport { amp: Vec::new(), phase, image: Vec::new() }
            },
        }
    }
}

/// Flagging parity: the amplitude engine and the phase engine report
/// exactly the same tiles, in the same order — the unflagged tiles of the
/// data model, ascending, and every unflagged tile is among them. The
/// engines' output vectors therefore refer to the same physical antennas
/// position by position, which is what downstream positional joins rely on.
pub proof fn lemma_flagging_parity<T: Scalar>(s: SolutionSet<T>)
    ensures
        amp_tiles(s) == phase_tiles(s),
        forall|i: int|
            0 <= i < amp_tiles(s).len() ==> {
                &&& 0 <= #[trigger] amp_tiles(s)[i] < s.num_tiles
                &&& !s.tile_flagged(amp_tiles(s)[i])
            },
        forall|i: int, j: int|
            0 <= i < j < amp_tiles(s).len() ==> amp_tiles(s)[i] < amp_tiles(s)[j],
        forall|t: int|
            0 <= t < s.num_tiles && !s.tile_flagged(t) ==> amp_tiles(s).contains(t),
{
    s.lemma_kept_tiles_below(s.num_tiles as int);
    s.lemma_kept_tiles_complete(s.num_tiles as int);
}

} // verus!
