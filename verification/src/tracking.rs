//! The calibration schedule of head tracking: which IMU samples feed the
//! gyro-bias estimate, when the filter is reset with the bias, and when the
//! forward direction is captured.

use vstd::prelude::*;

verus! {

/// Number of IMU samples to average for gyro bias estimation.
pub const BIAS_SAMPLES: u32 = 1000;

/// Extra samples after the filter reset to let pitch and roll reconverge
/// before the calibration offset is captured.
pub const CONVERGENCE_SAMPLES: u32 = 500;

/// Calibration work due after a sample has been fed to the filter.
pub enum CalibrationStep {
    /// Nothing beyond the update.
    Nothing,
    /// Average the gyro readings gathered so far into the bias, and reset the
    /// filter so that it restarts from bias-corrected data.
    EstimateBias,
    /// Capture the current orientation as the forward direction.
    CaptureCalibration,
}

/// What to do with an accelerometer/gyroscope sample.
pub enum SampleAction {
    /// The first sample: only its timestamp is kept.
    Remember,
    /// Feed the filter with a sample taken `dt_micros` microseconds after the
    /// previous one. When `subtract_bias` holds the gyro reading is corrected
    /// by the estimated bias; otherwise it is added to the bias sums.
    Integrate { dt_micros: u64, subtract_bias: bool, step: CalibrationStep },
}

/// State of the tracking loop between samples.
pub struct TrackingState {
    last_timestamp: Option<u64>,
    sample_count: u32,
}

/// Abstract state: the timestamp of the previous sample (if any) and the
/// number of samples fed to the filter.
pub struct TrackingView {
    pub last_timestamp: Option<u64>,
    pub sample_count: nat,
}

impl View for TrackingState {
    type V = TrackingView;

    closed spec fn view(&self) -> TrackingView {
        TrackingView { last_timestamp: self.last_timestamp, sample_count: self.sample_count as nat }
    }
}

/// Calibration work after the `count`-th sample fed to the filter.
pub open spec fn spec_calibration_step(count: nat) -> CalibrationStep {
    if count == BIAS_SAMPLES {
        CalibrationStep::EstimateBias
    } else if count == BIAS_SAMPLES + CONVERGENCE_SAMPLES {
        CalibrationStep::CaptureCalibration
    } else {
        CalibrationStep::Nothing
    }
}

/// One sample with timestamp `t` (microseconds): the next state and the
/// action.
pub open spec fn spec_on_sample(s: TrackingView, t: u64) -> (TrackingView, SampleAction) {
    match s.last_timestamp {
        None => (TrackingView { last_timestamp: Some(t), sample_count: s.sample_count }, SampleAction::Remember),
        Some(last) => {
            let count = s.sample_count + 1;
            (
                TrackingView { last_timestamp: Some(t), sample_count: count },
                SampleAction::Integrate {
                    dt_micros: (t - last) as u64,
                    subtract_bias: s.sample_count >= BIAS_SAMPLES,
                    step: spec_calibration_step(count),
                },
            )
        },
    }
}

/// The sample can be handled: its timestamp does not go back in time (the
/// difference would underflow) and the sample counter does not overflow.
pub open spec fn sample_fits(s: TrackingView, t: u64) -> bool {
    &&& s.sample_count < u32::MAX
    &&& match s.last_timestamp {
        Some(last) => last <= t,
        None => true,
    }
}

impl TrackingState {
    /// Before the first sample.
    pub fn new() -> (s: Self)
        ensures
            s@ == (TrackingView { last_timestamp: None, sample_count: 0 }),
    {
        TrackingState { last_timestamp: None, sample_count: 0 }
    }

    /// Timestamp of the previous sample.
    pub fn last_timestamp(&self) -> (t: Option<u64>)
        ensures
            t == self@.last_timestamp,
    {
        self.last_timestamp
    }

    /// Number of samples fed to the filter so far.
    pub fn sample_count(&self) -> (c: u32)
        ensures
            c == self@.sample_count,
    {
        self.sample_count
    }

    /// Handles an accelerometer/gyroscope sample taken at `timestamp`.
    pub fn on_sample(&mut self, timestamp: u64) -> (action: SampleAction)
        requires
            sample_fits(old(self)@, timestamp),
        ensures
            (final(self)@, action) == spec_on_sample(old(self)@, timestamp),
            final(self)@.last_timestamp == Some(timestamp),
            action is Remember <==> old(self)@.last_timestamp is None,
            action is Remember ==> final(self)@.sample_count == old(self)@.sample_count,
            action is Integrate ==> {
                &&& final(self)@.sample_count == old(self)@.sample_count + 1
                &&& action->dt_micros == timestamp - old(self)@.last_timestamp.unwrap()
                &&& (action->subtract_bias <==> old(self)@.sample_count >= 1000)
                &&& (action->step is EstimateBias <==> final(self)@.sample_count == 1000)
                &&& (action->step is CaptureCalibration <==> final(self)@.sample_count == 1500)
                &&& (action->step is Nothing <==> (final(self)@.sample_count != 1000
                    && final(self)@.sample_count != 1500))
            },
    {
        let action = match self.last_timestamp {
            None => SampleAction::Remember,
            Some(last) => {
                let dt_micros = timestamp - last;
                let subtract_bias = self.sample_count >= BIAS_SAMPLES;
                self.sample_count = self.sample_count + 1;
                let step = if self.sample_count == BIAS_SAMPLES {
                    CalibrationStep::EstimateBias
                } else if self.sample_count == BIAS_SAMPLES + CONVERGENCE_SAMPLES {
                    CalibrationStep::CaptureCalibration
                } else {
                    CalibrationStep::Nothing
                };
                SampleAction::Integrate { dt_micros, subtract_bias, step }
            },
        };
        self.last_timestamp = Some(timestamp);
        action
    }
}

/// The state and the actions after the samples `ts`, from the start.
pub open spec fn spec_run(ts: Seq<u64>) -> (TrackingView, Seq<SampleAction>)
    decreases ts.len(),
{
    if ts.len() == 0 {
        (TrackingView { last_timestamp: None, sample_count: 0 }, Seq::empty())
    } else {
        let (s, acts) = spec_run(ts.drop_last());
        let (s2, a) = spec_on_sample(s, ts.last());
        (s2, acts.push(a))
    }
}

/// The action the schedule prescribes for the `k`-th sample (from zero) of a
/// run: the first is only remembered; each later one is integrated, with the
/// bias subtracted after the first `BIAS_SAMPLES` integrated samples, the bias
/// estimated at integrated sample `BIAS_SAMPLES` and the calibration captured
/// at integrated sample `BIAS_SAMPLES + CONVERGENCE_SAMPLES`.
pub open spec fn scheduled(ts: Seq<u64>, k: int) -> SampleAction {
    if k == 0 {
        SampleAction::Remember
    } else {
        SampleAction::Integrate {
            dt_micros: (ts[k] - ts[k - 1]) as u64,
            subtract_bias: k > BIAS_SAMPLES,
            step: spec_calibration_step(k as nat),
        }
    }
}

/// Over any run of samples from the start, the counter counts the integrated
/// samples and every action follows the calibration schedule: the bias is
/// estimated exactly once, on the `BIAS_SAMPLES`-th integrated sample, bias
/// correction applies to exactly the samples after it, and the forward
/// direction is captured exactly once, `CONVERGENCE_SAMPLES` samples later.
pub proof fn lemma_calibration_schedule(ts: Seq<u64>)
    ensures
        ({
            let (s, acts) = spec_run(ts);
            &&& acts.len() == ts.len()
            &&& s.sample_count == if ts.len() == 0 {
                0
            } else {
                (ts.len() - 1) as nat
            }
            &&& s.last_timestamp == if ts.len() == 0 {
                None
            } else {
                Some(ts.last())
            }
            &&& forall|k: int| 0 <= k < ts.len() ==> acts[k] == scheduled(ts, k)
        }),
    decreases ts.len(),
{
    if ts.len() > 0 {
        let prev = ts.drop_last();
        lemma_calibration_schedule(prev);
        let (s, acts) = spec_run(prev);
        let (s2, acts2) = spec_run(ts);
        assert forall|k: int| 0 <= k < ts.len() implies acts2[k] == scheduled(ts, k) by {
            if k < prev.len() {
                assert(acts2[k] == acts[k]);
                assert(scheduled(prev, k) == scheduled(ts, k)) by {
                    if k > 0 {
                        assert(prev[k] == ts[k] && prev[k - 1] == ts[k - 1]);
                    }
                }
            }
        }
    }
}

/// Over any run of samples from the start, the bias is estimated for exactly
/// one sample, the 1000th integrated one (sample number 1000, counting the
/// first, merely remembered sample as number 0), and the forward direction is
/// captured for exactly one sample, the 1500th integrated one; every other
/// integrated sample needs no calibration work, and only the first sample is
/// merely remembered.
pub proof fn lemma_calibration_once(ts: Seq<u64>)
    ensures
        ({
            let acts = spec_run(ts).1;
            &&& acts.len() == ts.len()
            &&& forall|k: int| 0 <= k < ts.len() ==> (#[trigger] acts[k] is Remember <==> k == 0)
            &&& forall|k: int|
                0 <= k < ts.len() ==> (#[trigger] acts[k] is Integrate
                    && acts[k]->step is CaptureCalibration <==> k == 1500)
            &&& forall|k: int|
                0 <= k < ts.len() ==> (#[trigger] acts[k] is Integrate
                    && acts[k]->step is EstimateBias <==> k == 1000)
            &&& forall|k: int|
                0 <= k < ts.len() ==> (#[trigger] acts[k] is Integrate && acts[k]->step is Nothing
                    <==> (k >= 1 && k != 1000 && k != 1500))
            &&& forall|k: int|
                0 <= k < ts.len() ==> (#[trigger] acts[k] is Integrate && acts[k]->subtract_bias
                    <==> k > 1000)
            &&& forall|j: int, k: int|
                0 <= j < ts.len() && 0 <= k < ts.len() && #[trigger] acts[j] is Integrate
                    && acts[j]->step is CaptureCalibration && #[trigger] acts[k] is Integrate
                    && acts[k]->step is CaptureCalibration ==> j == k
        }),
{
    lemma_calibration_schedule(ts);
}

} // verus!
