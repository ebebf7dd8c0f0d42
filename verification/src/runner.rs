//! How the audio pipeline is assembled and clocked: which stages run, in which order, and
//! when they re-analyze their statistics.
use vstd::prelude::*;

verus! {

/// A kind of pipeline stage.
#[derive(Debug, Clone, Copy, PartialEq, Eq, Structural)]
pub enum StageId {
    HighPass,
    Bandpass,
    Zcr,
    Mfcc,
    EnergyDetector,
    AutoEnergy,
}

/// The name a stage is reported under.
pub open spec fn stage_name(id: StageId) -> Seq<char> {
    match id {
        StageId::HighPass => "highpass"@,
        StageId::Bandpass => "bandpass"@,
        StageId::Zcr => "zcr"@,
        StageId::Mfcc => "mfcc"@,
        StageId::EnergyDetector => "energy_detector"@,
        StageId::AutoEnergy => "auto_energy"@,
    }
}

impl StageId {
    /// The name this stage is reported under.
    pub fn name(self) -> (r: &'static str)
        ensures
            r@ == stage_name(self),
    {
        match self {
            StageId::HighPass => "highpass",
            StageId::Bandpass => "bandpass",
            StageId::Zcr => "zcr",
            StageId::Mfcc => "mfcc",
            StageId::EnergyDetector => "energy_detector",
            StageId::AutoEnergy => "auto_energy",
        }
    }
}

/// Which stages the configuration asks for. A filter or observer section counts when it is
/// present and enabled; a detector section counts when it is present.
#[derive(Debug, Clone, Copy, PartialEq, Eq, Structural)]
pub struct StageSelection {
    pub highpass: bool,
    pub bandpass: bool,
    pub zcr: bool,
    pub mfcc: bool,
    pub energy_detector: bool,
    pub auto_energy: bool,
}

/// `s` followed by `id` when `on`.
pub open spec fn push_if(s: Seq<StageId>, on: bool, id: StageId) -> Seq<StageId> {
    if on {
        s.push(id)
    } else {
        s
    }
}

/// The stages in running order: the filter first, then the observers (band energy,
/// zero-crossing rate, cepstrum), then the detectors, which can stop a frame.
pub open spec fn stage_plan_spec(sel: StageSelection) -> Seq<StageId> {
    let s = push_if(Seq::empty(), sel.highpass, StageId::HighPass);
    let s = push_if(s, sel.bandpass, StageId::Bandpass);
    let s = push_if(s, sel.zcr, StageId::Zcr);
    let s = push_if(s, sel.mfcc, StageId::Mfcc);
    let s = push_if(s, sel.energy_detector, StageId::EnergyDetector);
    push_if(s, sel.auto_energy, StageId::AutoEnergy)
}

/// The stages to build, in running order.
pub fn stage_plan(sel: StageSelection) -> (r: Vec<StageId>)
    ensures
        r@ == stage_plan_spec(sel),
{
    let mut v: Vec<StageId> = Vec::new();
    if sel.highpass {
        v.push(StageId::HighPass);
    }
    if sel.bandpass {
        v.push(StageId::Bandpass);
    }
    if sel.zcr {
        v.push(StageId::Zcr);
    }
    if sel.mfcc {
        v.push(StageId::Mfcc);
    }
    if sel.energy_detector {
        v.push(StageId::EnergyDetector);
    }
    if sel.auto_energy {
        v.push(StageId::AutoEnergy);
    }
    v
}

/// Frames between two analyses when the configuration leaves it at zero.
pub const DEFAULT_ANALYZE_INTERVAL: u64 = 50;

/// The analysis interval in frames: the configured one, or the default for zero.
pub fn analyze_interval(configured: u64) -> (r: u64)
    ensures
        r == (if configured == 0 {
            DEFAULT_ANALYZE_INTERVAL
        } else {
            configured
        }),
        r > 0,
{
    if configured == 0 {
        DEFAULT_ANALYZE_INTERVAL
    } else {
        configured
    }
}

/// Whether the stages re-analyze after frame number `frame_count` (counting from one):
/// every `interval` frames.
pub fn is_analyze_frame(frame_count: u64, interval: u64) -> (r: bool)
    requires
        interval > 0,
    ensures
        r == (frame_count % interval == 0),
{
    frame_count % interval == 0
}

/// The samples in the 20 ms frame the cepstrum stage works on.
pub fn mfcc_frame_size(sample_rate: u32) -> (r: usize)
    requires
        sample_rate * 20 <= u32::MAX,
    ensures
        r == sample_rate * 20 / 1000,
{
    (sample_rate * 20 / 1000) as usize
}

} // verus!
