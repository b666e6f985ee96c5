//! One tick's duty computation: looking each fan's source up in the sample
//! set, falling back to the sentinel temperature when the source is
//! missing, and evaluating the fan's ramp table, for every fixed channel.

use vstd::prelude::*;
use crate::config::{Config, FanConfig, ramp_sorted};
use crate::curve::{eval_ramp, spec_duty};
use crate::sample::SampleSet;
use crate::sensor::SENTINEL_TEMP_C;

verus! {

/// The temperature a fan reacts to: its source's reading this tick, or the
/// fail-safe sentinel when the sample set has no reading under that name.
pub open spec fn spec_fan_temp(temps: SampleSet, fan: FanConfig) -> u32 {
    match temps.spec_lookup(fan.temp_source_name@) {
        Some(t) => t,
        None => SENTINEL_TEMP_C,
    }
}

/// The duty cycle a fan is commanded this tick: its ramp table evaluated at
/// the temperature it reacts to.
pub open spec fn spec_dcycle(temps: SampleSet, fan: FanConfig) -> int {
    spec_duty(fan.ramp@, spec_fan_temp(temps, fan) as int)
}

/// Compute one fan channel's duty cycle from the tick's sample set and the
/// fan's ramp table.
pub fn compute_dcycle(temps: &SampleSet, fan: &FanConfig) -> (d: u32)
    requires
        ramp_sorted(fan.ramp@),
    ensures
        d as int == spec_dcycle(*temps, *fan),
{
    let temp = match temps.get(&fan.temp_source_name) {
        Some(t) => t,
        None => SENTINEL_TEMP_C,
    };
    eval_ramp(&fan.ramp, temp)
}

/// One duty cycle per fixed fan position, for one tick. Transient: encoded
/// into the actuation command and discarded.
#[derive(Clone, Copy, PartialEq, Eq, Structural, Debug)]
pub struct DutySet {
    pub cpu: u32,
    pub frnt1: u32,
    pub frnt2: u32,
    pub frnt3: u32,
    pub frnt4: u32,
    pub rear1: u32,
    pub rear2: u32,
}

/// Compute every fixed channel's duty cycle for this tick, each from its
/// own configuration.
pub fn control_fans(cfg: &Config, temps: &SampleSet) -> (d: DutySet)
    requires
        cfg.wf(),
    ensures
        d.cpu as int == spec_dcycle(*temps, cfg.cpu_fan),
        d.frnt1 as int == spec_dcycle(*temps, cfg.frnt_fan1),
        d.frnt2 as int == spec_dcycle(*temps, cfg.frnt_fan2),
        d.frnt3 as int == spec_dcycle(*temps, cfg.frnt_fan3),
        d.frnt4 as int == spec_dcycle(*temps, cfg.frnt_fan4),
        d.rear1 as int == spec_dcycle(*temps, cfg.rear_fan1),
        d.rear2 as int == spec_dcycle(*temps, cfg.rear_fan2),
{
    DutySet {
        cpu: compute_dcycle(temps, &cfg.cpu_fan),
        frnt1: compute_dcycle(temps, &cfg.frnt_fan1),
        frnt2: compute_dcycle(temps, &cfg.frnt_fan2),
        frnt3: compute_dcycle(temps, &cfg.frnt_fan3),
        frnt4: compute_dcycle(temps, &cfg.frnt_fan4),
        rear1: compute_dcycle(temps, &cfg.rear_fan1),
        rear2: compute_dcycle(temps, &cfg.rear_fan2),
    }
}

} // verus!
