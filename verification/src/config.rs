//! Configuration data: temperature sources, fan ramp tables and the tick
//! interval. Values of these types arrive from the outside already parsed;
//! this module only defines them and the well-formedness they are used under.

use vstd::prelude::*;

verus! {

/// One breakpoint of a fan's response curve: at `temp_c` degrees Celsius
/// the fan runs at `duty_cyc` percent.
#[derive(Clone, Copy, PartialEq, Eq, Structural, Debug)]
pub struct RampStep {
    pub temp_c: u32,
    pub duty_cyc: u32,
}

/// Steps sorted ascending by temperature (ties allowed).
pub open spec fn ramp_sorted(ramp: Seq<RampStep>) -> bool {
    forall|i: int, j: int| 0 <= i <= j < ramp.len() ==> ramp[i].temp_c <= ramp[j].temp_c
}

/// Steps strictly ascending by temperature: each temperature names one step.
pub open spec fn ramp_strictly_sorted(ramp: Seq<RampStep>) -> bool {
    forall|i: int, j: int| 0 <= i < j < ramp.len() ==> ramp[i].temp_c < ramp[j].temp_c
}

/// Duty cycles non-decreasing along the table.
pub open spec fn ramp_duties_nondecreasing(ramp: Seq<RampStep>) -> bool {
    forall|i: int, j: int| 0 <= i <= j < ramp.len() ==> ramp[i].duty_cyc <= ramp[j].duty_cyc
}

/// Locator for a sensor file: the hardware device's advertised name and the
/// label under which the device exposes the wanted temperature channel.
pub struct SensorSpec {
    pub device_name: String,
    pub sensor_name: String,
}

/// One temperature source: a unique name and either a resolved file path,
/// a locator to resolve one from, or both (the path wins).
pub struct TempSource {
    pub name: String,
    pub path: Option<String>,
    pub sensor: Option<SensorSpec>,
}

/// One fan channel: which source it follows and its response curve.
/// The ramp must be sorted ascending by temperature; this is the caller's
/// obligation and is not validated.
pub struct FanConfig {
    pub temp_source_name: String,
    pub ramp: Vec<RampStep>,
}

impl FanConfig {
    /// The caller-guaranteed shape of a ramp table.
    pub open spec fn wf(&self) -> bool {
        ramp_sorted(self.ramp@)
    }
}

/// The whole configuration: the tick interval, the temperature sources and
/// one ramp table per fixed fan position.
pub struct Config {
    pub interval_ms: u32,
    pub temp_sources: Vec<TempSource>,
    pub cpu_fan: FanConfig,
    pub frnt_fan1: FanConfig,
    pub frnt_fan2: FanConfig,
    pub frnt_fan3: FanConfig,
    pub frnt_fan4: FanConfig,
    pub rear_fan1: FanConfig,
    pub rear_fan2: FanConfig,
}

impl Config {
    /// Every fan channel's ramp is sorted.
    pub open spec fn wf(&self) -> bool {
        &&& self.cpu_fan.wf()
        &&& self.frnt_fan1.wf()
        &&& self.frnt_fan2.wf()
        &&& self.frnt_fan3.wf()
        &&& self.frnt_fan4.wf()
        &&& self.rear_fan1.wf()
        &&& self.rear_fan2.wf()
    }
}

} // verus!
