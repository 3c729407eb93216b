//! Sensors as the acquisition subsystem describes them.

use vstd::prelude::*;

verus! {

/// Milliseconds between two polls of the sensors.
pub const POLL_INTERVAL_MS: u64 = 500;

/// The group a sensor is charted with.
#[derive(Clone, Copy, Debug, PartialEq, Eq, Structural)]
pub enum Category {
    Cpu,
    Gpu,
    Hdd,
    Fan,
    /// A miscellaneous sensor. The flag says whether the sensor is shown in
    /// the miscellaneous chart.
    Other(bool),
}

impl Category {
    /// The scale ceiling of a chart of this category when no sensor in it
    /// declares one.
    pub open spec fn spec_default_ceiling(self) -> u64 {
        match self {
            Category::Cpu => 80,
            Category::Gpu => 90,
            Category::Hdd => 60,
            Category::Fan => 4000,
            Category::Other(_) => 80,
        }
    }

    /// The scale ceiling of a chart of this category when no sensor in it
    /// declares one.
    #[verifier::when_used_as_spec(spec_default_ceiling)]
    pub fn default_ceiling(self) -> (ceiling: u64)
        ensures
            ceiling == self.spec_default_ceiling(),
    {
        match self {
            Category::Cpu => 80,
            Category::Gpu => 90,
            Category::Hdd => 60,
            Category::Fan => 4000,
            Category::Other(_) => 80,
        }
    }
}

/// What is known of a sensor once it has been discovered. It never changes
/// afterwards.
#[derive(Debug, PartialEq, Eq)]
pub struct SensorDescriptor {
    /// Identifies the sensor in updates.
    pub id: u64,
    /// The label shown under the sensor's bar.
    pub name: String,
    pub category: Category,
    /// The scale ceiling the sensor declares, if it declares one.
    pub max: Option<u64>,
}

/// The mathematical value of a [`SensorDescriptor`].
pub struct SensorModel {
    pub id: u64,
    pub name: Seq<char>,
    pub category: Category,
    pub max: Option<u64>,
}

impl View for SensorDescriptor {
    type V = SensorModel;

    open spec fn view(&self) -> SensorModel {
        SensorModel { id: self.id, name: self.name@, category: self.category, max: self.max }
    }
}

/// A sensor together with its latest value.
#[derive(Debug, PartialEq, Eq)]
pub struct Reading {
    pub sensor: SensorDescriptor,
    pub value: u64,
}

/// The mathematical value of a [`Reading`].
pub struct ReadingModel {
    pub sensor: SensorModel,
    pub value: u64,
}

impl View for Reading {
    type V = ReadingModel;

    open spec fn view(&self) -> ReadingModel {
        ReadingModel { sensor: self.sensor@, value: self.value }
    }
}

/// The readings of a snapshot as mathematical values, in the same order.
pub open spec fn readings_model(readings: Seq<Reading>) -> Seq<ReadingModel> {
    readings.map_values(|r: Reading| r@)
}

impl Clone for Reading {
    fn clone(&self) -> (copy: Self)
        ensures
            copy == *self,
    {
        Reading { sensor: self.sensor.clone(), value: self.value }
    }
}

impl Clone for SensorDescriptor {
    fn clone(&self) -> (copy: Self)
        ensures
            copy == *self,
    {
        SensorDescriptor {
            id: self.id,
            name: self.name.clone(),
            category: self.category,
            max: self.max,
        }
    }
}

} // verus!
