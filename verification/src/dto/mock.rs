//! Mock source configuration.
use vstd::prelude::*;

use super::config_value::ConfigValue;

verus! {

/// The data a mock source produces.
#[derive(Debug, Clone, PartialEq, Eq, Structural)]
pub enum DataTypeDto {
    Counter,
    SensorReading { sensor_count: u32 },
    Generic,
}

impl Default for DataTypeDto {
    /// Generic data unless a source says otherwise.
    fn default() -> (r: Self)
        ensures
            r == DataTypeDto::Generic,
    {
        DataTypeDto::Generic
    }
}

/// Mock source configuration.
#[derive(Debug, Clone)]
pub struct MockSourceConfigDto {
    pub data_type: DataTypeDto,
    pub interval_ms: ConfigValue<u64>,
}

/// Sensor readings come from 5 sensors unless a source says otherwise.
pub fn default_sensor_count() -> (r: u32)
    ensures
        r == 5,
{
    5
}

/// A mock source produces every 5000 ms unless it says otherwise.
pub fn default_interval_ms() -> (r: ConfigValue<u64>)
    ensures
        r matches ConfigValue::Static(v) && v == 5000,
{
    ConfigValue::Static(5000)
}

} // verus!
