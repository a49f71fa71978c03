//! Sensors, their libretro encodings, location intervals, and the frontend's
//! sensor and location interfaces as the entry points they provide.

use crate::raw::{
    retro_sensor_action, RETRO_SENSOR_ACCELEROMETER_X, RETRO_SENSOR_ACCELEROMETER_Y,
    RETRO_SENSOR_ACCELEROMETER_Z, RETRO_SENSOR_GYROSCOPE_X, RETRO_SENSOR_GYROSCOPE_Y,
    RETRO_SENSOR_GYROSCOPE_Z, RETRO_SENSOR_ILLUMINANCE,
};
use vstd::prelude::*;

verus! {

/// A controller input port.
#[derive(Clone, Copy, Debug, Default, PartialEq, Eq, Hash, Structural)]
pub struct InputPort(u32);

impl View for InputPort {
    type V = u32;

    closed spec fn view(&self) -> u32 {
        self.0
    }
}

impl InputPort {
    /// A value is determined by its view: two values are equal exactly
    /// when their views are.
    pub proof fn lemma_view_injective(a: Self, b: Self)
        ensures
            a@ == b@ <==> a == b,
    {
    }
}

impl InputPort {
    pub fn new(port: u32) -> (input_port: Self)
        ensures
            input_port@ == port,
    {
        InputPort(port)
    }

    pub fn as_raw(self) -> (port: u32)
        ensures
            port == self@,
    {
        self.0
    }
}

impl From<u32> for InputPort {
    fn from(port: u32) -> (input_port: Self)
        ensures
            input_port@ == port,
    {
        InputPort::new(port)
    }
}

impl vstd::std_specs::convert::FromSpecImpl<u32> for InputPort {
    open spec fn obeys_from_spec() -> bool {
        true
    }

    closed spec fn from_spec(port: u32) -> Self {
        InputPort(port)
    }
}

/// A sensor the frontend may drive.
#[derive(Clone, Copy, Debug, PartialEq, Eq, Hash, Structural)]
pub enum Sensor {
    Accelerometer,
    Gyroscope,
    Illuminance,
}

/// Turning a sensor on or off.
#[derive(Clone, Copy, Debug, PartialEq, Eq, Hash, Structural)]
pub enum SensorAction {
    Enable(Sensor),
    Disable(Sensor),
}

/// The libretro action for a sensor action.
pub open spec fn spec_sensor_action_raw(action: SensorAction) -> retro_sensor_action {
    match action {
        SensorAction::Enable(Sensor::Accelerometer) => retro_sensor_action::AccelerometerEnable,
        SensorAction::Disable(Sensor::Accelerometer) => retro_sensor_action::AccelerometerDisable,
        SensorAction::Enable(Sensor::Gyroscope) => retro_sensor_action::GyroscopeEnable,
        SensorAction::Disable(Sensor::Gyroscope) => retro_sensor_action::GyroscopeDisable,
        SensorAction::Enable(Sensor::Illuminance) => retro_sensor_action::IlluminanceEnable,
        SensorAction::Disable(Sensor::Illuminance) => retro_sensor_action::IlluminanceDisable,
    }
}

impl SensorAction {
    pub fn as_raw(self) -> (raw: retro_sensor_action)
        ensures
            raw == spec_sensor_action_raw(self),
    {
        match self {
            SensorAction::Enable(Sensor::Accelerometer) => retro_sensor_action::AccelerometerEnable,
            SensorAction::Disable(Sensor::Accelerometer) => retro_sensor_action::AccelerometerDisable,
            SensorAction::Enable(Sensor::Gyroscope) => retro_sensor_action::GyroscopeEnable,
            SensorAction::Disable(Sensor::Gyroscope) => retro_sensor_action::GyroscopeDisable,
            SensorAction::Enable(Sensor::Illuminance) => retro_sensor_action::IlluminanceEnable,
            SensorAction::Disable(Sensor::Illuminance) => retro_sensor_action::IlluminanceDisable,
        }
    }
}

/// Distinct sensor actions have distinct libretro encodings.
pub proof fn lemma_sensor_action_raw_injective(a: SensorAction, b: SensorAction)
    ensures
        spec_sensor_action_raw(a) == spec_sensor_action_raw(b) ==> a == b,
{
}

/// A sensor sampling rate in hertz.
#[derive(Clone, Copy, Debug, Default, PartialEq, Eq, Hash, Structural)]
pub struct SensorRateHz(u32);

impl View for SensorRateHz {
    type V = u32;

    closed spec fn view(&self) -> u32 {
        self.0
    }
}

impl SensorRateHz {
    /// A value is determined by its view: two values are equal exactly
    /// when their views are.
    pub proof fn lemma_view_injective(a: Self, b: Self)
        ensures
            a@ == b@ <==> a == b,
    {
    }
}

impl SensorRateHz {
    pub fn new(rate: u32) -> (hz: Self)
        ensures
            hz@ == rate,
    {
        SensorRateHz(rate)
    }

    pub fn as_raw(self) -> (rate: u32)
        ensures
            rate == self@,
    {
        self.0
    }
}

impl From<u32> for SensorRateHz {
    fn from(rate: u32) -> (hz: Self)
        ensures
            hz@ == rate,
    {
        SensorRateHz::new(rate)
    }
}

impl vstd::std_specs::convert::FromSpecImpl<u32> for SensorRateHz {
    open spec fn obeys_from_spec() -> bool {
        true
    }

    closed spec fn from_spec(rate: u32) -> Self {
        SensorRateHz(rate)
    }
}

/// The time between location updates, in milliseconds.
#[derive(Clone, Copy, Debug, Default, PartialEq, Eq, Hash, Structural)]
pub struct LocationIntervalMillis(u32);

impl View for LocationIntervalMillis {
    type V = u32;

    closed spec fn view(&self) -> u32 {
        self.0
    }
}

impl LocationIntervalMillis {
    /// A value is determined by its view: two values are equal exactly
    /// when their views are.
    pub proof fn lemma_view_injective(a: Self, b: Self)
        ensures
            a@ == b@ <==> a == b,
    {
    }
}

impl LocationIntervalMillis {
    pub fn new(milliseconds: u32) -> (interval: Self)
        ensures
            interval@ == milliseconds,
    {
        LocationIntervalMillis(milliseconds)
    }

    pub fn as_millis(self) -> (milliseconds: u32)
        ensures
            milliseconds == self@,
    {
        self.0
    }
}

impl From<u32> for LocationIntervalMillis {
    fn from(milliseconds: u32) -> (interval: Self)
        ensures
            interval@ == milliseconds,
    {
        LocationIntervalMillis::new(milliseconds)
    }
}

impl vstd::std_specs::convert::FromSpecImpl<u32> for LocationIntervalMillis {
    open spec fn obeys_from_spec() -> bool {
        true
    }

    closed spec fn from_spec(milliseconds: u32) -> Self {
        LocationIntervalMillis(milliseconds)
    }
}

/// The distance between location updates, in meters.
#[derive(Clone, Copy, Debug, Default, PartialEq, Eq, Hash, Structural)]
pub struct LocationIntervalMeters(u32);

impl View for LocationIntervalMeters {
    type V = u32;

    closed spec fn view(&self) -> u32 {
        self.0
    }
}

impl LocationIntervalMeters {
    /// A value is determined by its view: two values are equal exactly
    /// when their views are.
    pub proof fn lemma_view_injective(a: Self, b: Self)
        ensures
            a@ == b@ <==> a == b,
    {
    }
}

impl LocationIntervalMeters {
    pub fn new(meters: u32) -> (interval: Self)
        ensures
            interval@ == meters,
    {
        LocationIntervalMeters(meters)
    }

    pub fn as_meters(self) -> (meters: u32)
        ensures
            meters == self@,
    {
        self.0
    }
}

impl From<u32> for LocationIntervalMeters {
    fn from(meters: u32) -> (interval: Self)
        ensures
            interval@ == meters,
    {
        LocationIntervalMeters::new(meters)
    }
}

impl vstd::std_specs::convert::FromSpecImpl<u32> for LocationIntervalMeters {
    open spec fn obeys_from_spec() -> bool {
        true
    }

    closed spec fn from_spec(meters: u32) -> Self {
        LocationIntervalMeters(meters)
    }
}

/// The frontend's location interface: which of its entry points it provides.
#[derive(Clone, Copy, Debug, Default, PartialEq, Eq, Structural)]
pub struct LocationInterface {
    pub start: bool,
    pub stop: bool,
    pub get_position: bool,
    pub set_interval: bool,
}

impl LocationInterface {
    /// Whether the frontend provides every location entry point.
    pub fn is_available(self) -> (available: bool)
        ensures
            available == (self.start && self.stop && self.get_position && self.set_interval),
    {
        self.start && self.stop && self.get_position && self.set_interval
    }
}

/// One input of a sensor.
#[derive(Clone, Copy, Debug, PartialEq, Eq, Hash, Structural)]
pub enum SensorInput {
    AccelerometerX,
    AccelerometerY,
    AccelerometerZ,
    GyroscopeX,
    GyroscopeY,
    GyroscopeZ,
    Illuminance,
}

/// The libretro id of a sensor input.
pub open spec fn spec_sensor_input_raw(input: SensorInput) -> u32 {
    match input {
        SensorInput::AccelerometerX => RETRO_SENSOR_ACCELEROMETER_X,
        SensorInput::AccelerometerY => RETRO_SENSOR_ACCELEROMETER_Y,
        SensorInput::AccelerometerZ => RETRO_SENSOR_ACCELEROMETER_Z,
        SensorInput::GyroscopeX => RETRO_SENSOR_GYROSCOPE_X,
        SensorInput::GyroscopeY => RETRO_SENSOR_GYROSCOPE_Y,
        SensorInput::GyroscopeZ => RETRO_SENSOR_GYROSCOPE_Z,
        SensorInput::Illuminance => RETRO_SENSOR_ILLUMINANCE,
    }
}

impl SensorInput {
    pub fn as_raw(self) -> (id: u32)
        ensures
            id == spec_sensor_input_raw(self),
    {
        match self {
            SensorInput::AccelerometerX => RETRO_SENSOR_ACCELEROMETER_X,
            SensorInput::AccelerometerY => RETRO_SENSOR_ACCELEROMETER_Y,
            SensorInput::AccelerometerZ => RETRO_SENSOR_ACCELEROMETER_Z,
            SensorInput::GyroscopeX => RETRO_SENSOR_GYROSCOPE_X,
            SensorInput::GyroscopeY => RETRO_SENSOR_GYROSCOPE_Y,
            SensorInput::GyroscopeZ => RETRO_SENSOR_GYROSCOPE_Z,
            SensorInput::Illuminance => RETRO_SENSOR_ILLUMINANCE,
        }
    }
}

/// A call of the frontend's `set_sensor_state`: port, action and rate.
#[derive(Clone, Copy, Debug, PartialEq, Eq, Structural)]
pub struct SensorStateCall {
    pub port: u32,
    pub action: retro_sensor_action,
    pub rate: u32,
}

/// The frontend's sensor interface: which of its entry points it provides.
#[derive(Clone, Copy, Debug, Default, PartialEq, Eq, Structural)]
pub struct SensorInterface {
    pub set_sensor_state: bool,
    pub get_sensor_input: bool,
}

impl SensorInterface {
    /// Whether the frontend provides both sensor entry points.
    pub fn is_available(self) -> (available: bool)
        ensures
            available == (self.set_sensor_state && self.get_sensor_input),
    {
        self.set_sensor_state && self.get_sensor_input
    }

    /// The `set_sensor_state` call for `action` on `port` at `rate`; none
    /// where the frontend gives no `set_sensor_state`.
    pub fn set_state(self, port: InputPort, action: SensorAction, rate: SensorRateHz) -> (call:
        Option<SensorStateCall>)
        ensures
            self.set_sensor_state ==> call == Some(
                SensorStateCall {
                    port: port@,
                    action: spec_sensor_action_raw(action),
                    rate: rate@,
                },
            ),
            !self.set_sensor_state ==> call is None,
    {
        if self.set_sensor_state {
            Some(SensorStateCall { port: port.as_raw(), action: action.as_raw(), rate: rate.as_raw() })
        } else {
            None
        }
    }

    /// The call that turns `sensor` on at `rate`.
    pub fn enable(self, port: InputPort, sensor: Sensor, rate: SensorRateHz) -> (call: Option<
        SensorStateCall,
    >)
        ensures
            self.set_sensor_state ==> call == Some(
                SensorStateCall {
                    port: port@,
                    action: spec_sensor_action_raw(SensorAction::Enable(sensor)),
                    rate: rate@,
                },
            ),
            !self.set_sensor_state ==> call is None,
    {
        self.set_state(port, SensorAction::Enable(sensor), rate)
    }

    /// The call that turns `sensor` off (with rate 0).
    pub fn disable(self, port: InputPort, sensor: Sensor) -> (call: Option<SensorStateCall>)
        ensures
            self.set_sensor_state ==> call == Some(
                SensorStateCall {
                    port: port@,
                    action: spec_sensor_action_raw(SensorAction::Disable(sensor)),
                    rate: 0,
                },
            ),
            !self.set_sensor_state ==> call is None,
    {
        self.set_state(port, SensorAction::Disable(sensor), SensorRateHz::new(0))
    }
}

} // verus!
