//! The gateway's configuration: attached sensors and actuators, the board,
//! and the firmware build flags they select.

use vstd::arithmetic::div_mod::lemma_add_mod_noop;
use vstd::prelude::*;

verus! {

/// Sensors the firmware can be built with. `DHT11` is the combined
/// temperature and humidity sensor, which reports two values.
#[derive(Clone, Copy, Debug, PartialEq, Eq, Structural)]
pub enum Sensors {
    DHT11,
    Thermometer,
    Hygrometer,
    SoilHygrometer,
    Luminometer,
    Co2,
    PH,
}

/// Actuators the firmware can drive.
#[derive(Clone, Copy, Debug, PartialEq, Eq, Structural)]
pub enum Actuators {
    Irrigator,
    Heater,
    Lighting,
    UV,
    Shading,
}

/// A menu index that names no sensor or actuator.
#[derive(Clone, Copy, Debug, PartialEq, Eq, Structural)]
pub struct OutOfRange {
    pub index: usize,
}

pub open spec fn sensor_at(i: usize) -> Option<Sensors> {
    if i == 0 {
        Some(Sensors::DHT11)
    } else if i == 1 {
        Some(Sensors::Thermometer)
    } else if i == 2 {
        Some(Sensors::Hygrometer)
    } else if i == 3 {
        Some(Sensors::SoilHygrometer)
    } else if i == 4 {
        Some(Sensors::Luminometer)
    } else if i == 5 {
        Some(Sensors::Co2)
    } else if i == 6 {
        Some(Sensors::PH)
    } else {
        None
    }
}

pub open spec fn actuator_at(i: usize) -> Option<Actuators> {
    if i == 0 {
        Some(Actuators::Irrigator)
    } else if i == 1 {
        Some(Actuators::Heater)
    } else if i == 2 {
        Some(Actuators::Lighting)
    } else if i == 3 {
        Some(Actuators::UV)
    } else if i == 4 {
        Some(Actuators::Shading)
    } else {
        None
    }
}

pub open spec fn menu_choice<T>(choice: Option<T>, i: usize) -> Result<T, OutOfRange> {
    match choice {
        Some(v) => Ok(v),
        None => Err(OutOfRange { index: i }),
    }
}

/// Converts a sensor menu index (in declaration order) to its sensor.
impl<'a> TryFrom<&'a usize> for Sensors {
    type Error = OutOfRange;

    fn try_from(value: &'a usize) -> (r: Result<Sensors, OutOfRange>)
        ensures
            r == menu_choice(sensor_at(*value), *value),
    {
        match *value {
            0 => Ok(Sensors::DHT11),
            1 => Ok(Sensors::Thermometer),
            2 => Ok(Sensors::Hygrometer),
            3 => Ok(Sensors::SoilHygrometer),
            4 => Ok(Sensors::Luminometer),
            5 => Ok(Sensors::Co2),
            6 => Ok(Sensors::PH),
            _ => Err(OutOfRange { index: *value }),
        }
    }
}

impl<'a> vstd::std_specs::convert::TryFromSpecImpl<&'a usize> for Sensors {
    open spec fn obeys_try_from_spec() -> bool {
        true
    }

    open spec fn try_from_spec(v: &'a usize) -> Result<Sensors, OutOfRange> {
        menu_choice(sensor_at(*v), *v)
    }
}

/// Converts an actuator menu index (in declaration order) to its actuator.
impl<'a> TryFrom<&'a usize> for Actuators {
    type Error = OutOfRange;

    fn try_from(value: &'a usize) -> (r: Result<Actuators, OutOfRange>)
        ensures
            r == menu_choice(actuator_at(*value), *value),
    {
        match *value {
            0 => Ok(Actuators::Irrigator),
            1 => Ok(Actuators::Heater),
            2 => Ok(Actuators::Lighting),
            3 => Ok(Actuators::UV),
            4 => Ok(Actuators::Shading),
            _ => Err(OutOfRange { index: *value }),
        }
    }
}

impl<'a> vstd::std_specs::convert::TryFromSpecImpl<&'a usize> for Actuators {
    open spec fn obeys_try_from_spec() -> bool {
        true
    }

    open spec fn try_from_spec(v: &'a usize) -> Result<Actuators, OutOfRange> {
        menu_choice(actuator_at(*v), *v)
    }
}

/// The sensors and actuators attached to the board, in the order in which
/// the firmware reports and drives them.
#[derive(Clone, Debug, PartialEq, Eq)]
pub struct IO {
    pub sensors: Vec<Sensors>,
    pub actuators: Vec<Actuators>,
}

/// Build flags that select the firmware's sensor and actuator drivers.
#[derive(Clone, Copy, Debug, PartialEq, Eq, Structural)]
pub struct IOFlags {
    pub sensors_flag: u8,
    pub actuators_flag: u8,
}

#[derive(Clone, Copy, Debug, PartialEq, Eq, Structural)]
pub struct NetConf {
    pub online: bool,
}

/// The board's fully qualified name and the port it is attached to.
#[derive(Clone, Debug, PartialEq, Eq)]
pub struct Board {
    pub name: String,
    pub port: String,
}

/// The gateway's configuration.
#[derive(Clone, Debug, PartialEq, Eq)]
pub struct Settings {
    pub network: NetConf,
    pub physical_interface: IO,
    pub board: Board,
}

/// Flag bit of a sensor driver; the stand-alone thermometer and hygrometer
/// have none.
pub open spec fn sensor_flag(s: Sensors) -> nat {
    match s {
        Sensors::DHT11 => 16,
        Sensors::SoilHygrometer => 8,
        Sensors::Luminometer => 4,
        Sensors::Co2 => 2,
        Sensors::PH => 1,
        _ => 0,
    }
}

/// Flag bit of an actuator driver, which is also its command weight.
pub open spec fn actuator_flag(a: Actuators) -> nat {
    match a {
        Actuators::Irrigator => 16,
        Actuators::Heater => 8,
        Actuators::Lighting => 4,
        Actuators::UV => 2,
        Actuators::Shading => 1,
    }
}

pub open spec fn sensors_sum(s: Seq<Sensors>) -> nat
    decreases s.len(),
{
    if s.len() == 0 {
        0
    } else {
        sensors_sum(s.drop_last()) + sensor_flag(s.last())
    }
}

pub open spec fn actuators_sum(a: Seq<Actuators>) -> nat
    decreases a.len(),
{
    if a.len() == 0 {
        0
    } else {
        actuators_sum(a.drop_last()) + actuator_flag(a.last())
    }
}

/// The flags of a configuration: the sum of the flag bits of its entries,
/// taken modulo 256 as the byte-wide sum wraps.
pub open spec fn io_flags(io: IO) -> IOFlags {
    IOFlags {
        sensors_flag: (sensors_sum(io.sensors@) % 256) as u8,
        actuators_flag: (actuators_sum(io.actuators@) % 256) as u8,
    }
}

impl From<IO> for IOFlags {
    fn from(value: IO) -> (r: IOFlags)
        ensures
            r == io_flags(value),
    {
        let mut ssum: u8 = 0;
        let mut i: usize = 0;
        while i < value.sensors.len()
            invariant
                0 <= i <= value.sensors@.len(),
                ssum == sensors_sum(value.sensors@.take(i as int)) % 256,
            decreases value.sensors@.len() - i,
        {
            let w: u8 = match value.sensors[i] {
                Sensors::DHT11 => 16,
                Sensors::SoilHygrometer => 8,
                Sensors::Luminometer => 4,
                Sensors::Co2 => 2,
                Sensors::PH => 1,
                _ => 0,
            };
            proof {
                let t = value.sensors@.take(i as int + 1);
                assert(t.drop_last() == value.sensors@.take(i as int));
                lemma_add_mod_noop(sensors_sum(t.drop_last()) as int, w as int, 256);
            }
            ssum = ssum.wrapping_add(w);
            i = i + 1;
        }
        assert(value.sensors@.take(i as int) == value.sensors@);
        let mut asum: u8 = 0;
        let mut j: usize = 0;
        while j < value.actuators.len()
            invariant
                0 <= j <= value.actuators@.len(),
                asum == actuators_sum(value.actuators@.take(j as int)) % 256,
            decreases value.actuators@.len() - j,
        {
            let w: u8 = match value.actuators[j] {
                Actuators::Irrigator => 16,
                Actuators::Heater => 8,
                Actuators::Lighting => 4,
                Actuators::UV => 2,
                Actuators::Shading => 1,
            };
            proof {
                let t = value.actuators@.take(j as int + 1);
                assert(t.drop_last() == value.actuators@.take(j as int));
                lemma_add_mod_noop(actuators_sum(t.drop_last()) as int, w as int, 256);
            }
            asum = asum.wrapping_add(w);
            j = j + 1;
        }
        assert(value.actuators@.take(j as int) == value.actuators@);
        IOFlags { sensors_flag: ssum, actuators_flag: asum }
    }
}

impl vstd::std_specs::convert::FromSpecImpl<IO> for IOFlags {
    open spec fn obeys_from_spec() -> bool {
        true
    }

    open spec fn from_spec(v: IO) -> IOFlags {
        io_flags(v)
    }
}

impl Settings {
    /// Offline, with no sensors, no actuators and an unnamed board.
    pub fn new() -> (r: Settings)
        ensures
            r.is_empty(),
    {
        Settings {
            network: NetConf { online: false },
            physical_interface: IO { sensors: Vec::new(), actuators: Vec::new() },
            board: Board { name: String::new(), port: String::new() },
        }
    }

    pub open spec fn is_empty(self) -> bool {
        &&& !self.network.online
        &&& self.physical_interface.sensors@.len() == 0
        &&& self.physical_interface.actuators@.len() == 0
        &&& self.board.name@.len() == 0
        &&& self.board.port@.len() == 0
    }
}

impl Default for Settings {
    fn default() -> (r: Settings)
        ensures
            r.is_empty(),
    {
        Settings::new()
    }
}

} // verus!
