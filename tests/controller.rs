use cultiva::controller::{BoardControl, Modes, RESPONSE_BUFFER_LEN, SAMPLE_REQUEST};
use cultiva::protocol::{ActivationPatch, ProtocolError};
use cultiva::settings::{Actuators, Sensors, IO};

fn board() -> BoardControl {
    BoardControl::new(IO {
        sensors: vec![Sensors::DHT11, Sensors::Co2],
        actuators: vec![Actuators::Lighting, Actuators::Irrigator],
    })
}

fn patch(irrigator: Option<bool>, lighting: Option<bool>) -> ActivationPatch {
    ActivationPatch { irrigator, heater: None, lighting, uv: None, shading: None }
}

#[test]
fn new_controller_is_off_and_automatic() {
    let b = board();
    assert_eq!(b.get_activation(Modes::Active), vec![(Actuators::Lighting, false), (Actuators::Irrigator, false)]);
    assert_eq!(b.get_activation(Modes::Auto), vec![(Actuators::Lighting, true), (Actuators::Irrigator, true)]);
    assert_eq!(SAMPLE_REQUEST, b'0');
    assert_eq!(RESPONSE_BUFFER_LEN, 64);
}

#[test]
fn set_activation_merges_and_encodes() {
    let mut b = board();
    assert_eq!(b.set_activation(&patch(Some(true), None)), b'H');
    assert_eq!(b.set_activation(&patch(None, Some(true))), b'L');
    assert_eq!(b.get_activation(Modes::Active), vec![(Actuators::Lighting, true), (Actuators::Irrigator, true)]);
    // The automatic preference is untouched.
    assert_eq!(b.get_activation(Modes::Auto), vec![(Actuators::Lighting, true), (Actuators::Irrigator, true)]);
}

#[test]
fn set_auto_modes_touches_only_preference() {
    let mut b = board();
    b.set_auto_modes(&patch(Some(false), None));
    assert_eq!(b.get_activation(Modes::Auto), vec![(Actuators::Lighting, true), (Actuators::Irrigator, false)]);
    assert_eq!(b.get_activation(Modes::Active), vec![(Actuators::Lighting, false), (Actuators::Irrigator, false)]);
}

#[test]
fn get_activation_with_no_actuators_is_empty() {
    let b = BoardControl::new(IO { sensors: vec![], actuators: vec![] });
    assert!(b.get_activation(Modes::Active).is_empty());
}

#[test]
fn poll_sensors_uses_configuration() {
    let b = board();
    assert_eq!(b.sensor_list(), &vec![Sensors::DHT11, Sensors::Co2]);
    let r = b.poll_sensors(b"23.5,60.2,415.0,").unwrap();
    assert_eq!(r.temperature, Some(b"23.5".to_vec()));
    assert_eq!(r.air_humidity, Some(b"60.2".to_vec()));
    assert_eq!(r.air_quality, Some(b"415.0".to_vec()));
    assert_eq!(b.poll_sensors(b"23.5,"), Err(ProtocolError::FieldCountMismatch { received: 1 }));
}
