use cultiva::protocol::{
    decode_ack, decode_reading, decode_text, encode_command, ActivationPatch, ActivationState, ProtocolError,
    Reading,
};
use cultiva::settings::Sensors;

fn state(irrigator: bool, heater: bool, lighting: bool, uv: bool, shading: bool) -> ActivationState {
    ActivationState { irrigator, heater, lighting, uv, shading }
}

fn value(v: &Option<Vec<u8>>) -> f32 {
    std::str::from_utf8(v.as_ref().unwrap()).unwrap().parse::<f32>().unwrap()
}

#[test]
fn encode_all_off_is_one() {
    assert_eq!(encode_command(&ActivationState::new()), b'1');
}

#[test]
fn encode_irrigator_only_is_h() {
    assert_eq!(encode_command(&state(true, false, false, false, false)), b'H');
}

#[test]
fn encode_all_on_is_w() {
    assert_eq!(encode_command(&state(true, true, true, true, true)), b'W');
}

#[test]
fn encode_digit_and_letter_boundary() {
    // 1 + 8 = 9 is the last decimal digit, 1 + 8 + 1 = 10 the first letter.
    assert_eq!(encode_command(&state(false, true, false, false, false)), b'9');
    assert_eq!(encode_command(&state(false, true, false, false, true)), b'A');
    assert_eq!(encode_command(&state(false, false, true, true, true)), b'8');
}

#[test]
fn ack_compares_echo() {
    assert!(decode_ack(b'H', b'H'));
    assert!(!decode_ack(b'H', b'h'));
}

#[test]
fn patch_keeps_unspecified_flags() {
    let mut s = state(true, false, true, false, false);
    let p = ActivationPatch { irrigator: None, heater: Some(true), lighting: Some(false), uv: None, shading: None };
    s.apply(&p);
    assert_eq!(s, state(true, true, false, false, false));
}

#[test]
fn patch_applied_twice_gives_same_command() {
    let p = ActivationPatch { irrigator: Some(true), heater: None, lighting: None, uv: Some(true), shading: Some(false) };
    let mut s = state(false, true, false, false, true);
    s.apply(&p);
    let once = encode_command(&s);
    let after_once = s;
    s.apply(&p);
    assert_eq!(s, after_once);
    assert_eq!(encode_command(&s), once);
    assert_eq!(once, b'R');
}

#[test]
fn decode_combined_and_co2() {
    let r = decode_reading(b"23.5,60.2,415.0,", &vec![Sensors::DHT11, Sensors::Co2]).unwrap();
    assert_eq!(value(&r.temperature), 23.5);
    assert_eq!(value(&r.air_humidity), 60.2);
    assert_eq!(value(&r.air_quality), 415.0);
    assert_eq!(r.soil_humidity, None);
    assert_eq!(r.luminosity, None);
    assert_eq!(r.ph, None);
    assert_eq!(r.timestamp, None);
}

#[test]
fn decode_count_mismatch_without_combined_sensor() {
    let r = decode_reading(b"23.5,60.2,", &vec![Sensors::Thermometer]);
    assert_eq!(r, Err(ProtocolError::FieldCountMismatch { received: 2 }));
}

#[test]
fn decode_too_few_fields() {
    let r = decode_reading(b"23.5,", &vec![Sensors::DHT11]);
    assert_eq!(r, Err(ProtocolError::FieldCountMismatch { received: 1 }));
}

#[test]
fn decode_ignores_text_after_last_delimiter() {
    let r = decode_reading(b"7.25,\r\n", &vec![Sensors::PH]).unwrap();
    assert_eq!(r.ph, Some(b"7.25".to_vec()));
    let r = decode_reading(b"7.25,8", &vec![Sensors::PH]).unwrap();
    assert_eq!(r.ph, Some(b"7.25".to_vec()));
}

#[test]
fn decode_without_terminating_delimiter_loses_last_field() {
    let r = decode_reading(b"23.5,60.2", &vec![Sensors::DHT11]);
    assert_eq!(r, Err(ProtocolError::FieldCountMismatch { received: 1 }));
}

#[test]
fn decode_empty_configuration() {
    assert_eq!(decode_reading(b"", &vec![]), Ok(Reading::new()));
    assert_eq!(decode_reading(b"\r\n", &vec![]), Ok(Reading::new()));
}

#[test]
fn decode_every_channel_in_order() {
    let sensors = vec![
        Sensors::SoilHygrometer,
        Sensors::Luminometer,
        Sensors::PH,
        Sensors::Thermometer,
        Sensors::Hygrometer,
        Sensors::Co2,
    ];
    let r = decode_reading(b"512,87.5,6.8,21,40,400,", &sensors).unwrap();
    assert_eq!(r.soil_humidity, Some(b"512".to_vec()));
    assert_eq!(r.luminosity, Some(b"87.5".to_vec()));
    assert_eq!(r.ph, Some(b"6.8".to_vec()));
    assert_eq!(r.temperature, Some(b"21".to_vec()));
    assert_eq!(r.air_humidity, Some(b"40".to_vec()));
    assert_eq!(r.air_quality, Some(b"400".to_vec()));
}

#[test]
fn decode_reports_first_malformed_field() {
    let r = decode_reading(b"1.0,abc,2..0,", &vec![Sensors::DHT11, Sensors::Co2]);
    assert_eq!(r, Err(ProtocolError::MalformedValue { token: b"abc".to_vec() }));
    let r = decode_reading(b",", &vec![Sensors::Co2]);
    assert_eq!(r, Err(ProtocolError::MalformedValue { token: Vec::new() }));
    let r = decode_reading(b" 1.0,", &vec![Sensors::Co2]);
    assert_eq!(r, Err(ProtocolError::MalformedValue { token: b" 1.0".to_vec() }));
}

#[test]
fn decode_accepts_what_float_parsing_accepts() {
    let good: [&[u8]; 12] = [
        b"1", b"-2.5", b"+3.", b".5", b"1e5", b"1E-3", b"2.5e+7", b"inf", b"-Infinity", b"NaN",
        b"+nan", b"0000.0000",
    ];
    for g in good.iter() {
        let mut raw = g.to_vec();
        raw.push(b',');
        let r = decode_reading(&raw, &vec![Sensors::Co2]);
        assert!(r.is_ok(), "{:?}", g);
        assert!(std::str::from_utf8(g).unwrap().parse::<f32>().is_ok());
    }
    let bad: [&[u8]; 10] = [b".", b"e5", b"1e", b"1.2.3", b"--1", b"+", b"infin", b"1,5x", b"0x10", b"1e+"];
    for b in bad.iter() {
        let token: Vec<u8> = b.split(|c| *c == b',').last().unwrap().to_vec();
        let mut raw = b.to_vec();
        raw.push(b',');
        let sensors = if b.contains(&b',') { vec![Sensors::DHT11] } else { vec![Sensors::Co2] };
        let r = decode_reading(&raw, &sensors);
        assert_eq!(r, Err(ProtocolError::MalformedValue { token: token.clone() }), "{:?}", b);
        assert!(std::str::from_utf8(&token).unwrap().parse::<f32>().is_err());
    }
}

#[test]
fn decode_rejects_bytes_that_are_not_text() {
    assert_eq!(decode_reading(b"\xFF", &vec![]), Err(ProtocolError::NotText));
    assert_eq!(decode_reading(b"1,\xFF", &vec![Sensors::Co2]), Err(ProtocolError::NotText));
    // Checked before the fields are counted.
    assert_eq!(decode_reading(b"\xC3", &vec![Sensors::DHT11]), Err(ProtocolError::NotText));
    // Multi-byte UTF-8 after the last delimiter is text, and is not a field.
    let r = decode_reading("7.0,\u{e9}".as_bytes(), &vec![Sensors::PH]).unwrap();
    assert_eq!(r.ph, Some(b"7.0".to_vec()));
}

#[test]
fn decode_text_follows_the_text_flag() {
    assert_eq!(decode_text(b"1,", false, &vec![Sensors::Co2]), Err(ProtocolError::NotText));
    let r = decode_text(b"1,", true, &vec![Sensors::Co2]).unwrap();
    assert_eq!(r.air_quality, Some(b"1".to_vec()));
    assert_eq!(
        decode_text(b"1,2,", true, &vec![Sensors::Co2]),
        Err(ProtocolError::FieldCountMismatch { received: 2 })
    );
}
