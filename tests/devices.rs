use reaction_sequencer::device::{
    ble_device, ear_command, ear_for_action, format_configured_devices, parse_device, setup, validate_parameters,
    BunnyEars, Delay, DeviceConfig, DeviceRegistry, DeviceTypes, Ear, Parameter, ParameterName, Timer, ValidationError,
};

fn s(x: &str) -> String {
    x.to_string()
}

fn config(id: &str, tag: &str, address: Option<&str>) -> DeviceConfig {
    DeviceConfig { id: s(id), name: s("Name"), device_type: s(tag), address: address.map(s) }
}

#[test]
fn from_string_names_each_kind() {
    assert_eq!(DeviceTypes::from_string(&s("BUNNY_EARS")), DeviceTypes::BunnyEars);
    assert_eq!(DeviceTypes::from_string(&s("TIMER")), DeviceTypes::Timer);
    assert_eq!(DeviceTypes::from_string(&s("BLE_DEVICE")), DeviceTypes::BleDevice);
}

#[test]
fn parse_refuses_an_unknown_tag() {
    assert_eq!(DeviceTypes::parse(&s("LAMP")), None);
    assert_eq!(DeviceTypes::parse(&s("timer")), None);
}

#[test]
fn only_bunny_ears_need_an_address() {
    assert_eq!(DeviceTypes::BunnyEars.get_device_parameters(), vec![Parameter::String(ParameterName::Address)]);
    assert!(DeviceTypes::Timer.get_device_parameters().is_empty());
    assert!(DeviceTypes::BleDevice.get_device_parameters().is_empty());
}

#[test]
fn validate_parameters_reports_a_missing_address() {
    let params = vec![Parameter::String(ParameterName::Address)];
    assert_eq!(
        validate_parameters(&config("e", "BUNNY_EARS", None), &params),
        Err(ValidationError::MissingValue(ParameterName::Address))
    );
    assert_eq!(validate_parameters(&config("e", "BUNNY_EARS", Some("EB:A0")), &params), Ok(()));
    assert_eq!(validate_parameters(&config("e", "TIMER", None), &vec![]), Ok(()));
}

#[test]
fn parse_device_builds_a_timer() {
    let d = parse_device(&config("t1", "TIMER", None)).unwrap();
    assert_eq!(d.id, s("t1"));
    assert_eq!(d.device_type, DeviceTypes::Timer);
    assert_eq!(d.actions, vec![s("delay")]);
}

#[test]
fn parse_device_builds_bunny_ears_with_two_ears() {
    let d = parse_device(&config("ears", "BUNNY_EARS", Some("EB:A0:B4:C2:82:C8"))).unwrap();
    assert_eq!(d.actions, vec![s("leftEar"), s("rightEar")]);
}

#[test]
fn parse_device_refuses_bunny_ears_without_address() {
    assert_eq!(
        parse_device(&config("ears", "BUNNY_EARS", None)),
        Err(ValidationError::MissingValue(ParameterName::Address))
    );
}

#[test]
fn parse_device_refuses_an_unknown_kind() {
    assert_eq!(
        parse_device(&config("x", "LAMP", None)),
        Err(ValidationError::UnknownDeviceType(s("LAMP")))
    );
}

#[test]
fn registry_insert_replaces_and_looks_up() {
    let mut reg = DeviceRegistry::new();
    assert!(reg.get_device_by_id(&s("timer")).is_none());
    reg.insert(Timer::new(s("timer"), s("Timer")).to_device());
    reg.insert(ble_device(s("ble"), s("Ble")));
    reg.insert(ble_device(s("timer"), s("Replaced")));
    assert_eq!(reg.get_device_by_id(&s("timer")).unwrap().name, s("Replaced"));
    assert_eq!(reg.get_device_by_id(&s("ble")).unwrap().device_type, DeviceTypes::BleDevice);
    assert!(reg.get_device_by_id(&s("ghost")).is_none());
}

#[test]
fn setup_registers_the_timer() {
    let reg = setup(DeviceRegistry::new());
    let d = reg.get_device_by_id(&s("timer")).unwrap();
    assert_eq!(d.name, s("Timer"));
    assert_eq!(d.actions, vec![s("delay")]);
}

#[test]
fn timer_and_delay_constructors() {
    let t = Timer::new(s("timer"), s("Timer"));
    assert_eq!(t.device_type, DeviceTypes::Timer);
    assert_eq!(t.actions, vec![Delay::new(s("delay"), s("Delay"))]);
    let b = BunnyEars::new(s("bunnyEars"), s("Bunny Ears"), s("EB:A0:B4:C2:82:C8"));
    assert_eq!(b.address, s("EB:A0:B4:C2:82:C8"));
    assert_eq!(b.device_type, DeviceTypes::BunnyEars);
}

#[test]
fn configured_devices_later_duplicate_wins() {
    let reg = format_configured_devices(&vec![
        config("a", "TIMER", None),
        config("b", "BLE_DEVICE", None),
        config("a", "BUNNY_EARS", Some("EB")),
    ])
    .unwrap();
    assert_eq!(reg.get_device_by_id(&s("a")).unwrap().device_type, DeviceTypes::BunnyEars);
    assert_eq!(reg.get_device_by_id(&s("b")).unwrap().device_type, DeviceTypes::BleDevice);
}

#[test]
fn configured_devices_fail_on_the_first_invalid_entry() {
    let r = format_configured_devices(&vec![
        config("a", "TIMER", None),
        config("b", "BUNNY_EARS", None),
        config("c", "LAMP", None),
    ]);
    assert_eq!(r.unwrap_err(), ValidationError::MissingValue(ParameterName::Address));
}

#[test]
fn ear_commands_are_the_documented_bytes() {
    assert_eq!(ear_command(Ear::Left), vec![0x48, 0x31, 0x38, 0x30, 0x0A]);
    assert_eq!(ear_command(Ear::Right), vec![0x48, 0x32, 0x38, 0x30, 0x0A]);
    assert_eq!(ear_for_action(&s("leftEar")), Some(Ear::Left));
    assert_eq!(ear_for_action(&s("rightEar")), Some(Ear::Right));
    assert_eq!(ear_for_action(&s("tail")), None);
}
