use astromech_control::config::{Pca9685Config, ServoConfig};
use astromech_control::errors::HardwareError;
use astromech_control::hardware::{parse_i2c_address, Hardware, HardwareStatus, Pca9685Controller};
use astromech_control::servo_manager::{angle_to_pulse, ServoManager};
use pwm_pca9685::Channel;

fn board(id: &str, address: &str) -> Pca9685Config {
    Pca9685Config { id: id.to_string(), i2c_address: address.to_string(), frequency: 50 }
}

fn servo(name: &str, controller: &str, channel: u8) -> ServoConfig {
    ServoConfig {
        name: name.to_string(),
        controller_id: controller.to_string(),
        channel,
        min_angle: 0,
        max_angle: 180_000,
        min_pulse: 150,
        max_pulse: 600,
        description: None,
    }
}

fn manager_with_head() -> ServoManager {
    let mut m = ServoManager::new();
    m.initialize_controller(board("main", "0x40")).unwrap();
    m.add_servo(servo("head", "main", 0)).unwrap();
    m
}

#[test]
fn head_at_ninety_degrees_ends_pulse_at_375() {
    let m = manager_with_head();
    let w = m.move_servo("head", 90_000).unwrap();
    assert_eq!(w.off_tick, 375);
    assert_eq!(w.on_tick, 0);
    assert_eq!(w.controller_id, "main");
    assert_eq!(w.channel, Channel::C0);
}

#[test]
fn range_ends_give_pulse_ends() {
    let m = manager_with_head();
    assert_eq!(m.move_servo("head", 0).unwrap().off_tick, 150);
    assert_eq!(m.move_servo("head", 180_000).unwrap().off_tick, 600);
}

#[test]
fn pulse_is_truncated() {
    let s = servo("s", "main", 1);
    // 150 + 1 * 450 / 180000 = 150.0025
    assert_eq!(angle_to_pulse(&s, 1), 150);
    // 150 + 179999 * 450 / 180000 = 599.9975
    assert_eq!(angle_to_pulse(&s, 179_999), 599);
    // 150 + 45000 * 450 / 180000 = 262.5
    assert_eq!(angle_to_pulse(&s, 45_000), 262);
}

#[test]
fn negative_angle_range() {
    let mut m = ServoManager::new();
    m.initialize_controller(board("main", "default")).unwrap();
    let mut s = servo("arm", "main", 7);
    s.min_angle = -90_000;
    s.max_angle = 90_000;
    s.min_pulse = 100;
    s.max_pulse = 500;
    m.add_servo(s).unwrap();
    let w = m.move_servo("arm", 0).unwrap();
    assert_eq!(w.off_tick, 300);
    assert_eq!(w.channel, Channel::C7);
    assert_eq!(m.move_servo("arm", -90_000).unwrap().off_tick, 100);
}

#[test]
fn angle_outside_range_is_invalid() {
    let m = manager_with_head();
    assert!(matches!(m.move_servo("head", -1), Err(HardwareError::InvalidParameter(_))));
    assert!(matches!(m.move_servo("head", 180_001), Err(HardwareError::InvalidParameter(_))));
}

#[test]
fn unknown_servo_is_not_found() {
    let m = manager_with_head();
    assert!(matches!(m.move_servo("tail", 10), Err(HardwareError::NotFound(_))));
}

#[test]
fn invalid_channel_is_invalid_parameter() {
    let mut m = ServoManager::new();
    m.initialize_controller(board("main", "0x40")).unwrap();
    m.add_servo(servo("bad", "main", 16)).unwrap();
    assert!(matches!(m.move_servo("bad", 10), Err(HardwareError::InvalidParameter(_))));
}

#[test]
fn empty_angle_range_is_invalid_parameter() {
    let mut m = ServoManager::new();
    m.initialize_controller(board("main", "0x40")).unwrap();
    let mut s = servo("flat", "main", 2);
    s.max_angle = 0;
    m.add_servo(s).unwrap();
    assert!(matches!(m.move_servo("flat", 0), Err(HardwareError::InvalidParameter(_))));
}

#[test]
fn add_servo_with_unknown_controller_is_not_found() {
    let mut m = manager_with_head();
    let before = m.list_servos();
    let r = m.add_servo(servo("eye", "spare", 3));
    assert!(matches!(r, Err(HardwareError::NotFound(_))));
    let after = m.list_servos();
    assert_eq!(after.len(), before.len());
    assert_eq!(after[0].name, "head");
    assert!(m.get_servo_config("eye").is_none());
}

#[test]
fn add_servo_overwrites_same_name() {
    let mut m = manager_with_head();
    let mut s = servo("head", "main", 5);
    s.description = Some("turned".to_string());
    m.add_servo(s).unwrap();
    let servos = m.list_servos();
    assert_eq!(servos.len(), 1);
    assert_eq!(servos[0].channel, 5);
    assert_eq!(m.get_servo_config("head").unwrap().description, Some("turned".to_string()));
    assert_eq!(m.move_servo("head", 0).unwrap().channel, Channel::C5);
}

#[test]
fn servos_listed_in_registration_order() {
    let mut m = manager_with_head();
    m.initialize_controller(board("aux", "0x41")).unwrap();
    m.add_servo(servo("arm", "aux", 1)).unwrap();
    let names: Vec<String> = m.list_servos().into_iter().map(|s| s.name).collect();
    assert_eq!(names, vec!["head".to_string(), "arm".to_string()]);
    assert_eq!(m.move_servo("arm", 0).unwrap().controller_id, "aux");
}

#[test]
fn controllers_overwrite_and_list() {
    let mut m = ServoManager::new();
    m.initialize_controller(board("main", "0x40")).unwrap();
    m.initialize_controller(board("aux", "default")).unwrap();
    m.initialize_controller(board("main", "0x42")).unwrap();
    let list = m.list_controllers();
    assert_eq!(list.len(), 2);
    assert_eq!(list[0].id, "main");
    assert_eq!(list[0].i2c_address, "0x42");
    assert_eq!(list[1].id, "aux");
}

#[test]
fn malformed_bus_address_is_rejected() {
    let mut m = ServoManager::new();
    let r = m.initialize_controller(board("main", "0xZZ"));
    assert!(matches!(r, Err(HardwareError::InvalidParameter(_))));
    assert!(m.list_controllers().is_empty());
}

#[test]
fn bus_addresses_parse() {
    assert_eq!(parse_i2c_address("default").unwrap(), None);
    assert_eq!(parse_i2c_address("0x40").unwrap(), Some(0x40));
    assert_eq!(parse_i2c_address("40").unwrap(), Some(0x40));
    assert_eq!(parse_i2c_address("0x0x41").unwrap(), Some(0x41));
    assert_eq!(parse_i2c_address("+7f").unwrap(), Some(0x7f));
    assert_eq!(parse_i2c_address("FF").unwrap(), Some(0xff));
    assert_eq!(parse_i2c_address("0x0040").unwrap(), Some(0x40));
    assert!(parse_i2c_address("0x").is_err());
    assert!(parse_i2c_address("").is_err());
    assert!(parse_i2c_address("0x100").is_err());
    assert!(parse_i2c_address("-1").is_err());
    assert!(parse_i2c_address("+").is_err());
    assert!(parse_i2c_address("Default").is_err());
    assert!(matches!(parse_i2c_address("4g"), Err(HardwareError::InvalidParameter(_))));
}

#[test]
fn board_record_reports_status() {
    let mut c = Pca9685Controller::new(board("main", "0x41")).unwrap();
    assert_eq!(c.id(), "main");
    assert_eq!(c.hardware_type(), "pwm_board");
    assert_eq!(c.get_status(), HardwareStatus::Initializing);
    assert!(!c.is_operational());
    c.status = HardwareStatus::Operational;
    assert!(c.is_operational());
    assert_eq!(c.get_config().i2c_address, "0x41");
    assert_eq!(c.address, pwm_pca9685::Address::from(0x41));
    let d = Pca9685Controller::new(board("aux", "default")).unwrap();
    assert_eq!(d.address, pwm_pca9685::Address::default());
}

#[test]
fn error_messages_name_their_category() {
    let e = HardwareError::NotFound("Servo 'x' not found".to_string());
    assert_eq!(e.message(), "Hardware not found: Servo 'x' not found");
    assert_eq!(e.detail(), "Servo 'x' not found");
    let m = manager_with_head();
    let e = m.move_servo("tail", 1).unwrap_err();
    assert_eq!(e.message(), "Hardware not found: Servo 'tail' not found");
    assert_eq!(HardwareError::Other("x".to_string()).message(), "Other error: x");
    assert_eq!(HardwareError::InvalidParameter("y".to_string()).message(), "Invalid parameter: y");
}
