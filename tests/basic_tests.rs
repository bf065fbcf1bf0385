use std::rc::Rc;
use vpc_shift_tool::config::{ConfigData, ModifiersArray, ShiftModifiers};
use vpc_shift_tool::device::{SavedDevice, VpcDevice};
use vpc_shift_tool::state::State;

#[test]
fn test_config_data_default() {
    let config = ConfigData::default();

    assert_eq!(config.sources.len(), 0);
    assert_eq!(config.receivers.len(), 0);

    for i in 0..8 {
        assert_eq!(config.shift_modifiers.get(i), ShiftModifiers::OR);
    }
}

#[test]
fn test_shift_modifiers_display() {
    assert_eq!(ShiftModifiers::OR.as_str(), "OR");
    assert_eq!(ShiftModifiers::AND.as_str(), "AND");
    assert_eq!(ShiftModifiers::XOR.as_str(), "XOR");
}

#[test]
fn test_saved_device_default() {
    let device = SavedDevice::default();

    assert_eq!(device.vendor_id, 0);
    assert_eq!(device.product_id, 0);
    assert_eq!(device.serial_number, "");
    assert_eq!(device.state_enabled, [true; 8]);
}

#[test]
fn test_state_enum() {
    let initializing = State::Initialising;
    let about = State::About;
    let running = State::Running;

    assert_ne!(initializing, about);
    assert_ne!(initializing, running);
    assert_ne!(about, running);

    assert_eq!(initializing, State::Initialising);
    assert_eq!(about, State::About);
    assert_eq!(running, State::Running);
}

#[test]
fn test_config_with_devices() {
    let mut config = ConfigData::default();

    let device1 = SavedDevice {
        vendor_id: 0x3344,
        product_id: 0x0001,
        serial_number: "123456".to_string(),
        state_enabled: [true, false, true, false, true, false, true, false],
    };

    let device2 = SavedDevice {
        vendor_id: 0x3344,
        product_id: 0x0002,
        serial_number: "654321".to_string(),
        state_enabled: [false, true, false, true, false, true, false, true],
    };

    config.sources.push(device1.clone());
    config.receivers.push(device2.clone());

    assert_eq!(config.sources.len(), 1);
    assert_eq!(config.receivers.len(), 1);

    assert_eq!(config.sources[0].vendor_id, 0x3344);
    assert_eq!(config.sources[0].product_id, 0x0001);
    assert_eq!(config.sources[0].serial_number, "123456");
    assert_eq!(config.sources[0].state_enabled, [true, false, true, false, true, false, true, false]);

    assert_eq!(config.receivers[0].vendor_id, 0x3344);
    assert_eq!(config.receivers[0].product_id, 0x0002);
    assert_eq!(config.receivers[0].serial_number, "654321");
    assert_eq!(config.receivers[0].state_enabled, [false, true, false, true, false, true, false, true]);
}

#[test]
fn test_modifiers_array() {
    let mut modifiers = ModifiersArray::default();

    for i in 0..8 {
        assert_eq!(modifiers.get(i), ShiftModifiers::OR);
    }

    modifiers.set(0, ShiftModifiers::AND);
    modifiers.set(4, ShiftModifiers::XOR);

    assert_eq!(modifiers.get(0), ShiftModifiers::AND);
    assert_eq!(modifiers.get(4), ShiftModifiers::XOR);

    for i in 1..4 {
        assert_eq!(modifiers.get(i), ShiftModifiers::OR);
    }
    for i in 5..8 {
        assert_eq!(modifiers.get(i), ShiftModifiers::OR);
    }
}

#[test]
fn test_vpc_device_default() {
    let device = VpcDevice::default();

    assert_eq!(device.full_name, "");
    assert_eq!(*device.name, "-NO CONNECTION (Select device from list)-");
    assert_eq!(*device.firmware, "");
    assert_eq!(device.vendor_id, 0);
    assert_eq!(device.product_id, 0);
    assert_eq!(device.serial_number, "");
    assert_eq!(device.usage, 0);
    assert_eq!(device.active, false);
}

#[test]
fn test_vpc_device_display() {
    let device = VpcDevice::default();
    assert_eq!(device.label(), "-NO CONNECTION (Select device from list)-");

    let device = VpcDevice {
        full_name: "3344:0001:123456".to_string(),
        name: Rc::new("VPC MongoosT-50CM3".to_string()),
        firmware: Rc::new("VIRPIL Controls 20240101".to_string()),
        vendor_id: 0x3344,
        product_id: 0x0001,
        serial_number: "123456".to_string(),
        usage: 0,
        active: false,
    };

    assert_eq!(
        device.label(),
        "VID:3344 PID:0001 VPC MongoosT-50CM3 (SN:123456 FW:VIRPIL Controls 20240101)"
    );

    let device = VpcDevice {
        full_name: "3344:0001:no_sn".to_string(),
        name: Rc::new("VPC MongoosT-50CM3".to_string()),
        firmware: Rc::new("VIRPIL Controls 20240101".to_string()),
        vendor_id: 0x3344,
        product_id: 0x0001,
        serial_number: "".to_string(),
        usage: 0,
        active: false,
    };

    assert_eq!(
        device.label(),
        "VID:3344 PID:0001 VPC MongoosT-50CM3 (SN:N/A FW:VIRPIL Controls 20240101)"
    );

    let device = VpcDevice {
        full_name: "3344:0001:123456".to_string(),
        name: Rc::new("VPC MongoosT-50CM3".to_string()),
        firmware: Rc::new("".to_string()),
        vendor_id: 0x3344,
        product_id: 0x0001,
        serial_number: "123456".to_string(),
        usage: 0,
        active: false,
    };

    assert_eq!(
        device.label(),
        "VID:3344 PID:0001 VPC MongoosT-50CM3 (SN:123456 FW:N/A)"
    );
}
