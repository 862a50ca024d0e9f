use onca::hid::{
    get_button_capabilities_for_page, get_value_capabilities_for_usage, ButtonCaps, CollectionKind,
    CollectionNode, DeviceHandle, RawValue, TopLevelCollection, ValueCaps, ValueRange,
    VendorCollectionType,
};
use onca::device_storage::DeviceStorage;
use onca::dualsense::{
    battery_state, player_lights, DualsenseButton, DualsenseReport, LightBrightness, RawAudioControl,
    RawMuteLight, RawOutputState, OUTPUT_ALLOW_LED_COLOR, OUTPUT_ALLOW_MUTE_LIGHT,
    OUTPUT_ALLOW_PLAYER_INDICATORS, RawAudioControl2, RawCalibrationData, RawInputPathSelect,
    RawMicSelect, RawOutputPathSelect, RawTouchState, DUALSENSE_BUTTON_COUNT,
};
use onca::hid_usages::{Usage, UsageId, UsagePageId};
use onca::input::{
    BatteryLevel, BatteryState, ControlScheme, ControlSchemeID, ControlSet, Handle, DeviceType, DeviceTypeMatchSupport, FinalTriggerResult,
    GamepadFeatures, HatSwitch, SchemeItem, TriggerResult, TriggerState, TriggerType,
    GAMEPAD_GYRO, GAMEPAD_TOUCH, TRIGGER_CANCELLED, TRIGGER_COMPLETED, TRIGGER_IDLE,
    TRIGGER_ONGOING, TRIGGER_STARTED, TRIGGER_TRIGGERED,
};
use onca::keyboard::{vk_to_keycode, KeyCode};
use onca::mouse::{ButtonState, MouseButton, MouseState};
use onca::gamepad::{GamepadButton, GamepadButtons, GAMEPAD_BUTTON_COUNT};
use onca::user::User;
use onca::raw_input::{raw_input_usage, vid_pid_from_device_name};
use onca::entry::{entry_type_from_attributes, EntryType};
use onca::fs_types::alignment_offset;
use onca::usb_vendors::{UsbDevice, UsbDeviceId, UsbVendor, UsbVendorId, VendorProduct};

fn bcaps(page: u16, collection: u16, report: u8) -> ButtonCaps {
    ButtonCaps {
        usage_page: UsagePageId(page),
        report_id: report,
        data_fields: 0,
        collection_id: collection,
        report_count: 1,
        usage: ValueRange { start: UsageId(1), end: UsageId(8) },
        string_index: ValueRange { start: 0, end: 0 },
        designator: ValueRange { start: 0, end: 0 },
        data_index: ValueRange { start: 0, end: 7 },
        is_absolute: true,
    }
}

fn vcaps(page: u16, lo: u16, hi: u16, collection: u16, bits: u16) -> ValueCaps {
    ValueCaps {
        usage_page: UsagePageId(page),
        report_id: 0,
        data_fields: 0,
        collection_id: collection,
        has_null: false,
        unit_exp: 0,
        units: 0,
        logical_range: ValueRange { start: 0, end: 255 },
        physical_range: ValueRange { start: -1, end: 1 },
        bit_size: bits,
        report_count: 1,
        usage: ValueRange { start: UsageId(lo), end: UsageId(hi) },
        string_index: ValueRange { start: 0, end: 0 },
        designator: ValueRange { start: 0, end: 0 },
        data_index: ValueRange { start: 0, end: 0 },
        is_absolute: true,
    }
}

#[test]
fn device_handles_and_kinds() {
    assert!(DeviceHandle::new(5).is_valid());
    assert!(!DeviceHandle::new(0).is_valid());
    assert!(!DeviceHandle::new(usize::MAX).is_valid());
    assert!(VendorCollectionType::new(0x7f).is_none());
    assert_eq!(VendorCollectionType::new(0x80).unwrap().get(), 0x80);
    assert_eq!(CollectionKind::from_u8(1), Some(CollectionKind::Application));
    assert_eq!(CollectionKind::from_u8(6), Some(CollectionKind::UsageModified));
    assert_eq!(CollectionKind::from_u8(7), None);
    assert_eq!(CollectionKind::from_u8(127), None);
    assert!(matches!(CollectionKind::from_u8(200), Some(CollectionKind::Vendor(v)) if v.get() == 200));
}

#[test]
fn collections() {
    let node = CollectionNode {
        ids: ValueRange { start: 3, end: 4 },
        usages: vec![Usage::from_u16(1, 2), Usage::from_u16(1, 5)],
        kind: CollectionKind::Application,
        children: vec![],
    };
    assert_eq!(node.usage_for_id(4), Some(Usage::from_u16(1, 5)));
    assert_eq!(node.usage_for_id(5), None);
    assert_eq!(node.get_prefered_usage(), Usage::from_u16(1, 5));
    let child = CollectionNode {
        ids: ValueRange { start: 5, end: 9 },
        usages: vec![Usage::from_u16(1, 0x30)],
        kind: CollectionKind::Physical,
        children: vec![],
    };
    let top = TopLevelCollection::new(vec![node, child], vec![vec![1]]);
    assert_eq!(top.get_top_node().children, vec![1]);
    assert_eq!(top.get_id(7).unwrap().kind, CollectionKind::Physical);
    assert!(top.get_id(10).is_none());
    assert!(ValueRange::<i32> { start: -2, end: 2 }.contains(&-2));
    assert!(!ValueRange { start: 1u16, end: 2 }.contains(&3));
}

#[test]
fn capability_search() {
    let caps = vec![bcaps(9, 1, 10), bcaps(9, 0, 11), bcaps(7, 0, 12), bcaps(9, 2, 13)];
    assert_eq!(get_button_capabilities_for_page(&caps, UsagePageId(9), Some(2)).unwrap().report_id, 13);
    assert_eq!(get_button_capabilities_for_page(&caps, UsagePageId(9), None).unwrap().report_id, 11);
    assert!(get_button_capabilities_for_page(&caps, UsagePageId(9), Some(5)).is_none());
    let caps = vec![bcaps(9, 1, 10), bcaps(9, 2, 13)];
    // for collection 0 without an entry in collection 0, the last of the page is taken
    assert_eq!(get_button_capabilities_for_page(&caps, UsagePageId(9), None).unwrap().report_id, 13);

    let vc = vec![vcaps(1, 0x30, 0x32, 1, 8), vcaps(1, 0x30, 0x35, 0, 16), vcaps(1, 0x40, 0x40, 0, 4)];
    let usage = Usage::from_u16(1, 0x31);
    assert_eq!(get_value_capabilities_for_usage(&vc, usage, Some(1)).unwrap().bit_size, 8);
    assert_eq!(get_value_capabilities_for_usage(&vc, usage, None).unwrap().bit_size, 16);
    assert!(get_value_capabilities_for_usage(&vc, Usage::from_u16(1, 0x36), None).is_none());
    assert_eq!(vcaps(1, 0, 0, 0, 8).get_raw_value_max(), 256);
    assert_eq!(vcaps(1, 0, 0, 0, 32).get_raw_value_max(), 0);
    assert!(RawValue::Single(5, 8).get_arr().is_none());
    assert_eq!(RawValue::Array(vec![1, 2], 4).get_arr(), Some(&[1u8, 2][..]));
}

#[test]
fn usb_vendor_lookup() {
    static DEVICES: [UsbDevice<'static>; 2] = [
        UsbDevice { id: UsbDeviceId(0x0ce6), name: "DualSense" },
        UsbDevice { id: UsbDeviceId(0x0df2), name: "DualSense Edge" },
    ];
    static VENDORS: [UsbVendor<'static>; 2] = [
        UsbVendor { id: UsbVendorId(0x045e), name: "Microsoft", devices: None },
        UsbVendor { id: UsbVendorId(0x054c), name: "Sony", devices: Some(&DEVICES) },
    ];
    let sony = UsbVendor::new(&VENDORS, UsbVendorId::new(0x054c)).unwrap();
    assert_eq!(sony.name, "Sony");
    assert_eq!(sony.get_device(UsbDeviceId::new(0x0df2)).unwrap().name, "DualSense Edge");
    assert!(UsbVendor::new(&VENDORS, UsbVendorId::new(0x1234)).is_none());
    let vp = VendorProduct::from_u16(0x054c, 0x0ce6);
    assert_eq!(vp.get_vendor_string(&VENDORS), Some("Sony".to_string()));
    assert_eq!(vp.get_device_string(&VENDORS), Some("DualSense".to_string()));
    let ms = VendorProduct::new(UsbVendorId(0x045e), UsbDeviceId(1));
    assert_eq!(ms.get_device_string(&VENDORS), None);
    assert_eq!(vp.vendor.as_u16(), 0x054c);
    assert_eq!(vp.device.as_u16(), 0x0ce6);
}

#[test]
fn device_type_matching() {
    let pad = DeviceType::Gamepad(GamepadFeatures(GAMEPAD_TOUCH | GAMEPAD_GYRO));
    assert_eq!(pad.match_or_supports(&pad.clone()), DeviceTypeMatchSupport::Match);
    assert_eq!(
        pad.match_or_supports(&DeviceType::Gamepad(GamepadFeatures(GAMEPAD_GYRO))),
        DeviceTypeMatchSupport::Support
    );
    assert_eq!(
        DeviceType::Gamepad(GamepadFeatures(GAMEPAD_GYRO))
            .match_or_supports(&DeviceType::Gamepad(GamepadFeatures(GAMEPAD_TOUCH))),
        DeviceTypeMatchSupport::NoMatch
    );
    assert_eq!(DeviceType::Mouse.match_or_supports(&DeviceType::Keyboard), DeviceTypeMatchSupport::NoMatch);
    let wheel = DeviceType::Other("wheel".to_string());
    assert_eq!(wheel.match_or_supports(&DeviceType::Other("wheel".to_string())), DeviceTypeMatchSupport::Match);
    assert_eq!(wheel.match_or_supports(&DeviceType::Other("pedals".to_string())), DeviceTypeMatchSupport::NoMatch);
}

#[test]
fn hat_switches() {
    assert_eq!(HatSwitch::from_4_button(true, false, false, true), HatSwitch::UpRight);
    assert_eq!(HatSwitch::from_4_button(true, true, false, false), HatSwitch::Neutral);
    assert_eq!(HatSwitch::from_4_button(false, true, true, false), HatSwitch::DownLeft);
    assert_eq!(HatSwitch::from_8_button(false, false, false, false, false, false, true, false), HatSwitch::Left);
    assert_eq!(HatSwitch::from_8_button(true, true, false, false, false, false, false, false), HatSwitch::Neutral);
    assert!(HatSwitch::DownRight.is_bottom_down());
    assert!(HatSwitch::DownRight.is_right_down());
    assert!(!HatSwitch::DownRight.is_left_down());
    assert!(HatSwitch::UpLeft.is_up_down() && HatSwitch::UpLeft.is_left_down());
}

#[test]
fn trigger_states() {
    assert_eq!(TriggerState::from_results(TriggerResult::Idle, TriggerResult::Idle), TriggerState(TRIGGER_IDLE));
    assert_eq!(TriggerState::from_results(TriggerResult::Idle, TriggerResult::Ongoing), TriggerState(TRIGGER_STARTED));
    assert_eq!(TriggerState::from_results(TriggerResult::Idle, TriggerResult::Triggered), TriggerState(TRIGGER_STARTED | TRIGGER_TRIGGERED));
    assert_eq!(TriggerState::from_results(TriggerResult::Ongoing, TriggerResult::Idle), TriggerState(TRIGGER_CANCELLED));
    assert_eq!(TriggerState::from_results(TriggerResult::Triggered, TriggerResult::Idle), TriggerState(TRIGGER_COMPLETED));
    assert_eq!(TriggerState::from_results(TriggerResult::Triggered, TriggerResult::Ongoing), TriggerState(TRIGGER_ONGOING));
    assert_eq!(TriggerResult::Ongoing.bitor(TriggerResult::Triggered), TriggerResult::Triggered);
    assert_eq!(TriggerResult::Ongoing.bitor(TriggerResult::Idle), TriggerResult::Ongoing);
    let mut fin = FinalTriggerResult::new();
    fin.update(TriggerType::Explicit, TriggerResult::Ongoing);
    fin.update(TriggerType::Implicit, TriggerResult::Triggered);
    assert_eq!(fin.to_result(), TriggerResult::Ongoing);
    fin.update(TriggerType::Implicit, TriggerResult::Idle);
    assert_eq!(fin.to_result(), TriggerResult::Idle);
    let mut fin = FinalTriggerResult::new();
    fin.update(TriggerType::Explicit, TriggerResult::Triggered);
    fin.update(TriggerType::Blocker, TriggerResult::Triggered);
    assert_eq!(fin.to_result(), TriggerResult::Idle);
}

#[test]
fn control_schemes() {
    let items = vec![
        SchemeItem::Optional(DeviceType::Touch),
        SchemeItem::Either(vec![DeviceType::Mouse, DeviceType::Keyboard]),
        SchemeItem::Required(DeviceType::Keyboard),
    ];
    let scheme = ControlScheme::new(ControlSchemeID("kbm".to_string()), items).ok().unwrap();
    assert!(matches!(scheme.items[0], SchemeItem::Required(_)));
    assert!(matches!(scheme.items[1], SchemeItem::Either(_)));
    assert!(matches!(scheme.items[2], SchemeItem::Optional(_)));
    assert_eq!(scheme.opt_start, Some(2));
    let only_optional = vec![SchemeItem::Optional(DeviceType::Mouse)];
    let back = ControlScheme::new(ControlSchemeID("x".to_string()), only_optional).err().unwrap();
    assert_eq!(back.len(), 1);
    assert!(ControlScheme::new(ControlSchemeID("e".to_string()), vec![]).is_err());
    let required = vec![SchemeItem::Required(DeviceType::Mouse)];
    assert_eq!(ControlScheme::new(ControlSchemeID("m".to_string()), required).ok().unwrap().opt_start, Some(1));
}

#[test]
fn raw_value_bits() {
    assert_eq!(RawValue::Single(77, 8).get_value(3), 77);
    let arr = RawValue::Array(vec![0b1010_1100, 0b0000_0011], 8);
    assert_eq!(arr.get_value(0), 0xAC);
    assert_eq!(arr.get_value(1), 0x03);
    let nib = RawValue::Array(vec![0b1010_1100, 0b0000_0011], 4);
    assert_eq!(nib.get_value(1), 0xA);
    // the bytes read end at the byte holding the end of the value
    assert_eq!(nib.get_value(0), 0);
    let wide = RawValue::Array(vec![0b1010_1100, 0b0000_0011], 16);
    assert_eq!(wide.get_value(0), 0x03AC);
}

#[test]
fn mouse_button_states() {
    let mut m = MouseState::new();
    assert_eq!(m.get_button_state(MouseButton::Left), ButtonState::Up);
    m.press(MouseButton::Left.index());
    assert_eq!(m.get_button_state(MouseButton::Left), ButtonState::Pressed);
    assert_eq!(m.get_button_state(MouseButton::Right), ButtonState::Up);
    m.prepare_for_update();
    assert_eq!(m.get_button_state(MouseButton::Left), ButtonState::Down);
    m.release(MouseButton::Left.index());
    assert_eq!(m.get_button_state(MouseButton::Left), ButtonState::Released);
    assert!(m.is_released(MouseButton::Left));
    m.prepare_for_update();
    assert_eq!(m.get_button_state(MouseButton::Left), ButtonState::Up);
    assert!(!m.is_released(MouseButton::Left));
    assert!(ButtonState::Pressed.is_down() && ButtonState::Down.is_down());
    assert!(ButtonState::Released.is_up() && ButtonState::Up.is_up());
    assert!(!ButtonState::Down.is_up() && !ButtonState::Released.is_down());
    assert_eq!(MouseButton::Side1.name(), "side button 1");
    assert_eq!(MouseButton::from_idx(2), Some(MouseButton::Right));
    assert_eq!(MouseButton::from_idx(5), None);
}

#[test]
fn mouse_last_change_wins() {
    let mut m = MouseState::new();
    let changes = [
        (MouseButton::Left, true),
        (MouseButton::Right, true),
        (MouseButton::Left, false),
        (MouseButton::Middle, true),
    ];
    let order = m.apply_button_changes(&changes);
    assert_eq!(order, vec![MouseButton::Middle, MouseButton::Left, MouseButton::Right]);
    assert_eq!(m.get_button_state(MouseButton::Left), ButtonState::Released);
    assert_eq!(m.get_button_state(MouseButton::Right), ButtonState::Pressed);
    assert_eq!(m.get_button_state(MouseButton::Middle), ButtonState::Pressed);
    assert_eq!(m.get_button_state(MouseButton::Side0), ButtonState::Up);
}

#[test]
fn mouse_move_to() {
    let mut m = MouseState::new();
    m.move_to((10, -4));
    assert_eq!(m.position(), (10, -4));
    assert_eq!(m.delta(), (10, -4));
    m.move_to((7, 0));
    assert_eq!(m.position(), (7, 0));
    assert_eq!(m.delta(), (-3, 4));
}

#[test]
fn dualsense_calibration_report() {
    let mut raw = vec![0u8; 35];
    raw[0] = 5;
    // gyro pitch bias: -2
    raw[1] = 0xFE;
    raw[2] = 0xFF;
    // gyro yaw bias: 0x1234
    raw[3] = 0x34;
    raw[4] = 0x12;
    // accel z minus: -32768
    raw[33] = 0x00;
    raw[34] = 0x80;
    let c = RawCalibrationData::from_report(&raw);
    assert_eq!(c.gyro_pitch_bias, -2);
    assert_eq!(c.gyro_yaw_bias, 0x1234);
    assert_eq!(c.gyro_roll_bias, 0);
    assert_eq!(c.accel_z_minus, i16::MIN);
}

#[test]
fn dualsense_bit_fields() {
    let t = RawTouchState { touch_and_id: 0x85, locs: [0, 0, 0] };
    assert!(!t.is_touched());
    assert_eq!(t.id(), 5);
    let t = RawTouchState { touch_and_id: 0x12, locs: [0, 0, 0] };
    assert!(t.is_touched());
    assert_eq!(t.id(), 0x12);

    let mut a = RawAudioControl(0);
    a.set_mic_select(RawMicSelect::ExternalOnly);
    a.set_echo_select(true);
    a.set_noise_cancel(true);
    assert_eq!(a.0, 0x0E);
    assert_eq!(a.mic_select(), RawMicSelect::ExternalOnly);
    assert!(a.echo_cancel() && a.noise_cancel());
    a.set_echo_select(false);
    assert!(!a.echo_cancel());
    // setting a routing replaces the whole byte
    a.set_output_path_select(RawOutputPathSelect::LLR);
    assert_eq!(a.0, 0x20);
    assert_eq!(a.output_path_select(), RawOutputPathSelect::LLR);
    a.set_input_path_select(RawOutputPathSelect::LLX);
    assert_eq!(a.0, 0x40);
    assert_eq!(a.input_path_select(), RawInputPathSelect::ChatChat);

    let mut b = RawAudioControl2(0xF8);
    b.set_speaker_comp_pre_gain(0x0D);
    assert_eq!(b.speaker_comp_pre_gain(), 5);
    assert!(b.beamforming_enabled());
    b.set_beamforming_enabled(false);
    assert!(!b.beamforming_enabled());
    assert_eq!(b.0, 0xF5);
}

#[test]
fn user_mapping_contexts_by_priority() {
    let mut u = User::new();
    u.add_mapping_context(5, "menu".to_string());
    u.add_mapping_context(1, "base".to_string());
    u.add_mapping_context(3, "vehicle".to_string());
    u.add_mapping_context(1, "base2".to_string());
    let names: Vec<(u16, &str)> = u.mappings().iter().map(|(p, n)| (*p, n.as_str())).collect();
    assert_eq!(names, vec![(1, "base"), (1, "base2"), (3, "vehicle"), (5, "menu")]);
    u.remove_mapping_with_priority_below(2);
    let names: Vec<(u16, &str)> = u.mappings().iter().map(|(p, n)| (*p, n.as_str())).collect();
    assert_eq!(names, vec![(3, "vehicle"), (5, "menu")]);
    // only the contexts with the given identifier are kept
    u.remove_mapping_context("menu");
    let names: Vec<(u16, &str)> = u.mappings().iter().map(|(p, n)| (*p, n.as_str())).collect();
    assert_eq!(names, vec![(5, "menu")]);
}

#[test]
fn user_device_disconnect_and_reconnect() {
    let a = Handle { id: 1, lifetime: 0 };
    let b = Handle { id: 2, lifetime: 0 };
    let c = Handle { id: 3, lifetime: 0 };
    let mut u = User::new();
    assert!(!u.notify_device_removed(a));
    u.set_control_set(ControlSet { scheme: ControlSchemeID("pad".to_string()), devices: vec![a, b] });
    assert_eq!(u.control_set().unwrap().devices(), &vec![a, b]);
    assert!(u.notify_device_removed(b));
    assert!(u.control_set().is_none());
    assert_eq!(u.get_currently_held_devices(), &vec![a, b]);
    assert!(!u.try_reconnect_device(c));
    assert!(u.notify_device_removed(a));
    assert_eq!(u.get_currently_held_devices(), &vec![b]);
    assert!(u.try_reconnect_device(a));
    assert!(u.control_set().is_none());
    assert!(u.try_reconnect_device(b));
    let set = u.control_set().unwrap();
    assert_eq!(set.devices(), &vec![b, a, b]);
    assert_eq!(set.scheme_identifier().0, "");
    u.notify_scheme_removed(&ControlSchemeID("other".to_string()));
    assert!(u.control_set().is_some());
    u.notify_scheme_removed(&ControlSchemeID(String::new()));
    assert!(u.control_set().is_none());
}

#[test]
fn device_storage_generational_handles() {
    let mut store: DeviceStorage<&str> = DeviceStorage::new();
    let a = store.add_device("mouse");
    let b = store.add_device("pad");
    assert_eq!(a, Handle { id: 0, lifetime: 0 });
    assert_eq!(b, Handle { id: 1, lifetime: 0 });
    assert_eq!(store.get_device(a), Some(&"mouse"));
    assert_eq!(store.remove_device(a), Some("mouse"));
    assert!(!store.has_device(a));
    let c = store.add_device("keyboard");
    assert_eq!(c, Handle { id: 0, lifetime: 1 });
    assert!(!store.has_device(a));
    assert_eq!(store.get_device(c), Some(&"keyboard"));
    assert_eq!(store.get_device(b), Some(&"pad"));
    // removing goes by the slot alone
    assert_eq!(store.remove_device(a), Some("keyboard"));
    assert_eq!(store.remove_device(a), None);
}

#[test]
fn gamepad_button_indices_and_names() {
    for i in 0..GAMEPAD_BUTTON_COUNT {
        let b = GamepadButton::from_idx(i).unwrap();
        assert_eq!(b.index(), i);
    }
    assert_eq!(GamepadButton::from_idx(GAMEPAD_BUTTON_COUNT), None);
    assert_eq!(GamepadButton::FaceBottom.name(), "south");
    assert_eq!(GamepadButton::RightThumbsstick.name(), "right stick button");
    assert_eq!(GamepadButton::Guide.index(), 12);
}

#[test]
fn gamepad_last_button_change_wins() {
    let mut g = GamepadButtons::new();
    assert!(!g.is_down(GamepadButton::FaceTop));
    g.set(GamepadButton::Guide, true);
    let changes = [
        (GamepadButton::FaceTop, true),
        (GamepadButton::LeftBumper, true),
        (GamepadButton::FaceTop, false),
        (GamepadButton::Guide, false),
        (GamepadButton::LeftBumper, true),
    ];
    let order = g.apply_button_changes(&changes);
    assert_eq!(order, vec![GamepadButton::LeftBumper, GamepadButton::Guide, GamepadButton::FaceTop]);
    assert!(!g.is_down(GamepadButton::FaceTop));
    assert!(g.is_down(GamepadButton::LeftBumper));
    assert!(!g.is_down(GamepadButton::Guide));
    assert!(!g.is_down(GamepadButton::RightMenu));
}

#[test]
fn dualsense_button_indices() {
    for i in 0..DUALSENSE_BUTTON_COUNT {
        assert_eq!(DualsenseButton::from_idx(i).unwrap().index(), i);
    }
    assert_eq!(DualsenseButton::from_idx(DUALSENSE_BUTTON_COUNT), None);
    assert_eq!(DualsenseButton::Mute.index(), 14);
}

#[test]
fn battery_names() {
    assert_eq!(BatteryState::AbnomralTemperature.name(), "abnormal temperature");
    assert_eq!(BatteryState::Charging.name(), "charging");
    assert_eq!(BatteryLevel::Critical.name(), "critical");
    assert_eq!(BatteryLevel::Full.name(), "full");
}

#[test]
fn dualsense_input_report_decoding() {
    let mut report = vec![0u8; 64];
    report[1] = 0x80;
    report[2] = 0x7F;
    report[3] = 0xFF;
    report[4] = 0x00;
    report[5] = 12;
    report[6] = 250;
    // hat neutral (8), square pressed (bit 4)
    report[8] = 0x18;
    // L1 (bit 8)
    report[9] = 0x01;
    // right paddle (bit 22)
    report[10] = 0x40;
    // gyro pitch -2, accel z 0x1234
    report[16] = 0xFE;
    report[17] = 0xFF;
    report[26] = 0x34;
    report[27] = 0x12;
    report[53] = 0x15;
    let r = DualsenseReport::from_input_report(&report);
    assert_eq!(r.pressed.len(), 19);
    assert!(r.pressed[DualsenseButton::Square.index()]);
    assert!(r.pressed[DualsenseButton::L1.index()]);
    assert!(r.pressed[DualsenseButton::RightPaddle.index()]);
    assert!(!r.pressed[DualsenseButton::Cross.index()]);
    assert_eq!(r.pressed.iter().filter(|p| **p).count(), 3);
    assert_eq!(r.dpad, HatSwitch::Neutral);
    assert_eq!(r.left_stick, (0x80, 0x7F));
    assert_eq!(r.right_stick, (0xFF, 0));
    assert_eq!((r.left_trigger, r.right_trigger), (12, 250));
    assert_eq!(r.gyro, (-2, 0, 0));
    assert_eq!(r.accel, (0, 0, 0x1234));
    assert_eq!(r.battery, 0x15);
    report[8] = 0x03;
    assert_eq!(DualsenseReport::from_input_report(&report).dpad, HatSwitch::DownRight);
    report[8] = 0x00;
    let r = DualsenseReport::from_input_report(&report);
    assert_eq!(r.dpad, HatSwitch::Up);
    assert!(!r.pressed[DualsenseButton::Square.index()]);
}

#[test]
fn dualsense_battery_state() {
    assert_eq!(battery_state(0x05), BatteryState::Discharging);
    assert_eq!(battery_state(0x15), BatteryState::Charging);
    assert_eq!(battery_state(0x2A), BatteryState::Neutral);
    assert_eq!(battery_state(0xA0), BatteryState::AbnormalVoltage);
    assert_eq!(battery_state(0xB3), BatteryState::AbnomralTemperature);
    assert_eq!(battery_state(0xFF), BatteryState::Error);
}

#[test]
fn hat_switch_indices_and_names() {
    for i in 0..9 {
        assert_eq!(HatSwitch::from_idx(i).unwrap().index(), i);
    }
    assert_eq!(HatSwitch::from_idx(9), None);
    assert_eq!(HatSwitch::from_idx(0), Some(HatSwitch::Neutral));
    assert_eq!(HatSwitch::UpLeft.index(), 8);
    assert_eq!(HatSwitch::DownRight.name(), "down-right");
    assert_eq!(HatSwitch::Neutral.name(), "neutral");
}

#[test]
fn dualsense_output_report_layout() {
    let empty = RawOutputState::new().to_bytes();
    assert_eq!(empty.len(), 48);
    assert_eq!(empty[0], 2);
    assert!(empty[1..].iter().all(|b| *b == 0));

    let mut out = RawOutputState::new();
    out.flags = OUTPUT_ALLOW_MUTE_LIGHT | OUTPUT_ALLOW_LED_COLOR | OUTPUT_ALLOW_PLAYER_INDICATORS;
    out.rumble_right = 0x11;
    out.rumble_left = 0x22;
    out.mute_light_mode = RawMuteLight::On;
    out.right_trigger_ffb[0] = 1;
    out.left_trigger_ffb[10] = 9;
    out.host_timestamp = 0x0403_0201;
    out.light_brightness = LightBrightness::Mid;
    out.player_light = player_lights(3);
    out.led_red = 0x7F;
    out.led_green = 0;
    out.led_blue = 0xFF;
    let bytes = out.to_bytes();
    assert_eq!(bytes.len(), 48);
    assert_eq!(bytes[1], 0x00);
    assert_eq!(bytes[2], 0x15);
    assert_eq!(bytes[3], 0x11);
    assert_eq!(bytes[4], 0x22);
    assert_eq!(bytes[9], 1);
    assert_eq!(bytes[11], 1);
    assert_eq!(bytes[32], 9);
    assert_eq!(&bytes[33..37], &[1, 2, 3, 4]);
    assert_eq!(bytes[43], 2);
    assert_eq!(bytes[44], 0x15);
    assert_eq!(&bytes[45..48], &[0x7F, 0, 0xFF]);
}

#[test]
fn dualsense_player_lights() {
    assert_eq!(player_lights(1), 0x04);
    assert_eq!(player_lights(2), 0x0A);
    assert_eq!(player_lights(3), 0x15);
    assert_eq!(player_lights(4), 0x1B);
    assert_eq!(player_lights(0), 0);
    assert_eq!(player_lights(5), 0);
}

#[test]
fn raw_input_device_names() {
    assert_eq!(
        vid_pid_from_device_name("\\\\?\\HID#VID_046D&PID_C52B&MI_01#7&1234"),
        Some((0x046D, 0xC52B))
    );
    assert_eq!(vid_pid_from_device_name("VID_+123&PID_abcd"), Some((0x123, 0xABCD)));
    assert_eq!(vid_pid_from_device_name("VID_046D"), None);
    assert_eq!(vid_pid_from_device_name("VID_12G4&PID_0001"), None);
    assert_eq!(vid_pid_from_device_name("PID_0001&VID_0002"), Some((2, 1)));
    assert_eq!(vid_pid_from_device_name("VID_0001&PID_01"), None);
    assert_eq!(vid_pid_from_device_name("VID_é001&PID_0001"), None);
    assert_eq!(raw_input_usage(true), Usage::from_u16(1, 2));
    assert_eq!(raw_input_usage(false), Usage::from_u16(1, 6));
}

#[test]
fn entry_types_from_attributes_and_alignment() {
    assert_eq!(entry_type_from_attributes(true, true), EntryType::SymlinkDirectory);
    assert_eq!(entry_type_from_attributes(true, false), EntryType::SymlinkFile);
    assert_eq!(entry_type_from_attributes(false, true), EntryType::Directory);
    assert_eq!(entry_type_from_attributes(false, false), EntryType::File);
    assert_eq!(alignment_offset(u32::MAX), None);
    assert_eq!(alignment_offset(512), Some(512));
}

#[test]
fn virtual_keys_with_a_fixed_meaning() {
    assert_eq!(vk_to_keycode(0x41, None), Some(KeyCode::A));
    assert_eq!(vk_to_keycode(0x5A, None), Some(KeyCode::Z));
    assert_eq!(vk_to_keycode(0x30, None), Some(KeyCode::N0));
    assert_eq!(vk_to_keycode(0x0D, Some('x')), Some(KeyCode::Enter));
    assert_eq!(vk_to_keycode(0x7B, None), Some(KeyCode::F12));
    assert_eq!(vk_to_keycode(0x60, None), Some(KeyCode::Numpad0));
    assert_eq!(vk_to_keycode(0xA5, None), Some(KeyCode::RAlt));
    assert_eq!(vk_to_keycode(0x91, None), Some(KeyCode::ScrollLock));
}

#[test]
fn virtual_keys_read_through_the_layout() {
    assert_eq!(vk_to_keycode(0xBA, Some(';')), Some(KeyCode::Semicolon));
    assert_eq!(vk_to_keycode(0xDE, Some('\'')), Some(KeyCode::Apostrophe));
    assert_eq!(vk_to_keycode(0x32, Some('\u{e9}')), Some(KeyCode::N2));
    assert_eq!(vk_to_keycode(0xBF, Some('\u{e9}')), Some(KeyCode::EAcute));
    assert_eq!(vk_to_keycode(0xC0, Some('\u{a7}')), Some(KeyCode::Section));
    assert_eq!(vk_to_keycode(0xBB, Some('q')), None);
    assert_eq!(vk_to_keycode(0xBB, None), None);
}
