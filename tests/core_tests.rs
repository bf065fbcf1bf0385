use std::rc::Rc;
use vpc_shift_tool::bits::{merge_bytes, read_bit};
use vpc_shift_tool::catalog::{build_device_list, sort_by_name, text_le_exec};
use vpc_shift_tool::classify::{
    determine_report_format, firmware_build_date, is_supported, CalendarDate,
};
use vpc_shift_tool::config::{ConfigData, ModifiersArray, ShiftModifiers};
use vpc_shift_tool::control::{slot_status, start_stop_toggle, SlotStatus, ToggleOutcome};
use vpc_shift_tool::device::{
    create_vpc_device_from_info, find_device_index_for_saved, format_hex4, mark_all_inactive,
    reset_missing_slots, DeviceDescriptor, SavedDevice, VpcDevice,
};
use vpc_shift_tool::merge::{combine_states, combine_votes, merge_receiver_state, SourceReading};
use vpc_shift_tool::report::{ReportFormat, FEATURE_REPORT_ID_SHIFT, MAX_REPORT_SIZE};
use vpc_shift_tool::worker::{
    resolve_worker_infos, DeviceWorkerInfo, SlotGroup, Worker, WorkerAction, WorkerEvent,
    WorkerStage,
};

fn slot(vendor_id: u16, product_id: u16, serial: &str, bits: &[usize]) -> SavedDevice {
    let mut state_enabled = [false; 8];
    for b in bits {
        state_enabled[*b] = true;
    }
    SavedDevice { vendor_id, product_id, serial_number: serial.to_string(), state_enabled }
}

fn catalog_entry(product_id: u16, serial: &str, name: &str, firmware: &str) -> VpcDevice {
    VpcDevice {
        full_name: String::new(),
        name: Rc::new(name.to_string()),
        firmware: Rc::new(firmware.to_string()),
        vendor_id: 0x3344,
        product_id,
        serial_number: serial.to_string(),
        usage: 0,
        active: true,
    }
}

fn current_report(state: u16) -> Vec<u8> {
    let mut buf = [0u8; MAX_REPORT_SIZE];
    ReportFormat::current().pack_state(&mut buf, state).to_vec()
}

// ---- bit utilities ----

#[test]
fn read_bit_matches_shift_and_mask() {
    let values = [0u16, 1, 0b1010_0101, 0x8000, 0xffff, 0x1234];
    for v in values {
        for p in 0u8..16 {
            assert_eq!(read_bit(v, p), (v >> p) & 1 == 1);
        }
    }
}

#[test]
fn read_bit_beyond_fifteen_is_false() {
    assert!(!read_bit(0xffff, 16));
    assert!(!read_bit(0xffff, 200));
    assert!(!read_bit(0xffff, 255));
}

#[test]
fn merge_bytes_joins_high_and_low() {
    assert_eq!(merge_bytes(0x12, 0x34), 0x1234);
    assert_eq!(merge_bytes(0, 0xff), 0x00ff);
    assert_eq!(merge_bytes(0xff, 0), 0xff00);
}

// ---- report formats ----

#[test]
fn current_format_packs_nineteen_bytes() {
    let mut buf = [0xaau8; 24];
    let report = ReportFormat::current().pack_state(&mut buf, 0x1234).to_vec();
    let mut expected = vec![0u8; 19];
    expected[0] = FEATURE_REPORT_ID_SHIFT;
    expected[1] = 0x12;
    expected[2] = 0x34;
    assert_eq!(report, expected);
    assert_eq!(&buf[19..], &[0xaa; 5]);
}

#[test]
fn legacy_format_packs_two_bytes() {
    let mut buf = [0xaau8; 4];
    let report = ReportFormat::legacy().pack_state(&mut buf, 0x0107).to_vec();
    assert_eq!(report, vec![4, 0x07]);
    assert_eq!(&buf[2..], &[0xaa, 0xaa]);
}

#[test]
fn pack_into_short_buffer_is_empty_and_untouched() {
    let mut buf = [9u8; 10];
    let report = ReportFormat::current().pack_state(&mut buf, 0xffff);
    assert!(report.is_empty());
    assert_eq!(buf, [9u8; 10]);
}

#[test]
fn round_trip_current_keeps_every_state() {
    let f = ReportFormat::current();
    for s in [0u16, 1, 255, 256, 0x1234, 0xffff] {
        let mut buf = [0u8; MAX_REPORT_SIZE];
        let report = f.pack_state(&mut buf, s).to_vec();
        assert_eq!(f.unpack_state(&report), Some(s));
    }
}

#[test]
fn round_trip_legacy_keeps_low_byte() {
    let f = ReportFormat::legacy();
    for s in [0u16, 7, 255] {
        let mut buf = [0u8; MAX_REPORT_SIZE];
        let report = f.pack_state(&mut buf, s).to_vec();
        assert_eq!(f.unpack_state(&report), Some(s));
    }
    for s in [256u16, 0x1234, 0xffff] {
        let mut buf = [0u8; MAX_REPORT_SIZE];
        let report = f.pack_state(&mut buf, s).to_vec();
        assert_eq!(f.unpack_state(&report), Some(s & 0xff));
    }
}

#[test]
fn unpack_rejects_empty_wrong_id_and_short() {
    let f = ReportFormat::current();
    assert_eq!(f.unpack_state(&[]), None);
    assert_eq!(f.unpack_state(&[5, 1, 2]), None);
    assert_eq!(f.unpack_state(&[4, 1]), None);
}

#[test]
fn unpack_missing_high_byte_reads_zero() {
    let legacy = ReportFormat::legacy();
    assert_eq!(legacy.unpack_state(&[4, 0x42]), Some(0x42));
    assert_eq!(legacy.unpack_state(&[4]), None);
    let current = ReportFormat::current();
    assert_eq!(current.unpack_state(&[4, 0x01, 0x02]), Some(0x0102));
}

#[test]
fn format_accessors() {
    let c = ReportFormat::current();
    assert_eq!(c.report_id(), 4);
    assert_eq!(c.total_size(), 19);
    assert_eq!(c.high_byte_idx(), Some(1));
    assert_eq!(c.low_byte_idx(), 2);
    let l = ReportFormat::legacy();
    assert_eq!(l.total_size(), 2);
    assert_eq!(l.high_byte_idx(), None);
    assert_eq!(l.low_byte_idx(), 1);
    assert_ne!(l.name(), c.name());
}

// ---- classification ----

#[test]
fn classify_day_before_threshold_is_legacy() {
    let f = determine_report_format("VPC Stick", "VIRPIL Controls 20241225");
    assert_eq!(f, ReportFormat::legacy());
}

#[test]
fn classify_threshold_and_later_is_current() {
    assert_eq!(determine_report_format("", "VIRPIL Controls 20241226"), ReportFormat::current());
    assert_eq!(determine_report_format("", "VIRPIL Controls 20250301"), ReportFormat::current());
}

#[test]
fn classify_empty_or_unparsable_is_current() {
    assert_eq!(determine_report_format("", ""), ReportFormat::current());
    assert_eq!(determine_report_format("", "Unknown Firmware"), ReportFormat::current());
    assert_eq!(determine_report_format("", "VIRPIL Controls 2024122"), ReportFormat::current());
    assert_eq!(determine_report_format("", "VIRPIL Controls 20241332"), ReportFormat::current());
    assert_eq!(determine_report_format("", "VIRPIL Controls 2024-12-1"), ReportFormat::current());
}

#[test]
fn classify_uses_last_word_and_ignores_trailing_space() {
    assert_eq!(determine_report_format("", "VIRPIL Controls 20230101  "), ReportFormat::legacy());
    assert_eq!(determine_report_format("", "20230101 Controls"), ReportFormat::current());
    assert_eq!(determine_report_format("", "20230101"), ReportFormat::legacy());
}

#[test]
fn classify_is_deterministic() {
    let a = determine_report_format("n", "VIRPIL Controls 20240101");
    let b = determine_report_format("n", "VIRPIL Controls 20240101");
    assert_eq!(a, b);
}

#[test]
fn firmware_build_date_reads_valid_days_only() {
    assert_eq!(
        firmware_build_date("VIRPIL Controls 20240229"),
        Some(CalendarDate { year: 2024, month: 2, day: 29 })
    );
    assert_eq!(firmware_build_date("VIRPIL Controls 20230229"), None);
    assert_eq!(firmware_build_date("VIRPIL Controls 20241131"), None);
    assert_eq!(firmware_build_date("VIRPIL Controls"), None);
}

#[test]
fn every_firmware_is_supported() {
    assert!(is_supported(String::new(), false));
    assert!(is_supported("Unknown Firmware".to_string(), false));
    assert!(is_supported("VIRPIL Controls 20240101".to_string(), true));
}

// ---- merge engine ----

#[test]
fn combine_votes_example() {
    let votes = vec![true, false, true];
    assert!(combine_votes(ShiftModifiers::OR, &votes));
    assert!(!combine_votes(ShiftModifiers::AND, &votes));
    assert!(!combine_votes(ShiftModifiers::XOR, &votes));
}

#[test]
fn combine_votes_single_and_odd() {
    assert!(combine_votes(ShiftModifiers::XOR, &vec![true]));
    assert!(combine_votes(ShiftModifiers::XOR, &vec![true, true, true]));
    assert!(!combine_votes(ShiftModifiers::OR, &vec![false, false]));
    assert!(combine_votes(ShiftModifiers::AND, &vec![true, true]));
}

#[test]
fn unvoted_bit_stays_clear_under_every_rule() {
    let readings = vec![SourceReading { state: Some(0xff), enabled: [false; 8] }];
    for rule in [ShiftModifiers::OR, ShiftModifiers::AND, ShiftModifiers::XOR] {
        let mut rules = ModifiersArray::default();
        for b in 0..8 {
            rules.set(b, rule);
        }
        assert_eq!(combine_states(&readings, &rules), 0);
    }
    assert_eq!(combine_states(&Vec::new(), &ModifiersArray::default()), 0);
}

#[test]
fn end_to_end_two_sources_combine_to_three() {
    let mut rules = ModifiersArray::default();
    rules.set(1, ShiftModifiers::AND);
    let mut a = [false; 8];
    a[0] = true;
    a[1] = true;
    let mut b = [false; 8];
    b[1] = true;
    b[2] = true;
    let readings = vec![
        SourceReading { state: Some(0b011), enabled: a },
        SourceReading { state: Some(0b010), enabled: b },
    ];
    assert_eq!(combine_states(&readings, &rules), 0b011);
}

#[test]
fn unavailable_source_votes_false() {
    let mut rules = ModifiersArray::default();
    rules.set(0, ShiftModifiers::AND);
    let readings = vec![
        SourceReading { state: Some(0b1), enabled: [true; 8] },
        SourceReading { state: None, enabled: [true; 8] },
    ];
    assert_eq!(combine_states(&readings, &rules), 0);
    rules.set(0, ShiftModifiers::XOR);
    assert_eq!(combine_states(&readings, &rules), 1);
}

#[test]
fn upper_byte_of_sources_never_reaches_combined_state() {
    let readings = vec![SourceReading { state: Some(0xff00), enabled: [true; 8] }];
    assert_eq!(combine_states(&readings, &ModifiersArray::default()), 0);
}

#[test]
fn receiver_merge_scenario() {
    let mut enabled = [false; 8];
    enabled[0] = true;
    enabled[1] = true;
    assert_eq!(merge_receiver_state(0b0000_0111, &enabled, 0b0000_0100), 0b0000_0111);
    assert_eq!(merge_receiver_state(0b0000_0011, &[true; 8], 0b0000_0100), 0b0000_0111);
}

#[test]
fn receiver_merge_masks_disabled_bits() {
    let enabled = [false; 8];
    assert_eq!(merge_receiver_state(0b1111_1111, &enabled, 0), 0);
    assert_eq!(merge_receiver_state(0x0100, &enabled, 0), 0x0100);
    assert_eq!(merge_receiver_state(0, &enabled, 0x8001), 0x8001);
}

#[test]
fn rule_cycle_and_labels() {
    assert_eq!(ShiftModifiers::OR.next(), ShiftModifiers::AND);
    assert_eq!(ShiftModifiers::AND.next(), ShiftModifiers::XOR);
    assert_eq!(ShiftModifiers::XOR.next(), ShiftModifiers::OR);
}

// ---- devices ----

#[test]
fn hex_is_four_upper_case_digits() {
    assert_eq!(format_hex4(0x3344), "3344");
    assert_eq!(format_hex4(0x00ab), "00AB");
    assert_eq!(format_hex4(0xffff), "FFFF");
    assert_eq!(format_hex4(0), "0000");
}

#[test]
fn find_device_index_cases() {
    let list = vec![
        VpcDevice::default(),
        catalog_entry(1, "A", "Stick", "fw"),
        catalog_entry(2, "B", "Throttle", "fw"),
    ];
    assert_eq!(find_device_index_for_saved(&list, &slot(0x3344, 2, "B", &[])), 2);
    assert_eq!(find_device_index_for_saved(&list, &slot(0x3344, 2, "X", &[])), 0);
    assert_eq!(find_device_index_for_saved(&list, &SavedDevice::default()), 0);
    assert_eq!(find_device_index_for_saved(&list, &slot(0x3344, 1, "A", &[])), 1);
}

#[test]
fn create_device_from_descriptor() {
    let d = DeviceDescriptor {
        vendor_id: 0x3344,
        product_id: 0x0001,
        product_string: Some("VPC MongoosT-50CM3".to_string()),
        manufacturer_string: Some("VIRPIL Controls 20240101".to_string()),
        serial_number: Some("123456".to_string()),
        usage: 4,
    };
    let v = create_vpc_device_from_info(&d).unwrap();
    assert_eq!(v.full_name, "3344:0001:123456");
    assert_eq!(*v.name, "VPC MongoosT-50CM3");
    assert_eq!(*v.firmware, "VIRPIL Controls 20240101");
    assert_eq!(v.usage, 4);
    assert!(!v.active);

    let no_sn = DeviceDescriptor { serial_number: None, ..d.clone() };
    let v = create_vpc_device_from_info(&no_sn).unwrap();
    assert_eq!(v.full_name, "3344:0001:no_sn");
    assert_eq!(v.serial_number, "");

    let no_fw = DeviceDescriptor { manufacturer_string: None, ..d.clone() };
    assert_eq!(*create_vpc_device_from_info(&no_fw).unwrap().firmware, "Unknown Firmware");
}

#[test]
fn create_device_rejects_unnamed_or_zero_ids() {
    let d = DeviceDescriptor {
        vendor_id: 0x3344,
        product_id: 0x0001,
        product_string: None,
        manufacturer_string: None,
        serial_number: None,
        usage: 0,
    };
    assert!(create_vpc_device_from_info(&d).is_none());
    let named = DeviceDescriptor { product_string: Some("X".to_string()), ..d.clone() };
    assert!(create_vpc_device_from_info(&named).is_some());
    let zero = DeviceDescriptor { product_id: 0, ..named.clone() };
    assert!(create_vpc_device_from_info(&zero).is_none());
}

#[test]
fn build_device_list_dedupes_filters_and_sorts() {
    let make = |vid: u16, pid: u16, name: &str, sn: &str| DeviceDescriptor {
        vendor_id: vid,
        product_id: pid,
        product_string: Some(name.to_string()),
        manufacturer_string: Some("fw".to_string()),
        serial_number: Some(sn.to_string()),
        usage: 0,
    };
    let found = vec![
        make(0x3344, 2, "Zeta", "1"),
        make(0x1111, 3, "Alpha", "9"),
        make(0x3344, 1, "Beta", "2"),
        make(0x3344, 2, "Zeta", "1"),
        make(0x3344, 4, "Alpha", "3"),
    ];
    let list = build_device_list(&found, false);
    let names: Vec<String> = list.iter().map(|d| (*d.name).clone()).collect();
    assert_eq!(
        names,
        vec!["-NO CONNECTION (Select device from list)-", "Alpha", "Beta", "Zeta"]
    );
    assert_eq!(list[1].product_id, 4);
}

#[test]
fn sort_by_name_is_stable() {
    let mut v = vec![
        catalog_entry(1, "a", "B", ""),
        catalog_entry(2, "b", "A", ""),
        catalog_entry(3, "c", "B", ""),
        catalog_entry(4, "d", "A", ""),
    ];
    sort_by_name(&mut v);
    let ids: Vec<u16> = v.iter().map(|d| d.product_id).collect();
    assert_eq!(ids, vec![2, 4, 1, 3]);
    assert!(text_le_exec("Ab", "Abc"));
    assert!(!text_le_exec("b", "a"));
}

#[test]
fn reset_missing_slots_empties_absent_devices() {
    let list = vec![VpcDevice::default(), catalog_entry(1, "A", "Stick", "fw")];
    let mut slots = vec![
        slot(0x3344, 1, "A", &[0]),
        slot(0x3344, 7, "Z", &[1]),
        SavedDevice::default(),
    ];
    assert!(reset_missing_slots(&mut slots, &list));
    assert_eq!(slots[0].product_id, 1);
    assert_eq!(slots[1].product_id, 0);
    assert_eq!(slots[1].state_enabled, [true; 8]);
    assert!(!reset_missing_slots(&mut slots, &list));
}

#[test]
fn mark_all_inactive_clears_flags() {
    let mut list = vec![catalog_entry(1, "A", "S", ""), catalog_entry(2, "B", "T", "")];
    mark_all_inactive(&mut list);
    assert!(list.iter().all(|d| !d.active));
}

#[test]
fn config_slot_management() {
    let mut c = ConfigData::default();
    c.add_source();
    assert!(!c.remove_source());
    c.add_source();
    assert!(c.remove_source());
    assert_eq!(c.sources.len(), 1);
    assert!(!c.remove_receiver());
    c.add_receiver();
    assert_eq!(c.receivers[0].state_enabled, [true; 8]);
    assert!(c.remove_receiver());
}

#[test]
fn controls() {
    assert_eq!(start_stop_toggle(0, 1, false), ToggleOutcome::Ignored);
    assert_eq!(start_stop_toggle(1, 0, true), ToggleOutcome::Ignored);
    assert_eq!(start_stop_toggle(1, 1, false), ToggleOutcome::Start);
    assert_eq!(start_stop_toggle(1, 1, true), ToggleOutcome::Stop);
    assert_eq!(slot_status(true, 1, 1), SlotStatus::Online);
    assert_eq!(slot_status(true, 0, 1), SlotStatus::Unconfigured);
    assert_eq!(slot_status(false, 1, 1), SlotStatus::Offline);
    assert_eq!(SlotStatus::Online.as_str(), "ONLINE");
}

// ---- worker ----

fn info(product_id: u16, serial: &str, bits: &[usize]) -> DeviceWorkerInfo {
    DeviceWorkerInfo { config: slot(0x3344, product_id, serial, bits), format: ReportFormat::current() }
}

fn step(w: Worker, e: WorkerEvent) -> (Worker, WorkerAction) {
    w.step(e)
}

#[test]
fn resolve_uses_catalog_firmware() {
    let list = vec![
        VpcDevice::default(),
        catalog_entry(1, "A", "Old", "VIRPIL Controls 20230101"),
        catalog_entry(2, "B", "New", "VIRPIL Controls 20250101"),
    ];
    let slots = vec![slot(0x3344, 1, "A", &[0]), slot(0x3344, 2, "B", &[0]), slot(0x3344, 9, "", &[])];
    let infos = resolve_worker_infos(&slots, &list);
    assert_eq!(infos.len(), 3);
    assert_eq!(infos[0].format, ReportFormat::legacy());
    assert_eq!(infos[1].format, ReportFormat::current());
    assert_eq!(infos[2].format, ReportFormat::current());
    assert_eq!(infos[0].config.serial_number, "A");
}

#[test]
fn worker_full_cycle_end_to_end() {
    let mut rules = ModifiersArray::default();
    rules.set(1, ShiftModifiers::AND);
    let sources = vec![info(1, "A", &[0, 1]), info(2, "", &[1, 2])];
    let receivers = vec![info(3, "R", &[0, 1])];
    let (w, a) = Worker::start(sources, receivers, rules);
    match a {
        WorkerAction::Open { group: SlotGroup::Sources, index: 0, product_id: 1, serial_number: Some(s), .. } => assert_eq!(s, "A"),
        other => panic!("unexpected {:?}", other),
    }
    let (w, a) = step(w, WorkerEvent::Opened(true));
    match a {
        WorkerAction::Open { index: 1, serial_number: None, .. } => {}
        other => panic!("unexpected {:?}", other),
    }
    let (w, a) = step(w, WorkerEvent::Opened(true));
    assert!(matches!(a, WorkerAction::Open { group: SlotGroup::Receivers, index: 0, .. }));
    let (w, a) = step(w, WorkerEvent::Opened(true));
    assert!(matches!(a, WorkerAction::CheckRunSignal));
    let (w, a) = step(w, WorkerEvent::RunSignal(true));
    assert!(matches!(a, WorkerAction::ReadReport { group: SlotGroup::Sources, index: 0, report_id: 4, size: 19 }));
    let (w, a) = step(w, WorkerEvent::ReportRead(Some(current_report(0b011))));
    assert!(matches!(a, WorkerAction::ReadReport { index: 1, .. }));
    let (w, a) = step(w, WorkerEvent::ReportRead(Some(current_report(0b010))));
    assert_eq!(w.combined_state(), 0b011);
    assert_eq!(w.source_states(), &[0b011, 0b010]);
    match a {
        WorkerAction::SendReport { group: SlotGroup::Receivers, index: 0, report } => assert_eq!(report, current_report(0)),
        other => panic!("unexpected {:?}", other),
    }
    let (w, a) = step(w, WorkerEvent::ReportSent(true));
    assert!(matches!(a, WorkerAction::ReadReport { group: SlotGroup::Receivers, index: 0, .. }));
    let (w, a) = step(w, WorkerEvent::ReportRead(Some(current_report(0b100))));
    match a {
        WorkerAction::SendReport { report, .. } => assert_eq!(report, current_report(0b111)),
        other => panic!("unexpected {:?}", other),
    }
    assert_eq!(w.stage(), WorkerStage::SendingState(0, 0b111));
    let (w, a) = step(w, WorkerEvent::ReportSent(true));
    assert_eq!(w.receiver_states(), &[0b111]);
    assert!(matches!(a, WorkerAction::Sleep { millis: 100 }));
    let (w, a) = step(w, WorkerEvent::Slept);
    assert!(matches!(a, WorkerAction::CheckRunSignal));
    let (w, a) = step(w, WorkerEvent::RunSignal(false));
    match a {
        WorkerAction::SendReport { report, .. } => assert_eq!(report, current_report(0)),
        other => panic!("unexpected {:?}", other),
    }
    let (w, a) = step(w, WorkerEvent::ReportSent(false));
    assert!(matches!(a, WorkerAction::Release));
    assert!(w.is_stopped());
    assert_eq!(w.receiver_states(), &[0]);
}

#[test]
fn worker_read_back_failure_merges_with_zero() {
    let sources = vec![info(1, "A", &[0])];
    let receivers = vec![info(3, "R", &[0])];
    let (w, _) = Worker::start(sources, receivers, ModifiersArray::default());
    let (w, _) = step(w, WorkerEvent::Opened(true));
    let (w, _) = step(w, WorkerEvent::Opened(true));
    let (w, _) = step(w, WorkerEvent::RunSignal(true));
    let (w, _) = step(w, WorkerEvent::ReportRead(Some(current_report(1))));
    let (w, _) = step(w, WorkerEvent::ReportSent(true));
    let (w, a) = step(w, WorkerEvent::ReportRead(None));
    match a {
        WorkerAction::SendReport { report, .. } => assert_eq!(report, current_report(1)),
        other => panic!("unexpected {:?}", other),
    }
    let (w, a) = step(w, WorkerEvent::ReportSent(false));
    assert!(matches!(a, WorkerAction::Open { group: SlotGroup::Receivers, index: 0, .. }));
    assert_eq!(w.receiver_states(), &[0]);
    let (_, a) = step(w, WorkerEvent::Opened(false));
    assert!(matches!(a, WorkerAction::Sleep { .. }));
}

#[test]
fn worker_reopen_after_read_failure() {
    let sources = vec![info(1, "A", &[0])];
    let (w, _) = Worker::start(sources, Vec::new(), ModifiersArray::default());
    let (w, _) = step(w, WorkerEvent::Opened(true));
    let (w, _) = step(w, WorkerEvent::RunSignal(true));
    let (w, a) = step(w, WorkerEvent::ReportRead(None));
    match a {
        WorkerAction::Open { group: SlotGroup::Sources, index: 0, vendor_id: 0x3344, product_id: 1, serial_number: Some(s) } => assert_eq!(s, "A"),
        other => panic!("unexpected {:?}", other),
    }
    assert_eq!(w.source_states(), &[0]);
    let (w, a) = step(w, WorkerEvent::Opened(true));
    assert!(matches!(a, WorkerAction::Sleep { .. }));
    let (w, _) = step(w, WorkerEvent::Slept);
    let (w, a) = step(w, WorkerEvent::RunSignal(true));
    assert!(matches!(a, WorkerAction::ReadReport { index: 0, .. }));
    let (w, _) = step(w, WorkerEvent::ReportRead(Some(current_report(1))));
    assert_eq!(w.source_states(), &[1]);
    assert_eq!(w.combined_state(), 1);
}

#[test]
fn worker_failed_reopen_leaves_source_unavailable() {
    let sources = vec![info(1, "A", &[0]), info(2, "B", &[0])];
    let (w, _) = Worker::start(sources, Vec::new(), ModifiersArray::default());
    let (w, _) = step(w, WorkerEvent::Opened(true));
    let (w, _) = step(w, WorkerEvent::Opened(true));
    let (w, _) = step(w, WorkerEvent::RunSignal(true));
    let (w, a) = step(w, WorkerEvent::ReportRead(Some(vec![9, 9, 9])));
    assert!(matches!(a, WorkerAction::Open { index: 0, .. }));
    let (mut w, a) = step(w, WorkerEvent::Opened(false));
    assert!(matches!(a, WorkerAction::ReadReport { index: 1, .. }));
    for _ in 0..3 {
        let (w2, _) = step(w, WorkerEvent::ReportRead(Some(current_report(1))));
        assert_eq!(w2.source_states(), &[0, 1]);
        assert_eq!(w2.combined_state(), 1);
        let (w2, _) = step(w2, WorkerEvent::Slept);
        let (w2, a) = step(w2, WorkerEvent::RunSignal(true));
        assert!(matches!(a, WorkerAction::ReadReport { index: 1, .. }));
        w = w2;
    }
    assert!(!w.is_stopped());
}

#[test]
fn worker_skips_unconfigured_slots() {
    let sources = vec![DeviceWorkerInfo { config: SavedDevice::default(), format: ReportFormat::current() }];
    let (w, a) = Worker::start(sources, Vec::new(), ModifiersArray::default());
    assert!(matches!(a, WorkerAction::CheckRunSignal));
    let (w, a) = step(w, WorkerEvent::RunSignal(true));
    assert!(matches!(a, WorkerAction::Sleep { .. }));
    assert_eq!(w.combined_state(), 0);
    let (w, _) = step(w, WorkerEvent::Slept);
    let (w, a) = step(w, WorkerEvent::RunSignal(false));
    assert!(matches!(a, WorkerAction::Release));
    assert!(w.is_stopped());
}
