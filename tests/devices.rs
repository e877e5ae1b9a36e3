use pl_update::adb::{
    choice_index, destination_missing, last_output_line, push_refusal, reconnect_step, select_device,
    status_from_state, AndroidDevice, DeviceManager, DeviceStatus, PushRefusal, ReconnectStep, SelectError,
    Selection, StatusQuery,
};

fn b(s: &str) -> Vec<u8> {
    s.as_bytes().to_vec()
}

const LISTING: &str = "List of devices attached\r\nR58M123 device usb:1-1 product:a model:SM_G99 device:b transport_id:4\r\nemulator-5554 device product:sdk model:Pixel_7 device:emu transport_id:12\r\n\r\n";

fn manager() -> DeviceManager {
    DeviceManager::new(&b("adb"), &b("Android Debug Bridge version 1.0.41\r\nVersion 34.0.5\r\n")).unwrap()
}

#[test]
fn status_phrases() {
    assert_eq!(DeviceStatus::Online.as_str(), "ready for command");
    assert_eq!(DeviceStatus::Offline.as_str(), "offline");
    assert_eq!(DeviceStatus::Bootloader.as_str(), "in bootloader");
    assert_eq!(DeviceStatus::Unauthorized.as_str(), "unauthorized");
    assert_eq!(DeviceStatus::Disconnected.as_str(), "no longer connected");
}

#[test]
fn decoy_device() {
    assert!(AndroidDevice::new(b("x"), b("m"), 99).is_decoy());
    assert!(!AndroidDevice::new(b("x"), b("m"), 4).is_decoy());
    assert!(AndroidDevice::new(b("x"), b("m"), 4) == AndroidDevice::new(b("x"), b("m"), 7));
}

#[test]
fn version_is_read_and_written_back() {
    let m = manager();
    assert_eq!(m.adb_version, vec![1, 0, 41]);
    assert_eq!(m.get_version(), b("1.0.41"));
    assert!(DeviceManager::new(&b("adb"), &b("something else\n")).is_none());
    assert!(DeviceManager::new(&b("adb"), &b("Android Debug Bridge version 1.x.2\n")).is_none());
}

#[test]
fn device_list_is_read() {
    let mut m = manager();
    let ds = m.get_devices(&b(LISTING)).unwrap();
    assert_eq!(ds.len(), 2);
    assert_eq!(ds[0].identifier, b("R58M123"));
    assert_eq!(ds[0].model, b("SM_G99"));
    assert_eq!(ds[0].transport_id, 4);
    assert_eq!(ds[1].identifier, b("emulator-5554"));
    assert_eq!(ds[1].transport_id, 12);
    assert_eq!(m.devices.len(), 2);
    assert!(m.get_devices(&b("List of devices attached\nbroken line\n")).is_none());
    assert_eq!(m.devices.len(), 2);
}

#[test]
fn transport_ids_and_status_queries() {
    let mut m = manager();
    let ds = m.get_devices(&b(LISTING)).unwrap();
    assert_eq!(m.get_transport_id(&ds[1]), 12);
    let gone = AndroidDevice::new(b("zzz"), b("q"), 5);
    assert_eq!(m.get_transport_id(&gone), 99);
    assert_eq!(m.status_query(&ds[0]), StatusQuery::Ask(4));
    assert_eq!(m.status_query(&gone), StatusQuery::Disconnected);
    assert_eq!(m.status_query(&AndroidDevice::new(b("R58M123"), b("SM_G99"), 99)), StatusQuery::NoSuchDevice);
}

#[test]
fn states_and_refusals() {
    assert_eq!(status_from_state(&b("device\r\n")), Some(DeviceStatus::Online));
    assert_eq!(status_from_state(&b(" offline\n")), Some(DeviceStatus::Offline));
    assert_eq!(status_from_state(&b("bootloader")), Some(DeviceStatus::Bootloader));
    assert_eq!(status_from_state(&b("unauthorized\n")), Some(DeviceStatus::Unauthorized));
    assert_eq!(status_from_state(&b("recovery\n")), None);
    assert_eq!(push_refusal(DeviceStatus::Online), None);
    assert_eq!(push_refusal(DeviceStatus::Disconnected), Some(PushRefusal::NotConnected));
    assert_eq!(push_refusal(DeviceStatus::Unauthorized), Some(PushRefusal::Unauthorized));
    assert_eq!(push_refusal(DeviceStatus::Offline), Some(PushRefusal::Offline));
    assert_eq!(push_refusal(DeviceStatus::Bootloader), Some(PushRefusal::Bootloader));
}

#[test]
fn push_answers() {
    assert!(destination_missing(&b("/system/bin/sh: cd: /sdcard/x: No such file or directory\r\n"), &b("/sdcard/x")));
    assert!(!destination_missing(&b(""), &b("/sdcard/x")));
    assert!(destination_missing(&b(""), &b("")));
    assert_eq!(last_output_line(&b("a: 1 file pushed\r\n/x: 3 files pushed. 2.1 MB/s\r\n")), b("/x: 3 files pushed. 2.1 MB/s"));
    assert_eq!(last_output_line(&b("  only line \n")), b("only line"));
}

#[test]
fn reconnect_decisions() {
    assert_eq!(reconnect_step(DeviceStatus::Online, 0), ReconnectStep::Online);
    assert_eq!(reconnect_step(DeviceStatus::Offline, 0), ReconnectStep::Wait);
    assert_eq!(reconnect_step(DeviceStatus::Offline, 3), ReconnectStep::GiveUp(DeviceStatus::Offline));
    assert_eq!(reconnect_step(DeviceStatus::Bootloader, 1), ReconnectStep::GiveUp(DeviceStatus::Bootloader));
}

#[test]
fn device_selection() {
    let mut m = manager();
    let ds = m.get_devices(&b(LISTING)).unwrap();
    assert_eq!(select_device(&ds, &Some(b("emulator-5554")), false), Ok(Selection::Chosen(1)));
    assert_eq!(select_device(&ds, &Some(b("nope")), false), Err(SelectError::NotFound));
    assert_eq!(select_device(&ds, &None, false), Ok(Selection::AskUser));
    assert_eq!(select_device(&ds, &None, true), Err(SelectError::NeedsChoice));
    assert_eq!(select_device(&vec![], &None, false), Err(SelectError::NoDevices));
    let twins = vec![AndroidDevice::new(b("a"), b("m1"), 1), AndroidDevice::new(b("a"), b("m2"), 2)];
    assert_eq!(select_device(&twins, &Some(b("a")), false), Err(SelectError::Duplicate(0, 1)));
    assert_eq!(select_device(&twins[0..1].to_vec(), &None, true), Ok(Selection::Chosen(0)));
    assert_eq!(choice_index(2, 2), Some(1));
    assert_eq!(choice_index(0, 2), None);
    assert_eq!(choice_index(3, 2), None);
}
