use gnil_app::devices::{
    apply_device_scan, device_open_plan, device_scan_error, disconnect_error, mount_error, trash_read_error, DeviceOpen,
};
use gnil_app::model::{DeviceEntry, DeviceKind};

fn device(id: &str, removable: bool, mount: Option<&str>) -> DeviceEntry {
    DeviceEntry {
        id: id.into(),
        kind: DeviceKind::Usb,
        size: 1 << 30,
        available: None,
        mount_path: mount.map(|m| m.to_string()),
        removable,
    }
}

#[test]
fn removable_devices_are_mounted_once_while_attached() {
    let devices = vec![device("usb1", true, None), device("disk", false, None), device("usb2", true, Some("/media/u2"))];
    let first = apply_device_scan(&devices, None, true, &Vec::new());
    assert_eq!(first.auto_mount, vec!["usb1"]);
    assert_eq!(first.attempted, vec!["usb1"]);
    assert!(!first.location_lost);
    assert_eq!(first.lost_status, None);

    let second = apply_device_scan(&devices, None, true, &first.attempted);
    assert!(second.auto_mount.is_empty());
    assert_eq!(second.attempted, vec!["usb1"]);

    let unplugged = apply_device_scan(&devices[1..].to_vec(), None, true, &second.attempted);
    assert!(unplugged.attempted.is_empty());
    let replugged = apply_device_scan(&devices, None, true, &unplugged.attempted);
    assert_eq!(replugged.auto_mount, vec!["usb1"]);
}

#[test]
fn auto_mount_can_be_turned_off() {
    let devices = vec![device("usb1", true, None)];
    let update = apply_device_scan(&devices, None, false, &vec!["gone".to_string()]);
    assert!(update.auto_mount.is_empty());
    assert!(update.attempted.is_empty());
}

#[test]
fn a_shown_device_that_is_gone_or_unmounted_is_lost() {
    let devices = vec![device("usb1", true, Some("/media/u1")), device("usb2", true, None)];
    assert!(!apply_device_scan(&devices, Some("usb1"), false, &Vec::new()).location_lost);
    let unmounted = apply_device_scan(&devices, Some("usb2"), false, &Vec::new());
    assert!(unmounted.location_lost);
    assert_eq!(unmounted.lost_status.as_deref(), Some("Location no longer available"));
    assert!(apply_device_scan(&devices, Some("usb9"), false, &Vec::new()).location_lost);
}

#[test]
fn scan_and_trash_errors_name_the_cause() {
    assert_eq!(device_scan_error("no bus"), "Device service unavailable · retrying (no bus)");
    assert_eq!(trash_read_error("denied"), "Could not read Trash: denied");
}

#[test]
fn opening_a_device_shows_it_when_mounted_and_mounts_it_otherwise() {
    let devices = vec![device("usb1", true, Some("/media/u1")), device("usb2", true, None)];
    match device_open_plan(&devices, "usb1") {
        DeviceOpen::Navigate { mount_path } => assert_eq!(mount_path, "/media/u1"),
        DeviceOpen::Mount => panic!("usb1 is mounted"),
    }
    assert!(matches!(device_open_plan(&devices, "usb2"), DeviceOpen::Mount));
    assert!(matches!(device_open_plan(&devices, "usb9"), DeviceOpen::Mount));
    assert_eq!(mount_error("busy"), "Could not mount device: busy");
    assert_eq!(disconnect_error("busy"), "Could not disconnect device: busy");
}
