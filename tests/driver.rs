use skywatcher_rs::driver::{
    device_name, is_mount_adapter, request_is_complete, set_property, set_property_on,
};
use skywatcher_rs::error::DeviceError;
use skywatcher_rs::synscan::MountDevice;
use skywatcher_rs::transport::MockableSerial;

fn devices() -> Vec<MountDevice<MockableSerial>> {
    let a = MountDevice::new("a", "/a", 9600, MockableSerial::new("/a", 9600)).ok().unwrap();
    let b = MountDevice::new("b", "/b", 9600, MockableSerial::new("/b", 9600)).ok().unwrap();
    vec![a, b]
}

#[test]
fn empty_fields_are_invalid() {
    let mut ds = devices();
    let id = ds[0].id.clone();
    assert_eq!(set_property(&mut ds, "", "TRACKING_MODE", "Off"), Err(DeviceError::InvalidValue));
    assert_eq!(set_property(&mut ds, &id, "", "Off"), Err(DeviceError::InvalidValue));
    assert_eq!(set_property(&mut ds, &id, "TRACKING_MODE", ""), Err(DeviceError::InvalidValue));
}

#[test]
fn unknown_device_is_reported() {
    let mut ds = devices();
    assert_eq!(set_property(&mut ds, "nope", "TRACKING_MODE", "Off"), Err(DeviceError::UnknownDevice));
}

#[test]
fn update_reaches_the_right_device() {
    let mut ds = devices();
    let id = ds[1].id.clone();
    assert_eq!(set_property(&mut ds, &id, "TRACKING_MODE", "AltAz"), Ok(()));
    assert_eq!(ds[1].track_mode, "AltAz");
    assert_eq!(ds[0].track_mode, "UNKNOWN");
    assert_eq!(set_property(&mut ds, &id, "ALIGNED", "true"), Err(DeviceError::CannotUpdateReadOnlyProperty));
}

#[test]
fn adapter_and_names() {
    assert!(is_mount_adapter(0x067b, 0x2303));
    assert!(!is_mount_adapter(0x067b, 0x2304));
    assert_eq!(device_name(Some("A1")), "EQ6-r-A1");
    assert_eq!(device_name(None), "EQ6-r");
}

#[test]
fn per_device_update() {
    let mut ds = devices();
    let id = ds[0].id.clone();
    assert_eq!(set_property_on(&mut ds[1], &id, "TRACKING_MODE", "Off"), None);
    assert_eq!(set_property_on(&mut ds[0], &id, "TRACKING_MODE", "Off"), Some(Ok(())));
    assert_eq!(ds[0].track_mode, "Off");
    assert!(request_is_complete("a", "b", "c"));
    assert!(!request_is_complete("a", "", "c"));
}
