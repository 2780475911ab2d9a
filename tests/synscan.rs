use skywatcher_rs::error::DeviceError;
use skywatcher_rs::props::Permission;
use skywatcher_rs::synscan::{
    alignment_text, goto_payload_bytes, model_name, model_text, precise_goto_payload_bytes,
    tracking_text, version_text, MountDevice,
};
use skywatcher_rs::transport::{get_serial_port, MockableSerial};

fn connected() -> MountDevice<MockableSerial> {
    let port = get_serial_port("/abc", 9120, 1000).st;
    MountDevice::new("lol", "/abc", 9120, port).ok().unwrap()
}

#[test]
fn test_new() {
    let port = get_serial_port("/abc", 9120, 1000).st;
    let m = MountDevice::new("lol", "/abc", 9120, port);
    assert!(m.is_ok());
}

#[test]
fn new_registers_properties() {
    let m = connected();
    assert_eq!(m.get_name(), "lol");
    assert_eq!(m.get_address(), "/abc");
    assert_eq!(m.get_id().len(), 36);
    assert_eq!(m.track_mode, "UNKNOWN");
    assert_eq!(m.aligned, "false");
    let props = m.get_ls_props();
    assert_eq!(props.len(), 3);
    assert_eq!(props[0].name, "TRACKING_MODE");
    assert_eq!(props[0].value, "UNKNOWN");
    assert_eq!(props[0].kind, "integer");
    assert_eq!(props[0].permission, Permission::ReadWrite);
    assert_eq!(props[1].name, "ALIGNED");
    assert_eq!(props[1].value, "false");
    assert_eq!(props[1].permission, Permission::ReadOnly);
    assert_eq!(props[2].name, "SYNSCAN_VERSION");
    assert_eq!(props[2].value, "255.255.255");
    assert_eq!(props[2].kind, "string");
}

#[test]
fn new_fails_when_mount_is_silent() {
    let port = MockableSerial::with_response(Vec::new(), true);
    assert!(MountDevice::new("lol", "/abc", 9600, port).is_err());
}

#[test]
fn read_only_update_is_refused_without_exchange() {
    let mut m = connected();
    let writes = m.port.dev.writes;
    assert_eq!(m.update_property("ALIGNED", "true"), Err(DeviceError::CannotUpdateReadOnlyProperty));
    assert_eq!(m.port.dev.writes, writes);
    assert_eq!(m.aligned, "false");
}

#[test]
fn read_only_static_update_is_refused_without_exchange() {
    let mut m = connected();
    let writes = m.port.dev.writes;
    assert_eq!(
        m.update_property("SYNSCAN_VERSION", "9.9.9"),
        Err(DeviceError::CannotUpdateReadOnlyProperty)
    );
    assert_eq!(m.port.dev.writes, writes);
    assert_eq!(m.get_ls_props()[2].value, "255.255.255");
}

#[test]
fn new_returns_link_with_echo_error() {
    let port = MockableSerial::with_response(b"ab".to_vec(), true);
    match MountDevice::new("lol", "/abc", 9600, port) {
        Err((link, e)) => {
            assert_eq!(e, DeviceError::Timeout);
            assert_eq!(link.dev.writes, 1);
        }
        Ok(_) => panic!("a silent mount was accepted"),
    }
    let failing = MockableSerial::with_response(b"f#".to_vec(), false);
    match MountDevice::new("lol", "/abc", 9600, failing) {
        Err((_, e)) => assert_eq!(e, DeviceError::ComError),
        Ok(_) => panic!("a failing link was accepted"),
    }
}

#[test]
fn unknown_update_is_refused_without_exchange() {
    let mut m = connected();
    let writes = m.port.dev.writes;
    assert_eq!(m.update_property("FOCUS", "3"), Err(DeviceError::UnknownProperty));
    assert_eq!(m.port.dev.writes, writes);
}

#[test]
fn tracking_mode_update_is_sent_then_cached() {
    let mut m = connected();
    let writes = m.port.dev.writes;
    assert_eq!(m.update_property("TRACKING_MODE", "Equatorial"), Ok(()));
    assert_eq!(m.port.dev.writes, writes + 1);
    assert_eq!(m.track_mode, "Equatorial");
    assert_eq!(m.get_ls_props()[0].value, "Equatorial");
}

#[test]
fn same_tracking_mode_is_not_sent_again() {
    let mut m = connected();
    assert_eq!(m.set_tracking_mode("PEC"), Ok(()));
    let writes = m.port.dev.writes;
    assert_eq!(m.set_tracking_mode("PEC"), Ok(()));
    assert_eq!(m.port.dev.writes, writes);
}

#[test]
fn unknown_tracking_mode_is_refused() {
    let mut m = connected();
    let writes = m.port.dev.writes;
    assert_eq!(m.set_tracking_mode("Sideways"), Err(DeviceError::InvalidValue));
    assert_eq!(m.port.dev.writes, writes);
    assert_eq!(m.track_mode, "UNKNOWN");
}

#[test]
fn failed_tracking_update_keeps_cache() {
    let mut m = connected();
    m.port.dev.next_success = false;
    assert_eq!(m.set_tracking_mode("AltAz"), Err(DeviceError::ComError));
    assert_eq!(m.track_mode, "UNKNOWN");
    m.get_tracking_mode();
    assert_eq!(m.track_mode, "-1");
}

#[test]
fn tracking_mode_is_read_from_answer() {
    let mut m = connected();
    m.port.dev.next_response = vec![0x02, 0x23];
    m.port.dev.last_read = 0;
    m.fetch_props();
    assert_eq!(m.track_mode, "Equatorial");
}

#[test]
fn alignment_is_read_from_answer() {
    let mut m = connected();
    m.port.dev.next_response = vec![0x01, 0x23];
    m.port.dev.last_read = 0;
    m.is_aligned();
    assert_eq!(m.aligned, "true");
    assert_eq!(m.get_ls_props()[1].value, "true");
}

#[test]
fn version_and_model_from_mount() {
    let mut m = connected();
    m.port.dev.next_response = b"040A1F#".to_vec();
    m.port.dev.last_read = 0;
    assert_eq!(m.get_version(), Ok(String::from("4.10.31")));
    m.port.dev.next_response = b"5#".to_vec();
    m.port.dev.last_read = 0;
    assert_eq!(m.get_model(), Ok(String::from("AZ-EQ6")));
    assert_eq!(m.get_model(), Ok(String::from("AZ-EQ6")));
    m.port.dev.next_response = b"Z#".to_vec();
    m.port.dev.last_read = 0;
    assert_eq!(m.get_model(), Err(DeviceError::InvalidValue));
}

#[test]
fn answer_texts() {
    assert_eq!(tracking_text("\u{2}"), "Equatorial");
    assert_eq!(tracking_text("\0"), "Off");
    assert_eq!(tracking_text("ff"), "UNKNOWN");
    assert_eq!(alignment_text("\u{1}"), "true");
    assert_eq!(alignment_text("1"), "false");
    assert_eq!(alignment_text(""), "false");
    assert_eq!(version_text("040A1F"), Some(String::from("4.10.31")));
    assert_eq!(version_text("000000"), Some(String::from("0.0.0")));
    assert_eq!(version_text("04A1"), None);
    assert_eq!(version_text("04G100"), None);
    assert_eq!(model_text("0"), Some(String::from("EQ6")));
    assert_eq!(model_text("f"), Some(String::from("AllView")));
    assert_eq!(model_text(""), None);
    assert_eq!(model_name(130), "AZ");
    assert_eq!(model_name(150), "DOB");
    assert_eq!(model_name(4), "EQ8");
}

#[test]
fn goto_payloads() {
    assert_eq!(goto_payload_bytes(4814, -1), b"12CE,FFFF".to_vec());
    assert_eq!(goto_payload_bytes(1, 0), b"0001,0000".to_vec());
    assert_eq!(precise_goto_payload_bytes(1_223_429, 1), b"12AB0500,00000100".to_vec());
    assert_eq!(precise_goto_payload_bytes(-1, 0), b"FFFFFF00,00000000".to_vec());
}

#[test]
fn goto_is_sent() {
    let mut m = connected();
    let writes = m.port.dev.writes;
    assert!(m.goto_ra_dec(4814, 100).is_ok());
    assert!(m.goto_precise_ra_dec(1_223_429, 0).is_ok());
    assert_eq!(m.port.dev.writes, writes + 2);
}

#[test]
fn undecodable_answers_keep_the_cache() {
    let mut m = connected();
    m.port.dev.next_response = vec![0xff, 0x23];
    m.port.dev.last_read = 0;
    m.get_tracking_mode();
    assert_eq!(m.track_mode, "UNKNOWN");
    m.aligned = String::from("true");
    m.is_aligned();
    assert_eq!(m.aligned, "true");
}

#[test]
fn refresh_reads_mode_and_alignment() {
    let mut m = connected();
    m.port.dev.next_response = vec![0x01, 0x23];
    m.port.dev.last_read = 0;
    let writes = m.port.dev.writes;
    m.fetch_props();
    assert_eq!(m.track_mode, "AltAz");
    assert_eq!(m.aligned, "true");
    assert_eq!(m.port.dev.writes, writes + 3);
}
