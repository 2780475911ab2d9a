use skywatcher_rs::codec::Variant;
use skywatcher_rs::eqmod::{MountDevice, DEC_SET_AXIS_POSITION};
use skywatcher_rs::error::DeviceError;
use skywatcher_rs::props::{Permission, Property};
use skywatcher_rs::transport::{exchange, Link, LinkFault, MockableSerial, SerialLink};

fn device(response: &[u8]) -> MountDevice<MockableSerial> {
    MountDevice {
        id: String::from("id"),
        name: String::from("eq"),
        properties: vec![Property {
            name: String::from("MODEL"),
            value: String::from("EQ6"),
            kind: String::from("string"),
            permission: Permission::ReadOnly,
        }],
        address: String::from("/dev/ttyUSB0"),
        baud: 9600,
        port: Link::new(MockableSerial::with_response(response.to_vec(), true)),
    }
}

#[test]
fn refused_init_gives_no_device() {
    let port = MockableSerial::with_response(b"!0\r".to_vec(), true);
    assert!(MountDevice::new("eq", "/dev/ttyUSB0", 9600, port).is_err());
}

#[test]
fn silent_mount_gives_no_device() {
    let port = MockableSerial::with_response(Vec::new(), true);
    assert!(MountDevice::new("eq", "/dev/ttyUSB0", 9600, port).is_err());
}

#[test]
fn motor_board_version_is_byte_swapped() {
    let mut d = device(b"=020304\r");
    assert_eq!(d.get_motor_board_version(), 0x04030200);
    assert_eq!(d.get_motor_board_version(), 0);
}

#[test]
fn axis_answers() {
    let mut d = device(b"=800000\r=7FFFFF\r");
    assert_eq!(d.get_axis_position(), (String::from("800000"), String::from("7FFFFF")));
    assert_eq!(d.get_axis_status(), (String::from("UNKNOWN"), String::from("UNKNOWN")));
}

#[test]
fn eqmod_properties_cannot_be_written() {
    let mut d = device(b"");
    assert_eq!(d.update_property("MODEL", "x"), Err(DeviceError::CannotUpdateReadOnlyProperty));
    assert_eq!(d.update_property("OTHER", "x"), Err(DeviceError::UnknownProperty));
    assert_eq!(d.port.dev.writes, 0);
    assert_eq!(d.find_property_index("MODEL"), Some(0));
    assert_eq!(d.get_properties().len(), 1);
}

#[test]
fn set_axis_position_is_sent() {
    let mut d = device(b"=\r");
    assert_eq!(d.set_ra_axis_position("000080"), Ok(String::new()));
    assert_eq!(d.port.dev.writes, 1);
}

/// A motor board that takes every command: it answers `=` and a carriage return.
struct Accepting {
    written: Vec<Vec<u8>>,
    next: usize,
}

impl SerialLink for Accepting {
    fn write_bytes(&mut self, bytes: &Vec<u8>) -> Result<(), LinkFault> {
        self.written.push(bytes.clone());
        self.next = 0;
        Ok(())
    }

    fn read_byte(&mut self) -> Result<u8, LinkFault> {
        let answer = [0x3d, 0x0d];
        if self.next < 2 {
            self.next += 1;
            Ok(answer[self.next - 1])
        } else {
            Err(LinkFault::TimedOut)
        }
    }
}

#[test]
fn new_inits_dec_then_ra() {
    let port = Accepting { written: Vec::new(), next: 0 };
    let d = MountDevice::new("eq", "/dev/ttyUSB0", 9600, port).ok().unwrap();
    assert_eq!(d.port.dev.written[0], b":F2\r".to_vec());
    assert_eq!(d.port.dev.written[1], b":F1\r".to_vec());
    assert_eq!(d.port.dev.written.len(), 9);
}

#[test]
fn dec_axis_position_goes_to_dec() {
    let mut d = device(b"=\r");
    assert_eq!(d.set_dec_axis_position("01"), Ok(String::new()));
    let mut link = Link::new(Accepting { written: Vec::new(), next: 0 });
    let sent = exchange(&mut link, Variant::EqMod, DEC_SET_AXIS_POSITION, Some(b"01".to_vec()));
    assert_eq!(sent, Ok(String::new()));
    assert_eq!(link.dev.written[0], b":E201\r".to_vec());
}
