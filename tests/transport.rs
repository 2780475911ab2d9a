use skywatcher_rs::codec::Variant;
use skywatcher_rs::error::DeviceError;
use skywatcher_rs::transport::{
    exchange, frame_step, get_serial_port, read_frame, Link, LinkFault, MockableSerial,
    SerialLink,
};

#[test]
fn stand_in_answers_default_response() {
    let mut port = Link::new(get_serial_port("/dev/abc", 9600, 1000).st);
    assert_eq!(exchange(&mut port, Variant::SynScan, 0x4b, Some(vec![0x78])), Ok(String::from("ffffffffffffffff")));
    assert_eq!(port.dev.writes, 1);
    assert_eq!(port.dev.last_read, 0);
}

#[test]
fn missing_terminator_times_out_and_next_exchange_starts_fresh() {
    let mut port = Link::new(MockableSerial::with_response(b"AB".to_vec(), true));
    assert_eq!(exchange(&mut port, Variant::SynScan, 0x56, None), Err(DeviceError::Timeout));
    port.dev.next_response = b"ok#".to_vec();
    port.dev.last_read = 0;
    assert_eq!(exchange(&mut port, Variant::SynScan, 0x56, None), Ok(String::from("ok")));
}

#[test]
fn failing_reads_are_communication_errors() {
    let mut port = Link::new(MockableSerial::with_response(b"ok#".to_vec(), false));
    assert_eq!(exchange(&mut port, Variant::SynScan, 0x56, None), Err(DeviceError::ComError));
}

#[test]
fn motor_board_exchange() {
    let mut port = Link::new(MockableSerial::with_response(b"=0102\r".to_vec(), true));
    assert_eq!(exchange(&mut port, Variant::EqMod, 0x3a6531, None), Ok(String::from("0102")));
    let mut refusing = Link::new(MockableSerial::with_response(b"!2\r".to_vec(), true));
    assert_eq!(exchange(&mut refusing, Variant::EqMod, 0x3a6531, None), Err(DeviceError::InvalidValue));
}

#[test]
fn odd_opcode_is_not_written() {
    let mut port = Link::new(MockableSerial::new("/dev/abc", 9600));
    assert_eq!(exchange(&mut port, Variant::SynScan, 0x5, None), Err(DeviceError::InvalidValue));
    assert_eq!(port.dev.writes, 0);
}

#[test]
fn long_answer_without_terminator_times_out() {
    let mut port = Link::new(MockableSerial::with_response(vec![0x41; 300], true));
    assert_eq!(read_frame(&mut port, 0x23), Err(DeviceError::Timeout));
    assert_eq!(port.dev.last_read, 300);
}

#[test]
fn long_answer_is_read_whole() {
    let mut answer = vec![0x61; 400];
    answer.push(0x23);
    let mut port = Link::new(MockableSerial::with_response(answer, true));
    let text = exchange(&mut port, Variant::SynScan, 0x56, None).unwrap();
    assert_eq!(text.len(), 400);
}

#[test]
fn stand_in_read_and_open() {
    let m = MockableSerial::new("/dev/abc", 9600);
    let mut opened = m.open_native().unwrap();
    assert_eq!(opened.read(), Ok(0x66));
    assert_eq!(opened.last_read, 1);
    assert!(opened.write(&vec![1]).is_ok());
    assert_eq!(opened.writes, 1);
}

#[test]
fn frame_step_outcomes() {
    let mut buf = vec![0x41];
    assert_eq!(frame_step(&mut buf, Ok(0x42), 0x23), None);
    assert_eq!(buf, vec![0x41, 0x42]);
    assert_eq!(frame_step(&mut buf, Ok(0x23), 0x23), Some(Ok(())));
    assert_eq!(buf, vec![0x41, 0x42, 0x23]);
    let mut b2 = vec![0x41];
    assert_eq!(frame_step(&mut b2, Err(LinkFault::TimedOut), 0x23), Some(Err(DeviceError::Timeout)));
    assert_eq!(frame_step(&mut b2, Err(LinkFault::Other), 0x23), Some(Err(DeviceError::ComError)));
    assert_eq!(b2, vec![0x41]);
}

struct Refusing(LinkFault, usize);

impl SerialLink for Refusing {
    fn write_bytes(&mut self, _bytes: &Vec<u8>) -> Result<(), LinkFault> {
        Err(self.0)
    }

    fn read_byte(&mut self) -> Result<u8, LinkFault> {
        self.1 += 1;
        Ok(0x23)
    }
}

#[test]
fn failed_write_is_reported_by_kind() {
    let mut slow = Link::new(Refusing(LinkFault::TimedOut, 0));
    assert_eq!(exchange(&mut slow, Variant::SynScan, 0x56, None), Err(DeviceError::Timeout));
    assert_eq!(slow.dev.1, 0);
    let mut broken = Link::new(Refusing(LinkFault::Other, 0));
    assert_eq!(exchange(&mut broken, Variant::SynScan, 0x56, None), Err(DeviceError::ComError));
    assert_eq!(broken.dev.1, 0);
}
