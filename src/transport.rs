//! The serial link of one mount and the write-then-read exchange over it.
use vstd::prelude::*;
use crate::codec::{
    command_bytes, decode_response, decoded_response, encode_command, payload_bytes,
    terminator_of, Variant, HASH,
};
use crate::error::DeviceError;

verus! {

/// Why one read or write on the link failed.
#[derive(Clone, Copy, Debug, PartialEq, Eq, Structural)]
pub enum LinkFault {
    /// Nothing came before the link's deadline.
    TimedOut,
    /// Any other failure of the link.
    Other,
}

/// A byte link to a mount: the serial port, or a stand-in for it.
pub trait SerialLink {
    /// Writes all of `bytes` in one call.
    fn write_bytes(&mut self, bytes: &Vec<u8>) -> Result<(), LinkFault>;

    /// Reads one byte, waiting at most the link's deadline.
    fn read_byte(&mut self) -> Result<u8, LinkFault>;
}

/// A link that answers every command with the same prepared response.
pub struct MockableSerial {
    /// Whether reads succeed.
    pub next_success: bool,
    /// The bytes of the answer; after a `#` the answer starts again.
    pub next_response: Vec<u8>,
    /// Where the next read takes its byte.
    pub last_read: usize,
    /// How many writes were made.
    pub writes: usize,
}

/// The answer a fresh stand-in link gives: sixteen `f` and a `#`.
pub open spec fn default_response() -> Seq<u8> {
    seq![0x66u8, 0x66, 0x66, 0x66, 0x66, 0x66, 0x66, 0x66, 0x66, 0x66, 0x66, 0x66, 0x66, 0x66, 0x66, 0x66, 0x23]
}

fn default_response_bytes() -> (r: Vec<u8>)
    ensures
        r@ == default_response(),
{
    let r = vec![0x66u8, 0x66, 0x66, 0x66, 0x66, 0x66, 0x66, 0x66, 0x66, 0x66, 0x66, 0x66, 0x66, 0x66, 0x66, 0x66, 0x23];
    assert(r@ =~= default_response());
    r
}

impl MockableSerial {
    /// A stand-in link whose reads succeed and give the default answer.
    pub fn new(address: &str, baud: u32) -> (r: Self)
        ensures
            r.next_success,
            r.next_response@ == default_response(),
            r.last_read == 0,
            r.writes == 0,
    {
        MockableSerial {
            next_success: true,
            next_response: default_response_bytes(),
            last_read: 0,
            writes: 0,
        }
    }

    /// A stand-in link with a prepared answer.
    pub fn with_response(response: Vec<u8>, success: bool) -> (r: Self)
        ensures
            r.next_success == success,
            r.next_response == response,
            r.last_read == 0,
            r.writes == 0,
    {
        MockableSerial { next_success: success, next_response: response, last_read: 0, writes: 0 }
    }

    /// Opens the stand-in: a fresh link with the default answer.
    pub fn open_native(&self) -> (r: Result<Self, LinkFault>)
        ensures
            r matches Ok(m) && m.next_success && m.next_response@ == default_response()
                && m.last_read == 0 && m.writes == 0,
    {
        Ok(
            MockableSerial {
                next_success: true,
                next_response: default_response_bytes(),
                last_read: 0,
                writes: 0,
            },
        )
    }

    /// Accepts any bytes and counts the write.
    pub fn write(&mut self, b: &Vec<u8>) -> (r: Result<(), LinkFault>)
        ensures
            r is Ok,
            final(self).writes == if old(self).writes < usize::MAX {
                old(self).writes + 1
            } else {
                old(self).writes as int
            },
            final(self).next_success == old(self).next_success,
            final(self).next_response == old(self).next_response,
            final(self).last_read == old(self).last_read,
    {
        if self.writes < usize::MAX {
            self.writes = self.writes + 1;
        }
        Ok(())
    }

    /// Gives the next byte of the answer, or a timeout once the answer is used up.
    pub fn read(&mut self) -> (r: Result<u8, LinkFault>)
        ensures
            final(self).next_success == old(self).next_success,
            final(self).next_response == old(self).next_response,
            final(self).writes == old(self).writes,
            old(self).last_read >= old(self).next_response.len() ==> r == Err::<u8, LinkFault>(
                LinkFault::TimedOut,
            ) && final(self).last_read == old(self).last_read,
            old(self).last_read < old(self).next_response.len() ==> {
                let v = old(self).next_response@[old(self).last_read as int];
                &&& final(self).last_read == if v == HASH {
                    0
                } else {
                    old(self).last_read + 1
                }
                &&& r == if old(self).next_success {
                    Ok::<u8, LinkFault>(v)
                } else {
                    Err(LinkFault::Other)
                }
            },
    {
        if self.last_read >= self.next_response.len() {
            return Err(LinkFault::TimedOut);
        }
        let v = self.next_response[self.last_read];
        if v == HASH {
            self.last_read = 0;
        } else {
            self.last_read = self.last_read + 1;
        }
        if self.next_success {
            Ok(v)
        } else {
            Err(LinkFault::Other)
        }
    }
}

impl SerialLink for MockableSerial {
    fn write_bytes(&mut self, bytes: &Vec<u8>) -> Result<(), LinkFault> {
        self.write(bytes)
    }

    fn read_byte(&mut self) -> Result<u8, LinkFault> {
        self.read()
    }
}

/// A port, or the builder of one, as the device code receives it.
pub struct SerialType<T> {
    pub st: T,
}

/// The stand-in port for `address`.
pub fn get_serial_port(address: &str, baud: u32, timeout_ms: u64) -> (r: SerialType<
    MockableSerial,
>)
    ensures
        r.st.next_success,
        r.st.next_response@ == default_response(),
        r.st.last_read == 0,
        r.st.writes == 0,
{
    SerialType { st: MockableSerial::new(address, baud) }
}

/// One use of the link, as the library made it: the bytes written and what the write gave,
/// or what a read gave.
pub enum LinkEvent {
    Wrote(Seq<u8>, Result<(), LinkFault>),
    Read(Result<u8, LinkFault>),
}

/// A link together with the record of every write and read made through it.
pub struct Link<S> {
    pub dev: S,
    pub events: Ghost<Seq<LinkEvent>>,
}

impl<S: SerialLink> Link<S> {
    /// A link with an empty record.
    pub fn new(dev: S) -> (r: Self)
        ensures
            r.dev == dev,
            r.events@ == Seq::<LinkEvent>::empty(),
    {
        Link { dev, events: Ghost(Seq::empty()) }
    }

    /// Writes `bytes` and records the write.
    pub fn write(&mut self, bytes: &Vec<u8>) -> (r: Result<(), LinkFault>)
        ensures
            final(self).events@ == old(self).events@.push(LinkEvent::Wrote(bytes@, r)),
    {
        let r = self.dev.write_bytes(bytes);
        self.events = Ghost(self.events@.push(LinkEvent::Wrote(bytes@, r)));
        r
    }

    /// Reads one byte and records the read.
    pub fn read(&mut self) -> (r: Result<u8, LinkFault>)
        ensures
            final(self).events@ == old(self).events@.push(LinkEvent::Read(r)),
    {
        let r = self.dev.read_byte();
        self.events = Ghost(self.events@.push(LinkEvent::Read(r)));
        r
    }
}

/// The length at which an answer without terminator is given up: no buffer of the machine
/// can reach it, so in practice only the terminator or a timeout ends the scan.
pub const MAX_FRAME_LEN: usize = usize::MAX;

/// Where the scan of an answer stands after some reads.
pub enum ScanState {
    /// Still reading, with these bytes so far.
    Open(Seq<u8>),
    /// The last read ended the scan: the frame, or why it failed.
    Done(Result<Seq<u8>, DeviceError>),
    /// A read came after the scan had ended.
    Overrun,
}

/// The error that a link fault gives.
pub open spec fn fault_error(k: LinkFault) -> DeviceError {
    match k {
        LinkFault::TimedOut => DeviceError::Timeout,
        LinkFault::Other => DeviceError::ComError,
    }
}

/// One read of an answer: a byte is kept, and the terminator ends the frame; a frame that
/// grows to the limit without it fails; a timeout or another fault of the read ends the scan.
pub open spec fn scan_step(buf: Seq<u8>, read: Result<u8, LinkFault>, terminator: u8) -> ScanState {
    match read {
        Ok(b) => if b == terminator {
            ScanState::Done(Ok(buf.push(b)))
        } else if buf.len() + 1 >= MAX_FRAME_LEN {
            ScanState::Done(Err(DeviceError::ComError))
        } else {
            ScanState::Open(buf.push(b))
        },
        Err(k) => ScanState::Done(Err(fault_error(k))),
    }
}

/// The scan of an answer over the results of its reads, from an empty buffer.
pub open spec fn scan(reads: Seq<Result<u8, LinkFault>>, terminator: u8) -> ScanState
    decreases reads.len(),
{
    if reads.len() == 0 {
        ScanState::Open(seq![])
    } else {
        match scan(reads.drop_last(), terminator) {
            ScanState::Open(b) => scan_step(b, reads.last(), terminator),
            _ => ScanState::Overrun,
        }
    }
}

/// The read results of a record made of reads only.
pub open spec fn read_results(t: Seq<LinkEvent>) -> Option<Seq<Result<u8, LinkFault>>> {
    if forall|i: int| 0 <= i < t.len() ==> (#[trigger] t[i]) is Read {
        Some(Seq::new(t.len(), |i: int| t[i]->Read_0))
    } else {
        None
    }
}

/// What the scan of the reads recorded in `t` concludes, if they form exactly one scan.
pub open spec fn frame_result(t: Seq<LinkEvent>, terminator: u8) -> Option<
    Result<Seq<u8>, DeviceError>,
> {
    match read_results(t) {
        Some(rs) => match scan(rs, terminator) {
            ScanState::Done(d) => Some(d),
            _ => None,
        },
        None => None,
    }
}

/// The outcome of one exchange whose record is `t`: nothing is written for an opcode without
/// encoding; otherwise the command's bytes are written once, a failed write ends the exchange,
/// and the reads that follow form one scan whose frame is decoded.
pub open spec fn exchange_result(v: Variant, opcode: u32, payload: Seq<u8>, t: Seq<LinkEvent>) -> Option<
    Result<Seq<char>, DeviceError>,
> {
    match command_bytes(v, opcode, payload) {
        None => if t.len() == 0 {
            Some(Err(DeviceError::InvalidValue))
        } else {
            None
        },
        Some(cmd) => if t.len() == 1 && t[0] is Wrote && t[0]->Wrote_0 == cmd && t[0]->Wrote_1 is Err {
            Some(Err(fault_error(t[0]->Wrote_1->Err_0)))
        } else if t.len() >= 1 && t[0] is Wrote && t[0]->Wrote_0 == cmd && t[0]->Wrote_1 is Ok {
            match frame_result(t.drop_first(), terminator_of(v)) {
                Some(Ok(f)) => Some(decoded_response(v, f)),
                Some(Err(e)) => Some(Err(e)),
                None => None,
            }
        } else {
            None
        },
    }
}

/// Whether the record `a` begins with the record `c`.
pub open spec fn is_prefix(c: Seq<LinkEvent>, a: Seq<LinkEvent>) -> bool {
    c.len() <= a.len() && forall|i: int| 0 <= i < c.len() ==> #[trigger] a[i] == c[i]
}

/// The outcome of exactly one exchange between the records `before` and `after`.
pub open spec fn one_exchange(
    before: Seq<LinkEvent>,
    after: Seq<LinkEvent>,
    v: Variant,
    opcode: u32,
    payload: Seq<u8>,
) -> Option<Result<Seq<char>, DeviceError>> {
    if is_prefix(before, after) {
        exchange_result(v, opcode, payload, after.subrange(before.len() as int, after.len() as int))
    } else {
        None
    }
}

/// Whether an exchange took place and succeeded.
pub open spec fn succeeded(o: Option<Result<Seq<char>, DeviceError>>) -> bool {
    o matches Some(Ok(_))
}

/// The text view of an exchange's result.
pub open spec fn result_view(r: Result<String, DeviceError>) -> Result<Seq<char>, DeviceError> {
    match r {
        Ok(s) => Ok(s@),
        Err(e) => Err(e),
    }
}

/// The error that a link fault gives.
pub fn fault_to_error(k: LinkFault) -> (r: DeviceError)
    ensures
        r == fault_error(k),
{
    match k {
        LinkFault::TimedOut => DeviceError::Timeout,
        LinkFault::Other => DeviceError::ComError,
    }
}

/// Takes one read result into the answer buffer and says whether the scan ends: `Some(Ok(()))`
/// when the frame is complete, `Some(Err(e))` when it failed, `None` to read on.
pub fn frame_step(buf: &mut Vec<u8>, read: Result<u8, LinkFault>, terminator: u8) -> (r: Option<
    Result<(), DeviceError>,
>)
    ensures
        read matches Ok(b) ==> final(buf)@ == old(buf)@.push(b),
        read is Err ==> final(buf)@ == old(buf)@,
        match scan_step(old(buf)@, read, terminator) {
            ScanState::Open(b) => r is None && final(buf)@ == b,
            ScanState::Done(Ok(f)) => r == Some(Ok::<(), DeviceError>(())) && final(buf)@ == f,
            ScanState::Done(Err(e)) => r == Some(Err::<(), DeviceError>(e)),
            ScanState::Overrun => false,
        },
{
    match read {
        Ok(b) => {
            buf.push(b);
            if b == terminator {
                Some(Ok(()))
            } else if buf.len() >= MAX_FRAME_LEN {
                Some(Err(DeviceError::ComError))
            } else {
                None
            }
        },
        Err(k) => Some(Err(fault_to_error(k))),
    }
}

/// Reads byte by byte into a fresh buffer until the scan ends.
pub fn read_frame<S: SerialLink>(link: &mut Link<S>, terminator: u8) -> (r: Result<
    Vec<u8>,
    DeviceError,
>)
    ensures
        is_prefix(old(link).events@, final(link).events@),
        match frame_result(
            final(link).events@.subrange(
                old(link).events@.len() as int,
                final(link).events@.len() as int,
            ),
            terminator,
        ) {
            Some(Ok(f)) => r matches Ok(x) && x@ == f,
            Some(Err(e)) => r == Err::<Vec<u8>, DeviceError>(e),
            None => false,
        },
{
    let ghost start = link.events@;
    let mut buf: Vec<u8> = Vec::new();
    proof {
        let t = link.events@.subrange(start.len() as int, link.events@.len() as int);
        assert(t =~= Seq::<LinkEvent>::empty());
        assert(read_results(t) == Some(Seq::<Result<u8, LinkFault>>::empty()));
    }
    loop
        invariant
            start == old(link).events@,
            is_prefix(start, link.events@),
            buf@.len() < MAX_FRAME_LEN,
            read_results(link.events@.subrange(start.len() as int, link.events@.len() as int))
                matches Some(rs) && scan(rs, terminator) == ScanState::Open(buf@),
        decreases MAX_FRAME_LEN - buf@.len(),
    {
        let ghost t0 = link.events@.subrange(start.len() as int, link.events@.len() as int);
        let ghost rs0 = read_results(t0)->0;
        let ghost e0 = link.events@;
        let x = link.read();
        let ghost t1 = link.events@.subrange(start.len() as int, link.events@.len() as int);
        let ghost rs1 = read_results(t1)->0;
        proof {
            assert(t1 =~= t0.push(LinkEvent::Read(x)));
            assert forall|i: int| 0 <= i < t1.len() implies (#[trigger] t1[i]) is Read by {
                if i < t0.len() {
                    assert(t1[i] == t0[i]);
                }
            }
            assert(rs1 =~= rs0.push(x));
            assert(rs1.drop_last() =~= rs0);
            assert(scan(rs1, terminator) == scan_step(buf@, x, terminator));
            assert forall|i: int| 0 <= i < start.len() implies #[trigger] link.events@[i]
                == start[i] by {
                assert(link.events@[i] == e0[i]);
            }
        }
        match frame_step(&mut buf, x, terminator) {
            Some(Ok(())) => {
                return Ok(buf);
            },
            Some(Err(e)) => {
                return Err(e);
            },
            None => {},
        }
    }
}

/// Some frame of the protocol decodes to `text`.
pub open spec fn answers(v: Variant, text: Seq<char>) -> bool {
    exists|f: Seq<u8>| decoded_response(v, f) == Ok::<Seq<char>, DeviceError>(text)
}

/// Writes one command and reads its answer: the only way a command reaches the mount.
pub fn exchange<S: SerialLink>(
    link: &mut Link<S>,
    variant: Variant,
    opcode: u32,
    payload: Option<Vec<u8>>,
) -> (r: Result<String, DeviceError>)
    ensures
        one_exchange(old(link).events@, final(link).events@, variant, opcode, payload_bytes(payload))
            == Some(result_view(r)),
        r matches Ok(s) ==> answers(variant, s@),
{
    let ghost start = link.events@;
    let ghost pb = payload_bytes(payload);
    let command = match encode_command(variant, opcode, payload) {
        Some(c) => c,
        None => {
            assert(link.events@.subrange(start.len() as int, link.events@.len() as int)
                =~= Seq::<LinkEvent>::empty());
            return Err(DeviceError::InvalidValue);
        },
    };
    let w = link.write(&command);
    match w {
        Ok(()) => {},
        Err(k) => {
            proof {
                assert(link.events@.subrange(start.len() as int, link.events@.len() as int)
                    =~= seq![LinkEvent::Wrote(command@, Err(k))]);
            }
            return Err(fault_to_error(k));
        },
    }
    let ghost mid = link.events@;
    assert(mid == start.push(LinkEvent::Wrote(command@, w)));
    let fr = read_frame(link, variant.terminator());
    proof {
        let t = link.events@.subrange(start.len() as int, link.events@.len() as int);
        let t2 = link.events@.subrange(mid.len() as int, link.events@.len() as int);
        assert(link.events@[start.len() as int] == mid[start.len() as int]);
        assert(t[0] == LinkEvent::Wrote(command@, w));
        assert(t.drop_first() =~= t2);
        assert forall|i: int| 0 <= i < start.len() implies #[trigger] link.events@[i]
            == start[i] by {
            assert(link.events@[i] == mid[i]);
        }
    }
    match fr {
        Ok(frame) => {
            let ghost f = frame@;
            let r = decode_response(variant, frame);
            proof {
                if r is Ok {
                    assert(decoded_response(variant, f) == Ok::<Seq<char>, DeviceError>(r->Ok_0@));
                }
            }
            r
        },
        Err(e) => Err(e),
    }
}

/// The outcome of an exchange depends on its own record alone: whatever the link saw before,
/// partial answers cut by a timeout included, does not reach it.
pub proof fn lemma_exchange_ignores_earlier_record(
    earlier: Seq<LinkEvent>,
    t: Seq<LinkEvent>,
    v: Variant,
    opcode: u32,
    payload: Seq<u8>,
)
    ensures
        one_exchange(earlier, earlier + t, v, opcode, payload) == exchange_result(
            v,
            opcode,
            payload,
            t,
        ),
{
    assert((earlier + t).subrange(earlier.len() as int, (earlier + t).len() as int) =~= t);
}

/// The reads of the bytes `b`, each of which succeeded.
pub open spec fn byte_reads(b: Seq<u8>) -> Seq<Result<u8, LinkFault>> {
    Seq::new(b.len(), |i: int| Ok::<u8, LinkFault>(b[i]))
}

proof fn lemma_scan_open(b: Seq<u8>, terminator: u8)
    requires
        forall|i: int| 0 <= i < b.len() ==> b[i] != terminator,
        b.len() < MAX_FRAME_LEN,
    ensures
        scan(byte_reads(b), terminator) == ScanState::Open(b),
    decreases b.len(),
{
    if b.len() > 0 {
        let c = b.drop_last();
        lemma_scan_open(c, terminator);
        assert(byte_reads(b).drop_last() =~= byte_reads(c));
        assert(c.push(b.last()) =~= b);
    } else {
        assert(byte_reads(b) =~= Seq::<Result<u8, LinkFault>>::empty());
        assert(b =~= seq![]);
    }
}

/// An answer whose bytes never hold the terminator and whose next read times out ends the
/// exchange with `Timeout`, however many bytes came before the deadline.
pub proof fn lemma_missing_terminator_times_out(v: Variant, opcode: u32, payload: Seq<u8>, b: Seq<u8>)
    requires
        command_bytes(v, opcode, payload) is Some,
        forall|i: int| 0 <= i < b.len() ==> b[i] != terminator_of(v),
        b.len() + 1 < MAX_FRAME_LEN,
    ensures
        exchange_result(
            v,
            opcode,
            payload,
            seq![LinkEvent::Wrote(command_bytes(v, opcode, payload)->0, Ok(()))] + Seq::new(
                b.len(),
                |i: int| LinkEvent::Read(Ok(b[i])),
            ).push(LinkEvent::Read(Err(LinkFault::TimedOut))),
        ) == Some(Err::<Seq<char>, DeviceError>(DeviceError::Timeout)),
{
    let cmd = command_bytes(v, opcode, payload)->0;
    let reads = Seq::new(b.len(), |i: int| LinkEvent::Read(Ok(b[i]))).push(
        LinkEvent::Read(Err(LinkFault::TimedOut)),
    );
    let t = seq![LinkEvent::Wrote(cmd, Ok(()))] + reads;
    assert(t.drop_first() =~= reads);
    let rs = byte_reads(b).push(Err(LinkFault::TimedOut));
    assert(read_results(reads) == Some(rs)) by {
        assert(forall|i: int| 0 <= i < reads.len() ==> (#[trigger] reads[i]) is Read);
        assert(Seq::new(reads.len(), |i: int| reads[i]->Read_0) =~= rs);
    }
    lemma_scan_open(b, terminator_of(v));
    assert(rs.drop_last() =~= byte_reads(b));
}

} // verus!
