//! Wire format of the two mount protocols: command encoding and response framing.
use vstd::prelude::*;
use vstd::utf8::{decode_utf8, valid_utf8};
use crate::error::DeviceError;

verus! {

/// The two protocol families.
#[derive(Clone, Copy, Debug, PartialEq, Eq, Structural)]
pub enum Variant {
    /// Motor-board protocol: commands end with a carriage return, answers start with `=` or `!`.
    EqMod,
    /// Hand-controller protocol: answers end with `#`.
    SynScan,
}

pub const CARRIAGE_RETURN: u8 = 0x0d;

pub const HASH: u8 = 0x23;

pub const SUCCESS_MARK: u8 = 0x3d;

pub open spec fn terminator_of(v: Variant) -> u8 {
    match v {
        Variant::EqMod => CARRIAGE_RETURN,
        Variant::SynScan => HASH,
    }
}

impl Variant {
    /// The byte that ends every answer of this protocol.
    pub fn terminator(&self) -> (r: u8)
        ensures
            r == terminator_of(*self),
    {
        match self {
            Variant::EqMod => CARRIAGE_RETURN,
            Variant::SynScan => HASH,
        }
    }
}

/// Value of an ASCII hexadecimal digit, in either case.
pub open spec fn hex_byte_value(c: u8) -> Option<nat> {
    if 48 <= c <= 57 {
        Some((c - 48) as nat)
    } else if 65 <= c <= 70 {
        Some((c - 55) as nat)
    } else if 97 <= c <= 102 {
        Some((c - 87) as nat)
    } else {
        None
    }
}

pub open spec fn lower_digit(n: nat) -> u8 {
    if n < 10 {
        (48 + n) as u8
    } else {
        (87 + n) as u8
    }
}

pub open spec fn upper_digit(n: nat) -> u8 {
    if n < 10 {
        (48 + n) as u8
    } else {
        (55 + n) as u8
    }
}

/// Two lowercase hexadecimal digits for each byte, high half first.
pub open spec fn hex_text(b: Seq<u8>) -> Seq<u8>
    decreases b.len(),
{
    if b.len() == 0 {
        seq![]
    } else {
        hex_text(b.drop_last()) + seq![lower_digit(b.last() as nat / 16), lower_digit(b.last() as nat % 16)]
    }
}

/// An even number of hexadecimal digits.
pub open spec fn is_hex_text(t: Seq<u8>) -> bool {
    &&& t.len() % 2 == 0
    &&& forall|i: int| 0 <= i < t.len() ==> (#[trigger] hex_byte_value(t[i])) is Some
}

/// The bytes that a text of hexadecimal digit pairs stands for.
pub open spec fn hex_bytes(t: Seq<u8>) -> Seq<u8>
    decreases t.len(),
{
    if t.len() < 2 {
        seq![]
    } else {
        hex_bytes(t.subrange(0, t.len() - 2)).push(
            (16 * hex_byte_value(t[t.len() - 2])->0 + hex_byte_value(t[t.len() - 1])->0) as u8,
        )
    }
}

/// The uppercase hexadecimal digits of `n`, without leading zeros.
pub open spec fn opcode_text(n: nat) -> Seq<u8>
    decreases n,
{
    if n < 16 {
        seq![upper_digit(n)]
    } else {
        opcode_text(n / 16).push(upper_digit(n % 16))
    }
}

/// The bytes of an optional payload.
pub open spec fn payload_bytes(payload: Option<Vec<u8>>) -> Seq<u8> {
    match payload {
        Some(b) => b@,
        None => seq![],
    }
}

/// What is written for a command: the bytes that the opcode's hexadecimal digits stand for,
/// the payload as it is, and a carriage return for the motor-board protocol. An opcode with
/// an odd number of digits has no encoding.
pub open spec fn command_bytes(v: Variant, opcode: u32, payload: Seq<u8>) -> Option<Seq<u8>> {
    let t = opcode_text(opcode as nat);
    if t.len() % 2 == 0 {
        Some(
            hex_bytes(t) + payload + match v {
                Variant::EqMod => seq![CARRIAGE_RETURN],
                Variant::SynScan => seq![],
            },
        )
    } else {
        None
    }
}

proof fn lemma_hex_bytes_concat(a: Seq<u8>, b: Seq<u8>)
    requires
        a.len() % 2 == 0,
        b.len() % 2 == 0,
    ensures
        hex_bytes(a + b) == hex_bytes(a) + hex_bytes(b),
    decreases b.len(),
{
    if b.len() == 0 {
        assert(a + b =~= a);
        assert(hex_bytes(b) =~= seq![]);
        assert(hex_bytes(a) + hex_bytes(b) =~= hex_bytes(a));
    } else {
        let b2 = b.subrange(0, b.len() - 2);
        lemma_hex_bytes_concat(a, b2);
        assert((a + b).subrange(0, (a + b).len() - 2) =~= a + b2);
        assert((a + b)[(a + b).len() - 2] == b[b.len() - 2]);
        assert((a + b)[(a + b).len() - 1] == b[b.len() - 1]);
        assert(hex_bytes(a + b) =~= hex_bytes(a) + hex_bytes(b));
    }
}

proof fn lemma_hex_text_decodes(p: Seq<u8>)
    ensures
        hex_text(p).len() == 2 * p.len(),
        is_hex_text(hex_text(p)),
        hex_bytes(hex_text(p)) == p,
    decreases p.len(),
{
    if p.len() > 0 {
        let q = p.drop_last();
        lemma_hex_text_decodes(q);
        let t = hex_text(p);
        let x = p.last();
        assert(t.subrange(0, t.len() - 2) =~= hex_text(q));
        assert(hex_byte_value(lower_digit(x as nat / 16)) == Some(x as nat / 16));
        assert(hex_byte_value(lower_digit(x as nat % 16)) == Some(x as nat % 16));
        assert forall|i: int| 0 <= i < t.len() implies (#[trigger] hex_byte_value(t[i])) is Some by {
            if i < t.len() - 2 {
                assert(t[i] == hex_text(q)[i]);
            }
        }
        assert(hex_bytes(t) =~= p);
    } else {
        assert(hex_text(p) =~= seq![]);
        assert(hex_bytes(hex_text(p)) =~= p);
    }
}

proof fn lemma_opcode_text_is_hex(n: nat)
    ensures
        forall|i: int|
            0 <= i < opcode_text(n).len() ==> (#[trigger] hex_byte_value(opcode_text(n)[i])) is Some,
    decreases n,
{
    if n >= 16 {
        lemma_opcode_text_is_hex(n / 16);
        let t = opcode_text(n);
        assert forall|i: int| 0 <= i < t.len() implies (#[trigger] hex_byte_value(t[i])) is Some by {
            if i < t.len() - 1 {
                assert(t[i] == opcode_text(n / 16)[i]);
            }
        }
    }
}

/// Relies on hex::encode: two lowercase hexadecimal digits per byte, high half first.
#[verifier::external_body]
fn hex_encode(data: &[u8]) -> (r: Vec<u8>)
    ensures
        r@ == hex_text(data@),
{
    hex::encode(data).into_bytes()
}

/// Relies on hex's `FromHex for Vec<u8>`: an even number of digits in either case is read
/// two by two into bytes; any other text is refused.
#[verifier::external_body]
fn hex_decode(text: &Vec<u8>) -> (r: Option<Vec<u8>>)
    ensures
        r is Some <==> is_hex_text(text@),
        r matches Some(b) ==> b@ == hex_bytes(text@),
{
    <Vec<u8> as hex::FromHex>::from_hex(text.as_slice()).ok()
}

/// Relies on String::from_utf8: valid UTF-8 is taken as it is, anything else is refused.
#[verifier::external_body]
fn utf8_text(bytes: Vec<u8>) -> (r: Option<String>)
    ensures
        r is Some <==> valid_utf8(bytes@),
        r matches Some(s) ==> s@ == decode_utf8(bytes@),
{
    String::from_utf8(bytes).ok()
}

/// The uppercase hexadecimal digits of `opcode`, as `{:X}` writes them.
pub fn upper_hex(opcode: u32) -> (r: Vec<u8>)
    ensures
        r@ == opcode_text(opcode as nat),
{
    let mut m: u32 = opcode;
    let mut acc: Vec<u8> = Vec::new();
    while m >= 16
        invariant
            opcode_text(opcode as nat) == opcode_text(m as nat) + acc@,
        decreases m,
    {
        let d: u32 = m % 16;
        let c: u8 = if d < 10 { (48 + d) as u8 } else { (55 + d) as u8 };
        let ghost before = acc@;
        acc.insert(0, c);
        proof {
            assert(opcode_text(m as nat) == opcode_text((m / 16) as nat).push(c));
            assert(acc@ =~= seq![c] + before);
            assert(opcode_text((m / 16) as nat) + acc@ =~= opcode_text(m as nat) + before);
        }
        m = m / 16;
    }
    let c: u8 = if m < 10 { (48 + m) as u8 } else { (55 + m) as u8 };
    let ghost before = acc@;
    acc.insert(0, c);
    assert(acc@ =~= opcode_text(m as nat) + before);
    acc
}

/// The bytes to write for `opcode` with an optional payload, or `None` where the
/// opcode's hexadecimal digits cannot be read in pairs.
pub fn encode_command(variant: Variant, opcode: u32, payload: Option<Vec<u8>>) -> (r: Option<
    Vec<u8>,
>)
    ensures
        match command_bytes(variant, opcode, payload_bytes(payload)) {
            Some(b) => r matches Some(w) && w@ == b,
            None => r is None,
        },
{
    let mut text = upper_hex(opcode);
    let ghost op = text@;
    proof {
        lemma_opcode_text_is_hex(opcode as nat);
    }
    match &payload {
        Some(p) => {
            let mut h = hex_encode(p.as_slice());
            proof {
                lemma_hex_text_decodes(p@);
            }
            let ghost ht = h@;
            text.append(&mut h);
            proof {
                assert(text@ == op + ht);
                if op.len() % 2 == 0 {
                    lemma_hex_bytes_concat(op, ht);
                }
                assert forall|i: int| 0 <= i < text@.len() implies (#[trigger] hex_byte_value(
                    text@[i],
                )) is Some by {
                    if i < op.len() {
                        assert(text@[i] == op[i]);
                    } else {
                        assert(text@[i] == ht[i - op.len()]);
                    }
                }
            }
        },
        None => {
            assert(hex_bytes(op) + seq![] =~= hex_bytes(op));
        },
    }
    match hex_decode(&text) {
        Some(mut bytes) => {
            match variant {
                Variant::EqMod => {
                    bytes.push(CARRIAGE_RETURN);
                },
                Variant::SynScan => {
                    assert(bytes@ + seq![] =~= bytes@);
                },
            }
            Some(bytes)
        },
        None => None,
    }
}

/// The part of a frame that carries the answer: for the motor-board protocol a frame must
/// start with the success mark and end with a carriage return, for the hand controller it
/// must end with `#`.
pub open spec fn response_body(v: Variant, f: Seq<u8>) -> Option<Seq<u8>> {
    match v {
        Variant::EqMod => if f.len() >= 2 && f[0] == SUCCESS_MARK && f.last() == CARRIAGE_RETURN {
            Some(f.subrange(1, f.len() - 1))
        } else {
            None
        },
        Variant::SynScan => if f.len() >= 1 && f.last() == HASH {
            Some(f.drop_last())
        } else {
            None
        },
    }
}

/// The answer that a frame carries, as text.
pub open spec fn decoded_response(v: Variant, f: Seq<u8>) -> Result<Seq<char>, DeviceError> {
    match response_body(v, f) {
        Some(b) => if valid_utf8(b) {
            Ok(decode_utf8(b))
        } else {
            Err(DeviceError::InvalidValue)
        },
        None => Err(DeviceError::InvalidValue),
    }
}

/// Strips the frame of its terminator and, for the motor-board protocol, of its success mark;
/// a failure mark or bytes that are not text give `InvalidValue`.
pub fn decode_response(variant: Variant, frame: Vec<u8>) -> (r: Result<String, DeviceError>)
    ensures
        match decoded_response(variant, frame@) {
            Ok(s) => r matches Ok(t) && t@ == s,
            Err(e) => r == Err::<String, DeviceError>(e),
        },
{
    let mut body = frame;
    let n = body.len();
    match variant {
        Variant::EqMod => {
            if n < 2 || body[0] != SUCCESS_MARK || body[n - 1] != CARRIAGE_RETURN {
                return Err(DeviceError::InvalidValue);
            }
            body.pop();
            body.remove(0);
            assert(body@ =~= frame@.subrange(1, frame@.len() - 1));
        },
        Variant::SynScan => {
            if n < 1 || body[n - 1] != HASH {
                return Err(DeviceError::InvalidValue);
            }
            body.pop();
            assert(body@ =~= frame@.drop_last());
        },
    }
    match utf8_text(body) {
        Some(t) => Ok(t),
        None => Err(DeviceError::InvalidValue),
    }
}

} // verus!
