//! A mount driven through the hand-controller protocol.
use vstd::prelude::*;
use vstd::string::{StrSliceExecFns, StringExecFns};
use crate::codec::{opcode_text, payload_bytes, Variant};
use crate::convert::{parse_hex, parse_hex_below};
use crate::error::DeviceError;
use crate::props::{
    find_property, lemma_find_property_absent, lemma_find_property_bounds, property_index,
    property_is, Permission, Property,
};
use crate::text::fresh_id;
use crate::text::{decimal, decimal_chars, same_text};
use crate::tracking::{mode_code, mode_name, mode_named, mode_of_answer, TrackingMode};
use crate::transport::{answers, exchange, is_prefix, one_exchange, succeeded, result_view, Link, SerialLink};

verus! {

broadcast use vstd::string::group_string_axioms;

pub const ECHO: u32 = 0x4b;

pub const GET_RA_DEC: u32 = 0x45;

pub const GET_PRECISE_RA_DEC: u32 = 0x65;

pub const GET_ALT_AZ: u32 = 0x5a;

pub const GET_PRECISE_ALT_AZ: u32 = 0x7a;

pub const GOTO_RA_DEC: u32 = 0x52;

pub const GOTO_PRECISE_RA_DEC: u32 = 0x72;

pub const GET_TRACKING_MODE: u32 = 0x74;

pub const SET_TRACKING_MODE: u32 = 0x54;

pub const GET_VERSION: u32 = 0x56;

pub const GET_MODEL: u32 = 0x6d;

pub const GET_ALIGNMENT: u32 = 0x4a;

/// The live value of the mount that a dynamic property shows.
#[derive(Clone, Copy, Debug, PartialEq, Eq, Structural)]
pub enum LiveValue {
    TrackingMode,
    Alignment,
}

/// A property backed by a live value of the mount.
pub struct CustomProp {
    pub name: String,
    pub value: LiveValue,
    pub kind: String,
    pub permission: Permission,
}

impl CustomProp {
    /// The property as controllers see it, showing the live value `live`.
    pub fn to_ls_prop(&self, live: &String) -> (r: Property)
        ensures
            property_is(r, self.name@, live@, self.kind@, self.permission),
    {
        Property {
            name: self.name.clone(),
            value: live.clone(),
            kind: self.kind.clone(),
            permission: self.permission,
        }
    }
}

/// A mount reached through its hand controller over the link `S`.
pub struct MountDevice<S> {
    pub id: String,
    pub name: String,
    pub properties: Vec<CustomProp>,
    pub static_properties: Vec<Property>,
    pub address: String,
    pub baud: u32,
    pub port: Link<S>,
    pub track_mode: String,
    pub aligned: String,
}

pub open spec fn tracking_mode_property() -> Seq<char> {
    "TRACKING_MODE"@
}

/// The first index at or after `from` whose property is called `name`.
pub open spec fn find_in(props: Seq<CustomProp>, name: Seq<char>, from: int) -> Option<int>
    decreases props.len() - from,
{
    if from < 0 || from >= props.len() {
        None
    } else if props[from].name@ == name {
        Some(from)
    } else {
        find_in(props, name, from + 1)
    }
}

proof fn lemma_find_in_bounds(props: Seq<CustomProp>, name: Seq<char>, from: int)
    ensures
        find_in(props, name, from) matches Some(i) ==> from <= i < props.len() && props[i].name@
            == name,
    decreases props.len() - from,
{
    if 0 <= from < props.len() && props[from].name@ != name {
        lemma_find_in_bounds(props, name, from + 1);
    }
}

/// The cached tracking mode after the mount answered `t` to a tracking-mode query.
pub open spec fn tracking_text_of(t: Seq<char>) -> Seq<char> {
    match mode_of_answer(t) {
        Some(m) => mode_name(m),
        None => "UNKNOWN"@,
    }
}

/// The cached tracking mode after a tracking-mode query with outcome `a`: an answer's mode,
/// the old value kept when the answer could not be decoded, `-1` when the link failed.
pub open spec fn mode_after(old: Seq<char>, a: Result<Seq<char>, DeviceError>) -> Seq<char> {
    match a {
        Ok(t) => tracking_text_of(t),
        Err(DeviceError::InvalidValue) => old,
        Err(_) => "-1"@,
    }
}

/// The cached alignment flag after an alignment query with outcome `a`: the answer's flag,
/// the old value kept when the answer could not be decoded, `false` when the link failed.
pub open spec fn alignment_after(old: Seq<char>, a: Result<Seq<char>, DeviceError>) -> Seq<char> {
    match a {
        Ok(t) => alignment_text_of(t),
        Err(DeviceError::InvalidValue) => old,
        Err(_) => "false"@,
    }
}

/// The version shown after a version query with outcome `a`; `0.0.0` when none was read.
pub open spec fn version_after(a: Result<Seq<char>, DeviceError>) -> Seq<char> {
    match a {
        Ok(t) => match version_of(t) {
            Some(v) => v,
            None => "0.0.0"@,
        },
        Err(_) => "0.0.0"@,
    }
}

/// The cached alignment flag after the mount answered `t` to an alignment query.
pub open spec fn alignment_text_of(t: Seq<char>) -> Seq<char> {
    if t.len() > 0 && t[0] == '\u{1}' {
        "true"@
    } else {
        "false"@
    }
}

/// The version `a.b.c` that the first six characters of `raw` give as three hexadecimal bytes.
pub open spec fn version_of(raw: Seq<char>) -> Option<Seq<char>> {
    if raw.len() >= 6 {
        match (
            parse_hex(raw.subrange(0, 2), 256),
            parse_hex(raw.subrange(2, 4), 256),
            parse_hex(raw.subrange(4, 6), 256),
        ) {
            (Some(a), Some(b), Some(c)) => Some(
                decimal_chars(a) + seq!['.'] + decimal_chars(b) + seq!['.'] + decimal_chars(c),
            ),
            _ => None,
        }
    } else {
        None
    }
}

/// The model that a model code stands for.
pub open spec fn model_of(code: u8) -> Seq<char> {
    if code == 0 {
        "EQ6"@
    } else if code == 1 {
        "HEQ5"@
    } else if code == 2 {
        "EQ5"@
    } else if code == 3 {
        "EQ3"@
    } else if code == 4 {
        "EQ8"@
    } else if code == 5 {
        "AZ-EQ6"@
    } else if code == 6 {
        "AZ-EQ5"@
    } else if 128 <= code <= 143 {
        "AZ"@
    } else if 144 <= code <= 159 {
        "DOB"@
    } else {
        "AllView"@
    }
}

/// The model that the first character of a model answer gives, read as a hexadecimal digit.
pub open spec fn model_of_answer(raw: Seq<char>) -> Option<Seq<char>> {
    if raw.len() >= 1 {
        match parse_hex(raw.subrange(0, 1), 256) {
            Some(c) => Some(model_of(c as u8)),
            None => None,
        }
    } else {
        None
    }
}

/// `t` with `fill` in front until it is `width` long.
pub open spec fn pad_left(t: Seq<u8>, width: nat, fill: u8) -> Seq<u8>
    decreases width - t.len(),
{
    if t.len() >= width {
        t
    } else {
        pad_left(seq![fill] + t, width, fill)
    }
}

/// The payload of a coarse goto: each count as four uppercase hexadecimal digits.
pub open spec fn goto_payload(ra: i16, dec: i16) -> Seq<u8> {
    pad_left(opcode_text(ra as u16 as nat), 4, 0x30) + seq![0x2cu8] + pad_left(
        opcode_text(dec as u16 as nat),
        4,
        0x30,
    )
}

/// The payload of a precise goto: each count shifted by a byte, as eight uppercase
/// hexadecimal digits.
pub open spec fn precise_goto_payload(ra: i32, dec: i32) -> Seq<u8> {
    pad_left(opcode_text(((ra as u32) << 8u32) as nat), 8, 0x30) + seq![0x2cu8] + pad_left(
        opcode_text(((dec as u32) << 8u32) as nat),
        8,
        0x30,
    )
}

fn padded(t: Vec<u8>, width: usize, fill: u8) -> (r: Vec<u8>)
    ensures
        r@ == pad_left(t@, width as nat, fill),
{
    let mut r = t;
    while r.len() < width
        invariant
            pad_left(r@, width as nat, fill) == pad_left(t@, width as nat, fill),
        decreases width - r.len(),
    {
        let ghost before = r@;
        r.insert(0, fill);
        assert(r@ =~= seq![fill] + before);
    }
    r
}

/// Builds the payload of a coarse goto.
pub fn goto_payload_bytes(ra: i16, dec: i16) -> (r: Vec<u8>)
    ensures
        r@ == goto_payload(ra, dec),
{
    let mut r = padded(crate::codec::upper_hex(ra as u16 as u32), 4, 0x30);
    r.push(0x2c);
    let mut d = padded(crate::codec::upper_hex(dec as u16 as u32), 4, 0x30);
    r.append(&mut d);
    r
}

/// Builds the payload of a precise goto.
pub fn precise_goto_payload_bytes(ra: i32, dec: i32) -> (r: Vec<u8>)
    ensures
        r@ == precise_goto_payload(ra, dec),
{
    let mut r = padded(crate::codec::upper_hex((ra as u32) << 8u32), 8, 0x30);
    r.push(0x2c);
    let mut d = padded(crate::codec::upper_hex((dec as u32) << 8u32), 8, 0x30);
    r.append(&mut d);
    r
}

/// The cached tracking-mode text for an answer to a tracking-mode query.
pub fn tracking_text(answer: &str) -> (r: String)
    ensures
        r@ == tracking_text_of(answer@),
{
    match TrackingMode::from_answer(answer) {
        Some(m) => m.name().to_owned(),
        None => "UNKNOWN".to_owned(),
    }
}

/// The cached alignment flag for an answer to an alignment query.
pub fn alignment_text(answer: &str) -> (r: String)
    ensures
        r@ == alignment_text_of(answer@),
{
    let n = answer.unicode_len();
    if n > 0 && answer.get_char(0) == '\u{1}' {
        "true".to_owned()
    } else {
        "false".to_owned()
    }
}

/// Reads a version answer such as `"040A1F"` as `"4.10.31"`.
pub fn version_text(raw: &str) -> (r: Option<String>)
    ensures
        r matches Some(s) ==> version_of(raw@) == Some(s@),
        r is None ==> version_of(raw@) is None,
{
    let n = raw.unicode_len();
    if n < 6 {
        return None;
    }
    let a = match parse_hex_below(raw.substring_char(0, 2), 256) {
        Some(v) => v,
        None => {
            return None;
        },
    };
    let b = match parse_hex_below(raw.substring_char(2, 4), 256) {
        Some(v) => v,
        None => {
            return None;
        },
    };
    let c = match parse_hex_below(raw.substring_char(4, 6), 256) {
        Some(v) => v,
        None => {
            return None;
        },
    };
    proof {
        reveal_strlit(".");
        assert("."@ =~= seq!['.']);
    }
    let mut s = decimal(a as u8);
    s.append(".");
    let bs = decimal(b as u8);
    s.append(bs.as_str());
    s.append(".");
    let cs = decimal(c as u8);
    s.append(cs.as_str());
    Some(s)
}

/// The model name for a model code.
pub fn model_name(code: u8) -> (r: &'static str)
    ensures
        r@ == model_of(code),
{
    if code == 0 {
        "EQ6"
    } else if code == 1 {
        "HEQ5"
    } else if code == 2 {
        "EQ5"
    } else if code == 3 {
        "EQ3"
    } else if code == 4 {
        "EQ8"
    } else if code == 5 {
        "AZ-EQ6"
    } else if code == 6 {
        "AZ-EQ5"
    } else if 128 <= code && code <= 143 {
        "AZ"
    } else if 144 <= code && code <= 159 {
        "DOB"
    } else {
        "AllView"
    }
}

/// Reads a model answer: its first character is the model code as a hexadecimal digit.
pub fn model_text(raw: &str) -> (r: Option<String>)
    ensures
        r matches Some(s) ==> model_of_answer(raw@) == Some(s@),
        r is None ==> model_of_answer(raw@) is None,
{
    let n = raw.unicode_len();
    if n < 1 {
        return None;
    }
    match parse_hex_below(raw.substring_char(0, 1), 256) {
        Some(c) => Some(model_name(c as u8).to_owned()),
        None => None,
    }
}

/// Whether `p` is the dynamic property `name` of the given kind and permission.
pub open spec fn custom_is(
    p: CustomProp,
    name: Seq<char>,
    value: LiveValue,
    kind: Seq<char>,
    permission: Permission,
) -> bool {
    p.name@ == name && p.value == value && p.kind@ == kind && p.permission == permission
}

impl<S: SerialLink> MountDevice<S> {
    /// Everything but the link and the cached tracking mode is the same in both.
    pub open spec fn same_but_link_and_mode(self, other: Self) -> bool {
        &&& self.id == other.id
        &&& self.name == other.name
        &&& self.properties == other.properties
        &&& self.static_properties == other.static_properties
        &&& self.address == other.address
        &&& self.baud == other.baud
        &&& self.aligned == other.aligned
        &&& is_prefix(other.port.events@, self.port.events@)
    }

    /// Everything but the link and the cached alignment flag is the same in both.
    pub open spec fn same_but_link_and_alignment(self, other: Self) -> bool {
        &&& self.id == other.id
        &&& self.name == other.name
        &&& self.properties == other.properties
        &&& self.static_properties == other.static_properties
        &&& self.address == other.address
        &&& self.baud == other.baud
        &&& self.track_mode == other.track_mode
        &&& is_prefix(other.port.events@, self.port.events@)
    }

    /// Everything but the link and the two cached values is the same in both.
    pub open spec fn same_but_link_and_cache(self, other: Self) -> bool {
        &&& self.id == other.id
        &&& self.name == other.name
        &&& self.properties == other.properties
        &&& self.static_properties == other.static_properties
        &&& self.address == other.address
        &&& self.baud == other.baud
        &&& is_prefix(other.port.events@, self.port.events@)
    }

    /// What registering the properties does, from `self` to `after`: the version query's
    /// outcome is shown as a new static property, the alignment query's outcome is cached,
    /// and the two dynamic properties are added; the old entries stay.
    pub open spec fn init_props_outcome(self, after: Self) -> bool {
        &&& after.id == self.id
        &&& after.name == self.name
        &&& after.address == self.address
        &&& after.baud == self.baud
        &&& after.track_mode == self.track_mode
        &&& is_prefix(self.port.events@, after.port.events@)
        &&& after.properties@.len() == self.properties@.len() + 2
        &&& after.properties@.subrange(0, self.properties@.len() as int) == self.properties@
        &&& custom_is(
            after.properties@[self.properties@.len() as int],
            tracking_mode_property(),
            LiveValue::TrackingMode,
            "integer"@,
            Permission::ReadWrite,
        )
        &&& custom_is(
            after.properties@[self.properties@.len() + 1int],
            "ALIGNED"@,
            LiveValue::Alignment,
            "boolean"@,
            Permission::ReadOnly,
        )
        &&& after.static_properties@.len() == self.static_properties@.len() + 1
        &&& after.static_properties@.subrange(0, self.static_properties@.len() as int)
            == self.static_properties@
        &&& after.static_properties@[self.static_properties@.len() as int].name@
            == "SYNSCAN_VERSION"@
        &&& after.static_properties@[self.static_properties@.len() as int].kind@ == "string"@
        &&& after.static_properties@[self.static_properties@.len() as int].permission
            == Permission::ReadOnly
        &&& exists|k: int|
            (one_exchange(
                self.port.events@,
                #[trigger] after.port.events@.subrange(0, k),
                Variant::SynScan,
                GET_VERSION,
                seq![],
            ) matches Some(a) && after.static_properties@[self.static_properties@.len() as int].value@
                == version_after(a)) && (one_exchange(
                after.port.events@.subrange(0, k),
                after.port.events@,
                Variant::SynScan,
                GET_ALIGNMENT,
                seq![],
            ) matches Some(b) && after.aligned@ == alignment_after(self.aligned@, b))
        &&& self.properties@.len() == 0 && self.static_properties@.len() == 0 ==> after.registered()
    }

    /// What a refresh does: the tracking mode, the precise position and the alignment are
    /// queried in turn, and the two cached values follow the outcomes.
    pub open spec fn refresh_outcome(self, after: Self) -> bool {
        &&& after.same_but_link_and_cache(self)
        &&& exists|k1: int, k2: int|
            #![trigger after.port.events@.subrange(0, k1), after.port.events@.subrange(0, k2)]
            (one_exchange(
                self.port.events@,
                after.port.events@.subrange(0, k1),
                Variant::SynScan,
                GET_TRACKING_MODE,
                seq![],
            ) matches Some(a) && after.track_mode@ == mode_after(self.track_mode@, a))
                && one_exchange(
                after.port.events@.subrange(0, k1),
                after.port.events@.subrange(0, k2),
                Variant::SynScan,
                GET_PRECISE_RA_DEC,
                seq![],
            ) is Some && (one_exchange(
                after.port.events@.subrange(0, k2),
                after.port.events@,
                Variant::SynScan,
                GET_ALIGNMENT,
                seq![],
            ) matches Some(b) && after.aligned@ == alignment_after(self.aligned@, b))
    }

    /// Everything but the link is the same in both.
    pub open spec fn same_but_link(self, other: Self) -> bool {
        self.same_but_link_and_mode(other) && self.track_mode == other.track_mode
    }

    /// What setting the tracking mode to `mode` may do: an unknown name is refused, the cached
    /// mode is kept without a word to the mount, any other mode is sent as its code in one
    /// exchange and cached only once the mount took it.
    pub open spec fn set_tracking_outcome(
        self,
        after: Self,
        mode: Seq<char>,
        r: Result<(), DeviceError>,
    ) -> bool {
        match mode_named(mode) {
            None => r == Err::<(), DeviceError>(DeviceError::InvalidValue) && after == self,
            Some(m) => if mode == self.track_mode@ {
                r == Ok::<(), DeviceError>(()) && after == self
            } else {
                &&& after.same_but_link_and_mode(self)
                &&& one_exchange(
                    self.port.events@,
                    after.port.events@,
                    Variant::SynScan,
                    SET_TRACKING_MODE,
                    seq![mode_code(m)],
                ) matches Some(s)
                &&& match s {
                    Ok(_) => r == Ok::<(), DeviceError>(()) && after.track_mode@ == mode,
                    Err(e) => r == Err::<(), DeviceError>(e) && after.track_mode == self.track_mode,
                }
            },
        }
    }

    /// What a write of `value` to the writable property `name` may do.
    pub open spec fn remote_update_outcome(
        self,
        after: Self,
        name: Seq<char>,
        value: Seq<char>,
        r: Result<(), DeviceError>,
    ) -> bool {
        if name == tracking_mode_property() {
            self.set_tracking_outcome(after, value, r)
        } else {
            r == Err::<(), DeviceError>(DeviceError::UnknownProperty) && after == self
        }
    }

    /// The permission of the property that an update of `name` finds: a dynamic property
    /// first, else a static one.
    pub open spec fn permission_of(self, name: Seq<char>) -> Option<Permission> {
        match find_in(self.properties@, name, 0) {
            Some(i) => Some(self.properties@[i].permission),
            None => match find_property(self.static_properties@, name, 0) {
                Some(j) => Some(self.static_properties@[j].permission),
                None => None,
            },
        }
    }

    /// What an update of property `name` may do: unknown and read-only properties, dynamic or
    /// static, are refused without a word to the mount.
    pub open spec fn update_outcome(
        self,
        after: Self,
        name: Seq<char>,
        value: Seq<char>,
        r: Result<(), DeviceError>,
    ) -> bool {
        match self.permission_of(name) {
            None => r == Err::<(), DeviceError>(DeviceError::UnknownProperty) && after == self,
            Some(p) => if p == Permission::ReadOnly {
                r == Err::<(), DeviceError>(DeviceError::CannotUpdateReadOnlyProperty) && after
                    == self
            } else {
                self.remote_update_outcome(after, name, value, r)
            },
        }
    }

    /// Whether `text` is what a tracking-mode refresh may leave in the cache.
    pub open spec fn refreshed_mode(text: Seq<char>) -> bool {
        text == "-1"@ || exists|t: Seq<char>|
            answers(Variant::SynScan, t) && text == tracking_text_of(t)
    }

    /// Whether `text` is what an alignment refresh may leave in the cache.
    pub open spec fn refreshed_alignment(text: Seq<char>) -> bool {
        text == "false"@ || exists|t: Seq<char>|
            answers(Variant::SynScan, t) && text == alignment_text_of(t)
    }

    /// The properties that initialisation registers.
    pub open spec fn registered(self) -> bool {
        &&& self.properties@.len() == 2
        &&& custom_is(
            self.properties@[0],
            tracking_mode_property(),
            LiveValue::TrackingMode,
            "integer"@,
            Permission::ReadWrite,
        )
        &&& custom_is(
            self.properties@[1],
            "ALIGNED"@,
            LiveValue::Alignment,
            "boolean"@,
            Permission::ReadOnly,
        )
        &&& self.static_properties@.len() == 1
        &&& self.static_properties@[0].name@ == "SYNSCAN_VERSION"@
        &&& self.static_properties@[0].kind@ == "string"@
        &&& self.static_properties@[0].permission == Permission::ReadOnly
    }

    /// Connects to a mount over an open link. The first exchange is an echo of `x`: if it
    /// fails, the link comes back with the exchange's error. Otherwise the properties are
    /// registered and the state read; later failures do not undo the connection.
    pub fn new(name: &str, address: &str, baud: u32, port: S) -> (r: Result<
        Self,
        (Link<S>, DeviceError),
    >)
        ensures
            r matches Err((l, e)) ==> one_exchange(
                Seq::empty(),
                l.events@,
                Variant::SynScan,
                ECHO,
                seq![0x78u8],
            ) == Some(Err::<Seq<char>, DeviceError>(e)),
            r matches Ok(d) ==> {
                &&& d.name@ == name@
                &&& d.address@ == address@
                &&& d.baud == baud
                &&& d.id@.len() == 36
                &&& d.registered()
                &&& exists|k: int|
                    0 <= k <= d.port.events@.len() && succeeded(one_exchange(
                        Seq::empty(),
                        d.port.events@.subrange(0, k),
                        Variant::SynScan,
                        ECHO,
                        seq![0x78u8],
                    ))
            },
    {
        let mut dev = MountDevice {
            id: fresh_id(),
            name: name.to_owned(),
            properties: Vec::new(),
            static_properties: Vec::new(),
            address: address.to_owned(),
            baud,
            port: Link::new(port),
            track_mode: "Off".to_owned(),
            aligned: "false".to_owned(),
        };
        let x = vec![0x78u8];
        assert(x@ =~= seq![0x78u8]);
        match dev.send_command(ECHO, Some(x)) {
            Ok(_) => {},
            Err(e) => {
                return Err((dev.port, e));
            },
        }
        let ghost k = dev.port.events@.len() as int;
        let ghost echoed = dev.port.events@;
        let ghost pre = dev;
        dev.init_device();
        proof {
            let mid = choose|mid: Self| mid.same_but_link(pre) && #[trigger] mid.init_props_outcome(dev);
            assert(mid.properties@.len() == 0);
            assert(dev.registered());
            assert(dev.name == pre.name && dev.address == pre.address && dev.baud == pre.baud);
            assert(dev.id == pre.id);
            assert(is_prefix(pre.port.events@, dev.port.events@));
        }
        dev.fetch_props();
        proof {
            assert(dev.port.events@.subrange(0, k) =~= echoed);
        }
        Ok(dev)
    }

    /// Refreshes the cached state from the mount: tracking mode, precise position, alignment.
    pub fn fetch_props(&mut self)
        ensures
            old(self).refresh_outcome(*final(self)),
    {
        let ghost e0 = self.port.events@;
        self.get_tracking_mode();
        let ghost e1 = self.port.events@;
        self.get_precise_ra_dec_position();
        let ghost e2 = self.port.events@;
        self.is_aligned();
        proof {
            assert(self.port.events@.subrange(0, e1.len() as int) =~= e1);
            assert(self.port.events@.subrange(0, e2.len() as int) =~= e2);
        }
    }

    pub fn get_id(&self) -> (r: &String)
        ensures
            r == self.id,
    {
        &self.id
    }

    pub fn get_address(&self) -> (r: &String)
        ensures
            r == self.address,
    {
        &self.address
    }

    pub fn get_name(&self) -> (r: &String)
        ensures
            r == self.name,
    {
        &self.name
    }

    /// Sends one command of the hand-controller protocol and returns the answer without its `#`.
    pub fn send_command(&mut self, comm: u32, val: Option<Vec<u8>>) -> (r: Result<
        String,
        DeviceError,
    >)
        ensures
            final(self).same_but_link(*old(self)),
            one_exchange(
                old(self).port.events@,
                final(self).port.events@,
                Variant::SynScan,
                comm,
                payload_bytes(val),
            ) == Some(result_view(r)),
            r matches Ok(s) ==> answers(Variant::SynScan, s@),
    {
        exchange(&mut self.port, Variant::SynScan, comm, val)
    }

    /// The index of the first property called `name`.
    pub fn find_property_index(&self, name: &str) -> (r: Option<usize>)
        ensures
            match find_in(self.properties@, name@, 0) {
                Some(i) => r == Some(i as usize),
                None => r is None,
            },
    {
        let mut i: usize = 0;
        while i < self.properties.len()
            invariant
                i <= self.properties@.len(),
                find_in(self.properties@, name@, 0) == find_in(self.properties@, name@, i as int),
            decreases self.properties.len() - i,
        {
            if same_text(self.properties[i].name.as_str(), name) {
                return Some(i);
            }
            i = i + 1;
        }
        None
    }

    /// Writes `value` to property `name` on the mount, and caches it once the mount took it.
    pub fn update_property(&mut self, name: &str, value: &str) -> (r: Result<(), DeviceError>)
        ensures
            old(self).update_outcome(*final(self), name@, value@, r),
    {
        proof {
            lemma_find_in_bounds(self.properties@, name@, 0);
            lemma_find_property_bounds(self.static_properties@, name@, 0);
        }
        let permission = match self.find_property_index(name) {
            Some(i) => {
                let ghost j = find_in(self.properties@, name@, 0)->0;
                assert(self.properties@.len() == self.properties.len());
                assert(j == i as int);
                Some(self.properties[i].permission)
            },
            None => match property_index(&self.static_properties, name) {
                Some(i) => {
                    let ghost j = find_property(self.static_properties@, name@, 0)->0;
                    assert(self.static_properties@.len() == self.static_properties.len());
                    assert(j == i as int);
                    Some(self.static_properties[i].permission)
                },
                None => None,
            },
        };
        assert(permission == self.permission_of(name@));
        match permission {
            None => Err(DeviceError::UnknownProperty),
            Some(p) => {
                if p == Permission::ReadOnly {
                    Err(DeviceError::CannotUpdateReadOnlyProperty)
                } else {
                    self.update_property_remote(name, value)
                }
            },
        }
    }

    /// Sends the command that writes property `name`.
    pub fn update_property_remote(&mut self, name: &str, value: &str) -> (r: Result<
        (),
        DeviceError,
    >)
        ensures
            old(self).remote_update_outcome(*final(self), name@, value@, r),
    {
        if same_text(name, "TRACKING_MODE") {
            self.set_tracking_mode(value)
        } else {
            Err(DeviceError::UnknownProperty)
        }
    }

    /// Reads the mount's positions and version, then registers the properties.
    pub fn init_device(&mut self)
        ensures
            exists|mid: Self| mid.same_but_link(*old(self)) && #[trigger] mid.init_props_outcome(*final(self)),
    {
        self.get_ra_dec_position();
        self.get_precise_ra_dec_position();
        self.get_alt_az_position();
        self.get_precise_alt_az_position();
        let _ = self.get_version();
        let ghost mid = *self;
        self.init_props();
        assert(mid.init_props_outcome(*self));
    }

    /// Useful to check the link: the mount sends `val` back.
    pub fn echo(&mut self, val: Vec<u8>) -> (r: Result<String, DeviceError>)
        ensures
            final(self).same_but_link(*old(self)),
            one_exchange(old(self).port.events@, final(self).port.events@, Variant::SynScan, ECHO, val@)
                == Some(result_view(r)),
            r matches Ok(t) ==> answers(Variant::SynScan, t@),
    {
        self.send_command(ECHO, Some(val))
    }

    /// The coarse position answer, or `UNKNOWN`.
    pub fn get_ra_dec_position(&mut self) -> (r: String)
        ensures
            final(self).same_but_link(*old(self)),
            (one_exchange(old(self).port.events@, final(self).port.events@, Variant::SynScan, GET_RA_DEC, seq![]) matches Some(a) && r@ == match a {
                Ok(t) => t,
                Err(_) => "UNKNOWN"@,
            }),
            r@ == "UNKNOWN"@ || answers(Variant::SynScan, r@),
    {
        match self.send_command(GET_RA_DEC, None) {
            Ok(p) => p,
            Err(_) => "UNKNOWN".to_owned(),
        }
    }

    /// The precise position answer, or `UNKNOWN`.
    pub fn get_precise_ra_dec_position(&mut self) -> (r: String)
        ensures
            final(self).same_but_link(*old(self)),
            (one_exchange(old(self).port.events@, final(self).port.events@, Variant::SynScan, GET_PRECISE_RA_DEC, seq![]) matches Some(a) && r@ == match a {
                Ok(t) => t,
                Err(_) => "UNKNOWN"@,
            }),
            r@ == "UNKNOWN"@ || answers(Variant::SynScan, r@),
    {
        match self.send_command(GET_PRECISE_RA_DEC, None) {
            Ok(p) => p,
            Err(_) => "UNKNOWN".to_owned(),
        }
    }

    /// The coarse altitude-azimuth answer, or `UNKNOWN`.
    pub fn get_alt_az_position(&mut self) -> (r: String)
        ensures
            final(self).same_but_link(*old(self)),
            (one_exchange(old(self).port.events@, final(self).port.events@, Variant::SynScan, GET_ALT_AZ, seq![]) matches Some(a) && r@ == match a {
                Ok(t) => t,
                Err(_) => "UNKNOWN"@,
            }),
            r@ == "UNKNOWN"@ || answers(Variant::SynScan, r@),
    {
        match self.send_command(GET_ALT_AZ, None) {
            Ok(p) => p,
            Err(_) => "UNKNOWN".to_owned(),
        }
    }

    /// The precise altitude-azimuth answer, or `UNKNOWN`.
    pub fn get_precise_alt_az_position(&mut self) -> (r: String)
        ensures
            final(self).same_but_link(*old(self)),
            (one_exchange(old(self).port.events@, final(self).port.events@, Variant::SynScan, GET_PRECISE_ALT_AZ, seq![]) matches Some(a) && r@ == match a {
                Ok(t) => t,
                Err(_) => "UNKNOWN"@,
            }),
            r@ == "UNKNOWN"@ || answers(Variant::SynScan, r@),
    {
        match self.send_command(GET_PRECISE_ALT_AZ, None) {
            Ok(p) => p,
            Err(_) => "UNKNOWN".to_owned(),
        }
    }

    /// Sends a coarse goto to the given revolution counts; the mount is not waited for.
    pub fn goto_ra_dec(&mut self, ra_revolutions: i16, dec_revolutions: i16) -> (r: Result<
        String,
        DeviceError,
    >)
        ensures
            final(self).same_but_link(*old(self)),
            one_exchange(
                old(self).port.events@,
                final(self).port.events@,
                Variant::SynScan,
                GOTO_RA_DEC,
                goto_payload(ra_revolutions, dec_revolutions),
            ) == Some(result_view(r)),
    {
        let payload = goto_payload_bytes(ra_revolutions, dec_revolutions);
        self.send_command(GOTO_RA_DEC, Some(payload))
    }

    /// Sends a precise goto to the given revolution counts; the mount is not waited for.
    pub fn goto_precise_ra_dec(&mut self, ra_revolutions: i32, dec_revolutions: i32) -> (r:
        Result<String, DeviceError>)
        ensures
            final(self).same_but_link(*old(self)),
            one_exchange(
                old(self).port.events@,
                final(self).port.events@,
                Variant::SynScan,
                GOTO_PRECISE_RA_DEC,
                precise_goto_payload(ra_revolutions, dec_revolutions),
            ) == Some(result_view(r)),
    {
        let payload = precise_goto_payload_bytes(ra_revolutions, dec_revolutions);
        self.send_command(GOTO_PRECISE_RA_DEC, Some(payload))
    }

    /// Reads the tracking mode from the mount into the cache: an answer that names no mode
    /// gives `UNKNOWN`, an answer that cannot be decoded keeps the cache, a failed link `-1`.
    pub fn get_tracking_mode(&mut self)
        ensures
            (one_exchange(
                old(self).port.events@,
                final(self).port.events@,
                Variant::SynScan,
                GET_TRACKING_MODE,
                seq![],
            ) matches Some(a) && final(self).track_mode@ == mode_after(old(self).track_mode@, a)),
            final(self).same_but_link_and_mode(*old(self)),
    {
        match self.send_command(GET_TRACKING_MODE, None) {
            Ok(t) => {
                self.track_mode = tracking_text(t.as_str());
            },
            Err(DeviceError::InvalidValue) => {},
            Err(_) => {
                self.track_mode = "-1".to_owned();
            },
        }
    }

    /// Sets the tracking mode called `mode`; the cached mode is not sent again.
    pub fn set_tracking_mode(&mut self, mode: &str) -> (r: Result<(), DeviceError>)
        ensures
            old(self).set_tracking_outcome(*final(self), mode@, r),
    {
        let m = match TrackingMode::from_name(mode) {
            Some(m) => m,
            None => {
                return Err(DeviceError::InvalidValue);
            },
        };
        if same_text(mode, self.track_mode.as_str()) {
            return Ok(());
        }
        let payload = vec![m.code()];
        assert(payload@ =~= seq![mode_code(m)]);
        match self.send_command(SET_TRACKING_MODE, Some(payload)) {
            Ok(_) => {
                self.track_mode = mode.to_owned();
                Ok(())
            },
            Err(e) => Err(e),
        }
    }

    /// The version of the hand controller, such as `4.10.31`.
    pub fn get_version(&mut self) -> (r: Result<String, DeviceError>)
        ensures
            (one_exchange(old(self).port.events@, final(self).port.events@, Variant::SynScan, GET_VERSION, seq![]) matches Some(a) && match a {
                Ok(t) => match version_of(t) {
                    Some(v) => r matches Ok(x) && x@ == v,
                    None => r == Err::<String, DeviceError>(DeviceError::InvalidValue),
                },
                Err(e) => r == Err::<String, DeviceError>(e),
            }),
            final(self).same_but_link(*old(self)),
            r matches Ok(v) ==> exists|t: Seq<char>|
                answers(Variant::SynScan, t) && version_of(t) == Some(v@),
    {
        let raw = self.send_command(GET_VERSION, None)?;
        match version_text(raw.as_str()) {
            Some(v) => Ok(v),
            None => Err(DeviceError::InvalidValue),
        }
    }

    /// The model of the mount.
    pub fn get_model(&mut self) -> (r: Result<String, DeviceError>)
        ensures
            (one_exchange(old(self).port.events@, final(self).port.events@, Variant::SynScan, GET_MODEL, seq![]) matches Some(a) && match a {
                Ok(t) => match model_of_answer(t) {
                    Some(v) => r matches Ok(x) && x@ == v,
                    None => r == Err::<String, DeviceError>(DeviceError::InvalidValue),
                },
                Err(e) => r == Err::<String, DeviceError>(e),
            }),
            final(self).same_but_link(*old(self)),
            r matches Ok(v) ==> exists|t: Seq<char>|
                answers(Variant::SynScan, t) && model_of_answer(t) == Some(v@),
    {
        let raw = self.send_command(GET_MODEL, None)?;
        match model_text(raw.as_str()) {
            Some(v) => Ok(v),
            None => Err(DeviceError::InvalidValue),
        }
    }

    /// Reads the alignment flag from the mount into the cache: an answer that cannot be
    /// decoded keeps the cache, a failed link reads as not aligned.
    pub fn is_aligned(&mut self)
        ensures
            (one_exchange(
                old(self).port.events@,
                final(self).port.events@,
                Variant::SynScan,
                GET_ALIGNMENT,
                seq![],
            ) matches Some(a) && final(self).aligned@ == alignment_after(old(self).aligned@, a)),
            final(self).same_but_link_and_alignment(*old(self)),
    {
        match self.send_command(GET_ALIGNMENT, None) {
            Ok(m) => {
                self.aligned = alignment_text(m.as_str());
            },
            Err(DeviceError::InvalidValue) => {},
            Err(_) => {
                self.aligned = "false".to_owned();
            },
        }
    }

    /// Registers the version read now as a static property and the tracking mode and
    /// alignment as dynamic ones.
    pub fn init_props(&mut self)
        ensures
            old(self).init_props_outcome(*final(self)),
    {
        let ghost before = *self;
        let rv = self.get_version();
        let ghost a = one_exchange(
            before.port.events@,
            self.port.events@,
            Variant::SynScan,
            GET_VERSION,
            seq![],
        )->0;
        let version = match rv {
            Ok(v) => v,
            Err(_) => "0.0.0".to_owned(),
        };
        assert(version@ == version_after(a));
        let ghost k = self.port.events@.len() as int;
        let ghost e1 = self.port.events@;
        self.is_aligned();
        proof {
            assert(self.port.events@.subrange(0, k) =~= e1);
        }
        let ghost b = one_exchange(e1, self.port.events@, Variant::SynScan, GET_ALIGNMENT, seq![])->0;
        self.static_properties.push(
            Property {
                name: "SYNSCAN_VERSION".to_owned(),
                kind: "string".to_owned(),
                value: version,
                permission: Permission::ReadOnly,
            },
        );
        self.properties.push(
            CustomProp {
                name: "TRACKING_MODE".to_owned(),
                kind: "integer".to_owned(),
                permission: Permission::ReadWrite,
                value: LiveValue::TrackingMode,
            },
        );
        self.properties.push(
            CustomProp {
                name: "ALIGNED".to_owned(),
                kind: "boolean".to_owned(),
                permission: Permission::ReadOnly,
                value: LiveValue::Alignment,
            },
        );
        proof {
            let n = before.static_properties@.len() as int;
            assert(self.static_properties@[n].value@ == version_after(a));
            assert(self.port.events@.subrange(0, k) == e1);
            assert(self.aligned@ == alignment_after(before.aligned@, b));
            assert(self.properties@.subrange(0, before.properties@.len() as int) =~= before.properties@);
            assert(self.static_properties@.subrange(0, n) =~= before.static_properties@);
        }
    }

    /// The current value that a dynamic property shows.
    pub open spec fn live_text(self, v: LiveValue) -> Seq<char> {
        match v {
            LiveValue::TrackingMode => self.track_mode@,
            LiveValue::Alignment => self.aligned@,
        }
    }

    /// A snapshot of every property: the dynamic ones with their current values, then the
    /// static ones.
    pub fn get_ls_props(&self) -> (r: Vec<Property>)
        ensures
            r@.len() == self.properties@.len() + self.static_properties@.len(),
            forall|i: int|
                0 <= i < self.properties@.len() ==> property_is(
                    #[trigger] r@[i],
                    self.properties@[i].name@,
                    self.live_text(self.properties@[i].value),
                    self.properties@[i].kind@,
                    self.properties@[i].permission,
                ),
            forall|j: int|
                0 <= j < self.static_properties@.len() ==> property_is(
                    #[trigger] r@[self.properties@.len() + j],
                    self.static_properties@[j].name@,
                    self.static_properties@[j].value@,
                    self.static_properties@[j].kind@,
                    self.static_properties@[j].permission,
                ),
    {
        let mut out: Vec<Property> = Vec::new();
        let mut i: usize = 0;
        while i < self.properties.len()
            invariant
                i <= self.properties@.len(),
                out@.len() == i,
                forall|k: int|
                    0 <= k < i ==> property_is(
                        #[trigger] out@[k],
                        self.properties@[k].name@,
                        self.live_text(self.properties@[k].value),
                        self.properties@[k].kind@,
                        self.properties@[k].permission,
                    ),
            decreases self.properties.len() - i,
        {
            let p = &self.properties[i];
            let live = match p.value {
                LiveValue::TrackingMode => &self.track_mode,
                LiveValue::Alignment => &self.aligned,
            };
            out.push(p.to_ls_prop(live));
            i = i + 1;
        }
        let mut j: usize = 0;
        while j < self.static_properties.len()
            invariant
                j <= self.static_properties@.len(),
                out@.len() == self.properties@.len() + j,
                forall|k: int|
                    0 <= k < self.properties@.len() ==> property_is(
                        #[trigger] out@[k],
                        self.properties@[k].name@,
                        self.live_text(self.properties@[k].value),
                        self.properties@[k].kind@,
                        self.properties@[k].permission,
                    ),
                forall|k: int|
                    0 <= k < j ==> property_is(
                        #[trigger] out@[self.properties@.len() + k],
                        self.static_properties@[k].name@,
                        self.static_properties@[k].value@,
                        self.static_properties@[k].kind@,
                        self.static_properties@[k].permission,
                    ),
            decreases self.static_properties.len() - j,
        {
            out.push(self.static_properties[j].duplicate());
            j = j + 1;
        }
        out
    }
}

/// An update of a read-only property, dynamic or static, is refused, and the mount hears
/// nothing of it: the device, its link record included, is left as it was.
pub proof fn lemma_read_only_update_refused<S: SerialLink>(
    dev: MountDevice<S>,
    after: MountDevice<S>,
    name: Seq<char>,
    value: Seq<char>,
    r: Result<(), DeviceError>,
)
    requires
        dev.update_outcome(after, name, value, r),
        dev.permission_of(name) == Some(Permission::ReadOnly),
    ensures
        r == Err::<(), DeviceError>(DeviceError::CannotUpdateReadOnlyProperty),
        after == dev,
{
}

/// An update of a property that the device does not have is refused, and the mount hears
/// nothing of it.
pub proof fn lemma_unknown_update_refused<S: SerialLink>(
    dev: MountDevice<S>,
    after: MountDevice<S>,
    name: Seq<char>,
    value: Seq<char>,
    r: Result<(), DeviceError>,
)
    requires
        dev.update_outcome(after, name, value, r),
        forall|i: int| 0 <= i < dev.properties@.len() ==> (#[trigger] dev.properties@[i]).name@ != name,
        forall|i: int|
            0 <= i < dev.static_properties@.len() ==> (#[trigger] dev.static_properties@[i]).name@
                != name,
    ensures
        r == Err::<(), DeviceError>(DeviceError::UnknownProperty),
        after == dev,
{
    lemma_find_in_absent(dev.properties@, name, 0);
    lemma_find_property_absent(dev.static_properties@, name, 0);
}

proof fn lemma_find_in_absent(props: Seq<CustomProp>, name: Seq<char>, from: int)
    requires
        forall|i: int| 0 <= i < props.len() ==> (#[trigger] props[i]).name@ != name,
    ensures
        find_in(props, name, from) is None,
    decreases props.len() - from,
{
    if 0 <= from < props.len() {
        lemma_find_in_absent(props, name, from + 1);
    }
}

/// Setting the tracking mode that is already cached succeeds, and the mount hears nothing
/// of it.
pub proof fn lemma_same_tracking_mode_is_kept<S: SerialLink>(
    dev: MountDevice<S>,
    after: MountDevice<S>,
    mode: Seq<char>,
    r: Result<(), DeviceError>,
)
    requires
        dev.set_tracking_outcome(after, mode, r),
        mode_named(mode) is Some,
        mode == dev.track_mode@,
    ensures
        r == Ok::<(), DeviceError>(()),
        after == dev,
{
}

} // verus!
