//! A mount driven through the motor-board protocol.
use vstd::prelude::*;
use vstd::string::StrSliceExecFns;
use vstd::utf8::encode_utf8;
use crate::codec::{payload_bytes, Variant};
use crate::convert::{str_24bits_to_u32, swapped_hex_u32};
use crate::error::DeviceError;
use crate::props::{find_property, lemma_find_property_bounds, property_index, Permission, Property};
use crate::text::fresh_id;
use crate::text::same_text;
use crate::transport::{LinkEvent, answers, exchange, is_prefix, one_exchange, succeeded, result_view, Link, SerialLink};

verus! {

broadcast use vstd::string::group_string_axioms;

pub const RA_INIT: u32 = 0x3a4631;

pub const RA_MOTOR_BOARD_VERSION: u32 = 0x3a6531;

pub const RA_GRID_PER_REVOLUTION: u32 = 0x3a6131;

pub const RA_GET_AXIS_POSITION: u32 = 0x3a6a31;

pub const RA_SET_AXIS_POSITION: u32 = 0x3a4531;

pub const RA_GET_AXIS_STATUS: u32 = 0x3a6631;

pub const DEC_INIT: u32 = 0x3a4632;

pub const DEC_GRID_PER_REVOLUTION: u32 = 0x3a6132;

pub const DEC_GET_AXIS_POSITION: u32 = 0x3a6a32;

pub const DEC_SET_AXIS_POSITION: u32 = 0x3a4532;

pub const DEC_GET_AXIS_STATUS: u32 = 0x3a6632;

/// An RA query and then a DEC query took place between the records `before` and `after`.
pub open spec fn queried_pair(before: Seq<LinkEvent>, after: Seq<LinkEvent>, ra: u32, dec: u32) -> bool {
    exists|k: int|
        one_exchange(before, #[trigger] after.subrange(0, k), Variant::EqMod, ra, seq![]) is Some
            && one_exchange(after.subrange(0, k), after, Variant::EqMod, dec, seq![]) is Some
}

/// An answer, or `UNKNOWN` where the exchange failed.
pub open spec fn answer_or_unknown_of(a: Result<Seq<char>, DeviceError>) -> Seq<char> {
    match a {
        Ok(t) => t,
        Err(_) => "UNKNOWN"@,
    }
}

/// A mount reached through its motor board over the link `S`.
pub struct MountDevice<S> {
    pub id: String,
    pub name: String,
    pub properties: Vec<Property>,
    pub address: String,
    pub baud: u32,
    pub port: Link<S>,
}

impl<S: SerialLink> MountDevice<S> {
    /// Everything but the link is the same in both.
    pub open spec fn same_but_link(self, other: Self) -> bool {
        &&& self.id == other.id
        &&& self.name == other.name
        &&& self.properties == other.properties
        &&& self.address == other.address
        &&& self.baud == other.baud
        &&& is_prefix(other.port.events@, self.port.events@)
    }

    /// Connects to a mount over an open link. The DEC axis and then the RA axis are sent
    /// their init command; if either exchange fails, the link comes back with its error.
    /// Otherwise the motor board version, grids, positions and states are read; their
    /// failures do not undo the connection.
    pub fn new(name: &str, address: &str, baud: u32, port: S) -> (r: Result<
        Self,
        (Link<S>, DeviceError),
    >)
        ensures
            r matches Err((l, e)) ==> (one_exchange(
                Seq::empty(),
                l.events@,
                Variant::EqMod,
                DEC_INIT,
                seq![],
            ) == Some(Err::<Seq<char>, DeviceError>(e)) || exists|k: int|
                0 <= k <= l.events@.len() && succeeded(one_exchange(
                    Seq::empty(),
                    l.events@.subrange(0, k),
                    Variant::EqMod,
                    DEC_INIT,
                    seq![],
                )) && one_exchange(
                    l.events@.subrange(0, k),
                    l.events@,
                    Variant::EqMod,
                    RA_INIT,
                    seq![],
                ) == Some(Err::<Seq<char>, DeviceError>(e))),
            r matches Ok(d) ==> {
                &&& d.name@ == name@
                &&& d.address@ == address@
                &&& d.baud == baud
                &&& d.id@.len() == 36
                &&& d.properties@.len() == 0
                &&& exists|k1: int, k2: int|
                    0 <= k1 <= k2 <= d.port.events@.len() && succeeded(one_exchange(
                        Seq::empty(),
                        d.port.events@.subrange(0, k1),
                        Variant::EqMod,
                        DEC_INIT,
                        seq![],
                    )) && succeeded(one_exchange(
                        d.port.events@.subrange(0, k1),
                        d.port.events@.subrange(0, k2),
                        Variant::EqMod,
                        RA_INIT,
                        seq![],
                    ))
            },
    {
        let mut dev = MountDevice {
            id: fresh_id(),
            name: name.to_owned(),
            properties: Vec::new(),
            address: address.to_owned(),
            baud,
            port: Link::new(port),
        };
        match dev.send_command(DEC_INIT, None) {
            Ok(_) => {},
            Err(e) => {
                return Err((dev.port, e));
            },
        }
        let ghost after_dec = dev.port.events@;
        let ghost k1 = after_dec.len() as int;
        match dev.send_command(RA_INIT, None) {
            Ok(_) => {},
            Err(e) => {
                proof {
                    assert(dev.port.events@.subrange(0, k1) == after_dec);
                }
                return Err((dev.port, e));
            },
        }
        let ghost after_ra = dev.port.events@;
        let ghost k2 = after_ra.len() as int;
        dev.init_device();
        dev.fetch_props();
        proof {
            assert(dev.port.events@.subrange(0, k2) == after_ra);
            assert(after_ra.subrange(0, k1) =~= after_dec);
            assert(dev.port.events@.subrange(0, k1) =~= after_dec);
            assert(succeeded(one_exchange(
                Seq::empty(),
                dev.port.events@.subrange(0, k1),
                Variant::EqMod,
                DEC_INIT,
                seq![],
            )));
            assert(succeeded(one_exchange(
                dev.port.events@.subrange(0, k1),
                dev.port.events@.subrange(0, k2),
                Variant::EqMod,
                RA_INIT,
                seq![],
            )));
        }
        Ok(dev)
    }

    /// Reads the axis positions and then the axis states.
    pub fn fetch_props(&mut self)
        ensures
            final(self).same_but_link(*old(self)),
            exists|mid: Seq<LinkEvent>|
                #[trigger] queried_pair(
                    old(self).port.events@,
                    mid,
                    RA_GET_AXIS_POSITION,
                    DEC_GET_AXIS_POSITION,
                ) && queried_pair(mid, final(self).port.events@, RA_GET_AXIS_STATUS, DEC_GET_AXIS_STATUS),
    {
        let _ = self.get_axis_position();
        let ghost mid = self.port.events@;
        let _ = self.get_axis_status();
    }

    pub fn get_id(&self) -> (r: &String)
        ensures
            r == self.id,
    {
        &self.id
    }

    pub fn get_address(&self) -> (r: &String)
        ensures
            r == self.address,
    {
        &self.address
    }

    pub fn get_name(&self) -> (r: &String)
        ensures
            r == self.name,
    {
        &self.name
    }

    pub fn get_properties(&self) -> (r: &Vec<Property>)
        ensures
            r == self.properties,
    {
        &self.properties
    }

    /// Sends one motor-board command; the answer comes back without its mark and carriage
    /// return, and a refusal mark gives `InvalidValue`.
    pub fn send_command(&mut self, comm: u32, val: Option<Vec<u8>>) -> (r: Result<
        String,
        DeviceError,
    >)
        ensures
            final(self).same_but_link(*old(self)),
            one_exchange(
                old(self).port.events@,
                final(self).port.events@,
                Variant::EqMod,
                comm,
                payload_bytes(val),
            ) == Some(result_view(r)),
            r matches Ok(s) ==> answers(Variant::EqMod, s@),
    {
        exchange(&mut self.port, Variant::EqMod, comm, val)
    }

    /// The index of the first property called `name`.
    pub fn find_property_index(&self, name: &str) -> (r: Option<usize>)
        ensures
            match find_property(self.properties@, name@, 0) {
                Some(i) => r == Some(i as usize),
                None => r is None,
            },
    {
        property_index(&self.properties, name)
    }

    /// Updates a property: this protocol has no writable property, so every name is refused
    /// without a word to the mount.
    pub fn update_property(&mut self, name: &str, value: &str) -> (r: Result<(), DeviceError>)
        ensures
            *final(self) == *old(self),
            match find_property(old(self).properties@, name@, 0) {
                None => r == Err::<(), DeviceError>(DeviceError::UnknownProperty),
                Some(i) => if old(self).properties@[i].permission == Permission::ReadOnly {
                    r == Err::<(), DeviceError>(DeviceError::CannotUpdateReadOnlyProperty)
                } else {
                    r == Err::<(), DeviceError>(DeviceError::UnknownProperty)
                },
            },
    {
        proof {
            lemma_find_property_bounds(self.properties@, name@, 0);
        }
        match self.find_property_index(name) {
            Some(i) => {
                let ghost j = find_property(self.properties@, name@, 0)->0;
                assert(self.properties@.len() == self.properties.len());
                assert(j == i as int);
                if self.properties[i].permission == Permission::ReadOnly {
                    Err(DeviceError::CannotUpdateReadOnlyProperty)
                } else {
                    self.update_property_remote(name, value)
                }
            },
            None => Err(DeviceError::UnknownProperty),
        }
    }

    /// No property of this protocol is written on the mount.
    pub fn update_property_remote(&mut self, name: &str, value: &str) -> (r: Result<
        (),
        DeviceError,
    >)
        ensures
            *final(self) == *old(self),
            r == Err::<(), DeviceError>(DeviceError::UnknownProperty),
    {
        Err(DeviceError::UnknownProperty)
    }

    /// Reads the motor board version and the grids per revolution.
    pub fn init_device(&mut self)
        ensures
            final(self).same_but_link(*old(self)),
            exists|mid: Seq<LinkEvent>|
                #[trigger] one_exchange(
                    old(self).port.events@,
                    mid,
                    Variant::EqMod,
                    RA_MOTOR_BOARD_VERSION,
                    seq![],
                ) is Some && queried_pair(
                    mid,
                    final(self).port.events@,
                    RA_GRID_PER_REVOLUTION,
                    DEC_GRID_PER_REVOLUTION,
                ),
    {
        let _ = self.get_motor_board_version();
        let ghost mid = self.port.events@;
        let _ = self.get_grid_per_revolution();
    }

    /// The motor board version, sent low byte first; zero where it cannot be read.
    pub fn get_motor_board_version(&mut self) -> (r: u32)
        ensures
            (one_exchange(old(self).port.events@, final(self).port.events@, Variant::EqMod, RA_MOTOR_BOARD_VERSION, seq![]) matches Some(a) && r == match a {
                Ok(t) => match swapped_hex_u32(t) {
                    Some(n) => n,
                    None => 0,
                },
                Err(_) => 0,
            }),
            final(self).same_but_link(*old(self)),
            r == 0 || exists|t: Seq<char>|
                answers(Variant::EqMod, t) && swapped_hex_u32(t) == Some(r),
    {
        match self.send_command(RA_MOTOR_BOARD_VERSION, None) {
            Ok(v) => match str_24bits_to_u32(v) {
                Some(n) => n,
                None => 0,
            },
            Err(_) => 0,
        }
    }

    /// The answer to `comm`, or `UNKNOWN`.
    fn answer_or_unknown(&mut self, comm: u32) -> (r: String)
        ensures
            (one_exchange(old(self).port.events@, final(self).port.events@, Variant::EqMod, comm, seq![]) matches Some(a) && r@ == match a {
                Ok(t) => t,
                Err(_) => "UNKNOWN"@,
            }),
            final(self).same_but_link(*old(self)),
            r@ == "UNKNOWN"@ || answers(Variant::EqMod, r@),
    {
        match self.send_command(comm, None) {
            Ok(v) => v,
            Err(_) => "UNKNOWN".to_owned(),
        }
    }

    /// What an RA query and then a DEC query gave: each answer, or `UNKNOWN`.
    pub open spec fn axis_pair_outcome(self, after: Self, ra: u32, dec: u32, r: (String, String)) -> bool {
        exists|k: int|
            (one_exchange(
                self.port.events@,
                #[trigger] after.port.events@.subrange(0, k),
                Variant::EqMod,
                ra,
                seq![],
            ) matches Some(a) && r.0@ == answer_or_unknown_of(a)) && (one_exchange(
                after.port.events@.subrange(0, k),
                after.port.events@,
                Variant::EqMod,
                dec,
                seq![],
            ) matches Some(b) && r.1@ == answer_or_unknown_of(b))
    }

    fn axis_pair(&mut self, ra: u32, dec: u32) -> (r: (String, String))
        ensures
            final(self).same_but_link(*old(self)),
            old(self).axis_pair_outcome(*final(self), ra, dec, r),
            queried_pair(old(self).port.events@, final(self).port.events@, ra, dec),
            r.0@ == "UNKNOWN"@ || answers(Variant::EqMod, r.0@),
            r.1@ == "UNKNOWN"@ || answers(Variant::EqMod, r.1@),
    {
        let a = self.answer_or_unknown(ra);
        let ghost mid = self.port.events@;
        let b = self.answer_or_unknown(dec);
        assert(self.port.events@.subrange(0, mid.len() as int) =~= mid);
        (a, b)
    }

    /// The grids per revolution of the RA and DEC axes.
    pub fn get_grid_per_revolution(&mut self) -> (r: (String, String))
        ensures
            final(self).same_but_link(*old(self)),
            old(self).axis_pair_outcome(*final(self), RA_GRID_PER_REVOLUTION, DEC_GRID_PER_REVOLUTION, r),
            queried_pair(old(self).port.events@, final(self).port.events@, RA_GRID_PER_REVOLUTION, DEC_GRID_PER_REVOLUTION),
            r.0@ == "UNKNOWN"@ || answers(Variant::EqMod, r.0@),
            r.1@ == "UNKNOWN"@ || answers(Variant::EqMod, r.1@),
    {
        self.axis_pair(RA_GRID_PER_REVOLUTION, DEC_GRID_PER_REVOLUTION)
    }

    /// The positions of the RA and DEC axes.
    pub fn get_axis_position(&mut self) -> (r: (String, String))
        ensures
            final(self).same_but_link(*old(self)),
            old(self).axis_pair_outcome(*final(self), RA_GET_AXIS_POSITION, DEC_GET_AXIS_POSITION, r),
            queried_pair(old(self).port.events@, final(self).port.events@, RA_GET_AXIS_POSITION, DEC_GET_AXIS_POSITION),
            r.0@ == "UNKNOWN"@ || answers(Variant::EqMod, r.0@),
            r.1@ == "UNKNOWN"@ || answers(Variant::EqMod, r.1@),
    {
        self.axis_pair(RA_GET_AXIS_POSITION, DEC_GET_AXIS_POSITION)
    }

    /// Sets the position of the RA axis.
    pub fn set_ra_axis_position(&mut self, val: &str) -> (r: Result<String, DeviceError>)
        ensures
            final(self).same_but_link(*old(self)),
            one_exchange(
                old(self).port.events@,
                final(self).port.events@,
                Variant::EqMod,
                RA_SET_AXIS_POSITION,
                encode_utf8(val@),
            ) == Some(result_view(r)),
            r matches Ok(t) ==> answers(Variant::EqMod, t@),
    {
        self.send_command(RA_SET_AXIS_POSITION, Some(val.as_bytes_vec()))
    }

    /// Sets the position of the DEC axis.
    pub fn set_dec_axis_position(&mut self, val: &str) -> (r: Result<String, DeviceError>)
        ensures
            final(self).same_but_link(*old(self)),
            one_exchange(
                old(self).port.events@,
                final(self).port.events@,
                Variant::EqMod,
                DEC_SET_AXIS_POSITION,
                encode_utf8(val@),
            ) == Some(result_view(r)),
            r matches Ok(t) ==> answers(Variant::EqMod, t@),
    {
        self.send_command(DEC_SET_AXIS_POSITION, Some(val.as_bytes_vec()))
    }

    /// The states of the RA and DEC axes.
    pub fn get_axis_status(&mut self) -> (r: (String, String))
        ensures
            final(self).same_but_link(*old(self)),
            old(self).axis_pair_outcome(*final(self), RA_GET_AXIS_STATUS, DEC_GET_AXIS_STATUS, r),
            queried_pair(old(self).port.events@, final(self).port.events@, RA_GET_AXIS_STATUS, DEC_GET_AXIS_STATUS),
            r.0@ == "UNKNOWN"@ || answers(Variant::EqMod, r.0@),
            r.1@ == "UNKNOWN"@ || answers(Variant::EqMod, r.1@),
    {
        self.axis_pair(RA_GET_AXIS_STATUS, DEC_GET_AXIS_STATUS)
    }
}

} // verus!
