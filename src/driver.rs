//! Requests of the controller facade, dispatched to the connected hand-controller mounts.
use vstd::prelude::*;
use vstd::string::{StrSliceExecFns, StringExecFns};
use crate::error::DeviceError;
use crate::synscan::MountDevice;
use crate::text::same_text;
use crate::transport::SerialLink;

verus! {

broadcast use vstd::string::group_string_axioms;

/// USB vendor id of the serial adapter of the mounts.
pub const ADAPTER_VENDOR: u16 = 0x067b;

/// USB product id of the serial adapter of the mounts.
pub const ADAPTER_PRODUCT: u16 = 0x2303;

/// Whether a USB serial port is one of the mounts' adapters.
pub fn is_mount_adapter(vid: u16, pid: u16) -> (r: bool)
    ensures
        r == (vid == ADAPTER_VENDOR && pid == ADAPTER_PRODUCT),
{
    vid == ADAPTER_VENDOR && pid == ADAPTER_PRODUCT
}

/// The name a mount is shown under: `EQ6-r`, followed by the adapter's serial number if any.
pub fn device_name(serial: Option<&str>) -> (r: String)
    ensures
        r@ == match serial {
            Some(s) => "EQ6-r"@ + "-"@ + s@,
            None => "EQ6-r"@,
        },
{
    let mut n = "EQ6-r".to_owned();
    if let Some(s) = serial {
        n.append("-");
        n.append(s);
    }
    n
}

/// Whether a request names a device, a property and a value, none of them empty.
pub fn request_is_complete(device_id: &str, name: &str, value: &str) -> (r: bool)
    ensures
        r == (device_id@.len() > 0 && name@.len() > 0 && value@.len() > 0),
{
    device_id.unicode_len() > 0 && name.unicode_len() > 0 && value.unicode_len() > 0
}

/// Sets property `name` of `dev` to `value` if `dev` is the device `device_id`; `None`, with
/// the device untouched, if it is another one.
pub fn set_property_on<S: SerialLink>(
    dev: &mut MountDevice<S>,
    device_id: &str,
    name: &str,
    value: &str,
) -> (r: Option<Result<(), DeviceError>>)
    ensures
        old(dev).id@ != device_id@ ==> r is None && *final(dev) == *old(dev),
        old(dev).id@ == device_id@ ==> (r matches Some(u) && old(dev).update_outcome(
            *final(dev),
            name@,
            value@,
            u,
        )),
{
    if same_text(dev.id.as_str(), device_id) {
        Some(dev.update_property(name, value))
    } else {
        None
    }
}

/// The first index at or after `from` of a device with id `id`.
pub open spec fn find_device<S>(devices: Seq<MountDevice<S>>, id: Seq<char>, from: int) -> Option<
    int,
>
    decreases devices.len() - from,
{
    if from < 0 || from >= devices.len() {
        None
    } else if devices[from].id@ == id {
        Some(from)
    } else {
        find_device(devices, id, from + 1)
    }
}

proof fn lemma_find_device_bounds<S>(devices: Seq<MountDevice<S>>, id: Seq<char>, from: int)
    ensures
        find_device(devices, id, from) matches Some(i) ==> from <= i < devices.len(),
    decreases devices.len() - from,
{
    if 0 <= from < devices.len() && devices[from].id@ != id {
        lemma_find_device_bounds(devices, id, from + 1);
    }
}

/// Sets property `name` of the device `device_id` to `value`. Empty fields are refused, an
/// unknown device too; otherwise the device's own update decides.
pub fn set_property<S: SerialLink>(
    devices: &mut Vec<MountDevice<S>>,
    device_id: &str,
    name: &str,
    value: &str,
) -> (r: Result<(), DeviceError>)
    ensures
        device_id@.len() == 0 || name@.len() == 0 || value@.len() == 0 ==> r == Err::<
            (),
            DeviceError,
        >(DeviceError::InvalidValue) && final(devices)@ == old(devices)@,
        device_id@.len() > 0 && name@.len() > 0 && value@.len() > 0 ==> match find_device(
            old(devices)@,
            device_id@,
            0,
        ) {
            None => r == Err::<(), DeviceError>(DeviceError::UnknownDevice) && final(devices)@
                == old(devices)@,
            Some(i) => {
                &&& final(devices)@.len() == old(devices)@.len()
                &&& forall|k: int|
                    0 <= k < old(devices)@.len() && k != i ==> final(devices)@[k]
                        == old(devices)@[k]
                &&& old(devices)@[i].update_outcome(final(devices)@[i], name@, value@, r)
            },
        },
{
    if device_id.unicode_len() == 0 || name.unicode_len() == 0 || value.unicode_len() == 0 {
        return Err(DeviceError::InvalidValue);
    }
    let mut i: usize = 0;
    while i < devices.len()
        invariant
            i <= devices@.len(),
            devices@ == old(devices)@,
            device_id@.len() > 0 && name@.len() > 0 && value@.len() > 0,
            find_device(devices@, device_id@, 0) == find_device(devices@, device_id@, i as int),
        decreases devices.len() - i,
    {
        if same_text(devices[i].id.as_str(), device_id) {
            let ghost before = devices@;
            let mut d = devices.remove(i);
            let r = d.update_property(name, value);
            devices.insert(i, d);
            proof {
                assert forall|k: int| 0 <= k < before.len() && k != i implies devices@[k]
                    == before[k] by {}
            }
            return r;
        }
        i = i + 1;
    }
    Err(DeviceError::UnknownDevice)
}

} // verus!
