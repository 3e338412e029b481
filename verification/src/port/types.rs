//! The values that the surroundings of the engine exchange with it.

use vstd::prelude::*;
use vstd::utf8::{decode_utf8, valid_utf8};

use crate::protocol::device::{UsbDeviceDescriptor, UsbDeviceSpeed};
use crate::text::{law_trailing_nuls, trim_trailing_nuls, without_trailing_nuls};

verus! {

/// When a session counts as started.
#[derive(Debug, Clone, Copy, PartialEq, Eq, Hash)]
pub enum SignalMode {
    Eager,
    Confirmed,
}

/// A change in the USB devices of a host.
#[derive(Debug, Clone, PartialEq, Eq, Hash)]
pub enum UsbEvent {
    Connected(UsbDevice),
    Disconnected { busid: String },
}

/// A USB device of a host.
#[derive(Debug, PartialEq, Eq, Hash)]
pub struct UsbDevice {
    pub busid: String,
    pub vid: u16,
    pub pid: u16,
    pub manufacturer: Option<String>,
    pub product: Option<String>,
    pub busnum: u32,
    pub devnum: u32,
    pub speed: UsbDeviceSpeed,
    pub b_device_class: u8,
    pub b_device_sub_class: u8,
    pub b_device_protocol: u8,
}

fn copy_text(text: &Option<String>) -> (copy: Option<String>)
    ensures
        copy == *text,
{
    match text {
        Some(text) => Some(text.clone()),
        None => None,
    }
}

impl Clone for UsbDevice {
    fn clone(&self) -> (copy: Self)
        ensures
            copy == *self,
    {
        UsbDevice {
            busid: self.busid.clone(),
            vid: self.vid,
            pid: self.pid,
            manufacturer: copy_text(&self.manufacturer),
            product: copy_text(&self.product),
            busnum: self.busnum,
            devnum: self.devnum,
            speed: self.speed,
            b_device_class: self.b_device_class,
            b_device_sub_class: self.b_device_sub_class,
            b_device_protocol: self.b_device_protocol,
        }
    }
}

/// The text that `String::from_utf8_lossy` makes of bytes.
pub uninterp spec fn lossy_text(bytes: Seq<u8>) -> Seq<char>;

/// Calls `String::from_utf8_lossy`. The text depends on the bytes alone, and where they are
/// UTF-8 it is the text that they encode. Where they are not, the replacement characters that
/// the text holds are not stated.
#[verifier::external_body]
fn read_lossy(bytes: &[u8]) -> (text: String)
    ensures
        text@ == lossy_text(bytes@),
        valid_utf8(bytes@) ==> text@ == decode_utf8(bytes@),
{
    String::from_utf8_lossy(bytes).into_owned()
}

/// Whether `device` is the device that `d` describes, under the bus id that `text` holds before
/// the NUL characters at its end.
pub open spec fn is_described(device: UsbDevice, d: UsbDeviceDescriptor, text: Seq<char>) -> bool {
    &&& device.busid@ == without_trailing_nuls(text)
    &&& device.vid == d.id_vendor
    &&& device.pid == d.id_product
    &&& device.manufacturer is None
    &&& device.product is None
    &&& device.busnum == d.busnum
    &&& device.devnum == d.devnum
    &&& device.speed == d.speed
    &&& device.b_device_class == d.b_device_class
    &&& device.b_device_sub_class == d.b_device_sub_class
    &&& device.b_device_protocol == d.b_device_protocol
}

/// Takes a device over from its descriptor, with the text of its bus id.
pub fn described_device(d: &UsbDeviceDescriptor, text: &str) -> (device: UsbDevice)
    ensures
        is_described(device, *d, text@),
{
    UsbDevice {
        busid: trim_trailing_nuls(text),
        vid: d.id_vendor,
        pid: d.id_product,
        manufacturer: None,
        product: None,
        busnum: d.busnum,
        devnum: d.devnum,
        speed: d.speed,
        b_device_class: d.b_device_class,
        b_device_sub_class: d.b_device_sub_class,
        b_device_protocol: d.b_device_protocol,
    }
}

impl vstd::std_specs::convert::FromSpecImpl<UsbDeviceDescriptor> for UsbDevice {
    open spec fn obeys_from_spec() -> bool {
        false
    }

    open spec fn from_spec(d: UsbDeviceDescriptor) -> Self {
        arbitrary()
    }
}

/// Takes a device over from its descriptor. What is not UTF-8 in the bus id is replaced.
impl From<UsbDeviceDescriptor> for UsbDevice {
    fn from(d: UsbDeviceDescriptor) -> (device: Self)
        ensures
            is_described(device, d, lossy_text(d.busid@)),
            valid_utf8(d.busid@) ==> is_described(device, d, decode_utf8(d.busid@)),
    {
        let text = read_lossy(d.busid.as_slice());
        described_device(&d, text.as_str())
    }
}

/// A device is what its descriptor says, field by field, and nothing is made up: its maker and
/// its product are left open, and its bus id is the text up to the NUL characters at the end.
pub proof fn law_described(device: UsbDevice, d: UsbDeviceDescriptor, text: Seq<char>)
    requires
        is_described(device, d, text),
    ensures
        device.vid == d.id_vendor,
        device.pid == d.id_product,
        device.manufacturer is None,
        device.product is None,
        device.busnum == d.busnum,
        device.devnum == d.devnum,
        device.speed == d.speed,
        device.b_device_class == d.b_device_class,
        device.b_device_sub_class == d.b_device_sub_class,
        device.b_device_protocol == d.b_device_protocol,
        device.busid@.len() <= text.len(),
        device.busid@ == text.take(device.busid@.len() as int),
        device.busid@.len() > 0 ==> device.busid@.last() != '\0',
        forall|i: int| device.busid@.len() <= i < text.len() ==> #[trigger] text[i] == '\0',
{
    law_trailing_nuls(text);
}

} // verus!
