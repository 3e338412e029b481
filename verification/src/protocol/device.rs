//! The devices that a server offers.

use vstd::prelude::*;

use crate::protocol::codec::ProtocolError;
use crate::protocol::wire::OpRepImport;

verus! {

/// The speed of a USB device. On the wire the speeds are numbered from 1, slowest first: use
/// [`UsbDeviceSpeed::to_u32`] for the number, and never a cast, which counts from 0.
#[derive(Debug, Clone, Copy, PartialEq, Eq, Hash)]
pub enum UsbDeviceSpeed {
    LowSpeed,
    FullSpeed,
    HighSpeed,
    SuperSpeed,
}

impl UsbDeviceSpeed {
    /// The number that stands for the speed on the wire.
    pub open spec fn number(self) -> u32 {
        match self {
            UsbDeviceSpeed::LowSpeed => 1,
            UsbDeviceSpeed::FullSpeed => 2,
            UsbDeviceSpeed::HighSpeed => 3,
            UsbDeviceSpeed::SuperSpeed => 4,
        }
    }

    /// The number that stands for the speed on the wire.
    pub fn to_u32(self) -> (value: u32)
        ensures
            value == self.number(),
    {
        match self {
            UsbDeviceSpeed::LowSpeed => 1,
            UsbDeviceSpeed::FullSpeed => 2,
            UsbDeviceSpeed::HighSpeed => 3,
            UsbDeviceSpeed::SuperSpeed => 4,
        }
    }
}

/// The speed that `value` stands for, if there is one.
pub open spec fn speed_of(value: u32) -> Option<UsbDeviceSpeed> {
    if value == 1 {
        Some(UsbDeviceSpeed::LowSpeed)
    } else if value == 2 {
        Some(UsbDeviceSpeed::FullSpeed)
    } else if value == 3 {
        Some(UsbDeviceSpeed::HighSpeed)
    } else if value == 4 {
        Some(UsbDeviceSpeed::SuperSpeed)
    } else {
        None
    }
}

/// A speed is found again by its number, and a number by its speed.
pub proof fn law_speed_numbers(speed: UsbDeviceSpeed, value: u32)
    ensures
        speed_of(speed.number()) == Some(speed),
        speed_of(value) matches Some(found) ==> found.number() == value,
        speed_of(value) is Some <==> 1 <= value <= 4,
{
}

impl vstd::std_specs::convert::TryFromSpecImpl<u32> for UsbDeviceSpeed {
    open spec fn obeys_try_from_spec() -> bool {
        true
    }

    open spec fn try_from_spec(value: u32) -> Result<Self, ProtocolError> {
        match speed_of(value) {
            Some(speed) => Ok(speed),
            None => Err(ProtocolError::InvalidDeviceSpeed { value }),
        }
    }
}

impl TryFrom<u32> for UsbDeviceSpeed {
    type Error = ProtocolError;

    fn try_from(value: u32) -> (result: Result<Self, ProtocolError>) {
        match value {
            1 => Ok(UsbDeviceSpeed::LowSpeed),
            2 => Ok(UsbDeviceSpeed::FullSpeed),
            3 => Ok(UsbDeviceSpeed::HighSpeed),
            4 => Ok(UsbDeviceSpeed::SuperSpeed),
            _ => Err(ProtocolError::InvalidDeviceSpeed { value }),
        }
    }
}

/// What is known of an imported device.
#[derive(Debug, Clone, PartialEq, Eq)]
pub struct UsbDeviceDescriptor {
    pub path: [u8; 256],
    pub busid: [u8; 32],
    pub busnum: u32,
    pub devnum: u32,
    pub speed: UsbDeviceSpeed,
    pub id_vendor: u16,
    pub id_product: u16,
    pub bcd_device: u16,
    pub b_device_class: u8,
    pub b_device_sub_class: u8,
    pub b_device_protocol: u8,
    pub b_configuration_value: u8,
    pub b_num_configurations: u8,
    pub b_num_interfaces: u8,
}

impl vstd::std_specs::convert::FromSpecImpl<OpRepImport> for UsbDeviceDescriptor {
    open spec fn obeys_from_spec() -> bool {
        true
    }

    open spec fn from_spec(rep: OpRepImport) -> Self {
        UsbDeviceDescriptor {
            path: rep.path,
            busid: rep.busid,
            busnum: rep.busnum,
            devnum: rep.devnum,
            speed: match speed_of(rep.speed) {
                Some(speed) => speed,
                None => UsbDeviceSpeed::HighSpeed,
            },
            id_vendor: rep.id_vendor,
            id_product: rep.id_product,
            bcd_device: rep.bcd_device,
            b_device_class: rep.b_device_class,
            b_device_sub_class: rep.b_device_sub_class,
            b_device_protocol: rep.b_device_protocol,
            b_configuration_value: rep.b_configuration_value,
            b_num_configurations: rep.b_num_configurations,
            b_num_interfaces: rep.b_num_interfaces,
        }
    }
}

/// Takes the description over from an import reply. A speed that is not known counts as
/// high speed.
impl From<OpRepImport> for UsbDeviceDescriptor {
    fn from(rep: OpRepImport) -> (descriptor: Self) {
        let speed = match UsbDeviceSpeed::try_from(rep.speed) {
            Ok(speed) => speed,
            Err(_) => UsbDeviceSpeed::HighSpeed,
        };
        UsbDeviceDescriptor {
            path: rep.path,
            busid: rep.busid,
            busnum: rep.busnum,
            devnum: rep.devnum,
            speed,
            id_vendor: rep.id_vendor,
            id_product: rep.id_product,
            bcd_device: rep.bcd_device,
            b_device_class: rep.b_device_class,
            b_device_sub_class: rep.b_device_sub_class,
            b_device_protocol: rep.b_device_protocol,
            b_configuration_value: rep.b_configuration_value,
            b_num_configurations: rep.b_num_configurations,
            b_num_interfaces: rep.b_num_interfaces,
        }
    }
}

/// What a value stands for as a speed, and what is said of one that stands for none.
pub proof fn law_speeds_are_read(value: u32)
    ensures
        ({
            let read = <UsbDeviceSpeed as vstd::std_specs::convert::TryFromSpec<
                u32,
            >>::try_from_spec(value);
            match read {
                Ok(speed) => 1 <= value <= 4 && speed.number() == value,
                Err(error) => (value == 0 || value > 4) && error
                    == (ProtocolError::InvalidDeviceSpeed { value }),
            }
        }),
{
}

/// A descriptor says of the device what the reply said, field by field, but for a speed that is
/// not known.
pub proof fn law_descriptor(rep: OpRepImport)
    ensures
        ({
            let d = <UsbDeviceDescriptor as vstd::std_specs::convert::FromSpec<
                OpRepImport,
            >>::from_spec(rep);
            &&& d.path == rep.path
            &&& d.busid == rep.busid
            &&& d.busnum == rep.busnum
            &&& d.devnum == rep.devnum
            &&& d.id_vendor == rep.id_vendor
            &&& d.id_product == rep.id_product
            &&& d.bcd_device == rep.bcd_device
            &&& d.b_device_class == rep.b_device_class
            &&& d.b_device_sub_class == rep.b_device_sub_class
            &&& d.b_device_protocol == rep.b_device_protocol
            &&& d.b_configuration_value == rep.b_configuration_value
            &&& d.b_num_configurations == rep.b_num_configurations
            &&& d.b_num_interfaces == rep.b_num_interfaces
            &&& 1 <= rep.speed <= 4 ==> d.speed.number() == rep.speed
            &&& !(1 <= rep.speed <= 4) ==> d.speed is HighSpeed
        }),
{
}

} // verus!
