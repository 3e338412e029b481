use easy_usb_core::port::types::described_device;
use easy_usb_core::port::{
    DiscoveryError, IpcError, SessionSignalError, SignalMode, UsbDevice, UsbEvent, UsbHostError,
};
use easy_usb_core::protocol::{OpRepImport, ProtocolError, UsbDeviceDescriptor, UsbDeviceSpeed};

fn make_device(busid: &str, vid: u16, pid: u16) -> UsbDevice {
    UsbDevice {
        busid: busid.to_string(),
        vid,
        pid,
        manufacturer: None,
        product: None,
        busnum: 1,
        devnum: 1,
        speed: UsbDeviceSpeed::HighSpeed,
        b_device_class: 0,
        b_device_sub_class: 0,
        b_device_protocol: 0,
    }
}

fn make_descriptor(busid: &[u8]) -> UsbDeviceDescriptor {
    UsbDeviceDescriptor {
        path: [0u8; 256],
        busid: {
            let mut b = [0u8; 32];
            b[..busid.len()].copy_from_slice(busid);
            b
        },
        busnum: 1,
        devnum: 3,
        speed: UsbDeviceSpeed::HighSpeed,
        id_vendor: 0x1234,
        id_product: 0x5678,
        bcd_device: 0x0200,
        b_device_class: 0x00,
        b_device_sub_class: 0x00,
        b_device_protocol: 0x00,
        b_configuration_value: 1,
        b_num_configurations: 1,
        b_num_interfaces: 2,
    }
}

fn make_reply(speed: u32) -> OpRepImport {
    OpRepImport {
        status: 0,
        path: [1; 256],
        busid: [2; 32],
        busnum: 3,
        devnum: 4,
        speed,
        id_vendor: 5,
        id_product: 6,
        bcd_device: 7,
        b_device_class: 8,
        b_device_sub_class: 9,
        b_device_protocol: 10,
        b_configuration_value: 11,
        b_num_configurations: 12,
        b_num_interfaces: 13,
    }
}

#[test]
fn usb_device_from_descriptor() {
    let desc = make_descriptor(b"1-2.3");
    let device = UsbDevice::from(desc);
    assert_eq!(device.busid, "1-2.3");
    assert_eq!(device.vid, 0x1234);
    assert_eq!(device.pid, 0x5678);
    assert_eq!(device.speed, UsbDeviceSpeed::HighSpeed);
    assert!(device.manufacturer.is_none());
    assert!(device.product.is_none());
}

#[test]
fn usb_device_busid_is_read_leniently() {
    // Bytes that are not UTF-8 are replaced.
    let device = UsbDevice::from(make_descriptor(b"a\xFFb"));
    assert_eq!(device.busid, "a\u{FFFD}b");
    // NUL characters are dropped at the end only.
    let device = UsbDevice::from(make_descriptor(b"a\0b\0"));
    assert_eq!(device.busid, "a\0b");
    let device = UsbDevice::from(make_descriptor(b""));
    assert_eq!(device.busid, "");
    let device = UsbDevice::from(make_descriptor("\u{e9}-1".as_bytes()));
    assert_eq!(device.busid, "\u{e9}-1");

    let device = described_device(&make_descriptor(b"x"), "1-4\0\0");
    assert_eq!(device.busid, "1-4");
    assert_eq!(device.devnum, 3);
}

#[test]
fn error_types_derive_debug_clone_eq() {
    let e1 = UsbHostError::DeviceNotFound {
        busid: "1-1".to_string(),
    };
    let e2 = e1.clone();
    assert_eq!(e1, e2);
    let _ = format!("{:?}", e1);

    let e1 = DiscoveryError::ScanFailed("err".to_string());
    let e2 = e1.clone();
    assert_eq!(e1, e2);
    let _ = format!("{:?}", e1);

    let e1 = IpcError::AlreadyServing;
    let e2 = e1.clone();
    assert_eq!(e1, e2);
    let _ = format!("{:?}", e1);

    let e1 = SessionSignalError::AlreadyRegistered;
    let e2 = e1.clone();
    assert_eq!(e1, e2);
    let _ = format!("{:?}", e1);
}

#[test]
fn devices_and_events_derive_debug_clone_eq() {
    let dev = make_device("1-1", 1, 2);
    let dev2 = dev.clone();
    assert_eq!(dev, dev2);

    let event = UsbEvent::Connected(make_device("1-1", 1, 2));
    let event2 = event.clone();
    assert_eq!(event, event2);

    let event = UsbEvent::Disconnected {
        busid: "1-1".to_string(),
    };
    let event2 = event.clone();
    assert_eq!(event, event2);
}

#[test]
fn port_error_messages() {
    let busid = || "1-1".to_string();
    assert_eq!(UsbHostError::Io("x".into()).to_string(), "I/O error: x");
    assert_eq!(
        UsbHostError::DeviceNotFound { busid: busid() }.to_string(),
        "device not found: 1-1"
    );
    assert_eq!(
        UsbHostError::DeviceInUse { busid: busid() }.to_string(),
        "device already in use: 1-1"
    );
    assert_eq!(
        UsbHostError::PlatformError("x".into()).to_string(),
        "platform error: x"
    );
    assert_eq!(IpcError::BindFailed("x".into()).to_string(), "bind failed: x");
    assert_eq!(
        IpcError::RouteNotFound { path: "/p".into() }.to_string(),
        "route not found: /p"
    );
    assert_eq!(
        IpcError::ShutdownFailed("x".into()).to_string(),
        "shutdown failed: x"
    );
    assert_eq!(IpcError::AlreadyServing.to_string(), "already serving");
    assert_eq!(
        DiscoveryError::AdvertiseFailed("x".into()).to_string(),
        "advertise failed: x"
    );
    assert_eq!(DiscoveryError::ScanFailed("x".into()).to_string(), "scan failed: x");
    assert_eq!(
        DiscoveryError::WithdrawFailed("x".into()).to_string(),
        "withdraw failed: x"
    );
    assert_eq!(
        DiscoveryError::NotInitialized("x".into()).to_string(),
        "not initialized: x"
    );
    assert_eq!(
        SessionSignalError::SignalFailed("x".into()).to_string(),
        "signal failed: x"
    );
    assert_eq!(
        SessionSignalError::AlreadyRegistered.to_string(),
        "already registered"
    );
    assert_eq!(SessionSignalError::NotRegistered.to_string(), "not registered");
    assert_ne!(SignalMode::Eager, SignalMode::Confirmed);
}

#[test]
fn device_speeds() {
    assert_eq!(UsbDeviceSpeed::try_from(1), Ok(UsbDeviceSpeed::LowSpeed));
    assert_eq!(UsbDeviceSpeed::try_from(2), Ok(UsbDeviceSpeed::FullSpeed));
    assert_eq!(UsbDeviceSpeed::try_from(3), Ok(UsbDeviceSpeed::HighSpeed));
    assert_eq!(UsbDeviceSpeed::try_from(4), Ok(UsbDeviceSpeed::SuperSpeed));
    for value in [0, 5, u32::MAX] {
        assert_eq!(
            UsbDeviceSpeed::try_from(value),
            Err(ProtocolError::InvalidDeviceSpeed { value })
        );
    }
    for value in 1..5 {
        assert_eq!(UsbDeviceSpeed::try_from(value).unwrap().to_u32(), value);
    }
}

#[test]
fn descriptor_from_reply() {
    let descriptor = UsbDeviceDescriptor::from(make_reply(1));
    assert_eq!(descriptor.speed, UsbDeviceSpeed::LowSpeed);
    assert_eq!(descriptor.path, [1; 256]);
    assert_eq!(descriptor.busid, [2; 32]);
    assert_eq!(descriptor.busnum, 3);
    assert_eq!(descriptor.devnum, 4);
    assert_eq!(descriptor.id_vendor, 5);
    assert_eq!(descriptor.id_product, 6);
    assert_eq!(descriptor.bcd_device, 7);
    assert_eq!(descriptor.b_device_class, 8);
    assert_eq!(descriptor.b_device_sub_class, 9);
    assert_eq!(descriptor.b_device_protocol, 10);
    assert_eq!(descriptor.b_configuration_value, 11);
    assert_eq!(descriptor.b_num_configurations, 12);
    assert_eq!(descriptor.b_num_interfaces, 13);
    // A speed that is not known counts as high speed.
    let descriptor = UsbDeviceDescriptor::from(make_reply(9));
    assert_eq!(descriptor.speed, UsbDeviceSpeed::HighSpeed);
}
