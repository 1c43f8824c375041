use gpu_switcher::pci::{
    BindError, PCIBusId, PCIDevice, PCIDeviceId, PCIFindDeviceError, SlotSearchError,
};
use gpu_switcher::system::{
    Action, IoError, IoErrorKind, PCIEnumerationError, Reply, Transcript, UdevDevice,
};

fn bus(domain: u16, bus: u8, device: u8, function: u8) -> PCIBusId {
    PCIBusId { domain, bus, device, function }
}

fn transcript(replies: Vec<Reply>) -> Transcript {
    Transcript { replies }
}

fn names(list: &[&str]) -> Reply {
    Reply::Names(Ok(list.iter().map(|s| s.to_string()).collect()))
}

fn text(s: &str) -> Reply {
    Reply::Text(Ok(s.to_string()))
}

fn listed(slot_name: Option<&str>, pci_id: Option<&str>) -> UdevDevice {
    UdevDevice {
        slot_name: slot_name.map(|s| s.to_string()),
        pci_id: pci_id.map(|s| s.to_string()),
    }
}

fn devices(list: Vec<UdevDevice>) -> Reply {
    Reply::Devices(Ok(list))
}

const FAILURE: IoError = IoError { kind: IoErrorKind::Other, ticket: 7 };

#[test]
fn configured_device_path_is_read() {
    assert_eq!(PCIBusId::try_from("0000:64:00.0"), Ok(bus(0, 0x64, 0, 0)));
    assert_eq!(PCIBusId::try_from("abcd:EF:1f.7"), Ok(bus(0xabcd, 0xef, 0x1f, 7)));
}

#[test]
fn short_fields_are_filled_with_zeros() {
    assert_eq!(PCIBusId::try_from("1:2:3.4"), Ok(bus(1, 2, 3, 4)));
    assert_eq!(PCIBusId::try_from("::."), Ok(bus(0, 0, 0, 0)));
    assert_eq!(PCIBusId::try_from("abc:1:2"), Ok(bus(0xabc, 1, 2, 0)));
}

#[test]
fn function_may_be_left_out() {
    assert_eq!(PCIBusId::try_from("0000:64:00"), Ok(bus(0, 0x64, 0, 0)));
}

#[test]
fn long_fields_count_with_their_first_byte() {
    assert_eq!(PCIBusId::try_from("0000:6412:0134.0256"), Ok(bus(0, 0x64, 1, 2)));
    assert!(PCIBusId::try_from("0000:641:00.0").is_err());
}

#[test]
fn long_domain_is_refused() {
    assert!(PCIBusId::try_from("000000:64:00.0").is_err());
    assert!(PCIBusId::try_from("00000:64:00.0").is_err());
}

#[test]
fn other_text_is_no_bus_id() {
    for s in ["", "0000", "0000:64", "0000:64:0g.0", "64:00.0", "0000:64:00.0.0", "0000:é:00.0"] {
        assert!(PCIBusId::try_from(s).is_err(), "{}", s);
    }
    let e = PCIBusId::try_from("").unwrap_err();
    assert_eq!(e.to_string(), "InvalidPCIBusIdError");
}

#[test]
fn device_id_is_read() {
    let id = PCIDeviceId { vendor_id: 0x10de, product_id: 0x2f58 };
    assert_eq!(PCIDeviceId::try_from("10DE:2F58"), Ok(id));
    assert_eq!(PCIDeviceId::try_from("10de:2f58"), Ok(id));
    assert_eq!(
        PCIDeviceId::try_from("8:"),
        Ok(PCIDeviceId { vendor_id: 8, product_id: 0 })
    );
    assert_eq!(
        PCIDeviceId::try_from("10de12:2f58ab"),
        Ok(PCIDeviceId { vendor_id: 0x10de, product_id: 0x2f58 })
    );
}

#[test]
fn other_text_is_no_device_id() {
    for s in ["", "10de", "10de:2f5g", "10de1:2f58", "10de:2f58:0"] {
        assert!(PCIDeviceId::try_from(s).is_err(), "{}", s);
    }
    let e = PCIDeviceId::try_from("").unwrap_err();
    assert_eq!(e.to_string(), "InvalidPCIDeviceIdError");
}

#[test]
fn bus_id_is_written() {
    assert_eq!(bus(0, 0x64, 0, 0).to_string(), "0000:64:00.0");
    assert_eq!(bus(0xabcd, 0xef, 0x1f, 7).to_string(), "abcd:ef:1f.7");
    assert_eq!(bus(0, 1, 2, 0x1f).to_string(), "0000:01:02.1f");
}

#[test]
fn written_bus_id_reads_back() {
    for id in [bus(0, 0x64, 0, 0), bus(0xffff, 0xff, 0xff, 0xff), bus(1, 2, 3, 16)] {
        assert_eq!(PCIBusId::try_from(id.to_string().as_str()), Ok(id));
    }
}

#[test]
fn device_is_shown_in_its_directory() {
    let device = PCIDevice { bus_id: bus(0, 0x64, 0, 0), device_id: None, slot: None };
    assert_eq!(device.sysfs_path(), "/sys/bus/pci/devices/0000:64:00.0");
    assert_eq!(device.bus_id.with_function(1).to_string(), "0000:64:00.1");
}

#[test]
fn device_is_found_in_its_slot() {
    let t = transcript(vec![
        names(&["0-1", "0-2"]),
        text("0000:01:00\n"),
        text(" 0000:64:00\n"),
        devices(vec![
            listed(None, Some("10de:0001")),
            listed(Some("0000:64:00.0"), None),
            listed(Some("0000:64:00.0"), Some("nothing")),
            listed(Some("0000:63:00.0"), Some("10de:0002")),
            listed(Some("0000:64:00.0"), Some("10DE:2F58")),
            listed(Some("0000:64:00.0"), Some("10de:0003")),
        ]),
    ]);
    let (found, n) = PCIDevice::find_device(&t, 0, bus(0, 0x64, 0, 0)).unwrap();
    assert_eq!(n, 4);
    assert_eq!(
        found.unwrap(),
        PCIDevice {
            bus_id: bus(0, 0x64, 0, 0),
            device_id: Some(PCIDeviceId { vendor_id: 0x10de, product_id: 0x2f58 }),
            slot: Some("/sys/bus/pci/slots/0-2".to_string()),
        }
    );
}

#[test]
fn device_in_a_slot_needs_no_device_manager() {
    let t = transcript(vec![
        names(&["0-2"]),
        text("0000:64:00"),
        Reply::Devices(Err(PCIEnumerationError::Udev(FAILURE))),
    ]);
    let (found, _) = PCIDevice::find_device(&t, 0, bus(0, 0x64, 0, 0)).unwrap();
    let device = found.unwrap();
    assert_eq!(device.device_id, None);
    assert_eq!(device.slot.as_deref(), Some("/sys/bus/pci/slots/0-2"));
}

#[test]
fn device_without_a_slot_is_found_by_the_device_manager() {
    let t = transcript(vec![
        names(&[]),
        devices(vec![listed(Some("0000:64:00.1"), Some("10de:22ba"))]),
    ]);
    let (found, n) = PCIDevice::find_device(&t, 0, bus(0, 0x64, 0, 1)).unwrap();
    assert_eq!(n, 2);
    assert_eq!(
        found.unwrap(),
        PCIDevice {
            bus_id: bus(0, 0x64, 0, 1),
            device_id: Some(PCIDeviceId { vendor_id: 0x10de, product_id: 0x22ba }),
            slot: None,
        }
    );
}

#[test]
fn search_asks_in_order() {
    let at = bus(0, 0x64, 0, 0);
    let mut t = Transcript::new();
    let action = PCIDevice::find_device(&t, 0, at).unwrap_err();
    assert_eq!(action, Action::List { path: "/sys/bus/pci/slots".to_string() });
    assert!(t.record(&action, names(&["0-1"])));
    let action = PCIDevice::find_device(&t, 0, at).unwrap_err();
    assert_eq!(action, Action::Read { path: "/sys/bus/pci/slots/0-1/address".to_string() });
    assert!(t.record(&action, text("0000:01:00")));
    let action = PCIDevice::find_device(&t, 0, at).unwrap_err();
    assert_eq!(action, Action::ScanPci);
}

#[test]
fn failed_search_says_why() {
    let at = bus(0, 0x64, 0, 0);
    let find = |replies: Vec<Reply>| {
        let t = transcript(replies);
        PCIDevice::find_device(&t, 0, at).unwrap().0.unwrap_err()
    };
    assert!(matches!(
        find(vec![Reply::Names(Err(FAILURE))]),
        PCIFindDeviceError::SlotEnumeration(FAILURE)
    ));
    assert!(matches!(
        find(vec![names(&["0-1"]), Reply::Text(Err(FAILURE))]),
        PCIFindDeviceError::SlotAddressFetch(FAILURE)
    ));
    match find(vec![names(&["0-1"]), text("none")]) {
        PCIFindDeviceError::InvalidSlotAddress(slot) => {
            assert_eq!(slot, "/sys/bus/pci/slots/0-1");
        }
        e => panic!("{:?}", e),
    }
    assert!(matches!(
        find(vec![names(&[]), Reply::Devices(Err(PCIEnumerationError::Udev(FAILURE)))]),
        PCIFindDeviceError::Udev(FAILURE)
    ));
    assert!(matches!(
        find(vec![names(&[]), Reply::Devices(Err(PCIEnumerationError::Subsystem(FAILURE)))]),
        PCIFindDeviceError::Subsystem(FAILURE)
    ));
    assert!(matches!(
        find(vec![names(&[]), Reply::Devices(Err(PCIEnumerationError::DeviceScan(FAILURE)))]),
        PCIFindDeviceError::DeviceScan(FAILURE)
    ));
    assert!(matches!(
        find(vec![names(&[]), devices(vec![])]),
        PCIFindDeviceError::DeviceNotFound
    ));
}

#[test]
fn slot_search_stops_at_the_first_bad_address() {
    let t = transcript(vec![text(""), text("0000:64:00")]);
    let list = vec!["a".to_string(), "b".to_string()];
    let (r, n) = gpu_switcher::pci::search_slots(&t, 0, bus(0, 0x64, 0, 0), &list).unwrap();
    assert_eq!(n, 1);
    match r.unwrap_err() {
        SlotSearchError::InvalidAddress(slot) => assert_eq!(slot, "/sys/bus/pci/slots/a"),
        e => panic!("{:?}", e),
    }
}

fn gpu() -> PCIDevice {
    PCIDevice {
        bus_id: bus(0, 0x64, 0, 0),
        device_id: Some(PCIDeviceId { vendor_id: 0x10de, product_id: 0x2f58 }),
        slot: None,
    }
}

#[test]
fn binding_adds_the_id_and_binds() {
    let mut t = Transcript::new();
    let action = gpu().bind_vfio(&t, 0).unwrap_err();
    assert_eq!(
        action,
        Action::Write {
            path: "/sys/bus/pci/drivers/vfio-pci/new_id".to_string(),
            contents: "10de 2f58".to_string(),
        }
    );
    let known = IoError { kind: IoErrorKind::AlreadyExists, ticket: 1 };
    assert!(t.record(&action, Reply::Done(Err(known))));
    let action = gpu().bind_vfio(&t, 0).unwrap_err();
    assert_eq!(
        action,
        Action::Resolve { path: "/sys/bus/pci/devices/0000:64:00.0/driver".to_string() }
    );
    assert!(t.record(&action, Reply::Text(Err(FAILURE))));
    let action = gpu().bind_vfio(&t, 0).unwrap_err();
    assert_eq!(
        action,
        Action::Write {
            path: "/sys/bus/pci/drivers/vfio-pci/bind".to_string(),
            contents: "0000:64:00.0".to_string(),
        }
    );
    assert!(t.record(&action, Reply::Done(Ok(()))));
    assert!(matches!(gpu().bind_vfio(&t, 0), Ok((Ok(()), 3))));
}

#[test]
fn bound_device_is_not_bound_again() {
    let t = transcript(vec![Reply::Done(Ok(())), text("/sys/bus/pci/drivers/vfio-pci")]);
    assert!(matches!(gpu().bind_vfio(&t, 0), Ok((Ok(()), 2))));
}

#[test]
fn failed_binding_says_why() {
    let unknown = PCIDevice { device_id: None, ..gpu() };
    let t = Transcript::new();
    assert!(matches!(unknown.bind_vfio(&t, 0), Ok((Err(BindError::NotConnected), 0))));
    let t = transcript(vec![Reply::Done(Err(FAILURE))]);
    assert!(matches!(gpu().bind_vfio(&t, 0), Ok((Err(BindError::Io(FAILURE)), 1))));
    let t = transcript(vec![
        Reply::Done(Ok(())),
        text("/sys/bus/pci/drivers/nvidia"),
        Reply::Done(Err(FAILURE)),
    ]);
    assert!(matches!(gpu().bind_vfio(&t, 0), Ok((Err(BindError::Io(FAILURE)), 3))));
}

#[test]
fn unbinding_and_removing_write_to_the_device() {
    let t = Transcript::new();
    assert_eq!(
        gpu().unbind(&t, 0).unwrap_err(),
        Action::Write {
            path: "/sys/bus/pci/devices/0000:64:00.0/driver/unbind".to_string(),
            contents: "0000:64:00.0".to_string(),
        }
    );
    assert_eq!(
        gpu().remove(&t, 0).unwrap_err(),
        Action::Write {
            path: "/sys/bus/pci/devices/0000:64:00.0/remove".to_string(),
            contents: "1".to_string(),
        }
    );
}

#[test]
fn driver_is_named_by_the_end_of_its_path() {
    let t = transcript(vec![text("/sys/bus/pci/drivers/nvidia")]);
    assert!(matches!(gpu().get_driver(&t, 0), Ok((Ok("nvidia"), 1))));
    let t = transcript(vec![Reply::Text(Err(FAILURE))]);
    assert!(matches!(gpu().get_driver(&t, 0), Ok((Err(FAILURE), 1))));
}
