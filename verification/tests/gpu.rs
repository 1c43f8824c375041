use gpu_switcher::gpu::{parse_drm_nodes, GpuDevice, GpuDeviceCreationError, UnbindError};
use gpu_switcher::pci::{BindError, PCIBusId, PCIDevice, PCIDeviceId};
use gpu_switcher::system::{Action, IoError, IoErrorKind, Reply, Transcript, UdevDevice};

const GPU: PCIBusId = PCIBusId { domain: 0, bus: 0x64, device: 0, function: 0 };
const FAILURE: IoError = IoError { kind: IoErrorKind::Other, ticket: 3 };
const SECOND: IoError = IoError { kind: IoErrorKind::Other, ticket: 4 };

fn strings(list: &[&str]) -> Vec<String> {
    list.iter().map(|s| s.to_string()).collect()
}

fn names(list: &[&str]) -> Reply {
    Reply::Names(Ok(strings(list)))
}

fn text(s: &str) -> Reply {
    Reply::Text(Ok(s.to_string()))
}

fn write(path: &str, contents: &str) -> Action {
    Action::Write { path: path.to_string(), contents: contents.to_string() }
}

fn device() -> PCIDevice {
    PCIDevice {
        bus_id: GPU,
        device_id: Some(PCIDeviceId { vendor_id: 0x10de, product_id: 0x2f58 }),
        slot: Some("/sys/bus/pci/slots/0-2".to_string()),
    }
}

fn audio() -> PCIDevice {
    PCIDevice {
        bus_id: GPU.with_function(1),
        device_id: Some(PCIDeviceId { vendor_id: 0x10de, product_id: 0x22ba }),
        slot: None,
    }
}

fn gpu(audio_pci: Option<PCIDevice>) -> GpuDevice {
    GpuDevice {
        pci: device(),
        audio_pci,
        cards: vec![0, 12],
        render_devices: vec![128],
        gpu_slot: Some("/sys/bus/pci/slots/0-2".to_string()),
    }
}

#[test]
fn nodes_are_told_by_their_names() {
    let (cards, renders) = parse_drm_nodes(&strings(&["card1", "renderD129"])).unwrap();
    assert_eq!((cards, renders), (vec![1], vec![129]));
    let (cards, renders) =
        parse_drm_nodes(&strings(&["renderD128", "card0", "controlD64", "card+7", "card007"]))
            .unwrap();
    assert_eq!((cards, renders), (vec![0, 7, 7], vec![128]));
    assert_eq!(parse_drm_nodes(&Vec::new()).unwrap(), (vec![], vec![]));
}

#[test]
fn node_numbers_fit_in_a_byte() {
    assert_eq!(parse_drm_nodes(&strings(&["card255"])).unwrap().0, vec![255]);
    for name in ["card256", "card", "card-1", "card1-eDP", "card 1", "card+"] {
        match parse_drm_nodes(&strings(&["card0", name, "renderDx"])).unwrap_err() {
            GpuDeviceCreationError::InvalidCardNumber(s) => assert_eq!(s, name),
            e => panic!("{:?}", e),
        }
    }
    match parse_drm_nodes(&strings(&["renderD256", "card256"])).unwrap_err() {
        GpuDeviceCreationError::InvalidRenderDeviceNumber(s) => assert_eq!(s, "renderD256"),
        e => panic!("{:?}", e),
    }
}

#[test]
fn gpu_is_described() {
    let mut t = Transcript::new();
    let mut asked = Vec::new();
    let answers = vec![
        names(&["0-2"]),
        text("0000:64:00"),
        Reply::Devices(Ok(vec![UdevDevice {
            slot_name: Some("0000:64:00.1".to_string()),
            pci_id: Some("10DE:22BA".to_string()),
        }])),
        names(&["card1", "renderD128"]),
        names(&["0-1", "0-2"]),
        text("0000:01:00\n"),
        text("0000:64:00\n"),
    ];
    for reply in answers {
        let action = GpuDevice::new(&t, 0, device()).unwrap_err();
        assert!(t.record(&action, reply));
        asked.push(action);
    }
    let (made, n) = GpuDevice::new(&t, 0, device()).unwrap();
    let made = made.unwrap();
    assert_eq!(n, 7);
    assert_eq!(made.pci, device());
    assert_eq!(made.audio_pci, Some(audio()));
    assert_eq!(made.cards, vec![1]);
    assert_eq!(made.render_devices, vec![128]);
    assert_eq!(made.gpu_slot.as_deref(), Some("/sys/bus/pci/slots/0-2"));
    assert_eq!(
        asked[3],
        Action::List { path: "/sys/bus/pci/devices/0000:64:00.0/drm".to_string() }
    );
    assert_eq!(asked[5], Action::Read { path: "/sys/bus/pci/slots/0-1/address".to_string() });
}

#[test]
fn gpu_may_lack_sound_nodes_and_slot() {
    let t = Transcript {
        replies: vec![Reply::Names(Err(FAILURE)), Reply::Names(Err(FAILURE)), names(&[])],
    };
    let (made, n) = GpuDevice::new(&t, 0, device()).unwrap();
    let made = made.unwrap();
    assert_eq!(n, 3);
    assert_eq!(made.audio_pci, None);
    assert!(made.cards.is_empty() && made.render_devices.is_empty());
    assert_eq!(made.gpu_slot, None);
}

#[test]
fn failed_description_says_why() {
    let new = |rest: Vec<Reply>| {
        let mut replies = vec![Reply::Names(Err(FAILURE))];
        replies.extend(rest);
        GpuDevice::new(&Transcript { replies }, 0, device()).unwrap().0.unwrap_err()
    };
    assert!(matches!(
        new(vec![names(&["cardx"])]),
        GpuDeviceCreationError::InvalidCardNumber(s) if s == "cardx"
    ));
    assert!(matches!(
        new(vec![names(&["renderD"])]),
        GpuDeviceCreationError::InvalidRenderDeviceNumber(s) if s == "renderD"
    ));
    assert!(matches!(
        new(vec![names(&[]), Reply::Names(Err(SECOND))]),
        GpuDeviceCreationError::SlotEnumeration(SECOND)
    ));
    assert!(matches!(
        new(vec![names(&[]), names(&["0-2"]), Reply::Text(Err(SECOND))]),
        GpuDeviceCreationError::SlotAddressFetch(SECOND)
    ));
    assert!(matches!(
        new(vec![names(&[]), names(&["0-2"]), text("?")]),
        GpuDeviceCreationError::InvalidSlotAddress(s) if s == "/sys/bus/pci/slots/0-2"
    ));
}

#[test]
fn detaching_tells_each_card_that_takes_events() {
    let gpu = gpu(None);
    assert_eq!(gpu.drm_path(), "/sys/bus/pci/devices/0000:64:00.0/drm");
    let mut t = Transcript::new();
    let first = "/sys/bus/pci/devices/0000:64:00.0/drm/card0/uevent";
    let second = "/sys/bus/pci/devices/0000:64:00.0/drm/card12/uevent";
    let action = gpu.send_detach(&t, 0).unwrap_err();
    assert_eq!(action, Action::Exists { path: first.to_string() });
    assert!(t.record(&action, Reply::Present(false)));
    let action = gpu.send_detach(&t, 0).unwrap_err();
    assert_eq!(action, Action::Exists { path: second.to_string() });
    assert!(t.record(&action, Reply::Present(true)));
    let action = gpu.send_detach(&t, 0).unwrap_err();
    assert_eq!(action, write(second, "remove"));
    assert!(t.record(&action, Reply::Done(Ok(()))));
    assert!(matches!(gpu.send_detach(&t, 0), Ok((Ok(()), 3))));
}

#[test]
fn failed_detaching_stops() {
    let t = Transcript { replies: vec![Reply::Present(true), Reply::Done(Err(FAILURE))] };
    assert!(matches!(gpu(None).send_detach(&t, 0), Ok((Err(FAILURE), 2))));
}

#[test]
fn sound_function_is_bound_after_the_gpu() {
    let gpu = gpu(Some(audio()));
    let t = Transcript {
        replies: vec![
            Reply::Done(Ok(())),
            text("/drivers/vfio-pci"),
        ],
    };
    assert_eq!(
        gpu.bind_vfio(&t, 0).unwrap_err(),
        write("/sys/bus/pci/drivers/vfio-pci/new_id", "10de 22ba")
    );
    let t = Transcript { replies: vec![Reply::Done(Err(FAILURE))] };
    assert!(matches!(gpu.bind_vfio(&t, 0), Ok((Err(BindError::Io(FAILURE)), 1))));
    let t = Transcript {
        replies: vec![
            Reply::Done(Ok(())),
            text("/drivers/vfio-pci"),
            Reply::Done(Ok(())),
            text("/drivers/vfio-pci"),
        ],
    };
    assert!(matches!(gpu.bind_vfio(&t, 0), Ok((Ok(()), 4))));
}

#[test]
fn sound_function_is_unbound_whatever_came_of_the_gpu() {
    let gpu = gpu(Some(audio()));
    let t = Transcript { replies: vec![Reply::Done(Err(FAILURE))] };
    assert_eq!(
        gpu.unbind(&t, 0).unwrap_err(),
        write("/sys/bus/pci/devices/0000:64:00.1/driver/unbind", "0000:64:00.1")
    );
    let end = |first: Result<(), IoError>, second: Result<(), IoError>| {
        let t = Transcript { replies: vec![Reply::Done(first), Reply::Done(second)] };
        gpu.unbind(&t, 0).unwrap().0
    };
    assert_eq!(end(Ok(()), Ok(())), Ok(()));
    assert_eq!(end(Ok(()), Err(SECOND)), Ok(()));
    assert_eq!(end(Err(FAILURE), Ok(())), Err(UnbindError { gpu: FAILURE, audio: None }));
    assert_eq!(
        end(Err(FAILURE), Err(SECOND)),
        Err(UnbindError { gpu: FAILURE, audio: Some(SECOND) })
    );
}
