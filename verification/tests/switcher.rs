use gpu_switcher::gpu::GpuDevice;
use gpu_switcher::gpu::GpuDeviceCreationError;
use gpu_switcher::pci::{BindError, PCIBusId, PCIDevice, PCIDeviceId, PCIFindDeviceError};
use gpu_switcher::proto::{GpuMode, SERVICE_NAME};
use gpu_switcher::switcher::{
    modprobe_content, steps_between, DedicatedGpuInfo, DriverLoadError, DriverType, GpuSwitcher,
    HotplugState, HotplugStateError, HotplugType, IcdType, KillGpuUseError, ModeStep,
    ModprobeConfType, RescanPCIError, SendGpuDetachError, ServiceState, ServiceType, SetModeError,
    StartError, SwitchDriversError, SwitchIcdError, SwitchServicesError, UnloadDriverError,
};
use gpu_switcher::system::{
    Action, ExitStatus, Holder, IoError, IoErrorKind, Reply, Transcript, UdevDevice,
};

const GPU: PCIBusId = PCIBusId { domain: 0, bus: 0x64, device: 0, function: 0 };
const FAILURE: IoError = IoError { kind: IoErrorKind::Other, ticket: 3 };
const SYSFS: &str = "/sys/bus/pci/devices/0000:64:00.0";
const ACTIVE: &str = "/usr/share/vulkan/icd.d/nvidia_icd.json";
const INACTIVE: &str = "/usr/share/vulkan/icd.d/nvidia_icd.json_inactive";
const ASUS: &str = "/sys/devices/platform/asus-nb-wmi/dgpu_disable";

/// A laptop whose GPU sits in slot 0-2.
struct Laptop {
    driver: Option<&'static str>,
    power: bool,
    icd_active: bool,
    users: Vec<&'static str>,
    module_in_use: Option<&'static str>,
    refuses: Option<&'static str>,
    done: Vec<Action>,
}

impl Laptop {
    fn new(driver: Option<&'static str>) -> Laptop {
        Laptop {
            driver,
            power: true,
            icd_active: true,
            users: Vec::new(),
            module_in_use: None,
            refuses: None,
            done: Vec::new(),
        }
    }

    fn perform(&mut self, action: &Action) -> Reply {
        match action {
            Action::Write { path, contents } => {
                if self.refuses == Some(path.as_str()) {
                    return Reply::Done(Err(FAILURE));
                }
                match path.as_str() {
                    "/sys/bus/pci/slots/0-2/power" => self.power = contents == "1",
                    "/sys/bus/pci/drivers/vfio-pci/bind" => {
                        assert!(self.driver == Some("vfio"));
                        if contents == "0000:64:00.0" {
                            self.driver = Some("vfio-pci");
                        }
                    }
                    "/sys/bus/pci/devices/0000:64:00.0/driver/unbind" => self.driver = None,
                    _ => {}
                }
                Reply::Done(Ok(()))
            }
            Action::Read { path } => Reply::Text(Ok(match path.as_str() {
                "/sys/bus/pci/slots/0-1/address" => "0000:01:00\n".to_string(),
                "/sys/bus/pci/slots/0-2/address" => "0000:64:00\n".to_string(),
                "/sys/bus/pci/slots/0-2/power" => {
                    (if self.power { "1\n" } else { "0\n" }).to_string()
                }
                _ => panic!("{}", path),
            })),
            Action::List { path } => {
                let names: &[&str] = match path.as_str() {
                    "/sys/bus/pci/slots" => &["0-1", "0-2"],
                    "/sys/bus/pci/devices/0000:64:00.0/drm" => &["card1", "renderD128"],
                    _ => panic!("{}", path),
                };
                Reply::Names(Ok(names.iter().map(|s| s.to_string()).collect()))
            }
            Action::Exists { path } => Reply::Present(match path.as_str() {
                ACTIVE => self.icd_active,
                INACTIVE => !self.icd_active,
                _ => true,
            }),
            Action::Rename { from, to } => {
                assert!(from == ACTIVE && to == INACTIVE && self.icd_active);
                self.icd_active = false;
                Reply::Done(Ok(()))
            }
            Action::Resolve { .. } => match self.driver {
                Some(name) if name != "vfio" => {
                    Reply::Text(Ok(["/sys/bus/pci/drivers/", name].concat()))
                }
                _ => Reply::Text(Err(FAILURE)),
            },
            Action::Run { program, args } => {
                if program == "modprobe" {
                    if args[0] == "vfio_pci" {
                        self.driver = Some("vfio");
                    } else {
                        self.driver = Some("nvidia");
                    }
                }
                Reply::Exit(Ok(ExitStatus::Success))
            }
            Action::RunForErrors { args, .. } => {
                let module = args.last().unwrap().as_str();
                Reply::Text(Ok(if self.module_in_use == Some(module) {
                    "rmmod: ERROR: Module is in use\n".to_string()
                } else {
                    "rmmod: ERROR: Module is not currently loaded\n".to_string()
                }))
            }
            Action::ScanPci => Reply::Devices(Ok(vec![
                UdevDevice {
                    slot_name: Some("0000:64:00.0".to_string()),
                    pci_id: Some("10DE:2F58".to_string()),
                },
                UdevDevice {
                    slot_name: Some("0000:64:00.1".to_string()),
                    pci_id: Some("10DE:22BA".to_string()),
                },
            ])),
            Action::ListHolders { path } => Reply::Holders(if path == "/dev/dri/card1" {
                Some(
                    self.users
                        .iter()
                        .map(|pid| Holder { pid: pid.to_string(), name: None })
                        .collect(),
                )
            } else {
                None
            }),
            Action::Kill { .. } => Reply::Killed(0),
            Action::Sleep { .. } => Reply::Elapsed,
        }
    }

    fn start(&mut self) -> GpuSwitcher {
        let mut t = Transcript::new();
        loop {
            match GpuSwitcher::start(&t, 0, "0000:64:00.0") {
                Ok((r, n)) => {
                    assert_eq!(n, t.replies.len());
                    self.done.clear();
                    return r.unwrap();
                }
                Err(action) => {
                    let reply = self.perform(&action);
                    assert!(t.record(&action, reply));
                }
            }
        }
    }

    fn set(
        &mut self,
        switcher: &mut GpuSwitcher,
        mode: GpuMode,
        force: bool,
    ) -> Result<(), SetModeError> {
        let mut t = Transcript::new();
        loop {
            match switcher.set_mode(&t, mode, force) {
                Ok((r, n)) => {
                    assert_eq!(n, t.replies.len());
                    return r;
                }
                Err(action) => {
                    let reply = self.perform(&action);
                    assert!(t.record(&action, reply));
                    self.done.push(action);
                }
            }
        }
    }

    fn mode(&mut self, switcher: &GpuSwitcher) -> GpuMode {
        let mut t = Transcript::new();
        loop {
            match switcher.get_mode(&t, 0) {
                Ok((mode, _)) => return mode,
                Err(action) => {
                    let reply = self.perform(&action);
                    assert!(t.record(&action, reply));
                }
            }
        }
    }

    fn place(&self, action: &Action) -> usize {
        self.done.iter().position(|done| done == action).unwrap()
    }

    fn killed(&self) -> Vec<i32> {
        self.done
            .iter()
            .filter_map(|done| match done {
                Action::Kill { pid } => Some(*pid),
                _ => None,
            })
            .collect()
    }

    fn unloaded(&self) -> Vec<String> {
        self.done
            .iter()
            .filter_map(|done| match done {
                Action::RunForErrors { program, args } if program == "rmmod" => {
                    Some(args.join(" "))
                }
                _ => None,
            })
            .collect()
    }
}

fn strings(list: &[&str]) -> Vec<String> {
    list.iter().map(|s| s.to_string()).collect()
}

fn write(path: &str, contents: &str) -> Action {
    Action::Write { path: path.to_string(), contents: contents.to_string() }
}

fn run(program: &str, args: &[&str]) -> Action {
    Action::Run { program: program.to_string(), args: strings(args) }
}

fn text(s: &str) -> Reply {
    Reply::Text(Ok(s.to_string()))
}

fn transcript(replies: Vec<Reply>) -> Transcript {
    Transcript { replies }
}

fn device() -> PCIDevice {
    PCIDevice {
        bus_id: GPU,
        device_id: Some(PCIDeviceId { vendor_id: 0x10de, product_id: 0x2f58 }),
        slot: Some("/sys/bus/pci/slots/0-2".to_string()),
    }
}

fn switcher(hotplug_type: HotplugType) -> GpuSwitcher {
    GpuSwitcher {
        dedicated_gpu_info: DedicatedGpuInfo {
            bus_id: GPU,
            gpu_device: Some(GpuDevice {
                pci: device(),
                audio_pci: None,
                cards: vec![1],
                render_devices: vec![128],
                gpu_slot: Some("/sys/bus/pci/slots/0-2".to_string()),
            }),
        },
        hotplug_type,
    }
}

fn without_gpu() -> GpuSwitcher {
    GpuSwitcher {
        dedicated_gpu_info: DedicatedGpuInfo { bus_id: GPU, gpu_device: None },
        hotplug_type: HotplugType::Normal,
    }
}

#[test]
fn service_has_its_name() {
    assert_eq!(SERVICE_NAME, "cc.localcc.GpuSwitcher");
}

#[test]
fn start_describes_the_configured_gpu() {
    let s = Laptop::new(Some("nvidia")).start();
    assert_eq!(s.dedicated_gpu_info.bus_id, GPU);
    assert_eq!(s.hotplug_type, HotplugType::Normal);
    let gpu = s.dedicated_gpu_info.gpu_device.unwrap();
    assert_eq!(gpu.pci, device());
    assert_eq!(gpu.audio_pci.unwrap().bus_id, GPU.with_function(1));
    assert_eq!(gpu.cards, vec![1]);
}

#[test]
fn start_does_without_the_gpu() {
    let t = transcript(vec![Reply::Names(Err(FAILURE))]);
    let (r, n) = GpuSwitcher::start(&t, 0, "0000:64:00.0").unwrap();
    assert_eq!(n, 1);
    assert!(r.unwrap().dedicated_gpu_info.gpu_device.is_none());
}

#[test]
fn failed_start_says_why() {
    let t = Transcript::new();
    assert!(matches!(
        GpuSwitcher::start(&t, 0, "64:00.0"),
        Ok((Err(StartError::InvalidDevicePath), 0))
    ));
    let t = transcript(vec![
        Reply::Names(Ok(strings(&["0-2"]))),
        text("0000:64:00"),
        Reply::Devices(Ok(vec![])),
        Reply::Names(Err(FAILURE)),
        Reply::Names(Ok(vec![])),
        Reply::Names(Err(FAILURE)),
    ]);
    assert!(matches!(
        GpuSwitcher::start(&t, 0, "0000:64:00.0"),
        Ok((Err(StartError::GpuCreation(GpuDeviceCreationError::SlotEnumeration(FAILURE))), 6))
    ));
}

#[test]
fn mode_follows_the_driver() {
    let s = switcher(HotplugType::Normal);
    for (driver, mode) in [
        ("/sys/bus/pci/drivers/nvidia", GpuMode::Nvidia),
        ("/sys/bus/pci/drivers/vfio-pci", GpuMode::Vfio),
        ("/sys/bus/pci/drivers/nouveau", GpuMode::Integrated),
    ] {
        assert!(matches!(s.get_mode(&transcript(vec![text(driver)]), 0), Ok((m, 1)) if m == mode));
    }
    let t = transcript(vec![Reply::Text(Err(FAILURE))]);
    assert!(matches!(s.get_mode(&t, 0), Ok((GpuMode::Integrated, 1))));
    assert!(matches!(
        without_gpu().get_mode(&Transcript::new(), 0),
        Ok((GpuMode::Integrated, 0))
    ));
    assert_eq!(
        s.get_mode(&Transcript::new(), 0).unwrap_err(),
        Action::Resolve { path: [SYSFS, "/driver"].concat() }
    );
}

#[test]
fn same_mode_is_left_alone() {
    let mut laptop = Laptop::new(Some("nvidia"));
    let mut s = laptop.start();
    assert!(laptop.set(&mut s, GpuMode::Nvidia, false).is_ok());
    assert_eq!(laptop.done, vec![Action::Resolve { path: [SYSFS, "/driver"].concat() }]);
}

#[test]
fn nvidia_gives_way_to_the_integrated_gpu() {
    let mut laptop = Laptop::new(Some("nvidia"));
    laptop.users = vec!["31", "4294967295"];
    let mut s = laptop.start();
    assert!(laptop.set(&mut s, GpuMode::Integrated, false).is_ok());
    assert_eq!(laptop.mode(&s), GpuMode::Integrated);
    assert!(!laptop.power);
    assert!(!laptop.icd_active);
    assert_eq!(laptop.killed(), vec![31, -1]);
    assert_eq!(
        laptop.unloaded(),
        strings(&[
            "nvidia_uvm",
            "nvidia_drm",
            "nvidia_modeset",
            "nvidia",
            "nvidia-wmi-ec-backlight"
        ])
    );
    let order = [
        laptop.place(&write("/sys/bus/pci/rescan", "1")),
        laptop.place(&write(
            "/etc/modprobe.d/gpu-switcherd.conf",
            &modprobe_content(ModprobeConfType::Integrated),
        )),
        laptop.place(&write(&[SYSFS, "/drm/card1/uevent"].concat(), "remove")),
        laptop.place(&Action::Sleep { millis: 5000 }),
        laptop.place(&run(
            "systemctl",
            &["stop", "nvidia-persistenced.service", "nvidia-powerd.service"],
        )),
        laptop.place(&Action::ListHolders { path: "/dev/dri/card1".to_string() }),
        laptop.place(&Action::Kill { pid: 31 }),
        laptop.place(&Action::ListHolders { path: "/dev/dri/renderD128".to_string() }),
        laptop.place(&Action::ListHolders { path: "/dev/nvidia0".to_string() }),
        laptop.place(&Action::Rename { from: ACTIVE.to_string(), to: INACTIVE.to_string() }),
        laptop.place(&Action::RunForErrors {
            program: "rmmod".to_string(),
            args: strings(&["nvidia_uvm"]),
        }),
        laptop.place(&write(&[SYSFS, "/driver/unbind"].concat(), "0000:64:00.0")),
        laptop.place(&write(
            "/sys/bus/pci/devices/0000:64:00.1/driver/unbind",
            "0000:64:00.1",
        )),
        laptop.place(&Action::Sleep { millis: 1000 }),
        laptop.place(&write("/sys/bus/pci/slots/0-2/power", "1")),
        laptop.place(&write("/sys/bus/pci/slots/0-2/power", "0")),
    ];
    assert!(order.windows(2).all(|w| w[0] < w[1]));
    assert_eq!(*order.last().unwrap(), laptop.done.len() - 1);
}

#[test]
fn integrated_gives_way_to_nvidia() {
    let mut laptop = Laptop::new(None);
    laptop.power = false;
    laptop.users = vec!["31"];
    let mut s = laptop.start();
    assert!(laptop.set(&mut s, GpuMode::Nvidia, false).is_ok());
    assert_eq!(laptop.mode(&s), GpuMode::Nvidia);
    assert!(laptop.power);
    assert!(laptop.killed().is_empty());
    assert!(laptop.unloaded().is_empty());
    let order = [
        laptop.place(&write(
            "/etc/modprobe.d/gpu-switcherd.conf",
            &modprobe_content(ModprobeConfType::Nvidia),
        )),
        laptop.place(&Action::Read { path: "/sys/bus/pci/slots/0-2/power".to_string() }),
        laptop.place(&write("/sys/bus/pci/slots/0-2/power", "1")),
        laptop.place(&Action::Sleep { millis: 500 }),
        laptop.place(&run("modprobe", &["nvidia_drm", "nvidia_uvm"])),
        laptop.place(&run(
            "systemctl",
            &["start", "nvidia-persistenced.service", "nvidia-powerd.service"],
        )),
    ];
    assert!(order.windows(2).all(|w| w[0] < w[1]));
    let rescans =
        laptop.done.iter().filter(|a| **a == write("/sys/bus/pci/rescan", "1")).count();
    assert_eq!(rescans, 2);
}

#[test]
fn integrated_gives_way_to_pass_through_without_ending_users() {
    let mut laptop = Laptop::new(None);
    laptop.users = vec!["31"];
    let mut s = laptop.start();
    assert!(laptop.set(&mut s, GpuMode::Vfio, false).is_ok());
    assert_eq!(laptop.mode(&s), GpuMode::Vfio);
    assert!(laptop.killed().is_empty());
    assert!(!laptop.done.contains(&write("/sys/bus/pci/slots/0-2/power", "1")));
    let order = [
        laptop.place(&run("modprobe", &["vfio_pci"])),
        laptop.place(&write("/sys/bus/pci/drivers/vfio-pci/new_id", "10de 2f58")),
        laptop.place(&write("/sys/bus/pci/drivers/vfio-pci/bind", "0000:64:00.0")),
        laptop.place(&write("/sys/bus/pci/drivers/vfio-pci/new_id", "10de 22ba")),
    ];
    assert!(order.windows(2).all(|w| w[0] < w[1]));
}

#[test]
fn nvidia_gives_way_to_pass_through_after_its_users() {
    let mut laptop = Laptop::new(Some("nvidia"));
    laptop.users = vec!["+31"];
    let mut s = laptop.start();
    assert!(laptop.set(&mut s, GpuMode::Vfio, true).is_ok());
    assert_eq!(laptop.mode(&s), GpuMode::Vfio);
    assert_eq!(laptop.killed(), vec![31]);
    assert_eq!(laptop.unloaded()[0], "-f nvidia_uvm");
}

#[test]
fn pass_through_gives_way_to_the_integrated_gpu() {
    let mut laptop = Laptop::new(Some("vfio-pci"));
    let mut s = laptop.start();
    assert!(laptop.set(&mut s, GpuMode::Integrated, false).is_ok());
    assert_eq!(
        laptop.unloaded(),
        strings(&["vfio_pci", "vfio_iommu_type1", "vfio_pci_core", "vfio"])
    );
}

#[test]
fn module_in_use_stops_the_switch() {
    let mut laptop = Laptop::new(Some("nvidia"));
    laptop.module_in_use = Some("nvidia_modeset");
    let mut s = laptop.start();
    match laptop.set(&mut s, GpuMode::Integrated, false).unwrap_err() {
        SetModeError::SwitchDrivers(SwitchDriversError::DriverUnload(
            UnloadDriverError::DriverInUse(name),
        )) => assert_eq!(name, "nvidia_modeset"),
        e => panic!("{:?}", e),
    }
    assert_eq!(laptop.unloaded(), strings(&["nvidia_uvm", "nvidia_drm", "nvidia_modeset"]));
    assert_eq!(laptop.driver, Some("nvidia"));
    assert!(laptop.power);
}

#[test]
fn failed_step_is_named() {
    let fail = |file: &'static str, driver: Option<&'static str>, power: bool, mode: GpuMode| {
        let mut laptop = Laptop::new(driver);
        laptop.power = power;
        let mut s = laptop.start();
        laptop.refuses = Some(file);
        let e = laptop.set(&mut s, mode, false).unwrap_err();
        assert_eq!(s.dedicated_gpu_info.bus_id, GPU);
        e
    };
    let nvidia = Some("nvidia");
    let e = fail("/sys/bus/pci/rescan", nvidia, true, GpuMode::Integrated);
    assert!(matches!(e, SetModeError::FindGpu(RescanPCIError::Rescan(FAILURE))));
    assert_eq!(e.context(), None);
    let e = fail("/etc/modprobe.d/gpu-switcherd.conf", nvidia, true, GpuMode::Vfio);
    assert!(matches!(e, SetModeError::ModprobeConf(FAILURE)));
    assert_eq!(e.context(), Some("modprobe conf write"));
    let uevent = "/sys/bus/pci/devices/0000:64:00.0/drm/card1/uevent";
    let e = fail(uevent, nvidia, true, GpuMode::Integrated);
    assert!(matches!(e, SetModeError::GpuDetach(SendGpuDetachError::Io(FAILURE))));
    assert_eq!(e.context(), Some("send gpu detach"));
    let power = "/sys/bus/pci/slots/0-2/power";
    let e = fail(power, nvidia, true, GpuMode::Integrated);
    assert!(matches!(e, SetModeError::HotplugUnplug(FAILURE)));
    assert_eq!(e.context(), Some("hotplug unplug"));
    let e = fail(power, None, false, GpuMode::Nvidia);
    assert!(matches!(e, SetModeError::HotplugPlug(FAILURE)));
    assert_eq!(e.context(), Some("hotplug plug"));
    let bind = "/sys/bus/pci/drivers/vfio-pci/bind";
    let e = fail(bind, None, true, GpuMode::Vfio);
    assert!(matches!(
        e,
        SetModeError::SwitchDrivers(SwitchDriversError::DriverBind(BindError::Io(FAILURE)))
    ));
    assert_eq!(e.context(), Some("switch drivers"));
    let e = SetModeError::KillGpuUse(KillGpuUseError::NoGpu);
    assert_eq!(e.context(), Some("kill gpu use"));
    let e = SetModeError::PciRescan(RescanPCIError::Rescan(FAILURE));
    assert_eq!(e.context(), Some("pci rescan"));
}

#[test]
fn unfinished_switch_leaves_the_switcher_alone() {
    let mut s = without_gpu();
    let t = transcript(vec![Reply::Done(Ok(())), Reply::Names(Ok(vec![]))]);
    assert_eq!(s.set_mode(&t, GpuMode::Vfio, false).unwrap_err(), Action::ScanPci);
    assert!(s.dedicated_gpu_info.gpu_device.is_none());
}

#[test]
fn finished_switch_is_final() {
    let replies = || vec![Reply::Done(Err(FAILURE))];
    let mut s = without_gpu();
    let (r, n) = s.set_mode(&transcript(replies()), GpuMode::Vfio, false).unwrap();
    assert!(r.is_err() && n == 1);
    let mut more = replies();
    more.push(Reply::Elapsed);
    let (r, n) = s.set_gpu_mode(&transcript(more), 0, GpuMode::Vfio, false).unwrap();
    assert!(r.is_err() && n == 1);
}

#[test]
fn search_for_the_gpu_depends_on_the_mode() {
    let lost = || {
        transcript(vec![
            Reply::Done(Ok(())),
            Reply::Names(Ok(vec![])),
            Reply::Devices(Ok(vec![])),
        ])
    };
    let mut s = switcher(HotplugType::Normal);
    assert!(matches!(
        s.rescan_pci(&lost(), 0, GpuMode::Nvidia),
        Ok((Err(RescanPCIError::GpuNotFound(PCIFindDeviceError::DeviceNotFound)), 3))
    ));
    assert!(s.dedicated_gpu_info.gpu_device.is_some());
    assert!(matches!(s.rescan_pci(&lost(), 0, GpuMode::Integrated), Ok((Ok(()), 3))));
    assert!(s.dedicated_gpu_info.gpu_device.is_none());

    let strange = || {
        transcript(vec![
            Reply::Done(Ok(())),
            Reply::Names(Ok(strings(&["0-2"]))),
            text("0000:64:00"),
            Reply::Devices(Ok(vec![])),
            Reply::Names(Err(FAILURE)),
            Reply::Names(Ok(strings(&["card"]))),
        ])
    };
    let mut s = switcher(HotplugType::Normal);
    assert!(matches!(
        s.rescan_pci(&strange(), 0, GpuMode::Vfio),
        Ok((Err(RescanPCIError::GpuCreation(GpuDeviceCreationError::InvalidCardNumber(_))), 6))
    ));
    assert!(s.dedicated_gpu_info.gpu_device.is_some());
    assert!(matches!(s.rescan_pci(&strange(), 0, GpuMode::Integrated), Ok((Ok(()), 6))));
    assert!(s.dedicated_gpu_info.gpu_device.is_none());
}

#[test]
fn configuration_for_pass_through_and_none() {
    let expected = "blacklist nouveau\nblacklist nvidia_uvm\nblacklist nvidia_drm\n\
                    blacklist nvidia_modeset\nblacklist nvidia\n\
                    blacklist nvidia-wmi-ec-backlight";
    assert_eq!(modprobe_content(ModprobeConfType::Vfio), expected);
    assert_eq!(modprobe_content(ModprobeConfType::Integrated), expected);
}

#[test]
fn configuration_for_nvidia() {
    assert_eq!(
        modprobe_content(ModprobeConfType::Nvidia),
        "blacklist nouveau\n\n        options nvidia-drm modeset=1\n        \n\n        \
         options nvidia-wmi-ec-backlight force=1\n        "
    );
}

#[test]
fn configuration_is_written() {
    let s = without_gpu();
    assert_eq!(
        s.write_modprobe(&Transcript::new(), 0, ModprobeConfType::Vfio).unwrap_err(),
        write("/etc/modprobe.d/gpu-switcherd.conf", &modprobe_content(ModprobeConfType::Vfio))
    );
    let t = transcript(vec![Reply::Done(Err(FAILURE))]);
    assert!(matches!(
        s.write_modprobe(&t, 0, ModprobeConfType::Vfio),
        Ok((Err(FAILURE), 1))
    ));
}

#[test]
fn ways_between_modes() {
    let steps = steps_between(GpuMode::Integrated, GpuMode::Vfio);
    assert_eq!(
        steps,
        vec![
            ModeStep::FindGpu(GpuMode::Vfio),
            ModeStep::WriteModprobe(ModprobeConfType::Vfio),
            ModeStep::PlugIfUnplugged,
            ModeStep::FindGpuAgain(GpuMode::Vfio),
            ModeStep::Wait(500),
            ModeStep::SwitchDrivers(DriverType::Vfio),
        ]
    );
    assert!(!steps.contains(&ModeStep::KillUsers));
    assert!(steps_between(GpuMode::Nvidia, GpuMode::Vfio).contains(&ModeStep::KillUsers));
    assert!(steps_between(GpuMode::Vfio, GpuMode::Integrated).contains(&ModeStep::KillUsers));
    assert!(!steps_between(GpuMode::Vfio, GpuMode::Nvidia).contains(&ModeStep::KillUsers));
    assert_eq!(
        steps_between(GpuMode::Vfio, GpuMode::Integrated).last(),
        Some(&ModeStep::Unplug)
    );
}

#[test]
fn icd_is_renamed_when_needed() {
    let s = without_gpu();
    let t = transcript(vec![Reply::Present(true)]);
    assert_eq!(
        s.switch_icd(&t, 0, IcdType::Inactive).unwrap_err(),
        Action::Rename { from: ACTIVE.to_string(), to: INACTIVE.to_string() }
    );
    assert!(matches!(s.switch_icd(&t, 0, IcdType::Active), Ok((Ok(()), 1))));
    let t = transcript(vec![Reply::Present(false), Reply::Present(true)]);
    assert_eq!(
        s.switch_icd(&t, 0, IcdType::Active).unwrap_err(),
        Action::Rename { from: INACTIVE.to_string(), to: ACTIVE.to_string() }
    );
    assert!(matches!(s.switch_icd(&t, 0, IcdType::Inactive), Ok((Ok(()), 2))));
    let t = transcript(vec![Reply::Present(false), Reply::Present(false)]);
    assert!(matches!(
        s.switch_icd(&t, 0, IcdType::Active),
        Ok((Err(SwitchIcdError::IcdMissing), 2))
    ));
    let t = transcript(vec![Reply::Present(true), Reply::Done(Err(FAILURE))]);
    assert!(matches!(
        s.switch_icd(&t, 0, IcdType::Inactive),
        Ok((Err(SwitchIcdError::Rename(FAILURE)), 2))
    ));
}

#[test]
fn power_of_a_slot_is_switched_and_seen() {
    let s = switcher(HotplugType::Normal);
    let power = "/sys/bus/pci/slots/0-2/power";
    for (state, contents) in [(HotplugState::Plug, "1"), (HotplugState::Unplug, "0")] {
        assert_eq!(
            s.hotplug_gpu(&Transcript::new(), 0, state).unwrap_err(),
            Action::Sleep { millis: 1000 }
        );
        let t = transcript(vec![Reply::Elapsed]);
        assert_eq!(s.hotplug_gpu(&t, 0, state).unwrap_err(), write(power, contents));
        let t = transcript(vec![text(&[contents, "\n"].concat())]);
        assert!(matches!(s.get_hotplug_state(&t, 0), Ok((Ok(seen), 1)) if seen == state));
    }
    let t = transcript(vec![Reply::Text(Err(FAILURE))]);
    assert!(matches!(
        s.get_hotplug_state(&t, 0),
        Ok((Err(HotplugStateError::Io(FAILURE)), 1))
    ));
}

#[test]
fn power_without_a_slot() {
    let mut s = switcher(HotplugType::Normal);
    let t = Transcript::new();
    s.dedicated_gpu_info.gpu_device.as_mut().unwrap().gpu_slot = None;
    assert!(matches!(s.hotplug_gpu(&t, 0, HotplugState::Plug), Ok((Ok(()), 0))));
    assert!(matches!(
        s.get_hotplug_state(&t, 0),
        Ok((Err(HotplugStateError::NotFound), 0))
    ));
    let s = without_gpu();
    assert!(matches!(s.hotplug_gpu(&t, 0, HotplugState::Plug), Ok((Ok(()), 0))));
    assert!(matches!(
        s.get_hotplug_state(&t, 0),
        Ok((Err(HotplugStateError::NotFound), 0))
    ));
}

#[test]
fn power_by_the_platform_driver() {
    let s = switcher(HotplugType::Asus);
    assert_eq!(
        s.hotplug_gpu(&Transcript::new(), 0, HotplugState::Plug).unwrap_err(),
        Action::Read { path: ASUS.to_string() }
    );
    let off = transcript(vec![text("1\n")]);
    let on = transcript(vec![text("0\n")]);
    assert_eq!(s.hotplug_gpu(&off, 0, HotplugState::Plug).unwrap_err(), write(ASUS, "0"));
    assert_eq!(s.hotplug_asus(&on, 0, HotplugState::Unplug).unwrap_err(), write(ASUS, "1"));
    assert!(matches!(s.hotplug_gpu(&on, 0, HotplugState::Plug), Ok((Ok(()), 1))));
    assert!(matches!(s.get_hotplug_state(&off, 0), Ok((Ok(HotplugState::Unplug), 1))));
    assert!(matches!(s.get_hotplug_state_asus(&on, 0), Ok((Ok(HotplugState::Plug), 1))));
    let t = transcript(vec![Reply::Text(Err(FAILURE))]);
    assert!(matches!(s.hotplug_gpu(&t, 0, HotplugState::Plug), Ok((Err(FAILURE), 1))));
    assert!(matches!(
        s.get_hotplug_state(&t, 0),
        Ok((Err(HotplugStateError::Io(FAILURE)), 1))
    ));
}

#[test]
fn services_are_switched() {
    let s = without_gpu();
    let end = |exit: Result<ExitStatus, IoError>| {
        let t = transcript(vec![Reply::Exit(exit)]);
        s.switch_services(&t, 0, ServiceState::Stop, ServiceType::Nvidia).unwrap().0
    };
    assert!(end(Ok(ExitStatus::Success)).is_ok());
    assert!(matches!(end(Ok(ExitStatus::Code(5))), Err(SwitchServicesError::ExitCode(5))));
    assert!(matches!(end(Err(FAILURE)), Err(SwitchServicesError::Io(FAILURE))));
}

#[test]
fn nothing_is_done_to_a_gpu_that_is_not_there() {
    let s = without_gpu();
    let t = Transcript::new();
    assert!(matches!(
        s.send_gpu_detach(&t, 0),
        Ok((Err(SendGpuDetachError::NoGpu), 0))
    ));
    assert!(matches!(s.kill_gpu_use(&t, 0), Ok((Err(KillGpuUseError::NoGpu), 0))));
    assert!(matches!(
        s.switch_drivers(&t, 0, DriverType::Vfio, false),
        Ok((Err(SwitchDriversError::NoGpu), 0))
    ));
}

#[test]
fn user_that_cannot_be_ended_is_named() {
    let s = switcher(HotplugType::Normal);
    let end = |name: Option<&str>| {
        let holder = Holder { pid: "31".to_string(), name: name.map(|s| s.to_string()) };
        let t = transcript(vec![Reply::Holders(Some(vec![holder])), Reply::Killed(-1)]);
        match s.kill_gpu_use(&t, 0).unwrap() {
            (Err(KillGpuUseError::KillProcess(name, code)), 2) => (name, code),
            r => panic!("{:?}", r),
        }
    };
    assert_eq!(end(Some("game")), ("game".to_string(), -1));
    assert_eq!(end(None), ("unknown".to_string(), -1));
}

#[test]
fn driver_switch_fails_with_its_cause() {
    let s = switcher(HotplugType::Normal);
    let t = transcript(vec![
        text("/sys/bus/pci/drivers/nvidia"),
        Reply::Text(Err(FAILURE)),
    ]);
    assert!(matches!(
        s.switch_drivers(&t, 0, DriverType::NoDriver, false),
        Ok((Err(SwitchDriversError::DriverUnload(UnloadDriverError::Io(FAILURE))), 2))
    ));
    let load = |ty: DriverType, exit: Result<ExitStatus, IoError>| {
        let t = transcript(vec![
            Reply::Text(Err(FAILURE)),
            Reply::Done(Err(FAILURE)),
            Reply::Exit(exit),
        ]);
        match s.switch_drivers(&t, 0, ty, false).unwrap() {
            (Err(SwitchDriversError::DriverLoad(e)), 3) => e,
            r => panic!("{:?}", r),
        }
    };
    assert_eq!(load(DriverType::Vfio, Err(FAILURE)), DriverLoadError::Io(FAILURE));
    assert_eq!(
        load(DriverType::Nvidia, Ok(ExitStatus::Code(1))),
        DriverLoadError::ExitCode(1)
    );
}

#[test]
fn module_is_unloaded_unless_in_use() {
    let t = Transcript::new();
    assert_eq!(
        GpuSwitcher::unload_driver(&t, 0, "vfio", true).unwrap_err(),
        Action::RunForErrors { program: "rmmod".to_string(), args: strings(&["-f", "vfio"]) }
    );
    let end = |stderr: &str| {
        let t = transcript(vec![text(stderr)]);
        GpuSwitcher::unload_driver(&t, 0, "vfio", false).unwrap().0
    };
    assert!(end("").is_ok());
    assert!(end("in us").is_ok());
    assert!(matches!(end("in use"), Err(UnloadDriverError::DriverInUse(s)) if s == "vfio"));
    assert!(end("is in use by x").is_err());
}

#[test]
fn writes_stay_with_the_gpu() {
    let mine = [
        "/sys/bus/pci/rescan",
        "/etc/modprobe.d/gpu-switcherd.conf",
        "/sys/bus/pci/drivers/vfio-pci/new_id",
        "/sys/bus/pci/drivers/vfio-pci/bind",
        "/sys/bus/pci/devices/0000:64:00.0/driver/unbind",
        "/sys/bus/pci/devices/0000:64:00.1/driver/unbind",
        "/sys/bus/pci/devices/0000:64:00.0/drm/card1/uevent",
        "/sys/bus/pci/slots/0-2/power",
    ];
    let mut laptop = Laptop::new(Some("nvidia"));
    let mut s = laptop.start();
    for mode in [GpuMode::Vfio, GpuMode::Integrated, GpuMode::Nvidia, GpuMode::Integrated] {
        assert!(laptop.set(&mut s, mode, false).is_ok());
        assert_eq!(laptop.mode(&s), mode);
        assert!(s.dedicated_gpu_info.gpu_device.is_some());
        assert_eq!(laptop.power, mode != GpuMode::Integrated);
    }
    for action in &laptop.done {
        match action {
            Action::Write { path, .. } => assert!(mine.contains(&path.as_str()), "{}", path),
            Action::Run { program, .. } => {
                assert!(program == "modprobe" || program == "systemctl");
            }
            Action::RunForErrors { program, .. } => assert_eq!(program, "rmmod"),
            _ => {}
        }
    }
}

#[test]
fn gpu_that_is_lost_makes_a_switch_to_it_fail() {
    let mut s = switcher(HotplugType::Normal);
    let t = transcript(vec![
        Reply::Text(Err(FAILURE)),
        Reply::Done(Ok(())),
        Reply::Names(Ok(vec![])),
        Reply::Devices(Ok(vec![])),
    ]);
    match s.set_mode(&t, GpuMode::Nvidia, false).unwrap() {
        (Err(SetModeError::FindGpu(RescanPCIError::GpuNotFound(e))), 4) => {
            assert!(matches!(e, PCIFindDeviceError::DeviceNotFound));
        }
        r => panic!("{:?}", r),
    }
    assert!(s.dedicated_gpu_info.gpu_device.is_some());
}

#[test]
fn second_search_that_fails_is_told_from_the_first() {
    let mut laptop = Laptop::new(None);
    let mut s = laptop.start();
    let mut t = Transcript::new();
    let mut rescans = 0;
    let e = loop {
        match s.set_mode(&t, GpuMode::Vfio, false) {
            Ok((r, _)) => break r.unwrap_err(),
            Err(action) => {
                if action == write("/sys/bus/pci/rescan", "1") {
                    rescans += 1;
                }
                let reply = if rescans == 2 {
                    Reply::Done(Err(FAILURE))
                } else {
                    laptop.perform(&action)
                };
                assert!(t.record(&action, reply));
            }
        }
    };
    assert!(matches!(e, SetModeError::PciRescan(RescanPCIError::Rescan(FAILURE))));
}
