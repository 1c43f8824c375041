//! The switcher: the procedures that bring the GPU from one mode to another.
use vstd::prelude::*;

use crate::digits;
use crate::gpu;
use crate::gpu::{GpuDevice, GpuDeviceCreationError, GpuDeviceCreationErrorView, GpuDeviceView};
use crate::pci;
use crate::pci::{
    BindError, PCIBusId, PCIDevice, PCIFindDeviceError, PCIFindDeviceErrorView,
};
use crate::proto::GpuMode;
use crate::system;
use crate::system::{
    ExitStatus, Holder, HolderView, IoError, Progress, ReplyView, Step, Transcript,
};
use crate::text;

verus! {

/// How the GPU's power is switched.
#[derive(Debug, Copy, Clone, PartialEq, Eq, Structural)]
pub enum HotplugType {
    /// By its slot.
    Normal,
    /// By the platform driver of the laptop's maker.
    Asus,
}

/// The GPU that is switched: where it sits, and what is known of it while it is there.
#[derive(Debug)]
pub struct DedicatedGpuInfo {
    pub bus_id: PCIBusId,
    pub gpu_device: Option<GpuDevice>,
}

/// The switcher's state.
#[derive(Debug)]
pub struct GpuSwitcher {
    pub dedicated_gpu_info: DedicatedGpuInfo,
    pub hotplug_type: HotplugType,
}

/// The view of a [`GpuSwitcher`].
pub struct GpuSwitcherView {
    pub bus_id: PCIBusId,
    pub gpu: Option<GpuDeviceView>,
    pub hotplug_type: HotplugType,
}

impl DeepView for GpuSwitcher {
    type V = GpuSwitcherView;

    open spec fn deep_view(&self) -> GpuSwitcherView {
        GpuSwitcherView {
            bus_id: self.dedicated_gpu_info.bus_id,
            gpu: self.dedicated_gpu_info.gpu_device.deep_view(),
            hotplug_type: self.hotplug_type,
        }
    }
}

#[derive(Debug, Copy, Clone, PartialEq, Eq, Structural)]
pub enum ModprobeConfType {
    Vfio,
    Integrated,
    Nvidia,
}

/// Whether the vendor's Vulkan driver is announced.
#[derive(Debug, Copy, Clone, PartialEq, Eq, Structural)]
pub enum IcdType {
    Inactive,
    Active,
}

#[derive(Debug, Copy, Clone, PartialEq, Eq, Structural)]
pub enum HotplugState {
    Unplug,
    Plug,
}

impl DeepView for HotplugState {
    type V = HotplugState;

    open spec fn deep_view(&self) -> HotplugState {
        *self
    }
}

#[derive(Debug, Copy, Clone, PartialEq, Eq, Structural)]
pub enum ServiceState {
    Stop,
    Start,
}

#[derive(Debug, Copy, Clone, PartialEq, Eq, Structural)]
pub enum ServiceType {
    Nvidia,
}

#[derive(Debug, Copy, Clone, PartialEq, Eq, Structural)]
pub enum DriverType {
    Vfio,
    Nvidia,
    /// Another driver than these, or none.
    NoDriver,
}

/// Why the slot's or the platform's power state is not known.
#[derive(Debug, Copy, Clone, PartialEq, Eq, Structural)]
pub enum HotplugStateError {
    /// There is no GPU, or it has no slot.
    NotFound,
    Io(IoError),
}

impl DeepView for HotplugStateError {
    type V = HotplugStateError;

    open spec fn deep_view(&self) -> HotplugStateError {
        *self
    }
}

#[derive(Debug, Copy, Clone, PartialEq, Eq, Structural)]
pub enum SwitchIcdError {
    IcdMissing,
    Rename(IoError),
}

impl DeepView for SwitchIcdError {
    type V = SwitchIcdError;

    open spec fn deep_view(&self) -> SwitchIcdError {
        *self
    }
}

#[derive(Debug, Copy, Clone, PartialEq, Eq, Structural)]
pub enum SwitchServicesError {
    ExitCode(i32),
    Io(IoError),
}

impl DeepView for SwitchServicesError {
    type V = SwitchServicesError;

    open spec fn deep_view(&self) -> SwitchServicesError {
        *self
    }
}

#[derive(Debug, Copy, Clone, PartialEq, Eq, Structural)]
pub enum SendGpuDetachError {
    NoGpu,
    Io(IoError),
}

impl DeepView for SendGpuDetachError {
    type V = SendGpuDetachError;

    open spec fn deep_view(&self) -> SendGpuDetachError {
        *self
    }
}

/// Why a kernel module was not loaded.
#[derive(Debug, Copy, Clone, PartialEq, Eq, Structural)]
pub enum DriverLoadError {
    Io(IoError),
    ExitCode(i32),
}

impl DeepView for DriverLoadError {
    type V = DriverLoadError;

    open spec fn deep_view(&self) -> DriverLoadError {
        *self
    }
}

#[derive(Debug)]
pub enum UnloadDriverError {
    DriverInUse(String),
    Io(IoError),
}

/// The view of an [`UnloadDriverError`].
pub enum UnloadDriverErrorView {
    DriverInUse(Seq<char>),
    Io(IoError),
}

impl DeepView for UnloadDriverError {
    type V = UnloadDriverErrorView;

    open spec fn deep_view(&self) -> UnloadDriverErrorView {
        match self {
            UnloadDriverError::DriverInUse(name) => UnloadDriverErrorView::DriverInUse(name@),
            UnloadDriverError::Io(e) => UnloadDriverErrorView::Io(*e),
        }
    }
}

#[derive(Debug)]
pub enum KillGpuUseError {
    NoGpu,
    /// The name of the process, and what the system call returned.
    KillProcess(String, i32),
}

/// The view of a [`KillGpuUseError`].
pub enum KillGpuUseErrorView {
    NoGpu,
    KillProcess(Seq<char>, i32),
}

impl DeepView for KillGpuUseError {
    type V = KillGpuUseErrorView;

    open spec fn deep_view(&self) -> KillGpuUseErrorView {
        match self {
            KillGpuUseError::NoGpu => KillGpuUseErrorView::NoGpu,
            KillGpuUseError::KillProcess(name, code) => {
                KillGpuUseErrorView::KillProcess(name@, *code)
            },
        }
    }
}

#[derive(Debug)]
pub enum RescanPCIError {
    Rescan(IoError),
    GpuNotFound(PCIFindDeviceError),
    GpuCreation(GpuDeviceCreationError),
}

/// The view of a [`RescanPCIError`].
pub enum RescanPCIErrorView {
    Rescan(IoError),
    GpuNotFound(PCIFindDeviceErrorView),
    GpuCreation(GpuDeviceCreationErrorView),
}

impl DeepView for RescanPCIError {
    type V = RescanPCIErrorView;

    open spec fn deep_view(&self) -> RescanPCIErrorView {
        match self {
            RescanPCIError::Rescan(e) => RescanPCIErrorView::Rescan(*e),
            RescanPCIError::GpuNotFound(e) => RescanPCIErrorView::GpuNotFound(e.deep_view()),
            RescanPCIError::GpuCreation(e) => RescanPCIErrorView::GpuCreation(e.deep_view()),
        }
    }
}

#[derive(Debug)]
pub enum SwitchDriversError {
    NoGpu,
    DriverUnload(UnloadDriverError),
    DriverLoad(DriverLoadError),
    DriverBind(BindError),
}

/// The view of a [`SwitchDriversError`].
pub enum SwitchDriversErrorView {
    NoGpu,
    DriverUnload(UnloadDriverErrorView),
    DriverLoad(DriverLoadError),
    DriverBind(BindError),
}

impl DeepView for SwitchDriversError {
    type V = SwitchDriversErrorView;

    open spec fn deep_view(&self) -> SwitchDriversErrorView {
        match self {
            SwitchDriversError::NoGpu => SwitchDriversErrorView::NoGpu,
            SwitchDriversError::DriverUnload(e) => {
                SwitchDriversErrorView::DriverUnload(e.deep_view())
            },
            SwitchDriversError::DriverLoad(e) => SwitchDriversErrorView::DriverLoad(*e),
            SwitchDriversError::DriverBind(e) => SwitchDriversErrorView::DriverBind(*e),
        }
    }
}

/// Why the mode was not switched: the step that failed, with its error.
#[derive(Debug)]
pub enum SetModeError {
    FindGpu(RescanPCIError),
    ModprobeConf(IoError),
    GpuDetach(SendGpuDetachError),
    KillGpuUse(KillGpuUseError),
    SwitchDrivers(SwitchDriversError),
    HotplugPlug(IoError),
    HotplugUnplug(IoError),
    PciRescan(RescanPCIError),
}

/// The view of a [`SetModeError`].
pub enum SetModeErrorView {
    FindGpu(RescanPCIErrorView),
    ModprobeConf(IoError),
    GpuDetach(SendGpuDetachError),
    KillGpuUse(KillGpuUseErrorView),
    SwitchDrivers(SwitchDriversErrorView),
    HotplugPlug(IoError),
    HotplugUnplug(IoError),
    PciRescan(RescanPCIErrorView),
}

impl DeepView for SetModeError {
    type V = SetModeErrorView;

    open spec fn deep_view(&self) -> SetModeErrorView {
        match self {
            SetModeError::FindGpu(e) => SetModeErrorView::FindGpu(e.deep_view()),
            SetModeError::ModprobeConf(e) => SetModeErrorView::ModprobeConf(*e),
            SetModeError::GpuDetach(e) => SetModeErrorView::GpuDetach(*e),
            SetModeError::KillGpuUse(e) => SetModeErrorView::KillGpuUse(e.deep_view()),
            SetModeError::SwitchDrivers(e) => SetModeErrorView::SwitchDrivers(e.deep_view()),
            SetModeError::HotplugPlug(e) => SetModeErrorView::HotplugPlug(*e),
            SetModeError::HotplugUnplug(e) => SetModeErrorView::HotplugUnplug(*e),
            SetModeError::PciRescan(e) => SetModeErrorView::PciRescan(e.deep_view()),
        }
    }
}

/// The kernel modules of the vendor's driver, in the order in which they can be unloaded.
pub open spec fn nvidia_drivers() -> Seq<Seq<char>> {
    seq![
        "nvidia_uvm"@,
        "nvidia_drm"@,
        "nvidia_modeset"@,
        "nvidia"@,
        "nvidia-wmi-ec-backlight"@,
    ]
}

/// The kernel modules of the pass-through driver, in the order in which they can be unloaded.
pub open spec fn vfio_drivers() -> Seq<Seq<char>> {
    seq!["vfio_pci"@, "vfio_iommu_type1"@, "vfio_pci_core"@, "vfio"@]
}

/// The modules to unload when a driver of the given type goes.
pub open spec fn modules_of(ty: DriverType) -> Seq<Seq<char>> {
    match ty {
        DriverType::Nvidia => nvidia_drivers(),
        DriverType::Vfio => vfio_drivers(),
        DriverType::NoDriver => seq![],
    }
}

/// The type of the driver with the given name; a name that could not be found out counts as none.
pub open spec fn driver_type(driver: Result<Seq<char>, IoError>) -> DriverType {
    match driver {
        Ok(name) => if name == "nvidia"@ {
            DriverType::Nvidia
        } else if name == "vfio-pci"@ {
            DriverType::Vfio
        } else {
            DriverType::NoDriver
        },
        Err(_) => DriverType::NoDriver,
    }
}

/// The mode in which a driver of the given type is at work.
pub open spec fn mode_of(ty: DriverType) -> GpuMode {
    match ty {
        DriverType::Nvidia => GpuMode::Nvidia,
        DriverType::Vfio => GpuMode::Vfio,
        DriverType::NoDriver => GpuMode::Integrated,
    }
}

/// The mode that the GPU is in, by the driver that it is bound to.
pub open spec fn get_mode(t: Seq<ReplyView>, at: int, s: GpuSwitcherView) -> Step<GpuMode> {
    match s.gpu {
        None => Ok((GpuMode::Integrated, at)),
        Some(gpu) => match pci::driver_of(t, at, gpu.pci.bus_id) {
            Err(action) => Err(action),
            Ok((driver, n)) => Ok((mode_of(driver_type(driver)), n)),
        },
    }
}

/// The lines that keep the kernel from loading these modules.
pub open spec fn blacklist(modules: Seq<Seq<char>>) -> Seq<Seq<char>> {
    modules.map_values(|module: Seq<char>| "blacklist "@ + module)
}

/// What the module configuration says in each mode.
pub open spec fn modprobe_conf(ty: ModprobeConfType) -> Seq<char> {
    text::joined(
        match ty {
            ModprobeConfType::Vfio | ModprobeConfType::Integrated => blacklist(
                seq!["nouveau"@] + nvidia_drivers(),
            ),
            ModprobeConfType::Nvidia => blacklist(seq!["nouveau"@]) + seq![
                "\n        options nvidia-drm modeset=1\n        "@,
                "\n        options nvidia-wmi-ec-backlight force=1\n        "@,
            ],
        },
        "\n"@,
    )
}

/// Writes the module configuration.
pub open spec fn write_modprobe(t: Seq<ReplyView>, at: int, ty: ModprobeConfType) -> Step<
    Result<(), IoError>,
> {
    system::write(t, at, "/etc/modprobe.d/gpu-switcherd.conf"@, modprobe_conf(ty))
}

/// The file that announces the vendor's Vulkan driver.
pub open spec fn active_icd() -> Seq<char> {
    "/usr/share/vulkan/icd.d/nvidia_icd.json"@
}

/// The name under which that file is not looked at.
pub open spec fn inactive_icd() -> Seq<char> {
    "/usr/share/vulkan/icd.d/nvidia_icd.json_inactive"@
}

/// Whether the Vulkan driver is announced: by the first of the two files that exists.
pub open spec fn icd_state(t: Seq<ReplyView>, at: int) -> Step<Option<IcdType>> {
    match system::path_exists(t, at, active_icd()) {
        Err(action) => Err(action),
        Ok((true, n)) => Ok((Some(IcdType::Active), n)),
        Ok((false, n)) => match system::path_exists(t, n, inactive_icd()) {
            Err(action) => Err(action),
            Ok((true, n)) => Ok((Some(IcdType::Inactive), n)),
            Ok((false, n)) => Ok((None, n)),
        },
    }
}

/// Announces the Vulkan driver or stops announcing it.
pub open spec fn switch_icd(t: Seq<ReplyView>, at: int, new_state: IcdType) -> Step<
    Result<(), SwitchIcdError>,
> {
    match icd_state(t, at) {
        Err(action) => Err(action),
        Ok((None, n)) => Ok((Err(SwitchIcdError::IcdMissing), n)),
        Ok((Some(state), n)) => if state == new_state {
            Ok((Ok(()), n))
        } else {
            match match new_state {
                IcdType::Active => system::rename(t, n, inactive_icd(), active_icd()),
                IcdType::Inactive => system::rename(t, n, active_icd(), inactive_icd()),
            } {
                Err(action) => Err(action),
                Ok((Ok(()), n)) => Ok((Ok(()), n)),
                Ok((Err(e), n)) => Ok((Err(SwitchIcdError::Rename(e)), n)),
            }
        },
    }
}

/// The platform driver's switch: it holds `1` while the GPU is off.
pub open spec fn asus_switch() -> Seq<char> {
    "/sys/devices/platform/asus-nb-wmi/dgpu_disable"@
}

/// What a slot's power file holds in the given state.
pub open spec fn power_text(ty: HotplugState) -> Seq<char> {
    match ty {
        HotplugState::Plug => "1"@,
        HotplugState::Unplug => "0"@,
    }
}

/// What a slot's power file says of the state.
pub open spec fn power_state(power: Seq<char>) -> HotplugState {
    if "1"@.is_prefix_of(power) {
        HotplugState::Plug
    } else {
        HotplugState::Unplug
    }
}

/// What the platform driver's switch holds in the given state.
pub open spec fn disable_text(ty: HotplugState) -> Seq<char> {
    match ty {
        HotplugState::Plug => "0"@,
        HotplugState::Unplug => "1"@,
    }
}

/// What the platform driver's switch says of the state.
pub open spec fn disable_state(disable: Seq<char>) -> HotplugState {
    if "1"@.is_prefix_of(disable) {
        HotplugState::Unplug
    } else {
        HotplugState::Plug
    }
}

/// The state that the platform driver's switch is in.
pub open spec fn asus_state(t: Seq<ReplyView>, at: int) -> Step<Result<HotplugState, IoError>> {
    match system::read(t, at, asus_switch()) {
        Err(action) => Err(action),
        Ok((Err(e), n)) => Ok((Err(e), n)),
        Ok((Ok(disable), n)) => Ok((Ok(disable_state(disable)), n)),
    }
}

/// Sets the platform driver's switch, unless it is set so already.
pub open spec fn hotplug_asus(t: Seq<ReplyView>, at: int, ty: HotplugState) -> Step<
    Result<(), IoError>,
> {
    match asus_state(t, at) {
        Err(action) => Err(action),
        Ok((Err(e), n)) => Ok((Err(e), n)),
        Ok((Ok(state), n)) => if state == ty {
            Ok((Ok(()), n))
        } else {
            system::write(t, n, asus_switch(), disable_text(ty))
        },
    }
}

/// The slot that the GPU sits in, if there is a GPU and its slot is known.
pub open spec fn known_slot(s: GpuSwitcherView) -> Option<Seq<char>> {
    match s.gpu {
        Some(gpu) => gpu.gpu_slot,
        None => None,
    }
}

/// Switches the GPU's power. Without a known slot there is nothing to do.
pub open spec fn hotplug_gpu(t: Seq<ReplyView>, at: int, s: GpuSwitcherView, ty: HotplugState) -> Step<
    Result<(), IoError>,
> {
    match s.hotplug_type {
        HotplugType::Normal => match known_slot(s) {
            None => Ok((Ok(()), at)),
            Some(slot) => match system::sleep(t, at, 1000) {
                Err(action) => Err(action),
                Ok((_, n)) => system::write(t, n, text::path_in(slot, "power"@), power_text(ty)),
            },
        },
        HotplugType::Asus => hotplug_asus(t, at, ty),
    }
}

/// Whether the GPU has power.
pub open spec fn get_hotplug_state(t: Seq<ReplyView>, at: int, s: GpuSwitcherView) -> Step<
    Result<HotplugState, HotplugStateError>,
> {
    match s.hotplug_type {
        HotplugType::Normal => match known_slot(s) {
            None => Ok((Err(HotplugStateError::NotFound), at)),
            Some(slot) => match system::read(t, at, text::path_in(slot, "power"@)) {
                Err(action) => Err(action),
                Ok((Err(e), n)) => Ok((Err(HotplugStateError::Io(e)), n)),
                Ok((Ok(power), n)) => Ok((Ok(power_state(power)), n)),
            },
        },
        HotplugType::Asus => match asus_state(t, at) {
            Err(action) => Err(action),
            Ok((Err(e), n)) => Ok((Err(HotplugStateError::Io(e)), n)),
            Ok((Ok(state), n)) => Ok((Ok(state), n)),
        },
    }
}

/// Whether the mode needs the dedicated GPU.
pub open spec fn requires_dgpu(mode: GpuMode) -> bool {
    mode != GpuMode::Integrated
}

/// Looks for the GPU at `bus` after the kernel has looked for new devices. In a mode that does
/// without it, a GPU that is not found or cannot be described counts as absent.
pub open spec fn rescan_pci(t: Seq<ReplyView>, at: int, bus: PCIBusId, new_mode: GpuMode) -> Step<
    Result<Option<GpuDeviceView>, RescanPCIErrorView>,
> {
    match system::write(t, at, "/sys/bus/pci/rescan"@, "1"@) {
        Err(action) => Err(action),
        Ok((Err(e), n)) => Ok((Err(RescanPCIErrorView::Rescan(e)), n)),
        Ok((Ok(()), n)) => match pci::find_device(t, n, bus) {
            Err(action) => Err(action),
            Ok((Err(e), n)) => if requires_dgpu(new_mode) {
                Ok((Err(RescanPCIErrorView::GpuNotFound(e)), n))
            } else {
                Ok((Ok(None), n))
            },
            Ok((Ok(device), n)) => match gpu::describe(t, n, device) {
                Err(action) => Err(action),
                Ok((Err(e), n)) => if requires_dgpu(new_mode) {
                    Ok((Err(RescanPCIErrorView::GpuCreation(e)), n))
                } else {
                    Ok((Ok(None), n))
                },
                Ok((Ok(gpu), n)) => Ok((Ok(Some(gpu)), n)),
            },
        },
    }
}

/// The services that belong to the vendor's driver.
pub open spec fn services(ty: ServiceType) -> Seq<Seq<char>> {
    match ty {
        ServiceType::Nvidia => seq!["nvidia-persistenced.service"@, "nvidia-powerd.service"@],
    }
}

pub open spec fn service_verb(state: ServiceState) -> Seq<char> {
    match state {
        ServiceState::Stop => "stop"@,
        ServiceState::Start => "start"@,
    }
}

/// Stops or starts services.
pub open spec fn switch_services(
    t: Seq<ReplyView>,
    at: int,
    state: ServiceState,
    ty: ServiceType,
) -> Step<Result<(), SwitchServicesError>> {
    match system::run(t, at, "systemctl"@, seq![service_verb(state)] + services(ty)) {
        Err(action) => Err(action),
        Ok((Err(e), n)) => Ok((Err(SwitchServicesError::Io(e)), n)),
        Ok((Ok(ExitStatus::Code(code)), n)) => Ok((Err(SwitchServicesError::ExitCode(code)), n)),
        Ok((Ok(ExitStatus::Success), n)) => Ok((Ok(()), n)),
    }
}

/// Tells the users of the GPU's cards that they go away.
pub open spec fn send_gpu_detach(t: Seq<ReplyView>, at: int, s: GpuSwitcherView) -> Step<
    Result<(), SendGpuDetachError>,
> {
    match s.gpu {
        None => Ok((Err(SendGpuDetachError::NoGpu), at)),
        Some(gpu) => match gpu::send_detach(t, at, gpu.pci.bus_id, gpu.cards, 0) {
            Err(action) => Err(action),
            Ok((Err(e), n)) => Ok((Err(SendGpuDetachError::Io(e)), n)),
            Ok((Ok(()), n)) => Ok((Ok(()), n)),
        },
    }
}

/// `prefix` with each of the numbers behind it.
pub open spec fn numbered(prefix: Seq<char>, numbers: Seq<u8>) -> Seq<Seq<char>> {
    numbers.map_values(|n: u8| prefix + digits::decimal(n as nat))
}

/// The device nodes by which processes use the GPU.
pub open spec fn device_nodes(gpu: GpuDeviceView) -> Seq<Seq<char>> {
    numbered("/dev/dri/card"@, gpu.cards) + numbered("/dev/dri/renderD"@, gpu.render_devices)
        + seq!["/dev/nvidia0"@]
}

/// Ends the processes of the list, from number `i` on, until one cannot be ended.
pub open spec fn kill_holders(t: Seq<ReplyView>, at: int, list: Seq<HolderView>, i: int) -> Step<
    Result<(), KillGpuUseErrorView>,
>
    decreases list.len() - i,
{
    if i < 0 || i >= list.len() {
        Ok((Ok(()), at))
    } else {
        match system::kill(t, at, system::process_id(list[i].pid)->0) {
            Err(action) => Err(action),
            Ok((code, n)) => if code != 0 {
                let name = match list[i].name {
                    Some(name) => name,
                    None => "unknown"@,
                };
                Ok((Err(KillGpuUseErrorView::KillProcess(name, code)), n))
            } else {
                kill_holders(t, n, list, i + 1)
            },
        }
    }
}

/// Ends the processes that hold the nodes open, from number `i` of the nodes on. A node whose
/// users cannot be listed is passed over.
pub open spec fn kill_users(t: Seq<ReplyView>, at: int, nodes: Seq<Seq<char>>, i: int) -> Step<
    Result<(), KillGpuUseErrorView>,
>
    decreases nodes.len() - i,
{
    if i < 0 || i >= nodes.len() {
        Ok((Ok(()), at))
    } else {
        match system::list_holders(t, at, nodes[i]) {
            Err(action) => Err(action),
            Ok((None, n)) => kill_users(t, n, nodes, i + 1),
            Ok((Some(list), n)) => match kill_holders(t, n, list, 0) {
                Err(action) => Err(action),
                Ok((Err(e), n)) => Ok((Err(e), n)),
                Ok((Ok(()), n)) => kill_users(t, n, nodes, i + 1),
            },
        }
    }
}

/// Ends the processes that use the GPU.
pub open spec fn kill_gpu_use(t: Seq<ReplyView>, at: int, s: GpuSwitcherView) -> Step<
    Result<(), KillGpuUseErrorView>,
> {
    match s.gpu {
        None => Ok((Err(KillGpuUseErrorView::NoGpu), at)),
        Some(gpu) => kill_users(t, at, device_nodes(gpu), 0),
    }
}

/// The arguments that unload a module.
pub open spec fn rmmod_args(module: Seq<char>, force: bool) -> Seq<Seq<char>> {
    if force {
        seq!["-f"@, module]
    } else {
        seq![module]
    }
}

/// Unloads a module. All that is a failure is that it is in use.
pub open spec fn unload_driver(t: Seq<ReplyView>, at: int, module: Seq<char>, force: bool) -> Step<
    Result<(), UnloadDriverErrorView>,
> {
    match system::run_for_errors(t, at, "rmmod"@, rmmod_args(module, force)) {
        Err(action) => Err(action),
        Ok((Err(e), n)) => Ok((Err(UnloadDriverErrorView::Io(e)), n)),
        Ok((Ok(stderr), n)) => if text::occurs(stderr, "in use"@) {
            Ok((Err(UnloadDriverErrorView::DriverInUse(module)), n))
        } else {
            Ok((Ok(()), n))
        },
    }
}

/// Unloads the modules, from number `i` on, until one fails.
pub open spec fn unload_drivers(
    t: Seq<ReplyView>,
    at: int,
    modules: Seq<Seq<char>>,
    i: int,
    force: bool,
) -> Step<Result<(), UnloadDriverErrorView>>
    decreases modules.len() - i,
{
    if i < 0 || i >= modules.len() {
        Ok((Ok(()), at))
    } else {
        match unload_driver(t, at, modules[i], force) {
            Err(action) => Err(action),
            Ok((Err(e), n)) => Ok((Err(e), n)),
            Ok((Ok(()), n)) => unload_drivers(t, n, modules, i + 1, force),
        }
    }
}

/// Loads modules.
pub open spec fn load_modules(t: Seq<ReplyView>, at: int, modules: Seq<Seq<char>>) -> Step<
    Result<(), DriverLoadError>,
> {
    match system::run(t, at, "modprobe"@, modules) {
        Err(action) => Err(action),
        Ok((Err(e), n)) => Ok((Err(DriverLoadError::Io(e)), n)),
        Ok((Ok(ExitStatus::Code(code)), n)) => Ok((Err(DriverLoadError::ExitCode(code)), n)),
        Ok((Ok(ExitStatus::Success), n)) => Ok((Ok(()), n)),
    }
}

/// Brings in the driver of the given type.
pub open spec fn load_driver(t: Seq<ReplyView>, at: int, gpu: GpuDeviceView, ty: DriverType) -> Step<
    Result<(), SwitchDriversErrorView>,
> {
    match ty {
        DriverType::NoDriver => Ok((Ok(()), at)),
        DriverType::Nvidia => match load_modules(t, at, seq!["nvidia_drm"@, "nvidia_uvm"@]) {
            Err(action) => Err(action),
            Ok((Err(e), n)) => Ok((Err(SwitchDriversErrorView::DriverLoad(e)), n)),
            Ok((Ok(()), n)) => Ok((Ok(()), n)),
        },
        DriverType::Vfio => match load_modules(t, at, seq!["vfio_pci"@]) {
            Err(action) => Err(action),
            Ok((Err(e), n)) => Ok((Err(SwitchDriversErrorView::DriverLoad(e)), n)),
            Ok((Ok(()), n)) => match gpu::bind_vfio(t, n, gpu) {
                Err(action) => Err(action),
                Ok((Err(e), n)) => Ok((Err(SwitchDriversErrorView::DriverBind(e)), n)),
                Ok((Ok(()), n)) => Ok((Ok(()), n)),
            },
        },
    }
}

/// Brings the GPU from the driver that it is bound to, to one of the given type: unloads the one,
/// unbinds the GPU whatever comes of that, and brings in the other.
pub open spec fn switch_drivers(
    t: Seq<ReplyView>,
    at: int,
    s: GpuSwitcherView,
    ty: DriverType,
    force: bool,
) -> Step<Result<(), SwitchDriversErrorView>> {
    match s.gpu {
        None => Ok((Err(SwitchDriversErrorView::NoGpu), at)),
        Some(gpu) => match pci::driver_of(t, at, gpu.pci.bus_id) {
            Err(action) => Err(action),
            Ok((driver, n)) => if driver_type(driver) == ty {
                Ok((Ok(()), n))
            } else {
                match unload_drivers(t, n, modules_of(driver_type(driver)), 0, force) {
                    Err(action) => Err(action),
                    Ok((Err(e), n)) => Ok((Err(SwitchDriversErrorView::DriverUnload(e)), n)),
                    Ok((Ok(()), n)) => match gpu::unbind(t, n, gpu) {
                        Err(action) => Err(action),
                        Ok((_, n)) => load_driver(t, n, gpu, ty),
                    },
                }
            },
        },
    }
}

/// A step on the way to a mode. Unless said otherwise, its failure ends the way.
#[derive(Debug, Copy, Clone, PartialEq, Eq, Structural)]
pub enum ModeStep {
    /// Look for the GPU.
    FindGpu(GpuMode),
    /// Look for it again, now that it has power.
    FindGpuAgain(GpuMode),
    WriteModprobe(ModprobeConfType),
    /// Give the GPU power, unless it is known to have it.
    PlugIfUnplugged,
    SendDetach,
    Wait(u64),
    /// A failure is of no consequence.
    SwitchServices(ServiceState),
    KillUsers,
    /// A failure is of no consequence.
    SwitchIcd(IcdType),
    SwitchDrivers(DriverType),
    /// Give the GPU power. A failure is of no consequence.
    TryPlug,
    Unplug,
}

/// The steps that free the GPU of its users.
pub open spec fn release_steps() -> Seq<ModeStep> {
    seq![
        ModeStep::SendDetach,
        ModeStep::Wait(5000),
        ModeStep::SwitchServices(ServiceState::Stop),
        ModeStep::KillUsers,
        ModeStep::SwitchIcd(IcdType::Inactive),
    ]
}

/// The steps that power the GPU and find it.
pub open spec fn power_steps(mode: GpuMode) -> Seq<ModeStep> {
    seq![ModeStep::PlugIfUnplugged, ModeStep::FindGpuAgain(mode)]
}

/// The steps from one mode to another.
#[verifier::opaque]
pub open spec fn mode_steps(current: GpuMode, mode: GpuMode) -> Seq<ModeStep> {
    match mode {
        GpuMode::Integrated => seq![
            ModeStep::FindGpu(mode),
            ModeStep::WriteModprobe(ModprobeConfType::Integrated),
        ] + release_steps() + seq![
            ModeStep::SwitchDrivers(DriverType::NoDriver),
            ModeStep::TryPlug,
            ModeStep::Unplug,
        ],
        GpuMode::Nvidia => seq![
            ModeStep::FindGpu(mode),
            ModeStep::WriteModprobe(ModprobeConfType::Nvidia),
        ] + power_steps(mode) + seq![
            ModeStep::Wait(500),
            ModeStep::SwitchDrivers(DriverType::Nvidia),
            ModeStep::SwitchServices(ServiceState::Start),
            ModeStep::SwitchIcd(IcdType::Inactive),
        ],
        GpuMode::Vfio => seq![
            ModeStep::FindGpu(mode),
            ModeStep::WriteModprobe(ModprobeConfType::Vfio),
        ] + power_steps(mode) + (if current == GpuMode::Nvidia {
            release_steps()
        } else {
            seq![]
        }) + seq![ModeStep::Wait(500), ModeStep::SwitchDrivers(DriverType::Vfio)],
    }
}

/// Takes one step. It leaves the switcher as it was, but for the GPU that it finds.
#[verifier::opaque]
pub open spec fn take_step(
    t: Seq<ReplyView>,
    at: int,
    s: GpuSwitcherView,
    step: ModeStep,
    force: bool,
) -> Step<(GpuSwitcherView, Result<(), SetModeErrorView>)> {
    match step {
        ModeStep::FindGpu(mode) => match rescan_pci(t, at, s.bus_id, mode) {
            Err(action) => Err(action),
            Ok((Err(e), n)) => Ok(((s, Err(SetModeErrorView::FindGpu(e))), n)),
            Ok((Ok(gpu), n)) => Ok(((GpuSwitcherView { gpu, ..s }, Ok(())), n)),
        },
        ModeStep::FindGpuAgain(mode) => match rescan_pci(t, at, s.bus_id, mode) {
            Err(action) => Err(action),
            Ok((Err(e), n)) => Ok(((s, Err(SetModeErrorView::PciRescan(e))), n)),
            Ok((Ok(gpu), n)) => Ok(((GpuSwitcherView { gpu, ..s }, Ok(())), n)),
        },
        ModeStep::WriteModprobe(ty) => match write_modprobe(t, at, ty) {
            Err(action) => Err(action),
            Ok((Err(e), n)) => Ok(((s, Err(SetModeErrorView::ModprobeConf(e))), n)),
            Ok((Ok(()), n)) => Ok(((s, Ok(())), n)),
        },
        ModeStep::PlugIfUnplugged => match get_hotplug_state(t, at, s) {
            Err(action) => Err(action),
            Ok((state, n)) => if state == Ok::<HotplugState, HotplugStateError>(
                HotplugState::Plug,
            ) {
                Ok(((s, Ok(())), n))
            } else {
                match hotplug_gpu(t, n, s, HotplugState::Plug) {
                    Err(action) => Err(action),
                    Ok((Err(e), n)) => Ok(((s, Err(SetModeErrorView::HotplugPlug(e))), n)),
                    Ok((Ok(()), n)) => Ok(((s, Ok(())), n)),
                }
            },
        },
        ModeStep::SendDetach => match send_gpu_detach(t, at, s) {
            Err(action) => Err(action),
            Ok((Err(e), n)) => Ok(((s, Err(SetModeErrorView::GpuDetach(e))), n)),
            Ok((Ok(()), n)) => Ok(((s, Ok(())), n)),
        },
        ModeStep::Wait(millis) => match system::sleep(t, at, millis) {
            Err(action) => Err(action),
            Ok((_, n)) => Ok(((s, Ok(())), n)),
        },
        ModeStep::SwitchServices(state) => match switch_services(
            t,
            at,
            state,
            ServiceType::Nvidia,
        ) {
            Err(action) => Err(action),
            Ok((_, n)) => Ok(((s, Ok(())), n)),
        },
        ModeStep::KillUsers => match kill_gpu_use(t, at, s) {
            Err(action) => Err(action),
            Ok((Err(e), n)) => Ok(((s, Err(SetModeErrorView::KillGpuUse(e))), n)),
            Ok((Ok(()), n)) => Ok(((s, Ok(())), n)),
        },
        ModeStep::SwitchIcd(state) => match switch_icd(t, at, state) {
            Err(action) => Err(action),
            Ok((_, n)) => Ok(((s, Ok(())), n)),
        },
        ModeStep::SwitchDrivers(ty) => match switch_drivers(t, at, s, ty, force) {
            Err(action) => Err(action),
            Ok((Err(e), n)) => Ok(((s, Err(SetModeErrorView::SwitchDrivers(e))), n)),
            Ok((Ok(()), n)) => Ok(((s, Ok(())), n)),
        },
        ModeStep::TryPlug => match hotplug_gpu(t, at, s, HotplugState::Plug) {
            Err(action) => Err(action),
            Ok((_, n)) => Ok(((s, Ok(())), n)),
        },
        ModeStep::Unplug => match hotplug_gpu(t, at, s, HotplugState::Unplug) {
            Err(action) => Err(action),
            Ok((Err(e), n)) => Ok(((s, Err(SetModeErrorView::HotplugUnplug(e))), n)),
            Ok((Ok(()), n)) => Ok(((s, Ok(())), n)),
        },
    }
}

/// Takes the steps, from number `i` on, until one fails.
pub open spec fn take_steps(
    t: Seq<ReplyView>,
    at: int,
    s: GpuSwitcherView,
    steps: Seq<ModeStep>,
    i: int,
    force: bool,
) -> Step<(GpuSwitcherView, Result<(), SetModeErrorView>)>
    decreases steps.len() - i,
{
    if i < 0 || i >= steps.len() {
        Ok(((s, Ok(())), at))
    } else {
        match take_step(t, at, s, steps[i], force) {
            Err(action) => Err(action),
            Ok(((s, Err(e)), n)) => Ok(((s, Err(e)), n)),
            Ok(((s, Ok(())), n)) => take_steps(t, n, s, steps, i + 1, force),
        }
    }
}

/// Brings the GPU to the given mode; there is nothing to do if it is in that mode already.
pub open spec fn set_gpu_mode(
    t: Seq<ReplyView>,
    at: int,
    s: GpuSwitcherView,
    mode: GpuMode,
    force: bool,
) -> Step<(GpuSwitcherView, Result<(), SetModeErrorView>)> {
    match get_mode(t, at, s) {
        Err(action) => Err(action),
        Ok((current, n)) => if current == mode {
            Ok(((s, Ok(())), n))
        } else {
            take_steps(t, n, s, mode_steps(current, mode), 0, force)
        },
    }
}

/// Why the switcher did not start.
#[derive(Debug)]
pub enum StartError {
    /// The configured device path is no bus id.
    InvalidDevicePath,
    GpuCreation(GpuDeviceCreationError),
}

/// The view of a [`StartError`].
pub enum StartErrorView {
    InvalidDevicePath,
    GpuCreation(GpuDeviceCreationErrorView),
}

impl DeepView for StartError {
    type V = StartErrorView;

    open spec fn deep_view(&self) -> StartErrorView {
        match self {
            StartError::InvalidDevicePath => StartErrorView::InvalidDevicePath,
            StartError::GpuCreation(e) => StartErrorView::GpuCreation(e.deep_view()),
        }
    }
}

/// Starts a switcher for the configured device. The device may be absent, but not beyond
/// description.
pub open spec fn start(t: Seq<ReplyView>, at: int, device_path: Seq<char>) -> Step<
    Result<GpuSwitcherView, StartErrorView>,
> {
    match pci::bus_id(device_path) {
        None => Ok((Err(StartErrorView::InvalidDevicePath), at)),
        Some(bus_id) => match pci::find_device(t, at, bus_id) {
            Err(action) => Err(action),
            Ok((Err(_), n)) => Ok(
                (
                    Ok(GpuSwitcherView { bus_id, gpu: None, hotplug_type: HotplugType::Normal }),
                    n,
                ),
            ),
            Ok((Ok(device), n)) => match gpu::describe(t, n, device) {
                Err(action) => Err(action),
                Ok((Err(e), n)) => Ok((Err(StartErrorView::GpuCreation(e)), n)),
                Ok((Ok(gpu), n)) => Ok(
                    (
                        Ok(
                            GpuSwitcherView {
                                bus_id,
                                gpu: Some(gpu),
                                hotplug_type: HotplugType::Normal,
                            },
                        ),
                        n,
                    ),
                ),
            },
        },
    }
}

/// What is said to go wrong when the step fails; the first search for the GPU speaks for itself.
pub open spec fn failure_context(e: SetModeErrorView) -> Option<Seq<char>> {
    match e {
        SetModeErrorView::FindGpu(_) => None,
        SetModeErrorView::ModprobeConf(_) => Some("modprobe conf write"@),
        SetModeErrorView::GpuDetach(_) => Some("send gpu detach"@),
        SetModeErrorView::KillGpuUse(_) => Some("kill gpu use"@),
        SetModeErrorView::SwitchDrivers(_) => Some("switch drivers"@),
        SetModeErrorView::HotplugPlug(_) => Some("hotplug plug"@),
        SetModeErrorView::HotplugUnplug(_) => Some("hotplug unplug"@),
        SetModeErrorView::PciRescan(_) => Some("pci rescan"@),
    }
}

impl SetModeError {
    /// What is said to go wrong when the step fails.
    pub fn context(&self) -> (r: Option<&'static str>)
        ensures
            r.deep_view() == failure_context(self.deep_view()),
    {
        match self {
            SetModeError::FindGpu(_) => None,
            SetModeError::ModprobeConf(_) => Some("modprobe conf write"),
            SetModeError::GpuDetach(_) => Some("send gpu detach"),
            SetModeError::KillGpuUse(_) => Some("kill gpu use"),
            SetModeError::SwitchDrivers(_) => Some("switch drivers"),
            SetModeError::HotplugPlug(_) => Some("hotplug plug"),
            SetModeError::HotplugUnplug(_) => Some("hotplug unplug"),
            SetModeError::PciRescan(_) => Some("pci rescan"),
        }
    }
}

/// The type of the driver with the given name.
fn type_of_driver(driver: Result<&str, IoError>) -> (r: DriverType)
    ensures
        r == driver_type(system::result_view(driver)),
{
    match driver {
        Ok(name) => {
            if text::same(name, "nvidia") {
                DriverType::Nvidia
            } else if text::same(name, "vfio-pci") {
                DriverType::Vfio
            } else {
                DriverType::NoDriver
            }
        },
        Err(_) => DriverType::NoDriver,
    }
}

/// The modules to unload when a driver of the given type goes.
fn modules_to_unload(ty: DriverType) -> (r: Vec<&'static str>)
    ensures
        r.deep_view() == modules_of(ty),
{
    let r = match ty {
        DriverType::Nvidia => vec![
            "nvidia_uvm",
            "nvidia_drm",
            "nvidia_modeset",
            "nvidia",
            "nvidia-wmi-ec-backlight",
        ],
        DriverType::Vfio => vec!["vfio_pci", "vfio_iommu_type1", "vfio_pci_core", "vfio"],
        DriverType::NoDriver => Vec::new(),
    };
    assert(r.deep_view() =~= modules_of(ty));
    r
}

/// Adds a line to `lines` for each module.
fn blacklist_modules(lines: &mut Vec<String>, modules: &Vec<&'static str>)
    ensures
        final(lines).deep_view() == old(lines).deep_view() + blacklist(modules.deep_view()),
{
    let ghost before = lines.deep_view();
    let ghost added = blacklist(modules.deep_view());
    let mut i: usize = 0;
    assert(before + added.take(0) =~= before);
    while i < modules.len()
        invariant
            i <= modules.len(),
            added == blacklist(modules.deep_view()),
            lines.deep_view() == before + added.take(i as int),
        decreases modules.len() - i,
    {
        let line = text::concat("blacklist ", modules[i]);
        assert(line@ == added[i as int]);
        let ghost so_far = lines.deep_view();
        lines.push(line);
        assert(lines.deep_view() =~= so_far.push(line@));
        assert(added.take(i + 1) =~= added.take(i as int).push(added[i as int]));
        i = i + 1;
    }
    assert(added.take(i as int) =~= added);
}

/// The module configuration for a mode.
pub fn modprobe_content(ty: ModprobeConfType) -> (r: String)
    ensures
        r@ == modprobe_conf(ty),
{
    let mut lines: Vec<String> = Vec::new();
    assert(lines.deep_view() =~= Seq::<Seq<char>>::empty());
    let oss: Vec<&'static str> = vec!["nouveau"];
    assert(oss.deep_view() =~= seq!["nouveau"@]);
    blacklist_modules(&mut lines, &oss);
    match ty {
        ModprobeConfType::Vfio | ModprobeConfType::Integrated => {
            blacklist_modules(&mut lines, &modules_to_unload(DriverType::Nvidia));
            assert(lines.deep_view() =~= blacklist(seq!["nouveau"@] + nvidia_drivers()));
        },
        ModprobeConfType::Nvidia => {
            lines.push("\n        options nvidia-drm modeset=1\n        ".to_owned());
            lines.push("\n        options nvidia-wmi-ec-backlight force=1\n        ".to_owned());
            assert(lines.deep_view() =~= blacklist(seq!["nouveau"@]) + seq![
                "\n        options nvidia-drm modeset=1\n        "@,
                "\n        options nvidia-wmi-ec-backlight force=1\n        "@,
            ]);
        },
    }
    text::join(&lines, "\n")
}

/// Adds `prefix` with each number behind it to `paths`.
fn number_paths(paths: &mut Vec<String>, prefix: &str, numbers: &Vec<u8>)
    ensures
        final(paths).deep_view() == old(paths).deep_view() + numbered(prefix@, numbers@),
{
    let ghost before = paths.deep_view();
    let ghost added = numbered(prefix@, numbers@);
    let mut i: usize = 0;
    assert(before + added.take(0) =~= before);
    while i < numbers.len()
        invariant
            i <= numbers.len(),
            added == numbered(prefix@, numbers@),
            paths.deep_view() == before + added.take(i as int),
        decreases numbers.len() - i,
    {
        let path = text::concat(prefix, digits::decimal_text(numbers[i] as usize).as_str());
        assert(path@ == added[i as int]);
        let ghost so_far = paths.deep_view();
        paths.push(path);
        assert(paths.deep_view() =~= so_far.push(path@));
        assert(added.take(i + 1) =~= added.take(i as int).push(added[i as int]));
        i = i + 1;
    }
    assert(added.take(i as int) =~= added);
}

/// The device nodes by which processes use the GPU.
fn nodes_of(gpu: &GpuDevice) -> (r: Vec<String>)
    ensures
        r.deep_view() == device_nodes(gpu.deep_view()),
{
    let mut paths: Vec<String> = Vec::new();
    number_paths(&mut paths, "/dev/dri/card", &gpu.cards);
    number_paths(&mut paths, "/dev/dri/renderD", &gpu.render_devices);
    paths.push("/dev/nvidia0".to_owned());
    assert(paths.deep_view() =~= device_nodes(gpu.deep_view()));
    paths
}

/// Ends the processes of the list until one cannot be ended.
fn kill_all(t: &Transcript, at: usize, list: &Vec<Holder>) -> (r: Progress<
    Result<(), KillGpuUseError>,
>)
    requires
        forall|i: int|
            0 <= i < list.deep_view().len() ==> system::process_id(
                #[trigger] list.deep_view()[i].pid,
            ) is Some,
    ensures
        system::outcome_view(r) == kill_holders(t@, at as int, list.deep_view(), 0),
{
    let mut here: usize = at;
    let mut i: usize = 0;
    while i < list.len()
        invariant
            i <= list.len(),
            forall|i: int|
                0 <= i < list.deep_view().len() ==> system::process_id(
                    #[trigger] list.deep_view()[i].pid,
                ) is Some,
            kill_holders(t@, at as int, list.deep_view(), 0) == kill_holders(
                t@,
                here as int,
                list.deep_view(),
                i as int,
            ),
        decreases list.len() - i,
    {
        let holder = &list[i];
        assert(holder.deep_view() == list.deep_view()[i as int]);
        assert(system::process_id(list.deep_view()[i as int].pid) is Some);
        let pid: i32 = holder.process_id().unwrap();
        let (code, n) = t.kill(here, pid)?;
        if code != 0 {
            let name = match &holder.name {
                Some(name) => name.clone(),
                None => "unknown".to_owned(),
            };
            return Ok((Err(KillGpuUseError::KillProcess(name, code)), n));
        }
        here = n;
        i = i + 1;
    }
    Ok((Ok(()), here))
}

/// Loads modules.
fn modprobe(t: &Transcript, at: usize, modules: Vec<String>) -> (r: Progress<
    Result<(), DriverLoadError>,
>)
    ensures
        system::outcome_view(r) == load_modules(t@, at as int, modules.deep_view()),
{
    let (status, n) = t.run(at, "modprobe", modules)?;
    match status {
        Ok(ExitStatus::Success) => Ok((Ok(()), n)),
        Ok(ExitStatus::Code(code)) => Ok((Err(DriverLoadError::ExitCode(code)), n)),
        Err(e) => Ok((Err(DriverLoadError::Io(e)), n)),
    }
}

/// The steps from one mode to another.
pub fn steps_between(current: GpuMode, mode: GpuMode) -> (r: Vec<ModeStep>)
    ensures
        r@ == mode_steps(current, mode),
{
    let steps = match mode {
        GpuMode::Integrated => vec![
            ModeStep::FindGpu(mode),
            ModeStep::WriteModprobe(ModprobeConfType::Integrated),
            ModeStep::SendDetach,
            ModeStep::Wait(5000),
            ModeStep::SwitchServices(ServiceState::Stop),
            ModeStep::KillUsers,
            ModeStep::SwitchIcd(IcdType::Inactive),
            ModeStep::SwitchDrivers(DriverType::NoDriver),
            ModeStep::TryPlug,
            ModeStep::Unplug,
        ],
        GpuMode::Nvidia => vec![
            ModeStep::FindGpu(mode),
            ModeStep::WriteModprobe(ModprobeConfType::Nvidia),
            ModeStep::PlugIfUnplugged,
            ModeStep::FindGpuAgain(mode),
            ModeStep::Wait(500),
            ModeStep::SwitchDrivers(DriverType::Nvidia),
            ModeStep::SwitchServices(ServiceState::Start),
            ModeStep::SwitchIcd(IcdType::Inactive),
        ],
        GpuMode::Vfio => {
            if current == GpuMode::Nvidia {
                vec![
                    ModeStep::FindGpu(mode),
                    ModeStep::WriteModprobe(ModprobeConfType::Vfio),
                    ModeStep::PlugIfUnplugged,
                    ModeStep::FindGpuAgain(mode),
                    ModeStep::SendDetach,
                    ModeStep::Wait(5000),
                    ModeStep::SwitchServices(ServiceState::Stop),
                    ModeStep::KillUsers,
                    ModeStep::SwitchIcd(IcdType::Inactive),
                    ModeStep::Wait(500),
                    ModeStep::SwitchDrivers(DriverType::Vfio),
                ]
            } else {
                vec![
                    ModeStep::FindGpu(mode),
                    ModeStep::WriteModprobe(ModprobeConfType::Vfio),
                    ModeStep::PlugIfUnplugged,
                    ModeStep::FindGpuAgain(mode),
                    ModeStep::Wait(500),
                    ModeStep::SwitchDrivers(DriverType::Vfio),
                ]
            }
        },
    };
    proof {
        reveal(mode_steps);
        assert(steps@ =~= mode_steps(current, mode));
    }
    steps
}

impl Clone for GpuSwitcher {
    fn clone(&self) -> (r: GpuSwitcher)
        ensures
            r.deep_view() == self.deep_view(),
    {
        let gpu_device = match &self.dedicated_gpu_info.gpu_device {
            Some(gpu) => Some(gpu.clone()),
            None => None,
        };
        GpuSwitcher {
            dedicated_gpu_info: DedicatedGpuInfo {
                bus_id: self.dedicated_gpu_info.bus_id,
                gpu_device,
            },
            hotplug_type: self.hotplug_type,
        }
    }
}

impl GpuSwitcher {
    /// Starts a switcher for the configured device.
    pub fn start(t: &Transcript, at: usize, device_path: &str) -> (r: Progress<
        Result<GpuSwitcher, StartError>,
    >)
        ensures
            system::outcome_view(r) == start(t@, at as int, device_path@),
    {
        let bus_id = match PCIBusId::try_from(device_path) {
            Ok(bus_id) => bus_id,
            Err(_) => return Ok((Err(StartError::InvalidDevicePath), at)),
        };
        let (device, n) = PCIDevice::find_device(t, at, bus_id)?;
        let (gpu_device, n) = match device {
            Err(_) => (None, n),
            Ok(device) => {
                let (gpu, n) = GpuDevice::new(t, n, device)?;
                match gpu {
                    Ok(gpu) => (Some(gpu), n),
                    Err(e) => return Ok((Err(StartError::GpuCreation(e)), n)),
                }
            },
        };
        let switcher = GpuSwitcher {
            dedicated_gpu_info: DedicatedGpuInfo { bus_id, gpu_device },
            hotplug_type: HotplugType::Normal,
        };
        Ok((Ok(switcher), n))
    }

    /// The mode that the GPU is in.
    pub fn get_mode(&self, t: &Transcript, at: usize) -> (r: Progress<GpuMode>)
        ensures
            system::step_view(r) == get_mode(t@, at as int, self.deep_view()),
    {
        match &self.dedicated_gpu_info.gpu_device {
            None => Ok((GpuMode::Integrated, at)),
            Some(gpu) => {
                let (driver, n) = gpu.pci.get_driver(t, at)?;
                let mode = match type_of_driver(driver) {
                    DriverType::Nvidia => GpuMode::Nvidia,
                    DriverType::Vfio => GpuMode::Vfio,
                    DriverType::NoDriver => GpuMode::Integrated,
                };
                Ok((mode, n))
            },
        }
    }

    /// Brings the GPU to the given mode. As long as a reply is missing the switcher stays as it
    /// is; then it takes note of the GPU that was found on the way, however the way ended.
    pub fn set_mode(&mut self, t: &Transcript, mode: GpuMode, force: bool) -> (r: Progress<
        Result<(), SetModeError>,
    >)
        ensures
            match r {
                Err(action) => {
                    &&& set_gpu_mode(t@, 0, old(self).deep_view(), mode, force) == Err::<
                        ((GpuSwitcherView, Result<(), SetModeErrorView>), int),
                        system::ActionView,
                    >(action.deep_view())
                    &&& final(self).deep_view() == old(self).deep_view()
                },
                Ok((result, n)) => set_gpu_mode(t@, 0, old(self).deep_view(), mode, force) == Ok::<
                    ((GpuSwitcherView, Result<(), SetModeErrorView>), int),
                    system::ActionView,
                >(((final(self).deep_view(), system::result_view(result)), n as int)),
            },
    {
        self.set_gpu_mode(t, 0, mode, force)
    }

    /// As [`GpuSwitcher::set_mode`], with replies that start at `at`.
    pub fn set_gpu_mode(&mut self, t: &Transcript, at: usize, mode: GpuMode, force: bool) -> (r:
        Progress<Result<(), SetModeError>>)
        ensures
            match r {
                Err(action) => {
                    &&& set_gpu_mode(t@, at as int, old(self).deep_view(), mode, force) == Err::<
                        ((GpuSwitcherView, Result<(), SetModeErrorView>), int),
                        system::ActionView,
                    >(action.deep_view())
                    &&& final(self).deep_view() == old(self).deep_view()
                },
                Ok((result, n)) => set_gpu_mode(
                    t@,
                    at as int,
                    old(self).deep_view(),
                    mode,
                    force,
                ) == Ok::<
                    ((GpuSwitcherView, Result<(), SetModeErrorView>), int),
                    system::ActionView,
                >(((final(self).deep_view(), system::result_view(result)), n as int)),
            },
    {
        let (current, n) = self.get_mode(t, at)?;
        if current == mode {
            return Ok((Ok(()), n));
        }
        let steps = steps_between(current, mode);
        let mut work = self.clone();
        let ghost start = n as int;
        let ghost before = self.deep_view();
        let mut here: usize = n;
        let mut i: usize = 0;
        while i < steps.len()
            invariant
                i <= steps.len(),
                self.deep_view() == before,
                before == old(self).deep_view(),
                current != mode,
                steps@ == mode_steps(current, mode),
                get_mode(t@, at as int, before) == Ok::<(GpuMode, int), system::ActionView>(
                    (current, start),
                ),
                take_steps(t@, start, before, steps@, 0, force) == take_steps(
                    t@,
                    here as int,
                    work.deep_view(),
                    steps@,
                    i as int,
                    force,
                ),
            decreases steps.len() - i,
        {
            let (result, n) = work.take_step(t, here, steps[i], force)?;
            if let Err(e) = result {
                *self = work;
                return Ok((Err(e), n));
            }
            here = n;
            i = i + 1;
        }
        *self = work;
        Ok((Ok(()), here))
    }

    /// Takes one step on the way to a mode.
    #[verifier::rlimit(60)]
    fn take_step(&mut self, t: &Transcript, at: usize, step: ModeStep, force: bool) -> (r: Progress<
        Result<(), SetModeError>,
    >)
        ensures
            match r {
                Err(action) => take_step(t@, at as int, old(self).deep_view(), step, force)
                    == Err::<
                    ((GpuSwitcherView, Result<(), SetModeErrorView>), int),
                    system::ActionView,
                >(action.deep_view()),
                Ok((result, n)) => take_step(t@, at as int, old(self).deep_view(), step, force)
                    == Ok::<
                    ((GpuSwitcherView, Result<(), SetModeErrorView>), int),
                    system::ActionView,
                >(((final(self).deep_view(), system::result_view(result)), n as int)),
            },
    {
        reveal(take_step);
        match step {
            ModeStep::FindGpu(mode) => {
                let (found, n) = self.rescan_pci(t, at, mode)?;
                match found {
                    Ok(()) => Ok((Ok(()), n)),
                    Err(e) => Ok((Err(SetModeError::FindGpu(e)), n)),
                }
            },
            ModeStep::FindGpuAgain(mode) => {
                let (found, n) = self.rescan_pci(t, at, mode)?;
                match found {
                    Ok(()) => Ok((Ok(()), n)),
                    Err(e) => Ok((Err(SetModeError::PciRescan(e)), n)),
                }
            },
            ModeStep::WriteModprobe(ty) => {
                let (done, n) = self.write_modprobe(t, at, ty)?;
                match done {
                    Ok(()) => Ok((Ok(()), n)),
                    Err(e) => Ok((Err(SetModeError::ModprobeConf(e)), n)),
                }
            },
            ModeStep::PlugIfUnplugged => {
                let (state, n) = self.get_hotplug_state(t, at)?;
                match state {
                    Ok(HotplugState::Plug) => return Ok((Ok(()), n)),
                    _ => {},
                }
                let (done, n) = self.hotplug_gpu(t, n, HotplugState::Plug)?;
                match done {
                    Ok(()) => Ok((Ok(()), n)),
                    Err(e) => Ok((Err(SetModeError::HotplugPlug(e)), n)),
                }
            },
            ModeStep::SendDetach => {
                let (done, n) = self.send_gpu_detach(t, at)?;
                match done {
                    Ok(()) => Ok((Ok(()), n)),
                    Err(e) => Ok((Err(SetModeError::GpuDetach(e)), n)),
                }
            },
            ModeStep::Wait(millis) => {
                let (_, n) = t.sleep(at, millis)?;
                Ok((Ok(()), n))
            },
            ModeStep::SwitchServices(state) => {
                let (_, n) = self.switch_services(t, at, state, ServiceType::Nvidia)?;
                Ok((Ok(()), n))
            },
            ModeStep::KillUsers => {
                let (done, n) = self.kill_gpu_use(t, at)?;
                match done {
                    Ok(()) => Ok((Ok(()), n)),
                    Err(e) => Ok((Err(SetModeError::KillGpuUse(e)), n)),
                }
            },
            ModeStep::SwitchIcd(state) => {
                let (_, n) = self.switch_icd(t, at, state)?;
                Ok((Ok(()), n))
            },
            ModeStep::SwitchDrivers(ty) => {
                let (done, n) = self.switch_drivers(t, at, ty, force)?;
                match done {
                    Ok(()) => Ok((Ok(()), n)),
                    Err(e) => Ok((Err(SetModeError::SwitchDrivers(e)), n)),
                }
            },
            ModeStep::TryPlug => {
                let (_, n) = self.hotplug_gpu(t, at, HotplugState::Plug)?;
                Ok((Ok(()), n))
            },
            ModeStep::Unplug => {
                let (done, n) = self.hotplug_gpu(t, at, HotplugState::Unplug)?;
                match done {
                    Ok(()) => Ok((Ok(()), n)),
                    Err(e) => Ok((Err(SetModeError::HotplugUnplug(e)), n)),
                }
            },
        }
    }

    /// Writes the module configuration.
    pub fn write_modprobe(&self, t: &Transcript, at: usize, ty: ModprobeConfType) -> (r: Progress<
        Result<(), IoError>,
    >)
        ensures
            system::outcome_view(r) == write_modprobe(t@, at as int, ty),
    {
        t.write(
            at,
            "/etc/modprobe.d/gpu-switcherd.conf".to_owned(),
            modprobe_content(ty).as_str(),
        )
    }

    /// Announces the Vulkan driver or stops announcing it.
    pub fn switch_icd(&self, t: &Transcript, at: usize, new_state: IcdType) -> (r: Progress<
        Result<(), SwitchIcdError>,
    >)
        ensures
            system::outcome_view(r) == switch_icd(t@, at as int, new_state),
    {
        let active = "/usr/share/vulkan/icd.d/nvidia_icd.json";
        let inactive = "/usr/share/vulkan/icd.d/nvidia_icd.json_inactive";
        let (announced, n) = t.path_exists(at, active.to_owned())?;
        let (state, n) = if announced {
            (IcdType::Active, n)
        } else {
            let (kept, n) = t.path_exists(n, inactive.to_owned())?;
            if !kept {
                return Ok((Err(SwitchIcdError::IcdMissing), n));
            }
            (IcdType::Inactive, n)
        };
        let (done, n) = match (state, new_state) {
            (IcdType::Inactive, IcdType::Active) => t.rename(n, inactive, active)?,
            (IcdType::Active, IcdType::Inactive) => t.rename(n, active, inactive)?,
            _ => (Ok(()), n),
        };
        match done {
            Ok(()) => Ok((Ok(()), n)),
            Err(e) => Ok((Err(SwitchIcdError::Rename(e)), n)),
        }
    }

    /// Switches the GPU's power.
    pub fn hotplug_gpu(&self, t: &Transcript, at: usize, ty: HotplugState) -> (r: Progress<
        Result<(), IoError>,
    >)
        ensures
            system::outcome_view(r) == hotplug_gpu(t@, at as int, self.deep_view(), ty),
    {
        match self.hotplug_type {
            HotplugType::Normal => {
                let gpu = match &self.dedicated_gpu_info.gpu_device {
                    Some(gpu) => gpu,
                    None => return Ok((Ok(()), at)),
                };
                let slot = match &gpu.gpu_slot {
                    Some(slot) => slot,
                    None => return Ok((Ok(()), at)),
                };
                let (_, n) = t.sleep(at, 1000)?;
                let power = match ty {
                    HotplugState::Plug => "1",
                    HotplugState::Unplug => "0",
                };
                t.write(n, text::join_path(slot.as_str(), "power"), power)
            },
            HotplugType::Asus => self.hotplug_asus(t, at, ty),
        }
    }

    /// Whether the GPU has power.
    pub fn get_hotplug_state(&self, t: &Transcript, at: usize) -> (r: Progress<
        Result<HotplugState, HotplugStateError>,
    >)
        ensures
            system::outcome_view(r) == get_hotplug_state(t@, at as int, self.deep_view()),
    {
        match self.hotplug_type {
            HotplugType::Normal => {
                let gpu = match &self.dedicated_gpu_info.gpu_device {
                    Some(gpu) => gpu,
                    None => return Ok((Err(HotplugStateError::NotFound), at)),
                };
                let slot = match &gpu.gpu_slot {
                    Some(slot) => slot,
                    None => return Ok((Err(HotplugStateError::NotFound), at)),
                };
                let (power, n) = t.read(at, text::join_path(slot.as_str(), "power"))?;
                match power {
                    Ok(power) => {
                        if text::starts_with(power.as_str(), "1") {
                            Ok((Ok(HotplugState::Plug), n))
                        } else {
                            Ok((Ok(HotplugState::Unplug), n))
                        }
                    },
                    Err(e) => Ok((Err(HotplugStateError::Io(e)), n)),
                }
            },
            HotplugType::Asus => {
                let (state, n) = self.get_hotplug_state_asus(t, at)?;
                match state {
                    Ok(state) => Ok((Ok(state), n)),
                    Err(e) => Ok((Err(HotplugStateError::Io(e)), n)),
                }
            },
        }
    }

    /// Looks for the GPU after the kernel has looked for new devices.
    pub fn rescan_pci(&mut self, t: &Transcript, at: usize, new_mode: GpuMode) -> (r: Progress<
        Result<(), RescanPCIError>,
    >)
        ensures
            ({
                let scan = rescan_pci(t@, at as int, old(self).deep_view().bus_id, new_mode);
                match r {
                    Err(action) => {
                        &&& scan is Err
                        &&& scan->Err_0 == action.deep_view()
                        &&& final(self).deep_view() == old(self).deep_view()
                    },
                    Ok((Err(e), n)) => {
                        &&& scan is Ok
                        &&& scan->Ok_0.0 == Err::<Option<GpuDeviceView>, RescanPCIErrorView>(
                            e.deep_view(),
                        )
                        &&& scan->Ok_0.1 == n
                        &&& final(self).deep_view() == old(self).deep_view()
                    },
                    Ok((Ok(()), n)) => {
                        &&& scan is Ok
                        &&& scan->Ok_0.0 == Ok::<Option<GpuDeviceView>, RescanPCIErrorView>(
                            final(self).deep_view().gpu,
                        )
                        &&& scan->Ok_0.1 == n
                        &&& final(self).deep_view() == (GpuSwitcherView {
                            gpu: final(self).deep_view().gpu,
                            ..old(self).deep_view()
                        })
                    },
                }
            }),
    {
        let (done, n) = t.write(at, "/sys/bus/pci/rescan".to_owned(), "1")?;
        if let Err(e) = done {
            return Ok((Err(RescanPCIError::Rescan(e)), n));
        }
        let needed = match new_mode {
            GpuMode::Integrated => false,
            GpuMode::Nvidia | GpuMode::Vfio => true,
        };
        let (device, n) = PCIDevice::find_device(t, n, self.dedicated_gpu_info.bus_id)?;
        let device = match device {
            Ok(device) => device,
            Err(e) => {
                if needed {
                    return Ok((Err(RescanPCIError::GpuNotFound(e)), n));
                }
                self.dedicated_gpu_info.gpu_device = None;
                return Ok((Ok(()), n));
            },
        };
        let (gpu, n) = GpuDevice::new(t, n, device)?;
        match gpu {
            Ok(gpu) => {
                self.dedicated_gpu_info.gpu_device = Some(gpu);
                Ok((Ok(()), n))
            },
            Err(e) => {
                if needed {
                    return Ok((Err(RescanPCIError::GpuCreation(e)), n));
                }
                self.dedicated_gpu_info.gpu_device = None;
                Ok((Ok(()), n))
            },
        }
    }

    /// Stops or starts services.
    pub fn switch_services(
        &self,
        t: &Transcript,
        at: usize,
        state: ServiceState,
        ty: ServiceType,
    ) -> (r: Progress<Result<(), SwitchServicesError>>)
        ensures
            system::outcome_view(r) == switch_services(t@, at as int, state, ty),
    {
        let verb = match state {
            ServiceState::Stop => "stop",
            ServiceState::Start => "start",
        };
        let args = match ty {
            ServiceType::Nvidia => vec![
                verb.to_owned(),
                "nvidia-persistenced.service".to_owned(),
                "nvidia-powerd.service".to_owned(),
            ],
        };
        assert(args.deep_view() =~= seq![service_verb(state)] + services(ty));
        let (status, n) = t.run(at, "systemctl", args)?;
        match status {
            Ok(ExitStatus::Success) => Ok((Ok(()), n)),
            Ok(ExitStatus::Code(code)) => Ok((Err(SwitchServicesError::ExitCode(code)), n)),
            Err(e) => Ok((Err(SwitchServicesError::Io(e)), n)),
        }
    }

    /// Tells the users of the GPU's cards that they go away.
    pub fn send_gpu_detach(&self, t: &Transcript, at: usize) -> (r: Progress<
        Result<(), SendGpuDetachError>,
    >)
        ensures
            system::outcome_view(r) == send_gpu_detach(t@, at as int, self.deep_view()),
    {
        let gpu = match &self.dedicated_gpu_info.gpu_device {
            Some(gpu) => gpu,
            None => return Ok((Err(SendGpuDetachError::NoGpu), at)),
        };
        let (done, n) = gpu.send_detach(t, at)?;
        match done {
            Ok(()) => Ok((Ok(()), n)),
            Err(e) => Ok((Err(SendGpuDetachError::Io(e)), n)),
        }
    }

    /// Ends the processes that use the GPU.
    pub fn kill_gpu_use(&self, t: &Transcript, at: usize) -> (r: Progress<
        Result<(), KillGpuUseError>,
    >)
        ensures
            system::outcome_view(r) == kill_gpu_use(t@, at as int, self.deep_view()),
    {
        let gpu = match &self.dedicated_gpu_info.gpu_device {
            Some(gpu) => gpu,
            None => return Ok((Err(KillGpuUseError::NoGpu), at)),
        };
        let nodes = nodes_of(gpu);
        let ghost all = nodes.deep_view();
        let mut here: usize = at;
        let mut i: usize = 0;
        while i < nodes.len()
            invariant
                i <= nodes.len(),
                all == nodes.deep_view(),
                self.deep_view().gpu is Some,
                all == device_nodes(self.deep_view().gpu->0),
                kill_users(t@, at as int, all, 0) == kill_users(t@, here as int, all, i as int),
            decreases nodes.len() - i,
        {
            let (holders, n) = t.list_holders(here, nodes[i].clone())?;
            match holders {
                None => {
                    here = n;
                },
                Some(list) => {
                    let (done, n) = kill_all(t, n, list)?;
                    if let Err(e) = done {
                        return Ok((Err(e), n));
                    }
                    here = n;
                },
            }
            i = i + 1;
        }
        Ok((Ok(()), here))
    }

    /// Brings the GPU to a driver of the given type.
    pub fn switch_drivers(&self, t: &Transcript, at: usize, ty: DriverType, force: bool) -> (r:
        Progress<Result<(), SwitchDriversError>>)
        ensures
            system::outcome_view(r) == switch_drivers(t@, at as int, self.deep_view(), ty, force),
    {
        let gpu = match &self.dedicated_gpu_info.gpu_device {
            Some(gpu) => gpu,
            None => return Ok((Err(SwitchDriversError::NoGpu), at)),
        };
        let (driver, n) = gpu.pci.get_driver(t, at)?;
        let current = type_of_driver(driver);
        if current == ty {
            return Ok((Ok(()), n));
        }
        let modules = modules_to_unload(current);
        let (unloaded, n) = Self::unload_all(t, n, &modules, force)?;
        if let Err(e) = unloaded {
            return Ok((Err(SwitchDriversError::DriverUnload(e)), n));
        }
        let (_, n) = gpu.unbind(t, n)?;
        match ty {
            DriverType::Vfio => {
                let modules = vec!["vfio_pci".to_owned()];
                assert(modules.deep_view() =~= seq!["vfio_pci"@]);
                let (loaded, n) = modprobe(t, n, modules)?;
                if let Err(e) = loaded {
                    return Ok((Err(SwitchDriversError::DriverLoad(e)), n));
                }
                let (bound, n) = gpu.bind_vfio(t, n)?;
                match bound {
                    Ok(()) => Ok((Ok(()), n)),
                    Err(e) => Ok((Err(SwitchDriversError::DriverBind(e)), n)),
                }
            },
            DriverType::Nvidia => {
                let modules = vec!["nvidia_drm".to_owned(), "nvidia_uvm".to_owned()];
                assert(modules.deep_view() =~= seq!["nvidia_drm"@, "nvidia_uvm"@]);
                let (loaded, n) = modprobe(t, n, modules)?;
                match loaded {
                    Ok(()) => Ok((Ok(()), n)),
                    Err(e) => Ok((Err(SwitchDriversError::DriverLoad(e)), n)),
                }
            },
            DriverType::NoDriver => Ok((Ok(()), n)),
        }
    }

    /// Unloads the modules until one fails.
    fn unload_all(t: &Transcript, at: usize, modules: &Vec<&'static str>, force: bool) -> (r:
        Progress<Result<(), UnloadDriverError>>)
        ensures
            system::outcome_view(r) == unload_drivers(
                t@,
                at as int,
                modules.deep_view(),
                0,
                force,
            ),
    {
        let mut here: usize = at;
        let mut i: usize = 0;
        while i < modules.len()
            invariant
                i <= modules.len(),
                unload_drivers(t@, at as int, modules.deep_view(), 0, force) == unload_drivers(
                    t@,
                    here as int,
                    modules.deep_view(),
                    i as int,
                    force,
                ),
            decreases modules.len() - i,
        {
            let (done, n) = Self::unload_driver(t, here, modules[i], force)?;
            if let Err(e) = done {
                return Ok((Err(e), n));
            }
            here = n;
            i = i + 1;
        }
        Ok((Ok(()), here))
    }

    /// Sets the platform driver's switch.
    pub fn hotplug_asus(&self, t: &Transcript, at: usize, ty: HotplugState) -> (r: Progress<
        Result<(), IoError>,
    >)
        ensures
            system::outcome_view(r) == hotplug_asus(t@, at as int, ty),
    {
        let (state, n) = self.get_hotplug_state_asus(t, at)?;
        let state = match state {
            Ok(state) => state,
            Err(e) => return Ok((Err(e), n)),
        };
        if state == ty {
            return Ok((Ok(()), n));
        }
        let disable = match ty {
            HotplugState::Unplug => "1",
            HotplugState::Plug => "0",
        };
        t.write(n, "/sys/devices/platform/asus-nb-wmi/dgpu_disable".to_owned(), disable)
    }

    /// The state that the platform driver's switch is in.
    pub fn get_hotplug_state_asus(&self, t: &Transcript, at: usize) -> (r: Progress<
        Result<HotplugState, IoError>,
    >)
        ensures
            system::outcome_view(r) == asus_state(t@, at as int),
    {
        let (disable, n) = t.read(
            at,
            "/sys/devices/platform/asus-nb-wmi/dgpu_disable".to_owned(),
        )?;
        match disable {
            Ok(disable) => {
                if text::starts_with(disable.as_str(), "1") {
                    Ok((Ok(HotplugState::Unplug), n))
                } else {
                    Ok((Ok(HotplugState::Plug), n))
                }
            },
            Err(e) => Ok((Err(e), n)),
        }
    }

    /// Unloads a module.
    pub fn unload_driver(t: &Transcript, at: usize, name: &str, force: bool) -> (r: Progress<
        Result<(), UnloadDriverError>,
    >)
        ensures
            system::outcome_view(r) == unload_driver(t@, at as int, name@, force),
    {
        let args = if force {
            vec!["-f".to_owned(), name.to_owned()]
        } else {
            vec![name.to_owned()]
        };
        assert(args.deep_view() =~= rmmod_args(name@, force));
        let (stderr, n) = t.run_for_errors(at, "rmmod", args)?;
        match stderr {
            Ok(stderr) => {
                if text::contains(stderr.as_str(), "in use") {
                    Ok((Err(UnloadDriverError::DriverInUse(name.to_owned())), n))
                } else {
                    Ok((Ok(()), n))
                }
            },
            Err(e) => Ok((Err(UnloadDriverError::Io(e)), n)),
        }
    }
}

} // verus!
