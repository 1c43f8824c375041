//! What a switch from one mode to another is seen to do, from its first action to its last.
use vstd::prelude::*;

use crate::conduct;
use crate::gpu;
use crate::gpu::GpuDeviceView;
use crate::laws;
use crate::order;
use crate::pci;
use crate::pci::{PCIBusId, PCIDeviceView};
use crate::proto::GpuMode;
use crate::replay;
use crate::switcher;
use crate::switcher::{
    DriverType, GpuSwitcherView, HotplugState, HotplugType, IcdType, ModeStep, RescanPCIErrorView,
    ServiceState, SetModeErrorView,
};
use crate::system;
use crate::system::{ActionView, ExitStatus, HolderView, ReplyView, Step};
use crate::text;

verus! {

/// Whether the action is one of a search for the device at `bus`.
pub open spec fn looks_for(action: ActionView, bus: PCIBusId) -> bool {
    match action {
        ActionView::ScanPci => true,
        ActionView::List { path } => {
            ||| path == "/sys/bus/pci/slots"@
            ||| path == text::path_in("/sys/bus/pci/devices/"@ + pci::bus_text(bus), "drm"@)
        },
        ActionView::Read { path } => exists|name: Seq<char>| path == slot_address(name),
        _ => false,
    }
}

/// The file that holds the address of a slot.
pub open spec fn slot_address(name: Seq<char>) -> Seq<char> {
    text::path_in(text::path_in("/sys/bus/pci/slots"@, name), "address"@)
}

/// The link to the driver of the device at `bus`.
pub open spec fn driver_link(bus: PCIBusId) -> Seq<char> {
    text::path_in("/sys/bus/pci/devices/"@ + pci::bus_text(bus), "driver"@)
}

/// Whether the action switches the power, or tells of it.
pub open spec fn switches_power(action: ActionView, s: GpuSwitcherView, ty: HotplugState) -> bool {
    match s.hotplug_type {
        HotplugType::Normal => s.gpu matches Some(gpu) && gpu.gpu_slot matches Some(slot) && {
            ||| action == ActionView::Sleep { millis: 1000 }
            ||| action == conduct::powering(slot, ty)
        },
        HotplugType::Asus => {
            ||| action == ActionView::Read { path: switcher::asus_switch() }
            ||| action == ActionView::Write {
                path: switcher::asus_switch(),
                contents: switcher::disable_text(ty),
            }
        },
    }
}

/// Whether the action is one to bind the device to the pass-through driver.
pub open spec fn binds(action: ActionView, device: PCIDeviceView) -> bool {
    match action {
        ActionView::Resolve { path } => path == driver_link(device.bus_id),
        ActionView::Write { path, contents } => {
            ||| device.device_id matches Some(id) && path == "/sys/bus/pci/drivers/vfio-pci/new_id"@
                && contents == pci::new_id_line(id)
            ||| path == "/sys/bus/pci/drivers/vfio-pci/bind"@ && contents == pci::bus_text(
                device.bus_id,
            )
        },
        _ => false,
    }
}

/// Whether the module belongs to one of the two drivers.
pub open spec fn drives_gpus(module: Seq<char>) -> bool {
    ||| module == "nvidia_uvm"@
    ||| module == "nvidia_drm"@
    ||| module == "nvidia_modeset"@
    ||| module == "nvidia"@
    ||| module == "nvidia-wmi-ec-backlight"@
    ||| module == "vfio_pci"@
    ||| module == "vfio_iommu_type1"@
    ||| module == "vfio_pci_core"@
    ||| module == "vfio"@
}

/// Whether the action is one to bring the GPU to a driver of the type.
pub open spec fn switches_driver(
    action: ActionView,
    gpu: GpuDeviceView,
    ty: DriverType,
    force: bool,
) -> bool {
    ||| action == ActionView::Resolve { path: driver_link(gpu.pci.bus_id) }
    ||| exists|module: Seq<char>|
        drives_gpus(module) && action == #[trigger] conduct::unloading(module, force)
    ||| action == conduct::unbinding(gpu.pci.bus_id)
    ||| gpu.audio_pci matches Some(audio) && action == conduct::unbinding(audio.bus_id)
    ||| ty != DriverType::NoDriver && action == conduct::loading(conduct::modules_for(ty))
    ||| ty == DriverType::Vfio && binds(action, gpu.pci)
    ||| gpu.audio_pci matches Some(audio) && ty == DriverType::Vfio && binds(action, audio)
}

/// Whether the action is one that a step asks for, word for word.
pub open spec fn belongs_to(
    action: ActionView,
    step: ModeStep,
    s: GpuSwitcherView,
    force: bool,
) -> bool {
    match step {
        ModeStep::FindGpu(_) | ModeStep::FindGpuAgain(_) => {
            ||| action == ActionView::Write { path: "/sys/bus/pci/rescan"@, contents: "1"@ }
            ||| looks_for(action, s.bus_id)
        },
        ModeStep::WriteModprobe(ty) => action == ActionView::Write {
            path: "/etc/modprobe.d/gpu-switcherd.conf"@,
            contents: switcher::modprobe_conf(ty),
        },
        ModeStep::PlugIfUnplugged => {
            ||| switches_power(action, s, HotplugState::Plug)
            ||| s.gpu matches Some(gpu) && gpu.gpu_slot matches Some(slot) && action
                == ActionView::Read { path: text::path_in(slot, "power"@) }
        },
        ModeStep::SendDetach => s.gpu matches Some(gpu) && exists|k: int|
            0 <= k < gpu.cards.len() && {
                let file = gpu::uevent_file(gpu.pci.bus_id, #[trigger] gpu.cards[k]);
                ||| action == ActionView::Exists { path: file }
                ||| action == ActionView::Write { path: file, contents: "remove"@ }
            },
        ModeStep::Wait(millis) => action == ActionView::Sleep { millis },
        ModeStep::SwitchServices(state) => action == conduct::switching_services(state),
        ModeStep::KillUsers => s.gpu matches Some(gpu) && {
            ||| action is Kill
            ||| exists|k: int|
                0 <= k < switcher::device_nodes(gpu).len() && action == ActionView::ListHolders {
                    path: #[trigger] switcher::device_nodes(gpu)[k],
                }
        },
        ModeStep::SwitchIcd(state) => {
            ||| action == ActionView::Exists { path: switcher::active_icd() }
            ||| action == ActionView::Exists { path: switcher::inactive_icd() }
            ||| action == ActionView::Rename {
                from: laws::icd_name(laws::other_icd(state)),
                to: laws::icd_name(state),
            }
        },
        ModeStep::SwitchDrivers(ty) => s.gpu matches Some(gpu) && switches_driver(
            action,
            gpu,
            ty,
            force,
        ),
        ModeStep::TryPlug => switches_power(action, s, HotplugState::Plug),
        ModeStep::Unplug => switches_power(action, s, HotplugState::Unplug),
    }
}

proof fn lemma_slot_is_read(
    t: Seq<ReplyView>,
    at: int,
    bus: PCIBusId,
    names: Seq<Seq<char>>,
    other: PCIBusId,
)
    ensures
        pci::find_slot(t, at, bus, names, 0) matches Err(action) ==> looks_for(action, other),
{
    conduct::law_slots_are_searched_in_order(t, at, bus, names);
    let search = pci::find_slot(t, at, bus, names, 0);
    let k = choose|k: int| #[trigger] conduct::slots_searched(t, at, bus, names, k, search);
    if let Err(action) = search {
        assert(action->Read_path == slot_address(names[k]));
    }
}

proof fn lemma_device_is_looked_for(t: Seq<ReplyView>, at: int, bus: PCIBusId, other: PCIBusId)
    ensures
        pci::find_device(t, at, bus) matches Err(action) ==> looks_for(action, other),
{
    if let Ok((Ok(names), n)) = system::list(t, at, pci::slots_dir()) {
        lemma_slot_is_read(t, n, bus, names, other);
    }
}

proof fn lemma_gpu_is_described(t: Seq<ReplyView>, at: int, device: PCIDeviceView)
    ensures
        gpu::describe(t, at, device) matches Err(action) ==> looks_for(action, device.bus_id),
{
    let function = gpu::audio_function(device.bus_id);
    lemma_device_is_looked_for(t, at, function, device.bus_id);
    if let Ok((_, n)) = pci::find_device(t, at, function) {
        if let Ok((_, n)) = system::list(t, n, gpu::drm_dir(device.bus_id)) {
            if let Ok((Ok(slots), n)) = system::list(t, n, pci::slots_dir()) {
                lemma_slot_is_read(t, n, device.bus_id, slots, device.bus_id);
            }
        }
    }
}

proof fn lemma_search_belongs(
    t: Seq<ReplyView>,
    at: int,
    s: GpuSwitcherView,
    step: ModeStep,
    mode: GpuMode,
    force: bool,
)
    requires
        step == ModeStep::FindGpu(mode) || step == ModeStep::FindGpuAgain(mode),
    ensures
        switcher::take_step(t, at, s, step, force) matches Err(action) ==> belongs_to(
            action,
            step,
            s,
            force,
        ),
{
    reveal(switcher::take_step);
    if let Ok((Ok(()), n)) = system::write(t, at, "/sys/bus/pci/rescan"@, "1"@) {
        lemma_device_is_looked_for(t, n, s.bus_id, s.bus_id);
        if let Ok((Ok(device), n)) = pci::find_device(t, n, s.bus_id) {
            pci::law_found_device_sits_there(t, at + 1, s.bus_id);
            lemma_gpu_is_described(t, n, device);
        }
    }
}

proof fn lemma_detaching(t: Seq<ReplyView>, at: int, bus: PCIBusId, cards: Seq<u8>, i: int)
    ensures
        gpu::send_detach(t, at, bus, cards, i) matches Err(action) ==> exists|k: int|
            0 <= k < cards.len() && {
                let file = gpu::uevent_file(bus, #[trigger] cards[k]);
                ||| action == ActionView::Exists { path: file }
                ||| action == ActionView::Write { path: file, contents: "remove"@ }
            },
    decreases cards.len() - i,
{
    if 0 <= i < cards.len() {
        let file = gpu::uevent_file(bus, cards[i]);
        if let Ok((present, n)) = system::path_exists(t, at, file) {
            if !present {
                lemma_detaching(t, n, bus, cards, i + 1);
            } else if let Ok((_, n)) = system::write(t, n, file, "remove"@) {
                lemma_detaching(t, n, bus, cards, i + 1);
            }
        }
    }
}

proof fn lemma_killing(t: Seq<ReplyView>, at: int, list: Seq<HolderView>, i: int)
    ensures
        switcher::kill_holders(t, at, list, i) matches Err(action) ==> action is Kill,
    decreases list.len() - i,
{
    if 0 <= i < list.len() {
        if let Ok((_, n)) = system::kill(t, at, system::process_id(list[i].pid)->0) {
            lemma_killing(t, n, list, i + 1);
        }
    }
}

proof fn lemma_ending_users(t: Seq<ReplyView>, at: int, nodes: Seq<Seq<char>>, i: int)
    ensures
        switcher::kill_users(t, at, nodes, i) matches Err(action) ==> {
            ||| action is Kill
            ||| exists|k: int|
                0 <= k < nodes.len() && action == ActionView::ListHolders {
                    path: #[trigger] nodes[k],
                }
        },
    decreases nodes.len() - i,
{
    if 0 <= i < nodes.len() {
        match system::list_holders(t, at, nodes[i]) {
            Err(_) => {},
            Ok((None, n)) => lemma_ending_users(t, n, nodes, i + 1),
            Ok((Some(list), n)) => {
                lemma_killing(t, n, list, 0);
                if let Ok((_, n)) = switcher::kill_holders(t, n, list, 0) {
                    lemma_ending_users(t, n, nodes, i + 1);
                }
            },
        }
    }
}

proof fn lemma_unloading(
    t: Seq<ReplyView>,
    at: int,
    modules: Seq<Seq<char>>,
    i: int,
    force: bool,
)
    ensures
        switcher::unload_drivers(t, at, modules, i, force) matches Err(action) ==> exists|k: int|
            0 <= k < modules.len() && action == conduct::unloading(#[trigger] modules[k], force),
    decreases modules.len() - i,
{
    if 0 <= i < modules.len() {
        if let Ok((_, n)) = switcher::unload_driver(t, at, modules[i], force) {
            lemma_unloading(t, n, modules, i + 1, force);
        }
    }
}

proof fn lemma_switching_drivers(
    t: Seq<ReplyView>,
    at: int,
    s: GpuSwitcherView,
    gpu: GpuDeviceView,
    ty: DriverType,
    force: bool,
)
    requires
        s.gpu == Some(gpu),
    ensures
        switcher::switch_drivers(t, at, s, ty, force) matches Err(action) ==> switches_driver(
            action,
            gpu,
            ty,
            force,
        ),
{
    if let Ok((driver, n)) = pci::driver_of(t, at, gpu.pci.bus_id) {
        let modules = switcher::modules_of(switcher::driver_type(driver));
        lemma_unloading(t, n, modules, 0, force);
        if let Err(action) = switcher::unload_drivers(t, n, modules, 0, force) {
            let k = choose|k: int|
                0 <= k < modules.len() && action == conduct::unloading(#[trigger] modules[k], force);
            assert(drives_gpus(modules[k]));
        }
    }
}

/// What a step asks for is, word for word, what belongs to it.
#[verifier::spinoff_prover]
#[verifier::rlimit(50)]
pub proof fn law_step_asks_word_for_word(
    t: Seq<ReplyView>,
    at: int,
    s: GpuSwitcherView,
    step: ModeStep,
    force: bool,
)
    ensures
        switcher::take_step(t, at, s, step, force) matches Err(action) ==> belongs_to(
            action,
            step,
            s,
            force,
        ),
{
    match step {
        ModeStep::FindGpu(mode) => lemma_search_belongs(t, at, s, step, mode, force),
        ModeStep::FindGpuAgain(mode) => lemma_search_belongs(t, at, s, step, mode, force),
        ModeStep::SendDetach => {
            reveal(switcher::take_step);
            if let Some(gpu) = s.gpu {
                lemma_detaching(t, at, gpu.pci.bus_id, gpu.cards, 0);
            }
        },
        ModeStep::KillUsers => {
            reveal(switcher::take_step);
            if let Some(gpu) = s.gpu {
                lemma_ending_users(t, at, switcher::device_nodes(gpu), 0);
            }
        },
        ModeStep::SwitchDrivers(ty) => {
            reveal(switcher::take_step);
            if let Some(gpu) = s.gpu {
                lemma_switching_drivers(t, at, s, gpu, ty, force);
            }
        },
        ModeStep::SwitchServices(state) => {
            reveal(switcher::take_step);
            assert(seq![switcher::service_verb(state)] + switcher::services(
                switcher::ServiceType::Nvidia,
            ) =~= conduct::switching_services(state)->Run_args);
        },
        _ => {
            reveal(switcher::take_step);
        },
    }
}

/// Whether a switch asks for the action when it has been given the first `p` replies.
pub open spec fn asks(
    t: Seq<ReplyView>,
    s: GpuSwitcherView,
    mode: GpuMode,
    force: bool,
    p: int,
    action: ActionView,
) -> bool {
    0 <= p <= t.len() && system::awaits(switcher::set_gpu_mode(t.take(p), 0, s, mode, force), action)
}

/// Whether a switch has asked for the action before `n`.
pub open spec fn asked_before(
    t: Seq<ReplyView>,
    s: GpuSwitcherView,
    mode: GpuMode,
    force: bool,
    n: int,
    action: ActionView,
) -> bool {
    exists|p: int| 0 <= p < n && #[trigger] asks(t, s, mode, force, p, action)
}

/// Whether a switch has asked for the action before `n`, and it was done.
pub open spec fn done_before(
    t: Seq<ReplyView>,
    s: GpuSwitcherView,
    mode: GpuMode,
    force: bool,
    n: int,
    action: ActionView,
) -> bool {
    exists|p: int|
        0 <= p < n && #[trigger] asks(t, s, mode, force, p, action) && (t[p] matches ReplyView::Done(
            Ok(()),
        ))
}

/// Whether a switch that is under way has come to its step number `k`, at `m` of the transcript and
/// with the switcher as `b`.
pub open spec fn comes_to(
    t: Seq<ReplyView>,
    s: GpuSwitcherView,
    mode: GpuMode,
    force: bool,
    k: int,
    b: GpuSwitcherView,
    m: int,
) -> bool {
    switcher::get_mode(t, 0, s) matches Ok((current, start)) && {
        let steps = switcher::mode_steps(current, mode);
        &&& current != mode
        &&& 0 <= k < steps.len()
        &&& order::reaches(t, start, s, steps, force, k, b, m)
    }
}

/// The step with number `k` of a switch that is under way.
pub open spec fn step_of(t: Seq<ReplyView>, s: GpuSwitcherView, mode: GpuMode, k: int) -> ModeStep {
    switcher::mode_steps(switcher::get_mode(t, 0, s)->Ok_0.0, mode)[k]
}

proof fn lemma_place_of_step(
    t: Seq<ReplyView>,
    s: GpuSwitcherView,
    mode: GpuMode,
    force: bool,
    k: int,
    b: GpuSwitcherView,
    m: int,
)
    requires
        comes_to(t, s, mode, force, k, b, m),
    ensures
        0 <= m <= t.len(),
        b.bus_id == s.bus_id,
        b.hotplug_type == s.hotplug_type,
        laws::knows_its_gpu(s) ==> laws::knows_its_gpu(b),
{
    let (current, start) = switcher::get_mode(t, 0, s)->Ok_0;
    let steps = switcher::mode_steps(current, mode);
    replay::take_steps_settled(t, t, start, s, steps.take(k), 0, force);
    laws::lemma_steps_keep_the_gpu(t, start, s, steps.take(k), 0, force);
}

/// What the step asks for on a prefix, the switch asks for.
proof fn lemma_step_asks(
    t: Seq<ReplyView>,
    s: GpuSwitcherView,
    mode: GpuMode,
    force: bool,
    k: int,
    b: GpuSwitcherView,
    m: int,
    p: int,
    action: ActionView,
)
    requires
        comes_to(t, s, mode, force, k, b, m),
        m <= p <= t.len(),
        system::awaits(
            switcher::take_step(t.take(p), m, b, step_of(t, s, mode, k), force),
            action,
        ),
    ensures
        asks(t, s, mode, force, p, action),
{
    let (current, start) = switcher::get_mode(t, 0, s)->Ok_0;
    let steps = switcher::mode_steps(current, mode);
    let u = t.take(p);
    replay::take_steps_settled(t, t, start, s, steps.take(k), 0, force);
    replay::take_steps_settled(t, u, start, s, steps.take(k), 0, force);
    order::lemma_steps_lead_on(u, start, s, steps, force, 0, k);
    assert(switcher::get_mode(u, 0, s) == switcher::get_mode(t, 0, s));
}

/// Whether a card has been told, before `n`, that it goes away, if it takes events.
pub open spec fn card_told(
    t: Seq<ReplyView>,
    s: GpuSwitcherView,
    mode: GpuMode,
    force: bool,
    n: int,
    file: Seq<char>,
    j: int,
) -> bool {
    &&& 0 <= j < n
    &&& asks(t, s, mode, force, j, ActionView::Exists { path: file })
    &&& {
        ||| t[j] == ReplyView::Present(false)
        ||| done_before(
            t,
            s,
            mode,
            force,
            n,
            ActionView::Write { path: file, contents: "remove"@ },
        )
    }
}

/// Whether the card has been dealt with before `n`.
pub open spec fn card_dealt_with(
    t: Seq<ReplyView>,
    s: GpuSwitcherView,
    mode: GpuMode,
    force: bool,
    n: int,
    file: Seq<char>,
) -> bool {
    exists|j: int| #[trigger] card_told(t, s, mode, force, n, file, j)
}

/// Whether the process has been ended at `p`.
pub open spec fn process_ended(
    t: Seq<ReplyView>,
    s: GpuSwitcherView,
    mode: GpuMode,
    force: bool,
    p: int,
    holder: HolderView,
) -> bool {
    &&& system::process_id(holder.pid) matches Some(pid) && asks(
        t,
        s,
        mode,
        force,
        p,
        ActionView::Kill { pid },
    )
    &&& conduct::tells_ended(t, p)
}

/// Whether the process has been ended between `j` and `n`.
pub open spec fn process_ended_between(
    t: Seq<ReplyView>,
    s: GpuSwitcherView,
    mode: GpuMode,
    force: bool,
    j: int,
    n: int,
    holder: HolderView,
) -> bool {
    exists|p: int| j < p < n && #[trigger] process_ended(t, s, mode, force, p, holder)
}

/// Whether the users of the node have been asked for at `j`, and those that are listed have been
/// ended before `n`.
pub open spec fn node_freed(
    t: Seq<ReplyView>,
    s: GpuSwitcherView,
    mode: GpuMode,
    force: bool,
    n: int,
    node: Seq<char>,
    j: int,
) -> bool {
    &&& 0 <= j < n
    &&& asks(t, s, mode, force, j, ActionView::ListHolders { path: node })
    &&& t[j] is Holders
    &&& t[j] matches ReplyView::Holders(Some(list)) ==> forall|k: int|
        0 <= k < list.len() ==> process_ended_between(t, s, mode, force, j, n, #[trigger] list[k])
}

/// Whether the node has been freed of its users before `n`.
pub open spec fn node_dealt_with(
    t: Seq<ReplyView>,
    s: GpuSwitcherView,
    mode: GpuMode,
    force: bool,
    n: int,
    node: Seq<char>,
) -> bool {
    exists|j: int| #[trigger] node_freed(t, s, mode, force, n, node, j)
}

/// Whether the driver of the GPU has been asked for at `r`, and the GPU has been brought, before
/// `n`, to one of the type: it had one already, or each module of the old one has been unloaded, the
/// GPU and its sound function have been taken away, and the new driver has been loaded with success
/// and, for a virtual machine, has taken the GPU.
pub open spec fn driver_switched(
    t: Seq<ReplyView>,
    s: GpuSwitcherView,
    mode: GpuMode,
    force: bool,
    n: int,
    gpu: GpuDeviceView,
    ty: DriverType,
    r: int,
) -> bool {
    let driver = conduct::driver_told(t, r);
    let modules = conduct::modules_behind(driver);
    let q = conduct::after_unbinding(r + 1 + modules.len(), gpu);
    &&& 0 <= r < n
    &&& asks(t, s, mode, force, r, ActionView::Resolve { path: driver_link(gpu.pci.bus_id) })
    &&& conduct::tells_driver(t, r)
    &&& !conduct::is_driver(driver, ty) ==> {
        &&& forall|k: int|
            0 <= k < modules.len() ==> asks(
                t,
                s,
                mode,
                force,
                r + 1 + k,
                conduct::unloading(#[trigger] modules[k], force),
            ) && conduct::tells_unused(t, r + 1 + k)
        &&& asks(t, s, mode, force, r + 1 + modules.len(), conduct::unbinding(gpu.pci.bus_id))
        &&& gpu.audio_pci matches Some(audio) ==> asks(
            t,
            s,
            mode,
            force,
            r + 2 + modules.len(),
            conduct::unbinding(audio.bus_id),
        )
        &&& q <= n
        &&& ty != DriverType::NoDriver ==> {
            &&& q < n
            &&& asks(t, s, mode, force, q, conduct::loading(conduct::modules_for(ty)))
            &&& t[q] == ReplyView::Exit(Ok(ExitStatus::Success))
        }
        &&& ty == DriverType::Vfio ==> conduct::succeeded(gpu::bind_vfio(t, q + 1, gpu), n)
    }
}

/// Whether what the step is for has been done before `n`, by a switcher that was as `b` then.
pub open spec fn seen_through(
    t: Seq<ReplyView>,
    s: GpuSwitcherView,
    mode: GpuMode,
    force: bool,
    step: ModeStep,
    b: GpuSwitcherView,
    n: int,
) -> bool {
    match step {
        ModeStep::FindGpu(_) | ModeStep::FindGpuAgain(_) => done_before(
            t,
            s,
            mode,
            force,
            n,
            ActionView::Write { path: "/sys/bus/pci/rescan"@, contents: "1"@ },
        ),
        ModeStep::WriteModprobe(ty) => done_before(
            t,
            s,
            mode,
            force,
            n,
            ActionView::Write {
                path: "/etc/modprobe.d/gpu-switcherd.conf"@,
                contents: switcher::modprobe_conf(ty),
            },
        ),
        ModeStep::PlugIfUnplugged => b.hotplug_type == HotplugType::Normal ==> (
        switcher::known_slot(b) matches Some(slot) ==> exists|r: int| #[trigger]
            power_seen_or_given(t, s, mode, force, n, slot, r)),
        ModeStep::SendDetach => b.gpu matches Some(gpu) && forall|k: int|
            0 <= k < gpu.cards.len() ==> card_dealt_with(
                t,
                s,
                mode,
                force,
                n,
                gpu::uevent_file(gpu.pci.bus_id, #[trigger] gpu.cards[k]),
            ),
        ModeStep::Wait(millis) => asked_before(
            t,
            s,
            mode,
            force,
            n,
            ActionView::Sleep { millis },
        ),
        ModeStep::SwitchServices(state) => asked_before(
            t,
            s,
            mode,
            force,
            n,
            conduct::switching_services(state),
        ),
        ModeStep::KillUsers => b.gpu matches Some(gpu) && forall|k: int|
            0 <= k < switcher::device_nodes(gpu).len() ==> node_dealt_with(
                t,
                s,
                mode,
                force,
                n,
                #[trigger] switcher::device_nodes(gpu)[k],
            ),
        ModeStep::SwitchIcd(_) => asked_before(
            t,
            s,
            mode,
            force,
            n,
            ActionView::Exists { path: "/usr/share/vulkan/icd.d/nvidia_icd.json"@ },
        ),
        ModeStep::SwitchDrivers(ty) => b.gpu matches Some(gpu) && exists|r: int| #[trigger]
            driver_switched(t, s, mode, force, n, gpu, ty, r),
        ModeStep::TryPlug => b.hotplug_type == HotplugType::Normal ==> (switcher::known_slot(
            b,
        ) matches Some(slot) ==> asked_before(
            t,
            s,
            mode,
            force,
            n,
            conduct::powering(slot, HotplugState::Plug),
        )),
        ModeStep::Unplug => b.hotplug_type == HotplugType::Normal ==> (switcher::known_slot(
            b,
        ) matches Some(slot) ==> done_before(
            t,
            s,
            mode,
            force,
            n,
            conduct::powering(slot, HotplugState::Unplug),
        )),
    }
}

/// Whether the power of the slot has been asked for at `r`, and it was there or has been given
/// before `n`.
pub open spec fn power_seen_or_given(
    t: Seq<ReplyView>,
    s: GpuSwitcherView,
    mode: GpuMode,
    force: bool,
    n: int,
    slot: Seq<char>,
    r: int,
) -> bool {
    &&& 0 <= r < n
    &&& asks(t, s, mode, force, r, ActionView::Read { path: text::path_in(slot, "power"@) })
    &&& {
        ||| t[r] matches ReplyView::Text(Ok(power)) && conduct::begins_with_one(power)
        ||| done_before(t, s, mode, force, n, conduct::powering(slot, HotplugState::Plug))
    }
}

proof fn lemma_simple_step_is_seen_through(
    t: Seq<ReplyView>,
    s: GpuSwitcherView,
    mode: GpuMode,
    force: bool,
    k: int,
    b: GpuSwitcherView,
    m: int,
)
    requires
        comes_to(t, s, mode, force, k, b, m),
        !(step_of(t, s, mode, k) is SendDetach || step_of(t, s, mode, k) is KillUsers || step_of(
            t,
            s,
            mode,
            k,
        ) is SwitchDrivers || step_of(t, s, mode, k) is FindGpu || step_of(
            t,
            s,
            mode,
            k,
        ) is FindGpuAgain),
        switcher::take_step(t, m, b, step_of(t, s, mode, k), force) matches Ok(((_, Ok(())), _)),
    ensures
        switcher::take_step(t, m, b, step_of(t, s, mode, k), force) matches Ok((_, n))
            && seen_through(t, s, mode, force, step_of(t, s, mode, k), b, n),
{
    let step = step_of(t, s, mode, k);
    lemma_place_of_step(t, s, mode, force, k, b, m);
    reveal(switcher::take_step);
    match step {
        ModeStep::WriteModprobe(ty) => {
            let action = ActionView::Write {
                path: "/etc/modprobe.d/gpu-switcherd.conf"@,
                contents: switcher::modprobe_conf(ty),
            };
            lemma_step_asks(t, s, mode, force, k, b, m, m, action);
        },
        ModeStep::Wait(millis) => {
            lemma_step_asks(t, s, mode, force, k, b, m, m, ActionView::Sleep { millis });
        },
        ModeStep::SwitchServices(state) => {
            conduct::law_services_are_switched_together(
                t.take(m),
                m,
                state,
                switcher::ServiceType::Nvidia,
            );
            let action = conduct::switching_services(state);
            lemma_step_asks(t, s, mode, force, k, b, m, m, action);
        },
        ModeStep::SwitchIcd(_) => {
            let action = ActionView::Exists { path: switcher::active_icd() };
            lemma_step_asks(t, s, mode, force, k, b, m, m, action);
        },
        ModeStep::PlugIfUnplugged => {
            if let (HotplugType::Normal, Some(slot)) = (b.hotplug_type, switcher::known_slot(b)) {
                let action = ActionView::Read { path: text::path_in(slot, "power"@) };
                lemma_step_asks(t, s, mode, force, k, b, m, m, action);
                conduct::law_slot_power_is_seen(t, m, b);
                if !(t[m] matches ReplyView::Text(Ok(power)) && conduct::begins_with_one(power)) {
                    assert(t.take(m + 2)[m] == t[m]);
                    assert(t.take(m + 2)[m + 1] == t[m + 1]);
                    let giving = conduct::powering(slot, HotplugState::Plug);
                    lemma_step_asks(t, s, mode, force, k, b, m, m + 2, giving);
                    assert(t[m + 2] matches ReplyView::Done(Ok(())));
                }
                let n = switcher::take_step(t, m, b, step, force)->Ok_0.1;
                assert(power_seen_or_given(t, s, mode, force, n, slot, m));
            }
        },
        ModeStep::TryPlug => {
            if let (HotplugType::Normal, Some(slot)) = (b.hotplug_type, switcher::known_slot(b)) {
                assert(t.take(m + 1)[m] == t[m]);
                let giving = conduct::powering(slot, HotplugState::Plug);
                lemma_step_asks(t, s, mode, force, k, b, m, m + 1, giving);
            }
        },
        ModeStep::Unplug => {
            if let (HotplugType::Normal, Some(slot)) = (b.hotplug_type, switcher::known_slot(b)) {
                assert(t.take(m + 1)[m] == t[m]);
                let taking = conduct::powering(slot, HotplugState::Unplug);
                lemma_step_asks(t, s, mode, force, k, b, m, m + 1, taking);
                assert(t[m + 1] matches ReplyView::Done(Ok(())));
            }
        },
        _ => {},
    }
}

proof fn lemma_search_is_seen_through(
    t: Seq<ReplyView>,
    s: GpuSwitcherView,
    mode: GpuMode,
    force: bool,
    k: int,
    b: GpuSwitcherView,
    m: int,
)
    requires
        comes_to(t, s, mode, force, k, b, m),
        step_of(t, s, mode, k) is FindGpu || step_of(t, s, mode, k) is FindGpuAgain,
        switcher::take_step(t, m, b, step_of(t, s, mode, k), force) matches Ok(((_, Ok(())), _)),
    ensures
        switcher::take_step(t, m, b, step_of(t, s, mode, k), force) matches Ok((_, n))
            && seen_through(t, s, mode, force, step_of(t, s, mode, k), b, n),
{
    lemma_place_of_step(t, s, mode, force, k, b, m);
    reveal(switcher::take_step);
    let action = ActionView::Write { path: "/sys/bus/pci/rescan"@, contents: "1"@ };
    lemma_step_asks(t, s, mode, force, k, b, m, m, action);
    replay::take_step_settled(t, t, m, b, step_of(t, s, mode, k), force);
    assert(t[m] matches ReplyView::Done(Ok(())));
    lemma_search_goes_on(t, m, b.bus_id, laws::step_mode(step_of(t, s, mode, k)));
}

/// A search that succeeds has used at least the reply to its first action.
proof fn lemma_search_goes_on(t: Seq<ReplyView>, at: int, bus: PCIBusId, mode: GpuMode)
    requires
        0 <= at <= t.len(),
    ensures
        switcher::rescan_pci(t, at, bus, mode) matches Ok((_, n)) ==> at < n,
{
    if let Ok((Ok(()), n)) = system::write(t, at, "/sys/bus/pci/rescan"@, "1"@) {
        replay::find_device_settled(t, t, n, bus);
        if let Ok((Ok(device), n)) = pci::find_device(t, n, bus) {
            replay::describe_settled(t, t, n, device);
        }
    }
}

proof fn lemma_detaching_is_seen_through(
    t: Seq<ReplyView>,
    s: GpuSwitcherView,
    mode: GpuMode,
    force: bool,
    k: int,
    b: GpuSwitcherView,
    m: int,
)
    requires
        comes_to(t, s, mode, force, k, b, m),
        step_of(t, s, mode, k) is SendDetach,
        switcher::take_step(t, m, b, step_of(t, s, mode, k), force) matches Ok(((_, Ok(())), _)),
    ensures
        switcher::take_step(t, m, b, step_of(t, s, mode, k), force) matches Ok((_, n))
            && seen_through(t, s, mode, force, step_of(t, s, mode, k), b, n),
{
    lemma_place_of_step(t, s, mode, force, k, b, m);
    reveal(switcher::take_step);
    let n = switcher::take_step(t, m, b, step_of(t, s, mode, k), force)->Ok_0.1;
    let gpu = b.gpu->0;
    assert forall|i: int| 0 <= i < gpu.cards.len() implies card_dealt_with(
        t,
        s,
        mode,
        force,
        n,
        gpu::uevent_file(gpu.pci.bus_id, #[trigger] gpu.cards[i]),
    ) by {
        let bus = gpu.pci.bus_id;
        let file = gpu::uevent_file(bus, gpu.cards[i]);
        conduct::law_every_card_is_told(t, m, bus, gpu.cards, i);
        let j = choose|j: int| #[trigger]
            conduct::told_at(t, m, bus, gpu.cards, 0, n, gpu.cards[i], j);
        let writing = ActionView::Write { path: file, contents: "remove"@ };
        lemma_step_asks(t, s, mode, force, k, b, m, j, ActionView::Exists { path: file });
        if t[j] != ReplyView::Present(false) {
            lemma_step_asks(t, s, mode, force, k, b, m, j + 1, writing);
        }
        assert(card_told(t, s, mode, force, n, file, j));
    }
}

proof fn lemma_ending_users_is_seen_through(
    t: Seq<ReplyView>,
    s: GpuSwitcherView,
    mode: GpuMode,
    force: bool,
    k: int,
    b: GpuSwitcherView,
    m: int,
)
    requires
        comes_to(t, s, mode, force, k, b, m),
        step_of(t, s, mode, k) is KillUsers,
        switcher::take_step(t, m, b, step_of(t, s, mode, k), force) matches Ok(((_, Ok(())), _)),
    ensures
        switcher::take_step(t, m, b, step_of(t, s, mode, k), force) matches Ok((_, n))
            && seen_through(t, s, mode, force, step_of(t, s, mode, k), b, n),
{
    lemma_place_of_step(t, s, mode, force, k, b, m);
    reveal(switcher::take_step);
    let n = switcher::take_step(t, m, b, step_of(t, s, mode, k), force)->Ok_0.1;
    let gpu = b.gpu->0;
    let nodes = switcher::device_nodes(gpu);
    replay::kill_users_settled(t, t, m, nodes, 0);
    assert forall|i: int| 0 <= i < nodes.len() implies node_dealt_with(
        t,
        s,
        mode,
        force,
        n,
        #[trigger] nodes[i],
    ) by {
        conduct::law_every_user_is_ended(t, m, nodes, i);
        let j = choose|j: int| #[trigger] conduct::freed_at(t, m, nodes, 0, n, nodes[i], j);
        let listing = ActionView::ListHolders { path: nodes[i] };
        lemma_step_asks(t, s, mode, force, k, b, m, j, listing);
        if let ReplyView::Holders(Some(list)) = t[j] {
            assert forall|h: int| 0 <= h < list.len() implies process_ended_between(
                t,
                s,
                mode,
                force,
                j,
                n,
                #[trigger] list[h],
            ) by {
                assert(conduct::ended_between(t, m, nodes, 0, j, n, list[h]));
                let p = choose|p: int|
                    j < p < n && #[trigger] conduct::ended_at(t, m, nodes, 0, p, list[h]);
                let pid = system::process_id(list[h].pid)->0;
                lemma_step_asks(t, s, mode, force, k, b, m, p, ActionView::Kill { pid });
                assert(process_ended(t, s, mode, force, p, list[h]));
            }
        }
        assert(node_freed(t, s, mode, force, n, nodes[i], j));
    }
}

/// What the switch of drivers asks for on a prefix, the switch asks for.
proof fn lemma_driver_asks(
    t: Seq<ReplyView>,
    s: GpuSwitcherView,
    mode: GpuMode,
    force: bool,
    k: int,
    b: GpuSwitcherView,
    m: int,
    ty: DriverType,
    p: int,
    action: ActionView,
)
    requires
        comes_to(t, s, mode, force, k, b, m),
        step_of(t, s, mode, k) == ModeStep::SwitchDrivers(ty),
        m <= p <= t.len(),
        system::awaits(switcher::switch_drivers(t.take(p), m, b, ty, force), action),
    ensures
        asks(t, s, mode, force, p, action),
{
    assert(system::awaits(
        switcher::take_step(t.take(p), m, b, ModeStep::SwitchDrivers(ty), force),
        action,
    )) by {
        reveal(switcher::take_step);
    }
    lemma_step_asks(t, s, mode, force, k, b, m, p, action);
}

/// A successful switch of drivers was told of the driver that was there.
proof fn lemma_driver_is_told(
    t: Seq<ReplyView>,
    at: int,
    s: GpuSwitcherView,
    ty: DriverType,
    force: bool,
)
    requires
        0 <= at <= t.len(),
        switcher::switch_drivers(t, at, s, ty, force) matches Ok((Ok(()), _)),
    ensures
        s.gpu is Some,
        conduct::tells_driver(t, at),
{
}

/// Binding the GPU uses replies.
proof fn lemma_binding_goes_on(t: Seq<ReplyView>, at: int, gpu: GpuDeviceView)
    ensures
        gpu::bind_vfio(t, at, gpu) matches Ok((Ok(()), n)) ==> at < n,
{
}

/// Where a successful switch of drivers ends, and what it has asked for on its way.
proof fn lemma_driver_steps(
    t: Seq<ReplyView>,
    s: GpuSwitcherView,
    mode: GpuMode,
    force: bool,
    k: int,
    b: GpuSwitcherView,
    m: int,
    gpu: GpuDeviceView,
    ty: DriverType,
    n: int,
)
    requires
        comes_to(t, s, mode, force, k, b, m),
        0 <= m <= t.len(),
        step_of(t, s, mode, k) == ModeStep::SwitchDrivers(ty),
        b.gpu == Some(gpu),
        conduct::succeeded(switcher::switch_drivers(t, m, b, ty, force), n),
        conduct::tells_driver(t, m),
        !conduct::is_driver(conduct::driver_told(t, m), ty),
    ensures
        ({
            let modules = conduct::modules_behind(conduct::driver_told(t, m));
            let p = m + 1 + modules.len();
            let q = conduct::after_unbinding(p, gpu);
            &&& asks(t, s, mode, force, p, conduct::unbinding(gpu.pci.bus_id))
            &&& gpu.audio_pci matches Some(audio) ==> asks(
                t,
                s,
                mode,
                force,
                p + 1,
                conduct::unbinding(audio.bus_id),
            )
            &&& q <= n
            &&& ty != DriverType::NoDriver ==> {
                &&& q < n
                &&& asks(t, s, mode, force, q, conduct::loading(conduct::modules_for(ty)))
                &&& t[q] == ReplyView::Exit(Ok(ExitStatus::Success))
            }
            &&& ty == DriverType::Vfio ==> conduct::succeeded(gpu::bind_vfio(t, q + 1, gpu), n)
        }),
{
    let modules = conduct::modules_behind(conduct::driver_told(t, m));
    let p = m + 1 + modules.len();
    let q = conduct::after_unbinding(p, gpu);
    conduct::law_gpu_is_let_go_by_the_old_driver(t, m, b, gpu, ty, force);
    conduct::law_new_driver_is_loaded(t, m, b, gpu, ty, force);
    if ty == DriverType::Vfio {
        lemma_binding_goes_on(t, q + 1, gpu);
    }
    replay::switch_drivers_settled(t, t, m, b, ty, force);
    let letting_go = conduct::unbinding(gpu.pci.bus_id);
    lemma_driver_asks(t, s, mode, force, k, b, m, ty, p, letting_go);
    if let Some(audio) = gpu.audio_pci {
        let letting_go = conduct::unbinding(audio.bus_id);
        lemma_driver_asks(t, s, mode, force, k, b, m, ty, p + 1, letting_go);
    }
    if ty != DriverType::NoDriver {
        let loading = conduct::loading(conduct::modules_for(ty));
        lemma_driver_asks(t, s, mode, force, k, b, m, ty, q, loading);
    }
}

#[verifier::spinoff_prover]
#[verifier::rlimit(50)]
proof fn lemma_driver_is_seen_through(
    t: Seq<ReplyView>,
    s: GpuSwitcherView,
    mode: GpuMode,
    force: bool,
    k: int,
    b: GpuSwitcherView,
    m: int,
)
    requires
        comes_to(t, s, mode, force, k, b, m),
        step_of(t, s, mode, k) is SwitchDrivers,
        switcher::take_step(t, m, b, step_of(t, s, mode, k), force) matches Ok(((_, Ok(())), _)),
    ensures
        switcher::take_step(t, m, b, step_of(t, s, mode, k), force) matches Ok((_, n))
            && seen_through(t, s, mode, force, step_of(t, s, mode, k), b, n),
{
    lemma_place_of_step(t, s, mode, force, k, b, m);
    let n = switcher::take_step(t, m, b, step_of(t, s, mode, k), force)->Ok_0.1;
    let ty = step_of(t, s, mode, k)->SwitchDrivers_0;
    assert(conduct::succeeded(switcher::switch_drivers(t, m, b, ty, force), n)) by {
        reveal(switcher::take_step);
    }
    lemma_driver_is_told(t, m, b, ty, force);
    let gpu = b.gpu->0;
    let driver = conduct::driver_told(t, m);
    let modules = conduct::modules_behind(driver);
    conduct::law_driver_is_switched(t.take(m), m, b, gpu, ty, force, 0);
    let asking = ActionView::Resolve { path: driver_link(gpu.pci.bus_id) };
    lemma_driver_asks(t, s, mode, force, k, b, m, ty, m, asking);
    if conduct::is_driver(driver, ty) {
        conduct::law_driver_is_switched(t, m, b, gpu, ty, force, 0);
    } else {
        lemma_driver_steps(t, s, mode, force, k, b, m, gpu, ty, n);
        assert forall|i: int| 0 <= i < modules.len() implies asks(
            t,
            s,
            mode,
            force,
            m + 1 + i,
            conduct::unloading(#[trigger] modules[i], force),
        ) && conduct::tells_unused(t, m + 1 + i) by {
            conduct::law_old_modules_are_gone(t, m, b, gpu, ty, force, i);
            let unloading = conduct::unloading(modules[i], force);
            lemma_driver_asks(t, s, mode, force, k, b, m, ty, m + 1 + i, unloading);
        }
    }
    assert(driver_switched(t, s, mode, force, n, gpu, ty, m));
}

/// A step that has been taken has been seen through.
proof fn lemma_step_is_seen_through(
    t: Seq<ReplyView>,
    s: GpuSwitcherView,
    mode: GpuMode,
    force: bool,
    k: int,
    b: GpuSwitcherView,
    m: int,
)
    requires
        comes_to(t, s, mode, force, k, b, m),
        switcher::take_step(t, m, b, step_of(t, s, mode, k), force) matches Ok(((_, Ok(())), _)),
    ensures
        switcher::take_step(t, m, b, step_of(t, s, mode, k), force) matches Ok((_, n))
            && seen_through(t, s, mode, force, step_of(t, s, mode, k), b, n),
{
    match step_of(t, s, mode, k) {
        ModeStep::FindGpu(_) | ModeStep::FindGpuAgain(_) => {
            lemma_search_is_seen_through(t, s, mode, force, k, b, m)
        },
        ModeStep::SendDetach => lemma_detaching_is_seen_through(t, s, mode, force, k, b, m),
        ModeStep::KillUsers => lemma_ending_users_is_seen_through(t, s, mode, force, k, b, m),
        ModeStep::SwitchDrivers(_) => lemma_driver_is_seen_through(t, s, mode, force, k, b, m),
        _ => lemma_simple_step_is_seen_through(t, s, mode, force, k, b, m),
    }
}

/// Each of the first `i` steps, when they have succeeded, has been reached and taken; and if no step
/// from number `k` on looks for the GPU, the switcher is at the end as it was there.
proof fn lemma_step_was_taken(
    t: Seq<ReplyView>,
    at: int,
    s: GpuSwitcherView,
    steps: Seq<ModeStep>,
    force: bool,
    i: int,
    k: int,
) -> (r: (GpuSwitcherView, int, int))
    requires
        0 <= at <= t.len(),
        0 <= k < i <= steps.len(),
        switcher::take_steps(t, at, s, steps.take(i), 0, force) matches Ok(((_, Ok(())), _)),
    ensures
        ({
            let (b, l, n) = r;
            let all = switcher::take_steps(t, at, s, steps.take(i), 0, force);
            &&& order::reaches(t, at, s, steps, force, k, b, l)
            &&& switcher::take_step(t, l, b, steps[k], force) matches Ok(((_, Ok(())), m)) && m == n
            &&& 0 <= l <= n <= t.len()
            &&& all matches Ok(((after, _), end)) && n <= end <= t.len() && (k == i - 1 ==> n == end)
                && ((forall|j: int|
                k <= j < i ==> !(#[trigger] steps[j] is FindGpu) && !(steps[j] is FindGpuAgain))
                ==> after == b)
        }),
{
    let some = steps.take(i);
    let (b, l) = order::lemma_success_passes(t, at, s, some, force, k);
    assert(some.take(k) =~= steps.take(k));
    assert(some[k] == steps[k]);
    replay::take_steps_settled(t, t, at, s, some.take(k), 0, force);
    replay::take_step_settled(t, t, l, b, steps[k], force);
    let ((next, _), n) = switcher::take_step(t, l, b, steps[k], force)->Ok_0;
    replay::take_steps_settled(t, t, n, next, some, k + 1, force);
    if forall|j: int|
        k <= j < i ==> !(#[trigger] steps[j] is FindGpu) && !(steps[j] is FindGpuAgain) {
        assert forall|j: int| k <= j < some.len() implies !(#[trigger] some[j] is FindGpu) && !(
        some[j] is FindGpuAgain) by {
            assert(some[j] == steps[j]);
        }
        order::lemma_switcher_stays(t, l, b, some, k, force);
    }
    (b, l, n)
}

/// The steps before the one that a switch has come to have been seen through.
proof fn lemma_earlier_step(
    t: Seq<ReplyView>,
    s: GpuSwitcherView,
    mode: GpuMode,
    force: bool,
    i: int,
    b: GpuSwitcherView,
    m: int,
    k: int,
) -> (r: (GpuSwitcherView, int))
    requires
        comes_to(t, s, mode, force, i, b, m),
        0 <= k < i,
    ensures
        ({
            let (c, n) = r;
            let steps = switcher::mode_steps(switcher::get_mode(t, 0, s)->Ok_0.0, mode);
            &&& n <= m <= t.len()
            &&& seen_through(t, s, mode, force, step_of(t, s, mode, k), c, n)
            &&& (forall|j: int|
                k <= j < i ==> !(#[trigger] steps[j] is FindGpu) && !(steps[j] is FindGpuAgain))
                ==> c == b
        }),
{
    let (current, start) = switcher::get_mode(t, 0, s)->Ok_0;
    let steps = switcher::mode_steps(current, mode);
    let (c, l, n) = lemma_step_was_taken(t, start, s, steps, force, i, k);
    lemma_step_is_seen_through(t, s, mode, force, k, c, l);
    (c, n)
}

/// Whether what the step is for has been done by a switch before `n`, with the switcher as `b`.
pub open spec fn seen_through_before(
    t: Seq<ReplyView>,
    s: GpuSwitcherView,
    mode: GpuMode,
    force: bool,
    step: ModeStep,
    b: GpuSwitcherView,
    n: int,
) -> bool {
    exists|m: int| m <= n && #[trigger] seen_through(t, s, mode, force, step, b, m)
}

/// The steps of a switch that has succeeded have all been seen through.
proof fn lemma_step_of_success(
    t: Seq<ReplyView>,
    s: GpuSwitcherView,
    mode: GpuMode,
    force: bool,
    k: int,
) -> (b: GpuSwitcherView)
    requires
        switcher::get_mode(t, 0, s) matches Ok((current, _)) && current != mode && 0 <= k
            < switcher::mode_steps(current, mode).len(),
        switcher::set_gpu_mode(t, 0, s, mode, force) matches Ok(((_, Ok(())), _)),
    ensures
        ({
            let current = switcher::get_mode(t, 0, s)->Ok_0.0;
            let steps = switcher::mode_steps(current, mode);
            let d = order::switching_step(current, mode);
            &&& switcher::set_gpu_mode(t, 0, s, mode, force) matches Ok(((after, _), end)) && {
                &&& seen_through_before(t, s, mode, force, steps[k], b, end)
                &&& k == steps.len() - 1 ==> seen_through(t, s, mode, force, steps[k], b, end)
                &&& k > 3 || k > 0 && mode == GpuMode::Integrated ==> b == after
            }
            &&& b.bus_id == s.bus_id
            &&& b.hotplug_type == s.hotplug_type
            &&& laws::knows_its_gpu(s) ==> laws::knows_its_gpu(b)
            &&& exists|m: int| #[trigger] comes_to(t, s, mode, force, k, b, m)
        }),
{
    let (current, start) = switcher::get_mode(t, 0, s)->Ok_0;
    let steps = switcher::mode_steps(current, mode);
    assert(steps.take(steps.len() as int) =~= steps);
    let (b, l, n) = lemma_step_was_taken(t, start, s, steps, force, steps.len() as int, k);
    lemma_place_of_step(t, s, mode, force, k, b, l);
    lemma_step_is_seen_through(t, s, mode, force, k, b, l);
    if k > 3 || k > 0 && mode == GpuMode::Integrated {
        assert forall|j: int| k <= j < steps.len() implies !(#[trigger] steps[j] is FindGpu) && !(
        steps[j] is FindGpuAgain) by {
            order::law_way_to_a_mode(current, mode, j);
        }
    }
    assert(seen_through(t, s, mode, force, steps[k], b, n));
    assert(comes_to(t, s, mode, force, k, b, l));
    b
}

/// The first search of a switch.
pub open spec fn first_search(t: Seq<ReplyView>, s: GpuSwitcherView, mode: GpuMode) -> Step<
    Result<Option<GpuDeviceView>, RescanPCIErrorView>,
> {
    switcher::rescan_pci(t, switcher::get_mode(t, 0, s)->Ok_0.1, s.bus_id, mode)
}

/// Up to the step that gives power, the switcher knows the GPU that the first search has found.
proof fn lemma_switcher_before_power(
    t: Seq<ReplyView>,
    s: GpuSwitcherView,
    mode: GpuMode,
    force: bool,
    b: GpuSwitcherView,
)
    requires
        exists|m: int| #[trigger] comes_to(t, s, mode, force, 2, b, m),
    ensures
        first_search(t, s, mode) matches Ok((Ok(found), _)) && b == (GpuSwitcherView {
            gpu: found,
            ..s
        }),
{
    let m = choose|m: int| #[trigger] comes_to(t, s, mode, force, 2, b, m);
    let (current, start) = switcher::get_mode(t, 0, s)->Ok_0;
    let steps = switcher::mode_steps(current, mode);
    order::law_way_to_a_mode(current, mode, 0);
    let (b0, l0, n0) = lemma_step_was_taken(t, start, s, steps, force, 2, 0);
    assert(steps.take(0).len() == 0);
    assert(b0 == s && l0 == start);
    order::lemma_one_step_further(t, start, s, steps, force, 0, b0, l0);
    let (b1, l1, n1) = lemma_step_was_taken(t, start, s, steps, force, 2, 1);
    reveal(switcher::take_step);
}

/// Where the last search of a successful switch begins, and what it has found.
#[verifier::spinoff_prover]
#[verifier::rlimit(50)]
proof fn lemma_last_search(t: Seq<ReplyView>, s: GpuSwitcherView, mode: GpuMode, force: bool) -> (r:
    int)
    requires
        switcher::get_mode(t, 0, s) matches Ok((current, _)) && current != mode,
        switcher::set_gpu_mode(t, 0, s, mode, force) matches Ok(((_, Ok(())), _)),
    ensures
        switcher::set_gpu_mode(t, 0, s, mode, force) matches Ok(((after, _), end))
            && found_by_search(t, s, mode, force, after, end, r),
{
    let (current, start) = switcher::get_mode(t, 0, s)->Ok_0;
    let steps = switcher::mode_steps(current, mode);
    order::law_way_to_a_mode(current, mode, 0);
    let k: int = if switcher::requires_dgpu(mode) {
        3
    } else {
        0
    };
    assert(steps.take(steps.len() as int) =~= steps);
    let (b, l, n) = lemma_step_was_taken(t, start, s, steps, force, steps.len() as int, k);
    order::lemma_one_step_further(t, start, s, steps, force, k, b, l);
    lemma_place_of_step(t, s, mode, force, k, b, l);
    let (c, l2, n2) = lemma_step_was_taken(t, start, s, steps, force, steps.len() as int, k + 1);
    assert forall|j: int| k + 1 <= j < steps.len() implies !(#[trigger] steps[j] is FindGpu) && !(
    steps[j] is FindGpuAgain) by {
        order::law_way_to_a_mode(current, mode, j);
    }
    let action = ActionView::Write { path: "/sys/bus/pci/rescan"@, contents: "1"@ };
    law_step_does_its_work(t, l, b, steps[k], force);
    assert(system::awaits(switcher::take_step(t.take(l), l, b, steps[k], force), action)) by {
        law_step_does_its_work(t.take(l), l, b, steps[k], force);
        conduct::law_gpu_is_looked_for(t.take(l), l, b.bus_id, mode);
    }
    lemma_step_asks(t, s, mode, force, k, b, l, l, action);
    l
}

/// Whether a search was begun at `r`, and found what the switcher knows of the GPU as `after`.
pub open spec fn found_by_search(
    t: Seq<ReplyView>,
    s: GpuSwitcherView,
    mode: GpuMode,
    force: bool,
    after: GpuSwitcherView,
    end: int,
    r: int,
) -> bool {
    &&& asks(
        t,
        s,
        mode,
        force,
        r,
        ActionView::Write { path: "/sys/bus/pci/rescan"@, contents: "1"@ },
    )
    &&& switcher::rescan_pci(t, r, s.bus_id, mode) matches Ok((Ok(found), n)) && after.gpu == found
        && n <= end
}

/// When a switch has succeeded, what the switcher knows of the GPU is what a search on the way has
/// found.
pub proof fn law_known_gpu_was_found(
    t: Seq<ReplyView>,
    s: GpuSwitcherView,
    mode: GpuMode,
    force: bool,
)
    requires
        switcher::get_mode(t, 0, s) matches Ok((current, _)) && current != mode,
    ensures
        switcher::set_gpu_mode(t, 0, s, mode, force) matches Ok(((after, Ok(())), end))
            ==> exists|r: int| #[trigger] found_by_search(t, s, mode, force, after, end, r),
{
    if let Ok(((after, Ok(())), end)) = switcher::set_gpu_mode(t, 0, s, mode, force) {
        let r = lemma_last_search(t, s, mode, force);
        assert(found_by_search(t, s, mode, force, after, end, r));
    }
}

/// What a switch to another mode has done when it has succeeded. The kernel has looked for devices
/// and has got the configuration of the mode. The GPU that is known in the end has been brought to
/// the driver whose mode it is, which is the last thing on the way to a virtual machine.
pub proof fn law_success_does_what_the_mode_needs(
    t: Seq<ReplyView>,
    s: GpuSwitcherView,
    mode: GpuMode,
    force: bool,
)
    requires
        switcher::get_mode(t, 0, s) matches Ok((current, _)) && current != mode,
    ensures
        switcher::set_gpu_mode(t, 0, s, mode, force) matches Ok(((after, Ok(())), end)) ==> {
            &&& done_before(
                t,
                s,
                mode,
                force,
                end,
                ActionView::Write { path: "/sys/bus/pci/rescan"@, contents: "1"@ },
            )
            &&& done_before(
                t,
                s,
                mode,
                force,
                end,
                ActionView::Write {
                    path: "/etc/modprobe.d/gpu-switcherd.conf"@,
                    contents: switcher::modprobe_conf(order::conf_of(mode)),
                },
            )
            &&& seen_through_before(
                t,
                s,
                mode,
                force,
                ModeStep::SwitchDrivers(driver_for(mode)),
                after,
                end,
            )
            &&& mode == GpuMode::Vfio ==> seen_through(
                t,
                s,
                mode,
                force,
                ModeStep::SwitchDrivers(driver_for(mode)),
                after,
                end,
            )
        },
{
    if let Ok(((after, Ok(())), end)) = switcher::set_gpu_mode(t, 0, s, mode, force) {
        let current = switcher::get_mode(t, 0, s)->Ok_0.0;
        let d = order::switching_step(current, mode);
        order::law_way_to_a_mode(current, mode, d);
        let b = lemma_step_of_success(t, s, mode, force, 0);
        let c = lemma_step_of_success(t, s, mode, force, 1);
        let e = lemma_step_of_success(t, s, mode, force, d);
    }
}

/// What a switch that frees the GPU has done when it has succeeded: each card of the GPU has been
/// told; five seconds have been waited; the vendor's services have been stopped, both; each process
/// that was listed as a user of one of the GPU's nodes has been ended; and the Vulkan driver has been
/// looked after.
pub proof fn law_success_has_freed_the_gpu(
    t: Seq<ReplyView>,
    s: GpuSwitcherView,
    mode: GpuMode,
    force: bool,
)
    requires
        switcher::get_mode(t, 0, s) matches Ok((current, _)) && current != mode
            && order::frees_the_gpu(current, mode),
    ensures
        switcher::set_gpu_mode(t, 0, s, mode, force) matches Ok(((after, Ok(())), end)) ==> {
            &&& after.gpu is Some
            &&& forall|k: int|
                0 <= k < after.gpu->0.cards.len() ==> card_dealt_with(
                    t,
                    s,
                    mode,
                    force,
                    end,
                    gpu::uevent_file(after.gpu->0.pci.bus_id, #[trigger] after.gpu->0.cards[k]),
                )
            &&& asked_before(t, s, mode, force, end, ActionView::Sleep { millis: 5000 })
            &&& asked_before(
                t,
                s,
                mode,
                force,
                end,
                conduct::switching_services(ServiceState::Stop),
            )
            &&& forall|k: int|
                0 <= k < switcher::device_nodes(after.gpu->0).len() ==> node_dealt_with(
                    t,
                    s,
                    mode,
                    force,
                    end,
                    #[trigger] switcher::device_nodes(after.gpu->0)[k],
                )
            &&& asked_before(
                t,
                s,
                mode,
                force,
                end,
                ActionView::Exists { path: "/usr/share/vulkan/icd.d/nvidia_icd.json"@ },
            )
        },
{
    if let Ok(((after, Ok(())), end)) = switcher::set_gpu_mode(t, 0, s, mode, force) {
        let current = switcher::get_mode(t, 0, s)->Ok_0.0;
        let f = order::freeing_step(mode);
        order::law_way_to_a_mode(current, mode, f);
        let b = lemma_step_of_success(t, s, mode, force, f);
        let m = choose|m: int|
            m <= end && #[trigger] seen_through(t, s, mode, force, ModeStep::SendDetach, b, m);
        assert forall|k: int| 0 <= k < after.gpu->0.cards.len() implies card_dealt_with(
            t,
            s,
            mode,
            force,
            end,
            gpu::uevent_file(after.gpu->0.pci.bus_id, #[trigger] after.gpu->0.cards[k]),
        ) by {
            let file = gpu::uevent_file(after.gpu->0.pci.bus_id, after.gpu->0.cards[k]);
            assert(card_dealt_with(t, s, mode, force, m, file));
            let j = choose|j: int| #[trigger] card_told(t, s, mode, force, m, file, j);
            assert(card_told(t, s, mode, force, end, file, j));
        }
        let b = lemma_step_of_success(t, s, mode, force, f + 1);
        let b = lemma_step_of_success(t, s, mode, force, f + 2);
        let b = lemma_step_of_success(t, s, mode, force, f + 3);
        let nodes = switcher::device_nodes(after.gpu->0);
        let m = choose|m: int|
            m <= end && #[trigger] seen_through(t, s, mode, force, ModeStep::KillUsers, b, m);
        assert forall|k: int| 0 <= k < nodes.len() implies node_dealt_with(
            t,
            s,
            mode,
            force,
            end,
            #[trigger] nodes[k],
        ) by {
            assert(node_dealt_with(t, s, mode, force, m, nodes[k]));
            let j = choose|j: int| #[trigger] node_freed(t, s, mode, force, m, nodes[k], j);
            lemma_node_stays_freed(t, s, mode, force, m, end, nodes[k], j);
        }
        let b = lemma_step_of_success(t, s, mode, force, f + 4);
    }
}

/// What was done before `m` was done before `n`.
proof fn lemma_node_stays_freed(
    t: Seq<ReplyView>,
    s: GpuSwitcherView,
    mode: GpuMode,
    force: bool,
    m: int,
    n: int,
    node: Seq<char>,
    j: int,
)
    requires
        m <= n,
        node_freed(t, s, mode, force, m, node, j),
    ensures
        node_freed(t, s, mode, force, n, node, j),
{
    if let ReplyView::Holders(Some(list)) = t[j] {
        assert forall|k: int| 0 <= k < list.len() implies process_ended_between(
            t,
            s,
            mode,
            force,
            j,
            n,
            #[trigger] list[k],
        ) by {
            assert(process_ended_between(t, s, mode, force, j, m, list[k]));
            let p = choose|p: int|
                j < p < m && #[trigger] process_ended(t, s, mode, force, p, list[k]);
            assert(process_ended(t, s, mode, force, p, list[k]));
        }
    }
}

/// What else a switch has done when it has succeeded. In a mode that needs the GPU, the power of the
/// slot in which the GPU was found was there or has been given, and half a second has been waited.
/// In the vendor's mode the services have been started, both. Where the GPU goes out of use and its
/// slot is known, its power has been taken away, as the very last thing.
pub proof fn law_success_has_switched_power_and_services(
    t: Seq<ReplyView>,
    s: GpuSwitcherView,
    mode: GpuMode,
    force: bool,
)
    requires
        switcher::get_mode(t, 0, s) matches Ok((current, _)) && current != mode,
    ensures
        switcher::set_gpu_mode(t, 0, s, mode, force) matches Ok(((after, Ok(())), end)) ==> {
            &&& switcher::requires_dgpu(mode) ==> {
                &&& first_search(t, s, mode) matches Ok((Ok(found), _)) && seen_through_before(
                    t,
                    s,
                    mode,
                    force,
                    ModeStep::PlugIfUnplugged,
                    GpuSwitcherView { gpu: found, ..s },
                    end,
                )
                &&& asked_before(t, s, mode, force, end, ActionView::Sleep { millis: 500 })
            }
            &&& mode == GpuMode::Nvidia ==> asked_before(
                t,
                s,
                mode,
                force,
                end,
                conduct::switching_services(ServiceState::Start),
            )
            &&& mode == GpuMode::Integrated && after.hotplug_type == HotplugType::Normal ==> (
            switcher::known_slot(after) matches Some(slot) ==> {
                &&& asked_before(
                    t,
                    s,
                    mode,
                    force,
                    end,
                    conduct::powering(slot, HotplugState::Plug),
                )
                &&& done_before(
                    t,
                    s,
                    mode,
                    force,
                    end,
                    conduct::powering(slot, HotplugState::Unplug),
                )
            })
        },
{
    if let Ok(((after, Ok(())), end)) = switcher::set_gpu_mode(t, 0, s, mode, force) {
        let current = switcher::get_mode(t, 0, s)->Ok_0.0;
        let d = order::switching_step(current, mode);
        order::law_way_to_a_mode(current, mode, 0);
        if switcher::requires_dgpu(mode) {
            let b = lemma_step_of_success(t, s, mode, force, 2);
            lemma_switcher_before_power(t, s, mode, force, b);
            let b = lemma_step_of_success(t, s, mode, force, d - 1);
        }
        if mode == GpuMode::Nvidia {
            let b = lemma_step_of_success(t, s, mode, force, d + 1);
        }
        if mode == GpuMode::Integrated {
            let b = lemma_step_of_success(t, s, mode, force, d + 1);
            let b = lemma_step_of_success(t, s, mode, force, d + 2);
        }
    }
}

/// The driver that the GPU has in a mode.
pub open spec fn driver_for(mode: GpuMode) -> DriverType {
    match mode {
        GpuMode::Integrated => DriverType::NoDriver,
        GpuMode::Nvidia => DriverType::Nvidia,
        GpuMode::Vfio => DriverType::Vfio,
    }
}

/// Whether the action is one of those that a switch from one mode to another asks for, the switcher
/// being as `b`.
pub open spec fn fits(
    action: ActionView,
    b: GpuSwitcherView,
    current: GpuMode,
    mode: GpuMode,
    force: bool,
) -> bool {
    let frees = order::frees_the_gpu(current, mode);
    let needed = switcher::requires_dgpu(mode);
    let vendors = mode == GpuMode::Nvidia;
    ||| belongs_to(action, ModeStep::FindGpu(mode), b, force)
    ||| belongs_to(action, ModeStep::WriteModprobe(order::conf_of(mode)), b, force)
    ||| needed && belongs_to(action, ModeStep::PlugIfUnplugged, b, force)
    ||| frees && belongs_to(action, ModeStep::SendDetach, b, force)
    ||| frees && action == ActionView::Sleep { millis: 5000 }
    ||| frees && action == conduct::switching_services(ServiceState::Stop)
    ||| frees && belongs_to(action, ModeStep::KillUsers, b, force)
    ||| (frees || vendors) && belongs_to(action, ModeStep::SwitchIcd(IcdType::Inactive), b, force)
    ||| needed && action == ActionView::Sleep { millis: 500 }
    ||| belongs_to(action, ModeStep::SwitchDrivers(driver_for(mode)), b, force)
    ||| vendors && action == conduct::switching_services(ServiceState::Start)
    ||| !needed && belongs_to(action, ModeStep::TryPlug, b, force)
    ||| !needed && belongs_to(action, ModeStep::Unplug, b, force)
}

/// Where a switch that is under way awaits an action: at a step that it has come to, to which the
/// action belongs.
proof fn lemma_awaiting_step(
    t: Seq<ReplyView>,
    s: GpuSwitcherView,
    mode: GpuMode,
    force: bool,
    action: ActionView,
) -> (r: (int, GpuSwitcherView, int))
    requires
        switcher::get_mode(t, 0, s) is Ok,
        system::awaits(switcher::set_gpu_mode(t, 0, s, mode, force), action),
    ensures
        ({
            let (i, b, m) = r;
            &&& comes_to(t, s, mode, force, i, b, m)
            &&& belongs_to(action, step_of(t, s, mode, i), b, force)
            &&& 0 <= m <= t.len()
            &&& b.bus_id == s.bus_id
            &&& b.hotplug_type == s.hotplug_type
            &&& laws::knows_its_gpu(s) ==> laws::knows_its_gpu(b)
        }),
{
    let (current, start) = switcher::get_mode(t, 0, s)->Ok_0;
    let steps = switcher::mode_steps(current, mode);
    order::law_steps_are_taken_in_order(t, start, s, steps, force);
    let (i, b, m) = choose|i: int, b: GpuSwitcherView, m: int| #[trigger]
        order::stops_at(t, start, s, steps, force, i, b, m);
    law_step_asks_word_for_word(t, m, b, steps[i], force);
    lemma_place_of_step(t, s, mode, force, i, b, m);
    (i, b, m)
}

/// A switch asks for nothing that does not belong to the way from the mode that the GPU is in to the
/// one that is asked for. First of all it asks for the driver, to learn of the mode.
pub proof fn law_switch_asks_only_what_fits(
    t: Seq<ReplyView>,
    s: GpuSwitcherView,
    mode: GpuMode,
    force: bool,
    action: ActionView,
)
    requires
        system::awaits(switcher::set_gpu_mode(t, 0, s, mode, force), action),
    ensures
        match switcher::get_mode(t, 0, s) {
            Err(_) => s.gpu matches Some(gpu) && action == (ActionView::Resolve {
                path: driver_link(gpu.pci.bus_id),
            }),
            Ok((current, _)) => current != mode && exists|b: GpuSwitcherView|
                b.bus_id == s.bus_id && b.hotplug_type == s.hotplug_type && (laws::knows_its_gpu(s)
                    ==> laws::knows_its_gpu(b)) && #[trigger] fits(action, b, current, mode, force),
        },
{
    if let Ok((current, _)) = switcher::get_mode(t, 0, s) {
        let (i, b, m) = lemma_awaiting_step(t, s, mode, force, action);
        order::law_way_to_a_mode(current, mode, i);
        let step = step_of(t, s, mode, i);
        assert(order::stands_at(switcher::mode_steps(current, mode), i, current, mode));
        assert(fits(action, b, current, mode, force));
    }
}

/// A switch starts the vendor's services only in the vendor's mode, and stops them only where it
/// frees the GPU; it runs no other program of that name.
pub proof fn law_services_follow_the_mode(
    t: Seq<ReplyView>,
    s: GpuSwitcherView,
    mode: GpuMode,
    force: bool,
    args: Seq<Seq<char>>,
)
    requires
        system::awaits(
            switcher::set_gpu_mode(t, 0, s, mode, force),
            ActionView::Run { program: "systemctl"@, args },
        ),
    ensures
        mode == GpuMode::Nvidia ==> args == seq![
            "start"@,
            "nvidia-persistenced.service"@,
            "nvidia-powerd.service"@,
        ],
        mode != GpuMode::Nvidia ==> args == seq![
            "stop"@,
            "nvidia-persistenced.service"@,
            "nvidia-powerd.service"@,
        ],
        switcher::get_mode(t, 0, s) matches Ok((current, _)) && (mode == GpuMode::Nvidia
            || order::frees_the_gpu(current, mode)),
{
    let action = ActionView::Run { program: "systemctl"@, args };
    reveal_strlit("systemctl");
    reveal_strlit("modprobe");
    assert("systemctl"@.len() != "modprobe"@.len());
    let (current, _) = switcher::get_mode(t, 0, s)->Ok_0;
    let (i, b, m) = lemma_awaiting_step(t, s, mode, force, action);
    order::law_way_to_a_mode(current, mode, i);
    assert(order::stands_at(switcher::mode_steps(current, mode), i, current, mode));
}

/// Whether the services have been stopped by a switch before `n`, five seconds after the users of
/// the GPU were told.
pub open spec fn services_stopped_before(
    t: Seq<ReplyView>,
    s: GpuSwitcherView,
    mode: GpuMode,
    force: bool,
    n: int,
) -> bool {
    exists|v: int|
        0 <= v < n && #[trigger] asks(
            t,
            s,
            mode,
            force,
            v,
            conduct::switching_services(ServiceState::Stop),
        ) && asked_before(t, s, mode, force, v, ActionView::Sleep { millis: 5000 })
}

/// Where the GPU is freed, no user is asked for or ended, and no driver is touched, before the
/// services have been stopped; and no driver is touched before the users have been ended.
pub proof fn law_services_and_users_go_first(
    t: Seq<ReplyView>,
    s: GpuSwitcherView,
    mode: GpuMode,
    force: bool,
    action: ActionView,
)
    requires
        system::awaits(switcher::set_gpu_mode(t, 0, s, mode, force), action),
        switcher::get_mode(t, 0, s) matches Ok((current, _)) && order::frees_the_gpu(current, mode),
    ensures
        action is ListHolders || action is Kill || action is RunForErrors || action == (
        ActionView::Run { program: "modprobe"@, args: action->Run_args })
            ==> services_stopped_before(t, s, mode, force, t.len() as int),
        action is RunForErrors || action == (ActionView::Run {
            program: "modprobe"@,
            args: action->Run_args,
        }) ==> exists|b: GpuSwitcherView|
            b.bus_id == s.bus_id && #[trigger] seen_through_before(
                t,
                s,
                mode,
                force,
                ModeStep::KillUsers,
                b,
                t.len() as int,
            ),
{
    reveal_strlit("systemctl");
    reveal_strlit("modprobe");
    assert("systemctl"@.len() != "modprobe"@.len());
    let touches = action is RunForErrors || action == (ActionView::Run {
        program: "modprobe"@,
        args: action->Run_args,
    });
    if action is ListHolders || action is Kill || touches {
        let current = switcher::get_mode(t, 0, s)->Ok_0.0;
        let (i, b, m) = lemma_awaiting_step(t, s, mode, force, action);
        order::law_way_to_a_mode(current, mode, i);
        assert(order::stands_at(switcher::mode_steps(current, mode), i, current, mode));
        let f = order::freeing_step(mode);
        lemma_place_of_users(current, mode, i);
        lemma_services_stopped(t, s, mode, force, i, b, m);
        if touches {
            let (c, n) = lemma_earlier_step(t, s, mode, force, i, b, m, f + 3);
            lemma_no_search_behind(current, mode, f + 3);
            assert(seen_through(t, s, mode, force, ModeStep::KillUsers, c, n));
            assert(seen_through_before(
                t,
                s,
                mode,
                force,
                ModeStep::KillUsers,
                b,
                t.len() as int,
            ));
        }
    }
}

/// Where users are ended on a way that frees the GPU, and where the driver is switched.
proof fn lemma_place_of_users(current: GpuMode, mode: GpuMode, i: int)
    requires
        current != mode,
        order::frees_the_gpu(current, mode),
        0 <= i < switcher::mode_steps(current, mode).len(),
    ensures
        switcher::mode_steps(current, mode)[i] is KillUsers ==> i == order::freeing_step(mode) + 3,
        switcher::mode_steps(current, mode)[i] is SwitchDrivers ==> i > order::freeing_step(mode)
            + 4,
{
    reveal(switcher::mode_steps);
    order::law_way_to_a_mode(current, mode, i);
}

/// From where the GPU is freed on, it is not looked for again.
proof fn lemma_no_search_behind(current: GpuMode, mode: GpuMode, k: int)
    requires
        k > 3,
    ensures
        forall|j: int|
            k <= j < switcher::mode_steps(current, mode).len() ==> !(
            #[trigger] switcher::mode_steps(current, mode)[j] is FindGpu) && !(switcher::mode_steps(
                current,
                mode,
            )[j] is FindGpuAgain),
{
    let steps = switcher::mode_steps(current, mode);
    assert forall|j: int| k <= j < steps.len() implies !(#[trigger] steps[j] is FindGpu) && !(
    steps[j] is FindGpuAgain) by {
        order::law_way_to_a_mode(current, mode, j);
    }
}

/// Behind the step that stops the services, they have been stopped.
#[verifier::spinoff_prover]
#[verifier::rlimit(50)]
proof fn lemma_services_stopped(
    t: Seq<ReplyView>,
    s: GpuSwitcherView,
    mode: GpuMode,
    force: bool,
    i: int,
    b: GpuSwitcherView,
    m: int,
)
    requires
        comes_to(t, s, mode, force, i, b, m),
        order::frees_the_gpu(switcher::get_mode(t, 0, s)->Ok_0.0, mode),
        i > order::freeing_step(mode) + 2,
    ensures
        services_stopped_before(t, s, mode, force, t.len() as int),
{
    let (current, start) = switcher::get_mode(t, 0, s)->Ok_0;
    let steps = switcher::mode_steps(current, mode);
    let f = order::freeing_step(mode);
    order::law_way_to_a_mode(current, mode, 0);
    let (c, l, n) = lemma_step_was_taken(t, start, s, steps, force, i, f + 2);
    assert(steps[f + 2] == ModeStep::SwitchServices(ServiceState::Stop));
    assert(comes_to(t, s, mode, force, f + 2, c, l));
    let (e, n2) = lemma_earlier_step(t, s, mode, force, f + 2, c, l, f + 1);
    let stop = conduct::switching_services(ServiceState::Stop);
    assert(asks(t, s, mode, force, l, stop) && l < t.len()) by {
        reveal(switcher::take_step);
        conduct::law_services_are_switched_together(
            t.take(l),
            l,
            ServiceState::Stop,
            switcher::ServiceType::Nvidia,
        );
        lemma_step_asks(t, s, mode, force, f + 2, c, l, l, stop);
    }
    assert(asked_before(t, s, mode, force, l, ActionView::Sleep { millis: 5000 }));
}

/// Whether a step goes as its procedure goes, and fails with it.
pub open spec fn goes_as<T, E>(
    work: Step<(GpuSwitcherView, Result<(), SetModeErrorView>)>,
    s: GpuSwitcherView,
    procedure: Step<Result<T, E>>,
    error: spec_fn(E) -> SetModeErrorView,
) -> bool {
    match procedure {
        Err(action) => system::awaits(work, action),
        Ok((Ok(_), n)) => work matches Ok(((after, Ok(())), m)) && after == s && m == n,
        Ok((Err(e), n)) => work matches Ok(((after, Err(f)), m)) && after == s && f == error(e) && m
            == n,
    }
}

/// Whether a step goes as its procedure goes, and succeeds whatever comes of it.
pub open spec fn goes_by<T>(
    work: Step<(GpuSwitcherView, Result<(), SetModeErrorView>)>,
    s: GpuSwitcherView,
    procedure: Step<T>,
) -> bool {
    match procedure {
        Err(action) => system::awaits(work, action),
        Ok((_, n)) => work matches Ok(((after, Ok(())), m)) && after == s && m == n,
    }
}

/// What each step does, and whether its failure matters. Only a search changes what the switcher
/// knows, and only if it succeeds.
pub proof fn law_step_does_its_work(
    t: Seq<ReplyView>,
    at: int,
    s: GpuSwitcherView,
    step: ModeStep,
    force: bool,
)
    ensures
        ({
            let work = switcher::take_step(t, at, s, step, force);
            match step {
                ModeStep::FindGpu(mode) | ModeStep::FindGpuAgain(mode) => {
                    match switcher::rescan_pci(t, at, s.bus_id, mode) {
                        Err(action) => system::awaits(work, action),
                        Ok((Ok(gpu), n)) => work matches Ok(((after, Ok(())), m)) && m == n && after
                            == (GpuSwitcherView { gpu, ..s }),
                        Ok((Err(e), n)) => work matches Ok(((after, Err(f)), m)) && m == n && after
                            == s && f == (if step is FindGpu {
                            SetModeErrorView::FindGpu(e)
                        } else {
                            SetModeErrorView::PciRescan(e)
                        }),
                    }
                },
                ModeStep::WriteModprobe(ty) => goes_as(
                    work,
                    s,
                    switcher::write_modprobe(t, at, ty),
                    |e| SetModeErrorView::ModprobeConf(e),
                ),
                ModeStep::PlugIfUnplugged => match switcher::get_hotplug_state(t, at, s) {
                    Err(action) => system::awaits(work, action),
                    Ok((Ok(HotplugState::Plug), n)) => work matches Ok(((after, Ok(())), m))
                        && after == s && m == n,
                    Ok((_, n)) => goes_as(
                        work,
                        s,
                        switcher::hotplug_gpu(t, n, s, HotplugState::Plug),
                        |e| SetModeErrorView::HotplugPlug(e),
                    ),
                },
                ModeStep::SendDetach => goes_as(
                    work,
                    s,
                    switcher::send_gpu_detach(t, at, s),
                    |e| SetModeErrorView::GpuDetach(e),
                ),
                ModeStep::Wait(millis) => goes_by(work, s, system::sleep(t, at, millis)),
                ModeStep::SwitchServices(state) => goes_by(
                    work,
                    s,
                    switcher::switch_services(t, at, state, switcher::ServiceType::Nvidia),
                ),
                ModeStep::KillUsers => goes_as(
                    work,
                    s,
                    switcher::kill_gpu_use(t, at, s),
                    |e| SetModeErrorView::KillGpuUse(e),
                ),
                ModeStep::SwitchIcd(state) => goes_by(work, s, switcher::switch_icd(t, at, state)),
                ModeStep::SwitchDrivers(ty) => goes_as(
                    work,
                    s,
                    switcher::switch_drivers(t, at, s, ty, force),
                    |e| SetModeErrorView::SwitchDrivers(e),
                ),
                ModeStep::TryPlug => goes_by(
                    work,
                    s,
                    switcher::hotplug_gpu(t, at, s, HotplugState::Plug),
                ),
                ModeStep::Unplug => goes_as(
                    work,
                    s,
                    switcher::hotplug_gpu(t, at, s, HotplugState::Unplug),
                    |e| SetModeErrorView::HotplugUnplug(e),
                ),
            }
        }),
{
    reveal(switcher::take_step);
}

/// Nothing is done for a GPU that is not there: its users are not told or ended and its driver is
/// not switched, and each of that is a failure. For one that is there, the cards are those of the
/// GPU, and the nodes too.
pub proof fn law_gpu_has_to_be_there(
    t: Seq<ReplyView>,
    at: int,
    s: GpuSwitcherView,
    ty: DriverType,
    force: bool,
)
    ensures
        s.gpu is None ==> {
            &&& conduct::failed(
                switcher::send_gpu_detach(t, at, s),
                switcher::SendGpuDetachError::NoGpu,
                at,
            )
            &&& conduct::failed(
                switcher::kill_gpu_use(t, at, s),
                switcher::KillGpuUseErrorView::NoGpu,
                at,
            )
            &&& conduct::failed(
                switcher::switch_drivers(t, at, s, ty, force),
                switcher::SwitchDriversErrorView::NoGpu,
                at,
            )
        },
        s.gpu matches Some(gpu) ==> {
            &&& switcher::kill_gpu_use(t, at, s) == switcher::kill_users(
                t,
                at,
                switcher::device_nodes(gpu),
                0,
            )
            &&& match gpu::send_detach(t, at, gpu.pci.bus_id, gpu.cards, 0) {
                Err(action) => system::awaits(switcher::send_gpu_detach(t, at, s), action),
                Ok((Ok(()), n)) => conduct::succeeded(switcher::send_gpu_detach(t, at, s), n),
                Ok((Err(e), n)) => conduct::failed(
                    switcher::send_gpu_detach(t, at, s),
                    switcher::SendGpuDetachError::Io(e),
                    n,
                ),
            }
        },
{
}

/// A switch to another mode comes to its first step at once, from each step that succeeds to the
/// next, and from the last to its end; a step that fails ends it, with that failure, and a step that
/// awaits an action lets it await that.
pub proof fn law_switch_goes_step_by_step(
    t: Seq<ReplyView>,
    s: GpuSwitcherView,
    mode: GpuMode,
    force: bool,
    k: int,
    b: GpuSwitcherView,
    m: int,
)
    requires
        switcher::get_mode(t, 0, s) matches Ok((current, _)) && current != mode,
    ensures
        ({
            let (current, start) = switcher::get_mode(t, 0, s)->Ok_0;
            let all = switcher::set_gpu_mode(t, 0, s, mode, force);
            let last = switcher::mode_steps(current, mode).len() - 1;
            &&& comes_to(t, s, mode, force, 0, s, start)
            &&& comes_to(t, s, mode, force, k, b, m) ==> match switcher::take_step(
                t,
                m,
                b,
                step_of(t, s, mode, k),
                force,
            ) {
                Err(action) => system::awaits(all, action),
                Ok(((c, Err(e)), n)) => all matches Ok(((after, Err(f)), end)) && after == c && f
                    == e && end == n,
                Ok(((c, Ok(())), n)) => {
                    &&& k < last ==> comes_to(t, s, mode, force, k + 1, c, n)
                    &&& k == last ==> (all matches Ok(((after, Ok(())), end)) && after == c && end
                        == n)
                },
            }
        }),
{
    let (current, start) = switcher::get_mode(t, 0, s)->Ok_0;
    let steps = switcher::mode_steps(current, mode);
    order::law_way_to_a_mode(current, mode, 0);
    assert(steps.take(0).len() == 0);
    if comes_to(t, s, mode, force, k, b, m) {
        order::lemma_steps_lead_on(t, start, s, steps, force, 0, k);
        order::lemma_one_step_further(t, start, s, steps, force, k, b, m);
        reveal_with_fuel(switcher::take_steps, 2);
    }
}

} // verus!
