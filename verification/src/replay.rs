//! Replaying: why a procedure may be run again from the start each time a reply has come.
//!
//! A procedure that is done is settled by the replies that it has read: later ones do not change it.
//! The lemmas say so of each procedure that is made of others.
use vstd::prelude::*;

use crate::gpu;
use crate::gpu::GpuDeviceView;
use crate::pci;
use crate::pci::{PCIBusId, PCIDeviceView};
use crate::proto::GpuMode;
use crate::switcher;
use crate::switcher::{DriverType, GpuSwitcherView, HotplugState, IcdType, ModeStep};
use crate::system;
use crate::system::{ActionView, HolderView, ReplyView, Step};
use crate::text;

verus! {

/// Whether the first `n` replies of both are the same.
pub open spec fn same_up_to(u: Seq<ReplyView>, t: Seq<ReplyView>, n: int) -> bool {
    &&& n <= t.len()
    &&& n <= u.len()
    &&& forall|i: int| 0 <= i < n ==> #[trigger] u[i] == t[i]
}

/// Whether a step is settled by the replies before the place that it names: it ends at or after
/// `at`, within the transcript, and is the same for a transcript with the same replies up to there.
pub open spec fn settled<T>(
    t: Seq<ReplyView>,
    u: Seq<ReplyView>,
    at: int,
    here: Step<T>,
    there: Step<T>,
) -> bool {
    here matches Ok((v, n)) ==> {
        &&& at <= n <= t.len()
        &&& same_up_to(u, t, n) ==> there == here
    }
}

/// Whether the transcript came about by running `run` again after each reply: on the replies before
/// each of them it awaits the action that the reply answers.
pub open spec fn in_step<T>(t: Seq<ReplyView>, run: spec_fn(Seq<ReplyView>) -> Step<T>) -> bool {
    forall|p: int|
        0 <= p < t.len() ==> {
            &&& #[trigger] run(t.take(p)) is Err
            &&& system::answers(run(t.take(p))->Err_0, t[p])
        }
}

proof fn find_slot_settled(
    t: Seq<ReplyView>,
    u: Seq<ReplyView>,
    at: int,
    bus: PCIBusId,
    names: Seq<Seq<char>>,
    i: int,
)
    requires
        0 <= at <= t.len(),
    ensures
        settled(t, u, at, pci::find_slot(t, at, bus, names, i), pci::find_slot(u, at, bus, names, i)),
    decreases names.len() - i,
{
    if 0 <= i < names.len() {
        let slot = text::path_in(pci::slots_dir(), names[i]);
        if let Ok((Ok(address), n)) = system::read(t, at, text::path_in(slot, "address"@)) {
            find_slot_settled(t, u, n, bus, names, i + 1);
        }
    }
}

/// A search that has ended stays so.
pub proof fn find_device_settled(
    t: Seq<ReplyView>,
    u: Seq<ReplyView>,
    at: int,
    bus: PCIBusId,
)
    requires
        0 <= at <= t.len(),
    ensures
        settled(t, u, at, pci::find_device(t, at, bus), pci::find_device(u, at, bus)),
{
    if let Ok((Ok(names), n)) = system::list(t, at, pci::slots_dir()) {
        find_slot_settled(t, u, n, bus, names, 0);
    }
}

proof fn describe_with_settled(
    t: Seq<ReplyView>,
    u: Seq<ReplyView>,
    at: int,
    device: PCIDeviceView,
    audio: Option<PCIDeviceView>,
)
    requires
        0 <= at <= t.len(),
    ensures
        settled(
            t,
            u,
            at,
            gpu::describe_with(t, at, device, audio),
            gpu::describe_with(u, at, device, audio),
        ),
{
    if let Ok((_, n)) = system::list(t, at, gpu::drm_dir(device.bus_id)) {
        if let Ok((Ok(slots), n)) = system::list(t, n, pci::slots_dir()) {
            find_slot_settled(t, u, n, device.bus_id, slots, 0);
        }
    }
}

/// A GPU that has been described stays so.
pub proof fn describe_settled(t: Seq<ReplyView>, u: Seq<ReplyView>, at: int, device: PCIDeviceView)
    requires
        0 <= at <= t.len(),
    ensures
        settled(t, u, at, gpu::describe(t, at, device), gpu::describe(u, at, device)),
{
    let function = gpu::audio_function(device.bus_id);
    find_device_settled(t, u, at, function);
    match pci::find_device(t, at, function) {
        Err(_) => {},
        Ok((Ok(audio), n)) => describe_with_settled(t, u, n, device, Some(audio)),
        Ok((Err(_), n)) => describe_with_settled(t, u, n, device, None),
    }
}

proof fn rescan_pci_settled(
    t: Seq<ReplyView>,
    u: Seq<ReplyView>,
    at: int,
    bus: PCIBusId,
    mode: GpuMode,
)
    requires
        0 <= at <= t.len(),
    ensures
        settled(t, u, at, switcher::rescan_pci(t, at, bus, mode), switcher::rescan_pci(u, at, bus, mode)),
{
    if let Ok((Ok(()), n)) = system::write(t, at, "/sys/bus/pci/rescan"@, "1"@) {
        find_device_settled(t, u, n, bus);
        if let Ok((Ok(device), n)) = pci::find_device(t, n, bus) {
            describe_settled(t, u, n, device);
        }
    }
}

/// Cards that have been told stay so.
pub proof fn send_detach_settled(
    t: Seq<ReplyView>,
    u: Seq<ReplyView>,
    at: int,
    bus: PCIBusId,
    cards: Seq<u8>,
    i: int,
)
    requires
        0 <= at <= t.len(),
    ensures
        settled(t, u, at, gpu::send_detach(t, at, bus, cards, i), gpu::send_detach(u, at, bus, cards, i)),
    decreases cards.len() - i,
{
    if 0 <= i < cards.len() {
        let file = gpu::uevent_file(bus, cards[i]);
        if let Ok((present, n)) = system::path_exists(t, at, file) {
            if !present {
                send_detach_settled(t, u, n, bus, cards, i + 1);
            } else if let Ok((Ok(()), n)) = system::write(t, n, file, "remove"@) {
                send_detach_settled(t, u, n, bus, cards, i + 1);
            }
        }
    }
}

/// A list of processes that has been worked through stays so.
pub proof fn kill_holders_settled(
    t: Seq<ReplyView>,
    u: Seq<ReplyView>,
    at: int,
    list: Seq<HolderView>,
    i: int,
)
    requires
        0 <= at <= t.len(),
    ensures
        settled(t, u, at, switcher::kill_holders(t, at, list, i), switcher::kill_holders(u, at, list, i)),
    decreases list.len() - i,
{
    if 0 <= i < list.len() {
        if let Ok((_, n)) = system::kill(t, at, system::process_id(list[i].pid)->0) {
            kill_holders_settled(t, u, n, list, i + 1);
        }
    }
}

/// Nodes that have been worked through stay so.
pub proof fn kill_users_settled(
    t: Seq<ReplyView>,
    u: Seq<ReplyView>,
    at: int,
    nodes: Seq<Seq<char>>,
    i: int,
)
    requires
        0 <= at <= t.len(),
    ensures
        settled(t, u, at, switcher::kill_users(t, at, nodes, i), switcher::kill_users(u, at, nodes, i)),
    decreases nodes.len() - i,
{
    if 0 <= i < nodes.len() {
        match system::list_holders(t, at, nodes[i]) {
            Err(_) => {},
            Ok((None, n)) => kill_users_settled(t, u, n, nodes, i + 1),
            Ok((Some(list), n)) => {
                kill_holders_settled(t, u, n, list, 0);
                if let Ok((Ok(()), n)) = switcher::kill_holders(t, n, list, 0) {
                    kill_users_settled(t, u, n, nodes, i + 1);
                }
            },
        }
    }
}

/// Modules that have been unloaded stay so.
pub proof fn unload_drivers_settled(
    t: Seq<ReplyView>,
    u: Seq<ReplyView>,
    at: int,
    modules: Seq<Seq<char>>,
    i: int,
    force: bool,
)
    requires
        0 <= at <= t.len(),
    ensures
        settled(t, u, at, switcher::unload_drivers(t, at, modules, i, force), switcher::unload_drivers(u, at, modules, i, force)),
    decreases modules.len() - i,
{
    if 0 <= i < modules.len() {
        if let Ok((Ok(()), n)) = switcher::unload_driver(t, at, modules[i], force) {
            unload_drivers_settled(t, u, n, modules, i + 1, force);
        }
    }
}

proof fn bind_vfio_settled(
    t: Seq<ReplyView>,
    u: Seq<ReplyView>,
    at: int,
    device: PCIDeviceView,
)
    requires
        0 <= at <= t.len(),
    ensures
        settled(t, u, at, pci::bind_vfio(t, at, device), pci::bind_vfio(u, at, device)),
{
}

proof fn load_driver_settled(
    t: Seq<ReplyView>,
    u: Seq<ReplyView>,
    at: int,
    gpu: GpuDeviceView,
    ty: DriverType,
)
    requires
        0 <= at <= t.len(),
    ensures
        settled(t, u, at, switcher::load_driver(t, at, gpu, ty), switcher::load_driver(u, at, gpu, ty)),
{
    if let Ok((Ok(()), n)) = switcher::load_modules(t, at, seq!["vfio_pci"@]) {
        bind_vfio_settled(t, u, n, gpu.pci);
        if let Ok((Ok(()), n)) = pci::bind_vfio(t, n, gpu.pci) {
            if let Some(audio) = gpu.audio_pci {
                bind_vfio_settled(t, u, n, audio);
            }
        }
    }
}

/// A driver that has been switched stays so.
pub proof fn switch_drivers_settled(
    t: Seq<ReplyView>,
    u: Seq<ReplyView>,
    at: int,
    s: GpuSwitcherView,
    ty: DriverType,
    force: bool,
)
    requires
        0 <= at <= t.len(),
    ensures
        settled(t, u, at, switcher::switch_drivers(t, at, s, ty, force), switcher::switch_drivers(u, at, s, ty, force)),
{
    if let Some(gpu) = s.gpu {
        if let Ok((driver, n)) = pci::driver_of(t, at, gpu.pci.bus_id) {
            let modules = switcher::modules_of(switcher::driver_type(driver));
            unload_drivers_settled(t, u, n, modules, 0, force);
            if let Ok((Ok(()), n)) = switcher::unload_drivers(t, n, modules, 0, force) {
                if let Ok((_, n)) = gpu::unbind(t, n, gpu) {
                    load_driver_settled(t, u, n, gpu, ty);
                }
            }
        }
    }
}

proof fn switch_icd_settled(
    t: Seq<ReplyView>,
    u: Seq<ReplyView>,
    at: int,
    state: IcdType,
)
    requires
        0 <= at <= t.len(),
    ensures
        settled(t, u, at, switcher::switch_icd(t, at, state), switcher::switch_icd(u, at, state)),
{
}

proof fn hotplug_gpu_settled(
    t: Seq<ReplyView>,
    u: Seq<ReplyView>,
    at: int,
    s: GpuSwitcherView,
    ty: HotplugState,
)
    requires
        0 <= at <= t.len(),
    ensures
        settled(t, u, at, switcher::hotplug_gpu(t, at, s, ty), switcher::hotplug_gpu(u, at, s, ty)),
{
}

/// A step that has been taken stays as it is.
pub proof fn take_step_settled(
    t: Seq<ReplyView>,
    u: Seq<ReplyView>,
    at: int,
    s: GpuSwitcherView,
    step: ModeStep,
    force: bool,
)
    requires
        0 <= at <= t.len(),
    ensures
        settled(t, u, at, switcher::take_step(t, at, s, step, force), switcher::take_step(u, at, s, step, force)),
{
    reveal(switcher::take_step);
    match step {
        ModeStep::FindGpu(mode) => rescan_pci_settled(t, u, at, s.bus_id, mode),
        ModeStep::FindGpuAgain(mode) => rescan_pci_settled(t, u, at, s.bus_id, mode),
        ModeStep::WriteModprobe(_) => {},
        ModeStep::PlugIfUnplugged => {
            if let Ok((_, n)) = switcher::get_hotplug_state(t, at, s) {
                hotplug_gpu_settled(t, u, n, s, HotplugState::Plug);
            }
        },
        ModeStep::SendDetach => {
            if let Some(gpu) = s.gpu {
                send_detach_settled(t, u, at, gpu.pci.bus_id, gpu.cards, 0);
            }
        },
        ModeStep::Wait(_) => {},
        ModeStep::SwitchServices(_) => {},
        ModeStep::KillUsers => {
            if let Some(gpu) = s.gpu {
                kill_users_settled(t, u, at, switcher::device_nodes(gpu), 0);
            }
        },
        ModeStep::SwitchIcd(state) => switch_icd_settled(t, u, at, state),
        ModeStep::SwitchDrivers(ty) => switch_drivers_settled(t, u, at, s, ty, force),
        ModeStep::TryPlug => hotplug_gpu_settled(t, u, at, s, HotplugState::Plug),
        ModeStep::Unplug => hotplug_gpu_settled(t, u, at, s, HotplugState::Unplug),
    }
}

/// Steps that have been taken stay as they are.
pub proof fn take_steps_settled(
    t: Seq<ReplyView>,
    u: Seq<ReplyView>,
    at: int,
    s: GpuSwitcherView,
    steps: Seq<ModeStep>,
    i: int,
    force: bool,
)
    requires
        0 <= at <= t.len(),
    ensures
        settled(t, u, at, switcher::take_steps(t, at, s, steps, i, force), switcher::take_steps(u, at, s, steps, i, force)),
    decreases steps.len() - i,
{
    if 0 <= i < steps.len() {
        take_step_settled(t, u, at, s, steps[i], force);
        if let Ok(((s, Ok(())), n)) = switcher::take_step(t, at, s, steps[i], force) {
            take_steps_settled(t, u, n, s, steps, i + 1, force);
        }
    }
}

proof fn set_gpu_mode_settled(
    t: Seq<ReplyView>,
    u: Seq<ReplyView>,
    at: int,
    s: GpuSwitcherView,
    mode: GpuMode,
    force: bool,
)
    requires
        0 <= at <= t.len(),
    ensures
        settled(t, u, at, switcher::set_gpu_mode(t, at, s, mode, force), switcher::set_gpu_mode(u, at, s, mode, force)),
{
    if let Ok((current, n)) = switcher::get_mode(t, at, s) {
        take_steps_settled(t, u, n, s, switcher::mode_steps(current, mode), 0, force);
    }
}

proof fn start_settled(
    t: Seq<ReplyView>,
    u: Seq<ReplyView>,
    at: int,
    device_path: Seq<char>,
)
    requires
        0 <= at <= t.len(),
    ensures
        settled(t, u, at, switcher::start(t, at, device_path), switcher::start(u, at, device_path)),
{
    if let Some(bus) = pci::bus_id(device_path) {
        find_device_settled(t, u, at, bus);
        if let Ok((Ok(device), n)) = pci::find_device(t, at, bus) {
            describe_settled(t, u, n, device);
        }
    }
}

/// A switch that has finished stays as it is, whatever replies are added.
pub proof fn law_finished_set_gpu_mode_is_final(
    t: Seq<ReplyView>,
    more: Seq<ReplyView>,
    s: GpuSwitcherView,
    mode: GpuMode,
    force: bool,
)
    ensures
        switcher::set_gpu_mode(t, 0, s, mode, force) is Ok ==> switcher::set_gpu_mode(t + more, 0, s, mode, force) == switcher::set_gpu_mode(t, 0, s, mode, force),
{
    set_gpu_mode_settled(t, t + more, 0, s, mode, force);
}

/// A switch uses every reply: when each reply was given to the action that was awaited before it, the
/// replies that have been read at the end are all that were given.
pub proof fn law_set_gpu_mode_uses_every_reply(
    t: Seq<ReplyView>,
    s: GpuSwitcherView,
    mode: GpuMode,
    force: bool,
)
    requires
        in_step(t, |t: Seq<ReplyView>| switcher::set_gpu_mode(t, 0, s, mode, force)),
    ensures
        switcher::set_gpu_mode(t, 0, s, mode, force) matches Ok((_, n)) ==> n == t.len(),
{
    let run = |t: Seq<ReplyView>| switcher::set_gpu_mode(t, 0, s, mode, force);
    if let Ok((_, n)) = run(t) {
        set_gpu_mode_settled(t, t.take(n), 0, s, mode, force);
        if n < t.len() {
            assert(run(t.take(n)) is Err);
        }
    }
}

/// A start that has finished stays as it is, whatever replies are added.
pub proof fn law_finished_start_is_final(
    t: Seq<ReplyView>,
    more: Seq<ReplyView>,
    device_path: Seq<char>,
)
    ensures
        switcher::start(t, 0, device_path) is Ok ==> switcher::start(t + more, 0, device_path) == switcher::start(t, 0, device_path),
{
    start_settled(t, t + more, 0, device_path);
}

/// A start uses every reply: when each reply was given to the action that was awaited before it, the
/// replies that have been read at the end are all that were given.
pub proof fn law_start_uses_every_reply(
    t: Seq<ReplyView>,
    device_path: Seq<char>,
)
    requires
        in_step(t, |t: Seq<ReplyView>| switcher::start(t, 0, device_path)),
    ensures
        switcher::start(t, 0, device_path) matches Ok((_, n)) ==> n == t.len(),
{
    let run = |t: Seq<ReplyView>| switcher::start(t, 0, device_path);
    if let Ok((_, n)) = run(t) {
        start_settled(t, t.take(n), 0, device_path);
        if n < t.len() {
            assert(run(t.take(n)) is Err);
        }
    }
}

/// A reply to the awaited action, recorded behind the others, keeps a transcript in step.
pub proof fn law_recording_stays_in_step<T>(
    t: Seq<ReplyView>,
    run: spec_fn(Seq<ReplyView>) -> Step<T>,
    action: ActionView,
    reply: ReplyView,
)
    requires
        in_step(t, run),
        system::awaits(run(t), action),
        system::answers(action, reply),
    ensures
        in_step(t.push(reply), run),
{
    let u = t.push(reply);
    assert forall|p: int| 0 <= p < u.len() implies {
        &&& #[trigger] run(u.take(p)) is Err
        &&& system::answers(run(u.take(p))->Err_0, u[p])
    } by {
        assert(u.take(p) =~= t.take(p));
        if p == t.len() {
            assert(t.take(p) =~= t);
        }
    }
}

} // verus!
