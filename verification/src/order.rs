//! In which order a switch does things, and which of them it does at all.
use vstd::prelude::*;

use crate::gpu;
use crate::gpu::GpuDeviceView;
use crate::laws;
use crate::pci;
use crate::pci::{PCIBusId, PCIDeviceView};
use crate::proto::GpuMode;
use crate::replay;
use crate::switcher;
use crate::switcher::{
    DriverType, GpuSwitcherView, HotplugState, IcdType, ModeStep, ModprobeConfType, ServiceState,
    SetModeErrorView,
};
use crate::system;
use crate::system::{ActionView, HolderView, ReplyView};
use crate::text;

verus! {

/// Whether the first `i` steps succeed, and leave the switcher at `n` of the transcript as `before`.
pub open spec fn reaches(
    t: Seq<ReplyView>,
    at: int,
    s: GpuSwitcherView,
    steps: Seq<ModeStep>,
    force: bool,
    i: int,
    before: GpuSwitcherView,
    n: int,
) -> bool {
    &&& 0 <= i <= steps.len()
    &&& switcher::take_steps(t, at, s, steps.take(i), 0, force) == Ok::<
        ((GpuSwitcherView, Result<(), SetModeErrorView>), int),
        ActionView,
    >(((before, Ok(())), n))
}

/// Steps that succeed lead on to the step behind them.
pub proof fn lemma_steps_lead_on(
    t: Seq<ReplyView>,
    at: int,
    s: GpuSwitcherView,
    steps: Seq<ModeStep>,
    force: bool,
    i: int,
    k: int,
)
    requires
        0 <= i <= k <= steps.len(),
    ensures
        switcher::take_steps(t, at, s, steps.take(k), i, force) matches Ok(((next, Ok(())), n))
            ==> switcher::take_steps(t, at, s, steps, i, force) == switcher::take_steps(
            t,
            n,
            next,
            steps,
            k,
            force,
        ),
    decreases k - i,
{
    if i < k {
        assert(steps.take(k)[i] == steps[i]);
        if let Ok(((next, Ok(())), n)) = switcher::take_step(t, at, s, steps[i], force) {
            lemma_steps_lead_on(t, n, next, steps, force, i + 1, k);
        }
    }
}

/// The step behind those that succeeded, if it succeeds too, is one of them.
pub proof fn lemma_one_step_further(
    t: Seq<ReplyView>,
    at: int,
    s: GpuSwitcherView,
    steps: Seq<ModeStep>,
    force: bool,
    i: int,
    before: GpuSwitcherView,
    n: int,
)
    requires
        reaches(t, at, s, steps, force, i, before, n),
        i < steps.len(),
    ensures
        switcher::take_step(t, n, before, steps[i], force) matches Ok(((next, Ok(())), m))
            ==> reaches(t, at, s, steps, force, i + 1, next, m),
{
    let more = steps.take(i + 1);
    assert(more.take(i) =~= steps.take(i));
    lemma_steps_lead_on(t, at, s, more, force, 0, i);
    assert(more[i] == steps[i]);
    reveal_with_fuel(switcher::take_steps, 2);
}

/// Whether the steps succeed up to number `i`, which then ends as the whole does.
pub open spec fn stops_at(
    t: Seq<ReplyView>,
    at: int,
    s: GpuSwitcherView,
    steps: Seq<ModeStep>,
    force: bool,
    i: int,
    before: GpuSwitcherView,
    n: int,
) -> bool {
    &&& 0 <= i < steps.len()
    &&& reaches(t, at, s, steps, force, i, before, n)
    &&& switcher::take_steps(t, at, s, steps, 0, force) == switcher::take_step(
        t,
        n,
        before,
        steps[i],
        force,
    )
}

proof fn lemma_stop(
    t: Seq<ReplyView>,
    at: int,
    s: GpuSwitcherView,
    steps: Seq<ModeStep>,
    force: bool,
    i: int,
    before: GpuSwitcherView,
    n: int,
)
    requires
        reaches(t, at, s, steps, force, i, before, n),
        !(switcher::take_steps(t, at, s, steps, 0, force) matches Ok(((_, Ok(())), _))),
    ensures
        exists|j: int, b: GpuSwitcherView, m: int|
            #[trigger] stops_at(t, at, s, steps, force, j, b, m),
    decreases steps.len() - i,
{
    lemma_steps_lead_on(t, at, s, steps, force, 0, i);
    assert(i < steps.len());
    match switcher::take_step(t, n, before, steps[i], force) {
        Ok(((next, Ok(())), m)) => {
            lemma_one_step_further(t, at, s, steps, force, i, before, n);
            lemma_stop(t, at, s, steps, force, i + 1, next, m);
        },
        _ => {
            assert(stops_at(t, at, s, steps, force, i, before, n));
        },
    }
}

/// Steps are taken one after the other: as long as they have not all succeeded, there is one that
/// awaits an action or has failed, and all before it have succeeded.
pub proof fn law_steps_are_taken_in_order(
    t: Seq<ReplyView>,
    at: int,
    s: GpuSwitcherView,
    steps: Seq<ModeStep>,
    force: bool,
)
    ensures
        !(switcher::take_steps(t, at, s, steps, 0, force) matches Ok(((_, Ok(())), _)))
            ==> exists|i: int, before: GpuSwitcherView, n: int|
            #[trigger] stops_at(t, at, s, steps, force, i, before, n),
{
    assert(steps.take(0).len() == 0);
    assert(reaches(t, at, s, steps, force, 0, s, at));
    if !(switcher::take_steps(t, at, s, steps, 0, force) matches Ok(((_, Ok(())), _))) {
        lemma_stop(t, at, s, steps, force, 0, s, at);
    }
}

/// The steps that ask for an action of this sort.
pub open spec fn asked_by(action: ActionView, step: ModeStep) -> bool {
    let searches = step is FindGpu || step is FindGpuAgain;
    let switches_power = step is PlugIfUnplugged || step is TryPlug || step is Unplug;
    match action {
        ActionView::Kill { .. } => step is KillUsers,
        ActionView::ListHolders { .. } => step is KillUsers,
        ActionView::Rename { .. } => step is SwitchIcd,
        ActionView::Exists { .. } => step is SwitchIcd || step is SendDetach,
        ActionView::RunForErrors { .. } => step is SwitchDrivers,
        ActionView::Resolve { .. } => step is SwitchDrivers,
        ActionView::Run { program, .. } => {
            ||| step is SwitchDrivers && program == "modprobe"@
            ||| step is SwitchServices && program == "systemctl"@
        },
        ActionView::ScanPci => searches,
        ActionView::List { .. } => searches,
        ActionView::Read { .. } => searches || switches_power,
        ActionView::Write { .. } => {
            ||| searches
            ||| switches_power
            ||| step is WriteModprobe
            ||| step is SendDetach
            ||| step is SwitchDrivers
        },
        ActionView::Sleep { .. } => step is Wait || switches_power,
    }
}

proof fn lemma_find_slot_reads(
    t: Seq<ReplyView>,
    at: int,
    bus: PCIBusId,
    names: Seq<Seq<char>>,
    i: int,
)
    ensures
        pci::find_slot(t, at, bus, names, i) matches Err(action) ==> action is Read,
    decreases names.len() - i,
{
    if 0 <= i < names.len() {
        let slot = text::path_in(pci::slots_dir(), names[i]);
        if let Ok((_, n)) = system::read(t, at, text::path_in(slot, "address"@)) {
            lemma_find_slot_reads(t, n, bus, names, i + 1);
        }
    }
}

proof fn lemma_find_device_looks(t: Seq<ReplyView>, at: int, bus: PCIBusId)
    ensures
        pci::find_device(t, at, bus) matches Err(action) ==> action is Read || action is List
            || action is ScanPci,
{
    if let Ok((Ok(names), n)) = system::list(t, at, pci::slots_dir()) {
        lemma_find_slot_reads(t, n, bus, names, 0);
    }
}

proof fn lemma_describe_looks(t: Seq<ReplyView>, at: int, device: PCIDeviceView)
    ensures
        gpu::describe(t, at, device) matches Err(action) ==> action is Read || action is List
            || action is ScanPci,
{
    let function = gpu::audio_function(device.bus_id);
    lemma_find_device_looks(t, at, function);
    if let Ok((_, n)) = pci::find_device(t, at, function) {
        if let Ok((_, n)) = system::list(t, n, gpu::drm_dir(device.bus_id)) {
            if let Ok((Ok(slots), n)) = system::list(t, n, pci::slots_dir()) {
                lemma_find_slot_reads(t, n, device.bus_id, slots, 0);
            }
        }
    }
}

proof fn lemma_rescan_looks(t: Seq<ReplyView>, at: int, bus: PCIBusId, mode: GpuMode)
    ensures
        switcher::rescan_pci(t, at, bus, mode) matches Err(action) ==> action is Read
            || action is List || action is ScanPci || action is Write,
{
    if let Ok((Ok(()), n)) = system::write(t, at, "/sys/bus/pci/rescan"@, "1"@) {
        lemma_find_device_looks(t, n, bus);
        if let Ok((Ok(device), n)) = pci::find_device(t, n, bus) {
            lemma_describe_looks(t, n, device);
        }
    }
}

proof fn lemma_detach_writes(t: Seq<ReplyView>, at: int, bus: PCIBusId, cards: Seq<u8>, i: int)
    ensures
        gpu::send_detach(t, at, bus, cards, i) matches Err(action) ==> action is Exists
            || action is Write,
    decreases cards.len() - i,
{
    if 0 <= i < cards.len() {
        let file = gpu::uevent_file(bus, cards[i]);
        if let Ok((present, n)) = system::path_exists(t, at, file) {
            if !present {
                lemma_detach_writes(t, n, bus, cards, i + 1);
            } else if let Ok((_, n)) = system::write(t, n, file, "remove"@) {
                lemma_detach_writes(t, n, bus, cards, i + 1);
            }
        }
    }
}

proof fn lemma_holders_are_killed(t: Seq<ReplyView>, at: int, list: Seq<HolderView>, i: int)
    ensures
        switcher::kill_holders(t, at, list, i) matches Err(action) ==> exists|k: int|
            0 <= k < list.len() && action == (ActionView::Kill {
                pid: system::process_id((#[trigger] list[k]).pid)->0,
            }),
    decreases list.len() - i,
{
    if 0 <= i < list.len() {
        if let Ok((_, n)) = system::kill(t, at, system::process_id(list[i].pid)->0) {
            lemma_holders_are_killed(t, n, list, i + 1);
        }
    }
}

proof fn lemma_users_are_killed(t: Seq<ReplyView>, at: int, nodes: Seq<Seq<char>>, i: int)
    ensures
        switcher::kill_users(t, at, nodes, i) matches Err(action) ==> action is Kill
            || action is ListHolders,
    decreases nodes.len() - i,
{
    if 0 <= i < nodes.len() {
        match system::list_holders(t, at, nodes[i]) {
            Err(_) => {},
            Ok((None, n)) => lemma_users_are_killed(t, n, nodes, i + 1),
            Ok((Some(list), n)) => {
                lemma_holders_are_killed(t, n, list, 0);
                if let Ok((_, n)) = switcher::kill_holders(t, n, list, 0) {
                    lemma_users_are_killed(t, n, nodes, i + 1);
                }
            },
        }
    }
}

/// Each step asks only for what belongs to it.
pub proof fn law_step_asks_for_its_own(
    t: Seq<ReplyView>,
    at: int,
    s: GpuSwitcherView,
    step: ModeStep,
    force: bool,
)
    ensures
        switcher::take_step(t, at, s, step, force) matches Err(action) ==> asked_by(action, step),
{
    reveal(switcher::take_step);
    match step {
        ModeStep::FindGpu(mode) => lemma_rescan_looks(t, at, s.bus_id, mode),
        ModeStep::FindGpuAgain(mode) => lemma_rescan_looks(t, at, s.bus_id, mode),
        ModeStep::SendDetach => {
            if let Some(gpu) = s.gpu {
                lemma_detach_writes(t, at, gpu.pci.bus_id, gpu.cards, 0);
            }
        },
        ModeStep::KillUsers => {
            if let Some(gpu) = s.gpu {
                lemma_users_are_killed(t, at, switcher::device_nodes(gpu), 0);
            }
        },
        ModeStep::SwitchDrivers(_) => {
            if let Some(gpu) = s.gpu {
                if let Ok((driver, n)) = pci::driver_of(t, at, gpu.pci.bus_id) {
                    let modules = switcher::modules_of(switcher::driver_type(driver));
                    laws::lemma_unloading_only_unloads(t, n, modules, 0, force);
                }
            }
        },
        _ => {},
    }
}

/// What the module configuration is written for in each mode.
pub open spec fn conf_of(mode: GpuMode) -> ModprobeConfType {
    match mode {
        GpuMode::Integrated => ModprobeConfType::Integrated,
        GpuMode::Nvidia => ModprobeConfType::Nvidia,
        GpuMode::Vfio => ModprobeConfType::Vfio,
    }
}

/// Whether the GPU has to be freed of its users on the way: it has where the GPU goes out of use,
/// and where it leaves the vendor's driver for a virtual machine.
pub open spec fn frees_the_gpu(current: GpuMode, mode: GpuMode) -> bool {
    mode == GpuMode::Integrated || mode == GpuMode::Vfio && current == GpuMode::Nvidia
}

/// Where the driver is switched on the way from one mode to another.
pub open spec fn switching_step(current: GpuMode, mode: GpuMode) -> int {
    match mode {
        GpuMode::Integrated => 7,
        GpuMode::Nvidia => 5,
        GpuMode::Vfio => if current == GpuMode::Nvidia {
            10
        } else {
            5
        },
    }
}

/// Whether the step with number `i` stands in its place. The driver is switched in one place, to the
/// one whose mode it is. Before it the GPU is looked for, the configuration is written, and in the
/// modes that need the GPU it is given power, looked for again and left alone for half a second.
/// Where the GPU has to be freed, that is done before it too: its users are told, and five seconds
/// later the services are stopped, the users ended and the Vulkan driver is taken out of sight.
/// Behind it, and only in the vendor's mode, the services are started; and only where the GPU goes
/// out of use, its power is taken away at the very end.
pub open spec fn stands_at(steps: Seq<ModeStep>, i: int, current: GpuMode, mode: GpuMode) -> bool {
    let d = switching_step(current, mode);
    let frees = frees_the_gpu(current, mode);
    let needed = switcher::requires_dgpu(mode);
    match steps[i] {
        ModeStep::FindGpu(m) => i == 0 && m == mode,
        ModeStep::WriteModprobe(ty) => i == 1 && ty == conf_of(mode),
        ModeStep::PlugIfUnplugged => i == 2 && needed,
        ModeStep::FindGpuAgain(m) => i == 3 && needed && m == mode,
        ModeStep::SendDetach => frees && i < d && steps[i + 1] == ModeStep::Wait(5000),
        ModeStep::Wait(millis) => {
            ||| millis == 5000 && frees && i < d && steps[i - 1] == ModeStep::SendDetach && steps[i + 1]
                == ModeStep::SwitchServices(ServiceState::Stop)
            ||| millis == 500 && needed && i == d - 1
        },
        ModeStep::SwitchServices(ServiceState::Stop) => frees && i < d && steps[i - 1]
            == ModeStep::Wait(5000) && steps[i + 1] == ModeStep::KillUsers,
        ModeStep::KillUsers => frees && i + 1 < d && steps[i - 1] == ModeStep::SwitchServices(
            ServiceState::Stop,
        ) && steps[i + 1] == ModeStep::SwitchIcd(IcdType::Inactive),
        ModeStep::SwitchIcd(state) => state == IcdType::Inactive && {
            ||| frees && i < d && steps[i - 1] == ModeStep::KillUsers
            ||| mode == GpuMode::Nvidia && i == d + 2
        },
        ModeStep::SwitchDrivers(ty) => i == d && switcher::mode_of(ty) == mode,
        ModeStep::SwitchServices(ServiceState::Start) => mode == GpuMode::Nvidia && i == d + 1,
        ModeStep::TryPlug => !needed && i == d + 1,
        ModeStep::Unplug => !needed && i == d + 2,
    }
}

/// Every way to a mode begins with a search for the GPU and the mode's module configuration, and
/// switches the driver. Where the mode needs the GPU, the GPU is given power and looked for again
/// before that; where it has to be freed of its users, it is, before that. The way ends with the
/// driver; in the vendor's mode with the services and the Vulkan driver; and where the GPU goes out
/// of use, with its power. Each step stands in its place.
pub proof fn law_way_to_a_mode(current: GpuMode, mode: GpuMode, i: int)
    ensures
        ({
            let steps = switcher::mode_steps(current, mode);
            let d = switching_step(current, mode);
            let f = freeing_step(mode);
            &&& steps[0] == ModeStep::FindGpu(mode)
            &&& steps[1] == ModeStep::WriteModprobe(conf_of(mode))
            &&& 1 < d < steps.len()
            &&& steps[d] is SwitchDrivers
            &&& switcher::requires_dgpu(mode) ==> {
                &&& steps[2] == ModeStep::PlugIfUnplugged
                &&& steps[3] == ModeStep::FindGpuAgain(mode)
                &&& 3 < d - 1
                &&& steps[d - 1] == ModeStep::Wait(500)
            }
            &&& frees_the_gpu(current, mode) ==> {
                &&& 1 < f
                &&& f + 4 < d
                &&& steps[f] == ModeStep::SendDetach
                &&& steps[f + 1] == ModeStep::Wait(5000)
                &&& steps[f + 2] == ModeStep::SwitchServices(ServiceState::Stop)
                &&& steps[f + 3] == ModeStep::KillUsers
                &&& steps[f + 4] == ModeStep::SwitchIcd(IcdType::Inactive)
            }
            &&& mode == GpuMode::Vfio ==> steps.len() == d + 1
            &&& mode == GpuMode::Nvidia ==> {
                &&& steps.len() == d + 3
                &&& steps[d + 1] == ModeStep::SwitchServices(ServiceState::Start)
                &&& steps[d + 2] == ModeStep::SwitchIcd(IcdType::Inactive)
            }
            &&& mode == GpuMode::Integrated ==> {
                &&& steps.len() == d + 3
                &&& steps[d + 1] == ModeStep::TryPlug
                &&& steps[d + 2] == ModeStep::Unplug
            }
            &&& 0 <= i < steps.len() ==> stands_at(steps, i, current, mode)
        }),
{
    reveal(switcher::mode_steps);
}

/// Where the GPU begins to be freed of its users, on a way on which it is.
pub open spec fn freeing_step(mode: GpuMode) -> int {
    if mode == GpuMode::Integrated {
        2
    } else {
        4
    }
}

/// Whether the reply at `j` lists the process `pid`.
pub open spec fn listed_at(t: Seq<ReplyView>, j: int, pid: i32) -> bool {
    &&& 0 <= j < t.len()
    &&& t[j] matches ReplyView::Holders(Some(list)) && exists|k: int|
        0 <= k < list.len() && system::process_id((#[trigger] list[k]).pid) == Some(pid)
}

/// Whether `kill_users` awaited the users of number `m` of the nodes at `j`, and was told of `pid`.
spec fn user_of(
    t: Seq<ReplyView>,
    at: int,
    nodes: Seq<Seq<char>>,
    i: int,
    m: int,
    j: int,
    pid: i32,
) -> bool {
    &&& 0 <= m < nodes.len()
    &&& at <= j
    &&& system::awaits(
        switcher::kill_users(t.take(j), at, nodes, i),
        ActionView::ListHolders { path: nodes[m] },
    )
    &&& listed_at(t, j, pid)
}

proof fn lemma_killed_is_user(
    t: Seq<ReplyView>,
    at: int,
    nodes: Seq<Seq<char>>,
    i: int,
    pid: i32,
) -> (r: (int, int))
    requires
        0 <= at <= t.len(),
        system::awaits(switcher::kill_users(t, at, nodes, i), ActionView::Kill { pid }),
    ensures
        user_of(t, at, nodes, i, r.0, r.1, pid),
    decreases nodes.len() - i,
{
    match system::list_holders(t, at, nodes[i]) {
        Ok((Some(list), n)) => match switcher::kill_holders(t, n, list, 0) {
            Err(_) => {
                lemma_holders_are_killed(t, n, list, 0);
                let k = choose|k: int|
                    0 <= k < list.len() && ActionView::Kill { pid } == (ActionView::Kill {
                        pid: system::process_id((#[trigger] list[k]).pid)->0,
                    });
                assert(system::process_id(list[k].pid) is Some);
                assert(listed_at(t, at, pid));
                (i, at)
            },
            Ok((_, m)) => {
                replay::kill_holders_settled(t, t, n, list, 0);
                let r = lemma_killed_is_user(t, m, nodes, i + 1, pid);
                replay::kill_holders_settled(t, t.take(r.1), n, list, 0);
                r
            },
        },
        _ => lemma_killed_is_user(t, at + 1, nodes, i + 1, pid),
    }
}

/// A process that the step with number `i` ends has been listed as a user of the GPU.
proof fn lemma_killed_by_step(
    t: Seq<ReplyView>,
    at: int,
    s: GpuSwitcherView,
    steps: Seq<ModeStep>,
    force: bool,
    i: int,
    before: GpuSwitcherView,
    n: int,
    pid: i32,
) -> (r: (GpuDeviceView, int, int))
    requires
        0 <= at <= t.len(),
        laws::knows_its_gpu(s),
        stops_at(t, at, s, steps, force, i, before, n),
        steps[i] is KillUsers,
        system::awaits(
            switcher::take_steps(t, at, s, steps, 0, force),
            ActionView::Kill { pid },
        ),
    ensures
        ({
            let (gpu, m, j) = r;
            &&& gpu.pci.bus_id == s.bus_id
            &&& 0 <= m < switcher::device_nodes(gpu).len()
            &&& at <= j
            &&& system::awaits(
                switcher::take_steps(t.take(j), at, s, steps, 0, force),
                ActionView::ListHolders { path: switcher::device_nodes(gpu)[m] },
            )
            &&& listed_at(t, j, pid)
        }),
{
    reveal(switcher::take_step);
    laws::lemma_steps_keep_the_gpu(t, at, s, steps.take(i), 0, force);
    replay::take_steps_settled(t, t, at, s, steps.take(i), 0, force);
    let gpu = before.gpu->0;
    let nodes = switcher::device_nodes(gpu);
    let (m, j) = lemma_killed_is_user(t, n, nodes, 0, pid);
    let u = t.take(j);
    replay::take_steps_settled(t, u, at, s, steps.take(i), 0, force);
    lemma_steps_lead_on(u, at, s, steps, force, 0, i);
    (gpu, m, j)
}

/// Whether the switch asked at `j` which processes hold a node of the GPU open, and was told of
/// `pid`.
pub open spec fn told_of_user(
    t: Seq<ReplyView>,
    s: GpuSwitcherView,
    mode: GpuMode,
    force: bool,
    gpu: GpuDeviceView,
    m: int,
    j: int,
    pid: i32,
) -> bool {
    &&& gpu.pci.bus_id == s.bus_id
    &&& 0 <= m < switcher::device_nodes(gpu).len()
    &&& system::awaits(
        switcher::set_gpu_mode(t.take(j), 0, s, mode, force),
        ActionView::ListHolders { path: switcher::device_nodes(gpu)[m] },
    )
    &&& listed_at(t, j, pid)
}

/// No process is ended unless the switch has been told, when it asked for the users of a device
/// node of its own GPU, that the process is one. And none is ended on a way that does not free the
/// GPU.
pub proof fn law_only_users_of_the_gpu_are_ended(
    t: Seq<ReplyView>,
    s: GpuSwitcherView,
    mode: GpuMode,
    force: bool,
    pid: i32,
)
    requires
        laws::knows_its_gpu(s),
        system::awaits(switcher::set_gpu_mode(t, 0, s, mode, force), ActionView::Kill { pid }),
    ensures
        switcher::get_mode(t, 0, s) matches Ok((current, _)) && frees_the_gpu(current, mode),
        exists|gpu: GpuDeviceView, m: int, j: int| #[trigger]
            told_of_user(t, s, mode, force, gpu, m, j, pid),
{
    let (current, start) = switcher::get_mode(t, 0, s)->Ok_0;
    let steps = switcher::mode_steps(current, mode);
    law_steps_are_taken_in_order(t, start, s, steps, force);
    let (i, before, n) = choose|i: int, before: GpuSwitcherView, n: int| #[trigger]
        stops_at(t, start, s, steps, force, i, before, n);
    law_step_asks_for_its_own(t, n, before, steps[i], force);
    assert(steps[i] is KillUsers);
    assert(frees_the_gpu(current, mode)) by {
        law_way_to_a_mode(current, mode, i);
        assert(stands_at(steps, i, current, mode));
    }
    let (gpu, m, j) = lemma_killed_by_step(t, start, s, steps, force, i, before, n, pid);
    assert(switcher::get_mode(t.take(j), 0, s) == switcher::get_mode(t, 0, s));
    assert(told_of_user(t, s, mode, force, gpu, m, j, pid));
}

/// On the way of steps that all succeed, each is reached.
pub proof fn lemma_success_passes(
    t: Seq<ReplyView>,
    at: int,
    s: GpuSwitcherView,
    steps: Seq<ModeStep>,
    force: bool,
    k: int,
) -> (r: (GpuSwitcherView, int))
    requires
        0 <= k <= steps.len(),
        switcher::take_steps(t, at, s, steps, 0, force) matches Ok(((_, Ok(())), _)),
    ensures
        reaches(t, at, s, steps, force, k, r.0, r.1),
        switcher::take_steps(t, at, s, steps, 0, force) == switcher::take_steps(
            t,
            r.1,
            r.0,
            steps,
            k,
            force,
        ),
    decreases k,
{
    if k == 0 {
        assert(steps.take(0).len() == 0);
        (s, at)
    } else {
        let (before, n) = lemma_success_passes(t, at, s, steps, force, k - 1);
        lemma_one_step_further(t, at, s, steps, force, k - 1, before, n);
        let ((next, _), m) = switcher::take_step(t, n, before, steps[k - 1], force)->Ok_0;
        (next, m)
    }
}

/// Steps that do not look for the GPU leave the switcher as it is.
pub proof fn lemma_switcher_stays(
    t: Seq<ReplyView>,
    at: int,
    s: GpuSwitcherView,
    steps: Seq<ModeStep>,
    i: int,
    force: bool,
)
    requires
        forall|j: int|
            i <= j < steps.len() ==> !(#[trigger] steps[j] is FindGpu) && !(
            steps[j] is FindGpuAgain),
    ensures
        switcher::take_steps(t, at, s, steps, i, force) matches Ok(((after, _), _)) ==> after == s,
    decreases steps.len() - i,
{
    if 0 <= i < steps.len() {
        laws::law_step_keeps_the_gpu(t, at, s, steps[i], force);
        if let Ok(((next, Ok(())), n)) = switcher::take_step(t, at, s, steps[i], force) {
            lemma_switcher_stays(t, n, next, steps, i + 1, force);
        }
    }
}

/// Steps of which one switches the driver, and none behind it looks for the GPU, succeed only if
/// the driver of the GPU that is known in the end was switched successfully.
proof fn lemma_success_switches(
    t: Seq<ReplyView>,
    at: int,
    s: GpuSwitcherView,
    steps: Seq<ModeStep>,
    force: bool,
    d: int,
    ty: DriverType,
) -> (n: int)
    requires
        0 <= d < steps.len(),
        steps[d] == ModeStep::SwitchDrivers(ty),
        forall|j: int|
            d <= j < steps.len() ==> !(#[trigger] steps[j] is FindGpu) && !(
            steps[j] is FindGpuAgain),
        switcher::take_steps(t, at, s, steps, 0, force) matches Ok(((_, Ok(())), _)),
    ensures
        switcher::take_steps(t, at, s, steps, 0, force) matches Ok(((after, _), _))
            && switcher::switch_drivers(t, n, after, ty, force) matches Ok((Ok(()), _)),
{
    reveal(switcher::take_step);
    let (before, n) = lemma_success_passes(t, at, s, steps, force, d);
    lemma_switcher_stays(t, n, before, steps, d, force);
    n
}

/// A switch to another mode succeeds only if it has switched the driver of the GPU that is known
/// in the end successfully, to the driver whose mode it is.
pub proof fn law_success_switches_the_driver(
    t: Seq<ReplyView>,
    at: int,
    s: GpuSwitcherView,
    mode: GpuMode,
    force: bool,
)
    ensures
        switcher::set_gpu_mode(t, at, s, mode, force) matches Ok(((after, Ok(())), _)) ==> {
            ||| switcher::get_mode(t, at, s) matches Ok((current, _)) && current == mode
            ||| exists|n: int, ty: DriverType|
                switcher::mode_of(ty) == mode && (#[trigger] switcher::switch_drivers(
                    t,
                    n,
                    after,
                    ty,
                    force,
                ) matches Ok((Ok(()), _)))
        },
{
    if let Ok(((after, Ok(())), _)) = switcher::set_gpu_mode(t, at, s, mode, force) {
        let (current, start) = switcher::get_mode(t, at, s)->Ok_0;
        if current != mode {
            let steps = switcher::mode_steps(current, mode);
            let d = switching_step(current, mode);
            law_way_to_a_mode(current, mode, d);
            let ty = steps[d]->SwitchDrivers_0;
            assert forall|j: int| d <= j < steps.len() implies !(#[trigger] steps[j] is FindGpu)
                && !(steps[j] is FindGpuAgain) by {
                law_way_to_a_mode(current, mode, j);
            }
            let n = lemma_success_switches(t, start, s, steps, force, d, ty);
            assert(switcher::switch_drivers(t, n, after, ty, force) matches Ok((Ok(()), _)));
        }
    }
}

/// Once a GPU is known, steps that look for it only for a mode that needs it keep one known.
proof fn lemma_steps_end_with_a_gpu(
    t: Seq<ReplyView>,
    at: int,
    s: GpuSwitcherView,
    steps: Seq<ModeStep>,
    i: int,
    force: bool,
)
    requires
        0 <= i <= steps.len(),
        s.gpu is Some || i < steps.len() && (steps[i] is FindGpu || steps[i] is FindGpuAgain),
        forall|j: int|
            i <= j < steps.len() && (steps[j] is FindGpu || steps[j] is FindGpuAgain)
                ==> switcher::requires_dgpu(laws::step_mode(#[trigger] steps[j])),
    ensures
        switcher::take_steps(t, at, s, steps, i, force) matches Ok(((after, Ok(())), n))
            ==> after.gpu is Some,
    decreases steps.len() - i,
{
    if i < steps.len() {
        laws::law_step_keeps_the_gpu(t, at, s, steps[i], force);
        if let Ok(((next, Ok(())), n)) = switcher::take_step(t, at, s, steps[i], force) {
            lemma_steps_end_with_a_gpu(t, n, next, steps, i + 1, force);
        }
    }
}

/// A switch to a mode that needs the GPU succeeds only with a GPU.
pub proof fn law_success_needs_the_gpu(
    t: Seq<ReplyView>,
    at: int,
    s: GpuSwitcherView,
    mode: GpuMode,
    force: bool,
)
    requires
        switcher::requires_dgpu(mode),
    ensures
        switcher::set_gpu_mode(t, at, s, mode, force) matches Ok(((after, Ok(())), n))
            ==> after.gpu is Some,
{
    if let Ok((current, n)) = switcher::get_mode(t, at, s) {
        if current != mode {
            let steps = switcher::mode_steps(current, mode);
            law_way_to_a_mode(current, mode, 0);
            assert forall|j: int|
                0 <= j < steps.len() && (steps[j] is FindGpu || steps[j]
                    is FindGpuAgain) implies switcher::requires_dgpu(
                laws::step_mode(#[trigger] steps[j]),
            ) by {
                law_way_to_a_mode(current, mode, j);
            }
            lemma_steps_end_with_a_gpu(t, n, s, steps, 0, force);
        }
    }
}

/// Steps that end with taking the power away succeed only if that did.
proof fn lemma_success_unplugs(
    t: Seq<ReplyView>,
    at: int,
    s: GpuSwitcherView,
    steps: Seq<ModeStep>,
    force: bool,
) -> (n: int)
    requires
        steps.len() > 0,
        steps.last() == ModeStep::Unplug,
        switcher::take_steps(t, at, s, steps, 0, force) matches Ok(((_, Ok(())), _)),
    ensures
        switcher::take_steps(t, at, s, steps, 0, force) matches Ok(((after, _), end))
            && switcher::hotplug_gpu(t, n, after, HotplugState::Unplug) matches Ok((Ok(()), last))
            && last == end,
{
    reveal(switcher::take_step);
    reveal_with_fuel(switcher::take_steps, 2);
    let (before, n) = lemma_success_passes(t, at, s, steps, force, steps.len() - 1);
    n
}

/// Steps of which one gives power, if there is none, succeed only if there was or that did.
proof fn lemma_success_plugs(
    t: Seq<ReplyView>,
    at: int,
    s: GpuSwitcherView,
    steps: Seq<ModeStep>,
    force: bool,
    k: int,
) -> (r: (GpuSwitcherView, int))
    requires
        0 <= k < steps.len(),
        steps[k] == ModeStep::PlugIfUnplugged,
        switcher::take_steps(t, at, s, steps, 0, force) matches Ok(((_, Ok(())), _)),
    ensures
        reaches(t, at, s, steps, force, k, r.0, r.1),
        has_power(t, r.1, r.0),
{
    reveal(switcher::take_step);
    lemma_success_passes(t, at, s, steps, force, k)
}

/// Whether the GPU is seen at `at` to have power, or is then given it.
pub open spec fn has_power(t: Seq<ReplyView>, at: int, s: GpuSwitcherView) -> bool {
    switcher::get_hotplug_state(t, at, s) matches Ok((state, n)) && {
        ||| state matches Ok(HotplugState::Plug)
        ||| switcher::hotplug_gpu(t, n, s, HotplugState::Plug) matches Ok((Ok(()), _))
    }
}

/// A switch that succeeds switches the GPU on or off. Where the GPU goes out of use, the last thing
/// is to take its power away, and that succeeded. In any other mode the GPU at the same place was
/// seen to have power, or was given it.
pub proof fn law_success_switches_the_power(
    t: Seq<ReplyView>,
    at: int,
    s: GpuSwitcherView,
    mode: GpuMode,
    force: bool,
)
    ensures
        switcher::get_mode(t, at, s) matches Ok((current, _)) && current != mode ==> (
        switcher::set_gpu_mode(t, at, s, mode, force) matches Ok(((after, Ok(())), end)) ==> {
            &&& !switcher::requires_dgpu(mode) ==> exists|n: int|
                (#[trigger] switcher::hotplug_gpu(t, n, after, HotplugState::Unplug) matches Ok(
                    (Ok(()), last),
                ) && last == end)
            &&& switcher::requires_dgpu(mode) ==> exists|before: GpuSwitcherView, n: int|
                before.bus_id == s.bus_id && #[trigger] has_power(t, n, before)
        }),
{
    if let Ok((current, start)) = switcher::get_mode(t, at, s) {
        if let Ok(((after, Ok(())), end)) = switcher::set_gpu_mode(t, at, s, mode, force) {
            if current != mode {
                let steps = switcher::mode_steps(current, mode);
                law_way_to_a_mode(current, mode, 0);
                if switcher::requires_dgpu(mode) {
                    let (before, n) = lemma_success_plugs(t, start, s, steps, force, 2);
                    laws::lemma_steps_keep_the_gpu(t, start, s, steps.take(2), 0, force);
                    assert(has_power(t, n, before));
                } else {
                    let n = lemma_success_unplugs(t, start, s, steps, force);
                    assert(switcher::hotplug_gpu(t, n, after, HotplugState::Unplug) is Ok);
                }
            }
        }
    }
}

/// The files that a step may write to: those by which the kernel looks for devices, is configured
/// and takes devices over, and those of the switcher's own GPU.
pub open spec fn may_write(s: GpuSwitcherView, path: Seq<char>) -> bool {
    ||| path == "/sys/bus/pci/rescan"@
    ||| path == "/etc/modprobe.d/gpu-switcherd.conf"@
    ||| path == "/sys/bus/pci/drivers/vfio-pci/new_id"@
    ||| path == "/sys/bus/pci/drivers/vfio-pci/bind"@
    ||| s.hotplug_type is Asus && path == switcher::asus_switch()
    ||| path == unbind_file(s.bus_id)
    ||| path == unbind_file(gpu::audio_function(s.bus_id))
    ||| switcher::known_slot(s) matches Some(slot) && path == text::path_in(slot, "power"@)
    ||| s.gpu matches Some(gpu) && exists|i: int|
        0 <= i < gpu.cards.len() && path == gpu::uevent_file(s.bus_id, #[trigger] gpu.cards[i])
}

/// The file that takes the device at `bus` away from its driver.
pub open spec fn unbind_file(bus: PCIBusId) -> Seq<char> {
    text::path_in(text::path_in(pci::device_dir(bus), "driver"@), "unbind"@)
}

proof fn lemma_detach_goes_to_cards(
    t: Seq<ReplyView>,
    at: int,
    bus: PCIBusId,
    cards: Seq<u8>,
    i: int,
)
    ensures
        gpu::send_detach(t, at, bus, cards, i) matches Err(ActionView::Write { path, contents })
            ==> contents == "remove"@ && exists|k: int|
            0 <= k < cards.len() && path == gpu::uevent_file(bus, #[trigger] cards[k]),
    decreases cards.len() - i,
{
    if 0 <= i < cards.len() {
        let file = gpu::uevent_file(bus, cards[i]);
        if let Ok((present, n)) = system::path_exists(t, at, file) {
            if !present {
                lemma_detach_goes_to_cards(t, n, bus, cards, i + 1);
            } else if let Ok((_, n)) = system::write(t, n, file, "remove"@) {
                lemma_detach_goes_to_cards(t, n, bus, cards, i + 1);
            }
        }
    }
}

/// No step writes to the files of another device.
pub proof fn law_writes_stay_with_the_gpu(
    t: Seq<ReplyView>,
    at: int,
    s: GpuSwitcherView,
    step: ModeStep,
    force: bool,
)
    requires
        laws::knows_its_gpu(s),
    ensures
        switcher::take_step(t, at, s, step, force) matches Err(ActionView::Write { path, contents })
            ==> may_write(s, path),
{
    reveal(switcher::take_step);
    match step {
        ModeStep::FindGpu(_) | ModeStep::FindGpuAgain(_) => {
            if let Ok((Ok(()), n)) = system::write(t, at, "/sys/bus/pci/rescan"@, "1"@) {
                lemma_find_device_looks(t, n, s.bus_id);
                if let Ok((Ok(device), n)) = pci::find_device(t, n, s.bus_id) {
                    lemma_describe_looks(t, n, device);
                }
            }
        },
        ModeStep::SendDetach => {
            if let Some(gpu) = s.gpu {
                lemma_detach_goes_to_cards(t, at, s.bus_id, gpu.cards, 0);
            }
        },
        ModeStep::KillUsers => {
            if let Some(gpu) = s.gpu {
                lemma_users_are_killed(t, at, switcher::device_nodes(gpu), 0);
            }
        },
        ModeStep::SwitchDrivers(_) => {
            if let Some(gpu) = s.gpu {
                if let Ok((driver, n)) = pci::driver_of(t, at, gpu.pci.bus_id) {
                    let modules = switcher::modules_of(switcher::driver_type(driver));
                    laws::lemma_unloading_only_unloads(t, n, modules, 0, force);
                }
            }
        },
        _ => {},
    }
}

} // verus!
