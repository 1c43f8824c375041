//! What holds of a switch as a whole.
use vstd::prelude::*;

use crate::gpu;
use crate::gpu::GpuDeviceView;
use crate::pci;
use crate::pci::PCIDeviceView;
use crate::proto::GpuMode;
use crate::switcher;
use crate::switcher::{
    DriverType, GpuSwitcherView, HotplugState, HotplugStateError, HotplugType, IcdType, ModeStep,
    ModprobeConfType, SetModeErrorView, SwitchDriversErrorView, SwitchIcdError,
};
use crate::system;
use crate::system::{ActionView, IoError, ReplyView};
use crate::text;

verus! {

/// Whether the GPU that the switcher knows is the one that it was started for, together with the
/// sound function next to it.
pub open spec fn knows_its_gpu(s: GpuSwitcherView) -> bool {
    s.gpu matches Some(gpu) ==> {
        &&& gpu.pci.bus_id == s.bus_id
        &&& gpu.audio_pci matches Some(audio) ==> audio.bus_id == gpu::audio_function(s.bus_id)
    }
}

/// A switcher that starts knows its GPU, and the GPU is the configured one.
pub proof fn law_start_knows_its_gpu(t: Seq<ReplyView>, at: int, device_path: Seq<char>)
    ensures
        switcher::start(t, at, device_path) matches Ok((Ok(s), n)) ==> {
            &&& knows_its_gpu(s)
            &&& pci::bus_id(device_path) == Some(s.bus_id)
            &&& s.hotplug_type == HotplugType::Normal
        },
{
    if let Some(bus) = pci::bus_id(device_path) {
        pci::law_found_device_sits_there(t, at, bus);
        if let Ok((Ok(device), n)) = pci::find_device(t, at, bus) {
            gpu::law_described_gpu_is_the_device(t, n, device);
        }
    }
}

/// A search finds the GPU at the given place or none. Only a mode that does without the GPU can be
/// content with none, and there a search fails only where the kernel does not even look.
pub proof fn law_search_finds_the_gpu(t: Seq<ReplyView>, at: int, s: GpuSwitcherView, mode: GpuMode)
    ensures
        match switcher::rescan_pci(t, at, s.bus_id, mode) {
            Ok((Ok(gpu), _)) => {
                &&& knows_its_gpu(GpuSwitcherView { gpu, ..s })
                &&& switcher::requires_dgpu(mode) ==> gpu is Some
            },
            Ok((Err(e), _)) => !switcher::requires_dgpu(mode) ==> e is Rescan,
            Err(_) => true,
        },
{
    if let Ok((Ok(()), n)) = system::write(t, at, "/sys/bus/pci/rescan"@, "1"@) {
        pci::law_found_device_sits_there(t, n, s.bus_id);
        if let Ok((Ok(device), n)) = pci::find_device(t, n, s.bus_id) {
            gpu::law_described_gpu_is_the_device(t, n, device);
        }
    }
}

/// No step moves the switcher to another GPU or changes how its power is switched, and after each
/// the switcher still knows its GPU; a search for a mode that needs the GPU ends with one.
pub proof fn law_step_keeps_the_gpu(
    t: Seq<ReplyView>,
    at: int,
    s: GpuSwitcherView,
    step: ModeStep,
    force: bool,
)
    ensures
        switcher::take_step(t, at, s, step, force) matches Ok(((after, result), n)) ==> {
            &&& after.bus_id == s.bus_id
            &&& after.hotplug_type == s.hotplug_type
            &&& knows_its_gpu(s) ==> knows_its_gpu(after)
            &&& (step is FindGpu || step is FindGpuAgain) && result is Ok
                && switcher::requires_dgpu(step_mode(step)) ==> after.gpu is Some
            &&& !(step is FindGpu || step is FindGpuAgain) ==> after == s
        },
{
    reveal(switcher::take_step);
    if step is FindGpu || step is FindGpuAgain {
        law_search_finds_the_gpu(t, at, s, step_mode(step));
    }
}

/// The mode for which a step looks for the GPU.
pub open spec fn step_mode(step: ModeStep) -> GpuMode {
    match step {
        ModeStep::FindGpu(mode) => mode,
        ModeStep::FindGpuAgain(mode) => mode,
        _ => GpuMode::Integrated,
    }
}

/// Steps keep what each of them keeps.
pub proof fn lemma_steps_keep_the_gpu(
    t: Seq<ReplyView>,
    at: int,
    s: GpuSwitcherView,
    steps: Seq<ModeStep>,
    i: int,
    force: bool,
)
    ensures
        switcher::take_steps(t, at, s, steps, i, force) matches Ok(((after, result), n)) ==> {
            &&& after.bus_id == s.bus_id
            &&& after.hotplug_type == s.hotplug_type
            &&& knows_its_gpu(s) ==> knows_its_gpu(after)
        },
    decreases steps.len() - i,
{
    if 0 <= i < steps.len() {
        law_step_keeps_the_gpu(t, at, s, steps[i], force);
        if let Ok(((next, Ok(())), n)) = switcher::take_step(t, at, s, steps[i], force) {
            lemma_steps_keep_the_gpu(t, n, next, steps, i + 1, force);
        }
    }
}

/// However a switch ends, the switcher is still the one for its GPU.
pub proof fn law_switch_keeps_the_gpu(
    t: Seq<ReplyView>,
    at: int,
    s: GpuSwitcherView,
    mode: GpuMode,
    force: bool,
)
    requires
        knows_its_gpu(s),
    ensures
        switcher::set_gpu_mode(t, at, s, mode, force) matches Ok(((after, result), n)) ==> {
            &&& knows_its_gpu(after)
            &&& after.bus_id == s.bus_id
            &&& after.hotplug_type == s.hotplug_type
        },
{
    if let Ok((current, n)) = switcher::get_mode(t, at, s) {
        lemma_steps_keep_the_gpu(t, n, s, switcher::mode_steps(current, mode), 0, force);
    }
}

/// In the mode that is asked for already, a switch does nothing.
pub proof fn law_same_mode_is_left_alone(
    t: Seq<ReplyView>,
    at: int,
    s: GpuSwitcherView,
    mode: GpuMode,
    force: bool,
)
    ensures
        switcher::get_mode(t, at, s) matches Ok((current, n)) ==> (current == mode
            ==> switcher::set_gpu_mode(t, at, s, mode, force) == Ok::<
            ((GpuSwitcherView, Result<(), SetModeErrorView>), int),
            ActionView,
        >(((s, Ok(())), n))),
{
}

/// The mode tells the drivers apart, and a driver that gives the mode already is not switched.
pub proof fn law_mode_tells_the_driver(
    t: Seq<ReplyView>,
    at: int,
    s: GpuSwitcherView,
    ty: DriverType,
    other: DriverType,
    force: bool,
)
    ensures
        switcher::mode_of(ty) == switcher::mode_of(other) ==> ty == other,
        s.gpu is Some ==> (switcher::get_mode(t, at, s) matches Ok((current, n)) ==> (current
            == switcher::mode_of(ty) ==> switcher::switch_drivers(t, at, s, ty, force) == Ok::<
            (Result<(), SwitchDriversErrorView>, int),
            ActionView,
        >((Ok(()), n)))),
{
}

/// The step that an error of a switch comes from.
pub open spec fn failed_step(e: SetModeErrorView, step: ModeStep) -> bool {
    match e {
        SetModeErrorView::FindGpu(_) => step is FindGpu,
        SetModeErrorView::ModprobeConf(_) => step is WriteModprobe,
        SetModeErrorView::GpuDetach(_) => step is SendDetach,
        SetModeErrorView::KillGpuUse(_) => step is KillUsers,
        SetModeErrorView::SwitchDrivers(_) => step is SwitchDrivers,
        SetModeErrorView::HotplugPlug(_) => step is PlugIfUnplugged,
        SetModeErrorView::HotplugUnplug(_) => step is Unplug,
        SetModeErrorView::PciRescan(_) => step is FindGpuAgain,
    }
}

/// An error tells which step failed; waiting, the services, the Vulkan driver and the first attempt
/// at giving power never make a switch fail.
pub proof fn law_error_names_the_step(
    t: Seq<ReplyView>,
    at: int,
    s: GpuSwitcherView,
    step: ModeStep,
    force: bool,
)
    ensures
        switcher::take_step(t, at, s, step, force) matches Ok(((_, Err(e)), _)) ==> {
            &&& failed_step(e, step)
            &&& !(step is Wait || step is SwitchServices || step is SwitchIcd || step is TryPlug)
        },
{
    reveal(switcher::take_step);
}

/// What is read back of a slot's power, or of the platform driver's switch, is what was written,
/// whatever follows it.
pub proof fn law_power_reads_back(ty: HotplugState, rest: Seq<char>)
    ensures
        switcher::power_state(switcher::power_text(ty) + rest) == ty,
        switcher::disable_state(switcher::disable_text(ty) + rest) == ty,
{
    reveal_strlit("0");
    reveal_strlit("1");
    let one = "1"@ + rest;
    let zero = "0"@ + rest;
    assert("1"@.is_prefix_of(one));
    assert(zero[0] == '0');
    assert(zero.subrange(0, 1)[0] == '0');
    assert(!"1"@.is_prefix_of(zero));
}

/// The file that is written to switch the power is the one that is read to learn of it, and what
/// was written there is read as the state that it was written for.
pub proof fn law_switched_power_is_seen(
    t: Seq<ReplyView>,
    at: int,
    s: GpuSwitcherView,
    ty: HotplugState,
    rest: Seq<char>,
)
    ensures
        switcher::hotplug_gpu(t, at, s, ty) matches Err(ActionView::Write { path, contents }) ==> {
            &&& system::awaits(
                switcher::get_hotplug_state(Seq::empty(), 0, s),
                ActionView::Read { path },
            )
            &&& switcher::get_hotplug_state(seq![ReplyView::Text(Ok(contents + rest))], 0, s)
                == Ok::<(Result<HotplugState, HotplugStateError>, int), ActionView>((Ok(ty), 1))
        },
{
    law_power_reads_back(ty, rest);
}

/// Power that is there already is not given again on the way to a mode.
pub proof fn law_power_is_given_once(t: Seq<ReplyView>, at: int, s: GpuSwitcherView, force: bool)
    ensures
        switcher::get_hotplug_state(t, at, s) matches Ok((Ok(HotplugState::Plug), n))
            ==> switcher::take_step(t, at, s, ModeStep::PlugIfUnplugged, force) == Ok::<
            ((GpuSwitcherView, Result<(), SetModeErrorView>), int),
            ActionView,
        >(((s, Ok(())), n)),
{
    reveal(switcher::take_step);
}

/// The Vulkan driver's file is renamed only if it exists under the name that it has in the other
/// state, and then to the name that it has in the new one. In the new state already, nothing is
/// renamed.
pub proof fn law_icd_is_renamed_when_needed(t: Seq<ReplyView>, at: int, new_state: IcdType)
    ensures
        switcher::switch_icd(t, at, new_state) matches Err(ActionView::Rename { from, to }) ==> {
            &&& switcher::icd_state(t, at) matches Ok((Some(state), _)) && state != new_state
            &&& from == icd_name(other_icd(new_state))
            &&& to == icd_name(new_state)
        },
        switcher::icd_state(t, at) matches Ok((Some(state), n)) && state == new_state
            ==> switcher::switch_icd(t, at, new_state) == Ok::<
            (Result<(), SwitchIcdError>, int),
            ActionView,
        >((Ok(()), switcher::icd_state(t, at)->Ok_0.1)),
{
}

/// The name of the Vulkan driver's file in a state.
pub open spec fn icd_name(state: IcdType) -> Seq<char> {
    match state {
        IcdType::Active => switcher::active_icd(),
        IcdType::Inactive => switcher::inactive_icd(),
    }
}

pub open spec fn other_icd(state: IcdType) -> IcdType {
    match state {
        IcdType::Active => IcdType::Inactive,
        IcdType::Inactive => IcdType::Active,
    }
}

/// Whether a reply to an attempt at unloading a module says that the module is not in use.
pub open spec fn not_in_use(reply: ReplyView) -> bool {
    reply matches ReplyView::Text(Ok(stderr)) && !text::occurs(stderr, "in use"@)
}

/// Modules are unloaded successfully only if for each of them the reply says that it is not in use.
pub proof fn law_unloaded_modules_were_not_in_use(
    t: Seq<ReplyView>,
    at: int,
    modules: Seq<Seq<char>>,
    i: int,
    force: bool,
)
    requires
        0 <= i <= modules.len(),
    ensures
        switcher::unload_drivers(t, at, modules, i, force) matches Ok((Ok(()), n)) ==> {
            &&& n == at + modules.len() - i
            &&& forall|k: int| at <= k < n ==> not_in_use(#[trigger] t[k])
        },
    decreases modules.len() - i,
{
    if i < modules.len() {
        if let Ok((Ok(()), n)) = switcher::unload_driver(t, at, modules[i], force) {
            law_unloaded_modules_were_not_in_use(t, n, modules, i + 1, force);
        }
    }
}

/// The driver that is there gives way before another is touched: the GPU is unbound or bound, a
/// driver is loaded, or the switch of drivers succeeds only after no module of the old driver was
/// in use. A module in use makes it fail at once.
pub proof fn law_old_driver_goes_first(
    t: Seq<ReplyView>,
    at: int,
    s: GpuSwitcherView,
    gpu: GpuDeviceView,
    driver: Result<Seq<char>, IoError>,
    n: int,
    ty: DriverType,
    force: bool,
)
    requires
        s.gpu == Some(gpu),
        pci::driver_of(t, at, gpu.pci.bus_id) == Ok::<(Result<Seq<char>, IoError>, int), ActionView>(
            (driver, n),
        ),
        switcher::driver_type(driver) != ty,
    ensures
        ({
            let modules = switcher::modules_of(switcher::driver_type(driver));
            let result = switcher::switch_drivers(t, at, s, ty, force);
            &&& result matches Err(action) ==> (action is Write || action is Run || action is Resolve
                ==> forall|k: int| n <= k < n + modules.len() ==> not_in_use(#[trigger] t[k]))
            &&& result matches Ok((Ok(()), _)) ==> forall|k: int|
                n <= k < n + modules.len() ==> not_in_use(#[trigger] t[k])
            &&& switcher::unload_drivers(t, n, modules, 0, force) matches Ok((Err(e), m))
                ==> result == Ok::<(Result<(), SwitchDriversErrorView>, int), ActionView>(
                (Err(SwitchDriversErrorView::DriverUnload(e)), m),
            )
        }),
{
    let modules = switcher::modules_of(switcher::driver_type(driver));
    law_unloaded_modules_were_not_in_use(t, n, modules, 0, force);
    lemma_unloading_only_unloads(t, n, modules, 0, force);
}

/// To unload modules nothing is asked for but that.
pub proof fn lemma_unloading_only_unloads(
    t: Seq<ReplyView>,
    at: int,
    modules: Seq<Seq<char>>,
    i: int,
    force: bool,
)
    ensures
        switcher::unload_drivers(t, at, modules, i, force) matches Err(action)
            ==> action is RunForErrors,
    decreases modules.len() - i,
{
    if 0 <= i < modules.len() {
        if let Ok((_, n)) = switcher::unload_driver(t, at, modules[i], force) {
            lemma_unloading_only_unloads(t, n, modules, i + 1, force);
        }
    }
}

/// A device is bound to the pass-through driver successfully only if it was seen to be bound to it,
/// or the driver took it.
pub proof fn law_bound_device_was_taken(t: Seq<ReplyView>, at: int, device: PCIDeviceView)
    ensures
        pci::bind_vfio(t, at, device) matches Ok((Ok(()), n)) ==> {
            ||| pci::driver_of(t, n - 1, device.bus_id) == Ok::<
                (Result<Seq<char>, IoError>, int),
                ActionView,
            >((Ok("vfio-pci"@), n))
            ||| system::write(
                t,
                n - 1,
                "/sys/bus/pci/drivers/vfio-pci/bind"@,
                pci::bus_text(device.bus_id),
            ) matches Ok((Ok(()), _))
        },
{
}

/// A part stands somewhere in the row that it is joined into.
proof fn lemma_part_occurs(parts: Seq<Seq<char>>, sep: Seq<char>, i: int)
    requires
        0 <= i < parts.len(),
    ensures
        text::occurs(text::joined(parts, sep), parts[i]),
    decreases parts.len(),
{
    let whole = text::joined(parts, sep);
    if parts.len() == 1 {
        assert(whole.subrange(0, whole.len() as int) =~= parts[0]);
        assert(text::occurs_at(whole, parts[0], 0));
    } else {
        let front = text::joined(parts.drop_last(), sep);
        if i == parts.len() - 1 {
            let at: int = (front.len() + sep.len()) as int;
            assert(whole.subrange(at, at + parts[i].len()) =~= parts[i]);
            assert(text::occurs_at(whole, parts[i], at));
        } else {
            lemma_part_occurs(parts.drop_last(), sep, i);
            let at = choose|at: int| text::occurs_at(front, parts[i], at);
            assert(whole.subrange(at, at + parts[i].len()) =~= front.subrange(
                at,
                at + parts[i].len(),
            ));
            assert(text::occurs_at(whole, parts[i], at));
        }
    }
}

/// In every mode the kernel is kept from loading the free driver. Unless the vendor's driver is to
/// be used, it is kept from loading each module of that too; the configuration is the same then,
/// whether the GPU is passed through or unused.
pub proof fn law_configuration_keeps_drivers_out(ty: ModprobeConfType, i: int)
    ensures
        text::occurs(switcher::modprobe_conf(ty), "blacklist "@ + "nouveau"@),
        ty != ModprobeConfType::Nvidia && 0 <= i < switcher::nvidia_drivers().len()
            ==> text::occurs(
            switcher::modprobe_conf(ty),
            "blacklist "@ + switcher::nvidia_drivers()[i],
        ),
        switcher::modprobe_conf(ModprobeConfType::Vfio) == switcher::modprobe_conf(
            ModprobeConfType::Integrated,
        ),
{
    let oss = seq!["nouveau"@];
    if ty == ModprobeConfType::Nvidia {
        let lines = switcher::blacklist(oss) + seq![
            "\n        options nvidia-drm modeset=1\n        "@,
            "\n        options nvidia-wmi-ec-backlight force=1\n        "@,
        ];
        lemma_part_occurs(lines, "\n"@, 0);
    } else {
        let lines = switcher::blacklist(oss + switcher::nvidia_drivers());
        lemma_part_occurs(lines, "\n"@, 0);
        if 0 <= i < switcher::nvidia_drivers().len() {
            assert(lines[i + 1] == "blacklist "@ + switcher::nvidia_drivers()[i]);
            lemma_part_occurs(lines, "\n"@, i + 1);
        }
    }
}


/// The configuration, letter by letter: in the vendor's mode the free driver is kept out, and the
/// vendor's modules get their options; otherwise all of these are kept out.
pub proof fn law_configuration_text()
    ensures
        switcher::modprobe_conf(ModprobeConfType::Nvidia)
            == "blacklist nouveau\n\n        options nvidia-drm modeset=1\n        \n\n        options nvidia-wmi-ec-backlight force=1\n        "@,
        switcher::modprobe_conf(ModprobeConfType::Vfio)
            == "blacklist nouveau\nblacklist nvidia_uvm\nblacklist nvidia_drm\nblacklist nvidia_modeset\nblacklist nvidia\nblacklist nvidia-wmi-ec-backlight"@,
        switcher::modprobe_conf(ModprobeConfType::Integrated) == switcher::modprobe_conf(
            ModprobeConfType::Vfio,
        ),
{
    lemma_vendors_configuration();
    lemma_bare_configuration();
}

proof fn lemma_vendors_configuration()
    ensures
        switcher::modprobe_conf(ModprobeConfType::Nvidia)
            == "blacklist nouveau\n\n        options nvidia-drm modeset=1\n        \n\n        options nvidia-wmi-ec-backlight force=1\n        "@,
{
    reveal_strlit("blacklist ");
    reveal_strlit("nouveau");
    reveal_strlit("\n");
    reveal_strlit("\n        options nvidia-drm modeset=1\n        ");
    reveal_strlit("\n        options nvidia-wmi-ec-backlight force=1\n        ");
    reveal_strlit(
        "blacklist nouveau\n\n        options nvidia-drm modeset=1\n        \n\n        options nvidia-wmi-ec-backlight force=1\n        ",
    );
    let a = "\n        options nvidia-drm modeset=1\n        "@;
    let b = "\n        options nvidia-wmi-ec-backlight force=1\n        "@;
    let lines = switcher::blacklist(seq!["nouveau"@]) + seq![a, b];
    let first = "blacklist "@ + "nouveau"@;
    assert(lines =~= seq![first, a, b]);
    assert(seq![first, a, b].drop_last() =~= seq![first, a]);
    assert(seq![first, a].drop_last() =~= seq![first]);
    reveal_with_fuel(text::joined, 4);
    assert(switcher::modprobe_conf(ModprobeConfType::Nvidia) == first + "\n"@ + a + "\n"@ + b);
    assert(first + "\n"@ + a + "\n"@ + b
        =~= "blacklist nouveau\n\n        options nvidia-drm modeset=1\n        \n\n        options nvidia-wmi-ec-backlight force=1\n        "@);
}

proof fn lemma_bare_configuration()
    ensures
        switcher::modprobe_conf(ModprobeConfType::Vfio)
            == "blacklist nouveau\nblacklist nvidia_uvm\nblacklist nvidia_drm\nblacklist nvidia_modeset\nblacklist nvidia\nblacklist nvidia-wmi-ec-backlight"@,
{
    reveal_strlit("blacklist ");
    reveal_strlit("nouveau");
    reveal_strlit("nvidia_uvm");
    reveal_strlit("nvidia_drm");
    reveal_strlit("nvidia_modeset");
    reveal_strlit("nvidia");
    reveal_strlit("nvidia-wmi-ec-backlight");
    reveal_strlit("\n");
    reveal_strlit(
        "blacklist nouveau\nblacklist nvidia_uvm\nblacklist nvidia_drm\nblacklist nvidia_modeset\nblacklist nvidia\nblacklist nvidia-wmi-ec-backlight",
    );
    let word = "blacklist "@;
    let end = "\n"@;
    let l0 = word + "nouveau"@;
    let l1 = word + "nvidia_uvm"@;
    let l2 = word + "nvidia_drm"@;
    let l3 = word + "nvidia_modeset"@;
    let l4 = word + "nvidia"@;
    let l5 = word + "nvidia-wmi-ec-backlight"@;
    let lines = switcher::blacklist(seq!["nouveau"@] + switcher::nvidia_drivers());
    assert(lines =~= seq![l0, l1, l2, l3, l4, l5]);
    assert(seq![l0, l1, l2, l3, l4, l5].drop_last() =~= seq![l0, l1, l2, l3, l4]);
    assert(seq![l0, l1, l2, l3, l4].drop_last() =~= seq![l0, l1, l2, l3]);
    assert(seq![l0, l1, l2, l3].drop_last() =~= seq![l0, l1, l2]);
    assert(seq![l0, l1, l2].drop_last() =~= seq![l0, l1]);
    assert(seq![l0, l1].drop_last() =~= seq![l0]);
    reveal_with_fuel(text::joined, 7);
    let whole = l0 + end + l1 + end + l2 + end + l3 + end + l4 + end + l5;
    assert(switcher::modprobe_conf(ModprobeConfType::Vfio) == whole);
    assert(whole
        =~= "blacklist nouveau\nblacklist nvidia_uvm\nblacklist nvidia_drm\nblacklist nvidia_modeset\nblacklist nvidia\nblacklist nvidia-wmi-ec-backlight"@);
}


/// What is said to go wrong depends on the step that failed alone.
pub proof fn law_failures_are_told_by_their_step(e: SetModeErrorView)
    ensures
        ({
            let said = switcher::failure_context(e);
            &&& failed_step(e, ModeStep::FindGpu(GpuMode::Integrated)) ==> said is None
            &&& failed_step(e, ModeStep::WriteModprobe(ModprobeConfType::Vfio)) ==> said == Some(
                "modprobe conf write"@,
            )
            &&& failed_step(e, ModeStep::SendDetach) ==> said == Some("send gpu detach"@)
            &&& failed_step(e, ModeStep::KillUsers) ==> said == Some("kill gpu use"@)
            &&& failed_step(e, ModeStep::SwitchDrivers(DriverType::Vfio)) ==> said == Some(
                "switch drivers"@,
            )
            &&& failed_step(e, ModeStep::PlugIfUnplugged) ==> said == Some("hotplug plug"@)
            &&& failed_step(e, ModeStep::Unplug) ==> said == Some("hotplug unplug"@)
            &&& failed_step(e, ModeStep::FindGpuAgain(GpuMode::Vfio)) ==> said == Some(
                "pci rescan"@,
            )
        }),
{
}

} // verus!
