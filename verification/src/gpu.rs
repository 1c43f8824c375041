//! The dedicated GPU: its two PCI functions, its device nodes and its slot.
use vstd::prelude::*;

use crate::digits;
use crate::pci;
use crate::pci::{
    BindError, PCIBusId, PCIDevice, PCIDeviceView, SlotSearchError, SlotSearchErrorView,
};
use crate::system;
use crate::system::{IoError, Progress, ReplyView, Step, Transcript};
use crate::text;

verus! {

/// A GPU.
#[derive(Debug)]
pub struct GpuDevice {
    pub pci: PCIDevice,
    pub audio_pci: Option<PCIDevice>,
    pub cards: Vec<u8>,
    pub render_devices: Vec<u8>,
    pub gpu_slot: Option<String>,
}

/// The view of a [`GpuDevice`].
#[verifier::ext_equal]
pub struct GpuDeviceView {
    pub pci: PCIDeviceView,
    pub audio_pci: Option<PCIDeviceView>,
    pub cards: Seq<u8>,
    pub render_devices: Seq<u8>,
    pub gpu_slot: Option<Seq<char>>,
}

impl DeepView for GpuDevice {
    type V = GpuDeviceView;

    open spec fn deep_view(&self) -> GpuDeviceView {
        GpuDeviceView {
            pci: self.pci.deep_view(),
            audio_pci: self.audio_pci.deep_view(),
            cards: self.cards@,
            render_devices: self.render_devices@,
            gpu_slot: self.gpu_slot.deep_view(),
        }
    }
}

impl Clone for GpuDevice {
    fn clone(&self) -> (r: GpuDevice)
        ensures
            r.deep_view() == self.deep_view(),
    {
        let audio_pci = match &self.audio_pci {
            Some(audio) => Some(audio.clone()),
            None => None,
        };
        let gpu_slot = match &self.gpu_slot {
            Some(slot) => Some(slot.clone()),
            None => None,
        };
        let r = GpuDevice {
            pci: self.pci.clone(),
            audio_pci,
            cards: self.cards.clone(),
            render_devices: self.render_devices.clone(),
            gpu_slot,
        };
        assert(r.cards@ =~= self.cards@);
        assert(r.render_devices@ =~= self.render_devices@);
        r
    }
}

/// Why a GPU could not be described.
#[derive(Debug)]
pub enum GpuDeviceCreationError {
    InvalidCardNumber(String),
    InvalidRenderDeviceNumber(String),
    SlotEnumeration(IoError),
    SlotAddressFetch(IoError),
    InvalidSlotAddress(String),
}

/// The view of a [`GpuDeviceCreationError`].
pub enum GpuDeviceCreationErrorView {
    InvalidCardNumber(Seq<char>),
    InvalidRenderDeviceNumber(Seq<char>),
    SlotEnumeration(IoError),
    SlotAddressFetch(IoError),
    InvalidSlotAddress(Seq<char>),
}

impl DeepView for GpuDeviceCreationError {
    type V = GpuDeviceCreationErrorView;

    open spec fn deep_view(&self) -> GpuDeviceCreationErrorView {
        match self {
            GpuDeviceCreationError::InvalidCardNumber(name) => {
                GpuDeviceCreationErrorView::InvalidCardNumber(name@)
            },
            GpuDeviceCreationError::InvalidRenderDeviceNumber(name) => {
                GpuDeviceCreationErrorView::InvalidRenderDeviceNumber(name@)
            },
            GpuDeviceCreationError::SlotEnumeration(e) => {
                GpuDeviceCreationErrorView::SlotEnumeration(*e)
            },
            GpuDeviceCreationError::SlotAddressFetch(e) => {
                GpuDeviceCreationErrorView::SlotAddressFetch(*e)
            },
            GpuDeviceCreationError::InvalidSlotAddress(slot) => {
                GpuDeviceCreationErrorView::InvalidSlotAddress(slot@)
            },
        }
    }
}

/// The GPU could not be taken away from its driver; `audio` tells whether its sound function
/// failed as well.
#[derive(Debug, Copy, Clone, PartialEq, Eq, Structural)]
pub struct UnbindError {
    pub gpu: IoError,
    pub audio: Option<IoError>,
}

impl DeepView for UnbindError {
    type V = UnbindError;

    open spec fn deep_view(&self) -> UnbindError {
        *self
    }
}

/// What the name of a device node stands for.
pub enum DrmNode {
    Card(u8),
    RenderDevice(u8),
    Neither,
}

/// The node with the given name: `card` or `renderD`, each with a number that fits in a byte.
pub open spec fn drm_node(name: Seq<char>) -> Result<DrmNode, GpuDeviceCreationErrorView> {
    match (text::after_prefix(name, "card"@), text::after_prefix(name, "renderD"@)) {
        (Some(number), _) => match digits::number(number, u8::MAX as nat) {
            Some(n) => Ok(DrmNode::Card(n as u8)),
            None => Err(GpuDeviceCreationErrorView::InvalidCardNumber(name)),
        },
        (None, Some(number)) => match digits::number(number, u8::MAX as nat) {
            Some(n) => Ok(DrmNode::RenderDevice(n as u8)),
            None => Err(GpuDeviceCreationErrorView::InvalidRenderDeviceNumber(name)),
        },
        (None, None) => Ok(DrmNode::Neither),
    }
}

/// The numbers of the cards and of the render devices among the names, each in their order, or the
/// first name whose number cannot be read.
pub open spec fn drm_nodes(names: Seq<Seq<char>>) -> Result<
    (Seq<u8>, Seq<u8>),
    GpuDeviceCreationErrorView,
>
    decreases names.len(),
{
    if names.len() == 0 {
        Ok((Seq::empty(), Seq::empty()))
    } else {
        match drm_nodes(names.drop_last()) {
            Err(e) => Err(e),
            Ok((cards, renders)) => match drm_node(names.last()) {
                Err(e) => Err(e),
                Ok(DrmNode::Card(n)) => Ok((cards.push(n), renders)),
                Ok(DrmNode::RenderDevice(n)) => Ok((cards, renders.push(n))),
                Ok(DrmNode::Neither) => Ok((cards, renders)),
            },
        }
    }
}

/// Where the kernel shows the device nodes of the GPU at `bus`.
pub open spec fn drm_dir(bus: PCIBusId) -> Seq<char> {
    text::path_in(pci::device_dir(bus), "drm"@)
}

/// The sound function of the GPU at `bus`.
pub open spec fn audio_function(bus: PCIBusId) -> PCIBusId {
    PCIBusId { function: 1, ..bus }
}

/// Describes the GPU that `device` is. It may lack a sound function, device nodes and a slot, but
/// the slots have to be readable up to the one that it sits in.
pub open spec fn describe(t: Seq<ReplyView>, at: int, device: PCIDeviceView) -> Step<
    Result<GpuDeviceView, GpuDeviceCreationErrorView>,
> {
    match pci::find_device(t, at, audio_function(device.bus_id)) {
        Err(action) => Err(action),
        Ok((Ok(audio), n)) => describe_with(t, n, device, Some(audio)),
        Ok((Err(_), n)) => describe_with(t, n, device, None),
    }
}

/// Describes the GPU that `device` is, once its sound function has been looked for.
pub open spec fn describe_with(
    t: Seq<ReplyView>,
    at: int,
    device: PCIDeviceView,
    audio_pci: Option<PCIDeviceView>,
) -> Step<Result<GpuDeviceView, GpuDeviceCreationErrorView>> {
    match system::list(t, at, drm_dir(device.bus_id)) {
        Err(action) => Err(action),
        Ok((names, n)) => match drm_nodes(
            match names {
                Ok(names) => names,
                Err(_) => Seq::empty(),
            },
        ) {
            Err(e) => Ok((Err(e), n)),
            Ok((cards, render_devices)) => match system::list(t, n, pci::slots_dir()) {
                Err(action) => Err(action),
                Ok((Err(e), n)) => Ok((Err(GpuDeviceCreationErrorView::SlotEnumeration(e)), n)),
                Ok((Ok(slots), n)) => match pci::find_slot(t, n, device.bus_id, slots, 0) {
                    Err(action) => Err(action),
                    Ok((Err(SlotSearchErrorView::AddressFetch(e)), n)) => Ok(
                        (Err(GpuDeviceCreationErrorView::SlotAddressFetch(e)), n),
                    ),
                    Ok((Err(SlotSearchErrorView::InvalidAddress(slot)), n)) => Ok(
                        (Err(GpuDeviceCreationErrorView::InvalidSlotAddress(slot)), n),
                    ),
                    Ok((Ok(gpu_slot), n)) => Ok(
                        (
                            Ok(
                                GpuDeviceView {
                                    pci: device,
                                    audio_pci,
                                    cards,
                                    render_devices,
                                    gpu_slot,
                                },
                            ),
                            n,
                        ),
                    ),
                },
            },
        },
    }
}

/// The file that takes the event for a card of the GPU at `bus`.
pub open spec fn uevent_file(bus: PCIBusId, card: u8) -> Seq<char> {
    text::path_in(text::path_in(drm_dir(bus), "card"@ + digits::decimal(card as nat)), "uevent"@)
}

/// Tells the users of the cards, from number `i` on, that they go away. A card that takes no
/// events is passed over; a failure ends the procedure.
pub open spec fn send_detach(t: Seq<ReplyView>, at: int, bus: PCIBusId, cards: Seq<u8>, i: int) -> Step<
    Result<(), IoError>,
>
    decreases cards.len() - i,
{
    if i < 0 || i >= cards.len() {
        Ok((Ok(()), at))
    } else {
        match system::path_exists(t, at, uevent_file(bus, cards[i])) {
            Err(action) => Err(action),
            Ok((false, n)) => send_detach(t, n, bus, cards, i + 1),
            Ok((true, n)) => match system::write(t, n, uevent_file(bus, cards[i]), "remove"@) {
                Err(action) => Err(action),
                Ok((Err(e), n)) => Ok((Err(e), n)),
                Ok((Ok(()), n)) => send_detach(t, n, bus, cards, i + 1),
            },
        }
    }
}

/// Binds the GPU to the pass-through driver, and then its sound function if it has one.
pub open spec fn bind_vfio(t: Seq<ReplyView>, at: int, gpu: GpuDeviceView) -> Step<
    Result<(), BindError>,
> {
    match pci::bind_vfio(t, at, gpu.pci) {
        Err(action) => Err(action),
        Ok((Err(e), n)) => Ok((Err(e), n)),
        Ok((Ok(()), n)) => match gpu.audio_pci {
            None => Ok((Ok(()), n)),
            Some(audio) => pci::bind_vfio(t, n, audio),
        },
    }
}

/// Takes the GPU away from its driver, and its sound function too, whatever came of the first. A
/// failure of the sound function alone is none of the GPU's.
pub open spec fn unbind(t: Seq<ReplyView>, at: int, gpu: GpuDeviceView) -> Step<
    Result<(), UnbindError>,
> {
    match pci::unbind(t, at, gpu.pci.bus_id) {
        Err(action) => Err(action),
        Ok((first, n)) => match gpu.audio_pci {
            None => Ok((unbound(first, Ok(())), n)),
            Some(audio) => match pci::unbind(t, n, audio.bus_id) {
                Err(action) => Err(action),
                Ok((second, n)) => Ok((unbound(first, second), n)),
            },
        },
    }
}

/// What came of unbinding the GPU and its sound function.
pub open spec fn unbound(gpu: Result<(), IoError>, audio: Result<(), IoError>) -> Result<
    (),
    UnbindError,
> {
    match gpu {
        Ok(()) => Ok(()),
        Err(e) => Err(
            UnbindError {
                gpu: e,
                audio: match audio {
                    Ok(()) => None,
                    Err(e) => Some(e),
                },
            },
        ),
    }
}

/// Reads the name of a device node.
fn parse_drm_node(name: &str) -> (r: Result<DrmNode, GpuDeviceCreationError>)
    ensures
        match r {
            Ok(node) => drm_node(name@) == Ok::<DrmNode, GpuDeviceCreationErrorView>(node),
            Err(e) => drm_node(name@) == Err::<DrmNode, GpuDeviceCreationErrorView>(e.deep_view()),
        },
{
    if let Some(number) = text::strip_prefix(name, "card") {
        return match digits::parse_u8(number) {
            Some(n) => Ok(DrmNode::Card(n)),
            None => Err(GpuDeviceCreationError::InvalidCardNumber(name.to_owned())),
        };
    }
    if let Some(number) = text::strip_prefix(name, "renderD") {
        return match digits::parse_u8(number) {
            Some(n) => Ok(DrmNode::RenderDevice(n)),
            None => Err(GpuDeviceCreationError::InvalidRenderDeviceNumber(name.to_owned())),
        };
    }
    Ok(DrmNode::Neither)
}

/// Reads the names of the device nodes.
pub fn parse_drm_nodes(names: &Vec<String>) -> (r: Result<
    (Vec<u8>, Vec<u8>),
    GpuDeviceCreationError,
>)
    ensures
        match r {
            Ok((cards, renders)) => drm_nodes(names.deep_view()) == Ok::<
                (Seq<u8>, Seq<u8>),
                GpuDeviceCreationErrorView,
            >((cards@, renders@)),
            Err(e) => drm_nodes(names.deep_view()) == Err::<
                (Seq<u8>, Seq<u8>),
                GpuDeviceCreationErrorView,
            >(e.deep_view()),
        },
{
    let ghost all = names.deep_view();
    let mut cards: Vec<u8> = Vec::new();
    let mut renders: Vec<u8> = Vec::new();
    let mut i: usize = 0;
    while i < names.len()
        invariant
            i <= names.len(),
            all == names.deep_view(),
            drm_nodes(all.take(i as int)) == Ok::<(Seq<u8>, Seq<u8>), GpuDeviceCreationErrorView>(
                (cards@, renders@),
            ),
        decreases names.len() - i,
    {
        assert(all.take(i + 1).drop_last() == all.take(i as int));
        match parse_drm_node(names[i].as_str()) {
            Ok(DrmNode::Card(n)) => cards.push(n),
            Ok(DrmNode::RenderDevice(n)) => renders.push(n),
            Ok(DrmNode::Neither) => {},
            Err(e) => {
                proof {
                    lemma_failure_stays(all, i + 1);
                }
                return Err(e);
            },
        }
        i = i + 1;
    }
    assert(all.take(i as int) == all);
    Ok((cards, renders))
}

/// Names after one that cannot be read do not matter.
proof fn lemma_failure_stays(names: Seq<Seq<char>>, n: int)
    requires
        0 <= n <= names.len(),
        drm_nodes(names.take(n)) is Err,
    ensures
        drm_nodes(names) == drm_nodes(names.take(n)),
    decreases names.len() - n,
{
    if n == names.len() {
        assert(names.take(n) == names);
    } else {
        assert(names.take(n + 1).drop_last() == names.take(n));
        lemma_failure_stays(names, n + 1);
    }
}

impl GpuDevice {
    /// Describes the GPU that `device` is.
    pub fn new(t: &Transcript, at: usize, device: PCIDevice) -> (r: Progress<
        Result<GpuDevice, GpuDeviceCreationError>,
    >)
        ensures
            system::outcome_view(r) == describe(t@, at as int, device.deep_view()),
    {
        let bus: PCIBusId = device.bus_id;
        let (audio, n) = PCIDevice::find_device(t, at, bus.with_function(1))?;
        let audio_pci = match audio {
            Ok(audio) => Some(audio),
            Err(_) => None,
        };
        let drm = text::join_path(device.sysfs_path().as_str(), "drm");
        let (names, n) = t.list(n, drm)?;
        let nodes = match names {
            Ok(names) => parse_drm_nodes(names),
            Err(_) => Ok((Vec::new(), Vec::new())),
        };
        let (cards, render_devices) = match nodes {
            Ok(nodes) => nodes,
            Err(e) => return Ok((Err(e), n)),
        };
        let (slots, n) = t.list(n, "/sys/bus/pci/slots".to_owned())?;
        let slots = match slots {
            Ok(slots) => slots,
            Err(e) => return Ok((Err(GpuDeviceCreationError::SlotEnumeration(e)), n)),
        };
        let (slot, n) = pci::search_slots(t, n, bus, slots)?;
        match slot {
            Err(SlotSearchError::AddressFetch(e)) => {
                Ok((Err(GpuDeviceCreationError::SlotAddressFetch(e)), n))
            },
            Err(SlotSearchError::InvalidAddress(slot)) => {
                Ok((Err(GpuDeviceCreationError::InvalidSlotAddress(slot)), n))
            },
            Ok(gpu_slot) => {
                let gpu = GpuDevice { pci: device, audio_pci, cards, render_devices, gpu_slot };
                Ok((Ok(gpu), n))
            },
        }
    }

    /// Tells the users of the GPU's cards that they go away.
    pub fn send_detach(&self, t: &Transcript, at: usize) -> (r: Progress<Result<(), IoError>>)
        ensures
            system::outcome_view(r) == send_detach(
                t@,
                at as int,
                self.pci.bus_id,
                self.cards@,
                0,
            ),
    {
        let drm = self.drm_path();
        let mut here: usize = at;
        let mut i: usize = 0;
        while i < self.cards.len()
            invariant
                i <= self.cards.len(),
                drm@ == drm_dir(self.pci.bus_id),
                send_detach(t@, at as int, self.pci.bus_id, self.cards@, 0) == send_detach(
                    t@,
                    here as int,
                    self.pci.bus_id,
                    self.cards@,
                    i as int,
                ),
            decreases self.cards.len() - i,
        {
            let number = digits::decimal_text(self.cards[i] as usize);
            let card = text::join_path(drm.as_str(), text::concat("card", number.as_str()).as_str());
            let file = text::join_path(card.as_str(), "uevent");
            let (present, n) = t.path_exists(here, file.clone())?;
            if present {
                let (done, n) = t.write(n, file, "remove")?;
                if let Err(e) = done {
                    return Ok((Err(e), n));
                }
                here = n;
            } else {
                here = n;
            }
            i = i + 1;
        }
        Ok((Ok(()), here))
    }

    /// Binds the GPU and its sound function to the pass-through driver.
    pub fn bind_vfio(&self, t: &Transcript, at: usize) -> (r: Progress<Result<(), BindError>>)
        ensures
            system::outcome_view(r) == bind_vfio(t@, at as int, self.deep_view()),
    {
        let (done, n) = self.pci.bind_vfio(t, at)?;
        if let Err(e) = done {
            return Ok((Err(e), n));
        }
        match &self.audio_pci {
            Some(audio) => audio.bind_vfio(t, n),
            None => Ok((Ok(()), n)),
        }
    }

    /// Takes the GPU and its sound function away from their drivers.
    pub fn unbind(&self, t: &Transcript, at: usize) -> (r: Progress<Result<(), UnbindError>>)
        ensures
            system::outcome_view(r) == unbind(t@, at as int, self.deep_view()),
    {
        let (first, n) = self.pci.unbind(t, at)?;
        let (second, n) = match &self.audio_pci {
            Some(audio) => audio.unbind(t, n)?,
            None => (Ok(()), n),
        };
        match (first, second) {
            (Ok(()), _) => Ok((Ok(()), n)),
            (Err(gpu), Ok(())) => Ok((Err(UnbindError { gpu, audio: None }), n)),
            (Err(gpu), Err(audio)) => Ok((Err(UnbindError { gpu, audio: Some(audio) }), n)),
        }
    }

    /// Where the kernel shows the GPU's device nodes.
    pub fn drm_path(&self) -> (r: String)
        ensures
            r@ == drm_dir(self.pci.bus_id),
    {
        text::join_path(self.pci.sysfs_path().as_str(), "drm")
    }
}

/// The names of the device nodes, written with their number, stand for that number.
pub proof fn law_node_names_read_back(n: u8)
    ensures
        drm_node("card"@ + digits::decimal(n as nat)) == Ok::<
            DrmNode,
            GpuDeviceCreationErrorView,
        >(DrmNode::Card(n)),
        drm_node("renderD"@ + digits::decimal(n as nat)) == Ok::<
            DrmNode,
            GpuDeviceCreationErrorView,
        >(DrmNode::RenderDevice(n)),
{
    reveal_strlit("card");
    reveal_strlit("renderD");
    digits::law_decimal_reads_back(n as nat, u8::MAX as nat);
    let number = digits::decimal(n as nat);
    let card = "card"@ + number;
    let render = "renderD"@ + number;
    assert("card"@.is_prefix_of(card));
    assert(card.skip(4) =~= number);
    assert(render[0] != "card"@[0]);
    assert(render.subrange(0, 4)[0] == render[0]);
    assert(!"card"@.is_prefix_of(render));
    assert("renderD"@.is_prefix_of(render));
    assert(render.skip(7) =~= number);
}

/// A described GPU is the device that was to be described; its sound function, if it has one, is
/// the function next to it.
pub proof fn law_described_gpu_is_the_device(t: Seq<ReplyView>, at: int, device: PCIDeviceView)
    ensures
        describe(t, at, device) matches Ok((Ok(gpu), n)) ==> {
            &&& gpu.pci == device
            &&& gpu.audio_pci matches Some(audio) ==> audio.bus_id == audio_function(device.bus_id)
        },
{
    pci::law_found_device_sits_there(t, at, audio_function(device.bus_id));
}

/// The slot of a described GPU, whose power is switched with the GPU's, has the GPU's address.
pub proof fn law_slot_is_the_gpus(t: Seq<ReplyView>, at: int, device: PCIDeviceView)
    ensures
        describe(t, at, device) matches Ok((Ok(gpu), n)) ==> (gpu.gpu_slot is Some
            ==> pci::tells_address(t, n - 1, device.bus_id)),
{
    if let Ok((_, n)) = pci::find_device(t, at, audio_function(device.bus_id)) {
        if let Ok((_, n)) = system::list(t, n, drm_dir(device.bus_id)) {
            if let Ok((Ok(slots), n)) = system::list(t, n, pci::slots_dir()) {
                pci::law_found_slot_has_the_address(t, n, device.bus_id, slots, 0);
            }
        }
    }
}

/// The cards and render devices of a GPU are those that its device nodes are named for.
pub proof fn law_nodes_are_named(names: Seq<Seq<char>>, n: u8)
    ensures
        drm_nodes(names) matches Ok((cards, renders)) ==> {
            &&& cards.contains(n) <==> exists|k: int|
                0 <= k < names.len() && drm_node(#[trigger] names[k]) == Ok::<
                    DrmNode,
                    GpuDeviceCreationErrorView,
                >(DrmNode::Card(n))
            &&& renders.contains(n) <==> exists|k: int|
                0 <= k < names.len() && drm_node(#[trigger] names[k]) == Ok::<
                    DrmNode,
                    GpuDeviceCreationErrorView,
                >(DrmNode::RenderDevice(n))
        },
    decreases names.len(),
{
    if names.len() > 0 {
        let front = names.drop_last();
        law_nodes_are_named(front, n);
        assert(forall|k: int| 0 <= k < front.len() ==> #[trigger] names[k] == front[k]);
        assert(forall|k: int| 0 <= k < front.len() ==> #[trigger] front[k] == names[k]);
        if let Ok((cards, renders)) = drm_nodes(front) {
            assert forall|m: u8| #[trigger] cards.push(m).contains(n) <==> cards.contains(n)
                || m == n by {
                lemma_contains_pushed(cards, m, n);
            }
            assert forall|m: u8| #[trigger] renders.push(m).contains(n) <==> renders.contains(n)
                || m == n by {
                lemma_contains_pushed(renders, m, n);
            }
        }
    }
}

proof fn lemma_contains_pushed(s: Seq<u8>, m: u8, n: u8)
    ensures
        s.push(m).contains(n) <==> s.contains(n) || m == n,
{
    let p = s.push(m);
    if s.contains(n) {
        let k = choose|k: int| 0 <= k < s.len() && s[k] == n;
        assert(p[k] == n);
    }
    if m == n {
        assert(p[s.len() as int] == n);
    }
}

} // verus!
