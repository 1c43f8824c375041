//! What each procedure is seen to do: which action it asks for after which replies, and what it
//! makes of them in the end.
use vstd::prelude::*;

use crate::digits;
use crate::gpu;
use crate::gpu::{GpuDeviceCreationErrorView, GpuDeviceView};
use crate::laws;
use crate::pci;
use crate::pci::{
    BindError, PCIBusId, PCIDeviceView, PCIFindDeviceErrorView, SlotSearchErrorView,
};
use crate::proto::GpuMode;
use crate::replay;
use crate::switcher;
use crate::switcher::{
    DriverLoadError, DriverType, GpuSwitcherView, HotplugState, HotplugStateError, HotplugType,
    IcdType, KillGpuUseErrorView, ModprobeConfType, RescanPCIErrorView, ServiceState, ServiceType,
    SwitchDriversErrorView, SwitchIcdError, SwitchServicesError, UnloadDriverErrorView,
};
use crate::system;
use crate::system::{
    ActionView, ExitStatus, HolderView, IoError, IoErrorKind, ReplyView, Step,
};
use crate::text;

verus! {

/// Whether there is a reply at `at`, and it is this one.
pub open spec fn replied(t: Seq<ReplyView>, at: int, reply: ReplyView) -> bool {
    0 <= at < t.len() && t[at] == reply
}

/// Whether the reply at `at` is to come yet.
pub open spec fn ends_before(t: Seq<ReplyView>, at: int) -> bool {
    0 <= at && t.len() <= at
}

/// Whether a procedure has finished at `n` with this value.
pub open spec fn finished<T>(step: Step<T>, value: T, n: int) -> bool {
    step == Ok::<(T, int), ActionView>((value, n))
}

/// Whether a procedure has succeeded at `n`, with nothing to give.
pub open spec fn succeeded<E>(step: Step<Result<(), E>>, n: int) -> bool {
    step matches Ok((Ok(()), m)) && m == n
}

/// Whether a procedure has failed at `n` with this error.
pub open spec fn failed<T, E>(step: Step<Result<T, E>>, e: E, n: int) -> bool {
    step matches Ok((Err(f), m)) && f == e && m == n
}

// Slots

/// Whether the reply at `at` is an address, but another one than `bus`.
pub open spec fn tells_other_address(t: Seq<ReplyView>, at: int, bus: PCIBusId) -> bool {
    &&& 0 <= at < t.len()
    &&& t[at] matches ReplyView::Text(Ok(address))
        && pci::bus_id(text::trimmed(address)) matches Some(id) && id != bus
}

/// Whether a search of the slots `names` has gone by the first `k` of them, whose addresses are
/// other ones, and ends or stands at the next as the reply there says.
pub open spec fn slots_searched(
    t: Seq<ReplyView>,
    at: int,
    bus: PCIBusId,
    names: Seq<Seq<char>>,
    k: int,
    search: Step<Result<Option<Seq<char>>, SlotSearchErrorView>>,
) -> bool {
    let slot = text::path_in("/sys/bus/pci/slots"@, names[k]);
    &&& 0 <= k <= names.len()
    &&& forall|j: int| 0 <= j < k ==> #[trigger] tells_other_address(t, at + j, bus)
    &&& match search {
        Ok((Ok(None), n)) => k == names.len() && n == at + k,
        Ok((Ok(Some(found)), n)) => {
            &&& k < names.len()
            &&& n == at + k + 1
            &&& found == slot
            &&& pci::tells_address(t, at + k, bus)
        },
        Ok((Err(SlotSearchErrorView::AddressFetch(e)), n)) => {
            &&& k < names.len()
            &&& n == at + k + 1
            &&& replied(t, at + k, ReplyView::Text(Err(e)))
        },
        Ok((Err(SlotSearchErrorView::InvalidAddress(bad)), n)) => {
            &&& k < names.len()
            &&& n == at + k + 1
            &&& bad == slot
            &&& 0 <= at + k < t.len()
            &&& t[at + k] matches ReplyView::Text(Ok(address))
                && pci::bus_id(text::trimmed(address)) is None
        },
        Err(action) => {
            &&& k < names.len()
            &&& action == (ActionView::Read { path: text::path_in(slot, "address"@) })
            &&& !(0 <= at + k < t.len() && t[at + k] is Text)
        },
    }
}

proof fn lemma_slots_searched(
    t: Seq<ReplyView>,
    at: int,
    bus: PCIBusId,
    names: Seq<Seq<char>>,
    i: int,
) -> (k: int)
    requires
        0 <= i <= names.len(),
        forall|j: int| 0 <= j < i ==> #[trigger] tells_other_address(t, at - i + j, bus),
    ensures
        slots_searched(t, at - i, bus, names, k, pci::find_slot(t, at, bus, names, i)),
    decreases names.len() - i,
{
    if i < names.len() && tells_other_address(t, at, bus) {
        assert forall|j: int| 0 <= j < i + 1 implies #[trigger] tells_other_address(
            t,
            at + 1 - (i + 1) + j,
            bus,
        ) by {
            assert(at + 1 - (i + 1) + j == at - i + j);
            if j == i {
                assert(at - i + j == at);
            }
        }
        let k = lemma_slots_searched(t, at + 1, bus, names, i + 1);
        assert(at + 1 - (i + 1) == at - i);
        k
    } else {
        i
    }
}

/// The slots are searched one after the other, up to the first whose address is the one that is
/// looked for, or up to one whose address cannot be had. There is no such slot only if all of them
/// have been read and have other addresses.
pub proof fn law_slots_are_searched_in_order(
    t: Seq<ReplyView>,
    at: int,
    bus: PCIBusId,
    names: Seq<Seq<char>>,
)
    ensures
        exists|k: int| #[trigger]
            slots_searched(t, at, bus, names, k, pci::find_slot(t, at, bus, names, 0)),
{
    let k = lemma_slots_searched(t, at, bus, names, 0);
    assert(slots_searched(t, at, bus, names, k, pci::find_slot(t, at, bus, names, 0)));
}

// Users

/// Whether the reply at `at` says that a process has been ended.
pub open spec fn tells_ended(t: Seq<ReplyView>, at: int) -> bool {
    replied(t, at, ReplyView::Killed(0))
}

/// Whether of the processes of `list` the first `k` have been ended, and the work ends or stands at
/// the next as the reply there says.
pub open spec fn holders_ended(
    t: Seq<ReplyView>,
    at: int,
    list: Seq<HolderView>,
    k: int,
    work: Step<Result<(), KillGpuUseErrorView>>,
) -> bool {
    &&& 0 <= k <= list.len()
    &&& forall|j: int| 0 <= j < k ==> #[trigger] tells_ended(t, at + j)
    &&& match work {
        Ok((Ok(()), n)) => k == list.len() && n == at + k,
        Ok((Err(KillGpuUseErrorView::NoGpu), n)) => false,
        Ok((Err(KillGpuUseErrorView::KillProcess(name, code)), n)) => {
            &&& k < list.len()
            &&& n == at + k + 1
            &&& code != 0
            &&& replied(t, at + k, ReplyView::Killed(code))
            &&& list[k].name is Some ==> name == list[k].name->0
            &&& list[k].name is None ==> name == "unknown"@
        },
        Err(action) => {
            &&& k < list.len()
            &&& action == (ActionView::Kill { pid: system::process_id(list[k].pid)->0 })
            &&& !(0 <= at + k < t.len() && t[at + k] is Killed)
        },
    }
}

proof fn lemma_holders_ended(t: Seq<ReplyView>, at: int, list: Seq<HolderView>, i: int) -> (k: int)
    requires
        0 <= i <= list.len(),
        forall|j: int| 0 <= j < i ==> #[trigger] tells_ended(t, at - i + j),
    ensures
        holders_ended(t, at - i, list, k, switcher::kill_holders(t, at, list, i)),
    decreases list.len() - i,
{
    if i < list.len() && tells_ended(t, at) {
        assert forall|j: int| 0 <= j < i + 1 implies #[trigger] tells_ended(
            t,
            at + 1 - (i + 1) + j,
        ) by {
            assert(at + 1 - (i + 1) + j == at - i + j);
            if j == i {
                assert(at - i + j == at);
            }
        }
        let k = lemma_holders_ended(t, at + 1, list, i + 1);
        assert(at + 1 - (i + 1) == at - i);
        k
    } else {
        i
    }
}

/// The processes of a list are ended one after the other, up to the first that cannot be ended,
/// which is named.
pub proof fn law_holders_are_ended_in_order(t: Seq<ReplyView>, at: int, list: Seq<HolderView>)
    ensures
        exists|k: int| #[trigger]
            holders_ended(t, at, list, k, switcher::kill_holders(t, at, list, 0)),
{
    let k = lemma_holders_ended(t, at, list, 0);
    assert(holders_ended(t, at, list, k, switcher::kill_holders(t, at, list, 0)));
}

/// Whether the process was to be ended at `p`, and was.
pub open spec fn ended_at(
    t: Seq<ReplyView>,
    at: int,
    nodes: Seq<Seq<char>>,
    i: int,
    p: int,
    holder: HolderView,
) -> bool {
    &&& system::process_id(holder.pid) matches Some(pid) && system::awaits(
        switcher::kill_users(t.take(p), at, nodes, i),
        ActionView::Kill { pid },
    )
    &&& tells_ended(t, p)
}

/// Whether the process was ended somewhere between `j` and `n`.
pub open spec fn ended_between(
    t: Seq<ReplyView>,
    at: int,
    nodes: Seq<Seq<char>>,
    i: int,
    j: int,
    n: int,
    holder: HolderView,
) -> bool {
    exists|p: int| j < p < n && #[trigger] ended_at(t, at, nodes, i, p, holder)
}

/// Whether at `j` the users of the node were asked for, and all of them that the reply lists were
/// ended between there and `n`.
pub open spec fn freed_at(
    t: Seq<ReplyView>,
    at: int,
    nodes: Seq<Seq<char>>,
    i: int,
    n: int,
    node: Seq<char>,
    j: int,
) -> bool {
    &&& at <= j < n
    &&& system::awaits(
        switcher::kill_users(t.take(j), at, nodes, i),
        ActionView::ListHolders { path: node },
    )
    &&& t[j] is Holders
    &&& t[j] matches ReplyView::Holders(Some(list)) ==> forall|k: int|
        0 <= k < list.len() ==> ended_between(t, at, nodes, i, j, n, #[trigger] list[k])
}

/// On a prefix of the replies that have been used up, processes are still being ended.
proof fn lemma_holders_on_prefix(t: Seq<ReplyView>, at: int, list: Seq<HolderView>, i: int, k: int)
    requires
        0 <= at,
        0 <= i <= k < list.len(),
        switcher::kill_holders(t, at, list, i) matches Ok((Ok(()), _)),
    ensures
        switcher::kill_holders(t, at, list, i) matches Ok((Ok(()), n)) && n == at + (list.len()
            - i),
        tells_ended(t, at + (k - i)),
        system::awaits(
            switcher::kill_holders(t.take(at + (k - i)), at, list, i),
            ActionView::Kill { pid: system::process_id(list[k].pid)->0 },
        ),
    decreases list.len() - i,
{
    if i < k {
        lemma_holders_on_prefix(t, at + 1, list, i + 1, k);
        assert(at + 1 + (k - (i + 1)) == at + (k - i));
    } else {
        if i + 1 < list.len() {
            lemma_holders_on_prefix(t, at + 1, list, i + 1, i + 1);
        }
    }
}

proof fn lemma_node_is_freed(
    t: Seq<ReplyView>,
    at: int,
    nodes: Seq<Seq<char>>,
    i: int,
    m: int,
) -> (j: int)
    requires
        0 <= at <= t.len(),
        0 <= i <= m < nodes.len(),
        switcher::kill_users(t, at, nodes, i) matches Ok((Ok(()), _)),
    ensures
        switcher::kill_users(t, at, nodes, i) matches Ok((Ok(()), n)) && freed_at(
            t,
            at,
            nodes,
            i,
            n,
            nodes[m],
            j,
        ),
    decreases nodes.len() - i,
{
    let n = switcher::kill_users(t, at, nodes, i)->Ok_0.1;
    let (holders, first) = system::list_holders(t, at, nodes[i])->Ok_0;
    let next = match holders {
        None => first,
        Some(list) => switcher::kill_holders(t, first, list, 0)->Ok_0.1,
    };
    if let Some(list) = holders {
        replay::kill_holders_settled(t, t, first, list, 0);
    }
    replay::kill_users_settled(t, t, next, nodes, i + 1);
    if i == m {
        lemma_first_listing(t, at, nodes, i);
        at
    } else {
        let j = lemma_node_is_freed(t, next, nodes, i + 1, m);
        lemma_users_go_on(t, at, nodes, i, j);
        if let ReplyView::Holders(Some(list)) = t[j] {
            assert forall|k: int| 0 <= k < list.len() implies ended_between(
                t,
                at,
                nodes,
                i,
                j,
                n,
                #[trigger] list[k],
            ) by {
                assert(ended_between(t, next, nodes, i + 1, j, n, list[k]));
                let p = choose|p: int|
                    j < p < n && #[trigger] ended_at(t, next, nodes, i + 1, p, list[k]);
                lemma_users_go_on(t, at, nodes, i, p);
                assert(ended_at(t, at, nodes, i, p, list[k]));
            }
        }
        j
    }
}

/// Once a node has been dealt with, the work goes on with the next, on any prefix that is long
/// enough too.
proof fn lemma_users_go_on(t: Seq<ReplyView>, at: int, nodes: Seq<Seq<char>>, i: int, p: int)
    requires
        0 <= at <= t.len(),
        0 <= i < nodes.len(),
        p <= t.len(),
        system::list_holders(t, at, nodes[i]) is Ok,
    ensures
        match system::list_holders(t, at, nodes[i]) {
            Ok((None, n)) => n <= p ==> switcher::kill_users(t.take(p), at, nodes, i)
                == switcher::kill_users(t.take(p), n, nodes, i + 1),
            Ok((Some(list), first)) => switcher::kill_holders(t, first, list, 0) matches Ok(
                (Ok(()), n),
            ) ==> (n <= p ==> switcher::kill_users(t.take(p), at, nodes, i)
                == switcher::kill_users(t.take(p), n, nodes, i + 1)),
            Err(_) => true,
        },
{
    if let Ok((Some(list), first)) = system::list_holders(t, at, nodes[i]) {
        replay::kill_holders_settled(t, t.take(p), first, list, 0);
    }
}

/// When the users of all nodes have been ended, then each node was asked for, and each process that
/// was listed for it was sent the signal and ended.
pub proof fn law_every_user_is_ended(t: Seq<ReplyView>, at: int, nodes: Seq<Seq<char>>, m: int)
    requires
        0 <= at <= t.len(),
        0 <= m < nodes.len(),
    ensures
        switcher::kill_users(t, at, nodes, 0) matches Ok((Ok(()), n)) ==> exists|j: int|
            #[trigger] freed_at(t, at, nodes, 0, n, nodes[m], j),
{
    if let Ok((Ok(()), n)) = switcher::kill_users(t, at, nodes, 0) {
        let j = lemma_node_is_freed(t, at, nodes, 0, m);
        assert(freed_at(t, at, nodes, 0, n, nodes[m], j));
    }
}

proof fn lemma_listing_is_freed(
    t: Seq<ReplyView>,
    at: int,
    nodes: Seq<Seq<char>>,
    i: int,
    j: int,
) -> (m: int)
    requires
        0 <= at <= j < t.len(),
        0 <= i <= nodes.len(),
        switcher::kill_users(t, at, nodes, i) matches Ok((Ok(()), n)) && j < n && t[j] is Holders,
    ensures
        i <= m < nodes.len(),
        switcher::kill_users(t, at, nodes, i) matches Ok((Ok(()), n)) && freed_at(
            t,
            at,
            nodes,
            i,
            n,
            nodes[m],
            j,
        ),
    decreases nodes.len() - i,
{
    let n = switcher::kill_users(t, at, nodes, i)->Ok_0.1;
    let (holders, first) = system::list_holders(t, at, nodes[i])->Ok_0;
    let next = match holders {
        None => first,
        Some(list) => switcher::kill_holders(t, first, list, 0)->Ok_0.1,
    };
    if j == at {
        lemma_first_listing(t, at, nodes, i);
        i
    } else {
        if let Some(list) = holders {
            replay::kill_holders_settled(t, t, first, list, 0);
            let k = lemma_holders_ended(t, first, list, 0);
            if j < next {
                lemma_holders_on_prefix(t, first, list, 0, j - first);
                assert(first + (j - first) == j);
            }
        }
        let m = lemma_listing_is_freed(t, next, nodes, i + 1, j);
        lemma_users_go_on(t, at, nodes, i, j);
        if let ReplyView::Holders(Some(list)) = t[j] {
            assert forall|k: int| 0 <= k < list.len() implies ended_between(
                t,
                at,
                nodes,
                i,
                j,
                n,
                #[trigger] list[k],
            ) by {
                assert(ended_between(t, next, nodes, i + 1, j, n, list[k]));
                let p = choose|p: int|
                    j < p < n && #[trigger] ended_at(t, next, nodes, i + 1, p, list[k]);
                lemma_users_go_on(t, at, nodes, i, p);
                assert(ended_at(t, at, nodes, i, p, list[k]));
            }
        }
        m
    }
}

/// The first node is the first to be asked for.
proof fn lemma_first_listing(t: Seq<ReplyView>, at: int, nodes: Seq<Seq<char>>, i: int)
    requires
        0 <= at <= t.len(),
        0 <= i < nodes.len(),
        switcher::kill_users(t, at, nodes, i) matches Ok((Ok(()), _)),
    ensures
        switcher::kill_users(t, at, nodes, i) matches Ok((Ok(()), n)) && freed_at(
            t,
            at,
            nodes,
            i,
            n,
            nodes[i],
            at,
        ),
{
    let n = switcher::kill_users(t, at, nodes, i)->Ok_0.1;
    let (holders, first) = system::list_holders(t, at, nodes[i])->Ok_0;
    let next = match holders {
        None => first,
        Some(list) => switcher::kill_holders(t, first, list, 0)->Ok_0.1,
    };
    if let Some(list) = holders {
        replay::kill_holders_settled(t, t, first, list, 0);
    }
    replay::kill_users_settled(t, t, next, nodes, i + 1);
    if let Some(list) = holders {
        assert forall|k: int| 0 <= k < list.len() implies ended_between(
            t,
            at,
            nodes,
            i,
            at,
            n,
            #[trigger] list[k],
        ) by {
            lemma_holders_on_prefix(t, first, list, 0, k);
            assert(system::process_id(list[k].pid) is Some);
            assert(ended_at(t, at, nodes, i, first + k, list[k]));
        }
    }
}

/// When the users of all nodes have been ended, then each reply that lists processes came for one
/// of the nodes, and each process in it was sent the signal and ended.
pub proof fn law_every_listed_process_is_ended(
    t: Seq<ReplyView>,
    at: int,
    nodes: Seq<Seq<char>>,
    j: int,
)
    requires
        0 <= at <= t.len(),
        at <= j < t.len(),
        t[j] is Holders,
    ensures
        switcher::kill_users(t, at, nodes, 0) matches Ok((Ok(()), n)) ==> (j < n ==> exists|m: int|
            0 <= m < nodes.len() && freed_at(t, at, nodes, 0, n, #[trigger] nodes[m], j)),
{
    if let Ok((Ok(()), n)) = switcher::kill_users(t, at, nodes, 0) {
        if j < n {
            let m = lemma_listing_is_freed(t, at, nodes, 0, j);
            assert(freed_at(t, at, nodes, 0, n, nodes[m], j));
        }
    }
}

/// Whether the first `k` replies from `at` on say each that a process has been ended.
pub open spec fn all_ended(t: Seq<ReplyView>, at: int, k: int) -> bool {
    forall|j: int| 0 <= j < k ==> #[trigger] tells_ended(t, at + j)
}

proof fn lemma_holders_in_a_row(
    t: Seq<ReplyView>,
    at: int,
    list: Seq<HolderView>,
    i: int,
    k: int,
)
    requires
        0 <= at,
        0 <= i <= k <= list.len(),
        all_ended(t, at, k - i),
    ensures
        switcher::kill_holders(t, at, list, i) == switcher::kill_holders(t, at + (k - i), list, k),
    decreases k - i,
{
    if i < k {
        assert(tells_ended(t, at + 0));
        assert forall|j: int| 0 <= j < k - (i + 1) implies #[trigger] tells_ended(
            t,
            at + 1 + j,
        ) by {
            assert(tells_ended(t, at + (j + 1)));
        }
        lemma_holders_in_a_row(t, at + 1, list, i + 1, k);
        assert(at + 1 + (k - (i + 1)) == at + (k - i));
    }
}

/// The nodes are dealt with one after the other. One whose users cannot be listed is passed over;
/// of one whose users are listed, all are ended before the next node; one that cannot be ended
/// makes the whole fail. After the last node the whole has succeeded.
pub proof fn law_users_are_ended_node_by_node(
    t: Seq<ReplyView>,
    at: int,
    nodes: Seq<Seq<char>>,
    i: int,
    k: int,
)
    requires
        0 <= at,
        0 <= i <= nodes.len(),
    ensures
        ({
            let work = switcher::kill_users(t, at, nodes, i);
            &&& i == nodes.len() ==> succeeded(work, at)
            &&& i < nodes.len() ==> {
                &&& ends_before(t, at) ==> system::awaits(
                    work,
                    ActionView::ListHolders { path: nodes[i] },
                )
                &&& replied(t, at, ReplyView::Holders(None)) ==> work == switcher::kill_users(
                    t,
                    at + 1,
                    nodes,
                    i + 1,
                )
                &&& at < t.len() ==> (t[at] matches ReplyView::Holders(Some(list)) ==> (
                system::answers(ActionView::ListHolders { path: nodes[i] }, t[at]) && 0 <= k
                    <= list.len() && all_ended(t, at + 1, k) ==> {
                    let p = at + 1 + k;
                    &&& k == list.len() ==> work == switcher::kill_users(t, p, nodes, i + 1)
                    &&& k < list.len() && ends_before(t, p) ==> system::awaits(
                        work,
                        ActionView::Kill { pid: system::process_id(list[k].pid)->0 },
                    )
                    &&& k < list.len() && p < t.len() ==> (t[p] matches ReplyView::Killed(code)
                        ==> (code != 0 ==> failed(
                        work,
                        KillGpuUseErrorView::KillProcess(
                            match list[k].name {
                                Some(name) => name,
                                None => "unknown"@,
                            },
                            code,
                        ),
                        p + 1,
                    )))
                }))
            }
        }),
{
    if i < nodes.len() && at < t.len() {
        if let ReplyView::Holders(Some(list)) = t[at] {
            if 0 <= k <= list.len() && all_ended(t, at + 1, k) {
                lemma_holders_in_a_row(t, at + 1, list, 0, k);
            }
        }
    }
}

/// The device nodes by which the GPU is used: those of its cards, then those of its render devices,
/// each by its number, and the vendor's own.
pub proof fn law_device_nodes_of_a_gpu(gpu: GpuDeviceView, i: int)
    ensures
        ({
            let nodes = switcher::device_nodes(gpu);
            let cards = gpu.cards.len() as int;
            let renders = gpu.render_devices.len() as int;
            &&& nodes.len() == cards + renders + 1
            &&& 0 <= i < cards ==> nodes[i] == "/dev/dri/card"@ + digits::decimal(
                gpu.cards[i] as nat,
            )
            &&& 0 <= i < renders ==> nodes[cards + i] == "/dev/dri/renderD"@ + digits::decimal(
                gpu.render_devices[i] as nat,
            )
            &&& nodes.last() == "/dev/nvidia0"@
        }),
{
}

// Detaching

/// Whether the card was dealt with at `j`: it was asked for, and if it takes events it was told that
/// it goes away.
pub open spec fn told_at(
    t: Seq<ReplyView>,
    at: int,
    bus: PCIBusId,
    cards: Seq<u8>,
    i: int,
    n: int,
    card: u8,
    j: int,
) -> bool {
    let dir = text::path_in(text::path_in(pci::device_dir(bus), "drm"@), "card"@ + digits::decimal(
        card as nat,
    ));
    let file = text::path_in(dir, "uevent"@);
    &&& at <= j < n
    &&& system::awaits(
        gpu::send_detach(t.take(j), at, bus, cards, i),
        ActionView::Exists { path: file },
    )
    &&& {
        ||| replied(t, j, ReplyView::Present(false))
        ||| {
            &&& replied(t, j, ReplyView::Present(true))
            &&& j + 1 < n
            &&& system::awaits(
                gpu::send_detach(t.take(j + 1), at, bus, cards, i),
                ActionView::Write { path: file, contents: "remove"@ },
            )
            &&& t[j + 1] matches ReplyView::Done(Ok(()))
        }
    }
}

proof fn lemma_card_is_told(
    t: Seq<ReplyView>,
    at: int,
    bus: PCIBusId,
    cards: Seq<u8>,
    i: int,
    m: int,
) -> (j: int)
    requires
        0 <= at <= t.len(),
        0 <= i <= m < cards.len(),
        gpu::send_detach(t, at, bus, cards, i) matches Ok((Ok(()), _)),
    ensures
        gpu::send_detach(t, at, bus, cards, i) matches Ok((Ok(()), n)) && told_at(
            t,
            at,
            bus,
            cards,
            i,
            n,
            cards[m],
            j,
        ),
    decreases cards.len() - i,
{
    let file = gpu::uevent_file(bus, cards[i]);
    let next = if t[at]->Present_0 {
        at + 2
    } else {
        at + 1
    };
    replay::send_detach_settled(t, t, next, bus, cards, i + 1);
    if i == m {
        at
    } else {
        let j = lemma_card_is_told(t, next, bus, cards, i + 1, m);
        let u = t.take(j);
        assert(u[at] == t[at]);
        if t[at]->Present_0 {
            assert(u[at + 1] == t[at + 1]);
        }
        assert(gpu::send_detach(u, at, bus, cards, i) == gpu::send_detach(
            u,
            next,
            bus,
            cards,
            i + 1,
        ));
        if replied(t, j, ReplyView::Present(true)) {
            let v = t.take(j + 1);
            assert(v[at] == t[at]);
            if t[at]->Present_0 {
                assert(v[at + 1] == t[at + 1]);
            }
            assert(gpu::send_detach(v, at, bus, cards, i) == gpu::send_detach(
                v,
                next,
                bus,
                cards,
                i + 1,
            ));
        }
        j
    }
}

/// When the users of the cards have been told, then each card was asked for, and each that takes
/// events was told that it goes away.
pub proof fn law_every_card_is_told(t: Seq<ReplyView>, at: int, bus: PCIBusId, cards: Seq<u8>, m: int)
    requires
        0 <= at <= t.len(),
        0 <= m < cards.len(),
    ensures
        gpu::send_detach(t, at, bus, cards, 0) matches Ok((Ok(()), n)) ==> exists|j: int|
            #[trigger] told_at(t, at, bus, cards, 0, n, cards[m], j),
{
    if let Ok((Ok(()), n)) = gpu::send_detach(t, at, bus, cards, 0) {
        let j = lemma_card_is_told(t, at, bus, cards, 0, m);
        assert(told_at(t, at, bus, cards, 0, n, cards[m], j));
    }
}

/// The cards are told one after the other; one that takes no events is passed over, and only a
/// failed event makes the whole fail.
pub proof fn law_cards_are_told_one_by_one(
    t: Seq<ReplyView>,
    at: int,
    bus: PCIBusId,
    cards: Seq<u8>,
    i: int,
)
    requires
        0 <= at,
        0 <= i <= cards.len(),
    ensures
        ({
            let work = gpu::send_detach(t, at, bus, cards, i);
            let rest = |n: int| gpu::send_detach(t, n, bus, cards, i + 1);
            &&& i == cards.len() ==> succeeded(work, at)
            &&& i < cards.len() ==> {
                &&& replied(t, at, ReplyView::Present(false)) ==> work == rest(at + 1)
                &&& replied(t, at, ReplyView::Present(true)) && at + 1 < t.len() ==> {
                    &&& t[at + 1] matches ReplyView::Done(Ok(())) ==> work == rest(at + 2)
                    &&& t[at + 1] matches ReplyView::Done(Err(e)) ==> failed(work, e, at + 2)
                }
            }
        }),
{
}

// Drivers

/// Whether the reply at `at` says that a module that was to be unloaded is not in use.
pub open spec fn tells_unused(t: Seq<ReplyView>, at: int) -> bool {
    0 <= at < t.len() && laws::not_in_use(t[at])
}

/// Whether the first `k` replies from `at` on say each that a module is not in use.
pub open spec fn all_unused(t: Seq<ReplyView>, at: int, k: int) -> bool {
    forall|j: int| 0 <= j < k ==> #[trigger] tells_unused(t, at + j)
}

/// How a module is unloaded: by force only if that is asked for.
pub open spec fn unloading(module: Seq<char>, force: bool) -> ActionView {
    if force {
        ActionView::RunForErrors { program: "rmmod"@, args: seq!["-f"@, module] }
    } else {
        ActionView::RunForErrors { program: "rmmod"@, args: seq![module] }
    }
}

proof fn lemma_modules_in_a_row(
    t: Seq<ReplyView>,
    at: int,
    modules: Seq<Seq<char>>,
    i: int,
    force: bool,
    k: int,
)
    requires
        0 <= at,
        0 <= i <= k <= modules.len(),
        all_unused(t, at, k - i),
    ensures
        switcher::unload_drivers(t, at, modules, i, force) == switcher::unload_drivers(
            t,
            at + (k - i),
            modules,
            k,
            force,
        ),
    decreases k - i,
{
    if i < k {
        assert(tells_unused(t, at + 0));
        assert forall|j: int| 0 <= j < k - (i + 1) implies #[trigger] tells_unused(
            t,
            at + 1 + j,
        ) by {
            assert(tells_unused(t, at + (j + 1)));
        }
        lemma_modules_in_a_row(t, at + 1, modules, i + 1, force, k);
        assert(at + 1 + (k - (i + 1)) == at + (k - i));
    }
}

/// The modules are unloaded in their order, each by force if and only if that is asked for. The
/// first that is in use, or that cannot even be tried, makes the whole fail; if none is, it
/// succeeds.
pub proof fn law_modules_are_unloaded_in_order(
    t: Seq<ReplyView>,
    at: int,
    modules: Seq<Seq<char>>,
    force: bool,
    k: int,
)
    requires
        0 <= at,
        0 <= k <= modules.len(),
        all_unused(t, at, k),
    ensures
        ({
            let work = switcher::unload_drivers(t, at, modules, 0, force);
            let p = at + k;
            &&& k == modules.len() ==> succeeded(work, p)
            &&& k < modules.len() && ends_before(t, p) ==> system::awaits(
                work,
                unloading(modules[k], force),
            )
            &&& k < modules.len() && p < t.len() ==> {
                &&& t[p] matches ReplyView::Text(Ok(stderr)) ==> (text::occurs(stderr, "in use"@)
                    ==> failed(work, UnloadDriverErrorView::DriverInUse(modules[k]), p + 1))
                &&& t[p] matches ReplyView::Text(Err(e)) ==> failed(
                    work,
                    UnloadDriverErrorView::Io(e),
                    p + 1,
                )
            }
        }),
{
    lemma_modules_in_a_row(t, at, modules, 0, force, k);
}

/// When modules have been unloaded, then each of them was, in its turn, by force if and only if
/// that was asked for.
pub proof fn law_every_module_is_unloaded(
    t: Seq<ReplyView>,
    at: int,
    modules: Seq<Seq<char>>,
    force: bool,
    k: int,
)
    requires
        0 <= at <= t.len(),
        0 <= k < modules.len(),
    ensures
        switcher::unload_drivers(t, at, modules, 0, force) matches Ok((Ok(()), n)) ==> {
            &&& n == at + modules.len()
            &&& tells_unused(t, at + k)
            &&& system::awaits(
                switcher::unload_drivers(t.take(at + k), at, modules, 0, force),
                unloading(modules[k], force),
            )
        },
{
    if let Ok((Ok(()), n)) = switcher::unload_drivers(t, at, modules, 0, force) {
        laws::law_unloaded_modules_were_not_in_use(t, at, modules, 0, force);
        replay::unload_drivers_settled(t, t, at, modules, 0, force);
        assert(tells_unused(t, at + k));
        let u = t.take(at + k);
        assert forall|j: int| 0 <= j < k implies #[trigger] tells_unused(u, at + j) by {
            assert(u[at + j] == t[at + j]);
        }
        law_modules_are_unloaded_in_order(u, at, modules, force, k);
    }
}

/// What the reply to the question for a driver says: the name of the driver.
pub open spec fn driver_told(t: Seq<ReplyView>, at: int) -> Result<Seq<char>, IoError> {
    match t[at] {
        ReplyView::Text(Ok(path)) => Ok(text::last_component(path)),
        ReplyView::Text(Err(e)) => Err(e),
        _ => Ok(Seq::empty()),
    }
}

/// Whether the reply at `at` can be one to the question for a driver.
pub open spec fn tells_driver(t: Seq<ReplyView>, at: int) -> bool {
    0 <= at < t.len() && match t[at] {
        ReplyView::Text(Ok(path)) => text::last_component(path).len() > 0,
        ReplyView::Text(Err(_)) => true,
        _ => false,
    }
}

/// Whether a driver with this name is of the given type.
pub open spec fn is_driver(driver: Result<Seq<char>, IoError>, ty: DriverType) -> bool {
    let vendors = driver matches Ok(name) && name == "nvidia"@;
    let pass_through = driver matches Ok(name) && name == "vfio-pci"@;
    match ty {
        DriverType::Nvidia => vendors,
        DriverType::Vfio => pass_through,
        DriverType::NoDriver => !vendors && !pass_through,
    }
}

/// The modules of a driver with this name, in the order in which they go.
pub open spec fn modules_behind(driver: Result<Seq<char>, IoError>) -> Seq<Seq<char>> {
    if is_driver(driver, DriverType::Nvidia) {
        seq![
            "nvidia_uvm"@,
            "nvidia_drm"@,
            "nvidia_modeset"@,
            "nvidia"@,
            "nvidia-wmi-ec-backlight"@,
        ]
    } else if is_driver(driver, DriverType::Vfio) {
        seq!["vfio_pci"@, "vfio_iommu_type1"@, "vfio_pci_core"@, "vfio"@]
    } else {
        seq![]
    }
}

proof fn lemma_driver_type(driver: Result<Seq<char>, IoError>)
    ensures
        is_driver(driver, switcher::driver_type(driver)),
        forall|ty: DriverType| #[trigger] is_driver(driver, ty) ==> ty == switcher::driver_type(driver),
        modules_behind(driver) == switcher::modules_of(switcher::driver_type(driver)),
{
    reveal_strlit("nvidia");
    reveal_strlit("vfio-pci");
    assert("nvidia"@.len() != "vfio-pci"@.len());
}

/// The mode is read off the driver's name: `nvidia`, `vfio-pci`, or another or none at all.
pub proof fn law_mode_is_read_off_the_driver(t: Seq<ReplyView>, at: int, s: GpuSwitcherView)
    requires
        0 <= at,
    ensures
        s.gpu is None ==> finished(switcher::get_mode(t, at, s), GpuMode::Integrated, at),
        s.gpu matches Some(gpu) ==> {
            let mode = switcher::get_mode(t, at, s);
            &&& ends_before(t, at) ==> system::awaits(
                mode,
                ActionView::Resolve {
                    path: text::path_in(
                        "/sys/bus/pci/devices/"@ + pci::bus_text(gpu.pci.bus_id),
                        "driver"@,
                    ),
                },
            )
            &&& tells_driver(t, at) ==> {
                let driver = driver_told(t, at);
                &&& mode is Ok
                &&& mode->Ok_0.1 == at + 1
                &&& mode->Ok_0.0 == GpuMode::Nvidia <==> is_driver(driver, DriverType::Nvidia)
                &&& mode->Ok_0.0 == GpuMode::Vfio <==> is_driver(driver, DriverType::Vfio)
            }
        },
{
    reveal_strlit("nvidia");
    reveal_strlit("vfio-pci");
    assert("nvidia"@.len() != "vfio-pci"@.len());
}

/// How a device is taken away from its driver.
pub open spec fn unbinding(bus: PCIBusId) -> ActionView {
    let driver = text::path_in("/sys/bus/pci/devices/"@ + pci::bus_text(bus), "driver"@);
    ActionView::Write { path: text::path_in(driver, "unbind"@), contents: pci::bus_text(bus) }
}

/// How modules are loaded.
pub open spec fn loading(modules: Seq<Seq<char>>) -> ActionView {
    ActionView::Run { program: "modprobe"@, args: modules }
}

/// The modules that bring a driver in.
pub open spec fn modules_for(ty: DriverType) -> Seq<Seq<char>> {
    match ty {
        DriverType::Nvidia => seq!["nvidia_drm"@, "nvidia_uvm"@],
        DriverType::Vfio => seq!["vfio_pci"@],
        DriverType::NoDriver => seq![],
    }
}

/// Whether the GPU, and then its sound function if it has one, have been tried to be taken away from
/// their drivers at `at`, however that went.
pub open spec fn tells_unbound(t: Seq<ReplyView>, at: int, gpu: GpuDeviceView) -> bool {
    &&& 0 <= at
    &&& after_unbinding(at, gpu) <= t.len()
    &&& t[at] is Done
    &&& gpu.audio_pci is Some ==> t[at + 1] is Done
}

/// Where the replies to that end.
pub open spec fn after_unbinding(at: int, gpu: GpuDeviceView) -> int {
    if gpu.audio_pci is Some {
        at + 2
    } else {
        at + 1
    }
}

/// What a switch of drivers does. A GPU that has a driver of the type already is left alone. Else
/// the modules of the driver that it has are unloaded, in their order; if none was in use, the GPU
/// and its sound function are taken away from their drivers, whatever comes of that; then the
/// modules of the new driver are loaded, if there is to be one; and to the pass-through driver the
/// GPU is bound at last.
pub proof fn law_driver_is_switched(
    t: Seq<ReplyView>,
    at: int,
    s: GpuSwitcherView,
    gpu: GpuDeviceView,
    ty: DriverType,
    force: bool,
    k: int,
)
    requires
        s.gpu == Some(gpu),
        0 <= at,
    ensures
        ({
            let work = switcher::switch_drivers(t, at, s, ty, force);
            let driver = driver_told(t, at);
            let modules = modules_behind(driver);
            let p = at + 1 + k;
            let q = after_unbinding(p, gpu);
            &&& ends_before(t, at) ==> system::awaits(
                work,
                ActionView::Resolve {
                    path: text::path_in(
                        "/sys/bus/pci/devices/"@ + pci::bus_text(gpu.pci.bus_id),
                        "driver"@,
                    ),
                },
            )
            &&& tells_driver(t, at) && is_driver(driver, ty) ==> succeeded(work, at + 1)
            &&& tells_driver(t, at) && !is_driver(driver, ty) && 0 <= k <= modules.len()
                && all_unused(t, at + 1, k) ==> {
                &&& k < modules.len() && ends_before(t, p) ==> system::awaits(
                    work,
                    unloading(modules[k], force),
                )
                &&& k < modules.len() && p < t.len() ==> {
                    &&& t[p] matches ReplyView::Text(Ok(stderr)) ==> (text::occurs(
                        stderr,
                        "in use"@,
                    ) ==> failed(
                        work,
                        SwitchDriversErrorView::DriverUnload(
                            UnloadDriverErrorView::DriverInUse(modules[k]),
                        ),
                        p + 1,
                    ))
                    &&& t[p] matches ReplyView::Text(Err(e)) ==> failed(
                        work,
                        SwitchDriversErrorView::DriverUnload(UnloadDriverErrorView::Io(e)),
                        p + 1,
                    )
                }
                &&& k == modules.len() && ends_before(t, p) ==> system::awaits(
                    work,
                    unbinding(gpu.pci.bus_id),
                )
                &&& k == modules.len() && p + 1 == t.len() && t[p] is Done ==> (
                gpu.audio_pci matches Some(audio) ==> system::awaits(work, unbinding(audio.bus_id)))
                &&& k == modules.len() && tells_unbound(t, p, gpu) ==> match ty {
                    DriverType::NoDriver => succeeded(work, q),
                    _ => {
                        &&& ends_before(t, q) ==> system::awaits(work, loading(modules_for(ty)))
                        &&& q < t.len() ==> {
                            &&& t[q] matches ReplyView::Exit(Err(e)) ==> failed(
                                work,
                                SwitchDriversErrorView::DriverLoad(DriverLoadError::Io(e)),
                                q + 1,
                            )
                            &&& t[q] matches ReplyView::Exit(Ok(ExitStatus::Code(code))) ==> failed(
                                work,
                                SwitchDriversErrorView::DriverLoad(DriverLoadError::ExitCode(code)),
                                q + 1,
                            )
                            &&& t[q] matches ReplyView::Exit(Ok(ExitStatus::Success)) ==> if ty
                                == DriverType::Nvidia {
                                succeeded(work, q + 1)
                            } else {
                                match gpu::bind_vfio(t, q + 1, gpu) {
                                    Err(action) => system::awaits(work, action),
                                    Ok((Ok(()), n)) => succeeded(work, n),
                                    Ok((Err(e), n)) => failed(
                                        work,
                                        SwitchDriversErrorView::DriverBind(e),
                                        n,
                                    ),
                                }
                            }
                        }
                    },
                }
            }
        }),
{
    let driver = driver_told(t, at);
    lemma_driver_type(driver);
    let modules = modules_behind(driver);
    if tells_driver(t, at) && !is_driver(driver, ty) && 0 <= k <= modules.len() && all_unused(
        t,
        at + 1,
        k,
    ) {
        law_modules_are_unloaded_in_order(t, at + 1, modules, force, k);
    }
}

/// The replies that a switch of drivers has used, when it has succeeded in bringing another driver:
/// one for each module of the old one, those to the unbinding, and those that `load_driver` reads.
proof fn lemma_switched_driver(
    t: Seq<ReplyView>,
    at: int,
    s: GpuSwitcherView,
    gpu: GpuDeviceView,
    ty: DriverType,
    force: bool,
)
    requires
        s.gpu == Some(gpu),
        0 <= at <= t.len(),
        switcher::switch_drivers(t, at, s, ty, force) matches Ok((Ok(()), _)),
        tells_driver(t, at),
        !is_driver(driver_told(t, at), ty),
    ensures
        ({
            let modules = modules_behind(driver_told(t, at));
            let p = at + 1 + modules.len();
            &&& all_unused(t, at + 1, modules.len() as int)
            &&& tells_unbound(t, p, gpu)
            &&& ty != DriverType::NoDriver ==> replied(
                t,
                after_unbinding(p, gpu),
                ReplyView::Exit(Ok(ExitStatus::Success)),
            )
        }),
{
    let driver = driver_told(t, at);
    lemma_driver_type(driver);
    let modules = modules_behind(driver);
    laws::law_unloaded_modules_were_not_in_use(t, at + 1, modules, 0, force);
    replay::unload_drivers_settled(t, t, at + 1, modules, 0, force);
}

/// A switch to another driver than the one that is there succeeds only if each module of the old one
/// was unloaded, in its turn and by force if and only if that was asked for, and was not in use.
pub proof fn law_old_modules_are_gone(
    t: Seq<ReplyView>,
    at: int,
    s: GpuSwitcherView,
    gpu: GpuDeviceView,
    ty: DriverType,
    force: bool,
    k: int,
)
    requires
        s.gpu == Some(gpu),
        0 <= at <= t.len(),
        tells_driver(t, at),
        !is_driver(driver_told(t, at), ty),
    ensures
        switcher::switch_drivers(t, at, s, ty, force) matches Ok((Ok(()), n)) ==> {
            let modules = modules_behind(driver_told(t, at));
            0 <= k < modules.len() ==> {
                &&& system::awaits(
                    switcher::switch_drivers(t.take(at + 1 + k), at, s, ty, force),
                    unloading(modules[k], force),
                )
                &&& tells_unused(t, at + 1 + k)
            }
        },
{
    if let Ok((Ok(()), n)) = switcher::switch_drivers(t, at, s, ty, force) {
        lemma_switched_driver(t, at, s, gpu, ty, force);
        let modules = modules_behind(driver_told(t, at));
        if 0 <= k < modules.len() {
            assert(tells_unused(t, at + 1 + k));
            lemma_driver_on_prefix(t, at, at + 1 + k, k);
            law_driver_is_switched(t.take(at + 1 + k), at, s, gpu, ty, force, k);
        }
    }
}

/// A switch to another driver than the one that is there succeeds only if the GPU and its sound
/// function were to be taken away from their drivers, behind the last module of the old one.
pub proof fn law_gpu_is_let_go_by_the_old_driver(
    t: Seq<ReplyView>,
    at: int,
    s: GpuSwitcherView,
    gpu: GpuDeviceView,
    ty: DriverType,
    force: bool,
)
    requires
        s.gpu == Some(gpu),
        0 <= at <= t.len(),
        tells_driver(t, at),
        !is_driver(driver_told(t, at), ty),
    ensures
        switcher::switch_drivers(t, at, s, ty, force) matches Ok((Ok(()), n)) ==> {
            let modules = modules_behind(driver_told(t, at));
            let p = at + 1 + modules.len();
            &&& system::awaits(
                switcher::switch_drivers(t.take(p), at, s, ty, force),
                unbinding(gpu.pci.bus_id),
            )
            &&& gpu.audio_pci matches Some(audio) ==> system::awaits(
                switcher::switch_drivers(t.take(p + 1), at, s, ty, force),
                unbinding(audio.bus_id),
            )
        },
{
    if let Ok((Ok(()), n)) = switcher::switch_drivers(t, at, s, ty, force) {
        lemma_switched_driver(t, at, s, gpu, ty, force);
        let modules = modules_behind(driver_told(t, at));
        let k = modules.len() as int;
        let p = at + 1 + k;
        lemma_driver_on_prefix(t, at, p, k);
        law_driver_is_switched(t.take(p), at, s, gpu, ty, force, k);
        lemma_driver_on_prefix(t, at, p + 1, k);
        assert(t.take(p + 1)[p] == t[p]);
        law_driver_is_switched(t.take(p + 1), at, s, gpu, ty, force, k);
    }
}

/// A switch to another driver than the one that is there succeeds only if the new driver, if there
/// is to be one, was loaded with success, whatever the old one was. The vendor's driver is loaded
/// last; after the pass-through driver the GPU is bound.
pub proof fn law_new_driver_is_loaded(
    t: Seq<ReplyView>,
    at: int,
    s: GpuSwitcherView,
    gpu: GpuDeviceView,
    ty: DriverType,
    force: bool,
)
    requires
        s.gpu == Some(gpu),
        0 <= at <= t.len(),
        tells_driver(t, at),
        !is_driver(driver_told(t, at), ty),
    ensures
        switcher::switch_drivers(t, at, s, ty, force) matches Ok((Ok(()), n)) ==> {
            let modules = modules_behind(driver_told(t, at));
            let q = after_unbinding(at + 1 + modules.len(), gpu);
            &&& ty == DriverType::NoDriver ==> n == q
            &&& ty != DriverType::NoDriver ==> {
                &&& system::awaits(
                    switcher::switch_drivers(t.take(q), at, s, ty, force),
                    loading(modules_for(ty)),
                )
                &&& replied(t, q, ReplyView::Exit(Ok(ExitStatus::Success)))
            }
            &&& ty == DriverType::Nvidia ==> n == q + 1
            &&& ty == DriverType::Vfio ==> succeeded(gpu::bind_vfio(t, q + 1, gpu), n)
        },
{
    if let Ok((Ok(()), n)) = switcher::switch_drivers(t, at, s, ty, force) {
        lemma_switched_driver(t, at, s, gpu, ty, force);
        let modules = modules_behind(driver_told(t, at));
        let k = modules.len() as int;
        let p = at + 1 + k;
        let q = after_unbinding(p, gpu);
        let u = t.take(q);
        law_driver_is_switched(t, at, s, gpu, ty, force, k);
        lemma_driver_on_prefix(t, at, q, k);
        assert(u[p] == t[p]);
        assert(gpu.audio_pci is Some ==> u[p + 1] == t[p + 1]);
        law_driver_is_switched(u, at, s, gpu, ty, force, k);
    }
}

/// What the replies say of the old driver, a prefix that holds them says too.
proof fn lemma_driver_on_prefix(t: Seq<ReplyView>, at: int, p: int, k: int)
    requires
        0 <= at,
        0 <= k,
        at + 1 + k <= p <= t.len(),
        tells_driver(t, at),
        all_unused(t, at + 1, k),
    ensures
        tells_driver(t.take(p), at),
        driver_told(t.take(p), at) == driver_told(t, at),
        all_unused(t.take(p), at + 1, k),
{
    let u = t.take(p);
    assert(u[at] == t[at]);
    assert forall|j: int| 0 <= j < k implies #[trigger] tells_unused(u, at + 1 + j) by {
        assert(tells_unused(t, at + 1 + j));
        assert(u[at + 1 + j] == t[at + 1 + j]);
    }
}

/// How a device is bound to the pass-through driver: the driver is made to accept the device's
/// vendor and product, which it may know already; then the device is bound, unless it is seen to be.
/// A device whose vendor and product are not known cannot be bound.
pub proof fn law_device_is_bound(t: Seq<ReplyView>, at: int, device: PCIDeviceView)
    requires
        0 <= at,
    ensures
        ({
            let work = pci::bind_vfio(t, at, device);
            let adding = |id: pci::PCIDeviceId| ActionView::Write {
                path: "/sys/bus/pci/drivers/vfio-pci/new_id"@,
                contents: digits::four_digits(id.vendor_id) + " "@ + digits::four_digits(
                    id.product_id,
                ),
            };
            let binding = ActionView::Write {
                path: "/sys/bus/pci/drivers/vfio-pci/bind"@,
                contents: pci::bus_text(device.bus_id),
            };
            &&& device.device_id is None ==> failed(work, BindError::NotConnected, at)
            &&& device.device_id matches Some(id) ==> {
                &&& ends_before(t, at) ==> system::awaits(work, adding(id))
                &&& at < t.len() ==> (t[at] matches ReplyView::Done(Err(e)) ==> (e.kind
                    == IoErrorKind::Other ==> failed(work, BindError::Io(e), at + 1)))
                &&& tells_added(t, at) ==> {
                    &&& ends_before(t, at + 1) ==> system::awaits(
                        work,
                        ActionView::Resolve {
                            path: text::path_in(
                                "/sys/bus/pci/devices/"@ + pci::bus_text(device.bus_id),
                                "driver"@,
                            ),
                        },
                    )
                    &&& tells_driver(t, at + 1) && is_driver(
                        driver_told(t, at + 1),
                        DriverType::Vfio,
                    ) ==> succeeded(work, at + 2)
                    &&& tells_driver(t, at + 1) && !is_driver(
                        driver_told(t, at + 1),
                        DriverType::Vfio,
                    ) ==> {
                        &&& ends_before(t, at + 2) ==> system::awaits(work, binding)
                        &&& at + 2 < t.len() ==> {
                            &&& t[at + 2] matches ReplyView::Done(Ok(())) ==> succeeded(work, at + 3)
                            &&& t[at + 2] matches ReplyView::Done(Err(e)) ==> failed(
                                work,
                                BindError::Io(e),
                                at + 3,
                            )
                        }
                    }
                }
            }
        }),
{
    if let Some(id) = device.device_id {
        reveal_strlit(" ");
        assert(pci::new_id_line(id) =~= digits::four_digits(id.vendor_id) + " "@
            + digits::four_digits(id.product_id));
    }
}

/// Whether the reply at `at` says that the driver accepts the device's vendor and product, now or
/// since before.
pub open spec fn tells_added(t: Seq<ReplyView>, at: int) -> bool {
    0 <= at < t.len() && match t[at] {
        ReplyView::Done(Ok(())) => true,
        ReplyView::Done(Err(e)) => e.kind == IoErrorKind::AlreadyExists,
        _ => false,
    }
}

/// The GPU is bound first, and its sound function after it, if it has one; if the first fails the
/// second is left alone.
pub proof fn law_gpu_is_bound(t: Seq<ReplyView>, at: int, gpu: GpuDeviceView)
    ensures
        ({
            let work = gpu::bind_vfio(t, at, gpu);
            match pci::bind_vfio(t, at, gpu.pci) {
                Err(action) => system::awaits(work, action),
                Ok((Err(e), n)) => failed(work, e, n),
                Ok((Ok(()), n)) => {
                    &&& gpu.audio_pci is None ==> succeeded(work, n)
                    &&& gpu.audio_pci matches Some(audio) ==> work == pci::bind_vfio(t, n, audio)
                },
            }
        }),
{
}

/// A device is taken away from its driver, or out of the kernel's list, by what is written to the
/// device's own files.
pub proof fn law_device_is_let_go(t: Seq<ReplyView>, at: int, bus: PCIBusId)
    requires
        0 <= at,
    ensures
        ({
            let unbind = pci::unbind(t, at, bus);
            let remove = pci::remove(t, at, bus);
            &&& ends_before(t, at) ==> system::awaits(unbind, unbinding(bus))
            &&& ends_before(t, at) ==> system::awaits(
                remove,
                ActionView::Write {
                    path: text::path_in("/sys/bus/pci/devices/"@ + pci::bus_text(bus), "remove"@),
                    contents: "1"@,
                },
            )
            &&& at < t.len() ==> (t[at] matches ReplyView::Done(done) ==> {
                &&& finished(unbind, done, at + 1)
                &&& finished(remove, done, at + 1)
            })
        }),
{
}

/// Taking the GPU away from its driver is tried for its sound function too, whatever came of the
/// first. It fails if and only if it failed for the GPU itself, and then tells of both.
pub proof fn law_gpu_is_let_go(t: Seq<ReplyView>, at: int, gpu: GpuDeviceView)
    requires
        0 <= at,
    ensures
        ({
            let work = gpu::unbind(t, at, gpu);
            let n = after_unbinding(at, gpu);
            &&& ends_before(t, at) ==> system::awaits(work, unbinding(gpu.pci.bus_id))
            &&& at + 1 == t.len() && t[at] is Done ==> (gpu.audio_pci matches Some(audio)
                ==> system::awaits(work, unbinding(audio.bus_id)))
            &&& tells_unbound(t, at, gpu) ==> {
                &&& t[at]->Done_0 is Ok ==> succeeded(work, n)
                &&& t[at] matches ReplyView::Done(Err(e)) ==> {
                    &&& work matches Ok((Err(f), m)) && m == n && f.gpu == e
                    &&& gpu.audio_pci is None ==> work->Ok_0.0->Err_0.audio is None
                    &&& gpu.audio_pci is Some ==> work->Ok_0.0->Err_0.audio == (match t[at
                        + 1]->Done_0 {
                        Ok(()) => None,
                        Err(f) => Some(f),
                    })
                }
            }
        }),
{
}

// Services, configuration, Vulkan driver

/// The vendor's services are stopped or started together, both of them.
pub proof fn law_services_are_switched_together(
    t: Seq<ReplyView>,
    at: int,
    state: ServiceState,
    ty: ServiceType,
)
    requires
        0 <= at,
    ensures
        ({
            let work = switcher::switch_services(t, at, state, ty);
            &&& ends_before(t, at) ==> system::awaits(work, switching_services(state))
            &&& at < t.len() ==> {
                &&& t[at] matches ReplyView::Exit(Ok(ExitStatus::Success)) ==> succeeded(
                    work,
                    at + 1,
                )
                &&& t[at] matches ReplyView::Exit(Ok(ExitStatus::Code(code))) ==> failed(
                    work,
                    SwitchServicesError::ExitCode(code),
                    at + 1,
                )
                &&& t[at] matches ReplyView::Exit(Err(e)) ==> failed(
                    work,
                    SwitchServicesError::Io(e),
                    at + 1,
                )
            }
        }),
{
    assert(seq![switcher::service_verb(state)] + switcher::services(ty)
        =~= switching_services(state)->Run_args);
}

/// How the vendor's services are stopped or started.
pub open spec fn switching_services(state: ServiceState) -> ActionView {
    let verb = match state {
        ServiceState::Stop => "stop"@,
        ServiceState::Start => "start"@,
    };
    ActionView::Run {
        program: "systemctl"@,
        args: seq![verb, "nvidia-persistenced.service"@, "nvidia-powerd.service"@],
    }
}

/// The configuration replaces what its file held.
pub proof fn law_configuration_is_written(t: Seq<ReplyView>, at: int, ty: ModprobeConfType)
    requires
        0 <= at,
    ensures
        ends_before(t, at) ==> system::awaits(
            switcher::write_modprobe(t, at, ty),
            ActionView::Write {
                path: "/etc/modprobe.d/gpu-switcherd.conf"@,
                contents: switcher::modprobe_conf(ty),
            },
        ),
        at < t.len() ==> (t[at] matches ReplyView::Done(done) ==> finished(
            switcher::write_modprobe(t, at, ty),
            done,
            at + 1,
        )),
{
}

/// The Vulkan driver's file is looked for under the name by which it is seen, and then under the
/// other. Where it is not in the state that is asked for, it is renamed, and that has to succeed;
/// where it is, there is nothing to do; and where it is not at all, that is a failure.
pub proof fn law_icd_is_switched(t: Seq<ReplyView>, at: int, new_state: IcdType)
    requires
        0 <= at,
    ensures
        ({
            let seen = "/usr/share/vulkan/icd.d/nvidia_icd.json"@;
            let unseen = "/usr/share/vulkan/icd.d/nvidia_icd.json_inactive"@;
            let work = switcher::switch_icd(t, at, new_state);
            let yes = ReplyView::Present(true);
            let no = ReplyView::Present(false);
            &&& ends_before(t, at) ==> system::awaits(work, ActionView::Exists { path: seen })
            &&& replied(t, at, no) && ends_before(t, at + 1) ==> system::awaits(
                work,
                ActionView::Exists { path: unseen },
            )
            &&& replied(t, at, no) && replied(t, at + 1, no) ==> failed(
                work,
                SwitchIcdError::IcdMissing,
                at + 2,
            )
            &&& replied(t, at, yes) && new_state == IcdType::Active ==> succeeded(work, at + 1)
            &&& replied(t, at, no) && replied(t, at + 1, yes) && new_state == IcdType::Inactive
                ==> succeeded(work, at + 2)
            &&& replied(t, at, yes) && new_state == IcdType::Inactive ==> renamed(
                t,
                at + 1,
                seen,
                unseen,
                work,
            )
            &&& replied(t, at, no) && replied(t, at + 1, yes) && new_state == IcdType::Active
                ==> renamed(t, at + 2, unseen, seen, work)
        }),
{
}

/// Whether the work is done with the renaming that comes at `at`.
pub open spec fn renamed(
    t: Seq<ReplyView>,
    at: int,
    from: Seq<char>,
    to: Seq<char>,
    work: Step<Result<(), SwitchIcdError>>,
) -> bool {
    &&& ends_before(t, at) ==> system::awaits(work, ActionView::Rename { from, to })
    &&& at < t.len() ==> {
        &&& t[at] matches ReplyView::Done(Ok(())) ==> succeeded(work, at + 1)
        &&& t[at] matches ReplyView::Done(Err(e)) ==> failed(
            work,
            SwitchIcdError::Rename(e),
            at + 1,
        )
    }
}

// Power

/// The power of a slot is switched by what is written to the slot's file, a second later. Without a
/// known slot nothing is done.
pub proof fn law_slot_power_is_switched(
    t: Seq<ReplyView>,
    at: int,
    s: GpuSwitcherView,
    ty: HotplugState,
)
    requires
        0 <= at,
        s.hotplug_type == HotplugType::Normal,
    ensures
        ({
            let work = switcher::hotplug_gpu(t, at, s, ty);
            &&& s.gpu is None ==> succeeded(work, at)
            &&& s.gpu matches Some(gpu) ==> {
                &&& gpu.gpu_slot is None ==> succeeded(work, at)
                &&& gpu.gpu_slot matches Some(slot) ==> {
                    &&& ends_before(t, at) ==> system::awaits(
                        work,
                        ActionView::Sleep { millis: 1000 },
                    )
                    &&& replied(t, at, ReplyView::Elapsed) && ends_before(t, at + 1)
                        ==> system::awaits(work, powering(slot, ty))
                    &&& replied(t, at, ReplyView::Elapsed) && at + 1 < t.len() ==> (t[at
                        + 1] matches ReplyView::Done(done) ==> finished(work, done, at + 2))
                }
            }
        }),
{
}

/// How a slot is given power or loses it.
pub open spec fn powering(slot: Seq<char>, ty: HotplugState) -> ActionView {
    ActionView::Write {
        path: text::path_in(slot, "power"@),
        contents: match ty {
            HotplugState::Plug => "1"@,
            HotplugState::Unplug => "0"@,
        },
    }
}

/// Whether a text begins with the digit one.
pub open spec fn begins_with_one(s: Seq<char>) -> bool {
    s.len() > 0 && s[0] == '1'
}

proof fn lemma_begins_with_one(s: Seq<char>)
    ensures
        "1"@.is_prefix_of(s) == begins_with_one(s),
{
    reveal_strlit("1");
    if s.len() > 0 {
        assert(s.subrange(0, 1) =~= seq![s[0]]);
    }
    if begins_with_one(s) {
        assert("1"@ =~= s.subrange(0, 1));
    } else if "1"@.is_prefix_of(s) {
        assert("1"@[0] == s.subrange(0, 1)[0]);
    }
}

/// A slot has power if and only if what its file holds begins with the digit one.
pub proof fn law_slot_power_is_seen(t: Seq<ReplyView>, at: int, s: GpuSwitcherView)
    requires
        0 <= at,
        s.hotplug_type == HotplugType::Normal,
    ensures
        ({
            let work = switcher::get_hotplug_state(t, at, s);
            &&& s.gpu is None ==> failed(work, HotplugStateError::NotFound, at)
            &&& s.gpu matches Some(gpu) ==> {
                &&& gpu.gpu_slot is None ==> failed(work, HotplugStateError::NotFound, at)
                &&& gpu.gpu_slot matches Some(slot) ==> {
                    &&& ends_before(t, at) ==> system::awaits(
                        work,
                        ActionView::Read { path: text::path_in(slot, "power"@) },
                    )
                    &&& at < t.len() ==> {
                        &&& t[at] matches ReplyView::Text(Ok(power)) ==> finished(
                            work,
                            Ok(
                                if begins_with_one(power) {
                                    HotplugState::Plug
                                } else {
                                    HotplugState::Unplug
                                },
                            ),
                            at + 1,
                        )
                        &&& t[at] matches ReplyView::Text(Err(e)) ==> failed(
                            work,
                            HotplugStateError::Io(e),
                            at + 1,
                        )
                    }
                }
            }
        }),
{
    if at < t.len() {
        if let ReplyView::Text(Ok(power)) = t[at] {
            lemma_begins_with_one(power);
        }
    }
}

/// By the platform driver, the GPU is off if and only if what the switch holds begins with the digit
/// one. The switch is read first, and written only if it is not as it should be.
pub proof fn law_platform_power_is_switched_and_seen(
    t: Seq<ReplyView>,
    at: int,
    s: GpuSwitcherView,
    ty: HotplugState,
)
    requires
        0 <= at,
        s.hotplug_type == HotplugType::Asus,
    ensures
        ({
            let file = "/sys/devices/platform/asus-nb-wmi/dgpu_disable"@;
            let work = switcher::hotplug_gpu(t, at, s, ty);
            let seen = switcher::get_hotplug_state(t, at, s);
            let digit = match ty {
                HotplugState::Plug => "0"@,
                HotplugState::Unplug => "1"@,
            };
            &&& work == switcher::hotplug_asus(t, at, ty)
            &&& ends_before(t, at) ==> {
                &&& system::awaits(work, ActionView::Read { path: file })
                &&& system::awaits(seen, ActionView::Read { path: file })
            }
            &&& at < t.len() ==> {
                &&& t[at] matches ReplyView::Text(Err(e)) ==> {
                    &&& failed(work, e, at + 1)
                    &&& failed(seen, HotplugStateError::Io(e), at + 1)
                }
                &&& t[at] matches ReplyView::Text(Ok(disable)) ==> {
                    let state = if begins_with_one(disable) {
                        HotplugState::Unplug
                    } else {
                        HotplugState::Plug
                    };
                    &&& finished(seen, Ok(state), at + 1)
                    &&& state == ty ==> succeeded(work, at + 1)
                    &&& state != ty && ends_before(t, at + 1) ==> system::awaits(
                        work,
                        ActionView::Write { path: file, contents: digit },
                    )
                    &&& state != ty && at + 1 < t.len() ==> (t[at + 1] matches ReplyView::Done(done)
                        ==> finished(work, done, at + 2))
                }
            }
        }),
{
    if at < t.len() {
        if let ReplyView::Text(Ok(disable)) = t[at] {
            lemma_begins_with_one(disable);
        }
    }
}

// Searching

/// The device manager lists a device at the bus id if and only if both its properties are there and
/// can be read, and the first says that it sits at the bus id.
pub proof fn law_listed_device(device: system::UdevDeviceView, bus: PCIBusId, id: pci::PCIDeviceId)
    ensures
        pci::listed_id(device, bus) == Some(id) <==> {
            &&& device.slot_name matches Some(slot_name) && pci::bus_id(slot_name) == Some(bus)
            &&& device.pci_id matches Some(pci_id) && pci::device_id(pci_id) == Some(id)
        },
{
}

/// The device manager is asked once; what fails there is told apart.
pub proof fn law_device_manager_is_asked(t: Seq<ReplyView>, at: int, bus: PCIBusId, id: pci::PCIDeviceId)
    requires
        0 <= at,
    ensures
        ({
            let work = pci::find_udev(t, at, bus);
            &&& ends_before(t, at) ==> system::awaits(work, ActionView::ScanPci)
            &&& at < t.len() ==> {
                &&& t[at] matches ReplyView::Devices(Err(e)) ==> failed(
                    work,
                    match e {
                        system::PCIEnumerationError::Udev(e) => PCIFindDeviceErrorView::Udev(e),
                        system::PCIEnumerationError::Subsystem(e) => {
                            PCIFindDeviceErrorView::Subsystem(e)
                        },
                        system::PCIEnumerationError::DeviceScan(e) => {
                            PCIFindDeviceErrorView::DeviceScan(e)
                        },
                    },
                    at + 1,
                )
                &&& t[at] matches ReplyView::Devices(Ok(devices)) ==> {
                    &&& pci::first_listed_id(devices, bus) == Some(id) ==> finished(
                        work,
                        Ok(PCIDeviceView { bus_id: bus, device_id: Some(id), slot: None }),
                        at + 1,
                    )
                    &&& pci::first_listed_id(devices, bus) is None ==> failed(
                        work,
                        PCIFindDeviceErrorView::DeviceNotFound,
                        at + 1,
                    )
                }
            }
        }),
{
}

/// A device is looked for in the slots first. If one has it, the device is found, with that slot and
/// with what the device manager lists of it, if anything. If none has it, the device manager alone
/// decides.
pub proof fn law_device_is_looked_for(t: Seq<ReplyView>, at: int, bus: PCIBusId)
    requires
        0 <= at,
    ensures
        ({
            let work = pci::find_device(t, at, bus);
            &&& ends_before(t, at) ==> system::awaits(
                work,
                ActionView::List { path: "/sys/bus/pci/slots"@ },
            )
            &&& at < t.len() ==> {
                &&& t[at] matches ReplyView::Names(Err(e)) ==> failed(
                    work,
                    PCIFindDeviceErrorView::SlotEnumeration(e),
                    at + 1,
                )
                &&& t[at] matches ReplyView::Names(Ok(names)) ==> match pci::find_slot(
                    t,
                    at + 1,
                    bus,
                    names,
                    0,
                ) {
                    Err(action) => system::awaits(work, action),
                    Ok((Err(SlotSearchErrorView::AddressFetch(e)), n)) => failed(
                        work,
                        PCIFindDeviceErrorView::SlotAddressFetch(e),
                        n,
                    ),
                    Ok((Err(SlotSearchErrorView::InvalidAddress(slot)), n)) => failed(
                        work,
                        PCIFindDeviceErrorView::InvalidSlotAddress(slot),
                        n,
                    ),
                    Ok((Ok(None), n)) => work == pci::find_udev(t, n, bus),
                    Ok((Ok(Some(slot)), n)) => {
                        let listed = pci::find_udev(t, n, bus);
                        &&& listed matches Err(action) ==> system::awaits(work, action)
                        &&& listed matches Ok((result, m)) ==> {
                            &&& work matches Ok((Ok(device), l)) && l == m && device.bus_id == bus
                                && device.slot == Some(slot)
                            &&& result is Err ==> work->Ok_0.0->Ok_0.device_id is None
                            &&& result matches Ok(other) ==> work->Ok_0.0->Ok_0.device_id
                                == other.device_id
                        }
                    },
                }
            }
        }),
{
}

/// A GPU is described by the sound function next to it, if that is found; by its device nodes, if
/// they can be listed; and by the slot that has its address, if one has. A node whose number cannot
/// be read, and slots that cannot be searched, make that fail.
pub proof fn law_gpu_is_described(t: Seq<ReplyView>, at: int, device: PCIDeviceView)
    requires
        0 <= at,
    ensures
        ({
            let work = gpu::describe(t, at, device);
            let next = PCIBusId { function: 1, ..device.bus_id };
            match pci::find_device(t, at, next) {
                Err(action) => system::awaits(work, action),
                Ok((audio, n)) => {
                    &&& ends_before(t, n) ==> system::awaits(
                        work,
                        ActionView::List {
                            path: text::path_in(
                                "/sys/bus/pci/devices/"@ + pci::bus_text(device.bus_id),
                                "drm"@,
                            ),
                        },
                    )
                    &&& 0 <= n < t.len() ==> (t[n] matches ReplyView::Names(listed) ==> {
                        let names = match listed {
                            Ok(names) => names,
                            Err(_) => Seq::empty(),
                        };
                        match gpu::drm_nodes(names) {
                            Err(e) => failed(work, e, n + 1),
                            Ok((cards, renders)) => {
                                &&& ends_before(t, n + 1) ==> system::awaits(
                                    work,
                                    ActionView::List { path: "/sys/bus/pci/slots"@ },
                                )
                                &&& n + 1 < t.len() ==> {
                                    &&& t[n + 1] matches ReplyView::Names(Err(e)) ==> failed(
                                        work,
                                        GpuDeviceCreationErrorView::SlotEnumeration(e),
                                        n + 2,
                                    )
                                    &&& t[n + 1] matches ReplyView::Names(Ok(slots))
                                        ==> match pci::find_slot(
                                        t,
                                        n + 2,
                                        device.bus_id,
                                        slots,
                                        0,
                                    ) {
                                        Err(action) => system::awaits(work, action),
                                        Ok((Err(SlotSearchErrorView::AddressFetch(e)), m)) => failed(
                                            work,
                                            GpuDeviceCreationErrorView::SlotAddressFetch(e),
                                            m,
                                        ),
                                        Ok(
                                            (Err(SlotSearchErrorView::InvalidAddress(slot)), m),
                                        ) => failed(
                                            work,
                                            GpuDeviceCreationErrorView::InvalidSlotAddress(slot),
                                            m,
                                        ),
                                        Ok((Ok(slot), m)) => {
                                            &&& work matches Ok((Ok(gpu), l)) && l == m && gpu.pci
                                                == device && gpu.cards == cards
                                                && gpu.render_devices == renders && gpu.gpu_slot
                                                == slot
                                            &&& audio is Err ==> work->Ok_0.0->Ok_0.audio_pci is None
                                            &&& audio matches Ok(found)
                                                ==> work->Ok_0.0->Ok_0.audio_pci == Some(found)
                                        },
                                    }
                                }
                            },
                        }
                    })
                },
            }
        }),
{
}

/// The device nodes of two lists are those of the first and then those of the second; a name that
/// cannot be read makes the whole unreadable, and of several the first is told.
pub proof fn law_nodes_are_read_in_order(a: Seq<Seq<char>>, b: Seq<Seq<char>>)
    ensures
        gpu::drm_nodes(a) matches Err(e) ==> gpu::drm_nodes(a + b) == Err::<
            (Seq<u8>, Seq<u8>),
            GpuDeviceCreationErrorView,
        >(e),
        gpu::drm_nodes(a) is Ok ==> (gpu::drm_nodes(b) matches Err(e) ==> gpu::drm_nodes(a + b)
            == Err::<(Seq<u8>, Seq<u8>), GpuDeviceCreationErrorView>(e)),
        gpu::drm_nodes(a) matches Ok((cards, renders)) ==> (gpu::drm_nodes(b) matches Ok(
            (more_cards, more_renders),
        ) ==> gpu::drm_nodes(a + b) == Ok::<(Seq<u8>, Seq<u8>), GpuDeviceCreationErrorView>(
            (cards + more_cards, renders + more_renders),
        )),
    decreases b.len(),
{
    if b.len() == 0 {
        assert(a + b =~= a);
        if let Ok((cards, renders)) = gpu::drm_nodes(a) {
            assert(cards + Seq::<u8>::empty() =~= cards);
            assert(renders + Seq::<u8>::empty() =~= renders);
        }
    } else {
        assert((a + b).drop_last() =~= a + b.drop_last());
        assert((a + b).last() == b.last());
        law_nodes_are_read_in_order(a, b.drop_last());
        if let Ok((cards, renders)) = gpu::drm_nodes(a) {
            if let Ok((c, r)) = gpu::drm_nodes(b.drop_last()) {
                if let Ok(gpu::DrmNode::Card(n)) = gpu::drm_node(b.last()) {
                    assert((cards + c).push(n) =~= cards + c.push(n));
                }
                if let Ok(gpu::DrmNode::RenderDevice(n)) = gpu::drm_node(b.last()) {
                    assert((renders + r).push(n) =~= renders + r.push(n));
                }
            }
        }
    }
}

/// One name stands for a card if it is `card` with a number behind it that fits in a byte, for a
/// render device if it is `renderD` with such a number, and otherwise for nothing, unless it begins
/// so and cannot be read.
pub proof fn law_one_node_is_read(name: Seq<char>, number: Seq<char>)
    ensures
        ({
            let read = gpu::drm_nodes(seq![name]);
            let n = digits::number(number, 255);
            &&& name == "card"@ + number ==> {
                &&& n matches Some(n) ==> read == Ok::<
                    (Seq<u8>, Seq<u8>),
                    GpuDeviceCreationErrorView,
                >((seq![n as u8], Seq::empty()))
                &&& n is None ==> read == Err::<(Seq<u8>, Seq<u8>), GpuDeviceCreationErrorView>(
                    GpuDeviceCreationErrorView::InvalidCardNumber(name),
                )
            }
            &&& name == "renderD"@ + number ==> {
                &&& n matches Some(n) ==> read == Ok::<
                    (Seq<u8>, Seq<u8>),
                    GpuDeviceCreationErrorView,
                >((Seq::empty(), seq![n as u8]))
                &&& n is None ==> read == Err::<(Seq<u8>, Seq<u8>), GpuDeviceCreationErrorView>(
                    GpuDeviceCreationErrorView::InvalidRenderDeviceNumber(name),
                )
            }
            &&& !"card"@.is_prefix_of(name) && !"renderD"@.is_prefix_of(name) ==> read == Ok::<
                (Seq<u8>, Seq<u8>),
                GpuDeviceCreationErrorView,
            >((Seq::empty(), Seq::empty()))
        }),
{
    reveal_strlit("card");
    reveal_strlit("renderD");
    reveal_with_fuel(gpu::drm_nodes, 2);
    assert(seq![name].drop_last() =~= Seq::<Seq<char>>::empty());
    if name == "card"@ + number {
        assert("card"@ =~= name.subrange(0, 4));
        assert(name.skip(4) =~= number);
    }
    if name == "renderD"@ + number {
        assert(name[0] == 'r');
        assert(name.subrange(0, 4)[0] == 'r');
        assert("card"@[0] == 'c');
        assert("renderD"@ =~= name.subrange(0, 7));
        assert(name.skip(7) =~= number);
    }
    assert(Seq::<u8>::empty().push(0u8).len() == 1);
    if let Some(n) = digits::number(number, 255) {
        assert(Seq::<u8>::empty().push(n as u8) =~= seq![n as u8]);
    }
}

/// A search for the GPU has the kernel look for devices first. It finds the GPU if it can be found
/// and described. If not, that is a failure in the modes that need it; otherwise there is none.
pub proof fn law_gpu_is_looked_for(t: Seq<ReplyView>, at: int, bus: PCIBusId, mode: GpuMode)
    requires
        0 <= at,
    ensures
        ({
            let work = switcher::rescan_pci(t, at, bus, mode);
            let needed = mode == GpuMode::Nvidia || mode == GpuMode::Vfio;
            &&& ends_before(t, at) ==> system::awaits(
                work,
                ActionView::Write { path: "/sys/bus/pci/rescan"@, contents: "1"@ },
            )
            &&& at < t.len() ==> {
                &&& t[at] matches ReplyView::Done(Err(e)) ==> failed(
                    work,
                    RescanPCIErrorView::Rescan(e),
                    at + 1,
                )
                &&& t[at] matches ReplyView::Done(Ok(())) ==> match pci::find_device(
                    t,
                    at + 1,
                    bus,
                ) {
                    Err(action) => system::awaits(work, action),
                    Ok((Err(e), n)) => if needed {
                        failed(work, RescanPCIErrorView::GpuNotFound(e), n)
                    } else {
                        finished(work, Ok(None), n)
                    },
                    Ok((Ok(device), n)) => match gpu::describe(t, n, device) {
                        Err(action) => system::awaits(work, action),
                        Ok((Err(e), m)) => if needed {
                            failed(work, RescanPCIErrorView::GpuCreation(e), m)
                        } else {
                            finished(work, Ok(None), m)
                        },
                        Ok((Ok(gpu), m)) => finished(work, Ok(Some(gpu)), m),
                    },
                }
            }
        }),
{
}

/// A switcher starts for the device at the configured path, if that is one. It knows the GPU if it
/// is found, and does not start if the GPU is found but cannot be described.
pub proof fn law_switcher_starts(t: Seq<ReplyView>, at: int, device_path: Seq<char>)
    ensures
        ({
            let work = switcher::start(t, at, device_path);
            match pci::bus_id(device_path) {
                None => failed(work, switcher::StartErrorView::InvalidDevicePath, at),
                Some(bus) => match pci::find_device(t, at, bus) {
                    Err(action) => system::awaits(work, action),
                    Ok((Err(_), n)) => work matches Ok((Ok(s), m)) && m == n && s.bus_id == bus
                        && s.gpu is None && s.hotplug_type == HotplugType::Normal,
                    Ok((Ok(device), n)) => match gpu::describe(t, n, device) {
                        Err(action) => system::awaits(work, action),
                        Ok((Err(e), m)) => failed(
                            work,
                            switcher::StartErrorView::GpuCreation(e),
                            m,
                        ),
                        Ok((Ok(gpu), m)) => work matches Ok((Ok(s), l)) && l == m && s.bus_id == bus
                            && s.gpu == Some(gpu) && s.hotplug_type == HotplugType::Normal,
                    },
                },
            }
        }),
{
}

} // verus!
