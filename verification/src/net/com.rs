//! Interrupts of the controller that runs the wireless network.

use crate::net::dns::Ipv4Conf;
use vstd::prelude::*;

verus! {

/// What an interrupt is about.
#[derive(Clone, Copy, Debug, PartialEq, Eq, Structural)]
pub enum ComIntSources {
    /// The battery is nearly empty.
    BatteryCritical,
    /// The network has handed out a configuration.
    WlanIpConfigUpdate,
    /// A packet has come in.
    WlanRxReady,
    /// A scan for networks has ended.
    WlanSsidScanDone,
    /// The list of interrupts could not be read.
    Invalid,
    /// Any other source.
    Other,
}

/// What to do about an interrupt.
#[derive(Clone, Copy, Debug, PartialEq, Eq, Structural)]
pub enum ComAction {
    /// Report that the list of interrupts could not be read.
    ReportVectorError,
    /// Warn of the empty battery.
    WarnBattery,
    /// Fetch the configuration, and set up the interface by it.
    Reconfigure,
    /// Tell the interface that a packet of this length waits.
    PushRx(u16),
    /// Let the network stack work.
    Pump,
    /// Report a packet without a length.
    ReportNoLength,
    /// Note that a scan has ended.
    NoteScanDone,
    /// Report an interrupt that is not supported.
    ReportUnknown,
}

/// The length of the network part of an address.
pub const PREFIX_LEN: u8 = 24;

/// How the interface is to be set up.
#[derive(Clone, Copy, Debug)]
pub struct InterfaceSetup {
    pub mac: [u8; 6],
    pub addr: [u8; 4],
    /// The length of the network part of the address.
    pub prefix_len: u8,
    /// The router of the default route.
    pub gateway: [u8; 4],
}

/// What to do about one interrupt, given whether a configuration is there.
pub open spec fn source_actions(
    source: ComIntSources,
    configured: bool,
    rxlen: Option<u16>,
) -> Seq<ComAction> {
    match source {
        ComIntSources::BatteryCritical => seq![ComAction::WarnBattery],
        ComIntSources::WlanIpConfigUpdate => seq![ComAction::Reconfigure],
        ComIntSources::WlanRxReady => if !configured {
            seq![]
        } else {
            match rxlen {
                Some(len) => seq![ComAction::PushRx(len), ComAction::Pump],
                None => seq![ComAction::ReportNoLength],
            }
        },
        ComIntSources::WlanSsidScanDone => seq![ComAction::NoteScanDone],
        _ => seq![ComAction::ReportUnknown],
    }
}

/// Whether a configuration is there once `list` has been gone through.
pub open spec fn configured_after(list: Seq<ComIntSources>, configured: bool) -> bool {
    configured || list.contains(ComIntSources::WlanIpConfigUpdate)
}

/// What to do about the interrupts in `list`, one after the other.
pub open spec fn list_actions(
    list: Seq<ComIntSources>,
    configured: bool,
    rxlen: Option<u16>,
) -> Seq<ComAction>
    decreases list.len(),
{
    if list.len() == 0 {
        seq![]
    } else {
        list_actions(list.drop_last(), configured, rxlen) + source_actions(
            list.last(),
            configured_after(list.drop_last(), configured),
            rxlen,
        )
    }
}

/// The reports for the entries of `list` that could not be read, which come before all else.
pub open spec fn vector_errors(list: Seq<ComIntSources>) -> Seq<ComAction>
    decreases list.len(),
{
    if list.len() == 0 {
        seq![]
    } else if list.last() is Invalid {
        vector_errors(list.drop_last()).push(ComAction::ReportVectorError)
    } else {
        vector_errors(list.drop_last())
    }
}

/// The interrupts to enable.
pub fn enabled_interrupts() -> (list: [ComIntSources; 3])
    ensures
        list@ == seq![
            ComIntSources::WlanIpConfigUpdate,
            ComIntSources::WlanRxReady,
            ComIntSources::BatteryCritical,
        ],
{
    [
        ComIntSources::WlanIpConfigUpdate,
        ComIntSources::WlanRxReady,
        ComIntSources::BatteryCritical,
    ]
}

/// What to do, in order, about the interrupts that have come in. `configured` tells whether there
/// is a configuration, and `rxlen` is the length of the packet that waits.
pub fn interrupt_actions(list: &Vec<ComIntSources>, configured: bool, rxlen: Option<u16>) -> (
    actions: Vec<ComAction>)
    ensures
        actions@ == vector_errors(list@) + list_actions(list@, configured, rxlen),
{
    let mut actions: Vec<ComAction> = Vec::new();
    let n: usize = list.len();
    let mut i: usize = 0;
    while i < n
        invariant
            i <= n,
            n == list@.len(),
            actions@ == vector_errors(list@.take(i as int)),
        decreases n - i,
    {
        assert(list@.take(i + 1).drop_last() =~= list@.take(i as int));
        if list[i] == ComIntSources::Invalid {
            actions.push(ComAction::ReportVectorError);
        }
        i = i + 1;
    }
    assert(list@.take(n as int) =~= list@);
    let mut config: bool = configured;
    let mut k: usize = 0;
    while k < n
        invariant
            k <= n,
            n == list@.len(),
            config == configured_after(list@.take(k as int), configured),
            actions@ == vector_errors(list@) + list_actions(
                list@.take(k as int),
                configured,
                rxlen,
            ),
        decreases n - k,
    {
        let ghost before = actions@;
        let ghost front = list@.take(k as int);
        let ghost longer = list@.take(k + 1);
        let ghost known = config;
        assert(longer.drop_last() =~= front);
        match list[k] {
            ComIntSources::BatteryCritical => actions.push(ComAction::WarnBattery),
            ComIntSources::WlanIpConfigUpdate => {
                config = true;
                actions.push(ComAction::Reconfigure);
            },
            ComIntSources::WlanRxReady => {
                if config {
                    match rxlen {
                        Some(len) => {
                            actions.push(ComAction::PushRx(len));
                            actions.push(ComAction::Pump);
                        },
                        None => actions.push(ComAction::ReportNoLength),
                    }
                }
            },
            ComIntSources::WlanSsidScanDone => actions.push(ComAction::NoteScanDone),
            _ => actions.push(ComAction::ReportUnknown),
        }
        assert(actions@ =~= before + source_actions(longer.last(), known, rxlen));
        assert(longer =~= front.push(list@[k as int]));
        proof {
            lemma_contains_push(front, list@[k as int], ComIntSources::WlanIpConfigUpdate);
        }
        assert(before + source_actions(longer.last(), known, rxlen) =~= vector_errors(list@)
            + list_actions(longer, configured, rxlen));
        k = k + 1;
    }
    actions
}

proof fn lemma_contains_push(s: Seq<ComIntSources>, last: ComIntSources, x: ComIntSources)
    ensures
        s.push(last).contains(x) <==> s.contains(x) || last == x,
{
    if s.contains(x) {
        let i = choose|i: int| 0 <= i < s.len() && s[i] == x;
        assert(s.push(last)[i] == x);
    }
    assert(s.push(last)[s.len() as int] == last);
}

/// How to set up the interface by a configuration.
pub fn interface_setup(config: &Ipv4Conf) -> (setup: InterfaceSetup)
    ensures
        setup.mac == config.mac,
        setup.addr == config.addr,
        setup.prefix_len == PREFIX_LEN,
        setup.gateway == config.gtwy,
{
    InterfaceSetup {
        mac: config.mac,
        addr: config.addr,
        prefix_len: PREFIX_LEN,
        gateway: config.gtwy,
    }
}

/// Makes `cidr` the first of the addresses of an interface, in place of the one that was there.
pub fn set_ipv4_addr<T>(addrs: &mut [T], cidr: T)
    requires
        old(addrs)@.len() > 0,
    ensures
        final(addrs)@ == old(addrs)@.update(0, cidr),
{
    addrs[0] = cidr;
}

/// Without a configuration no packet is taken, whatever interrupts come in besides one.
pub proof fn law_no_packets_without_config(
    list: Seq<ComIntSources>,
    rxlen: Option<u16>,
    action: ComAction,
)
    requires
        !list.contains(ComIntSources::WlanIpConfigUpdate),
        list_actions(list, false, rxlen).contains(action),
    ensures
        !(action is PushRx),
        action != ComAction::Pump,
        action != ComAction::Reconfigure,
    decreases list.len(),
{
    if list.len() > 0 {
        let front = list.drop_last();
        assert(!front.contains(ComIntSources::WlanIpConfigUpdate)) by {
            if front.contains(ComIntSources::WlanIpConfigUpdate) {
                let i = choose|i: int|
                    0 <= i < front.len() && front[i] == ComIntSources::WlanIpConfigUpdate;
                assert(list[i] == ComIntSources::WlanIpConfigUpdate);
            }
        }
        assert(list.last() != ComIntSources::WlanIpConfigUpdate);
        let all = list_actions(list, false, rxlen);
        let head = list_actions(front, false, rxlen);
        let i = choose|i: int| 0 <= i < all.len() && all[i] == action;
        if i < head.len() {
            assert(head[i] == action);
            law_no_packets_without_config(front, rxlen, action);
        } else {
            assert(source_actions(list.last(), false, rxlen)[i - head.len()] == action);
        }
    }
}

/// With a configuration every packet of known length is handed on and followed by work of the
/// network stack, and nothing else starts that work.
pub proof fn law_every_packet_pumps(list: Seq<ComIntSources>, len: u16, i: int)
    requires
        0 <= i < list_actions(list, true, Some(len)).len(),
    ensures
        ({
            let actions = list_actions(list, true, Some(len));
            &&& actions[i] is PushRx ==> actions[i] == ComAction::PushRx(len) && i + 1
                < actions.len() && actions[i + 1] == ComAction::Pump
            &&& actions[i] == ComAction::Pump ==> i > 0 && actions[i - 1] == ComAction::PushRx(len)
        }),
    decreases list.len(),
{
    if list.len() > 0 {
        let head = list_actions(list.drop_last(), true, Some(len));
        let tail = source_actions(list.last(), true, Some(len));
        let actions = list_actions(list, true, Some(len));
        assert(actions == head + tail);
        if i < head.len() {
            law_every_packet_pumps(list.drop_last(), len, i);
        }
    }
}

/// The interrupts of a list are dealt with one after the other: what is done about two lists in a row
/// is what is done about the first and then about the second, which finds a configuration where
/// there was one or the first list brought one.
pub proof fn law_interrupts_are_handled_in_order(
    first: Seq<ComIntSources>,
    second: Seq<ComIntSources>,
    configured: bool,
    rxlen: Option<u16>,
)
    ensures
        list_actions(first + second, configured, rxlen) == list_actions(first, configured, rxlen)
            + list_actions(
            second,
            configured || (exists|i: int|
                0 <= i < first.len() && #[trigger] first[i] == ComIntSources::WlanIpConfigUpdate),
            rxlen,
        ),
        vector_errors(first + second) == vector_errors(first) + vector_errors(second),
        list_actions(Seq::empty(), configured, rxlen).len() == 0,
        vector_errors(Seq::empty()).len() == 0,
    decreases second.len(),
{
    let update = ComIntSources::WlanIpConfigUpdate;
    let later = configured || (exists|i: int|
        0 <= i < first.len() && #[trigger] first[i] == update);
    assert(later == configured_after(first, configured)) by {
        if first.contains(update) {
            let i = choose|i: int| 0 <= i < first.len() && first[i] == update;
            assert(first[i] == update);
        }
    }
    if second.len() == 0 {
        assert(first + second =~= first);
    } else {
        let front = second.drop_last();
        law_interrupts_are_handled_in_order(first, front, configured, rxlen);
        assert((first + second).drop_last() =~= first + front);
        assert((first + second).last() == second.last());
        lemma_contains_concat(first, front, update);
        assert(configured_after(first + front, configured) == configured_after(front, later));
        assert(list_actions(first + second, configured, rxlen) =~= list_actions(
            first,
            configured,
            rxlen,
        ) + list_actions(second, later, rxlen));
        assert(vector_errors(first + second) =~= vector_errors(first) + vector_errors(second));
    }
}

proof fn lemma_contains_concat(a: Seq<ComIntSources>, b: Seq<ComIntSources>, x: ComIntSources)
    ensures
        (a + b).contains(x) <==> a.contains(x) || b.contains(x),
{
    if a.contains(x) {
        let i = choose|i: int| 0 <= i < a.len() && a[i] == x;
        assert((a + b)[i] == x);
    }
    if b.contains(x) {
        let i = choose|i: int| 0 <= i < b.len() && b[i] == x;
        assert((a + b)[a.len() + i] == x);
    }
    if (a + b).contains(x) {
        let i = choose|i: int| 0 <= i < (a + b).len() && (a + b)[i] == x;
        if i < a.len() {
            assert(a[i] == x);
        } else {
            assert(b[i - a.len()] == x);
        }
    }
}

/// What is done about a single interrupt. A packet of any length is handed on, followed by work of
/// the network stack, where there is a configuration; one without a length is reported; without a
/// configuration nothing is done. Each other interrupt has one action of its own.
pub proof fn law_single_interrupt(
    source: ComIntSources,
    configured: bool,
    rxlen: Option<u16>,
    len: u16,
)
    ensures
        ({
            let actions = list_actions(seq![source], configured, rxlen);
            let errors = vector_errors(seq![source]);
            &&& source is WlanRxReady && !configured ==> actions.len() == 0
            &&& source is WlanRxReady && configured && rxlen == Some(len) ==> actions.len() == 2
                && actions[0] == ComAction::PushRx(len) && actions[1] == ComAction::Pump
            &&& source is WlanRxReady && configured && rxlen is None ==> actions.len() == 1
                && actions[0] == ComAction::ReportNoLength
            &&& !(source is WlanRxReady) ==> actions.len() == 1
            &&& source is BatteryCritical ==> actions[0] == ComAction::WarnBattery
            &&& source is WlanIpConfigUpdate ==> actions[0] == ComAction::Reconfigure
            &&& source is WlanSsidScanDone ==> actions[0] == ComAction::NoteScanDone
            &&& source is Invalid || source is Other ==> actions[0] == ComAction::ReportUnknown
            &&& source is Invalid ==> errors.len() == 1 && errors[0]
                == ComAction::ReportVectorError
            &&& !(source is Invalid) ==> errors.len() == 0
        }),
{
    reveal_with_fuel(list_actions, 2);
    reveal_with_fuel(vector_errors, 2);
    assert(seq![source].drop_last() =~= Seq::empty());
    assert(seq![source].last() == source);
    let actions = list_actions(seq![source], configured, rxlen);
    assert(actions =~= source_actions(source, configured, rxlen));
}

/// The number of entries of a list of interrupts that are packets and come when there is a
/// configuration.
pub open spec fn packets_with_config(list: Seq<ComIntSources>, configured: bool) -> nat
    decreases list.len(),
{
    if list.len() == 0 {
        0
    } else {
        let rest = list.skip(1);
        let now: nat = if list[0] is WlanRxReady && configured {
            1
        } else {
            0
        };
        now + packets_with_config(rest, configured || list[0] is WlanIpConfigUpdate)
    }
}

/// The number of times that an action is taken.
pub open spec fn times_taken(actions: Seq<ComAction>, action: ComAction) -> nat
    decreases actions.len(),
{
    if actions.len() == 0 {
        0
    } else {
        times_taken(actions.skip(1), action) + if actions[0] == action {
            1nat
        } else {
            0nat
        }
    }
}

/// Every packet that comes when there is a configuration is handed on once, whatever its length,
/// and the network stack works once for it. Where the length is not known, each is reported once
/// instead.
pub proof fn law_every_packet_is_handed_on(
    list: Seq<ComIntSources>,
    configured: bool,
    len: u16,
    other: u16,
)
    ensures
        ({
            let known = list_actions(list, configured, Some(len));
            let unknown = list_actions(list, configured, None);
            let packets = packets_with_config(list, configured);
            &&& times_taken(known, ComAction::PushRx(len)) == packets
            &&& times_taken(known, ComAction::Pump) == packets
            &&& times_taken(known, ComAction::ReportNoLength) == 0
            &&& other != len ==> times_taken(known, ComAction::PushRx(other)) == 0
            &&& times_taken(unknown, ComAction::ReportNoLength) == packets
            &&& times_taken(unknown, ComAction::PushRx(other)) == 0
            &&& times_taken(unknown, ComAction::Pump) == 0
        }),
    decreases list.len(),
{
    if list.len() > 0 {
        let head = seq![list[0]];
        let rest = list.skip(1);
        let later = configured || list[0] is WlanIpConfigUpdate;
        law_every_packet_is_handed_on(rest, later, len, other);
        assert(head + rest =~= list);
        assert(head[0] == list[0]);
        lemma_first_then_rest(list, configured, Some(len));
        lemma_first_then_rest(list, configured, None);
        let a = list_actions(head, configured, Some(len));
        let b = list_actions(rest, later, Some(len));
        let c = list_actions(head, configured, None);
        let d = list_actions(rest, later, None);
        law_single_interrupt(list[0], configured, Some(len), len);
        law_single_interrupt(list[0], configured, None, len);
        lemma_times_concat(a, b, ComAction::PushRx(len));
        lemma_times_concat(a, b, ComAction::PushRx(other));
        lemma_times_concat(a, b, ComAction::Pump);
        lemma_times_concat(a, b, ComAction::ReportNoLength);
        lemma_times_concat(c, d, ComAction::PushRx(other));
        lemma_times_concat(c, d, ComAction::Pump);
        lemma_times_concat(c, d, ComAction::ReportNoLength);
        reveal_with_fuel(times_taken, 3);
    } else {
        assert(list =~= Seq::empty());
    }
}

proof fn lemma_first_then_rest(list: Seq<ComIntSources>, configured: bool, rxlen: Option<u16>)
    requires
        list.len() > 0,
    ensures
        list_actions(list, configured, rxlen) == list_actions(seq![list[0]], configured, rxlen)
            + list_actions(
            list.skip(1),
            configured || list[0] is WlanIpConfigUpdate,
            rxlen,
        ),
{
    let head = seq![list[0]];
    law_interrupts_are_handled_in_order(head, list.skip(1), configured, rxlen);
    assert(head + list.skip(1) =~= list);
    assert(head[0] == list[0]);
}

proof fn lemma_times_concat(a: Seq<ComAction>, b: Seq<ComAction>, action: ComAction)
    ensures
        times_taken(a + b, action) == times_taken(a, action) + times_taken(b, action),
    decreases a.len(),
{
    if a.len() == 0 {
        assert(a + b =~= b);
    } else {
        assert((a + b).skip(1) =~= a.skip(1) + b);
        lemma_times_concat(a.skip(1), b, action);
    }
}

} // verus!
