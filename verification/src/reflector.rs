//! What the reflector does with each packet.
//!
//! The reflector alternates between work on sockets and decisions. The decisions
//! are here: [`reflect`] takes where the reflector stands and what has just
//! happened, and says what is to be done next.

use vstd::prelude::*;

use crate::address::{
    masked_alike_where_the_bits_agree, mdns_addr, octets_agree, unspecified,
    unspecified_mask_keeps_nothing, Ipv4Address, MDNS_PORT,
};
use crate::sockets::InterfaceSocket;

verus! {

/// The size of the buffer that packets are received in.
pub const PACKET_SIZE: usize = 65536;

/// Who sent a packet.
#[derive(Clone, Copy, Debug, PartialEq, Eq, Structural)]
pub enum Sender {
    /// A host with an address of the fourth version.
    V4(Ipv4Address),
    /// A host with an address of the sixth version.
    V6,
}

/// Where the reflector stands.
#[derive(Clone, Copy, Debug, PartialEq, Eq, Structural)]
pub enum ReflectState {
    /// It waits for a packet.
    Receiving,
    /// It is repeating a packet, at present to the interface `current`.
    Sending { from: Sender, size: usize, current: usize },
    /// It has ended.
    Stopped,
}

/// What has just happened.
#[derive(Clone, Copy, Debug, PartialEq, Eq, Structural)]
pub enum ReflectEvent {
    /// The reflector was told to end while it waited.
    Cancelled,
    /// Receiving failed.
    RecvFailed,
    /// A packet of `size` bytes came.
    Received { from: Sender, size: usize },
    /// Some bytes of the packet were sent.
    Sent { size: usize },
    /// Sending failed.
    SendFailed,
}

/// What is to be done next.
#[derive(Clone, Copy, Debug, PartialEq, Eq, Structural)]
pub enum ReflectAction {
    /// Wait for a packet, or for the word to end.
    Receive,
    /// Send the first `size` bytes of the buffer through the socket of that index, to
    /// that group and port.
    Send { socket: usize, size: usize, group: Ipv4Address, port: u16 },
    /// End.
    Stop,
}

/// What went wrong.
#[derive(Clone, Copy, Debug, PartialEq, Eq, Structural)]
pub enum ReflectFault {
    /// Receiving failed.
    Recv,
    /// Fewer or more bytes were sent than the packet has.
    SizeDiffers { expected: usize, sent: usize },
    /// Sending failed.
    Send,
}

/// Whether a packet comes from one of the interfaces themselves.
pub open spec fn is_own_address(sockets: Seq<InterfaceSocket>, from: Sender) -> bool {
    exists|i: int| 0 <= i < sockets.len() && from == Sender::V4((#[trigger] sockets[i]).address)
}

/// Whether a packet comes from the network of an interface.
pub open spec fn is_same_network(socket: InterfaceSocket, from: Sender) -> bool {
    match from {
        Sender::V4(address) => address.masked_by(socket.mask) == socket.network,
        Sender::V6 => false,
    }
}

/// The first interface, from `start` on, that is not on the sender's network.
pub open spec fn next_target(sockets: Seq<InterfaceSocket>, from: Sender, start: int) -> Option<int>
    decreases sockets.len() - start,
{
    if start >= sockets.len() {
        None
    } else if is_same_network(sockets[start], from) {
        next_target(sockets, from, start + 1)
    } else {
        Some(start)
    }
}

/// The interfaces, from `start` on, that are not on the sender's network.
pub open spec fn targets_from(sockets: Seq<InterfaceSocket>, from: Sender, start: int) -> Seq<int>
    decreases sockets.len() - start,
{
    if start >= sockets.len() {
        Seq::empty()
    } else if is_same_network(sockets[start], from) {
        targets_from(sockets, from, start + 1)
    } else {
        seq![start] + targets_from(sockets, from, start + 1)
    }
}

/// The interfaces that a packet is repeated to.
pub open spec fn targets(sockets: Seq<InterfaceSocket>, from: Sender) -> Seq<int> {
    if is_own_address(sockets, from) {
        Seq::empty()
    } else {
        targets_from(sockets, from, 0)
    }
}

/// Whether an event can happen where the reflector stands.
pub open spec fn can_happen(state: ReflectState, event: ReflectEvent) -> bool {
    match state {
        ReflectState::Receiving => event is Cancelled || event is RecvFailed || event is Received,
        ReflectState::Sending { .. } => event is Sent || event is SendFailed,
        ReflectState::Stopped => false,
    }
}

/// Sending a packet through a socket, to all who listen for multicast DNS.
pub open spec fn send_to(socket: usize, size: usize) -> ReflectAction {
    ReflectAction::Send { socket, size, group: mdns_addr(), port: MDNS_PORT }
}

/// The step to the next interface, from `start` on, that the packet is repeated to,
/// or back to receiving where there is none.
pub open spec fn send_step(
    sockets: Seq<InterfaceSocket>,
    from: Sender,
    size: usize,
    start: int,
) -> (ReflectState, ReflectAction) {
    match next_target(sockets, from, start) {
        Some(socket) => (
            ReflectState::Sending { from, size, current: socket as usize },
            send_to(socket as usize, size),
        ),
        None => (ReflectState::Receiving, ReflectAction::Receive),
    }
}

/// What follows an event.
pub open spec fn reflect_step(
    sockets: Seq<InterfaceSocket>,
    state: ReflectState,
    event: ReflectEvent,
) -> (ReflectState, ReflectAction) {
    match (state, event) {
        (ReflectState::Sending { from, size, current }, _) => send_step(
            sockets,
            from,
            size,
            current + 1,
        ),
        (ReflectState::Receiving, ReflectEvent::Received { from, size }) => if is_own_address(
            sockets,
            from,
        ) {
            (ReflectState::Receiving, ReflectAction::Receive)
        } else {
            send_step(sockets, from, size, 0)
        },
        (ReflectState::Receiving, ReflectEvent::RecvFailed) => (
            ReflectState::Receiving,
            ReflectAction::Receive,
        ),
        _ => (ReflectState::Stopped, ReflectAction::Stop),
    }
}

/// Whether the index of the interface that a packet is being sent to is one.
pub open spec fn is_within(state: ReflectState, sockets: Seq<InterfaceSocket>) -> bool {
    state matches ReflectState::Sending { current, .. } ==> current < sockets.len()
}

/// Whether a packet comes from one of the interfaces themselves.
pub fn is_loopback(sockets: &Vec<InterfaceSocket>, from: Sender) -> (result: bool)
    ensures
        result == is_own_address(sockets@, from),
{
    let sender = match from {
        Sender::V4(address) => address,
        Sender::V6 => return false,
    };
    let mut i: usize = 0;
    while i < sockets.len()
        invariant
            i <= sockets.len(),
            from == Sender::V4(sender),
            forall|j: int| 0 <= j < i ==> sender != (#[trigger] sockets@[j]).address,
        decreases sockets.len() - i,
    {
        if sockets[i].address == sender {
            return true;
        }
        i += 1;
    }
    false
}

/// Goes on to the next interface, from `start` on, that is not on the sender's
/// network.
fn send_on(sockets: &Vec<InterfaceSocket>, from: Sender, size: usize, start: usize) -> (result: (
    ReflectState,
    ReflectAction,
))
    requires
        start <= sockets.len(),
    ensures
        result == send_step(sockets@, from, size, start as int),
        is_within(result.0, sockets@),
{
    let mut i: usize = start;
    while i < sockets.len()
        invariant
            start <= i <= sockets.len(),
            next_target(sockets@, from, start as int) == next_target(sockets@, from, i as int),
        decreases sockets.len() - i,
    {
        let socket = &sockets[i];
        let same_network = match from {
            Sender::V4(address) => address.bitand(&socket.mask) == socket.network,
            Sender::V6 => false,
        };
        if !same_network {
            return (
                ReflectState::Sending { from, size, current: i },
                ReflectAction::Send { socket: i, size, group: mdns_addr(), port: MDNS_PORT },
            );
        }
        i += 1;
    }
    (ReflectState::Receiving, ReflectAction::Receive)
}

/// What the reflector begins with.
pub fn begin() -> (result: (ReflectState, ReflectAction))
    ensures
        result == (ReflectState::Receiving, ReflectAction::Receive),
{
    (ReflectState::Receiving, ReflectAction::Receive)
}

/// What follows an event: a packet of another host is repeated to every interface
/// but those on the sender's network, one after the other, whatever comes of it;
/// a packet of the reflector's own is left alone.
pub fn reflect(sockets: &Vec<InterfaceSocket>, state: ReflectState, event: ReflectEvent) -> (result:
    (ReflectState, ReflectAction))
    requires
        can_happen(state, event),
        is_within(state, sockets@),
    ensures
        result == reflect_step(sockets@, state, event),
        is_within(result.0, sockets@),
{
    match state {
        ReflectState::Sending { from, size, current } => {
            assert(current < sockets.len());
            send_on(sockets, from, size, current + 1)
        },
        _ => match event {
            ReflectEvent::Cancelled => (ReflectState::Stopped, ReflectAction::Stop),
            ReflectEvent::Received { from, size } => {
                if is_loopback(sockets, from) {
                    (ReflectState::Receiving, ReflectAction::Receive)
                } else {
                    send_on(sockets, from, size, 0)
                }
            },
            _ => (ReflectState::Receiving, ReflectAction::Receive),
        },
    }
}

/// What is wrong with an event. A packet of which not all was sent is wrong, though
/// sending it did not fail.
pub open spec fn fault_of(state: ReflectState, event: ReflectEvent) -> Option<ReflectFault> {
    match (state, event) {
        (_, ReflectEvent::RecvFailed) => Some(ReflectFault::Recv),
        (_, ReflectEvent::SendFailed) => Some(ReflectFault::Send),
        (
            ReflectState::Sending { size: expected, .. },
            ReflectEvent::Sent { size: sent },
        ) => if sent != expected {
            Some(ReflectFault::SizeDiffers { expected, sent })
        } else {
            None
        },
        _ => None,
    }
}

/// What went wrong, if anything did. It is there to be told: it makes no difference
/// to what follows.
pub fn fault(state: ReflectState, event: ReflectEvent) -> (result: Option<ReflectFault>)
    ensures
        result == fault_of(state, event),
{
    match event {
        ReflectEvent::RecvFailed => Some(ReflectFault::Recv),
        ReflectEvent::SendFailed => Some(ReflectFault::Send),
        ReflectEvent::Sent { size: sent } => match state {
            ReflectState::Sending { size: expected, .. } => {
                if sent != expected {
                    Some(ReflectFault::SizeDiffers { expected, sent })
                } else {
                    None
                }
            },
            _ => None,
        },
        _ => None,
    }
}

/// A host is on the network of an interface exactly when the mask keeps the same of
/// both addresses; so the interface itself is.
pub proof fn same_network_is_same_masked_address(socket: InterfaceSocket, address: Ipv4Address)
    requires
        socket.wf(),
    ensures
        is_same_network(socket, Sender::V4(address)) <==> address.masked_by(socket.mask)
            == socket.address.masked_by(socket.mask),
        is_same_network(socket, Sender::V4(socket.address)),
{
}

/// An interface whose mask is not known gets no packet of a host of the fourth
/// version.
pub proof fn interface_without_mask_gets_nothing(
    sockets: Seq<InterfaceSocket>,
    i: int,
    address: Ipv4Address,
)
    requires
        0 <= i < sockets.len(),
        sockets[i].wf(),
        sockets[i].mask == unspecified(),
    ensures
        !targets(sockets, Sender::V4(address)).contains(i),
{
    unspecified_mask_keeps_nothing(address);
    unspecified_mask_keeps_nothing(sockets[i].address);
    targets_are_the_other_networks(sockets, Sender::V4(address));
}

/// A packet of a host of the sixth version goes to every interface.
pub proof fn sixth_version_goes_everywhere(sockets: Seq<InterfaceSocket>, i: int)
    ensures
        targets(sockets, Sender::V6).contains(i) <==> 0 <= i < sockets.len(),
{
    targets_are_the_other_networks(sockets, Sender::V6);
}

/// Where a course of events leads from `state`, and what is done on the way.
pub open spec fn reflect_run(
    sockets: Seq<InterfaceSocket>,
    state: ReflectState,
    events: Seq<ReflectEvent>,
) -> (ReflectState, Seq<ReflectAction>)
    decreases events.len(),
{
    if events.len() == 0 {
        (state, Seq::empty())
    } else {
        let (before, actions) = reflect_run(sockets, state, events.drop_last());
        let (after, action) = reflect_step(sockets, before, events.last());
        (after, actions.push(action))
    }
}

/// Whether each event of a course can happen where it stands.
pub open spec fn is_course(
    sockets: Seq<InterfaceSocket>,
    state: ReflectState,
    events: Seq<ReflectEvent>,
) -> bool {
    forall|i: int|
        0 <= i < events.len() ==> can_happen(
            reflect_run(sockets, state, events.take(i)).0,
            #[trigger] events[i],
        )
}

/// The packet that came last.
pub open spec fn last_packet(events: Seq<ReflectEvent>) -> Option<(Sender, usize)>
    decreases events.len(),
{
    if events.len() == 0 {
        None
    } else {
        match events.last() {
            ReflectEvent::Received { from, size } => Some((from, size)),
            _ => last_packet(events.drop_last()),
        }
    }
}

/// The actions that send a packet of `size` bytes to the interfaces in `order`.
pub open spec fn sends(order: Seq<int>, size: usize) -> Seq<ReflectAction> {
    order.map_values(|i: int| send_to(i as usize, size))
}

proof fn next_target_is_first(sockets: Seq<InterfaceSocket>, from: Sender, start: int)
    requires
        0 <= start,
    ensures
        match next_target(sockets, from, start) {
            Some(i) => {
                &&& start <= i < sockets.len()
                &&& !is_same_network(sockets[i], from)
                &&& targets_from(sockets, from, start) == seq![i] + targets_from(
                    sockets,
                    from,
                    i + 1,
                )
            },
            None => targets_from(sockets, from, start).len() == 0,
        },
    decreases sockets.len() - start,
{
    if start < sockets.len() && is_same_network(sockets[start], from) {
        next_target_is_first(sockets, from, start + 1);
    }
}

proof fn targets_from_are_increasing(sockets: Seq<InterfaceSocket>, from: Sender, start: int)
    requires
        0 <= start,
    ensures
        forall|i: int|
            #[trigger] targets_from(sockets, from, start).contains(i) <==> start <= i
                < sockets.len() && !is_same_network(sockets[i], from),
        forall|j: int, k: int|
            0 <= j < k < targets_from(sockets, from, start).len() ==> targets_from(
                sockets,
                from,
                start,
            )[j] < targets_from(sockets, from, start)[k],
    decreases sockets.len() - start,
{
    let all = targets_from(sockets, from, start);
    if start < sockets.len() {
        targets_from_are_increasing(sockets, from, start + 1);
        let rest = targets_from(sockets, from, start + 1);
        if !is_same_network(sockets[start], from) {
            assert forall|i: int| #[trigger] all.contains(i) <==> start <= i < sockets.len()
                && !is_same_network(sockets[i], from) by {
                if all.contains(i) && i != start {
                    let j = all.index_of(i);
                    assert(rest[j - 1] == i);
                    assert(rest.contains(i));
                }
                if rest.contains(i) {
                    assert(all[rest.index_of(i) + 1] == i);
                }
                assert(all[0] == start);
            }
            assert forall|j: int, k: int| 0 <= j < k < all.len() implies all[j] < all[k] by {
                assert(rest[k - 1] == all[k]);
                assert(rest.contains(all[k]));
                if j > 0 {
                    assert(rest[j - 1] == all[j]);
                }
            }
        } else {
            assert(all == rest);
        }
    }
}

/// A packet is repeated to exactly those interfaces that are not on the sender's
/// network, to each of them once, in the order in which they were named; and to
/// none at all where it comes from an interface's own address.
pub proof fn targets_are_the_other_networks(sockets: Seq<InterfaceSocket>, from: Sender)
    ensures
        forall|i: int|
            #[trigger] targets(sockets, from).contains(i) <==> 0 <= i < sockets.len()
                && !is_same_network(sockets[i], from) && !is_own_address(sockets, from),
        forall|j: int, k: int|
            0 <= j < k < targets(sockets, from).len() ==> targets(sockets, from)[j] < targets(
                sockets,
                from,
            )[k],
{
    targets_from_are_increasing(sockets, from, 0);
}

proof fn targets_follow_each_other(sockets: Seq<InterfaceSocket>, from: Sender, start: int, k: int)
    requires
        0 <= start,
        0 <= k < targets_from(sockets, from, start).len(),
    ensures
        start <= targets_from(sockets, from, start)[k] < sockets.len(),
        targets_from(sockets, from, targets_from(sockets, from, start)[k] + 1) == targets_from(
            sockets,
            from,
            start,
        ).skip(k + 1),
    decreases k,
{
    let all = targets_from(sockets, from, start);
    next_target_is_first(sockets, from, start);
    let first = all[0];
    let rest = targets_from(sockets, from, first + 1);
    assert(all == seq![first] + rest);
    if k == 0 {
        assert(all.skip(1) == rest);
    } else {
        targets_follow_each_other(sockets, from, first + 1, k - 1);
        assert(rest[k - 1] == all[k]);
        assert(rest.skip(k) == all.skip(k + 1));
    }
}

/// A packet that comes is sent to each of its targets in turn, and then the
/// reflector receives again. What comes of each sending makes no difference.
pub proof fn packet_reaches_every_target(
    sockets: Seq<InterfaceSocket>,
    from: Sender,
    size: usize,
    outcomes: Seq<ReflectEvent>,
)
    requires
        sockets.len() <= usize::MAX,
        outcomes.len() == targets(sockets, from).len(),
        forall|i: int|
            0 <= i < outcomes.len() ==> (#[trigger] outcomes[i]) is Sent || outcomes[i] is SendFailed,
    ensures
        is_course(
            sockets,
            ReflectState::Receiving,
            seq![ReflectEvent::Received { from, size }] + outcomes,
        ),
        reflect_run(
            sockets,
            ReflectState::Receiving,
            seq![ReflectEvent::Received { from, size }] + outcomes,
        ) == (
            ReflectState::Receiving,
            sends(targets(sockets, from), size).push(ReflectAction::Receive),
        ),
{
    let events = seq![ReflectEvent::Received { from, size }] + outcomes;
    let order = targets(sockets, from);
    assert forall|k: int| 0 <= k <= order.len() implies #[trigger] packet_progress(
        sockets,
        from,
        size,
        events,
        k,
    ) by {
        packet_progresses(sockets, from, size, outcomes, k);
    }
    assert(packet_progress(sockets, from, size, events, order.len() as int));
    assert(events.take(order.len() as int + 1) == events);
    assert(sends(order, size).take(order.len() as int) == sends(order, size));
    assert forall|i: int| 0 <= i < events.len() implies can_happen(
        reflect_run(sockets, ReflectState::Receiving, events.take(i)).0,
        #[trigger] events[i],
    ) by {
        if i > 0 {
            assert(packet_progress(sockets, from, size, events, i - 1));
            assert(events[i] == outcomes[i - 1]);
        }
    }
}

/// How far a packet has come when `k` sendings of it are over.
spec fn packet_progress(
    sockets: Seq<InterfaceSocket>,
    from: Sender,
    size: usize,
    events: Seq<ReflectEvent>,
    k: int,
) -> bool {
    let order = targets(sockets, from);
    let (state, actions) = reflect_run(sockets, ReflectState::Receiving, events.take(k + 1));
    if k < order.len() {
        &&& state == ReflectState::Sending { from, size, current: order[k] as usize }
        &&& actions == sends(order, size).take(k + 1)
    } else {
        &&& state == ReflectState::Receiving
        &&& actions == sends(order, size).push(ReflectAction::Receive)
    }
}

proof fn packet_progresses(
    sockets: Seq<InterfaceSocket>,
    from: Sender,
    size: usize,
    outcomes: Seq<ReflectEvent>,
    k: int,
)
    requires
        sockets.len() <= usize::MAX,
        outcomes.len() == targets(sockets, from).len(),
        0 <= k <= outcomes.len(),
        forall|i: int|
            0 <= i < outcomes.len() ==> (#[trigger] outcomes[i]) is Sent || outcomes[i] is SendFailed,
    ensures
        packet_progress(
            sockets,
            from,
            size,
            seq![ReflectEvent::Received { from, size }] + outcomes,
            k,
        ),
    decreases k,
{
    let events = seq![ReflectEvent::Received { from, size }] + outcomes;
    let order = targets(sockets, from);
    let taken = events.take(k + 1);
    assert(taken.drop_last() == events.take(k));
    assert(taken.last() == events[k]);
    if k == 0 {
        reveal_with_fuel(reflect_run, 2);
        next_target_is_first(sockets, from, 0);
        if order.len() > 0 {
            assert(sends(order, size).take(1) == Seq::<ReflectAction>::empty().push(
                sends(order, size)[0],
            ));
        } else {
            assert(sends(order, size) == Seq::<ReflectAction>::empty());
        }
    } else {
        packet_progresses(sockets, from, size, outcomes, k - 1);
        targets_follow_each_other(sockets, from, 0, k - 1);
        let at = order[k - 1];
        next_target_is_first(sockets, from, at + 1);
        assert(targets_from(sockets, from, at + 1) == order.skip(k));
        if k < order.len() {
            assert(order.skip(k)[0] == order[k]);
            assert(sends(order, size).take(k + 1) == sends(order, size).take(k).push(
                sends(order, size)[k],
            ));
        } else {
            assert(sends(order, size).take(k) == sends(order, size));
        }
    }
}

/// In every course of events, each sending repeats the packet that came last, in
/// its full size, to the multicast DNS group and port, through an interface that is
/// not on its sender's network; and that packet does not come from an interface's own
/// address.
pub proof fn nothing_goes_back(sockets: Seq<InterfaceSocket>, events: Seq<ReflectEvent>, i: int)
    requires
        sockets.len() <= usize::MAX,
        is_course(sockets, ReflectState::Receiving, events),
        0 <= i < events.len(),
    ensures
        reflect_run(sockets, ReflectState::Receiving, events).1.len() == events.len(),
        reflect_run(sockets, ReflectState::Receiving, events).1[i] matches ReflectAction::Send {
            socket,
            size,
            group,
            port,
        } ==> {
            &&& group == mdns_addr()
            &&& port == MDNS_PORT
            &&& socket < sockets.len()
            &&& last_packet(events.take(i + 1)) matches Some((from, received))
            &&& size == received
            &&& !is_same_network(sockets[socket as int], from)
            &&& !is_own_address(sockets, from)
        },
    decreases events.len(),
{
    let before = events.drop_last();
    course_of_prefix(sockets, ReflectState::Receiving, events);
    run_is_sound(sockets, events);
    run_is_sound(sockets, before);
    if i < events.len() - 1 {
        nothing_goes_back(sockets, before, i);
        assert(before.take(i + 1) == events.take(i + 1));
    } else {
        assert(events.take(i + 1) == events);
    }
}

/// What holds after every course of events: a packet on its way is the one that
/// came last.
spec fn is_sound(
    sockets: Seq<InterfaceSocket>,
    events: Seq<ReflectEvent>,
    state: ReflectState,
) -> bool {
    state matches ReflectState::Sending { from, size, current } ==> {
        &&& current < sockets.len()
        &&& last_packet(events) == Some((from, size))
        &&& !is_same_network(sockets[current as int], from)
        &&& !is_own_address(sockets, from)
    }
}

proof fn course_of_prefix(
    sockets: Seq<InterfaceSocket>,
    state: ReflectState,
    events: Seq<ReflectEvent>,
)
    requires
        is_course(sockets, state, events),
        events.len() > 0,
    ensures
        is_course(sockets, state, events.drop_last()),
        can_happen(reflect_run(sockets, state, events.drop_last()).0, events.last()),
{
    let before = events.drop_last();
    assert forall|i: int| 0 <= i < before.len() implies can_happen(
        reflect_run(sockets, state, before.take(i)).0,
        #[trigger] before[i],
    ) by {
        assert(before.take(i) == events.take(i));
        assert(before[i] == events[i]);
    }
    assert(events.take(events.len() - 1) == before);
}

proof fn run_is_sound(sockets: Seq<InterfaceSocket>, events: Seq<ReflectEvent>)
    requires
        sockets.len() <= usize::MAX,
        is_course(sockets, ReflectState::Receiving, events),
    ensures
        is_sound(sockets, events, reflect_run(sockets, ReflectState::Receiving, events).0),
        reflect_run(sockets, ReflectState::Receiving, events).1.len() == events.len(),
    decreases events.len(),
{
    if events.len() > 0 {
        course_of_prefix(sockets, ReflectState::Receiving, events);
        run_is_sound(sockets, events.drop_last());
        match reflect_run(sockets, ReflectState::Receiving, events.drop_last()).0 {
            ReflectState::Sending { from, size, current } => {
                next_target_is_first(sockets, from, current + 1);
            },
            _ => {
                if let ReflectEvent::Received { from, size } = events.last() {
                    next_target_is_first(sockets, from, 0);
                }
            },
        }
    }
}

/// In every course of events, the reflector ends where it is told to, and nowhere
/// else; and nothing comes after that.
pub proof fn ends_only_when_told(sockets: Seq<InterfaceSocket>, events: Seq<ReflectEvent>, i: int)
    requires
        is_course(sockets, ReflectState::Receiving, events),
        0 <= i < events.len(),
    ensures
        reflect_run(sockets, ReflectState::Receiving, events).1.len() == events.len(),
        reflect_run(sockets, ReflectState::Receiving, events).1[i] is Stop <==> events[i] is Cancelled,
        events[i] is Cancelled ==> i == events.len() - 1,
    decreases events.len(),
{
    let before = events.drop_last();
    course_of_prefix(sockets, ReflectState::Receiving, events);
    if before.len() > 0 {
        ends_only_when_told(sockets, before, before.len() - 1);
        stopped_by_stop(sockets, before);
        if i < before.len() {
            ends_only_when_told(sockets, before, i);
        }
    }
}

/// The reflector has ended exactly when its last action was to end.
proof fn stopped_by_stop(sockets: Seq<InterfaceSocket>, events: Seq<ReflectEvent>)
    requires
        events.len() > 0,
    ensures
        ({
            let (state, actions) = reflect_run(sockets, ReflectState::Receiving, events);
            state is Stopped <==> actions.last() is Stop
        }),
{
}

/// A course of events that follows another one leads and does what it would from where
/// the first one ends.
pub proof fn courses_follow_each_other(
    sockets: Seq<InterfaceSocket>,
    state: ReflectState,
    first: Seq<ReflectEvent>,
    second: Seq<ReflectEvent>,
)
    ensures
        ({
            let (middle, done) = reflect_run(sockets, state, first);
            let (end, more) = reflect_run(sockets, middle, second);
            reflect_run(sockets, state, first + second) == (end, done + more)
        }),
    decreases second.len(),
{
    if second.len() == 0 {
        assert(first + second == first);
        assert(reflect_run(sockets, state, first).1 + Seq::<ReflectAction>::empty() == reflect_run(
            sockets,
            state,
            first,
        ).1);
    } else {
        let before = second.drop_last();
        courses_follow_each_other(sockets, state, first, before);
        assert((first + second).drop_last() == first + before);
        let (middle, done) = reflect_run(sockets, state, first);
        let (at, more) = reflect_run(sockets, middle, before);
        let action = reflect_step(sockets, at, second.last()).1;
        assert((done + more).push(action) == done + more.push(action));
    }
}

/// The sendings among actions.
pub open spec fn sendings(actions: Seq<ReflectAction>) -> Seq<ReflectAction> {
    actions.filter(|action: ReflectAction| action is Send)
}

/// Where a first course of events ends in receiving, a second one can follow it, and the
/// two in a row send what each sends alone.
pub proof fn courses_send_what_each_sends_alone(
    sockets: Seq<InterfaceSocket>,
    first: Seq<ReflectEvent>,
    second: Seq<ReflectEvent>,
)
    requires
        is_course(sockets, ReflectState::Receiving, first),
        is_course(sockets, ReflectState::Receiving, second),
        reflect_run(sockets, ReflectState::Receiving, first).0 is Receiving,
    ensures
        is_course(sockets, ReflectState::Receiving, first + second),
        sendings(reflect_run(sockets, ReflectState::Receiving, first + second).1) == sendings(
            reflect_run(sockets, ReflectState::Receiving, first).1,
        ) + sendings(reflect_run(sockets, ReflectState::Receiving, second).1),
{
    let both = first + second;
    assert forall|i: int| 0 <= i < both.len() implies can_happen(
        reflect_run(sockets, ReflectState::Receiving, both.take(i)).0,
        #[trigger] both[i],
    ) by {
        if i < first.len() {
            assert(both.take(i) == first.take(i));
            assert(both[i] == first[i]);
        } else {
            let j = i - first.len();
            courses_follow_each_other(sockets, ReflectState::Receiving, first, second.take(j));
            assert(both.take(i) == first + second.take(j));
            assert(both[i] == second[j]);
        }
    }
    courses_follow_each_other(sockets, ReflectState::Receiving, first, second);
    Seq::filter_distributes_over_add(
        reflect_run(sockets, ReflectState::Receiving, first).1,
        reflect_run(sockets, ReflectState::Receiving, second).1,
        |action: ReflectAction| action is Send,
    );
}

/// The events of a course but for those of receiving that failed.
pub open spec fn without_recv_failures(events: Seq<ReflectEvent>) -> Seq<ReflectEvent> {
    events.filter(|event: ReflectEvent| !(event is RecvFailed))
}

/// Failures to receive make no difference to where a course of events leads, nor to what
/// is sent in it.
pub proof fn recv_failures_change_nothing(
    sockets: Seq<InterfaceSocket>,
    state: ReflectState,
    events: Seq<ReflectEvent>,
)
    requires
        is_course(sockets, state, events),
    ensures
        is_course(sockets, state, without_recv_failures(events)),
        reflect_run(sockets, state, without_recv_failures(events)).0 == reflect_run(
            sockets,
            state,
            events,
        ).0,
        sendings(reflect_run(sockets, state, without_recv_failures(events)).1) == sendings(
            reflect_run(sockets, state, events).1,
        ),
    decreases events.len(),
{
    reveal(Seq::filter);
    if events.len() > 0 {
        let before = events.drop_last();
        course_of_prefix(sockets, state, events);
        recv_failures_change_nothing(sockets, state, before);
        let (at, actions) = reflect_run(sockets, state, before);
        let action = reflect_step(sockets, at, events.last()).1;
        assert(actions.push(action).drop_last() == actions);
        let kept = without_recv_failures(before);
        if events.last() !is RecvFailed {
            let all = kept.push(events.last());
            assert(without_recv_failures(events) == all);
            assert(all.drop_last() == kept);
            let kept_actions = reflect_run(sockets, state, kept).1;
            assert(kept_actions.push(action).drop_last() == kept_actions);
            assert forall|i: int| 0 <= i < all.len() implies can_happen(
                reflect_run(sockets, state, all.take(i)).0,
                #[trigger] all[i],
            ) by {
                assert(all.take(i) == kept.take(i));
                if i < kept.len() {
                    assert(all[i] == kept[i]);
                } else {
                    assert(kept.take(i) == kept);
                }
            }
        }
    }
}

/// A packet comes from an interface itself exactly where one interface has all four
/// octets of the sender; a sender of the sixth version is no interface.
pub proof fn own_address_is_all_four_octets(sockets: Seq<InterfaceSocket>, address: Ipv4Address)
    ensures
        is_own_address(sockets, Sender::V4(address)) <==> exists|i: int|
            {
                &&& 0 <= i < sockets.len()
                &&& (#[trigger] sockets[i]).address.a == address.a
                &&& sockets[i].address.b == address.b
                &&& sockets[i].address.c == address.c
                &&& sockets[i].address.d == address.d
            },
        !is_own_address(sockets, Sender::V6),
{
    if is_own_address(sockets, Sender::V4(address)) {
        let i = choose|i: int|
            0 <= i < sockets.len() && Sender::V4(address) == Sender::V4(
                (#[trigger] sockets[i]).address,
            );
        assert(sockets[i].address.a == address.a);
    }
    if exists|i: int|
        {
            &&& 0 <= i < sockets.len()
            &&& (#[trigger] sockets[i]).address.a == address.a
            &&& sockets[i].address.b == address.b
            &&& sockets[i].address.c == address.c
            &&& sockets[i].address.d == address.d
        } {
        let i = choose|i: int|
            {
                &&& 0 <= i < sockets.len()
                &&& (#[trigger] sockets[i]).address.a == address.a
                &&& sockets[i].address.b == address.b
                &&& sockets[i].address.c == address.c
                &&& sockets[i].address.d == address.d
            };
        assert(sockets[i].address == address);
    }
}

/// A sender is on the network of an interface exactly where the mask keeps, of each of
/// the sender's four octets, the octet of the network; a sender of the sixth version is
/// on no network.
pub proof fn network_is_told_by_every_octet(socket: InterfaceSocket, address: Ipv4Address)
    ensures
        is_same_network(socket, Sender::V4(address)) <==> {
            &&& address.a & socket.mask.a == socket.network.a
            &&& address.b & socket.mask.b == socket.network.b
            &&& address.c & socket.mask.c == socket.network.c
            &&& address.d & socket.mask.d == socket.network.d
        },
        !is_same_network(socket, Sender::V6),
{
}

/// A sender is on the network of an interface exactly where its address agrees with that
/// of the interface in every bit that the mask sets.
pub proof fn network_is_told_by_the_bits(socket: InterfaceSocket, address: Ipv4Address)
    requires
        socket.wf(),
    ensures
        is_same_network(socket, Sender::V4(address)) <==> {
            &&& octets_agree(address.a, socket.address.a, socket.mask.a)
            &&& octets_agree(address.b, socket.address.b, socket.mask.b)
            &&& octets_agree(address.c, socket.address.c, socket.mask.c)
            &&& octets_agree(address.d, socket.address.d, socket.mask.d)
        },
{
    masked_alike_where_the_bits_agree(address, socket.address, socket.mask);
}

/// Where the sender's address differs in an octet from that of every interface, the
/// packet is repeated to an interface exactly where one of the sender's octets shows
/// that it is not on that network. Where it does not differ, it is repeated to none.
pub proof fn targets_are_told_by_the_octets(
    sockets: Seq<InterfaceSocket>,
    address: Ipv4Address,
    i: int,
)
    requires
        0 <= i < sockets.len(),
    ensures
        (forall|j: int|
            0 <= j < sockets.len() ==> {
                ||| (#[trigger] sockets[j]).address.a != address.a
                ||| sockets[j].address.b != address.b
                ||| sockets[j].address.c != address.c
                ||| sockets[j].address.d != address.d
            }) ==> (targets(sockets, Sender::V4(address)).contains(i) <==> {
            ||| address.a & sockets[i].mask.a != sockets[i].network.a
            ||| address.b & sockets[i].mask.b != sockets[i].network.b
            ||| address.c & sockets[i].mask.c != sockets[i].network.c
            ||| address.d & sockets[i].mask.d != sockets[i].network.d
        }),
        sockets[i].address.a == address.a && sockets[i].address.b == address.b
            && sockets[i].address.c == address.c && sockets[i].address.d == address.d ==> targets(
            sockets,
            Sender::V4(address),
        ).len() == 0,
        targets(sockets, Sender::V6).contains(i),
{
    own_address_is_all_four_octets(sockets, address);
    network_is_told_by_every_octet(sockets[i], address);
    targets_are_the_other_networks(sockets, Sender::V4(address));
    targets_are_the_other_networks(sockets, Sender::V6);
}

proof fn skipped_are_on_the_network(sockets: Seq<InterfaceSocket>, from: Sender, start: int)
    requires
        0 <= start,
    ensures
        next_target(sockets, from, start) matches Some(i) ==> start <= i < sockets.len()
            && !is_same_network(sockets[i], from),
        forall|j: int|
            start <= j < sockets.len() && (next_target(sockets, from, start) matches Some(i) ==> j
                < i) ==> is_same_network(#[trigger] sockets[j], from),
    decreases sockets.len() - start,
{
    if start < sockets.len() && is_same_network(sockets[start], from) {
        skipped_are_on_the_network(sockets, from, start + 1);
    }
}

/// A packet of a host of the fourth version goes to the first interface, and then to the
/// next one, that is not on its network by its octets: whole, to 224.0.0.251 and port
/// 5353. Where there is none, a packet is waited for.
pub proof fn packet_goes_to_the_next_other_network(
    sockets: Seq<InterfaceSocket>,
    address: Ipv4Address,
    size: usize,
    state: ReflectState,
    event: ReflectEvent,
    start: int,
    j: int,
)
    requires
        sockets.len() <= usize::MAX,
        ({
            ||| {
                &&& state is Receiving
                &&& event == (ReflectEvent::Received { from: Sender::V4(address), size })
                &&& start == 0
                &&& forall|i: int|
                    0 <= i < sockets.len() ==> {
                        ||| (#[trigger] sockets[i]).address.a != address.a
                        ||| sockets[i].address.b != address.b
                        ||| sockets[i].address.c != address.c
                        ||| sockets[i].address.d != address.d
                    }
            }
            ||| {
                &&& start > 0
                &&& state == (ReflectState::Sending {
                    from: Sender::V4(address),
                    size,
                    current: (start - 1) as usize,
                })
                &&& start <= sockets.len()
                &&& event is Sent || event is SendFailed
            }
        }),
    ensures
        ({
            let within = start <= j < sockets.len();
            let other = {
                ||| address.a & sockets[j].mask.a != sockets[j].network.a
                ||| address.b & sockets[j].mask.b != sockets[j].network.b
                ||| address.c & sockets[j].mask.c != sockets[j].network.c
                ||| address.d & sockets[j].mask.d != sockets[j].network.d
            };
            match reflect_step(sockets, state, event) {
                (
                    ReflectState::Sending { from, size: kept, current },
                    ReflectAction::Send { socket, size: sent, group, port },
                ) => {
                    &&& from == Sender::V4(address)
                    &&& kept == size
                    &&& sent == size
                    &&& current == socket
                    &&& start <= socket < sockets.len()
                    &&& group == (Ipv4Address { a: 224, b: 0, c: 0, d: 251 })
                    &&& port == 5353
                    &&& within && j < socket ==> !other
                    &&& within && j == socket ==> other
                },
                (ReflectState::Receiving, ReflectAction::Receive) => within ==> !other,
                _ => false,
            }
        }),
{
    own_address_is_all_four_octets(sockets, address);
    skipped_are_on_the_network(sockets, Sender::V4(address), start);
    network_is_told_by_every_octet(sockets[j], address);
}

/// A packet of a host of the sixth version goes to the first interface, and then to each
/// next one.
pub proof fn sixth_version_goes_to_the_next(
    sockets: Seq<InterfaceSocket>,
    size: usize,
    state: ReflectState,
    event: ReflectEvent,
    start: int,
)
    requires
        sockets.len() <= usize::MAX,
        0 <= start <= sockets.len(),
        start == 0 ==> state is Receiving && event == (ReflectEvent::Received {
            from: Sender::V6,
            size,
        }),
        start > 0 ==> state == (ReflectState::Sending {
            from: Sender::V6,
            size,
            current: (start - 1) as usize,
        }) && (event is Sent || event is SendFailed),
    ensures
        reflect_step(sockets, state, event) == if start < sockets.len() {
            (
                ReflectState::Sending { from: Sender::V6, size, current: start as usize },
                ReflectAction::Send {
                    socket: start as usize,
                    size,
                    group: Ipv4Address { a: 224, b: 0, c: 0, d: 251 },
                    port: 5353,
                },
            )
        } else {
            (ReflectState::Receiving, ReflectAction::Receive)
        },
{
    skipped_are_on_the_network(sockets, Sender::V6, start);
    if start < sockets.len() {
        assert(!is_same_network(sockets[start], Sender::V6));
    }
}

/// A packet of a host of the fourth version is sent nowhere only for one of two reasons:
/// an interface has all four octets of the sender, or every interface shares its network
/// in all four octets.
pub proof fn packet_is_dropped_only_for_a_reason(
    sockets: Seq<InterfaceSocket>,
    address: Ipv4Address,
    size: usize,
)
    requires
        sockets.len() <= usize::MAX,
    ensures
        reflect_step(
            sockets,
            ReflectState::Receiving,
            ReflectEvent::Received { from: Sender::V4(address), size },
        ).1 is Receive <==> {
            ||| exists|i: int|
                {
                    &&& 0 <= i < sockets.len()
                    &&& (#[trigger] sockets[i]).address.a == address.a
                    &&& sockets[i].address.b == address.b
                    &&& sockets[i].address.c == address.c
                    &&& sockets[i].address.d == address.d
                }
            ||| forall|i: int|
                0 <= i < sockets.len() ==> {
                    &&& address.a & (#[trigger] sockets[i]).mask.a == sockets[i].network.a
                    &&& address.b & sockets[i].mask.b == sockets[i].network.b
                    &&& address.c & sockets[i].mask.c == sockets[i].network.c
                    &&& address.d & sockets[i].mask.d == sockets[i].network.d
                }
        },
{
    own_address_is_all_four_octets(sockets, address);
    skipped_are_on_the_network(sockets, Sender::V4(address), 0);
    assert forall|i: int| 0 <= i < sockets.len() implies (is_same_network(
        #[trigger] sockets[i],
        Sender::V4(address),
    ) <==> {
        &&& address.a & sockets[i].mask.a == sockets[i].network.a
        &&& address.b & sockets[i].mask.b == sockets[i].network.b
        &&& address.c & sockets[i].mask.c == sockets[i].network.c
        &&& address.d & sockets[i].mask.d == sockets[i].network.d
    }) by {
        network_is_told_by_every_octet(sockets[i], address);
    }
}

/// From the packet's coming to the next wait, each sending is of the whole packet, to
/// 224.0.0.251 and port 5353, and through a later interface than the one before; and
/// there is a sending through an interface exactly where that is a target.
pub proof fn packet_is_sent_once_to_each_target(
    sockets: Seq<InterfaceSocket>,
    from: Sender,
    size: usize,
    outcomes: Seq<ReflectEvent>,
    i: int,
)
    requires
        sockets.len() <= usize::MAX,
        outcomes.len() == targets(sockets, from).len(),
        forall|k: int|
            0 <= k < outcomes.len() ==> (#[trigger] outcomes[k]) is Sent || outcomes[k] is SendFailed,
        0 <= i < sockets.len(),
    ensures
        ({
            let (state, actions) = reflect_run(
                sockets,
                ReflectState::Receiving,
                seq![ReflectEvent::Received { from, size }] + outcomes,
            );
            &&& state is Receiving
            &&& actions.len() == outcomes.len() + 1
            &&& actions.last() is Receive
            &&& forall|k: int|
                0 <= k < outcomes.len() ==> (#[trigger] actions[k]) == (ReflectAction::Send {
                    socket: actions[k]->socket,
                    size,
                    group: Ipv4Address { a: 224, b: 0, c: 0, d: 251 },
                    port: 5353,
                })
            &&& forall|j: int, k: int|
                0 <= j < k < outcomes.len() ==> (#[trigger] actions[j])->socket < (
                #[trigger] actions[k])->socket
            &&& (exists|k: int|
                0 <= k < outcomes.len() && (#[trigger] actions[k])->socket == i) <==> targets(
                sockets,
                from,
            ).contains(i)
        }),
{
    packet_reaches_every_target(sockets, from, size, outcomes);
    targets_are_the_other_networks(sockets, from);
    let order = targets(sockets, from);
    let actions = reflect_run(
        sockets,
        ReflectState::Receiving,
        seq![ReflectEvent::Received { from, size }] + outcomes,
    ).1;
    assert forall|k: int| 0 <= k < order.len() implies (#[trigger] actions[k])->socket == order[k]
        by {
        assert(order.contains(order[k]));
        assert(actions[k] == sends(order, size)[k]);
    }
    assert forall|j: int, k: int| 0 <= j < k < order.len() implies (
    #[trigger] actions[j])->socket < (#[trigger] actions[k])->socket by {
        assert(order[j] < order[k]);
    }
    if order.contains(i) {
        let k = order.index_of(i);
        assert(actions[k]->socket == order[k]);
    }
    if exists|k: int| 0 <= k < outcomes.len() && (#[trigger] actions[k])->socket == i {
        let k = choose|k: int| 0 <= k < outcomes.len() && (#[trigger] actions[k])->socket == i;
        assert(order[k] == i);
    }
}

/// After every course of events, any outcome of what was done last can come next, and
/// nothing else can; and a packet on its way is at one of the interfaces.
pub proof fn every_outcome_can_follow(
    sockets: Seq<InterfaceSocket>,
    events: Seq<ReflectEvent>,
    event: ReflectEvent,
)
    requires
        sockets.len() <= usize::MAX,
        is_course(sockets, ReflectState::Receiving, events),
    ensures
        ({
            let (state, actions) = reflect_run(sockets, ReflectState::Receiving, events);
            let last = if events.len() == 0 {
                ReflectAction::Receive
            } else {
                actions.last()
            };
            &&& is_within(state, sockets)
            &&& can_happen(state, event) <==> match last {
                ReflectAction::Receive => event is Cancelled || event is RecvFailed
                    || event is Received,
                ReflectAction::Send { .. } => event is Sent || event is SendFailed,
                ReflectAction::Stop => false,
            }
        }),
{
    run_is_sound(sockets, events);
    if events.len() > 0 {
        course_of_prefix(sockets, ReflectState::Receiving, events);
        run_is_sound(sockets, events.drop_last());
    }
}

/// A wait is followed by a wait where receiving fails, and by the end where that is the
/// word, whatever the interfaces are.
pub proof fn wait_goes_on_or_ends(sockets: Seq<InterfaceSocket>)
    ensures
        reflect_step(sockets, ReflectState::Receiving, ReflectEvent::RecvFailed) == (
            ReflectState::Receiving,
            ReflectAction::Receive,
        ),
        reflect_step(sockets, ReflectState::Receiving, ReflectEvent::Cancelled) == (
            ReflectState::Stopped,
            ReflectAction::Stop,
        ),
{
}

/// Sending tells of a fault exactly where another number of bytes was sent than the
/// packet has, be it fewer or more, and with both numbers; a failure is always told, and
/// nothing else ever is.
pub proof fn faults_are_told_exactly(
    state: ReflectState,
    from: Sender,
    size: usize,
    current: usize,
    sent: usize,
    other: ReflectEvent,
)
    requires
        other is Cancelled || other is Received,
    ensures
        ({
            let sending = ReflectState::Sending { from, size, current };
            &&& sent == size ==> fault_of(sending, ReflectEvent::Sent { size: sent }) is None
            &&& sent != size ==> fault_of(sending, ReflectEvent::Sent { size: sent }) == Some(
                ReflectFault::SizeDiffers { expected: size, sent },
            )
        }),
        fault_of(state, ReflectEvent::RecvFailed) == Some(ReflectFault::Recv),
        fault_of(state, ReflectEvent::SendFailed) == Some(ReflectFault::Send),
        fault_of(state, other) is None,
{
}

} // verus!
