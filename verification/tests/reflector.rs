use mdns_reflector::address::{mdns_addr, unspecified, Ipv4Address, MDNS_PORT};
use mdns_reflector::reflector::{
    begin, fault, reflect, ReflectAction, ReflectEvent, ReflectFault, ReflectState, Sender,
    PACKET_SIZE,
};
use mdns_reflector::sockets::InterfaceSocket;

fn address(octets: [u8; 4]) -> Ipv4Address {
    Ipv4Address::from_octets(octets)
}

fn interfaces() -> Vec<InterfaceSocket> {
    let mask = address([255, 255, 255, 0]);
    vec![
        InterfaceSocket::new("eth0".to_string(), address([192, 168, 1, 1]), mask),
        InterfaceSocket::new("eth1".to_string(), address([192, 168, 2, 1]), mask),
        InterfaceSocket::new("eth2".to_string(), address([192, 168, 3, 1]), mask),
    ]
}

/// The sockets that a packet is sent to, when sending comes out as `outcome` says.
fn sent_to(
    sockets: &Vec<InterfaceSocket>,
    from: Sender,
    size: usize,
    outcome: ReflectEvent,
) -> Vec<usize> {
    let mut sent = vec![];
    let mut event = ReflectEvent::Received { from, size };
    let mut state = ReflectState::Receiving;
    loop {
        let (next, action) = reflect(sockets, state, event);
        match action {
            ReflectAction::Send { socket, size: sent_size, group, port } => {
                assert_eq!(sent_size, size);
                assert_eq!(group, mdns_addr());
                assert_eq!(port, MDNS_PORT);
                sent.push(socket);
            }
            ReflectAction::Receive => {
                assert_eq!(next, ReflectState::Receiving);
                return sent;
            }
            ReflectAction::Stop => panic!("stopped"),
        }
        state = next;
        event = outcome;
    }
}

/// What is sent in a course of events from the beginning.
fn sendings(sockets: &Vec<InterfaceSocket>, events: &[ReflectEvent]) -> Vec<ReflectAction> {
    let (mut state, _) = begin();
    let mut sent = vec![];
    for event in events {
        let (next, action) = reflect(sockets, state, *event);
        if matches!(action, ReflectAction::Send { .. }) {
            sent.push(action);
        }
        state = next;
    }
    sent
}

/// A packet that is repeated to the first and the third interface.
fn packet(size: usize) -> Vec<ReflectEvent> {
    let from = Sender::V4(address([192, 168, 2, 77]));
    vec![
        ReflectEvent::Received { from, size },
        ReflectEvent::Sent { size },
        ReflectEvent::SendFailed,
    ]
}

#[test]
fn reflector_begins_with_receiving() {
    assert_eq!(begin(), (ReflectState::Receiving, ReflectAction::Receive));
}

#[test]
fn packet_is_sent_to_the_multicast_group() {
    let group = address([224, 0, 0, 251]);
    assert_eq!(
        sendings(&interfaces(), &packet(120)),
        vec![
            ReflectAction::Send { socket: 0, size: 120, group, port: 5353 },
            ReflectAction::Send { socket: 2, size: 120, group, port: 5353 },
        ]
    );
}

#[test]
fn failures_to_receive_do_not_change_what_is_sent() {
    let sockets = interfaces();
    let mut events = vec![ReflectEvent::RecvFailed, ReflectEvent::RecvFailed];
    events.extend(packet(120));
    events.push(ReflectEvent::RecvFailed);
    events.extend(packet(7));
    let without: Vec<ReflectEvent> =
        events.iter().copied().filter(|event| *event != ReflectEvent::RecvFailed).collect();
    assert_eq!(without.len(), 6);
    assert_eq!(sendings(&sockets, &events), sendings(&sockets, &without));
}

#[test]
fn two_packets_in_a_row_are_sent_as_each_alone() {
    let sockets = interfaces();
    let mut both = packet(120);
    both.extend(packet(7));
    let mut each = sendings(&sockets, &packet(120));
    each.extend(sendings(&sockets, &packet(7)));
    assert_eq!(each.len(), 4);
    assert_eq!(sendings(&sockets, &both), each);
}

#[test]
fn packet_goes_to_every_other_network() {
    let sockets = interfaces();
    let from = Sender::V4(address([192, 168, 2, 77]));
    assert_eq!(sent_to(&sockets, from, 120, ReflectEvent::Sent { size: 120 }), vec![0, 2]);
}

#[test]
fn packet_of_a_foreign_network_goes_everywhere() {
    let sockets = interfaces();
    let from = Sender::V4(address([10, 0, 0, 5]));
    assert_eq!(sent_to(&sockets, from, 1, ReflectEvent::Sent { size: 1 }), vec![0, 1, 2]);
}

#[test]
fn failed_sending_does_not_keep_the_packet_from_the_others() {
    let sockets = interfaces();
    let from = Sender::V4(address([192, 168, 1, 9]));
    assert_eq!(sent_to(&sockets, from, 50, ReflectEvent::SendFailed), vec![1, 2]);
    assert_eq!(sent_to(&sockets, from, 50, ReflectEvent::Sent { size: 3 }), vec![1, 2]);
}

#[test]
fn packet_of_an_interface_itself_is_left_alone() {
    let sockets = interfaces();
    for own in [[192, 168, 1, 1], [192, 168, 2, 1], [192, 168, 3, 1]] {
        let from = Sender::V4(address(own));
        assert_eq!(sent_to(&sockets, from, 9, ReflectEvent::SendFailed), vec![]);
    }
}

#[test]
fn packet_of_the_sixth_version_goes_everywhere() {
    let sockets = interfaces();
    assert_eq!(sent_to(&sockets, Sender::V6, 9, ReflectEvent::Sent { size: 9 }), vec![0, 1, 2]);
}

#[test]
fn interface_without_a_mask_gets_no_packet() {
    let mut sockets = interfaces();
    sockets.push(InterfaceSocket::new("tun0".to_string(), unspecified(), unspecified()));
    let from = Sender::V4(address([10, 0, 0, 5]));
    assert_eq!(sent_to(&sockets, from, 1, ReflectEvent::SendFailed), vec![0, 1, 2]);
    assert_eq!(sent_to(&sockets, Sender::V6, 1, ReflectEvent::SendFailed), vec![0, 1, 2, 3]);
}

#[test]
fn two_interfaces_on_one_network_get_nothing_of_it() {
    let mut sockets = interfaces();
    let mask = address([255, 255, 255, 0]);
    sockets.push(InterfaceSocket::new("wlan0".to_string(), address([192, 168, 1, 2]), mask));
    let from = Sender::V4(address([192, 168, 1, 200]));
    assert_eq!(sent_to(&sockets, from, 1, ReflectEvent::SendFailed), vec![1, 2]);
}

#[test]
fn reflector_goes_on_when_receiving_fails() {
    assert_eq!(
        reflect(&interfaces(), ReflectState::Receiving, ReflectEvent::RecvFailed),
        (ReflectState::Receiving, ReflectAction::Receive)
    );
}

#[test]
fn reflector_ends_when_it_is_told_to() {
    assert_eq!(
        reflect(&interfaces(), ReflectState::Receiving, ReflectEvent::Cancelled),
        (ReflectState::Stopped, ReflectAction::Stop)
    );
}

#[test]
fn faults_are_told() {
    let from = Sender::V6;
    let sending = ReflectState::Sending { from, size: 10, current: 0 };
    assert_eq!(
        fault(ReflectState::Receiving, ReflectEvent::RecvFailed),
        Some(ReflectFault::Recv)
    );
    assert_eq!(fault(sending, ReflectEvent::SendFailed), Some(ReflectFault::Send));
    assert_eq!(
        fault(sending, ReflectEvent::Sent { size: 9 }),
        Some(ReflectFault::SizeDiffers { expected: 10, sent: 9 })
    );
    assert_eq!(fault(sending, ReflectEvent::Sent { size: 10 }), None);
    assert_eq!(
        fault(ReflectState::Receiving, ReflectEvent::Received { from, size: PACKET_SIZE }),
        None
    );
    assert_eq!(PACKET_SIZE, 65536);
}
