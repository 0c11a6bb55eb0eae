use mdns_reflector::address::{mdns_addr, unspecified, Ipv4Address};
use mdns_reflector::sockets::{
    create_recv_sock, create_send_sock, get_interface_details, interface_request, setup_begin,
    setup_next, AddressReply, NulInName, SetupState, SocketStep, IFNAMSIZ,
};

fn address(octets: [u8; 4]) -> Ipv4Address {
    Ipv4Address::from_octets(octets)
}

#[test]
fn receiving_socket_is_set_up_in_order() {
    assert_eq!(
        create_recv_sock(),
        vec![
            SocketStep::Open,
            SocketStep::SetNonblocking(true),
            SocketStep::SetReuseAddress(true),
            SocketStep::Bind { address: unspecified(), port: 5353 },
            SocketStep::SetMulticastLoop(true),
            SocketStep::SetPacketInfo(true),
            SocketStep::Register,
        ]
    );
}

#[test]
fn sending_socket_is_set_up_in_order() {
    let own = address([192, 168, 1, 2]);
    let details: Result<_, NulInName> = Ok((own, address([255, 255, 255, 0])));
    let (steps, socket) = create_send_sock("eth0".to_string(), details).unwrap();
    assert_eq!(
        steps,
        vec![
            SocketStep::Open,
            SocketStep::SetNonblocking(true),
            SocketStep::SetReuseAddress(true),
            SocketStep::BindDevice("eth0".to_string()),
            SocketStep::Bind { address: own, port: 5353 },
            SocketStep::JoinMulticast { group: mdns_addr(), interface: own },
            SocketStep::SetMulticastLoop(true),
            SocketStep::Register,
        ]
    );
    assert_eq!(socket.name, "eth0");
    assert_eq!(socket.address, own);
    assert_eq!(socket.mask, address([255, 255, 255, 0]));
    assert_eq!(socket.network, address([192, 168, 1, 0]));
}

#[test]
fn sending_socket_without_details_is_not_set_up() {
    let missing = NulInName { position: 3 };
    let result = create_send_sock("eth0".to_string(), Err(missing));
    assert_eq!(result.err(), Some(missing));
}

#[test]
fn interface_is_announced() {
    let details: Result<_, NulInName> = Ok((address([10, 0, 17, 9]), address([255, 255, 0, 0])));
    let (_, socket) = create_send_sock("wlan0".to_string(), details).unwrap();
    assert_eq!(socket.announce(), "dev wlan0 addr 10.0.17.9 mask 255.255.0.0 net 10.0.0.0");
}

#[test]
fn set_up_ends_with_the_last_step() {
    let steps = create_recv_sock();
    let mut state = setup_begin(&steps);
    let mut taken = 0;
    while let SetupState::Running { at } = state {
        assert_eq!(at, taken);
        taken += 1;
        state = setup_next(&steps, at, true);
    }
    assert_eq!(state, SetupState::Ready);
    assert_eq!(taken, 7);
    assert_eq!(setup_begin(&vec![]), SetupState::Ready);
}

#[test]
fn set_up_ends_with_the_first_failure() {
    let steps = create_recv_sock();
    assert_eq!(setup_next(&steps, 3, false), SetupState::Failed { at: 3 });
    assert_eq!(setup_next(&steps, 6, false), SetupState::Failed { at: 6 });
}

#[test]
fn interface_name_is_padded_with_zeros() {
    let mut expected = [0u8; IFNAMSIZ];
    expected[..4].copy_from_slice(b"eth0");
    assert_eq!(interface_request("eth0"), Ok(expected));
    assert_eq!(interface_request(""), Ok([0u8; 16]));
}

#[test]
fn long_interface_name_is_cut() {
    let fits = interface_request("abcdefghijklmno").unwrap();
    assert_eq!(&fits[..15], b"abcdefghijklmno");
    assert_eq!(fits[15], 0);
    assert_eq!(interface_request("abcdefghijklmnopqrstuvw"), Ok(fits));
    assert_eq!(interface_request("abcdefghijklmnop"), Ok(fits));
    let wide = interface_request("\u{e9}\u{e9}").unwrap();
    assert_eq!(&wide[..5], &[0xc3, 0xa9, 0xc3, 0xa9, 0]);
}

#[test]
fn names_that_agree_as_far_as_they_fit_are_one_request() {
    assert_eq!(interface_request("abcdefghijklmnoX"), interface_request("abcdefghijklmnoYZ"));
    assert_ne!(interface_request("abcdefghijklmnXo"), interface_request("abcdefghijklmnYo"));
}

#[test]
fn zero_byte_in_an_interface_name_is_an_error() {
    assert_eq!(interface_request("\0"), Err(NulInName { position: 0 }));
    assert_eq!(interface_request("et\0h\0"), Err(NulInName { position: 2 }));
    assert_eq!(
        interface_request("abcdefghijklmnopqrst\0"),
        Err(NulInName { position: 20 })
    );
}

#[test]
fn details_of_an_interface_are_read() {
    let netmask = AddressReply { status: 0, octets: [255, 255, 255, 0] };
    let own = AddressReply { status: 0, octets: [192, 168, 1, 2] };
    assert_eq!(
        get_interface_details(netmask, own),
        (address([192, 168, 1, 2]), address([255, 255, 255, 0]))
    );
}

#[test]
fn details_that_are_not_known_are_unspecified() {
    let failed = AddressReply { status: -1, octets: [1, 2, 3, 4] };
    let own = AddressReply { status: 0, octets: [192, 168, 1, 2] };
    assert_eq!(get_interface_details(failed, own), (address([192, 168, 1, 2]), unspecified()));
    assert_eq!(get_interface_details(failed, failed), (unspecified(), unspecified()));
}
