//! The sockets of the reflector: how they are set up, and what is known of them.

use vstd::prelude::*;

use vstd::string::StringSliceAdditionalSpecFns;

use crate::address::{
    address_text, address_text_reads_back, masked_alike_where_the_bits_agree, mdns_addr,
    octets_agree, reads_as_address, unspecified, Ipv4Address, MDNS_PORT,
};

verus! {

/// What is known of an interface that packets are repeated to. The socket itself
/// is kept beside it.
#[derive(Debug)]
pub struct InterfaceSocket {
    /// interface name
    pub name: String,
    /// interface address
    pub address: Ipv4Address,
    /// interface mask
    pub mask: Ipv4Address,
    /// interface network (computed)
    pub network: Ipv4Address,
}

impl InterfaceSocket {
    /// The network of an interface is what the mask keeps of its address.
    pub open spec fn wf(&self) -> bool {
        self.network == self.address.masked_by(self.mask)
    }

    /// The line that announces the interface.
    pub open spec fn announcement(&self) -> Seq<char> {
        "dev "@ + self.name@ + " addr "@ + address_text(self.address) + " mask "@ + address_text(
            self.mask,
        ) + " net "@ + address_text(self.network)
    }

    /// An interface of that name, address and mask.
    pub fn new(name: String, address: Ipv4Address, mask: Ipv4Address) -> (socket: InterfaceSocket)
        ensures
            socket.wf(),
            socket.name == name,
            socket.address == address,
            socket.mask == mask,
    {
        let network = address.bitand(&mask);
        InterfaceSocket { name, address, mask, network }
    }

    /// The line that announces the interface.
    pub fn announce(&self) -> (line: String)
        ensures
            line@ == self.announcement(),
    {
        let mut line = String::new();
        line.append("dev ");
        line.append(self.name.as_str());
        line.append(" addr ");
        self.address.append_to(&mut line);
        line.append(" mask ");
        self.mask.append_to(&mut line);
        line.append(" net ");
        self.network.append_to(&mut line);
        line
    }
}

/// One step of setting up a socket. A step that fails ends the setting up.
#[derive(Debug, PartialEq, Eq)]
pub enum SocketStep {
    /// Make a datagram socket of the fourth version of the protocol.
    Open,
    /// Whether the socket's calls return at once.
    SetNonblocking(bool),
    /// Whether the socket can share its address.
    SetReuseAddress(bool),
    /// Tie the socket to the device of that name.
    BindDevice(String),
    /// Bind the socket to an address and a port.
    Bind { address: Ipv4Address, port: u16 },
    /// Let the receiving socket join a group on the interface of that address.
    JoinMulticast { group: Ipv4Address, interface: Ipv4Address },
    /// Whether what is sent to a group comes back to this host too.
    SetMulticastLoop(bool),
    /// Whether the socket tells on which interface a packet came.
    SetPacketInfo(bool),
    /// Hand the socket to the runtime.
    Register,
}

/// The steps that set up the receiving socket.
pub open spec fn recv_steps() -> Seq<SocketStep> {
    seq![
        SocketStep::Open,
        SocketStep::SetNonblocking(true),
        SocketStep::SetReuseAddress(true),
        SocketStep::Bind { address: unspecified(), port: MDNS_PORT },
        SocketStep::SetMulticastLoop(true),
        SocketStep::SetPacketInfo(true),
        SocketStep::Register,
    ]
}

/// The steps that set up the sending socket of an interface.
pub open spec fn send_steps(name: String, address: Ipv4Address) -> Seq<SocketStep> {
    seq![
        SocketStep::Open,
        SocketStep::SetNonblocking(true),
        SocketStep::SetReuseAddress(true),
        SocketStep::BindDevice(name),
        SocketStep::Bind { address, port: MDNS_PORT },
        SocketStep::JoinMulticast { group: mdns_addr(), interface: address },
        SocketStep::SetMulticastLoop(true),
        SocketStep::Register,
    ]
}

/// The steps that set up the receiving socket.
pub fn create_recv_sock() -> (steps: Vec<SocketStep>)
    ensures
        steps@ == recv_steps(),
{
    vec![
        SocketStep::Open,
        SocketStep::SetNonblocking(true),
        SocketStep::SetReuseAddress(true),
        SocketStep::Bind { address: unspecified(), port: MDNS_PORT },
        SocketStep::SetMulticastLoop(true),
        SocketStep::SetPacketInfo(true),
        SocketStep::Register,
    ]
}

/// The steps that set up the sending socket of an interface, and what is known of
/// the interface once they are done. `details` are its address and its mask; where they
/// could not be had, there is nothing to set up and nothing to announce, only that
/// error.
pub fn create_send_sock<E>(
    ifname: String,
    details: Result<(Ipv4Address, Ipv4Address), E>,
) -> (result: Result<(Vec<SocketStep>, InterfaceSocket), E>)
    ensures
        match details {
            Ok((address, mask)) => {
                &&& result matches Ok((steps, socket))
                &&& steps@ == send_steps(ifname, address)
                &&& socket.wf()
                &&& socket.name == ifname
                &&& socket.address == address
                &&& socket.mask == mask
            },
            Err(error) => result == Err::<(Vec<SocketStep>, InterfaceSocket), E>(error),
        },
{
    let (address, mask) = match details {
        Ok(details) => details,
        Err(error) => return Err(error),
    };
    let steps = vec![
        SocketStep::Open,
        SocketStep::SetNonblocking(true),
        SocketStep::SetReuseAddress(true),
        SocketStep::BindDevice(ifname.clone()),
        SocketStep::Bind { address, port: MDNS_PORT },
        SocketStep::JoinMulticast { group: mdns_addr(), interface: address },
        SocketStep::SetMulticastLoop(true),
        SocketStep::Register,
    ];
    Ok((steps, InterfaceSocket::new(ifname, address, mask)))
}

/// How far the setting up of a socket has come.
#[derive(Clone, Copy, Debug, PartialEq, Eq, Structural)]
pub enum SetupState {
    /// The step of that index is to be taken.
    Running { at: usize },
    /// All steps are done.
    Ready,
    /// The step of that index failed.
    Failed { at: usize },
}

/// What comes next when all steps before `at` are done.
pub open spec fn setup_at(count: nat, at: int) -> SetupState {
    if at < count {
        SetupState::Running { at: at as usize }
    } else {
        SetupState::Ready
    }
}

/// What comes next when the step `at` has been taken.
pub open spec fn setup_step(count: nat, at: int, succeeded: bool) -> SetupState {
    if succeeded {
        setup_at(count, at + 1)
    } else {
        SetupState::Failed { at: at as usize }
    }
}

/// What the setting up of a socket begins with.
pub fn setup_begin(steps: &Vec<SocketStep>) -> (state: SetupState)
    ensures
        state == setup_at(steps@.len(), 0),
{
    if steps.len() > 0 {
        SetupState::Running { at: 0 }
    } else {
        SetupState::Ready
    }
}

/// What comes next when the step `at` has been taken: the step behind it, or nothing
/// where it failed or was the last one.
pub fn setup_next(steps: &Vec<SocketStep>, at: usize, succeeded: bool) -> (state: SetupState)
    requires
        at < steps@.len(),
    ensures
        state == setup_step(steps@.len(), at as int, succeeded),
{
    if !succeeded {
        SetupState::Failed { at }
    } else if at < steps.len() - 1 {
        SetupState::Running { at: at + 1 }
    } else {
        SetupState::Ready
    }
}

/// Where the setting up stands after steps with these outcomes, the first one first.
pub open spec fn setup_run(count: nat, outcomes: Seq<bool>) -> SetupState
    decreases outcomes.len(),
{
    if outcomes.len() == 0 {
        setup_at(count, 0)
    } else {
        match setup_run(count, outcomes.drop_last()) {
            SetupState::Running { at } => setup_step(count, at as int, outcomes.last()),
            ended => ended,
        }
    }
}

/// A socket is ready exactly when every step was taken and succeeded; and the
/// setting up has failed exactly when some step failed, at the first one that did.
pub proof fn ready_when_every_step_succeeded(count: nat, outcomes: Seq<bool>)
    requires
        count <= usize::MAX,
        outcomes.len() <= count,
    ensures
        setup_run(count, outcomes) is Ready <==> outcomes.len() == count && !outcomes.contains(false),
        setup_run(count, outcomes) is Failed <==> outcomes.contains(false),
        setup_run(count, outcomes) matches SetupState::Failed { at } ==> {
            &&& at < outcomes.len()
            &&& !outcomes[at as int]
            &&& !outcomes.take(at as int).contains(false)
        },
        setup_run(count, outcomes) matches SetupState::Running { at } ==> at == outcomes.len(),
    decreases outcomes.len(),
{
    if outcomes.len() > 0 {
        let before = outcomes.drop_last();
        ready_when_every_step_succeeded(count, before);
        assert(outcomes == before.push(outcomes.last()));
        if before.contains(false) {
            assert(outcomes[before.index_of(false)] == false);
        }
        if !before.contains(false) && outcomes.contains(false) {
            let i = outcomes.index_of(false);
            if i < before.len() {
                assert(before[i] == false);
            }
        }
        if !outcomes.last() {
            assert(outcomes[outcomes.len() - 1] == false);
        }
        if let SetupState::Failed { at } = setup_run(count, before) {
            assert(outcomes.take(at as int) == before.take(at as int));
        }
        if !before.contains(false) {
            assert(outcomes.take(before.len() as int) == before);
        }
    }
}

/// The size of the field that names an interface in a request to the kernel.
pub const IFNAMSIZ: usize = 16;

/// Why a name cannot be put into a request: it holds a zero byte at that position.
#[derive(Clone, Copy, Debug, PartialEq, Eq, Structural)]
pub struct NulInName {
    pub position: usize,
}

/// How many bytes of a name fit into a request, which ends in a zero byte.
pub open spec fn kept_len(name: Seq<u8>) -> nat {
    if name.len() < IFNAMSIZ {
        name.len()
    } else {
        (IFNAMSIZ - 1) as nat
    }
}

/// The field that names an interface: the name as far as it fits, then zero bytes.
pub open spec fn request_name(name: Seq<u8>) -> Seq<u8> {
    Seq::new(
        IFNAMSIZ as nat,
        |i: int|
            if i < kept_len(name) {
                name[i]
            } else {
                0u8
            },
    )
}

/// The field that names an interface in a request to the kernel.
pub fn interface_request(ifname: &str) -> (result: Result<[u8; IFNAMSIZ], NulInName>)
    ensures
        match result {
            Ok(field) => {
                &&& !ifname.spec_bytes().contains(0u8)
                &&& field@ == request_name(ifname.spec_bytes())
            },
            Err(error) => {
                &&& error.position < ifname.spec_bytes().len()
                &&& ifname.spec_bytes()[error.position as int] == 0
                &&& !ifname.spec_bytes().take(error.position as int).contains(0u8)
            },
        },
{
    let name = ifname.as_bytes();
    let mut field: [u8; IFNAMSIZ] = [0;IFNAMSIZ];
    let mut i: usize = 0;
    while i < name.len()
        invariant
            name@ == ifname.spec_bytes(),
            i <= name@.len(),
            !name@.take(i as int).contains(0u8),
            field@.len() == IFNAMSIZ,
            forall|j: int|
                0 <= j < IFNAMSIZ ==> #[trigger] field@[j] == if j < i && j < kept_len(name@) {
                    name@[j]
                } else {
                    0u8
                },
        decreases name.len() - i,
    {
        if name[i] == 0 {
            return Err(NulInName { position: i });
        }
        if i < IFNAMSIZ - 1 {
            field[i] = name[i];
        }
        assert(name@.take(i + 1) == name@.take(i as int).push(name@[i as int]));
        i += 1;
    }
    assert(name@.take(name@.len() as int) == name@);
    assert(field@ == request_name(name@));
    Ok(field)
}

/// The field always ends in a zero byte, and a name that fits is kept whole with a
/// zero byte behind it.
pub proof fn request_name_is_terminated(name: Seq<u8>)
    ensures
        request_name(name).len() == IFNAMSIZ,
        request_name(name).last() == 0,
        name.len() < IFNAMSIZ ==> request_name(name).take(name.len() as int) == name && request_name(
            name,
        )[name.len() as int] == 0,
{
}

/// Two names that fit and hold no zero byte are told apart by their fields.
pub proof fn short_names_are_told_apart(left: Seq<u8>, right: Seq<u8>)
    requires
        left.len() < IFNAMSIZ,
        right.len() < IFNAMSIZ,
        !left.contains(0u8),
        !right.contains(0u8),
        request_name(left) == request_name(right),
    ensures
        left == right,
{
    if left.len() < right.len() {
        assert(right[left.len() as int] == request_name(left)[left.len() as int]);
    } else if right.len() < left.len() {
        assert(left[right.len() as int] == request_name(right)[right.len() as int]);
    }
    assert(left.len() == right.len());
    assert forall|i: int| 0 <= i < left.len() implies left[i] == right[i] by {
        assert(request_name(left)[i] == left[i]);
        assert(request_name(right)[i] == right[i]);
    }
}

/// Of a name that does not fit, only the bytes that do make a difference: two names
/// that agree in those have the same field.
pub proof fn long_names_are_cut_alike(left: Seq<u8>, right: Seq<u8>)
    requires
        left.len() >= IFNAMSIZ - 1,
        right.len() >= IFNAMSIZ - 1,
        left.take(IFNAMSIZ - 1) == right.take(IFNAMSIZ - 1),
    ensures
        request_name(left) == request_name(right),
{
    assert forall|i: int| 0 <= i < IFNAMSIZ - 1 implies left[i] == right[i] by {
        assert(left[i] == left.take(IFNAMSIZ - 1)[i]);
        assert(right[i] == right.take(IFNAMSIZ - 1)[i]);
    }
    assert(request_name(left) == request_name(right));
}

/// What the kernel answered to a request for an address: zero where it worked, and
/// the octets in the order in which they are sent.
#[derive(Clone, Copy, Debug)]
pub struct AddressReply {
    pub status: i32,
    pub octets: [u8; 4],
}

impl AddressReply {
    /// The address of the answer; no address where the request failed.
    pub open spec fn address_spec(self) -> Ipv4Address {
        if self.status == 0 {
            Ipv4Address {
                a: self.octets@[0],
                b: self.octets@[1],
                c: self.octets@[2],
                d: self.octets@[3],
            }
        } else {
            unspecified()
        }
    }

    /// The address of the answer; no address where the request failed.
    pub fn address(&self) -> (address: Ipv4Address)
        ensures
            address == self.address_spec(),
    {
        if 0 == self.status {
            Ipv4Address::from_octets(self.octets)
        } else {
            unspecified()
        }
    }
}

/// The address and the mask of an interface, from what the kernel answered.
pub fn get_interface_details(netmask: AddressReply, address: AddressReply) -> (details: (
    Ipv4Address,
    Ipv4Address,
))
    ensures
        details == (address.address_spec(), netmask.address_spec()),
        address.status == 0 ==> seq![details.0.a, details.0.b, details.0.c, details.0.d]
            == address.octets@,
        netmask.status == 0 ==> seq![details.1.a, details.1.b, details.1.c, details.1.d]
            == netmask.octets@,
{
    proof {
        answer_keeps_every_octet(address);
        answer_keeps_every_octet(netmask);
    }
    let interface_mask = netmask.address();
    let interface_address = address.address();
    (interface_address, interface_mask)
}

/// The address of an answer has the octets of the answer, in their order; that of a
/// failed request has none but zeros.
pub proof fn answer_keeps_every_octet(reply: AddressReply)
    ensures
        ({
            let address = reply.address_spec();
            let octets = seq![address.a, address.b, address.c, address.d];
            octets == if reply.status == 0 {
                reply.octets@
            } else {
                seq![0u8, 0u8, 0u8, 0u8]
            }
        }),
{
}

/// Two answers that differ in an octet give addresses that differ.
pub proof fn answers_are_told_apart(left: AddressReply, right: AddressReply, i: int)
    requires
        left.status == 0,
        right.status == 0,
        0 <= i < 4,
        left.octets@[i] != right.octets@[i],
    ensures
        left.address_spec() != right.address_spec(),
{
    answer_keeps_every_octet(left);
    answer_keeps_every_octet(right);
}

/// The network of an interface holds, octet by octet, the bits that are set both in its
/// address and in its mask.
pub proof fn network_is_address_and_mask(socket: InterfaceSocket)
    ensures
        socket.wf() <==> {
            &&& socket.network.a == socket.address.a & socket.mask.a
            &&& socket.network.b == socket.address.b & socket.mask.b
            &&& socket.network.c == socket.address.c & socket.mask.c
            &&& socket.network.d == socket.address.d & socket.mask.d
        },
{
}

/// Two interfaces with one mask are on one network exactly where their addresses agree
/// in every bit that the mask sets.
pub proof fn one_network_where_the_bits_agree(left: InterfaceSocket, right: InterfaceSocket)
    requires
        left.wf(),
        right.wf(),
        left.mask == right.mask,
    ensures
        left.network == right.network <==> {
            &&& octets_agree(left.address.a, right.address.a, left.mask.a)
            &&& octets_agree(left.address.b, right.address.b, left.mask.b)
            &&& octets_agree(left.address.c, right.address.c, left.mask.c)
            &&& octets_agree(left.address.d, right.address.d, left.mask.d)
        },
{
    masked_alike_where_the_bits_agree(left.address, right.address, left.mask);
}

/// The line of an announcement, with these texts for the addresses.
pub open spec fn announced(
    name: Seq<char>,
    address: Seq<char>,
    mask: Seq<char>,
    network: Seq<char>,
) -> Seq<char> {
    "dev "@ + name + " addr "@ + address + " mask "@ + mask + " net "@ + network
}

/// The line that announces an interface tells its name, and texts that read as its
/// address, its mask and its network.
pub proof fn announcement_reads_back(socket: InterfaceSocket)
    ensures
        exists|address: Seq<char>, mask: Seq<char>, network: Seq<char>|
            {
                &&& socket.announcement() == #[trigger] announced(
                    socket.name@,
                    address,
                    mask,
                    network,
                )
                &&& reads_as_address(address, socket.address)
                &&& reads_as_address(mask, socket.mask)
                &&& reads_as_address(network, socket.network)
            },
{
    address_text_reads_back(socket.address);
    address_text_reads_back(socket.mask);
    address_text_reads_back(socket.network);
    assert(socket.announcement() == announced(
        socket.name@,
        address_text(socket.address),
        address_text(socket.mask),
        address_text(socket.network),
    ));
}

/// The sending socket of every interface is tied to the device of that name and bound to
/// that very address, and the receiving socket joins the multicast DNS group there; it
/// is made first, and handed to the runtime last.
pub proof fn sending_socket_is_on_its_interface(name: String, address: Ipv4Address, i: int)
    ensures
        ({
            let steps = send_steps(name, address);
            &&& steps.len() == 8
            &&& steps[0] is Open
            &&& steps[1] == SocketStep::SetNonblocking(true)
            &&& steps[2] == SocketStep::SetReuseAddress(true)
            &&& steps[3] is BindDevice
            &&& steps[4] is Bind
            &&& steps[5] is JoinMulticast
            &&& steps[6] == SocketStep::SetMulticastLoop(true)
            &&& steps[7] is Register
            &&& 0 <= i < steps.len() ==> {
                &&& steps[i] matches SocketStep::BindDevice(device) ==> device == name
                &&& steps[i] matches SocketStep::Bind { address: bound, port } ==> bound == address
                    && port == 5353
                &&& steps[i] matches SocketStep::JoinMulticast { group, interface } ==> interface
                    == address && group == (Ipv4Address { a: 224, b: 0, c: 0, d: 251 })
            }
        }),
{
}

/// The receiving socket is bound to no address in particular, and to the port of
/// multicast DNS; it is made first, and handed to the runtime last.
pub proof fn receiving_socket_is_on_every_interface(i: int)
    ensures
        ({
            let steps = recv_steps();
            &&& steps.len() == 7
            &&& steps[0] is Open
            &&& steps[1] == SocketStep::SetNonblocking(true)
            &&& steps[2] == SocketStep::SetReuseAddress(true)
            &&& steps[3] is Bind
            &&& steps[4] == SocketStep::SetMulticastLoop(true)
            &&& steps[5] == SocketStep::SetPacketInfo(true)
            &&& steps[6] is Register
            &&& 0 <= i < steps.len() ==> (steps[i] matches SocketStep::Bind { address, port }
                ==> address == (Ipv4Address { a: 0, b: 0, c: 0, d: 0 }) && port == 5353)
        }),
{
}

/// Each of the first 15 bytes of the field is the byte of the name in that place, or zero
/// where the name has none there; the last byte is zero.
pub proof fn request_name_keeps_what_fits(name: Seq<u8>, i: int)
    requires
        0 <= i < 16,
    ensures
        request_name(name).len() == 16,
        i < 15 && i < name.len() ==> request_name(name)[i] == name[i],
        i == 15 || i >= name.len() ==> request_name(name)[i] == 0,
{
}

/// Each step that succeeds leads to the one behind it, until all are done; a step that
/// fails ends the setting up at that step.
pub proof fn step_leads_to_the_next(count: nat, at: int)
    requires
        0 <= at < count <= usize::MAX,
    ensures
        setup_at(count, 0) == (SetupState::Running { at: 0 }),
        setup_step(count, at, true) == if at == count - 1 {
            SetupState::Ready
        } else {
            SetupState::Running { at: (at + 1) as usize }
        },
        setup_step(count, at, false) == (SetupState::Failed { at: at as usize }),
{
}

} // verus!
