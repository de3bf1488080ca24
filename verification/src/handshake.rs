//! The client's side of joining a remote server: the decisions of the handshake, from
//! each socket event to the next state and the reply to send.
use vstd::prelude::*;

verus! {

/// The first packet a client sends to a server it joins.
pub const HELLO: u8 = 69;

/// Why the client could not join a server.
#[derive(Debug, PartialEq, Eq)]
pub enum ConnectionError {
    /// The server did not answer in the order of the handshake.
    InvalidHandshake,
    /// The server runs another kernel version.
    DifferentServerKernelVersion((u8, u8, u8)),
    /// The server sent no registry hash.
    MissingRegistryHash,
    /// The server sent no mod list after the registry hashes differed.
    MissingModList,
    /// The registry hashes differ: the server runs other mods.
    InvalidMods,
    /// The registry hashes differ and the server's mod list did not decode.
    InvalidModList,
}

/// What the socket reported while the client waited for the server.
pub enum HandshakeEvent {
    /// The connection is established.
    Connect,
    /// A packet with this payload arrived.
    Packet(Vec<u8>),
    /// A packet arrived while the mod list was awaited: whether it decoded as a mod list.
    /// A raw [`HandshakeEvent::Packet`] in that state counts as one that did not decode.
    ModList(bool),
    /// Anything else, or nothing in time.
    Other,
}

/// Where the handshake stands.
#[derive(Debug, PartialEq, Eq)]
pub enum HandshakeState {
    AwaitConnect,
    AwaitKernelVersion,
    AwaitHash,
    AwaitModList,
    Connected,
    Failed(ConnectionError),
}

/// The client's side of a handshake, with the kernel version and registry hash it runs.
pub struct ClientHandshake {
    pub state: HandshakeState,
    pub kernel_version: (u8, u8, u8),
    pub hash: Vec<u8>,
}

/// The kernel version that a version packet announces: its first three bytes.
pub open spec fn announced_version(p: Seq<u8>) -> (u8, u8, u8) {
    (p[0], p[1], p[2])
}

/// The state after an event, and the payload the client sends in reply, if any.
pub open spec fn spec_step(state: HandshakeState, kernel: (u8, u8, u8), hash: Seq<u8>, event: HandshakeEvent) -> (HandshakeState, Option<Seq<u8>>) {
    match state {
        HandshakeState::AwaitConnect => match event {
            HandshakeEvent::Connect => (HandshakeState::AwaitKernelVersion, None),
            _ => (HandshakeState::Failed(ConnectionError::InvalidHandshake), None),
        },
        HandshakeState::AwaitKernelVersion => match event {
            HandshakeEvent::Packet(p) => if announced_version(p@) == kernel {
                (HandshakeState::AwaitHash, Some(seq![1u8]))
            } else {
                (HandshakeState::Failed(ConnectionError::DifferentServerKernelVersion(announced_version(p@))), Some(seq![0u8]))
            },
            _ => (HandshakeState::Failed(ConnectionError::InvalidHandshake), None),
        },
        HandshakeState::AwaitHash => match event {
            HandshakeEvent::Packet(p) => if p@ == hash {
                (HandshakeState::Connected, Some(seq![0u8]))
            } else {
                (HandshakeState::AwaitModList, Some(seq![1u8]))
            },
            _ => (HandshakeState::Failed(ConnectionError::MissingRegistryHash), None),
        },
        HandshakeState::AwaitModList => match event {
            HandshakeEvent::ModList(true) => (HandshakeState::Failed(ConnectionError::InvalidMods), None),
            HandshakeEvent::ModList(false) => (HandshakeState::Failed(ConnectionError::InvalidModList), None),
            HandshakeEvent::Packet(_) => (HandshakeState::Failed(ConnectionError::InvalidModList), None),
            _ => (HandshakeState::Failed(ConnectionError::MissingModList), None),
        },
        HandshakeState::Connected => (HandshakeState::Connected, None),
        HandshakeState::Failed(e) => (HandshakeState::Failed(e), None),
    }
}

/// Whether an event can be handed to a handshake in this state: a version packet holds
/// at least the three bytes of a version.
pub open spec fn acceptable(state: HandshakeState, event: HandshakeEvent) -> bool {
    state == HandshakeState::AwaitKernelVersion ==> (event matches HandshakeEvent::Packet(p) ==> p@.len() >= 3)
}

/// Whether two byte strings are equal.
fn bytes_eq(a: &Vec<u8>, b: &Vec<u8>) -> (r: bool)
    ensures
        r == (a@ == b@),
{
    if a.len() != b.len() {
        return false;
    }
    let mut i: usize = 0;
    while i < a.len()
        invariant
            a@.len() == b@.len(),
            i <= a@.len(),
            forall|j: int| 0 <= j < i ==> a@[j] == b@[j],
        decreases a@.len() - i,
    {
        if a[i] != b[i] {
            return false;
        }
        i = i + 1;
    }
    assert(a@ =~= b@);
    true
}

impl ClientHandshake {
    /// A handshake that has just greeted the server: the greeting is the payload to send.
    pub fn new(kernel_version: (u8, u8, u8), hash: Vec<u8>) -> (r: (ClientHandshake, Vec<u8>))
        ensures
            r.0.state == HandshakeState::AwaitConnect,
            r.0.kernel_version == kernel_version,
            r.0.hash@ == hash@,
            r.1@ == seq![HELLO],
    {
        let mut hello: Vec<u8> = Vec::new();
        hello.push(HELLO);
        (ClientHandshake { state: HandshakeState::AwaitConnect, kernel_version, hash }, hello)
    }

    /// Takes the next socket event: moves the handshake on and gives the payload to send
    /// in reply, if any.
    pub fn step(&mut self, event: HandshakeEvent) -> (r: Option<Vec<u8>>)
        requires
            acceptable(old(self).state, event),
        ensures
            final(self).kernel_version == old(self).kernel_version,
            final(self).hash@ == old(self).hash@,
            final(self).state == spec_step(old(self).state, old(self).kernel_version, old(self).hash@, event).0,
            r matches Some(v) ==> spec_step(old(self).state, old(self).kernel_version, old(self).hash@, event).1 == Some(v@),
            r is None ==> spec_step(old(self).state, old(self).kernel_version, old(self).hash@, event).1 is None,
    {
        match self.state {
            HandshakeState::AwaitConnect => {
                match event {
                    HandshakeEvent::Connect => {
                        self.state = HandshakeState::AwaitKernelVersion;
                    },
                    _ => {
                        self.state = HandshakeState::Failed(ConnectionError::InvalidHandshake);
                    },
                }
                None
            },
            HandshakeState::AwaitKernelVersion => {
                match event {
                    HandshakeEvent::Packet(p) => {
                        let version = (p[0], p[1], p[2]);
                        let k = self.kernel_version;
                        if version.0 == k.0 && version.1 == k.1 && version.2 == k.2 {
                            self.state = HandshakeState::AwaitHash;
                            let mut reply: Vec<u8> = Vec::new();
                            reply.push(1);
                            assert(reply@ =~= seq![1u8]);
                            Some(reply)
                        } else {
                            self.state = HandshakeState::Failed(ConnectionError::DifferentServerKernelVersion(version));
                            let mut reply: Vec<u8> = Vec::new();
                            reply.push(0);
                            assert(reply@ =~= seq![0u8]);
                            Some(reply)
                        }
                    },
                    _ => {
                        self.state = HandshakeState::Failed(ConnectionError::InvalidHandshake);
                        None
                    },
                }
            },
            HandshakeState::AwaitHash => {
                match event {
                    HandshakeEvent::Packet(p) => {
                        let mut reply: Vec<u8> = Vec::new();
                        if bytes_eq(&p, &self.hash) {
                            self.state = HandshakeState::Connected;
                            reply.push(0);
                            assert(reply@ =~= seq![0u8]);
                        } else {
                            self.state = HandshakeState::AwaitModList;
                            reply.push(1);
                            assert(reply@ =~= seq![1u8]);
                        }
                        Some(reply)
                    },
                    _ => {
                        self.state = HandshakeState::Failed(ConnectionError::MissingRegistryHash);
                        None
                    },
                }
            },
            HandshakeState::AwaitModList => {
                match event {
                    HandshakeEvent::ModList(true) => {
                        self.state = HandshakeState::Failed(ConnectionError::InvalidMods);
                    },
                    HandshakeEvent::ModList(false) => {
                        self.state = HandshakeState::Failed(ConnectionError::InvalidModList);
                    },
                    HandshakeEvent::Packet(_) => {
                        self.state = HandshakeState::Failed(ConnectionError::InvalidModList);
                    },
                    _ => {
                        self.state = HandshakeState::Failed(ConnectionError::MissingModList);
                    },
                }
                None
            },
            HandshakeState::Connected => None,
            HandshakeState::Failed(_) => None,
        }
    }
}

/// The state after a run of events from `state`.
pub open spec fn run(state: HandshakeState, kernel: (u8, u8, u8), hash: Seq<u8>, events: Seq<HandshakeEvent>) -> HandshakeState
    decreases events.len(),
{
    if events.len() == 0 {
        state
    } else {
        run(spec_step(state, kernel, hash, events[0]).0, kernel, hash, events.drop_first())
    }
}

proof fn lemma_run_stays(state: HandshakeState, kernel: (u8, u8, u8), hash: Seq<u8>, events: Seq<HandshakeEvent>)
    requires
        state == HandshakeState::Connected || state is Failed,
    ensures
        run(state, kernel, hash, events) == state,
    decreases events.len(),
{
    if events.len() > 0 {
        lemma_run_stays(state, kernel, hash, events.drop_first());
    }
}

/// A client joins a server exactly when the server answers in the order of the
/// handshake: it connects, announces the client's own kernel version, and sends the
/// client's own registry hash. Once joined, the client stays joined.
pub proof fn law_joined_iff_versions_and_hashes_agree(kernel: (u8, u8, u8), hash: Seq<u8>, events: Seq<HandshakeEvent>)
    requires
        events.len() >= 2 ==> (events[1] matches HandshakeEvent::Packet(p) ==> p@.len() >= 3),
    ensures
        run(HandshakeState::AwaitConnect, kernel, hash, events) == HandshakeState::Connected <==> {
            &&& events.len() >= 3
            &&& events[0] is Connect
            &&& events[1] matches HandshakeEvent::Packet(v) && announced_version(v@) == kernel
            &&& events[2] matches HandshakeEvent::Packet(h) && h@ == hash
        },
{
    let s0 = HandshakeState::AwaitConnect;
    if events.len() == 0 {
        return;
    }
    let e1 = events.drop_first();
    let s1 = spec_step(s0, kernel, hash, events[0]).0;
    assert(run(s0, kernel, hash, events) == run(s1, kernel, hash, e1));
    if !(events[0] is Connect) {
        lemma_run_stays(s1, kernel, hash, e1);
        return;
    }
    if e1.len() == 0 {
        return;
    }
    let e2 = e1.drop_first();
    let s2 = spec_step(s1, kernel, hash, e1[0]).0;
    assert(run(s1, kernel, hash, e1) == run(s2, kernel, hash, e2));
    assert(e1[0] == events[1]);
    if !(events[1] matches HandshakeEvent::Packet(v) && announced_version(v@) == kernel) {
        lemma_run_stays(s2, kernel, hash, e2);
        return;
    }
    if e2.len() == 0 {
        return;
    }
    let e3 = e2.drop_first();
    let s3 = spec_step(s2, kernel, hash, e2[0]).0;
    assert(run(s2, kernel, hash, e2) == run(s3, kernel, hash, e3));
    assert(e2[0] == events[2]);
    if events[2] matches HandshakeEvent::Packet(h) && h@ == hash {
        lemma_run_stays(s3, kernel, hash, e3);
    } else {
        if e3.len() > 0 {
            let s4 = spec_step(s3, kernel, hash, e3[0]).0;
            assert(run(s3, kernel, hash, e3) == run(s4, kernel, hash, e3.drop_first()));
            lemma_run_stays(s4, kernel, hash, e3.drop_first());
        } else {
            assert(run(s3, kernel, hash, e3) == s3);
        }
        assert(s3 != HandshakeState::Connected);
    }
}

/// A peer's network address: its IP address as 128 bits (an IPv4 address mapped into
/// IPv6) and its port.
#[derive(Clone, Copy, Debug, PartialEq, Eq, Structural)]
pub struct PeerAddr {
    pub ip: u128,
    pub port: u16,
}

/// What the socket reported while the client is joined to a server.
pub enum SocketEvent<P> {
    /// A packet from `from`; `payload` is what it decoded to, if it decoded.
    Packet { from: PeerAddr, payload: Option<P> },
    Connect(PeerAddr),
    Timeout(PeerAddr),
    Disconnect(PeerAddr),
}

/// A server the client has joined over the network.
pub struct RemoteServer {
    pub server_addr: PeerAddr,
    /// Whether the server has closed the connection.
    pub shutdown: bool,
}

/// The packets kept from a run of socket events, in order, and whether the run met the
/// server's disconnect. A packet is kept when it comes from the server and decoded;
/// nothing after the server's disconnect counts.
pub open spec fn received<P>(server: PeerAddr, events: Seq<SocketEvent<P>>) -> (Seq<P>, bool)
    decreases events.len(),
{
    if events.len() == 0 {
        (Seq::empty(), false)
    } else {
        let (out, stopped) = received(server, events.drop_last());
        if stopped {
            (out, true)
        } else {
            match events.last() {
                SocketEvent::Packet { from, payload } => match payload {
                    Some(p) => if from == server { (out.push(p), false) } else { (out, false) },
                    None => (out, false),
                },
                SocketEvent::Disconnect(a) => if a == server { (out, true) } else { (out, false) },
                _ => (out, false),
            }
        }
    }
}

impl RemoteServer {
    /// A server at `server_addr` that is still connected.
    pub fn new(server_addr: PeerAddr) -> (r: RemoteServer)
        ensures
            r.server_addr == server_addr,
            !r.shutdown,
    {
        RemoteServer { server_addr, shutdown: false }
    }

    /// Takes the socket events in the order they came: gives the decoded packets from the
    /// server, or nothing and a shut-down connection once the server disconnects.
    pub fn receive<P>(&mut self, events: Vec<SocketEvent<P>>) -> (r: Vec<P>)
        ensures
            final(self).server_addr == old(self).server_addr,
            received(old(self).server_addr, events@).1 ==> r@ == Seq::<P>::empty() && final(self).shutdown,
            !received(old(self).server_addr, events@).1 ==> r@ == received(old(self).server_addr, events@).0
                && final(self).shutdown == old(self).shutdown,
    {
        let ghost orig = events@;
        let ghost n = orig.len();
        let server = self.server_addr;
        let mut events = events;
        let mut rev: Vec<SocketEvent<P>> = Vec::new();
        while events.len() > 0
            invariant
                events@.len() <= n,
                orig.len() == n,
                events@ == orig.take(events@.len() as int),
                rev@.len() == n - events@.len(),
                forall|k: int| 0 <= k < rev@.len() ==> #[trigger] rev@[k] == orig[n - 1 - k],
            decreases events@.len(),
        {
            let e = events.pop().unwrap();
            rev.push(e);
        }
        let mut out: Vec<P> = Vec::new();
        let mut stopped = false;
        let ghost mut i: int = 0;
        assert(orig.take(n as int) =~= orig);
        while rev.len() > 0
            invariant_except_break
                rev@.len() == n - i,
                forall|k: int| 0 <= k < rev@.len() ==> #[trigger] rev@[k] == orig[n - 1 - k],
                !received(server, orig.take(i)).1,
                out@ == received(server, orig.take(i)).0,
                self.shutdown == old(self).shutdown,
                !stopped,
            invariant
                orig.len() == n,
                orig.take(n as int) == orig,
                0 <= i <= n,
                server == self.server_addr,
                self.server_addr == old(self).server_addr,
            ensures
                !stopped ==> (!received(server, orig).1 && out@ == received(server, orig).0
                    && self.shutdown == old(self).shutdown),
                stopped ==> (received(server, orig).1 && self.shutdown),
            decreases rev@.len(),
        {
            let e = rev.pop().unwrap();
            proof {
                assert(e == orig[i]);
                assert(orig.take(i + 1).drop_last() =~= orig.take(i));
                assert(orig.take(i + 1).last() == orig[i]);
            }
            match e {
                SocketEvent::Packet { from, payload } => {
                    match payload {
                        Some(p) => {
                            if from == server {
                                out.push(p);
                            }
                        },
                        None => {},
                    }
                },
                SocketEvent::Disconnect(a) => {
                    if a == server {
                        self.shutdown = true;
                        stopped = true;
                        proof {
                            lemma_received_stays(server, orig, i + 1);
                        }
                        break;
                    }
                },
                _ => {},
            }
            proof {
                i = i + 1;
            }
        }
        if stopped {
            return Vec::new();
        }
        out
    }
}

/// Only the server's whole address counts: a packet or a disconnect from any other peer,
/// even on the server's host, changes nothing; a decoded packet from the server is kept
/// after those before it unless the server has disconnected; and the server's disconnect
/// ends the run.
pub proof fn law_only_the_server_counts<P>(server: PeerAddr, events: Seq<SocketEvent<P>>, from: PeerAddr, p: P)
    ensures
        from != server ==> received(server, events.push(SocketEvent::Packet { from, payload: Some(p) })) == received(server, events),
        from != server ==> received(server, events.push(SocketEvent::Disconnect(from))) == received(server, events),
        received(server, events.push(SocketEvent::Packet { from: server, payload: None })) == received(server, events),
        !received(server, events).1 ==> received(server, events.push(SocketEvent::Packet { from: server, payload: Some(p) }))
            == (received(server, events).0.push(p), false),
        received(server, events.push(SocketEvent::Disconnect(server))).1,
{
    assert(events.push(SocketEvent::Packet { from, payload: Some(p) }).drop_last() =~= events);
    assert(events.push(SocketEvent::Disconnect(from)).drop_last() =~= events);
    assert(events.push(SocketEvent::Packet { from: server, payload: None }).drop_last() =~= events);
    assert(events.push(SocketEvent::Packet { from: server, payload: Some(p) }).drop_last() =~= events);
    assert(events.push(SocketEvent::Disconnect(server)).drop_last() =~= events);
}

proof fn lemma_received_stays<P>(server: PeerAddr, events: Seq<SocketEvent<P>>, m: int)
    requires
        0 <= m <= events.len(),
        received(server, events.take(m)).1,
    ensures
        received(server, events).1,
    decreases events.len() - m,
{
    if m < events.len() {
        assert(events.take(m + 1).drop_last() =~= events.take(m));
        lemma_received_stays(server, events, m + 1);
    } else {
        assert(events.take(m) =~= events);
    }
}

} // verus!
