//! Discovery: where announcements go, and the time-bounded registry of the
//! peers that announced themselves.
use vstd::prelude::*;
use crate::clock::{fresh_id, get_current_timestamp};
use crate::events::P2PEvent;
use crate::keyed::{has_key, keyed_map, lemma_keyed_at, lemma_keyed_push, lemma_keyed_update, unique_keys};
use crate::protocol::{DiscoveryMessage, PeerInfo, PeerInfoView, DISCOVERY_PORT};

verus! {

/// Loopback broadcast 127.255.255.255, for peers on the same machine.
pub const LOOPBACK_BROADCAST: u32 = 0x7fff_ffff;

/// The mDNS multicast group 224.0.0.251.
pub const MULTICAST_GROUP: u32 = 0xe000_00fb;

/// The universal broadcast 255.255.255.255.
pub const UNIVERSAL_BROADCAST: u32 = 0xffff_ffff;

/// Seconds after which a silent peer leaves the registry.
pub const STALE_TIMEOUT_SECS: u64 = 60;

/// An IPv4 interface address with its netmask. Addresses are held as
/// numbers whose most significant byte is the first octet.
#[derive(Debug, Clone, Copy, PartialEq, Eq)]
pub struct InterfaceV4 {
    pub ip: u32,
    pub netmask: u32,
}

/// Addresses in 127.0.0.0/8.
pub open spec fn is_loopback(ip: u32) -> bool {
    ip >> 24u32 == 127
}

/// The subnet broadcasts of the non-loopback interfaces, in order.
pub open spec fn subnet_targets(ifs: Seq<InterfaceV4>) -> Seq<u32>
    decreases ifs.len(),
{
    if ifs.len() == 0 {
        Seq::empty()
    } else {
        let rest = subnet_targets(ifs.drop_last());
        let last = ifs.last();
        if is_loopback(last.ip) {
            rest
        } else {
            rest.push(last.ip | !last.netmask)
        }
    }
}

/// Every (address, port) pair, address-major.
pub open spec fn cross(addrs: Seq<u32>, ports: Seq<u16>) -> Seq<(u32, u16)>
    decreases addrs.len(),
{
    if addrs.len() == 0 {
        Seq::empty()
    } else {
        cross(addrs.drop_last(), ports) + ports.map_values(|p: u16| (addrs.last(), p))
    }
}

/// The alternate discovery ports that every instance announces to.
pub open spec fn alternate_ports() -> Seq<u16> {
    seq![DISCOVERY_PORT, 6970u16, 6972u16, 6974u16, 6976u16, 6978u16, 7001u16, 7003u16]
}

/// The broadcast address of the subnet of `ip` under `netmask`: each octet of
/// the address with every bit outside the mask set.
pub fn subnet_broadcast(ip: u32, netmask: u32) -> (r: u32)
    ensures
        r == ip | !netmask,
{
    ip | !netmask
}

/// The discovery ports to announce to: the configured one, then the fixed
/// alternates (the configured port is not repeated).
pub fn candidate_ports(configured: u16) -> (r: Vec<u16>)
    ensures
        r@ == if alternate_ports().contains(configured) {
            alternate_ports()
        } else {
            seq![configured] + alternate_ports()
        },
{
    let alternates: Vec<u16> = vec![DISCOVERY_PORT, 6970, 6972, 6974, 6976, 6978, 7001, 7003];
    assert(alternates@ =~= alternate_ports());
    let mut found = false;
    let mut i: usize = 0;
    while i < alternates.len()
        invariant
            0 <= i <= alternates@.len(),
            alternates@ == alternate_ports(),
            found <==> exists|j: int| 0 <= j < i && alternates@[j] == configured,
        decreases alternates@.len() - i,
    {
        if alternates[i] == configured {
            found = true;
        }
        i = i + 1;
    }
    if found {
        alternates
    } else {
        let mut out: Vec<u16> = Vec::new();
        out.push(configured);
        let mut j: usize = 0;
        while j < alternates.len()
            invariant
                0 <= j <= alternates@.len(),
                alternates@ == alternate_ports(),
                out@ == seq![configured] + alternates@.take(j as int),
            decreases alternates@.len() - j,
        {
            out.push(alternates[j]);
            j = j + 1;
            assert(out@ =~= seq![configured] + alternates@.take(j as int));
        }
        assert(alternates@.take(alternates@.len() as int) =~= alternates@);
        out
    }
}

/// Every (address, port) pair an announcement goes to, address-major.
pub fn announce_targets(addrs: &Vec<u32>, ports: &Vec<u16>) -> (r: Vec<(u32, u16)>)
    ensures
        r@ == cross(addrs@, ports@),
{
    let mut out: Vec<(u32, u16)> = Vec::new();
    let mut i: usize = 0;
    while i < addrs.len()
        invariant
            0 <= i <= addrs@.len(),
            out@ == cross(addrs@.take(i as int), ports@),
        decreases addrs@.len() - i,
    {
        let a = addrs[i];
        let ghost before = out@;
        assert(addrs@.take(i + 1).drop_last() =~= addrs@.take(i as int));
        let mut j: usize = 0;
        while j < ports.len()
            invariant
                0 <= i < addrs@.len(),
                a == addrs@[i as int],
                0 <= j <= ports@.len(),
                before == cross(addrs@.take(i as int), ports@),
                out@ == before + ports@.take(j as int).map_values(|p: u16| (a, p)),
            decreases ports@.len() - j,
        {
            out.push((a, ports[j]));
            j = j + 1;
            assert(out@ =~= before + ports@.take(j as int).map_values(|p: u16| (a, p)));
        }
        assert(ports@.take(ports@.len() as int) =~= ports@);
        i = i + 1;
        assert(addrs@.take(i as int).last() == a);
        assert(out@ =~= cross(addrs@.take(i as int), ports@));
    }
    assert(addrs@.take(addrs@.len() as int) =~= addrs@);
    out
}

/// A registry entry's key: the peer's id.
pub open spec fn peer_key() -> spec_fn(PeerInfoView) -> Seq<char> {
    |p: PeerInfoView| p.id
}

/// Models of a sequence of peer descriptions.
pub open spec fn infos_view(s: Seq<PeerInfo>) -> Seq<PeerInfoView> {
    s.map_values(|p: PeerInfo| p@)
}

/// A peer not heard from for `timeout` seconds or more at time `now` is stale.
pub open spec fn is_fresh(p: PeerInfoView, now: u64, timeout: u64) -> bool {
    (now as int) - (p.last_seen as int) < timeout as int
}

/// The entries of a registry that are not stale.
pub open spec fn fresh_part(m: Map<Seq<char>, PeerInfoView>, now: u64, timeout: u64) -> Map<
    Seq<char>,
    PeerInfoView,
> {
    m.restrict(m.dom().filter(|k: Seq<char>| is_fresh(m[k], now, timeout)))
}

/// The registry after an announcement from `peer_id`: the peer is recorded
/// (or refreshed) with the sender's address and the reception time.
pub open spec fn announced(
    m: Map<Seq<char>, PeerInfoView>,
    info: PeerInfoView,
) -> Map<Seq<char>, PeerInfoView> {
    m.insert(info.id, info)
}

/// Local discovery state: this peer's identity, whether the announce and
/// receive loops should run, and the registry of discovered peers keyed by id.
pub struct DiscoveryService {
    peer_id: String,
    peer_name: String,
    tcp_port: u16,
    discovery_port: u16,
    peers: Vec<PeerInfo>,
    running: bool,
}

impl View for DiscoveryService {
    type V = Map<Seq<char>, PeerInfoView>;

    /// The registry: each discovered peer's id mapped to its description.
    closed spec fn view(&self) -> Map<Seq<char>, PeerInfoView> {
        keyed_map(infos_view(self.peers@), peer_key())
    }
}

impl DiscoveryService {
    /// The registry holds each id at most once.
    pub closed spec fn wf(&self) -> bool {
        unique_keys(infos_view(self.peers@), peer_key())
    }

    /// Whether the loops are meant to run.
    pub closed spec fn running(&self) -> bool {
        self.running
    }

    /// This peer's id.
    pub closed spec fn spec_peer_id(&self) -> String {
        self.peer_id
    }

    /// This peer's display name.
    pub closed spec fn spec_peer_name(&self) -> String {
        self.peer_name
    }

    /// The TCP port this peer accepts sessions on.
    pub closed spec fn spec_tcp_port(&self) -> u16 {
        self.tcp_port
    }

    /// The UDP port this peer receives announcements on.
    pub closed spec fn spec_discovery_port(&self) -> u16 {
        self.discovery_port
    }

    /// This peer's id.
    pub fn peer_id(&self) -> (r: &String)
        ensures
            *r == self.spec_peer_id(),
    {
        &self.peer_id
    }

    /// This peer's display name.
    pub fn peer_name(&self) -> (r: &String)
        ensures
            *r == self.spec_peer_name(),
    {
        &self.peer_name
    }

    /// The TCP port this peer accepts sessions on.
    pub fn tcp_port(&self) -> (r: u16)
        ensures
            r == self.spec_tcp_port(),
    {
        self.tcp_port
    }

    /// The UDP port this peer receives announcements on.
    pub fn discovery_port(&self) -> (r: u16)
        ensures
            r == self.spec_discovery_port(),
    {
        self.discovery_port
    }

    /// Where announcements are sent: the loopback broadcast, the multicast group,
    /// one subnet broadcast per non-loopback interface, then the universal
    /// broadcast.
    pub fn get_broadcast_addresses(interfaces: &Vec<InterfaceV4>) -> (r: Vec<u32>)
        ensures
            r@ == seq![LOOPBACK_BROADCAST, MULTICAST_GROUP] + subnet_targets(interfaces@)
                + seq![UNIVERSAL_BROADCAST],
    {
        let mut out: Vec<u32> = Vec::new();
        out.push(LOOPBACK_BROADCAST);
        out.push(MULTICAST_GROUP);
        let mut i: usize = 0;
        while i < interfaces.len()
            invariant
                0 <= i <= interfaces@.len(),
                out@ == seq![LOOPBACK_BROADCAST, MULTICAST_GROUP] + subnet_targets(interfaces@.take(i as int)),
            decreases interfaces@.len() - i,
        {
            let iface = interfaces[i];
            assert(interfaces@.take(i + 1).drop_last() =~= interfaces@.take(i as int));
            if (iface.ip >> 24u32) != 127 {
                out.push(subnet_broadcast(iface.ip, iface.netmask));
            }
            i = i + 1;
            assert(out@ =~= seq![LOOPBACK_BROADCAST, MULTICAST_GROUP] + subnet_targets(interfaces@.take(i as int)));
        }
        assert(interfaces@.take(interfaces@.len() as int) =~= interfaces@);
        out.push(UNIVERSAL_BROADCAST);
        assert(out@ =~= seq![LOOPBACK_BROADCAST, MULTICAST_GROUP] + subnet_targets(interfaces@)
            + seq![UNIVERSAL_BROADCAST]);
        out
    }

    /// A stopped service with an empty registry, under a fresh peer id.
    pub fn new(peer_name: String, tcp_port: u16, discovery_port: u16) -> (r: DiscoveryService)
        ensures
            r.wf(),
            r@ == Map::<Seq<char>, PeerInfoView>::empty(),
            !r.running(),
            r.spec_peer_name() == peer_name,
            r.spec_tcp_port() == tcp_port,
            r.spec_discovery_port() == discovery_port,
            r.spec_peer_id()@.len() == 36,
    {
        let r = DiscoveryService {
            peer_id: fresh_id(),
            peer_name,
            tcp_port,
            discovery_port,
            peers: Vec::new(),
            running: false,
        };
        assert(r@ =~= Map::<Seq<char>, PeerInfoView>::empty());
        r
    }

    /// This service with its loops marked running.
    pub closed spec fn with_running(self) -> DiscoveryService {
        DiscoveryService { running: true, ..self }
    }

    /// This service with its loops marked stopped.
    pub closed spec fn with_stopped(self) -> DiscoveryService {
        DiscoveryService { running: false, ..self }
    }

    /// Marks the service running. Returns whether it was stopped before, that
    /// is, whether the loops must be started now.
    pub fn start(&mut self) -> (first: bool)
        ensures
            first == !old(self).running(),
            *final(self) == old(self).with_running(),
    {
        let first = !self.running;
        self.running = true;
        first
    }

    /// Asks the loops to exit at their next poll or tick.
    pub fn stop(&mut self)
        ensures
            *final(self) == old(self).with_stopped(),
    {
        self.running = false;
    }

    /// Starting or stopping touches only the running flag: the registry,
    /// its well-formedness and the identity are kept. Stopping twice is the
    /// same as stopping once, and a second start finds the loops running.
    pub proof fn lemma_start_stop(self)
        ensures
            self.with_running().running(),
            !self.with_stopped().running(),
            self.with_stopped().with_stopped() == self.with_stopped(),
            self.with_running().with_running() == self.with_running(),
            self.with_running()@ == self@ && self.with_stopped()@ == self@,
            self.with_running().wf() == self.wf() && self.with_stopped().wf() == self.wf(),
            self.with_running().spec_peer_id() == self.spec_peer_id(),
            self.with_stopped().spec_peer_id() == self.spec_peer_id(),
    {
    }

    /// Whether the loops are meant to run.
    pub fn is_running(&self) -> (r: bool)
        ensures
            r == self.running(),
    {
        self.running
    }

    /// The announcement this peer broadcasts.
    pub fn announcement(&self) -> (r: DiscoveryMessage)
        ensures
            r == (DiscoveryMessage::Announce {
                peer_name: self.spec_peer_name(),
                peer_id: self.spec_peer_id(),
                tcp_port: self.spec_tcp_port(),
            }),
    {
        DiscoveryMessage::Announce {
            peer_name: self.peer_name.clone(),
            peer_id: self.peer_id.clone(),
            tcp_port: self.tcp_port,
        }
    }

    /// The request for announcements.
    pub fn request_message(&self) -> (r: DiscoveryMessage)
        ensures
            r is Request,
    {
        DiscoveryMessage::Request
    }

    fn find(&self, id: &String) -> (r: Option<usize>)
        ensures
            match r {
                Some(i) => i < self.peers@.len() && self.peers@[i as int].id@ == id@,
                None => !has_key(infos_view(self.peers@), peer_key(), id@),
            },
    {
        let mut i: usize = 0;
        while i < self.peers.len()
            invariant
                0 <= i <= self.peers@.len(),
                forall|j: int| 0 <= j < i ==> self.peers@[j].id@ != id@,
            decreases self.peers@.len() - i,
        {
            if self.peers[i].id == *id {
                return Some(i);
            }
            i = i + 1;
        }
        assert forall|j: int| 0 <= j < self.peers@.len() implies #[trigger] peer_key()(
            infos_view(self.peers@)[j],
        ) != id@ by {}
        None
    }

    /// Records an announcement from `peer_id` received from `src_ip` at `now`.
    /// A peer not yet in the registry is added and reported as discovered;
    /// a known one is refreshed silently.
    pub fn handle_announce(
        &mut self,
        peer_name: String,
        peer_id: String,
        tcp_port: u16,
        src_ip: String,
        now: u64,
    ) -> (r: Option<P2PEvent>)
        requires
            old(self).wf(),
        ensures
            final(self).wf(),
            final(self)@ == announced(
                old(self)@,
                PeerInfoView { id: peer_id@, name: peer_name@, ip: src_ip@, port: tcp_port, last_seen: now },
            ),
            r == if old(self)@.contains_key(peer_id@) {
                None
            } else {
                Some(
                    P2PEvent::PeerDiscovered(
                        PeerInfo { id: peer_id, name: peer_name, ip: src_ip, port: tcp_port, last_seen: now },
                    ),
                )
            },
            final(self).running() == old(self).running(),
            final(self).spec_peer_id() == old(self).spec_peer_id(),
    {
        let info = PeerInfo { id: peer_id, name: peer_name, ip: src_ip, port: tcp_port, last_seen: now };
        let ghost s = infos_view(self.peers@);
        match self.find(&info.id) {
            Some(i) => {
                proof {
                    lemma_keyed_at(s, peer_key(), i as int);
                    lemma_keyed_update(s, peer_key(), i as int, info@);
                }
                self.peers.set(i, info);
                assert(infos_view(self.peers@) =~= s.update(i as int, info@));
                None
            },
            None => {
                proof {
                    lemma_keyed_push(s, peer_key(), info@);
                }
                let event = P2PEvent::PeerDiscovered(info.duplicate());
                self.peers.push(info);
                assert(infos_view(self.peers@) =~= s.push(info@));
                Some(event)
            },
        }
    }

    /// Handles one decoded discovery datagram from `src_ip` received at `now`.
    /// Requests are accepted and change nothing.
    pub fn handle_discovery_message(&mut self, msg: DiscoveryMessage, src_ip: String, now: u64) -> (r:
        Option<P2PEvent>)
        requires
            old(self).wf(),
        ensures
            final(self).wf(),
            match msg {
                DiscoveryMessage::Announce { peer_name, peer_id, tcp_port } => {
                    &&& final(self)@ == announced(
                        old(self)@,
                        PeerInfoView { id: peer_id@, name: peer_name@, ip: src_ip@, port: tcp_port, last_seen: now },
                    )
                    &&& r == if old(self)@.contains_key(peer_id@) {
                        None
                    } else {
                        Some(
                            P2PEvent::PeerDiscovered(
                                PeerInfo { id: peer_id, name: peer_name, ip: src_ip, port: tcp_port, last_seen: now },
                            ),
                        )
                    }
                },
                DiscoveryMessage::Request => final(self)@ == old(self)@ && r is None,
            },
            final(self).running() == old(self).running(),
            final(self).spec_peer_id() == old(self).spec_peer_id(),
    {
        match msg {
            DiscoveryMessage::Announce { peer_name, peer_id, tcp_port } => {
                self.handle_announce(peer_name, peer_id, tcp_port, src_ip, now)
            },
            DiscoveryMessage::Request => None,
        }
    }

    /// The discovered peers, each once.
    pub fn get_peers(&self) -> (r: Vec<PeerInfo>)
        requires
            self.wf(),
        ensures
            unique_keys(infos_view(r@), peer_key()),
            keyed_map(infos_view(r@), peer_key()) == self@,
    {
        let mut out: Vec<PeerInfo> = Vec::new();
        let mut i: usize = 0;
        while i < self.peers.len()
            invariant
                0 <= i <= self.peers@.len(),
                infos_view(out@) == infos_view(self.peers@).take(i as int),
            decreases self.peers@.len() - i,
        {
            let q = self.peers[i].duplicate();
            let ghost prev = out@;
            out.push(q);
            assert(q == self.peers@[i as int]);
            assert(infos_view(out@) =~= infos_view(prev).push(q@));
            assert(infos_view(self.peers@).take(i + 1) =~= infos_view(self.peers@).take(i as int).push(q@));
            i = i + 1;
            assert(infos_view(out@) =~= infos_view(self.peers@).take(i as int));
        }
        assert(infos_view(self.peers@).take(self.peers@.len() as int) =~= infos_view(self.peers@));
        out
    }

    /// Drops every peer that is stale at time `now`; no event is produced.
    pub fn remove_stale(&mut self, now: u64, timeout_secs: u64)
        requires
            old(self).wf(),
        ensures
            final(self).wf(),
            final(self)@ == fresh_part(old(self)@, now, timeout_secs),
            forall|k: Seq<char>| #[trigger] final(self)@.contains_key(k) ==> is_fresh(final(self)@[k], now, timeout_secs),
            final(self).running() == old(self).running(),
            final(self).spec_peer_id() == old(self).spec_peer_id(),
    {
        let ghost s = infos_view(self.peers@);
        let mut kept: Vec<PeerInfo> = Vec::new();
        let mut i: usize = 0;
        while i < self.peers.len()
            invariant
                0 <= i <= self.peers@.len(),
                s == infos_view(self.peers@),
                unique_keys(s, peer_key()),
                unique_keys(infos_view(kept@), peer_key()),
                keyed_map(infos_view(kept@), peer_key()) == fresh_part(keyed_map(s.take(i as int), peer_key()), now, timeout_secs),
                forall|j: int| 0 <= j < kept@.len() ==> has_key(s.take(i as int), peer_key(), #[trigger] kept@[j].id@),
            decreases self.peers@.len() - i,
        {
            let ghost prefix = s.take(i as int);
            let ghost next = s.take(i + 1);
            let ghost before = keyed_map(prefix, peer_key());
            let p = &self.peers[i];
            proof {
                assert(next =~= prefix.push(s[i as int]));
                assert forall|a: int, b: int|
                    0 <= a < prefix.len() && 0 <= b < prefix.len() && #[trigger] peer_key()(prefix[a]) == #[trigger] peer_key()(prefix[b]) implies a == b by {
                    assert(prefix[a] == s[a] && prefix[b] == s[b]);
                }
                if has_key(prefix, peer_key(), s[i as int].id) {
                    let a = choose|a: int| 0 <= a < prefix.len() && #[trigger] peer_key()(prefix[a]) == s[i as int].id;
                    assert(prefix[a] == s[a]);
                    assert(peer_key()(s[a]) == peer_key()(s[i as int]));
                }
                lemma_keyed_push(prefix, peer_key(), s[i as int]);
            }
            let fresh = p.last_seen > now || now - p.last_seen < timeout_secs;
            assert(fresh == is_fresh(s[i as int], now, timeout_secs));
            if fresh {
                let ghost kv = infos_view(kept@);
                proof {
                    if has_key(kv, peer_key(), p.id@) {
                        let j = choose|j: int| 0 <= j < kv.len() && #[trigger] peer_key()(kv[j]) == p.id@;
                        assert(kept@[j].id@ == p.id@);
                        assert(has_key(prefix, peer_key(), p.id@));
                    }
                    lemma_keyed_push(kv, peer_key(), p@);
                }
                kept.push(p.duplicate());
                assert(infos_view(kept@) =~= kv.push(p@));
            }
            proof {
                let after = keyed_map(next, peer_key());
                assert(after == before.insert(s[i as int].id, s[i as int]));
                assert(!before.contains_key(s[i as int].id));
                assert(fresh_part(after, now, timeout_secs) =~= if is_fresh(s[i as int], now, timeout_secs) {
                    fresh_part(before, now, timeout_secs).insert(s[i as int].id, s[i as int])
                } else {
                    fresh_part(before, now, timeout_secs)
                });
                assert forall|j: int| 0 <= j < kept@.len() implies has_key(next, peer_key(), #[trigger] kept@[j].id@) by {
                    if j < kept@.len() - 1 || !fresh {
                        let a = choose|a: int| 0 <= a < prefix.len() && #[trigger] peer_key()(prefix[a]) == kept@[j].id@;
                        assert(peer_key()(next[a]) == kept@[j].id@);
                    } else {
                        assert(peer_key()(next[i as int]) == kept@[j].id@);
                    }
                }
            }
            i = i + 1;
        }
        assert(s.take(self.peers@.len() as int) =~= s);
        self.peers = kept;
    }

    /// Drops every peer that is stale now; no event is produced.
    pub fn cleanup_stale_peers(&mut self, timeout_secs: u64)
        requires
            old(self).wf(),
        ensures
            final(self).wf(),
            exists|now: u64| final(self)@ == fresh_part(old(self)@, now, timeout_secs),
            final(self).running() == old(self).running(),
            final(self).spec_peer_id() == old(self).spec_peer_id(),
    {
        let now = get_current_timestamp();
        self.remove_stale(now, timeout_secs);
    }
}

/// The registry after the announcements `anns`, received in order.
pub open spec fn announced_all(
    m: Map<Seq<char>, PeerInfoView>,
    anns: Seq<PeerInfoView>,
) -> Map<Seq<char>, PeerInfoView>
    decreases anns.len(),
{
    if anns.len() == 0 {
        m
    } else {
        announced(announced_all(m, anns.drop_last()), anns.last())
    }
}

/// How many of the announcements `anns`, received in order, report a newly
/// discovered peer: those whose id the registry did not hold yet.
pub open spec fn discoveries(m: Map<Seq<char>, PeerInfoView>, anns: Seq<PeerInfoView>) -> nat
    decreases anns.len(),
{
    if anns.len() == 0 {
        0
    } else {
        let before = announced_all(m, anns.drop_last());
        discoveries(m, anns.drop_last()) + if before.contains_key(anns.last().id) {
            0nat
        } else {
            1nat
        }
    }
}

/// However many announcements one peer sends, the registry reports it as
/// discovered exactly once (never again while it stays registered); every
/// later announcement only refreshes its entry.
pub proof fn lemma_single_discovery(m: Map<Seq<char>, PeerInfoView>, id: Seq<char>, anns: Seq<PeerInfoView>)
    requires
        anns.len() > 0,
        forall|i: int| 0 <= i < anns.len() ==> (#[trigger] anns[i]).id == id,
    ensures
        discoveries(m, anns) == if m.contains_key(id) {
            0nat
        } else {
            1nat
        },
        announced_all(m, anns).contains_key(id),
        announced_all(m, anns)[id] == anns.last(),
    decreases anns.len(),
{
    let init = anns.drop_last();
    if init.len() == 0 {
        assert(announced_all(m, init) == m);
        assert(discoveries(m, init) == 0);
    } else {
        assert forall|i: int| 0 <= i < init.len() implies (#[trigger] init[i]).id == id by {
            assert(init[i] == anns[i]);
        }
        lemma_single_discovery(m, id, init);
        assert(announced_all(m, init).contains_key(id));
    }
    assert(anns.last().id == id);
    assert(discoveries(m, anns) == discoveries(m, init) + if announced_all(m, init).contains_key(id) {
        0nat
    } else {
        1nat
    });
}

} // verus!
