//! The connection table owned by the connection actor: one record per live
//! session, keyed by peer id, holding the session's outbound queue handle and
//! the peer's description. Keeping both in one record means the queue map and
//! the peer-info map can never disagree on their keys.
use vstd::prelude::*;
use crate::discovery::{infos_view, peer_key};
use crate::error::P2PError;
use crate::events::P2PEvent;
use crate::keyed::{has_key, keyed_map, lemma_keyed_at, lemma_keyed_push, lemma_keyed_remove, lemma_keyed_update, unique_keys};
use crate::protocol::{Message, MessageContent, PeerInfo, PeerInfoView};

verus! {

/// Whether a session's peer has declared its identity yet.
#[derive(Debug, Clone, Copy, PartialEq, Eq, Structural)]
pub enum Identity {
    /// An accepted socket whose handshake has not arrived: the key is a
    /// locally generated placeholder.
    Provisional,
    /// A dialed peer, or one whose handshake has been reconciled.
    Confirmed,
}

/// One live session: the peer, its identity state, and the handle of the
/// queue its writer drains.
pub struct Connection<H> {
    pub info: PeerInfo,
    pub identity: Identity,
    pub queue: H,
}

/// Mathematical model of a [`Connection`].
pub ghost struct ConnectionView<H> {
    pub info: PeerInfoView,
    pub identity: Identity,
    pub queue: H,
}

impl<H> View for Connection<H> {
    type V = ConnectionView<H>;

    open spec fn view(&self) -> ConnectionView<H> {
        ConnectionView { info: self.info@, identity: self.identity, queue: self.queue }
    }
}

/// A record's key: its peer's id.
pub open spec fn conn_key<H>() -> spec_fn(ConnectionView<H>) -> Seq<char> {
    |c: ConnectionView<H>| c.info.id
}

/// Models of a sequence of records.
pub open spec fn conns_view<H>(s: Seq<Connection<H>>) -> Seq<ConnectionView<H>> {
    s.map_values(|c: Connection<H>| c@)
}

/// The peer-info map of a table.
pub open spec fn peer_map<H>(m: Map<Seq<char>, ConnectionView<H>>) -> Map<Seq<char>, PeerInfoView> {
    m.map_values(|c: ConnectionView<H>| c.info)
}

/// The outbound-queue map of a table.
pub open spec fn queue_map<H>(m: Map<Seq<char>, ConnectionView<H>>) -> Map<Seq<char>, H> {
    m.map_values(|c: ConnectionView<H>| c.queue)
}

/// The table after the session under `old_id` takes the identity `new_info`:
/// its queue and description move together to `new_info.id` (replacing any
/// record already there) and it counts as confirmed. Without a session under
/// `old_id` nothing changes.
pub open spec fn rekeyed<H>(
    m: Map<Seq<char>, ConnectionView<H>>,
    old_id: Seq<char>,
    new_info: PeerInfoView,
) -> Map<Seq<char>, ConnectionView<H>> {
    if m.contains_key(old_id) {
        m.remove(old_id).insert(
            new_info.id,
            ConnectionView { info: new_info, identity: Identity::Confirmed, queue: m[old_id].queue },
        )
    } else {
        m
    }
}

/// The live sessions, keyed by peer id.
pub struct ConnectionTable<H> {
    records: Vec<Connection<H>>,
}

impl<H> View for ConnectionTable<H> {
    type V = Map<Seq<char>, ConnectionView<H>>;

    closed spec fn view(&self) -> Map<Seq<char>, ConnectionView<H>> {
        keyed_map(conns_view(self.records@), conn_key())
    }
}

impl<H> ConnectionTable<H> {
    /// Each peer id keys at most one record, and a record's key is the id of
    /// its peer.
    pub closed spec fn wf(&self) -> bool {
        unique_keys(conns_view(self.records@), conn_key())
    }

    proof fn lemma_view_keys(&self)
        requires
            self.wf(),
        ensures
            forall|k: Seq<char>| #[trigger] self@.contains_key(k) ==> self@[k].info.id == k,
    {
        assert forall|k: Seq<char>| #[trigger] self@.contains_key(k) implies self@[k].info.id == k by {
            let s = conns_view(self.records@);
            let i = choose|i: int| 0 <= i < s.len() && #[trigger] conn_key()(s[i]) == k;
            lemma_keyed_at(s, conn_key(), i);
        }
    }

    /// An empty table.
    pub fn new() -> (r: ConnectionTable<H>)
        ensures
            r.wf(),
            r@ == Map::<Seq<char>, ConnectionView<H>>::empty(),
    {
        let r = ConnectionTable { records: Vec::new() };
        assert(r@ =~= Map::<Seq<char>, ConnectionView<H>>::empty());
        r
    }

    fn find(&self, id: &String) -> (r: Option<usize>)
        ensures
            match r {
                Some(i) => i < self.records@.len() && self.records@[i as int].info.id@ == id@,
                None => !has_key(conns_view(self.records@), conn_key(), id@),
            },
    {
        let mut i: usize = 0;
        while i < self.records.len()
            invariant
                0 <= i <= self.records@.len(),
                forall|j: int| 0 <= j < i ==> self.records@[j].info.id@ != id@,
            decreases self.records@.len() - i,
        {
            if self.records[i].info.id == *id {
                return Some(i);
            }
            i = i + 1;
        }
        assert forall|j: int| 0 <= j < self.records@.len() implies #[trigger] conn_key()(
            conns_view(self.records@)[j],
        ) != id@ by {}
        None
    }

    fn upsert(&mut self, rec: Connection<H>)
        requires
            old(self).wf(),
        ensures
            final(self).wf(),
            final(self)@ == old(self)@.insert(rec.info.id@, rec@),
    {
        let ghost s = conns_view(self.records@);
        let ghost v = rec@;
        match self.find(&rec.info.id) {
            Some(i) => {
                proof {
                    lemma_keyed_update(s, conn_key(), i as int, v);
                }
                self.records.set(i, rec);
                assert(conns_view(self.records@) =~= s.update(i as int, v));
            },
            None => {
                proof {
                    lemma_keyed_push(s, conn_key(), v);
                }
                self.records.push(rec);
                assert(conns_view(self.records@) =~= s.push(v));
            },
        }
    }

    /// Whether a session is recorded under `peer_id`.
    pub fn contains(&self, peer_id: &String) -> (r: bool)
        ensures
            r == self@.contains_key(peer_id@),
    {
        match self.find(peer_id) {
            Some(i) => {
                assert(conn_key()(conns_view(self.records@)[i as int]) == peer_id@);
                true
            },
            None => false,
        }
    }

    /// Records a dialed session under the discovery-supplied id. The caller
    /// already trusts that identity, so the peer is reported connected at once.
    pub fn register_dialed(&mut self, info: PeerInfo, queue: H) -> (ev: P2PEvent)
        requires
            old(self).wf(),
        ensures
            final(self).wf(),
            final(self)@ == old(self)@.insert(
                info.id@,
                ConnectionView { info: info@, identity: Identity::Confirmed, queue },
            ),
            ev == P2PEvent::PeerConnected(info),
    {
        let ev = P2PEvent::PeerConnected(info.duplicate());
        self.upsert(Connection { info, identity: Identity::Confirmed, queue });
        ev
    }

    /// Records an accepted session under its provisional description. Nothing
    /// is reported until its handshake is reconciled.
    pub fn register_incoming(&mut self, info: PeerInfo, queue: H)
        requires
            old(self).wf(),
        ensures
            final(self).wf(),
            final(self)@ == old(self)@.insert(
                info.id@,
                ConnectionView { info: info@, identity: Identity::Provisional, queue },
            ),
    {
        self.upsert(Connection { info, identity: Identity::Provisional, queue });
    }

    /// Ends the session under `peer_id`, if any, and reports it disconnected.
    /// An unknown id changes nothing and reports nothing.
    pub fn disconnect(&mut self, peer_id: &String) -> (ev: Option<P2PEvent>)
        requires
            old(self).wf(),
        ensures
            final(self).wf(),
            final(self)@ == old(self)@.remove(peer_id@),
            old(self)@.contains_key(peer_id@) ==> (ev matches Some(P2PEvent::PeerDisconnected(p))
                && p@ == old(self)@[peer_id@].info),
            !old(self)@.contains_key(peer_id@) ==> ev is None,
    {
        let ghost s = conns_view(self.records@);
        match self.find(peer_id) {
            Some(i) => {
                proof {
                    lemma_keyed_at(s, conn_key(), i as int);
                    lemma_keyed_remove(s, conn_key(), i as int);
                }
                let rec = self.records.remove(i);
                assert(conns_view(self.records@) =~= s.remove(i as int));
                Some(P2PEvent::PeerDisconnected(rec.info))
            },
            None => {
                assert(self@ =~= self@.remove(peer_id@));
                None
            },
        }
    }

    /// The outbound queue of the session under `peer_id`.
    pub fn queue_for(&self, peer_id: &String) -> (r: Result<&H, P2PError>)
        requires
            self.wf(),
        ensures
            self@.contains_key(peer_id@) ==> (r matches Ok(q) && *q == self@[peer_id@].queue),
            !self@.contains_key(peer_id@) ==> r == Err::<&H, P2PError>(P2PError::PeerNotFound { peer_id: *peer_id }),
    {
        match self.find(peer_id) {
            Some(i) => {
                proof {
                    lemma_keyed_at(conns_view(self.records@), conn_key(), i as int);
                }
                Ok(&self.records[i].queue)
            },
            None => Err(P2PError::PeerNotFound { peer_id: peer_id.clone() }),
        }
    }

    /// The connected peers, each once.
    pub fn connected_peers(&self) -> (r: Vec<PeerInfo>)
        requires
            self.wf(),
        ensures
            unique_keys(infos_view(r@), peer_key()),
            keyed_map(infos_view(r@), peer_key()) == peer_map(self@),
    {
        let ghost s = conns_view(self.records@);
        let mut out: Vec<PeerInfo> = Vec::new();
        let mut i: usize = 0;
        while i < self.records.len()
            invariant
                0 <= i <= self.records@.len(),
                s == conns_view(self.records@),
                infos_view(out@) == s.take(i as int).map_values(|c: ConnectionView<H>| c.info),
            decreases self.records@.len() - i,
        {
            let q = self.records[i].info.duplicate();
            let ghost prev = out@;
            out.push(q);
            assert(infos_view(out@) =~= infos_view(prev).push(q@));
            assert(s.take(i + 1).map_values(|c: ConnectionView<H>| c.info) =~= s.take(i as int).map_values(
                |c: ConnectionView<H>| c.info,
            ).push(q@));
            i = i + 1;
        }
        let ghost t = infos_view(out@);
        assert(s.take(s.len() as int) =~= s);
        assert(forall|j: int| 0 <= j < t.len() ==> #[trigger] t[j] == s[j].info);
        assert forall|a: int, b: int|
            0 <= a < t.len() && 0 <= b < t.len() && #[trigger] peer_key()(t[a]) == #[trigger] peer_key()(t[b]) implies a == b by {
            assert(conn_key()(s[a]) == conn_key()(s[b]));
        }
        let ghost pm = peer_map(self@);
        assert forall|k: Seq<char>| #[trigger] has_key(t, peer_key(), k) <==> has_key(s, conn_key(), k) by {
            if has_key(t, peer_key(), k) {
                let a = choose|a: int| 0 <= a < t.len() && #[trigger] peer_key()(t[a]) == k;
                assert(conn_key()(s[a]) == k);
            }
            if has_key(s, conn_key(), k) {
                let a = choose|a: int| 0 <= a < s.len() && #[trigger] conn_key()(s[a]) == k;
                assert(peer_key()(t[a]) == k);
            }
        }
        assert forall|k: Seq<char>| #[trigger] keyed_map(t, peer_key()).contains_key(k) implies keyed_map(
            t,
            peer_key(),
        )[k] == pm[k] by {
            let a = choose|a: int| 0 <= a < t.len() && #[trigger] peer_key()(t[a]) == k;
            lemma_keyed_at(t, peer_key(), a);
            assert(conn_key()(s[a]) == k);
            lemma_keyed_at(s, conn_key(), a);
        }
        assert(keyed_map(t, peer_key()) =~= pm);
        out
    }

    /// Reconciles the session under `old_id` with the identity its handshake
    /// declared: the queue handle and description move together to
    /// `new_info.id`. The peer is reported connected only if this was the
    /// first identity of an accepted session; a dialed session was reported
    /// at dial time and is renamed silently.
    pub fn update_peer_info(&mut self, old_id: &String, new_info: PeerInfo) -> (ev: Option<P2PEvent>)
        requires
            old(self).wf(),
        ensures
            final(self).wf(),
            final(self)@ == rekeyed(old(self)@, old_id@, new_info@),
            ev == if old(self)@.contains_key(old_id@) && old(self)@[old_id@].identity == Identity::Provisional {
                Some(P2PEvent::PeerConnected(new_info))
            } else {
                None
            },
    {
        let ghost m0 = self@;
        let ghost s = conns_view(self.records@);
        match self.find(old_id) {
            None => {
                None
            },
            Some(i) => {
                proof {
                    lemma_keyed_at(s, conn_key(), i as int);
                    lemma_keyed_remove(s, conn_key(), i as int);
                }
                let rec = self.records.remove(i);
                assert(conns_view(self.records@) =~= s.remove(i as int));
                let was_provisional = match rec.identity {
                    Identity::Provisional => true,
                    Identity::Confirmed => false,
                };
                let ev = if was_provisional {
                    Some(P2PEvent::PeerConnected(new_info.duplicate()))
                } else {
                    None
                };
                self.upsert(Connection { info: new_info, identity: Identity::Confirmed, queue: rec.queue });
                ev
            },
        }
    }
}

/// The connection-queue map and the peer-info map of a table always have the
/// same keys.
pub proof fn lemma_maps_share_keys<H>(m: Map<Seq<char>, ConnectionView<H>>)
    ensures
        peer_map(m).dom() == queue_map(m).dom(),
{
    assert(peer_map(m).dom() =~= queue_map(m).dom());
}

/// Re-keying is atomic: once a session under `old_id` has taken the different
/// id `new_info.id`, the old id finds nothing, the new id finds the session's
/// own queue with the new description, and the two maps still agree on their
/// keys.
pub proof fn lemma_rekey_atomic<H>(
    m: Map<Seq<char>, ConnectionView<H>>,
    old_id: Seq<char>,
    new_info: PeerInfoView,
)
    requires
        m.contains_key(old_id),
        old_id != new_info.id,
    ensures
        !rekeyed(m, old_id, new_info).contains_key(old_id),
        rekeyed(m, old_id, new_info).contains_key(new_info.id),
        queue_map(rekeyed(m, old_id, new_info))[new_info.id] == queue_map(m)[old_id],
        peer_map(rekeyed(m, old_id, new_info))[new_info.id] == new_info,
        peer_map(rekeyed(m, old_id, new_info)).dom() == queue_map(rekeyed(m, old_id, new_info)).dom(),
{
    lemma_maps_share_keys(rekeyed(m, old_id, new_info));
}

/// Disconnecting is idempotent: a second disconnect of the same id finds no
/// session, so it changes nothing and reports nothing.
pub proof fn lemma_disconnect_idempotent<H>(m: Map<Seq<char>, ConnectionView<H>>, id: Seq<char>)
    ensures
        !m.remove(id).contains_key(id),
        m.remove(id).remove(id) == m.remove(id),
{
    assert(m.remove(id).remove(id) =~= m.remove(id));
}

/// What a session's reader does with one decoded message.
#[derive(Debug, Clone, PartialEq, Eq)]
pub enum Inbound {
    /// A handshake: ask the actor to move the session to the declared identity.
    Reconcile { old_id: String, new_info: PeerInfo },
    /// User content: publish it as received.
    Deliver(P2PEvent),
}

/// Decides what a session reader does with a decoded message. `session` is
/// the description the reader was started with, `now` the reception time.
/// A handshake never reaches the event bus: it becomes a reconciliation
/// request carrying the declared id, name and port at the session's address.
pub fn classify_inbound(msg: Message, session: &PeerInfo, now: u64) -> (r: Inbound)
    ensures
        match msg.content {
            MessageContent::Handshake { peer_id, peer_name, tcp_port } => r == (Inbound::Reconcile {
                old_id: session.id,
                new_info: PeerInfo { id: peer_id, name: peer_name, ip: session.ip, port: tcp_port, last_seen: now },
            }),
            _ => r == Inbound::Deliver(P2PEvent::MessageReceived(msg)),
        },
        r matches Inbound::Deliver(P2PEvent::MessageReceived(m)) ==> !(m.content is Handshake),
{
    match msg.content {
        MessageContent::Handshake { peer_id, peer_name, tcp_port } => Inbound::Reconcile {
            old_id: session.id.clone(),
            new_info: PeerInfo { id: peer_id, name: peer_name, ip: session.ip.clone(), port: tcp_port, last_seen: now },
        },
        _ => Inbound::Deliver(P2PEvent::MessageReceived(msg)),
    }
}

} // verus!
