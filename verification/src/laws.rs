//! What holds of the registry whatever order its operations come in.
use vstd::prelude::*;

use crate::name::NameView;
use crate::peers::{has_tunnel, no_peer_no_tunnel, the_first_peer_wins, Peer, PeerAddr};
use crate::session::SessionView;
use crate::tunnel::{
    lists_tunnels, may_request, port_reservation, wrapped_sum, EntryView, RegistryError,
    RegistryView, Tunnel, TunnelMetadata,
};

verus! {

/// One operation on a registry.
#[verifier::reject_recursive_types(C)]
pub enum RegistryOp<C> {
    /// An identifier takes a name.
    Reserve(NameView, u128),
    /// A tunnel is opened under the name that an entry holds.
    Attach(EntryView, Tunnel<C>),
    /// An entry gives up its name.
    Release(EntryView),
    /// A tunnel is closed.
    Detach(u128),
    /// A tunnel carries some bytes.
    Carry(u128, usize, usize),
}

impl<C> RegistryOp<C> {
    /// The identifier on whose behalf the operation is made.
    pub open spec fn id(self) -> u128 {
        match self {
            RegistryOp::Reserve(_, id) => id,
            RegistryOp::Attach(entry, _) => entry.id,
            RegistryOp::Release(entry) => entry.id,
            RegistryOp::Detach(id) => id,
            RegistryOp::Carry(id, _, _) => id,
        }
    }

    /// Whether the operation can come up: a name is only taken while it is free,
    /// and an entry only acts on the name that it holds.
    pub open spec fn enabled(self, registry: RegistryView<C>) -> bool {
        match self {
            RegistryOp::Reserve(name, id) => !registry.taken(name),
            RegistryOp::Attach(entry, _) => held(registry, entry),
            RegistryOp::Release(entry) => !entry.persisted && held(registry, entry),
            RegistryOp::Detach(_) => true,
            RegistryOp::Carry(..) => true,
        }
    }

    /// The registry after the operation.
    pub open spec fn apply(self, registry: RegistryView<C>) -> RegistryView<C> {
        match self {
            RegistryOp::Reserve(name, id) => registry.reserve(name, id),
            RegistryOp::Attach(entry, tunnel) => registry.attach(entry.id, tunnel, entry.name),
            RegistryOp::Release(entry) => registry.release(entry.name),
            RegistryOp::Detach(id) => registry.detach(id),
            RegistryOp::Carry(id, read, written) => registry.carry(id, read, written),
        }
    }
}

/// Whether an entry holds its name: the name is taken by its identifier, under
/// which a tunnel is open only once the entry has opened it.
pub open spec fn held<C>(registry: RegistryView<C>, entry: EntryView) -> bool {
    &&& registry.taken(entry.name)
    &&& registry.names[entry.name] == entry.id
    &&& registry.tunnels.contains_key(entry.id) ==> entry.persisted && registry.tunnels[entry.id].1
        == entry.name
}

/// The registry after some operations, one after the other.
pub open spec fn run<C>(registry: RegistryView<C>, ops: Seq<RegistryOp<C>>) -> RegistryView<C>
    decreases ops.len(),
{
    if ops.len() == 0 {
        registry
    } else {
        ops.last().apply(run(registry, ops.drop_last()))
    }
}

/// Whether each of some operations can come up when its turn comes.
pub open spec fn run_enabled<C>(registry: RegistryView<C>, ops: Seq<RegistryOp<C>>) -> bool
    decreases ops.len(),
{
    ops.len() > 0 ==> run_enabled(registry, ops.drop_last()) && ops.last().enabled(
        run(registry, ops.drop_last()),
    )
}

/// A new registry is consistent.
pub proof fn empty_is_consistent<C>(http_proxy_port: u16, tcp_proxy_port: u16)
    ensures
        RegistryView::<C>::empty(http_proxy_port, tcp_proxy_port).consistent(),
{
}

/// Every operation keeps the registry consistent.
pub proof fn operations_keep_consistent<C>(registry: RegistryView<C>, op: RegistryOp<C>)
    requires
        registry.consistent(),
        op.enabled(registry),
    ensures
        op.apply(registry).consistent(),
{
}

/// Whatever operations come in whatever order, the registry is consistent.
pub proof fn runs_keep_consistent<C>(registry: RegistryView<C>, ops: Seq<RegistryOp<C>>)
    requires
        registry.consistent(),
        run_enabled(registry, ops),
    ensures
        run(registry, ops).consistent(),
    decreases ops.len(),
{
    if ops.len() > 0 {
        runs_keep_consistent(registry, ops.drop_last());
        operations_keep_consistent(run(registry, ops.drop_last()), ops.last());
    }
}

/// No two open tunnels share a name.
pub proof fn names_are_exclusive<C>(registry: RegistryView<C>, a: u128, b: u128)
    requires
        registry.consistent(),
        registry.tunnels.contains_key(a),
        registry.tunnels.contains_key(b),
        registry.tunnels[a].1 == registry.tunnels[b].1,
    ensures
        a == b,
{
}

/// Every open tunnel is found under its name.
pub proof fn open_tunnels_are_found<C>(registry: RegistryView<C>, id: u128)
    requires
        registry.consistent(),
        registry.tunnels.contains_key(id),
    ensures
        registry.find(registry.tunnels[id].1) == Some(registry.tunnels[id].0),
{
}

/// What others do leaves the hold of an entry on its name as it is.
pub proof fn others_leave_a_hold<C>(
    registry: RegistryView<C>,
    op: RegistryOp<C>,
    entry: EntryView,
)
    requires
        registry.consistent(),
        op.enabled(registry),
        held(registry, entry),
        op.id() != entry.id,
    ensures
        held(op.apply(registry), entry),
{
}

/// However much others do, an entry keeps the hold on its name.
pub proof fn a_hold_lasts<C>(
    registry: RegistryView<C>,
    ops: Seq<RegistryOp<C>>,
    entry: EntryView,
)
    requires
        registry.consistent(),
        run_enabled(registry, ops),
        held(registry, entry),
        forall|i: int| 0 <= i < ops.len() ==> (#[trigger] ops[i]).id() != entry.id,
    ensures
        held(run(registry, ops), entry),
    decreases ops.len(),
{
    if ops.len() > 0 {
        let before = ops.drop_last();
        assert forall|i: int| 0 <= i < before.len() implies (#[trigger] before[i]).id()
            != entry.id by {
            assert(before[i] == ops[i]);
        }
        a_hold_lasts(registry, before, entry);
        runs_keep_consistent(registry, before);
        assert(ops.last() == ops[ops.len() - 1]);
        others_leave_a_hold(run(registry, before), ops.last(), entry);
    }
}

/// What others do leaves an open tunnel and what is found under its name as they
/// are.
pub proof fn others_leave_a_tunnel<C>(
    registry: RegistryView<C>,
    op: RegistryOp<C>,
    id: u128,
)
    requires
        registry.consistent(),
        op.enabled(registry),
        registry.tunnels.contains_key(id),
        op.id() != id,
    ensures
        op.apply(registry).tunnels.contains_key(id),
        op.apply(registry).tunnels[id] == registry.tunnels[id],
        op.apply(registry).find(registry.tunnels[id].1) == Some(registry.tunnels[id].0),
{
}

/// However much others do, an open tunnel stays as it is and is found under its
/// name.
pub proof fn a_tunnel_lasts<C>(registry: RegistryView<C>, ops: Seq<RegistryOp<C>>, id: u128)
    requires
        registry.consistent(),
        run_enabled(registry, ops),
        registry.tunnels.contains_key(id),
        forall|i: int| 0 <= i < ops.len() ==> (#[trigger] ops[i]).id() != id,
    ensures
        run(registry, ops).tunnels.contains_key(id),
        run(registry, ops).tunnels[id] == registry.tunnels[id],
        run(registry, ops).find(registry.tunnels[id].1) == Some(registry.tunnels[id].0),
    decreases ops.len(),
{
    if ops.len() > 0 {
        let before = ops.drop_last();
        assert forall|i: int| 0 <= i < before.len() implies (#[trigger] before[i]).id() != id by {
            assert(before[i] == ops[i]);
        }
        a_tunnel_lasts(registry, before, id);
        runs_keep_consistent(registry, before);
        assert(ops.last() == ops[ops.len() - 1]);
        others_leave_a_tunnel(run(registry, before), ops.last(), id);
    } else {
        open_tunnels_are_found(registry, id);
    }
}

/// A listing tells of exactly the open tunnels, and no longer of one that has
/// been closed.
pub proof fn a_listing_is_current<C>(
    registry: RegistryView<C>,
    id: u128,
    list: Seq<TunnelMetadata>,
    after: Seq<TunnelMetadata>,
)
    requires
        lists_tunnels(list, registry.tunnels),
        lists_tunnels(after, registry.detach(id).tunnels),
    ensures
        registry.tunnels.contains_key(id) <==> exists|i: int|
            0 <= i < list.len() && (#[trigger] list[i]).id@ == id,
        forall|i: int| 0 <= i < after.len() ==> (#[trigger] after[i]).id@ != id,
{
}

/// A name that has been granted is held, whoever asked for it.
pub proof fn a_granted_name_is_held<C>(
    registry: RegistryView<C>,
    name: NameView,
    id: u128,
)
    requires
        !registry.taken(name),
        !registry.tunnels.contains_key(id),
    ensures
        held(registry.reserve(name, id), EntryView { id, name, persisted: false }),
        registry.reserve(name, id).find(name) is None,
{
}

/// While a port is held, a request for it is refused and changes nothing.
pub proof fn a_held_port_is_refused<C>(
    before: RegistryView<C>,
    after: RegistryView<C>,
    entry: EntryView,
    port: u16,
    id: u128,
    reserved: Result<(NameView, u16), RegistryError>,
)
    requires
        held(before, entry),
        entry.name == NameView::PortNumber(port),
        port_reservation(before, after, Some(port), id, reserved),
    ensures
        after == before,
        reserved == Err::<(NameView, u16), RegistryError>(
            if may_request(port) {
                RegistryError::PortConflict(port)
            } else {
                RegistryError::PortOutOfRange(port)
            },
        ),
{
}

/// A port outside the range is refused, whether it is free or not, and the
/// request changes nothing.
pub proof fn an_outside_port_is_refused<C>(
    before: RegistryView<C>,
    after: RegistryView<C>,
    port: u16,
    id: u128,
    reserved: Result<(NameView, u16), RegistryError>,
)
    requires
        port < 20_000 || port > 60_000,
        port_reservation(before, after, Some(port), id, reserved),
    ensures
        after == before,
        reserved == Err::<(NameView, u16), RegistryError>(RegistryError::PortOutOfRange(port)),
{
}

/// A tunnel is found under its name from when it is opened, and its entry still
/// holds the name.
pub proof fn an_opened_tunnel_is_found<C>(
    registry: RegistryView<C>,
    entry: EntryView,
    tunnel: Tunnel<C>,
)
    requires
        held(registry, entry),
    ensures
        registry.attach(entry.id, tunnel, entry.name).find(entry.name) == Some(tunnel),
        held(
            registry.attach(entry.id, tunnel, entry.name),
            EntryView { persisted: true, ..entry },
        ),
{
}

/// Once a proxied session is over, however far it got, its name is free again,
/// no tunnel of it is left, and the registry is what it was before the request.
pub proof fn a_session_leaves_nothing<C>(
    registry: RegistryView<C>,
    name: NameView,
    id: u128,
    tunnel: Tunnel<C>,
)
    requires
        !registry.taken(name),
        !registry.tunnels.contains_key(id),
    ensures
        ({
            let granted = registry.reserve(name, id);
            let entry = EntryView { id, name, persisted: false };
            let opened = granted.attach(id, tunnel, name);
            &&& SessionView::Proxied(entry).let_go(granted) == registry
            &&& SessionView::Proxied(entry).end(granted) == registry
            &&& SessionView::Proxied(EntryView { persisted: true, ..entry }).end(opened) == registry
        }),
{
    let granted = registry.reserve(name, id);
    let opened = granted.attach(id, tunnel, name);
    assert(granted.names.remove(name) =~= registry.names);
    assert(opened.tunnels.remove(id) =~= registry.tunnels);
}

/// Once a proxied session is over, its name is free and its tunnel is gone,
/// whatever others have done in the meantime.
pub proof fn a_session_ends_clean<C>(registry: RegistryView<C>, entry: EntryView)
    requires
        held(registry, entry),
        entry.persisted ==> registry.tunnels.contains_key(entry.id),
    ensures
        ({
            let after = SessionView::Proxied(entry).end(registry);
            &&& !after.taken(entry.name)
            &&& !after.tunnels.contains_key(entry.id)
            &&& after.find(entry.name) is None
        }),
{
}

/// A session with a listener of its own is never found in the registry, and its
/// port stays taken when the session is over.
pub proof fn a_listening_port_stays_taken<C>(
    registry: RegistryView<C>,
    port: u16,
    id: u128,
)
    requires
        !registry.taken(NameView::PortNumber(port)),
        !registry.tunnels.contains_key(id),
    ensures
        ({
            let name = NameView::PortNumber(port);
            let granted = registry.reserve(name, id);
            let session = SessionView::Listening(id, port);
            &&& granted.find(name) is None
            &&& session.let_go(granted) == granted
            &&& session.end(granted) == granted
            &&& granted.taken(name)
        }),
{
}

/// Traffic changes nothing but the counts of the tunnel that carried it.
pub proof fn traffic_only_counts<C>(
    registry: RegistryView<C>,
    id: u128,
    read: usize,
    written: usize,
)
    ensures
        ({
            let after = registry.carry(id, read, written);
            &&& after.names == registry.names
            &&& after.tunnels.dom() == registry.tunnels.dom()
            &&& forall|other: u128|
                other != id && registry.tunnels.contains_key(other)
                    ==> #[trigger] after.tunnels[other] == registry.tunnels[other]
            &&& registry.tunnels.contains_key(id) ==> {
                &&& after.tunnels[id].1 == registry.tunnels[id].1
                &&& after.tunnels[id].0.connection == registry.tunnels[id].0.connection
            }
        }),
{
    assert(registry.carry(id, read, written).tunnels.dom() =~= registry.tunnels.dom());
}

/// A tunnel that is open here is where the traffic goes, whatever other servers
/// there are and however they answer.
pub proof fn a_tunnel_here_comes_first<C>(
    registry: RegistryView<C>,
    name: NameView,
    peers: Seq<Peer>,
    statuses: Seq<Option<u16>>,
)
    requires
        registry.find(name) is Some,
    ensures
        registry.route(name, peers, statuses) == registry.find(name),
{
}

/// The traffic for a name that is not found here goes to the first of the other
/// servers that has the tunnel, at the proxy for names of that kind; where none
/// has it, it goes nowhere.
pub proof fn peers_come_second<C>(
    registry: RegistryView<C>,
    name: NameView,
    peers: Seq<Peer>,
    statuses: Seq<Option<u16>>,
    winner: int,
)
    requires
        registry.find(name) is None,
        peers.len() == statuses.len(),
        0 <= winner <= statuses.len(),
        winner < statuses.len() ==> has_tunnel(statuses[winner]),
        forall|i: int| 0 <= i < winner ==> !has_tunnel(#[trigger] statuses[i]),
    ensures
        registry.route(name, peers, statuses) == (if winner < statuses.len() {
            Some(
                Tunnel::<C>::relaying(
                    PeerAddr {
                        ip: peers[winner].ip,
                        port: match name {
                            NameView::Subdomain(_) => registry.http_proxy_port,
                            NameView::PortNumber(_) => registry.tcp_proxy_port,
                        },
                    },
                ),
            )
        } else {
            None
        }),
{
    let search = registry.peer_query(name).among(peers);
    if winner < statuses.len() {
        the_first_peer_wins(search, statuses, winner);
    } else {
        no_peer_no_tunnel(search, statuses);
    }
}

/// The registry after a tunnel has carried some traffic, bit by bit.
pub open spec fn carry_all<C>(
    registry: RegistryView<C>,
    id: u128,
    traffic: Seq<(usize, usize)>,
) -> RegistryView<C>
    decreases traffic.len(),
{
    if traffic.len() == 0 {
        registry
    } else {
        carry_all(registry, id, traffic.drop_last()).carry(id, traffic.last().0, traffic.last().1)
    }
}

/// How much some traffic comes to, read and written.
pub open spec fn total(traffic: Seq<(usize, usize)>) -> (nat, nat)
    decreases traffic.len(),
{
    if traffic.len() == 0 {
        (0, 0)
    } else {
        let (read, written) = total(traffic.drop_last());
        (read + traffic.last().0 as nat, written + traffic.last().1 as nat)
    }
}

/// The counts of a tunnel add up what all its streams have carried, and start
/// again at zero past the largest count.
pub proof fn traffic_adds_up<C>(
    registry: RegistryView<C>,
    id: u128,
    traffic: Seq<(usize, usize)>,
)
    requires
        registry.tunnels.contains_key(id),
    ensures
        ({
            let after = carry_all(registry, id, traffic);
            let before = registry.tunnels[id].0;
            &&& after.tunnels.contains_key(id)
            &&& after.tunnels[id].1 == registry.tunnels[id].1
            &&& after.tunnels[id].0.connection == before.connection
            &&& after.tunnels[id].0.read_bytes == (before.read_bytes + total(traffic).0) % (
            usize::MAX + 1)
            &&& after.tunnels[id].0.written_bytes == (before.written_bytes + total(traffic).1) % (
            usize::MAX + 1)
        }),
    decreases traffic.len(),
{
    let before = registry.tunnels[id].0;
    if traffic.len() > 0 {
        let earlier = traffic.drop_last();
        traffic_adds_up(registry, id, earlier);
        sum_wraps(before.read_bytes + total(earlier).0, traffic.last().0);
        sum_wraps(before.written_bytes + total(earlier).1, traffic.last().1);
    } else {
        let m = (usize::MAX + 1) as nat;
        vstd::arithmetic::div_mod::lemma_small_mod(before.read_bytes as nat, m);
        vstd::arithmetic::div_mod::lemma_small_mod(before.written_bytes as nat, m);
    }
}

/// Adding to a count that has wrapped is adding to what it stands for.
proof fn sum_wraps(sum: int, more: usize)
    requires
        sum >= 0,
    ensures
        wrapped_sum((sum % (usize::MAX + 1)) as usize, more) == (sum + more) % (usize::MAX + 1),
{
    let m = usize::MAX + 1;
    let count = sum % m;
    vstd::arithmetic::div_mod::lemma_add_mod_noop(sum, more as int, m);
    vstd::arithmetic::div_mod::lemma_small_mod(more as nat, m as nat);
    if count + more >= m {
        vstd::arithmetic::div_mod::lemma_mod_sub_multiples_vanish(count + more, m);
        vstd::arithmetic::div_mod::lemma_small_mod((count + more - m) as nat, m as nat);
    } else {
        vstd::arithmetic::div_mod::lemma_small_mod((count + more) as nat, m as nat);
    }
}

} // verus!
