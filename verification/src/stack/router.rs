//! NPDU routing: the routing table and the forwarding decision.
use vstd::prelude::*;
use std::collections::HashMap;
use crate::codec::npdu::Npdu;
use crate::types::{MacAddr, NetworkAddress};

verus! {

broadcast use vstd::std_specs::hash::group_hash_axioms;

/// A router port.
#[derive(Debug, Clone, Copy, PartialEq, Eq, Hash, Structural)]
pub struct PortId(pub u32);

/// Why a frame is dropped.
#[derive(Debug, Clone, Copy, PartialEq, Eq, Structural)]
pub enum DropReason {
    HopCountExceeded,
    NoRoute,
    LoopDetected,
}

/// What to do with a frame on a port.
#[derive(Debug, Clone)]
pub enum RoutingDecision {
    LocalDeliver,
    Forward { next_hop: NetworkAddress, decrement_hop: bool },
    Broadcast { networks: Vec<u16> },
    Drop(DropReason),
}

/// The routing table: for each network, the port it is reached through and
/// its hop count.
pub struct NpduRouter {
    routing_table: HashMap<u16, (PortId, u8)>,
    local_network: u16,
}

/// The MS/TP address a frame is forwarded to: the first MAC octet, 0 when
/// the MAC is empty.
pub open spec fn first_mac_octet(mac: Seq<u8>) -> u8 {
    if mac.len() > 0 {
        mac[0]
    } else {
        0
    }
}

impl NpduRouter {
    /// The routes known, by network.
    pub closed spec fn routes(&self) -> Map<u16, (PortId, u8)> {
        self.routing_table@
    }

    /// The network of this router.
    pub closed spec fn local(&self) -> u16 {
        self.local_network
    }

    /// A router for `local_network` with no routes.
    pub fn new(local_network: u16) -> (r: NpduRouter)
        ensures
            r.routes() == Map::<u16, (PortId, u8)>::empty(),
            r.local() == local_network,
    {
        NpduRouter { routing_table: HashMap::new(), local_network }
    }

    /// Adds or replaces the route to `network`.
    pub fn add_route(&mut self, network: u16, port: PortId, hop_count: u8)
        ensures
            final(self).routes() == old(self).routes().insert(network, (port, hop_count)),
            final(self).local() == old(self).local(),
    {
        self.routing_table.insert(network, (port, hop_count));
    }

    /// Whether `r` is the decision for a frame with destination `dst` and
    /// hop count `hop`.
    pub open spec fn route_outcome(&self, dst: Option<(u16, Seq<u8>)>, hop: Option<u8>, r: Seq<(PortId, RoutingDecision)>) -> bool {
        match dst {
            None => r.len() == 1 && r[0].0 == PortId(0) && r[0].1 is LocalDeliver,
            Some((net, mac)) => if net == 0xFFFF {
                &&& r.len() == self.routes().dom().len()
                &&& forall|i: int| 0 <= i < r.len() ==> ((#[trigger] r[i]).1 matches RoutingDecision::Broadcast { networks } && networks@.len() == 0)
                        && exists|n: u16| self.routes().contains_key(n) && self.routes()[n].0 == r[i].0
                &&& forall|n: u16| #[trigger] self.routes().contains_key(n) ==> exists|i: int| 0 <= i < r.len() && r[i].0 == self.routes()[n].0
            } else if net == self.local() || net == 0 {
                r.len() == 1 && r[0].0 == PortId(0) && r[0].1 is LocalDeliver
            } else if hop == Some(0u8) {
                r.len() == 1 && r[0].0 == PortId(0) && r[0].1 == RoutingDecision::Drop(DropReason::HopCountExceeded)
            } else if self.routes().contains_key(net) {
                r.len() == 1 && r[0].0 == self.routes()[net].0 && r[0].1 == RoutingDecision::Forward {
                    next_hop: NetworkAddress { network_number: net, mac: MacAddr::MsTP(first_mac_octet(mac)) },
                    decrement_hop: true,
                }
            } else {
                r.len() == 1 && r[0].0 == PortId(0) && r[0].1 == RoutingDecision::Drop(DropReason::NoRoute)
            },
        }
    }

    /// Where and how to send a frame: a global broadcast goes out on every
    /// route; a frame for this network (or network 0) or without a
    /// destination is delivered locally; a frame whose hop count ran out is
    /// dropped; otherwise it is forwarded on the route to its network, or
    /// dropped when there is none.
    pub fn route(&self, npdu: &Npdu, incoming_port: PortId) -> (r: Vec<(PortId, RoutingDecision)>)
        ensures
            self.route_outcome(npdu.model().destination, npdu.hop_count, r@),
    {
        if let Some(dst) = &npdu.destination {
            if dst.network == 0xFFFF {
                let mut out: Vec<(PortId, RoutingDecision)> = Vec::new();
                let ghost m = self.routing_table@;
                let ghost mut pairs: Seq<(&u16, &(PortId, u8))> = Seq::empty();
                for e in it: self.routing_table.iter()
                    invariant
                        m == self.routing_table@,
                        out@.len() == it.index(),
                        it.seq().len() == m.dom().len(),
                        forall|i: int| 0 <= i < it.seq().len() ==> m.contains_key(*it.seq()[i].0) && m[*it.seq()[i].0] == *it.seq()[i].1,
                        pairs == it.seq().take(it.index() as int),
                        forall|k: u16| #[trigger] m.contains_key(k) ==> exists|j: int| 0 <= j < it.seq().len()
                            && #[trigger] it.seq()[j] == (&k, &m[k]) && (j < it.index() ==> pairs[j] == it.seq()[j]),
                        forall|i: int| 0 <= i < out@.len() ==> ((#[trigger] out@[i]).1 matches RoutingDecision::Broadcast { networks } && networks@.len() == 0)
                            && out@[i].0 == (*it.seq()[i].1).0,
                {
                    proof { pairs = pairs.push(e); }
                    let (_, (port, _)) = e;
                    out.push((*port, RoutingDecision::Broadcast { networks: Vec::new() }));
                }
                proof {
                    assert(out@.len() == m.dom().len());
                    assert(pairs.len() == m.dom().len());
                    assert forall|k: u16| #[trigger] m.contains_key(k) implies pairs.contains((&k, &m[k])) by {
                        let j = choose|j: int| 0 <= j < pairs.len() && pairs[j] == (&k, &m[k]);
                    }
                    if out@.len() > 0 {
                        assert forall|i: int| 0 <= i < out@.len() implies exists|n: u16| m.contains_key(n) && m[n].0 == (#[trigger] out@[i]).0 by {
                            let n = *pairs[i].0;
                            assert(m.contains_key(n) && m[n].0 == out@[i].0);
                        }
                        assert forall|n: u16| #[trigger] m.contains_key(n) implies exists|i: int| 0 <= i < out@.len() && out@[i].0 == m[n].0 by {
                            assert(pairs.contains((&n, &m[n])));
                            let i = choose|i: int| 0 <= i < pairs.len() && pairs[i] == (&n, &m[n]);
                            assert(out@[i].0 == m[n].0);
                        }
                    } else {
                        assert forall|n: u16| #[trigger] m.contains_key(n) implies exists|i: int| 0 <= i < out@.len() && out@[i].0 == m[n].0 by {
                            assert(m.dom().contains(n));
                            vstd::set_lib::lemma_set_empty_equivalency_len(m.dom());
                        }
                    }
                }
                return out;
            }
            if dst.network == self.local_network || dst.network == 0 {
                return vec![(PortId(0), RoutingDecision::LocalDeliver)];
            }
            if let Some(hop) = npdu.hop_count {
                if hop == 0 {
                    return vec![(PortId(0), RoutingDecision::Drop(DropReason::HopCountExceeded))];
                }
            }
            if let Some(entry) = self.routing_table.get(&dst.network) {
                let mac0: u8 = if dst.mac.len() > 0 { dst.mac[0] } else { 0 };
                let next_hop = NetworkAddress { network_number: dst.network, mac: MacAddr::MsTP(mac0) };
                return vec![(entry.0, RoutingDecision::Forward { next_hop, decrement_hop: true })];
            }
            return vec![(PortId(0), RoutingDecision::Drop(DropReason::NoRoute))];
        }
        vec![(PortId(0), RoutingDecision::LocalDeliver)]
    }
}

/// A route once added is used: after `add_route(network, port, _)`, a frame
/// for that network (not this router's, not 0, not a global broadcast)
/// whose hop count has not run out is forwarded on `port`.
pub proof fn lemma_route_after_add(
    before: NpduRouter,
    after: NpduRouter,
    network: u16,
    port: PortId,
    hop_count: u8,
    mac: Seq<u8>,
    hop: Option<u8>,
    r: Seq<(PortId, RoutingDecision)>,
)
    requires
        after.routes() == before.routes().insert(network, (port, hop_count)),
        after.local() == before.local(),
        network != 0xFFFF,
        network != 0,
        network != before.local(),
        hop != Some(0u8),
        after.route_outcome(Some((network, mac)), hop, r),
    ensures
        r.len() == 1,
        r[0].0 == port,
        r[0].1 == (RoutingDecision::Forward {
            next_hop: NetworkAddress { network_number: network, mac: MacAddr::MsTP(first_mac_octet(mac)) },
            decrement_hop: true,
        }),
{
}

} // verus!
