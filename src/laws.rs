//! Properties of the protocol that hold for every drone and every packet.
use vstd::prelude::*;
use crate::event::EffectView;
use crate::model::{
    advanced, after_packet, fan_out, forward_or_shortcut, forwarding_error, is_control_plane,
    next_hop, packet_effects, processable, safe_forward, sent, shortcut, with_trace, DroneModel,
    DroneState,
};
use crate::packet::{trace_ids, Nack, NackType, NodeId, NodeType, PacketTypeView, PacketView};
use crate::routing::{flood_response, nack_for, nack_packet, reversed_prefix};

verus! {

/// Effect `i` of `s`, if it is a send, is followed by the report of that same
/// packet.
pub open spec fn reported_at(s: Seq<EffectView>, i: int) -> bool {
    match s[i] {
        EffectView::Send(_, p) => i + 1 < s.len() && s[i + 1] == EffectView::PacketSent(p),
        _ => true,
    }
}

/// Every send in `s` is followed by its report.
pub open spec fn sends_reported(s: Seq<EffectView>) -> bool {
    forall|i: int| 0 <= i < s.len() ==> #[trigger] reported_at(s, i)
}

proof fn lemma_concat_reported(a: Seq<EffectView>, b: Seq<EffectView>)
    requires
        sends_reported(a),
        sends_reported(b),
    ensures
        sends_reported(a + b),
{
    let s = a + b;
    assert forall|i: int| 0 <= i < s.len() implies #[trigger] reported_at(s, i) by {
        if i < a.len() {
            assert(reported_at(a, i));
        } else {
            assert(reported_at(b, i - a.len()));
        }
    }
}

proof fn lemma_sent_reported(n: NodeId, p: PacketView)
    ensures
        sends_reported(sent(n, p)),
{
    assert(reported_at(sent(n, p), 0));
    assert(reported_at(sent(n, p), 1));
}

proof fn lemma_safe_forward_reported(neighbors: Seq<NodeId>, p: PacketView)
    ensures
        sends_reported(safe_forward(neighbors, p)),
        sends_reported(forward_or_shortcut(neighbors, p)),
{
    lemma_sent_reported_all(neighbors, p);
}

proof fn lemma_sent_reported_all(neighbors: Seq<NodeId>, p: PacketView)
    ensures
        sends_reported(forward_or_shortcut(neighbors, p)),
        sends_reported(shortcut(p)),
        forall|t: NackType| sends_reported(#[trigger] forwarding_error(neighbors, p, t)),
{
    assert(reported_at(shortcut(p), 0));
    match next_hop(neighbors, p) {
        Ok(n) => lemma_sent_reported(n, advanced(p)),
        Err(_) => {},
    }
    assert forall|t: NackType| sends_reported(#[trigger] forwarding_error(neighbors, p, t)) by {
        let q = nack_for(p, t);
        assert(reported_at(shortcut(q), 0));
        match next_hop(neighbors, q) {
            Ok(n) => lemma_sent_reported(n, advanced(q)),
            Err(_) => {},
        }
    }
}

proof fn lemma_fan_out_reported(targets: Seq<NodeId>, skip: NodeId, p: PacketView)
    ensures
        sends_reported(fan_out(targets, skip, p)),
    decreases targets.len(),
{
    if targets.len() > 0 {
        lemma_fan_out_reported(targets.drop_last(), skip, p);
        if targets.last() != skip {
            lemma_sent_reported(targets.last(), p);
            lemma_concat_reported(fan_out(targets.drop_last(), skip, p), sent(targets.last(), p));
        }
    }
}

/// Every send to a neighbour is followed at once by a PacketSent event for
/// the same packet, whatever the drone, the packet and the drop-rate draw.
pub proof fn lemma_every_send_reported(m: DroneModel, p: PacketView, dropped: bool)
    ensures
        sends_reported(packet_effects(m, p, dropped)),
{
    match p.pack_type {
        PacketTypeView::FloodRequest { flood_id, initiator_id, path_trace } => {
            let trace = path_trace.push((m.id, NodeType::Drone));
            lemma_fan_out_reported(m.neighbors, path_trace.last().0, with_trace(p, trace));
            lemma_safe_forward_reported(m.neighbors, flood_response(p.session_id, flood_id, trace));
        },
        _ => {
            lemma_safe_forward_reported(m.neighbors, p);
            lemma_sent_reported_all(m.neighbors, p);
            let k = p.hop_index as int;
            if k < p.hops.len() && p.hops[k] == m.id && p.pack_type is MsgFragment
                && m.state != DroneState::Crashing && dropped {
                let d = seq![EffectView::PacketDropped(p)];
                assert(reported_at(d, 0));
                lemma_concat_reported(forwarding_error(m.neighbors, p, NackType::Dropped), d);
            }
        },
    }
}

/// The drop-rate gate drops `p`: a message fragment whose current hop is this
/// Active drone, with a draw that drops it.
pub open spec fn drop_gate_drops(m: DroneModel, p: PacketView, dropped: bool) -> bool {
    &&& p.pack_type is MsgFragment
    &&& p.hop_index < p.hops.len()
    &&& p.hops[p.hop_index as int] == m.id
    &&& m.state == DroneState::Active
    &&& dropped
}

/// No effect of `s` reports a dropped packet.
pub open spec fn no_drop_reports(s: Seq<EffectView>) -> bool {
    forall|i: int| 0 <= i < s.len() ==> !(#[trigger] s[i] is PacketDropped)
}

proof fn lemma_forwarding_no_drop_reports(neighbors: Seq<NodeId>, p: PacketView)
    ensures
        no_drop_reports(safe_forward(neighbors, p)),
        forall|t: NackType| no_drop_reports(#[trigger] forwarding_error(neighbors, p, t)),
{
}

proof fn lemma_fan_out_no_drop_reports(targets: Seq<NodeId>, skip: NodeId, p: PacketView)
    ensures
        no_drop_reports(fan_out(targets, skip, p)),
    decreases targets.len(),
{
    if targets.len() > 0 {
        lemma_fan_out_no_drop_reports(targets.drop_last(), skip, p);
        let rest = fan_out(targets.drop_last(), skip, p);
        let all = rest + sent(targets.last(), p);
        assert forall|i: int| 0 <= i < all.len() implies !(#[trigger] all[i] is PacketDropped) by {
            if i < rest.len() {
                assert(all[i] == rest[i]);
            }
        }
    }
}

/// A PacketDropped event is emitted exactly when the drop-rate gate drops a
/// message fragment; it is the last effect, and it carries the fragment as
/// received.
pub proof fn lemma_drop_reported(m: DroneModel, p: PacketView, dropped: bool)
    requires
        m.state != DroneState::Crashed,
    ensures
        (exists|i: int|
            0 <= i < packet_effects(m, p, dropped).len() && #[trigger] packet_effects(
                m,
                p,
                dropped,
            )[i] is PacketDropped) <==> drop_gate_drops(m, p, dropped),
        drop_gate_drops(m, p, dropped) ==> packet_effects(m, p, dropped).last()
            == EffectView::PacketDropped(p),
{
    let e = packet_effects(m, p, dropped);
    match p.pack_type {
        PacketTypeView::FloodRequest { flood_id, initiator_id, path_trace } => {
            let trace = path_trace.push((m.id, NodeType::Drone));
            lemma_fan_out_no_drop_reports(
                m.neighbors,
                path_trace.last().0,
                with_trace(p, trace),
            );
            lemma_forwarding_no_drop_reports(
                m.neighbors,
                flood_response(p.session_id, flood_id, trace),
            );
        },
        _ => {
            lemma_forwarding_no_drop_reports(m.neighbors, p);
            if drop_gate_drops(m, p, dropped) {
                assert(e[e.len() - 1] is PacketDropped);
            }
        },
    }
}

/// A source-routed packet that is forwarded leaves with its route unchanged
/// and its hop index one past the index at which it arrived, towards the
/// node at that new index.
pub open spec fn forwarded_as_advanced(s: Seq<EffectView>, p: PacketView) -> bool {
    forall|i: int|
        0 <= i < s.len() ==> match #[trigger] s[i] {
            EffectView::Send(n, q) => q.pack_type == p.pack_type ==> {
                &&& q == advanced(p)
                &&& q.hop_index == p.hop_index + 1
                &&& q.hops == p.hops
                &&& n == q.hops[q.hop_index as int]
            },
            _ => true,
        }
}

/// Forwarding a non-flood packet moves its hop index on by exactly one; any
/// other packet the drone sends for it is a NACK of a fragment.
pub proof fn lemma_forward_advances_hop(m: DroneModel, p: PacketView, dropped: bool)
    requires
        !(p.pack_type is FloodRequest),
    ensures
        forwarded_as_advanced(packet_effects(m, p, dropped), p),
{
    let e = packet_effects(m, p, dropped);
    let k = p.hop_index as int;
    if k < p.hops.len() {
        assert forall|t: NackType| #[trigger] forwarded_as_advanced(
            forwarding_error(m.neighbors, p, t),
            p,
        ) by {
            let f = forwarding_error(m.neighbors, p, t);
            if !is_control_plane(p.pack_type) {
                let q = nack_for(p, t);
                assert forall|i: int| 0 <= i < f.len() implies match #[trigger] f[i] {
                    EffectView::Send(n, r) => r.pack_type == p.pack_type ==> {
                        &&& r == advanced(p)
                        &&& r.hop_index == p.hop_index + 1
                        &&& r.hops == p.hops
                        &&& n == r.hops[r.hop_index as int]
                    },
                    _ => true,
                } by {
                    if f[i] is Send {
                        assert(f[i] == EffectView::Send(f[i]->Send_0, advanced(q)));
                        assert(q.pack_type != p.pack_type);
                    }
                }
            }
        }
        if p.hops[k] == m.id && p.pack_type is MsgFragment && m.state != DroneState::Crashing
            && dropped {
            let f = forwarding_error(m.neighbors, p, NackType::Dropped);
            assert(forwarded_as_advanced(f, p));
            assert forall|i: int| 0 <= i < e.len() implies match #[trigger] e[i] {
                EffectView::Send(n, q) => q.pack_type == p.pack_type ==> {
                    &&& q == advanced(p)
                    &&& q.hop_index == p.hop_index + 1
                    &&& q.hops == p.hops
                    &&& n == q.hops[q.hop_index as int]
                },
                _ => true,
            } by {
                if i < f.len() {
                    assert(e[i] == f[i]);
                }
            }
        }
    }
}

/// A message fragment that reaches its current hop on an Active drone, is
/// not dropped, and names a next hop that is not a neighbour, is answered by
/// exactly one NACK of class ErrorInRouting naming that hop, with the
/// fragment's index, along the fragment's route so far reversed; its first
/// recipient is the node the fragment came from.
pub proof fn lemma_unreachable_next_hop_nack(m: DroneModel, p: PacketView)
    requires
        p.pack_type is MsgFragment,
        m.state == DroneState::Active,
        p.hop_index + 1 < p.hops.len(),
        p.hops[p.hop_index as int] == m.id,
        !m.neighbors.contains(p.hops[p.hop_index + 1int]),
    ensures
        ({
            let k = p.hop_index as int;
            let nack = nack_packet(
                p,
                Nack {
                    fragment_index: p.pack_type->MsgFragment_0.fragment_index,
                    nack_type: NackType::ErrorInRouting(p.hops[k + 1]),
                },
            );
            &&& nack.hops == reversed_prefix(p.hops, p.hop_index)
            &&& nack.hops == p.hops.take(k + 1).reverse()
            &&& nack.hop_index == 0
            &&& nack.hops[0] == m.id
            &&& k > 0 ==> nack.hops[1] == p.hops[k - 1]
            &&& packet_effects(m, p, false) == if k > 0 && m.neighbors.contains(p.hops[k - 1]) {
                sent(p.hops[k - 1], advanced(nack))
            } else {
                shortcut(nack)
            }
        }),
{
    let k = p.hop_index as int;
    let nack = nack_for(p, NackType::ErrorInRouting(p.hops[k + 1]));
    assert(nack.hops.len() == k + 1);
    assert(nack.hops[0] == p.hops[k]);
    if k > 0 {
        assert(nack.hops[1] == p.hops[k - 1]);
    }
}

/// A flood request that reaches a drone again with the same (flood id,
/// initiator id) is not propagated: the drone emits exactly one flood
/// response, retracing the request's trace extended by the drone, whose
/// first recipient is the node the request came from.
pub proof fn lemma_flood_repeat(
    m: DroneModel,
    first: PacketView,
    again: PacketView,
    dropped: bool,
)
    requires
        first.pack_type is FloodRequest,
        again.pack_type is FloodRequest,
        first.pack_type->FloodRequest_flood_id == again.pack_type->FloodRequest_flood_id,
        first.pack_type->FloodRequest_initiator_id == again.pack_type->FloodRequest_initiator_id,
        processable(m, again),
    ensures
        ({
            let trace = again.pack_type->FloodRequest_path_trace;
            let prev = trace.last().0;
            let response = flood_response(
                again.session_id,
                again.pack_type->FloodRequest_flood_id,
                trace.push((m.id, NodeType::Drone)),
            );
            let e = packet_effects(after_packet(m, first), again, dropped);
            &&& response.hops[0] == m.id
            &&& response.hops[1] == prev
            &&& e == if m.neighbors.contains(prev) {
                sent(prev, advanced(response))
            } else {
                shortcut(response)
            }
            &&& forall|i: int|
                0 <= i < e.len() ==> match #[trigger] e[i] {
                    EffectView::Send(_, q) => !(q.pack_type is FloodRequest),
                    _ => true,
                }
        }),
{
    let trace = again.pack_type->FloodRequest_path_trace;
    let t = trace.push((m.id, NodeType::Drone));
    let ids = trace_ids(t);
    assert(ids.len() == t.len());
    assert(ids.reverse()[0] == ids[t.len() - 1]);
    assert(ids.reverse()[1] == ids[t.len() - 2]);
    assert(t[t.len() - 2] == trace.last());
}

/// A NACK that a drone sends in answer to a message fragment goes first to
/// the node the fragment came from: the NACK's route starts at the fragment's
/// current hop and goes back along the hops it walked.
pub proof fn lemma_nack_returns_to_sender(m: DroneModel, p: PacketView, dropped: bool)
    requires
        p.pack_type is MsgFragment,
    ensures
        forall|i: int|
            0 <= i < packet_effects(m, p, dropped).len() ==> match #[trigger] packet_effects(
                m,
                p,
                dropped,
            )[i] {
                EffectView::Send(n, q) => q.pack_type != p.pack_type ==> {
                    &&& q.pack_type is Nack
                    &&& 0 < p.hop_index < p.hops.len()
                    &&& n == p.hops[p.hop_index - 1]
                    &&& q.hop_index == 1
                    &&& q.hops == reversed_prefix(p.hops, p.hop_index)
                },
                _ => true,
            },
{
    let e = packet_effects(m, p, dropped);
    let k = p.hop_index as int;
    if k < p.hops.len() {
        assert forall|t: NackType| #[trigger] nack_for(p, t).hops.len() == k + 1 && (k > 0
            ==> nack_for(p, t).hops[1] == p.hops[k - 1]) by {}
        if p.hops[k] == m.id && m.state != DroneState::Crashing && dropped {
            let f = forwarding_error(m.neighbors, p, NackType::Dropped);
            assert forall|i: int| 0 <= i < e.len() implies match #[trigger] e[i] {
                EffectView::Send(n, q) => q.pack_type != p.pack_type ==> {
                    &&& q.pack_type is Nack
                    &&& 0 < p.hop_index < p.hops.len()
                    &&& n == p.hops[p.hop_index - 1]
                    &&& q.hop_index == 1
                    &&& q.hops == reversed_prefix(p.hops, p.hop_index)
                },
                _ => true,
            } by {
                if i < f.len() {
                    assert(e[i] == f[i]);
                }
            }
        }
    }
}

proof fn lemma_fan_out_sends(targets: Seq<NodeId>, skip: NodeId, p: PacketView)
    ensures
        forall|i: int|
            0 <= i < fan_out(targets, skip, p).len() ==> match #[trigger] fan_out(
                targets,
                skip,
                p,
            )[i] {
                EffectView::Send(n, q) => q == p && n != skip && targets.contains(n),
                _ => true,
            },
    decreases targets.len(),
{
    if targets.len() > 0 {
        let rest = fan_out(targets.drop_last(), skip, p);
        lemma_fan_out_sends(targets.drop_last(), skip, p);
        let all = fan_out(targets, skip, p);
        assert forall|i: int| 0 <= i < all.len() implies match #[trigger] all[i] {
            EffectView::Send(n, q) => q == p && n != skip && targets.contains(n),
            _ => true,
        } by {
            if i < rest.len() {
                assert(all[i] == rest[i]);
                if let EffectView::Send(n, q) = rest[i] {
                    let j = choose|j: int| 0 <= j < targets.len() - 1 && targets.drop_last()[j] == n;
                    assert(targets[j] == n);
                }
            } else {
                assert(targets[targets.len() - 1] == targets.last());
            }
        }
    }
}

/// A flood request is either propagated unchanged but for its trace, which
/// gains this drone, to neighbours other than the node it came from; or it is
/// answered by a flood response whose first recipient is that node.
pub proof fn lemma_flood_answers_go_back(m: DroneModel, p: PacketView)
    requires
        p.pack_type is FloodRequest,
        processable(m, p),
    ensures
        ({
            let trace = p.pack_type->FloodRequest_path_trace;
            let prev = trace.last().0;
            let e = packet_effects(m, p, false);
            forall|i: int|
                0 <= i < e.len() ==> match #[trigger] e[i] {
                    EffectView::Send(n, q) => if q.pack_type is FloodResponse {
                        &&& n == prev
                        &&& q.hop_index == 1
                        &&& q.hops[0] == m.id
                    } else {
                        &&& q == with_trace(p, trace.push((m.id, NodeType::Drone)))
                        &&& n != prev
                        &&& m.neighbors.contains(n)
                    },
                    _ => true,
                }
        }),
{
    let trace = p.pack_type->FloodRequest_path_trace;
    let t = trace.push((m.id, NodeType::Drone));
    let ids = trace_ids(t);
    assert(ids.reverse()[0] == ids[t.len() - 1]);
    assert(ids.reverse()[1] == ids[t.len() - 2]);
    assert(t[t.len() - 2] == trace.last());
    lemma_fan_out_sends(m.neighbors, trace.last().0, with_trace(p, t));
}

} // verus!
