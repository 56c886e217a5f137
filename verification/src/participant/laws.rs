//! What holds of the participant whatever the events are.

use crate::network::{Endpoint, SocketAddr};
use crate::participant::message::MessageView;
use crate::participant::model::{
    after_connected, after_event, after_roster, at_tick, dial_each, dials, wanted, wanted_by,
    ActionView, PeerEventView,
};
use crate::participant::storage::{
    admits, holds, knows, lemma_claim, lemma_put_unresolved, lemma_without, public_of, roster,
    slot, targets, well_formed, without, ParticipantInfo, Record,
};
use vstd::prelude::*;

verus! {

/// Every event leaves the table sound: a table that keeps its promises before
/// an event keeps them after it.
pub proof fn lemma_event_keeps_table_sound(
    own: SocketAddr,
    rs: Seq<Record<Endpoint>>,
    event: PeerEventView,
)
    requires
        well_formed(own, rs),
    ensures
        well_formed(own, after_event(own, rs, event).peers),
{
    match event {
        PeerEventView::Accepted(e) => {
            lemma_put_unresolved(own, rs, e);
        },
        PeerEventView::Connected(e, established) => {
            lemma_claim(own, rs, e, e.addr);
            lemma_without(own, rs, e);
        },
        PeerEventView::Message(e, message) => {
            match message {
                MessageView::PublicAddress(public) => {
                    lemma_claim(own, rs, e, public);
                },
                _ => {},
            }
        },
        PeerEventView::Undecodable(e) => {
            lemma_without(own, rs, e);
        },
        PeerEventView::Disconnected(e) => {
            lemma_without(own, rs, e);
        },
        PeerEventView::DialFailed(target) => {},
    }
}

/// No record is ever resolved to the node's own address: not in the empty
/// table that a node starts with, and not after any event.
pub proof fn lemma_own_address_is_never_a_peer(
    own: SocketAddr,
    rs: Seq<Record<Endpoint>>,
    event: PeerEventView,
)
    requires
        well_formed(own, rs),
    ensures
        well_formed(own, Seq::<Record<Endpoint>>::empty()),
        !knows(rs, own),
        !knows(after_event(own, rs, event).peers, own),
{
    lemma_event_keeps_table_sound(own, rs, event);
}

/// After every event, two different records are never resolved to the same
/// public address.
pub proof fn lemma_resolved_addresses_are_unique(
    own: SocketAddr,
    rs: Seq<Record<Endpoint>>,
    event: PeerEventView,
    i: int,
    j: int,
    a: SocketAddr,
)
    requires
        well_formed(own, rs),
        0 <= i < after_event(own, rs, event).peers.len(),
        0 <= j < after_event(own, rs, event).peers.len(),
        after_event(own, rs, event).peers[i].info == ParticipantInfo::Resolved(a),
        after_event(own, rs, event).peers[j].info == ParticipantInfo::Resolved(a),
    ensures
        i == j,
{
    lemma_event_keeps_table_sound(own, rs, event);
    let after = after_event(own, rs, event).peers;
    if i < j {
        assert(after[i].info != after[j].info);
    } else if j < i {
        assert(after[j].info != after[i].info);
    }
}

/// A roster never makes the node dial itself, nor the socket that sent the
/// roster, nor an address that a record is resolved to already: whichever
/// addresses the roster holds, none of these is among the dials.
pub proof fn lemma_roster_dials_only_strangers(
    own: SocketAddr,
    rs: Seq<Record<Endpoint>>,
    sender: Endpoint,
    addrs: Seq<SocketAddr>,
    i: int,
)
    requires
        0 <= i < dials(own, rs, sender, addrs).len(),
    ensures
        dials(own, rs, sender, addrs)[i] != own,
        dials(own, rs, sender, addrs)[i] != sender.addr,
        !knows(rs, dials(own, rs, sender, addrs)[i]),
        public_of(rs, sender) != Some(dials(own, rs, sender, addrs)[i]),
        addrs.contains(dials(own, rs, sender, addrs)[i]),
{
    let pred = wanted_by(own, rs, sender);
    let d = dials(own, rs, sender, addrs)[i];
    addrs.lemma_filter_pred(pred, i);
    assert(wanted(own, rs, sender, d));
    assert(addrs.filter(pred).contains(d));
    addrs.lemma_filter_contains_rev(pred, d);
    if public_of(rs, sender) == Some(d) {
        assert(rs[slot(rs, sender)].info == ParticipantInfo::Resolved(d));
        assert(knows(rs, d));
    }
}

/// A roster that holds the receiver's own address, or the address of the
/// sender's socket, is taken like any other: the actions it calls for hold no
/// dial of either.
pub proof fn lemma_roster_actions_spare_self_and_sender(
    own: SocketAddr,
    rs: Seq<Record<Endpoint>>,
    sender: Endpoint,
    addrs: Seq<SocketAddr>,
    i: int,
)
    requires
        0 <= i < after_roster(own, rs, sender, addrs).len(),
    ensures
        after_roster(own, rs, sender, addrs)[i] != ActionView::Dial(own),
        after_roster(own, rs, sender, addrs)[i] != ActionView::Dial(sender.addr),
        public_of(rs, sender) matches Some(public) ==> after_roster(own, rs, sender, addrs)[i]
            != ActionView::Dial(public),
{
    let found = dials(own, rs, sender, addrs);
    if i < found.len() {
        lemma_roster_dials_only_strangers(own, rs, sender, addrs, i);
        assert(after_roster(own, rs, sender, addrs)[i] == ActionView::Dial(found[i]));
    }
}

/// A roster dials nothing where every address it would have dialed has
/// become known.
pub proof fn lemma_known_addresses_are_not_dialed(
    own: SocketAddr,
    rs: Seq<Record<Endpoint>>,
    sender: Endpoint,
    addrs: Seq<SocketAddr>,
)
    requires
        forall|k: int|
            0 <= k < addrs.len() && (#[trigger] addrs[k]) != own && addrs[k] != sender.addr
                ==> knows(rs, addrs[k]),
    ensures
        dials(own, rs, sender, addrs) == Seq::<SocketAddr>::empty(),
        after_roster(own, rs, sender, addrs) == Seq::<ActionView>::empty(),
{
    let pred = wanted_by(own, rs, sender);
    assert(addrs.all(|a: SocketAddr| !pred(a))) by {
        assert forall|k: int| 0 <= k < addrs.len() implies !pred(#[trigger] addrs[k]) by {}
    }
    addrs.lemma_all_neg_filter_empty(pred);
    assert(dials(own, rs, sender, addrs) =~= Seq::<SocketAddr>::empty());
    assert(dial_each(Seq::<SocketAddr>::empty()) =~= Seq::<ActionView>::empty());
}

/// The table after each of the handles, in turn, reported an established
/// dial.
pub open spec fn after_all_connected(
    own: SocketAddr,
    rs: Seq<Record<Endpoint>>,
    handles: Seq<Endpoint>,
) -> Seq<Record<Endpoint>>
    decreases handles.len(),
{
    if handles.len() == 0 {
        rs
    } else {
        after_connected(
            own,
            after_all_connected(own, rs, handles.drop_last()),
            handles.last(),
        ).peers
    }
}

/// An established dial on a new handle loses no known address, and makes the
/// dialed address known unless it is the node's own. A handle that had no
/// record before has none but its own afterwards.
pub proof fn lemma_connected_adds_knowledge(
    own: SocketAddr,
    rs: Seq<Record<Endpoint>>,
    e: Endpoint,
)
    requires
        well_formed(own, rs),
        !holds(rs, e),
    ensures
        well_formed(own, after_connected(own, rs, e).peers),
        e.addr != own ==> knows(after_connected(own, rs, e).peers, e.addr),
        forall|a: SocketAddr| knows(rs, a) ==> knows(after_connected(own, rs, e).peers, a),
        forall|other: Endpoint|
            other != e && !holds(rs, other) ==> !holds(after_connected(own, rs, e).peers, other),
{
    lemma_claim(own, rs, e, e.addr);
    let after = after_connected(own, rs, e).peers;
    assert forall|a: SocketAddr| knows(rs, a) implies knows(after, a) by {
        let i = choose|i: int|
            0 <= i < rs.len() && (#[trigger] rs[i]).info == ParticipantInfo::Resolved(a);
        if admits(own, rs, e, e.addr) {
            assert(after[i] == rs[i]);
        }
    }
    assert forall|other: Endpoint| other != e && !holds(rs, other) implies !holds(
        after,
        other,
    ) by {
        if holds(after, other) {
            let i = choose|i: int| 0 <= i < after.len() && (#[trigger] after[i]).endpoint == other;
            if i < rs.len() {
                assert(rs[i].endpoint == other);
            }
        }
    }
}

/// What `lemma_connected_adds_knowledge` says of one established dial, of a
/// run of them on new handles.
pub proof fn lemma_all_connected_add_knowledge(
    own: SocketAddr,
    rs: Seq<Record<Endpoint>>,
    handles: Seq<Endpoint>,
)
    requires
        well_formed(own, rs),
        forall|k: int| 0 <= k < handles.len() ==> !holds(rs, #[trigger] handles[k]),
        forall|k: int, l: int| 0 <= k < l < handles.len() ==> handles[k] != handles[l],
    ensures
        well_formed(own, after_all_connected(own, rs, handles)),
        forall|a: SocketAddr| knows(rs, a) ==> knows(after_all_connected(own, rs, handles), a),
        forall|k: int|
            0 <= k < handles.len() && (#[trigger] handles[k]).addr != own ==> knows(
                after_all_connected(own, rs, handles),
                handles[k].addr,
            ),
        forall|other: Endpoint|
            !holds(rs, other) && !handles.contains(other) ==> !holds(
                after_all_connected(own, rs, handles),
                other,
            ),
    decreases handles.len(),
{
    if handles.len() > 0 {
        let front = handles.drop_last();
        let last = handles.last();
        lemma_all_connected_add_knowledge(own, rs, front);
        let middle = after_all_connected(own, rs, front);
        assert(!front.contains(last)) by {
            if front.contains(last) {
                let k = choose|k: int| 0 <= k < front.len() && front[k] == last;
                assert(handles[k] != handles[handles.len() - 1]);
            }
        }
        assert(!holds(rs, last));
        lemma_connected_adds_knowledge(own, middle, last);
        let after = after_all_connected(own, rs, handles);
        assert forall|k: int|
            0 <= k < handles.len() && (#[trigger] handles[k]).addr != own implies knows(
            after,
            handles[k].addr,
        ) by {
            if k < front.len() {
                assert(front[k] == handles[k]);
                assert(knows(middle, handles[k].addr));
            }
        }
        assert forall|other: Endpoint|
            !holds(rs, other) && !handles.contains(other) implies !holds(after, other) by {
            assert(other != last);
            assert(!front.contains(other)) by {
                if front.contains(other) {
                    let k = choose|k: int| 0 <= k < front.len() && front[k] == other;
                    assert(handles[k] == other);
                }
            }
        }
    }
}

/// Reconciliation is idempotent. Once the dials that a roster called for are
/// established, each on a new connection of its own, the same roster from the
/// same sender calls for nothing more: no dial and no log line.
pub proof fn lemma_same_roster_twice_dials_once(
    own: SocketAddr,
    rs: Seq<Record<Endpoint>>,
    sender: Endpoint,
    addrs: Seq<SocketAddr>,
    handles: Seq<Endpoint>,
)
    requires
        well_formed(own, rs),
        handles.len() == dials(own, rs, sender, addrs).len(),
        forall|k: int|
            0 <= k < handles.len() ==> (#[trigger] handles[k]).addr == dials(
                own,
                rs,
                sender,
                addrs,
            )[k],
        forall|k: int| 0 <= k < handles.len() ==> !holds(rs, #[trigger] handles[k]),
        forall|k: int, l: int| 0 <= k < l < handles.len() ==> handles[k] != handles[l],
    ensures
        after_roster(own, after_all_connected(own, rs, handles), sender, addrs) == Seq::<
            ActionView,
        >::empty(),
{
    let after = after_all_connected(own, rs, handles);
    let pred = wanted_by(own, rs, sender);
    let found = dials(own, rs, sender, addrs);
    lemma_all_connected_add_knowledge(own, rs, handles);
    assert forall|k: int|
        0 <= k < addrs.len() && (#[trigger] addrs[k]) != own && addrs[k]
            != sender.addr implies knows(after, addrs[k]) by {
        if !knows(rs, addrs[k]) {
            assert(pred(addrs[k]));
            addrs.lemma_filter_contains(pred, k);
            let m = choose|m: int| 0 <= m < found.len() && found[m] == addrs[k];
            assert(handles[m].addr == addrs[k]);
        }
    }
    lemma_known_addresses_are_not_dialed(own, after, sender, addrs);
}

/// A peer that was removed on disconnection gets no broadcast: after the
/// event its handle is in no record, so none of the handles to broadcast to
/// is its handle, and no tick sends to it.
pub proof fn lemma_disconnected_peer_gets_no_broadcast(
    own: SocketAddr,
    rs: Seq<Record<Endpoint>>,
    e: Endpoint,
    n: nat,
    i: int,
)
    requires
        well_formed(own, rs),
        0 <= i < at_tick(after_event(own, rs, PeerEventView::Disconnected(e)).peers, n).len(),
    ensures
        !holds(after_event(own, rs, PeerEventView::Disconnected(e)).peers, e),
        forall|k: int|
            0 <= k < targets(after_event(own, rs, PeerEventView::Disconnected(e)).peers).len()
                ==> (#[trigger] targets(
                after_event(own, rs, PeerEventView::Disconnected(e)).peers,
            )[k]).endpoint != e,
        at_tick(after_event(own, rs, PeerEventView::Disconnected(e)).peers, n)[i]
            matches ActionView::Send(to, _) ==> to != e,
{
    lemma_without(own, rs, e);
    let after = after_event(own, rs, PeerEventView::Disconnected(e)).peers;
    assert(after == without(rs, e));
    assert forall|k: int| 0 <= k < targets(after).len() implies (#[trigger] targets(
        after,
    )[k]).endpoint != e by {
        assert(after[k].endpoint != e);
    }
    if i < after.len() {
        assert(after[i].endpoint != e);
    }
}

/// The handshake resolves both sides. When a node that knows no one dials a
/// node that knows no one, the dialer records its handle as resolved to the
/// address it dialed and sends its own address, then a request for the
/// roster; the other side, once it has accepted the connection and taken the
/// announcement, has its handle resolved to the dialer's address, and
/// answers the request with a roster that makes the dialer dial no one.
pub proof fn lemma_handshake_resolves_both_sides(
    dialer: SocketAddr,
    listener: SocketAddr,
    outbound: Endpoint,
    inbound: Endpoint,
)
    requires
        dialer != listener,
        outbound.addr == listener,
    ensures
        ({
            let nobody = Seq::<Record<Endpoint>>::empty();
            let dialed = after_event(dialer, nobody, PeerEventView::Connected(outbound, true));
            let accepted = after_event(listener, nobody, PeerEventView::Accepted(inbound));
            let announced = after_event(
                listener,
                accepted.peers,
                PeerEventView::Message(inbound, MessageView::PublicAddress(dialer)),
            );
            let asked = after_event(
                listener,
                announced.peers,
                PeerEventView::Message(inbound, MessageView::PushParticipantsList),
            );
            let answered = after_event(
                dialer,
                dialed.peers,
                PeerEventView::Message(
                    outbound,
                    MessageView::PullParticipantsList(seq![listener, dialer]),
                ),
            );
            &&& dialed.peers == seq![
                Record { endpoint: outbound, info: ParticipantInfo::Resolved(listener) },
            ]
            &&& dialed.actions == seq![
                ActionView::Send(outbound, MessageView::PublicAddress(dialer)),
                ActionView::Send(outbound, MessageView::PushParticipantsList),
            ]
            &&& accepted.actions == Seq::<ActionView>::empty()
            &&& announced.peers == seq![
                Record { endpoint: inbound, info: ParticipantInfo::Resolved(dialer) },
            ]
            &&& announced.actions == Seq::<ActionView>::empty()
            &&& asked.peers == announced.peers
            &&& asked.actions == seq![
                ActionView::Send(
                    inbound,
                    MessageView::PullParticipantsList(seq![listener, dialer]),
                ),
            ]
            &&& answered.peers == dialed.peers
            &&& answered.actions == Seq::<ActionView>::empty()
        }),
{
    let nobody = Seq::<Record<Endpoint>>::empty();
    let dialed = after_event(dialer, nobody, PeerEventView::Connected(outbound, true));
    assert(dialed.peers =~= seq![
        Record { endpoint: outbound, info: ParticipantInfo::Resolved(listener) },
    ]);
    let accepted = after_event(listener, nobody, PeerEventView::Accepted(inbound));
    assert(accepted.peers =~= seq![
        Record { endpoint: inbound, info: ParticipantInfo::Unresolved },
    ]);
    assert(accepted.peers[0].endpoint == inbound);
    assert(holds(accepted.peers, inbound));
    assert(slot(accepted.peers, inbound) == 0);
    let announced = after_event(
        listener,
        accepted.peers,
        PeerEventView::Message(inbound, MessageView::PublicAddress(dialer)),
    );
    assert(admits(listener, accepted.peers, inbound, dialer));
    assert(announced.peers =~= seq![
        Record { endpoint: inbound, info: ParticipantInfo::Resolved(dialer) },
    ]);
    assert(roster(listener, announced.peers) =~= seq![listener, dialer]);
    lemma_known_addresses_are_not_dialed(dialer, dialed.peers, outbound, seq![listener, dialer]);
}

} // verus!
