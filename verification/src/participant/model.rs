//! The participant: a state machine from network events to actions.
//!
//! The participant owns the membership table and decides; it performs no
//! input or output itself. Its caller hands it each event of the transport,
//! in arrival order, and each tick of the broadcast timer, and carries out
//! the actions it returns, in the order given, before the next event.

use crate::network::{addr_text, Endpoint, SocketAddr};
use crate::participant::message::{Message, MessageView};
use crate::participant::storage::{
    admits, announce, claim, info_of, knows, public_of, put, roster, shown, targets, well_formed,
    without, ParticipantAddress, ParticipantEndpoint, ParticipantInfo, ParticipantsStorage, Record,
};
use crate::participant::utils::{
    chat_message, chat_text, discovered_line, discovered_message, own_address_line,
    own_address_message, received_line, received_message, sending_line, sending_message,
    undecodable_line, undecodable_message, unreachable_line, unreachable_message,
};
use rand::Rng;
use vstd::prelude::*;
use vstd::string::*;

verus! {

/// What the transport reports, and what the caller reports of a dial.
#[derive(Debug, PartialEq, Eq)]
pub enum PeerEvent {
    /// A peer dialed this node; the handle is the new connection's.
    Accepted(Endpoint),
    /// A dial of this node came to its end: established, or not.
    Connected(Endpoint, bool),
    /// A message arrived on the connection.
    Message(Endpoint, Message),
    /// Bytes arrived on the connection that are no message.
    Undecodable(Endpoint),
    /// The connection is gone.
    Disconnected(Endpoint),
    /// A dial could not even be started; the text is the address as it was
    /// handed to the transport.
    DialFailed(String),
}

/// An event as a mathematical value.
pub enum PeerEventView {
    Accepted(Endpoint),
    Connected(Endpoint, bool),
    Message(Endpoint, MessageView),
    Undecodable(Endpoint),
    Disconnected(Endpoint),
    DialFailed(Seq<char>),
}

impl View for PeerEvent {
    type V = PeerEventView;

    open spec fn view(&self) -> PeerEventView {
        match self {
            PeerEvent::Accepted(e) => PeerEventView::Accepted(*e),
            PeerEvent::Connected(e, established) => PeerEventView::Connected(*e, *established),
            PeerEvent::Message(e, message) => PeerEventView::Message(*e, message@),
            PeerEvent::Undecodable(e) => PeerEventView::Undecodable(*e),
            PeerEvent::Disconnected(e) => PeerEventView::Disconnected(*e),
            PeerEvent::DialFailed(target) => PeerEventView::DialFailed(target@),
        }
    }
}

/// What the participant asks its caller to do.
#[derive(Debug, PartialEq, Eq)]
pub enum Action {
    /// Dial the bootstrap peer; the text is the address from the command
    /// line.
    Connect(String),
    /// Dial the peer that listens on the address.
    Dial(SocketAddr),
    /// Send the message on the connection.
    Send(Endpoint, Message),
    /// Close the connection.
    Close(Endpoint),
    /// Write the line to the event log.
    Log(String),
}

/// An action as a mathematical value.
pub enum ActionView {
    Connect(Seq<char>),
    Dial(SocketAddr),
    Send(Endpoint, MessageView),
    Close(Endpoint),
    Log(Seq<char>),
}

impl View for Action {
    type V = ActionView;

    open spec fn view(&self) -> ActionView {
        match self {
            Action::Connect(target) => ActionView::Connect(target@),
            Action::Dial(addr) => ActionView::Dial(*addr),
            Action::Send(e, message) => ActionView::Send(*e, message@),
            Action::Close(e) => ActionView::Close(*e),
            Action::Log(line) => ActionView::Log(line@),
        }
    }
}

/// The actions as mathematical values, in order.
pub open spec fn views_of(actions: Seq<Action>) -> Seq<ActionView> {
    actions.map_values(|a: Action| a@)
}

/// The table after an event, and the actions that the event calls for.
pub struct Outcome {
    pub peers: Seq<Record<Endpoint>>,
    pub actions: Seq<ActionView>,
}

/// At startup: the node logs its own address and, where it was given a
/// bootstrap peer, dials it.
pub open spec fn at_startup(own: SocketAddr, connect: Option<Seq<char>>) -> Seq<ActionView> {
    match connect {
        Some(target) => seq![ActionView::Log(own_address_line(own)), ActionView::Connect(target)],
        None => seq![ActionView::Log(own_address_line(own))],
    }
}

/// After a dial was established: the handle claims the address that was
/// dialed. Where the table admits the claim, the handshake follows: first this
/// node's own address, then the request for a roster. Where it does not, the
/// connection is closed.
pub open spec fn after_connected(own: SocketAddr, rs: Seq<Record<Endpoint>>, e: Endpoint)
    -> Outcome {
    Outcome {
        peers: claim(own, rs, e, e.addr),
        actions: if admits(own, rs, e, e.addr) {
            seq![
                ActionView::Send(e, MessageView::PublicAddress(own)),
                ActionView::Send(e, MessageView::PushParticipantsList),
            ]
        } else {
            seq![ActionView::Close(e)]
        },
    }
}

/// Whether a roster's address is one to dial: not this node's own, not the
/// address of the socket that sent the roster, not one that a record is
/// resolved to.
pub open spec fn wanted(
    own: SocketAddr,
    rs: Seq<Record<Endpoint>>,
    sender: Endpoint,
    a: SocketAddr,
) -> bool {
    a != own && a != sender.addr && !knows(rs, a)
}

/// `wanted`, as a predicate on addresses.
pub open spec fn wanted_by(own: SocketAddr, rs: Seq<Record<Endpoint>>, sender: Endpoint)
    -> spec_fn(SocketAddr) -> bool {
    |a: SocketAddr| wanted(own, rs, sender, a)
}

/// The addresses of a roster that this node dials, in the roster's order.
pub open spec fn dials(
    own: SocketAddr,
    rs: Seq<Record<Endpoint>>,
    sender: Endpoint,
    addrs: Seq<SocketAddr>,
) -> Seq<SocketAddr> {
    addrs.filter(wanted_by(own, rs, sender))
}

/// A dial of each address, in order.
pub open spec fn dial_each(addrs: Seq<SocketAddr>) -> Seq<ActionView> {
    addrs.map_values(|a: SocketAddr| ActionView::Dial(a))
}

/// What a roster calls for: a dial of each wanted address and, where there is
/// one at least, a log line that lists them.
pub open spec fn after_roster(
    own: SocketAddr,
    rs: Seq<Record<Endpoint>>,
    sender: Endpoint,
    addrs: Seq<SocketAddr>,
) -> Seq<ActionView> {
    let found = dials(own, rs, sender, addrs);
    if found.len() == 0 {
        dial_each(found)
    } else {
        dial_each(found).push(ActionView::Log(discovered_line(found)))
    }
}

/// The address under which the sender of a chat message is logged: the public
/// address that its handle is resolved to, else the address of its socket.
pub open spec fn sender_shown(rs: Seq<Record<Endpoint>>, sender: Endpoint) -> SocketAddr {
    match public_of(rs, sender) {
        Some(public) => public,
        None => sender.addr,
    }
}

/// After a message from the peer behind `sender`.
pub open spec fn after_message(
    own: SocketAddr,
    rs: Seq<Record<Endpoint>>,
    sender: Endpoint,
    message: MessageView,
) -> Outcome {
    match message {
        MessageView::PublicAddress(public) => Outcome {
            peers: announce(own, rs, sender, public),
            actions: if info_of(rs, sender) == Some(ParticipantInfo::Unresolved) && !admits(
                own,
                rs,
                sender,
                public,
            ) {
                seq![ActionView::Close(sender)]
            } else {
                Seq::empty()
            },
        },
        MessageView::PushParticipantsList => Outcome {
            peers: rs,
            actions: seq![
                ActionView::Send(sender, MessageView::PullParticipantsList(roster(own, rs))),
            ],
        },
        MessageView::PullParticipantsList(addrs) => Outcome {
            peers: rs,
            actions: after_roster(own, rs, sender, addrs),
        },
        MessageView::Text(text) => Outcome {
            peers: rs,
            actions: seq![ActionView::Log(received_line(text, sender_shown(rs, sender)))],
        },
    }
}

/// After an event.
pub open spec fn after_event(own: SocketAddr, rs: Seq<Record<Endpoint>>, event: PeerEventView)
    -> Outcome {
    match event {
        PeerEventView::Accepted(e) => Outcome {
            peers: put(rs, e, ParticipantInfo::Unresolved),
            actions: Seq::empty(),
        },
        PeerEventView::Connected(e, established) => if established {
            after_connected(own, rs, e)
        } else {
            Outcome {
                peers: without(rs, e),
                actions: seq![ActionView::Log(unreachable_line(addr_text(e.addr)))],
            }
        },
        PeerEventView::Message(e, message) => after_message(own, rs, e, message),
        PeerEventView::Undecodable(e) => Outcome {
            peers: without(rs, e),
            actions: seq![ActionView::Close(e), ActionView::Log(undecodable_line(e.addr))],
        },
        PeerEventView::Disconnected(e) => Outcome { peers: without(rs, e), actions: Seq::empty() },
        PeerEventView::DialFailed(target) => Outcome {
            peers: rs,
            actions: seq![ActionView::Log(unreachable_line(target))],
        },
    }
}

/// The chat message of one tick to every handle of the table, as actions.
pub open spec fn sends(rs: Seq<Record<Endpoint>>, text: Seq<char>) -> Seq<ActionView> {
    rs.map_values(|r: Record<Endpoint>| ActionView::Send(r.endpoint, MessageView::Text(text)))
}

/// The addresses under which the table's peers are shown, in table order.
pub open spec fn shown_list(rs: Seq<Record<Endpoint>>) -> Seq<SocketAddr> {
    rs.map_values(|r: Record<Endpoint>| shown(r))
}

/// What a tick of the broadcast timer calls for, when the number drawn is
/// `n`: nothing while the table is empty; otherwise one chat message, the
/// same to every handle, and one log line.
pub open spec fn at_tick(rs: Seq<Record<Endpoint>>, n: nat) -> Seq<ActionView> {
    if rs.len() == 0 {
        Seq::empty()
    } else {
        sends(rs, chat_text(n)).push(
            ActionView::Log(sending_line(chat_text(n), shown_list(rs))),
        )
    }
}

/// A participant as a mathematical value.
pub struct ParticipantView {
    pub public_addr: SocketAddr,
    pub period: u32,
    pub connect: Option<Seq<char>>,
    pub peers: Seq<Record<Endpoint>>,
}

/// One node of the gossip mesh.
pub struct Participant {
    period: u32,
    connect: Option<String>,
    participants: ParticipantsStorage<Endpoint>,
}

/// Draws a number from zero up to, and without, `bound`, by
/// `rand::thread_rng().gen_range(0..bound)`. Not proved, but taken from the
/// `rand` crate: the number lies in the range. The generator is the thread's
/// own, seeded by the system, so nothing else is known of the number, and two
/// draws may differ. `gen_range` panics on an empty range, which `bound > 0`
/// rules out; `thread_rng` panics where the system gives it no seed, which
/// nothing here can rule out.
#[verifier::external_body]
fn random_below(bound: u32) -> (n: u32)
    requires
        bound > 0,
    ensures
        n < bound,
{
    rand::thread_rng().gen_range(0..bound)
}

impl View for Participant {
    type V = ParticipantView;

    closed spec fn view(&self) -> ParticipantView {
        ParticipantView {
            public_addr: self.participants.own(),
            period: self.period,
            connect: match self.connect {
                Some(target) => Some(target@),
                None => None,
            },
            peers: self.participants@,
        }
    }
}

impl Participant {
    /// A participant that listens on `public_addr`, broadcasts every `period`
    /// seconds and, where `connect` is given, bootstraps from the peer at
    /// that address. Its table is empty.
    pub fn new(period: u32, public_addr: SocketAddr, connect: Option<String>) -> (p: Self)
        ensures
            p@ == (ParticipantView {
                public_addr,
                period,
                connect: match connect {
                    Some(target) => Some(target@),
                    None => None,
                },
                peers: Seq::empty(),
            }),
    {
        Self { period, connect, participants: ParticipantsStorage::new(public_addr) }
    }

    /// The address that this node listens on.
    pub fn public_addr(&self) -> (a: SocketAddr)
        ensures
            a == self@.public_addr,
    {
        self.participants.self_pub_addr()
    }

    /// The seconds between two broadcasts.
    pub fn period(&self) -> (p: u32)
        ensures
            p == self@.period,
    {
        self.period
    }

    /// The membership table.
    pub fn participants(&self) -> (table: &ParticipantsStorage<Endpoint>)
        ensures
            table@ == self@.peers,
            table.own() == self@.public_addr,
            well_formed(self@.public_addr, self@.peers),
    {
        let _ = self.participants.self_pub_addr();
        &self.participants
    }

    /// The actions of startup: log the node's own address and, where a
    /// bootstrap peer was given, dial it.
    pub fn start(&self) -> (actions: Vec<Action>)
        ensures
            views_of(actions@) == at_startup(self@.public_addr, self@.connect),
    {
        let mut actions = Vec::new();
        actions.push(Action::Log(own_address_message(self.participants.self_pub_addr())));
        match &self.connect {
            Some(target) => {
                actions.push(Action::Connect(target.clone()));
            },
            None => {},
        }
        proof {
            assert(views_of(actions@) =~= at_startup(self@.public_addr, self@.connect));
        }
        actions
    }

    /// Reacts to one event: updates the table and says what is to be done.
    pub fn handle(&mut self, event: PeerEvent) -> (actions: Vec<Action>)
        ensures
            final(self)@.public_addr == old(self)@.public_addr,
            final(self)@.period == old(self)@.period,
            final(self)@.connect == old(self)@.connect,
            final(self)@.peers == after_event(
                old(self)@.public_addr,
                old(self)@.peers,
                event@,
            ).peers,
            views_of(actions@) == after_event(
                old(self)@.public_addr,
                old(self)@.peers,
                event@,
            ).actions,
            well_formed(final(self)@.public_addr, final(self)@.peers),
    {
        match event {
            PeerEvent::Accepted(endpoint) => {
                self.participants.add_accepted_participant(endpoint);
                let actions = Vec::new();
                proof {
                    assert(views_of(actions@) =~= Seq::empty());
                }
                actions
            },
            PeerEvent::Connected(endpoint, established) => {
                if established {
                    self.connected(endpoint)
                } else {
                    self.participants.drop(endpoint);
                    let mut actions = Vec::new();
                    let target = endpoint.addr().to_text();
                    actions.push(Action::Log(unreachable_message(target.as_str())));
                    proof {
                        assert(views_of(actions@) =~= seq![
                            ActionView::Log(unreachable_line(addr_text(endpoint.addr))),
                        ]);
                    }
                    actions
                }
            },
            PeerEvent::Message(message_sender, message) => self.network_messages(
                message_sender,
                message,
            ),
            PeerEvent::Undecodable(endpoint) => {
                self.participants.drop(endpoint);
                let mut actions = Vec::new();
                actions.push(Action::Close(endpoint));
                actions.push(Action::Log(undecodable_message(endpoint.addr())));
                proof {
                    assert(views_of(actions@) =~= seq![
                        ActionView::Close(endpoint),
                        ActionView::Log(undecodable_line(endpoint.addr)),
                    ]);
                }
                actions
            },
            PeerEvent::Disconnected(endpoint) => {
                self.participants.drop(endpoint);
                let actions = Vec::new();
                proof {
                    assert(views_of(actions@) =~= Seq::empty());
                }
                actions
            },
            PeerEvent::DialFailed(target) => {
                let _ = self.participants.self_pub_addr();
                let mut actions = Vec::new();
                actions.push(Action::Log(unreachable_message(target.as_str())));
                proof {
                    assert(views_of(actions@) =~= seq![
                        ActionView::Log(unreachable_line(target@)),
                    ]);
                }
                actions
            },
        }
    }

    /// Reacts to a dial that was established: records the handle and opens
    /// the handshake, or closes the connection where the table does not admit
    /// the handle.
    pub fn connected(&mut self, endpoint: Endpoint) -> (actions: Vec<Action>)
        ensures
            final(self)@.public_addr == old(self)@.public_addr,
            final(self)@.period == old(self)@.period,
            final(self)@.connect == old(self)@.connect,
            final(self)@.peers == after_connected(
                old(self)@.public_addr,
                old(self)@.peers,
                endpoint,
            ).peers,
            views_of(actions@) == after_connected(
                old(self)@.public_addr,
                old(self)@.peers,
                endpoint,
            ).actions,
            well_formed(final(self)@.public_addr, final(self)@.peers),
    {
        let own = self.participants.self_pub_addr();
        let refused = self.participants.add_known_participant(endpoint);
        let mut actions = Vec::new();
        if refused {
            actions.push(Action::Close(endpoint));
            proof {
                assert(views_of(actions@) =~= seq![ActionView::Close(endpoint)]);
            }
        } else {
            actions.push(Action::Send(endpoint, Message::PublicAddress(own)));
            actions.push(Action::Send(endpoint, Message::PushParticipantsList));
            proof {
                assert(views_of(actions@) =~= seq![
                    ActionView::Send(endpoint, MessageView::PublicAddress(own)),
                    ActionView::Send(endpoint, MessageView::PushParticipantsList),
                ]);
            }
        }
        actions
    }

    /// Reacts to a message from the peer behind `message_sender`.
    pub fn network_messages(&mut self, message_sender: Endpoint, message: Message) -> (actions:
        Vec<Action>)
        ensures
            final(self)@.public_addr == old(self)@.public_addr,
            final(self)@.period == old(self)@.period,
            final(self)@.connect == old(self)@.connect,
            final(self)@.peers == after_message(
                old(self)@.public_addr,
                old(self)@.peers,
                message_sender,
                message@,
            ).peers,
            views_of(actions@) == after_message(
                old(self)@.public_addr,
                old(self)@.peers,
                message_sender,
                message@,
            ).actions,
            well_formed(final(self)@.public_addr, final(self)@.peers),
    {
        let own = self.participants.self_pub_addr();
        match message {
            Message::PublicAddress(pub_addr) => {
                let refused = self.participants.add_unknown_participant(message_sender, pub_addr);
                let mut actions = Vec::new();
                if refused {
                    actions.push(Action::Close(message_sender));
                    proof {
                        assert(views_of(actions@) =~= seq![ActionView::Close(message_sender)]);
                    }
                } else {
                    proof {
                        assert(views_of(actions@) =~= Seq::empty());
                    }
                }
                actions
            },
            Message::PushParticipantsList => {
                let list = self.participants.get_participants_list();
                let mut actions = Vec::new();
                actions.push(Action::Send(message_sender, Message::PullParticipantsList(list)));
                proof {
                    assert(views_of(actions@) =~= seq![
                        ActionView::Send(
                            message_sender,
                            MessageView::PullParticipantsList(roster(own, self@.peers)),
                        ),
                    ]);
                }
                actions
            },
            Message::PullParticipantsList(addrs) => self.pull_participants_list(
                message_sender,
                &addrs,
            ),
            Message::Text(text) => {
                let from = match self.participants.get_pub_addr(&message_sender) {
                    Some(public) => public,
                    None => message_sender.addr(),
                };
                let mut actions = Vec::new();
                actions.push(Action::Log(received_message(text.as_str(), from)));
                proof {
                    assert(views_of(actions@) =~= seq![
                        ActionView::Log(
                            received_line(text@, sender_shown(self@.peers, message_sender)),
                        ),
                    ]);
                }
                actions
            },
        }
    }

    /// Reconciles a roster from the peer behind `message_sender` against the
    /// table: says which of its addresses to dial. The table itself changes
    /// only when a dial is established.
    pub fn pull_participants_list(&self, message_sender: Endpoint, addrs: &Vec<SocketAddr>) -> (actions:
        Vec<Action>)
        ensures
            views_of(actions@) == after_roster(
                self@.public_addr,
                self@.peers,
                message_sender,
                addrs@,
            ),
            well_formed(self@.public_addr, self@.peers),
    {
        let own = self.participants.self_pub_addr();
        let sender_addr = message_sender.addr();
        let ghost pred = wanted_by(own, self@.peers, message_sender);
        let mut found: Vec<SocketAddr> = Vec::new();
        let mut actions: Vec<Action> = Vec::new();
        let mut i: usize = 0;
        proof {
            reveal(Seq::filter);
            assert(addrs@.take(0).filter(pred) =~= Seq::empty());
            assert(views_of(actions@) =~= dial_each(found@));
        }
        while i < addrs.len()
            invariant
                i <= addrs.len(),
                own == self@.public_addr,
                sender_addr == message_sender.addr,
                pred == wanted_by(own, self@.peers, message_sender),
                found@ == addrs@.take(i as int).filter(pred),
                views_of(actions@) == dial_each(found@),
            decreases addrs.len() - i,
        {
            let addr = addrs[i];
            proof {
                addrs@.take(i as int).lemma_filter_push(addr, pred);
                assert(addrs@.take(i + 1) == addrs@.take(i as int).push(addr));
            }
            if addr != own && addr != sender_addr && !self.participants.is_known_participant(addr) {
                let ghost dialing = views_of(actions@);
                let ghost before = found@;
                found.push(addr);
                actions.push(Action::Dial(addr));
                proof {
                    assert(views_of(actions@) =~= dialing.push(ActionView::Dial(addr)));
                    assert(dial_each(before.push(addr)) =~= dial_each(before).push(
                        ActionView::Dial(addr),
                    ));
                }
            }
            i += 1;
        }
        proof {
            assert(addrs@.take(i as int) == addrs@);
        }
        if found.len() > 0 {
            let ghost dialing = views_of(actions@);
            actions.push(Action::Log(discovered_message(found.as_slice())));
            proof {
                assert(views_of(actions@) =~= dialing.push(
                    ActionView::Log(discovered_line(found@)),
                ));
            }
        }
        actions
    }

    /// The actions of one tick of the broadcast timer, for the number `n`.
    pub fn broadcast(&self, n: u32) -> (actions: Vec<Action>)
        ensures
            views_of(actions@) == at_tick(self@.peers, n as nat),
    {
        let receivers = self.participants.receivers();
        let mut actions: Vec<Action> = Vec::new();
        if receivers.len() == 0 {
            proof {
                assert(views_of(actions@) =~= Seq::empty());
            }
            return actions;
        }
        let text = chat_message(n);
        let mut to: Vec<SocketAddr> = Vec::new();
        let mut i: usize = 0;
        proof {
            assert(views_of(actions@) =~= sends(self@.peers.take(0), text@));
            assert(to@ =~= shown_list(self@.peers.take(0)));
        }
        while i < receivers.len()
            invariant
                i <= receivers.len(),
                receivers@ == targets(self@.peers),
                views_of(actions@) == sends(self@.peers.take(i as int), text@),
                to@ == shown_list(self@.peers.take(i as int)),
            decreases receivers.len() - i,
        {
            let ghost sent = views_of(actions@);
            let ghost listed = to@;
            actions.push(Action::Send(receivers[i].endpoint, Message::Text(text.clone())));
            to.push(receivers[i].public);
            proof {
                let before = self@.peers.take(i as int);
                let after = self@.peers.take(i + 1);
                let record = self@.peers[i as int];
                assert(after == before.push(record));
                assert(receivers@[i as int] == targets(self@.peers)[i as int]);
                assert(views_of(actions@) =~= sent.push(
                    ActionView::Send(record.endpoint, MessageView::Text(text@)),
                ));
                assert(to@ == listed.push(shown(record)));
                assert(views_of(actions@) =~= sends(after, text@));
                assert(to@ =~= shown_list(after));
            }
            i += 1;
        }
        proof {
            assert(self@.peers.take(i as int) == self@.peers);
        }
        let ghost sent = views_of(actions@);
        actions.push(Action::Log(sending_message(text.as_str(), to.as_slice())));
        proof {
            assert(views_of(actions@) =~= sent.push(
                ActionView::Log(sending_line(text@, to@)),
            ));
        }
        actions
    }

    /// The actions of one tick of the broadcast timer: draws the tick's
    /// number, once, and broadcasts the chat message that carries it.
    pub fn sending_random_message(&self) -> (actions: Vec<Action>)
        ensures
            exists|n: nat| n < 1000 && views_of(actions@) == at_tick(self@.peers, n),
    {
        if self.participants.len() == 0 {
            let actions = self.broadcast(0);
            proof {
                assert(views_of(actions@) == at_tick(self@.peers, 0));
            }
            actions
        } else {
            let n = random_below(1000);
            let actions = self.broadcast(n);
            proof {
                assert(views_of(actions@) == at_tick(self@.peers, n as nat));
            }
            actions
        }
    }
}

} // verus!
