use gossip_p2p::network::{Endpoint, SocketAddr};
use gossip_p2p::participant::message::Message;
use gossip_p2p::participant::model::{Action, Participant, PeerEvent};
use gossip_p2p::participant::storage::ParticipantAddress;

fn addr(port: u16) -> SocketAddr {
    SocketAddr::v4(127, 0, 0, 1, port)
}

fn node() -> Participant {
    Participant::new(5, addr(9001), None)
}

fn log(line: &str) -> Action {
    Action::Log(line.to_string())
}

fn shown(p: &Participant) -> Vec<SocketAddr> {
    p.participants().receivers().iter().map(|r| r.public).collect()
}

#[test]
fn a_new_participant_knows_no_one() {
    let p = Participant::new(7, addr(9001), Some("127.0.0.1:9000".to_string()));
    assert_eq!(p.period(), 7);
    assert_eq!(p.public_addr(), addr(9001));
    assert_eq!(p.participants().len(), 0);
    assert_eq!(p.participants().self_pub_addr(), addr(9001));
}

#[test]
fn startup_logs_the_own_address() {
    assert_eq!(node().start(), vec![log("My address is \"127.0.0.1:9001\"")]);
}

#[test]
fn startup_dials_the_bootstrap_peer() {
    let p = Participant::new(5, addr(9002), Some("127.0.0.1:9001".to_string()));
    assert_eq!(
        p.start(),
        vec![
            log("My address is \"127.0.0.1:9002\""),
            Action::Connect("127.0.0.1:9001".to_string()),
        ]
    );
}

#[test]
fn an_accepted_connection_is_recorded_and_not_answered() {
    let mut p = node();
    let e = Endpoint::new(1, addr(50001));
    assert_eq!(p.handle(PeerEvent::Accepted(e)), vec![]);
    assert_eq!(
        p.participants().receivers(),
        vec![ParticipantAddress { public: addr(50001), endpoint: e }]
    );
    assert_eq!(p.participants().get_pub_addr(&e), None);
}

#[test]
fn an_established_dial_opens_the_handshake() {
    let mut p = node();
    let e = Endpoint::new(1, addr(9002));
    assert_eq!(
        p.handle(PeerEvent::Connected(e, true)),
        vec![
            Action::Send(e, Message::PublicAddress(addr(9001))),
            Action::Send(e, Message::PushParticipantsList),
        ]
    );
    assert_eq!(p.participants().get_pub_addr(&e), Some(addr(9002)));
}

#[test]
fn connected_is_what_an_established_dial_does() {
    let mut p = node();
    let e = Endpoint::new(1, addr(9002));
    assert_eq!(
        p.connected(e),
        vec![
            Action::Send(e, Message::PublicAddress(addr(9001))),
            Action::Send(e, Message::PushParticipantsList),
        ]
    );
    assert_eq!(shown(&p), vec![addr(9002)]);
}

#[test]
fn a_second_connection_to_an_address_is_closed() {
    let mut p = node();
    let first = Endpoint::new(1, addr(9002));
    let second = Endpoint::new(2, addr(9002));
    p.handle(PeerEvent::Connected(first, true));
    assert_eq!(p.handle(PeerEvent::Connected(second, true)), vec![Action::Close(second)]);
    assert_eq!(
        p.participants().receivers(),
        vec![ParticipantAddress { public: addr(9002), endpoint: first }]
    );
}

#[test]
fn a_connection_to_the_own_address_is_closed() {
    let mut p = node();
    let e = Endpoint::new(1, addr(9001));
    assert_eq!(p.handle(PeerEvent::Connected(e, true)), vec![Action::Close(e)]);
    assert_eq!(p.participants().len(), 0);
}

#[test]
fn a_dial_that_did_not_get_through_is_logged() {
    let mut p = node();
    let e = Endpoint::new(1, addr(9002));
    assert_eq!(
        p.handle(PeerEvent::Connected(e, false)),
        vec![log("Failed to connect to 127.0.0.1:9002")]
    );
    assert_eq!(p.participants().len(), 0);
}

#[test]
fn a_dial_that_could_not_start_is_logged() {
    let mut p = node();
    p.handle(PeerEvent::Connected(Endpoint::new(1, addr(9002)), true));
    assert_eq!(
        p.handle(PeerEvent::DialFailed("nowhere:1".to_string())),
        vec![log("Failed to connect to nowhere:1")]
    );
    assert_eq!(shown(&p), vec![addr(9002)]);
}

#[test]
fn an_announcement_resolves_the_sender() {
    let mut p = node();
    let e = Endpoint::new(1, addr(50001));
    p.handle(PeerEvent::Accepted(e));
    assert_eq!(p.handle(PeerEvent::Message(e, Message::PublicAddress(addr(9002)))), vec![]);
    assert_eq!(p.participants().get_pub_addr(&e), Some(addr(9002)));
    assert_eq!(shown(&p), vec![addr(9002)]);
}

#[test]
fn an_announcement_of_a_taken_address_closes_the_newer_connection() {
    let mut p = node();
    let first = Endpoint::new(1, addr(9002));
    let second = Endpoint::new(2, addr(50001));
    p.handle(PeerEvent::Connected(first, true));
    p.handle(PeerEvent::Accepted(second));
    assert_eq!(
        p.handle(PeerEvent::Message(second, Message::PublicAddress(addr(9002)))),
        vec![Action::Close(second)]
    );
    assert_eq!(
        p.participants().receivers(),
        vec![ParticipantAddress { public: addr(9002), endpoint: first }]
    );
}

#[test]
fn an_announcement_of_the_own_address_closes_the_connection() {
    let mut p = node();
    let e = Endpoint::new(1, addr(50001));
    p.handle(PeerEvent::Accepted(e));
    assert_eq!(
        p.handle(PeerEvent::Message(e, Message::PublicAddress(addr(9001)))),
        vec![Action::Close(e)]
    );
    assert_eq!(p.participants().len(), 0);
}

#[test]
fn an_announcement_from_an_unrecorded_handle_is_passed_over() {
    let mut p = node();
    let e = Endpoint::new(1, addr(50001));
    assert_eq!(p.handle(PeerEvent::Message(e, Message::PublicAddress(addr(9002)))), vec![]);
    assert_eq!(p.participants().len(), 0);
}

#[test]
fn a_request_is_answered_with_the_roster() {
    let mut p = node();
    let dialed = Endpoint::new(1, addr(9002));
    let accepted = Endpoint::new(2, addr(50001));
    let announced = Endpoint::new(3, addr(50002));
    p.handle(PeerEvent::Connected(dialed, true));
    p.handle(PeerEvent::Accepted(accepted));
    p.handle(PeerEvent::Accepted(announced));
    p.handle(PeerEvent::Message(announced, Message::PublicAddress(addr(9003))));
    assert_eq!(
        p.handle(PeerEvent::Message(announced, Message::PushParticipantsList)),
        vec![Action::Send(
            announced,
            Message::PullParticipantsList(vec![addr(9001), addr(9002), addr(50001), addr(9003)]),
        )]
    );
}

#[test]
fn a_request_to_a_lonely_node_is_answered_with_its_own_address() {
    let mut p = node();
    let e = Endpoint::new(1, addr(50001));
    assert_eq!(
        p.handle(PeerEvent::Message(e, Message::PushParticipantsList)),
        vec![Action::Send(e, Message::PullParticipantsList(vec![addr(9001)]))]
    );
}

#[test]
fn a_roster_makes_the_node_dial_strangers_only() {
    let mut p = node();
    let sender = Endpoint::new(1, addr(9002));
    let known = Endpoint::new(2, addr(9003));
    p.handle(PeerEvent::Connected(sender, true));
    p.handle(PeerEvent::Connected(known, true));
    let roster = vec![addr(9002), addr(9001), addr(9003), addr(9004), addr(9005)];
    assert_eq!(
        p.handle(PeerEvent::Message(sender, Message::PullParticipantsList(roster))),
        vec![
            Action::Dial(addr(9004)),
            Action::Dial(addr(9005)),
            log("Connected to new participants: [\"127.0.0.1:9004\", \"127.0.0.1:9005\"]"),
        ]
    );
    assert_eq!(shown(&p), vec![addr(9002), addr(9003)]);
}

#[test]
fn a_roster_with_the_own_address_does_not_dial_self() {
    let mut p = node();
    let sender = Endpoint::new(1, addr(9002));
    p.handle(PeerEvent::Connected(sender, true));
    assert_eq!(
        p.handle(PeerEvent::Message(sender, Message::PullParticipantsList(vec![addr(9001)]))),
        vec![]
    );
    assert_eq!(p.pull_participants_list(sender, &vec![addr(9001), addr(9001)]), vec![]);
}

#[test]
fn a_roster_with_the_sender_does_not_redial_the_sender() {
    let mut p = node();
    let dialed = Endpoint::new(1, addr(9002));
    p.handle(PeerEvent::Connected(dialed, true));
    assert_eq!(p.pull_participants_list(dialed, &vec![addr(9002), addr(9001)]), vec![]);

    let accepted = Endpoint::new(2, addr(50001));
    p.handle(PeerEvent::Accepted(accepted));
    p.handle(PeerEvent::Message(accepted, Message::PublicAddress(addr(9003))));
    assert_eq!(
        p.pull_participants_list(accepted, &vec![addr(9003), addr(50001), addr(9001)]),
        vec![]
    );
}

#[test]
fn a_roster_from_an_unannounced_sender_may_name_the_sender() {
    let mut p = node();
    let accepted = Endpoint::new(2, addr(50001));
    p.handle(PeerEvent::Accepted(accepted));
    assert_eq!(
        p.pull_participants_list(accepted, &vec![addr(9003), addr(50001)]),
        vec![
            Action::Dial(addr(9003)),
            log("Connected to new participants: [\"127.0.0.1:9003\"]"),
        ]
    );
}

#[test]
fn an_empty_roster_calls_for_nothing() {
    let p = node();
    assert_eq!(p.pull_participants_list(Endpoint::new(1, addr(9002)), &vec![]), vec![]);
}

#[test]
fn a_roster_that_repeats_an_address_dials_it_for_each_mention() {
    let p = node();
    assert_eq!(
        p.pull_participants_list(Endpoint::new(1, addr(9002)), &vec![addr(9003), addr(9003)]),
        vec![
            Action::Dial(addr(9003)),
            Action::Dial(addr(9003)),
            log("Connected to new participants: [\"127.0.0.1:9003\", \"127.0.0.1:9003\"]"),
        ]
    );
}

#[test]
fn the_same_roster_twice_dials_once() {
    let mut p = node();
    let sender = Endpoint::new(1, addr(9002));
    p.handle(PeerEvent::Connected(sender, true));
    let roster = || vec![addr(9002), addr(9003), addr(9001), addr(9004)];
    let first = p.handle(PeerEvent::Message(sender, Message::PullParticipantsList(roster())));
    assert_eq!(
        first,
        vec![
            Action::Dial(addr(9003)),
            Action::Dial(addr(9004)),
            log("Connected to new participants: [\"127.0.0.1:9003\", \"127.0.0.1:9004\"]"),
        ]
    );
    let mut id = 10;
    for action in first {
        if let Action::Dial(target) = action {
            id += 1;
            p.handle(PeerEvent::Connected(Endpoint::new(id, target), true));
        }
    }
    let second = p.handle(PeerEvent::Message(sender, Message::PullParticipantsList(roster())));
    assert_eq!(second, vec![]);
}

#[test]
fn a_chat_message_is_logged_with_the_public_address() {
    let mut p = node();
    let e = Endpoint::new(1, addr(50001));
    p.handle(PeerEvent::Accepted(e));
    p.handle(PeerEvent::Message(e, Message::PublicAddress(addr(9002))));
    assert_eq!(
        p.handle(PeerEvent::Message(e, Message::Text("random message 12".to_string()))),
        vec![log("Received message [random message 12] from \"127.0.0.1:9002\"")]
    );
}

#[test]
fn a_chat_message_before_the_announcement_is_logged_with_the_socket_address() {
    let mut p = node();
    let e = Endpoint::new(1, addr(50001));
    p.handle(PeerEvent::Accepted(e));
    assert_eq!(
        p.handle(PeerEvent::Message(e, Message::Text("hello".to_string()))),
        vec![log("Received message [hello] from \"127.0.0.1:50001\"")]
    );
    let stranger = Endpoint::new(2, addr(50002));
    assert_eq!(
        p.network_messages(stranger, Message::Text(String::new())),
        vec![log("Received message [] from \"127.0.0.1:50002\"")]
    );
    assert_eq!(p.participants().len(), 1);
}

#[test]
fn a_message_that_does_not_decode_drops_the_connection() {
    let mut p = node();
    let e = Endpoint::new(1, addr(50001));
    p.handle(PeerEvent::Accepted(e));
    assert_eq!(
        p.handle(PeerEvent::Undecodable(e)),
        vec![Action::Close(e), log("Dropped \"127.0.0.1:50001\": message does not decode")]
    );
    assert_eq!(p.participants().len(), 0);
}

#[test]
fn a_disconnected_peer_leaves_the_table() {
    let mut p = node();
    let a = Endpoint::new(1, addr(9002));
    let b = Endpoint::new(2, addr(9003));
    p.handle(PeerEvent::Connected(a, true));
    p.handle(PeerEvent::Connected(b, true));
    assert_eq!(p.handle(PeerEvent::Disconnected(a)), vec![]);
    assert_eq!(
        p.participants().receivers(),
        vec![ParticipantAddress { public: addr(9003), endpoint: b }]
    );
    assert_eq!(p.handle(PeerEvent::Disconnected(a)), vec![]);
    assert_eq!(shown(&p), vec![addr(9003)]);
}

#[test]
fn a_disconnected_peer_gets_no_broadcast() {
    let mut p = node();
    let a = Endpoint::new(1, addr(9002));
    let b = Endpoint::new(2, addr(9003));
    p.handle(PeerEvent::Connected(a, true));
    p.handle(PeerEvent::Connected(b, true));
    p.handle(PeerEvent::Disconnected(a));
    assert_eq!(
        p.broadcast(3),
        vec![
            Action::Send(b, Message::Text("random message 3".to_string())),
            log("Sending message [random message 3] to [\"127.0.0.1:9003\"]"),
        ]
    );
}

#[test]
fn a_tick_without_peers_does_nothing() {
    let p = node();
    assert_eq!(p.broadcast(5), vec![]);
    assert_eq!(p.sending_random_message(), vec![]);
}

#[test]
fn a_tick_sends_one_message_to_every_record_and_logs_once() {
    let mut p = node();
    let dialed = Endpoint::new(1, addr(9002));
    let accepted = Endpoint::new(2, addr(50001));
    let announced = Endpoint::new(3, addr(50002));
    p.handle(PeerEvent::Connected(dialed, true));
    p.handle(PeerEvent::Accepted(accepted));
    p.handle(PeerEvent::Accepted(announced));
    p.handle(PeerEvent::Message(announced, Message::PublicAddress(addr(9003))));
    assert_eq!(
        p.broadcast(999),
        vec![
            Action::Send(dialed, Message::Text("random message 999".to_string())),
            Action::Send(accepted, Message::Text("random message 999".to_string())),
            Action::Send(announced, Message::Text("random message 999".to_string())),
            log(
                "Sending message [random message 999] to [\"127.0.0.1:9002\", \"127.0.0.1:50001\", \"127.0.0.1:9003\"]"
            ),
        ]
    );
}

#[test]
fn a_random_tick_draws_one_number_below_a_thousand() {
    let mut p = node();
    let a = Endpoint::new(1, addr(9002));
    let b = Endpoint::new(2, addr(9003));
    p.handle(PeerEvent::Connected(a, true));
    p.handle(PeerEvent::Connected(b, true));
    let mut seen = Vec::new();
    for _ in 0..300 {
        let actions = p.sending_random_message();
        assert_eq!(actions.len(), 3);
        let text = match &actions[0] {
            Action::Send(to, Message::Text(text)) => {
                assert_eq!(*to, a);
                text.clone()
            }
            other => panic!("unexpected action {:?}", other),
        };
        let number: u32 = text.strip_prefix("random message ").unwrap().parse().unwrap();
        assert!(number < 1000);
        assert_eq!(text, format!("random message {}", number));
        assert_eq!(actions[1], Action::Send(b, Message::Text(text.clone())));
        assert_eq!(
            actions[2],
            log(&format!(
                "Sending message [{}] to [\"127.0.0.1:9002\", \"127.0.0.1:9003\"]",
                text
            ))
        );
        assert_eq!(actions, p.broadcast(number));
        if !seen.contains(&number) {
            seen.push(number);
        }
    }
    assert!(seen.len() > 1);
}
