use gossip_p2p::network::{Endpoint, SocketAddr};
use gossip_p2p::participant::storage::{ParticipantAddress, ParticipantEndpoint, ParticipantsStorage};

fn addr(port: u16) -> SocketAddr {
    SocketAddr::v4(127, 0, 0, 1, port)
}

fn table() -> ParticipantsStorage<Endpoint> {
    ParticipantsStorage::new(addr(9001))
}

fn entry(public: SocketAddr, endpoint: Endpoint) -> ParticipantAddress<Endpoint> {
    ParticipantAddress { public, endpoint }
}

#[test]
fn a_new_table_is_empty() {
    let t = table();
    assert_eq!(t.len(), 0);
    assert_eq!(t.self_pub_addr(), addr(9001));
    assert_eq!(t.receivers(), vec![]);
    assert_eq!(t.get_participants_list(), vec![addr(9001)]);
    assert!(!t.is_known_participant(addr(9001)));
}

#[test]
fn a_handle_has_the_address_of_its_socket() {
    let e = Endpoint::new(1, addr(9002));
    assert_eq!(ParticipantEndpoint::addr(&e), addr(9002));
    assert!(e.same(&Endpoint::new(1, addr(9002))));
    assert!(!e.same(&Endpoint::new(2, addr(9002))));
    assert!(!e.same(&Endpoint::new(1, addr(9003))));
}

#[test]
fn a_dialed_handle_is_resolved_to_the_dialed_address() {
    let mut t = table();
    let e = Endpoint::new(1, addr(9002));
    assert!(!t.add_known_participant(e));
    assert_eq!(t.len(), 1);
    assert!(t.is_known_participant(addr(9002)));
    assert_eq!(t.get_pub_addr(&e), Some(addr(9002)));
    assert_eq!(t.receivers(), vec![entry(addr(9002), e)]);
}

#[test]
fn an_accepted_handle_is_unresolved() {
    let mut t = table();
    let e = Endpoint::new(1, addr(50001));
    t.add_accepted_participant(e);
    assert_eq!(t.len(), 1);
    assert!(!t.is_known_participant(addr(50001)));
    assert_eq!(t.get_pub_addr(&e), None);
    assert_eq!(t.receivers(), vec![entry(addr(50001), e)]);
    assert_eq!(t.get_participants_list(), vec![addr(9001), addr(50001)]);
}

#[test]
fn an_announcement_resolves_an_accepted_handle() {
    let mut t = table();
    let e = Endpoint::new(1, addr(50001));
    t.add_accepted_participant(e);
    assert!(!t.add_unknown_participant(e, addr(9002)));
    assert!(t.is_known_participant(addr(9002)));
    assert!(!t.is_known_participant(addr(50001)));
    assert_eq!(t.get_pub_addr(&e), Some(addr(9002)));
    assert_eq!(t.receivers(), vec![entry(addr(9002), e)]);
    assert_eq!(t.get_participants_list(), vec![addr(9001), addr(9002)]);
}

#[test]
fn an_announcement_on_an_unrecorded_handle_changes_nothing() {
    let mut t = table();
    let e = Endpoint::new(1, addr(50001));
    assert!(!t.add_unknown_participant(e, addr(9002)));
    assert_eq!(t.len(), 0);
    assert!(!t.is_known_participant(addr(9002)));
    assert_eq!(t.get_pub_addr(&e), None);
}

#[test]
fn a_resolved_handle_keeps_its_address() {
    let mut t = table();
    let e = Endpoint::new(1, addr(50001));
    t.add_accepted_participant(e);
    assert!(!t.add_unknown_participant(e, addr(9002)));
    assert!(!t.add_unknown_participant(e, addr(9003)));
    assert_eq!(t.get_pub_addr(&e), Some(addr(9002)));
    assert!(!t.is_known_participant(addr(9003)));

    let dialed = Endpoint::new(2, addr(9004));
    assert!(!t.add_known_participant(dialed));
    assert!(!t.add_unknown_participant(dialed, addr(9005)));
    assert_eq!(t.get_pub_addr(&dialed), Some(addr(9004)));
}

#[test]
fn the_first_handle_of_an_address_wins() {
    let mut t = table();
    let first = Endpoint::new(1, addr(9002));
    let second = Endpoint::new(2, addr(50001));
    assert!(!t.add_known_participant(first));
    t.add_accepted_participant(second);
    assert_eq!(t.len(), 2);
    assert!(t.add_unknown_participant(second, addr(9002)));
    assert_eq!(t.len(), 1);
    assert_eq!(t.get_pub_addr(&first), Some(addr(9002)));
    assert_eq!(t.get_pub_addr(&second), None);
    assert_eq!(t.receivers(), vec![entry(addr(9002), first)]);
}

#[test]
fn a_second_dial_of_an_address_is_refused() {
    let mut t = table();
    let first = Endpoint::new(1, addr(9002));
    let second = Endpoint::new(2, addr(9002));
    assert!(!t.add_known_participant(first));
    assert!(t.add_known_participant(second));
    assert_eq!(t.receivers(), vec![entry(addr(9002), first)]);
}

#[test]
fn recording_a_dialed_handle_twice_keeps_it() {
    let mut t = table();
    let e = Endpoint::new(1, addr(9002));
    assert!(!t.add_known_participant(e));
    assert!(!t.add_known_participant(e));
    assert_eq!(t.receivers(), vec![entry(addr(9002), e)]);
}

#[test]
fn the_own_address_is_never_resolved() {
    let mut t = table();
    let dialed = Endpoint::new(1, addr(9001));
    assert!(t.add_known_participant(dialed));
    assert_eq!(t.len(), 0);

    let accepted = Endpoint::new(2, addr(50001));
    t.add_accepted_participant(accepted);
    assert!(t.add_unknown_participant(accepted, addr(9001)));
    assert_eq!(t.len(), 0);
    assert!(!t.is_known_participant(addr(9001)));
    assert_eq!(t.get_participants_list(), vec![addr(9001)]);
}

#[test]
fn drop_removes_the_record_and_may_be_repeated() {
    let mut t = table();
    let a = Endpoint::new(1, addr(9002));
    let b = Endpoint::new(2, addr(9003));
    t.add_known_participant(a);
    t.add_known_participant(b);
    t.drop(a);
    assert_eq!(t.receivers(), vec![entry(addr(9003), b)]);
    assert!(!t.is_known_participant(addr(9002)));
    assert_eq!(t.get_pub_addr(&a), None);
    t.drop(a);
    assert_eq!(t.receivers(), vec![entry(addr(9003), b)]);
    t.drop(b);
    assert_eq!(t.len(), 0);
}

#[test]
fn drop_of_an_unrecorded_handle_changes_nothing() {
    let mut t = table();
    let a = Endpoint::new(1, addr(9002));
    t.add_known_participant(a);
    t.drop(Endpoint::new(2, addr(9002)));
    t.drop(Endpoint::new(1, addr(9003)));
    assert_eq!(t.receivers(), vec![entry(addr(9002), a)]);
}

#[test]
fn an_address_is_free_again_after_its_handle_left() {
    let mut t = table();
    let first = Endpoint::new(1, addr(9002));
    let second = Endpoint::new(2, addr(9002));
    t.add_known_participant(first);
    t.drop(first);
    assert!(!t.add_known_participant(second));
    assert_eq!(t.receivers(), vec![entry(addr(9002), second)]);
}

#[test]
fn records_keep_the_order_in_which_they_came() {
    let mut t = table();
    let a = Endpoint::new(1, addr(9004));
    let b = Endpoint::new(2, addr(50001));
    let c = Endpoint::new(3, addr(9002));
    t.add_known_participant(a);
    t.add_accepted_participant(b);
    t.add_known_participant(c);
    t.add_unknown_participant(b, addr(9003));
    assert_eq!(
        t.get_participants_list(),
        vec![addr(9001), addr(9004), addr(9003), addr(9002)]
    );
    assert_eq!(
        t.receivers(),
        vec![entry(addr(9004), a), entry(addr(9003), b), entry(addr(9002), c)]
    );
    t.drop(a);
    assert_eq!(t.get_participants_list(), vec![addr(9001), addr(9003), addr(9002)]);
}

#[test]
fn accepting_a_recorded_handle_again_makes_it_unresolved() {
    let mut t = table();
    let a = Endpoint::new(1, addr(9002));
    let b = Endpoint::new(2, addr(9003));
    t.add_known_participant(a);
    t.add_known_participant(b);
    t.add_accepted_participant(a);
    assert_eq!(t.len(), 2);
    assert_eq!(t.get_pub_addr(&a), None);
    assert!(!t.is_known_participant(addr(9002)));
    assert_eq!(t.receivers(), vec![entry(addr(9002), a), entry(addr(9003), b)]);
}

#[test]
fn no_address_is_resolved_twice_whatever_is_recorded() {
    let mut t = table();
    let mut id = 0;
    for round in 0..4u16 {
        for port in 9001..9006u16 {
            id += 1;
            let dialed = Endpoint::new(id, addr(port));
            t.add_known_participant(dialed);
            id += 1;
            let accepted = Endpoint::new(id, addr(50000 + id as u16));
            t.add_accepted_participant(accepted);
            t.add_unknown_participant(accepted, addr(9001 + (port + round) % 5));
        }
    }
    let list = t.receivers();
    for port in 9001..9006u16 {
        let count = list
            .iter()
            .filter(|r| r.public == addr(port) && t.get_pub_addr(&r.endpoint) == Some(addr(port)))
            .count();
        if port == 9001 {
            assert_eq!(count, 0);
        } else {
            assert_eq!(count, 1);
        }
    }
}
