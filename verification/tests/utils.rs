use gossip_p2p::network::{Endpoint, SocketAddr};
use gossip_p2p::participant::utils::{
    chat_message, discovered_message, format_list_of_addrs, own_address_message,
    received_message, sending_message, undecodable_message, unreachable_message, ToSocketAddr,
};

fn addr(port: u16) -> SocketAddr {
    SocketAddr::v4(127, 0, 0, 1, port)
}

#[test]
fn an_empty_list_is_no_one() {
    let none: Vec<SocketAddr> = vec![];
    assert_eq!(format_list_of_addrs(&none), "[no one]");
}

#[test]
fn a_list_of_one_has_no_comma() {
    assert_eq!(format_list_of_addrs(&[addr(9001)]), "[\"127.0.0.1:9001\"]");
}

#[test]
fn a_list_is_quoted_and_separated_by_commas() {
    assert_eq!(
        format_list_of_addrs(&[addr(9001), addr(9002), addr(9003)]),
        "[\"127.0.0.1:9001\", \"127.0.0.1:9002\", \"127.0.0.1:9003\"]"
    );
}

#[test]
fn a_list_of_handles_shows_their_remote_addresses() {
    let handles = vec![Endpoint::new(1, addr(9002)), Endpoint::new(2, addr(9003))];
    assert_eq!(
        format_list_of_addrs(&handles),
        "[\"127.0.0.1:9002\", \"127.0.0.1:9003\"]"
    );
}

#[test]
fn an_address_stands_for_itself_and_a_handle_for_its_remote() {
    assert_eq!(addr(9001).get_addr(), addr(9001));
    assert_eq!(Endpoint::new(4, addr(9002)).get_addr(), addr(9002));
}

#[test]
fn a_chat_message_carries_its_number() {
    assert_eq!(chat_message(0), "random message 0");
    assert_eq!(chat_message(7), "random message 7");
    assert_eq!(chat_message(999), "random message 999");
}

#[test]
fn the_line_for_a_received_message() {
    assert_eq!(
        received_message("random message 42", addr(9002)),
        "Received message [random message 42] from \"127.0.0.1:9002\""
    );
}

#[test]
fn the_line_for_a_sent_message() {
    assert_eq!(
        sending_message("random message 42", &[addr(9002), addr(9003)]),
        "Sending message [random message 42] to [\"127.0.0.1:9002\", \"127.0.0.1:9003\"]"
    );
}

#[test]
fn the_line_for_discovered_peers() {
    assert_eq!(
        discovered_message(&[addr(9003)]),
        "Connected to new participants: [\"127.0.0.1:9003\"]"
    );
}

#[test]
fn the_line_for_the_own_address() {
    assert_eq!(own_address_message(addr(9001)), "My address is \"127.0.0.1:9001\"");
}

#[test]
fn the_lines_for_failures() {
    assert_eq!(unreachable_message("localhost:9"), "Failed to connect to localhost:9");
    assert_eq!(
        undecodable_message(addr(50001)),
        "Dropped \"127.0.0.1:50001\": message does not decode"
    );
}
