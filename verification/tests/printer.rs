use gossip_p2p::printer::SimplePrinter;

#[test]
fn a_line_at_the_start() {
    assert_eq!(SimplePrinter::time(0, "started"), "# 00:00:00 - started");
}

#[test]
fn a_line_splits_the_seconds() {
    assert_eq!(SimplePrinter::time(59, "a"), "# 00:00:59 - a");
    assert_eq!(SimplePrinter::time(60, "a"), "# 00:01:00 - a");
    assert_eq!(SimplePrinter::time(3599, "a"), "# 00:59:59 - a");
    assert_eq!(SimplePrinter::time(3600, "a"), "# 01:00:00 - a");
    assert_eq!(SimplePrinter::time(3661, "a"), "# 01:01:01 - a");
    assert_eq!(SimplePrinter::time(86399, "a"), "# 23:59:59 - a");
}

#[test]
fn hours_grow_beyond_two_digits() {
    assert_eq!(SimplePrinter::time(360000, "late"), "# 100:00:00 - late");
}

#[test]
fn a_line_agrees_with_the_standard_formatter() {
    let mut elapsed: u64 = 0;
    for _ in 0..50 {
        let expected = format!(
            "# {:02}:{:02}:{:02} - {}",
            elapsed / 3600,
            (elapsed % 3600) / 60,
            elapsed % 60,
            "tick"
        );
        assert_eq!(SimplePrinter::time(elapsed, "tick"), expected);
        elapsed = elapsed * 3 + 7;
    }
}

#[test]
fn a_line_keeps_the_message_as_it_is() {
    assert_eq!(
        SimplePrinter::time(5, "Received message [random message 7] from \"127.0.0.1:9002\""),
        "# 00:00:05 - Received message [random message 7] from \"127.0.0.1:9002\""
    );
    assert_eq!(SimplePrinter::time(5, ""), "# 00:00:05 - ");
}
