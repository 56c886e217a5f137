//! Lines of the event log, stamped with the time since the node started.

use crate::text::{two_digit_string, two_digit_text};
use vstd::prelude::*;
use vstd::string::*;

verus! {

/// The line for an event that happened `elapsed` seconds after the start:
/// `# HH:MM:SS - ` and the message. Hours, minutes and seconds have two
/// digits each; the hours have more from a hundred hours on.
pub open spec fn event_line(elapsed: nat, msg: Seq<char>) -> Seq<char> {
    "# "@ + two_digit_text(elapsed / 3600) + ":"@ + two_digit_text((elapsed % 3600) / 60) + ":"@
        + two_digit_text(elapsed % 60) + " - "@ + msg
}

/// The writer of the event log's lines.
pub struct SimplePrinter;

impl SimplePrinter {
    /// The line for the event `msg`, `elapsed_secs` seconds after the start.
    pub fn time(elapsed_secs: u64, msg: &str) -> (line: String)
        ensures
            line@ == event_line(elapsed_secs as nat, msg@),
    {
        let hours = elapsed_secs / 3600;
        let minutes = (elapsed_secs % 3600) / 60;
        let seconds = elapsed_secs % 60;
        let mut line = String::from_str("# ");
        line.append(two_digit_string(hours).as_str());
        line.append(":");
        line.append(two_digit_string(minutes).as_str());
        line.append(":");
        line.append(two_digit_string(seconds).as_str());
        line.append(" - ");
        line.append(msg);
        line
    }
}

} // verus!
