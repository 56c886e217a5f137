//! The command line: `--period=<seconds> --port=<port> [--connect=<address>]`.

use crate::text::{parse_u64, parse_u64_text};
use vstd::prelude::*;
use vstd::string::*;

verus! {

/// What the command line asks for.
#[derive(Debug, PartialEq, Eq)]
pub struct CliArguments {
    /// The seconds between two broadcasts.
    pub period: u64,
    /// The port to listen on.
    pub port: u16,
    /// The address of the peer to bootstrap from, as it was typed.
    pub connect: Option<String>,
}

/// The arguments as a mathematical value.
pub struct CliArgumentsView {
    pub period: u64,
    pub port: u16,
    pub connect: Option<Seq<char>>,
}

impl View for CliArguments {
    type V = CliArgumentsView;

    open spec fn view(&self) -> CliArgumentsView {
        CliArgumentsView {
            period: self.period,
            port: self.port,
            connect: match self.connect {
                Some(target) => Some(target@),
                None => None,
            },
        }
    }
}

/// The usage line for a program called `program_name`.
pub open spec fn usage_text(program_name: Seq<char>) -> Seq<char> {
    "Usage:\n\t"@ + program_name
        + " --period=<seconds> --port=<port> [--connect=<peer_address_with_port>]"@
}

/// The description of the arguments.
pub open spec fn arguments_text() -> Seq<char> {
    "Arguments:\n\tperiod - messaging period in seconds (required)\n\tport - connection port (required)\n\tconnect - address of the peer"@
}

/// The examples for a program called `program_name`.
pub open spec fn examples_text(program_name: Seq<char>) -> Seq<char> {
    "Examples:\n\t# Starting the first peer with messaging period 5 seconds at port 8080:\n\t"@
        + program_name
        + " --period=5 --port=8080\n\n\t# Starting the second peer which will connect to the first\n\t# messaging period - 6 seconds\n\t# port - 8081\n\t"@
        + program_name
        + " --period=6 --port=8081 --connect=\"127.0.0.1:8080\"\n\n\t# Starting the second peer which will connect to all the peers through the first\n\t# messaging period - 7 seconds\n\t# port - 8082\n\t"@
        + program_name + " --period=7 --port=8082 --connect=\"127.0.0.1:8080\""@
}

/// The help banner for a program called `program_name`: the application's
/// name and description, then usage, arguments and examples, a blank line
/// between them.
pub open spec fn help_text(program_name: Seq<char>) -> Seq<char> {
    "\n\t\t\t---{ GOSSIP P2P }---\n\t\tSimple p2p gossiping application in Rust.\n\n"@
        + usage_text(program_name) + "\n\n"@ + arguments_text() + "\n\n"@ + examples_text(
        program_name,
    )
}

fn usage(program_name: &str) -> (s: String)
    ensures
        s@ == usage_text(program_name@),
{
    let mut s = String::from_str("Usage:\n\t");
    s.append(program_name);
    s.append(" --period=<seconds> --port=<port> [--connect=<peer_address_with_port>]");
    s
}

fn examples(program_name: &str) -> (s: String)
    ensures
        s@ == examples_text(program_name@),
{
    let mut s = String::from_str(
        "Examples:\n\t# Starting the first peer with messaging period 5 seconds at port 8080:\n\t",
    );
    s.append(program_name);
    s.append(
        " --period=5 --port=8080\n\n\t# Starting the second peer which will connect to the first\n\t# messaging period - 6 seconds\n\t# port - 8081\n\t",
    );
    s.append(program_name);
    s.append(
        " --period=6 --port=8081 --connect=\"127.0.0.1:8080\"\n\n\t# Starting the second peer which will connect to all the peers through the first\n\t# messaging period - 7 seconds\n\t# port - 8082\n\t",
    );
    s.append(program_name);
    s.append(" --period=7 --port=8082 --connect=\"127.0.0.1:8080\"");
    s
}

/// The help banner for a program called `program_name`.
pub fn get_help_message(program_name: &str) -> (s: String)
    ensures
        s@ == help_text(program_name@),
{
    let mut s = String::from_str(
        "\n\t\t\t---{ GOSSIP P2P }---\n\t\tSimple p2p gossiping application in Rust.\n\n",
    );
    s.append(usage(program_name).as_str());
    s.append("\n\n");
    s.append(
        "Arguments:\n\tperiod - messaging period in seconds (required)\n\tport - connection port (required)\n\tconnect - address of the peer",
    );
    s.append("\n\n");
    s.append(examples(program_name).as_str());
    s
}

/// The arguments as texts.
pub open spec fn texts_of(args: Seq<String>) -> Seq<Seq<char>> {
    args.map_values(|arg: String| arg@)
}

/// Whether the text starts with the prefix.
pub open spec fn starts_with(s: Seq<char>, prefix: Seq<char>) -> bool {
    prefix.is_prefix_of(s)
}

/// The first of the arguments that starts with the prefix, if any does.
pub open spec fn first_with_prefix(args: Seq<Seq<char>>, prefix: Seq<char>) -> Option<Seq<char>>
    decreases args.len(),
{
    if args.len() == 0 {
        None
    } else if starts_with(args[0], prefix) {
        Some(args[0])
    } else {
        first_with_prefix(args.skip(1), prefix)
    }
}

/// The place of the first `=` in the text at or after `from`; the text's
/// length where there is none.
pub open spec fn next_equals(s: Seq<char>, from: int) -> int
    decreases s.len() - from,
{
    if from >= s.len() {
        s.len() as int
    } else if s[from] == '=' {
        from
    } else {
        next_equals(s, from + 1)
    }
}

/// The value of an argument: what stands between its first `=` and its
/// second, or its end where it has no second. None for an argument without
/// `=`.
pub open spec fn value_text(arg: Seq<char>) -> Option<Seq<char>> {
    let first = next_equals(arg, 0);
    if first >= arg.len() {
        None
    } else {
        Some(arg.subrange(first + 1, next_equals(arg, first + 1)))
    }
}

/// The value of the first argument that starts with the prefix.
pub open spec fn value_with_prefix(args: Seq<Seq<char>>, prefix: Seq<char>) -> Option<Seq<char>> {
    match first_with_prefix(args, prefix) {
        Some(arg) => value_text(arg),
        None => None,
    }
}

/// The number given by the first argument that starts with the prefix: none
/// where no argument does, and none where the value of the first that does is
/// no unsigned decimal number of 64 bits.
pub open spec fn number_with_prefix(args: Seq<Seq<char>>, prefix: Seq<char>) -> Option<u64> {
    match value_with_prefix(args, prefix) {
        Some(value) => parse_u64_text(value),
        None => None,
    }
}

/// What the arguments ask for, or what is wrong with them. The period is
/// looked at first. A port that does not fit in 16 bits is no port. Arguments
/// that start with none of the three prefixes are passed over.
pub open spec fn parsed(args: Seq<Seq<char>>) -> Result<CliArgumentsView, Seq<char>> {
    match number_with_prefix(args, "--period="@) {
        None => Err("Period is required and must be a positive number"@),
        Some(period) => match number_with_prefix(args, "--port="@) {
            Some(port) if port <= u16::MAX => Ok(
                CliArgumentsView {
                    period,
                    port: port as u16,
                    connect: value_with_prefix(args, "--connect="@),
                },
            ),
            _ => Err("Port is required and must be a positive number"@),
        },
    }
}

fn has_prefix(s: &str, prefix: &str) -> (b: bool)
    ensures
        b == starts_with(s@, prefix@),
{
    let n = prefix.unicode_len();
    if s.unicode_len() < n {
        return false;
    }
    let mut i: usize = 0;
    while i < n
        invariant
            i <= n,
            n == prefix@.len(),
            n <= s@.len(),
            forall|k: int| 0 <= k < i ==> s@[k] == prefix@[k],
        decreases n - i,
    {
        if s.get_char(i) != prefix.get_char(i) {
            return false;
        }
        i += 1;
    }
    proof {
        assert(s@.subrange(0, n as int) =~= prefix@);
    }
    true
}

fn find_equals(s: &str, from: usize) -> (at: usize)
    requires
        from <= s@.len(),
    ensures
        at == next_equals(s@, from as int),
        from <= at <= s@.len(),
{
    let len = s.unicode_len();
    let mut i: usize = from;
    while i < len
        invariant
            from <= i <= len,
            len == s@.len(),
            next_equals(s@, from as int) == next_equals(s@, i as int),
        decreases len - i,
    {
        if s.get_char(i) == '=' {
            return i;
        }
        i += 1;
    }
    i
}

fn value_of(arg: &str) -> (value: Option<&str>)
    ensures
        match value {
            Some(text) => value_text(arg@) == Some(text@),
            None => value_text(arg@) is None,
        },
{
    let first = find_equals(arg, 0);
    if first >= arg.unicode_len() {
        None
    } else {
        let second = find_equals(arg, first + 1);
        Some(arg.substring_char(first + 1, second))
    }
}

fn find_with_prefix<'a>(args: &'a [String], prefix: &str) -> (found: Option<&'a str>)
    ensures
        match found {
            Some(arg) => first_with_prefix(texts_of(args@), prefix@) == Some(arg@),
            None => first_with_prefix(texts_of(args@), prefix@) is None,
        },
{
    let mut i: usize = 0;
    let ghost texts = texts_of(args@);
    proof {
        assert(texts.skip(0) == texts);
    }
    while i < args.len()
        invariant
            i <= args.len(),
            texts == texts_of(args@),
            first_with_prefix(texts, prefix@) == first_with_prefix(texts.skip(i as int), prefix@),
        decreases args.len() - i,
    {
        let arg = args[i].as_str();
        proof {
            assert(texts.skip(i as int)[0] == arg@);
            assert(texts.skip(i as int).skip(1) == texts.skip(i + 1));
        }
        if has_prefix(arg, prefix) {
            return Some(arg);
        }
        i += 1;
    }
    None
}

/// The number given by the first argument that starts with the prefix.
pub fn parse_each_arg(args: &[String], prefix: &str) -> (n: Option<u64>)
    ensures
        n == number_with_prefix(texts_of(args@), prefix@),
{
    match find_with_prefix(args, prefix) {
        Some(arg) => match value_of(arg) {
            Some(value) => parse_u64(value),
            None => None,
        },
        None => None,
    }
}

/// Reads the command line, the program's own name left out.
pub fn parse_arguments(args: &[String]) -> (r: Result<CliArguments, &'static str>)
    ensures
        match r {
            Ok(arguments) => parsed(texts_of(args@)) == Ok::<CliArgumentsView, Seq<char>>(
                arguments@,
            ),
            Err(complaint) => parsed(texts_of(args@)) == Err::<CliArgumentsView, Seq<char>>(
                complaint@,
            ),
        },
{
    let period = match parse_each_arg(args, "--period=") {
        Some(period) => period,
        None => {
            return Err("Period is required and must be a positive number");
        },
    };
    let port: u16 = match parse_each_arg(args, "--port=") {
        Some(port) => {
            if port > 65535 {
                return Err("Port is required and must be a positive number");
            }
            port as u16
        },
        None => {
            return Err("Port is required and must be a positive number");
        },
    };
    let connect = match find_with_prefix(args, "--connect=") {
        Some(arg) => match value_of(arg) {
            Some(value) => Some(String::from_str(value)),
            None => None,
        },
        None => None,
    };
    Ok(CliArguments { period, port, connect })
}

} // verus!
