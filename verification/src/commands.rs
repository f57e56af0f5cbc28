//! The interactive commands of the client and operator modes: what a typed
//! line asks for, the choice of interfaces to report, and the conversion
//! of an address between a real segment and its mapped segment.

use vstd::prelude::*;
use crate::ip::{
    address_error_text, cidr_error_message, cidr_error_text, convert_mapped_to_real, convert_real_to_mapped, ip_in_cidr,
    ipv4_text, parse_cidr, spec_ip_in_cidr, spec_parse_cidr, spec_rebase, IpError,
};
use crate::models::{RouteEntry, SegmentStatus};
use crate::api::SegmentSummary;
use crate::text::{decimal, chars_eq_str, chars_of, is_white_space, char_is_white_space, non_empty, parse_u16_chars, parse_unsigned, split_ws, parse_usize_chars, push_chars, push_decimal, push_str, string_from_chars, words, words_of};

verus! {

/// What `tunnel <sub>` asks for.
#[derive(Debug, Clone, Copy, PartialEq, Eq, Structural)]
pub enum TunnelSub {
    Start,
    Status,
    Stop,
    Reconnect,
    /// Anything else: show the usage.
    Usage,
}

/// A command of the operator mode.
#[derive(Debug, Clone, PartialEq, Eq)]
pub enum OperatorCommand {
    /// An empty line.
    Empty,
    List,
    Ping(String),
    PingUsage,
    Tcp(String, u16),
    TcpUsage,
    Udp(String, u16),
    UdpUsage,
    Convert(String),
    ConvertUsage,
    Tunnel(TunnelSub),
    Status,
    Config,
    Diag,
    Help,
    Quit,
    /// Any other first word.
    Unknown(String),
}

/// A command of the client mode.
#[derive(Debug, Clone, PartialEq, Eq)]
pub enum ClientCommand {
    /// An empty line.
    Empty,
    List,
    Add,
    Status,
    Config,
    Tunnel(TunnelSub),
    Diag,
    Help,
    Quit,
    /// Any other first word.
    Unknown(String),
}

/// Word `i` of `w`, or `dflt` where there is none.
pub open spec fn word_or(w: Seq<Seq<char>>, i: int, dflt: Seq<char>) -> Seq<char> {
    if 0 <= i < w.len() {
        w[i]
    } else {
        dflt
    }
}

/// The address and port of `<cmd> <ip> <port>`, where the port parses.
pub open spec fn ip_port(w: Seq<Seq<char>>) -> Option<(Seq<char>, u16)> {
    if w.len() >= 3 && parse_unsigned(w[2], 65535) is Some {
        Some((w[1], parse_unsigned(w[2], 65535)->0 as u16))
    } else {
        None
    }
}

/// The tunnel subcommand that a word names.
pub open spec fn tunnel_sub(s: Seq<char>, reconnect: bool) -> TunnelSub {
    if s == "start"@ {
        TunnelSub::Start
    } else if s == "status"@ {
        TunnelSub::Status
    } else if s == "stop"@ {
        TunnelSub::Stop
    } else if reconnect && s == "reconnect"@ {
        TunnelSub::Reconnect
    } else {
        TunnelSub::Usage
    }
}

/// `c` is what the operator's line `line` asks for.
pub open spec fn operator_command_of(c: OperatorCommand, line: Seq<char>) -> bool {
    let w = words(line);
    let name = word_or(w, 0, Seq::empty());
    if line.len() == 0 {
        c is Empty
    } else if w.len() == 0 {
        c matches OperatorCommand::Unknown(n) && n@.len() == 0
    } else if name == "list"@ || name == "ls"@ {
        c is List
    } else if name == "ping"@ {
        if w.len() >= 2 {
            c matches OperatorCommand::Ping(ip) && ip@ == w[1]
        } else {
            c is PingUsage
        }
    } else if name == "tcp"@ {
        match ip_port(w) {
            Some((ip, p)) => c matches OperatorCommand::Tcp(i, q) && i@ == ip && q == p,
            None => c is TcpUsage,
        }
    } else if name == "udp"@ {
        match ip_port(w) {
            Some((ip, p)) => c matches OperatorCommand::Udp(i, q) && i@ == ip && q == p,
            None => c is UdpUsage,
        }
    } else if name == "convert"@ || name == "conv"@ {
        if w.len() >= 2 {
            c matches OperatorCommand::Convert(ip) && ip@ == w[1]
        } else {
            c is ConvertUsage
        }
    } else if name == "tunnel"@ {
        c == OperatorCommand::Tunnel(tunnel_sub(word_or(w, 1, "status"@), true))
    } else if name == "status"@ || name == "st"@ {
        c is Status
    } else if name == "config"@ || name == "cfg"@ {
        c is Config
    } else if name == "diag"@ {
        c is Diag
    } else if name == "help"@ || name == "?"@ {
        c is Help
    } else if name == "quit"@ || name == "exit"@ || name == "q"@ {
        c is Quit
    } else {
        c matches OperatorCommand::Unknown(n) && n@ == name
    }
}

/// `c` is what the client's line `line` asks for.
pub open spec fn client_command_of(c: ClientCommand, line: Seq<char>) -> bool {
    let w = words(line);
    let name = word_or(w, 0, Seq::empty());
    if line.len() == 0 {
        c is Empty
    } else if w.len() == 0 {
        c matches ClientCommand::Unknown(n) && n@.len() == 0
    } else if name == "list"@ || name == "ls"@ {
        c is List
    } else if name == "add"@ {
        c is Add
    } else if name == "status"@ || name == "st"@ {
        c is Status
    } else if name == "config"@ || name == "cfg"@ {
        c is Config
    } else if name == "tunnel"@ {
        c == ClientCommand::Tunnel(tunnel_sub(word_or(w, 1, ""@), false))
    } else if name == "diag"@ {
        c is Diag
    } else if name == "help"@ || name == "?"@ {
        c is Help
    } else if name == "quit"@ || name == "exit"@ || name == "q"@ {
        c is Quit
    } else {
        c matches ClientCommand::Unknown(n) && n@ == name
    }
}

/// The first words of the interactive commands are distinct.
proof fn lemma_keywords_distinct()
    ensures
        "list"@ != "ls"@,
        "list"@ != "ping"@,
        "list"@ != "tcp"@,
        "list"@ != "udp"@,
        "list"@ != "convert"@,
        "list"@ != "conv"@,
        "list"@ != "tunnel"@,
        "list"@ != "status"@,
        "list"@ != "st"@,
        "list"@ != "config"@,
        "list"@ != "cfg"@,
        "list"@ != "diag"@,
        "list"@ != "help"@,
        "list"@ != "?"@,
        "list"@ != "quit"@,
        "list"@ != "exit"@,
        "list"@ != "q"@,
        "list"@ != "add"@,
        "ls"@ != "ping"@,
        "ls"@ != "tcp"@,
        "ls"@ != "udp"@,
        "ls"@ != "convert"@,
        "ls"@ != "conv"@,
        "ls"@ != "tunnel"@,
        "ls"@ != "status"@,
        "ls"@ != "st"@,
        "ls"@ != "config"@,
        "ls"@ != "cfg"@,
        "ls"@ != "diag"@,
        "ls"@ != "help"@,
        "ls"@ != "?"@,
        "ls"@ != "quit"@,
        "ls"@ != "exit"@,
        "ls"@ != "q"@,
        "ls"@ != "add"@,
        "ping"@ != "tcp"@,
        "ping"@ != "udp"@,
        "ping"@ != "convert"@,
        "ping"@ != "conv"@,
        "ping"@ != "tunnel"@,
        "ping"@ != "status"@,
        "ping"@ != "st"@,
        "ping"@ != "config"@,
        "ping"@ != "cfg"@,
        "ping"@ != "diag"@,
        "ping"@ != "help"@,
        "ping"@ != "?"@,
        "ping"@ != "quit"@,
        "ping"@ != "exit"@,
        "ping"@ != "q"@,
        "ping"@ != "add"@,
        "tcp"@ != "udp"@,
        "tcp"@ != "convert"@,
        "tcp"@ != "conv"@,
        "tcp"@ != "tunnel"@,
        "tcp"@ != "status"@,
        "tcp"@ != "st"@,
        "tcp"@ != "config"@,
        "tcp"@ != "cfg"@,
        "tcp"@ != "diag"@,
        "tcp"@ != "help"@,
        "tcp"@ != "?"@,
        "tcp"@ != "quit"@,
        "tcp"@ != "exit"@,
        "tcp"@ != "q"@,
        "tcp"@ != "add"@,
        "udp"@ != "convert"@,
        "udp"@ != "conv"@,
        "udp"@ != "tunnel"@,
        "udp"@ != "status"@,
        "udp"@ != "st"@,
        "udp"@ != "config"@,
        "udp"@ != "cfg"@,
        "udp"@ != "diag"@,
        "udp"@ != "help"@,
        "udp"@ != "?"@,
        "udp"@ != "quit"@,
        "udp"@ != "exit"@,
        "udp"@ != "q"@,
        "udp"@ != "add"@,
        "convert"@ != "conv"@,
        "convert"@ != "tunnel"@,
        "convert"@ != "status"@,
        "convert"@ != "st"@,
        "convert"@ != "config"@,
        "convert"@ != "cfg"@,
        "convert"@ != "diag"@,
        "convert"@ != "help"@,
        "convert"@ != "?"@,
        "convert"@ != "quit"@,
        "convert"@ != "exit"@,
        "convert"@ != "q"@,
        "convert"@ != "add"@,
        "conv"@ != "tunnel"@,
        "conv"@ != "status"@,
        "conv"@ != "st"@,
        "conv"@ != "config"@,
        "conv"@ != "cfg"@,
        "conv"@ != "diag"@,
        "conv"@ != "help"@,
        "conv"@ != "?"@,
        "conv"@ != "quit"@,
        "conv"@ != "exit"@,
        "conv"@ != "q"@,
        "conv"@ != "add"@,
        "tunnel"@ != "status"@,
        "tunnel"@ != "st"@,
        "tunnel"@ != "config"@,
        "tunnel"@ != "cfg"@,
        "tunnel"@ != "diag"@,
        "tunnel"@ != "help"@,
        "tunnel"@ != "?"@,
        "tunnel"@ != "quit"@,
        "tunnel"@ != "exit"@,
        "tunnel"@ != "q"@,
        "tunnel"@ != "add"@,
        "status"@ != "st"@,
        "status"@ != "config"@,
        "status"@ != "cfg"@,
        "status"@ != "diag"@,
        "status"@ != "help"@,
        "status"@ != "?"@,
        "status"@ != "quit"@,
        "status"@ != "exit"@,
        "status"@ != "q"@,
        "status"@ != "add"@,
        "st"@ != "config"@,
        "st"@ != "cfg"@,
        "st"@ != "diag"@,
        "st"@ != "help"@,
        "st"@ != "?"@,
        "st"@ != "quit"@,
        "st"@ != "exit"@,
        "st"@ != "q"@,
        "st"@ != "add"@,
        "config"@ != "cfg"@,
        "config"@ != "diag"@,
        "config"@ != "help"@,
        "config"@ != "?"@,
        "config"@ != "quit"@,
        "config"@ != "exit"@,
        "config"@ != "q"@,
        "config"@ != "add"@,
        "cfg"@ != "diag"@,
        "cfg"@ != "help"@,
        "cfg"@ != "?"@,
        "cfg"@ != "quit"@,
        "cfg"@ != "exit"@,
        "cfg"@ != "q"@,
        "cfg"@ != "add"@,
        "diag"@ != "help"@,
        "diag"@ != "?"@,
        "diag"@ != "quit"@,
        "diag"@ != "exit"@,
        "diag"@ != "q"@,
        "diag"@ != "add"@,
        "help"@ != "?"@,
        "help"@ != "quit"@,
        "help"@ != "exit"@,
        "help"@ != "q"@,
        "help"@ != "add"@,
        "?"@ != "quit"@,
        "?"@ != "exit"@,
        "?"@ != "q"@,
        "?"@ != "add"@,
        "quit"@ != "exit"@,
        "quit"@ != "q"@,
        "quit"@ != "add"@,
        "exit"@ != "q"@,
        "exit"@ != "add"@,
        "q"@ != "add"@,
{
    reveal_strlit("list");
    reveal_strlit("ls");
    reveal_strlit("ping");
    reveal_strlit("tcp");
    reveal_strlit("udp");
    reveal_strlit("convert");
    reveal_strlit("conv");
    reveal_strlit("tunnel");
    reveal_strlit("status");
    reveal_strlit("st");
    reveal_strlit("config");
    reveal_strlit("cfg");
    reveal_strlit("diag");
    reveal_strlit("help");
    reveal_strlit("?");
    reveal_strlit("quit");
    reveal_strlit("exit");
    reveal_strlit("q");
    reveal_strlit("add");
    assert("list"@.len() != "ls"@.len());
    assert("list"@ != "ls"@);
    assert("list"@[0] != "ping"@[0]);
    assert("list"@ != "ping"@);
    assert("list"@.len() != "tcp"@.len());
    assert("list"@ != "tcp"@);
    assert("list"@.len() != "udp"@.len());
    assert("list"@ != "udp"@);
    assert("list"@.len() != "convert"@.len());
    assert("list"@ != "convert"@);
    assert("list"@[0] != "conv"@[0]);
    assert("list"@ != "conv"@);
    assert("list"@.len() != "tunnel"@.len());
    assert("list"@ != "tunnel"@);
    assert("list"@.len() != "status"@.len());
    assert("list"@ != "status"@);
    assert("list"@.len() != "st"@.len());
    assert("list"@ != "st"@);
    assert("list"@.len() != "config"@.len());
    assert("list"@ != "config"@);
    assert("list"@.len() != "cfg"@.len());
    assert("list"@ != "cfg"@);
    assert("list"@[0] != "diag"@[0]);
    assert("list"@ != "diag"@);
    assert("list"@[0] != "help"@[0]);
    assert("list"@ != "help"@);
    assert("list"@.len() != "?"@.len());
    assert("list"@ != "?"@);
    assert("list"@[0] != "quit"@[0]);
    assert("list"@ != "quit"@);
    assert("list"@[0] != "exit"@[0]);
    assert("list"@ != "exit"@);
    assert("list"@.len() != "q"@.len());
    assert("list"@ != "q"@);
    assert("list"@.len() != "add"@.len());
    assert("list"@ != "add"@);
    assert("ls"@.len() != "ping"@.len());
    assert("ls"@ != "ping"@);
    assert("ls"@.len() != "tcp"@.len());
    assert("ls"@ != "tcp"@);
    assert("ls"@.len() != "udp"@.len());
    assert("ls"@ != "udp"@);
    assert("ls"@.len() != "convert"@.len());
    assert("ls"@ != "convert"@);
    assert("ls"@.len() != "conv"@.len());
    assert("ls"@ != "conv"@);
    assert("ls"@.len() != "tunnel"@.len());
    assert("ls"@ != "tunnel"@);
    assert("ls"@.len() != "status"@.len());
    assert("ls"@ != "status"@);
    assert("ls"@[0] != "st"@[0]);
    assert("ls"@ != "st"@);
    assert("ls"@.len() != "config"@.len());
    assert("ls"@ != "config"@);
    assert("ls"@.len() != "cfg"@.len());
    assert("ls"@ != "cfg"@);
    assert("ls"@.len() != "diag"@.len());
    assert("ls"@ != "diag"@);
    assert("ls"@.len() != "help"@.len());
    assert("ls"@ != "help"@);
    assert("ls"@.len() != "?"@.len());
    assert("ls"@ != "?"@);
    assert("ls"@.len() != "quit"@.len());
    assert("ls"@ != "quit"@);
    assert("ls"@.len() != "exit"@.len());
    assert("ls"@ != "exit"@);
    assert("ls"@.len() != "q"@.len());
    assert("ls"@ != "q"@);
    assert("ls"@.len() != "add"@.len());
    assert("ls"@ != "add"@);
    assert("ping"@.len() != "tcp"@.len());
    assert("ping"@ != "tcp"@);
    assert("ping"@.len() != "udp"@.len());
    assert("ping"@ != "udp"@);
    assert("ping"@.len() != "convert"@.len());
    assert("ping"@ != "convert"@);
    assert("ping"@[0] != "conv"@[0]);
    assert("ping"@ != "conv"@);
    assert("ping"@.len() != "tunnel"@.len());
    assert("ping"@ != "tunnel"@);
    assert("ping"@.len() != "status"@.len());
    assert("ping"@ != "status"@);
    assert("ping"@.len() != "st"@.len());
    assert("ping"@ != "st"@);
    assert("ping"@.len() != "config"@.len());
    assert("ping"@ != "config"@);
    assert("ping"@.len() != "cfg"@.len());
    assert("ping"@ != "cfg"@);
    assert("ping"@[0] != "diag"@[0]);
    assert("ping"@ != "diag"@);
    assert("ping"@[0] != "help"@[0]);
    assert("ping"@ != "help"@);
    assert("ping"@.len() != "?"@.len());
    assert("ping"@ != "?"@);
    assert("ping"@[0] != "quit"@[0]);
    assert("ping"@ != "quit"@);
    assert("ping"@[0] != "exit"@[0]);
    assert("ping"@ != "exit"@);
    assert("ping"@.len() != "q"@.len());
    assert("ping"@ != "q"@);
    assert("ping"@.len() != "add"@.len());
    assert("ping"@ != "add"@);
    assert("tcp"@[0] != "udp"@[0]);
    assert("tcp"@ != "udp"@);
    assert("tcp"@.len() != "convert"@.len());
    assert("tcp"@ != "convert"@);
    assert("tcp"@.len() != "conv"@.len());
    assert("tcp"@ != "conv"@);
    assert("tcp"@.len() != "tunnel"@.len());
    assert("tcp"@ != "tunnel"@);
    assert("tcp"@.len() != "status"@.len());
    assert("tcp"@ != "status"@);
    assert("tcp"@.len() != "st"@.len());
    assert("tcp"@ != "st"@);
    assert("tcp"@.len() != "config"@.len());
    assert("tcp"@ != "config"@);
    assert("tcp"@[0] != "cfg"@[0]);
    assert("tcp"@ != "cfg"@);
    assert("tcp"@.len() != "diag"@.len());
    assert("tcp"@ != "diag"@);
    assert("tcp"@.len() != "help"@.len());
    assert("tcp"@ != "help"@);
    assert("tcp"@.len() != "?"@.len());
    assert("tcp"@ != "?"@);
    assert("tcp"@.len() != "quit"@.len());
    assert("tcp"@ != "quit"@);
    assert("tcp"@.len() != "exit"@.len());
    assert("tcp"@ != "exit"@);
    assert("tcp"@.len() != "q"@.len());
    assert("tcp"@ != "q"@);
    assert("tcp"@[0] != "add"@[0]);
    assert("tcp"@ != "add"@);
    assert("udp"@.len() != "convert"@.len());
    assert("udp"@ != "convert"@);
    assert("udp"@.len() != "conv"@.len());
    assert("udp"@ != "conv"@);
    assert("udp"@.len() != "tunnel"@.len());
    assert("udp"@ != "tunnel"@);
    assert("udp"@.len() != "status"@.len());
    assert("udp"@ != "status"@);
    assert("udp"@.len() != "st"@.len());
    assert("udp"@ != "st"@);
    assert("udp"@.len() != "config"@.len());
    assert("udp"@ != "config"@);
    assert("udp"@[0] != "cfg"@[0]);
    assert("udp"@ != "cfg"@);
    assert("udp"@.len() != "diag"@.len());
    assert("udp"@ != "diag"@);
    assert("udp"@.len() != "help"@.len());
    assert("udp"@ != "help"@);
    assert("udp"@.len() != "?"@.len());
    assert("udp"@ != "?"@);
    assert("udp"@.len() != "quit"@.len());
    assert("udp"@ != "quit"@);
    assert("udp"@.len() != "exit"@.len());
    assert("udp"@ != "exit"@);
    assert("udp"@.len() != "q"@.len());
    assert("udp"@ != "q"@);
    assert("udp"@[0] != "add"@[0]);
    assert("udp"@ != "add"@);
    assert("convert"@.len() != "conv"@.len());
    assert("convert"@ != "conv"@);
    assert("convert"@.len() != "tunnel"@.len());
    assert("convert"@ != "tunnel"@);
    assert("convert"@.len() != "status"@.len());
    assert("convert"@ != "status"@);
    assert("convert"@.len() != "st"@.len());
    assert("convert"@ != "st"@);
    assert("convert"@.len() != "config"@.len());
    assert("convert"@ != "config"@);
    assert("convert"@.len() != "cfg"@.len());
    assert("convert"@ != "cfg"@);
    assert("convert"@.len() != "diag"@.len());
    assert("convert"@ != "diag"@);
    assert("convert"@.len() != "help"@.len());
    assert("convert"@ != "help"@);
    assert("convert"@.len() != "?"@.len());
    assert("convert"@ != "?"@);
    assert("convert"@.len() != "quit"@.len());
    assert("convert"@ != "quit"@);
    assert("convert"@.len() != "exit"@.len());
    assert("convert"@ != "exit"@);
    assert("convert"@.len() != "q"@.len());
    assert("convert"@ != "q"@);
    assert("convert"@.len() != "add"@.len());
    assert("convert"@ != "add"@);
    assert("conv"@.len() != "tunnel"@.len());
    assert("conv"@ != "tunnel"@);
    assert("conv"@.len() != "status"@.len());
    assert("conv"@ != "status"@);
    assert("conv"@.len() != "st"@.len());
    assert("conv"@ != "st"@);
    assert("conv"@.len() != "config"@.len());
    assert("conv"@ != "config"@);
    assert("conv"@.len() != "cfg"@.len());
    assert("conv"@ != "cfg"@);
    assert("conv"@[0] != "diag"@[0]);
    assert("conv"@ != "diag"@);
    assert("conv"@[0] != "help"@[0]);
    assert("conv"@ != "help"@);
    assert("conv"@.len() != "?"@.len());
    assert("conv"@ != "?"@);
    assert("conv"@[0] != "quit"@[0]);
    assert("conv"@ != "quit"@);
    assert("conv"@[0] != "exit"@[0]);
    assert("conv"@ != "exit"@);
    assert("conv"@.len() != "q"@.len());
    assert("conv"@ != "q"@);
    assert("conv"@.len() != "add"@.len());
    assert("conv"@ != "add"@);
    assert("tunnel"@[0] != "status"@[0]);
    assert("tunnel"@ != "status"@);
    assert("tunnel"@.len() != "st"@.len());
    assert("tunnel"@ != "st"@);
    assert("tunnel"@[0] != "config"@[0]);
    assert("tunnel"@ != "config"@);
    assert("tunnel"@.len() != "cfg"@.len());
    assert("tunnel"@ != "cfg"@);
    assert("tunnel"@.len() != "diag"@.len());
    assert("tunnel"@ != "diag"@);
    assert("tunnel"@.len() != "help"@.len());
    assert("tunnel"@ != "help"@);
    assert("tunnel"@.len() != "?"@.len());
    assert("tunnel"@ != "?"@);
    assert("tunnel"@.len() != "quit"@.len());
    assert("tunnel"@ != "quit"@);
    assert("tunnel"@.len() != "exit"@.len());
    assert("tunnel"@ != "exit"@);
    assert("tunnel"@.len() != "q"@.len());
    assert("tunnel"@ != "q"@);
    assert("tunnel"@.len() != "add"@.len());
    assert("tunnel"@ != "add"@);
    assert("status"@.len() != "st"@.len());
    assert("status"@ != "st"@);
    assert("status"@[0] != "config"@[0]);
    assert("status"@ != "config"@);
    assert("status"@.len() != "cfg"@.len());
    assert("status"@ != "cfg"@);
    assert("status"@.len() != "diag"@.len());
    assert("status"@ != "diag"@);
    assert("status"@.len() != "help"@.len());
    assert("status"@ != "help"@);
    assert("status"@.len() != "?"@.len());
    assert("status"@ != "?"@);
    assert("status"@.len() != "quit"@.len());
    assert("status"@ != "quit"@);
    assert("status"@.len() != "exit"@.len());
    assert("status"@ != "exit"@);
    assert("status"@.len() != "q"@.len());
    assert("status"@ != "q"@);
    assert("status"@.len() != "add"@.len());
    assert("status"@ != "add"@);
    assert("st"@.len() != "config"@.len());
    assert("st"@ != "config"@);
    assert("st"@.len() != "cfg"@.len());
    assert("st"@ != "cfg"@);
    assert("st"@.len() != "diag"@.len());
    assert("st"@ != "diag"@);
    assert("st"@.len() != "help"@.len());
    assert("st"@ != "help"@);
    assert("st"@.len() != "?"@.len());
    assert("st"@ != "?"@);
    assert("st"@.len() != "quit"@.len());
    assert("st"@ != "quit"@);
    assert("st"@.len() != "exit"@.len());
    assert("st"@ != "exit"@);
    assert("st"@.len() != "q"@.len());
    assert("st"@ != "q"@);
    assert("st"@.len() != "add"@.len());
    assert("st"@ != "add"@);
    assert("config"@.len() != "cfg"@.len());
    assert("config"@ != "cfg"@);
    assert("config"@.len() != "diag"@.len());
    assert("config"@ != "diag"@);
    assert("config"@.len() != "help"@.len());
    assert("config"@ != "help"@);
    assert("config"@.len() != "?"@.len());
    assert("config"@ != "?"@);
    assert("config"@.len() != "quit"@.len());
    assert("config"@ != "quit"@);
    assert("config"@.len() != "exit"@.len());
    assert("config"@ != "exit"@);
    assert("config"@.len() != "q"@.len());
    assert("config"@ != "q"@);
    assert("config"@.len() != "add"@.len());
    assert("config"@ != "add"@);
    assert("cfg"@.len() != "diag"@.len());
    assert("cfg"@ != "diag"@);
    assert("cfg"@.len() != "help"@.len());
    assert("cfg"@ != "help"@);
    assert("cfg"@.len() != "?"@.len());
    assert("cfg"@ != "?"@);
    assert("cfg"@.len() != "quit"@.len());
    assert("cfg"@ != "quit"@);
    assert("cfg"@.len() != "exit"@.len());
    assert("cfg"@ != "exit"@);
    assert("cfg"@.len() != "q"@.len());
    assert("cfg"@ != "q"@);
    assert("cfg"@[0] != "add"@[0]);
    assert("cfg"@ != "add"@);
    assert("diag"@[0] != "help"@[0]);
    assert("diag"@ != "help"@);
    assert("diag"@.len() != "?"@.len());
    assert("diag"@ != "?"@);
    assert("diag"@[0] != "quit"@[0]);
    assert("diag"@ != "quit"@);
    assert("diag"@[0] != "exit"@[0]);
    assert("diag"@ != "exit"@);
    assert("diag"@.len() != "q"@.len());
    assert("diag"@ != "q"@);
    assert("diag"@.len() != "add"@.len());
    assert("diag"@ != "add"@);
    assert("help"@.len() != "?"@.len());
    assert("help"@ != "?"@);
    assert("help"@[0] != "quit"@[0]);
    assert("help"@ != "quit"@);
    assert("help"@[0] != "exit"@[0]);
    assert("help"@ != "exit"@);
    assert("help"@.len() != "q"@.len());
    assert("help"@ != "q"@);
    assert("help"@.len() != "add"@.len());
    assert("help"@ != "add"@);
    assert("?"@.len() != "quit"@.len());
    assert("?"@ != "quit"@);
    assert("?"@.len() != "exit"@.len());
    assert("?"@ != "exit"@);
    assert("?"@[0] != "q"@[0]);
    assert("?"@ != "q"@);
    assert("?"@.len() != "add"@.len());
    assert("?"@ != "add"@);
    assert("quit"@[0] != "exit"@[0]);
    assert("quit"@ != "exit"@);
    assert("quit"@.len() != "q"@.len());
    assert("quit"@ != "q"@);
    assert("quit"@.len() != "add"@.len());
    assert("quit"@ != "add"@);
    assert("exit"@.len() != "q"@.len());
    assert("exit"@ != "q"@);
    assert("exit"@.len() != "add"@.len());
    assert("exit"@ != "add"@);
    assert("q"@.len() != "add"@.len());
    assert("q"@ != "add"@);
}

proof fn lemma_no_words_of_empty(line: Seq<char>)
    ensures
        line.len() == 0 ==> words(line).len() == 0,
{
    if line.len() == 0 {
        assert(split_ws(line) =~= seq![Seq::<char>::empty()]);
        assert(split_ws(line).drop_last() =~= Seq::<Seq<char>>::empty());
        assert(non_empty(split_ws(line).drop_last()) =~= Seq::<Seq<char>>::empty());
    }
}

/// The operator's commands by the first word of the line: `list` or `ls`
/// lists the segments; `status` or `st`, `config` or `cfg`, `diag`, `help`
/// or `?`, `quit`, `exit` or `q` are those commands; `ping`, `convert` and
/// `conv` take the second word as the address (and without one ask for
/// their usage); `tcp` and `udp` take an address and a port; `tunnel`
/// manages the tunnel; any other word is unknown and named.
pub proof fn lemma_operator_keywords(line: Seq<char>, c: OperatorCommand)
    requires
        operator_command_of(c, line),
        words(line).len() > 0,
    ensures
        (words(line)[0] == "list"@ || words(line)[0] == "ls"@) ==> c == OperatorCommand::List,
        (words(line)[0] == "status"@ || words(line)[0] == "st"@) ==> c == OperatorCommand::Status,
        (words(line)[0] == "config"@ || words(line)[0] == "cfg"@) ==> c == OperatorCommand::Config,
        words(line)[0] == "diag"@ ==> c == OperatorCommand::Diag,
        (words(line)[0] == "help"@ || words(line)[0] == "?"@) ==> c == OperatorCommand::Help,
        (words(line)[0] == "quit"@ || words(line)[0] == "exit"@ || words(line)[0] == "q"@) ==> c
            == OperatorCommand::Quit,
        (words(line)[0] == "ping"@ && words(line).len() >= 2) ==> (c matches OperatorCommand::Ping(ip) && ip@
            == words(line)[1]),
        (words(line)[0] == "ping"@ && words(line).len() == 1) ==> c == OperatorCommand::PingUsage,
        ((words(line)[0] == "convert"@ || words(line)[0] == "conv"@) && words(line).len() >= 2) ==> (c matches OperatorCommand::Convert(ip)
            && ip@ == words(line)[1]),
        (words(line)[0] == "tcp"@ && words(line).len() >= 3 && parse_unsigned(words(line)[2], 65535) is Some) ==> (
        c matches OperatorCommand::Tcp(ip, port) && ip@ == words(line)[1] && port as nat == parse_unsigned(
            words(line)[2],
            65535,
        )->0),
        (words(line)[0] == "tcp"@ && words(line).len() < 3) ==> c == OperatorCommand::TcpUsage,
        (words(line)[0] == "udp"@ && words(line).len() < 3) ==> c == OperatorCommand::UdpUsage,
        words(line)[0] == "tunnel"@ ==> c is Tunnel,
        !is_operator_keyword(words(line)[0]) ==> (c matches OperatorCommand::Unknown(n) && n@ == words(line)[0]),
{
    lemma_no_words_of_empty(line);
    lemma_keywords_distinct();
}

/// The first words the operator's commands answer to.
pub open spec fn is_operator_keyword(w: Seq<char>) -> bool {
    ||| w == "list"@ ||| w == "ls"@ ||| w == "ping"@ ||| w == "tcp"@ ||| w == "udp"@ ||| w == "convert"@
    ||| w == "conv"@ ||| w == "tunnel"@ ||| w == "status"@ ||| w == "st"@ ||| w == "config"@ ||| w == "cfg"@
    ||| w == "diag"@ ||| w == "help"@ ||| w == "?"@ ||| w == "quit"@ ||| w == "exit"@ ||| w == "q"@
}

/// The client's commands by the first word of the line: `list` or `ls`,
/// `add`, `status` or `st`, `config` or `cfg`, `diag`, `help` or `?`,
/// `quit`, `exit` or `q`; `tunnel` manages the tunnel; any other word is
/// unknown and named.
pub proof fn lemma_client_keywords(line: Seq<char>, c: ClientCommand)
    requires
        client_command_of(c, line),
        words(line).len() > 0,
    ensures
        (words(line)[0] == "list"@ || words(line)[0] == "ls"@) ==> c == ClientCommand::List,
        words(line)[0] == "add"@ ==> c == ClientCommand::Add,
        (words(line)[0] == "status"@ || words(line)[0] == "st"@) ==> c == ClientCommand::Status,
        (words(line)[0] == "config"@ || words(line)[0] == "cfg"@) ==> c == ClientCommand::Config,
        words(line)[0] == "diag"@ ==> c == ClientCommand::Diag,
        (words(line)[0] == "help"@ || words(line)[0] == "?"@) ==> c == ClientCommand::Help,
        (words(line)[0] == "quit"@ || words(line)[0] == "exit"@ || words(line)[0] == "q"@) ==> c
            == ClientCommand::Quit,
        words(line)[0] == "tunnel"@ ==> c is Tunnel,
{
    lemma_no_words_of_empty(line);
    lemma_keywords_distinct();
}

fn word_is(w: &Vec<Vec<char>>, i: usize, lit: &str) -> (r: bool)
    ensures
        r == (i < w@.len() && w@[i as int]@ == lit@),
{
    i < w.len() && chars_eq_str(w[i].as_slice(), lit)
}

fn parse_tunnel_sub(w: &Vec<Vec<char>>, reconnect: bool, dflt: &str) -> (t: TunnelSub)
    ensures
        t == tunnel_sub(
            word_or(w@.map_values(|v: Vec<char>| v@), 1, dflt@),
            reconnect,
        ),
{
    let ghost ws = w@.map_values(|v: Vec<char>| v@);
    let sub: Vec<char> = if w.len() > 1 {
        let s = &w[1];
        let mut c: Vec<char> = Vec::new();
        push_chars(&mut c, s.as_slice());
        c
    } else {
        chars_of(dflt)
    };
    assert(sub@ == word_or(ws, 1, dflt@));
    if chars_eq_str(sub.as_slice(), "start") {
        TunnelSub::Start
    } else if chars_eq_str(sub.as_slice(), "status") {
        TunnelSub::Status
    } else if chars_eq_str(sub.as_slice(), "stop") {
        TunnelSub::Stop
    } else if reconnect && chars_eq_str(sub.as_slice(), "reconnect") {
        TunnelSub::Reconnect
    } else {
        TunnelSub::Usage
    }
}

fn ip_port_of(w: &Vec<Vec<char>>) -> (r: Option<(String, u16)>)
    ensures
        match ip_port(w@.map_values(|v: Vec<char>| v@)) {
            Some((ip, p)) => r matches Some((i, q)) && i@ == ip && q == p,
            None => r is None,
        },
{
    if w.len() < 3 {
        return None;
    }
    match parse_u16_chars(w[2].as_slice()) {
        Some(p) => Some((string_from_chars(w[1].as_slice()), p)),
        None => None,
    }
}

/// What the operator's line asks for.
pub fn parse_operator_command(line: &str) -> (c: OperatorCommand)
    ensures
        operator_command_of(c, line@),
{
    let v = chars_of(line);
    let w = words_of(v.as_slice());
    let ghost ws = words(line@);
    assert(w@.map_values(|x: Vec<char>| x@) =~= ws);
    assert(forall|i: int| 0 <= i < w@.len() ==> ws[i] == (#[trigger] w@[i])@);
    if v.len() == 0 {
        return OperatorCommand::Empty;
    }
    if w.len() == 0 {
        return OperatorCommand::Unknown(String::new());
    }
    if word_is(&w, 0, "list") || word_is(&w, 0, "ls") {
        OperatorCommand::List
    } else if word_is(&w, 0, "ping") {
        if w.len() >= 2 {
            OperatorCommand::Ping(string_from_chars(w[1].as_slice()))
        } else {
            OperatorCommand::PingUsage
        }
    } else if word_is(&w, 0, "tcp") {
        match ip_port_of(&w) {
            Some((ip, p)) => OperatorCommand::Tcp(ip, p),
            None => OperatorCommand::TcpUsage,
        }
    } else if word_is(&w, 0, "udp") {
        match ip_port_of(&w) {
            Some((ip, p)) => OperatorCommand::Udp(ip, p),
            None => OperatorCommand::UdpUsage,
        }
    } else if word_is(&w, 0, "convert") || word_is(&w, 0, "conv") {
        if w.len() >= 2 {
            OperatorCommand::Convert(string_from_chars(w[1].as_slice()))
        } else {
            OperatorCommand::ConvertUsage
        }
    } else if word_is(&w, 0, "tunnel") {
        OperatorCommand::Tunnel(parse_tunnel_sub(&w, true, "status"))
    } else if word_is(&w, 0, "status") || word_is(&w, 0, "st") {
        OperatorCommand::Status
    } else if word_is(&w, 0, "config") || word_is(&w, 0, "cfg") {
        OperatorCommand::Config
    } else if word_is(&w, 0, "diag") {
        OperatorCommand::Diag
    } else if word_is(&w, 0, "help") || word_is(&w, 0, "?") {
        OperatorCommand::Help
    } else if word_is(&w, 0, "quit") || word_is(&w, 0, "exit") || word_is(&w, 0, "q") {
        OperatorCommand::Quit
    } else if w.len() > 0 {
        OperatorCommand::Unknown(string_from_chars(w[0].as_slice()))
    } else {
        OperatorCommand::Unknown(String::new())
    }
}

/// What the client's line asks for.
pub fn parse_client_command(line: &str) -> (c: ClientCommand)
    ensures
        client_command_of(c, line@),
{
    let v = chars_of(line);
    let w = words_of(v.as_slice());
    let ghost ws = words(line@);
    assert(w@.map_values(|x: Vec<char>| x@) =~= ws);
    assert(forall|i: int| 0 <= i < w@.len() ==> ws[i] == (#[trigger] w@[i])@);
    if v.len() == 0 {
        return ClientCommand::Empty;
    }
    if w.len() == 0 {
        return ClientCommand::Unknown(String::new());
    }
    if word_is(&w, 0, "list") || word_is(&w, 0, "ls") {
        ClientCommand::List
    } else if word_is(&w, 0, "add") {
        ClientCommand::Add
    } else if word_is(&w, 0, "status") || word_is(&w, 0, "st") {
        ClientCommand::Status
    } else if word_is(&w, 0, "config") || word_is(&w, 0, "cfg") {
        ClientCommand::Config
    } else if word_is(&w, 0, "tunnel") {
        ClientCommand::Tunnel(parse_tunnel_sub(&w, false, ""))
    } else if word_is(&w, 0, "diag") {
        ClientCommand::Diag
    } else if word_is(&w, 0, "help") || word_is(&w, 0, "?") {
        ClientCommand::Help
    } else if word_is(&w, 0, "quit") || word_is(&w, 0, "exit") || word_is(&w, 0, "q") {
        ClientCommand::Quit
    } else if w.len() > 0 {
        ClientCommand::Unknown(string_from_chars(w[0].as_slice()))
    } else {
        ClientCommand::Unknown(String::new())
    }
}

/// The address and port of `<ip> <port>` arguments, where both are there
/// and the port parses.
pub fn parse_ip_port(args: &[String]) -> (r: Option<(String, u16)>)
    ensures
        args@.len() >= 2 && parse_unsigned(args@[1]@, 65535) is Some ==> (r matches Some((ip, p)) && ip
            == args@[0] && p as nat == parse_unsigned(args@[1]@, 65535)->0),
        !(args@.len() >= 2 && parse_unsigned(args@[1]@, 65535) is Some) ==> r is None,
{
    if args.len() < 2 {
        return None;
    }
    let port_chars = chars_of(args[1].as_str());
    match parse_u16_chars(port_chars.as_slice()) {
        Some(p) => Some((args[0].clone(), p)),
        None => None,
    }
}

// ------------------------------------------------------------------
// Choosing interfaces to report
// ------------------------------------------------------------------

/// One item of a choice of interfaces.
#[derive(Debug, Clone, PartialEq, Eq)]
pub enum Selection {
    /// The interface at this index (counted from 0).
    Pick(usize),
    /// A number that is 0 or past the list: skipped.
    OutOfRange(usize),
    /// A token that is not a number: the choice ends here with this error.
    Invalid(String),
}

pub open spec fn is_separator(c: char) -> bool {
    c == ',' || is_white_space(c)
}

/// The pieces of `s` between commas and white space (empty ones too).
pub open spec fn split_sep(s: Seq<char>) -> Seq<Seq<char>>
    decreases s.len(),
{
    if s.len() == 0 {
        seq![Seq::empty()]
    } else {
        let prev = split_sep(s.drop_last());
        if is_separator(s.last()) {
            prev.push(Seq::empty())
        } else {
            prev.update(prev.len() - 1, prev.last().push(s.last()))
        }
    }
}

proof fn lemma_split_sep_len(s: Seq<char>)
    ensures
        split_sep(s).len() >= 1,
    decreases s.len(),
{
    if s.len() > 0 {
        lemma_split_sep_len(s.drop_last());
    }
}

/// The items that the tokens `ts` give, up to and with the first invalid
/// one, for a list of `count` interfaces.
pub open spec fn selections(ts: Seq<Seq<char>>, count: nat) -> Seq<(int, int, Seq<char>)>
    decreases ts.len(),
{
    if ts.len() == 0 {
        Seq::empty()
    } else {
        match parse_unsigned(ts[0], usize::MAX as nat) {
            None => seq![(2int, 0int, ts[0])],
            Some(idx) => {
                let item = if idx == 0 || idx > count {
                    (1int, idx as int, Seq::<char>::empty())
                } else {
                    (0int, idx - 1, Seq::<char>::empty())
                };
                seq![item] + selections(ts.drop_first(), count)
            },
        }
    }
}

/// An item as (kind, number, text): 0 pick, 1 out of range, 2 invalid.
pub open spec fn selection_view(s: Selection) -> (int, int, Seq<char>) {
    match s {
        Selection::Pick(i) => (0int, i as int, Seq::empty()),
        Selection::OutOfRange(i) => (1int, i as int, Seq::empty()),
        Selection::Invalid(t) => (2int, 0int, t@),
    }
}

/// The interfaces that the answer `sel` picks from a list of `count`
/// (numbered from 1, separated by commas or spaces).
pub fn parse_selection(sel: &str, count: usize) -> (r: Vec<Selection>)
    ensures
        r@.map_values(|s: Selection| selection_view(s)) == selections(non_empty(split_sep(sel@)), count as nat),
{
    let v = chars_of(sel);
    let n = v.len();
    let mut parts: Vec<Vec<char>> = Vec::new();
    let mut cur: Vec<char> = Vec::new();
    let mut i: usize = 0;
    while i < n
        invariant
            n == v@.len(),
            v@ == sel@,
            i <= n,
            parts@.len() + 1 == split_sep(v@.subrange(0, i as int)).len(),
            forall|k: int| 0 <= k < parts@.len() ==> (#[trigger] parts@[k])@ == split_sep(v@.subrange(0, i as int))[k],
            cur@ == split_sep(v@.subrange(0, i as int)).last(),
        decreases n - i,
    {
        proof {
            lemma_split_sep_len(v@.subrange(0, i as int));
            assert(v@.subrange(0, i + 1).drop_last() =~= v@.subrange(0, i as int));
        }
        let c = v[i];
        if c == ',' || char_is_white_space(c) {
            let done = cur;
            parts.push(done);
            cur = Vec::new();
        } else {
            cur.push(c);
        }
        i += 1;
    }
    assert(v@.subrange(0, n as int) =~= v@);
    parts.push(cur);
    let ghost all = split_sep(v@);
    let m = parts.len();
    let mut tokens: Vec<Vec<char>> = Vec::new();
    let mut k: usize = 0;
    while k < m
        invariant
            m == parts@.len(),
            all == split_sep(v@),
            m == all.len(),
            forall|j: int| 0 <= j < m ==> (#[trigger] parts@[j])@ == all[j],
            k <= m,
            tokens@.len() == non_empty(all.subrange(0, k as int)).len(),
            forall|j: int| 0 <= j < tokens@.len() ==> (#[trigger] tokens@[j])@ == non_empty(all.subrange(0, k as int))[j],
        decreases m - k,
    {
        proof {
            assert(all.subrange(0, k + 1).drop_last() =~= all.subrange(0, k as int));
        }
        if parts[k].len() > 0 {
            let mut t: Vec<char> = Vec::new();
            push_chars(&mut t, parts[k].as_slice());
            tokens.push(t);
        }
        k += 1;
    }
    assert(all.subrange(0, m as int) =~= all);
    let ghost ts = non_empty(all);
    let nt = tokens.len();
    let mut out: Vec<Selection> = Vec::new();
    let mut j: usize = 0;
    assert(ts.subrange(0, nt as int) =~= ts);
    while j < nt
        invariant
            nt == tokens@.len(),
            all == split_sep(sel@),
            ts == non_empty(all),
            nt == ts.len(),
            forall|q: int| 0 <= q < nt ==> (#[trigger] tokens@[q])@ == ts[q],
            j <= nt,
            out@.map_values(|s: Selection| selection_view(s)) + selections(ts.subrange(j as int, nt as int), count as nat)
                == selections(ts, count as nat),
        decreases nt - j,
    {
        proof {
            assert(ts.subrange(j as int, nt as int).drop_first() =~= ts.subrange(j + 1, nt as int));
            assert(ts.subrange(j as int, nt as int)[0] == ts[j as int]);
        }
        let ghost before = out@;
        match parse_usize_chars(tokens[j].as_slice()) {
            None => {
                out.push(Selection::Invalid(string_from_chars(tokens[j].as_slice())));
                proof {
                    assert(out@.map_values(|s: Selection| selection_view(s)) =~= before.map_values(
                        |s: Selection| selection_view(s),
                    ) + selections(ts.subrange(j as int, nt as int), count as nat));
                }
                return out;
            },
            Some(idx) => {
                if idx == 0 || idx > count {
                    out.push(Selection::OutOfRange(idx));
                } else {
                    out.push(Selection::Pick(idx - 1));
                }
                proof {
                    let sv = selections(ts.subrange(j as int, nt as int), count as nat);
                    assert(out@.map_values(|s: Selection| selection_view(s)) =~= before.map_values(
                        |s: Selection| selection_view(s),
                    ).push(sv[0]));
                    assert(sv =~= seq![sv[0]] + selections(ts.subrange(j + 1, nt as int), count as nat));
                }
            },
        }
        j += 1;
    }
    assert(ts.subrange(nt as int, nt as int) =~= Seq::<Seq<char>>::empty());
    out
}

// ------------------------------------------------------------------
// Counting and converting
// ------------------------------------------------------------------

/// The number of segments of `segs` that are active.
pub open spec fn active_count(segs: Seq<SegmentSummary>) -> nat
    decreases segs.len(),
{
    if segs.len() == 0 {
        0
    } else {
        active_count(segs.drop_last()) + if segs.last().status == SegmentStatus::Active {
            1nat
        } else {
            0nat
        }
    }
}

/// How many of the reported segments are active.
pub fn count_active(segs: &[SegmentSummary]) -> (n: usize)
    ensures
        n == active_count(segs@),
{
    let len = segs.len();
    let mut n: usize = 0;
    let mut i: usize = 0;
    while i < len
        invariant
            len == segs@.len(),
            i <= len,
            n == active_count(segs@.subrange(0, i as int)),
            n <= i,
        decreases len - i,
    {
        proof {
            assert(segs@.subrange(0, i + 1).drop_last() =~= segs@.subrange(0, i as int));
        }
        if segs[i].status == SegmentStatus::Active {
            n += 1;
        }
        i += 1;
    }
    assert(segs@.subrange(0, len as int) =~= segs@);
    n
}

/// Why an address cannot be converted.
#[derive(Debug, Clone, PartialEq, Eq)]
pub enum ConvertError {
    /// A segment or the address is not valid text; the message says which.
    Invalid(String),
    /// The address lies in none of the segments.
    NoSegment,
}

/// The message of a failed check whether `ip` lies in `cidr`: the segment's
/// fault where it does not parse, else the address's.
pub open spec fn membership_error_text(ip: Seq<char>, cidr: Seq<char>) -> Seq<char> {
    if spec_parse_cidr(cidr) is Err {
        cidr_error_text(cidr)
    } else {
        address_error_text(ip)
    }
}

/// The message of a failed move of `ip` between `real_cidr` and
/// `mapped_cidr`: the
/// real segment's fault, the mapped one's, their differing prefix lengths,
/// or the address's, the first that applies.
pub open spec fn rebase_error_text(ip: Seq<char>, real_cidr: Seq<char>, mapped_cidr: Seq<char>) -> Seq<char> {
    match spec_parse_cidr(real_cidr) {
        Err(_) => cidr_error_text(real_cidr),
        Ok((_, rp)) => match spec_parse_cidr(mapped_cidr) {
            Err(_) => cidr_error_text(mapped_cidr),
            Ok((_, mp)) => if rp != mp {
                "前缀长度不匹配: 真实 "@ + decimal(rp as nat) + " vs 映射 "@ + decimal(mp as nat)
            } else {
                address_error_text(ip)
            },
        },
    }
}

/// What one segment makes of `ip`: the conversion from real to mapped
/// where the real side holds it, else back where the mapped side holds it,
/// else nothing (`None`); a failure comes with its message.
#[verifier::opaque]
pub open spec fn convert_step(ip: Seq<char>, s: RouteEntry) -> Option<Result<(bool, Seq<char>), Seq<char>>> {
    match spec_ip_in_cidr(ip, s.real_cidr@) {
        Err(_) => Some(Err(membership_error_text(ip, s.real_cidr@))),
        Ok(true) => Some(
            match spec_rebase(ip, s.real_cidr@, s.mapped_cidr@, true) {
                Ok(v) => Ok((true, ipv4_text(v))),
                Err(_) => Err(rebase_error_text(ip, s.real_cidr@, s.mapped_cidr@)),
            },
        ),
        Ok(false) => match spec_ip_in_cidr(ip, s.mapped_cidr@) {
            Err(_) => Some(Err(membership_error_text(ip, s.mapped_cidr@))),
            Ok(true) => Some(
                match spec_rebase(ip, s.real_cidr@, s.mapped_cidr@, false) {
                    Ok(v) => Ok((false, ipv4_text(v))),
                    Err(_) => Err(rebase_error_text(ip, s.real_cidr@, s.mapped_cidr@)),
                },
            ),
            Ok(false) => None,
        },
    }
}

/// The conversion of `ip` by the first segment whose real or mapped side
/// holds it: `(true, mapped)` from real to mapped, `(false, real)` back;
/// `Err(Some(message))` where a segment or the address is not valid text,
/// `Err(None)` where no segment holds the address.
pub open spec fn spec_convert(ip: Seq<char>, segs: Seq<RouteEntry>) -> Result<(bool, Seq<char>), Option<Seq<char>>>
    decreases segs.len(),
{
    if segs.len() == 0 {
        Err(None)
    } else {
        match convert_step(ip, segs[0]) {
            Some(Ok(x)) => Ok(x),
            Some(Err(m)) => Err(Some(m)),
            None => spec_convert(ip, segs.drop_first()),
        }
    }
}

/// Whether neither side of any segment before `k` holds `ip` (both checks
/// succeed and say no).
pub open spec fn none_hold_before(ip: Seq<char>, segs: Seq<RouteEntry>, k: int) -> bool {
    forall|j: int|
        0 <= j < k ==> spec_ip_in_cidr(ip, (#[trigger] segs[j]).real_cidr@) == Ok::<bool, IpError>(false)
            && spec_ip_in_cidr(ip, segs[j].mapped_cidr@) == Ok::<bool, IpError>(false)
}

/// The conversion goes by the first segment that holds the address, however
/// many segments come before it: where no segment before `k` holds `ip`
/// and segment `k` holds it on its real side, the result is that segment's
/// move from real to mapped; where segment `k` holds it on its mapped side
/// only, its move back; and where no segment at all holds it, there is no
/// segment for it.
pub proof fn lemma_convert_by_first_holding(ip: Seq<char>, segs: Seq<RouteEntry>, k: int)
    requires
        0 <= k <= segs.len(),
        none_hold_before(ip, segs, k),
    ensures
        k == segs.len() ==> spec_convert(ip, segs) == Err::<(bool, Seq<char>), Option<Seq<char>>>(None),
        k < segs.len() && spec_ip_in_cidr(ip, segs[k].real_cidr@) == Ok::<bool, IpError>(true) ==> match spec_rebase(
            ip,
            segs[k].real_cidr@,
            segs[k].mapped_cidr@,
            true,
        ) {
            Ok(v) => spec_convert(ip, segs) == Ok::<(bool, Seq<char>), Option<Seq<char>>>((true, ipv4_text(v))),
            Err(_) => spec_convert(ip, segs) is Err,
        },
        k < segs.len() && spec_ip_in_cidr(ip, segs[k].real_cidr@) == Ok::<bool, IpError>(false) && spec_ip_in_cidr(
            ip,
            segs[k].mapped_cidr@,
        ) == Ok::<bool, IpError>(true) ==> match spec_rebase(ip, segs[k].real_cidr@, segs[k].mapped_cidr@, false) {
            Ok(v) => spec_convert(ip, segs) == Ok::<(bool, Seq<char>), Option<Seq<char>>>((false, ipv4_text(v))),
            Err(_) => spec_convert(ip, segs) is Err,
        },
    decreases k,
{
    reveal(convert_step);
    if k > 0 {
        assert(spec_ip_in_cidr(ip, segs[0].real_cidr@) == Ok::<bool, IpError>(false));
        assert(spec_ip_in_cidr(ip, segs[0].mapped_cidr@) == Ok::<bool, IpError>(false));
        assert(convert_step(ip, segs[0]) is None);
        let rest = segs.drop_first();
        assert(spec_convert(ip, segs) == spec_convert(ip, rest));
        assert forall|j: int| 0 <= j < k - 1 implies spec_ip_in_cidr(ip, (#[trigger] rest[j]).real_cidr@)
            == Ok::<bool, IpError>(false) && spec_ip_in_cidr(ip, rest[j].mapped_cidr@) == Ok::<bool, IpError>(false) by {
            assert(rest[j] == segs[j + 1]);
        }
        lemma_convert_by_first_holding(ip, rest, k - 1);
        if k < segs.len() {
            assert(rest[k - 1] == segs[k]);
        }
    }
}

/// The message of a failed check whether `ip` lies in `cidr`.
fn membership_error_message(ip: &str, cidr: &str) -> (m: String)
    ensures
        m@ == membership_error_text(ip@, cidr@),
{
    match parse_cidr(cidr) {
        Err(_) => cidr_error_message(cidr),
        Ok(_) => {
            let mut v: Vec<char> = Vec::new();
            push_str(&mut v, "无效的 IPv4 地址: ");
            push_str(&mut v, ip);
            string_from_chars(v.as_slice())
        },
    }
}

/// The message of a failed move of `ip` between `real_cidr` and `mapped_cidr`.
fn rebase_error_message(ip: &str, real_cidr: &str, mapped_cidr: &str) -> (m: String)
    ensures
        m@ == rebase_error_text(ip@, real_cidr@, mapped_cidr@),
{
    let rp = match parse_cidr(real_cidr) {
        Err(_) => {
            return cidr_error_message(real_cidr);
        },
        Ok((_, p)) => p,
    };
    let mp = match parse_cidr(mapped_cidr) {
        Err(_) => {
            return cidr_error_message(mapped_cidr);
        },
        Ok((_, p)) => p,
    };
    let mut v: Vec<char> = Vec::new();
    if rp != mp {
        push_str(&mut v, "前缀长度不匹配: 真实 ");
        push_decimal(&mut v, rp as u64);
        push_str(&mut v, " vs 映射 ");
        push_decimal(&mut v, mp as u64);
    } else {
        push_str(&mut v, "无效的 IPv4 地址: ");
        push_str(&mut v, ip);
    }
    string_from_chars(v.as_slice())
}

fn convert_in_segment(ip: &str, seg: &RouteEntry) -> (r: Option<Result<(bool, String), String>>)
    ensures
        match convert_step(ip@, *seg) {
            Some(Ok((d, t))) => r matches Some(Ok((e, s))) && e == d && s@ == t,
            Some(Err(m)) => r matches Some(Err(s)) && s@ == m,
            None => r is None,
        },
{
    reveal(convert_step);
    match ip_in_cidr(ip, seg.real_cidr.as_str()) {
        Err(_) => {
            return Some(Err(membership_error_message(ip, seg.real_cidr.as_str())));
        },
        Ok(true) => {
            return Some(
                match convert_real_to_mapped(ip, seg.real_cidr.as_str(), seg.mapped_cidr.as_str()) {
                    Ok(m) => Ok((true, m)),
                    Err(_) => Err(rebase_error_message(ip, seg.real_cidr.as_str(), seg.mapped_cidr.as_str())),
                },
            );
        },
        Ok(false) => {},
    }
    match ip_in_cidr(ip, seg.mapped_cidr.as_str()) {
        Err(_) => Some(Err(membership_error_message(ip, seg.mapped_cidr.as_str()))),
        Ok(true) => Some(
            match convert_mapped_to_real(ip, seg.real_cidr.as_str(), seg.mapped_cidr.as_str()) {
                Ok(m) => Ok((false, m)),
                Err(_) => Err(rebase_error_message(ip, seg.real_cidr.as_str(), seg.mapped_cidr.as_str())),
            },
        ),
        Ok(false) => None,
    }
}

/// Converts an address between real and mapped by the first accessible
/// segment that holds it; gives the direction (`真实 -> 映射` or
/// `映射 -> 真实`) and the converted address.
pub fn convert_ip(ip: &str, segments: &[RouteEntry]) -> (r: Result<(&'static str, String), ConvertError>)
    ensures
        match spec_convert(ip@, segments@) {
            Ok((to_mapped, t)) => r matches Ok((d, s)) && s@ == t && d@ == if to_mapped {
                "真实 -> 映射"@
            } else {
                "映射 -> 真实"@
            },
            Err(Some(m)) => r matches Err(ConvertError::Invalid(s)) && s@ == m,
            Err(None) => r matches Err(ConvertError::NoSegment),
        },
{
    let n = segments.len();
    let mut k: usize = 0;
    let mut found: Option<Result<(bool, String), String>> = None;
    assert(segments@.subrange(0, n as int) =~= segments@);
    while k < n && found.is_none()
        invariant
            n == segments@.len(),
            k <= n,
            found is None ==> spec_convert(ip@, segments@.subrange(k as int, n as int)) == spec_convert(
                ip@,
                segments@,
            ),
            found matches Some(f) ==> match spec_convert(ip@, segments@) {
                Ok((d, t)) => f matches Ok((e, x)) && e == d && x@ == t,
                Err(Some(m)) => f matches Err(x) && x@ == m,
                Err(None) => false,
            },
        decreases n - k,
    {
        proof {
            assert(segments@.subrange(k as int, n as int).drop_first() =~= segments@.subrange(k + 1, n as int));
            assert(segments@.subrange(k as int, n as int)[0] == segments@[k as int]);
        }
        found = convert_in_segment(ip, &segments[k]);
        k += 1;
    }
    match found {
        Some(Ok((true, m))) => Ok(("真实 -> 映射", m)),
        Some(Ok((false, m))) => Ok(("映射 -> 真实", m)),
        Some(Err(m)) => Err(ConvertError::Invalid(m)),
        None => {
            assert(segments@.subrange(n as int, n as int) =~= Seq::<RouteEntry>::empty());
            Err(ConvertError::NoSegment)
        },
    }
}

impl ConvertError {
    /// The message of the error for the address `ip`.
    pub fn message(&self, ip: &str) -> (s: String)
        ensures
            s@ == match *self {
                ConvertError::NoSegment => "IP "@ + ip@ + " 不属于任何已知可访问网段"@,
                ConvertError::Invalid(m) => m@,
            },
    {
        match self {
            ConvertError::NoSegment => {
                let mut v: Vec<char> = Vec::new();
                push_str(&mut v, "IP ");
                push_str(&mut v, ip);
                push_str(&mut v, " 不属于任何已知可访问网段");
                string_from_chars(v.as_slice())
            },
            ConvertError::Invalid(m) => m.clone(),
        }
    }
}

} // verus!
