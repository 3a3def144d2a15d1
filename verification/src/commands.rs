//! Commands typed on the command line: which built-in command or RPC method
//! a line names, the help text, and the message for an unknown command.
use vstd::prelude::*;

use crate::command_line::{CommandLine, CommandLineView, CommandOutputView};
use crate::config::str_eq;
use crate::daemon::first_index_of;
use crate::rpc_types::{rpc_methods, spec_rpc_methods};
use crate::text::{trim_spec, trim_str};

verus! {

/// An RPC method that the explorer and the command line can run, in the
/// order of the method list.
#[derive(Debug, Clone, Copy, PartialEq, Eq, Structural)]
pub enum RpcMethod {
    GetServerInfo,
    GetBlockDagInfo,
    GetBlockCount,
    GetMempoolEntries,
    GetCoinSupply,
    GetFeeEstimate,
    GetFeeEstimateExperimental,
    GetConnectedPeerInfo,
    GetPeerAddresses,
    GetCurrentNetwork,
    GetSink,
    GetSinkBlueScore,
    GetInfo,
    GetSyncStatus,
    GetVirtualChain,
    GetHeaders,
    EstimateNetworkHashesPerSecond,
    Ping,
}

/// The method at position `i` of the method list.
pub open spec fn method_at(i: int) -> RpcMethod {
    if i == 0 {
        RpcMethod::GetServerInfo
    } else if i == 1 {
        RpcMethod::GetBlockDagInfo
    } else if i == 2 {
        RpcMethod::GetBlockCount
    } else if i == 3 {
        RpcMethod::GetMempoolEntries
    } else if i == 4 {
        RpcMethod::GetCoinSupply
    } else if i == 5 {
        RpcMethod::GetFeeEstimate
    } else if i == 6 {
        RpcMethod::GetFeeEstimateExperimental
    } else if i == 7 {
        RpcMethod::GetConnectedPeerInfo
    } else if i == 8 {
        RpcMethod::GetPeerAddresses
    } else if i == 9 {
        RpcMethod::GetCurrentNetwork
    } else if i == 10 {
        RpcMethod::GetSink
    } else if i == 11 {
        RpcMethod::GetSinkBlueScore
    } else if i == 12 {
        RpcMethod::GetInfo
    } else if i == 13 {
        RpcMethod::GetSyncStatus
    } else if i == 14 {
        RpcMethod::GetVirtualChain
    } else if i == 15 {
        RpcMethod::GetHeaders
    } else if i == 16 {
        RpcMethod::EstimateNetworkHashesPerSecond
    } else {
        RpcMethod::Ping
    }
}

fn method_at_exec(i: usize) -> (r: RpcMethod)
    ensures
        r == method_at(i as int),
{
    match i {
        0 => RpcMethod::GetServerInfo,
        1 => RpcMethod::GetBlockDagInfo,
        2 => RpcMethod::GetBlockCount,
        3 => RpcMethod::GetMempoolEntries,
        4 => RpcMethod::GetCoinSupply,
        5 => RpcMethod::GetFeeEstimate,
        6 => RpcMethod::GetFeeEstimateExperimental,
        7 => RpcMethod::GetConnectedPeerInfo,
        8 => RpcMethod::GetPeerAddresses,
        9 => RpcMethod::GetCurrentNetwork,
        10 => RpcMethod::GetSink,
        11 => RpcMethod::GetSinkBlueScore,
        12 => RpcMethod::GetInfo,
        13 => RpcMethod::GetSyncStatus,
        14 => RpcMethod::GetVirtualChain,
        15 => RpcMethod::GetHeaders,
        16 => RpcMethod::EstimateNetworkHashesPerSecond,
        _ => RpcMethod::Ping,
    }
}

/// The method listed under `name`, if any.
pub open spec fn method_named(name: Seq<char>) -> Option<RpcMethod> {
    let l = spec_rpc_methods();
    if exists|i: int| 0 <= i < l.len() && (#[trigger] l[i]).0@ == name {
        Some(method_at(choose|i: int| 0 <= i < l.len() && (#[trigger] l[i]).0@ == name))
    } else {
        None
    }
}

/// The position in the method list of a listed name, read off its length and
/// the few characters that tell listed names apart.
spec fn listed_position(s: Seq<char>) -> int {
    if s.len() == 4 {
        17
    } else if s.len() == 8 {
        if s[4] == 's' { 10 } else { 12 }
    } else if s.len() == 11 {
        15
    } else if s.len() == 15 {
        if s[4] == 'b' { 2 } else if s[4] == 'c' { 4 } else if s[5] == 'e' { 0 } else { 13 }
    } else if s.len() == 16 {
        5
    } else if s.len() == 17 {
        14
    } else if s.len() == 18 {
        if s[4] == 'b' { 1 } else { 8 }
    } else if s.len() == 19 {
        if s[4] == 'm' { 3 } else if s[4] == 'c' { 9 } else { 11 }
    } else if s.len() == 23 {
        7
    } else if s.len() == 29 {
        6
    } else {
        16
    }
}

proof fn lemma_listed_position(i: int)
    requires
        0 <= i < spec_rpc_methods().len(),
    ensures
        listed_position(spec_rpc_methods()[i].0@) == i,
{
    let l = spec_rpc_methods();
    if i == 0 {
        reveal_strlit("get_server_info");
    } else if i == 1 {
        reveal_strlit("get_block_dag_info");
    } else if i == 2 {
        reveal_strlit("get_block_count");
    } else if i == 3 {
        reveal_strlit("get_mempool_entries");
    } else if i == 4 {
        reveal_strlit("get_coin_supply");
    } else if i == 5 {
        reveal_strlit("get_fee_estimate");
    } else if i == 6 {
        reveal_strlit("get_fee_estimate_experimental");
    } else if i == 7 {
        reveal_strlit("get_connected_peer_info");
    } else if i == 8 {
        reveal_strlit("get_peer_addresses");
    } else if i == 9 {
        reveal_strlit("get_current_network");
    } else if i == 10 {
        reveal_strlit("get_sink");
    } else if i == 11 {
        reveal_strlit("get_sink_blue_score");
    } else if i == 12 {
        reveal_strlit("get_info");
    } else if i == 13 {
        reveal_strlit("get_sync_status");
    } else if i == 14 {
        reveal_strlit("get_virtual_chain");
    } else if i == 15 {
        reveal_strlit("get_headers");
    } else if i == 16 {
        reveal_strlit("estimate_network_hashes_per_second");
    } else {
        reveal_strlit("ping");
    }
}

/// No two listed methods share a name.
proof fn lemma_method_names_distinct()
    ensures
        forall|i: int, j: int|
            0 <= i < j < spec_rpc_methods().len() ==> (#[trigger] spec_rpc_methods()[i]).0@
                != (#[trigger] spec_rpc_methods()[j]).0@,
{
    let l = spec_rpc_methods();
    assert forall|i: int, j: int| 0 <= i < j < l.len() implies (#[trigger] l[i]).0@ != (
    #[trigger] l[j]).0@ by {
        lemma_listed_position(i);
        lemma_listed_position(j);
    }
}

/// The method listed under `name`, if any.
pub fn method_from_name(name: &str) -> (r: Option<RpcMethod>)
    ensures
        r == method_named(name@),
{
    let methods = rpc_methods();
    let mut i: usize = 0;
    while i < methods.len()
        invariant
            methods@ == spec_rpc_methods(),
            i <= methods@.len(),
            forall|j: int| 0 <= j < i ==> (#[trigger] methods@[j]).0@ != name@,
        decreases methods@.len() - i,
    {
        if str_eq(methods[i].0, name) {
            proof {
                lemma_method_names_distinct();
                let l = spec_rpc_methods();
                let k = choose|k: int| 0 <= k < l.len() && (#[trigger] l[k]).0@ == name@;
                if k != i {
                    if k < i {
                        assert(l[k].0@ != l[i as int].0@);
                    } else {
                        assert(l[i as int].0@ != l[k].0@);
                    }
                }
            }
            return Some(method_at_exec(i));
        }
        i = i + 1;
    }
    None
}

/// Every method of the list can be run: its name leads to the method at its
/// position.
pub proof fn law_every_listed_method_runs()
    ensures
        forall|i: int|
            0 <= i < spec_rpc_methods().len() ==> method_named(
                (#[trigger] spec_rpc_methods()[i]).0@,
            ) == Some(method_at(i)),
{
    lemma_method_names_distinct();
    let l = spec_rpc_methods();
    assert forall|i: int| 0 <= i < l.len() implies method_named((#[trigger] l[i]).0@) == Some(
        method_at(i),
    ) by {
        let k = choose|k: int| 0 <= k < l.len() && (#[trigger] l[k]).0@ == l[i].0@;
        if k != i {
            if k < i {
                assert(l[k].0@ != l[i].0@);
            } else {
                assert(l[i].0@ != l[k].0@);
            }
        }
    }
}

/// The message for a name that is neither a command nor a method.
pub open spec fn unknown_command_text(name: Seq<char>) -> Seq<char> {
    "Unknown command: '"@ + name + "'. Type 'help' for available commands."@
}

pub fn unknown_command_message(name: &str) -> (r: String)
    ensures
        r@ == unknown_command_text(name@),
{
    let mut r = String::from_str("Unknown command: '");
    r.append(name);
    r.append("'. Type 'help' for available commands.");
    r
}

/// What a submitted line asks for.
pub enum CommandKind {
    Help,
    Clear,
    /// Run the RPC method named by this word (which may name none).
    Rpc(String),
}

/// The first word of `line` once trimmed: what comes before the first space.
pub open spec fn command_word(line: Seq<char>) -> Seq<char> {
    let t = trim_spec(line);
    t.take(first_index_of(t, ' '))
}

/// The command that `line` names by its first word.
pub fn classify_command(line: &str) -> (r: CommandKind)
    ensures
        ({
            let w = command_word(line@);
            if w == "help"@ {
                r is Help
            } else if w == "clear"@ {
                r is Clear
            } else {
                r matches CommandKind::Rpc(m) && m@ == w
            }
        }),
{
    let t = trim_str(line);
    let n = t.unicode_len();
    let mut i: usize = 0;
    while i < n && t.get_char(i) != ' '
        invariant
            n == t@.len(),
            i <= n,
            forall|k: int| 0 <= k < i ==> t@[k] != ' ',
        decreases n - i,
    {
        i = i + 1;
    }
    proof {
        crate::daemon::lemma_first_index_of_pub(t@, ' ', i as int);
        assert(t@.take(i as int) =~= t@.subrange(0, i as int));
    }
    let word = t.substring_char(0, i);
    if str_eq(word, "help") {
        CommandKind::Help
    } else if str_eq(word, "clear") {
        CommandKind::Clear
    } else {
        CommandKind::Rpc(word.to_owned())
    }
}

/// `s` followed by spaces up to `width` characters.
pub open spec fn pad_right(s: Seq<char>, width: int) -> Seq<char> {
    if s.len() < width {
        s + Seq::new((width - s.len()) as nat, |i: int| ' ')
    } else {
        s
    }
}

/// Each command's name and description, as text: the built-in commands, then
/// every RPC method of the list.
pub open spec fn command_views() -> Seq<(Seq<char>, Seq<char>)> {
    seq![("help"@, "Show this help message"@), ("clear"@, "Clear command output"@)] + Seq::new(
        spec_rpc_methods().len(),
        |i: int| (spec_rpc_methods()[i].0@, spec_rpc_methods()[i].1@),
    )
}

/// Every method that the RPC explorer lists is also a command of the
/// command line, listed after the two built-in commands in the same order.
pub proof fn law_explorer_methods_are_commands()
    ensures
        forall|i: int|
            0 <= i < spec_rpc_methods().len() ==> #[trigger] command_views()[i + 2].0
                == spec_rpc_methods()[i].0@,
        command_views().len() == 2 + spec_rpc_methods().len(),
{
}

/// The help lines of `cmds`, one per command: name padded to 28, description.
pub open spec fn help_lines(cmds: Seq<(Seq<char>, Seq<char>)>) -> Seq<char>
    decreases cmds.len(),
{
    if cmds.len() == 0 {
        Seq::empty()
    } else {
        help_lines(cmds.drop_last()) + "  "@ + pad_right(cmds.last().0, 28) + " "@
            + cmds.last().1 + "\n"@
    }
}

/// The output of `help`.
pub open spec fn help_text_spec() -> Seq<char> {
    "Available commands:\n\n"@ + help_lines(command_views())
        + "\nPress ':' to open command line, Esc to close, Up/Down for history"@
}

/// The output of `help`.
pub fn help_text() -> (r: String)
    ensures
        r@ == help_text_spec(),
{
    let cmds = CommandLine::available_commands();
    let ghost views = Seq::new(cmds@.len(), |j: int| (cmds@[j].0@, cmds@[j].1@));
    proof {
        assert(views =~= command_views()) by {
            reveal_strlit("help");
            reveal_strlit("clear");
            assert forall|j: int| 0 <= j < views.len() implies views[j] == command_views()[j] by {
                if j >= 2 {
                    assert(cmds@[(j - 2) + 2] == cmds@[j]);
                }
            }
        }
    }
    let mut r = String::from_str("Available commands:\n\n");
    let ghost head = r@;
    let mut i: usize = 0;
    while i < cmds.len()
        invariant
            i <= cmds@.len(),
            views == Seq::new(cmds@.len(), |j: int| (cmds@[j].0@, cmds@[j].1@)),
            r@ == head + help_lines(views.take(i as int)),
        decreases cmds@.len() - i,
    {
        let (name, desc) = cmds[i];
        let ghost before = r@;
        r.append("  ");
        r.append(name);
        let width = name.unicode_len();
        let mut k = width;
        while k < 28
            invariant
                width == name@.len(),
                width <= k <= 28 || (k == width && width >= 28),
                r@ == before + "  "@ + name@ + Seq::new((k - width) as nat, |j: int| ' '),
            decreases 28 - k,
        {
            r.push(' ');
            proof {
                assert(r@ =~= before + "  "@ + name@ + Seq::new((k + 1 - width) as nat, |j: int| ' '));
            }
            k = k + 1;
        }
        r.append(" ");
        r.append(desc);
        r.append("\n");
        proof {
            assert(views.take(i + 1).drop_last() =~= views.take(i as int));
            assert(views.take(i + 1).last() == (name@, desc@));
            if width < 28 {
                assert(pad_right(name@, 28) =~= name@ + Seq::new((28 - width) as nat, |j: int| ' '));
            } else {
                assert(Seq::new((k - width) as nat, |j: int| ' ') =~= Seq::<char>::empty());
            }
            assert(r@ =~= head + help_lines(views.take(i + 1)));
        }
        i = i + 1;
    }
    r.append("\nPress ':' to open command line, Esc to close, Up/Down for history");
    proof {
        assert(views.take(i as int) =~= views);
    }
    r
}

/// Runs a submitted line if it names a built-in command: `help` records the
/// help text as the line's output, `clear` empties the output pane and hides
/// it. Any other first word is returned, for the program to run as an RPC
/// method; the command line is then left as it is.
pub fn run_builtin_command(cl: &mut CommandLine, line: &str) -> (r: Option<String>)
    ensures
        ({
            let w = command_word(line@);
            if w == "help"@ {
                &&& r is None
                &&& final(cl)@ == old(cl)@.after_push_output(
                    CommandOutputView { command: line@, result: help_text_spec(), is_error: false },
                )
            } else if w == "clear"@ {
                &&& r is None
                &&& final(cl)@ == (CommandLineView {
                    output: Seq::empty(),
                    show_output: false,
                    ..old(cl)@
                })
            } else {
                &&& r matches Some(m) && m@ == w
                &&& final(cl)@ == old(cl)@
            }
        }),
{
    match classify_command(line) {
        CommandKind::Help => {
            cl.push_output(line.to_owned(), help_text(), false);
            None
        },
        CommandKind::Clear => {
            cl.output.clear();
            cl.show_output = false;
            proof {
                assert(cl@ =~= (CommandLineView { output: Seq::empty(), show_output: false, ..old(cl)@ }));
            }
            None
        },
        CommandKind::Rpc(word) => Some(word),
    }
}

} // verus!
