//! The interactive console's decisions: which command a typed line names,
//! and the status a telemetry tick reports.

use vstd::prelude::*;
use crate::text::{
    all_space, chars_of, lemma_lower_idempotent, lemma_trim_ignores_padding,
    lemma_trim_lower_commute, lower, same_text, trim, trim_lower,
};

verus! {

/// A console command.
#[derive(Clone, Copy, Debug, PartialEq, Eq, Structural)]
pub enum Command {
    /// Run a sample neural inference (also what an empty line means).
    Run,
    /// Run an agent battle simulation.
    Battle,
    /// Inspect the memory graph.
    Memory,
    /// Start the HTTP API server.
    Api,
    /// Stream live telemetry.
    Telemetry,
    /// Show the menu.
    Help,
    /// Leave the console.
    Quit,
    /// Anything else.
    Unknown,
}

/// The command that a trimmed, lowercased line names.
pub open spec fn command_for(t: Seq<char>) -> Command {
    if t.len() == 0 || t == "run"@ || t == "r"@ || t == "demo"@ || t == "d"@ {
        Command::Run
    } else if t == "battle"@ || t == "b"@ {
        Command::Battle
    } else if t == "memory"@ || t == "m"@ {
        Command::Memory
    } else if t == "api"@ || t == "a"@ {
        Command::Api
    } else if t == "telemetry"@ || t == "t"@ {
        Command::Telemetry
    } else if t == "help"@ || t == "h"@ {
        Command::Help
    } else if t == "quit"@ || t == "q"@ || t == "exit"@ || t == "e"@ {
        Command::Quit
    } else {
        Command::Unknown
    }
}

/// The command that a typed line names: surrounding whitespace is ignored,
/// ASCII letters match in either case, and an empty line means `run`.
pub fn parse_command(input: &str) -> (c: Command)
    ensures
        c == command_for(lower(trim(input@))),
{
    let t = trim_lower(&chars_of(input));
    if t.len() == 0 || same_text(&t, "run") || same_text(&t, "r") || same_text(&t, "demo")
        || same_text(&t, "d") {
        Command::Run
    } else if same_text(&t, "battle") || same_text(&t, "b") {
        Command::Battle
    } else if same_text(&t, "memory") || same_text(&t, "m") {
        Command::Memory
    } else if same_text(&t, "api") || same_text(&t, "a") {
        Command::Api
    } else if same_text(&t, "telemetry") || same_text(&t, "t") {
        Command::Telemetry
    } else if same_text(&t, "help") || same_text(&t, "h") {
        Command::Help
    } else if same_text(&t, "quit") || same_text(&t, "q") || same_text(&t, "exit") || same_text(
        &t,
        "e",
    ) {
        Command::Quit
    } else {
        Command::Unknown
    }
}

/// Exactly the aliases of the console's menu name commands: an empty line and
/// `run`, `r`, `demo`, `d` run the demo; `battle`/`b`, `memory`/`m`,
/// `api`/`a`, `telemetry`/`t`, `help`/`h` name their commands; `quit`, `q`,
/// `exit`, `e` leave; every other line is unknown.
pub proof fn lemma_only_aliases_name_commands(t: Seq<char>)
    ensures
        command_for(t) == Command::Run <==> (t.len() == 0 || t == "run"@ || t == "r"@ || t
            == "demo"@ || t == "d"@),
        command_for(t) == Command::Battle <==> (t == "battle"@ || t == "b"@),
        command_for(t) == Command::Memory <==> (t == "memory"@ || t == "m"@),
        command_for(t) == Command::Api <==> (t == "api"@ || t == "a"@),
        command_for(t) == Command::Telemetry <==> (t == "telemetry"@ || t == "t"@),
        command_for(t) == Command::Help <==> (t == "help"@ || t == "h"@),
        command_for(t) == Command::Quit <==> (t == "quit"@ || t == "q"@ || t == "exit"@ || t
            == "e"@),
{
    reveal_strlit("run");
    assert("run"@.len() == 3 && "run"@[0] == 'r');
    reveal_strlit("r");
    assert("r"@.len() == 1 && "r"@[0] == 'r');
    reveal_strlit("demo");
    assert("demo"@.len() == 4 && "demo"@[0] == 'd');
    reveal_strlit("d");
    assert("d"@.len() == 1 && "d"@[0] == 'd');
    reveal_strlit("battle");
    assert("battle"@.len() == 6 && "battle"@[0] == 'b');
    reveal_strlit("b");
    assert("b"@.len() == 1 && "b"@[0] == 'b');
    reveal_strlit("memory");
    assert("memory"@.len() == 6 && "memory"@[0] == 'm');
    reveal_strlit("m");
    assert("m"@.len() == 1 && "m"@[0] == 'm');
    reveal_strlit("api");
    assert("api"@.len() == 3 && "api"@[0] == 'a');
    reveal_strlit("a");
    assert("a"@.len() == 1 && "a"@[0] == 'a');
    reveal_strlit("telemetry");
    assert("telemetry"@.len() == 9 && "telemetry"@[0] == 't');
    reveal_strlit("t");
    assert("t"@.len() == 1 && "t"@[0] == 't');
    reveal_strlit("help");
    assert("help"@.len() == 4 && "help"@[0] == 'h');
    reveal_strlit("h");
    assert("h"@.len() == 1 && "h"@[0] == 'h');
    reveal_strlit("quit");
    assert("quit"@.len() == 4 && "quit"@[0] == 'q');
    reveal_strlit("q");
    assert("q"@.len() == 1 && "q"@[0] == 'q');
    reveal_strlit("exit");
    assert("exit"@.len() == 4 && "exit"@[0] == 'e');
    reveal_strlit("e");
    assert("e"@.len() == 1 && "e"@[0] == 'e');
}

/// The telemetry status alternates with the tick's parity: `stabilizing`
/// exactly on even ticks, `rehearsing` exactly on odd ones, so consecutive
/// ticks never share a status.
pub proof fn lemma_status_alternates(tick: nat)
    ensures
        status_for(tick) == "stabilizing"@ <==> tick % 2 == 0,
        status_for(tick) == "rehearsing"@ <==> tick % 2 == 1,
        status_for(tick + 1) != status_for(tick),
        status_for(0) == "stabilizing"@,
{
    reveal_strlit("stabilizing");
    reveal_strlit("rehearsing");
    assert("stabilizing"@.len() != "rehearsing"@.len());
}

/// Whitespace typed around a command does not change the command.
pub proof fn lemma_command_ignores_padding(pre: Seq<char>, line: Seq<char>, post: Seq<char>)
    requires
        all_space(pre),
        all_space(post),
    ensures
        command_for(lower(trim(pre + line + post))) == command_for(lower(trim(line))),
{
    lemma_trim_ignores_padding(pre, line, post);
}

/// A line names the same command as its ASCII lowercase form.
pub proof fn lemma_command_ignores_case(line: Seq<char>)
    ensures
        command_for(lower(trim(lower(line)))) == command_for(lower(trim(line))),
{
    lemma_trim_lower_commute(line);
    lemma_lower_idempotent(trim(line));
}

/// The status text of a telemetry tick.
pub open spec fn status_for(tick: nat) -> Seq<char> {
    if tick % 2 == 0 {
        "stabilizing"@
    } else {
        "rehearsing"@
    }
}

/// The status a telemetry snapshot reports at `tick`: even ticks are
/// stabilizing, odd ticks rehearsing.
pub fn telemetry_status(tick: usize) -> (s: &'static str)
    ensures
        s@ == status_for(tick as nat),
{
    if tick % 2 == 0 {
        "stabilizing"
    } else {
        "rehearsing"
    }
}

} // verus!
