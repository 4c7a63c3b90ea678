//! The console commands the running server understands.
use vstd::prelude::*;

use crate::text::{chars_of, has_prefix, same_chars, starts_with, substring};

verus! {

/// Reloads one page file; the rest of the line is its path.
pub const RELOAD_PREFIX: &'static str = "reload ";

/// Reloads every page file.
pub const REFRESH_COMMAND: &'static str = "refresh";

/// Shuts the server down.
pub const EXIT_COMMAND: &'static str = "exit";

/// A console command.
pub enum Command {
    /// Reload the page of the file at this path.
    Reload(String),
    /// Reload all pages from disk.
    Refresh,
    /// Shut the server down.
    Exit,
    /// Anything else.
    Unknown,
}

/// `command` is what the console line `line` asks for.
pub open spec fn parses_as(line: Seq<char>, command: Command) -> bool {
    if has_prefix(line, RELOAD_PREFIX@) {
        command matches Command::Reload(path) && path@ == line.subrange(
            RELOAD_PREFIX@.len() as int,
            line.len() as int,
        )
    } else if line == REFRESH_COMMAND@ {
        command is Refresh
    } else if line == EXIT_COMMAND@ {
        command is Exit
    } else {
        command is Unknown
    }
}

/// A line that starts with `reload ` asks to reload the file whose path is the
/// whole rest of the line, spaces included; no other line asks for a reload.
pub proof fn law_reload_path_is_rest_of_line(line: Seq<char>, command: Command)
    requires
        parses_as(line, command),
    ensures
        has_prefix(line, RELOAD_PREFIX@) ==> (command matches Command::Reload(path)
            && RELOAD_PREFIX@ + path@ == line),
        command is Reload ==> has_prefix(line, RELOAD_PREFIX@),
{
    if has_prefix(line, RELOAD_PREFIX@) {
        if let Command::Reload(path) = command {
            assert(line =~= RELOAD_PREFIX@ + path@);
        }
    }
}

/// The command on the console line `line` (its line ending already removed):
/// `reload <path>`, `refresh`, `exit`, or anything else.
pub fn parse_command(line: &str) -> (command: Command)
    ensures
        parses_as(line@, command),
{
    let l = chars_of(line);
    let prefix = chars_of(RELOAD_PREFIX);
    if starts_with(&l, &prefix) {
        Command::Reload(substring(line, prefix.len(), l.len()))
    } else if same_chars(&l, &chars_of(REFRESH_COMMAND)) {
        Command::Refresh
    } else if same_chars(&l, &chars_of(EXIT_COMMAND)) {
        Command::Exit
    } else {
        Command::Unknown
    }
}

} // verus!
