//! What the commands of the command line lead to.

use crate::args::{ArgCommand, ArgCommandView};
use crate::base::{NAME, VERSION};
use vstd::prelude::*;

verus! {

/// The line that tells the version.
pub open spec fn version_line() -> Seq<char> {
    NAME@ + " Version: v"@ + VERSION@
}

/// The line that tells the version.
pub fn cmd_version() -> (line: String)
    ensures
        line@ == version_line(),
{
    let mut line = String::from_str(NAME);
    line.append(" Version: v");
    line.append(VERSION);
    line
}

/// Handles a command that needs no program: gives the line to print
/// for it. The one such command asks for the version.
pub fn cmd_handle_cmd(cmd_arg: &ArgCommand) -> (handled: Option<String>)
    ensures
        match handled {
            Some(line) => cmd_arg@ is Version && line@ == version_line(),
            None => cmd_arg@ is Run,
        },
{
    if let ArgCommand::Version = cmd_arg {
        return Some(cmd_version());
    }
    None
}

/// What the commands of one call ask for.
#[derive(Debug, PartialEq, Eq)]
pub struct Dispatch {
    /// The lines to print, in order.
    pub lines: Vec<String>,
    /// The file to compile, if one was named.
    pub run: Option<String>,
}

/// The lines to print for `commands`: the version for each command that
/// asks for it.
pub open spec fn lines_of(commands: Seq<ArgCommandView>) -> Seq<Seq<char>>
    decreases commands.len(),
{
    if commands.len() == 0 {
        Seq::empty()
    } else if commands.last() is Version {
        lines_of(commands.drop_last()).push(version_line())
    } else {
        lines_of(commands.drop_last())
    }
}

/// The file to compile for `commands`: the one that the last command to
/// name a file names.
pub open spec fn file_of(commands: Seq<ArgCommandView>) -> Option<Seq<char>>
    decreases commands.len(),
{
    if commands.len() == 0 {
        None
    } else {
        match commands.last() {
            ArgCommandView::Run(file) => Some(file),
            ArgCommandView::Version => file_of(commands.drop_last()),
        }
    }
}

/// The line printed where the command line names nothing to do.
pub open spec fn usage_line() -> Seq<char> {
    "No Ktnack file specified!"@
}

/// Decides what there is to do for `commands`. Without any command
/// there is one line to print, which says so. Else each command that
/// needs no program gives its line, and a command that names a file asks
/// for it to be compiled.
pub fn dispatch(commands: &Vec<ArgCommand>) -> (result: Dispatch)
    ensures
        commands.len() == 0 ==> result.lines.deep_view() == seq![usage_line()] && result.run
            is None,
        commands.len() > 0 ==> result.lines.deep_view() == lines_of(commands.deep_view()) && (
        match result.run {
            Some(file) => file_of(commands.deep_view()) == Some(file@),
            None => file_of(commands.deep_view()) is None,
        }),
{
    let mut lines: Vec<String> = Vec::new();
    let mut run: Option<String> = None;
    if commands.len() == 0 {
        lines.push(String::from_str("No Ktnack file specified!"));
        return Dispatch { lines: lines, run: run };
    }
    let ghost all = commands.deep_view();
    let mut i: usize = 0;
    while i < commands.len()
        invariant
            i <= commands.len(),
            all == commands.deep_view(),
            lines.deep_view() == lines_of(all.take(i as int)),
            match run {
                Some(file) => file_of(all.take(i as int)) == Some(file@),
                None => file_of(all.take(i as int)) is None,
            },
        decreases commands.len() - i,
    {
        assert(all.take(i + 1).drop_last() =~= all.take(i as int));
        match cmd_handle_cmd(&commands[i]) {
            Some(line) => {
                lines.push(line);
            },
            None => {
                if let ArgCommand::Run(file_name) = &commands[i] {
                    run = Some(file_name.clone());
                }
            },
        }
        i += 1;
    }
    assert(all.take(commands.len() as int) =~= all);
    Dispatch { lines: lines, run: run }
}

/// The line printed where the file to compile does not exist.
pub fn not_found_line(file_name: &str) -> (line: String)
    ensures
        line@ == "Ktnack file not found: "@ + file_name@,
{
    let mut line = String::from_str("Ktnack file not found: ");
    line.append(file_name);
    line
}

} // verus!
