//! The commands that the arguments of the command line stand for.

use crate::text::str_eq;
use vstd::prelude::*;

verus! {

/// One command of the command line.
#[derive(Debug, PartialEq, Eq)]
pub enum ArgCommand {
    /// Compile the program in the named file.
    Run(String),
    /// Print the version.
    Version,
}

/// What a command is, with strings as character sequences.
pub enum ArgCommandView {
    Run(Seq<char>),
    Version,
}

impl DeepView for ArgCommand {
    type V = ArgCommandView;

    open spec fn deep_view(&self) -> ArgCommandView {
        match self {
            ArgCommand::Run(file) => ArgCommandView::Run(file@),
            ArgCommand::Version => ArgCommandView::Version,
        }
    }
}

impl View for ArgCommand {
    type V = ArgCommandView;

    open spec fn view(&self) -> ArgCommandView {
        self.deep_view()
    }
}

/// Whether two commands are of the same kind, whatever they hold.
pub open spec fn same_kind(a: ArgCommandView, b: ArgCommandView) -> bool {
    (a is Run) == (b is Run)
}

/// Whether a command of the kind of `cmd` stands among `commands`.
pub open spec fn has_kind(commands: Seq<ArgCommandView>, cmd: ArgCommandView) -> bool {
    exists|i: int| 0 <= i < commands.len() && same_kind(#[trigger] commands[i], cmd)
}

/// The commands `commands` with `cmd` added at the end, unless one of
/// its kind is there already.
pub open spec fn with_command(commands: Seq<ArgCommandView>, cmd: ArgCommandView) -> Seq<
    ArgCommandView,
> {
    if has_kind(commands, cmd) {
        commands
    } else {
        commands.push(cmd)
    }
}

/// The command that one argument stands for: `--version` and `-v` ask
/// for the version, anything else names a file to compile.
pub open spec fn arg_command(arg: Seq<char>) -> ArgCommandView {
    if arg == "--version"@ || arg == "-v"@ {
        ArgCommandView::Version
    } else {
        ArgCommandView::Run(arg)
    }
}

/// The commands that the arguments `args` stand for, in their order,
/// each kind once: of two commands of a kind the first one counts.
pub open spec fn commands_of(args: Seq<Seq<char>>) -> Seq<ArgCommandView>
    decreases args.len(),
{
    if args.len() == 0 {
        Seq::empty()
    } else {
        with_command(commands_of(args.drop_last()), arg_command(args.last()))
    }
}

/// The commands read so far, with a note of the kinds among them.
pub struct ArgsParse {
    commands: Vec<ArgCommand>,
    has_run: bool,
    has_version: bool,
}

impl ArgsParse {
    /// The commands read so far.
    pub closed spec fn commands(&self) -> Seq<ArgCommandView> {
        self.commands.deep_view()
    }

    /// Whether the notes of the kinds agree with the commands.
    pub closed spec fn wf(&self) -> bool {
        &&& self.has_run == has_kind(self.commands(), ArgCommandView::Run(Seq::empty()))
        &&& self.has_version == has_kind(self.commands(), ArgCommandView::Version)
    }

    /// No command yet.
    pub fn new() -> (result: Self)
        ensures
            result.wf(),
            result.commands() == Seq::<ArgCommandView>::empty(),
    {
        Self { commands: Vec::new(), has_run: false, has_version: false }
    }

    /// Adds `cmd` unless a command of its kind was added before, and
    /// says whether it was added.
    pub fn add(&mut self, cmd: ArgCommand) -> (added: bool)
        requires
            old(self).wf(),
        ensures
            final(self).wf(),
            final(self).commands() == with_command(old(self).commands(), cmd@),
            added == !has_kind(old(self).commands(), cmd@),
    {
        let ghost before = self.commands();
        let is_run: bool = match &cmd {
            ArgCommand::Run(_) => true,
            ArgCommand::Version => false,
        };
        if (is_run && self.has_run) || (!is_run && self.has_version) {
            return false;
        }
        let ghost view = cmd@;
        self.commands.push(cmd);
        if is_run {
            self.has_run = true;
        } else {
            self.has_version = true;
        }
        proof {
            let after = self.commands();
            assert(after =~= before.push(view));
            assert(same_kind(after[after.len() - 1], view));
            assert forall|probe: ArgCommandView| !same_kind(probe, view) implies has_kind(
                after,
                probe,
            ) == has_kind(before, probe) by {
                if has_kind(before, probe) {
                    let i = choose|i: int|
                        0 <= i < before.len() && same_kind(#[trigger] before[i], probe);
                    assert(same_kind(after[i], probe));
                }
            }
        }
        true
    }

    /// Hands out the commands.
    pub fn complete(self) -> (commands: Vec<ArgCommand>)
        ensures
            commands.deep_view() == self.commands(),
    {
        self.commands
    }
}

/// Reads the arguments of the command line, the first of which names
/// the program itself and is passed over.
pub fn get_env_arg_cmds(args: &Vec<String>) -> (commands: Vec<ArgCommand>)
    ensures
        commands.deep_view() == commands_of(
            if args.len() > 0 {
                args.deep_view().skip(1)
            } else {
                Seq::empty()
            },
        ),
{
    let mut parse = ArgsParse::new();
    if args.len() == 0 {
        return parse.complete();
    }
    let ghost rest = args.deep_view().skip(1);
    let mut i: usize = 1;
    while i < args.len()
        invariant
            1 <= i <= args.len(),
            rest == args.deep_view().skip(1),
            parse.wf(),
            parse.commands() == commands_of(rest.take(i - 1)),
        decreases args.len() - i,
    {
        let arg = &args[i];
        assert(rest.take(i as int).drop_last() =~= rest.take(i - 1));
        if str_eq(arg.as_str(), "--version") || str_eq(arg.as_str(), "-v") {
            parse.add(ArgCommand::Version);
        } else {
            parse.add(ArgCommand::Run(arg.clone()));
        }
        i += 1;
    }
    assert(rest.take(args.len() - 1) =~= rest);
    parse.complete()
}

} // verus!
