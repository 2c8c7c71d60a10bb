//! The entry-point policy: what a program does with its argument list.
//!
//! The first element of the list is the name the program was started under
//! and is never looked at. With nothing after it the default action runs, or
//! the built-in help where there is none. With exactly one argument after it
//! that argument is dispatched. With more the program says so and shows the
//! help.

use vstd::prelude::*;
use vstd::string::*;
use crate::command::{Command, CommandSpec, specs_of};
use crate::runtime::{Runtime, RuntimeSpec};
use crate::select::{
    lemma_long_form_selects_first, lemma_selected_is_first_match, lemma_short_form_selects_first,
    long_form, selected, short_form,
};

verus! {

/// What the entry point does for one argument list.
#[derive(Clone, Copy, Debug, PartialEq, Eq, Structural)]
pub enum Step {
    /// Invoke the default action.
    RunDefault,
    /// Show the help listing and end with success.
    ShowHelp,
    /// Print the notice of too many arguments, then show the help listing and
    /// end with success.
    TooMany,
    /// Invoke the action of the command with this index.
    RunCommand(usize),
    /// The one argument selects no command: do nothing.
    Nothing,
}

/// The step that the policy gives for a runtime and an argument list. The
/// index of a selected command is below the table's length, which in a
/// runtime fits a `usize`.
pub open spec fn planned(rt: RuntimeSpec, args: Seq<Seq<char>>) -> Step {
    if args.len() <= 1 {
        if rt.has_default {
            Step::RunDefault
        } else {
            Step::ShowHelp
        }
    } else if args.len() > 2 {
        Step::TooMany
    } else {
        match selected(rt.commands, args[1]) {
            Some(i) => Step::RunCommand(i as usize),
            None => Step::Nothing,
        }
    }
}

/// The texts of an argument list.
pub open spec fn texts_of(args: Seq<String>) -> Seq<Seq<char>> {
    args.map_values(|s: String| s@)
}

/// The notice printed where more than one argument follows the program's name.
pub fn too_many_notice() -> (notice: &'static str)
    ensures
        notice@ == "Too many arguments!"@,
{
    "Too many arguments!"
}

/// The line of the version action: the program's name, the word `version`,
/// the version, the word `by` and the author, with single spaces between.
pub fn version_text(name: &str, version: &str, author: &str) -> (out: String)
    ensures
        out@ == name@ + " version "@ + version@ + " by "@ + author@,
{
    let mut out = String::from_str(name);
    out.append(" version ");
    out.append(version);
    out.append(" by ");
    out.append(author);
    out
}

/// The built-in command that shows the help listing.
pub open spec fn help_entry() -> CommandSpec {
    CommandSpec {
        short_flag: 'h',
        long_flag: "help"@,
        description: "Explains available commands."@,
    }
}

/// The built-in command that shows the version line.
pub open spec fn version_entry() -> CommandSpec {
    CommandSpec {
        short_flag: 'v',
        long_flag: "version"@,
        description: "Outputs tool version."@,
    }
}

/// The table of a whole program: the built-in help command, the built-in
/// version command, then the declared commands in their order. `help` and
/// `version` are the actions of the two built-ins.
pub fn with_builtins<A>(help: A, version: A, declared: Vec<Command<A>>) -> (table: Vec<Command<A>>)
    ensures
        table@.len() == declared@.len() + 2,
        table@[0]@ == help_entry(),
        table@[0].command == help,
        table@[1]@ == version_entry(),
        table@[1].command == version,
        forall|i: int| 0 <= i < declared@.len() ==> table@[i + 2] == declared@[i],
        specs_of(table@) == seq![help_entry(), version_entry()] + specs_of(declared@),
{
    let ghost given = declared@;
    let mut declared = declared;
    let mut table: Vec<Command<A>> = Vec::new();
    table.push(
        Command::new(
            'h',
            String::from_str("help"),
            help,
            String::from_str("Explains available commands."),
        ),
    );
    table.push(
        Command::new(
            'v',
            String::from_str("version"),
            version,
            String::from_str("Outputs tool version."),
        ),
    );
    table.append(&mut declared);
    assert(specs_of(table@) =~= seq![help_entry(), version_entry()] + specs_of(given));
    table
}

/// In a table that begins with the two built-ins, their flags select them
/// whatever is declared after them: no declared command takes their place.
pub proof fn lemma_builtins_are_selected(table: Seq<CommandSpec>)
    requires
        table.len() >= 2,
        table[0] == help_entry(),
        table[1] == version_entry(),
    ensures
        selected(table, "--help"@) == Some(0int),
        selected(table, "-h"@) == Some(0int),
        selected(table, "--version"@) == Some(1int),
        selected(table, "-v"@) == Some(1int),
{
    reveal_strlit("help");
    reveal_strlit("version");
    reveal_strlit("--help");
    reveal_strlit("-h");
    reveal_strlit("--version");
    reveal_strlit("-v");
    assert(long_form("help"@) =~= "--help"@);
    assert(long_form("version"@) =~= "--version"@);
    assert(short_form('h') =~= "-h"@);
    assert(short_form('v') =~= "-v"@);
    assert("help"@.len() != "version"@.len());
    lemma_long_form_selects_first(table, 0);
    lemma_long_form_selects_first(table, 1);
    lemma_short_form_selects_first(table, 0);
    lemma_short_form_selects_first(table, 1);
}

impl<A> Runtime<A> {
    /// Decides what to do for the argument list `args`, whose first element
    /// is the program's name. Nothing is invoked.
    pub fn plan(&self, args: &Vec<String>) -> (step: Step)
        ensures
            step == planned(self@, texts_of(args@)),
    {
        if args.len() <= 1 {
            if self.default_command.is_some() {
                Step::RunDefault
            } else {
                Step::ShowHelp
            }
        } else if args.len() > 2 {
            Step::TooMany
        } else {
            match self.resolve(args[1].as_str()) {
                Some(i) => Step::RunCommand(i),
                None => Step::Nothing,
            }
        }
    }
}

impl<A: Fn()> Runtime<A> {
    /// The default action may be called.
    pub open spec fn default_callable(&self) -> bool {
        self.default_command matches Some(f) ==> call_requires(f, ())
    }

    /// The default action has run to its end.
    pub open spec fn default_invoked(&self) -> bool {
        self.default_command matches Some(f) && call_ensures(f, (), ())
    }

    /// Carries out the entry-point policy for `args` as far as the runtime's
    /// own actions go: it invokes the default action or the selected command,
    /// and no other action. The step is returned, so that the caller prints
    /// what `ShowHelp` and `TooMany` ask for.
    pub fn dispatch(&self, args: &Vec<String>) -> (step: Step)
        requires
            planned(self@, texts_of(args@)) == Step::RunDefault ==> self.default_callable(),
            planned(self@, texts_of(args@)) matches Step::RunCommand(i) ==> self.callable(i as int),
        ensures
            step == planned(self@, texts_of(args@)),
            step == Step::RunDefault ==> self.default_invoked(),
            step matches Step::RunCommand(i) ==> self.invoked(i as int),
    {
        let step = self.plan(args);
        match step {
            Step::RunDefault => {
                match &self.default_command {
                    Some(f) => f(),
                    None => {},
                }
            },
            Step::RunCommand(i) => {
                proof {
                    let arg = texts_of(args@)[1];
                    let k = selected(self@.commands, arg)->0;
                    lemma_selected_is_first_match(self@.commands, arg, k);
                }
                (self.commands[i].command)();
            },
            _ => {},
        }
        step
    }
}

} // verus!
