//! The runtime: the command table and the optional default action.

use vstd::prelude::*;
use vstd::string::*;
use crate::command::{Command, CommandSpec, specs_of};
use crate::help::{help_text, render_help};
use crate::select::{
    as_index, find, has_unique_flags, lemma_selected_is_first_match, selected, unique_flags,
};

verus! {

/// What the contracts read of a runtime: the models of its commands, in table
/// order, and whether it has a default action.
pub struct RuntimeSpec {
    pub commands: Seq<CommandSpec>,
    pub has_default: bool,
}

/// An ordered table of commands and an optional default action. It is built
/// once and only read afterwards.
pub struct Runtime<A> {
    pub commands: Vec<Command<A>>,
    pub default_command: Option<A>,
}

impl<A> View for Runtime<A> {
    type V = RuntimeSpec;

    open spec fn view(&self) -> RuntimeSpec {
        RuntimeSpec {
            commands: specs_of(self.commands@),
            has_default: self.default_command is Some,
        }
    }
}

impl<A> Runtime<A> {
    /// A runtime over `commands`, kept in the order given. Flags are not
    /// checked for duplicates: every table is accepted.
    pub fn new(commands: Vec<Command<A>>, default_command: Option<A>) -> (rt: Self)
        ensures
            rt.commands == commands,
            rt.default_command == default_command,
    {
        Runtime { commands, default_command }
    }

    /// The index of the command that `arg` selects, without invoking it.
    pub fn resolve(&self, arg: &str) -> (found: Option<usize>)
        ensures
            as_index(found) == selected(self@.commands, arg@),
    {
        find(&self.commands, arg)
    }

    /// Whether no two commands of the table share a short or a long flag.
    pub fn has_unique_flags(&self) -> (unique: bool)
        ensures
            unique == unique_flags(self@.commands),
    {
        has_unique_flags(&self.commands)
    }

    /// The help listing of the table. It only reads the table, so two calls
    /// give the same text.
    pub fn gen_help(&self) -> (out: String)
        ensures
            out@ == help_text(self@.commands),
    {
        render_help(&self.commands)
    }
}

impl<A: Fn()> Runtime<A> {
    /// The action of command `i` may be called.
    pub open spec fn callable(&self, i: int) -> bool {
        call_requires(self.commands[i].command, ())
    }

    /// The action of command `i` has run to its end.
    pub open spec fn invoked(&self, i: int) -> bool {
        call_ensures(self.commands[i].command, (), ())
    }

    /// Invokes the action of the command that `arg` selects and of no other,
    /// and returns that command's index. Where `arg` selects no command,
    /// nothing is invoked and `None` is returned.
    pub fn invoke(&self, arg: &str) -> (ran: Option<usize>)
        requires
            selected(self@.commands, arg@) matches Some(i) ==> self.callable(i),
        ensures
            as_index(ran) == selected(self@.commands, arg@),
            ran matches Some(i) ==> self.invoked(i as int),
    {
        let found = self.resolve(arg);
        if let Some(i) = found {
            assert(0 <= i < self.commands.len()) by {
                lemma_selected_is_first_match(self@.commands, arg@, i as int);
            }
            (self.commands[i].command)();
        }
        found
    }

    /// Dispatches one argument: the action of the command that `arg` selects
    /// is invoked. Where `arg` selects no command, nothing happens, and the
    /// caller is not told.
    pub fn run(&self, arg: String)
        requires
            selected(self@.commands, arg@) matches Some(i) ==> self.callable(i),
        ensures
            selected(self@.commands, arg@) matches Some(i) ==> self.invoked(i),
    {
        let ran = self.invoke(arg.as_str());
    }
}

} // verus!
