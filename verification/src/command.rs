//! One entry of the command table and its mathematical model.

use vstd::prelude::*;

verus! {

/// What dispatch and help rendering read of a command: its two flags and its
/// description. The action is left out: it is called, never inspected.
pub struct CommandSpec {
    pub short_flag: char,
    pub long_flag: Seq<char>,
    pub description: Seq<char>,
}

/// One invocable action, reached as `-<short_flag>` or `--<long_flag>`.
///
/// `A` is the handle of the action. The table only stores it; the functions
/// that invoke it ask for `A: Fn()`.
pub struct Command<A> {
    pub short_flag: char,
    pub long_flag: String,
    pub command: A,
    pub description: String,
}

impl<A> View for Command<A> {
    type V = CommandSpec;

    open spec fn view(&self) -> CommandSpec {
        CommandSpec {
            short_flag: self.short_flag,
            long_flag: self.long_flag@,
            description: self.description@,
        }
    }
}

impl<A> Command<A> {
    /// A command from its four parts.
    pub fn new(short_flag: char, long_flag: String, command: A, description: String) -> (c: Self)
        ensures
            c.short_flag == short_flag,
            c.long_flag == long_flag,
            c.command == command,
            c.description == description,
    {
        Command { short_flag, long_flag, command, description }
    }
}

/// The models of a table's commands, in table order.
pub open spec fn specs_of<A>(commands: Seq<Command<A>>) -> Seq<CommandSpec> {
    commands.map_values(|c: Command<A>| c@)
}

} // verus!
