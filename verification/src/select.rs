//! Which command a single argument selects.
//!
//! An argument that begins with `--` is a long form: what follows the two
//! dashes is compared with each long flag. Any other argument that begins with
//! `-` is a short form: what follows the dash is compared with each short flag,
//! taken as a text of one character. The first command of the table that
//! matches is selected.

use vstd::prelude::*;
use vstd::string::*;
use crate::command::{Command, CommandSpec, specs_of};

verus! {

/// `arg` begins with two dashes.
pub open spec fn is_long_form(arg: Seq<char>) -> bool {
    arg.len() >= 2 && arg[0] == '-' && arg[1] == '-'
}

/// `arg` begins with one dash and is no long form.
pub open spec fn is_short_form(arg: Seq<char>) -> bool {
    arg.len() >= 1 && arg[0] == '-' && !is_long_form(arg)
}

/// The argument that names `flag` in long form.
pub open spec fn long_form(flag: Seq<char>) -> Seq<char> {
    seq!['-', '-'] + flag
}

/// The argument that names `flag` in short form.
pub open spec fn short_form(flag: char) -> Seq<char> {
    seq!['-', flag]
}

/// Whether `arg` names command `c`.
pub open spec fn matches(c: CommandSpec, arg: Seq<char>) -> bool {
    if is_long_form(arg) {
        arg.skip(2) == c.long_flag
    } else if is_short_form(arg) {
        arg.skip(1) == seq![c.short_flag]
    } else {
        false
    }
}

/// Command `i` matches `arg` and no earlier command does.
pub open spec fn is_first_match(commands: Seq<CommandSpec>, arg: Seq<char>, i: int) -> bool {
    &&& 0 <= i < commands.len()
    &&& matches(commands[i], arg)
    &&& forall|j: int| 0 <= j < i ==> !matches(#[trigger] commands[j], arg)
}

/// The index of the command that `arg` selects, if any.
pub open spec fn selected(commands: Seq<CommandSpec>, arg: Seq<char>) -> Option<int> {
    if exists|i: int| is_first_match(commands, arg, i) {
        Some(choose|i: int| is_first_match(commands, arg, i))
    } else {
        None
    }
}

/// At most one index is the first match.
pub proof fn lemma_first_match_unique(commands: Seq<CommandSpec>, arg: Seq<char>, i: int, j: int)
    requires
        is_first_match(commands, arg, i),
        is_first_match(commands, arg, j),
    ensures
        i == j,
{
    if i < j {
        assert(!matches(commands[i], arg));
    } else if j < i {
        assert(!matches(commands[j], arg));
    }
}

/// `selected` is `Some(i)` exactly for the first match `i`.
pub proof fn lemma_selected_is_first_match(commands: Seq<CommandSpec>, arg: Seq<char>, i: int)
    ensures
        selected(commands, arg) == Some(i) <==> is_first_match(commands, arg, i),
{
    if is_first_match(commands, arg, i) {
        let k = choose|k: int| is_first_match(commands, arg, k);
        lemma_first_match_unique(commands, arg, i, k);
    }
}

/// `selected` is `None` exactly when no command matches.
pub proof fn lemma_selected_none(commands: Seq<CommandSpec>, arg: Seq<char>)
    ensures
        selected(commands, arg) is None <==> forall|j: int|
            0 <= j < commands.len() ==> !matches(#[trigger] commands[j], arg),
{
    if exists|j: int| 0 <= j < commands.len() && matches(#[trigger] commands[j], arg) {
        let j = choose|j: int| 0 <= j < commands.len() && matches(#[trigger] commands[j], arg);
        lemma_first_match_exists(commands, arg, j);
    }
}

/// Where some command up to `j` matches, there is a first one.
proof fn lemma_first_match_exists(commands: Seq<CommandSpec>, arg: Seq<char>, j: int)
    requires
        0 <= j < commands.len(),
        matches(commands[j], arg),
    ensures
        exists|i: int| is_first_match(commands, arg, i),
    decreases j,
{
    if exists|k: int| 0 <= k < j && matches(#[trigger] commands[k], arg) {
        let k = choose|k: int| 0 <= k < j && matches(#[trigger] commands[k], arg);
        lemma_first_match_exists(commands, arg, k);
    } else {
        assert(is_first_match(commands, arg, j));
    }
}

/// Two commands have the same short flag or the same long flag.
pub open spec fn share_a_flag(a: CommandSpec, b: CommandSpec) -> bool {
    a.short_flag == b.short_flag || a.long_flag == b.long_flag
}

/// No two commands of the table share a short flag or a long flag.
pub open spec fn unique_flags(commands: Seq<CommandSpec>) -> bool {
    forall|i: int, j: int|
        0 <= i < j < commands.len() ==> !share_a_flag(
            #[trigger] commands[i],
            #[trigger] commands[j],
        )
}

/// The long form of a command's long flag selects that command, provided no
/// earlier command of the table has the same long flag.
pub proof fn lemma_long_form_selects_first(commands: Seq<CommandSpec>, i: int)
    requires
        0 <= i < commands.len(),
        forall|j: int| 0 <= j < i ==> (#[trigger] commands[j]).long_flag != commands[i].long_flag,
    ensures
        selected(commands, long_form(commands[i].long_flag)) == Some(i),
{
    let arg = long_form(commands[i].long_flag);
    assert(is_long_form(arg));
    assert(arg.skip(2) =~= commands[i].long_flag);
    assert(is_first_match(commands, arg, i));
    lemma_selected_is_first_match(commands, arg, i);
}

/// The short form of a command's short flag selects that command, provided
/// the flag is no dash and no earlier command of the table has the same short
/// flag. (A dash after a dash reads as a long form.)
pub proof fn lemma_short_form_selects_first(commands: Seq<CommandSpec>, i: int)
    requires
        0 <= i < commands.len(),
        commands[i].short_flag != '-',
        forall|j: int| 0 <= j < i ==> (#[trigger] commands[j]).short_flag != commands[i].short_flag,
    ensures
        selected(commands, short_form(commands[i].short_flag)) == Some(i),
{
    let arg = short_form(commands[i].short_flag);
    assert(is_short_form(arg));
    assert(arg.skip(1) =~= seq![commands[i].short_flag]);
    assert forall|j: int| 0 <= j < i implies !matches(#[trigger] commands[j], arg) by {
        assert(seq![commands[j].short_flag][0] != arg.skip(1)[0]);
    }
    assert(is_first_match(commands, arg, i));
    lemma_selected_is_first_match(commands, arg, i);
}

/// In a table with unique flags, the long form of any command's long flag
/// selects that command and no other.
pub proof fn lemma_long_form_selects(commands: Seq<CommandSpec>, i: int)
    requires
        unique_flags(commands),
        0 <= i < commands.len(),
    ensures
        selected(commands, long_form(commands[i].long_flag)) == Some(i),
{
    lemma_long_form_selects_first(commands, i);
}

/// In a table with unique flags, the short form of any command's short flag
/// selects that command and no other, unless the flag is a dash.
pub proof fn lemma_short_form_selects(commands: Seq<CommandSpec>, i: int)
    requires
        unique_flags(commands),
        0 <= i < commands.len(),
        commands[i].short_flag != '-',
    ensures
        selected(commands, short_form(commands[i].short_flag)) == Some(i),
{
    lemma_short_form_selects_first(commands, i);
}

/// Where several commands share a flag, the forms of that flag select the
/// earliest of them: whatever is selected, no command before it matches.
pub proof fn lemma_selected_is_earliest(commands: Seq<CommandSpec>, arg: Seq<char>, j: int)
    requires
        0 <= j < commands.len(),
        matches(commands[j], arg),
    ensures
        selected(commands, arg) matches Some(i) && i <= j && matches(commands[i], arg),
{
    lemma_selected_none(commands, arg);
    let i = selected(commands, arg)->0;
    lemma_selected_is_first_match(commands, arg, i);
}

/// An argument that is neither the long form of a long flag of the table nor
/// the short form of a short flag of the table selects nothing.
pub proof fn lemma_unnamed_selects_nothing(commands: Seq<CommandSpec>, arg: Seq<char>)
    requires
        forall|j: int|
            0 <= j < commands.len() ==> {
                &&& arg != long_form((#[trigger] commands[j]).long_flag)
                &&& arg != short_form(commands[j].short_flag)
            },
    ensures
        selected(commands, arg) is None,
{
    assert forall|j: int| 0 <= j < commands.len() implies !matches(#[trigger] commands[j], arg) by {
        if is_long_form(arg) {
            assert(arg =~= long_form(arg.skip(2)));
        } else if is_short_form(arg) {
            if arg.skip(1) == seq![commands[j].short_flag] {
                assert(arg.skip(1).len() == 1);
                assert(arg.skip(1)[0] == commands[j].short_flag);
                assert(arg =~= short_form(commands[j].short_flag));
            }
        }
    }
    lemma_selected_none(commands, arg);
}

/// The index that an executable search found, as a mathematical integer.
pub open spec fn as_index(found: Option<usize>) -> Option<int> {
    match found {
        Some(i) => Some(i as int),
        None => None,
    }
}

/// Finds the command that `arg` selects: the first one in table order whose
/// long flag follows `--` in `arg`, or, where `arg` has a single dash, whose
/// short flag is all that follows it.
pub fn find<A>(commands: &Vec<Command<A>>, arg: &str) -> (found: Option<usize>)
    ensures
        as_index(found) == selected(specs_of(commands@), arg@),
{
    let n = arg.unicode_len();
    let ghost table = specs_of(commands@);
    if n >= 2 && arg.get_char(0) == '-' && arg.get_char(1) == '-' {
        let rest = arg.substring_char(2, n).to_owned();
        assert(rest@ == arg@.skip(2));
        let mut i: usize = 0;
        while i < commands.len()
            invariant
                i <= commands.len(),
                table == specs_of(commands@),
                is_long_form(arg@),
                rest@ == arg@.skip(2),
                forall|j: int| 0 <= j < i ==> !matches(#[trigger] table[j], arg@),
            decreases commands.len() - i,
        {
            if commands[i].long_flag == rest {
                proof {
                    assert(is_first_match(table, arg@, i as int));
                    lemma_selected_is_first_match(table, arg@, i as int);
                }
                return Some(i);
            }
            i += 1;
        }
        proof {
            lemma_selected_none(table, arg@);
        }
        None
    } else if n == 2 && arg.get_char(0) == '-' {
        let flag = arg.get_char(1);
        assert(arg@.skip(1) =~= seq![flag]);
        let mut i: usize = 0;
        while i < commands.len()
            invariant
                i <= commands.len(),
                table == specs_of(commands@),
                is_short_form(arg@),
                arg@.skip(1) == seq![flag],
                forall|j: int| 0 <= j < i ==> !matches(#[trigger] table[j], arg@),
            decreases commands.len() - i,
        {
            if commands[i].short_flag == flag {
                proof {
                    assert(is_first_match(table, arg@, i as int));
                    lemma_selected_is_first_match(table, arg@, i as int);
                }
                return Some(i);
            }
            assert(seq![table[i as int].short_flag][0] != seq![flag][0]);
            i += 1;
        }
        proof {
            lemma_selected_none(table, arg@);
        }
        None
    } else {
        proof {
            assert forall|j: int| 0 <= j < table.len() implies !matches(#[trigger] table[j], arg@) by {
                if is_short_form(arg@) {
                    assert(arg@.skip(1).len() != seq![table[j].short_flag].len());
                }
            }
            lemma_selected_none(table, arg@);
        }
        None
    }
}

/// Whether the table is free of duplicate flags. Dispatch does not need it:
/// among commands that share a flag the first one is selected. A program
/// that would rather refuse such a table tests it with this.
pub fn has_unique_flags<A>(commands: &Vec<Command<A>>) -> (unique: bool)
    ensures
        unique == unique_flags(specs_of(commands@)),
{
    let ghost table = specs_of(commands@);
    let mut j: usize = 0;
    while j < commands.len()
        invariant
            j <= commands.len(),
            table == specs_of(commands@),
            forall|a: int, b: int|
                0 <= a < b < j ==> !share_a_flag(#[trigger] table[a], #[trigger] table[b]),
        decreases commands.len() - j,
    {
        let mut i: usize = 0;
        while i < j
            invariant
                i <= j < commands.len(),
                table == specs_of(commands@),
                forall|a: int| 0 <= a < i ==> !share_a_flag(#[trigger] table[a], table[j as int]),
            decreases j - i,
        {
            if commands[i].short_flag == commands[j].short_flag || commands[i].long_flag
                == commands[j].long_flag {
                assert(share_a_flag(table[i as int], table[j as int]));
                return false;
            }
            i += 1;
        }
        j += 1;
    }
    true
}

} // verus!
