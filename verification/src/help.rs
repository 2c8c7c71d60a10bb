//! The help listing: a header line, then one line for each command, in table
//! order.

use vstd::prelude::*;
use vstd::string::*;
use crate::command::{Command, CommandSpec, specs_of};

verus! {

/// The first line of every help listing.
pub open spec fn help_header() -> Seq<char> {
    "Help:\n"@
}

/// The line that lists command `c`: a tab, a space, the short form, a comma,
/// the long form, a colon, the description, and a line feed.
pub open spec fn help_line(c: CommandSpec) -> Seq<char> {
    "\t -"@ + seq![c.short_flag] + ", --"@ + c.long_flag + ": "@ + c.description + "\n"@
}

/// The whole listing for a table: the header, then the lines of its commands
/// one after another. Nothing is sorted, left out or merged.
pub open spec fn help_text(commands: Seq<CommandSpec>) -> Seq<char> {
    help_header() + commands.map_values(|c: CommandSpec| help_line(c)).flatten()
}

/// How many line feeds `text` holds, which is the number of its lines where
/// it ends in one.
pub open spec fn line_feeds(text: Seq<char>) -> nat
    decreases text.len(),
{
    if text.len() == 0 {
        0
    } else {
        line_feeds(text.drop_last()) + if text.last() == '\n' {
            1nat
        } else {
            0nat
        }
    }
}

/// Neither flag of `c` nor its description holds a line feed.
pub open spec fn on_one_line(c: CommandSpec) -> bool {
    &&& c.short_flag != '\n'
    &&& line_feeds(c.long_flag) == 0
    &&& line_feeds(c.description) == 0
}

/// The line feeds of two texts joined are those of the one and of the other.
pub proof fn lemma_line_feeds_add(a: Seq<char>, b: Seq<char>)
    ensures
        line_feeds(a + b) == line_feeds(a) + line_feeds(b),
    decreases b.len(),
{
    if b.len() == 0 {
        assert(a + b =~= a);
    } else {
        assert((a + b).drop_last() =~= a + b.drop_last());
        lemma_line_feeds_add(a, b.drop_last());
    }
}

/// The line feeds of a text of one character.
proof fn lemma_line_feeds_one(c: char)
    ensures
        line_feeds(seq![c]) == if c == '\n' { 1nat } else { 0nat },
{
    assert(seq![c].drop_last() =~= Seq::<char>::empty());
    assert(line_feeds(Seq::<char>::empty()) == 0);
}

/// The header is one line.
proof fn lemma_header_is_one_line()
    ensures
        line_feeds(help_header()) == 1,
{
    reveal_strlit("Help:\n");
    let h = help_header();
    assert(h =~= seq!['H'] + seq!['e'] + seq!['l'] + seq!['p'] + seq![':'] + seq!['\n']);
    lemma_line_feeds_one('H');
    lemma_line_feeds_one('e');
    lemma_line_feeds_one('l');
    lemma_line_feeds_one('p');
    lemma_line_feeds_one(':');
    lemma_line_feeds_one('\n');
    lemma_line_feeds_add(seq!['H'], seq!['e']);
    lemma_line_feeds_add(seq!['H'] + seq!['e'], seq!['l']);
    lemma_line_feeds_add(seq!['H'] + seq!['e'] + seq!['l'], seq!['p']);
    lemma_line_feeds_add(seq!['H'] + seq!['e'] + seq!['l'] + seq!['p'], seq![':']);
    lemma_line_feeds_add(seq!['H'] + seq!['e'] + seq!['l'] + seq!['p'] + seq![':'], seq!['\n']);
}

/// The line of a command that lies on one line is one line.
pub proof fn lemma_help_line_is_one_line(c: CommandSpec)
    requires
        on_one_line(c),
    ensures
        line_feeds(help_line(c)) == 1,
{
    reveal_strlit("\t -");
    reveal_strlit(", --");
    reveal_strlit(": ");
    reveal_strlit("\n");
    let lead = "\t -"@;
    let comma = ", --"@;
    let colon = ": "@;
    let feed = "\n"@;
    assert(lead =~= seq!['\t'] + seq![' '] + seq!['-']);
    assert(comma =~= seq![','] + seq![' '] + seq!['-'] + seq!['-']);
    assert(colon =~= seq![':'] + seq![' ']);
    assert(feed =~= seq!['\n']);
    lemma_line_feeds_one('\t');
    lemma_line_feeds_one(' ');
    lemma_line_feeds_one('-');
    lemma_line_feeds_one(',');
    lemma_line_feeds_one(':');
    lemma_line_feeds_one('\n');
    lemma_line_feeds_one(c.short_flag);
    lemma_line_feeds_add(seq!['\t'], seq![' ']);
    lemma_line_feeds_add(seq!['\t'] + seq![' '], seq!['-']);
    lemma_line_feeds_add(seq![','], seq![' ']);
    lemma_line_feeds_add(seq![','] + seq![' '], seq!['-']);
    lemma_line_feeds_add(seq![','] + seq![' '] + seq!['-'], seq!['-']);
    lemma_line_feeds_add(seq![':'], seq![' ']);
    lemma_line_feeds_add(lead, seq![c.short_flag]);
    lemma_line_feeds_add(lead + seq![c.short_flag], comma);
    lemma_line_feeds_add(lead + seq![c.short_flag] + comma, c.long_flag);
    lemma_line_feeds_add(lead + seq![c.short_flag] + comma + c.long_flag, colon);
    lemma_line_feeds_add(lead + seq![c.short_flag] + comma + c.long_flag + colon, c.description);
    lemma_line_feeds_add(
        lead + seq![c.short_flag] + comma + c.long_flag + colon + c.description,
        feed,
    );
}

/// The help listing of a table whose commands each lie on one line has one
/// line more than the table has commands.
pub proof fn lemma_help_line_count(commands: Seq<CommandSpec>)
    requires
        forall|i: int| 0 <= i < commands.len() ==> on_one_line(#[trigger] commands[i]),
    ensures
        line_feeds(help_text(commands)) == 1 + commands.len(),
    decreases commands.len(),
{
    let lines = commands.map_values(|c: CommandSpec| help_line(c));
    lemma_header_is_one_line();
    lemma_line_feeds_add(help_header(), lines.flatten());
    if commands.len() == 0 {
        assert(lines =~= Seq::<Seq<char>>::empty());
        assert(lines.flatten() =~= Seq::<char>::empty());
    } else {
        let front = commands.drop_last();
        let front_lines = front.map_values(|c: CommandSpec| help_line(c));
        assert(lines =~= front_lines.push(help_line(commands.last())));
        front_lines.lemma_flatten_push(help_line(commands.last()));
        assert forall|i: int| 0 <= i < front.len() implies on_one_line(#[trigger] front[i]) by {
            assert(front[i] == commands[i]);
        }
        lemma_help_line_count(front);
        lemma_line_feeds_add(help_header(), front_lines.flatten());
        lemma_help_line_is_one_line(commands.last());
        lemma_line_feeds_add(front_lines.flatten(), help_line(commands.last()));
    }
}

/// Appends one character to a string.
///
/// Stands for `String::push` of the standard library, which is documented to
/// append the given `char` to the end of the string: the text afterwards is
/// the text before with `c` added as its last character.
#[verifier::external_body]
fn push_char(s: &mut String, c: char)
    ensures
        final(s)@ == old(s)@.push(c),
{
    s.push(c);
}

/// Appends the help line of `c` to `out`.
pub fn push_help_line<A>(out: &mut String, c: &Command<A>)
    ensures
        final(out)@ == old(out)@ + help_line(c@),
{
    out.append("\t -");
    push_char(out, c.short_flag);
    out.append(", --");
    out.append(c.long_flag.as_str());
    out.append(": ");
    out.append(c.description.as_str());
    out.append("\n");
    assert(out@ =~= old(out)@ + help_line(c@));
}

/// Renders the help listing of a table.
pub fn render_help<A>(commands: &Vec<Command<A>>) -> (out: String)
    ensures
        out@ == help_text(specs_of(commands@)),
{
    let mut out = String::from_str("Help:\n");
    let ghost lines = specs_of(commands@).map_values(|c: CommandSpec| help_line(c));
    let mut i: usize = 0;
    assert(lines.take(0) =~= Seq::<Seq<char>>::empty());
    while i < commands.len()
        invariant
            i <= commands.len(),
            lines == specs_of(commands@).map_values(|c: CommandSpec| help_line(c)),
            out@ == help_header() + lines.take(i as int).flatten(),
        decreases commands.len() - i,
    {
        push_help_line(&mut out, &commands[i]);
        proof {
            let before = lines.take(i as int);
            assert(lines.take(i + 1) =~= before.push(help_line(commands[i as int]@)));
            before.lemma_flatten_push(help_line(commands[i as int]@));
            assert(out@ =~= help_header() + lines.take(i + 1).flatten());
        }
        i += 1;
    }
    assert(lines.take(i as int) =~= lines);
    out
}

} // verus!
