//! Slash-command lines: parsing "/name argument" out of one line of text,
//! the trigger test used while typing, and the registry of known commands
//! that completion draws from. Positions count characters within the line.

use vstd::prelude::*;

verus! {

use vstd::pervasive::VecAdditionalExecFns;
use vstd::string::{StrSliceExecFns, StringExecFns};
use crate::text::str_eq;
use crate::text::{
    alphabetic_char,
    is_alphabetic_char,
    is_whitespace_char,
    whitespace_char,
    LineRange,
};

/// A slash command found on one line: where its name stands, and where its
/// argument stands once the name has been closed off by whitespace.
#[derive(Clone, Copy, PartialEq, Eq, Structural, Debug)]
pub struct SlashCommandLine {
    /// The range within the line containing the command name.
    pub name: LineRange,
    /// The range within the line containing the command argument.
    pub argument: Option<LineRange>,
}

/// The scanner's state after reading a prefix of the line: no slash seen
/// yet, a command being collected, or the line rejected for good.
pub enum ScanState {
    NoCommand,
    Command { name_start: int, name_end: int, argument: Option<(int, int)> },
    Rejected,
}

/// One step of the line grammar, reading the character at position `pos`.
/// Only whitespace may precede the slash; the name must begin with a letter
/// and runs to the first whitespace; the argument begins at the first
/// non-whitespace character after the name and runs to the end of the
/// line, trailing whitespace included.
pub open spec fn scan_step(st: ScanState, c: char, pos: int) -> ScanState {
    match st {
        ScanState::Rejected => ScanState::Rejected,
        ScanState::NoCommand => {
            if c == '/' {
                ScanState::Command { name_start: pos + 1, name_end: pos + 1, argument: None }
            } else if whitespace_char(c) {
                ScanState::NoCommand
            } else {
                ScanState::Rejected
            }
        },
        ScanState::Command { name_start, name_end, argument } => match argument {
            Some((a_start, a_end)) => {
                if a_start == a_end && whitespace_char(c) {
                    ScanState::Command { name_start, name_end, argument: Some((pos + 1, pos + 1)) }
                } else {
                    ScanState::Command { name_start, name_end, argument: Some((a_start, pos + 1)) }
                }
            },
            None => {
                if name_end > name_start {
                    if whitespace_char(c) {
                        ScanState::Command {
                            name_start,
                            name_end,
                            argument: Some((pos + 1, pos + 1)),
                        }
                    } else {
                        ScanState::Command { name_start, name_end: pos + 1, argument: None }
                    }
                } else {
                    if alphabetic_char(c) {
                        ScanState::Command { name_start, name_end: pos + 1, argument: None }
                    } else {
                        ScanState::Rejected
                    }
                }
            },
        },
    }
}

/// The scanner's state after the first `n` characters of `s`.
pub open spec fn scan_line(s: Seq<char>, n: int) -> ScanState
    decreases n,
{
    if n <= 0 {
        ScanState::NoCommand
    } else {
        scan_step(scan_line(s, n - 1), s[n - 1], n - 1)
    }
}

/// A rejected prefix rejects every longer prefix.
proof fn lemma_scan_stays_rejected(s: Seq<char>, a: int, b: int)
    requires
        scan_line(s, a) is Rejected,
        a <= b,
    ensures
        scan_line(s, b) is Rejected,
    decreases b - a,
{
    if a < b {
        lemma_scan_stays_rejected(s, a, b - 1);
    }
}

impl SlashCommandLine {
    /// Reads one line and finds the slash command on it, if the line is
    /// one: optional whitespace, a slash, a name beginning with a letter,
    /// and optionally whitespace followed by an argument.
    pub fn parse(line: &str) -> (r: Option<SlashCommandLine>)
        ensures
            match scan_line(line@, line@.len() as int) {
                ScanState::Command { name_start, name_end, argument } => {
                    &&& r matches Some(cmd)
                    &&& cmd.name.start == name_start
                    &&& cmd.name.end == name_end
                    &&& cmd.name.start <= cmd.name.end <= line@.len()
                    &&& match argument {
                        Some((a_start, a_end)) => {
                            &&& cmd.argument matches Some(a)
                            &&& a.start == a_start
                            &&& a.end == a_end
                            &&& a.start <= a.end <= line@.len()
                        },
                        None => cmd.argument is None,
                    }
                },
                _ => r is None,
            },
    {
        let n = line.unicode_len();
        let mut call: Option<SlashCommandLine> = None;
        let mut i: usize = 0;
        while i < n
            invariant
                i <= n,
                n == line@.len(),
                match call {
                    None => scan_line(line@, i as int) is NoCommand,
                    Some(cmd) => {
                        &&& scan_line(line@, i as int) matches ScanState::Command {
                            name_start,
                            name_end,
                            argument,
                        }
                        &&& cmd.name.start == name_start
                        &&& cmd.name.end == name_end
                        &&& cmd.name.start <= cmd.name.end <= i
                        &&& match argument {
                            Some((a_start, a_end)) => {
                                &&& cmd.argument matches Some(a)
                                &&& a.start == a_start
                                &&& a.end == a_end
                                &&& a.start <= a.end <= i
                            },
                            None => cmd.argument is None,
                        }
                    },
                },
            decreases n - i,
        {
            let c = line.get_char(i);
            let next = i + 1;
            match call {
                Some(cmd) => match cmd.argument {
                    // The command arguments start at the first
                    // non-whitespace character after the command name, and
                    // continue until the end of the line.
                    Some(arg) => {
                        let new_arg = if arg.start == arg.end && is_whitespace_char(c) {
                            LineRange { start: next, end: next }
                        } else {
                            LineRange { start: arg.start, end: next }
                        };
                        call = Some(SlashCommandLine { name: cmd.name, argument: Some(new_arg) });
                    },
                    None => {
                        // The command name ends at the first whitespace.
                        if cmd.name.end > cmd.name.start {
                            if is_whitespace_char(c) {
                                call = Some(
                                    SlashCommandLine {
                                        name: cmd.name,
                                        argument: Some(LineRange { start: next, end: next }),
                                    },
                                );
                            } else {
                                call = Some(
                                    SlashCommandLine {
                                        name: LineRange { start: cmd.name.start, end: next },
                                        argument: None,
                                    },
                                );
                            }
                        } else {
                            // The command name must begin with a letter.
                            if is_alphabetic_char(c) {
                                call = Some(
                                    SlashCommandLine {
                                        name: LineRange { start: cmd.name.start, end: next },
                                        argument: None,
                                    },
                                );
                            } else {
                                proof {
                                    lemma_scan_stays_rejected(line@, i as int + 1, n as int);
                                }
                                return None;
                            }
                        }
                    },
                },
                None => {
                    // Commands start with a slash; the line can't contain
                    // anything before the slash except for whitespace.
                    if c == '/' {
                        call = Some(
                            SlashCommandLine {
                                name: LineRange { start: next, end: next },
                                argument: None,
                            },
                        );
                    } else if !is_whitespace_char(c) {
                        proof {
                            lemma_scan_stays_rejected(line@, i as int + 1, n as int);
                        }
                        return None;
                    }
                },
            }
            i = next;
        }
        call
    }
}

/// Whether typing at the end of `line` should offer slash-command
/// completions: exactly when the line parses as a slash command.
pub fn is_completion_trigger(line: &str) -> (r: bool)
    ensures
        r == (scan_line(line@, line@.len() as int) is Command),
{
    match SlashCommandLine::parse(line) {
        Some(_) => true,
        None => false,
    }
}

/// What completion a line asks for: names while the caret is still in the
/// command name, the command's own argument values once the name is closed.
pub enum CompletionQuery {
    CommandName { name: String, name_range: LineRange },
    CommandArgument { name: String, argument: String, argument_range: LineRange },
}

/// Decides what to complete at the end of `line`, handing back the typed
/// name (and argument, when one has started) as text.
pub fn completion_query(line: &str) -> (r: Option<CompletionQuery>)
    ensures
        match scan_line(line@, line@.len() as int) {
            ScanState::Command { name_start, name_end, argument } => match argument {
                None => {
                    &&& r matches Some(CompletionQuery::CommandName { name, name_range })
                    &&& name@ == line@.subrange(name_start, name_end)
                    &&& name_range.start == name_start
                    &&& name_range.end == name_end
                },
                Some((a_start, a_end)) => {
                    &&& r matches Some(
                        CompletionQuery::CommandArgument { name, argument, argument_range },
                    )
                    &&& name@ == line@.subrange(name_start, name_end)
                    &&& argument@ == line@.subrange(a_start, a_end)
                    &&& argument_range.start == a_start
                    &&& argument_range.end == a_end
                },
            },
            _ => r is None,
        },
{
    match SlashCommandLine::parse(line) {
        None => None,
        Some(cmd) => {
            let name = line.substring_char(cmd.name.start, cmd.name.end).to_owned();
            match cmd.argument {
                Some(arg) => {
                    let argument = line.substring_char(arg.start, arg.end).to_owned();
                    Some(CompletionQuery::CommandArgument { name, argument, argument_range: arg })
                },
                None => Some(CompletionQuery::CommandName { name, name_range: cmd.name }),
            }
        },
    }
}

/// What the registry knows of one slash command: its name, the description
/// shown beside completions, and whether it takes an argument.
pub struct SlashCommandDescriptor {
    pub name: String,
    pub description: String,
    pub requires_argument: bool,
}

/// The command registered under `name`: first entry carrying it, scanning
/// from the front (a well-formed registry has at most one).
pub open spec fn command_of(
    cmds: Seq<SlashCommandDescriptor>,
    name: Seq<char>,
) -> Option<SlashCommandDescriptor>
    decreases cmds.len(),
{
    if cmds.len() == 0 {
        None
    } else if cmds[0].name@ == name {
        Some(cmds[0])
    } else {
        command_of(cmds.drop_first(), name)
    }
}

/// No two registered commands share a name.
pub open spec fn distinct_command_names(cmds: Seq<SlashCommandDescriptor>) -> bool {
    forall|i: int, j: int| 0 <= i < j < cmds.len() ==> cmds[i].name@ != cmds[j].name@
}

/// A prefix free of `name` does not change the lookup.
proof fn lemma_command_of_skip(cmds: Seq<SlashCommandDescriptor>, name: Seq<char>, i: int)
    requires
        0 <= i <= cmds.len(),
        forall|j: int| 0 <= j < i ==> cmds[j].name@ != name,
    ensures
        command_of(cmds, name) == command_of(cmds.skip(i), name),
    decreases i,
{
    if i > 0 {
        lemma_command_of_skip(cmds, name, i - 1);
        assert(cmds.skip(i - 1)[0] == cmds[i - 1]);
        assert(cmds.skip(i - 1).drop_first() =~= cmds.skip(i));
    } else {
        assert(cmds.skip(0) =~= cmds);
    }
}

/// A name resolves to nothing exactly when no entry carries it.
proof fn lemma_command_of_absent(cmds: Seq<SlashCommandDescriptor>, name: Seq<char>)
    ensures
        (command_of(cmds, name) is None) <==> (forall|j: int|
            0 <= j < cmds.len() ==> cmds[j].name@ != name),
    decreases cmds.len(),
{
    if cmds.len() > 0 {
        lemma_command_of_absent(cmds.drop_first(), name);
        if command_of(cmds, name) is None {
            assert forall|j: int| 0 <= j < cmds.len() implies cmds[j].name@ != name by {
                if j >= 1 {
                    assert(cmds.drop_first()[j - 1] == cmds[j]);
                }
            }
        }
        if forall|j: int| 0 <= j < cmds.len() ==> cmds[j].name@ != name {
            assert forall|j: int|
                0 <= j < cmds.drop_first().len() implies cmds.drop_first()[j].name@ != name by {
                assert(cmds.drop_first()[j] == cmds[j + 1]);
            }
        }
    }
}

/// Appending an entry only adds a binding for a name that had none.
proof fn lemma_command_of_push(
    cmds: Seq<SlashCommandDescriptor>,
    d: SlashCommandDescriptor,
    name: Seq<char>,
)
    ensures
        command_of(cmds.push(d), name) == (if command_of(cmds, name) is Some {
            command_of(cmds, name)
        } else if d.name@ == name {
            Some(d)
        } else {
            None
        }),
    decreases cmds.len(),
{
    let post = cmds.push(d);
    if cmds.len() == 0 {
        assert(post[0] == d);
        if d.name@ != name {
            assert(post.drop_first() =~= Seq::<SlashCommandDescriptor>::empty());
        }
    } else {
        assert(post[0] == cmds[0]);
        if cmds[0].name@ != name {
            assert(post.drop_first() =~= cmds.drop_first().push(d));
            lemma_command_of_push(cmds.drop_first(), d, name);
        }
    }
}

/// Replacing an entry in place rebinds its name and nothing else.
proof fn lemma_command_of_update(
    cmds: Seq<SlashCommandDescriptor>,
    i: int,
    d: SlashCommandDescriptor,
    name: Seq<char>,
)
    requires
        0 <= i < cmds.len(),
        d.name@ == cmds[i].name@,
        distinct_command_names(cmds),
    ensures
        command_of(cmds.update(i, d), name) == (if cmds[i].name@ == name {
            Some(d)
        } else {
            command_of(cmds, name)
        }),
    decreases cmds.len(),
{
    let post = cmds.update(i, d);
    if i == 0 {
        assert(post[0] == d);
        if cmds[0].name@ != name {
            assert(post.drop_first() =~= cmds.drop_first());
        }
    } else {
        assert(post[0] == cmds[0]);
        if cmds[0].name@ != name {
            assert(post.drop_first() =~= cmds.drop_first().update(i - 1, d));
            assert(forall|a: int, b: int|
                0 <= a < b < cmds.drop_first().len() ==> #[trigger] cmds.drop_first()[a].name@
                    != #[trigger] cmds.drop_first()[b].name@);
            lemma_command_of_update(cmds.drop_first(), i - 1, d, name);
        }
    }
}

/// The registry of slash commands, keyed by command name: registering a
/// name already present replaces its entry.
pub struct SlashCommandRegistry {
    commands: Vec<SlashCommandDescriptor>,
}

impl SlashCommandRegistry {
    /// The registered commands, in registration order.
    pub closed spec fn descriptors(&self) -> Seq<SlashCommandDescriptor> {
        self.commands@
    }

    /// One entry per name.
    pub open spec fn wf(&self) -> bool {
        distinct_command_names(self.descriptors())
    }

    /// An empty registry.
    pub fn new() -> (r: SlashCommandRegistry)
        ensures
            r.wf(),
            r.descriptors() =~= Seq::<SlashCommandDescriptor>::empty(),
    {
        SlashCommandRegistry { commands: Vec::new() }
    }

    /// The position of `name` in the registry, if it is bound.
    fn find_command(&self, name: &str) -> (r: Option<usize>)
        ensures
            match r {
                Some(i) => {
                    &&& i < self.descriptors().len()
                    &&& self.descriptors()[i as int].name@ == name@
                    &&& command_of(self.descriptors(), name@) == Some(
                        self.descriptors()[i as int],
                    )
                },
                None => command_of(self.descriptors(), name@) is None,
            },
    {
        let mut i: usize = 0;
        while i < self.commands.len()
            invariant
                i <= self.commands.len(),
                forall|j: int| 0 <= j < i ==> self.commands@[j].name@ != name@,
            decreases self.commands.len() - i,
        {
            if str_eq(self.commands[i].name.as_str(), name) {
                proof {
                    lemma_command_of_skip(self.commands@, name@, i as int);
                    assert(self.commands@.skip(i as int)[0] == self.commands@[i as int]);
                }
                return Some(i);
            }
            i += 1;
        }
        proof {
            lemma_command_of_skip(self.commands@, name@, self.commands@.len() as int);
        }
        None
    }

    /// Registers `command` under its own name, replacing any entry that
    /// name already had and leaving every other name's binding alone.
    pub fn register_command(&mut self, command: SlashCommandDescriptor)
        requires
            old(self).wf(),
        ensures
            final(self).wf(),
            command_of(final(self).descriptors(), command.name@) == Some(command),
            forall|n: Seq<char>|
                n != command.name@ ==> command_of(final(self).descriptors(), n) == command_of(
                    old(self).descriptors(),
                    n,
                ),
    {
        let ghost pre = self.commands@;
        match self.find_command(command.name.as_str()) {
            Some(i) => {
                proof {
                    lemma_command_of_update(pre, i as int, command, command.name@);
                    assert forall|n: Seq<char>| n != command.name@ implies command_of(
                        pre.update(i as int, command),
                        n,
                    ) == command_of(pre, n) by {
                        lemma_command_of_update(pre, i as int, command, n);
                    }
                }
                self.commands.set(i, command);
            },
            None => {
                proof {
                    lemma_command_of_absent(pre, command.name@);
                    lemma_command_of_push(pre, command, command.name@);
                    assert forall|n: Seq<char>| n != command.name@ implies command_of(
                        pre.push(command),
                        n,
                    ) == command_of(pre, n) by {
                        lemma_command_of_push(pre, command, n);
                    }
                }
                self.commands.push(command);
            },
        }
    }

    /// Looks a command up by name.
    pub fn command(&self, name: &str) -> (r: Option<&SlashCommandDescriptor>)
        ensures
            match r {
                Some(d) => command_of(self.descriptors(), name@) == Some(*d),
                None => command_of(self.descriptors(), name@) is None,
            },
    {
        match self.find_command(name) {
            Some(i) => Some(&self.commands[i]),
            None => None,
        }
    }

    /// The registered command names, in registration order.
    pub fn command_names(&self) -> (r: Vec<String>)
        ensures
            r@.len() == self.descriptors().len(),
            forall|i: int| 0 <= i < r@.len() ==> r@[i]@ == self.descriptors()[i].name@,
    {
        let mut r: Vec<String> = Vec::new();
        let mut i: usize = 0;
        while i < self.commands.len()
            invariant
                i <= self.commands.len(),
                r@.len() == i,
                forall|j: int| 0 <= j < i ==> r@[j]@ == self.commands@[j].name@,
            decreases self.commands.len() - i,
        {
            r.push(self.commands[i].name.clone());
            i += 1;
        }
        r
    }
}

/// The completion entries for a list of matched names: for each matched
/// name the registry still knows, the text to insert and the description
/// to show, in match order. Names the registry dropped meanwhile yield
/// nothing.
pub open spec fn name_completions_of(
    cmds: Seq<SlashCommandDescriptor>,
    matched: Seq<String>,
) -> Seq<(Seq<char>, Seq<char>)>
    decreases matched.len(),
{
    if matched.len() == 0 {
        Seq::empty()
    } else {
        let rest = name_completions_of(cmds, matched.drop_last());
        match command_of(cmds, matched.last()@) {
            Some(d) => rest.push(
                (
                    if d.requires_argument {
                        d.name@.push(' ')
                    } else {
                        d.name@
                    },
                    d.description@,
                ),
            ),
            None => rest,
        }
    }
}

/// Builds the completion entries offered for the external matcher's ranked
/// name matches: each entry is the inserted text and the description.
pub fn name_completions(registry: &SlashCommandRegistry, matched: &Vec<String>) -> (r: Vec<
    (String, String),
>)
    ensures
        r@.len() == name_completions_of(registry.descriptors(), matched@).len(),
        forall|k: int|
            0 <= k < r@.len() ==> r@[k].0@ == name_completions_of(
                registry.descriptors(),
                matched@,
            )[k].0 && r@[k].1@ == name_completions_of(registry.descriptors(), matched@)[k].1,
{
    let mut r: Vec<(String, String)> = Vec::new();
    let mut i: usize = 0;
    while i < matched.len()
        invariant
            i <= matched@.len(),
            r@.len() == name_completions_of(registry.descriptors(), matched@.take(i as int)).len(),
            forall|k: int|
                0 <= k < r@.len() ==> r@[k].0@ == name_completions_of(
                    registry.descriptors(),
                    matched@.take(i as int),
                )[k].0 && r@[k].1@ == name_completions_of(
                    registry.descriptors(),
                    matched@.take(i as int),
                )[k].1,
        decreases matched@.len() - i,
    {
        proof {
            assert(matched@.take(i as int + 1).drop_last() =~= matched@.take(i as int));
            assert(matched@.take(i as int + 1).last() == matched@[i as int]);
        }
        match registry.command(matched[i].as_str()) {
            Some(d) => {
                let new_text = completion_new_text(d);
                r.push((new_text, d.description.clone()));
            },
            None => (),
        }
        i += 1;
    }
    proof {
        assert(matched@.take(matched@.len() as int) =~= matched@);
    }
    r
}

/// The text a completion inserts for `command`: the name itself, plus a
/// trailing space when the command still wants an argument typed.
pub fn completion_new_text(command: &SlashCommandDescriptor) -> (r: String)
    ensures
        command.requires_argument ==> r@ == command.name@.push(' '),
        !command.requires_argument ==> r@ == command.name@,
{
    let mut s = command.name.clone();
    if command.requires_argument {
        s.append(" ");
        proof {
            reveal_strlit(" ");
            assert(s@ =~= command.name@.push(' '));
        }
    }
    s
}

} // verus!
