//! Command branding: a compile-time table renaming or hiding commands.
//!
//! The table is written as a comma-separated list of entries, each
//! `name` or `name=custom name`; empty entries are skipped, and anything
//! after a second `=` in an entry is ignored.  With a non-empty table,
//! commands not in it are hidden and those in it go by their custom
//! name; with an empty table, nothing is hidden and every command keeps
//! its own name.

use vstd::prelude::*;
use vstd::string::StrSliceExecFns;
use vstd::string::StringExecFns;

use crate::address::find_char;
use crate::address::lemma_find_char_at;
use crate::address::lemma_find_char_none;
use crate::address::lemma_find_char_props;

verus! {

/// One branding entry: a command and the name it goes by.
pub struct Command {
    name: String,
    custom_name: String,
}

/// Mathematical model of a [`Command`].
pub struct CommandView {
    pub name: Seq<char>,
    pub custom_name: Seq<char>,
}

impl View for Command {
    type V = CommandView;

    closed spec fn view(&self) -> CommandView {
        CommandView { name: self.name@, custom_name: self.custom_name@ }
    }
}

/// What one non-empty entry of the table means: the text before the
/// first `=` names the command; the text between the first and second
/// `=` (or the rest) is its custom name; an entry without `=` keeps the
/// command's own name.
pub open spec fn parsed_command(piece: Seq<char>) -> CommandView {
    match find_char(piece, '=') {
        None => CommandView { name: piece, custom_name: piece },
        Some(j) => {
            let name = piece.subrange(0, j);
            let rest = piece.subrange(j + 1, piece.len() as int);
            let custom = match find_char(rest, '=') {
                None => rest,
                Some(k) => rest.subrange(0, k),
            };
            CommandView { name, custom_name: custom }
        },
    }
}

/// The entries of a branding table: pieces between commas, empty pieces
/// skipped, each read as one entry.
pub open spec fn parsed_commands(s: Seq<char>) -> Seq<CommandView>
    decreases s.len() via parsed_commands_dec
{
    match find_char(s, ',') {
        None => if s.len() == 0 {
            Seq::empty()
        } else {
            seq![parsed_command(s)]
        },
        Some(j) => {
            let rest = parsed_commands(s.subrange(j + 1, s.len() as int));
            if j == 0 {
                rest
            } else {
                seq![parsed_command(s.subrange(0, j))] + rest
            }
        },
    }
}

#[via_fn]
proof fn parsed_commands_dec(s: Seq<char>) {
    lemma_find_char_props(s, ',');
}

/// True when the table has an entry for `name`.
pub open spec fn has_command(cmds: Seq<CommandView>, name: Seq<char>) -> bool {
    exists|k: int| 0 <= k < cmds.len() && (#[trigger] cmds[k]).name == name
}

/// The first entry for `name`, if any.
pub open spec fn find_command(cmds: Seq<CommandView>, name: Seq<char>) -> Option<CommandView>
    decreases cmds.len(),
{
    if cmds.len() == 0 {
        None
    } else if cmds[0].name == name {
        Some(cmds[0])
    } else {
        find_command(cmds.drop_first(), name)
    }
}

/// The branding table in force.
pub struct Commands {
    commands: Vec<Command>,
}

impl View for Commands {
    type V = Seq<CommandView>;

    closed spec fn view(&self) -> Seq<CommandView> {
        Seq::new(self.commands@.len(), |i: int| self.commands@[i]@)
    }
}

/// Read the entry `[pos, end)` of `s` as one branding entry.
fn parse_entry(s: &str, pos: usize, end: usize) -> (r: Command)
    requires
        pos < end <= s@.len(),
    ensures
        r@ == parsed_command(s@.subrange(pos as int, end as int)),
{
    let ghost piece = s@.subrange(pos as int, end as int);
    // First '=' in [pos, end).
    let mut i: usize = pos;
    let mut eq1: Option<usize> = None;
    while i < end
        invariant_except_break
            eq1 is None,
        invariant
            pos <= i <= end <= s@.len(),
            forall|k: int| pos <= k < i ==> s@[k] != '=',
        ensures
            match eq1 {
                Some(j) => pos <= j < end && s@[j as int] == '='
                    && forall|k: int| pos <= k < j ==> s@[k] != '=',
                None => forall|k: int| pos <= k < end ==> s@[k] != '=',
            },
        decreases end - i,
    {
        if s.get_char(i) == '=' {
            eq1 = Some(i);
            break;
        }
        i += 1;
    }
    proof {
        assert(forall|k: int| 0 <= k < piece.len() ==> piece[k] == s@[k + pos]);
    }
    match eq1 {
        None => {
            proof {
                lemma_find_char_none(piece, '=');
            }
            let text = s.substring_char(pos, end);
            Command { name: String::from_str(text), custom_name: String::from_str(text) }
        },
        Some(j) => {
            proof {
                lemma_find_char_at(piece, '=', j - pos);
            }
            // Second '=' in (j, end).
            let mut i2: usize = j + 1;
            let mut eq2: Option<usize> = None;
            while i2 < end
                invariant_except_break
                    eq2 is None,
                invariant
                    j + 1 <= i2 <= end <= s@.len(),
                    forall|k: int| j + 1 <= k < i2 ==> s@[k] != '=',
                ensures
                    match eq2 {
                        Some(j2) => j + 1 <= j2 < end && s@[j2 as int] == '='
                            && forall|k: int| j + 1 <= k < j2 ==> s@[k] != '=',
                        None => forall|k: int| j + 1 <= k < end ==> s@[k] != '=',
                    },
                decreases end - i2,
            {
                if s.get_char(i2) == '=' {
                    eq2 = Some(i2);
                    break;
                }
                i2 += 1;
            }
            let ghost rest = piece.subrange(j - pos + 1, piece.len() as int);
            proof {
                assert(forall|k: int| 0 <= k < rest.len() ==> rest[k] == s@[k + j + 1]);
            }
            let name = s.substring_char(pos, j);
            let custom_end: usize = match eq2 {
                Some(j2) => {
                    proof {
                        lemma_find_char_at(rest, '=', j2 - (j + 1));
                        assert(rest.subrange(0, j2 - (j + 1)) =~= s@.subrange(j + 1, j2 as int));
                    }
                    j2
                },
                None => {
                    proof {
                        lemma_find_char_none(rest, '=');
                        assert(rest =~= s@.subrange(j + 1, end as int));
                    }
                    end
                },
            };
            let custom = s.substring_char(j + 1, custom_end);
            proof {
                assert(piece.subrange(0, j - pos) =~= s@.subrange(pos as int, j as int));
            }
            Command { name: String::from_str(name), custom_name: String::from_str(custom) }
        },
    }
}

impl Commands {
    /// Read a branding table from its text form.
    pub fn new(commands: &str) -> (r: Self)
        ensures
            r@ == parsed_commands(commands@),
    {
        let s = commands;
        let n = s.unicode_len();
        let mut out: Vec<Command> = Vec::new();
        let mut pos: usize = 0;
        proof {
            assert(s@.subrange(0, n as int) =~= s@);
            assert(Seq::new(out@.len(), |i: int| out@[i]@) =~= Seq::<CommandView>::empty());
        }
        loop
            invariant_except_break
                Seq::new(out@.len(), |i: int| out@[i]@) + parsed_commands(s@.subrange(pos as int, n as int))
                    == parsed_commands(s@),
            invariant
                0 <= pos <= n,
                n == s@.len(),
            ensures
                Seq::new(out@.len(), |i: int| out@[i]@) == parsed_commands(s@),
            decreases n - pos,
        {
            let ghost t = s@.subrange(pos as int, n as int);
            let ghost built = Seq::new(out@.len(), |i: int| out@[i]@);
            // Next comma at or after pos.
            let mut i: usize = pos;
            let mut comma: Option<usize> = None;
            while i < n
                invariant_except_break
                    comma is None,
                invariant
                    pos <= i <= n,
                    n == s@.len(),
                    forall|k: int| pos <= k < i ==> s@[k] != ',',
                ensures
                    match comma {
                        Some(j) => pos <= j < n && s@[j as int] == ','
                            && forall|k: int| pos <= k < j ==> s@[k] != ',',
                        None => forall|k: int| pos <= k < n ==> s@[k] != ',',
                    },
                decreases n - i,
            {
                if s.get_char(i) == ',' {
                    comma = Some(i);
                    break;
                }
                i += 1;
            }
            proof {
                assert(forall|k: int| 0 <= k < t.len() ==> t[k] == s@[k + pos]);
                match comma {
                    Some(j) => {
                        lemma_find_char_at(t, ',', j - pos);
                    },
                    None => {
                        lemma_find_char_none(t, ',');
                    },
                }
            }
            let end: usize = match comma {
                Some(j) => j,
                None => n,
            };
            if end > pos {
                let entry = parse_entry(s, pos, end);
                let ghost entryv = entry@;
                out.push(entry);
                proof {
                    assert(t.subrange(0, end - pos) =~= s@.subrange(pos as int, end as int));
                    assert(Seq::new(out@.len(), |i: int| out@[i]@) =~= built.push(entryv));
                }
            }
            match comma {
                Some(j) => {
                    proof {
                        assert(t.subrange(j - pos + 1, t.len() as int) =~= s@.subrange(j + 1, n as int));
                        assert(Seq::new(out@.len(), |i: int| out@[i]@)
                            + parsed_commands(s@.subrange(j + 1, n as int)) =~= parsed_commands(s@));
                    }
                    pos = j + 1;
                },
                None => {
                    proof {
                        assert(Seq::new(out@.len(), |i: int| out@[i]@) =~= parsed_commands(s@));
                    }
                    break;
                },
            }
        }
        Commands { commands: out }
    }

    /// Whether `command_name` is hidden: with a non-empty table, every
    /// command without an entry is; with an empty table, nothing is.
    pub fn is_hidden(&self, command_name: &str) -> (r: bool)
        ensures
            r == (self@.len() > 0 && !has_command(self@, command_name@)),
    {
        if self.commands.len() == 0 {
            return false;
        }
        let key = String::from_str(command_name);
        let n = self.commands.len();
        let mut i: usize = 0;
        while i < n
            invariant
                0 <= i <= n,
                n == self@.len(),
                key@ == command_name@,
                forall|k: int| 0 <= k < i ==> (#[trigger] self@[k]).name != command_name@,
            decreases n - i,
        {
            if self.commands[i].name == key {
                proof {
                    assert(self@[i as int].name == command_name@);
                }
                return false;
            }
            proof {
                assert(self@[i as int].name == self.commands@[i as int]@.name);
            }
            i += 1;
        }
        true
    }

    /// The name `command_name` goes by: its entry's custom name when the
    /// table has one, its own name otherwise.
    pub fn name(&self, command_name: &str) -> (r: String)
        ensures
            match find_command(self@, command_name@) {
                Some(entry) => r@ == entry.custom_name,
                None => r@ == command_name@,
            },
    {
        let key = String::from_str(command_name);
        let n = self.commands.len();
        let mut i: usize = 0;
        while i < n
            invariant
                0 <= i <= n,
                n == self@.len(),
                key@ == command_name@,
                forall|k: int| 0 <= k < i ==> (#[trigger] self@[k]).name != command_name@,
            decreases n - i,
        {
            if self.commands[i].name == key {
                proof {
                    assert(self@[i as int].name == command_name@);
                    lemma_find_command_at(self@, command_name@, i as int);
                }
                return self.commands[i].custom_name.clone();
            }
            proof {
                assert(self@[i as int].name == self.commands@[i as int]@.name);
            }
            i += 1;
        }
        proof {
            lemma_find_command_none(self@, command_name@);
        }
        key
    }
}

proof fn lemma_find_command_at(cmds: Seq<CommandView>, name: Seq<char>, j: int)
    requires
        0 <= j < cmds.len(),
        cmds[j].name == name,
        forall|k: int| 0 <= k < j ==> (#[trigger] cmds[k]).name != name,
    ensures
        find_command(cmds, name) == Some(cmds[j]),
    decreases cmds.len(),
{
    if j > 0 {
        let t = cmds.drop_first();
        assert(forall|k: int| 0 <= k < j - 1 ==> (#[trigger] t[k]) == cmds[k + 1]);
        lemma_find_command_at(t, name, j - 1);
    }
}

proof fn lemma_find_command_none(cmds: Seq<CommandView>, name: Seq<char>)
    requires
        forall|k: int| 0 <= k < cmds.len() ==> (#[trigger] cmds[k]).name != name,
    ensures
        find_command(cmds, name) is None,
    decreases cmds.len(),
{
    if cmds.len() > 0 {
        let t = cmds.drop_first();
        assert(forall|k: int| 0 <= k < t.len() ==> (#[trigger] t[k]) == cmds[k + 1]);
        lemma_find_command_none(t, name);
    }
}

} // verus!
