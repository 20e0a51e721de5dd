//! Commands that feed variables, and what their output becomes.

use vstd::prelude::*;
use crate::decimal::{decimal, usize_to_string};
use crate::protocol::{Block, Header, I3Value};
use crate::state::UpdateEntry;
use crate::text::{clone_opt_string, clone_strings, owned, strings_view};

verus! {

/// How the output of a command is read.
#[derive(Debug, Clone, Copy, PartialEq, Eq, Structural)]
pub enum Format {
    /// i3bar when the first line is an i3bar header, plain otherwise.
    Auto,
    /// Each line is the value of a variable.
    Plain,
    /// The i3bar protocol.
    I3bar,
}

/// The format a command has when its configuration names none.
pub fn default_format() -> (r: Format)
    ensures
        r == Format::Auto,
{
    Format::Auto
}

/// A command that the bar runs to set variables.
#[derive(Debug)]
pub struct CommandConfig {
    pub name: Option<String>,
    pub command: String,
    /// Seconds between runs.
    pub interval: Option<u64>,
    pub format: Format,
    /// The variables that consecutive plain lines set, in turn.
    pub line_names: Vec<String>,
    /// Run once instead of again and again.
    pub once: bool,
}

impl Clone for CommandConfig {
    fn clone(&self) -> (r: Self)
        ensures
            r.name == self.name,
            r.command == self.command,
            r.interval == self.interval,
            r.format == self.format,
            r.line_names@ == self.line_names@,
            r.once == self.once,
    {
        CommandConfig {
            name: clone_opt_string(&self.name),
            command: self.command.clone(),
            interval: self.interval,
            format: self.format,
            line_names: clone_strings(&self.line_names),
            once: self.once,
        }
    }
}

} // verus!

verus! {

/// The text of a field value as a variable holds it: a string's text,
/// `true` or `false`, or the JSON text of anything else.
pub open spec fn i3_value_text(v: I3Value) -> Seq<char> {
    match v {
        I3Value::Str(s) => s@,
        I3Value::Bool(b) => if b { seq!['t', 'r', 'u', 'e'] } else { seq!['f', 'a', 'l', 's', 'e'] },
        I3Value::Json(s) => s@,
    }
}

/// The text of a field value (see `i3_value_text`).
fn value_text(v: &I3Value) -> (r: String)
    ensures
        r@ == i3_value_text(*v),
{
    match v {
        I3Value::Str(s) => s.clone(),
        I3Value::Bool(b) => {
            if *b {
                let t = "true";
                proof {
                    reveal_strlit("true");
                    assert(t@ =~= seq!['t', 'r', 'u', 'e']);
                }
                owned(t)
            } else {
                let f = "false";
                proof {
                    reveal_strlit("false");
                    assert(f@ =~= seq!['f', 'a', 'l', 's', 'e']);
                }
                owned(f)
            }
        },
        I3Value::Json(s) => s.clone(),
    }
}

/// The name of a block: its own, or its position in the row.
pub open spec fn i3_block_name(idx: usize, block: Block) -> Seq<char> {
    match block.name {
        Some(n) => n@,
        None => decimal(idx as nat),
    }
}

/// The entries of the `idx`-th block of an i3bar row: one for each other
/// field, in order, then one for `full_text`; all under the block's name
/// (its position when it has none) and instance.
pub fn block_to_su_entry(idx: usize, block: Block) -> (r: Vec<UpdateEntry>)
    ensures
        r@.len() == block.other@.len() + 1,
        forall|i: int| 0 <= i < r@.len() ==> ((#[trigger] r@[i]).name matches Some(n) && n@ == i3_block_name(idx, block))
            && r@[i].instance == block.instance,
        forall|i: int| 0 <= i < block.other@.len() ==> (#[trigger] r@[i]).var == block.other@[i].0
            && r@[i].value@ == i3_value_text(block.other@[i].1),
        r@[block.other@.len() as int].var@ == seq!['f', 'u', 'l', 'l', '_', 't', 'e', 'x', 't'],
        r@[block.other@.len() as int].value == block.full_text,
{
    let name = match &block.name {
        Some(n) => n.clone(),
        None => usize_to_string(idx),
    };
    let mut r: Vec<UpdateEntry> = Vec::new();
    let mut i: usize = 0;
    while i < block.other.len()
        invariant
            i <= block.other@.len(),
            r@.len() == i,
            name@ == i3_block_name(idx, block),
            forall|j: int| 0 <= j < i ==> ((#[trigger] r@[j]).name matches Some(n) && n@ == i3_block_name(idx, block))
                && r@[j].instance == block.instance,
            forall|j: int| 0 <= j < i ==> (#[trigger] r@[j]).var == block.other@[j].0
                && r@[j].value@ == i3_value_text(block.other@[j].1),
        decreases block.other@.len() - i,
    {
        r.push(UpdateEntry {
            name: Some(name.clone()),
            instance: clone_opt_string(&block.instance),
            var: block.other[i].0.clone(),
            value: value_text(&block.other[i].1),
        });
        i += 1;
    }
    let full_text = "full_text";
    proof {
        reveal_strlit("full_text");
        assert(full_text@ =~= seq!['f', 'u', 'l', 'l', '_', 't', 'e', 'x', 't']);
    }
    r.push(UpdateEntry { name: Some(name), instance: block.instance, var: owned(full_text), value: block.full_text });
    r
}

/// A line without its line ending: a final `\n` is removed, and then a
/// `\r` before it.
pub open spec fn strip_line_ending_spec(s: Seq<char>) -> Seq<char> {
    if s.len() > 0 && s.last() == '\n' {
        let t = s.drop_last();
        if t.len() > 0 && t.last() == '\r' {
            t.drop_last()
        } else {
            t
        }
    } else {
        s
    }
}

/// A line read with its line ending, without it.
pub fn strip_line_ending(line: &str) -> (r: String)
    ensures
        r@ == strip_line_ending_spec(line@),
{
    let v = crate::text::chars_of(line);
    let n = v.len();
    if n > 0 && v[n - 1] == '\n' {
        if n > 1 && v[n - 2] == '\r' {
            let r = crate::text::string_of(&v, 0, n - 2);
            assert(v@.drop_last().drop_last() =~= v@.subrange(0, n - 2));
            r
        } else {
            let r = crate::text::string_of(&v, 0, n - 1);
            assert(v@.drop_last() =~= v@.subrange(0, n - 1));
            r
        }
    } else {
        assert(v@.subrange(0, n as int) =~= v@);
        crate::text::string_of(&v, 0, n)
    }
}

/// Why the output of a command cannot be read.
#[derive(Debug, Clone, Copy, PartialEq, Eq, Structural)]
pub enum FormatError {
    /// The i3bar header names a version other than 1.
    UnexpectedVersion(i32),
    /// The format is i3bar but the first line is no i3bar header.
    NoHeader,
}

/// How the output is read, given its format and what the first line is as
/// an i3bar header (`None` when it is none): an i3bar header of version 1
/// makes it i3bar; without a header, `Auto` falls back to plain.
pub fn detect_format(format: Format, header: Option<Header>) -> (r: Result<Format, FormatError>)
    requires
        format != Format::Plain,
    ensures
        match header {
            Some(h) => if h.version != 1 {
                r == Err::<Format, FormatError>(FormatError::UnexpectedVersion(h.version))
            } else {
                r == Ok::<Format, FormatError>(Format::I3bar)
            },
            None => if format == Format::I3bar {
                r == Err::<Format, FormatError>(FormatError::NoHeader)
            } else {
                r == Ok::<Format, FormatError>(Format::Plain)
            },
        },
{
    match header {
        Some(h) => {
            if h.version != 1 {
                Err(FormatError::UnexpectedVersion(h.version))
            } else {
                Ok(Format::I3bar)
            }
        },
        None => {
            if format == Format::I3bar {
                Err(FormatError::NoHeader)
            } else {
                Ok(Format::Plain)
            }
        },
    }
}

/// The name a command runs under: its own, or `cm` and its position.
pub fn command_name(config: &CommandConfig, index: usize) -> (r: String)
    ensures
        r@ == match config.name {
            Some(n) => n@,
            None => seq!['c', 'm'] + decimal(index as nat),
        },
{
    match &config.name {
        Some(n) => n.clone(),
        None => {
            let p = "cm";
            proof {
                reveal_strlit("cm");
                assert(p@ =~= seq!['c', 'm']);
            }
            let mut s = owned(p);
            let d = usize_to_string(index);
            crate::text::push_str(&mut s, d.as_str());
            s
        },
    }
}

/// Seconds between two runs of a command, ten unless configured.
pub fn command_interval(config: &CommandConfig) -> (r: u64)
    ensures
        r == match config.interval {
            Some(i) => i,
            None => 10,
        },
{
    match config.interval {
        Some(i) => i,
        None => 10,
    }
}

} // verus!

verus! {

/// Groups the lines of plain output into updates: consecutive lines set the
/// variables `line_names` in turn, and each full round is one update.
#[derive(Debug)]
pub struct PlainSender {
    command_name: String,
    line_names: Vec<String>,
    entries: Vec<UpdateEntry>,
}

impl PlainSender {
    #[verifier::type_invariant]
    closed spec fn partial_round(self) -> bool {
        &&& self.line_names@.len() > 0
        &&& self.entries@.len() < self.line_names@.len()
        &&& forall|i: int| 0 <= i < self.entries@.len() ==> (#[trigger] self.entries@[i]).var@ == self.line_names@[i]@
            && self.entries@[i].name is None && self.entries@[i].instance is None
    }

    /// The command the lines come from.
    pub closed spec fn command(&self) -> Seq<char> {
        self.command_name@
    }

    /// The variables that consecutive lines set.
    pub closed spec fn names(&self) -> Seq<Seq<char>> {
        strings_view(self.line_names@)
    }

    /// The lines of the round so far.
    pub closed spec fn pending(&self) -> Seq<Seq<char>> {
        self.entries@.map_values(|e: UpdateEntry| e.value@)
    }

    /// A sender for a command; with no line names each line sets `value`.
    pub fn new(command_name: &str, line_names: Vec<String>) -> (r: Self)
        ensures
            r.command() == command_name@,
            r.names() == if line_names@.len() == 0 {
                seq![seq!['v', 'a', 'l', 'u', 'e']]
            } else {
                strings_view(line_names@)
            },
            r.pending().len() == 0,
    {
        let line_names = if line_names.len() == 0 {
            let v = "value";
            proof {
                reveal_strlit("value");
                assert(v@ =~= seq!['v', 'a', 'l', 'u', 'e']);
            }
            let mut names: Vec<String> = Vec::new();
            names.push(owned(v));
            assert(strings_view(names@) =~= seq![seq!['v', 'a', 'l', 'u', 'e']]);
            names
        } else {
            line_names
        };
        let entries: Vec<UpdateEntry> = Vec::new();
        assert(entries@.map_values(|e: UpdateEntry| e.value@) =~= Seq::<Seq<char>>::empty());
        PlainSender { command_name: owned(command_name), line_names, entries }
    }

    /// Takes the next line. When it completes a round, gives back the update
    /// that sets each line's variable to its line, for the command.
    pub fn send(&mut self, line: String) -> (r: Option<crate::state::Update>)
        ensures
            final(self).command() == old(self).command(),
            final(self).names() == old(self).names(),
            if old(self).pending().len() + 1 == old(self).names().len() {
                &&& final(self).pending().len() == 0
                &&& r matches Some(crate::state::Update::VarUpdate(u))
                &&& u.command_name matches Some(c) && c@ == old(self).command()
                &&& u.error is None
                &&& u.entries@.len() == old(self).names().len()
                &&& forall|i: int| 0 <= i < u.entries@.len() ==> (#[trigger] u.entries@[i]).var@ == old(self).names()[i]
                    && u.entries@[i].value@ == old(self).pending().push(line@)[i]
                    && u.entries@[i].name is None && u.entries@[i].instance is None
            } else {
                &&& r is None
                &&& final(self).pending() == old(self).pending().push(line@)
            },
    {
        proof {
            use_type_invariant(&*self);
        }
        let ghost p0 = self.pending();
        let k = self.entries.len();
        let var = self.line_names[k].clone();
        let mut entries: Vec<UpdateEntry> = Vec::new();
        std::mem::swap(&mut entries, &mut self.entries);
        entries.push(UpdateEntry { name: None, instance: None, var, value: line });
        assert(entries@.map_values(|e: UpdateEntry| e.value@) =~= p0.push(line@));
        if entries.len() == self.line_names.len() {
            assert(Seq::<UpdateEntry>::empty().map_values(|e: UpdateEntry| e.value@) =~= Seq::<Seq<char>>::empty());
            Some(crate::state::Update::VarUpdate(crate::state::VarUpdate {
                command_name: Some(self.command_name.clone()),
                entries,
                error: None,
            }))
        } else {
            self.entries = entries;
            None
        }
    }
}

} // verus!
