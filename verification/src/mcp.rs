//! The MCP server: which variables it hides, and the variables it reports
//! an agent's status in.

use vstd::prelude::*;
use crate::ipc::{Response, ResponseData};
use crate::pattern::{regex_compiles, regex_is_match, RegexError, RegexPattern};
use crate::text::{owned, push_str};

verus! {

/// The configuration of the MCP server.
#[derive(Debug)]
pub struct McpConfig {
    /// Patterns of the variables the server does not show.
    pub hidden_variables: Vec<String>,
    /// How long, in seconds, a report counts as recent.
    pub recent_timeout_seconds: u64,
    /// The name the server's variables go under.
    pub mcp_name: Option<String>,
}

impl Default for McpConfig {
    fn default() -> (r: Self)
        ensures
            r.hidden_variables@.len() == 0,
            r.recent_timeout_seconds == 5,
            r.mcp_name is None,
    {
        McpConfig { hidden_variables: Vec::new(), recent_timeout_seconds: 5, mcp_name: None }
    }
}

/// The configuration with its compiled patterns.
#[derive(Debug)]
pub struct ConfigContainer {
    pub config: McpConfig,
    pub hidden_regexes: Vec<RegexPattern>,
}

impl ConfigContainer {
    /// Compiles the hidden-variable patterns; the first that does not
    /// compile is the error.
    pub fn new(config: McpConfig) -> (r: Result<ConfigContainer, RegexError>)
        ensures
            r is Ok <==> forall|i: int| 0 <= i < config.hidden_variables@.len()
                ==> regex_compiles(#[trigger] config.hidden_variables@[i]@),
            r matches Ok(c) ==> c.hidden_regexes@.len() == config.hidden_variables@.len()
                && forall|i: int| 0 <= i < c.hidden_regexes@.len()
                    ==> (#[trigger] c.hidden_regexes@[i]).pattern() == config.hidden_variables@[i]@,
            r matches Ok(c) ==> c.config == config,
    {
        let mut hidden_regexes: Vec<RegexPattern> = Vec::new();
        let mut i: usize = 0;
        while i < config.hidden_variables.len()
            invariant
                i <= config.hidden_variables@.len(),
                hidden_regexes@.len() == i,
                forall|j: int| 0 <= j < i ==> regex_compiles(#[trigger] config.hidden_variables@[j]@),
                forall|j: int| 0 <= j < i ==> (#[trigger] hidden_regexes@[j]).pattern() == config.hidden_variables@[j]@,
            decreases config.hidden_variables@.len() - i,
        {
            match RegexPattern::new(config.hidden_variables[i].as_str()) {
                Ok(re) => hidden_regexes.push(re),
                Err(e) => {
                    return Err(e);
                },
            }
            i += 1;
        }
        Ok(ConfigContainer { config, hidden_regexes })
    }

    /// Whether some hidden-variable pattern matches the name.
    pub fn is_hidden(&self, name: &str) -> (r: bool)
        ensures
            r == exists|i: int| 0 <= i < self.hidden_regexes@.len()
                && regex_is_match((#[trigger] self.hidden_regexes@[i]).pattern(), name@),
    {
        let mut i: usize = 0;
        while i < self.hidden_regexes.len()
            invariant
                i <= self.hidden_regexes@.len(),
                forall|j: int| 0 <= j < i ==> !regex_is_match((#[trigger] self.hidden_regexes@[j]).pattern(), name@),
            decreases self.hidden_regexes@.len() - i,
        {
            if self.hidden_regexes[i].is_match(name) {
                return true;
            }
            i += 1;
        }
        false
    }
}

/// The variable of the server for `base`: `mcp:<name>.<base>`, or
/// `mcp:<base>` when the server has no name.
pub open spec fn spec_var_name(mcp_name: Option<String>, base: Seq<char>) -> Seq<char> {
    match mcp_name {
        Some(n) => seq!['m', 'c', 'p', ':'] + n@ + seq!['.'] + base,
        None => seq!['m', 'c', 'p', ':'] + base,
    }
}

/// The variable of the server for `base` (see `spec_var_name`).
pub fn var_name(config: &McpConfig, base: &str) -> (r: String)
    ensures
        r@ == spec_var_name(config.mcp_name, base@),
{
    let p = "mcp:";
    proof {
        reveal_strlit("mcp:");
        assert(p@ =~= seq!['m', 'c', 'p', ':']);
    }
    let mut r = owned(p);
    match &config.mcp_name {
        Some(n) => {
            push_str(&mut r, n.as_str());
            crate::text::push_char(&mut r, '.');
        },
        None => {},
    }
    push_str(&mut r, base);
    r
}

/// The variables a status report sets, in order: the status as `value`,
/// the agent (when named) as `agent`, and `1` as `recent`.
pub fn status_report_vars(config: &McpConfig, status: String, agent_name: Option<String>) -> (r: Vec<(String, String)>)
    ensures
        r@.len() == if agent_name is Some { 3int } else { 2int },
        r@[0].0@ == spec_var_name(config.mcp_name, seq!['v', 'a', 'l', 'u', 'e']),
        r@[0].1 == status,
        agent_name matches Some(a) ==> r@[1].0@ == spec_var_name(config.mcp_name, seq!['a', 'g', 'e', 'n', 't'])
            && r@[1].1 == a,
        r@[r@.len() - 1].0@ == spec_var_name(config.mcp_name, seq!['r', 'e', 'c', 'e', 'n', 't']),
        r@[r@.len() - 1].1@ == seq!['1'],
{
    let value = "value";
    let agent = "agent";
    let recent = "recent";
    let one = "1";
    proof {
        reveal_strlit("value");
        reveal_strlit("agent");
        reveal_strlit("recent");
        reveal_strlit("1");
        assert(value@ =~= seq!['v', 'a', 'l', 'u', 'e']);
        assert(agent@ =~= seq!['a', 'g', 'e', 'n', 't']);
        assert(recent@ =~= seq!['r', 'e', 'c', 'e', 'n', 't']);
        assert(one@ =~= seq!['1']);
    }
    let mut r: Vec<(String, String)> = Vec::new();
    r.push((var_name(config, value), status));
    match agent_name {
        Some(a) => r.push((var_name(config, agent), a)),
        None => {},
    }
    r.push((var_name(config, recent), owned(one)));
    r
}

/// Counts status reports, so that only the last one clears `recent` when
/// its time is over.
#[derive(Debug)]
pub struct StatusSequence {
    pub last: u64,
}

impl StatusSequence {
    /// No report yet.
    pub fn new() -> (r: Self)
        ensures
            r.last == 0,
    {
        StatusSequence { last: 0 }
    }

    /// Counts a report and gives its number (the count wraps, as
    /// `AtomicU64::fetch_add` does).
    pub fn next(&mut self) -> (r: u64)
        ensures
            r == (if old(self).last == u64::MAX { 0 } else { (old(self).last + 1) as u64 }),
            final(self).last == r,
    {
        self.last = if self.last == u64::MAX { 0 } else { self.last + 1 };
        self.last
    }

    /// Whether report `seq` is still the last one, so that its time being
    /// over clears `recent`.
    pub fn is_last(&self, seq: u64) -> (r: bool)
        ensures
            r == (self.last == seq),
    {
        self.last == seq
    }
}

/// Whether some hidden-variable pattern of `c` matches the name.
pub open spec fn hidden(c: ConfigContainer, name: Seq<char>) -> bool {
    exists|i: int| 0 <= i < c.hidden_regexes@.len() && regex_is_match((#[trigger] c.hidden_regexes@[i]).pattern(), name)
}

/// What a tool answers when asked for a hidden variable.
pub open spec fn restricted_message() -> Seq<char> {
    "Access to this variable is restricted by MCP security settings."@
}

/// Whether a tool may read or set a variable: not when the server hides it.
pub fn check_access(c: &ConfigContainer, name: &str) -> (r: Result<(), String>)
    ensures
        match r {
            Ok(_) => !hidden(*c, name@),
            Err(m) => hidden(*c, name@) && m@ == restricted_message(),
        },
{
    if c.is_hidden(name) {
        Err(owned("Access to this variable is restricted by MCP security settings."))
    } else {
        Ok(())
    }
}

/// The filter of the variables a listing asks for, compiled; the error
/// says the pattern is not valid (with the reason the `regex` crate gives).
pub fn list_filter(filter: &Option<String>) -> (r: Result<Option<RegexPattern>, String>)
    ensures
        match filter {
            Some(f) => match r {
                Ok(Some(re)) => regex_compiles(f@) && re.pattern() == f@,
                Ok(None) => false,
                Err(m) => !regex_compiles(f@) && m@.len() >= 15 && m@.take(15) == "Invalid regex: "@,
            },
            None => r matches Ok(None),
        },
{
    match filter {
        Some(f) => match RegexPattern::new(f.as_str()) {
            Ok(re) => Ok(Some(re)),
            Err(e) => {
                let mut m = owned("Invalid regex: ");
                push_str(&mut m, e.message.as_str());
                proof {
                    reveal_strlit("Invalid regex: ");
                }
                assert(m@.take(15) =~= "Invalid regex: "@);
                Err(m)
            },
        },
        None => Ok(None),
    }
}

/// The variables a listing shows, in order: those the server does not
/// hide and that match the filter, when there is one.
pub open spec fn listed(c: ConfigContainer, vars: Seq<(String, String)>, filter: Option<RegexPattern>) -> Seq<(String, String)>
    decreases vars.len(),
{
    if vars.len() == 0 {
        Seq::empty()
    } else {
        let rest = listed(c, vars.drop_last(), filter);
        let (k, v) = vars.last();
        let shown = !hidden(c, k@) && match filter {
            Some(re) => regex_is_match(re.pattern(), k@),
            None => true,
        };
        if shown {
            rest.push(vars.last())
        } else {
            rest
        }
    }
}

/// The variables a listing shows (see `listed`).
pub fn visible_vars(c: &ConfigContainer, vars: Vec<(String, String)>, filter: &Option<RegexPattern>) -> (r: Vec<(String, String)>)
    ensures
        r@ == listed(*c, vars@, *filter),
{
    let mut r: Vec<(String, String)> = Vec::new();
    let ghost all = vars@;
    let mut rest = vars;
    let mut n: usize = 0;
    let total: usize = rest.len();
    assert(all.subrange(0, all.len() as int) =~= all);
    while rest.len() > 0
        invariant
            n <= all.len() == total,
            rest@.len() == all.len() - n,
            rest@ == all.subrange(n as int, all.len() as int),
            r@ == listed(*c, all.take(n as int), *filter),
        decreases rest@.len(),
    {
        let (k, v) = rest.remove(0);
        assert(all.take(n + 1).drop_last() =~= all.take(n as int));
        assert(all.take(n + 1).last() == all[n as int]);
        assert((k, v) == all[n as int]);
        let shown = !c.is_hidden(k.as_str()) && match filter {
            Some(re) => re.is_match(k.as_str()),
            None => true,
        };
        if shown {
            r.push((k, v));
        }
        n += 1;
        assert(rest@ =~= all.subrange(n as int, all.len() as int));
    }
    assert(all.take(n as int) =~= all);
    r
}

/// What a tool that only acts answers: the bar's error, else `ok`.
pub fn ack_answer(response: Response) -> (r: Result<String, String>)
    ensures
        match response.error {
            Some(e) => r == Err::<String, String>(e),
            None => r matches Ok(m) && m@ == "ok"@,
        },
{
    match response.error {
        Some(e) => Err(e),
        None => Ok(owned("ok")),
    }
}

/// What the tool that reads a variable answers: the bar's error, else the
/// value, or an error when the bar answered something else.
pub fn value_answer(response: Response) -> (r: Result<String, String>)
    ensures
        match response.error {
            Some(e) => r == Err::<String, String>(e),
            None => match response.data {
                Some(ResponseData::Value(v)) => r == Ok::<String, String>(v),
                _ => r matches Err(m) && m@ == "Unexpected response type"@,
            },
        },
{
    match response.error {
        Some(e) => Err(e),
        None => match response.data {
            Some(ResponseData::Value(v)) => Ok(v),
            _ => Err(owned("Unexpected response type")),
        },
    }
}

/// What the listing tool gets from the bar: the bar's error, else the
/// variables, or an error when the bar answered something else.
pub fn vars_answer(response: Response) -> (r: Result<Vec<(String, String)>, String>)
    ensures
        match response.error {
            Some(e) => r == Err::<Vec<(String, String)>, String>(e),
            None => match response.data {
                Some(ResponseData::Vars(v)) => r == Ok::<Vec<(String, String)>, String>(v),
                _ => r matches Err(m) && m@ == "Unexpected response type"@,
            },
        },
{
    match response.error {
        Some(e) => Err(e),
        None => match response.data {
            Some(ResponseData::Vars(v)) => Ok(v),
            _ => Err(owned("Unexpected response type")),
        },
    }
}

/// The pattern of the server's variables that its instructions name:
/// `'mcp:<name>.*'`, or `'mcp:*'` when the server has no name.
pub fn mcp_vars_pattern(config: &McpConfig) -> (r: String)
    ensures
        r@ == match config.mcp_name {
            Some(n) => "'mcp:"@ + n@ + ".*'"@,
            None => "'mcp:*'"@,
        },
{
    match &config.mcp_name {
        Some(n) => {
            let mut r = owned("'mcp:");
            push_str(&mut r, n.as_str());
            push_str(&mut r, ".*'");
            r
        },
        None => owned("'mcp:*'"),
    }
}

/// The server's instructions: the template with every `{mcp_vars}` replaced
/// by the pattern of the server's variables (`str::replace`).
pub fn server_instructions(template: &str, config: &McpConfig) -> (r: String)
    ensures
        r@ == crate::text::join_with(
            crate::text::split_str(template@, "{mcp_vars}"@),
            match config.mcp_name {
                Some(n) => "'mcp:"@ + n@ + ".*'"@,
                None => "'mcp:*'"@,
            },
        ),
{
    let pattern = mcp_vars_pattern(config);
    let pieces = crate::text::split_str_on(template, "{mcp_vars}");
    crate::text::join(&pieces, pattern.as_str())
}

} // verus!
