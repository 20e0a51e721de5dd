//! The LLM helper: what a configured variable may hold, the commands whose
//! output goes into the prompt, and the prompt itself.

use vstd::prelude::*;
use crate::decimal::{i32_to_string, signed_decimal};
use crate::protocol::{Block, I3Value};
use crate::text::{owned, push_str};

verus! {

/// What the debug form of a list of strings is (`format!("{:?}", v)`):
/// each string quoted and escaped, within brackets, separated by `, `.
pub uninterp spec fn debug_strings(v: Seq<Seq<char>>) -> Seq<char>;

/// Formats a list of strings with `{:?}` (the `Debug` impl of `Vec<String>`);
/// its text is named by `debug_strings`.
#[verifier::external_body]
fn debug_list(v: &Vec<String>) -> (r: String)
    ensures
        r@ == debug_strings(crate::text::strings_view(v@)),
{
    format!("{:?}", v)
}

/// The kind of value a variable holds.
#[derive(Debug)]
pub enum VariableKind {
    String { allowed_answers: Option<Vec<String>>, max_length: Option<usize> },
    Boolean,
    Number,
}

/// What the prompt says a variable may hold.
pub open spec fn spec_describe(k: VariableKind) -> Seq<char> {
    match k {
        VariableKind::String { allowed_answers, max_length } => match allowed_answers {
            Some(a) => debug_strings(crate::text::strings_view(a@)) + " without quotes"@,
            None => match max_length {
                Some(m) => "any string"@ + " (max length: "@ + crate::decimal::decimal(m as nat) + ")"@,
                None => "any string"@,
            },
        },
        VariableKind::Boolean => "true or false"@,
        VariableKind::Number => "any number"@,
    }
}

impl VariableKind {
    /// What the prompt says a variable may hold: the allowed answers, or
    /// any string (with its maximum length), `true or false`, `any number`.
    pub fn describe_allowed_answers(&self) -> (r: String)
        ensures
            r@ == spec_describe(*self),
    {
        match self {
            VariableKind::String { allowed_answers, max_length } => {
                match allowed_answers {
                    Some(answers) => {
                        let mut d = debug_list(answers);
                        push_str(&mut d, " without quotes");
                        d
                    },
                    None => {
                        let mut d = owned("any string");
                        match max_length {
                            Some(m) => {
                                push_str(&mut d, " (max length: ");
                                let n = crate::decimal::usize_to_string(*m);
                                push_str(&mut d, n.as_str());
                                push_str(&mut d, ")");
                            },
                            None => {},
                        }
                        d
                    },
                }
            },
            VariableKind::Boolean => owned("true or false"),
            VariableKind::Number => owned("any number"),
        }
    }
}

/// A variable the model answers.
#[derive(Debug)]
pub struct Variable {
    pub name: String,
    pub question: String,
    /// A file the answer is written to.
    pub write_to: Option<String>,
    pub kind: VariableKind,
}

/// What a command printed, how it ended, and when (seconds since the epoch).
#[derive(Debug)]
pub struct RunResult {
    pub stdout: String,
    pub exit_code: i32,
    pub timestamp: u64,
}

/// A command whose output goes into the prompt.
#[derive(Debug)]
pub struct Command {
    pub name: Option<String>,
    pub cmd: String,
}

/// The name a command's result goes under: its own, or its command line.
pub fn result_name(command: &Command) -> (r: String)
    ensures
        r@ == match command.name {
            Some(n) => n@,
            None => command.cmd@,
        },
{
    match &command.name {
        Some(n) => n.clone(),
        None => command.cmd.clone(),
    }
}

/// How the answer is to be printed: as i3bar blocks of a JSON object, with
/// the reasoning for debugging, or as the configured format asks.
#[derive(PartialEq, Eq, Structural, Clone, Copy, Debug)]
pub enum OutputMode {
    Json,
    Debug,
    Custom,
}

/// Whether the model is held to a JSON schema of the variables.
#[derive(PartialEq, Eq, Structural, Clone, Copy, Debug)]
pub enum SchemaMode {
    Off,
    Auto,
}

/// The schema mode in effect: off when debugging, on for JSON output even
/// where the configuration turns it off, else as configured.
pub fn effective_schema_mode(mode: OutputMode, configured: SchemaMode) -> (r: SchemaMode)
    ensures
        r == if mode == OutputMode::Debug {
            SchemaMode::Off
        } else if configured == SchemaMode::Off && mode == OutputMode::Json {
            SchemaMode::Auto
        } else {
            configured
        },
{
    if mode == OutputMode::Debug {
        SchemaMode::Off
    } else if configured == SchemaMode::Off && mode == OutputMode::Json {
        SchemaMode::Auto
    } else {
        configured
    }
}

/// A command's result as the prompt shows it, its time already written out
/// in the local time zone.
#[derive(Debug)]
pub struct CommandOutput {
    pub name: String,
    pub time: String,
    pub result: RunResult,
}

/// Why no prompt could be made.
#[derive(Debug, PartialEq, Eq, Structural, Clone, Copy)]
pub enum PromptError {
    /// The custom output mode needs `output_format_prompt`.
    MissingOutputFormatPrompt,
}

/// The role the model is given when the configuration names none.
pub open spec fn default_role() -> Seq<char> {
    "You are an expert Linux System Administrator and DevOps Engineer.\nYour goal is to analyze raw command line output, identify anomalies,\ntrack historical changes, and provide actionable conclusions."@
}

/// How the prompt describes the command outputs that follow.
pub open spec fn data_input_format() -> Seq<char> {
    "\n# System Role\n\n# Data Input Format\nI will provide the output of one or more Unix commands below enclosed in XML tags.\n- The `<cmd>` tag contains the exact command executed.\n  - The `timestamp` attribute contains the exact time the command was executed.\n  - The `exit_code` attribute contains the exit code of the command.\n  - The `name` attribute of the `<cmd>` tag contains the name of the command to be referred later.\n- The `<stdout>` tag contains the unescaped, raw text returned by the shell.\n"@
}

/// One command's output in the prompt.
pub open spec fn output_text(o: CommandOutput) -> Seq<char> {
    "```\n"@ + "<cmd name=\""@ + o.name@ + "\" timestamp=\""@ + o.time@ + "\" exit_code=\""@
        + signed_decimal(o.result.exit_code as int) + "\">\n<output>\n"@ + o.result.stdout@
        + "</output>\n</cmd>\n\n"@ + "```\n"@
}

/// The outputs of the commands, in the order given.
pub open spec fn outputs_text(s: Seq<CommandOutput>) -> Seq<char>
    decreases s.len(),
{
    if s.len() == 0 {
        Seq::empty()
    } else {
        outputs_text(s.drop_last()) + output_text(s.last())
    }
}

/// What the prompt asks of the answer's form; none in the custom mode
/// without a format of its own.
pub open spec fn format_text(mode: OutputMode, format_prompt: Option<String>) -> Option<Seq<char>> {
    match mode {
        OutputMode::Debug => Some(
            "This is debug mode. You must explain your reasoning in plain text."@ + "\n"@
                + "After the explanation include a section with the variable values that you have chosen."@
                + "\n"@,
        ),
        OutputMode::Json => Some(
            "You must output ONLY a valid JSON object without any suffix or prefix."@ + "\n"@
                + "Especially no wrapping in Markdown or any other format."@ + "\n"@,
        ),
        OutputMode::Custom => match format_prompt {
            Some(f) => Some(f@ + "\n"@),
            None => None,
        },
    }
}

/// One variable's question in the prompt.
pub open spec fn variable_text(v: Variable) -> Seq<char> {
    "## "@ + v.name@ + "\n"@ + "* **Question:** "@ + v.question@ + "\n"@ + "* **Allowed answers:** "@
        + spec_describe(v.kind) + "\n"@
}

/// The questions of the variables, in the order given.
pub open spec fn variables_text(s: Seq<Variable>) -> Seq<char>
    decreases s.len(),
{
    if s.len() == 0 {
        Seq::empty()
    } else {
        variables_text(s.drop_last()) + variable_text(s.last())
    }
}

/// The section of the variables: nothing when there is none.
pub open spec fn variables_section(s: Seq<Variable>) -> Seq<char> {
    if s.len() == 0 {
        Seq::empty()
    } else {
        "\n# Variables with questions to answer"@ + "\n"@
            + "Answer each question below populating the variable with the answer.\n"@ + "\n"@
            + variables_text(s)
    }
}

/// The beginning of the prompt: the role (the configured one, else the
/// default) and how the data comes, up to the heading of the outputs.
pub open spec fn head_text(role: Option<String>) -> Seq<char> {
    "# Role"@ + "\n"@ + match role {
        Some(r) => r@,
        None => default_role(),
    } + "\n"@ + "\n# Data Input Format"@ + "\n"@ + data_input_format() + "\n# Command Outputs"@ + "\n"@
}

/// The whole prompt: the role, how the data comes, the command outputs, the
/// form of the answer and the questions; none where the form is missing.
pub open spec fn prompt_text(
    mode: OutputMode,
    role: Option<String>,
    format_prompt: Option<String>,
    outputs: Seq<CommandOutput>,
    variables: Seq<Variable>,
) -> Option<Seq<char>> {
    match format_text(mode, format_prompt) {
        Some(f) => Some(
            head_text(role) + outputs_text(outputs) + "\n# Output Format"@ + "\n"@ + f
                + variables_section(variables),
        ),
        None => None,
    }
}

fn push_output(out: &mut String, o: &CommandOutput)
    ensures
        final(out)@ == old(out)@ + output_text(*o),
{
    let ghost start = out@;
    push_str(out, "```\n");
    push_str(out, "<cmd name=\"");
    push_str(out, o.name.as_str());
    push_str(out, "\" timestamp=\"");
    push_str(out, o.time.as_str());
    push_str(out, "\" exit_code=\"");
    let code = i32_to_string(o.result.exit_code);
    push_str(out, code.as_str());
    push_str(out, "\">\n<output>\n");
    push_str(out, o.result.stdout.as_str());
    push_str(out, "</output>\n</cmd>\n\n");
    push_str(out, "```\n");
    assert(out@ =~= start + output_text(*o));
}

fn push_variable(out: &mut String, v: &Variable)
    ensures
        final(out)@ == old(out)@ + variable_text(*v),
{
    let ghost start = out@;
    push_str(out, "## ");
    push_str(out, v.name.as_str());
    push_str(out, "\n");
    push_str(out, "* **Question:** ");
    push_str(out, v.question.as_str());
    push_str(out, "\n");
    push_str(out, "* **Allowed answers:** ");
    let d = v.kind.describe_allowed_answers();
    push_str(out, d.as_str());
    push_str(out, "\n");
    assert(out@ =~= start + variable_text(*v));
}

fn push_head(out: &mut String, role: &Option<String>)
    ensures
        final(out)@ == old(out)@ + head_text(*role),
{
    let ghost start = out@;
    push_str(out, "# Role");
    push_str(out, "\n");
    match role {
        Some(r) => push_str(out, r.as_str()),
        None => push_str(
            out,
            "You are an expert Linux System Administrator and DevOps Engineer.\nYour goal is to analyze raw command line output, identify anomalies,\ntrack historical changes, and provide actionable conclusions.",
        ),
    }
    push_str(out, "\n");
    push_str(out, "\n# Data Input Format");
    push_str(out, "\n");
    push_str(
        out,
        "\n# System Role\n\n# Data Input Format\nI will provide the output of one or more Unix commands below enclosed in XML tags.\n- The `<cmd>` tag contains the exact command executed.\n  - The `timestamp` attribute contains the exact time the command was executed.\n  - The `exit_code` attribute contains the exit code of the command.\n  - The `name` attribute of the `<cmd>` tag contains the name of the command to be referred later.\n- The `<stdout>` tag contains the unescaped, raw text returned by the shell.\n",
    );
    push_str(out, "\n# Command Outputs");
    push_str(out, "\n");
    assert(out@ =~= start + head_text(*role));
}

fn push_outputs(out: &mut String, outputs: &Vec<CommandOutput>)
    ensures
        final(out)@ == old(out)@ + outputs_text(outputs@),
{
    let ghost head = out@;
    let mut i: usize = 0;
    assert(outputs@.take(0) =~= Seq::<CommandOutput>::empty());
    assert(head + outputs_text(outputs@.take(0)) =~= head);
    while i < outputs.len()
        invariant
            i <= outputs@.len(),
            out@ == head + outputs_text(outputs@.take(i as int)),
        decreases outputs@.len() - i,
    {
        push_output(out, &outputs[i]);
        assert(outputs@.take(i + 1).drop_last() =~= outputs@.take(i as int));
        assert(outputs@.take(i + 1).last() == outputs@[i as int]);
        assert(out@ =~= head + outputs_text(outputs@.take(i + 1)));
        i += 1;
    }
    assert(outputs@.take(i as int) =~= outputs@);
}

fn push_format(out: &mut String, mode: OutputMode, output_format_prompt: &Option<String>)
    requires
        format_text(mode, *output_format_prompt) is Some,
    ensures
        final(out)@ == old(out)@ + format_text(mode, *output_format_prompt)->0,
{
    let ghost start = out@;
    match mode {
        OutputMode::Debug => {
            push_str(out, "This is debug mode. You must explain your reasoning in plain text.");
            push_str(out, "\n");
            push_str(out, "After the explanation include a section with the variable values that you have chosen.");
            push_str(out, "\n");
        },
        OutputMode::Json => {
            push_str(out, "You must output ONLY a valid JSON object without any suffix or prefix.");
            push_str(out, "\n");
            push_str(out, "Especially no wrapping in Markdown or any other format.");
            push_str(out, "\n");
        },
        OutputMode::Custom => {
            match output_format_prompt {
                Some(f) => {
                    push_str(out, f.as_str());
                    push_str(out, "\n");
                },
                None => {},
            }
        },
    }
    assert(out@ =~= start + format_text(mode, *output_format_prompt)->0);
}

fn push_variables(out: &mut String, variables: &Vec<Variable>)
    ensures
        final(out)@ == old(out)@ + variables_section(variables@),
{
    let ghost start = out@;
    if variables.len() == 0 {
        assert(out@ =~= start + variables_section(variables@));
        return;
    }
    push_str(out, "\n# Variables with questions to answer");
    push_str(out, "\n");
    push_str(out, "Answer each question below populating the variable with the answer.\n");
    push_str(out, "\n");
    let ghost vhead = out@;
    let mut j: usize = 0;
    assert(variables@.take(0) =~= Seq::<Variable>::empty());
    assert(vhead + variables_text(variables@.take(0)) =~= vhead);
    while j < variables.len()
        invariant
            j <= variables@.len(),
            out@ == vhead + variables_text(variables@.take(j as int)),
        decreases variables@.len() - j,
    {
        push_variable(out, &variables[j]);
        assert(variables@.take(j + 1).drop_last() =~= variables@.take(j as int));
        assert(variables@.take(j + 1).last() == variables@[j as int]);
        assert(out@ =~= vhead + variables_text(variables@.take(j + 1)));
        j += 1;
    }
    assert(variables@.take(j as int) =~= variables@);
    assert(out@ =~= start + variables_section(variables@));
}

/// The prompt sent to the model: the configured role (or the default one),
/// the command outputs in the order given, what form the answer takes in
/// `mode`, and a question per variable. The custom mode needs
/// `output_format_prompt`.
pub fn generate_prompt(
    mode: OutputMode,
    role: &Option<String>,
    output_format_prompt: &Option<String>,
    outputs: &Vec<CommandOutput>,
    variables: &Vec<Variable>,
) -> (r: Result<String, PromptError>)
    ensures
        match r {
            Ok(p) => prompt_text(mode, *role, *output_format_prompt, outputs@, variables@) == Some(p@),
            Err(e) => prompt_text(mode, *role, *output_format_prompt, outputs@, variables@) is None
                && e == PromptError::MissingOutputFormatPrompt,
        },
{
    if mode == OutputMode::Custom && output_format_prompt.is_none() {
        return Err(PromptError::MissingOutputFormatPrompt);
    }
    let mut prompt = String::new();
    push_head(&mut prompt, role);
    push_outputs(&mut prompt, outputs);
    push_str(&mut prompt, "\n# Output Format");
    push_str(&mut prompt, "\n");
    push_format(&mut prompt, mode, output_format_prompt);
    push_variables(&mut prompt, variables);
    let ghost f = format_text(mode, *output_format_prompt)->0;
    assert(prompt@ =~= head_text(*role) + outputs_text(outputs@) + "\n# Output Format"@ + "\n"@ + f
        + variables_section(variables@));
    Ok(prompt)
}

/// A value of the answer as text: a string as it is, anything else as its
/// JSON text.
pub open spec fn answer_text(v: I3Value) -> Seq<char> {
    match v {
        I3Value::Str(s) => s@,
        I3Value::Bool(b) => if b {
            "true"@
        } else {
            "false"@
        },
        I3Value::Json(t) => t@,
    }
}

/// The i3bar blocks of the model's answer, one per variable in order: named
/// after the variable, its text `name: value`, its value as the field `value`.
pub fn answer_blocks(answers: Vec<(String, I3Value)>) -> (r: Vec<Block>)
    ensures
        r@.len() == answers@.len(),
        forall|i: int| 0 <= i < r@.len() ==> {
            let b = #[trigger] r@[i];
            let (k, v) = answers@[i];
            &&& b.name == Some(k)
            &&& b.instance is None
            &&& b.full_text@ == k@ + ": "@ + answer_text(v)
            &&& b.other@.len() == 1
            &&& b.other@[0].0@ == "value"@
            &&& b.other@[0].1 == v
        },
{
    let ghost all = answers@;
    let mut r: Vec<Block> = Vec::new();
    let mut rest = answers;
    let mut n: usize = 0;
    let total: usize = rest.len();
    assert(all.subrange(0, all.len() as int) =~= all);
    while rest.len() > 0
        invariant
            n <= all.len() == total,
            rest@.len() == all.len() - n,
            rest@ == all.subrange(n as int, all.len() as int),
            r@.len() == n,
            forall|i: int| 0 <= i < n ==> {
                let b = #[trigger] r@[i];
                let (k, v) = all[i];
                &&& b.name == Some(k)
                &&& b.instance is None
                &&& b.full_text@ == k@ + ": "@ + answer_text(v)
                &&& b.other@.len() == 1
                &&& b.other@[0].0@ == "value"@
                &&& b.other@[0].1 == v
            },
        decreases rest@.len(),
    {
        let (k, v) = rest.remove(0);
        assert((k, v) == all[n as int]);
        let mut full_text = k.clone();
        push_str(&mut full_text, ": ");
        match &v {
            I3Value::Str(s) => push_str(&mut full_text, s.as_str()),
            I3Value::Bool(b) => push_str(&mut full_text, if *b { "true" } else { "false" }),
            I3Value::Json(t) => push_str(&mut full_text, t.as_str()),
        }
        let mut other: Vec<(String, I3Value)> = Vec::new();
        other.push((owned("value"), v));
        r.push(Block { full_text, name: Some(k), instance: None, other });
        n += 1;
        assert(rest@ =~= all.subrange(n as int, all.len() as int));
    }
    r
}

} // verus!
