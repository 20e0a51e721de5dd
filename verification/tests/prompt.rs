use oatbar::protocol::I3Value;
use oatbar::llm::{
    answer_blocks, effective_schema_mode, generate_prompt, CommandOutput, OutputMode, PromptError, RunResult, SchemaMode,
    Variable, VariableKind,
};

const DATA_INPUT_FORMAT: &str = r#"
# System Role

# Data Input Format
I will provide the output of one or more Unix commands below enclosed in XML tags.
- The `<cmd>` tag contains the exact command executed.
  - The `timestamp` attribute contains the exact time the command was executed.
  - The `exit_code` attribute contains the exit code of the command.
  - The `name` attribute of the `<cmd>` tag contains the name of the command to be referred later.
- The `<stdout>` tag contains the unescaped, raw text returned by the shell.
"#;

fn line(p: &mut String, s: &str) {
    p.push_str(s);
    p.push('\n');
}

fn output(name: &str, time: &str, stdout: &str, exit_code: i32) -> CommandOutput {
    CommandOutput {
        name: name.into(),
        time: time.into(),
        result: RunResult { stdout: stdout.into(), exit_code, timestamp: 0 },
    }
}

fn expected_head(role: Option<&str>) -> String {
    let mut p = String::new();
    line(&mut p, &format!("# Role"));
    match role {
        Some(r) => line(&mut p, &format!("{}", r)),
        None => line(&mut p, &format!(r#"You are an expert Linux System Administrator and DevOps Engineer.
Your goal is to analyze raw command line output, identify anomalies,
track historical changes, and provide actionable conclusions."#
        )),
    }
    line(&mut p, &format!("\n# Data Input Format"));
    p.push_str(DATA_INPUT_FORMAT);
    line(&mut p, &format!("\n# Command Outputs"));
    p
}

fn expected_output(p: &mut String, name: &str, time: &str, exit_code: i32, stdout: &str) {
    line(p, &format!("```"));
    line(p, &format!("<cmd name=\"{}\" timestamp=\"{}\" exit_code=\"{}\">\n<output>\n{}</output>\n</cmd>\n",
        name, time, exit_code, stdout
    ));
    line(p, &format!("```"));
}

#[test]
fn prompt_in_json_mode_with_variables() {
    let outputs = vec![
        output("disk", "2024-01-02 03:04:05 UTC", "sda 90%\n", 0),
        output("uptime", "2024-01-02 03:04:06 UTC", "up 3 days\n", -1),
    ];
    let variables = vec![
        Variable {
            name: "status".into(),
            question: "Is the disk full?".into(),
            write_to: None,
            kind: VariableKind::String { allowed_answers: Some(vec!["yes".into(), "no".into()]), max_length: None },
        },
        Variable { name: "load".into(), question: "How busy?".into(), write_to: None, kind: VariableKind::Number },
    ];
    let prompt = generate_prompt(OutputMode::Json, &None, &None, &outputs, &variables).unwrap();

    let mut p = expected_head(None);
    expected_output(&mut p, "disk", "2024-01-02 03:04:05 UTC", 0, "sda 90%\n");
    expected_output(&mut p, "uptime", "2024-01-02 03:04:06 UTC", -1, "up 3 days\n");
    line(&mut p, &format!("\n# Output Format"));
    line(&mut p, &format!("You must output ONLY a valid JSON object without any suffix or prefix."));
    line(&mut p, &format!("Especially no wrapping in Markdown or any other format."));
    line(&mut p, &format!("\n# Variables with questions to answer"));
    line(&mut p, &format!("Answer each question below populating the variable with the answer.\n"));
    line(&mut p, &format!("## status"));
    line(&mut p, &format!("* **Question:** Is the disk full?"));
    line(&mut p, &format!("* **Allowed answers:** [\"yes\", \"no\"] without quotes"));
    line(&mut p, &format!("## load"));
    line(&mut p, &format!("* **Question:** How busy?"));
    line(&mut p, &format!("* **Allowed answers:** any number"));
    assert_eq!(prompt, p);
}

#[test]
fn prompt_in_debug_mode_with_a_role_and_no_variables() {
    let outputs = vec![output("ls", "now", "", 2)];
    let prompt = generate_prompt(OutputMode::Debug, &Some("You watch a server.".into()), &None, &outputs, &vec![]).unwrap();
    let mut p = expected_head(Some("You watch a server."));
    expected_output(&mut p, "ls", "now", 2, "");
    line(&mut p, &format!("\n# Output Format"));
    line(&mut p, &format!("This is debug mode. You must explain your reasoning in plain text."));
    line(&mut p, &format!("After the explanation include a section with the variable values that you have chosen."));
    assert_eq!(prompt, p);
}

#[test]
fn prompt_in_custom_mode_uses_the_configured_format() {
    let prompt =
        generate_prompt(OutputMode::Custom, &None, &Some("One line, please.".into()), &vec![], &vec![]).unwrap();
    let mut p = expected_head(None);
    line(&mut p, &format!("\n# Output Format"));
    line(&mut p, &format!("One line, please."));
    assert_eq!(prompt, p);
}

#[test]
fn prompt_in_custom_mode_needs_a_format() {
    let r = generate_prompt(OutputMode::Custom, &None, &None, &vec![], &vec![]);
    assert_eq!(r, Err(PromptError::MissingOutputFormatPrompt));
}

#[test]
fn schema_mode_follows_the_output_mode() {
    assert_eq!(effective_schema_mode(OutputMode::Debug, SchemaMode::Auto), SchemaMode::Off);
    assert_eq!(effective_schema_mode(OutputMode::Json, SchemaMode::Off), SchemaMode::Auto);
    assert_eq!(effective_schema_mode(OutputMode::Custom, SchemaMode::Off), SchemaMode::Off);
    assert_eq!(effective_schema_mode(OutputMode::Custom, SchemaMode::Auto), SchemaMode::Auto);
}

#[test]
fn answers_become_blocks() {
    let blocks = answer_blocks(vec![
        ("status".to_string(), I3Value::Str("ok".into())),
        ("load".to_string(), I3Value::Json("0.5".into())),
        ("up".to_string(), I3Value::Bool(true)),
    ]);
    let texts: Vec<&str> = blocks.iter().map(|b| b.full_text.as_str()).collect();
    assert_eq!(texts, vec!["status: ok", "load: 0.5", "up: true"]);
    assert_eq!(blocks[1].name.as_deref(), Some("load"));
    assert!(blocks[1].instance.is_none());
    assert_eq!(blocks[1].other.len(), 1);
    assert_eq!(blocks[1].other[0].0, "value");
    assert!(matches!(&blocks[1].other[0].1, I3Value::Json(t) if t == "0.5"));
}
