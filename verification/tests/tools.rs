use aiutante::tools::yaml::{
    ToolArgument, ToolConfig, ToolOutcome, ToolsConfig, YamlTool,
};
use aiutante::tools::ToolError;

fn argument(description: &str, example: Option<&str>, type_: Option<&str>) -> ToolArgument {
    ToolArgument {
        description: description.to_string(),
        example: example.map(|s| s.to_string()),
        type_: type_.map(|s| s.to_string()),
    }
}

fn tool(template: &str, arguments: Option<Vec<(String, ToolArgument)>>) -> YamlTool {
    let config = ToolsConfig(vec![(
        "echo".to_string(),
        ToolConfig {
            description: "Prints a text".to_string(),
            tool: template.to_string(),
            arguments,
        },
    )]);
    YamlTool::from_file(&config, "marvin").remove(0)
}

fn pairs(items: &[(&str, &str)]) -> Vec<(String, String)> {
    items.iter().map(|(k, v)| (k.to_string(), v.to_string())).collect()
}

#[test]
fn tool_error_keeps_its_message() {
    let e = ToolError::new("boom");
    assert_eq!(e.message(), "boom");
    assert_eq!(e.to_string(), "Math error");
}

#[test]
fn from_file_binds_each_tool_to_the_agent() {
    let config = ToolsConfig(vec![
        (
            "first".to_string(),
            ToolConfig { description: "d1".to_string(), tool: "t1".to_string(), arguments: None },
        ),
        (
            "second".to_string(),
            ToolConfig { description: "d2".to_string(), tool: "t2".to_string(), arguments: None },
        ),
    ]);
    let tools = YamlTool::from_file(&config, "marvin");
    assert_eq!(tools.len(), 2);
    assert_eq!(tools[0].name(), "first");
    assert_eq!(tools[1].name(), "second");
    assert_eq!(tools[0].agent(), "marvin");
    assert_eq!(tools[1].config().tool, "t2");
}

#[test]
fn command_replaces_every_placeholder() {
    let t = tool("echo {{text}} and {{text}} for {{who}}", None);
    let command = t.command(&pairs(&[("text", "hi"), ("who", "you")]));
    assert_eq!(command, "echo hi and hi for you");
}

#[test]
fn command_with_value_v_holds_no_placeholder() {
    let t = tool("run --flag {{x}}", None);
    let command = t.command(&pairs(&[("x", "v")]));
    assert_eq!(command, "run --flag v");
    assert!(command.contains("v"));
    assert!(!command.contains("{{x}}"));
}

#[test]
fn command_leaves_unknown_placeholders() {
    let t = tool("echo {{text}} {{other}}", None);
    let command = t.command(&pairs(&[("text", "hi")]));
    assert_eq!(command, "echo hi {{other}}");
}

#[test]
fn command_does_not_escape_values() {
    let t = tool("echo {{text}}", None);
    let command = t.command(&pairs(&[("text", "a; rm -rf \"$HOME\"")]));
    assert_eq!(command, "echo a; rm -rf \"$HOME\"");
}

#[test]
fn command_substitutes_in_argument_order() {
    let t = tool("{{a}}", None);
    assert_eq!(t.command(&pairs(&[("a", "{{b}}"), ("b", "x")])), "x");
    assert_eq!(t.command(&pairs(&[("b", "x"), ("a", "{{b}}")])), "{{b}}");
}

#[test]
fn command_can_rebuild_a_placeholder_from_its_own_value() {
    let t = tool("{{{{v}}}}", None);
    assert_eq!(t.command(&pairs(&[("v", "v")])), "{{v}}");
}

#[test]
fn definition_requires_every_argument() {
    let t = tool(
        "echo {{text}} {{count}}",
        Some(vec![
            ("text".to_string(), argument("What to print", Some("hello"), None)),
            ("count".to_string(), argument("How often", None, Some("integer"))),
        ]),
    );
    let schema = t.definition();
    assert_eq!(schema.name, "echo");
    assert_eq!(schema.description, "Prints a text");
    assert_eq!(schema.parameters.type_, "object");
    assert_eq!(schema.parameters.required, vec!["text".to_string(), "count".to_string()]);
    assert_eq!(schema.parameters.properties.len(), 2);
    let (name, property) = &schema.parameters.properties[0];
    assert_eq!(name, "text");
    assert_eq!(property.type_, "string");
    assert_eq!(property.description, "What to print");
    assert_eq!(property.example.as_deref(), Some("hello"));
    let (name, property) = &schema.parameters.properties[1];
    assert_eq!(name, "count");
    assert_eq!(property.type_, "integer");
    assert_eq!(property.example, None);
}

#[test]
fn definition_without_arguments_is_empty() {
    let schema = tool("date", None).definition();
    assert!(schema.parameters.properties.is_empty());
    assert!(schema.parameters.required.is_empty());
}

#[test]
fn invocation_uses_the_sandbox_command_line() {
    let t = tool("echo {{text}}", None);
    let request = t.invocation("  docker exec -i  box sh ", &pairs(&[("text", "hi")]));
    assert_eq!(request.executable, "docker");
    assert_eq!(request.arguments, vec!["exec", "-i", "box", "sh", "-c", "echo hi"]);
    assert_eq!(request.environment, vec![("AGENT".to_string(), "marvin".to_string())]);
}

#[test]
fn invocation_falls_back_to_bash() {
    let t = tool("date", None);
    let request = t.invocation("   ", &Vec::new());
    assert_eq!(request.executable, "bash");
    assert_eq!(request.arguments, vec!["-c", "date"]);
    let request = t.invocation(&aiutante::tools::yaml::default_sandbox(), &Vec::new());
    assert_eq!(request.executable, "bash");
    assert_eq!(request.arguments, vec!["-c", "date"]);
}

#[test]
fn call_returns_standard_output_on_success() {
    let t = tool("date", None);
    let outcome = ToolOutcome::Exited {
        success: true,
        stdout: b"Mon\n".to_vec(),
        stderr: b"ignored".to_vec(),
    };
    assert_eq!(t.call(outcome).unwrap(), "Mon\n");
}

#[test]
fn call_replaces_invalid_bytes() {
    let t = tool("date", None);
    let outcome =
        ToolOutcome::Exited { success: true, stdout: vec![b'a', 0xff, b'b'], stderr: Vec::new() };
    assert_eq!(t.call(outcome).unwrap(), "a\u{fffd}b");
}

#[test]
fn call_reports_a_failed_exit() {
    let t = tool("false", None);
    let outcome = ToolOutcome::Exited {
        success: false,
        stdout: b"partial".to_vec(),
        stderr: b"no such file".to_vec(),
    };
    let text = t.call(outcome).unwrap();
    assert_eq!(text, "Error: no such file");
    assert!(text.starts_with("Error: "));
}

#[test]
fn call_reports_a_failed_start() {
    let t = tool("date", None);
    let text = t.call(ToolOutcome::SpawnFailed("No such file or directory".to_string())).unwrap();
    assert_eq!(text, "Error: No such file or directory");
}

fn json_object(entries: Vec<(&str, serde_json::Value)>) -> serde_json::Value {
    let mut map = serde_json::Map::new();
    for (key, value) in entries {
        map.insert(key.to_string(), value);
    }
    serde_json::Value::Object(map)
}

#[test]
fn parameters_as_json() {
    let t = tool(
        "echo {{text}} {{count}}",
        Some(vec![
            ("text".to_string(), argument("What to print", Some("hello"), None)),
            ("count".to_string(), argument("How often", None, Some("integer"))),
        ]),
    );
    let expected = json_object(vec![
        ("type", "object".into()),
        (
            "properties",
            json_object(vec![
                (
                    "text",
                    json_object(vec![
                        ("type", "string".into()),
                        ("description", "What to print".into()),
                        ("example", "hello".into()),
                    ]),
                ),
                (
                    "count",
                    json_object(vec![
                        ("type", "integer".into()),
                        ("description", "How often".into()),
                    ]),
                ),
            ]),
        ),
        ("required", vec!["text", "count"].into()),
    ]);
    assert_eq!(t.definition().parameters.to_json(), expected);
    assert_eq!(
        serde_json::to_string(&t.definition().parameters.properties[1].1.to_json()).unwrap(),
        "{\"description\":\"How often\",\"type\":\"integer\"}"
    );
}

#[test]
fn parameters_without_arguments_as_json() {
    let expected = json_object(vec![
        ("type", "object".into()),
        ("properties", json_object(Vec::new())),
        ("required", serde_json::Value::Array(Vec::new())),
    ]);
    assert_eq!(tool("date", None).definition().parameters.to_json(), expected);
}

#[test]
fn from_file_lets_the_later_declaration_count() {
    let config = ToolsConfig(vec![
        (
            "list".to_string(),
            ToolConfig { description: "d1".to_string(), tool: "ls".to_string(), arguments: None },
        ),
        (
            "show".to_string(),
            ToolConfig { description: "d2".to_string(), tool: "cat".to_string(), arguments: None },
        ),
        (
            "list".to_string(),
            ToolConfig { description: "d3".to_string(), tool: "ls -la".to_string(), arguments: None },
        ),
    ]);
    let tools = YamlTool::from_file(&config, "marvin");
    let names: Vec<String> = tools.iter().map(|t| t.name()).collect();
    assert_eq!(names, vec!["list", "show"]);
    assert_eq!(tools[0].config().tool, "ls -la");
    assert_eq!(tools[0].config().description, "d3");
    assert_eq!(tools[1].config().tool, "cat");
}

#[test]
fn definition_lists_a_repeated_argument_once() {
    let t = tool(
        "echo {{text}} {{count}}",
        Some(vec![
            ("text".to_string(), argument("first", None, None)),
            ("count".to_string(), argument("How often", None, Some("integer"))),
            ("text".to_string(), argument("second", Some("hello"), Some("word"))),
        ]),
    );
    let schema = t.definition();
    assert_eq!(schema.parameters.required, vec!["text".to_string(), "count".to_string()]);
    assert_eq!(schema.parameters.properties.len(), 2);
    let (name, property) = &schema.parameters.properties[0];
    assert_eq!(name, "text");
    assert_eq!(property.description, "second");
    assert_eq!(property.type_, "word");
    assert_eq!(property.example.as_deref(), Some("hello"));
    assert_eq!(schema.parameters.properties[1].0, "count");
}
