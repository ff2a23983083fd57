use aiutante::agent::{
    exchange_turns, identity_path, library_path, reply, split_identity, Agent, AgentConfiguration,
    AgentError, ConfigError, Dispatch, Metadata, Provider, RelayStep,
};
use aiutante::engine::{Action, EngineError, ToolInvocationRequest, TranscriptEntry};
use aiutante::history::{ConversationTurn, Role};
use aiutante::session::SessionStore;
use aiutante::tools::yaml::{ToolConfig, ToolsConfig};

fn decode(segment: String) -> Result<Metadata, String> {
    let value: serde_yaml::Value = serde_yaml::from_str(&segment).map_err(|e| e.to_string())?;
    let tools = value
        .get("tools")
        .and_then(|t| t.as_sequence())
        .ok_or_else(|| "missing field `tools`".to_string())?
        .iter()
        .map(|t| t.as_str().map(|s| s.to_string()).ok_or_else(|| "expected a string".to_string()))
        .collect::<Result<Vec<String>, String>>()?;
    let model = match value.get("model") {
        None | Some(serde_yaml::Value::Null) => None,
        Some(m) => Some(m.as_str().ok_or_else(|| "expected a string".to_string())?.to_string()),
    };
    let provider = match value.get("provider") {
        None | Some(serde_yaml::Value::Null) => None,
        Some(p) if p.as_str() == Some("openai") => Some(Provider::OpenAI),
        Some(_) => return Err("unknown variant".to_string()),
    };
    Ok(Metadata { tools, model, provider })
}

fn encode(metadata: &Metadata) -> String {
    let mut map = serde_yaml::Mapping::new();
    let tools = metadata.tools.iter().map(|t| serde_yaml::Value::from(t.as_str())).collect();
    map.insert("tools".into(), serde_yaml::Value::Sequence(tools));
    let model = metadata.model.as_deref().map(serde_yaml::Value::from);
    map.insert("model".into(), model.unwrap_or(serde_yaml::Value::Null));
    let provider = metadata.provider.map(|_| serde_yaml::Value::from("openai"));
    map.insert("provider".into(), provider.unwrap_or(serde_yaml::Value::Null));
    serde_yaml::to_string(&serde_yaml::Value::Mapping(map)).unwrap()
}

fn library(tools: &[(&str, &str)]) -> ToolsConfig {
    ToolsConfig(
        tools
            .iter()
            .map(|(name, template)| {
                (
                    name.to_string(),
                    ToolConfig {
                        description: format!("runs {name}"),
                        tool: template.to_string(),
                        arguments: None,
                    },
                )
            })
            .collect(),
    )
}

fn agent(libraries: &[ToolsConfig]) -> Agent {
    let metadata = Metadata { tools: Vec::new(), model: None, provider: None };
    let configuration = AgentConfiguration::new("marvin", metadata, "Be brief.");
    Agent::from_configuration(&configuration, &libraries.to_vec())
}

#[test]
fn default_round_trips_through_its_text() {
    let default = AgentConfiguration::default();
    let text = default.render(&encode(default.metadata()));
    assert_eq!(text, "---\ntools: []\nmodel: gpt-4o\nprovider: openai\n---\n");
    let loaded = AgentConfiguration::from_file("", &text, decode).unwrap();
    assert_eq!(loaded.name(), default.name());
    assert_eq!(loaded.prompt(), default.prompt());
    assert_eq!(loaded.metadata().tools, default.metadata().tools);
    assert_eq!(loaded.metadata().model, default.metadata().model);
    assert_eq!(loaded.metadata().provider, default.metadata().provider);
}

#[test]
fn default_has_no_tools_and_the_default_model() {
    let default = AgentConfiguration::default();
    assert_eq!(default.name(), "");
    assert_eq!(default.prompt(), "");
    assert!(default.metadata().tools.is_empty());
    assert_eq!(default.metadata().model.as_deref(), Some("gpt-4o"));
    assert_eq!(default.metadata().provider, Some(Provider::OpenAI));
    assert_eq!(default.model(), "gpt-4o");
}

#[test]
fn from_file_reads_the_three_segments() {
    let text = "ignored\n---\ntools:\n- shell\n- web\nmodel: gpt-4o\n---\nYou are Marvin.\n---\nStill instructions.\n";
    let loaded = AgentConfiguration::from_file("marvin", text, decode).unwrap();
    assert_eq!(loaded.name(), "marvin");
    assert_eq!(loaded.metadata().tools, vec!["shell".to_string(), "web".to_string()]);
    assert_eq!(loaded.metadata().model.as_deref(), Some("gpt-4o"));
    assert_eq!(loaded.metadata().provider, None);
    assert_eq!(loaded.prompt(), "You are Marvin.\n---\nStill instructions.\n");
}

#[test]
fn from_file_needs_two_delimiters() {
    for text in ["", "no delimiter at all", "---\ntools: []\n", "a\n---\nb", "------\n", "---\n--\n"] {
        let mut called = false;
        let result = AgentConfiguration::from_file("marvin", text, |s| {
            called = true;
            decode(s)
        });
        assert!(matches!(result, Err(ConfigError::MissingDelimiter)), "{text:?}");
        assert!(!called);
        assert!(split_identity(text).is_none());
    }
}

#[test]
fn from_file_reports_bad_metadata() {
    let text = "---\nmodel: gpt-4o\n---\nprompt";
    match AgentConfiguration::from_file("marvin", text, decode) {
        Err(ConfigError::MetadataParse(cause)) => assert_eq!(cause, "missing field `tools`"),
        _ => panic!("the metadata has no tools"),
    }
    let text = "---\ntools: [\n---\nprompt";
    assert!(matches!(
        AgentConfiguration::from_file("marvin", text, decode),
        Err(ConfigError::MetadataParse(_))
    ));
}

#[test]
fn split_identity_takes_the_first_two_delimiters() {
    let frame = split_identity("---\n---\n---\n").unwrap();
    assert_eq!(frame.metadata, "");
    assert_eq!(frame.instructions, "---\n");
    let frame = split_identity("x---\ny---\nz").unwrap();
    assert_eq!(frame.metadata, "y");
    assert_eq!(frame.instructions, "z");
    let frame = split_identity("----\nm\n----\ni").unwrap();
    assert_eq!(frame.metadata, "m\n-");
    assert_eq!(frame.instructions, "i");
}

#[test]
fn model_falls_back_to_the_built_in_one() {
    let metadata = Metadata { tools: Vec::new(), model: None, provider: None };
    assert_eq!(AgentConfiguration::new("a", metadata, "p").model(), "gpt-4o-mini");
    let metadata = Metadata { tools: Vec::new(), model: Some("o3".to_string()), provider: None };
    assert_eq!(AgentConfiguration::new("a", metadata, "p").model(), "o3");
}

#[test]
fn errors_are_told_in_words() {
    let e = AgentError::new("boom");
    assert_eq!(e.message(), "boom");
    assert_eq!(e.to_string(), "AgentError: boom");
    assert_eq!(
        AgentError::from_config(&ConfigError::MissingDelimiter).message(),
        "Failed to parse prompt"
    );
    assert_eq!(
        AgentError::from_config(&ConfigError::MetadataParse("bad".to_string())).message(),
        "Failed to parse YAML: bad"
    );
    assert_eq!(AgentError::from_library("gone").message(), "Failed to load tool library: gone");
    assert_eq!(
        AgentError::from_engine(&EngineError::Provider("401".to_string())).message(),
        "Failed to run agent: 401"
    );
    assert_eq!(
        AgentError::from_engine(&EngineError::TurnBudgetExceeded).message(),
        "Failed to run agent: turn budget exceeded"
    );
}

#[test]
fn paths_follow_the_folder_layout() {
    assert_eq!(identity_path("/srv/minions", "marvin"), "/srv/minions/marvin.md");
    assert_eq!(library_path("/srv/minions", "shell"), "/srv/minions/tools/shell.yml");
}

#[test]
fn from_configuration_lets_the_last_library_win() {
    let a = agent(&[
        library(&[("list", "ls"), ("show", "cat {{file}}")]),
        library(&[("fetch", "curl {{url}}"), ("list", "ls -la")]),
    ]);
    assert_eq!(a.preamble(), "Be brief.");
    assert_eq!(a.model(), "gpt-4o-mini");
    let names: Vec<String> = a.tools().iter().map(|t| t.name()).collect();
    assert_eq!(names, vec!["list", "show", "fetch"]);
    assert_eq!(a.tools()[0].config().tool, "ls -la");
    assert_eq!(a.tools()[0].agent(), "marvin");
    assert_eq!(a.resolve("list"), Some(0));
    assert_eq!(a.resolve("fetch"), Some(2));
    assert_eq!(a.resolve("List"), None);
    let catalog = a.catalog();
    assert_eq!(catalog.len(), 3);
    assert_eq!(catalog[1].name, "show");
    assert_eq!(catalog[1].description, "runs show");
}

#[test]
fn dispatch_finds_the_tool_by_its_exact_name() {
    let a = agent(&[library(&[("show", "cat {{file}}")])]);
    let request = ToolInvocationRequest {
        name: "show".to_string(),
        arguments: vec![("file".to_string(), "notes.txt".to_string())],
    };
    match a.dispatch(&request, "firejail --quiet bash") {
        Dispatch::Start { tool, process } => {
            assert_eq!(tool, 0);
            assert_eq!(process.executable, "firejail");
            assert_eq!(process.arguments, vec!["--quiet", "bash", "-c", "cat notes.txt"]);
            assert_eq!(process.environment, vec![("AGENT".to_string(), "marvin".to_string())]);
        }
        _ => panic!("the tool is known"),
    }
    let request = ToolInvocationRequest { name: "shows".to_string(), arguments: Vec::new() };
    match a.dispatch(&request, "bash") {
        Dispatch::Unknown(text) => assert_eq!(text, "Error: unknown tool shows"),
        _ => panic!("the tool is not known"),
    }
}

#[test]
fn run_and_completions_begin_conversations() {
    let a = agent(&[]);
    let c = a.run("Tidy up.");
    assert!(matches!(c.action(), Action::CallProvider));
    assert_eq!(c.transcript().len(), 1);
    let messages = vec![ConversationTurn::user("q"), ConversationTurn::assistant("a")];
    let c = a.completions(&messages);
    assert!(matches!(c.action(), Action::CallProvider));
    assert_eq!(c.round_trips(), 0);
    assert_eq!(c.transcript().len(), 2);
    match (&c.transcript()[0], &c.transcript()[1]) {
        (TranscriptEntry::Turn(first), TranscriptEntry::Turn(second)) => {
            assert_eq!((first.role, first.content.as_str()), (Role::User, "q"));
            assert_eq!((second.role, second.content.as_str()), (Role::Assistant, "a"));
        }
        _ => panic!("the entries are the turns that were given"),
    }
    assert!(a.completions(&Vec::new()).transcript().is_empty());
}

#[test]
fn chat_ends_on_exit() {
    let a = agent(&[]);
    let log = Vec::new();
    assert!(a.chat("exit", &log).is_none());
    assert!(a.chat("  exit \n", &log).is_none());
    assert!(a.chat_input(" exit", &log).is_some());
    let c = a.chat("  hello there \n", &log).unwrap();
    match &c.transcript()[0] {
        TranscriptEntry::Turn(turn) => assert_eq!(turn.content, "hello there"),
        _ => panic!("the entry is a turn"),
    }
    assert!(a.chat("Exit", &log).is_some());
}

#[test]
fn telegram_serves_one_channel() {
    let a = agent(&[]);
    let mut store = SessionStore::new();
    store.append(7, &exchange_turns("q", "a"));
    store.append(8, &exchange_turns("x", "y"));
    assert!(matches!(a.telegram(&mut store, 7, 8, Some("/clear")), RelayStep::Ignore));
    assert_eq!(store.snapshot(8).len(), 2);
    assert!(matches!(a.telegram(&mut store, 7, 9, Some("hi")), RelayStep::Ignore));
    assert!(!store.contains(9));
    match a.telegram(&mut store, 7, 7, Some("next")) {
        RelayStep::Converse(c) => assert_eq!(c.transcript().len(), 3),
        _ => panic!("a conversation is to be held"),
    }
    match a.telegram(&mut store, 7, 7, None) {
        RelayStep::Converse(c) => match &c.transcript()[2] {
            TranscriptEntry::Turn(turn) => assert_eq!(turn.content, ""),
            _ => panic!("the entry is a turn"),
        },
        _ => panic!("a conversation is to be held"),
    }
}

#[test]
fn reset_empties_the_channel_and_no_other() {
    let a = agent(&[]);
    let mut store = SessionStore::new();
    store.append(7, &exchange_turns("q", "a"));
    store.append(8, &exchange_turns("x", "y"));
    match a.telegram(&mut store, 7, 7, Some("/clear")) {
        RelayStep::Reset(text) => assert_eq!(text, "Cleared chat history"),
        _ => panic!("the history is to be emptied"),
    }
    assert!(store.snapshot(7).is_empty());
    let other = store.snapshot(8);
    assert_eq!(other.len(), 2);
    assert_eq!(other[0].content, "x");
    assert_eq!(other[1].content, "y");
}

#[test]
fn telegram_reply_records_the_exchange() {
    let a = agent(&[]);
    let mut store = SessionStore::new();
    let text = a.telegram_reply(&mut store, 7, "q1", &Ok("a1".to_string()));
    assert_eq!(text, "a1");
    let failed = Err(EngineError::Provider("timeout".to_string()));
    let text = a.telegram_reply(&mut store, 7, "q2", &failed);
    assert_eq!(text, "Error: timeout");
    assert_eq!(reply(&Err(EngineError::TurnBudgetExceeded)), "Error: turn budget exceeded");
    let history = store.snapshot(7);
    let said: Vec<(Role, &str)> = history.iter().map(|t| (t.role, t.content.as_str())).collect();
    assert_eq!(
        said,
        vec![
            (Role::User, "q1"),
            (Role::Assistant, "a1"),
            (Role::User, "q2"),
            (Role::Assistant, "Error: timeout"),
        ]
    );
}
