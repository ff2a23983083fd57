//! Agents: the identity file that defines one, the tools that it may use,
//! and the conversations that it holds.

use vstd::prelude::*;
use vstd::string::StringExecFns;

use crate::engine::{
    resumed, started, Conversation, ConversationView, EngineError, EngineErrorView, RequestView,
    ToolInvocationRequest,
};
use crate::history::{exchange, ConversationTurn, TurnView};
use crate::session::{appended, cleared, history_of, lemma_clear_is_local, SessionStore};
use crate::text::{
    append_chars, chars_of, find_from, first_match, lemma_first_match, lemma_match_by_chars,
    lemma_match_char, match_at, no_match_in, occurs, same_text, split_fields, string_of,
    substring, trim, trimmed, whitespace_fields,
};
use crate::tools::yaml::{
    bound_tools, failure, failure_text, find_tool, last_named, lemma_last_named,
    lemma_registered_all_keeps_names_apart, names_apart, process_request, register_tool,
    registered_all, schema_of, substitute, ProcessRequest, ProcessRequestView, ToolConfigView,
    ToolSchema, ToolsConfig, YamlTool, YamlToolView,
};

verus! {

/// The line that separates the segments of an identity file.
pub open spec fn delimiter() -> Seq<char> {
    seq!['-', '-', '-', '\n']
}

/// The delimiter occurs at least twice in `text`.
pub open spec fn has_two_delimiters(text: Seq<char>) -> bool {
    exists|i: int, j: int| i < j && match_at(text, delimiter(), i) && match_at(text, delimiter(), j)
}

/// The segments of an identity file as a mathematical value.
pub struct FrameView {
    pub metadata: Seq<char>,
    pub instructions: Seq<char>,
}

/// The segments of an identity text. What stands before the first
/// delimiter is dropped; what stands between the first delimiter and the
/// next one behind it is the metadata; all that follows is the
/// instructions, further delimiters included. A text with fewer than two
/// delimiters has no segments.
pub open spec fn frame_of(text: Seq<char>) -> Option<FrameView> {
    let first = first_match(text, delimiter(), 0);
    if first == -1 {
        None
    } else {
        let second = first_match(text, delimiter(), first + 4);
        if second == -1 {
            None
        } else {
            Some(
                FrameView {
                    metadata: text.subrange(first + 4, second),
                    instructions: text.skip(second + 4),
                },
            )
        }
    }
}

/// Two occurrences of the delimiter do not overlap.
pub proof fn lemma_delimiters_apart(text: Seq<char>, i: int, j: int)
    requires
        i < j,
        match_at(text, delimiter(), i),
        match_at(text, delimiter(), j),
    ensures
        i + 4 <= j,
{
    let d = delimiter();
    if j < i + 4 {
        assert(text.subrange(i, i + 4)[3] == d[3]);
        assert(text.subrange(j, j + 4)[i + 3 - j] == d[i + 3 - j]);
    }
}

/// A text has segments exactly when the delimiter occurs twice in it.
pub proof fn lemma_frame_needs_two_delimiters(text: Seq<char>)
    ensures
        frame_of(text) is Some <==> has_two_delimiters(text),
{
    let d = delimiter();
    let first = first_match(text, d, 0);
    lemma_first_match(text, d, 0);
    if first != -1 {
        lemma_first_match(text, d, first + 4);
    }
    if has_two_delimiters(text) {
        let (i, j) = choose|i: int, j: int|
            i < j && match_at(text, d, i) && match_at(text, d, j);
        assert(first != -1);
        assert(first <= i);
        lemma_delimiters_apart(text, first, j);
        assert(first_match(text, d, first + 4) != -1);
    }
    if frame_of(text) is Some {
        let second = first_match(text, d, first + 4);
        assert(first < second && match_at(text, d, first) && match_at(text, d, second));
    }
}

/// The segments of an identity file.
#[derive(Debug)]
pub struct IdentityFrame {
    pub metadata: String,
    pub instructions: String,
}

impl View for IdentityFrame {
    type V = FrameView;

    open spec fn view(&self) -> FrameView {
        FrameView { metadata: self.metadata@, instructions: self.instructions@ }
    }
}

impl DeepView for IdentityFrame {
    type V = FrameView;

    open spec fn deep_view(&self) -> FrameView {
        self@
    }
}

/// Splits an identity text into its segments.
pub fn split_identity(content: &str) -> (frame: Option<IdentityFrame>)
    ensures
        frame.deep_view() == frame_of(content@),
        frame is Some <==> has_two_delimiters(content@),
{
    proof {
        lemma_frame_needs_two_delimiters(content@);
    }
    let text = chars_of(content);
    let length = text.len();
    let mark = delimiter_chars();
    let first = match find_from(&text, &mark, 0) {
        Some(i) => i,
        None => {
            return None;
        },
    };
    proof {
        lemma_first_match(text@, mark@, 0);
        assert(match_at(text@, mark@, first as int));
        assert(first + 4 <= length);
    }
    let second = match find_from(&text, &mark, first + 4) {
        Some(j) => j,
        None => {
            return None;
        },
    };
    proof {
        lemma_first_match(text@, mark@, first + 4);
        assert(match_at(text@, mark@, second as int));
    }
    let metadata = substring(&text, first + 4, second);
    let instructions = substring(&text, second + 4, length);
    Some(IdentityFrame { metadata, instructions })
}

/// The kind of completion provider that serves an agent.
#[derive(Clone, Copy, Debug, PartialEq, Eq, Structural)]
pub enum Provider {
    OpenAI,
}

/// The metadata of an identity file: the tool libraries that the agent
/// uses, in order, the model that serves it, and the provider of that
/// model.
#[derive(Debug)]
pub struct Metadata {
    pub tools: Vec<String>,
    pub model: Option<String>,
    pub provider: Option<Provider>,
}

/// `Metadata` as a mathematical value.
pub struct MetadataView {
    pub tools: Seq<Seq<char>>,
    pub model: Option<Seq<char>>,
    pub provider: Option<Provider>,
}

impl View for Metadata {
    type V = MetadataView;

    open spec fn view(&self) -> MetadataView {
        MetadataView {
            tools: self.tools.deep_view(),
            model: self.model.deep_view(),
            provider: self.provider,
        }
    }
}

/// What defines an agent: its name, its instructions and its metadata.
#[derive(Debug)]
pub struct AgentConfiguration {
    prompt: String,
    metadata: Metadata,
    name: String,
}

/// `AgentConfiguration` as a mathematical value.
pub struct ConfigurationView {
    pub prompt: Seq<char>,
    pub metadata: MetadataView,
    pub name: Seq<char>,
}

impl View for AgentConfiguration {
    type V = ConfigurationView;

    closed spec fn view(&self) -> ConfigurationView {
        ConfigurationView { prompt: self.prompt@, metadata: self.metadata@, name: self.name@ }
    }
}

/// Why an identity file gives no configuration.
#[derive(Debug)]
pub enum ConfigError {
    /// The text has fewer than two delimiters.
    MissingDelimiter,
    /// The metadata segment is not what the format asks for; with the cause.
    MetadataParse(String),
}

/// `ConfigError` as a mathematical value.
pub enum ConfigErrorView {
    MissingDelimiter,
    MetadataParse(Seq<char>),
}

impl View for ConfigError {
    type V = ConfigErrorView;

    open spec fn view(&self) -> ConfigErrorView {
        match self {
            ConfigError::MissingDelimiter => ConfigErrorView::MissingDelimiter,
            ConfigError::MetadataParse(cause) => ConfigErrorView::MetadataParse(cause@),
        }
    }
}

/// The result of decoding a metadata segment, as a mathematical value.
pub open spec fn decoded_view(decoded: Result<Metadata, String>) -> Result<
    MetadataView,
    Seq<char>,
> {
    match decoded {
        Ok(metadata) => Ok(metadata@),
        Err(cause) => Err(cause@),
    }
}

/// The result of loading an identity file, as a mathematical value.
pub open spec fn load_view(loaded: Result<AgentConfiguration, ConfigError>) -> Result<
    ConfigurationView,
    ConfigErrorView,
> {
    match loaded {
        Ok(configuration) => Ok(configuration@),
        Err(error) => Err(error@),
    }
}

/// What loading gives for an agent's name, the segments of its identity
/// text and the decoded metadata segment. The check for the delimiters
/// comes first; then a metadata segment that could not be decoded is told
/// with its cause; else the instructions are taken as they stand.
pub open spec fn loaded(
    name: Seq<char>,
    frame: Option<FrameView>,
    decoded: Result<MetadataView, Seq<char>>,
) -> Result<ConfigurationView, ConfigErrorView> {
    match frame {
        None => Err(ConfigErrorView::MissingDelimiter),
        Some(segments) => match decoded {
            Err(cause) => Err(ConfigErrorView::MetadataParse(cause)),
            Ok(metadata) => Ok(
                ConfigurationView { prompt: segments.instructions, metadata, name },
            ),
        },
    }
}

impl AgentConfiguration {
    /// The configuration of the agent `name` from the segments of its
    /// identity file and the decoded metadata segment.
    pub fn from_frame(name: &str, frame: IdentityFrame, decoded: Result<Metadata, String>) -> (r:
        Result<Self, ConfigError>)
        ensures
            load_view(r) == loaded(name@, Some(frame@), decoded_view(decoded)),
    {
        match decoded {
            Err(cause) => Err(ConfigError::MetadataParse(cause)),
            Ok(metadata) => Ok(
                AgentConfiguration {
                    prompt: frame.instructions,
                    metadata,
                    name: String::from_str(name),
                },
            ),
        }
    }

    /// Loads the configuration of the agent `name` from the text of its
    /// identity file. `decode` turns the metadata segment into metadata, or
    /// says why it cannot; it is called only on a text with two delimiters,
    /// and then once, on the metadata segment.
    pub fn from_file<F: FnOnce(String) -> Result<Metadata, String>>(
        name: &str,
        content: &str,
        decode: F,
    ) -> (r: Result<Self, ConfigError>)
        requires
            forall|segment: String|
                frame_of(content@) is Some && segment@ == frame_of(content@)->Some_0.metadata
                    ==> decode.requires((segment,)),
        ensures
            !has_two_delimiters(content@) <==> load_view(r) == Err::<
                ConfigurationView,
                ConfigErrorView,
            >(ConfigErrorView::MissingDelimiter),
            frame_of(content@) is Some ==> exists|
                segment: String,
                decoded: Result<Metadata, String>,
            |
                {
                    &&& segment@ == frame_of(content@)->Some_0.metadata
                    &&& #[trigger] decode.ensures((segment,), decoded)
                    &&& load_view(r) == loaded(name@, frame_of(content@), decoded_view(decoded))
                },
    {
        match split_identity(content) {
            None => Err(ConfigError::MissingDelimiter),
            Some(frame) => {
                let segment = frame.metadata.clone();
                let decoded = decode(segment);
                Self::from_frame(name, frame, decoded)
            },
        }
    }
}

/// The delimiter, as characters.
fn delimiter_chars() -> (mark: Vec<char>)
    ensures
        mark@ == delimiter(),
{
    let mut mark: Vec<char> = Vec::new();
    mark.push('-');
    mark.push('-');
    mark.push('-');
    mark.push('\n');
    assert(mark@ =~= delimiter());
    mark
}

/// The text of an identity file with the given metadata segment and
/// instructions, and nothing before its first delimiter.
pub open spec fn rendered(metadata: Seq<char>, instructions: Seq<char>) -> Seq<char> {
    delimiter() + metadata + delimiter() + instructions
}

/// The metadata of the configuration that stands for a new agent.
pub open spec fn default_metadata() -> MetadataView {
    MetadataView {
        tools: Seq::empty(),
        model: Some("gpt-4o"@),
        provider: Some(Provider::OpenAI),
    }
}

/// The model that serves an agent: the one that its metadata names, else
/// the built-in one.
pub open spec fn model_of(metadata: MetadataView) -> Seq<char> {
    match metadata.model {
        Some(model) => model,
        None => "gpt-4o-mini"@,
    }
}

/// Where the character at index `k` of a rendered identity text comes
/// from.
pub proof fn lemma_rendered_char(metadata: Seq<char>, instructions: Seq<char>, k: int)
    requires
        0 <= k < 8 + metadata.len() + instructions.len(),
    ensures
        rendered(metadata, instructions).len() == 8 + metadata.len() + instructions.len(),
        rendered(metadata, instructions)[k] == if k < 4 {
            delimiter()[k]
        } else if k < 4 + metadata.len() {
            metadata[k - 4]
        } else if k < 8 + metadata.len() {
            delimiter()[k - 4 - metadata.len()]
        } else {
            instructions[k - 8 - metadata.len()]
        },
{
}

/// A rendered identity text begins with a delimiter, and a delimiter
/// follows its metadata segment.
proof fn lemma_rendered_marks(metadata: Seq<char>, instructions: Seq<char>, at: int)
    requires
        at == 0 || at == 4 + metadata.len(),
    ensures
        match_at(rendered(metadata, instructions), delimiter(), at),
{
    let d = delimiter();
    let text = rendered(metadata, instructions);
    lemma_rendered_char(metadata, instructions, at);
    assert forall|k: int| 0 <= k < d.len() implies text[at + k] == d[k] by {
        lemma_rendered_char(metadata, instructions, at + k);
    }
    lemma_match_by_chars(text, d, at);
}

/// In a rendered identity text whose metadata segment holds no delimiter,
/// no delimiter begins inside the metadata segment.
proof fn lemma_rendered_gap(metadata: Seq<char>, instructions: Seq<char>, i: int)
    requires
        !occurs(metadata, delimiter()),
        4 <= i < 4 + metadata.len(),
    ensures
        !match_at(rendered(metadata, instructions), delimiter(), i),
{
    let d = delimiter();
    let text = rendered(metadata, instructions);
    if match_at(text, d, i) {
        if i + 4 <= 4 + metadata.len() {
            assert forall|k: int| 0 <= k < d.len() implies metadata[i - 4 + k] == d[k] by {
                lemma_match_char(text, d, i, k);
                lemma_rendered_char(metadata, instructions, i + k);
            }
            lemma_match_by_chars(metadata, d, i - 4);
        } else {
            lemma_match_char(text, d, i, 3);
            lemma_rendered_char(metadata, instructions, i + 3);
        }
    }
}

/// In a rendered identity text whose metadata segment holds no delimiter,
/// the second delimiter is the first one behind the first.
proof fn lemma_rendered_delimiters(metadata: Seq<char>, instructions: Seq<char>)
    requires
        !occurs(metadata, delimiter()),
    ensures
        match_at(rendered(metadata, instructions), delimiter(), 0),
        match_at(rendered(metadata, instructions), delimiter(), 4 + metadata.len() as int),
        no_match_in(
            rendered(metadata, instructions),
            delimiter(),
            4,
            4 + metadata.len() as int,
        ),
{
    lemma_rendered_marks(metadata, instructions, 0);
    lemma_rendered_marks(metadata, instructions, 4 + metadata.len() as int);
    assert forall|i: int| 4 <= i < 4 + metadata.len() implies !match_at(
        rendered(metadata, instructions),
        delimiter(),
        i,
    ) by {
        lemma_rendered_gap(metadata, instructions, i);
    }
}

/// A rendered identity text splits into the segments that it was rendered
/// from, as long as the metadata segment holds no delimiter.
pub proof fn lemma_rendered_splits_back(metadata: Seq<char>, instructions: Seq<char>)
    requires
        !occurs(metadata, delimiter()),
    ensures
        frame_of(rendered(metadata, instructions)) == Some(FrameView { metadata, instructions }),
{
    let d = delimiter();
    let text = rendered(metadata, instructions);
    let second: int = 4 + metadata.len() as int;
    lemma_rendered_delimiters(metadata, instructions);
    lemma_first_match(text, d, 4);
    assert(first_match(text, d, 0) == 0);
    assert(first_match(text, d, 4) == second);
    assert(text.subrange(4, second) =~= metadata);
    assert(text.skip(second + 4) =~= instructions);
}

impl Default for AgentConfiguration {
    /// The configuration that stands for a new agent: no name, no
    /// instructions, no tools, and the built-in model and provider.
    fn default() -> (configuration: Self)
        ensures
            configuration@ == (ConfigurationView {
                prompt: Seq::empty(),
                metadata: default_metadata(),
                name: Seq::empty(),
            }),
    {
        let tools: Vec<String> = Vec::new();
        assert(tools.deep_view() =~= Seq::<Seq<char>>::empty());
        AgentConfiguration {
            prompt: String::new(),
            metadata: Metadata {
                tools,
                model: Some(String::from_str("gpt-4o")),
                provider: Some(Provider::OpenAI),
            },
            name: String::new(),
        }
    }
}

impl AgentConfiguration {
    /// A configuration with the given parts.
    pub fn new(name: &str, metadata: Metadata, prompt: &str) -> (configuration: Self)
        ensures
            configuration@ == (ConfigurationView {
                prompt: prompt@,
                metadata: metadata@,
                name: name@,
            }),
    {
        AgentConfiguration {
            prompt: String::from_str(prompt),
            metadata,
            name: String::from_str(name),
        }
    }

    /// The agent's name.
    pub fn name(&self) -> (name: &String)
        ensures
            name@ == self@.name,
    {
        &self.name
    }

    /// The agent's instructions.
    pub fn prompt(&self) -> (prompt: &String)
        ensures
            prompt@ == self@.prompt,
    {
        &self.prompt
    }

    /// The agent's metadata.
    pub fn metadata(&self) -> (metadata: &Metadata)
        ensures
            metadata@ == self@.metadata,
    {
        &self.metadata
    }

    /// The model that serves the agent.
    pub fn model(&self) -> (model: String)
        ensures
            model@ == model_of(self@.metadata),
    {
        match &self.metadata.model {
            Some(model) => model.clone(),
            None => String::from_str("gpt-4o-mini"),
        }
    }

    /// The text of the identity file of this configuration, given its
    /// metadata as a metadata segment.
    pub fn render(&self, metadata: &str) -> (text: String)
        ensures
            text@ == rendered(metadata@, self@.prompt),
    {
        let mark = delimiter_chars();
        let mut out: Vec<char> = Vec::new();
        append_chars(&mut out, &mark);
        append_chars(&mut out, &chars_of(metadata));
        append_chars(&mut out, &mark);
        append_chars(&mut out, &chars_of(self.prompt.as_str()));
        assert(out@ =~= rendered(metadata@, self@.prompt));
        string_of(&out)
    }
}

/// A failure of an agent, told in words.
#[derive(Debug)]
pub struct AgentError {
    message: String,
}

impl View for AgentError {
    type V = Seq<char>;

    closed spec fn view(&self) -> Seq<char> {
        self.message@
    }
}

/// What a failure to load an identity file is told as.
pub open spec fn config_message(error: ConfigErrorView) -> Seq<char> {
    match error {
        ConfigErrorView::MissingDelimiter => "Failed to parse prompt"@,
        ConfigErrorView::MetadataParse(cause) => "Failed to parse YAML: "@ + cause,
    }
}

/// The cause of the end of a conversation without an answer.
pub open spec fn engine_cause(error: EngineErrorView) -> Seq<char> {
    match error {
        EngineErrorView::Provider(cause) => cause,
        EngineErrorView::TurnBudgetExceeded => "turn budget exceeded"@,
    }
}

impl AgentError {
    /// A failure told as `message`.
    pub fn new(message: &str) -> (error: Self)
        ensures
            error@ == message@,
    {
        Self { message: String::from_str(message) }
    }

    /// The failure in words.
    pub fn message(&self) -> (message: &String)
        ensures
            message@ == self@,
    {
        &self.message
    }

    /// How the failure is shown.
    pub fn to_string(&self) -> (text: String)
        ensures
            text@ == "AgentError: "@ + self@,
    {
        let mut text = String::from_str("AgentError: ");
        text.append(self.message.as_str());
        text
    }

    /// The failure to load an identity file.
    pub fn from_config(error: &ConfigError) -> (failure: Self)
        ensures
            failure@ == config_message(error@),
    {
        match error {
            ConfigError::MissingDelimiter => Self::new("Failed to parse prompt"),
            ConfigError::MetadataParse(cause) => {
                let mut message = String::from_str("Failed to parse YAML: ");
                message.append(cause.as_str());
                Self { message }
            },
        }
    }

    /// The failure to load a tool library, with the cause.
    pub fn from_library(cause: &str) -> (failure: Self)
        ensures
            failure@ == "Failed to load tool library: "@ + cause@,
    {
        let mut message = String::from_str("Failed to load tool library: ");
        message.append(cause);
        Self { message }
    }

    /// The end of a conversation without an answer.
    pub fn from_engine(error: &EngineError) -> (failure: Self)
        ensures
            failure@ == "Failed to run agent: "@ + engine_cause(error@),
    {
        let mut message = String::from_str("Failed to run agent: ");
        match error {
            EngineError::Provider(cause) => message.append(cause.as_str()),
            EngineError::TurnBudgetExceeded => message.append("turn budget exceeded"),
        }
        Self { message }
    }
}

/// What an observer of a conversation says of it: that it is done, or that
/// it should go on; each with a remark.
#[derive(Debug)]
pub enum ObserverResponse {
    Done(String),
    Continue(String),
}

/// The path of the identity file of `agent` below `folder`.
pub fn identity_path(folder: &str, agent: &str) -> (path: String)
    ensures
        path@ == folder@ + "/"@ + agent@ + ".md"@,
{
    let mut path = String::from_str(folder);
    path.append("/");
    path.append(agent);
    path.append(".md");
    path
}

/// The path of the file of the tool library `library` below `folder`.
pub fn library_path(folder: &str, library: &str) -> (path: String)
    ensures
        path@ == folder@ + "/tools/"@ + library@ + ".yml"@,
{
    let mut path = String::from_str(folder);
    path.append("/tools/");
    path.append(library);
    path.append(".yml");
    path
}

/// An agent that is ready to hold conversations: its instructions, the
/// model that serves it, and the tools that it may use.
#[derive(Debug)]
pub struct Agent {
    preamble: String,
    model: String,
    tools: Vec<YamlTool>,
}

/// `Agent` as a mathematical value.
pub struct AgentView {
    pub preamble: Seq<char>,
    pub model: Seq<char>,
    pub tools: Seq<YamlToolView>,
}

impl View for Agent {
    type V = AgentView;

    closed spec fn view(&self) -> AgentView {
        AgentView { preamble: self.preamble@, model: self.model@, tools: self.tools.deep_view() }
    }
}

/// The tools of an agent named `agent` that uses `libraries`, in this
/// order: the tools of all libraries, and of two tools with one name the
/// one that was loaded last.
pub open spec fn catalog_of(
    libraries: Seq<Seq<(Seq<char>, ToolConfigView)>>,
    agent: Seq<char>,
) -> Seq<YamlToolView>
    decreases libraries.len(),
{
    if libraries.len() == 0 {
        Seq::empty()
    } else {
        registered_all(
            catalog_of(libraries.drop_last(), agent),
            bound_tools(libraries.last(), agent),
        )
    }
}

impl Agent {
    /// The agent that `configuration` defines, with the tools of the
    /// libraries that it uses, given in the order in which it names them.
    pub fn from_configuration(
        configuration: &AgentConfiguration,
        libraries: &Vec<ToolsConfig>,
    ) -> (agent: Self)
        ensures
            agent@ == (AgentView {
                preamble: configuration@.prompt,
                model: model_of(configuration@.metadata),
                tools: catalog_of(libraries.deep_view(), configuration@.name),
            }),
    {
        let ghost all = libraries.deep_view();
        let ghost owner = configuration@.name;
        let mut tools: Vec<YamlTool> = Vec::new();
        assert(tools.deep_view() =~= catalog_of(all.take(0), owner));
        let mut i: usize = 0;
        while i < libraries.len()
            invariant
                i <= libraries.len(),
                all == libraries.deep_view(),
                owner == configuration@.name,
                tools.deep_view() == catalog_of(all.take(i as int), owner),
            decreases libraries.len() - i,
        {
            let more = YamlTool::bind(&libraries[i], configuration.name.as_str());
            let ghost start = tools.deep_view();
            let ghost bound = more.deep_view();
            let mut j: usize = 0;
            proof {
                assert(bound.take(0) =~= Seq::<YamlToolView>::empty());
            }
            while j < more.len()
                invariant
                    j <= more.len(),
                    bound == more.deep_view(),
                    tools.deep_view() == registered_all(start, bound.take(j as int)),
                decreases more.len() - j,
            {
                proof {
                    let part = bound.take(j + 1);
                    assert(part.last() == more[j as int]@);
                    assert(part.drop_last() =~= bound.take(j as int));
                }
                register_tool(&mut tools, more[j].clone());
                j += 1;
            }
            proof {
                let part = all.take(i + 1);
                assert(bound.take(more.len() as int) =~= bound);
                assert(part.last() == libraries[i as int]@);
                assert(part.drop_last() =~= all.take(i as int));
            }
            i += 1;
        }
        proof {
            assert(all.take(libraries.len() as int) =~= all);
        }
        Agent { preamble: configuration.prompt.clone(), model: configuration.model(), tools }
    }

    /// The agent's instructions: the standing directive of its
    /// conversations.
    pub fn preamble(&self) -> (preamble: &String)
        ensures
            preamble@ == self@.preamble,
    {
        &self.preamble
    }

    /// The model that serves the agent.
    pub fn model(&self) -> (model: &String)
        ensures
            model@ == self@.model,
    {
        &self.model
    }

    /// The tools that the agent may use.
    pub fn tools(&self) -> (tools: &Vec<YamlTool>)
        ensures
            tools.deep_view() == self@.tools,
    {
        &self.tools
    }

    /// The tool that a request for `name` is for: the one of that name,
    /// and none where the agent has no such tool.
    pub fn resolve(&self, name: &str) -> (found: Option<usize>)
        ensures
            match found {
                Some(i) => i as int == last_named(self@.tools, name@),
                None => last_named(self@.tools, name@) == -1,
            },
    {
        find_tool(&self.tools, name)
    }
}

/// What is to be done for a request to invoke a tool.
#[derive(Debug)]
pub enum Dispatch {
    /// Start this process for the agent's tool with this index; the tool
    /// turns the outcome into the result.
    Start { tool: usize, process: ProcessRequest },
    /// The agent has no tool of that name. Nothing is run, and this text is
    /// the result.
    Unknown(String),
}

/// `Dispatch` as a mathematical value.
pub enum DispatchView {
    Start { tool: int, process: ProcessRequestView },
    Unknown(Seq<char>),
}

impl View for Dispatch {
    type V = DispatchView;

    open spec fn view(&self) -> DispatchView {
        match self {
            Dispatch::Start { tool, process } => DispatchView::Start {
                tool: *tool as int,
                process: process@,
            },
            Dispatch::Unknown(text) => DispatchView::Unknown(text@),
        }
    }
}

/// What is to be done for `request` with these tools, in a sandbox shell
/// whose command line has these fields. The tool is found by its exact
/// name. A request for a tool that is not there is a failure like any
/// other failure of a tool: it is told in the result.
pub open spec fn dispatched(
    tools: Seq<YamlToolView>,
    request: RequestView,
    fields: Seq<Seq<char>>,
) -> DispatchView {
    let at = last_named(tools, request.name);
    if at == -1 {
        DispatchView::Unknown(failure("unknown tool "@ + request.name))
    } else {
        DispatchView::Start {
            tool: at,
            process: process_request(
                fields,
                substitute(tools[at].config.tool, request.arguments),
                tools[at].agent,
            ),
        }
    }
}

/// What one line of an interactive chat starts, the line taken without
/// the white space around it: nothing for the word that ends the chat, else
/// a conversation that continues the chat so far.
pub open spec fn chat_step(log: Seq<TurnView>, input: Seq<char>) -> Option<ConversationView> {
    if input == "exit"@ {
        None
    } else {
        Some(started(log, input))
    }
}

/// What a caller is told at the end of a conversation: the answer, or the
/// failure with its cause.
pub open spec fn reply_of(result: Result<Seq<char>, EngineErrorView>) -> Seq<char> {
    match result {
        Ok(answer) => answer,
        Err(error) => failure(engine_cause(error)),
    }
}

/// The end of a conversation, as a mathematical value.
pub open spec fn result_view(result: Result<String, EngineError>) -> Result<
    Seq<char>,
    EngineErrorView,
> {
    match result {
        Ok(answer) => Ok(answer@),
        Err(error) => Err(error@),
    }
}

/// The turns that a finished exchange adds to a history.
pub fn exchange_turns(said: &str, answered: &str) -> (turns: Vec<ConversationTurn>)
    ensures
        turns.deep_view() == exchange(said@, answered@),
{
    let mut turns: Vec<ConversationTurn> = Vec::new();
    turns.push(ConversationTurn::user(said));
    turns.push(ConversationTurn::assistant(answered));
    assert(turns.deep_view() =~= exchange(said@, answered@));
    turns
}

/// What a caller is told at the end of a conversation.
pub fn reply(result: &Result<String, EngineError>) -> (text: String)
    ensures
        text@ == reply_of(result_view(*result)),
{
    match result {
        Ok(answer) => answer.clone(),
        Err(EngineError::Provider(cause)) => failure_text(cause.as_str()),
        Err(EngineError::TurnBudgetExceeded) => failure_text("turn budget exceeded"),
    }
}

impl Agent {
    /// What the agent's tools are told to a completion provider as.
    pub fn catalog(&self) -> (schemas: Vec<ToolSchema>)
        ensures
            schemas.len() == self@.tools.len(),
            forall|i: int|
                0 <= i < schemas.len() ==> (#[trigger] schemas[i])@ == schema_of(self@.tools[i]),
    {
        let mut schemas: Vec<ToolSchema> = Vec::new();
        let mut i: usize = 0;
        while i < self.tools.len()
            invariant
                i <= self.tools.len(),
                schemas.len() == i,
                forall|j: int|
                    0 <= j < i ==> (#[trigger] schemas[j])@ == schema_of(self.tools[j]@),
            decreases self.tools.len() - i,
        {
            schemas.push(self.tools[i].definition());
            i += 1;
        }
        schemas
    }

    /// What is to be done for `request`, in a sandbox shell whose command
    /// line has the given fields.
    pub fn dispatch_with(&self, request: &ToolInvocationRequest, fields: &Vec<String>) -> (dispatch:
        Dispatch)
        ensures
            dispatch@ == dispatched(self@.tools, request@, fields.deep_view()),
    {
        proof {
            lemma_last_named(self@.tools, request@.name);
        }
        match find_tool(&self.tools, request.name.as_str()) {
            Some(tool) => {
                let process = self.tools[tool].request(fields, &request.arguments);
                Dispatch::Start { tool, process }
            },
            None => {
                let mut cause = String::from_str("unknown tool ");
                cause.append(request.name.as_str());
                Dispatch::Unknown(failure_text(cause.as_str()))
            },
        }
    }

    /// What is to be done for `request`, in a sandbox shell given by its
    /// command line.
    pub fn dispatch(&self, request: &ToolInvocationRequest, sandbox: &str) -> (dispatch: Dispatch)
        ensures
            dispatch@ == dispatched(self@.tools, request@, whitespace_fields(sandbox@)),
    {
        let fields = split_fields(sandbox);
        self.dispatch_with(request, &fields)
    }

    /// Begins the conversation in which the user gives `task`.
    pub fn run(&self, task: &str) -> (conversation: Conversation)
        ensures
            conversation@ == started(Seq::empty(), task@),
    {
        let history: Vec<ConversationTurn> = Vec::new();
        assert(history.deep_view() =~= Seq::<TurnView>::empty());
        Conversation::start(&history, task)
    }

    /// Begins the conversation that goes on from `messages` as they are.
    pub fn completions(&self, messages: &Vec<ConversationTurn>) -> (conversation: Conversation)
        ensures
            conversation@ == resumed(messages.deep_view()),
    {
        Conversation::resume(messages)
    }

    /// What `input`, a line of an interactive chat without the white space
    /// around it, starts after the turns of `log`.
    pub fn chat_input(&self, input: &str, log: &Vec<ConversationTurn>) -> (conversation: Option<
        Conversation,
    >)
        ensures
            match conversation {
                Some(c) => chat_step(log.deep_view(), input@) == Some(c@),
                None => chat_step(log.deep_view(), input@) is None,
            },
    {
        if same_text(input, "exit") {
            None
        } else {
            Some(Conversation::start(log, input))
        }
    }

    /// What a line of an interactive chat starts after the turns of `log`.
    pub fn chat(&self, line: &str, log: &Vec<ConversationTurn>) -> (conversation: Option<
        Conversation,
    >)
        ensures
            match conversation {
                Some(c) => chat_step(log.deep_view(), trimmed(line@)) == Some(c@),
                None => chat_step(log.deep_view(), trimmed(line@)) is None,
            },
    {
        let input = trim(line);
        self.chat_input(input.as_str(), log)
    }
}

/// What the relay does with a message.
#[derive(Debug)]
pub enum RelayStep {
    /// The message is from a channel that is not served: nothing is done.
    Ignore,
    /// The channel's history was emptied; this is to be sent back.
    Reset(String),
    /// This conversation is to be held; it continues the channel's
    /// history with the text of the message.
    Converse(Conversation),
}

/// `RelayStep` as a mathematical value.
pub enum RelayStepView {
    Ignore,
    Reset(Seq<char>),
    Converse(ConversationView),
}

impl View for RelayStep {
    type V = RelayStepView;

    open spec fn view(&self) -> RelayStepView {
        match self {
            RelayStep::Ignore => RelayStepView::Ignore,
            RelayStep::Reset(text) => RelayStepView::Reset(text@),
            RelayStep::Converse(conversation) => RelayStepView::Converse(conversation@),
        }
    }
}

/// The text of a message: empty for a message without text.
pub open spec fn message_text(text: Option<Seq<char>>) -> Seq<char> {
    match text {
        Some(t) => t,
        None => Seq::empty(),
    }
}

/// What the relay that serves the channel `allowed` does with a message
/// from `channel`. The command `/clear` is the reset.
pub open spec fn relay_step(
    store: Map<i64, Seq<TurnView>>,
    allowed: i64,
    channel: i64,
    text: Option<Seq<char>>,
) -> RelayStepView {
    if channel != allowed {
        RelayStepView::Ignore
    } else if text == Some("/clear"@) {
        RelayStepView::Reset("Cleared chat history"@)
    } else {
        RelayStepView::Converse(started(history_of(store, channel), message_text(text)))
    }
}

/// The histories after the relay that serves the channel `allowed` has
/// dealt with a message from `channel`.
pub open spec fn relay_store(
    store: Map<i64, Seq<TurnView>>,
    allowed: i64,
    channel: i64,
    text: Option<Seq<char>>,
) -> Map<i64, Seq<TurnView>> {
    if channel != allowed {
        store
    } else if text == Some("/clear"@) {
        cleared(store, channel)
    } else {
        appended(store, channel, Seq::empty())
    }
}

/// The reset command empties the history of the channel that it comes
/// from, if that channel is served, and leaves every other channel's
/// history as it was.
pub proof fn lemma_reset_is_local(store: Map<i64, Seq<TurnView>>, channel: i64, other: i64)
    ensures
        history_of(relay_store(store, channel, channel, Some("/clear"@)), channel) == Seq::<
            TurnView,
        >::empty(),
        other != channel ==> history_of(
            relay_store(store, channel, channel, Some("/clear"@)),
            other,
        ) == history_of(store, other),
{
    lemma_clear_is_local(store, channel, other);
}

/// Whatever the relay does with a message, it changes no history but that
/// of the channel that it serves.
pub proof fn lemma_relay_is_local(
    store: Map<i64, Seq<TurnView>>,
    allowed: i64,
    channel: i64,
    text: Option<Seq<char>>,
    other: i64,
)
    requires
        other != allowed,
    ensures
        history_of(relay_store(store, allowed, channel, text), other) == history_of(store, other),
{
}

impl Agent {
    /// Deals with a message that the relay received: `text` from
    /// `channel`, where the relay serves the channel `allowed`.
    pub fn telegram(
        &self,
        store: &mut SessionStore,
        allowed: i64,
        channel: i64,
        text: Option<&str>,
    ) -> (step: RelayStep)
        ensures
            step@ == relay_step(old(store)@, allowed, channel, text.deep_view()),
            final(store)@ == relay_store(old(store)@, allowed, channel, text.deep_view()),
    {
        if channel != allowed {
            return RelayStep::Ignore;
        }
        match text {
            Some(said) => {
                if same_text(said, "/clear") {
                    store.clear(channel);
                    RelayStep::Reset(String::from_str("Cleared chat history"))
                } else {
                    let history = store.get(channel);
                    RelayStep::Converse(Conversation::start(&history, said))
                }
            },
            None => {
                let history = store.get(channel);
                let nothing = String::new();
                RelayStep::Converse(Conversation::start(&history, nothing.as_str()))
            },
        }
    }

    /// Records the end of a conversation that the relay held on `channel`
    /// after the user said `said`: the history of the channel grows by what
    /// the user said and by what is sent back, which is returned.
    pub fn telegram_reply(
        &self,
        store: &mut SessionStore,
        channel: i64,
        said: &str,
        result: &Result<String, EngineError>,
    ) -> (text: String)
        ensures
            text@ == reply_of(result_view(*result)),
            final(store)@ == appended(old(store)@, channel, exchange(said@, text@)),
    {
        let text = reply(result);
        let turns = exchange_turns(said, text.as_str());
        store.append(channel, &turns);
        text
    }
}

/// No two tools of an agent have the same name.
pub proof fn lemma_catalog_names_apart(
    libraries: Seq<Seq<(Seq<char>, ToolConfigView)>>,
    agent: Seq<char>,
)
    ensures
        names_apart(catalog_of(libraries, agent)),
    decreases libraries.len(),
{
    if libraries.len() > 0 {
        lemma_catalog_names_apart(libraries.drop_last(), agent);
        lemma_registered_all_keeps_names_apart(
            catalog_of(libraries.drop_last(), agent),
            bound_tools(libraries.last(), agent),
        );
    }
}

} // verus!
