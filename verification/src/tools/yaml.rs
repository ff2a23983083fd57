//! Tools declared in a library file: a name, a description, a command
//! template and the arguments that the template refers to.

use vstd::prelude::*;
use vstd::string::StringExecFns;

use crate::text::{
    append_chars, chars_of, first_match, has_prefix, lemma_first_match, lemma_match_by_chars,
    lemma_match_char, lemma_replace_at_first, lemma_replace_inserts, lemma_replace_removes,
    lemma_replace_short, lossy_decoding, match_at, occurs, replace_all, replace_chars, same_text,
    split_fields, string_of, utf8_lossy, whitespace_fields,
};
use crate::tools::ToolError;

verus! {

/// Schema of one argument of a tool.
#[derive(Debug)]
pub struct ToolArgument {
    pub description: String,
    pub example: Option<String>,
    pub type_: Option<String>,
}

/// `ToolArgument` as a mathematical value.
pub struct ToolArgumentView {
    pub description: Seq<char>,
    pub example: Option<Seq<char>>,
    pub type_: Option<Seq<char>>,
}

impl View for ToolArgument {
    type V = ToolArgumentView;

    open spec fn view(&self) -> ToolArgumentView {
        ToolArgumentView {
            description: self.description@,
            example: self.example.deep_view(),
            type_: self.type_.deep_view(),
        }
    }
}

impl DeepView for ToolArgument {
    type V = ToolArgumentView;

    open spec fn deep_view(&self) -> ToolArgumentView {
        self@
    }
}

/// A copy of an optional string.
fn clone_optional(s: &Option<String>) -> (r: Option<String>)
    ensures
        r.deep_view() == s.deep_view(),
{
    match s {
        Some(t) => Some(t.clone()),
        None => None,
    }
}

impl Clone for ToolArgument {
    fn clone(&self) -> (r: Self)
        ensures
            r@ == self@,
    {
        ToolArgument {
            description: self.description.clone(),
            example: clone_optional(&self.example),
            type_: clone_optional(&self.type_),
        }
    }
}

/// Declaration of one tool: what it does, the command template that runs
/// it, and the arguments that the template may refer to, in file order.
/// Absent arguments mean a tool without arguments. Where a name is declared
/// twice, the later declaration counts.
#[derive(Debug)]
pub struct ToolConfig {
    pub description: String,
    pub tool: String,
    pub arguments: Option<Vec<(String, ToolArgument)>>,
}

/// `ToolConfig` as a mathematical value.
pub struct ToolConfigView {
    pub description: Seq<char>,
    pub tool: Seq<char>,
    pub arguments: Option<Seq<(Seq<char>, ToolArgumentView)>>,
}

impl View for ToolConfig {
    type V = ToolConfigView;

    open spec fn view(&self) -> ToolConfigView {
        ToolConfigView {
            description: self.description@,
            tool: self.tool@,
            arguments: self.arguments.deep_view(),
        }
    }
}

impl DeepView for ToolConfig {
    type V = ToolConfigView;

    open spec fn deep_view(&self) -> ToolConfigView {
        self@
    }
}

/// A copy of a list of declared arguments.
fn clone_arguments(args: &Vec<(String, ToolArgument)>) -> (r: Vec<(String, ToolArgument)>)
    ensures
        r.deep_view() == args.deep_view(),
{
    let mut r: Vec<(String, ToolArgument)> = Vec::new();
    let mut i: usize = 0;
    while i < args.len()
        invariant
            i <= args.len(),
            r.len() == i,
            forall|j: int| 0 <= j < i ==> r[j].deep_view() == args[j].deep_view(),
        decreases args.len() - i,
    {
        r.push((args[i].0.clone(), args[i].1.clone()));
        i += 1;
    }
    assert(r.deep_view() =~= args.deep_view());
    r
}

impl Clone for ToolConfig {
    fn clone(&self) -> (r: Self)
        ensures
            r@ == self@,
    {
        let arguments = match &self.arguments {
            Some(args) => Some(clone_arguments(args)),
            None => None,
        };
        ToolConfig { description: self.description.clone(), tool: self.tool.clone(), arguments }
    }
}

/// A tool library: the declared tools by name, in file order. Where a name
/// is declared twice, the later declaration counts.
#[derive(Debug)]
pub struct ToolsConfig(pub Vec<(String, ToolConfig)>);

impl View for ToolsConfig {
    type V = Seq<(Seq<char>, ToolConfigView)>;

    open spec fn view(&self) -> Seq<(Seq<char>, ToolConfigView)> {
        self.0.deep_view()
    }
}

impl Clone for ToolsConfig {
    fn clone(&self) -> (r: Self)
        ensures
            r@ == self@,
    {
        let mut entries: Vec<(String, ToolConfig)> = Vec::new();
        let mut i: usize = 0;
        while i < self.0.len()
            invariant
                i <= self.0.len(),
                entries.len() == i,
                forall|j: int|
                    0 <= j < i ==> (#[trigger] entries[j]).deep_view() == self.0[j].deep_view(),
            decreases self.0.len() - i,
        {
            entries.push((self.0[i].0.clone(), self.0[i].1.clone()));
            i += 1;
        }
        assert(entries.deep_view() =~= self.0.deep_view());
        ToolsConfig(entries)
    }
}

impl DeepView for ToolsConfig {
    type V = Seq<(Seq<char>, ToolConfigView)>;

    open spec fn deep_view(&self) -> Seq<(Seq<char>, ToolConfigView)> {
        self@
    }
}

/// A tool of a library, bound to the agent that owns it.
#[derive(Debug)]
pub struct YamlTool {
    name: String,
    config: ToolConfig,
    agent: String,
}

/// `YamlTool` as a mathematical value.
pub struct YamlToolView {
    pub name: Seq<char>,
    pub config: ToolConfigView,
    pub agent: Seq<char>,
}

impl View for YamlTool {
    type V = YamlToolView;

    closed spec fn view(&self) -> YamlToolView {
        YamlToolView { name: self.name@, config: self.config@, agent: self.agent@ }
    }
}

impl DeepView for YamlTool {
    type V = YamlToolView;

    open spec fn deep_view(&self) -> YamlToolView {
        self@
    }
}

impl Clone for YamlTool {
    fn clone(&self) -> (r: Self)
        ensures
            r@ == self@,
    {
        YamlTool { name: self.name.clone(), config: self.config.clone(), agent: self.agent.clone() }
    }
}

/// The tools that a library declares, each bound to `agent`.
pub open spec fn bound_tools(library: Seq<(Seq<char>, ToolConfigView)>, agent: Seq<char>) -> Seq<
    YamlToolView,
> {
    Seq::new(
        library.len(),
        |i: int| YamlToolView { name: library[i].0, config: library[i].1, agent },
    )
}

impl YamlTool {
    /// The tools that a library declares, one for each declaration, each
    /// owned by `agent`.
    pub(crate) fn bind(config: &ToolsConfig, agent: &str) -> (tools: Vec<YamlTool>)
        ensures
            tools.deep_view() == bound_tools(config@, agent@),
    {
        let mut tools: Vec<YamlTool> = Vec::new();
        let mut i: usize = 0;
        while i < config.0.len()
            invariant
                i <= config.0.len(),
                tools.len() == i,
                forall|j: int|
                    0 <= j < i ==> (#[trigger] tools[j])@ == bound_tools(config@, agent@)[j],
            decreases config.0.len() - i,
        {
            let tool = YamlTool {
                name: config.0[i].0.clone(),
                config: config.0[i].1.clone(),
                agent: String::from_str(agent),
            };
            tools.push(tool);
            i += 1;
        }
        assert(tools.deep_view() =~= bound_tools(config@, agent@));
        tools
    }

    /// Turns the content of a library file into tools owned by `agent`:
    /// one for each name that the library declares, in the order in which
    /// the names first occur. Of two declarations of one name, the later
    /// one counts.
    pub fn from_file(config: &ToolsConfig, agent: &str) -> (tools: Vec<YamlTool>)
        ensures
            tools.deep_view() == registered_all(Seq::empty(), bound_tools(config@, agent@)),
            names_apart(tools.deep_view()),
    {
        let declared = Self::bind(config, agent);
        let ghost bound = declared.deep_view();
        let mut tools: Vec<YamlTool> = Vec::new();
        let mut i: usize = 0;
        proof {
            assert(tools.deep_view() =~= Seq::<YamlToolView>::empty());
            assert(bound.take(0) =~= Seq::<YamlToolView>::empty());
        }
        while i < declared.len()
            invariant
                i <= declared.len(),
                bound == declared.deep_view(),
                tools.deep_view() == registered_all(Seq::empty(), bound.take(i as int)),
            decreases declared.len() - i,
        {
            proof {
                let part = bound.take(i + 1);
                assert(part.last() == declared[i as int]@);
                assert(part.drop_last() =~= bound.take(i as int));
            }
            register_tool(&mut tools, declared[i].clone());
            i += 1;
        }
        proof {
            assert(bound.take(declared.len() as int) =~= bound);
            lemma_registered_all_keeps_names_apart(Seq::empty(), bound);
        }
        tools
    }

    /// The name by which the tool is requested.
    pub fn name(&self) -> (name: String)
        ensures
            name@ == self@.name,
    {
        self.name.clone()
    }

    /// The agent that owns this tool.
    pub fn agent(&self) -> (agent: &String)
        ensures
            agent@ == self@.agent,
    {
        &self.agent
    }

    /// The declaration that this tool was made from.
    pub fn config(&self) -> (config: &ToolConfig)
        ensures
            config@ == self@.config,
    {
        &self.config
    }
}

/// What a completion provider is told about one argument of a tool.
#[derive(Debug)]
pub struct PropertySchema {
    pub type_: String,
    pub description: String,
    pub example: Option<String>,
}

/// `PropertySchema` as a mathematical value.
pub struct PropertySchemaView {
    pub type_: Seq<char>,
    pub description: Seq<char>,
    pub example: Option<Seq<char>>,
}

impl View for PropertySchema {
    type V = PropertySchemaView;

    open spec fn view(&self) -> PropertySchemaView {
        PropertySchemaView {
            type_: self.type_@,
            description: self.description@,
            example: self.example.deep_view(),
        }
    }
}

impl DeepView for PropertySchema {
    type V = PropertySchemaView;

    open spec fn deep_view(&self) -> PropertySchemaView {
        self@
    }
}

/// The object that describes the arguments of a tool: its own type, one
/// property for each argument, and the names of the arguments that a call
/// has to give.
#[derive(Debug)]
pub struct ParametersSchema {
    pub type_: String,
    pub properties: Vec<(String, PropertySchema)>,
    pub required: Vec<String>,
}

/// `ParametersSchema` as a mathematical value.
pub struct ParametersSchemaView {
    pub type_: Seq<char>,
    pub properties: Seq<(Seq<char>, PropertySchemaView)>,
    pub required: Seq<Seq<char>>,
}

impl View for ParametersSchema {
    type V = ParametersSchemaView;

    open spec fn view(&self) -> ParametersSchemaView {
        ParametersSchemaView {
            type_: self.type_@,
            properties: self.properties.deep_view(),
            required: self.required.deep_view(),
        }
    }
}

/// What a completion provider is told about a tool.
#[derive(Debug)]
pub struct ToolSchema {
    pub name: String,
    pub description: String,
    pub parameters: ParametersSchema,
}

/// `ToolSchema` as a mathematical value.
pub struct ToolSchemaView {
    pub name: Seq<char>,
    pub description: Seq<char>,
    pub parameters: ParametersSchemaView,
}

impl View for ToolSchema {
    type V = ToolSchemaView;

    open spec fn view(&self) -> ToolSchemaView {
        ToolSchemaView {
            name: self.name@,
            description: self.description@,
            parameters: self.parameters@,
        }
    }
}

impl DeepView for ToolSchema {
    type V = ToolSchemaView;

    open spec fn deep_view(&self) -> ToolSchemaView {
        self@
    }
}

/// The arguments that a tool declares; none where the declaration has no
/// argument list.
pub open spec fn declared_arguments(config: ToolConfigView) -> Seq<(Seq<char>, ToolArgumentView)> {
    match config.arguments {
        Some(arguments) => arguments,
        None => Seq::empty(),
    }
}

/// The property that describes an argument. An argument without a type is
/// a string.
pub open spec fn property_of(argument: ToolArgumentView) -> PropertySchemaView {
    PropertySchemaView {
        type_: match argument.type_ {
            Some(t) => t,
            None => "string"@,
        },
        description: argument.description,
        example: argument.example,
    }
}

/// The index of the last of `properties` that has the name `name`, or `-1`
/// where none has it.
pub open spec fn last_property(
    properties: Seq<(Seq<char>, PropertySchemaView)>,
    name: Seq<char>,
) -> int
    decreases properties.len(),
{
    if properties.len() == 0 {
        -1
    } else if properties.last().0 == name {
        properties.len() - 1
    } else {
        last_property(properties.drop_last(), name)
    }
}

/// `properties` with `property` under `name`: in the place of the property
/// of that name where there is one, at the end where there is none.
pub open spec fn with_property(
    properties: Seq<(Seq<char>, PropertySchemaView)>,
    name: Seq<char>,
    property: PropertySchemaView,
) -> Seq<(Seq<char>, PropertySchemaView)> {
    let at = last_property(properties, name);
    if at == -1 {
        properties.push((name, property))
    } else {
        properties.update(at, (name, property))
    }
}

/// The properties that describe a list of declared arguments: one for each
/// name, in the order in which the names first occur. Of two declarations
/// of one name, the later one counts.
pub open spec fn described(arguments: Seq<(Seq<char>, ToolArgumentView)>) -> Seq<
    (Seq<char>, PropertySchemaView),
>
    decreases arguments.len(),
{
    if arguments.len() == 0 {
        Seq::empty()
    } else {
        with_property(
            described(arguments.drop_last()),
            arguments.last().0,
            property_of(arguments.last().1),
        )
    }
}

/// The names of a list of properties, in its order.
pub open spec fn property_names(properties: Seq<(Seq<char>, PropertySchemaView)>) -> Seq<
    Seq<char>,
> {
    Seq::new(properties.len(), |i: int| properties[i].0)
}

/// No two of `properties` have the same name.
pub open spec fn properties_apart(properties: Seq<(Seq<char>, PropertySchemaView)>) -> bool {
    forall|i: int, j: int| 0 <= i < j < properties.len() ==> properties[i].0 != properties[j].0
}

/// What `last_property` returns is the index of a property of that name,
/// behind which no property has that name.
pub proof fn lemma_last_property(
    properties: Seq<(Seq<char>, PropertySchemaView)>,
    name: Seq<char>,
)
    ensures
        -1 <= last_property(properties, name) < properties.len(),
        last_property(properties, name) == -1 ==> forall|i: int|
            0 <= i < properties.len() ==> (#[trigger] properties[i]).0 != name,
        last_property(properties, name) != -1 ==> {
            &&& properties[last_property(properties, name)].0 == name
            &&& forall|i: int|
                last_property(properties, name) < i < properties.len() ==> (
                #[trigger] properties[i]).0 != name
        },
    decreases properties.len(),
{
    if properties.len() > 0 && properties.last().0 != name {
        let front = properties.drop_last();
        lemma_last_property(front, name);
        assert forall|i: int| 0 <= i < front.len() implies front[i] == properties[i] by {}
    }
}

/// No two properties that describe a list of declared arguments have the
/// same name, and each declared name has a property.
pub proof fn lemma_described_once(arguments: Seq<(Seq<char>, ToolArgumentView)>)
    ensures
        properties_apart(described(arguments)),
        forall|i: int|
            0 <= i < arguments.len() ==> last_property(
                described(arguments),
                (#[trigger] arguments[i]).0,
            ) != -1,
    decreases arguments.len(),
{
    if arguments.len() > 0 {
        let front = arguments.drop_last();
        let before = described(front);
        let name = arguments.last().0;
        let after = described(arguments);
        lemma_described_once(front);
        lemma_last_property(before, name);
        assert forall|i: int| 0 <= i < arguments.len() implies last_property(
            after,
            (#[trigger] arguments[i]).0,
        ) != -1 by {
            let wanted = arguments[i].0;
            lemma_last_property(after, wanted);
            if i < front.len() {
                assert(front[i] == arguments[i]);
                let at = last_property(before, wanted);
                lemma_last_property(before, wanted);
                assert(after[at].0 == wanted);
            } else {
                let at = last_property(before, name);
                if at == -1 {
                    assert(after.last().0 == name);
                } else {
                    assert(after[at].0 == name);
                }
            }
        }
    }
}

/// The description of a tool: every declared argument is a property, and
/// every declared argument is required. A name is listed once.
pub open spec fn schema_of(tool: YamlToolView) -> ToolSchemaView {
    let properties = described(declared_arguments(tool.config));
    ToolSchemaView {
        name: tool.name,
        description: tool.config.description,
        parameters: ParametersSchemaView {
            type_: "object"@,
            properties,
            required: property_names(properties),
        },
    }
}

/// The index of the last of `properties` that has the name `name`.
fn find_property(properties: &Vec<(String, PropertySchema)>, name: &str) -> (found: Option<usize>)
    ensures
        match found {
            Some(i) => i as int == last_property(properties.deep_view(), name@),
            None => last_property(properties.deep_view(), name@) == -1,
        },
{
    let ghost all = properties.deep_view();
    let mut i: usize = properties.len();
    proof {
        assert(all.take(i as int) =~= all);
    }
    while i > 0
        invariant
            i <= properties.len(),
            all == properties.deep_view(),
            last_property(all, name@) == last_property(all.take(i as int), name@),
        decreases i,
    {
        i -= 1;
        proof {
            let part = all.take(i + 1);
            assert(part.last() == properties[i as int].deep_view());
            assert(part.drop_last() =~= all.take(i as int));
        }
        if same_text(properties[i].0.as_str(), name) {
            return Some(i);
        }
    }
    None
}

impl YamlTool {
    /// Describes the tool to a completion provider.
    pub fn definition(&self) -> (schema: ToolSchema)
        ensures
            schema@ == schema_of(self@),
            properties_apart(schema@.parameters.properties),
    {
        let mut properties: Vec<(String, PropertySchema)> = Vec::new();
        let mut required: Vec<String> = Vec::new();
        let ghost arguments = declared_arguments(self@.config);
        proof {
            assert(properties.deep_view() =~= described(arguments.take(0)));
        }
        if let Some(args) = &self.config.arguments {
            let mut i: usize = 0;
            while i < args.len()
                invariant
                    i <= args.len(),
                    args.deep_view() == arguments,
                    properties.deep_view() == described(arguments.take(i as int)),
                    required.len() == properties.len(),
                    forall|j: int|
                        0 <= j < required.len() ==> (#[trigger] required[j])@ == properties[j].0@,
                decreases args.len() - i,
            {
                let argument = &args[i].1;
                let type_ = match &argument.type_ {
                    Some(t) => t.clone(),
                    None => String::from_str("string"),
                };
                let property = PropertySchema {
                    type_,
                    description: argument.description.clone(),
                    example: clone_optional(&argument.example),
                };
                let ghost before = properties.deep_view();
                proof {
                    let part = arguments.take(i + 1);
                    assert(part.last() == args[i as int].deep_view());
                    assert(part.drop_last() =~= arguments.take(i as int));
                    lemma_last_property(before, args[i as int].0@);
                }
                match find_property(&properties, args[i].0.as_str()) {
                    Some(at) => {
                        properties.set(at, (args[i].0.clone(), property));
                        assert(properties.deep_view() =~= before.update(
                            at as int,
                            (args[i as int].0@, property@),
                        ));
                    },
                    None => {
                        properties.push((args[i].0.clone(), property));
                        required.push(args[i].0.clone());
                        assert(properties.deep_view() =~= before.push(
                            (args[i as int].0@, property@),
                        ));
                    },
                }
                i += 1;
            }
            proof {
                assert(arguments.take(args.len() as int) =~= arguments);
            }
        } else {
            proof {
                assert(arguments.take(0) =~= arguments);
            }
        }
        let schema = ToolSchema {
            name: self.name.clone(),
            description: self.config.description.clone(),
            parameters: ParametersSchema {
                type_: String::from_str("object"),
                properties,
                required,
            },
        };
        proof {
            lemma_described_once(arguments);
            assert(schema@.parameters.required =~= property_names(
                schema@.parameters.properties,
            ));
        }
        schema
    }
}

/// The text that stands in a command template for the argument `name`.
pub open spec fn placeholder(name: Seq<char>) -> Seq<char> {
    seq!['{', '{'] + name + seq!['}', '}']
}

/// The command that a template gives for a list of arguments: for each
/// argument in turn, every occurrence of its placeholder is replaced by its
/// value. Values are inserted as they are, and a placeholder of a name that
/// is not among the arguments stays. Of two arguments with one name the
/// first fills the placeholders, so that the second finds none of them left
/// but those that a value brought in.
pub open spec fn substitute(template: Seq<char>, arguments: Seq<(Seq<char>, Seq<char>)>) -> Seq<
    char,
>
    decreases arguments.len(),
{
    if arguments.len() == 0 {
        template
    } else {
        substitute(
            replace_all(template, placeholder(arguments[0].0), arguments[0].1),
            arguments.skip(1),
        )
    }
}

/// The placeholder of `name`, as characters.
fn placeholder_chars(name: &str) -> (p: Vec<char>)
    ensures
        p@ == placeholder(name@),
{
    let mut p: Vec<char> = Vec::new();
    p.push('{');
    p.push('{');
    let key = chars_of(name);
    append_chars(&mut p, &key);
    p.push('}');
    p.push('}');
    assert(p@ =~= placeholder(name@));
    p
}

impl YamlTool {
    /// Builds the command that an invocation with `arguments` runs.
    pub fn command(&self, arguments: &Vec<(String, String)>) -> (command: String)
        ensures
            command@ == substitute(self@.config.tool, arguments.deep_view()),
    {
        let mut current = chars_of(self.config.tool.as_str());
        let ghost all = arguments.deep_view();
        let mut i: usize = 0;
        proof {
            assert(all.skip(0) =~= all);
        }
        while i < arguments.len()
            invariant
                i <= arguments.len(),
                all == arguments.deep_view(),
                substitute(self@.config.tool, all) == substitute(current@, all.skip(i as int)),
            decreases arguments.len() - i,
        {
            let pattern = placeholder_chars(arguments[i].0.as_str());
            let value = chars_of(arguments[i].1.as_str());
            proof {
                let rest = all.skip(i as int);
                assert(rest[0] == arguments[i as int].deep_view());
                assert(rest.skip(1) =~= all.skip(i + 1));
            }
            current = replace_chars(&current, &pattern, &value);
            i += 1;
        }
        string_of(&current)
    }
}

/// With one argument, the command is the template with that argument's
/// placeholder replaced.
pub proof fn lemma_substitute_one(template: Seq<char>, name: Seq<char>, value: Seq<char>)
    ensures
        substitute(template, seq![(name, value)]) == replace_all(
            template,
            placeholder(name),
            value,
        ),
{
    let arguments = seq![(name, value)];
    let replaced = replace_all(template, placeholder(name), value);
    assert(arguments[0] == (name, value));
    assert(arguments.skip(1).len() == 0);
    assert(substitute(replaced, arguments.skip(1)) == replaced);
}

/// A template that holds the placeholder of an argument gives a command
/// that holds the value of that argument.
pub proof fn lemma_command_holds_value(template: Seq<char>, name: Seq<char>, value: Seq<char>)
    requires
        occurs(template, placeholder(name)),
    ensures
        occurs(substitute(template, seq![(name, value)]), value),
{
    lemma_substitute_one(template, name, value);
    lemma_replace_inserts(template, placeholder(name), value);
}

/// Where the value of an argument is not empty and holds no character of
/// the argument's placeholder, the command built for that argument alone
/// holds no placeholder of it.
pub proof fn lemma_command_drops_placeholder(
    template: Seq<char>,
    name: Seq<char>,
    value: Seq<char>,
)
    requires
        value.len() > 0,
        forall|k: int| 0 <= k < value.len() ==> !placeholder(name).contains(#[trigger] value[k]),
    ensures
        !occurs(substitute(template, seq![(name, value)]), placeholder(name)),
{
    lemma_substitute_one(template, name, value);
    lemma_replace_removes(template, placeholder(name), value);
}

/// A template in which the placeholder of `name` is wrapped in the parts
/// of that placeholder before and behind its first `c`.
pub open spec fn wrapped_placeholder(name: Seq<char>, c: char) -> Seq<char> {
    let pattern = placeholder(name);
    let at = first_match(pattern, seq![c], 0);
    pattern.take(at) + pattern + pattern.skip(at + 1)
}

/// A value of one character that the placeholder of an argument holds can
/// bring the placeholder back: for the template `wrapped_placeholder`, which
/// holds the placeholder, the command built for that argument alone is the
/// placeholder again. So a one-character value leaves no placeholder in any
/// command exactly when the placeholder does not hold that character.
pub proof fn lemma_placeholder_can_return(name: Seq<char>, c: char)
    requires
        placeholder(name).contains(c),
    ensures
        occurs(wrapped_placeholder(name, c), placeholder(name)),
        substitute(wrapped_placeholder(name, c), seq![(name, seq![c])]) == placeholder(name),
{
    let pattern = placeholder(name);
    let value = seq![c];
    let template = wrapped_placeholder(name, c);
    let at = first_match(pattern, value, 0);
    let length = pattern.len() as int;
    let witness = choose|j: int| 0 <= j < pattern.len() && pattern[j] == c;
    lemma_match_by_chars(pattern, value, witness);
    lemma_first_match(pattern, value, 0);
    assert(0 <= at < length);
    lemma_match_char(pattern, value, at, 0);
    assert(pattern[at] == c);
    assert(template.len() == 2 * length - 1);
    assert forall|k: int| 0 <= k < length implies template[at + k] == pattern[k] by {}
    lemma_match_by_chars(template, pattern, at);
    assert forall|i: int| 0 <= i < at implies !match_at(template, pattern, i) by {
        if match_at(template, pattern, i) {
            lemma_match_char(template, pattern, i, at);
            assert(template[i + at] == pattern[i]);
            lemma_match_by_chars(pattern, value, i);
        }
    }
    lemma_replace_at_first(template, pattern, value, at);
    let rest = template.skip(at + length);
    lemma_replace_short(rest, pattern, value);
    assert(template.take(at) + value + rest =~= pattern);
    lemma_substitute_one(template, name, value);
}

/// A process to start: the program, its arguments in order, and the
/// variables to add to the environment that the process inherits.
#[derive(Debug)]
pub struct ProcessRequest {
    pub executable: String,
    pub arguments: Vec<String>,
    pub environment: Vec<(String, String)>,
}

/// `ProcessRequest` as a mathematical value.
pub struct ProcessRequestView {
    pub executable: Seq<char>,
    pub arguments: Seq<Seq<char>>,
    pub environment: Seq<(Seq<char>, Seq<char>)>,
}

impl View for ProcessRequest {
    type V = ProcessRequestView;

    open spec fn view(&self) -> ProcessRequestView {
        ProcessRequestView {
            executable: self.executable@,
            arguments: self.arguments.deep_view(),
            environment: self.environment.deep_view(),
        }
    }
}

/// The process that runs `command` for `agent` in a sandbox shell given by
/// the fields of its command line. The first field is the program, `bash`
/// where there is none; the other fields are its first arguments, followed
/// by `-c` and the command, which is one argument. The environment names
/// the agent.
pub open spec fn process_request(
    fields: Seq<Seq<char>>,
    command: Seq<char>,
    agent: Seq<char>,
) -> ProcessRequestView {
    ProcessRequestView {
        executable: if fields.len() > 0 {
            fields[0]
        } else {
            "bash"@
        },
        arguments: (if fields.len() > 0 {
            fields.skip(1)
        } else {
            Seq::empty()
        }) + seq!["-c"@, command],
        environment: seq![("AGENT"@, agent)],
    }
}

/// The command line of the sandbox shell where none is configured.
pub fn default_sandbox() -> (sandbox: String)
    ensures
        sandbox@ == "bash"@,
{
    String::from_str("bash")
}

impl YamlTool {
    /// The process that an invocation with `arguments` starts, for a
    /// sandbox shell whose command line has the given fields.
    pub fn request(&self, fields: &Vec<String>, arguments: &Vec<(String, String)>) -> (request:
        ProcessRequest)
        ensures
            request@ == process_request(
                fields.deep_view(),
                substitute(self@.config.tool, arguments.deep_view()),
                self@.agent,
            ),
    {
        let command = self.command(arguments);
        let executable = if fields.len() > 0 {
            fields[0].clone()
        } else {
            String::from_str("bash")
        };
        let mut process_arguments: Vec<String> = Vec::new();
        let mut i: usize = 1;
        while i < fields.len()
            invariant
                1 <= i,
                i == 1 || i <= fields.len(),
                process_arguments.len() == i - 1,
                forall|j: int|
                    0 <= j < i - 1 ==> (#[trigger] process_arguments[j])@ == fields[j + 1]@,
            decreases fields.len() - i,
        {
            process_arguments.push(fields[i].clone());
            i += 1;
        }
        let ghost prefix = process_arguments.deep_view();
        process_arguments.push(String::from_str("-c"));
        process_arguments.push(command);
        let mut environment: Vec<(String, String)> = Vec::new();
        environment.push((String::from_str("AGENT"), self.agent.clone()));
        let request = ProcessRequest { executable, arguments: process_arguments, environment };
        proof {
            let expected = process_request(
                fields.deep_view(),
                substitute(self@.config.tool, arguments.deep_view()),
                self@.agent,
            );
            if fields.len() > 0 {
                assert(prefix =~= fields.deep_view().skip(1));
            } else {
                assert(prefix =~= Seq::<Seq<char>>::empty());
            }
            assert(request@.arguments =~= expected.arguments);
            assert(request@.environment =~= expected.environment);
        }
        request
    }

    /// The process that an invocation with `arguments` starts, for a
    /// sandbox shell given by its command line.
    pub fn invocation(&self, sandbox: &str, arguments: &Vec<(String, String)>) -> (request:
        ProcessRequest)
        ensures
            request@ == process_request(
                whitespace_fields(sandbox@),
                substitute(self@.config.tool, arguments.deep_view()),
                self@.agent,
            ),
    {
        let fields = split_fields(sandbox);
        self.request(&fields, arguments)
    }
}

/// How the attempt to run a tool's process ended: it could not be started,
/// or it ran and exited.
#[derive(Debug)]
pub enum ToolOutcome {
    SpawnFailed(String),
    Exited { success: bool, stdout: Vec<u8>, stderr: Vec<u8> },
}

/// `ToolOutcome` as a mathematical value.
pub enum ToolOutcomeView {
    SpawnFailed(Seq<char>),
    Exited { success: bool, stdout: Seq<u8>, stderr: Seq<u8> },
}

impl View for ToolOutcome {
    type V = ToolOutcomeView;

    open spec fn view(&self) -> ToolOutcomeView {
        match self {
            ToolOutcome::SpawnFailed(cause) => ToolOutcomeView::SpawnFailed(cause@),
            ToolOutcome::Exited { success, stdout, stderr } => ToolOutcomeView::Exited {
                success: *success,
                stdout: stdout@,
                stderr: stderr@,
            },
        }
    }
}

/// The text that reports a failure with the given cause.
pub open spec fn failure(cause: Seq<char>) -> Seq<char> {
    "Error: "@ + cause
}

/// What an invocation hands back to the conversation. A process that
/// exited successfully gives what it wrote to its standard output. Every
/// other outcome is reported as a failure: one that could not be started
/// with the cause, one that exited unsuccessfully with what it wrote to its
/// standard error.
pub open spec fn outcome_text(outcome: ToolOutcomeView) -> Seq<char> {
    match outcome {
        ToolOutcomeView::SpawnFailed(cause) => failure(cause),
        ToolOutcomeView::Exited { success, stdout, stderr } => if success {
            lossy_decoding(stdout)
        } else {
            failure(lossy_decoding(stderr))
        },
    }
}

/// The text that reports a failure with the given cause.
pub fn failure_text(cause: &str) -> (text: String)
    ensures
        text@ == failure(cause@),
        has_prefix(text@, "Error: "@),
{
    let mut text = String::from_str("Error: ");
    text.append(cause);
    assert(text@.subrange(0, "Error: "@.len() as int) =~= "Error: "@);
    text
}

impl YamlTool {
    /// Turns the outcome of the tool's process into the result of the
    /// invocation. This never fails: every failure of the process is told
    /// in the text.
    pub fn call(&self, outcome: ToolOutcome) -> (result: Result<String, ToolError>)
        ensures
            result is Ok,
            result->Ok_0@ == outcome_text(outcome@),
            !(outcome@ matches ToolOutcomeView::Exited { success: true, .. }) ==> has_prefix(
                result->Ok_0@,
                "Error: "@,
            ),
    {
        match outcome {
            ToolOutcome::SpawnFailed(cause) => Ok(failure_text(cause.as_str())),
            ToolOutcome::Exited { success, stdout, stderr } => {
                if success {
                    Ok(utf8_lossy(stdout.as_slice()))
                } else {
                    let errors = utf8_lossy(stderr.as_slice());
                    Ok(failure_text(errors.as_str()))
                }
            },
        }
    }
}

/// The index of the last of `tools` that has the name `name`, or `-1`
/// where none has it.
pub open spec fn last_named(tools: Seq<YamlToolView>, name: Seq<char>) -> int
    decreases tools.len(),
{
    if tools.len() == 0 {
        -1
    } else if tools.last().name == name {
        tools.len() - 1
    } else {
        last_named(tools.drop_last(), name)
    }
}

/// `tools` with `tool` among them: in the place of the tool of the same
/// name where there is one, at the end where there is none.
pub open spec fn registered(tools: Seq<YamlToolView>, tool: YamlToolView) -> Seq<YamlToolView> {
    let at = last_named(tools, tool.name);
    if at == -1 {
        tools.push(tool)
    } else {
        tools.update(at, tool)
    }
}

/// `tools` with each of `more` registered, in the order of `more`.
pub open spec fn registered_all(tools: Seq<YamlToolView>, more: Seq<YamlToolView>) -> Seq<
    YamlToolView,
>
    decreases more.len(),
{
    if more.len() == 0 {
        tools
    } else {
        registered(registered_all(tools, more.drop_last()), more.last())
    }
}

/// What `last_named` returns is the index of a tool of that name, behind
/// which no tool has that name.
pub proof fn lemma_last_named(tools: Seq<YamlToolView>, name: Seq<char>)
    ensures
        -1 <= last_named(tools, name) < tools.len(),
        last_named(tools, name) == -1 ==> forall|i: int|
            0 <= i < tools.len() ==> (#[trigger] tools[i]).name != name,
        last_named(tools, name) != -1 ==> {
            &&& tools[last_named(tools, name)].name == name
            &&& forall|i: int|
                last_named(tools, name) < i < tools.len() ==> (#[trigger] tools[i]).name != name
        },
    decreases tools.len(),
{
    if tools.len() > 0 && tools.last().name != name {
        let front = tools.drop_last();
        lemma_last_named(front, name);
        assert forall|i: int| 0 <= i < front.len() implies front[i] == tools[i] by {}
    }
}

/// The index of the last of `tools` that has the name `name`.
pub fn find_tool(tools: &Vec<YamlTool>, name: &str) -> (found: Option<usize>)
    ensures
        match found {
            Some(i) => i as int == last_named(tools.deep_view(), name@),
            None => last_named(tools.deep_view(), name@) == -1,
        },
{
    let ghost all = tools.deep_view();
    let mut i: usize = tools.len();
    proof {
        assert(all.take(i as int) =~= all);
    }
    while i > 0
        invariant
            i <= tools.len(),
            all == tools.deep_view(),
            last_named(all, name@) == last_named(all.take(i as int), name@),
        decreases i,
    {
        i -= 1;
        let candidate = tools[i].name();
        proof {
            let part = all.take(i + 1);
            assert(part.last() == tools[i as int]@);
            assert(part.drop_last() =~= all.take(i as int));
        }
        if same_text(candidate.as_str(), name) {
            return Some(i);
        }
    }
    None
}

/// Registers a tool among `tools`.
pub fn register_tool(tools: &mut Vec<YamlTool>, tool: YamlTool)
    ensures
        final(tools).deep_view() == registered(old(tools).deep_view(), tool@),
{
    let ghost before = tools.deep_view();
    let name = tool.name();
    proof {
        lemma_last_named(before, name@);
    }
    match find_tool(tools, name.as_str()) {
        Some(at) => {
            tools.set(at, tool);
            assert(tools.deep_view() =~= before.update(at as int, tool@));
        },
        None => {
            tools.push(tool);
            assert(tools.deep_view() =~= before.push(tool@));
        },
    }
}

/// No two of `tools` have the same name.
pub open spec fn names_apart(tools: Seq<YamlToolView>) -> bool {
    forall|i: int, j: int| 0 <= i < j < tools.len() ==> tools[i].name != tools[j].name
}

/// Which tool a name finds depends on the names alone.
pub proof fn lemma_last_named_by_names(a: Seq<YamlToolView>, b: Seq<YamlToolView>, name: Seq<char>)
    requires
        a.len() == b.len(),
        forall|i: int| 0 <= i < a.len() ==> a[i].name == b[i].name,
    ensures
        last_named(a, name) == last_named(b, name),
    decreases a.len(),
{
    if a.len() > 0 {
        assert(a.last().name == b.last().name);
        lemma_last_named_by_names(a.drop_last(), b.drop_last(), name);
    }
}

/// A tool that was registered is the one that its name finds: of two
/// tools with one name, the one registered last wins.
pub proof fn lemma_registered_is_found(tools: Seq<YamlToolView>, tool: YamlToolView)
    ensures
        last_named(registered(tools, tool), tool.name) != -1,
        registered(tools, tool)[last_named(registered(tools, tool), tool.name)] == tool,
{
    let at = last_named(tools, tool.name);
    let after = registered(tools, tool);
    lemma_last_named(tools, tool.name);
    if at == -1 {
        assert(after.last() == tool);
    } else {
        lemma_last_named_by_names(tools, after, tool.name);
    }
}

/// Registering a tool leaves the tool that any other name finds as it was.
pub proof fn lemma_registered_keeps_others(
    tools: Seq<YamlToolView>,
    tool: YamlToolView,
    name: Seq<char>,
)
    requires
        name != tool.name,
    ensures
        last_named(registered(tools, tool), name) == last_named(tools, name),
        last_named(tools, name) != -1 ==> registered(tools, tool)[last_named(tools, name)]
            == tools[last_named(tools, name)],
{
    let at = last_named(tools, tool.name);
    let after = registered(tools, tool);
    lemma_last_named(tools, tool.name);
    lemma_last_named(tools, name);
    if at == -1 {
        assert(after.drop_last() =~= tools);
    } else {
        lemma_last_named_by_names(tools, after, name);
    }
}

/// Registering a tool among tools with different names gives tools with
/// different names.
pub proof fn lemma_registered_keeps_names_apart(tools: Seq<YamlToolView>, tool: YamlToolView)
    requires
        names_apart(tools),
    ensures
        names_apart(registered(tools, tool)),
{
    lemma_last_named(tools, tool.name);
}

/// Registering tools among tools with different names gives tools with
/// different names.
pub proof fn lemma_registered_all_keeps_names_apart(
    tools: Seq<YamlToolView>,
    more: Seq<YamlToolView>,
)
    requires
        names_apart(tools),
    ensures
        names_apart(registered_all(tools, more)),
    decreases more.len(),
{
    if more.len() > 0 {
        lemma_registered_all_keeps_names_apart(tools, more.drop_last());
        lemma_registered_keeps_names_apart(registered_all(tools, more.drop_last()), more.last());
    }
}

} // verus!
