//! What the model is told of the worktree tools.

use vstd::prelude::*;
use vstd::string::*;

use crate::json::JsonView;
use crate::output::{enter_members, exit_members, EnterOutputView, ExitOutputView};
use crate::text::{list1, list2, list6, push_text};

verus! {

pub const ENTER_WORKTREE_TOOL_NAME: &'static str = "enter_worktree";

pub const EXIT_WORKTREE_TOOL_NAME: &'static str = "exit_worktree";

/// A parameter of a tool.
pub struct PropertySchema {
    /// The JSON type of the parameter.
    pub kind: String,
    pub description: String,
}

/// An object with known properties.
pub struct ObjectSchema {
    pub properties: Vec<(String, PropertySchema)>,
    pub required: Option<Vec<String>>,
    pub additional_properties: bool,
}

/// The parameters of a tool.
pub struct ToolParameters {
    pub object: ObjectSchema,
    /// Exactly one of these has to hold too.
    pub one_of: Option<Vec<ObjectSchema>>,
}

/// What a tool gives back: an object, and for each property the JSON types that it may have.
pub struct OutputSchema {
    pub properties: Vec<(String, Vec<String>)>,
    pub required: Vec<String>,
    pub additional_properties: bool,
}

/// A tool that the model can call.
pub struct ToolSpec {
    pub name: String,
    pub description: String,
    pub strict: bool,
    pub defer_loading: Option<bool>,
    pub parameters: ToolParameters,
    pub output_schema: OutputSchema,
}

/// A parameter, in specifications.
pub struct PropertyView {
    pub kind: Seq<char>,
    pub description: Seq<char>,
}

/// An object schema, in specifications.
pub struct ObjectView {
    pub properties: Seq<(Seq<char>, PropertyView)>,
    pub required: Option<Seq<Seq<char>>>,
    pub additional_properties: bool,
}

/// The parameters, in specifications.
pub struct ParametersView {
    pub object: ObjectView,
    pub one_of: Option<Seq<ObjectView>>,
}

/// An output schema, in specifications.
pub struct OutputSchemaView {
    pub properties: Seq<(Seq<char>, Seq<Seq<char>>)>,
    pub required: Seq<Seq<char>>,
    pub additional_properties: bool,
}

/// A tool, in specifications.
pub struct ToolView {
    pub name: Seq<char>,
    pub description: Seq<char>,
    pub strict: bool,
    pub defer_loading: Option<bool>,
    pub parameters: ParametersView,
    pub output_schema: OutputSchemaView,
}

impl DeepView for PropertySchema {
    type V = PropertyView;

    open spec fn deep_view(&self) -> PropertyView {
        PropertyView { kind: self.kind@, description: self.description@ }
    }
}

impl DeepView for ObjectSchema {
    type V = ObjectView;

    open spec fn deep_view(&self) -> ObjectView {
        ObjectView {
            properties: self.properties.deep_view(),
            required: self.required.deep_view(),
            additional_properties: self.additional_properties,
        }
    }
}

impl DeepView for ToolParameters {
    type V = ParametersView;

    open spec fn deep_view(&self) -> ParametersView {
        ParametersView { object: self.object.deep_view(), one_of: self.one_of.deep_view() }
    }
}

impl DeepView for OutputSchema {
    type V = OutputSchemaView;

    open spec fn deep_view(&self) -> OutputSchemaView {
        OutputSchemaView {
            properties: self.properties.deep_view(),
            required: self.required.deep_view(),
            additional_properties: self.additional_properties,
        }
    }
}

impl DeepView for ToolSpec {
    type V = ToolView;

    open spec fn deep_view(&self) -> ToolView {
        ToolView {
            name: self.name@,
            description: self.description@,
            strict: self.strict,
            defer_loading: self.defer_loading,
            parameters: self.parameters.deep_view(),
            output_schema: self.output_schema.deep_view(),
        }
    }
}

/// The parameter that names a managed worktree.
pub open spec fn name_property() -> (Seq<char>, PropertyView) {
    (
        "name"@,
        PropertyView {
            kind: "string"@,
            description: "Codex-managed worktree name. Required unless `path` is provided. Must not be combined with `path`."@,
        },
    )
}

/// The parameter that names a directory.
pub open spec fn path_property() -> (Seq<char>, PropertyView) {
    (
        "path"@,
        PropertyView {
            kind: "string"@,
            description: "Existing Codex-managed worktree path for the same repository. Relative paths resolve under the current cwd. Required unless `name` is provided. Must not be combined with `name`."@,
        },
    )
}

/// The parameter that says whether to keep the worktree.
pub open spec fn keep_property() -> (Seq<char>, PropertyView) {
    (
        "keep"@,
        PropertyView {
            kind: "boolean"@,
            description: "Whether to keep the active Codex-managed worktree after exiting. Defaults to true; set to false to remove a clean managed worktree."@,
        },
    )
}

/// An object of one property, which is required.
pub open spec fn selector(property: (Seq<char>, PropertyView)) -> ObjectView {
    ObjectView {
        properties: seq![property],
        required: Some(seq![property.0]),
        additional_properties: false,
    }
}

/// The parameters of entering: a name or a path, and exactly one of them.
pub open spec fn enter_parameters() -> ParametersView {
    ParametersView {
        object: ObjectView {
            properties: seq![name_property(), path_property()],
            required: None,
            additional_properties: false,
        },
        one_of: Some(seq![selector(name_property()), selector(path_property())]),
    }
}

/// The parameters of leaving.
pub open spec fn exit_parameters() -> ParametersView {
    ParametersView {
        object: ObjectView {
            properties: seq![keep_property()],
            required: None,
            additional_properties: false,
        },
        one_of: None,
    }
}

/// The properties of what entering gives back.
pub open spec fn enter_output_properties() -> Seq<(Seq<char>, Seq<Seq<char>>)> {
    seq![
        ("cwd"@, seq!["string"@]),
        ("worktree_path"@, seq!["string"@]),
        ("original_cwd"@, seq!["string"@]),
        ("branch"@, seq!["string"@, "null"@]),
        ("name"@, seq!["string"@, "null"@]),
        ("created"@, seq!["boolean"@, "null"@]),
    ]
}

/// The schema of what entering gives back.
pub open spec fn enter_output_schema() -> OutputSchemaView {
    OutputSchemaView {
        properties: enter_output_properties(),
        required: seq![
            "cwd"@,
            "worktree_path"@,
            "original_cwd"@,
            "branch"@,
            "name"@,
            "created"@,
        ],
        additional_properties: false,
    }
}

/// The schema of what leaving gives back.
pub open spec fn exit_output_schema() -> OutputSchemaView {
    OutputSchemaView {
        properties: enter_output_properties() + seq![
            ("keep"@, seq!["boolean"@]),
            ("removed"@, seq!["boolean"@]),
        ],
        required: enter_output_schema().required + seq!["keep"@, "removed"@],
        additional_properties: false,
    }
}

/// The tool that enters a worktree.
pub open spec fn enter_tool() -> ToolView {
    ToolView {
        name: "enter_worktree"@,
        description: "Enter a git worktree for this session. The cwd change is applied to later serialized tool calls and subsequent model requests. Provide either `name` for a Codex-managed worktree, or `path` for an existing Codex-managed worktree in the same repository."@,
        strict: false,
        defer_loading: None,
        parameters: enter_parameters(),
        output_schema: enter_output_schema(),
    }
}

/// The tool that leaves a worktree.
pub open spec fn exit_tool() -> ToolView {
    ToolView {
        name: "exit_worktree"@,
        description: "Exit the active worktree and restore this session's original cwd. The cwd change is applied to later serialized tool calls and subsequent model requests. By default this keeps the worktree. Pass `keep: false` to remove the active clean Codex-managed worktree after restoring the original cwd; dirty worktrees are not force-removed."@,
        strict: false,
        defer_loading: None,
        parameters: exit_parameters(),
        output_schema: exit_output_schema(),
    }
}

fn push_property(
    properties: &mut Vec<(String, PropertySchema)>,
    name: &str,
    kind: &str,
    description: &str,
)
    ensures
        final(properties).deep_view() == old(properties).deep_view().push(
            (name@, (PropertyView { kind: kind@, description: description@ })),
        ),
{
    let ghost before = properties.deep_view();
    let property: PropertySchema = PropertySchema {
        kind: kind.to_owned(),
        description: description.to_owned(),
    };
    properties.push((name.to_owned(), property));
    assert(properties.deep_view() =~= before.push(
        (name@, PropertyView { kind: kind@, description: description@ }),
    ));
}

fn push_name_property(properties: &mut Vec<(String, PropertySchema)>)
    ensures
        final(properties).deep_view() == old(properties).deep_view().push(name_property()),
{
    push_property(
        properties,
        "name",
        "string",
        "Codex-managed worktree name. Required unless `path` is provided. Must not be combined with `path`.",
    );
}

fn push_path_property(properties: &mut Vec<(String, PropertySchema)>)
    ensures
        final(properties).deep_view() == old(properties).deep_view().push(path_property()),
{
    push_property(
        properties,
        "path",
        "string",
        "Existing Codex-managed worktree path for the same repository. Relative paths resolve under the current cwd. Required unless `name` is provided. Must not be combined with `name`.",
    );
}

fn no_properties() -> (properties: Vec<(String, PropertySchema)>)
    ensures
        properties.deep_view() == Seq::<(Seq<char>, PropertyView)>::empty(),
{
    let properties: Vec<(String, PropertySchema)> = Vec::new();
    assert(properties.deep_view() =~= Seq::<(Seq<char>, PropertyView)>::empty());
    properties
}

fn enter_worktree_parameters() -> (parameters: ToolParameters)
    ensures
        parameters.deep_view() == enter_parameters(),
{
    let mut both: Vec<(String, PropertySchema)> = no_properties();
    push_name_property(&mut both);
    push_path_property(&mut both);
    assert(both.deep_view() =~= enter_parameters().object.properties);
    let mut by_name: Vec<(String, PropertySchema)> = no_properties();
    push_name_property(&mut by_name);
    assert(by_name.deep_view() =~= seq![name_property()]);
    let mut by_path: Vec<(String, PropertySchema)> = no_properties();
    push_path_property(&mut by_path);
    assert(by_path.deep_view() =~= seq![path_property()]);
    let named: ObjectSchema = ObjectSchema {
        properties: by_name,
        required: Some(list1("name")),
        additional_properties: false,
    };
    let located: ObjectSchema = ObjectSchema {
        properties: by_path,
        required: Some(list1("path")),
        additional_properties: false,
    };
    let mut one_of: Vec<ObjectSchema> = Vec::new();
    one_of.push(named);
    one_of.push(located);
    assert(one_of.deep_view() =~= enter_parameters().one_of->0);
    ToolParameters {
        object: ObjectSchema {
            properties: both,
            required: None,
            additional_properties: false,
        },
        one_of: Some(one_of),
    }
}

fn push_output_property(
    properties: &mut Vec<(String, Vec<String>)>,
    name: &str,
    kinds: Vec<String>,
)
    ensures
        final(properties).deep_view() == old(properties).deep_view().push(
            (name@, kinds.deep_view()),
        ),
{
    let ghost before = properties.deep_view();
    properties.push((name.to_owned(), kinds));
    assert(properties.deep_view() =~= before.push((name@, kinds.deep_view())));
}

/// The schema of what entering a worktree gives back.
pub fn worktree_output_schema() -> (schema: OutputSchema)
    ensures
        schema.deep_view() == enter_output_schema(),
{
    let mut properties: Vec<(String, Vec<String>)> = Vec::new();
    assert(properties.deep_view() =~= Seq::<(Seq<char>, Seq<Seq<char>>)>::empty());
    push_output_property(&mut properties, "cwd", list1("string"));
    push_output_property(&mut properties, "worktree_path", list1("string"));
    push_output_property(&mut properties, "original_cwd", list1("string"));
    push_output_property(&mut properties, "branch", list2("string", "null"));
    push_output_property(&mut properties, "name", list2("string", "null"));
    push_output_property(&mut properties, "created", list2("boolean", "null"));
    assert(properties.deep_view() =~= enter_output_properties());
    OutputSchema {
        properties,
        required: list6("cwd", "worktree_path", "original_cwd", "branch", "name", "created"),
        additional_properties: false,
    }
}

/// The schema of what leaving a worktree gives back.
pub fn exit_worktree_output_schema() -> (schema: OutputSchema)
    ensures
        schema.deep_view() == exit_output_schema(),
{
    let OutputSchema { mut properties, mut required, additional_properties } =
        worktree_output_schema();
    push_output_property(&mut properties, "keep", list1("boolean"));
    push_output_property(&mut properties, "removed", list1("boolean"));
    push_text(&mut required, "keep".to_owned());
    push_text(&mut required, "removed".to_owned());
    assert(properties.deep_view() =~= exit_output_schema().properties);
    assert(required.deep_view() =~= exit_output_schema().required);
    OutputSchema { properties, required, additional_properties }
}

/// The tool that enters a worktree.
pub fn create_enter_worktree_tool() -> (tool: ToolSpec)
    ensures
        tool.deep_view() == enter_tool(),
{
    ToolSpec {
        name: ENTER_WORKTREE_TOOL_NAME.to_owned(),
        description: "Enter a git worktree for this session. The cwd change is applied to later serialized tool calls and subsequent model requests. Provide either `name` for a Codex-managed worktree, or `path` for an existing Codex-managed worktree in the same repository.".to_owned(),
        strict: false,
        defer_loading: None,
        parameters: enter_worktree_parameters(),
        output_schema: worktree_output_schema(),
    }
}

/// The tool that leaves a worktree.
pub fn create_exit_worktree_tool() -> (tool: ToolSpec)
    ensures
        tool.deep_view() == exit_tool(),
{
    let mut properties: Vec<(String, PropertySchema)> = no_properties();
    push_property(
        &mut properties,
        "keep",
        "boolean",
        "Whether to keep the active Codex-managed worktree after exiting. Defaults to true; set to false to remove a clean managed worktree.",
    );
    assert(properties.deep_view() =~= seq![keep_property()]);
    ToolSpec {
        name: EXIT_WORKTREE_TOOL_NAME.to_owned(),
        description: "Exit the active worktree and restore this session's original cwd. The cwd change is applied to later serialized tool calls and subsequent model requests. By default this keeps the worktree. Pass `keep: false` to remove the active clean Codex-managed worktree after restoring the original cwd; dirty worktrees are not force-removed.".to_owned(),
        strict: false,
        defer_loading: None,
        parameters: ToolParameters {
            object: ObjectSchema {
                properties,
                required: None,
                additional_properties: false,
            },
            one_of: None,
        },
        output_schema: exit_worktree_output_schema(),
    }
}

/// The JSON type of a value.
pub open spec fn kind_of(value: JsonView) -> Seq<char> {
    match value {
        JsonView::Null => "null"@,
        JsonView::Bool(_) => "boolean"@,
        JsonView::Text(_) => "string"@,
    }
}

/// An object holds the properties of the schema, each with a type that it may have, and nothing
/// else; and all of them are required.
pub open spec fn conforms(members: Seq<(Seq<char>, JsonView)>, schema: OutputSchemaView) -> bool {
    &&& !schema.additional_properties
    &&& members.len() == schema.properties.len() == schema.required.len()
    &&& forall|i: int|
        0 <= i < members.len() ==> {
            &&& (#[trigger] members[i]).0 == schema.properties[i].0
            &&& schema.required[i] == members[i].0
            &&& schema.properties[i].1.contains(kind_of(members[i].1))
        }
}

/// What the tools give back is what their schemas say.
pub proof fn lemma_outputs_conform(enter: EnterOutputView, exit: ExitOutputView)
    ensures
        conforms(enter_members(enter), enter_tool().output_schema),
        conforms(exit_members(exit), exit_tool().output_schema),
{
    assert forall|output: EnterOutputView, i: int| 0 <= i < 6 implies {
        &&& (#[trigger] enter_members(output)[i]).0 == enter_output_properties()[i].0
        &&& enter_output_schema().required[i] == enter_output_properties()[i].0
        &&& enter_output_properties()[i].1.contains(kind_of(enter_members(output)[i].1))
    } by {
        let kinds = enter_output_properties()[i].1;
        if kinds.len() == 1 {
            assert(kinds[0] == kind_of(enter_members(output)[i].1));
        } else {
            assert(kinds[0] == kind_of(enter_members(output)[i].1) || kinds[1] == kind_of(
                enter_members(output)[i].1,
            ));
        }
    }
    let members = exit_members(exit);
    let schema = exit_tool().output_schema;
    assert forall|i: int| 0 <= i < members.len() implies {
        &&& (#[trigger] members[i]).0 == schema.properties[i].0
        &&& schema.required[i] == members[i].0
        &&& schema.properties[i].1.contains(kind_of(members[i].1))
    } by {
        if i < 6 {
            assert(members[i] == enter_members(exit.entered)[i]);
            assert(schema.properties[i] == enter_output_properties()[i]);
        } else {
            assert(schema.properties[i].1[0] == kind_of(members[i].1));
        }
    }
}

/// The arguments of entering are either a name or a path: each way to call the tool requires one
/// of them and takes no other.
pub proof fn lemma_enter_requires_exactly_one_selector(i: int)
    requires
        0 <= i < enter_tool().parameters.one_of->0.len(),
    ensures
        enter_tool().parameters.one_of is Some,
        enter_tool().parameters.object.properties.len() == enter_tool().parameters.one_of->0.len(),
        ({
            let way = enter_tool().parameters.one_of->0[i];
            let property = enter_tool().parameters.object.properties[i];
            &&& way.properties == seq![property]
            &&& way.required == Some(seq![property.0])
            &&& !way.additional_properties
        }),
{
}

/// Entering takes a name or a path, both texts; leaving takes the flag whether to keep the
/// worktree, which may be left out. Neither takes anything else. Both tools are always there, and
/// not strict.
pub proof fn lemma_tools_take_what_they_need()
    ensures
        enter_tool().name == "enter_worktree"@,
        exit_tool().name == "exit_worktree"@,
        !enter_tool().strict && !exit_tool().strict,
        enter_tool().defer_loading is None && exit_tool().defer_loading is None,
        enter_tool().parameters.object.properties.len() == 2,
        enter_tool().parameters.object.properties[0].0 == "name"@,
        enter_tool().parameters.object.properties[0].1.kind == "string"@,
        enter_tool().parameters.object.properties[1].0 == "path"@,
        enter_tool().parameters.object.properties[1].1.kind == "string"@,
        enter_tool().parameters.object.required is None,
        !enter_tool().parameters.object.additional_properties,
        enter_tool().parameters.one_of is Some,
        exit_tool().parameters.object.properties.len() == 1,
        exit_tool().parameters.object.properties[0].0 == "keep"@,
        exit_tool().parameters.object.properties[0].1.kind == "boolean"@,
        exit_tool().parameters.object.required is None,
        !exit_tool().parameters.object.additional_properties,
        exit_tool().parameters.one_of is None,
{
}

/// A result holds texts for the directories, a text or nothing for the branch and the name, and a
/// flag or nothing for whether the worktree is new; that of leaving also two flags.
pub proof fn lemma_results_hold_what_is_declared(i: int)
    requires
        0 <= i < 8,
    ensures
        enter_tool().output_schema.properties.len() == 6,
        exit_tool().output_schema.properties.len() == 8,
        exit_tool().output_schema.properties[i].0 == seq![
            "cwd"@,
            "worktree_path"@,
            "original_cwd"@,
            "branch"@,
            "name"@,
            "created"@,
            "keep"@,
            "removed"@,
        ][i],
        exit_tool().output_schema.properties[i].1 == (if i < 3 {
            seq!["string"@]
        } else if i < 5 {
            seq!["string"@, "null"@]
        } else if i == 5 {
            seq!["boolean"@, "null"@]
        } else {
            seq!["boolean"@]
        }),
        i < 6 ==> enter_tool().output_schema.properties[i]
            == exit_tool().output_schema.properties[i],
{
}

/// The tools and what they take are described to the model in these words.
pub proof fn lemma_tools_are_described()
    ensures
        enter_tool().description
            == "Enter a git worktree for this session. The cwd change is applied to later serialized tool calls and subsequent model requests. Provide either `name` for a Codex-managed worktree, or `path` for an existing Codex-managed worktree in the same repository."@,
        enter_tool().parameters.object.properties[0].1.description
            == "Codex-managed worktree name. Required unless `path` is provided. Must not be combined with `path`."@,
        enter_tool().parameters.object.properties[1].1.description
            == "Existing Codex-managed worktree path for the same repository. Relative paths resolve under the current cwd. Required unless `name` is provided. Must not be combined with `name`."@,
        exit_tool().description
            == "Exit the active worktree and restore this session's original cwd. The cwd change is applied to later serialized tool calls and subsequent model requests. By default this keeps the worktree. Pass `keep: false` to remove the active clean Codex-managed worktree after restoring the original cwd; dirty worktrees are not force-removed."@,
        exit_tool().parameters.object.properties[0].1.description
            == "Whether to keep the active Codex-managed worktree after exiting. Defaults to true; set to false to remove a clean managed worktree."@,
{
}

} // verus!
