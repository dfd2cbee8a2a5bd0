//! The parameters that the list and the run operation accept, as data that
//! a host can turn into the schema format of its model.

use vstd::prelude::*;
use vstd::string::*;
use crate::security_tools::capability::{
    ListSecurityTools, RunSecurityTool, TaggedListSecurityTools, TaggedRunSecurityTool,
};
use crate::text::{lemma_texts_push, texts};

verus! {

/// The kind of value a parameter takes.
#[derive(Clone, Copy, Debug, PartialEq, Eq, Structural)]
pub enum ParamKind {
    /// A string.
    Text,
    /// An array of strings.
    TextList,
}

/// One parameter of an operation.
#[derive(Debug)]
pub struct ParamSchema {
    /// The key under which the parameter is passed.
    pub name: String,
    /// The kind of value it takes.
    pub kind: ParamKind,
    /// The values it may take; empty when any value of the kind will do.
    pub choices: Vec<String>,
    /// What the parameter means, in words for the model.
    pub description: String,
}

/// The parameters of an operation: an object with these properties.
#[derive(Debug)]
pub struct JsonSchema {
    /// The properties of the object.
    pub properties: Vec<ParamSchema>,
    /// The names of the properties that a call must hold.
    pub required: Vec<String>,
}

/// The mathematical value of a [`ParamSchema`].
pub ghost struct ParamSchemaView {
    pub name: Seq<char>,
    pub kind: ParamKind,
    pub choices: Seq<Seq<char>>,
    pub description: Seq<char>,
}

impl View for ParamSchema {
    type V = ParamSchemaView;

    open spec fn view(&self) -> ParamSchemaView {
        ParamSchemaView {
            name: self.name@,
            kind: self.kind,
            choices: texts(self.choices@),
            description: self.description@,
        }
    }
}

/// The mathematical value of a [`JsonSchema`].
pub ghost struct JsonSchemaView {
    pub properties: Seq<ParamSchemaView>,
    pub required: Seq<Seq<char>>,
}

impl View for JsonSchema {
    type V = JsonSchemaView;

    open spec fn view(&self) -> JsonSchemaView {
        JsonSchemaView {
            properties: self.properties@.map_values(|p: ParamSchema| p@),
            required: texts(self.required@),
        }
    }
}

/// The labels of the categories, in the order of their declaration.
pub open spec fn category_labels() -> Seq<Seq<char>> {
    seq![
        "network"@,
        "process"@,
        "rootkit"@,
        "hardening"@,
        "filesystem"@,
        "general"@,
    ]
}

/// The parameters of a list call: an optional category, one of the six
/// labels.
pub open spec fn list_schema_view() -> JsonSchemaView {
    JsonSchemaView {
        properties: seq![
            ParamSchemaView {
                name: "category"@,
                kind: ParamKind::Text,
                choices: category_labels(),
                description: "Optional: filter by category"@,
            },
        ],
        required: Seq::empty(),
    }
}

/// The parameters of a run call: the id of the tool, which is required,
/// and its arguments.
pub open spec fn run_schema_view() -> JsonSchemaView {
    JsonSchemaView {
        properties: seq![
            ParamSchemaView {
                name: "tool_id"@,
                kind: ParamKind::Text,
                choices: Seq::empty(),
                description: "The ID of the tool to execute (e.g., 'portlist', 'chkrootkit')"@,
            },
            ParamSchemaView {
                name: "args"@,
                kind: ParamKind::TextList,
                choices: Seq::empty(),
                description: "Optional command-line arguments to pass to the tool"@,
            },
        ],
        required: seq!["tool_id"@],
    }
}

/// The parameters of a list call.
pub fn list_schema() -> (res: JsonSchema)
    ensures
        res@ == list_schema_view(),
{
    let mut choices: Vec<String> = Vec::new();
    choices.push(String::from_str("network"));
    choices.push(String::from_str("process"));
    choices.push(String::from_str("rootkit"));
    choices.push(String::from_str("hardening"));
    choices.push(String::from_str("filesystem"));
    choices.push(String::from_str("general"));
    proof {
        assert(texts(choices@) =~= category_labels());
    }
    let category = ParamSchema {
        name: String::from_str("category"),
        kind: ParamKind::Text,
        choices,
        description: String::from_str("Optional: filter by category"),
    };
    let mut properties: Vec<ParamSchema> = Vec::new();
    properties.push(category);
    let required: Vec<String> = Vec::new();
    let res = JsonSchema { properties, required };
    proof {
        assert(res@.properties =~= list_schema_view().properties);
        assert(res@.required =~= list_schema_view().required);
    }
    res
}

/// The parameters of a run call.
pub fn run_schema() -> (res: JsonSchema)
    ensures
        res@ == run_schema_view(),
{
    let no_choices: Vec<String> = Vec::new();
    let no_choices_either: Vec<String> = Vec::new();
    proof {
        assert(texts(no_choices@) =~= Seq::<Seq<char>>::empty());
        assert(texts(no_choices_either@) =~= Seq::<Seq<char>>::empty());
    }
    let tool_id = ParamSchema {
        name: String::from_str("tool_id"),
        kind: ParamKind::Text,
        choices: no_choices,
        description: String::from_str(
            "The ID of the tool to execute (e.g., 'portlist', 'chkrootkit')",
        ),
    };
    let args = ParamSchema {
        name: String::from_str("args"),
        kind: ParamKind::TextList,
        choices: no_choices_either,
        description: String::from_str("Optional command-line arguments to pass to the tool"),
    };
    let mut properties: Vec<ParamSchema> = Vec::new();
    properties.push(tool_id);
    properties.push(args);
    let mut required: Vec<String> = Vec::new();
    let ghost none = required@;
    let name = String::from_str("tool_id");
    required.push(name);
    proof {
        lemma_texts_push(none, name);
    }
    let res = JsonSchema { properties, required };
    proof {
        assert(res@.properties =~= run_schema_view().properties);
        assert(res@.required =~= run_schema_view().required);
    }
    res
}

impl ListSecurityTools {
    /// The parameters that a list call accepts.
    pub fn input_schema(&self) -> (res: JsonSchema)
        ensures
            res@ == list_schema_view(),
    {
        list_schema()
    }
}

impl TaggedListSecurityTools {
    /// The parameters that a list call accepts.
    pub fn input_schema(&self) -> (res: JsonSchema)
        ensures
            res@ == list_schema_view(),
    {
        list_schema()
    }
}

impl RunSecurityTool {
    /// The parameters that a run call accepts.
    pub fn input_schema(&self) -> (res: JsonSchema)
        ensures
            res@ == run_schema_view(),
    {
        run_schema()
    }
}

impl TaggedRunSecurityTool {
    /// The parameters that a run call accepts.
    pub fn input_schema(&self) -> (res: JsonSchema)
        ensures
            res@ == run_schema_view(),
    {
        run_schema()
    }
}

} // verus!
