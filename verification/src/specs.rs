//! Plugin-provided specifications: data types (`types/<type_fqdn>.json`)
//! and node specifications (`nodes/<node_fqdn>.json`), and the plain
//! instance and edge shapes of workflow files.

use vstd::prelude::*;
use crate::json::JsonValue;
use crate::strmap::StrMap;

verus! {

/// A data type definition.
#[derive(Debug)]
pub struct DataType {
    pub type_fqdn: String,
    pub version: String,
    pub metadata: TypeMetadata,
    pub properties: TypeProperties,
}

/// Descriptive data of a data type.
#[derive(Debug)]
pub struct TypeMetadata {
    pub display_name: String,
    pub description: String,
    pub author: Option<String>,
    pub created: Option<String>,
}

/// The shape of a data type.
#[derive(Debug)]
pub struct TypeProperties {
    pub kind: String,
    pub format: String,
    pub constraints: JsonValue,
}

/// A node specification.
#[derive(Debug)]
pub struct NodeSpec {
    /// `primitive`, `action` or `flow` (the `type` field of the file).
    pub node_type: String,
    pub node_fqdn: String,
    pub plugin_version: String,
    pub node_version: String,
    /// For Python plugins, the class to dispatch to.
    pub class: Option<String>,
    pub inputs: Vec<IOField>,
    pub outputs: Vec<IOField>,
    pub metadata: NodeMetadata,
}

/// An input or output field of a node specification.
#[derive(Debug)]
pub struct IOField {
    pub name: String,
    /// The field's type (the `type` field of the file).
    pub field_type: String,
    pub multiple: bool,
    pub required: bool,
}

/// Descriptive data of a node specification.
#[derive(Debug)]
pub struct NodeMetadata {
    pub display_name: String,
    pub description: String,
    pub author: Option<String>,
    pub created: Option<String>,
    pub tags: Option<Vec<String>>,
    pub icon: Option<String>,
}

/// A node instance in a workflow, with its remaining fields as named values.
#[derive(Debug)]
pub struct NodeInstance {
    pub id: String,
    pub node_fqdn: String,
    /// Other fields of the instance, such as `value` of a primitive.
    pub params: StrMap<JsonValue>,
}

/// An edge connecting an output of one node instance to an input of another.
#[derive(Debug)]
pub struct EdgeDefinition {
    pub from_node: String,
    pub from_output: String,
    pub to_node: String,
    pub to_input: String,
}

impl EdgeDefinition {
    /// A copy of the edge.
    pub fn copy(&self) -> (r: EdgeDefinition)
        ensures
            r == *self,
    {
        EdgeDefinition {
            from_node: self.from_node.clone(),
            from_output: self.from_output.clone(),
            to_node: self.to_node.clone(),
            to_input: self.to_input.clone(),
        }
    }
}

fn copy_opt_text(a: &Option<String>) -> (r: Option<String>)
    ensures
        r == *a,
{
    match a {
        Some(s) => Some(s.clone()),
        None => None,
    }
}

impl IOField {
    /// A copy of the field.
    pub fn copy(&self) -> (r: IOField)
        ensures
            r == *self,
    {
        IOField { name: self.name.clone(), field_type: self.field_type.clone(), multiple: self.multiple, required: self.required }
    }
}

fn copy_fields(v: &Vec<IOField>) -> (r: Vec<IOField>)
    ensures
        r@ == v@,
{
    let mut out: Vec<IOField> = Vec::new();
    let mut i: usize = 0;
    while i < v.len()
        invariant
            i <= v@.len(),
            out@ == v@.take(i as int),
        decreases v@.len() - i,
    {
        out.push(v[i].copy());
        assert(out@ =~= v@.take(i + 1));
        i = i + 1;
    }
    assert(v@.take(v@.len() as int) =~= v@);
    out
}

fn copy_texts(v: &Vec<String>) -> (r: Vec<String>)
    ensures
        r@ == v@,
{
    let mut out: Vec<String> = Vec::new();
    let mut i: usize = 0;
    while i < v.len()
        invariant
            i <= v@.len(),
            out@ == v@.take(i as int),
        decreases v@.len() - i,
    {
        out.push(v[i].clone());
        assert(out@ =~= v@.take(i + 1));
        i = i + 1;
    }
    assert(v@.take(v@.len() as int) =~= v@);
    out
}

/// Two node specifications with the same content.
pub open spec fn same_spec(a: NodeSpec, b: NodeSpec) -> bool {
    &&& a.node_type == b.node_type
    &&& a.node_fqdn == b.node_fqdn
    &&& a.plugin_version == b.plugin_version
    &&& a.node_version == b.node_version
    &&& a.class == b.class
    &&& a.inputs@ == b.inputs@
    &&& a.outputs@ == b.outputs@
    &&& a.metadata.display_name == b.metadata.display_name
    &&& a.metadata.description == b.metadata.description
    &&& a.metadata.author == b.metadata.author
    &&& a.metadata.created == b.metadata.created
    &&& match (a.metadata.tags, b.metadata.tags) {
        (Some(x), Some(y)) => x@ == y@,
        (None, None) => true,
        _ => false,
    }
    &&& a.metadata.icon == b.metadata.icon
}

impl NodeSpec {
    /// A copy of the specification.
    pub fn copy(&self) -> (r: NodeSpec)
        ensures
            same_spec(r, *self),
    {
        NodeSpec {
            node_type: self.node_type.clone(),
            node_fqdn: self.node_fqdn.clone(),
            plugin_version: self.plugin_version.clone(),
            node_version: self.node_version.clone(),
            class: copy_opt_text(&self.class),
            inputs: copy_fields(&self.inputs),
            outputs: copy_fields(&self.outputs),
            metadata: NodeMetadata {
                display_name: self.metadata.display_name.clone(),
                description: self.metadata.description.clone(),
                author: copy_opt_text(&self.metadata.author),
                created: copy_opt_text(&self.metadata.created),
                tags: match &self.metadata.tags {
                    Some(t) => Some(copy_texts(t)),
                    None => None,
                },
                icon: copy_opt_text(&self.metadata.icon),
            },
        }
    }
}

} // verus!
