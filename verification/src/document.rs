//! A loaded document: its title, its version, and the trees of its named
//! schemas in alphabetical order.

use crate::builder::{law_built_collapsed, schema_ref_spec, schema_ref_to_node};
use crate::json::{text_member, text_member_of};
use crate::laws::lemma_collapsed_paths;
use crate::model::{forest_with_all, node_with_all, NodeModel, RowModel, TreeModel};
use crate::named::{entries, named_schemas};
use crate::order::{
    lemma_name_le_antisymmetric, lemma_name_order, name_le, name_order, sorted_order,
};
use crate::schema::SchemaRef;
use crate::text::{has_prefix, starts_with};
use crate::tree::{forest_view, TreeNode};
use crate::yaml::{decode_value, yaml_value};
use indexmap::IndexMap;
use vstd::prelude::*;

verus! {

/// The dialect and version of a document.
#[derive(Debug, Clone, Copy, PartialEq, Eq, Structural)]
pub enum SpecVersion {
    V20,
    V30,
    V31,
}

/// A loaded document: its title, the version it declares and the version
/// that this resolves to, and its schemas as names and as trees.
pub struct LoadedSpec {
    pub title: String,
    pub openapi_version: String,
    pub version: SpecVersion,
    /// The names of the top-level schemas, in alphabetical order.
    pub schema_names: Vec<String>,
    /// The tree of each top-level schema, in the order of `schema_names`.
    pub schema_nodes: Vec<TreeNode>,
}

/// A decoded document: what the loader reads of it. The schemas stand in the
/// order in which the decoder met them.
pub struct Document {
    pub title: String,
    pub openapi: String,
    pub schemas: IndexMap<String, SchemaRef>,
}

/// Why a document is not loaded.
#[derive(Debug, PartialEq, Eq)]
pub enum LoadError {
    /// The text is not valid YAML or JSON; the decoder's own words are kept.
    Malformed(String),
    /// The document declares Swagger 2.x.
    SwaggerUnsupported,
    /// The document declares neither Swagger 2.x nor OpenAPI 3.x.
    UnknownVersion,
}

/// The name under which a version is shown.
pub open spec fn version_label(version: SpecVersion) -> Seq<char> {
    match version {
        SpecVersion::V20 => "Swagger 2.0"@,
        SpecVersion::V30 => "OpenAPI 3.0"@,
        SpecVersion::V31 => "OpenAPI 3.1"@,
    }
}

/// The version that an OpenAPI 3 document declares: 3.1 where the declared
/// version begins with `3.1`, else 3.0.
pub open spec fn version_of(declared: Seq<char>) -> SpecVersion {
    if has_prefix(declared, "3.1"@) {
        SpecVersion::V31
    } else {
        SpecVersion::V30
    }
}

/// What the two version fields of a document say: a `swagger` field that
/// begins with `2.` is refused; else an `openapi` field that begins with
/// `3.` gives its version; else the version is unknown.
pub open spec fn dialect_of(
    swagger: Option<Seq<char>>,
    openapi: Option<Seq<char>>,
) -> Result<SpecVersion, LoadError> {
    if swagger is Some && has_prefix(swagger->0, "2."@) {
        Err(LoadError::SwaggerUnsupported)
    } else if openapi is Some && has_prefix(openapi->0, "3."@) {
        Ok(version_of(openapi->0))
    } else {
        Err(LoadError::UnknownVersion)
    }
}

/// The message that goes with an error.
pub open spec fn error_text(error: LoadError) -> Seq<char> {
    match error {
        LoadError::Malformed(_) => "failed to parse spec as YAML/JSON"@,
        LoadError::SwaggerUnsupported => "Swagger 2.0 support is not yet implemented"@,
        LoadError::UnknownVersion =>
            "Cannot determine OpenAPI version from spec (expected 'openapi: 3.x' or 'swagger: 2.0')"@,
    }
}

/// The names of the schemas of a document, in the order of the document.
pub open spec fn schema_keys(schemas: Seq<(String, SchemaRef)>) -> Seq<Seq<char>> {
    Seq::new(schemas.len(), |i: int| schemas[i].0@)
}

/// The root nodes of a document: one for each named schema, in the
/// alphabetical order of the names, none of them required.
pub open spec fn root_nodes(schemas: Seq<(String, SchemaRef)>) -> Seq<NodeModel> {
    Seq::new(
        schemas.len(),
        |i: int|
            {
                let at = name_order(schema_keys(schemas))[i];
                schema_ref_spec(schemas[at].0@, schemas[at].1, false)
            },
    )
}

/// The names of the schemas of a document in alphabetical order.
pub open spec fn root_names(schemas: Seq<(String, SchemaRef)>) -> Seq<Seq<char>> {
    Seq::new(
        schemas.len(),
        |i: int| schema_keys(schemas)[name_order(schema_keys(schemas))[i]],
    )
}

impl SpecVersion {
    /// The name under which the version is shown.
    pub fn label(&self) -> (res: &'static str)
        ensures
            res@ == version_label(*self),
    {
        match self {
            SpecVersion::V20 => "Swagger 2.0",
            SpecVersion::V30 => "OpenAPI 3.0",
            SpecVersion::V31 => "OpenAPI 3.1",
        }
    }
}

impl LoadError {
    /// The message that goes with the error.
    pub fn message(&self) -> (res: &'static str)
        ensures
            res@ == error_text(*self),
    {
        match self {
            LoadError::Malformed(_) => "failed to parse spec as YAML/JSON",
            LoadError::SwaggerUnsupported => "Swagger 2.0 support is not yet implemented",
            LoadError::UnknownVersion =>
                "Cannot determine OpenAPI version from spec (expected 'openapi: 3.x' or 'swagger: 2.0')",
        }
    }
}

/// The version that an OpenAPI 3 document declares.
pub fn resolve_version(declared: &str) -> (res: SpecVersion)
    ensures
        res == version_of(declared@),
{
    if starts_with(declared, "3.1") {
        SpecVersion::V31
    } else {
        SpecVersion::V30
    }
}

/// Decides from the two version fields of a document whether it can be
/// loaded, and as which version.
pub fn detect_version(
    swagger: Option<&str>,
    openapi: Option<&str>,
) -> (res: Result<SpecVersion, LoadError>)
    ensures
        res == dialect_of(
            match swagger {
                Some(s) => Some(s@),
                None => None,
            },
            match openapi {
                Some(s) => Some(s@),
                None => None,
            },
        ),
{
    if let Some(version) = swagger {
        if starts_with(version, "2.") {
            return Err(LoadError::SwaggerUnsupported);
        }
    }
    if let Some(version) = openapi {
        if starts_with(version, "3.") {
            return Ok(resolve_version(version));
        }
    }
    Err(LoadError::UnknownVersion)
}

/// What a decoded document says of its version: read from its `swagger`
/// and `openapi` fields.
pub open spec fn declared_dialect(value: serde_json::Value) -> Result<SpecVersion, LoadError> {
    dialect_of(text_member_of(value, "swagger"@), text_member_of(value, "openapi"@))
}

/// Decides whether a decoded document can be loaded, and as which version.
pub fn check_version(value: &serde_json::Value) -> (res: Result<SpecVersion, LoadError>)
    ensures
        res == declared_dialect(*value),
{
    detect_version(text_member(value, "swagger"), text_member(value, "openapi"))
}

/// Decodes a text far enough to say whether it is a document that can be
/// loaded, and of which version. A text that is not valid YAML or JSON gives
/// `Malformed`, with the decoder's own words.
pub fn probe_version(content: &str) -> (res: Result<SpecVersion, LoadError>)
    ensures
        match yaml_value(content@) {
            Some(value) => res == declared_dialect(value),
            None => res is Err && res->Err_0 is Malformed,
        },
{
    match decode_value(content) {
        Ok(value) => check_version(&value),
        Err(error) => Err(LoadError::Malformed(error.to_string())),
    }
}

fn key_names(all: &Vec<(&String, &SchemaRef)>) -> (names: Vec<String>)
    ensures
        names.len() == all.len(),
        forall|i: int| 0 <= i < all.len() ==> names[i]@ == (#[trigger] all[i]).0@,
{
    let mut names: Vec<String> = Vec::new();
    let mut i: usize = 0;
    while i < all.len()
        invariant
            i <= all.len(),
            names.len() == i,
            forall|j: int| 0 <= j < i ==> names[j]@ == (#[trigger] all[j]).0@,
        decreases all.len() - i,
    {
        names.push(all[i].0.clone());
        i += 1;
    }
    names
}

/// The names of the schemas in alphabetical order: the name of every entry
/// of the map, as often as the map holds it.
pub fn schema_names(schemas: &IndexMap<String, SchemaRef>) -> (names: Vec<String>)
    ensures
        names.deep_view() == root_names(named_schemas(*schemas)),
        names.len() == named_schemas(*schemas).len(),
{
    let all = entries(schemas);
    let keys = key_names(&all);
    let ghost listed = named_schemas(*schemas);
    proof {
        assert forall|i: int| 0 <= i < keys.len() implies keys[i]@ == listed[i].0@ by {
            assert(*all[i].0 == listed[i].0);
        }
        assert(keys.deep_view() =~= schema_keys(listed));
    }
    let order = sorted_order(&keys);
    let ghost widen = |i: usize| i as int;
    let mut names: Vec<String> = Vec::new();
    let mut i: usize = 0;
    while i < order.len()
        invariant
            i <= order.len(),
            listed == named_schemas(*schemas),
            order.len() == listed.len(),
            keys.len() == listed.len(),
            keys.deep_view() == schema_keys(listed),
            widen == |i: usize| i as int,
            order@.map_values(widen) == name_order(schema_keys(listed)),
            forall|k: int| 0 <= k < order.len() ==> order[k] < keys.len(),
            names.len() == i,
            forall|j: int| 0 <= j < i ==> names[j]@ == root_names(listed)[j],
        decreases order.len() - i,
    {
        proof {
            assert(order@.map_values(widen)[i as int] == order[i as int] as int);
            assert(keys.deep_view()[order[i as int] as int] == keys[order[i as int] as int]@);
        }
        names.push(keys[order[i]].clone());
        i += 1;
    }
    assert(names.deep_view() =~= root_names(listed));
    names
}

/// The root nodes of the named schemas, in alphabetical order of the names.
pub fn build_tree(schemas: &IndexMap<String, SchemaRef>) -> (nodes: Vec<TreeNode>)
    ensures
        forest_view(nodes@) == root_nodes(named_schemas(*schemas)),
        nodes.len() == named_schemas(*schemas).len(),
{
    let all = entries(schemas);
    let keys = key_names(&all);
    let ghost listed = named_schemas(*schemas);
    proof {
        assert forall|i: int| 0 <= i < keys.len() implies keys[i]@ == listed[i].0@ by {
            assert(*all[i].0 == listed[i].0);
        }
        assert(keys.deep_view() =~= schema_keys(listed));
    }
    let order = sorted_order(&keys);
    let ghost widen = |i: usize| i as int;
    let mut nodes: Vec<TreeNode> = Vec::new();
    let mut i: usize = 0;
    while i < order.len()
        invariant
            i <= order.len(),
            listed == named_schemas(*schemas),
            order.len() == listed.len(),
            all.len() == listed.len(),
            forall|k: int|
                0 <= k < all.len() ==> *(#[trigger] all[k]).0 == listed[k].0 && *all[k].1
                    == listed[k].1,
            widen == |i: usize| i as int,
            order@.map_values(widen) == name_order(schema_keys(listed)),
            forall|k: int| 0 <= k < order.len() ==> order[k] < all.len(),
            nodes.len() == i,
            forall|j: int| 0 <= j < i ==> nodes[j]@ == root_nodes(listed)[j],
        decreases order.len() - i,
    {
        proof {
            assert(order@.map_values(widen)[i as int] == order[i as int] as int);
        }
        let entry = &all[order[i]];
        nodes.push(schema_ref_to_node(entry.0.clone(), entry.1, false));
        i += 1;
    }
    assert(forest_view(nodes@) =~= root_nodes(listed));
    nodes
}

/// Loads a decoded document: resolves its version, and builds the names and
/// trees of its schemas in alphabetical order.
pub fn load_document(document: &Document) -> (spec: LoadedSpec)
    ensures
        spec.title@ == document.title@,
        spec.openapi_version@ == document.openapi@,
        spec.version == version_of(document.openapi@),
        spec.schema_names.deep_view() == root_names(named_schemas(document.schemas)),
        forest_view(spec.schema_nodes@) == root_nodes(named_schemas(document.schemas)),
{
    LoadedSpec {
        title: document.title.clone(),
        openapi_version: document.openapi.clone(),
        version: resolve_version(document.openapi.as_str()),
        schema_names: schema_names(&document.schemas),
        schema_nodes: build_tree(&document.schemas),
    }
}

/// The roots of a document are its named schemas, one root for each entry,
/// in ascending order of their names whatever the order in the document;
/// where two entries have one name, the one that came first stays first.
pub proof fn law_roots_in_name_order(schemas: Seq<(String, SchemaRef)>)
    ensures
        ({
            let order = name_order(schema_keys(schemas));
            let names = root_names(schemas);
            let nodes = root_nodes(schemas);
            &&& order.len() == schemas.len()
            &&& names.len() == schemas.len()
            &&& nodes.len() == schemas.len()
            &&& forall|k: int| 0 <= k < schemas.len() ==> 0 <= #[trigger] order[k] < schemas.len()
            &&& forall|a: int, b: int| 0 <= a < b < schemas.len() ==> order[a] != order[b]
            &&& forall|a: int, b: int| 0 <= a < b < schemas.len() ==> name_le(names[a], names[b])
            &&& forall|a: int, b: int|
                0 <= a < b < schemas.len() && names[a] == names[b] ==> order[a] < order[b]
            &&& forall|k: int|
                0 <= k < schemas.len() ==> (#[trigger] nodes[k]).name == names[k]
                    && !nodes[k].info.required && !nodes[k].expanded
        }),
{
    let keys = schema_keys(schemas);
    lemma_name_order(keys, keys.len());
    let order = name_order(keys);
    let names = root_names(schemas);
    assert forall|a: int, b: int| 0 <= a < b < schemas.len() implies name_le(
        names[a],
        names[b],
    ) by {
        assert(name_le(keys[order[a]], keys[order[b]]));
    }
    assert forall|a: int, b: int|
        0 <= a < b < schemas.len() && names[a] == names[b] implies order[a] < order[b] by {
        assert(keys[order[a]] == keys[order[b]]);
    }
}

/// A navigator over the roots of a document that was just loaded shows the
/// roots and nothing else: one row for each schema, at depth 0.
pub proof fn law_loaded_tree_shows_roots(schemas: Seq<(String, SchemaRef)>)
    ensures
        ({
            let tree = TreeModel { roots: root_nodes(schemas), cursor: 0 };
            &&& tree.wf()
            &&& tree.visible_count() == schemas.len()
            &&& tree.rows().len() == schemas.len()
            &&& forall|k: int|
                0 <= k < schemas.len() ==> #[trigger] tree.rows()[k] == (RowModel {
                    node: root_nodes(schemas)[k],
                    depth: 0,
                })
        }),
{
    let roots = root_nodes(schemas);
    let order = name_order(schema_keys(schemas));
    assert forall|i: int| 0 <= i < roots.len() implies node_with_all(roots[i], false)
        == roots[i] by {
        law_built_collapsed(schemas[order[i]].0@, schemas[order[i]].1, false);
    }
    assert(forest_with_all(roots, false) =~= roots);
    lemma_collapsed_paths(roots, roots.len());
}

/// Where no two schemas of a document have one name, no two roots have:
/// the names of the roots are then in strictly ascending order.
pub proof fn law_distinct_names_stay_distinct(schemas: Seq<(String, SchemaRef)>)
    requires
        forall|i: int, j: int|
            0 <= i < j < schemas.len() ==> schema_keys(schemas)[i] != schema_keys(schemas)[j],
    ensures
        forall|a: int, b: int|
            0 <= a < b < schemas.len() ==> root_names(schemas)[a] != root_names(schemas)[b],
        forall|a: int, b: int|
            0 <= a < b < schemas.len() ==> name_le(root_names(schemas)[a], root_names(schemas)[b])
                && !name_le(root_names(schemas)[b], root_names(schemas)[a]),
{
    law_roots_in_name_order(schemas);
    let keys = schema_keys(schemas);
    let order = name_order(keys);
    let names = root_names(schemas);
    assert forall|a: int, b: int| 0 <= a < b < schemas.len() implies names[a] != names[b] by {
        assert(order[a] != order[b]);
        if order[a] < order[b] {
            assert(keys[order[a]] != keys[order[b]]);
        } else {
            assert(keys[order[b]] != keys[order[a]]);
        }
    }
    assert forall|a: int, b: int| 0 <= a < b < schemas.len() implies name_le(names[a], names[b])
        && !name_le(names[b], names[a]) by {
        if name_le(names[b], names[a]) {
            lemma_name_le_antisymmetric(names[a], names[b]);
        }
    }
}

} // verus!
