//! What the two panes show, as plain rows for a renderer to draw: the rows
//! of the schema list, and the rows of the detail pane for one node.

use crate::document::{version_label, LoadedSpec};
use crate::model::{KindModel, NodeModel, RowModel};
use crate::text::{glue3, join, joined, nat_text, usize_text};
use crate::tree::{
    forest_view, kind_label, lemma_children_view, rows_view, NodeKind, TreeNode, TreeState,
};
use vstd::prelude::*;
use vstd::string::*;

verus! {

/// How a value is set off from the others.
#[derive(Debug, Clone, Copy, PartialEq, Eq, Structural)]
pub enum Tone {
    Plain,
    Accent,
    Warning,
}

/// One row of the detail pane.
#[derive(Debug, PartialEq, Eq)]
pub enum DetailRow {
    /// The node's name and the label of its type.
    Header { name: String, label: String },
    Separator,
    Field { key: String, value: String, tone: Tone },
    Blank,
}

/// A row of the detail pane, with its texts as sequences of characters.
pub enum DetailRowModel {
    Header { name: Seq<char>, label: Seq<char> },
    Separator,
    Field { key: Seq<char>, value: Seq<char>, tone: Tone },
    Blank,
}

impl View for DetailRow {
    type V = DetailRowModel;

    open spec fn view(&self) -> DetailRowModel {
        match self {
            DetailRow::Header { name, label } => DetailRowModel::Header {
                name: name@,
                label: label@,
            },
            DetailRow::Separator => DetailRowModel::Separator,
            DetailRow::Field { key, value, tone } => DetailRowModel::Field {
                key: key@,
                value: value@,
                tone: *tone,
            },
            DetailRow::Blank => DetailRowModel::Blank,
        }
    }
}

/// The sign in front of a row of the list.
#[derive(Debug, Clone, Copy, PartialEq, Eq, Structural)]
pub enum Marker {
    /// A node with children, expanded.
    Open,
    /// A node with children, collapsed.
    Closed,
    /// A node without children.
    Leaf,
}

/// One row of the schema list.
#[derive(Debug, PartialEq, Eq)]
pub struct ListRow {
    pub depth: usize,
    pub marker: Marker,
    pub name: String,
    pub required: bool,
    pub label: String,
}

/// A row of the schema list, with its texts as sequences of characters.
pub struct ListRowModel {
    pub depth: nat,
    pub marker: Marker,
    pub name: Seq<char>,
    pub required: bool,
    pub label: Seq<char>,
}

impl View for ListRow {
    type V = ListRowModel;

    open spec fn view(&self) -> ListRowModel {
        ListRowModel {
            depth: self.depth as nat,
            marker: self.marker,
            name: self.name@,
            required: self.required,
            label: self.label@,
        }
    }
}

/// The models of a sequence of detail rows.
pub open spec fn detail_view(rows: Seq<DetailRow>) -> Seq<DetailRowModel> {
    Seq::new(rows.len(), |i: int| rows[i]@)
}

/// The models of a sequence of list rows.
pub open spec fn list_view(rows: Seq<ListRow>) -> Seq<ListRowModel> {
    Seq::new(rows.len(), |i: int| rows[i]@)
}

/// A format in brackets behind a space, or nothing where there is none.
pub open spec fn format_suffix(format: Option<Seq<char>>) -> Seq<char> {
    match format {
        Some(f) => " ("@ + f + ")"@,
        None => Seq::empty(),
    }
}

/// The label of a node in the list: its kind, and for a string, an integer
/// or a number its format in brackets.
pub open spec fn list_label(node: NodeModel) -> Seq<char> {
    match node.info.kind {
        KindModel::Integer | KindModel::Number | KindModel::Str => kind_label(node.info.kind)
            + format_suffix(node.info.format),
        _ => kind_label(node.info.kind),
    }
}

/// The sign in front of a node.
pub open spec fn marker_of(node: NodeModel) -> Marker {
    if node.children.len() == 0 {
        Marker::Leaf
    } else if node.expanded {
        Marker::Open
    } else {
        Marker::Closed
    }
}

/// The row of the list for one visible row of the tree.
pub open spec fn list_row_of(row: RowModel) -> ListRowModel {
    ListRowModel {
        depth: row.depth,
        marker: marker_of(row.node),
        name: row.node.name,
        required: row.node.info.required,
        label: list_label(row.node),
    }
}

/// The rows of the list for the visible rows of a tree.
pub open spec fn list_rows_of(rows: Seq<RowModel>) -> Seq<ListRowModel> {
    Seq::new(rows.len(), |i: int| list_row_of(rows[i]))
}

/// A row with a key, a value and a tone.
pub open spec fn field(key: Seq<char>, value: Seq<char>, tone: Tone) -> DetailRowModel {
    DetailRowModel::Field { key, value, tone }
}

/// The row for a text that may be absent.
pub open spec fn optional_field(key: Seq<char>, value: Option<Seq<char>>) -> Seq<DetailRowModel> {
    match value {
        Some(text) => seq![field(key, text, Tone::Plain)],
        None => Seq::empty(),
    }
}

/// The names of the nodes that are required, in their order.
pub open spec fn required_names(nodes: Seq<NodeModel>) -> Seq<Seq<char>>
    decreases nodes.len(),
{
    if nodes.len() == 0 {
        Seq::empty()
    } else if nodes.last().info.required {
        required_names(nodes.drop_last()).push(nodes.last().name)
    } else {
        required_names(nodes.drop_last())
    }
}

/// The text for a composition: its kind and the number of its branches.
pub open spec fn combiner_text(kind: KindModel, branches: nat) -> Seq<char> {
    kind_label(kind) + " ("@ + nat_text(branches) + " schemas)"@
}

/// The rows that depend on the kind of the node.
pub open spec fn kind_rows(node: NodeModel) -> Seq<DetailRowModel> {
    match node.info.kind {
        KindModel::Object => (if node.children.len() > 0 {
            seq![field("properties"@, nat_text(node.children.len()), Tone::Plain)]
        } else {
            Seq::empty()
        }) + (if required_names(node.children).len() > 0 {
            seq![
                field("required"@, joined(required_names(node.children), " \u{b7} "@), Tone::Plain),
            ]
        } else {
            Seq::empty()
        }),
        KindModel::Array => if node.children.len() > 0 {
            seq![field("items"@, kind_label(node.children[0].info.kind), Tone::Accent)]
        } else {
            Seq::empty()
        },
        KindModel::Ref(_) => seq![
            field("reference"@, kind_label(node.info.kind), Tone::Accent),
        ],
        KindModel::AllOf | KindModel::OneOf | KindModel::AnyOf => seq![
            field("combiner"@, combiner_text(node.info.kind, node.children.len()), Tone::Plain),
        ],
        _ => Seq::empty(),
    }
}

/// One row for each constraint.
pub open spec fn constraint_rows(constraints: Seq<Seq<char>>) -> Seq<DetailRowModel> {
    Seq::new(constraints.len(), |i: int| field("constraint"@, constraints[i], Tone::Plain))
}

/// The rows of the detail pane for a node: the header and a separator; that
/// it is required; its description; what its kind adds; its constraints;
/// its permitted values in one row; its default and its example; and a
/// blank row at the end.
pub open spec fn detail_rows_of(node: NodeModel) -> Seq<DetailRowModel> {
    seq![
        DetailRowModel::Header {
            name: node.name,
            label: kind_label(node.info.kind) + format_suffix(node.info.format),
        },
        DetailRowModel::Separator,
    ] + (if node.info.required {
        seq![field("required"@, "yes"@, Tone::Warning)]
    } else {
        Seq::empty()
    }) + optional_field("description"@, node.info.description) + kind_rows(node) + constraint_rows(
        node.info.constraints,
    ) + (if node.info.enum_values.len() > 0 {
        seq![field("enum"@, joined(node.info.enum_values, " \u{b7} "@), Tone::Plain)]
    } else {
        Seq::empty()
    }) + optional_field("default"@, node.info.default_val) + optional_field(
        "example"@,
        node.info.example,
    ) + seq![DetailRowModel::Blank]
}

/// The text of the header line: the title and the version of the document.
pub open spec fn header_text_of(title: Seq<char>, version: Seq<char>) -> Seq<char> {
    "  "@ + title + "  \u{b7}  "@ + version
}

fn with_format(label: String, format: &Option<String>) -> (res: String)
    ensures
        res@ == label@ + format_suffix(format.deep_view()),
{
    match format {
        Some(f) => {
            let mut res = label;
            res.append(" (");
            res.append(f.as_str());
            res.append(")");
            assert(res@ =~= label@ + format_suffix(format.deep_view()));
            res
        },
        None => {
            assert(label@ =~= label@ + format_suffix(format.deep_view()));
            label
        },
    }
}

fn push_row(out: &mut Vec<DetailRow>, row: DetailRow)
    ensures
        detail_view(final(out)@) == detail_view(old(out)@).push(row@),
{
    out.push(row);
    assert(detail_view(out@) =~= detail_view(old(out)@).push(row@));
}

fn push_field(out: &mut Vec<DetailRow>, key: &str, value: String, tone: Tone)
    ensures
        detail_view(final(out)@) == detail_view(old(out)@).push(field(key@, value@, tone)),
{
    push_row(out, DetailRow::Field { key: key.to_owned(), value, tone });
}

fn push_optional(out: &mut Vec<DetailRow>, key: &str, value: &Option<String>)
    ensures
        detail_view(final(out)@) == detail_view(old(out)@) + optional_field(
            key@,
            value.deep_view(),
        ),
{
    match value {
        Some(text) => {
            push_field(out, key, text.clone(), Tone::Plain);
        },
        None => {},
    }
    assert(detail_view(out@) =~= detail_view(old(out)@) + optional_field(key@, value.deep_view()));
}

fn names_of_required(nodes: &Vec<TreeNode>) -> (res: Vec<String>)
    ensures
        res.deep_view() == required_names(forest_view(nodes@)),
{
    let ghost all = forest_view(nodes@);
    let mut res: Vec<String> = Vec::new();
    let mut i: usize = 0;
    assert(res.deep_view() =~= required_names(all.subrange(0, 0)));
    while i < nodes.len()
        invariant
            i <= nodes.len(),
            all == forest_view(nodes@),
            res.deep_view() == required_names(all.subrange(0, i as int)),
        decreases nodes.len() - i,
    {
        proof {
            assert(all.subrange(0, i + 1).drop_last() =~= all.subrange(0, i as int));
            assert(all.subrange(0, i + 1).last() == nodes[i as int]@);
        }
        if nodes[i].info.required {
            let ghost before = res.deep_view();
            res.push(nodes[i].name.clone());
            assert(res.deep_view() =~= before.push(nodes[i as int]@.name));
        }
        i += 1;
    }
    assert(all.subrange(0, nodes.len() as int) =~= all);
    res
}

fn push_kind_rows(out: &mut Vec<DetailRow>, node: &TreeNode)
    ensures
        detail_view(final(out)@) == detail_view(old(out)@) + kind_rows(node@),
{
    proof {
        lemma_children_view(*node);
    }
    let ghost start = detail_view(out@);
    match &node.info.kind {
        NodeKind::Object => {
            if node.children.len() > 0 {
                push_field(out, "properties", usize_text(node.children.len()), Tone::Plain);
            }
            let required = names_of_required(&node.children);
            if required.len() > 0 {
                push_field(out, "required", join(&required, " \u{b7} "), Tone::Plain);
            }
        },
        NodeKind::Array => {
            if node.children.len() > 0 {
                push_field(out, "items", node.children[0].type_label(), Tone::Accent);
            }
        },
        NodeKind::Ref(_) => {
            push_field(out, "reference", node.type_label(), Tone::Accent);
        },
        NodeKind::AllOf | NodeKind::OneOf | NodeKind::AnyOf => {
            let mut text = node.type_label();
            text.append(" (");
            text.append(usize_text(node.children.len()).as_str());
            text.append(" schemas)");
            assert(text@ =~= combiner_text(node@.info.kind, node@.children.len()));
            push_field(out, "combiner", text, Tone::Plain);
        },
        _ => {},
    }
    assert(detail_view(out@) =~= start + kind_rows(node@));
}

fn push_constraints(out: &mut Vec<DetailRow>, constraints: &Vec<String>)
    ensures
        detail_view(final(out)@) == detail_view(old(out)@) + constraint_rows(
            constraints.deep_view(),
        ),
{
    let ghost start = detail_view(out@);
    let mut i: usize = 0;
    assert(detail_view(out@) =~= start + constraint_rows(constraints.deep_view()).subrange(0, 0));
    while i < constraints.len()
        invariant
            i <= constraints.len(),
            detail_view(out@) == start + constraint_rows(constraints.deep_view()).subrange(
                0,
                i as int,
            ),
        decreases constraints.len() - i,
    {
        push_field(out, "constraint", constraints[i].clone(), Tone::Plain);
        assert(detail_view(out@) =~= start + constraint_rows(constraints.deep_view()).subrange(
            0,
            i + 1,
        ));
        i += 1;
    }
    assert(constraint_rows(constraints.deep_view()).subrange(0, constraints.len() as int)
        =~= constraint_rows(constraints.deep_view()));
}

/// The rows of the detail pane for a node.
pub fn detail_rows(node: &TreeNode) -> (rows: Vec<DetailRow>)
    ensures
        detail_view(rows@) == detail_rows_of(node@),
{
    let mut rows: Vec<DetailRow> = Vec::new();
    assert(detail_view(rows@) =~= Seq::<DetailRowModel>::empty());
    push_row(
        &mut rows,
        DetailRow::Header {
            name: node.name.clone(),
            label: with_format(node.type_label(), &node.info.format),
        },
    );
    push_row(&mut rows, DetailRow::Separator);
    if node.info.required {
        push_field(&mut rows, "required", "yes".to_owned(), Tone::Warning);
    }
    push_optional(&mut rows, "description", &node.info.description);
    push_kind_rows(&mut rows, node);
    push_constraints(&mut rows, &node.info.constraints);
    if node.info.enum_values.len() > 0 {
        push_field(&mut rows, "enum", join(&node.info.enum_values, " \u{b7} "), Tone::Plain);
    }
    push_optional(&mut rows, "default", &node.info.default_val);
    push_optional(&mut rows, "example", &node.info.example);
    push_row(&mut rows, DetailRow::Blank);
    assert(detail_view(rows@) =~= detail_rows_of(node@));
    rows
}

/// The row of the list for a node nested `depth` deep.
pub fn list_row(node: &TreeNode, depth: usize) -> (row: ListRow)
    ensures
        row@ == list_row_of(RowModel { node: node@, depth: depth as nat }),
{
    proof {
        lemma_children_view(*node);
    }
    let marker = if node.is_expandable() {
        if node.expanded {
            Marker::Open
        } else {
            Marker::Closed
        }
    } else {
        Marker::Leaf
    };
    let label = match &node.info.kind {
        NodeKind::Integer | NodeKind::Number | NodeKind::Str => with_format(
            node.type_label(),
            &node.info.format,
        ),
        _ => node.type_label(),
    };
    ListRow { depth, marker, name: node.name.clone(), required: node.info.required, label }
}

/// The rows of the schema list: one for each visible row of the tree.
pub fn list_rows(tree: &TreeState) -> (rows: Vec<ListRow>)
    ensures
        list_view(rows@) == list_rows_of(tree@.rows()),
{
    let flat = tree.flatten();
    let mut rows: Vec<ListRow> = Vec::new();
    let mut i: usize = 0;
    while i < flat.len()
        invariant
            i <= flat.len(),
            rows.len() == i,
            rows_view(flat@) == tree@.rows(),
            forall|j: int| 0 <= j < i ==> rows[j]@ == list_row_of(tree@.rows()[j]),
        decreases flat.len() - i,
    {
        proof {
            assert(rows_view(flat@)[i as int] == flat[i as int]@);
        }
        rows.push(list_row(flat[i].node, flat[i].depth));
        i += 1;
    }
    assert(list_view(rows@) =~= list_rows_of(tree@.rows()));
    rows
}

/// The text of the header line: the title and the version of the document.
pub fn header_text(spec: &LoadedSpec) -> (res: String)
    ensures
        res@ == header_text_of(spec.title@, version_label(spec.version)),
{
    let mut res = glue3("  ", spec.title.as_str(), "  \u{b7}  ");
    res.append(spec.version.label());
    res
}

} // verus!

