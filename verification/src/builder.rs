//! The tree builder: from the description of a schema to its display node.
//!
//! Every shape of schema gives a node; a shape that is not known gives an
//! `Unknown` leaf. References are shown by name and never followed.

use crate::json::{display_text_of, json_display_of};
use crate::model::{node_with_all, InfoModel, KindModel, NodeModel};
use crate::schema::{
    ArrayType, Format, IntegerFormat, NumberFormat, ObjectType, Schema, SchemaKind, SchemaRef,
    StringFormat,
};
use crate::text::{
    extract_ref_name, glue, glue3, i64_text, int_text, last_segment, nat_text, usize_text,
};
use crate::tree::{clone_text, forest_view, lemma_children_view, NodeInfo, NodeKind, TreeNode};
use vstd::prelude::*;

verus! {

/// The word for a string format.
pub open spec fn string_format_text(format: StringFormat) -> Seq<char> {
    match format {
        StringFormat::Date => "date"@,
        StringFormat::DateTime => "date-time"@,
        StringFormat::Password => "password"@,
        StringFormat::Byte => "byte"@,
        StringFormat::Binary => "binary"@,
    }
}

/// The word for an integer format.
pub open spec fn integer_format_text(format: IntegerFormat) -> Seq<char> {
    match format {
        IntegerFormat::Int32 => "int32"@,
        IntegerFormat::Int64 => "int64"@,
    }
}

/// The word for a number format.
pub open spec fn number_format_text(format: NumberFormat) -> Seq<char> {
    match format {
        NumberFormat::Float => "float"@,
        NumberFormat::Double => "double"@,
    }
}

/// The values that are present, in their order.
pub open spec fn present<T>(values: Seq<Option<T>>) -> Seq<T>
    decreases values.len(),
{
    if values.len() == 0 {
        Seq::empty()
    } else {
        match values.last() {
            Some(v) => present(values.drop_last()).push(v),
            None => present(values.drop_last()),
        }
    }
}

/// A text between double quotes.
pub open spec fn quoted(text: Seq<char>) -> Seq<char> {
    "\""@ + text + "\""@
}

/// The name of the branch of a composition at position `i`.
pub open spec fn branch_name(i: nat) -> Seq<char> {
    "["@ + nat_text(i) + "]"@
}

/// The constraint that a count gives, if the count is there.
pub open spec fn count_constraint(label: Seq<char>, value: Option<usize>) -> Seq<Seq<char>> {
    match value {
        Some(n) => seq![label + nat_text(n as nat)],
        None => Seq::empty(),
    }
}

/// The constraint that a text gives, if the text is there.
pub open spec fn text_constraint(label: Seq<char>, value: Option<Seq<char>>) -> Seq<Seq<char>> {
    match value {
        Some(text) => seq![label + text],
        None => Seq::empty(),
    }
}

/// The constraint that a bound gives, if the bound is there: the sign `op`
/// stands before an exclusive bound.
pub open spec fn bound_constraint(
    label: Seq<char>,
    op: Seq<char>,
    exclusive: bool,
    value: Option<Seq<char>>,
) -> Seq<Seq<char>> {
    match value {
        Some(text) => seq![
            label + if exclusive {
                op
            } else {
                Seq::empty()
            } + text,
        ],
        None => Seq::empty(),
    }
}

/// A number in decimal, if the number is there.
pub open spec fn decimal_of(value: Option<i64>) -> Option<Seq<char>> {
    match value {
        Some(n) => Some(int_text(n as int)),
        None => None,
    }
}

/// The kind of node that a shape of schema gives.
pub open spec fn kind_of(kind: SchemaKind) -> KindModel {
    match kind {
        SchemaKind::Object(_) => KindModel::Object,
        SchemaKind::Array(_) => KindModel::Array,
        SchemaKind::Str(_) => KindModel::Str,
        SchemaKind::Integer(_) => KindModel::Integer,
        SchemaKind::Number(_) => KindModel::Number,
        SchemaKind::Boolean => KindModel::Boolean,
        SchemaKind::AllOf { .. } => KindModel::AllOf,
        SchemaKind::OneOf { .. } => KindModel::OneOf,
        SchemaKind::AnyOf { .. } => KindModel::AnyOf,
        SchemaKind::Not | SchemaKind::Any => KindModel::Unknown,
    }
}

/// The format hint of a string, an integer or a number; none for the rest.
pub open spec fn format_of(kind: SchemaKind) -> Option<Seq<char>> {
    match kind {
        SchemaKind::Str(s) => match s.format {
            Format::Known(f) => Some(string_format_text(f)),
            Format::Other(word) => Some(word@),
            Format::Absent => None,
        },
        SchemaKind::Integer(i) => match i.format {
            Format::Known(f) => Some(integer_format_text(f)),
            Format::Other(word) => Some(word@),
            Format::Absent => None,
        },
        SchemaKind::Number(n) => match n.format {
            Format::Known(f) => Some(number_format_text(f)),
            Format::Other(word) => Some(word@),
            Format::Absent => None,
        },
        _ => None,
    }
}

/// The bounds of a schema as texts, in the order in which they are shown.
pub open spec fn constraints_of(kind: SchemaKind) -> Seq<Seq<char>> {
    match kind {
        SchemaKind::Object(o) => count_constraint("minProperties: "@, o.min_properties)
            + count_constraint("maxProperties: "@, o.max_properties),
        SchemaKind::Array(a) => count_constraint("minItems: "@, a.min_items) + count_constraint(
            "maxItems: "@,
            a.max_items,
        ) + if a.unique_items {
            seq!["uniqueItems: true"@]
        } else {
            Seq::empty()
        },
        SchemaKind::Str(s) => count_constraint("minLength: "@, s.min_length) + count_constraint(
            "maxLength: "@,
            s.max_length,
        ) + text_constraint("pattern: "@, s.pattern.deep_view()),
        SchemaKind::Integer(i) => bound_constraint(
            "min: "@,
            ">"@,
            i.exclusive_minimum,
            decimal_of(i.minimum),
        ) + bound_constraint("max: "@, "<"@, i.exclusive_maximum, decimal_of(i.maximum))
            + text_constraint("multipleOf: "@, decimal_of(i.multiple_of)),
        SchemaKind::Number(n) => bound_constraint(
            "min: "@,
            ">"@,
            n.exclusive_minimum,
            n.minimum.deep_view(),
        ) + bound_constraint("max: "@, "<"@, n.exclusive_maximum, n.maximum.deep_view())
            + text_constraint("multipleOf: "@, n.multiple_of.deep_view()),
        _ => Seq::empty(),
    }
}

/// The permitted values of a string, an integer or a number as texts, in
/// their order and without the nulls; those of a string stand in quotes.
pub open spec fn enum_values_of(kind: SchemaKind) -> Seq<Seq<char>> {
    match kind {
        SchemaKind::Str(s) => present(s.enumeration.deep_view()).map_values(
            |t: Seq<char>| quoted(t),
        ),
        SchemaKind::Integer(i) => present(i.enumeration@).map_values(|n: i64| int_text(n as int)),
        SchemaKind::Number(n) => present(n.enumeration.deep_view()),
        _ => Seq::empty(),
    }
}

/// The node for a reference: a leaf that names the last piece of the
/// reference as its target.
pub open spec fn ref_spec(name: Seq<char>, reference: Seq<char>, required: bool) -> NodeModel {
    NodeModel {
        name,
        info: InfoModel {
            kind: KindModel::Ref(last_segment(reference)),
            format: None,
            description: None,
            required,
            constraints: Seq::empty(),
            enum_values: Seq::empty(),
            example: None,
            default_val: None,
        },
        children: Seq::empty(),
        expanded: false,
    }
}

/// The node for a reference or a schema in place.
pub open spec fn schema_ref_spec(name: Seq<char>, schema_ref: SchemaRef, required: bool) -> NodeModel
    decreases schema_ref,
{
    match schema_ref {
        SchemaRef::Reference { reference } => ref_spec(name, reference@, required),
        SchemaRef::Item(schema) => schema_spec(name, *schema, required),
    }
}

/// The node for a schema, with its whole subtree; every node is collapsed.
pub open spec fn schema_spec(name: Seq<char>, schema: Schema, required: bool) -> NodeModel
    decreases schema,
{
    NodeModel {
        name,
        info: InfoModel {
            kind: kind_of(schema.kind),
            format: format_of(schema.kind),
            description: schema.data.description.deep_view(),
            required,
            constraints: constraints_of(schema.kind),
            enum_values: enum_values_of(schema.kind),
            example: display_text_of(schema.data.example),
            default_val: display_text_of(schema.data.default),
        },
        children: children_of(schema.kind),
        expanded: false,
    }
}

/// The children of a schema: one for each property of an object, one named
/// `items` for the items of an array, one for each branch of a composition.
pub open spec fn children_of(kind: SchemaKind) -> Seq<NodeModel>
    decreases kind,
{
    match kind {
        SchemaKind::Object(o) => property_nodes(o),
        SchemaKind::Array(a) => item_nodes(a),
        SchemaKind::AllOf { all_of } => branch_nodes(all_of),
        SchemaKind::OneOf { one_of } => branch_nodes(one_of),
        SchemaKind::AnyOf { any_of } => branch_nodes(any_of),
        _ => Seq::empty(),
    }
}

/// One node for each property, in the order of declaration; a property is
/// required where the object lists its name as required.
pub open spec fn property_nodes(object: ObjectType) -> Seq<NodeModel>
    decreases object,
{
    Seq::new(
        object.properties.len() as nat,
        |i: int|
            if 0 <= i < object.properties.len() {
                schema_ref_spec(
                    object.properties[i].0@,
                    object.properties[i].1,
                    object.required.deep_view().contains(object.properties[i].0@),
                )
            } else {
                arbitrary()
            },
    )
}

/// The one node for the items of an array, if it says what its items are.
pub open spec fn item_nodes(array: ArrayType) -> Seq<NodeModel>
    decreases array,
{
    match array.items {
        Some(items) => seq![schema_ref_spec("items"@, items, false)],
        None => Seq::empty(),
    }
}

/// One node for each branch, named by its position.
pub open spec fn branch_nodes(branches: Vec<SchemaRef>) -> Seq<NodeModel>
    decreases branches,
{
    Seq::new(
        branches.len() as nat,
        |i: int|
            if 0 <= i < branches.len() {
                schema_ref_spec(branch_name(i as nat), branches[i], false)
            } else {
                arbitrary()
            },
    )
}

fn string_format_label(format: &StringFormat) -> (res: &'static str)
    ensures
        res@ == string_format_text(*format),
{
    match format {
        StringFormat::Date => "date",
        StringFormat::DateTime => "date-time",
        StringFormat::Password => "password",
        StringFormat::Byte => "byte",
        StringFormat::Binary => "binary",
    }
}

fn integer_format_label(format: &IntegerFormat) -> (res: &'static str)
    ensures
        res@ == integer_format_text(*format),
{
    match format {
        IntegerFormat::Int32 => "int32",
        IntegerFormat::Int64 => "int64",
    }
}

fn number_format_label(format: &NumberFormat) -> (res: &'static str)
    ensures
        res@ == number_format_text(*format),
{
    match format {
        NumberFormat::Float => "float",
        NumberFormat::Double => "double",
    }
}

fn contains_text(list: &Vec<String>, text: &String) -> (res: bool)
    ensures
        res == list.deep_view().contains(text@),
{
    let mut i: usize = 0;
    while i < list.len()
        invariant
            i <= list.len(),
            forall|j: int| 0 <= j < i ==> list[j]@ != text@,
        decreases list.len() - i,
    {
        if list[i].eq(text) {
            assert(list.deep_view()[i as int] == text@);
            return true;
        }
        i += 1;
    }
    false
}

fn push_text(out: &mut Vec<String>, text: String)
    ensures
        final(out).deep_view() == old(out).deep_view().push(text@),
{
    out.push(text);
    assert(out.deep_view() =~= old(out).deep_view().push(text@));
}

fn push_count(out: &mut Vec<String>, label: &str, value: Option<usize>)
    ensures
        final(out).deep_view() == old(out).deep_view() + count_constraint(label@, value),
{
    match value {
        Some(n) => {
            let number = usize_text(n);
            push_text(out, glue(label, number.as_str()));
            assert(out.deep_view() =~= old(out).deep_view() + count_constraint(label@, value));
        },
        None => {
            assert(out.deep_view() =~= old(out).deep_view() + count_constraint(label@, value));
        },
    }
}

fn push_labelled(out: &mut Vec<String>, label: &str, value: &Option<String>)
    ensures
        final(out).deep_view() == old(out).deep_view() + text_constraint(
            label@,
            value.deep_view(),
        ),
{
    match value {
        Some(text) => {
            push_text(out, glue(label, text.as_str()));
        },
        None => {},
    }
    assert(out.deep_view() =~= old(out).deep_view() + text_constraint(label@, value.deep_view()));
}

fn push_bound(out: &mut Vec<String>, label: &str, op: &str, exclusive: bool, value: &Option<String>)
    ensures
        final(out).deep_view() == old(out).deep_view() + bound_constraint(
            label@,
            op@,
            exclusive,
            value.deep_view(),
        ),
{
    match value {
        Some(text) => {
            if exclusive {
                push_text(out, glue3(label, op, text.as_str()));
            } else {
                push_text(out, glue(label, text.as_str()));
                assert(label@ + Seq::<char>::empty() + text@ =~= label@ + text@);
            }
        },
        None => {},
    }
    assert(out.deep_view() =~= old(out).deep_view() + bound_constraint(
        label@,
        op@,
        exclusive,
        value.deep_view(),
    ));
}

fn decimal(value: Option<i64>) -> (res: Option<String>)
    ensures
        res.deep_view() == decimal_of(value),
{
    match value {
        Some(n) => Some(i64_text(n)),
        None => None,
    }
}

proof fn lemma_present_step<T>(values: Seq<Option<T>>, i: int)
    requires
        0 <= i < values.len(),
    ensures
        present(values.subrange(0, i + 1)) == match values[i] {
            Some(v) => present(values.subrange(0, i)).push(v),
            None => present(values.subrange(0, i)),
        },
{
    assert(values.subrange(0, i + 1).drop_last() =~= values.subrange(0, i));
}

fn quoted_values(values: &Vec<Option<String>>) -> (res: Vec<String>)
    ensures
        res.deep_view() == present(values.deep_view()).map_values(|t: Seq<char>| quoted(t)),
{
    let ghost all = values.deep_view();
    let ghost wrap = |t: Seq<char>| quoted(t);
    let mut res: Vec<String> = Vec::new();
    let mut i: usize = 0;
    assert(res.deep_view() =~= present(all.subrange(0, 0)).map_values(wrap));
    while i < values.len()
        invariant
            i <= values.len(),
            all == values.deep_view(),
            wrap == |t: Seq<char>| quoted(t),
            res.deep_view() == present(all.subrange(0, i as int)).map_values(wrap),
        decreases values.len() - i,
    {
        proof {
            lemma_present_step(all, i as int);
        }
        match &values[i] {
            Some(text) => {
                push_text(&mut res, glue3("\"", text.as_str(), "\""));
                assert(res.deep_view() =~= present(all.subrange(0, i + 1)).map_values(wrap));
            },
            None => {},
        }
        i += 1;
    }
    assert(all.subrange(0, values.len() as int) =~= all);
    res
}

fn decimal_values(values: &Vec<Option<i64>>) -> (res: Vec<String>)
    ensures
        res.deep_view() == present(values@).map_values(|n: i64| int_text(n as int)),
{
    let ghost show = |n: i64| int_text(n as int);
    let mut res: Vec<String> = Vec::new();
    let mut i: usize = 0;
    assert(res.deep_view() =~= present(values@.subrange(0, 0)).map_values(show));
    while i < values.len()
        invariant
            i <= values.len(),
            show == |n: i64| int_text(n as int),
            res.deep_view() == present(values@.subrange(0, i as int)).map_values(show),
        decreases values.len() - i,
    {
        proof {
            lemma_present_step(values@, i as int);
        }
        match values[i] {
            Some(n) => {
                push_text(&mut res, i64_text(n));
                assert(res.deep_view() =~= present(values@.subrange(0, i + 1)).map_values(show));
            },
            None => {},
        }
        i += 1;
    }
    assert(values@.subrange(0, values.len() as int) =~= values@);
    res
}

fn present_values(values: &Vec<Option<String>>) -> (res: Vec<String>)
    ensures
        res.deep_view() == present(values.deep_view()),
{
    let ghost all = values.deep_view();
    let mut res: Vec<String> = Vec::new();
    let mut i: usize = 0;
    assert(res.deep_view() =~= present(all.subrange(0, 0)));
    while i < values.len()
        invariant
            i <= values.len(),
            all == values.deep_view(),
            res.deep_view() == present(all.subrange(0, i as int)),
        decreases values.len() - i,
    {
        proof {
            lemma_present_step(all, i as int);
        }
        match &values[i] {
            Some(text) => {
                push_text(&mut res, text.clone());
            },
            None => {},
        }
        i += 1;
    }
    assert(all.subrange(0, values.len() as int) =~= all);
    res
}

fn format_hint(kind: &SchemaKind) -> (res: Option<String>)
    ensures
        res.deep_view() == format_of(*kind),
{
    match kind {
        SchemaKind::Str(s) => match &s.format {
            Format::Known(f) => Some(string_format_label(f).to_owned()),
            Format::Other(word) => Some(word.clone()),
            Format::Absent => None,
        },
        SchemaKind::Integer(i) => match &i.format {
            Format::Known(f) => Some(integer_format_label(f).to_owned()),
            Format::Other(word) => Some(word.clone()),
            Format::Absent => None,
        },
        SchemaKind::Number(n) => match &n.format {
            Format::Known(f) => Some(number_format_label(f).to_owned()),
            Format::Other(word) => Some(word.clone()),
            Format::Absent => None,
        },
        _ => None,
    }
}

fn constraints(kind: &SchemaKind) -> (res: Vec<String>)
    ensures
        res.deep_view() == constraints_of(*kind),
{
    let mut out: Vec<String> = Vec::new();
    assert(out.deep_view() =~= Seq::<Seq<char>>::empty());
    match kind {
        SchemaKind::Object(o) => {
            push_count(&mut out, "minProperties: ", o.min_properties);
            push_count(&mut out, "maxProperties: ", o.max_properties);
        },
        SchemaKind::Array(a) => {
            push_count(&mut out, "minItems: ", a.min_items);
            push_count(&mut out, "maxItems: ", a.max_items);
            if a.unique_items {
                push_text(&mut out, "uniqueItems: true".to_owned());
            }
        },
        SchemaKind::Str(s) => {
            push_count(&mut out, "minLength: ", s.min_length);
            push_count(&mut out, "maxLength: ", s.max_length);
            push_labelled(&mut out, "pattern: ", &s.pattern);
        },
        SchemaKind::Integer(i) => {
            push_bound(&mut out, "min: ", ">", i.exclusive_minimum, &decimal(i.minimum));
            push_bound(&mut out, "max: ", "<", i.exclusive_maximum, &decimal(i.maximum));
            push_labelled(&mut out, "multipleOf: ", &decimal(i.multiple_of));
        },
        SchemaKind::Number(n) => {
            push_bound(&mut out, "min: ", ">", n.exclusive_minimum, &n.minimum);
            push_bound(&mut out, "max: ", "<", n.exclusive_maximum, &n.maximum);
            push_labelled(&mut out, "multipleOf: ", &n.multiple_of);
        },
        _ => {},
    }
    assert(out.deep_view() =~= constraints_of(*kind));
    out
}

fn enum_values(kind: &SchemaKind) -> (res: Vec<String>)
    ensures
        res.deep_view() == enum_values_of(*kind),
{
    match kind {
        SchemaKind::Str(s) => quoted_values(&s.enumeration),
        SchemaKind::Integer(i) => decimal_values(&i.enumeration),
        SchemaKind::Number(n) => present_values(&n.enumeration),
        _ => {
            let out: Vec<String> = Vec::new();
            assert(out.deep_view() =~= Seq::<Seq<char>>::empty());
            out
        },
    }
}

fn node_kind(kind: &SchemaKind) -> (res: NodeKind)
    ensures
        res@ == kind_of(*kind),
{
    match kind {
        SchemaKind::Object(_) => NodeKind::Object,
        SchemaKind::Array(_) => NodeKind::Array,
        SchemaKind::Str(_) => NodeKind::Str,
        SchemaKind::Integer(_) => NodeKind::Integer,
        SchemaKind::Number(_) => NodeKind::Number,
        SchemaKind::Boolean => NodeKind::Boolean,
        SchemaKind::AllOf { .. } => NodeKind::AllOf,
        SchemaKind::OneOf { .. } => NodeKind::OneOf,
        SchemaKind::AnyOf { .. } => NodeKind::AnyOf,
        SchemaKind::Not | SchemaKind::Any => NodeKind::Unknown,
    }
}

/// The node for a reference: a leaf whose kind names the target, the last
/// piece of the reference.
pub fn ref_node(name: String, reference: &str, required: bool) -> (node: TreeNode)
    ensures
        node@ == ref_spec(name@, reference@, required),
        node@.children.len() == 0,
{
    let target = extract_ref_name(reference);
    let node = TreeNode {
        name,
        info: NodeInfo {
            kind: NodeKind::Ref(target),
            format: None,
            description: None,
            required,
            constraints: Vec::new(),
            enum_values: Vec::new(),
            example: None,
            default_val: None,
        },
        children: Vec::new(),
        expanded: false,
    };
    proof {
        lemma_children_view(node);
        assert(node.info.constraints.deep_view() =~= Seq::<Seq<char>>::empty());
        assert(node.info.enum_values.deep_view() =~= Seq::<Seq<char>>::empty());
        assert(node@.children =~= Seq::<NodeModel>::empty());
    }
    node
}

/// The node for a reference or a schema in place.
pub fn schema_ref_to_node(name: String, schema_ref: &SchemaRef, required: bool) -> (node: TreeNode)
    ensures
        node@ == schema_ref_spec(name@, *schema_ref, required),
    decreases schema_ref,
{
    match schema_ref {
        SchemaRef::Reference { reference } => ref_node(name, reference.as_str(), required),
        SchemaRef::Item(schema) => schema_to_node(name, schema, required),
    }
}

fn property_children(object: &ObjectType) -> (res: Vec<TreeNode>)
    ensures
        forest_view(res@) == property_nodes(*object),
    decreases object,
{
    let mut res: Vec<TreeNode> = Vec::new();
    let mut i: usize = 0;
    while i < object.properties.len()
        invariant
            i <= object.properties.len(),
            res.len() == i,
            forall|j: int| 0 <= j < i ==> res[j]@ == property_nodes(*object)[j],
        decreases object.properties.len() - i,
    {
        let property = &object.properties[i];
        let is_required = contains_text(&object.required, &property.0);
        res.push(schema_ref_to_node(property.0.clone(), &property.1, is_required));
        i += 1;
    }
    assert(forest_view(res@) =~= property_nodes(*object));
    res
}

fn item_children(array: &ArrayType) -> (res: Vec<TreeNode>)
    ensures
        forest_view(res@) == item_nodes(*array),
    decreases array,
{
    let mut res: Vec<TreeNode> = Vec::new();
    match &array.items {
        Some(items) => {
            res.push(schema_ref_to_node("items".to_owned(), items, false));
        },
        None => {},
    }
    assert(forest_view(res@) =~= item_nodes(*array));
    res
}

fn branch_children(branches: &Vec<SchemaRef>) -> (res: Vec<TreeNode>)
    ensures
        forest_view(res@) == branch_nodes(*branches),
    decreases branches,
{
    let mut res: Vec<TreeNode> = Vec::new();
    let mut i: usize = 0;
    while i < branches.len()
        invariant
            i <= branches.len(),
            res.len() == i,
            forall|j: int| 0 <= j < i ==> res[j]@ == branch_nodes(*branches)[j],
        decreases branches.len() - i,
    {
        let position = usize_text(i);
        let name = glue3("[", position.as_str(), "]");
        res.push(schema_ref_to_node(name, &branches[i], false));
        i += 1;
    }
    assert(forest_view(res@) =~= branch_nodes(*branches));
    res
}

/// The node for a schema, with its whole subtree. Every shape gives a node:
/// there is no schema for which this fails.
pub fn schema_to_node(name: String, schema: &Schema, required: bool) -> (node: TreeNode)
    ensures
        node@ == schema_spec(name@, *schema, required),
    decreases schema,
{
    let children = match &schema.kind {
        SchemaKind::Object(o) => property_children(o),
        SchemaKind::Array(a) => item_children(a),
        SchemaKind::AllOf { all_of } => branch_children(all_of),
        SchemaKind::OneOf { one_of } => branch_children(one_of),
        SchemaKind::AnyOf { any_of } => branch_children(any_of),
        _ => {
            let none: Vec<TreeNode> = Vec::new();
            assert(forest_view(none@) =~= Seq::<NodeModel>::empty());
            none
        },
    };
    let node = TreeNode {
        name,
        info: NodeInfo {
            kind: node_kind(&schema.kind),
            format: format_hint(&schema.kind),
            description: clone_text(&schema.data.description),
            required,
            constraints: constraints(&schema.kind),
            enum_values: enum_values(&schema.kind),
            example: json_display_of(&schema.data.example),
            default_val: json_display_of(&schema.data.default),
        },
        children,
        expanded: false,
    };
    proof {
        lemma_children_view(node);
    }
    node
}

/// A reference gives a node without children, whatever the schema it
/// points to holds: its kind names the target and nothing else is read.
pub proof fn law_reference_is_leaf(name: Seq<char>, schema_ref: SchemaRef, required: bool)
    requires
        schema_ref is Reference,
    ensures
        schema_ref_spec(name, schema_ref, required).children.len() == 0,
        schema_ref_spec(name, schema_ref, required).info.kind == KindModel::Ref(
            last_segment(schema_ref->reference@),
        ),
        schema_ref_spec(name, schema_ref, required).name == name,
        schema_ref_spec(name, schema_ref, required).info.required == required,
{
}

/// How many children a node has: an object one for each property, an array
/// one if it says what its items are, a composition one for each branch,
/// every other schema none.
pub proof fn law_children_count(name: Seq<char>, schema: Schema, required: bool)
    ensures
        schema_spec(name, schema, required).children.len() == match schema.kind {
            SchemaKind::Object(o) => o.properties.len(),
            SchemaKind::Array(a) => if a.items is Some {
                1usize
            } else {
                0usize
            },
            SchemaKind::AllOf { all_of } => all_of.len(),
            SchemaKind::OneOf { one_of } => one_of.len(),
            SchemaKind::AnyOf { any_of } => any_of.len(),
            _ => 0usize,
        },
{
}

/// Every node of a tree that was just built is collapsed.
pub proof fn law_built_collapsed(name: Seq<char>, schema_ref: SchemaRef, required: bool)
    ensures
        node_with_all(schema_ref_spec(name, schema_ref, required), false) == schema_ref_spec(
            name,
            schema_ref,
            required,
        ),
    decreases schema_ref,
{
    let node = schema_ref_spec(name, schema_ref, required);
    match schema_ref {
        SchemaRef::Reference { .. } => {},
        SchemaRef::Item(schema) => {
            assert forall|i: int| 0 <= i < node.children.len() implies node_with_all(
                node.children[i],
                false,
            ) == node.children[i] by {
                match schema.kind {
                    SchemaKind::Object(o) => {
                        law_built_collapsed(
                            o.properties[i].0@,
                            o.properties[i].1,
                            o.required.deep_view().contains(o.properties[i].0@),
                        );
                    },
                    SchemaKind::Array(a) => {
                        law_built_collapsed("items"@, a.items->0, false);
                    },
                    SchemaKind::AllOf { all_of } => {
                        law_built_collapsed(branch_name(i as nat), all_of[i], false);
                    },
                    SchemaKind::OneOf { one_of } => {
                        law_built_collapsed(branch_name(i as nat), one_of[i], false);
                    },
                    SchemaKind::AnyOf { any_of } => {
                        law_built_collapsed(branch_name(i as nat), any_of[i], false);
                    },
                    _ => {},
                }
            }
        },
    }
    assert(node_with_all(node, false).children =~= node.children);
}

} // verus!
