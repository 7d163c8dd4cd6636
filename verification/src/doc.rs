//! The document tree that every pipeline stage reads.
//!
//! Input documents arrive as a [`Node`] tree of plain values; the caller is
//! responsible for turning whatever serialized form it reads (JSON files, in
//! practice) into this shape before handing it to the library.

use vstd::prelude::*;
use crate::error::{GenError, ErrModel};

verus! {

/// One node of a structured input document.
///
/// Objects keep their fields in document order; a lookup finds the first
/// entry with the requested key.
#[derive(Debug)]
pub enum Node {
    Null,
    Bool(bool),
    UInt(u64),
    Text(String),
    List(Vec<Node>),
    Record(Vec<(String, Node)>),
}

/// The coarse shape of a node, used in schema diagnostics to report the
/// expected form of a field against the form actually found.
#[derive(Clone, Copy, Debug, PartialEq, Eq, Structural)]
pub enum Shape {
    /// The field is absent from the enclosing record.
    Missing,
    Null,
    Bool,
    Number,
    Text,
    List,
    Record,
}

/// The shape of a given node.
pub open spec fn spec_shape_of(n: Node) -> Shape {
    match n {
        Node::Null => Shape::Null,
        Node::Bool(_) => Shape::Bool,
        Node::UInt(_) => Shape::Number,
        Node::Text(_) => Shape::Text,
        Node::List(_) => Shape::List,
        Node::Record(_) => Shape::Record,
    }
}

/// Reports the shape of a node.
pub fn shape_of(n: &Node) -> (r: Shape)
    ensures
        r == spec_shape_of(*n),
{
    match n {
        Node::Null => Shape::Null,
        Node::Bool(_) => Shape::Bool,
        Node::UInt(_) => Shape::Number,
        Node::Text(_) => Shape::Text,
        Node::List(_) => Shape::List,
        Node::Record(_) => Shape::Record,
    }
}

/// First-match lookup over the tail of a record's entries, starting at `i`.
pub open spec fn spec_lookup_from(entries: Seq<(String, Node)>, key: Seq<char>, i: int) -> Option<
    Node,
>
    decreases entries.len() - i,
{
    if i < 0 || i >= entries.len() {
        None
    } else if entries[i].0@ == key {
        Some(entries[i].1)
    } else {
        spec_lookup_from(entries, key, i + 1)
    }
}

/// First-match lookup of `key` among a record's entries.
pub open spec fn spec_lookup(entries: Seq<(String, Node)>, key: Seq<char>) -> Option<Node> {
    spec_lookup_from(entries, key, 0)
}

/// Compares two string slices by their character sequences.
pub fn str_eq(a: &str, b: &str) -> (r: bool)
    ensures
        r == (a@ == b@),
{
    let sa: String = a.to_owned();
    let sb: String = b.to_owned();
    sa == sb
}

/// Finds the first entry of `entries` whose key equals `key`.
pub fn lookup<'a>(entries: &'a Vec<(String, Node)>, key: &str) -> (r: Option<&'a Node>)
    ensures
        match r {
            Some(n) => spec_lookup(entries@, key@) == Some(*n),
            None => spec_lookup(entries@, key@) is None,
        },
{
    let n = entries.len();
    for i in 0..n
        invariant
            n == entries@.len(),
            spec_lookup(entries@, key@) == spec_lookup_from(entries@, key@, i as int),
    {
        if str_eq(entries[i].0.as_str(), key) {
            return Some(&entries[i].1);
        }
    }
    None
}

/// Joins a field path and a nested field name with a dot.
pub fn join_path(path: &str, key: &str) -> (r: String)
    ensures
        r@ == path@ + "."@ + key@,
{
    let mut s = path.to_owned();
    s.append(".");
    s.append(key);
    s
}

/// Coerces the tail of a record's entries, from index `i`, into a flat
/// string-attribute record on top of `acc`; a non-text value fails with a
/// schema error naming the nested path.
pub open spec fn spec_string_map_from(
    entries: Seq<(String, Node)>,
    path: Seq<char>,
    i: int,
    acc: Seq<(Seq<char>, Seq<char>)>,
) -> Result<Seq<(Seq<char>, Seq<char>)>, ErrModel>
    decreases entries.len() - i,
{
    if i < 0 || i >= entries.len() {
        Ok(acc)
    } else {
        match entries[i].1 {
            Node::Text(s) => spec_string_map_from(
                entries,
                path,
                i + 1,
                acc.push((entries[i].0@, s@)),
            ),
            other => Err(
                ErrModel::SchemaError {
                    path: path + "."@ + entries[i].0@,
                    expected: Shape::Text,
                    actual: spec_shape_of(other),
                },
            ),
        }
    }
}

/// Coerces a node into a flat string-attribute record: the node must be a
/// record whose values are all text; `path` names the node in diagnostics.
pub open spec fn spec_string_map(n: Node, path: Seq<char>) -> Result<
    Seq<(Seq<char>, Seq<char>)>,
    ErrModel,
> {
    match n {
        Node::Record(entries) => spec_string_map_from(
            entries@,
            path,
            0,
            Seq::<(Seq<char>, Seq<char>)>::empty(),
        ),
        other => Err(
            ErrModel::SchemaError {
                path: path,
                expected: Shape::Record,
                actual: spec_shape_of(other),
            },
        ),
    }
}

/// Coerces `n` into a flat string-attribute record, or reports the first
/// wrongly-shaped field by its full nested path.
pub fn as_string_map(n: &Node, path: &str) -> (r: Result<Vec<(String, String)>, GenError>)
    ensures
        match r {
            Ok(m) => spec_string_map(*n, path@) == Ok::<Seq<(Seq<char>, Seq<char>)>, ErrModel>(
                m.deep_view(),
            ),
            Err(e) => spec_string_map(*n, path@) == Err::<Seq<(Seq<char>, Seq<char>)>, ErrModel>(
                e.deep_view(),
            ),
        },
{
    let entries = match n {
        Node::Record(entries) => entries,
        other => {
            return Err(
                GenError::SchemaError {
                    path: path.to_owned(),
                    expected: Shape::Record,
                    actual: shape_of(other),
                },
            );
        },
    };
    let mut acc: Vec<(String, String)> = Vec::new();
    let m = entries.len();
    assert(acc.deep_view() =~= Seq::<(Seq<char>, Seq<char>)>::empty());
    for i in 0..m
        invariant
            m == entries@.len(),
            spec_string_map(*n, path@) == spec_string_map_from(
                entries@,
                path@,
                i as int,
                acc.deep_view(),
            ),
    {
        match &entries[i].1 {
            Node::Text(s) => {
                let ghost old_acc = acc.deep_view();
                acc.push((entries[i].0.clone(), s.clone()));
                assert(acc.deep_view() =~= old_acc.push((entries@[i as int].0@, s@)));
            },
            other => {
                return Err(
                    GenError::SchemaError {
                        path: join_path(path, entries[i].0.as_str()),
                        expected: Shape::Text,
                        actual: shape_of(other),
                    },
                );
            },
        }
    }
    Ok(acc)
}

} // verus!
