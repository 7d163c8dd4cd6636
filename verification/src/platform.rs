//! The platform-info resolver.
//!
//! A platform-info document carries the architecture's name, its width table
//! (decimal power-of-two keys, flat string-attribute values) and its
//! number-type table (type-class names, flat string-attribute values).
//! Resolution validates the document exhaustively and yields an immutable
//! [`PlatformInfo`] or the first error in document order.

use vstd::prelude::*;
use crate::doc::{Node, Shape, spec_shape_of, shape_of, spec_lookup, lookup, spec_string_map,
    as_string_map, join_path};
use crate::error::{GenError, ErrModel};
use crate::num::{spec_parse_width, parse_width, spec_is_pow2, is_pow2};

verus! {

/// A flat string-attribute record, as a sequence of key/value pairs in
/// document order.
pub type AttrsM = Seq<(Seq<char>, Seq<char>)>;

/// The model of a width table: widths with their attribute records, in
/// document order.
pub type WidthTableM = Seq<(u64, AttrsM)>;

/// The model of a number-type table: type-class names with their attribute
/// records, in document order.
pub type ClassTableM = Seq<(Seq<char>, AttrsM)>;

/// An architecture's validated platform metadata: read-only input to every
/// later pipeline stage.
#[derive(Debug)]
pub struct PlatformInfo {
    /// The platform's name.
    pub platform: String,
    /// Width table: each entry a power-of-two width with its attributes;
    /// widths are unique, entries keep document order.
    pub widths: Vec<(u64, Vec<(String, String)>)>,
    /// Number-type table: type-class names with their attributes, in
    /// document order.
    pub number_info: Vec<(String, Vec<(String, String)>)>,
}

/// The mathematical model of a [`PlatformInfo`].
pub struct PlatformModel {
    pub platform: Seq<char>,
    pub widths: WidthTableM,
    pub number_info: ClassTableM,
}

impl DeepView for PlatformInfo {
    type V = PlatformModel;

    open spec fn deep_view(&self) -> PlatformModel {
        PlatformModel {
            platform: self.platform@,
            widths: self.widths.deep_view(),
            number_info: self.number_info.deep_view(),
        }
    }
}

/// Whether the width table already carries width `w`.
pub open spec fn spec_width_contains(t: WidthTableM, w: u64) -> bool {
    exists|j: int| 0 <= j < t.len() && t[j].0 == w
}

/// A well-formed width table: every width a positive power of two, no width
/// twice.
pub open spec fn spec_widths_wf(t: WidthTableM) -> bool {
    &&& forall|j: int| 0 <= j < t.len() ==> spec_is_pow2(#[trigger] t[j].0 as int)
    &&& forall|j: int, k: int| 0 <= j < k < t.len() ==> t[j].0 != t[k].0
}

/// Folds the raw `width_info` entries from index `i` onto `acc`: parses each
/// key as a decimal width, rejects non-powers-of-two and duplicates, and
/// coerces each value to a flat string-attribute record.
pub open spec fn spec_widths_from(entries: Seq<(String, Node)>, i: int, acc: WidthTableM) -> Result<
    WidthTableM,
    ErrModel,
>
    decreases entries.len() - i,
{
    if i < 0 || i >= entries.len() {
        Ok(acc)
    } else {
        let key = entries[i].0;
        match spec_parse_width(key@) {
            None => Err(ErrModel::InvalidWidthKey { key: key@ }),
            Some(w) => if !spec_is_pow2(w as int) {
                Err(ErrModel::NonPowerOfTwoWidth { key: key@, width: w })
            } else if spec_width_contains(acc, w) {
                Err(ErrModel::DuplicateWidth { width: w })
            } else {
                match spec_string_map(entries[i].1, "width_info"@ + "."@ + key@) {
                    Ok(m) => spec_widths_from(entries, i + 1, acc.push((w, m))),
                    Err(e) => Err(e),
                }
            },
        }
    }
}

/// The width table denoted by the raw `width_info` entries.
pub open spec fn spec_widths_table(entries: Seq<(String, Node)>) -> Result<WidthTableM, ErrModel> {
    spec_widths_from(entries, 0, Seq::<(u64, AttrsM)>::empty())
}

/// Folds the raw `number_info` entries from index `i` onto `acc`, coercing
/// each value to a flat string-attribute record.
pub open spec fn spec_classes_from(entries: Seq<(String, Node)>, i: int, acc: ClassTableM) -> Result<
    ClassTableM,
    ErrModel,
>
    decreases entries.len() - i,
{
    if i < 0 || i >= entries.len() {
        Ok(acc)
    } else {
        match spec_string_map(entries[i].1, "number_info"@ + "."@ + entries[i].0@) {
            Ok(m) => spec_classes_from(entries, i + 1, acc.push((entries[i].0@, m))),
            Err(e) => Err(e),
        }
    }
}

/// The number-type table denoted by the raw `number_info` entries.
pub open spec fn spec_classes_table(entries: Seq<(String, Node)>) -> Result<ClassTableM, ErrModel> {
    spec_classes_from(entries, 0, Seq::<(Seq<char>, AttrsM)>::empty())
}

/// The platform metadata denoted by a platform-info document, or the first
/// error in document order: `platform` is required text; `width_info` and
/// `number_info` are optional records and default to empty tables.
pub open spec fn spec_resolve_platform(doc: Node) -> Result<PlatformModel, ErrModel> {
    match doc {
        Node::Record(entries) => match spec_lookup(entries@, "platform"@) {
            Some(Node::Text(p)) => {
                let widths_r = match spec_lookup(entries@, "width_info"@) {
                    None => Ok(Seq::<(u64, AttrsM)>::empty()),
                    Some(Node::Record(we)) => spec_widths_table(we@),
                    Some(other) => Err(
                        ErrModel::SchemaError {
                            path: "width_info"@,
                            expected: Shape::Record,
                            actual: spec_shape_of(other),
                        },
                    ),
                };
                match widths_r {
                    Err(e) => Err(e),
                    Ok(ws) => {
                        let classes_r = match spec_lookup(entries@, "number_info"@) {
                            None => Ok(Seq::<(Seq<char>, AttrsM)>::empty()),
                            Some(Node::Record(ne)) => spec_classes_table(ne@),
                            Some(other) => Err(
                                ErrModel::SchemaError {
                                    path: "number_info"@,
                                    expected: Shape::Record,
                                    actual: spec_shape_of(other),
                                },
                            ),
                        };
                        match classes_r {
                            Err(e) => Err(e),
                            Ok(ns) => Ok(
                                PlatformModel { platform: p@, widths: ws, number_info: ns },
                            ),
                        }
                    },
                }
            },
            Some(other) => Err(
                ErrModel::SchemaError {
                    path: "platform"@,
                    expected: Shape::Text,
                    actual: spec_shape_of(other),
                },
            ),
            None => Err(
                ErrModel::SchemaError {
                    path: "platform"@,
                    expected: Shape::Text,
                    actual: Shape::Missing,
                },
            ),
        },
        other => Err(
            ErrModel::SchemaError {
                path: ""@,
                expected: Shape::Record,
                actual: spec_shape_of(other),
            },
        ),
    }
}

/// Tests whether the width table already carries width `w`.
pub fn width_table_contains(t: &Vec<(u64, Vec<(String, String)>)>, w: u64) -> (r: bool)
    ensures
        r == spec_width_contains(t.deep_view(), w),
{
    let n = t.len();
    for j in 0..n
        invariant
            n == t@.len(),
            forall|k: int| 0 <= k < j ==> t.deep_view()[k].0 != w,
    {
        if t[j].0 == w {
            assert(t.deep_view()[j as int].0 == w);
            return true;
        }
        assert(t.deep_view()[j as int].0 == t@[j as int].0);
    }
    false
}

/// Builds the width table from the raw `width_info` entries.
fn widths_table(entries: &Vec<(String, Node)>) -> (r: Result<
    Vec<(u64, Vec<(String, String)>)>,
    GenError,
>)
    ensures
        match r {
            Ok(v) => spec_widths_table(entries@) == Ok::<WidthTableM, ErrModel>(v.deep_view()),
            Err(e) => spec_widths_table(entries@) == Err::<WidthTableM, ErrModel>(e.deep_view()),
        },
{
    let mut acc: Vec<(u64, Vec<(String, String)>)> = Vec::new();
    let n = entries.len();
    assert(acc.deep_view() =~= Seq::<(u64, AttrsM)>::empty());
    for i in 0..n
        invariant
            n == entries@.len(),
            spec_widths_table(entries@) == spec_widths_from(entries@, i as int, acc.deep_view()),
    {
        let key = &entries[i].0;
        let w = match parse_width(key.as_str()) {
            Some(w) => w,
            None => {
                return Err(GenError::InvalidWidthKey { key: key.clone() });
            },
        };
        if !is_pow2(w) {
            return Err(GenError::NonPowerOfTwoWidth { key: key.clone(), width: w });
        }
        if width_table_contains(&acc, w) {
            return Err(GenError::DuplicateWidth { width: w });
        }
        let path = join_path("width_info", key.as_str());
        let attrs = match as_string_map(&entries[i].1, path.as_str()) {
            Ok(m) => m,
            Err(e) => {
                return Err(e);
            },
        };
        let ghost old_acc = acc.deep_view();
        let ghost attrs_m = attrs.deep_view();
        acc.push((w, attrs));
        assert(acc.deep_view() =~= old_acc.push((w, attrs_m)));
    }
    Ok(acc)
}

/// Builds the number-type table from the raw `number_info` entries.
fn classes_table(entries: &Vec<(String, Node)>) -> (r: Result<
    Vec<(String, Vec<(String, String)>)>,
    GenError,
>)
    ensures
        match r {
            Ok(v) => spec_classes_table(entries@) == Ok::<ClassTableM, ErrModel>(v.deep_view()),
            Err(e) => spec_classes_table(entries@) == Err::<ClassTableM, ErrModel>(e.deep_view()),
        },
{
    let mut acc: Vec<(String, Vec<(String, String)>)> = Vec::new();
    let n = entries.len();
    assert(acc.deep_view() =~= Seq::<(Seq<char>, AttrsM)>::empty());
    for i in 0..n
        invariant
            n == entries@.len(),
            spec_classes_table(entries@) == spec_classes_from(entries@, i as int, acc.deep_view()),
    {
        let path = join_path("number_info", entries[i].0.as_str());
        let attrs = match as_string_map(&entries[i].1, path.as_str()) {
            Ok(m) => m,
            Err(e) => {
                return Err(e);
            },
        };
        let ghost old_acc = acc.deep_view();
        let ghost attrs_m = attrs.deep_view();
        let key = entries[i].0.clone();
        acc.push((key, attrs));
        assert(acc.deep_view() =~= old_acc.push((entries@[i as int].0@, attrs_m)));
    }
    Ok(acc)
}

/// Resolves a platform-info document into a validated [`PlatformInfo`],
/// or reports the first error in document order.
pub fn resolve_platform_info(doc: &Node) -> (r: Result<PlatformInfo, GenError>)
    ensures
        match r {
            Ok(p) => spec_resolve_platform(*doc) == Ok::<PlatformModel, ErrModel>(p.deep_view()),
            Err(e) => spec_resolve_platform(*doc) == Err::<PlatformModel, ErrModel>(e.deep_view()),
        },
{
    let entries = match doc {
        Node::Record(entries) => entries,
        other => {
            return Err(
                GenError::SchemaError {
                    path: "".to_owned(),
                    expected: Shape::Record,
                    actual: shape_of(other),
                },
            );
        },
    };
    let platform = match lookup(entries, "platform") {
        Some(Node::Text(p)) => p.clone(),
        Some(other) => {
            return Err(
                GenError::SchemaError {
                    path: "platform".to_owned(),
                    expected: Shape::Text,
                    actual: shape_of(other),
                },
            );
        },
        None => {
            return Err(
                GenError::SchemaError {
                    path: "platform".to_owned(),
                    expected: Shape::Text,
                    actual: Shape::Missing,
                },
            );
        },
    };
    let widths = match lookup(entries, "width_info") {
        None => {
            let v: Vec<(u64, Vec<(String, String)>)> = Vec::new();
            assert(v.deep_view() =~= Seq::<(u64, AttrsM)>::empty());
            v
        },
        Some(Node::Record(we)) => match widths_table(we) {
            Ok(v) => v,
            Err(e) => {
                return Err(e);
            },
        },
        Some(other) => {
            return Err(
                GenError::SchemaError {
                    path: "width_info".to_owned(),
                    expected: Shape::Record,
                    actual: shape_of(other),
                },
            );
        },
    };
    let number_info = match lookup(entries, "number_info") {
        None => {
            let v: Vec<(String, Vec<(String, String)>)> = Vec::new();
            assert(v.deep_view() =~= Seq::<(Seq<char>, AttrsM)>::empty());
            v
        },
        Some(Node::Record(ne)) => match classes_table(ne) {
            Ok(v) => v,
            Err(e) => {
                return Err(e);
            },
        },
        Some(other) => {
            return Err(
                GenError::SchemaError {
                    path: "number_info".to_owned(),
                    expected: Shape::Record,
                    actual: shape_of(other),
                },
            );
        },
    };
    Ok(PlatformInfo { platform, widths, number_info })
}

/// Every width table that platform resolution accepts is well formed: all
/// widths positive powers of two, no width twice.
pub proof fn lemma_widths_from_wf(entries: Seq<(String, Node)>, i: int, acc: WidthTableM)
    requires
        spec_widths_wf(acc),
    ensures
        spec_widths_from(entries, i, acc) matches Ok(t) ==> spec_widths_wf(t),
    decreases entries.len() - i,
{
    if 0 <= i < entries.len() {
        let key = entries[i].0;
        match spec_parse_width(key@) {
            None => {},
            Some(w) => {
                if spec_is_pow2(w as int) && !spec_width_contains(acc, w) {
                    match spec_string_map(entries[i].1, "width_info"@ + "."@ + key@) {
                        Ok(m) => {
                            let acc2 = acc.push((w, m));
                            assert forall|j: int, k: int| 0 <= j < k < acc2.len() implies acc2[j].0
                                != acc2[k].0 by {
                                if k == acc2.len() - 1 {
                                    assert(!spec_width_contains(acc, w));
                                    assert(acc2[j].0 == acc[j].0);
                                }
                            }
                            lemma_widths_from_wf(entries, i + 1, acc2);
                        },
                        Err(_) => {},
                    }
                }
            },
        }
    }
}

/// Law: every platform a document resolves to has a well-formed width
/// table — each width a positive power of two, and no width twice.
pub proof fn lemma_platform_widths_wf(doc: Node)
    ensures
        spec_resolve_platform(doc) matches Ok(m) ==> spec_widths_wf(m.widths),
{
    if let Node::Record(entries) = doc {
        if let Some(Node::Record(we)) = spec_lookup(entries@, "width_info"@) {
            lemma_widths_from_wf(we@, 0, Seq::<(u64, AttrsM)>::empty());
        }
    }
}

} // verus!
