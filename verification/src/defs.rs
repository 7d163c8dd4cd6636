//! The intrinsic-definition parser.
//!
//! A definition document is a sequence of entries; each entry names an
//! intrinsic, lists the widths it applies to, its argument type references,
//! its return type reference and an optional feature gate. Entries keep their
//! document position as `origin_order`, and the file they came from as
//! `origin_file`, for diagnostics and deterministic output ordering.

use vstd::prelude::*;
use crate::doc::{Node, Shape, spec_shape_of, shape_of, spec_lookup, lookup};
use crate::error::{GenError, ErrModel};

verus! {

/// One parsed intrinsic specification, possibly generic over width.
#[derive(Debug)]
pub struct IntrinsicSpec {
    /// The base name, unique within one architecture's combined input.
    pub name: String,
    /// The widths the intrinsic is expanded for: non-empty, strictly
    /// ascending.
    pub applicable_widths: Vec<u64>,
    /// Symbolic type references for the arguments, in order; non-empty.
    pub arg_types: Vec<String>,
    /// Symbolic type reference for the return value.
    pub ret_type: String,
    /// The instruction-set extension the intrinsic needs, if any.
    pub feature_gate: Option<String>,
    /// The definition document the entry came from.
    pub origin_file: String,
    /// The entry's position within its document.
    pub origin_order: usize,
}

/// The mathematical model of an [`IntrinsicSpec`].
pub struct IntrinsicModel {
    pub name: Seq<char>,
    pub applicable_widths: Seq<u64>,
    pub arg_types: Seq<Seq<char>>,
    pub ret_type: Seq<char>,
    pub feature_gate: Option<Seq<char>>,
    pub origin_file: Seq<char>,
    pub origin_order: int,
}

impl DeepView for IntrinsicSpec {
    type V = IntrinsicModel;

    open spec fn deep_view(&self) -> IntrinsicModel {
        IntrinsicModel {
            name: self.name@,
            applicable_widths: self.applicable_widths@,
            arg_types: self.arg_types.deep_view(),
            ret_type: self.ret_type@,
            feature_gate: self.feature_gate.deep_view(),
            origin_file: self.origin_file@,
            origin_order: self.origin_order as int,
        }
    }
}

/// A strictly ascending width sequence.
pub open spec fn spec_sorted_strict(s: Seq<u64>) -> bool {
    forall|i: int, j: int| 0 <= i < j < s.len() ==> s[i] < s[j]
}

/// Inserts `w` into the ascending sequence `s`, keeping it ascending and
/// dropping `w` if it is already present.
pub open spec fn spec_insert_sorted(s: Seq<u64>, w: u64) -> Seq<u64>
    decreases s.len(),
{
    if s.len() == 0 {
        seq![w]
    } else if w < s[0] {
        seq![w] + s
    } else if w == s[0] {
        s
    } else {
        seq![s[0]] + spec_insert_sorted(s.drop_first(), w)
    }
}

/// Inserting into an ascending sequence at the first position whose element
/// is not below `w` either finds `w` or puts it there.
proof fn lemma_insert_sorted_at(s: Seq<u64>, w: u64, j: int)
    requires
        0 <= j <= s.len(),
        forall|k: int| 0 <= k < j ==> s[k] < w,
        j < s.len() ==> s[j] >= w,
    ensures
        (j < s.len() && s[j] == w) ==> spec_insert_sorted(s, w) == s,
        !(j < s.len() && s[j] == w) ==> spec_insert_sorted(s, w) == s.insert(j, w),
    decreases j,
{
    if j == 0 {
        if s.len() == 0 {
            assert(spec_insert_sorted(s, w) =~= s.insert(0, w));
        } else if w < s[0] {
            assert(spec_insert_sorted(s, w) =~= s.insert(0, w));
        }
    } else {
        let t = s.drop_first();
        lemma_insert_sorted_at(t, w, j - 1);
        assert(s[0] < w);
        if j < s.len() && s[j] == w {
            assert(t[j - 1] == w);
            assert(spec_insert_sorted(s, w) =~= s);
        } else {
            assert(seq![s[0]] + t.insert(j - 1, w) =~= s.insert(j, w));
        }
    }
}

/// Sorted insertion keeps a width sequence strictly ascending.
proof fn lemma_insert_sorted_sorted(s: Seq<u64>, w: u64)
    requires
        spec_sorted_strict(s),
    ensures
        spec_sorted_strict(spec_insert_sorted(s, w)),
        spec_insert_sorted(s, w).len() >= 1,
    decreases s.len(),
{
    if s.len() == 0 {
    } else if w < s[0] {
        let r = seq![w] + s;
        assert forall|i: int, j: int| 0 <= i < j < r.len() implies r[i] < r[j] by {
            if i == 0 {
                if j > 1 {
                    assert(s[0] < s[j - 1]);
                }
            }
        }
    } else if w == s[0] {
    } else {
        let t = s.drop_first();
        assert forall|i: int, j: int| 0 <= i < j < t.len() implies t[i] < t[j] by {
            assert(s[i + 1] < s[j + 1]);
        }
        lemma_insert_sorted_sorted(t, w);
        let rt = spec_insert_sorted(t, w);
        let r = seq![s[0]] + rt;
        assert(spec_insert_sorted(s, w) == r);
        assert forall|i: int, j: int| 0 <= i < j < r.len() implies r[i] < r[j] by {
            if i == 0 {
                lemma_insert_sorted_lower(t, w, s[0]);
            }
        }
    }
}

/// Every element of a sorted insertion is bounded below by any bound below
/// both the sequence and the inserted width.
proof fn lemma_insert_sorted_lower(s: Seq<u64>, w: u64, b: u64)
    requires
        b < w,
        forall|k: int| 0 <= k < s.len() ==> b < s[k],
    ensures
        forall|k: int| 0 <= k < spec_insert_sorted(s, w).len() ==> b < spec_insert_sorted(s, w)[k],
    decreases s.len(),
{
    if s.len() == 0 {
    } else if w < s[0] {
    } else if w == s[0] {
    } else {
        let t = s.drop_first();
        assert(forall|k: int| 0 <= k < t.len() ==> b < t[k]);
        lemma_insert_sorted_lower(t, w, b);
        let r = seq![s[0]] + spec_insert_sorted(t, w);
        assert(forall|k: int| 0 <= k < r.len() ==> b < r[k]);
    }
}

/// Folding widths keeps the accumulator strictly ascending and never
/// shrinks it.
proof fn lemma_widths_list_sorted(items: Seq<Node>, i: int, acc: Seq<u64>)
    requires
        spec_sorted_strict(acc),
    ensures
        spec_widths_list_from(items, i, acc) matches Some(ws) ==> spec_sorted_strict(ws) && ws.len()
            >= acc.len(),
    decreases items.len() - i,
{
    if 0 <= i < items.len() {
        match items[i] {
            Node::UInt(w) => {
                lemma_insert_sorted_sorted(acc, w);
                lemma_insert_sorted_len(acc, w);
                lemma_widths_list_sorted(items, i + 1, spec_insert_sorted(acc, w));
            },
            _ => {},
        }
    }
}

/// Sorted insertion never shrinks a sequence.
proof fn lemma_insert_sorted_len(s: Seq<u64>, w: u64)
    ensures
        spec_insert_sorted(s, w).len() >= s.len(),
    decreases s.len(),
{
    if s.len() > 0 && w > s[0] {
        lemma_insert_sorted_len(s.drop_first(), w);
    }
}

/// Law: every intrinsic an entry parses to is well formed — its width set
/// non-empty and strictly ascending, its argument list non-empty, its origin
/// and position as given.
pub proof fn lemma_parse_entry_wf(n: Node, origin: Seq<char>, index: int)
    ensures
        spec_parse_entry(n, origin, index) matches Ok(s) ==> spec_sorted_strict(
            s.applicable_widths,
        ) && s.applicable_widths.len() > 0 && s.arg_types.len() > 0 && s.origin_file == origin
            && s.origin_order == index,
{
    if let Node::Record(fields) = n {
        if let Some(Node::List(items)) = spec_lookup(fields@, "widths"@) {
            assert(spec_sorted_strict(Seq::<u64>::empty()));
            lemma_widths_list_sorted(items@, 0, Seq::<u64>::empty());
        }
    }
}

/// Inserts `w` into the ascending vector `ws`, keeping it ascending and
/// ignoring a width already present.
fn insert_sorted(ws: &mut Vec<u64>, w: u64)
    ensures
        final(ws)@ == spec_insert_sorted(old(ws)@, w),
{
    let n = ws.len();
    let mut j: usize = 0;
    while j < n && ws[j] < w
        invariant
            n == ws@.len(),
            0 <= j <= n,
            ws@ == old(ws)@,
            forall|k: int| 0 <= k < j ==> ws@[k] < w,
        decreases n - j,
    {
        j += 1;
    }
    proof {
        lemma_insert_sorted_at(ws@, w, j as int);
    }
    if j < n && ws[j] == w {
        return ;
    }
    ws.insert(j, w);
}

/// Folds the raw width items from index `i` onto the ascending sequence
/// `acc`; any non-number item yields nothing.
pub open spec fn spec_widths_list_from(items: Seq<Node>, i: int, acc: Seq<u64>) -> Option<Seq<u64>>
    decreases items.len() - i,
{
    if i < 0 || i >= items.len() {
        Some(acc)
    } else {
        match items[i] {
            Node::UInt(w) => spec_widths_list_from(items, i + 1, spec_insert_sorted(acc, w)),
            _ => None,
        }
    }
}

/// Folds the raw type-reference items from index `i` onto `acc`; any
/// non-text item yields nothing.
pub open spec fn spec_texts_from(items: Seq<Node>, i: int, acc: Seq<Seq<char>>) -> Option<
    Seq<Seq<char>>,
>
    decreases items.len() - i,
{
    if i < 0 || i >= items.len() {
        Some(acc)
    } else {
        match items[i] {
            Node::Text(s) => spec_texts_from(items, i + 1, acc.push(s@)),
            _ => None,
        }
    }
}

/// A malformed-entry error for field `field` of entry `index` of `origin`.
pub open spec fn spec_def_err(origin: Seq<char>, index: int, field: Seq<char>) -> ErrModel {
    ErrModel::DefinitionError { origin: origin, index: index, field: field }
}

/// The ascending width set of an entry: the `widths` field must be a
/// non-empty list of numbers.
pub open spec fn spec_entry_widths(
    fields: Seq<(String, Node)>,
    origin: Seq<char>,
    index: int,
) -> Result<Seq<u64>, ErrModel> {
    match spec_lookup(fields, "widths"@) {
        Some(Node::List(items)) => match spec_widths_list_from(items@, 0, Seq::<u64>::empty()) {
            Some(ws) => if ws.len() > 0 {
                Ok(ws)
            } else {
                Err(spec_def_err(origin, index, "widths"@))
            },
            None => Err(spec_def_err(origin, index, "widths"@)),
        },
        _ => Err(spec_def_err(origin, index, "widths"@)),
    }
}

/// The argument type references of an entry: the `args` field must be a
/// non-empty list of text.
pub open spec fn spec_entry_args(
    fields: Seq<(String, Node)>,
    origin: Seq<char>,
    index: int,
) -> Result<Seq<Seq<char>>, ErrModel> {
    match spec_lookup(fields, "args"@) {
        Some(Node::List(items)) => match spec_texts_from(items@, 0, Seq::<Seq<char>>::empty()) {
            Some(args) => if args.len() > 0 {
                Ok(args)
            } else {
                Err(spec_def_err(origin, index, "args"@))
            },
            None => Err(spec_def_err(origin, index, "args"@)),
        },
        _ => Err(spec_def_err(origin, index, "args"@)),
    }
}

/// The optional feature gate of an entry: absent, or text.
pub open spec fn spec_entry_gate(
    fields: Seq<(String, Node)>,
    origin: Seq<char>,
    index: int,
) -> Result<Option<Seq<char>>, ErrModel> {
    match spec_lookup(fields, "feature"@) {
        None => Ok(None),
        Some(Node::Text(s)) => Ok(Some(s@)),
        Some(_) => Err(spec_def_err(origin, index, "feature"@)),
    }
}

/// The intrinsic specification denoted by entry `index` of document
/// `origin`, or the malformed field it is rejected for.
pub open spec fn spec_parse_entry(n: Node, origin: Seq<char>, index: int) -> Result<
    IntrinsicModel,
    ErrModel,
> {
    match n {
        Node::Record(fields) => match spec_lookup(fields@, "name"@) {
            Some(Node::Text(nm)) => match spec_entry_widths(fields@, origin, index) {
                Ok(ws) => match spec_entry_args(fields@, origin, index) {
                    Ok(args) => match spec_lookup(fields@, "ret"@) {
                        Some(Node::Text(rt)) => match spec_entry_gate(fields@, origin, index) {
                            Ok(gate) => Ok(
                                IntrinsicModel {
                                    name: nm@,
                                    applicable_widths: ws,
                                    arg_types: args,
                                    ret_type: rt@,
                                    feature_gate: gate,
                                    origin_file: origin,
                                    origin_order: index,
                                },
                            ),
                            Err(e) => Err(e),
                        },
                        _ => Err(spec_def_err(origin, index, "ret"@)),
                    },
                    Err(e) => Err(e),
                },
                Err(e) => Err(e),
            },
            _ => Err(spec_def_err(origin, index, "name"@)),
        },
        _ => Err(spec_def_err(origin, index, "entry"@)),
    }
}

/// Folds the entries of a definition document from index `i` onto `acc`.
pub open spec fn spec_parse_defs_from(
    items: Seq<Node>,
    origin: Seq<char>,
    i: int,
    acc: Seq<IntrinsicModel>,
) -> Result<Seq<IntrinsicModel>, ErrModel>
    decreases items.len() - i,
{
    if i < 0 || i >= items.len() {
        Ok(acc)
    } else {
        match spec_parse_entry(items[i], origin, i) {
            Ok(m) => spec_parse_defs_from(items, origin, i + 1, acc.push(m)),
            Err(e) => Err(e),
        }
    }
}

/// The intrinsic specifications denoted by a definition document, which must
/// be a list of entries, or the first error in document order.
pub open spec fn spec_parse_defs(doc: Node, origin: Seq<char>) -> Result<
    Seq<IntrinsicModel>,
    ErrModel,
> {
    match doc {
        Node::List(items) => spec_parse_defs_from(items@, origin, 0, Seq::<IntrinsicModel>::empty()),
        other => Err(
            ErrModel::SchemaError {
                path: origin,
                expected: Shape::List,
                actual: spec_shape_of(other),
            },
        ),
    }
}

/// Parses the `widths` field of an entry.
#[verifier::loop_isolation(false)]
fn entry_widths(fields: &Vec<(String, Node)>, origin: &str, index: usize) -> (r: Result<
    Vec<u64>,
    GenError,
>)
    ensures
        match r {
            Ok(v) => spec_entry_widths(fields@, origin@, index as int) == Ok::<Seq<u64>, ErrModel>(
                v@,
            ),
            Err(e) => spec_entry_widths(fields@, origin@, index as int) == Err::<
                Seq<u64>,
                ErrModel,
            >(e.deep_view()),
        },
{
    let items = match lookup(fields, "widths") {
        Some(Node::List(items)) => items,
        _ => {
            return Err(
                GenError::DefinitionError {
                    origin: origin.to_owned(),
                    index,
                    field: "widths".to_owned(),
                },
            );
        },
    };
    let mut acc: Vec<u64> = Vec::new();
    let n = items.len();
    assert(acc@ =~= Seq::<u64>::empty());
    for i in 0..n
        invariant
            n == items@.len(),
            spec_widths_list_from(items@, 0, Seq::<u64>::empty()) == spec_widths_list_from(
                items@,
                i as int,
                acc@,
            ),
    {
        match &items[i] {
            Node::UInt(w) => {
                insert_sorted(&mut acc, *w);
            },
            _ => {
                return Err(
                    GenError::DefinitionError {
                        origin: origin.to_owned(),
                        index,
                        field: "widths".to_owned(),
                    },
                );
            },
        }
    }
    if acc.len() == 0 {
        return Err(
            GenError::DefinitionError {
                origin: origin.to_owned(),
                index,
                field: "widths".to_owned(),
            },
        );
    }
    Ok(acc)
}

/// Parses the `args` field of an entry.
#[verifier::loop_isolation(false)]
fn entry_args(fields: &Vec<(String, Node)>, origin: &str, index: usize) -> (r: Result<
    Vec<String>,
    GenError,
>)
    ensures
        match r {
            Ok(v) => spec_entry_args(fields@, origin@, index as int) == Ok::<
                Seq<Seq<char>>,
                ErrModel,
            >(v.deep_view()),
            Err(e) => spec_entry_args(fields@, origin@, index as int) == Err::<
                Seq<Seq<char>>,
                ErrModel,
            >(e.deep_view()),
        },
{
    let items = match lookup(fields, "args") {
        Some(Node::List(items)) => items,
        _ => {
            return Err(
                GenError::DefinitionError {
                    origin: origin.to_owned(),
                    index,
                    field: "args".to_owned(),
                },
            );
        },
    };
    let mut acc: Vec<String> = Vec::new();
    let n = items.len();
    assert(acc.deep_view() =~= Seq::<Seq<char>>::empty());
    for i in 0..n
        invariant
            n == items@.len(),
            spec_texts_from(items@, 0, Seq::<Seq<char>>::empty()) == spec_texts_from(
                items@,
                i as int,
                acc.deep_view(),
            ),
    {
        match &items[i] {
            Node::Text(s) => {
                let ghost old_acc = acc.deep_view();
                acc.push(s.clone());
                assert(acc.deep_view() =~= old_acc.push(s@));
            },
            _ => {
                return Err(
                    GenError::DefinitionError {
                        origin: origin.to_owned(),
                        index,
                        field: "args".to_owned(),
                    },
                );
            },
        }
    }
    if acc.len() == 0 {
        return Err(
            GenError::DefinitionError { origin: origin.to_owned(), index, field: "args".to_owned() },
        );
    }
    Ok(acc)
}

/// Parses one definition entry.
fn parse_entry(n: &Node, origin: &str, index: usize) -> (r: Result<IntrinsicSpec, GenError>)
    ensures
        match r {
            Ok(s) => spec_parse_entry(*n, origin@, index as int) == Ok::<IntrinsicModel, ErrModel>(
                s.deep_view(),
            ),
            Err(e) => spec_parse_entry(*n, origin@, index as int) == Err::<
                IntrinsicModel,
                ErrModel,
            >(e.deep_view()),
        },
{
    let fields = match n {
        Node::Record(fields) => fields,
        _ => {
            return Err(
                GenError::DefinitionError {
                    origin: origin.to_owned(),
                    index,
                    field: "entry".to_owned(),
                },
            );
        },
    };
    let name = match lookup(fields, "name") {
        Some(Node::Text(nm)) => nm.clone(),
        _ => {
            return Err(
                GenError::DefinitionError {
                    origin: origin.to_owned(),
                    index,
                    field: "name".to_owned(),
                },
            );
        },
    };
    let applicable_widths = match entry_widths(fields, origin, index) {
        Ok(ws) => ws,
        Err(e) => {
            return Err(e);
        },
    };
    let arg_types = match entry_args(fields, origin, index) {
        Ok(args) => args,
        Err(e) => {
            return Err(e);
        },
    };
    let ret_type = match lookup(fields, "ret") {
        Some(Node::Text(rt)) => rt.clone(),
        _ => {
            return Err(
                GenError::DefinitionError {
                    origin: origin.to_owned(),
                    index,
                    field: "ret".to_owned(),
                },
            );
        },
    };
    let feature_gate = match lookup(fields, "feature") {
        None => None,
        Some(Node::Text(s)) => Some(s.clone()),
        Some(_) => {
            return Err(
                GenError::DefinitionError {
                    origin: origin.to_owned(),
                    index,
                    field: "feature".to_owned(),
                },
            );
        },
    };
    Ok(
        IntrinsicSpec {
            name,
            applicable_widths,
            arg_types,
            ret_type,
            feature_gate,
            origin_file: origin.to_owned(),
            origin_order: index,
        },
    )
}

/// Parses a definition document: a list of entries, each assigned its
/// position as `origin_order`, all carrying `origin` as `origin_file`.
#[verifier::loop_isolation(false)]
pub fn parse_definitions(doc: &Node, origin: &str) -> (r: Result<Vec<IntrinsicSpec>, GenError>)
    ensures
        match r {
            Ok(v) => spec_parse_defs(*doc, origin@) == Ok::<Seq<IntrinsicModel>, ErrModel>(
                v.deep_view(),
            ),
            Err(e) => spec_parse_defs(*doc, origin@) == Err::<Seq<IntrinsicModel>, ErrModel>(
                e.deep_view(),
            ),
        },
{
    let items = match doc {
        Node::List(items) => items,
        other => {
            return Err(
                GenError::SchemaError {
                    path: origin.to_owned(),
                    expected: Shape::List,
                    actual: shape_of(other),
                },
            );
        },
    };
    let mut acc: Vec<IntrinsicSpec> = Vec::new();
    let n = items.len();
    assert(acc.deep_view() =~= Seq::<IntrinsicModel>::empty());
    for i in 0..n
        invariant
            n == items@.len(),
            spec_parse_defs_from(items@, origin@, 0, Seq::<IntrinsicModel>::empty())
                == spec_parse_defs_from(items@, origin@, i as int, acc.deep_view()),
    {
        match parse_entry(&items[i], origin, i) {
            Ok(s) => {
                let ghost old_acc = acc.deep_view();
                let ghost sm = s.deep_view();
                acc.push(s);
                assert(acc.deep_view() =~= old_acc.push(sm));
            },
            Err(e) => {
                return Err(e);
            },
        }
    }
    Ok(acc)
}

/// The base names of a parsed intrinsic sequence, in order.
pub open spec fn spec_names_of(specs: Seq<IntrinsicModel>) -> Seq<Seq<char>> {
    Seq::new(specs.len(), |i: int| specs[i].name)
}

/// Collects the intrinsics' base names, in order.
#[verifier::loop_isolation(false)]
pub fn names_of(specs: &Vec<IntrinsicSpec>) -> (r: Vec<String>)
    ensures
        r.deep_view() == spec_names_of(specs.deep_view()),
{
    let mut out: Vec<String> = Vec::new();
    let n = specs.len();
    for i in 0..n
        invariant
            out.deep_view().len() == i as int,
            forall|k: int| 0 <= k < i ==> out.deep_view()[k] == specs.deep_view()[k].name,
    {
        let ghost old_out = out.deep_view();
        out.push(specs[i].name.clone());
        assert(out.deep_view() =~= old_out.push(specs@[i as int].name@));
    }
    proof {
        assert(out.deep_view() =~= spec_names_of(specs.deep_view()));
    }
    out
}

/// Whether `xs[j]` already occurs before position `j`.
pub open spec fn spec_dup_in_prefix(xs: Seq<Seq<char>>, j: int) -> bool {
    exists|i: int| 0 <= i < j && xs[i] == xs[j]
}

/// The first name, scanning from position `j`, that occurred earlier in
/// `xs`.
pub open spec fn spec_first_dup_from(xs: Seq<Seq<char>>, j: int) -> Option<Seq<char>>
    decreases xs.len() - j,
{
    if j < 0 || j >= xs.len() {
        None
    } else if spec_dup_in_prefix(xs, j) {
        Some(xs[j])
    } else {
        spec_first_dup_from(xs, j + 1)
    }
}

/// The first name in `xs` that occurs twice.
pub open spec fn spec_first_dup(xs: Seq<Seq<char>>) -> Option<Seq<char>> {
    spec_first_dup_from(xs, 0)
}

/// A clean scan finds no duplicate at or past its start.
proof fn lemma_first_dup_none(xs: Seq<Seq<char>>, j: int)
    requires
        0 <= j,
        spec_first_dup_from(xs, j) is None,
    ensures
        forall|a: int, b: int| 0 <= a < b < xs.len() && j <= b ==> xs[a] != xs[b],
    decreases xs.len() - j,
{
    if j < xs.len() {
        lemma_first_dup_none(xs, j + 1);
    }
}

/// A scan that reports a duplicate has seen one.
proof fn lemma_first_dup_some(xs: Seq<Seq<char>>, j: int)
    requires
        0 <= j,
        spec_first_dup_from(xs, j) is Some,
    ensures
        exists|a: int, b: int| 0 <= a < b < xs.len() && xs[a] == xs[b],
    decreases xs.len() - j,
{
    if j < xs.len() {
        if !spec_dup_in_prefix(xs, j) {
            lemma_first_dup_some(xs, j + 1);
        }
    }
}

/// Law: the duplicate scan reports a name exactly when two positions of
/// `xs` hold the same name.
pub proof fn lemma_first_dup_iff(xs: Seq<Seq<char>>)
    ensures
        (spec_first_dup(xs) is Some) <==> (exists|a: int, b: int|
            0 <= a < b < xs.len() && xs[a] == xs[b]),
{
    if spec_first_dup(xs) is Some {
        lemma_first_dup_some(xs, 0);
    } else {
        lemma_first_dup_none(xs, 0);
    }
}

/// Finds the first name of `names` that occurred earlier in the vector.
#[verifier::loop_isolation(false)]
pub fn first_duplicate(names: &Vec<String>) -> (r: Option<String>)
    ensures
        match r {
            Some(s) => spec_first_dup(names.deep_view()) == Some(s@),
            None => spec_first_dup(names.deep_view()) is None,
        },
{
    let n = names.len();
    for j in 0..n
        invariant
            n == names@.len(),
            spec_first_dup(names.deep_view()) == spec_first_dup_from(names.deep_view(), j as int),
    {
        for i in 0..j
            invariant
                n == names@.len(),
                j < n,
                forall|k: int| 0 <= k < i ==> names.deep_view()[k] != names.deep_view()[j as int],
        {
            if names[i] == names[j] {
                assert(names.deep_view()[i as int] == names.deep_view()[j as int]);
                assert(spec_dup_in_prefix(names.deep_view(), j as int));
                return Some(names[j].clone());
            }
            assert(names.deep_view()[i as int] != names.deep_view()[j as int]);
        }
        assert(!spec_dup_in_prefix(names.deep_view(), j as int));
    }
    None
}

} // verus!
