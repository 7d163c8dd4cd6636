//! A build-time generator for platform-intrinsic bindings.
//!
//! The pipeline reads a platform-info document (an architecture's width and
//! number-type tables) and one or more intrinsic-definition documents,
//! resolves every symbolic type and width reference against the platform
//! tables, expands each generic intrinsic into one concrete binding per
//! applicable width, and serializes the bindings into one deterministic
//! output module. Every structural or semantic error is reported before a
//! single output byte exists.

use vstd::prelude::*;

pub mod defs;
pub mod doc;
pub mod emit;
pub mod error;
pub mod mono;
pub mod num;
pub mod platform;

use crate::defs::{IntrinsicSpec, IntrinsicModel, spec_parse_defs, parse_definitions, spec_names_of,
    names_of, spec_first_dup, first_duplicate};
use crate::doc::{Node, spec_lookup, lookup};
use crate::emit::{spec_emit, emit};
use crate::error::{GenError, ErrModel};
use crate::mono::{BindingModel, spec_monomorphize, monomorphize, spec_binding_names,
    binding_names};
use crate::platform::{PlatformInfo, PlatformModel, spec_resolve_platform, resolve_platform_info};

verus! {

/// The two input modes: one combined document carrying both the platform
/// info and the intrinsic entries (under `intrinsics`), or a platform-info
/// document plus an ordered list of named definition documents.
pub enum IntrinsicsInput {
    /// One document with the platform fields and an optional `intrinsics`
    /// entry list.
    Single(Node),
    /// A platform-info document, then `(origin name, document)` pairs in the
    /// order the caller wants them combined.
    Multi(Node, Vec<(String, Node)>),
}

impl IntrinsicsInput {
    /// Wraps one combined document.
    pub fn single(doc: Node) -> (r: IntrinsicsInput)
        ensures
            r == IntrinsicsInput::Single(doc),
    {
        IntrinsicsInput::Single(doc)
    }

    /// Wraps a platform-info document and an ordered list of named
    /// definition documents.
    pub fn multi(info: Node, files: Vec<(String, Node)>) -> (r: IntrinsicsInput)
        ensures
            r == IntrinsicsInput::Multi(info, files),
    {
        IntrinsicsInput::Multi(info, files)
    }
}

/// The intrinsic entries of a combined document: its optional `intrinsics`
/// list, absent meaning none; entries carry `intrinsics` as their origin.
pub open spec fn spec_single_defs(doc: Node) -> Result<Seq<IntrinsicModel>, ErrModel> {
    match doc {
        Node::Record(entries) => match spec_lookup(entries@, "intrinsics"@) {
            None => Ok(Seq::<IntrinsicModel>::empty()),
            Some(n) => spec_parse_defs(n, "intrinsics"@),
        },
        _ => Ok(Seq::<IntrinsicModel>::empty()),
    }
}

/// Parses the intrinsic entries of a combined document.
fn single_defs(doc: &Node) -> (r: Result<Vec<IntrinsicSpec>, GenError>)
    ensures
        match r {
            Ok(v) => spec_single_defs(*doc) == Ok::<Seq<IntrinsicModel>, ErrModel>(v.deep_view()),
            Err(e) => spec_single_defs(*doc) == Err::<Seq<IntrinsicModel>, ErrModel>(e.deep_view()),
        },
{
    match doc {
        Node::Record(entries) => match lookup(entries, "intrinsics") {
            None => {
                let v: Vec<IntrinsicSpec> = Vec::new();
                assert(v.deep_view() =~= Seq::<IntrinsicModel>::empty());
                Ok(v)
            },
            Some(n) => parse_definitions(n, "intrinsics"),
        },
        _ => {
            let v: Vec<IntrinsicSpec> = Vec::new();
            assert(v.deep_view() =~= Seq::<IntrinsicModel>::empty());
            Ok(v)
        },
    }
}

/// Folds the definition documents from index `i` onto `acc`: each document's
/// entries are appended in the caller-supplied file order.
pub open spec fn spec_parse_files_from(
    files: Seq<(String, Node)>,
    i: int,
    acc: Seq<IntrinsicModel>,
) -> Result<Seq<IntrinsicModel>, ErrModel>
    decreases files.len() - i,
{
    if i < 0 || i >= files.len() {
        Ok(acc)
    } else {
        match spec_parse_defs(files[i].1, files[i].0@) {
            Ok(s) => spec_parse_files_from(files, i + 1, acc + s),
            Err(e) => Err(e),
        }
    }
}

/// The combined intrinsic sequence of an ordered list of definition
/// documents: per-file entry order inside caller-supplied file order.
pub open spec fn spec_parse_files(files: Seq<(String, Node)>) -> Result<
    Seq<IntrinsicModel>,
    ErrModel,
> {
    spec_parse_files_from(files, 0, Seq::<IntrinsicModel>::empty())
}

/// Parses an ordered list of named definition documents and concatenates
/// their entries in the given order.
#[verifier::loop_isolation(false)]
fn parse_files(files: &Vec<(String, Node)>) -> (r: Result<Vec<IntrinsicSpec>, GenError>)
    ensures
        match r {
            Ok(v) => spec_parse_files(files@) == Ok::<Seq<IntrinsicModel>, ErrModel>(v.deep_view()),
            Err(e) => spec_parse_files(files@) == Err::<Seq<IntrinsicModel>, ErrModel>(
                e.deep_view(),
            ),
        },
{
    let mut acc: Vec<IntrinsicSpec> = Vec::new();
    let n = files.len();
    assert(acc.deep_view() =~= Seq::<IntrinsicModel>::empty());
    for i in 0..n
        invariant
            spec_parse_files(files@) == spec_parse_files_from(files@, i as int, acc.deep_view()),
    {
        match parse_definitions(&files[i].1, files[i].0.as_str()) {
            Ok(mut v) => {
                let ghost old_acc = acc.deep_view();
                let ghost v_dv = v.deep_view();
                acc.append(&mut v);
                assert(acc.deep_view() =~= old_acc + v_dv);
            },
            Err(e) => {
                return Err(e);
            },
        }
    }
    Ok(acc)
}

/// The back half of the pipeline, after parsing: reject a duplicate base
/// name, monomorphize, reject a concrete-name collision, then emit.
pub open spec fn spec_pipeline(m: PlatformModel, specs: Seq<IntrinsicModel>) -> Result<
    Seq<char>,
    ErrModel,
> {
    match spec_first_dup(spec_names_of(specs)) {
        Some(nm) => Err(ErrModel::DuplicateIntrinsicName { name: nm }),
        None => match spec_monomorphize(specs, m) {
            Err(e) => Err(e),
            Ok(bs) => match spec_first_dup(spec_binding_names(bs)) {
                Some(nm) => Err(ErrModel::NameCollision { name: nm }),
                None => Ok(spec_emit(m, bs)),
            },
        },
    }
}

/// Runs the validated pipeline: duplicate-name check, resolution and
/// expansion, collision check, emission. Every error surfaces before the
/// output text is built.
fn finish(p: &PlatformInfo, specs: &Vec<IntrinsicSpec>) -> (r: Result<String, GenError>)
    ensures
        match r {
            Ok(s) => spec_pipeline(p.deep_view(), specs.deep_view()) == Ok::<Seq<char>, ErrModel>(
                s@,
            ),
            Err(e) => spec_pipeline(p.deep_view(), specs.deep_view()) == Err::<
                Seq<char>,
                ErrModel,
            >(e.deep_view()),
        },
{
    let names = names_of(specs);
    match first_duplicate(&names) {
        Some(nm) => {
            return Err(GenError::DuplicateIntrinsicName { name: nm });
        },
        None => {},
    }
    let bindings = match monomorphize(specs, p) {
        Ok(b) => b,
        Err(e) => {
            return Err(e);
        },
    };
    let cnames = binding_names(&bindings);
    match first_duplicate(&cnames) {
        Some(nm) => {
            return Err(GenError::NameCollision { name: nm });
        },
        None => {},
    }
    Ok(emit(p, &bindings))
}

/// The output module denoted by an input, or the first error of the run:
/// the result is a function of the input alone, so byte-identical inputs
/// yield byte-identical output.
pub open spec fn spec_generate(input: IntrinsicsInput) -> Result<Seq<char>, ErrModel> {
    match input {
        IntrinsicsInput::Single(doc) => match spec_resolve_platform(doc) {
            Err(e) => Err(e),
            Ok(m) => match spec_single_defs(doc) {
                Err(e) => Err(e),
                Ok(specs) => spec_pipeline(m, specs),
            },
        },
        IntrinsicsInput::Multi(info, files) => match spec_resolve_platform(info) {
            Err(e) => Err(e),
            Ok(m) => match spec_parse_files(files@) {
                Err(e) => Err(e),
                Ok(specs) => spec_pipeline(m, specs),
            },
        },
    }
}

/// Law: with distinct base names, the pipeline emits exactly when no two
/// bindings share a concrete name, and rejects the run with a name collision
/// before any output exists as soon as two bindings do.
pub proof fn lemma_name_collision(
    m: PlatformModel,
    specs: Seq<IntrinsicModel>,
    bs: Seq<BindingModel>,
)
    requires
        spec_first_dup(spec_names_of(specs)) is None,
        spec_monomorphize(specs, m) == Ok::<Seq<BindingModel>, ErrModel>(bs),
    ensures
        (exists|i: int, j: int|
            0 <= i < j < bs.len() && bs[i].concrete_name == bs[j].concrete_name) ==> (spec_pipeline(
            m,
            specs,
        ) matches Err(e) && e matches ErrModel::NameCollision { name }),
        !(exists|i: int, j: int|
            0 <= i < j < bs.len() && bs[i].concrete_name == bs[j].concrete_name) ==> spec_pipeline(
            m,
            specs,
        ) == Ok::<Seq<char>, ErrModel>(spec_emit(m, bs)),
{
    let names = spec_binding_names(bs);
    crate::defs::lemma_first_dup_iff(names);
    if exists|i: int, j: int|
        0 <= i < j < bs.len() && bs[i].concrete_name == bs[j].concrete_name {
        let (i, j) = choose|i: int, j: int|
            0 <= i < j < bs.len() && bs[i].concrete_name == bs[j].concrete_name;
        assert(names[i] == names[j]);
        assert(exists|a: int, b: int| 0 <= a < b < names.len() && names[a] == names[b]);
        assert(spec_first_dup(names) is Some);
    } else {
        if exists|a: int, b: int| 0 <= a < b < names.len() && names[a] == names[b] {
            let (a, b) = choose|a: int, b: int| 0 <= a < b < names.len() && names[a] == names[b];
            assert(bs[a].concrete_name == bs[b].concrete_name);
        }
        assert(spec_first_dup(names) is None);
    }
}

/// The entries a file-list fold yields on top of a larger accumulator are
/// those on top of the smaller one, behind the extra prefix.
proof fn lemma_parse_files_shift(
    files: Seq<(String, Node)>,
    i: int,
    acc: Seq<IntrinsicModel>,
    pre: Seq<IntrinsicModel>,
)
    ensures
        match spec_parse_files_from(files, i, acc) {
            Ok(s) => spec_parse_files_from(files, i, pre + acc) == Ok::<
                Seq<IntrinsicModel>,
                ErrModel,
            >(pre + s),
            Err(e) => spec_parse_files_from(files, i, pre + acc) == Err::<
                Seq<IntrinsicModel>,
                ErrModel,
            >(e),
        },
    decreases files.len() - i,
{
    if 0 <= i < files.len() {
        match spec_parse_defs(files[i].1, files[i].0@) {
            Ok(s) => {
                assert(pre + (acc + s) =~= (pre + acc) + s);
                lemma_parse_files_shift(files, i + 1, acc + s, pre);
            },
            Err(_) => {},
        }
    }
}

/// Past the first list, the fold over concatenated file lists is the fold
/// over the second list alone.
proof fn lemma_parse_files_tail(
    fs1: Seq<(String, Node)>,
    fs2: Seq<(String, Node)>,
    j: int,
    acc: Seq<IntrinsicModel>,
)
    requires
        0 <= j,
    ensures
        spec_parse_files_from(fs1 + fs2, fs1.len() + j, acc) == spec_parse_files_from(fs2, j, acc),
    decreases fs2.len() - j,
{
    if j < fs2.len() {
        assert((fs1 + fs2)[fs1.len() + j] == fs2[j]);
        match spec_parse_defs(fs2[j].1, fs2[j].0@) {
            Ok(s) => {
                lemma_parse_files_tail(fs1, fs2, j + 1, acc + s);
            },
            Err(_) => {},
        }
    }
}

/// Within the first list, the fold over concatenated file lists follows the
/// first list, then hands its result to the second.
proof fn lemma_parse_files_head(
    fs1: Seq<(String, Node)>,
    fs2: Seq<(String, Node)>,
    i: int,
    acc: Seq<IntrinsicModel>,
)
    requires
        0 <= i <= fs1.len(),
    ensures
        spec_parse_files_from(fs1 + fs2, i, acc) == match spec_parse_files_from(fs1, i, acc) {
            Ok(s1) => spec_parse_files_from(fs2, 0, s1),
            Err(e) => Err(e),
        },
    decreases fs1.len() - i,
{
    if i < fs1.len() {
        assert((fs1 + fs2)[i] == fs1[i]);
        match spec_parse_defs(fs1[i].1, fs1[i].0@) {
            Ok(s) => {
                lemma_parse_files_head(fs1, fs2, i + 1, acc + s);
            },
            Err(_) => {},
        }
    } else {
        lemma_parse_files_tail(fs1, fs2, 0, acc);
    }
}

/// Law: definition files combine in the caller-supplied order — the entries
/// of a concatenated file list are the first list's entries followed by the
/// second's, never re-sorted; so swapping two file lists swaps the two entry
/// blocks of the combined sequence.
pub proof fn lemma_file_order(fs1: Seq<(String, Node)>, fs2: Seq<(String, Node)>, s1: Seq<
    IntrinsicModel,
>)
    requires
        spec_parse_files(fs1) == Ok::<Seq<IntrinsicModel>, ErrModel>(s1),
    ensures
        spec_parse_files(fs1 + fs2) == match spec_parse_files(fs2) {
            Ok(s2) => Ok::<Seq<IntrinsicModel>, ErrModel>(s1 + s2),
            Err(e) => Err::<Seq<IntrinsicModel>, ErrModel>(e),
        },
{
    lemma_parse_files_head(fs1, fs2, 0, Seq::<IntrinsicModel>::empty());
    match spec_parse_files(fs2) {
        Ok(s2) => {
            lemma_parse_files_shift(fs2, 0, Seq::<IntrinsicModel>::empty(), s1);
            assert(s1 + Seq::<IntrinsicModel>::empty() =~= s1);
        },
        Err(_) => {
            lemma_parse_files_shift(fs2, 0, Seq::<IntrinsicModel>::empty(), s1);
            assert(s1 + Seq::<IntrinsicModel>::empty() =~= s1);
        },
    }
}

/// Generates one architecture's output module from its input documents, or
/// reports the first error of the run; no output text exists on any error.
pub fn generate(input: IntrinsicsInput) -> (r: Result<String, GenError>)
    ensures
        match r {
            Ok(s) => spec_generate(input) == Ok::<Seq<char>, ErrModel>(s@),
            Err(e) => spec_generate(input) == Err::<Seq<char>, ErrModel>(e.deep_view()),
        },
{
    match &input {
        IntrinsicsInput::Single(doc) => {
            let p = match resolve_platform_info(doc) {
                Ok(p) => p,
                Err(e) => {
                    return Err(e);
                },
            };
            let specs = match single_defs(doc) {
                Ok(s) => s,
                Err(e) => {
                    return Err(e);
                },
            };
            finish(&p, &specs)
        },
        IntrinsicsInput::Multi(info, files) => {
            let p = match resolve_platform_info(info) {
                Ok(p) => p,
                Err(e) => {
                    return Err(e);
                },
            };
            let specs = match parse_files(files) {
                Ok(s) => s,
                Err(e) => {
                    return Err(e);
                },
            };
            finish(&p, &specs)
        },
    }
}

} // verus!
