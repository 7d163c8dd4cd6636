//! The type/width resolver and the monomorphizer.
//!
//! Resolution checks every symbolic reference of an intrinsic against the
//! platform tables; monomorphization then expands the intrinsic into one
//! concrete binding per applicable width, in ascending width order, under a
//! fixed naming rule: the decimal width appended to the base name.

use vstd::prelude::*;
use crate::defs::{IntrinsicSpec, IntrinsicModel};
use crate::doc::str_eq;
use crate::error::{GenError, ErrModel};
use crate::num::{spec_dec, append_dec, spec_parse_width, parse_width};
use crate::platform::{PlatformInfo, PlatformModel, ClassTableM, spec_width_contains,
    width_table_contains};

verus! {

/// One fully monomorphized binding, ready for emission.
#[derive(Debug)]
pub struct GeneratedBinding {
    /// The emitted name: the base name with the decimal width appended;
    /// unique across one output module.
    pub concrete_name: String,
    /// Concrete argument type descriptors, in argument order.
    pub argument_types: Vec<String>,
    /// Concrete return type descriptor.
    pub return_type: String,
    /// The instruction-set extension the binding needs, if any.
    pub feature_gate: Option<String>,
}

/// The mathematical model of a [`GeneratedBinding`].
pub struct BindingModel {
    pub concrete_name: Seq<char>,
    pub argument_types: Seq<Seq<char>>,
    pub return_type: Seq<char>,
    pub feature_gate: Option<Seq<char>>,
}

impl DeepView for GeneratedBinding {
    type V = BindingModel;

    open spec fn deep_view(&self) -> BindingModel {
        BindingModel {
            concrete_name: self.concrete_name@,
            argument_types: self.argument_types.deep_view(),
            return_type: self.return_type@,
            feature_gate: self.feature_gate.deep_view(),
        }
    }
}

/// Whether the number-type table carries class `sym`.
pub open spec fn spec_class_contains(t: ClassTableM, sym: Seq<char>) -> bool {
    exists|j: int| 0 <= j < t.len() && t[j].0 == sym
}

/// Tests whether the number-type table carries class `sym`.
#[verifier::loop_isolation(false)]
pub fn class_contains(t: &Vec<(String, Vec<(String, String)>)>, sym: &str) -> (r: bool)
    ensures
        r == spec_class_contains(t.deep_view(), sym@),
{
    let n = t.len();
    for j in 0..n
        invariant
            forall|k: int| 0 <= k < j ==> t.deep_view()[k].0 != sym@,
    {
        if str_eq(t[j].0.as_str(), sym) {
            assert(t.deep_view()[j as int].0 == sym@);
            return true;
        }
        assert(t.deep_view()[j as int].0 == t@[j as int].0@);
    }
    false
}

/// Whether a symbolic type reference resolves against the platform: first as
/// a number-type class, falling back to a width spelled in decimal that the
/// width table carries.
pub open spec fn spec_sym_resolves(m: PlatformModel, sym: Seq<char>) -> bool {
    spec_class_contains(m.number_info, sym) || (spec_parse_width(sym) matches Some(w)
        && spec_width_contains(m.widths, w))
}

/// Tests whether a symbolic type reference resolves against the platform.
pub fn sym_resolves(p: &PlatformInfo, sym: &str) -> (r: bool)
    ensures
        r == spec_sym_resolves(p.deep_view(), sym@),
{
    if class_contains(&p.number_info, sym) {
        return true;
    }
    match parse_width(sym) {
        Some(w) => width_table_contains(&p.widths, w),
        None => false,
    }
}

/// The symbolic references of an intrinsic: its argument types in order,
/// then its return type.
pub open spec fn spec_syms(s: IntrinsicModel) -> Seq<Seq<char>> {
    s.arg_types.push(s.ret_type)
}

/// The first reference from index `i` on that resolves against neither
/// platform table.
pub open spec fn spec_first_unresolved_from(
    syms: Seq<Seq<char>>,
    m: PlatformModel,
    i: int,
) -> Option<Seq<char>>
    decreases syms.len() - i,
{
    if i < 0 || i >= syms.len() {
        None
    } else if !spec_sym_resolves(m, syms[i]) {
        Some(syms[i])
    } else {
        spec_first_unresolved_from(syms, m, i + 1)
    }
}

/// The first applicable width from index `i` on that the platform's width
/// table does not carry.
pub open spec fn spec_first_unknown_width_from(ws: Seq<u64>, m: PlatformModel, i: int) -> Option<
    u64,
>
    decreases ws.len() - i,
{
    if i < 0 || i >= ws.len() {
        None
    } else if !spec_width_contains(m.widths, ws[i]) {
        Some(ws[i])
    } else {
        spec_first_unknown_width_from(ws, m, i + 1)
    }
}

/// The outcome of resolving an intrinsic against the platform: the first
/// unresolvable type reference, else the first unknown width, else success.
pub open spec fn spec_resolve_spec(s: IntrinsicModel, m: PlatformModel) -> Result<(), ErrModel> {
    match spec_first_unresolved_from(spec_syms(s), m, 0) {
        Some(sym) => Err(ErrModel::UnknownTypeReference { symbol: sym, intrinsic: s.name }),
        None => match spec_first_unknown_width_from(s.applicable_widths, m, 0) {
            Some(w) => Err(ErrModel::UnknownWidth { width: w, intrinsic: s.name }),
            None => Ok(()),
        },
    }
}

/// Resolves every symbolic reference of `s` against the platform tables:
/// succeeds exactly when every argument and return reference names a
/// number-type class or a known width, and every applicable width is in the
/// width table; read-only over the platform.
#[verifier::loop_isolation(false)]
pub fn resolve_spec(s: &IntrinsicSpec, p: &PlatformInfo) -> (r: Result<(), GenError>)
    ensures
        match r {
            Ok(_) => spec_resolve_spec(s.deep_view(), p.deep_view()) == Ok::<(), ErrModel>(()),
            Err(e) => spec_resolve_spec(s.deep_view(), p.deep_view()) == Err::<(), ErrModel>(
                e.deep_view(),
            ),
        },
{
    let ghost syms = spec_syms(s.deep_view());
    let ghost m = p.deep_view();
    let na = s.arg_types.len();
    assert(syms.len() == na + 1);
    for i in 0..na
        invariant
            spec_first_unresolved_from(syms, m, 0) == spec_first_unresolved_from(syms, m, i as int),
    {
        assert(syms[i as int] == s.arg_types.deep_view()[i as int]);
        if !sym_resolves(p, s.arg_types[i].as_str()) {
            return Err(
                GenError::UnknownTypeReference {
                    symbol: s.arg_types[i].clone(),
                    intrinsic: s.name.clone(),
                },
            );
        }
    }
    assert(syms[na as int] == s.deep_view().ret_type);
    if !sym_resolves(p, s.ret_type.as_str()) {
        return Err(
            GenError::UnknownTypeReference { symbol: s.ret_type.clone(), intrinsic: s.name.clone() },
        );
    }
    proof {
        assert(spec_first_unresolved_from(syms, m, na + 1) is None);
        assert(spec_first_unresolved_from(syms, m, na as int) is None);
        assert(spec_first_unresolved_from(syms, m, 0) is None);
    }
    let nw = s.applicable_widths.len();
    for i in 0..nw
        invariant
            spec_first_unknown_width_from(s.deep_view().applicable_widths, m, 0)
                == spec_first_unknown_width_from(
                s.deep_view().applicable_widths,
                m,
                i as int,
            ),
    {
        if !width_table_contains(&p.widths, s.applicable_widths[i]) {
            return Err(
                GenError::UnknownWidth {
                    width: s.applicable_widths[i],
                    intrinsic: s.name.clone(),
                },
            );
        }
    }
    Ok(())
}

/// The concrete binding name for base name `name` at width `w`: the decimal
/// width appended to the name. The rule is lossy on purpose only in that two
/// different base names may meet at one concrete name; emission rejects such
/// a collision.
pub open spec fn spec_mangle(name: Seq<char>, w: u64) -> Seq<char> {
    name + spec_dec(w as nat)
}

/// Builds the concrete binding name for `name` at width `w`.
pub fn mangle(name: &str, w: u64) -> (r: String)
    ensures
        r@ == spec_mangle(name@, w),
{
    let mut s = name.to_owned();
    append_dec(&mut s, w);
    s
}

/// The concrete type descriptor for reference `sym` at width `w`: a
/// number-type class is width-parameterized and gets the decimal width
/// appended; a width reference is already concrete and stays as written.
pub open spec fn spec_concrete_type(sym: Seq<char>, w: u64, m: PlatformModel) -> Seq<char> {
    if spec_class_contains(m.number_info, sym) {
        sym + spec_dec(w as nat)
    } else {
        sym
    }
}

/// Builds the concrete type descriptor for `sym` at width `w`.
pub fn concrete_type(sym: &str, w: u64, p: &PlatformInfo) -> (r: String)
    ensures
        r@ == spec_concrete_type(sym@, w, p.deep_view()),
{
    if class_contains(&p.number_info, sym) {
        mangle(sym, w)
    } else {
        sym.to_owned()
    }
}

/// The binding an intrinsic yields at width `w`.
pub open spec fn spec_binding(s: IntrinsicModel, m: PlatformModel, w: u64) -> BindingModel {
    BindingModel {
        concrete_name: spec_mangle(s.name, w),
        argument_types: Seq::new(
            s.arg_types.len(),
            |j: int| spec_concrete_type(s.arg_types[j], w, m),
        ),
        return_type: spec_concrete_type(s.ret_type, w, m),
        feature_gate: s.feature_gate,
    }
}

/// The bindings an intrinsic expands to: one per applicable width, in the
/// stored (ascending) width order.
pub open spec fn spec_expand(s: IntrinsicModel, m: PlatformModel) -> Seq<BindingModel> {
    Seq::new(s.applicable_widths.len(), |i: int| spec_binding(s, m, s.applicable_widths[i]))
}

/// Expands one intrinsic into its concrete bindings, one per applicable
/// width in stored order.
#[verifier::loop_isolation(false)]
pub fn expand_spec(s: &IntrinsicSpec, p: &PlatformInfo) -> (r: Vec<GeneratedBinding>)
    ensures
        r.deep_view() == spec_expand(s.deep_view(), p.deep_view()),
{
    let ghost m = p.deep_view();
    let ghost sm = s.deep_view();
    let mut out: Vec<GeneratedBinding> = Vec::new();
    let nw = s.applicable_widths.len();
    for i in 0..nw
        invariant
            out.deep_view().len() == i as int,
            forall|k: int| 0 <= k < i ==> out.deep_view()[k] == spec_expand(sm, m)[k],
    {
        let w = s.applicable_widths[i];
        let mut args: Vec<String> = Vec::new();
        let na = s.arg_types.len();
        for j in 0..na
            invariant
                args.deep_view().len() == j as int,
                forall|k: int| 0 <= k < j ==> args.deep_view()[k] == spec_concrete_type(
                    sm.arg_types[k],
                    w,
                    m,
                ),
        {
            let a = concrete_type(s.arg_types[j].as_str(), w, p);
            let ghost old_args = args.deep_view();
            args.push(a);
            assert(args.deep_view() =~= old_args.push(spec_concrete_type(sm.arg_types[j as int], w, m)));
        }
        let gate = match &s.feature_gate {
            Some(g) => Some(g.clone()),
            None => None,
        };
        let b = GeneratedBinding {
            concrete_name: mangle(s.name.as_str(), w),
            argument_types: args,
            return_type: concrete_type(s.ret_type.as_str(), w, p),
            feature_gate: gate,
        };
        proof {
            assert(b.deep_view().argument_types =~= spec_binding(sm, m, w).argument_types);
            assert(b.deep_view().feature_gate == spec_binding(sm, m, w).feature_gate);
            assert(b.deep_view() == spec_binding(sm, m, w));
        }
        let ghost old_out = out.deep_view();
        out.push(b);
        assert(out.deep_view() =~= old_out.push(spec_binding(sm, m, w)));
        assert(spec_expand(sm, m)[i as int] == spec_binding(sm, m, sm.applicable_widths[i as int]));
    }
    proof {
        assert(out.deep_view() =~= spec_expand(sm, m));
    }
    out
}

/// Folds resolution and expansion over the intrinsics from index `i`,
/// appending each one's bindings to `acc`; the first resolution error aborts.
pub open spec fn spec_expand_all(
    specs: Seq<IntrinsicModel>,
    m: PlatformModel,
    i: int,
    acc: Seq<BindingModel>,
) -> Result<Seq<BindingModel>, ErrModel>
    decreases specs.len() - i,
{
    if i < 0 || i >= specs.len() {
        Ok(acc)
    } else {
        match spec_resolve_spec(specs[i], m) {
            Err(e) => Err(e),
            Ok(_) => spec_expand_all(specs, m, i + 1, acc + spec_expand(specs[i], m)),
        }
    }
}

/// The full binding sequence of an architecture's intrinsics: file and
/// entry order kept, widths ascending within one intrinsic.
pub open spec fn spec_monomorphize(specs: Seq<IntrinsicModel>, m: PlatformModel) -> Result<
    Seq<BindingModel>,
    ErrModel,
> {
    spec_expand_all(specs, m, 0, Seq::<BindingModel>::empty())
}

/// Resolves and expands every intrinsic, in order; fails on the first
/// unresolvable reference or unknown width, before any output exists.
#[verifier::loop_isolation(false)]
pub fn monomorphize(specs: &Vec<IntrinsicSpec>, p: &PlatformInfo) -> (r: Result<
    Vec<GeneratedBinding>,
    GenError,
>)
    ensures
        match r {
            Ok(v) => spec_monomorphize(specs.deep_view(), p.deep_view()) == Ok::<
                Seq<BindingModel>,
                ErrModel,
            >(v.deep_view()),
            Err(e) => spec_monomorphize(specs.deep_view(), p.deep_view()) == Err::<
                Seq<BindingModel>,
                ErrModel,
            >(e.deep_view()),
        },
{
    let ghost m = p.deep_view();
    let ghost dv = specs.deep_view();
    let mut out: Vec<GeneratedBinding> = Vec::new();
    let n = specs.len();
    assert(out.deep_view() =~= Seq::<BindingModel>::empty());
    for i in 0..n
        invariant
            spec_monomorphize(dv, m) == spec_expand_all(dv, m, i as int, out.deep_view()),
    {
        assert(specs[i as int].deep_view() == dv[i as int]);
        match resolve_spec(&specs[i], p) {
            Err(e) => {
                return Err(e);
            },
            Ok(_) => {},
        }
        let mut bs = expand_spec(&specs[i], p);
        let ghost old_out = out.deep_view();
        let ghost bs_dv = bs.deep_view();
        out.append(&mut bs);
        assert(out.deep_view() =~= old_out + bs_dv);
    }
    Ok(out)
}

/// A clean scan resolves everything at or past its start.
proof fn lemma_first_unresolved_none(syms: Seq<Seq<char>>, m: PlatformModel, i: int)
    requires
        0 <= i,
        spec_first_unresolved_from(syms, m, i) is None,
    ensures
        forall|k: int| i <= k < syms.len() ==> spec_sym_resolves(m, #[trigger] syms[k]),
    decreases syms.len() - i,
{
    if i < syms.len() {
        lemma_first_unresolved_none(syms, m, i + 1);
    }
}

/// A reported reference is indeed unresolvable.
proof fn lemma_first_unresolved_some(syms: Seq<Seq<char>>, m: PlatformModel, i: int)
    requires
        0 <= i,
    ensures
        spec_first_unresolved_from(syms, m, i) matches Some(sym) ==> !spec_sym_resolves(m, sym),
    decreases syms.len() - i,
{
    if i < syms.len() {
        lemma_first_unresolved_some(syms, m, i + 1);
    }
}

/// As [`lemma_first_unresolved_none`], for the width scan.
proof fn lemma_first_unknown_none(ws: Seq<u64>, m: PlatformModel, i: int)
    requires
        0 <= i,
        spec_first_unknown_width_from(ws, m, i) is None,
    ensures
        forall|k: int| i <= k < ws.len() ==> spec_width_contains(m.widths, #[trigger] ws[k]),
    decreases ws.len() - i,
{
    if i < ws.len() {
        lemma_first_unknown_none(ws, m, i + 1);
    }
}

/// Law: resolution succeeds exactly when every argument and return
/// reference resolves against a platform table and every applicable width is
/// in the width table; and a reported unknown reference indeed resolves
/// against neither table, named together with its intrinsic.
pub proof fn lemma_resolution(s: IntrinsicModel, m: PlatformModel)
    ensures
        spec_resolve_spec(s, m) == Ok::<(), ErrModel>(()) <==> ((forall|k: int|
            0 <= k < spec_syms(s).len() ==> spec_sym_resolves(m, #[trigger] spec_syms(s)[k]))
            && (forall|k: int|
            0 <= k < s.applicable_widths.len() ==> spec_width_contains(
                m.widths,
                #[trigger] s.applicable_widths[k],
            ))),
        spec_resolve_spec(s, m) matches Err(e) ==> (e matches ErrModel::UnknownTypeReference {
            symbol,
            intrinsic,
        } ==> !spec_sym_resolves(m, symbol) && intrinsic == s.name),
{
    let syms = spec_syms(s);
    lemma_first_unresolved_some(syms, m, 0);
    match spec_first_unresolved_from(syms, m, 0) {
        Some(sym) => {
            lemma_first_unresolved_witness(syms, m, 0);
            let k = choose|k: int| 0 <= k < syms.len() && syms[k] == sym;
            assert(!spec_sym_resolves(m, syms[k]));
        },
        None => {
            lemma_first_unresolved_none(syms, m, 0);
            match spec_first_unknown_width_from(s.applicable_widths, m, 0) {
                Some(w) => {
                    lemma_first_unknown_some_witness(s.applicable_widths, m, 0);
                    let k = choose|k: int|
                        0 <= k < s.applicable_widths.len() && s.applicable_widths[k] == w
                            && !spec_width_contains(m.widths, w);
                    assert(!spec_width_contains(m.widths, s.applicable_widths[k]));
                },
                None => {
                    lemma_first_unknown_none(s.applicable_widths, m, 0);
                },
            }
        },
    }
}

/// A reported unresolvable reference sits at some position of the scan.
proof fn lemma_first_unresolved_witness(syms: Seq<Seq<char>>, m: PlatformModel, i: int)
    requires
        0 <= i,
    ensures
        spec_first_unresolved_from(syms, m, i) matches Some(sym) ==> exists|k: int|
            i <= k < syms.len() && syms[k] == sym,
    decreases syms.len() - i,
{
    if i < syms.len() {
        lemma_first_unresolved_witness(syms, m, i + 1);
    }
}

/// A reported unknown width sits at some position of the scan.
proof fn lemma_first_unknown_some_witness(ws: Seq<u64>, m: PlatformModel, i: int)
    requires
        0 <= i,
    ensures
        spec_first_unknown_width_from(ws, m, i) matches Some(w) ==> exists|k: int|
            i <= k < ws.len() && ws[k] == w && !spec_width_contains(m.widths, w),
    decreases ws.len() - i,
{
    if i < ws.len() {
        lemma_first_unknown_some_witness(ws, m, i + 1);
    }
}

/// Law: monomorphization yields exactly one binding per applicable width,
/// in the stored width order, each named by the base name with the decimal
/// width appended, each keeping the intrinsic's feature gate.
pub proof fn lemma_expand_shape(s: IntrinsicModel, m: PlatformModel)
    ensures
        spec_expand(s, m).len() == s.applicable_widths.len(),
        forall|i: int|
            0 <= i < s.applicable_widths.len() ==> #[trigger] spec_expand(s, m)[i].concrete_name
                == spec_mangle(s.name, s.applicable_widths[i]),
        forall|i: int|
            0 <= i < s.applicable_widths.len() ==> #[trigger] spec_expand(s, m)[i].feature_gate
                == s.feature_gate,
{
}

/// The concrete names of a binding sequence, in order.
pub open spec fn spec_binding_names(bs: Seq<BindingModel>) -> Seq<Seq<char>> {
    Seq::new(bs.len(), |i: int| bs[i].concrete_name)
}

/// Collects the concrete names of the bindings, in order.
#[verifier::loop_isolation(false)]
pub fn binding_names(bs: &Vec<GeneratedBinding>) -> (r: Vec<String>)
    ensures
        r.deep_view() == spec_binding_names(bs.deep_view()),
{
    let mut out: Vec<String> = Vec::new();
    let n = bs.len();
    for i in 0..n
        invariant
            out.deep_view().len() == i as int,
            forall|k: int| 0 <= k < i ==> out.deep_view()[k] == bs.deep_view()[k].concrete_name,
    {
        let ghost old_out = out.deep_view();
        out.push(bs[i].concrete_name.clone());
        assert(out.deep_view() =~= old_out.push(bs@[i as int].concrete_name@));
    }
    proof {
        assert(out.deep_view() =~= spec_binding_names(bs.deep_view()));
    }
    out
}

} // verus!
