//! The code emitter.
//!
//! Serializes the platform metadata and the ordered binding sequence into the
//! output module's text: a generation banner, a platform comment, then one
//! declaration per binding in the order received — never re-sorted. The whole
//! module is built in memory, so a caller writes it in a single pass and no
//! partial output can stem from a pipeline logic error.

use vstd::prelude::*;
use crate::mono::{GeneratedBinding, BindingModel};
use crate::platform::{PlatformInfo, PlatformModel};

verus! {

/// The argument list text of the first `i` argument types, joined with
/// commas.
pub open spec fn spec_args_upto(args: Seq<Seq<char>>, i: int) -> Seq<char>
    decreases i,
{
    if i <= 0 {
        Seq::<char>::empty()
    } else if i == 1 {
        args[0]
    } else {
        spec_args_upto(args, i - 1) + ", "@ + args[i - 1]
    }
}

/// The feature-gate line of a binding: a `cfg` attribute, or nothing.
pub open spec fn spec_gate_text(g: Option<Seq<char>>) -> Seq<char> {
    match g {
        None => Seq::<char>::empty(),
        Some(s) => "#[cfg(target_feature = \""@ + s + "\")]\n"@,
    }
}

/// The declaration text of one binding.
pub open spec fn spec_decl(b: BindingModel) -> Seq<char> {
    spec_gate_text(b.feature_gate) + "pub fn "@ + b.concrete_name + "("@ + spec_args_upto(
        b.argument_types,
        b.argument_types.len() as int,
    ) + ") -> "@ + b.return_type + ";\n"@
}

/// The declaration text of the first `i` bindings, in order.
pub open spec fn spec_decls_upto(bs: Seq<BindingModel>, i: int) -> Seq<char>
    decreases i,
{
    if i <= 0 {
        Seq::<char>::empty()
    } else {
        spec_decls_upto(bs, i - 1) + spec_decl(bs[i - 1])
    }
}

/// The whole output module: banner, platform comment, then every
/// declaration in binding order.
pub open spec fn spec_emit(m: PlatformModel, bs: Seq<BindingModel>) -> Seq<char> {
    "// Auto-generated module!\n"@ + "// platform: "@ + m.platform + "\n"@ + spec_decls_upto(
        bs,
        bs.len() as int,
    )
}

/// Appends the comma-joined argument list to `out`.
#[verifier::loop_isolation(false)]
fn append_args(out: &mut String, args: &Vec<String>)
    ensures
        final(out)@ == old(out)@ + spec_args_upto(args.deep_view(), args@.len() as int),
{
    let n = args.len();
    proof {
        assert(old(out)@ + Seq::<char>::empty() =~= old(out)@);
    }
    for j in 0..n
        invariant
            out@ == old(out)@ + spec_args_upto(args.deep_view(), j as int),
    {
        if j > 0 {
            out.append(", ");
        }
        out.append(args[j].as_str());
        proof {
            assert(args.deep_view()[j as int] == args@[j as int]@);
            if j == 0 {
                assert(out@ =~= old(out)@ + spec_args_upto(args.deep_view(), j + 1));
            } else {
                assert(out@ =~= old(out)@ + spec_args_upto(args.deep_view(), j + 1));
            }
        }
    }
}

/// Appends one binding's declaration to `out`.
fn append_decl(out: &mut String, b: &GeneratedBinding)
    ensures
        final(out)@ == old(out)@ + spec_decl(b.deep_view()),
{
    match &b.feature_gate {
        Some(g) => {
            out.append("#[cfg(target_feature = \"");
            out.append(g.as_str());
            out.append("\")]\n");
        },
        None => {},
    }
    proof {
        assert(out@ =~= old(out)@ + spec_gate_text(b.deep_view().feature_gate));
    }
    out.append("pub fn ");
    out.append(b.concrete_name.as_str());
    out.append("(");
    append_args(out, &b.argument_types);
    out.append(") -> ");
    out.append(b.return_type.as_str());
    out.append(";\n");
    proof {
        assert(out@ =~= old(out)@ + spec_decl(b.deep_view()));
    }
}

/// Serializes the output module for platform `p` and the ordered bindings.
#[verifier::loop_isolation(false)]
pub fn emit(p: &PlatformInfo, bindings: &Vec<GeneratedBinding>) -> (r: String)
    ensures
        r@ == spec_emit(p.deep_view(), bindings.deep_view()),
{
    let mut out = String::new();
    out.append("// Auto-generated module!\n");
    out.append("// platform: ");
    out.append(p.platform.as_str());
    out.append("\n");
    let ghost header = "// Auto-generated module!\n"@ + "// platform: "@ + p.deep_view().platform
        + "\n"@;
    proof {
        assert(out@ =~= header + Seq::<char>::empty());
    }
    let n = bindings.len();
    for i in 0..n
        invariant
            out@ == header + spec_decls_upto(bindings.deep_view(), i as int),
    {
        append_decl(&mut out, &bindings[i]);
        proof {
            assert(bindings.deep_view()[i as int] == bindings@[i as int].deep_view());
            assert(out@ =~= header + spec_decls_upto(bindings.deep_view(), i + 1));
        }
    }
    out
}

} // verus!
