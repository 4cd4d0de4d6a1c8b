//! Attribute emission for a whole function: definition sites and call
//! sites attach the same per-argument attribute sequences to the emitted
//! slots, in slot order.
//!
//! Beyond the per-argument rules, a function whose return layout is
//! uninhabited is marked no-return, a function that cannot unwind is
//! marked no-unwind, a plain indirect return is marked as the
//! structure-return slot, and a call site's scalar integer result gets
//! value-range metadata unless it is boolean or its range says nothing.
//! An on-stack indirect return is disallowed and aborts.

use vstd::prelude::*;

use crate::Fatal;
use crate::abi::{ArgAbi, FnAbi, PassMode, ScalarKind};
use crate::attrs::{
    ArgAttributes, AttrPlace, CallSite, LlAttribute, LlFunc, attr_seq,
};

verus! {

broadcast use
    vstd::std_specs::vec::group_vec_axioms,
    vstd::seq::group_seq_axioms,
;

/// The descriptor asks for an indirect return on the stack.
pub open spec fn ret_on_stack(fa: FnAbi) -> bool {
    match fa.ret.mode {
        PassMode::Indirect { on_stack, .. } => on_stack,
        _ => false,
    }
}

/// The function-level attributes: no-return for an uninhabited return
/// layout, then no-unwind when the function cannot unwind.
pub open spec fn fn_level_attrs(fa: FnAbi) -> Seq<(AttrPlace, LlAttribute)> {
    (if fa.ret.layout.is_uninhabited {
        seq![(AttrPlace::Function, LlAttribute::NoReturn)]
    } else {
        Seq::empty()
    }) + (if !fa.can_unwind {
        seq![(AttrPlace::Function, LlAttribute::NoUnwind)]
    } else {
        Seq::empty()
    })
}

/// What the return's attributes contribute at a definition site: a
/// direct return's set lands on the return value; an indirect return's
/// set lands on the hidden first slot, which is then marked as the
/// structure-return slot.
pub open spec fn llfn_ret_attrs(fa: FnAbi) -> Seq<(AttrPlace, LlAttribute)> {
    match fa.ret.mode {
        PassMode::Direct(a) => attr_seq(a, AttrPlace::ReturnValue),
        PassMode::Indirect { attrs, .. } => attr_seq(attrs, AttrPlace::Argument(0)) + seq![
            (AttrPlace::Argument(0), LlAttribute::StructRet),
        ],
        _ => Seq::empty(),
    }
}

/// What the return's attributes contribute at a call site: as at the
/// definition, but without the structure-return mark.
pub open spec fn callsite_ret_attrs(fa: FnAbi) -> Seq<(AttrPlace, LlAttribute)> {
    match fa.ret.mode {
        PassMode::Direct(a) => attr_seq(a, AttrPlace::ReturnValue),
        PassMode::Indirect { attrs, .. } => attr_seq(attrs, AttrPlace::Argument(0)),
        _ => Seq::empty(),
    }
}

/// The first slot index the arguments occupy: one past the hidden
/// structure-return slot when there is one.
pub open spec fn arg_start_index(fa: FnAbi) -> int {
    if fa.ret.mode is Indirect {
        1
    } else {
        0
    }
}

/// How many slot indices one argument advances: its padding slot plus
/// what its mode emits (an ignored argument emits nothing).
pub open spec fn arg_index_step(a: ArgAbi) -> int {
    (match a.pad {
        Some(_) => 1int,
        None => 0int,
    }) + (match a.mode {
        PassMode::Ignore => 0int,
        PassMode::Direct(_) => 1int,
        PassMode::Pair(_, _) => 2int,
        PassMode::Indirect { extra_attrs: Some(_), .. } => 2int,
        PassMode::Indirect { extra_attrs: None, .. } => 1int,
        PassMode::Cast(_) => 1int,
    })
}

/// What one argument's attributes contribute, with its first slot at
/// index `i`: a padding slot and a cast slot carry the empty set; an
/// unsized indirect argument applies its set to the data pointer and its
/// extra set to the metadata slot; a pair applies one set per half.
pub open spec fn arg_attr_seq(a: ArgAbi, i: int) -> Seq<(AttrPlace, LlAttribute)> {
    let i1 = i + (match a.pad {
        Some(_) => 1int,
        None => 0int,
    });
    match a.mode {
        PassMode::Ignore => Seq::empty(),
        PassMode::Direct(at) => attr_seq(at, AttrPlace::Argument(i1 as u32)),
        PassMode::Pair(a1, a2) => attr_seq(a1, AttrPlace::Argument(i1 as u32)) + attr_seq(
            a2,
            AttrPlace::Argument((i1 + 1) as u32),
        ),
        PassMode::Indirect { attrs, extra_attrs: Some(extra), .. } => attr_seq(
            attrs,
            AttrPlace::Argument(i1 as u32),
        ) + attr_seq(extra, AttrPlace::Argument((i1 + 1) as u32)),
        PassMode::Indirect { attrs, extra_attrs: None, .. } => attr_seq(
            attrs,
            AttrPlace::Argument(i1 as u32),
        ),
        PassMode::Cast(_) => Seq::empty(),
    }
}

/// The attribute contributions of the arguments from `k` on, their slots
/// numbered from `i`.
pub open spec fn args_attr_seq(args: Seq<ArgAbi>, i: int, k: int) -> Seq<
    (AttrPlace, LlAttribute),
>
    decreases args.len() - k,
{
    if k < 0 || k >= args.len() {
        Seq::empty()
    } else {
        arg_attr_seq(args[k], i) + args_attr_seq(args, i + arg_index_step(args[k]), k + 1)
    }
}

/// The range metadata a call site's result carries: only a scalar
/// integer return that is not boolean and whose declared range does not
/// cover its width.
pub open spec fn callsite_range(fa: FnAbi) -> Option<(u64, u64)> {
    match fa.ret.layout.scalar {
        Some(sc) => if sc.kind is Int && !sc.is_bool && !sc.always_valid() {
            Some((sc.valid_start, sc.valid_end))
        } else {
            None
        },
        None => None,
    }
}

/// Everything a definition site receives.
pub open spec fn llfn_attr_seq(fa: FnAbi) -> Seq<(AttrPlace, LlAttribute)> {
    fn_level_attrs(fa) + llfn_ret_attrs(fa) + args_attr_seq(fa.args@, arg_start_index(fa), 0)
}

/// Everything a call site receives.
pub open spec fn callsite_attr_seq(fa: FnAbi) -> Seq<(AttrPlace, LlAttribute)> {
    callsite_ret_attrs(fa) + args_attr_seq(fa.args@, arg_start_index(fa), 0)
}

/// Emits the argument attributes onto a sink, slots numbered from `i0`.
#[verifier::rlimit(100)]
#[verifier::spinoff_prover]
#[verifier::loop_isolation(false)]
fn push_args_attrs(
    sink: &mut Vec<(AttrPlace, LlAttribute)>,
    fa: &FnAbi,
    i0: u32,
)
    requires
        fa.wf(),
        0 <= i0 <= 1,
    ensures
        final(sink)@ == old(sink)@ + args_attr_seq(fa.args@, i0 as int, 0),
{
    let ghost base = sink@;
    let n = fa.args.len();
    let mut k: usize = 0;
    let mut i: u32 = i0;
    while k < n
        invariant
            k <= n,
            i0 as int <= i as int,
            i as int <= i0 + 3 * k,
            sink@ + args_attr_seq(fa.args@, i as int, k as int) == base + args_attr_seq(
                fa.args@,
                i0 as int,
                0,
            ),
        decreases n - k,
    {
        let arg = &fa.args[k];
        let ghost before = sink@;
        let ghost icur = i as int;
        let ghost aseq = arg_attr_seq(fa.args@[k as int], icur);
        if arg.pad.is_some() {
            // An inert padding slot carries the empty attribute set.
            i = i + 1;
        }
        match &arg.mode {
            PassMode::Ignore => {
                proof {
                    assert(before + aseq =~= before);
                }
            },
            PassMode::Direct(at) => {
                at.apply_attrs_to_vec(AttrPlace::Argument(i), sink);
                i = i + 1;
            },
            PassMode::Pair(a1, a2) => {
                let ghost x1 = attr_seq(*a1, AttrPlace::Argument(i));
                let ghost x2 = attr_seq(*a2, AttrPlace::Argument((i + 1) as u32));
                a1.apply_attrs_to_vec(AttrPlace::Argument(i), sink);
                a2.apply_attrs_to_vec(AttrPlace::Argument(i + 1), sink);
                proof {
                    vstd::seq_lib::lemma_concat_associative(before, x1, x2);
                }
                i = i + 2;
            },
            PassMode::Indirect { attrs, extra_attrs, .. } => {
                match extra_attrs {
                    Some(extra) => {
                        let ghost x1 = attr_seq(*attrs, AttrPlace::Argument(i));
                        let ghost x2 = attr_seq(*extra, AttrPlace::Argument((i + 1) as u32));
                        attrs.apply_attrs_to_vec(AttrPlace::Argument(i), sink);
                        extra.apply_attrs_to_vec(AttrPlace::Argument(i + 1), sink);
                        proof {
                            vstd::seq_lib::lemma_concat_associative(before, x1, x2);
                        }
                        i = i + 2;
                    },
                    None => {
                        attrs.apply_attrs_to_vec(AttrPlace::Argument(i), sink);
                        i = i + 1;
                    },
                }
            },
            PassMode::Cast(_) => {
                // A cast slot carries the empty attribute set.
                proof {
                    assert(before + aseq =~= before);
                }
                i = i + 1;
            },
        }
        proof {
            assert(sink@ == before + aseq);
            assert(i as int == icur + arg_index_step(fa.args@[k as int]));
            let rest = args_attr_seq(fa.args@, i as int, k + 1);
            assert(args_attr_seq(fa.args@, icur, k as int) == aseq + rest);
            vstd::seq_lib::lemma_concat_associative(before, aseq, rest);
        }
        k += 1;
    }
    proof {
        assert(args_attr_seq(fa.args@, i as int, n as int) == Seq::<
            (AttrPlace, LlAttribute),
        >::empty());
        assert(sink@ + Seq::<(AttrPlace, LlAttribute)>::empty() =~= sink@);
    }
}

/// Applies a full descriptor's attributes to a function definition.
/// Aborts, leaving the definition untouched, exactly when the descriptor
/// requests an on-stack indirect return.
#[verifier::loop_isolation(false)]
pub fn apply_attrs_llfn(fa: &FnAbi, llfn: &mut LlFunc) -> (r: Result<(), Fatal>)
    requires
        fa.wf(),
    ensures
        ret_on_stack(*fa) ==> r == Err::<(), Fatal>(Fatal::OnStackIndirectReturn)
            && *final(llfn) == *old(llfn),
        !ret_on_stack(*fa) ==> r is Ok && final(llfn).attrs@ == old(llfn).attrs@
            + llfn_attr_seq(*fa),
{
    if let PassMode::Indirect { on_stack, .. } = &fa.ret.mode {
        if *on_stack {
            return Err(Fatal::OnStackIndirectReturn);
        }
    }
    let ghost base = llfn.attrs@;
    let ghost fl = fn_level_attrs(*fa);
    let ghost rr = llfn_ret_attrs(*fa);
    if fa.ret.layout.is_uninhabited {
        llfn.attrs.push((AttrPlace::Function, LlAttribute::NoReturn));
    }
    if !fa.can_unwind {
        llfn.attrs.push((AttrPlace::Function, LlAttribute::NoUnwind));
    }
    assert(llfn.attrs@ =~= base + fl);
    let ghost s1 = llfn.attrs@;
    let mut start: u32 = 0;
    match &fa.ret.mode {
        PassMode::Direct(at) => {
            at.apply_attrs_to_vec(AttrPlace::ReturnValue, &mut llfn.attrs);
        },
        PassMode::Indirect { attrs, .. } => {
            let ghost x = attr_seq(*attrs, AttrPlace::Argument(0));
            attrs.apply_attrs_to_vec(AttrPlace::Argument(0), &mut llfn.attrs);
            llfn.attrs.push((AttrPlace::Argument(0), LlAttribute::StructRet));
            proof {
                assert(llfn.attrs@ =~= s1 + (x + seq![
                    (AttrPlace::Argument(0u32), LlAttribute::StructRet),
                ]));
            }
            start = 1;
        },
        _ => {
            proof {
                assert(s1 + rr =~= s1);
            }
        },
    }
    assert(llfn.attrs@ == s1 + rr);
    push_args_attrs(&mut llfn.attrs, fa, start);
    proof {
        let argss = args_attr_seq(fa.args@, arg_start_index(*fa), 0);
        vstd::seq_lib::lemma_concat_associative(base, fl, rr);
        vstd::seq_lib::lemma_concat_associative(base, fl + rr, argss);
    }
    Ok(())
}

/// Applies a full descriptor's attributes to a call site, and attaches
/// value-range metadata to a scalar integer result unless it is boolean
/// or its declared range already covers its width. Aborts, leaving the
/// call site untouched, exactly when the descriptor requests an on-stack
/// indirect return.
#[verifier::loop_isolation(false)]
pub fn apply_attrs_callsite(fa: &FnAbi, cs: &mut CallSite) -> (r: Result<(), Fatal>)
    requires
        fa.wf(),
    ensures
        ret_on_stack(*fa) ==> r == Err::<(), Fatal>(Fatal::OnStackIndirectReturn) && *final(cs)
            == *old(cs),
        !ret_on_stack(*fa) ==> {
            &&& r is Ok
            &&& final(cs).attrs@ == old(cs).attrs@ + callsite_attr_seq(*fa)
            &&& final(cs).ret_range == (match callsite_range(*fa) {
                Some(rg) => Some(rg),
                None => old(cs).ret_range,
            })
        },
{
    if let PassMode::Indirect { on_stack, .. } = &fa.ret.mode {
        if *on_stack {
            return Err(Fatal::OnStackIndirectReturn);
        }
    }
    let ghost base = cs.attrs@;
    let ghost rr = callsite_ret_attrs(*fa);
    let mut start: u32 = 0;
    match &fa.ret.mode {
        PassMode::Direct(at) => {
            at.apply_attrs_to_vec(AttrPlace::ReturnValue, &mut cs.attrs);
        },
        PassMode::Indirect { attrs, .. } => {
            attrs.apply_attrs_to_vec(AttrPlace::Argument(0), &mut cs.attrs);
            start = 1;
        },
        _ => {
            proof {
                assert(base + rr =~= base);
            }
        },
    }
    assert(cs.attrs@ == base + rr);
    // A boolean's narrow-looking range would be rejected once the type
    // becomes a one-bit integer, so booleans never carry range metadata.
    match &fa.ret.layout.scalar {
        Some(sc) => {
            if matches!(sc.kind, ScalarKind::Int) && !sc.is_bool && !sc.is_always_valid() {
                cs.ret_range = Some((sc.valid_start, sc.valid_end));
            }
        },
        None => {},
    }
    push_args_attrs(&mut cs.attrs, fa, start);
    proof {
        let argss = args_attr_seq(fa.args@, arg_start_index(*fa), 0);
        vstd::seq_lib::lemma_concat_associative(base, rr, argss);
    }
    Ok(())
}

/// A direct boolean return never receives range metadata at a call
/// site, however narrow its value range looks.
pub proof fn lemma_bool_return_no_range(fa: FnAbi)
    requires
        match fa.ret.layout.scalar {
            Some(sc) => sc.is_bool,
            None => true,
        },
    ensures
        callsite_range(fa) is None,
{
}

} // verus!
