//! Function signature lowering: a full ABI descriptor becomes the
//! concrete function type, with every emitted slot and the return type
//! classified by the type-remapping capability and every remapping
//! decision recorded in the unit's context.
//!
//! Slot emission: a hidden leading pointer for an indirect return; then,
//! per argument in order, an inert padding slot if one is declared, and
//! zero, one or two slots as the passing mode demands.

use vstd::prelude::*;

use crate::Fatal;
use crate::abi::{ArgAbi, FnAbi, PassMode};
use crate::cast::cast_lowered;
use crate::context::{
    CodegenCx, RemapRecord, opt_ty_dv, slot_pairs_dv, tbl_lookup, lemma_tbl_lookup_skip,
};
use crate::reg::reg_lowered;
use crate::remap::TypeRemapper;
use crate::types::{DATA_ADDRSPACE, LowType, TyV, ty_clone, ty_dv, ty_dv_seq, ty_eq};

verus! {

broadcast use
    vstd::std_specs::vec::group_vec_axioms,
    vstd::seq::group_seq_axioms,
;

/// Prepends a known prefix to a pending slot computation.
pub open spec fn ok_join(pre: Seq<TyV>, r: Result<Seq<TyV>, Fatal>) -> Result<Seq<TyV>, Fatal> {
    match r {
        Err(e) => Err(e),
        Ok(rest) => Ok(pre + rest),
    }
}

/// The slots one passing mode emits, before remapping: none for an
/// ignored argument, one immediate slot, a scalar pair's two halves, an
/// unsized value's pointer and metadata, one cast slot, or one plain
/// pointer for a sized indirect argument.
pub open spec fn mode_slot_tys(arg: ArgAbi) -> Result<Seq<TyV>, Fatal> {
    match arg.mode {
        PassMode::Ignore => Ok(Seq::empty()),
        PassMode::Direct(_) => Ok(seq![ty_dv(arg.layout.immediate_ty)]),
        PassMode::Pair(_, _) => Ok(
            seq![ty_dv(arg.layout.pair_elem0), ty_dv(arg.layout.pair_elem1)],
        ),
        PassMode::Indirect { extra_attrs: Some(_), .. } => Ok(
            seq![ty_dv(arg.layout.ref_pair_elem0), ty_dv(arg.layout.ref_pair_elem1)],
        ),
        PassMode::Cast(ct) => match cast_lowered(ct) {
            Err(e) => Err(e),
            Ok(t) => Ok(seq![t]),
        },
        PassMode::Indirect { extra_attrs: None, .. } => Ok(
            seq![
                TyV::Ptr {
                    pointee: Box::new(ty_dv(arg.layout.memory_ty)),
                    addrspace: DATA_ADDRSPACE,
                },
            ],
        ),
    }
}

/// The slots one argument emits: its padding slot, then its mode's slots.
pub open spec fn arg_slot_tys(arg: ArgAbi) -> Result<Seq<TyV>, Fatal> {
    let pad: Result<Seq<TyV>, Fatal> = match arg.pad {
        Some(reg) => match reg_lowered(reg) {
            Err(e) => Err(e),
            Ok(t) => Ok(seq![t]),
        },
        None => Ok(Seq::empty()),
    };
    match pad {
        Err(e) => Err(e),
        Ok(p) => ok_join(p, mode_slot_tys(arg)),
    }
}

/// The slots of the arguments from index `k` on, in declaration order,
/// or the first fatal error.
pub open spec fn args_slot_tys(args: Seq<ArgAbi>, k: int) -> Result<Seq<TyV>, Fatal>
    decreases args.len() - k,
{
    if k < 0 || k >= args.len() {
        Ok(Seq::empty())
    } else {
        match arg_slot_tys(args[k]) {
            Err(e) => Err(e),
            Ok(first) => ok_join(first, args_slot_tys(args, k + 1)),
        }
    }
}

/// What the return value lowers to: nothing for an ignored or indirect
/// return, the immediate type of a direct or pair return (a pair stays
/// one aggregate as a return), or the cast target's type.
pub open spec fn ret_lowered(ret: ArgAbi) -> Result<TyV, Fatal> {
    match ret.mode {
        PassMode::Ignore => Ok(TyV::Void),
        PassMode::Direct(_) => Ok(ty_dv(ret.layout.immediate_ty)),
        PassMode::Pair(_, _) => Ok(ty_dv(ret.layout.immediate_ty)),
        PassMode::Cast(ct) => cast_lowered(ct),
        PassMode::Indirect { .. } => Ok(TyV::Void),
    }
}

/// The hidden leading slot of an indirect return: a pointer to the
/// return value's memory type.
pub open spec fn sig_prefix(fa: FnAbi) -> Seq<TyV> {
    if fa.ret.mode is Indirect {
        seq![
            TyV::Ptr {
                pointee: Box::new(ty_dv(fa.ret.layout.memory_ty)),
                addrspace: DATA_ADDRSPACE,
            },
        ]
    } else {
        Seq::empty()
    }
}

/// The lowered return type and the full emitted slot list before
/// remapping, or the first fatal error: the return lowers first, then
/// the arguments in order.
pub open spec fn lowered_sig(fa: FnAbi) -> Result<(TyV, Seq<TyV>), Fatal> {
    match ret_lowered(fa.ret) {
        Err(e) => Err(e),
        Ok(rt) => match args_slot_tys(fa.args@, 0) {
            Err(e) => Err(e),
            Ok(ats) => Ok((rt, sig_prefix(fa) + ats)),
        },
    }
}

/// Every slot after classification by the remapping capability.
pub open spec fn classify_seq<R: TypeRemapper>(r: &R, s: Seq<TyV>) -> Seq<TyV> {
    Seq::new(s.len(), |i: int| r.classify_spec(s[i]))
}

/// The changed slots from index `k` on: each remapped slot's index with
/// its original type.
pub open spec fn changed_slots<R: TypeRemapper>(r: &R, s: Seq<TyV>, k: int) -> Seq<(int, TyV)>
    decreases s.len() - k,
{
    if k < 0 || k >= s.len() {
        Seq::empty()
    } else {
        (if r.classify_spec(s[k]) != s[k] {
            seq![(k, s[k])]
        } else {
            Seq::empty()
        }) + changed_slots(r, s, k + 1)
    }
}

/// The concrete function type of a lowered signature.
pub open spec fn lowered_fn_ty<R: TypeRemapper>(r: &R, fa: FnAbi) -> Result<TyV, Fatal> {
    match lowered_sig(fa) {
        Err(e) => Err(e),
        Ok((rt, slots)) => Ok(
            TyV::Func {
                params: classify_seq(r, slots),
                ret: Box::new(r.classify_spec(rt)),
                variadic: fa.c_variadic,
            },
        ),
    }
}

/// How the unit's remap table changes when one signature is lowered:
/// nothing was remapped and the table stays; the concrete type is
/// already keyed and the first writer wins; or one record is appended
/// holding the original return type (if it changed) and every changed
/// slot's index and original type.
pub open spec fn remap_recorded(
    old_t: Seq<(LowType, RemapRecord)>,
    new_t: Seq<(LowType, RemapRecord)>,
    ft: TyV,
    changed_ret: Option<TyV>,
    changes: Seq<(int, TyV)>,
) -> bool {
    if changes.len() == 0 && changed_ret is None {
        new_t == old_t
    } else if tbl_lookup(old_t, ft) is Some {
        new_t == old_t
    } else {
        &&& new_t.len() == old_t.len() + 1
        &&& new_t.subrange(0, old_t.len() as int) == old_t
        &&& ty_dv(new_t.last().0) == ft
        &&& opt_ty_dv(new_t.last().1.old_ret) == changed_ret
        &&& slot_pairs_dv(new_t.last().1.args@) == changes
    }
}

/// Emits the raw slot list and return type of a descriptor, before any
/// remapping; fatal exactly when a register or cast description in the
/// descriptor is fatal.
#[verifier::rlimit(100)]
#[verifier::spinoff_prover]
#[verifier::loop_isolation(false)]
fn build_raw_slots(fa: &FnAbi) -> (r: Result<(LowType, Vec<LowType>), Fatal>)
    requires
        fa.wf(),
    ensures
        match lowered_sig(*fa) {
            Err(e) => r == Err::<(LowType, Vec<LowType>), Fatal>(e),
            Ok((rt, slots)) => {
                &&& r is Ok
                &&& r->Ok_0.0.deep_view() == rt
                &&& ty_dv_seq(r->Ok_0.1@) == slots
            },
        },
{
    let mut raw: Vec<LowType> = Vec::new();

    // The return type; an indirect return becomes a hidden leading
    // pointer slot instead.
    let ret_raw: LowType = match &fa.ret.mode {
        PassMode::Ignore => LowType::Void,
        PassMode::Direct(_) => ty_clone(&fa.ret.layout.immediate_ty),
        PassMode::Pair(_, _) => ty_clone(&fa.ret.layout.immediate_ty),
        PassMode::Cast(ct) => match ct.lower() {
            Err(e) => {
                return Err(e);
            },
            Ok(t) => t,
        },
        PassMode::Indirect { .. } => {
            raw.push(
                LowType::Ptr {
                    pointee: Box::new(ty_clone(&fa.ret.layout.memory_ty)),
                    addrspace: DATA_ADDRSPACE,
                },
            );
            LowType::Void
        },
    };
    proof {
        assert(ty_dv_seq(raw@) =~= sig_prefix(*fa));
        assert(ret_lowered(fa.ret) == Ok::<TyV, Fatal>(ret_raw.deep_view()));
    }
    let ghost pfx = sig_prefix(*fa);
    let ghost pfx_len = raw@.len() as int;

    let n = fa.args.len();
    let mut k: usize = 0;
    while k < n
        invariant
            k <= n,
            pfx_len <= raw@.len(),
            ty_dv_seq(raw@).subrange(0, pfx_len) =~= pfx,
            args_slot_tys(fa.args@, 0) == ok_join(
                ty_dv_seq(raw@).subrange(pfx_len, raw@.len() as int),
                args_slot_tys(fa.args@, k as int),
            ),
        decreases n - k,
    {
        let arg = &fa.args[k];
        let ghost done = ty_dv_seq(raw@).subrange(pfx_len, raw@.len() as int);
        match &arg.pad {
            Some(reg) => {
                match reg.lower() {
                    Err(e) => {
                        proof {
                            assert(arg_slot_tys(fa.args@[k as int]) == Err::<
                                Seq<TyV>,
                                Fatal,
                            >(e));
                        }
                        return Err(e);
                    },
                    Ok(t) => {
                        let ghost before = ty_dv_seq(raw@);
                        raw.push(t);
                        proof {
                            assert(ty_dv_seq(raw@) =~= before.push(ty_dv(t)));
                        }
                    },
                }
            },
            None => {},
        }
        match &arg.mode {
            PassMode::Ignore => {},
            PassMode::Direct(_) => {
                let ghost before = ty_dv_seq(raw@);
                let t = ty_clone(&arg.layout.immediate_ty);
                raw.push(t);
                proof {
                    assert(ty_dv_seq(raw@) =~= before.push(ty_dv(arg.layout.immediate_ty)));
                }
            },
            PassMode::Pair(_, _) => {
                let ghost before = ty_dv_seq(raw@);
                let t0 = ty_clone(&arg.layout.pair_elem0);
                raw.push(t0);
                let t1 = ty_clone(&arg.layout.pair_elem1);
                raw.push(t1);
                proof {
                    assert(ty_dv_seq(raw@) =~= before.push(ty_dv(arg.layout.pair_elem0)).push(
                        ty_dv(arg.layout.pair_elem1),
                    ));
                }
            },
            PassMode::Indirect { extra_attrs: Some(_), .. } => {
                let ghost before = ty_dv_seq(raw@);
                let t0 = ty_clone(&arg.layout.ref_pair_elem0);
                raw.push(t0);
                let t1 = ty_clone(&arg.layout.ref_pair_elem1);
                raw.push(t1);
                proof {
                    assert(ty_dv_seq(raw@) =~= before.push(ty_dv(arg.layout.ref_pair_elem0))
                        .push(ty_dv(arg.layout.ref_pair_elem1)));
                }
            },
            PassMode::Cast(ct) => {
                match ct.lower() {
                    Err(e) => {
                        proof {
                            assert(arg_slot_tys(fa.args@[k as int]) == Err::<
                                Seq<TyV>,
                                Fatal,
                            >(e));
                        }
                        return Err(e);
                    },
                    Ok(t) => {
                        let ghost before = ty_dv_seq(raw@);
                        let ghost tv = t.deep_view();
                        raw.push(t);
                        proof {
                            assert(ty_dv_seq(raw@) =~= before.push(tv));
                        }
                    },
                }
            },
            PassMode::Indirect { extra_attrs: None, .. } => {
                let ghost before = ty_dv_seq(raw@);
                let t = LowType::Ptr {
                    pointee: Box::new(ty_clone(&arg.layout.memory_ty)),
                    addrspace: DATA_ADDRSPACE,
                };
                raw.push(t);
                proof {
                    assert(ty_dv_seq(raw@) =~= before.push(
                        TyV::Ptr {
                            pointee: Box::new(ty_dv(arg.layout.memory_ty)),
                            addrspace: DATA_ADDRSPACE,
                        },
                    ));
                }
            },
        }
        proof {
            let done2 = ty_dv_seq(raw@).subrange(pfx_len, raw@.len() as int);
            assert(arg_slot_tys(fa.args@[k as int]) is Ok);
            assert(done2 =~= done + arg_slot_tys(fa.args@[k as int])->Ok_0);
            assert(ty_dv_seq(raw@).subrange(0, pfx_len) =~= pfx);
            if args_slot_tys(fa.args@, k + 1) is Ok {
                assert(done + (arg_slot_tys(fa.args@[k as int])->Ok_0 + args_slot_tys(
                    fa.args@,
                    k + 1,
                )->Ok_0) =~= done2 + args_slot_tys(fa.args@, k + 1)->Ok_0);
            }
        }
        k += 1;
    }
    proof {
        assert(args_slot_tys(fa.args@, n as int) == Ok::<Seq<TyV>, Fatal>(Seq::empty()));
        let done = ty_dv_seq(raw@).subrange(pfx_len, raw@.len() as int);
        assert(done + Seq::<TyV>::empty() =~= done);
        assert(ty_dv_seq(raw@) =~= pfx + done);
    }
    Ok((ret_raw, raw))
}

/// Classifies every raw slot, returning the corrected slot list and each
/// changed slot's index with its original type.
#[verifier::rlimit(100)]
#[verifier::spinoff_prover]
#[verifier::loop_isolation(false)]
fn classify_slots<R: TypeRemapper>(remapper: &R, raw: &Vec<LowType>) -> (r: (
    Vec<LowType>,
    Vec<(usize, LowType)>,
))
    ensures
        ty_dv_seq(r.0@) == classify_seq(remapper, ty_dv_seq(raw@)),
        slot_pairs_dv(r.1@) == changed_slots(remapper, ty_dv_seq(raw@), 0),
{
    let ghost slots = ty_dv_seq(raw@);
    let mut params: Vec<LowType> = Vec::new();
    let mut changes: Vec<(usize, LowType)> = Vec::new();
    let m = raw.len();
    let mut i: usize = 0;
    while i < m
        invariant
            i <= m,
            params@.len() == i,
            ty_dv_seq(params@) =~= classify_seq(remapper, slots).subrange(0, i as int),
            changed_slots(remapper, slots, 0) == slot_pairs_dv(changes@) + changed_slots(
                remapper,
                slots,
                i as int,
            ),
        decreases m - i,
    {
        let (new_t, changed) = remapper.classify(&raw[i]);
        let ghost params_before = params@;
        params.push(new_t);
        proof {
            assert(slots[i as int] == ty_dv(raw@[i as int]));
            assert(ty_dv_seq(params@) =~= ty_dv_seq(params_before).push(
                remapper.classify_spec(slots[i as int]),
            ));
            assert(classify_seq(remapper, slots).subrange(0, i + 1) =~= classify_seq(
                remapper,
                slots,
            ).subrange(0, i as int).push(remapper.classify_spec(slots[i as int])));
        }
        if changed {
            let ghost changes_before = changes@;
            let orig = ty_clone(&raw[i]);
            changes.push((i, orig));
            proof {
                assert(slot_pairs_dv(changes@) =~= slot_pairs_dv(changes_before).push(
                    (i as int, slots[i as int]),
                ));
                assert(slot_pairs_dv(changes_before) + (seq![(i as int, slots[i as int])]
                    + changed_slots(remapper, slots, i + 1)) =~= slot_pairs_dv(changes@)
                    + changed_slots(remapper, slots, i + 1));
            }
        } else {
            proof {
                assert(slot_pairs_dv(changes@) + (Seq::<(int, TyV)>::empty() + changed_slots(
                    remapper,
                    slots,
                    i + 1,
                )) =~= slot_pairs_dv(changes@) + changed_slots(remapper, slots, i + 1));
            }
        }
        i += 1;
    }
    proof {
        assert(changed_slots(remapper, slots, m as int) == Seq::<(int, TyV)>::empty());
        assert(slot_pairs_dv(changes@) + Seq::<(int, TyV)>::empty() =~= slot_pairs_dv(
            changes@,
        ));
        assert(classify_seq(remapper, slots).subrange(0, m as int) =~= classify_seq(
            remapper,
            slots,
        ));
        assert(ty_dv_seq(params@) =~= classify_seq(remapper, slots));
    }
    (params, changes)
}

/// Persists one signature's remapping decision, first writer wins: if
/// anything changed and the concrete type is not yet keyed, one record
/// is appended; otherwise the table stays as it is.
#[verifier::rlimit(100)]
#[verifier::spinoff_prover]
#[verifier::loop_isolation(false)]
fn record_remap(
    cx: &mut CodegenCx,
    fn_ty: &LowType,
    old_ret: Option<LowType>,
    changes: Vec<(usize, LowType)>,
)
    ensures
        CodegenCx::same_statics(*old(cx), *final(cx)),
        final(cx).dl == old(cx).dl,
        remap_recorded(
            old(cx).remapped@,
            final(cx).remapped@,
            fn_ty.deep_view(),
            opt_ty_dv(old_ret),
            slot_pairs_dv(changes@),
        ),
{
    let ghost ft = fn_ty.deep_view();
    if changes.len() == 0 && old_ret.is_none() {
        return ;
    }
    let mut found = false;
    let ghost found_at: Option<int> = None;
    let mut j: usize = 0;
    let tbl_len = cx.remapped.len();
    while j < tbl_len
        invariant
            tbl_len == cx.remapped.len(),
            j <= tbl_len,
            *cx == *old(cx),
            found <==> found_at is Some,
            match found_at {
                None => forall|q: int|
                    0 <= q < j ==> ty_dv(#[trigger] cx.remapped@[q].0) != ft,
                Some(m0) => 0 <= m0 < j && ty_dv(cx.remapped@[m0].0) == ft,
            },
        decreases tbl_len - j,
    {
        if !found {
            if ty_eq(&cx.remapped[j].0, fn_ty) {
                found = true;
                proof {
                    found_at = Some(j as int);
                }
            }
        }
        j += 1;
    }
    if !found {
        proof {
            lemma_tbl_lookup_skip(cx.remapped@, ft, cx.remapped@.len() as int);
            assert(cx.remapped@.subrange(
                cx.remapped@.len() as int,
                cx.remapped@.len() as int,
            ) =~= Seq::<(LowType, RemapRecord)>::empty());
        }
        let ghost before_tbl = cx.remapped@;
        let key = ty_clone(fn_ty);
        let rec = RemapRecord { old_ret, args: changes };
        cx.remapped.push((key, rec));
        proof {
            assert(cx.remapped@.subrange(0, before_tbl.len() as int) =~= before_tbl);
        }
    } else {
        proof {
            let m0 = found_at->Some_0;
            lemma_tbl_lookup_skip_until_hit(cx.remapped@, ft, m0);
        }
    }
}

/// Lowers a full descriptor to its concrete function type, classifying
/// every emitted slot and the return type through the remapping
/// capability and recording the decisions in the context; fatal exactly
/// when a register or cast description in the descriptor is fatal, and
/// the context is then untouched.
pub fn lower_signature<R: TypeRemapper>(fa: &FnAbi, remapper: &R, cx: &mut CodegenCx) -> (r:
    Result<LowType, Fatal>)
    requires
        fa.wf(),
        old(cx).wf(),
    ensures
        final(cx).wf(),
        CodegenCx::same_statics(*old(cx), *final(cx)),
        final(cx).dl == old(cx).dl,
        match lowered_sig(*fa) {
            Err(e) => r == Err::<LowType, Fatal>(e) && *final(cx) == *old(cx),
            Ok((rt, slots)) => {
                &&& r is Ok
                &&& r->Ok_0.deep_view() == lowered_fn_ty(remapper, *fa)->Ok_0
                &&& remap_recorded(
                    old(cx).remapped@,
                    final(cx).remapped@,
                    lowered_fn_ty(remapper, *fa)->Ok_0,
                    (if remapper.classify_spec(rt) != rt {
                        Some(rt)
                    } else {
                        None
                    }),
                    changed_slots(remapper, slots, 0),
                )
            },
        },
{
    let (ret_raw, raw) = match build_raw_slots(fa) {
        Err(e) => {
            return Err(e);
        },
        Ok(p) => p,
    };
    let (params, changes) = classify_slots(remapper, &raw);

    // Classify the return type; keep the original if it changed.
    let (ret_new, ret_changed) = remapper.classify(&ret_raw);
    let old_ret: Option<LowType> = if ret_changed {
        Some(ret_raw)
    } else {
        None
    };

    let fn_ty = LowType::Func { params, ret: Box::new(ret_new), variadic: fa.c_variadic };
    let ghost ft = lowered_fn_ty(remapper, *fa)->Ok_0;
    proof {
        assert(fn_ty.deep_view() == ft);
    }

    // Persist the decision: later call sites of the same concrete type
    // replay the recorded originals.
    record_remap(cx, &fn_ty, old_ret, changes);
    Ok(fn_ty)
}

/// A lookup whose first hit is at `m` returns that entry.
proof fn lemma_tbl_lookup_skip_until_hit(t: Seq<(LowType, RemapRecord)>, key: TyV, m: int)
    requires
        0 <= m < t.len(),
        ty_dv(t[m].0) == key,
    ensures
        tbl_lookup(t, key) is Some,
    decreases m,
{
    if t.len() > 0 {
        if ty_dv(t[0].0) == key {
        } else {
            assert(m != 0);
            assert(t.drop_first()[m - 1] == t[m]);
            lemma_tbl_lookup_skip_until_hit(t.drop_first(), key, m - 1);
        }
    }
}

/// How many arguments from `k` on are not ignored.
pub open spec fn count_non_ignore(args: Seq<ArgAbi>, k: int) -> nat
    decreases args.len() - k,
{
    if k < 0 || k >= args.len() {
        0
    } else {
        (if args[k].mode is Ignore {
            0nat
        } else {
            1nat
        }) + count_non_ignore(args, k + 1)
    }
}

/// For a descriptor whose classifications are only direct or ignored,
/// with no padding registers, lowering never fails and the concrete
/// parameter count equals the non-ignored argument count: each such
/// argument emits exactly one slot, in declaration order.
pub proof fn lemma_direct_ignore_param_count<R: TypeRemapper>(r: &R, fa: FnAbi)
    requires
        forall|i: int|
            0 <= i < fa.args@.len() ==> ((#[trigger] fa.args@[i]).mode is Direct
                || fa.args@[i].mode is Ignore) && fa.args@[i].pad is None,
        fa.ret.mode is Direct || fa.ret.mode is Ignore,
    ensures
        lowered_sig(fa) is Ok,
        lowered_fn_ty(r, fa) is Ok,
        lowered_sig(fa)->Ok_0.1.len() == count_non_ignore(fa.args@, 0),
        lowered_fn_ty(r, fa)->Ok_0->Func_params.len() == count_non_ignore(fa.args@, 0),
{
    lemma_direct_ignore_slots(fa.args@, 0);
    assert(sig_prefix(fa).len() == 0);
    assert(sig_prefix(fa) + args_slot_tys(fa.args@, 0)->Ok_0 =~= args_slot_tys(
        fa.args@,
        0,
    )->Ok_0);
}

/// Each direct argument emits one slot, an ignored one none.
proof fn lemma_direct_ignore_slots(args: Seq<ArgAbi>, k: int)
    requires
        forall|i: int|
            0 <= i < args.len() ==> ((#[trigger] args[i]).mode is Direct || args[i].mode
                is Ignore) && args[i].pad is None,
        0 <= k <= args.len(),
    ensures
        args_slot_tys(args, k) is Ok,
        args_slot_tys(args, k)->Ok_0.len() == count_non_ignore(args, k),
    decreases args.len() - k,
{
    if k < args.len() {
        lemma_direct_ignore_slots(args, k + 1);
        assert(arg_slot_tys(args[k]) is Ok);
        match args[k].mode {
            PassMode::Ignore => {
                assert(arg_slot_tys(args[k])->Ok_0 =~= Seq::<TyV>::empty());
            },
            PassMode::Direct(_) => {
                assert(arg_slot_tys(args[k])->Ok_0 =~= seq![
                    ty_dv(args[k].layout.immediate_ty),
                ]);
            },
            _ => {},
        }
    }
}

/// The type of a pointer to this descriptor's lowered function, living in
/// the address space compiled code occupies.
pub fn ptr_to_llvm_type<R: TypeRemapper>(fa: &FnAbi, remapper: &R, cx: &mut CodegenCx) -> (r:
    Result<LowType, Fatal>)
    requires
        fa.wf(),
        old(cx).wf(),
    ensures
        final(cx).wf(),
        match lowered_fn_ty(remapper, *fa) {
            Err(e) => r == Err::<LowType, Fatal>(e),
            Ok(ft) => r is Ok && r->Ok_0.deep_view() == (TyV::Ptr {
                pointee: Box::new(ft),
                addrspace: old(cx).dl.instruction_addrspace,
            }),
        },
{
    let aspace = cx.dl.instruction_addrspace;
    match lower_signature(fa, remapper, cx) {
        Err(e) => Err(e),
        Ok(t) => Ok(LowType::Ptr { pointee: Box::new(t), addrspace: aspace }),
    }
}

} // verus!
