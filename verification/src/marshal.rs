//! Value marshaling across the call boundary.
//!
//! Entry marshaling consumes raw parameter values left to right, exactly
//! mirroring slot emission: a pair consumes two consecutive slots and
//! yields one combined value, an unsized indirect argument consumes its
//! pointer and metadata, everything else one slot and an ignored argument
//! none. A cast-classified value is staged through a scratch buffer sized
//! and aligned to the cast type and copied byte-wise into the true
//! representation —
//! a direct pointer-cast store is not assumed bit-safe. Remapped slots
//! and results are reinterpreted back to their recorded original types.

use vstd::prelude::*;

use crate::abi::{ArgAbi, PassMode};
use crate::context::{CodegenCx, RemapRecord, find_slot, tbl_lookup, lemma_find_slot_skip,
    lemma_tbl_lookup_skip};
use crate::remap::TypeRemapper;
use crate::types::{LowType, ty_dv, ty_eq};

verus! {

broadcast use
    vstd::std_specs::vec::group_vec_axioms,
    vstd::seq::group_seq_axioms,
;

/// What one entry or call-result store does to the destination.
#[derive(Clone, Copy, PartialEq, Eq, Structural, Debug)]
pub enum StoreAction {
    /// An ignored argument stores nothing.
    Nothing,
    /// A sized indirect value is copied from the given address.
    RefCopy { src: u64, align: u64 },
    /// An immediate value is stored directly.
    ImmStore { val: u64 },
    /// A pair's two halves are stored as one combined value.
    PairStore { a: u64, b: u64 },
    /// An unsized value arrives as its data pointer and metadata.
    RefWithExtra { ptr: u64, extra: u64, align: u64 },
    /// A cast-classified value is written to a scratch buffer sized and
    /// aligned to the cast type, then `copy_bytes` are copied into the
    /// true memory representation.
    CastScratch { val: u64, scratch_bytes: u64, scratch_align: u64, copy_bytes: u64 },
}

/// The store a lone value classified by `arg` performs.
pub open spec fn store_action(arg: ArgAbi, val: u64) -> StoreAction {
    match arg.mode {
        PassMode::Ignore => StoreAction::Nothing,
        PassMode::Indirect { extra_attrs: None, .. } => StoreAction::RefCopy {
            src: val,
            align: arg.layout.align_bytes,
        },
        PassMode::Cast(ct) => StoreAction::CastScratch {
            val,
            scratch_bytes: ct.total_bytes() as u64,
            scratch_align: ct.align_bytes(),
            copy_bytes: arg.layout.size_bytes,
        },
        _ => StoreAction::ImmStore { val },
    }
}

/// How many raw parameter slots one mode consumes at entry.
pub open spec fn slots_consumed(m: PassMode) -> int {
    match m {
        PassMode::Ignore => 0,
        PassMode::Pair(_, _) => 2,
        PassMode::Indirect { extra_attrs: Some(_), .. } => 2,
        _ => 1,
    }
}

/// The store one argument performs at entry, its raw values starting at
/// slot `i`.
pub open spec fn entry_store_action(arg: ArgAbi, params: Seq<u64>, i: int) -> StoreAction {
    match arg.mode {
        PassMode::Ignore => StoreAction::Nothing,
        PassMode::Pair(_, _) => StoreAction::PairStore { a: params[i], b: params[i + 1] },
        PassMode::Indirect { extra_attrs: Some(_), .. } => StoreAction::RefWithExtra {
            ptr: params[i],
            extra: params[i + 1],
            align: arg.layout.align_bytes,
        },
        _ => store_action(arg, params[i]),
    }
}

impl ArgAbi {
    /// The type of a place holding this value in memory.
    pub fn memory_ty(&self) -> (r: &LowType)
        ensures
            *r == self.layout.memory_ty,
    {
        &self.layout.memory_ty
    }

    /// Describes the store of one already-fetched value into this
    /// argument's place. An unsized indirect argument never comes here:
    /// it is handled with its metadata at entry.
    pub fn store(&self, val: u64) -> (r: StoreAction)
        requires
            !(self.mode matches PassMode::Indirect { extra_attrs: Some(_), .. }),
            self.wf(),
        ensures
            r == store_action(*self, val),
    {
        match &self.mode {
            PassMode::Ignore => StoreAction::Nothing,
            PassMode::Indirect { extra_attrs: None, .. } => StoreAction::RefCopy {
                src: val,
                align: self.layout.align_bytes,
            },
            PassMode::Cast(ct) => {
                // The scratch buffer carries the cast type's size and
                // alignment; only the true size of the value is copied
                // out of it.
                StoreAction::CastScratch {
                    val,
                    scratch_bytes: ct.total(),
                    scratch_align: ct.align(),
                    copy_bytes: self.layout.size_bytes,
                }
            },
            _ => StoreAction::ImmStore { val },
        }
    }

    /// Consumes this argument's raw parameter values at entry, advancing
    /// the slot cursor exactly as far as slot emission promised.
    pub fn store_fn_arg(&self, params: &Vec<u64>, idx: &mut usize) -> (r: StoreAction)
        requires
            self.wf(),
            *old(idx) + slots_consumed(self.mode) <= params.len(),
        ensures
            *final(idx) == *old(idx) + slots_consumed(self.mode),
            r == entry_store_action(*self, params@, *old(idx) as int),
    {
        match &self.mode {
            PassMode::Ignore => StoreAction::Nothing,
            PassMode::Pair(_, _) => {
                let a = params[*idx];
                let b = params[*idx + 1];
                *idx = *idx + 2;
                StoreAction::PairStore { a, b }
            },
            PassMode::Indirect { extra_attrs: Some(_), .. } => {
                let ptr = params[*idx];
                let extra = params[*idx + 1];
                *idx = *idx + 2;
                StoreAction::RefWithExtra { ptr, extra, align: self.layout.align_bytes }
            },
            _ => {
                let v = params[*idx];
                *idx = *idx + 1;
                self.store(v)
            },
        }
    }
}

/// A pair-classified argument consumes exactly two consecutive raw
/// parameter slots and yields the one combined value built from them.
pub proof fn lemma_pair_consumes_two(arg: ArgAbi, params: Seq<u64>, i: int)
    requires
        arg.mode is Pair,
    ensures
        slots_consumed(arg.mode) == 2,
        entry_store_action(arg, params, i) == (StoreAction::PairStore {
            a: params[i],
            b: params[i + 1],
        }),
{
}

/// What fetching one raw entry parameter yields: if the function type's
/// record remaps this slot, the value is reinterpreted back to the
/// recorded original type; otherwise it passes through.
pub open spec fn fetched_param<R: TypeRemapper>(
    tbl: Seq<(LowType, RemapRecord)>,
    remapper: &R,
    fnty: LowType,
    index: usize,
    raw: u64,
) -> u64 {
    match tbl_lookup(tbl, ty_dv(fnty)) {
        None => raw,
        Some(rec) => match find_slot(rec.args@, index) {
            None => raw,
            Some(t) => remapper.reinterpret_spec(raw, ty_dv(t)),
        },
    }
}

/// Looks up the remap record of a concrete function type.
#[verifier::loop_isolation(false)]
fn lookup_record<'a>(cx: &'a CodegenCx, fnty: &LowType) -> (r: Option<&'a RemapRecord>)
    ensures
        match tbl_lookup(cx.remapped@, ty_dv(*fnty)) {
            None => r is None,
            Some(rec) => r is Some && *r->Some_0 == rec,
        },
{
    let ghost key = ty_dv(*fnty);
    let n = cx.remapped.len();
    let mut j: usize = 0;
    while j < n
        invariant
            n == cx.remapped.len(),
            j <= n,
            forall|q: int| 0 <= q < j ==> ty_dv(#[trigger] cx.remapped@[q].0) != key,
        decreases n - j,
    {
        if ty_eq(&cx.remapped[j].0, fnty) {
            proof {
                lemma_tbl_lookup_skip(cx.remapped@, key, j as int);
                let suffix = cx.remapped@.subrange(j as int, cx.remapped@.len() as int);
                assert(suffix[0] == cx.remapped@[j as int]);
            }
            return Some(&cx.remapped[j].1);
        }
        j += 1;
    }
    proof {
        lemma_tbl_lookup_skip(cx.remapped@, key, cx.remapped@.len() as int);
        assert(cx.remapped@.subrange(cx.remapped@.len() as int, cx.remapped@.len() as int)
            =~= Seq::<(LowType, RemapRecord)>::empty());
    }
    None
}

/// Fetches one raw entry parameter, replaying the remapping decision
/// recorded for this concrete function type: a remapped slot is
/// reinterpreted back to its original type.
#[verifier::loop_isolation(false)]
pub fn get_param<R: TypeRemapper>(
    cx: &CodegenCx,
    remapper: &R,
    fnty: &LowType,
    index: usize,
    raw: u64,
) -> (r: u64)
    ensures
        r == fetched_param(cx.remapped@, remapper, *fnty, index, raw),
{
    let rec = match lookup_record(cx, fnty) {
        None => {
            return raw;
        },
        Some(rec) => rec,
    };
    let n = rec.args.len();
    let mut j: usize = 0;
    while j < n
        invariant
            n == rec.args.len(),
            j <= n,
            forall|q: int| 0 <= q < j ==> (#[trigger] rec.args@[q].0) != index,
        decreases n - j,
    {
        if rec.args[j].0 == index {
            proof {
                lemma_find_slot_skip(rec.args@, index, j as int);
                let suffix = rec.args@.subrange(j as int, rec.args@.len() as int);
                assert(suffix[0] == rec.args@[j as int]);
            }
            return remapper.reinterpret(raw, &rec.args[j].1);
        }
        j += 1;
    }
    proof {
        lemma_find_slot_skip(rec.args@, index, rec.args@.len() as int);
        assert(rec.args@.subrange(rec.args@.len() as int, rec.args@.len() as int) =~= Seq::<
            (usize, LowType),
        >::empty());
    }
    raw
}

/// What a call's raw result becomes in the caller: if the concrete
/// function type's record remapped the return type, the result is
/// reinterpreted back to the recorded original before it is used.
pub open spec fn marshaled_result<R: TypeRemapper>(
    tbl: Seq<(LowType, RemapRecord)>,
    remapper: &R,
    fnty: LowType,
    raw: u64,
) -> u64 {
    match tbl_lookup(tbl, ty_dv(fnty)) {
        None => raw,
        Some(rec) => match rec.old_ret {
            None => raw,
            Some(t) => remapper.reinterpret_spec(raw, ty_dv(t)),
        },
    }
}

/// Reinterprets a call's raw result back to its original return type
/// when the signature's lowering remapped it.
pub fn marshal_call_result<R: TypeRemapper>(
    cx: &CodegenCx,
    remapper: &R,
    fnty: &LowType,
    raw: u64,
) -> (r: u64)
    ensures
        r == marshaled_result(cx.remapped@, remapper, *fnty, raw),
{
    match lookup_record(cx, fnty) {
        None => raw,
        Some(rec) => match &rec.old_ret {
            None => raw,
            Some(t) => remapper.reinterpret(raw, t),
        },
    }
}

} // verus!
