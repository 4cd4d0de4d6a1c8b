//! The per-compilation-unit context: the target's data layout and the
//! unit-local caches that lowering fills.
//!
//! Each unit of work owns one context; nothing is shared across units, so
//! units run in parallel without locks. Remapping decisions recorded here
//! during signature lowering stay immutable for the rest of the unit.

use vstd::prelude::*;

use crate::consts::{Const, ConstV, const_dv};
use crate::statics::GlobalDef;
use crate::types::{LowType, TyV, ty_dv};

verus! {

/// The facts of the target's data layout this library reads.
#[derive(Clone, Copy, PartialEq, Eq, Structural, Debug)]
pub struct DataLayout {
    /// The target pointer width in bytes.
    pub pointer_bytes: u64,
    /// The address space compiled code lives in.
    pub instruction_addrspace: u32,
}

impl DataLayout {
    /// A pointer is one to eight bytes wide, so a pointer-wide addend
    /// fits one machine word.
    pub open spec fn wf(self) -> bool {
        1 <= self.pointer_bytes <= 8
    }
}

/// What signature lowering recorded for one remapped concrete function
/// type: the original return type if it changed, and each changed slot's
/// index with its original type.
pub struct RemapRecord {
    pub old_ret: Option<LowType>,
    pub args: Vec<(usize, LowType)>,
}

/// The mathematical image of an optional type.
pub open spec fn opt_ty_dv(o: Option<LowType>) -> Option<TyV> {
    match o {
        Some(t) => Some(ty_dv(t)),
        None => None,
    }
}

/// The mathematical image of a slot-index/original-type list.
pub open spec fn slot_pairs_dv(s: Seq<(usize, LowType)>) -> Seq<(int, TyV)> {
    Seq::new(
        s.len(),
        |i: int|
            if 0 <= i < s.len() {
                (s[i].0 as int, ty_dv(s[i].1))
            } else {
                (0int, TyV::Void)
            },
    )
}

/// First-match lookup in the remap table, by structural type identity.
pub open spec fn tbl_lookup(t: Seq<(LowType, RemapRecord)>, key: TyV) -> Option<RemapRecord>
    decreases t.len(),
{
    if t.len() == 0 {
        None
    } else if ty_dv(t[0].0) == key {
        Some(t[0].1)
    } else {
        tbl_lookup(t.drop_first(), key)
    }
}

/// A prefix whose keys all miss can be skipped in a lookup.
pub proof fn lemma_tbl_lookup_skip(t: Seq<(LowType, RemapRecord)>, key: TyV, i: int)
    requires
        0 <= i <= t.len(),
        forall|j: int| 0 <= j < i ==> ty_dv(#[trigger] t[j].0) != key,
    ensures
        tbl_lookup(t, key) == tbl_lookup(t.subrange(i, t.len() as int), key),
    decreases i,
{
    if i == 0 {
        assert(t.subrange(0, t.len() as int) =~= t);
    } else {
        lemma_tbl_lookup_skip(t, key, i - 1);
        let s1 = t.subrange(i - 1, t.len() as int);
        let s2 = t.subrange(i, t.len() as int);
        assert(s1.len() > 0);
        assert(s1[0] == t[i - 1]);
        assert(ty_dv(s1[0].0) != key);
        assert(s1.drop_first() =~= s2);
        assert(tbl_lookup(s1, key) == tbl_lookup(s2, key));
    }
}

/// First-match lookup among a record's changed slots.
pub open spec fn find_slot(s: Seq<(usize, LowType)>, idx: usize) -> Option<LowType>
    decreases s.len(),
{
    if s.len() == 0 {
        None
    } else if s[0].0 == idx {
        Some(s[0].1)
    } else {
        find_slot(s.drop_first(), idx)
    }
}

/// A prefix whose indices all miss can be skipped when finding a slot.
pub proof fn lemma_find_slot_skip(s: Seq<(usize, LowType)>, idx: usize, i: int)
    requires
        0 <= i <= s.len(),
        forall|j: int| 0 <= j < i ==> (#[trigger] s[j].0) != idx,
    ensures
        find_slot(s, idx) == find_slot(s.subrange(i, s.len() as int), idx),
    decreases i,
{
    if i == 0 {
        assert(s.subrange(0, s.len() as int) =~= s);
    } else {
        lemma_find_slot_skip(s, idx, i - 1);
        let s1 = s.subrange(i - 1, s.len() as int);
        let s2 = s.subrange(i, s.len() as int);
        assert(s1.len() > 0);
        assert(s1[0] == s[i - 1]);
        assert(s1[0].0 != idx);
        assert(s1.drop_first() =~= s2);
        assert(find_slot(s1, idx) == find_slot(s2, idx));
    }
}

/// First-match lookup in an integer-keyed cache.
pub open spec fn id_lookup(t: Seq<(u64, usize)>, key: u64) -> Option<usize>
    decreases t.len(),
{
    if t.len() == 0 {
        None
    } else if t[0].0 == key {
        Some(t[0].1)
    } else {
        id_lookup(t.drop_first(), key)
    }
}

/// A prefix whose keys all miss can be skipped in a cache lookup.
pub proof fn lemma_id_lookup_skip(t: Seq<(u64, usize)>, key: u64, i: int)
    requires
        0 <= i <= t.len(),
        forall|j: int| 0 <= j < i ==> (#[trigger] t[j].0) != key,
    ensures
        id_lookup(t, key) == id_lookup(t.subrange(i, t.len() as int), key),
    decreases i,
{
    if i == 0 {
        assert(t.subrange(0, t.len() as int) =~= t);
    } else {
        lemma_id_lookup_skip(t, key, i - 1);
        let s1 = t.subrange(i - 1, t.len() as int);
        let s2 = t.subrange(i, t.len() as int);
        assert(s1.len() > 0);
        assert(s1[0] == t[i - 1]);
        assert(s1[0].0 != key);
        assert(s1.drop_first() =~= s2);
        assert(id_lookup(s1, key) == id_lookup(s2, key));
    }
}

/// First-match lookup in the constant-interning cache, by structural
/// constant identity.
pub open spec fn const_lookup(t: Seq<(Const, usize)>, key: ConstV) -> Option<usize>
    decreases t.len(),
{
    if t.len() == 0 {
        None
    } else if const_dv(t[0].0) == key {
        Some(t[0].1)
    } else {
        const_lookup(t.drop_first(), key)
    }
}

/// A prefix whose keys all miss can be skipped in the constant cache.
pub proof fn lemma_const_lookup_skip(t: Seq<(Const, usize)>, key: ConstV, i: int)
    requires
        0 <= i <= t.len(),
        forall|j: int| 0 <= j < i ==> const_dv(#[trigger] t[j].0) != key,
    ensures
        const_lookup(t, key) == const_lookup(t.subrange(i, t.len() as int), key),
    decreases i,
{
    if i == 0 {
        assert(t.subrange(0, t.len() as int) =~= t);
    } else {
        lemma_const_lookup_skip(t, key, i - 1);
        let s1 = t.subrange(i - 1, t.len() as int);
        let s2 = t.subrange(i, t.len() as int);
        assert(s1.len() > 0);
        assert(s1[0] == t[i - 1]);
        assert(const_dv(s1[0].0) != key);
        assert(s1.drop_first() =~= s2);
        assert(const_lookup(s1, key) == const_lookup(s2, key));
    }
}

/// The per-unit context.
pub struct CodegenCx {
    /// The target's data layout.
    pub dl: DataLayout,
    /// Remapping decisions, keyed by the concrete function type they were
    /// made for; written at most once per distinct type, read by later
    /// call sites of the same unit.
    pub remapped: Vec<(LowType, RemapRecord)>,
    /// The externally supplied partial-uninit policy: spans of at most
    /// this many bytes may keep their undefined sub-runs; absent, a mixed
    /// span is always collapsed.
    pub uninit_threshold: Option<usize>,
    /// Every global of this unit, by identity.
    pub globals: Vec<GlobalDef>,
    /// Statics already materialized, keyed by definition id.
    pub instances: Vec<(u64, usize)>,
    /// Interned string constants, keyed by symbol id.
    pub const_cstr_cache: Vec<(u64, usize)>,
    /// Interned constant globals, keyed by their initializer value.
    pub const_globals: Vec<(Const, usize)>,
    /// Globals whose uses are rewritten to a type-corrected twin at the
    /// end of the unit.
    pub statics_to_rauw: Vec<(usize, usize)>,
    /// Globals kept alive for the linker.
    pub used_statics: Vec<Const>,
    /// Globals kept alive for the compiler.
    pub compiler_used_statics: Vec<Const>,
    /// Globals that received their debug metadata, each exactly once.
    pub global_debug_metadata: Vec<usize>,
    /// The next fresh local symbol name.
    pub local_name_counter: u64,
}

impl CodegenCx {
    /// A fresh context for one unit of work.
    pub fn new(dl: DataLayout, uninit_threshold: Option<usize>) -> (r: CodegenCx)
        requires
            dl.wf(),
        ensures
            r.dl == dl,
            r.uninit_threshold == uninit_threshold,
            r.remapped@ =~= Seq::<(LowType, RemapRecord)>::empty(),
            r.globals@ =~= Seq::<GlobalDef>::empty(),
            r.instances@ =~= Seq::<(u64, usize)>::empty(),
            r.const_cstr_cache@ =~= Seq::<(u64, usize)>::empty(),
            r.const_globals@ =~= Seq::<(Const, usize)>::empty(),
            r.statics_to_rauw@ =~= Seq::<(usize, usize)>::empty(),
            r.used_statics@ =~= Seq::<Const>::empty(),
            r.compiler_used_statics@ =~= Seq::<Const>::empty(),
            r.global_debug_metadata@ =~= Seq::<usize>::empty(),
            r.local_name_counter == 0,
            r.wf(),
    {
        CodegenCx {
            dl,
            remapped: Vec::new(),
            uninit_threshold,
            globals: Vec::new(),
            instances: Vec::new(),
            const_cstr_cache: Vec::new(),
            const_globals: Vec::new(),
            statics_to_rauw: Vec::new(),
            used_statics: Vec::new(),
            compiler_used_statics: Vec::new(),
            global_debug_metadata: Vec::new(),
            local_name_counter: 0,
        }
    }

    /// Generated local symbol names are fresh: no global carries a local
    /// name at or past the counter.
    pub open spec fn names_fresh(self) -> bool {
        forall|j: int|
            0 <= j < self.globals@.len() ==> (match (#[trigger] self.globals@[j]).name {
                crate::statics::GlobalName::Local { counter } => counter
                    < self.local_name_counter,
                _ => true,
            })
    }

    /// Every cached global identity points into the global table.
    pub open spec fn caches_in_bounds(self) -> bool {
        &&& forall|j: int|
            0 <= j < self.instances@.len() ==> (#[trigger] self.instances@[j]).1
                < self.globals@.len()
        &&& forall|j: int|
            0 <= j < self.const_cstr_cache@.len() ==> (#[trigger] self.const_cstr_cache@[j]).1
                < self.globals@.len()
        &&& forall|j: int|
            0 <= j < self.const_globals@.len() ==> (#[trigger] self.const_globals@[j]).1
                < self.globals@.len()
    }

    /// The context's own invariant.
    pub open spec fn wf(self) -> bool {
        &&& self.dl.wf()
        &&& self.names_fresh()
        &&& self.caches_in_bounds()
    }

    /// Everything but the remap table and the local caches is shared
    /// between two context states.
    pub open spec fn same_statics(a: CodegenCx, b: CodegenCx) -> bool {
        &&& b.dl == a.dl
        &&& b.uninit_threshold == a.uninit_threshold
        &&& b.globals == a.globals
        &&& b.instances == a.instances
        &&& b.const_cstr_cache == a.const_cstr_cache
        &&& b.const_globals == a.const_globals
        &&& b.statics_to_rauw == a.statics_to_rauw
        &&& b.used_statics == a.used_statics
        &&& b.compiler_used_statics == a.compiler_used_statics
        &&& b.global_debug_metadata == a.global_debug_metadata
        &&& b.local_name_counter == a.local_name_counter
    }
}

} // verus!
