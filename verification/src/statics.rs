//! Globals and statics: declaring and defining globals, interning string
//! and constant globals, materializing a static with its linkage checked
//! against the target, and serializing its initializer.
//!
//! Fatal conditions here are configuration errors: a linkage kind the
//! target does not know, a linkage attribute on a value that is not a raw
//! pointer, a symbol defined twice, conflicting types for one static, and
//! a thread-local request.

use vstd::prelude::*;

use crate::Fatal;
use crate::consts::{Const, ConstV, const_dv, const_eq};
use crate::context::{
    CodegenCx, const_lookup, id_lookup, lemma_const_lookup_skip, lemma_id_lookup_skip,
};
use crate::types::{LowType, TyV, ty_clone, ty_dv, ty_eq};

verus! {

broadcast use
    vstd::std_specs::vec::group_vec_axioms,
    vstd::seq::group_seq_axioms,
;

/// How a global may be linked, in the source compiler's vocabulary.
#[derive(Clone, Copy, PartialEq, Eq, Structural, Debug)]
pub enum Linkage {
    External,
    AvailableExternally,
    LinkOnceAny,
    LinkOnceODR,
    WeakAny,
    WeakODR,
    Appending,
    Internal,
    Private,
    ExternalWeak,
    Common,
}

/// How a global is linked, in the target's vocabulary.
#[derive(Clone, Copy, PartialEq, Eq, Structural, Debug)]
pub enum LlLinkage {
    ExternalLinkage,
    AvailableExternallyLinkage,
    LinkOnceAnyLinkage,
    LinkOnceODRLinkage,
    WeakAnyLinkage,
    WeakODRLinkage,
    AppendingLinkage,
    InternalLinkage,
    PrivateLinkage,
    ExternalWeakLinkage,
    CommonLinkage,
}

/// A global's visibility.
#[derive(Clone, Copy, PartialEq, Eq, Structural, Debug)]
pub enum Visibility {
    Default,
    Hidden,
    Protected,
}

/// A global's name: a mangled symbol, the internal twin a linkage
/// attribute wraps around a symbol, a generated local name, or a name
/// cleared while its global awaits replacement.
#[derive(Clone, Copy, PartialEq, Eq, Structural, Debug)]
pub enum GlobalName {
    Sym { id: u64 },
    ExternWithLinkage { id: u64 },
    Local { counter: u64 },
    Blank,
}

/// One global of the unit.
pub struct GlobalDef {
    pub name: GlobalName,
    pub ty: LowType,
    pub addrspace: u32,
    pub linkage: LlLinkage,
    pub visibility: Visibility,
    pub initializer: Option<Const>,
    pub constant: bool,
    pub align: Option<u64>,
    pub unnamed_addr: bool,
}

/// The target's name for each source linkage kind.
pub open spec fn linkage_lowered(l: Linkage) -> LlLinkage {
    match l {
        Linkage::External => LlLinkage::ExternalLinkage,
        Linkage::AvailableExternally => LlLinkage::AvailableExternallyLinkage,
        Linkage::LinkOnceAny => LlLinkage::LinkOnceAnyLinkage,
        Linkage::LinkOnceODR => LlLinkage::LinkOnceODRLinkage,
        Linkage::WeakAny => LlLinkage::WeakAnyLinkage,
        Linkage::WeakODR => LlLinkage::WeakODRLinkage,
        Linkage::Appending => LlLinkage::AppendingLinkage,
        Linkage::Internal => LlLinkage::InternalLinkage,
        Linkage::Private => LlLinkage::PrivateLinkage,
        Linkage::ExternalWeak => LlLinkage::ExternalWeakLinkage,
        Linkage::Common => LlLinkage::CommonLinkage,
    }
}

/// Maps a source linkage kind to the target's.
pub fn linkage_to_llvm(linkage: Linkage) -> (r: LlLinkage)
    ensures
        r == linkage_lowered(linkage),
{
    match linkage {
        Linkage::External => LlLinkage::ExternalLinkage,
        Linkage::AvailableExternally => LlLinkage::AvailableExternallyLinkage,
        Linkage::LinkOnceAny => LlLinkage::LinkOnceAnyLinkage,
        Linkage::LinkOnceODR => LlLinkage::LinkOnceODRLinkage,
        Linkage::WeakAny => LlLinkage::WeakAnyLinkage,
        Linkage::WeakODR => LlLinkage::WeakODRLinkage,
        Linkage::Appending => LlLinkage::AppendingLinkage,
        Linkage::Internal => LlLinkage::InternalLinkage,
        Linkage::Private => LlLinkage::PrivateLinkage,
        Linkage::ExternalWeak => LlLinkage::ExternalWeakLinkage,
        Linkage::Common => LlLinkage::CommonLinkage,
    }
}

/// The linkage kinds the target supports on a global definition; a
/// request for any other is a fatal configuration error.
pub open spec fn linkage_supported(l: Linkage) -> bool {
    match l {
        Linkage::External => true,
        Linkage::Private => true,
        Linkage::Internal => true,
        Linkage::Common => true,
        Linkage::AvailableExternally => true,
        Linkage::LinkOnceAny => true,
        Linkage::LinkOnceODR => true,
        Linkage::WeakAny => true,
        Linkage::WeakODR => true,
        Linkage::Appending => false,
        Linkage::ExternalWeak => false,
    }
}

/// The first global carrying a name.
pub open spec fn find_global(gs: Seq<GlobalDef>, name: GlobalName) -> Option<int>
    decreases gs.len(),
{
    if gs.len() == 0 {
        None
    } else if gs[0].name == name {
        Some(0int)
    } else {
        match find_global(gs.drop_first(), name) {
            None => None,
            Some(j) => Some(j + 1),
        }
    }
}

/// A found name lies in range and is the first hit.
pub proof fn lemma_find_global_props(gs: Seq<GlobalDef>, name: GlobalName)
    ensures
        match find_global(gs, name) {
            None => forall|j: int| 0 <= j < gs.len() ==> (#[trigger] gs[j]).name != name,
            Some(m) => 0 <= m < gs.len() && gs[m].name == name && forall|j: int|
                0 <= j < m ==> (#[trigger] gs[j]).name != name,
        },
    decreases gs.len(),
{
    if gs.len() > 0 {
        lemma_find_global_props(gs.drop_first(), name);
        if gs[0].name != name {
            assert forall|j: int| 1 <= j < gs.len() implies gs.drop_first()[j - 1]
                == (#[trigger] gs[j]) by {}
        }
    }
}

impl CodegenCx {
    /// Scans for a global by name.
    #[verifier::loop_isolation(false)]
    fn find_global_exec(&self, name: GlobalName) -> (r: Option<usize>)
        ensures
            match find_global(self.globals@, name) {
                None => r is None,
                Some(m) => r == Some(m as usize),
            },
    {
        proof {
            lemma_find_global_props(self.globals@, name);
        }
        let n = self.globals.len();
        let mut j: usize = 0;
        while j < n
            invariant
                n == self.globals.len(),
                j <= n,
                forall|q: int| 0 <= q < j ==> (#[trigger] self.globals@[q]).name != name,
            decreases n - j,
        {
            if self.globals[j].name == name {
                proof {
                    lemma_find_global_first_hit(self.globals@, name, j as int);
                }
                return Some(j);
            }
            j += 1;
        }
        None
    }

    /// A fresh generated local name; never collides with an existing one.
    fn generate_local_symbol_name(&mut self) -> (r: GlobalName)
        requires
            old(self).wf(),
            old(self).local_name_counter < 0xffff_ffff_ffff_0000,
        ensures
            final(self).wf(),
            r == (GlobalName::Local { counter: old(self).local_name_counter }),
            final(self).local_name_counter == old(self).local_name_counter + 1,
            final(self).globals == old(self).globals,
            final(self).instances == old(self).instances,
            final(self).const_cstr_cache == old(self).const_cstr_cache,
            final(self).const_globals == old(self).const_globals,
            final(self).statics_to_rauw == old(self).statics_to_rauw,
            final(self).used_statics == old(self).used_statics,
            final(self).compiler_used_statics == old(self).compiler_used_statics,
            final(self).global_debug_metadata == old(self).global_debug_metadata,
            final(self).remapped == old(self).remapped,
            final(self).dl == old(self).dl,
            final(self).uninit_threshold == old(self).uninit_threshold,
            find_global(final(self).globals@, r) is None,
    {
        let name = GlobalName::Local { counter: self.local_name_counter };
        self.local_name_counter = self.local_name_counter + 1;
        proof {
            lemma_find_global_props(self.globals@, name);
            if find_global(self.globals@, name) is Some {
                let m = find_global(self.globals@, name)->Some_0;
                assert(self.globals@[m].name == name);
            }
        }
        name
    }
}

/// A miss among the first `m` entries and a hit at `m` make `m` the
/// first hit.
proof fn lemma_find_global_first_hit(gs: Seq<GlobalDef>, name: GlobalName, m: int)
    requires
        0 <= m < gs.len(),
        gs[m].name == name,
        forall|q: int| 0 <= q < m ==> (#[trigger] gs[q]).name != name,
    ensures
        find_global(gs, name) == Some(m),
    decreases m,
{
    if m == 0 {
    } else {
        assert forall|q: int| 0 <= q < m - 1 implies (#[trigger] gs.drop_first()[q]).name
            != name by {
            assert(gs.drop_first()[q] == gs[q + 1]);
        }
        assert(gs.drop_first()[m - 1] == gs[m]);
        lemma_find_global_first_hit(gs.drop_first(), name, m - 1);
    }
}

/// A descriptor of one static, as the front end hands it over: plain
/// identities and layout facts in place of the compiler's internals.
pub struct StaticDesc {
    /// The definition's identity.
    pub def_id: u64,
    /// The mangled symbol, as an interned identity.
    pub sym: u64,
    /// The definition lives in the current crate.
    pub is_local: bool,
    /// The definition is a foreign item.
    pub is_foreign: bool,
    /// The static's concrete type.
    pub llty: LowType,
    /// The pointee's concrete type when the static's type is a raw
    /// pointer; a linkage attribute demands one.
    pub pointee_llty: Option<LowType>,
    /// An explicit linkage attribute, if any.
    pub linkage_attr: Option<Linkage>,
    pub is_thread_local: bool,
    /// The definition carries the attribute keeping it alive.
    pub is_used_attr: bool,
    pub is_reachable_non_generic: bool,
    pub align_bytes: u64,
    /// The type has no interior mutability.
    pub is_freeze: bool,
}

/// The lowering-side fields statics never touch.
pub open spec fn untouched_lowering(a: CodegenCx, b: CodegenCx) -> bool {
    &&& b.dl == a.dl
    &&& b.uninit_threshold == a.uninit_threshold
    &&& b.remapped == a.remapped
}

/// The shape of one global, over mathematical images.
pub open spec fn global_matches(
    g: GlobalDef,
    name: GlobalName,
    ty: TyV,
    addrspace: u32,
    linkage: LlLinkage,
    init: Option<ConstV>,
    constant: bool,
    align: Option<u64>,
    unnamed_addr: bool,
) -> bool {
    &&& g.name == name
    &&& ty_dv(g.ty) == ty
    &&& g.addrspace == addrspace
    &&& g.linkage == linkage
    &&& (match (g.initializer, init) {
        (None, None) => true,
        (Some(c), Some(v)) => const_dv(c) == v,
        _ => false,
    })
    &&& g.constant == constant
    &&& g.align == align
    &&& g.unnamed_addr == unnamed_addr
}

impl CodegenCx {
    /// Appends one fully formed global.
    fn push_global(&mut self, def: GlobalDef) -> (g: usize)
        requires
            old(self).wf(),
            match def.name {
                GlobalName::Local { counter } => counter < old(self).local_name_counter,
                _ => true,
            },
        ensures
            final(self).wf(),
            g == old(self).globals@.len(),
            final(self).globals@ == old(self).globals@.push(def),
            untouched_lowering(*old(self), *final(self)),
            final(self).instances == old(self).instances,
            final(self).const_cstr_cache == old(self).const_cstr_cache,
            final(self).const_globals == old(self).const_globals,
            final(self).statics_to_rauw == old(self).statics_to_rauw,
            final(self).used_statics == old(self).used_statics,
            final(self).compiler_used_statics == old(self).compiler_used_statics,
            final(self).global_debug_metadata == old(self).global_debug_metadata,
            final(self).local_name_counter == old(self).local_name_counter,
    {
        let g = self.globals.len();
        self.globals.push(def);
        g
    }

    /// Declares a global: yields the one already carrying the name, or
    /// makes a bare external declaration of the given type.
    pub fn declare_global(&mut self, name: GlobalName, ty: LowType, addrspace: u32) -> (g:
        usize)
        requires
            old(self).wf(),
            !(name is Local),
            !(name is Blank),
        ensures
            final(self).wf(),
            g < final(self).globals@.len(),
            untouched_lowering(*old(self), *final(self)),
            final(self).instances == old(self).instances,
            final(self).const_cstr_cache == old(self).const_cstr_cache,
            final(self).const_globals == old(self).const_globals,
            final(self).statics_to_rauw == old(self).statics_to_rauw,
            final(self).used_statics == old(self).used_statics,
            final(self).compiler_used_statics == old(self).compiler_used_statics,
            final(self).global_debug_metadata == old(self).global_debug_metadata,
            final(self).local_name_counter == old(self).local_name_counter,
            match find_global(old(self).globals@, name) {
                Some(m) => g == m && *final(self) == *old(self),
                None => {
                    &&& g == old(self).globals@.len()
                    &&& final(self).globals@.len() == old(self).globals@.len() + 1
                    &&& final(self).globals@.subrange(0, old(self).globals@.len() as int)
                        == old(self).globals@
                    &&& global_matches(
                        final(self).globals@[g as int],
                        name,
                        ty_dv(ty),
                        addrspace,
                        LlLinkage::ExternalLinkage,
                        None,
                        false,
                        None,
                        false,
                    )
                    &&& final(self).globals@[g as int].visibility == Visibility::Default
                },
            },
    {
        proof {
            lemma_find_global_props(self.globals@, name);
            assert(self.globals@.len() == self.globals.len());
        }
        match self.find_global_exec(name) {
            Some(m) => m,
            None => {
                let ghost before = self.globals@;
                let g = self.push_global(
                    GlobalDef {
                        name,
                        ty,
                        addrspace,
                        linkage: LlLinkage::ExternalLinkage,
                        visibility: Visibility::Default,
                        initializer: None,
                        constant: false,
                        align: None,
                        unnamed_addr: false,
                    },
                );
                proof {
                    assert(self.globals@.subrange(0, before.len() as int) =~= before);
                }
                g
            },
        }
    }

    /// Defines a global with its full shape; refuses a name already
    /// taken, since one symbol may be defined only once per unit.
    fn define_global(&mut self, def: GlobalDef) -> (r: Option<usize>)
        requires
            old(self).wf(),
            match def.name {
                GlobalName::Local { counter } => counter < old(self).local_name_counter,
                _ => true,
            },
        ensures
            final(self).wf(),
            untouched_lowering(*old(self), *final(self)),
            final(self).instances == old(self).instances,
            final(self).const_cstr_cache == old(self).const_cstr_cache,
            final(self).const_globals == old(self).const_globals,
            final(self).statics_to_rauw == old(self).statics_to_rauw,
            final(self).used_statics == old(self).used_statics,
            final(self).compiler_used_statics == old(self).compiler_used_statics,
            final(self).global_debug_metadata == old(self).global_debug_metadata,
            final(self).local_name_counter == old(self).local_name_counter,
            match find_global(old(self).globals@, def.name) {
                Some(_) => r is None && *final(self) == *old(self),
                None => {
                    &&& r == Some(old(self).globals@.len() as usize)
                    &&& final(self).globals@ == old(self).globals@.push(def)
                },
            },
    {
        proof {
            lemma_find_global_props(self.globals@, def.name);
        }
        match self.find_global_exec(def.name) {
            Some(_) => None,
            None => Some(self.push_global(def)),
        }
    }
}

/// Appending a global does not disturb an existing name's lookup; a new
/// name is found only if the appended global carries it.
pub proof fn lemma_find_global_push(gs: Seq<GlobalDef>, d: GlobalDef, name: GlobalName)
    ensures
        find_global(gs.push(d), name) == (match find_global(gs, name) {
            Some(m) => Some(m),
            None => if d.name == name {
                Some(gs.len() as int)
            } else {
                None
            },
        }),
    decreases gs.len(),
{
    if gs.len() == 0 {
        assert(gs.push(d).drop_first() =~= Seq::<GlobalDef>::empty());
        if d.name != name {
            assert(find_global(Seq::<GlobalDef>::empty(), name) is None);
        }
    } else {
        assert(gs.push(d)[0] == gs[0]);
        assert(gs.push(d).drop_first() =~= gs.drop_first().push(d));
        lemma_find_global_push(gs.drop_first(), d, name);
    }
}

/// Lookups only read names: two tables naming their globals alike agree.
pub proof fn lemma_find_global_same_names(gs1: Seq<GlobalDef>, gs2: Seq<GlobalDef>,
    name: GlobalName)
    requires
        gs1.len() == gs2.len(),
        forall|j: int| 0 <= j < gs1.len() ==> (#[trigger] gs1[j]).name == gs2[j].name,
    ensures
        find_global(gs1, name) == find_global(gs2, name),
    decreases gs1.len(),
{
    if gs1.len() > 0 {
        assert(gs1[0].name == gs2[0].name);
        assert forall|j: int| 0 <= j < gs1.drop_first().len() implies (#[trigger] gs1
            .drop_first()[j]).name == gs2.drop_first()[j].name by {
            assert(gs1.drop_first()[j] == gs1[j + 1]);
            assert(gs2.drop_first()[j] == gs2[j + 1]);
        }
        lemma_find_global_same_names(gs1.drop_first(), gs2.drop_first(), name);
    }
}

impl CodegenCx {
    /// Interns a string constant: one internal, immutable global per
    /// symbol, holding the symbol's bytes with an optional terminator.
    #[verifier::loop_isolation(false)]
    pub fn const_cstr(&mut self, sym: u64, sym_bytes: &[u8], null_terminated: bool) -> (g:
        usize)
        requires
            old(self).wf(),
            old(self).local_name_counter < 0xffff_ffff_ffff_0000,
        ensures
            final(self).wf(),
            untouched_lowering(*old(self), *final(self)),
            final(self).instances == old(self).instances,
            final(self).const_globals == old(self).const_globals,
            final(self).statics_to_rauw == old(self).statics_to_rauw,
            final(self).used_statics == old(self).used_statics,
            final(self).compiler_used_statics == old(self).compiler_used_statics,
            final(self).global_debug_metadata == old(self).global_debug_metadata,
            g < final(self).globals@.len(),
            match id_lookup(old(self).const_cstr_cache@, sym) {
                Some(gid) => g == gid && *final(self) == *old(self),
                None => {
                    &&& g == old(self).globals@.len()
                    &&& final(self).globals@.len() == old(self).globals@.len() + 1
                    &&& final(self).globals@.subrange(0, old(self).globals@.len() as int)
                        == old(self).globals@
                    &&& global_matches(
                        final(self).globals@[g as int],
                        GlobalName::Local { counter: old(self).local_name_counter },
                        TyV::Array {
                            elem: Box::new(TyV::Int { bits: 8 }),
                            len: (sym_bytes@.len() + (if null_terminated {
                                1int
                            } else {
                                0int
                            })) as u64,
                        },
                        crate::types::DATA_ADDRSPACE,
                        LlLinkage::InternalLinkage,
                        Some(
                            ConstV::Bytes {
                                data: sym_bytes@ + (if null_terminated {
                                    seq![0u8]
                                } else {
                                    Seq::<u8>::empty()
                                }),
                            },
                        ),
                        true,
                        None,
                        false,
                    )
                    &&& final(self).const_cstr_cache@ == old(self).const_cstr_cache@.push(
                        (sym, g),
                    )
                    &&& final(self).local_name_counter == old(self).local_name_counter + 1
                },
            },
    {
        let n = self.const_cstr_cache.len();
        let mut j: usize = 0;
        while j < n
            invariant
                n == self.const_cstr_cache.len(),
                j <= n,
                forall|q: int| 0 <= q < j ==> (#[trigger] self.const_cstr_cache@[q].0) != sym,
            decreases n - j,
        {
            if self.const_cstr_cache[j].0 == sym {
                proof {
                    lemma_id_lookup_skip(self.const_cstr_cache@, sym, j as int);
                    let suffix = self.const_cstr_cache@.subrange(
                        j as int,
                        self.const_cstr_cache@.len() as int,
                    );
                    assert(suffix[0] == self.const_cstr_cache@[j as int]);
                }
                return self.const_cstr_cache[j].1;
            }
            j += 1;
        }
        proof {
            lemma_id_lookup_skip(self.const_cstr_cache@, sym, self.const_cstr_cache@.len() as int);
            assert(self.const_cstr_cache@.subrange(
                self.const_cstr_cache@.len() as int,
                self.const_cstr_cache@.len() as int,
            ) =~= Seq::<(u64, usize)>::empty());
        }
        let mut data: Vec<u8> = vstd::slice::slice_to_vec(sym_bytes);
        if null_terminated {
            data.push(0);
        }
        proof {
            assert(data@ =~= sym_bytes@ + (if null_terminated {
                seq![0u8]
            } else {
                Seq::<u8>::empty()
            }));
        }
        let len = data.len();
        let name = self.generate_local_symbol_name();
        let ghost before = self.globals@;
        proof {
            assert(self.globals@.len() == self.globals.len());
        }
        let r = self.define_global(
            GlobalDef {
                name,
                ty: LowType::Array { elem: Box::new(LowType::Int { bits: 8 }), len: len as u64 },
                addrspace: crate::types::DATA_ADDRSPACE,
                linkage: LlLinkage::InternalLinkage,
                visibility: Visibility::Default,
                initializer: Some(Const::Bytes { data }),
                constant: true,
                align: None,
                unnamed_addr: false,
            },
        );
        // A generated name is fresh, so the definition cannot collide.
        let g = match r {
            Some(g) => g,
            None => vstd::pervasive::unreached(),
        };
        proof {
            assert(LowType::Int { bits: 8u32 }.deep_view() == TyV::Int { bits: 8u32 });
            assert(self.globals@.subrange(0, before.len() as int) =~= before);
        }
        self.const_cstr_cache.push((sym, g));
        g
    }

    /// A fresh private global holding one constant, mutable as far as
    /// the target knows.
    #[verifier::loop_isolation(false)]
    pub fn static_addr_of_mut(&mut self, cv: Const, align: u64) -> (g: usize)
        requires
            old(self).wf(),
            old(self).local_name_counter < 0xffff_ffff_ffff_0000,
        ensures
            final(self).wf(),
            untouched_lowering(*old(self), *final(self)),
            final(self).instances == old(self).instances,
            final(self).const_cstr_cache == old(self).const_cstr_cache,
            final(self).const_globals == old(self).const_globals,
            final(self).statics_to_rauw == old(self).statics_to_rauw,
            final(self).used_statics == old(self).used_statics,
            final(self).compiler_used_statics == old(self).compiler_used_statics,
            final(self).global_debug_metadata == old(self).global_debug_metadata,
            final(self).local_name_counter == old(self).local_name_counter + 1,
            g == old(self).globals@.len(),
            final(self).globals@.len() == old(self).globals@.len() + 1,
            final(self).globals@.subrange(0, old(self).globals@.len() as int) == old(
                self,
            ).globals@,
            global_matches(
                final(self).globals@[g as int],
                GlobalName::Local { counter: old(self).local_name_counter },
                crate::consts::const_ty(cv.deep_view()),
                crate::types::DATA_ADDRSPACE,
                LlLinkage::PrivateLinkage,
                Some(cv.deep_view()),
                false,
                Some(align),
                true,
            ),
    {
        let ty = crate::consts::const_type(&cv);
        let name = self.generate_local_symbol_name();
        let ghost before = self.globals@;
        proof {
            assert(self.globals@.len() == self.globals.len());
        }
        let r = self.define_global(
            GlobalDef {
                name,
                ty,
                addrspace: crate::types::DATA_ADDRSPACE,
                linkage: LlLinkage::PrivateLinkage,
                visibility: Visibility::Default,
                initializer: Some(cv),
                constant: false,
                align: Some(align),
                unnamed_addr: true,
            },
        );
        // A generated name is fresh, so the definition cannot collide.
        let g = match r {
            Some(g) => g,
            None => vstd::pervasive::unreached(),
        };
        proof {
            assert(self.globals@.subrange(0, before.len() as int) =~= before);
        }
        g
    }

    /// Interns a constant global: one immutable global per distinct
    /// constant, its alignment upgraded when a later use needs more.
    #[verifier::loop_isolation(false)]
    pub fn static_addr_of(&mut self, cv: Const, align: u64) -> (g: usize)
        requires
            old(self).wf(),
            old(self).local_name_counter < 0xffff_ffff_ffff_0000,
        ensures
            final(self).wf(),
            untouched_lowering(*old(self), *final(self)),
            final(self).instances == old(self).instances,
            final(self).const_cstr_cache == old(self).const_cstr_cache,
            final(self).statics_to_rauw == old(self).statics_to_rauw,
            final(self).used_statics == old(self).used_statics,
            final(self).compiler_used_statics == old(self).compiler_used_statics,
            final(self).global_debug_metadata == old(self).global_debug_metadata,
            g < final(self).globals@.len(),
            match const_lookup(old(self).const_globals@, cv.deep_view()) {
                Some(gid) => {
                    &&& g == gid
                    &&& final(self).const_globals == old(self).const_globals
                    &&& final(self).local_name_counter == old(self).local_name_counter
                    &&& final(self).globals@.len() == old(self).globals@.len()
                    &&& forall|j: int|
                        0 <= j < old(self).globals@.len() && j != g
                            ==> final(self).globals@[j] == old(self).globals@[j]
                    &&& {
                        let was = old(self).globals@[g as int];
                        let now = final(self).globals@[g as int];
                        let cur = match was.align {
                            Some(a) => a,
                            None => 0u64,
                        };
                        &&& now == (GlobalDef { align: now.align, ..was })
                        &&& now.align == (if align > cur {
                            Some(align)
                        } else {
                            was.align
                        })
                    }
                },
                None => {
                    &&& g == old(self).globals@.len()
                    &&& final(self).globals@.len() == old(self).globals@.len() + 1
                    &&& final(self).globals@.subrange(0, old(self).globals@.len() as int)
                        == old(self).globals@
                    &&& global_matches(
                        final(self).globals@[g as int],
                        GlobalName::Local { counter: old(self).local_name_counter },
                        crate::consts::const_ty(cv.deep_view()),
                        crate::types::DATA_ADDRSPACE,
                        LlLinkage::PrivateLinkage,
                        Some(cv.deep_view()),
                        true,
                        Some(align),
                        true,
                    )
                    &&& final(self).const_globals@.len() == old(self).const_globals@.len()
                        + 1
                    &&& final(self).const_globals@.subrange(
                        0,
                        old(self).const_globals@.len() as int,
                    ) == old(self).const_globals@
                    &&& const_dv(final(self).const_globals@.last().0) == cv.deep_view()
                    &&& final(self).const_globals@.last().1 == g
                    &&& final(self).local_name_counter == old(self).local_name_counter + 1
                },
            },
    {
        let n = self.const_globals.len();
        let mut j: usize = 0;
        while j < n
            invariant
                *self == *old(self),
                n == self.const_globals.len(),
                j <= n,
                forall|q: int|
                    0 <= q < j ==> const_dv(#[trigger] self.const_globals@[q].0)
                        != cv.deep_view(),
            decreases n - j,
        {
            if const_eq(&self.const_globals[j].0, &cv) {
                proof {
                    lemma_const_lookup_skip(self.const_globals@, cv.deep_view(), j as int);
                    let suffix = self.const_globals@.subrange(
                        j as int,
                        self.const_globals@.len() as int,
                    );
                    assert(suffix[0] == self.const_globals@[j as int]);
                }
                let gid = self.const_globals[j].1;
                proof {
                    assert(self.const_globals@[j as int].1 < self.globals@.len());
                    assert(self.globals@.len() == self.globals.len());
                }
                // Upgrade the alignment where the same constant is used
                // with a stricter requirement.
                let cur: u64 = match self.globals[gid].align {
                    Some(a) => a,
                    None => 0,
                };
                let ghost before = self.globals@;
                if align > cur {
                    self.globals[gid].align = Some(align);
                }
                proof {
                    assert forall|q: int|
                        0 <= q < self.globals@.len() implies (#[trigger] self.globals@[q]).name
                        == before[q].name by {}
                }
                return gid;
            }
            j += 1;
        }
        proof {
            lemma_const_lookup_skip(self.const_globals@, cv.deep_view(),
                self.const_globals@.len() as int);
            assert(self.const_globals@.subrange(
                self.const_globals@.len() as int,
                self.const_globals@.len() as int,
            ) =~= Seq::<(Const, usize)>::empty());
        }
        let key = crate::consts::const_clone(&cv);
        let gv = self.static_addr_of_mut(cv, align);
        self.globals[gv].constant = true;
        proof {
            assert forall|q: int|
                0 <= q < self.globals@.len() implies (match (#[trigger] self.globals@[q]).name {
                GlobalName::Local { counter } => counter < self.local_name_counter,
                _ => true,
            }) by {}
        }
        let ghost before_cache = self.const_globals@;
        self.const_globals.push((key, gv));
        proof {
            assert(self.const_globals@.subrange(0, before_cache.len() as int)
                =~= before_cache);
        }
        gv
    }
}

/// The fatal configuration error a linkage attribute forces, if any: an
/// unsupported kind, a non-pointer type under the attribute, or a twin
/// symbol already defined.
pub open spec fn linkage_fatal(cx: CodegenCx, desc: StaticDesc) -> Option<Fatal> {
    match desc.linkage_attr {
        None => None,
        Some(l) => if !linkage_supported(l) {
            Some(Fatal::UnsupportedLinkage)
        } else if desc.pointee_llty is None {
            Some(Fatal::LinkageRequiresRawPointer)
        } else if find_global(cx.globals@, GlobalName::ExternWithLinkage { id: desc.sym })
            is Some {
            Some(Fatal::DuplicateSymbol)
        } else {
            None
        },
    }
}

/// The fatal configuration error materializing a static stops on, if
/// any, checked before anything is changed: a thread-local request, a
/// conflicting earlier declaration, or a linkage error on the
/// non-local path.
pub open spec fn static_fatal(cx: CodegenCx, desc: StaticDesc) -> Option<Fatal> {
    let local_path = desc.is_local && !desc.is_foreign;
    if desc.is_thread_local {
        Some(Fatal::ThreadLocalUnsupported)
    } else if local_path {
        match find_global(cx.globals@, GlobalName::Sym { id: desc.sym }) {
            Some(m) => if ty_dv(cx.globals@[m].ty) != ty_dv(desc.llty) {
                Some(Fatal::ConflictingStaticTypes)
            } else {
                None
            },
            None => None,
        }
    } else {
        linkage_fatal(cx, desc)
    }
}

impl CodegenCx {
    /// Declares a symbol under an explicit linkage: the symbol itself is
    /// declared at the pointee's type with the requested linkage, and an
    /// internal twin holding the symbol's address is defined, so that a
    /// symbol discarded at link time reads as null rather than faulting.
    #[verifier::loop_isolation(false)]
    pub fn check_and_apply_linkage(&mut self, desc: &StaticDesc) -> (r: Result<usize, Fatal>)
        requires
            old(self).wf(),
        ensures
            final(self).wf(),
            untouched_lowering(*old(self), *final(self)),
            final(self).instances == old(self).instances,
            final(self).const_cstr_cache == old(self).const_cstr_cache,
            final(self).const_globals == old(self).const_globals,
            final(self).statics_to_rauw == old(self).statics_to_rauw,
            final(self).used_statics == old(self).used_statics,
            final(self).compiler_used_statics == old(self).compiler_used_statics,
            final(self).global_debug_metadata == old(self).global_debug_metadata,
            final(self).local_name_counter == old(self).local_name_counter,
            match linkage_fatal(*old(self), *desc) {
                Some(e) => r == Err::<usize, Fatal>(e) && *final(self) == *old(self),
                None => {
                    &&& r is Ok
                    &&& r->Ok_0 < final(self).globals@.len()
                    &&& (match desc.linkage_attr {
                        None => {
                            &&& final(self).globals@[r->Ok_0 as int].name
                                == (GlobalName::Sym { id: desc.sym })
                            &&& (find_global(
                                old(self).globals@,
                                GlobalName::Sym { id: desc.sym },
                            ) is None ==> global_matches(
                                final(self).globals@[r->Ok_0 as int],
                                GlobalName::Sym { id: desc.sym },
                                ty_dv(desc.llty),
                                crate::types::DATA_ADDRSPACE,
                                LlLinkage::ExternalLinkage,
                                None,
                                false,
                                None,
                                false,
                            ))
                        },
                        Some(l) => {
                            let g1 = (match find_global(
                                old(self).globals@,
                                GlobalName::Sym { id: desc.sym },
                            ) {
                                Some(m) => m,
                                None => old(self).globals@.len() as int,
                            });
                            &&& final(self).globals@[r->Ok_0 as int].name
                                == (GlobalName::ExternWithLinkage { id: desc.sym })
                            &&& ty_dv(final(self).globals@[r->Ok_0 as int].ty) == ty_dv(
                                desc.llty,
                            )
                            &&& final(self).globals@[r->Ok_0 as int].linkage
                                == LlLinkage::InternalLinkage
                            &&& (match final(self).globals@[r->Ok_0 as int].initializer {
                                Some(c) => const_dv(c) == (ConstV::GlobalRef {
                                    id: g1 as usize,
                                }),
                                None => false,
                            })
                            &&& 0 <= g1 < final(self).globals@.len()
                            // The symbol global itself carries the
                            // symbol's name and the requested linkage.
                            &&& final(self).globals@[g1].name == (GlobalName::Sym {
                                id: desc.sym,
                            })
                            &&& final(self).globals@[g1].linkage == linkage_lowered(l)
                            // A fresh symbol global is declared at the
                            // pointee's type, in the data address space.
                            &&& (find_global(
                                old(self).globals@,
                                GlobalName::Sym { id: desc.sym },
                            ) is None ==> ty_dv(final(self).globals@[g1].ty) == ty_dv(
                                desc.pointee_llty->Some_0,
                            ) && final(self).globals@[g1].addrspace
                                == crate::types::DATA_ADDRSPACE)
                        },
                    })
                },
            },
    {
        let linkage = match &desc.linkage_attr {
            None => {
                let ty = ty_clone(&desc.llty);
                let ghost gs0 = self.globals@;
                let g = self.declare_global(GlobalName::Sym { id: desc.sym }, ty,
                    crate::types::DATA_ADDRSPACE);
                proof {
                    lemma_find_global_props(gs0, GlobalName::Sym { id: desc.sym });
                }
                return Ok(g);
            },
            Some(l) => *l,
        };
        // The target's linker knows only these kinds.
        let supported = matches!(
            linkage,
            Linkage::External | Linkage::Private | Linkage::Internal | Linkage::Common
                | Linkage::AvailableExternally | Linkage::LinkOnceAny | Linkage::LinkOnceODR
                | Linkage::WeakAny | Linkage::WeakODR
        );
        if !supported {
            return Err(Fatal::UnsupportedLinkage);
        }
        // Some linkage kinds make a null symbol possible, so the static
        // must be pointer-typed.
        let llty2 = match &desc.pointee_llty {
            None => {
                return Err(Fatal::LinkageRequiresRawPointer);
            },
            Some(t) => ty_clone(t),
        };
        let twin = GlobalName::ExternWithLinkage { id: desc.sym };
        match self.find_global_exec(twin) {
            Some(_) => {
                return Err(Fatal::DuplicateSymbol);
            },
            None => {},
        }
        proof {
            assert(self.globals@.len() == self.globals.len());
        }
        let ghost gs0 = self.globals@;
        let g1 = self.declare_global(GlobalName::Sym { id: desc.sym }, llty2,
            crate::types::DATA_ADDRSPACE);
        self.globals[g1].linkage = linkage_to_llvm(linkage);
        proof {
            assert forall|q: int|
                0 <= q < self.globals@.len() implies (match (#[trigger] self.globals@[q]).name {
                GlobalName::Local { counter } => counter < self.local_name_counter,
                _ => true,
            }) by {}
            lemma_find_global_props(gs0, GlobalName::Sym { id: desc.sym });
            if find_global(gs0, GlobalName::Sym { id: desc.sym }) is None {
                lemma_find_global_push(gs0, self.globals@[g1 as int], twin);
            }
            lemma_find_global_same_names(self.globals@, (if find_global(
                gs0,
                GlobalName::Sym { id: desc.sym },
            ) is None {
                gs0.push(self.globals@[g1 as int])
            } else {
                gs0
            }), twin);
        }
        proof {
            assert(find_global(self.globals@, twin) is None);
        }
        let ty = ty_clone(&desc.llty);
        let def = GlobalDef {
            name: twin,
            ty,
            addrspace: crate::types::DATA_ADDRSPACE,
            linkage: LlLinkage::InternalLinkage,
            visibility: Visibility::Default,
            initializer: Some(Const::GlobalRef { id: g1 }),
            constant: false,
            align: None,
            unnamed_addr: false,
        };
        let ghost gdef = def;
        let ghost gs_before_define = self.globals@;
        proof {
            assert(self.globals@.len() == self.globals.len());
        }
        let r = self.define_global(def);
        match r {
            Some(g2) => {
                proof {
                    assert(self.globals@ == gs_before_define.push(gdef));
                    assert(self.globals@[g2 as int] == gdef);
                    assert(0 <= g1 < gs_before_define.len());
                    assert(self.globals@[g1 as int] == gs_before_define[g1 as int]);
                }
                Ok(g2)
            },
            // The twin's name was checked to be free above.
            None => vstd::pervasive::unreached(),
        }
    }
}

impl CodegenCx {
    /// Materializes the global of one static: the cached identity when
    /// this unit saw it already, a plain declaration for a local
    /// definition (hidden when nothing non-generic can reach it), or the
    /// linkage-checked pair for an external one. Fatal configuration
    /// errors leave the context untouched.
    #[verifier::loop_isolation(false)]
    pub fn get_static(&mut self, desc: &StaticDesc) -> (r: Result<usize, Fatal>)
        requires
            old(self).wf(),
        ensures
            final(self).wf(),
            untouched_lowering(*old(self), *final(self)),
            final(self).const_cstr_cache == old(self).const_cstr_cache,
            final(self).const_globals == old(self).const_globals,
            final(self).statics_to_rauw == old(self).statics_to_rauw,
            final(self).used_statics == old(self).used_statics,
            final(self).compiler_used_statics == old(self).compiler_used_statics,
            final(self).global_debug_metadata == old(self).global_debug_metadata,
            final(self).local_name_counter == old(self).local_name_counter,
            r is Ok ==> r->Ok_0 < final(self).globals@.len(),
            match id_lookup(old(self).instances@, desc.def_id) {
                Some(gid) => r == Ok::<usize, Fatal>(gid) && *final(self) == *old(self),
                None => match static_fatal(*old(self), *desc) {
                    Some(e) => r == Err::<usize, Fatal>(e) && *final(self) == *old(self),
                    None => {
                        &&& r is Ok
                        &&& r->Ok_0 < final(self).globals@.len()
                        &&& final(self).instances@ == old(self).instances@.push(
                            (desc.def_id, r->Ok_0),
                        )
                        &&& (desc.is_local && !desc.is_foreign ==> {
                            &&& final(self).globals@[r->Ok_0 as int].name
                                == (GlobalName::Sym { id: desc.sym })
                            // Fresh or previously declared, the global
                            // carries the descriptor's type: a conflicting
                            // earlier declaration would have aborted.
                            &&& ty_dv(final(self).globals@[r->Ok_0 as int].ty) == ty_dv(
                                desc.llty,
                            )
                            &&& (find_global(
                                old(self).globals@,
                                GlobalName::Sym { id: desc.sym },
                            ) is None ==> final(self).globals@[r->Ok_0 as int].addrspace
                                == crate::types::DATA_ADDRSPACE)
                            &&& (!desc.is_reachable_non_generic
                                ==> final(self).globals@[r->Ok_0 as int].visibility
                                == Visibility::Hidden)
                        })
                        &&& (!(desc.is_local && !desc.is_foreign)
                            && desc.linkage_attr is Some
                            ==> final(self).globals@[r->Ok_0 as int].name
                            == (GlobalName::ExternWithLinkage { id: desc.sym }))
                        &&& (!(desc.is_local && !desc.is_foreign)
                            && desc.linkage_attr is None
                            ==> final(self).globals@[r->Ok_0 as int].name
                            == (GlobalName::Sym { id: desc.sym }))
                    },
                },
            },
    {
        let n = self.instances.len();
        let mut j: usize = 0;
        while j < n
            invariant
                *self == *old(self),
                n == self.instances.len(),
                j <= n,
                forall|q: int| 0 <= q < j ==> (#[trigger] self.instances@[q].0) != desc.def_id,
            decreases n - j,
        {
            if self.instances[j].0 == desc.def_id {
                proof {
                    lemma_id_lookup_skip(self.instances@, desc.def_id, j as int);
                    let suffix = self.instances@.subrange(j as int,
                        self.instances@.len() as int);
                    assert(suffix[0] == self.instances@[j as int]);
                    assert(self.instances@[j as int].1 < self.globals@.len());
                }
                return Ok(self.instances[j].1);
            }
            j += 1;
        }
        proof {
            lemma_id_lookup_skip(self.instances@, desc.def_id, self.instances@.len() as int);
            assert(self.instances@.subrange(
                self.instances@.len() as int,
                self.instances@.len() as int,
            ) =~= Seq::<(u64, usize)>::empty());
        }
        // Fatal configuration errors are unrecoverable: nothing may be
        // half-built when the unit aborts.
        if desc.is_thread_local {
            return Err(Fatal::ThreadLocalUnsupported);
        }
        let g: usize;
        if desc.is_local && !desc.is_foreign {
            let ghost gs0 = self.globals@;
            // An earlier declaration of the same symbol must agree on
            // the type.
            match self.find_global_exec(GlobalName::Sym { id: desc.sym }) {
                Some(m) => {
                    proof {
                        lemma_find_global_props(gs0, GlobalName::Sym { id: desc.sym });
                        assert(self.globals@.len() == self.globals.len());
                    }
                    if !ty_eq(&self.globals[m].ty, &desc.llty) {
                        return Err(Fatal::ConflictingStaticTypes);
                    }
                },
                None => {},
            }
            let ty = ty_clone(&desc.llty);
            g = self.declare_global(GlobalName::Sym { id: desc.sym }, ty,
                crate::types::DATA_ADDRSPACE);
            proof {
                lemma_find_global_props(gs0, GlobalName::Sym { id: desc.sym });
            }
            // A static nothing non-generic can reach stays out of the
            // unit's public face.
            if !desc.is_reachable_non_generic {
                let ghost before = self.globals@;
                self.globals[g].visibility = Visibility::Hidden;
                proof {
                    assert forall|q: int|
                        0 <= q < self.globals@.len() implies (match (#[trigger] self
                        .globals@[q]).name {
                        GlobalName::Local { counter } => counter < self.local_name_counter,
                        _ => true,
                    }) by {}
                }
            }
        } else {
            g = match self.check_and_apply_linkage(desc) {
                Ok(g) => g,
                Err(e) => {
                    return Err(e);
                },
            };
        }
        self.instances.push((desc.def_id, g));
        Ok(g)
    }

    /// Keeps a global alive for the linker: its address, as a byte
    /// pointer, joins the used list.
    pub fn add_used_global(&mut self, g: usize)
        requires
            old(self).wf(),
        ensures
            final(self).wf(),
            *final(self) == (CodegenCx {
                used_statics: final(self).used_statics,
                ..*old(self)
            }),
            final(self).used_statics@.len() == old(self).used_statics@.len() + 1,
            final(self).used_statics@.subrange(0, old(self).used_statics@.len() as int) == old(
                self,
            ).used_statics@,
            const_dv(final(self).used_statics@.last()) == (ConstV::Cast {
                val: Box::new(ConstV::GlobalRef { id: g }),
                ty: TyV::Ptr {
                    pointee: Box::new(TyV::Int { bits: 8 }),
                    addrspace: crate::types::DATA_ADDRSPACE,
                },
            }),
    {
        let ghost before = self.used_statics@;
        let cast = Const::Cast {
            val: Box::new(Const::GlobalRef { id: g }),
            ty: LowType::Ptr {
                pointee: Box::new(LowType::Int { bits: 8 }),
                addrspace: crate::types::DATA_ADDRSPACE,
            },
        };
        proof {
            assert(LowType::Int { bits: 8u32 }.deep_view() == TyV::Int { bits: 8u32 });
            assert(Const::GlobalRef { id: g }.deep_view() == (ConstV::GlobalRef { id: g }));
            assert(LowType::Ptr {
                pointee: Box::new(LowType::Int { bits: 8u32 }),
                addrspace: crate::types::DATA_ADDRSPACE,
            }.deep_view() == (TyV::Ptr {
                pointee: Box::new(TyV::Int { bits: 8u32 }),
                addrspace: crate::types::DATA_ADDRSPACE,
            }));
        }
        self.used_statics.push(cast);
        proof {
            assert(self.used_statics@.subrange(0, before.len() as int) =~= before);
        }
    }

    /// Keeps a global alive for the compiler: its address, as a byte
    /// pointer, joins the compiler-used list.
    pub fn add_compiler_used_global(&mut self, g: usize)
        requires
            old(self).wf(),
        ensures
            final(self).wf(),
            *final(self) == (CodegenCx {
                compiler_used_statics: final(self).compiler_used_statics,
                ..*old(self)
            }),
            final(self).compiler_used_statics@.len() == old(self).compiler_used_statics@.len()
                + 1,
            final(self).compiler_used_statics@.subrange(
                0,
                old(self).compiler_used_statics@.len() as int,
            ) == old(self).compiler_used_statics@,
            const_dv(final(self).compiler_used_statics@.last()) == (ConstV::Cast {
                val: Box::new(ConstV::GlobalRef { id: g }),
                ty: TyV::Ptr {
                    pointee: Box::new(TyV::Int { bits: 8 }),
                    addrspace: crate::types::DATA_ADDRSPACE,
                },
            }),
    {
        let ghost before = self.compiler_used_statics@;
        let cast = Const::Cast {
            val: Box::new(Const::GlobalRef { id: g }),
            ty: LowType::Ptr {
                pointee: Box::new(LowType::Int { bits: 8 }),
                addrspace: crate::types::DATA_ADDRSPACE,
            },
        };
        proof {
            assert(LowType::Int { bits: 8u32 }.deep_view() == TyV::Int { bits: 8u32 });
            assert(Const::GlobalRef { id: g }.deep_view() == (ConstV::GlobalRef { id: g }));
            assert(LowType::Ptr {
                pointee: Box::new(LowType::Int { bits: 8u32 }),
                addrspace: crate::types::DATA_ADDRSPACE,
            }.deep_view() == (TyV::Ptr {
                pointee: Box::new(TyV::Int { bits: 8u32 }),
                addrspace: crate::types::DATA_ADDRSPACE,
            }));
        }
        self.compiler_used_statics.push(cast);
        proof {
            assert(self.compiler_used_statics@.subrange(0, before.len() as int) =~= before);
        }
    }
}

impl CodegenCx {
    /// Serializes one static: encodes its initializer image, materializes
    /// its global, corrects the global's type when the encoded value
    /// disagrees with the declared type (uses are rewritten later), sets
    /// alignment and initializer, attaches the global's debug metadata
    /// once — after the final type is resolved — marks an immutable,
    /// freeze static read-only, and keeps an explicitly used static
    /// alive. An evaluation failure of the initializer was already
    /// reported and leaves everything untouched.
    #[verifier::loop_isolation(false)]
    #[verifier::rlimit(100)]
    #[verifier::spinoff_prover]
    pub fn codegen_static(
        &mut self,
        desc: &StaticDesc,
        init: Option<&crate::encode::MemoryImage>,
        is_mutable: bool,
    ) -> (r: Result<(), Fatal>)
        requires
            old(self).wf(),
            match init {
                Some(img) => img.wf(old(self).dl),
                None => true,
            },
        ensures
            final(self).wf(),
            untouched_lowering(*old(self), *final(self)),
            final(self).const_cstr_cache == old(self).const_cstr_cache,
            final(self).const_globals == old(self).const_globals,
            final(self).compiler_used_statics == old(self).compiler_used_statics,
            final(self).local_name_counter == old(self).local_name_counter,
            match init {
                None => r is Ok && *final(self) == *old(self),
                Some(img) => {
                    let enc = crate::encode::spec_encode(
                        *img,
                        old(self).uninit_threshold,
                        old(self).dl,
                    );
                    &&& (match id_lookup(old(self).instances@, desc.def_id) {
                        Some(_) => r is Ok,
                        None => match static_fatal(*old(self), *desc) {
                            Some(e) => r == Err::<(), Fatal>(e)
                                && *final(self) == *old(self),
                            None => r is Ok,
                        },
                    })
                    &&& (r is Ok ==> {
                        let g = final(self).global_debug_metadata@.last();
                        // Debug metadata is attached exactly once, after
                        // the final type is resolved.
                        &&& final(self).global_debug_metadata@.len()
                            == old(self).global_debug_metadata@.len() + 1
                        &&& final(self).global_debug_metadata@.subrange(
                            0,
                            old(self).global_debug_metadata@.len() as int,
                        ) == old(self).global_debug_metadata@
                        &&& g < final(self).globals@.len()
                        &&& (match final(self).globals@[g as int].initializer {
                            Some(c) => const_dv(c) == enc,
                            None => false,
                        })
                        &&& final(self).globals@[g as int].align == Some(desc.align_bytes)
                        &&& (!is_mutable && desc.is_freeze
                            ==> final(self).globals@[g as int].constant)
                        // The keep-alive attribute appends the global's
                        // byte-pointer cast to the used list, and only it.
                        &&& (desc.is_used_attr ==> final(self).used_statics@.len()
                            == old(self).used_statics@.len() + 1
                            && final(self).used_statics@.subrange(
                            0,
                            old(self).used_statics@.len() as int,
                        ) == old(self).used_statics@ && const_dv(
                            final(self).used_statics@.last(),
                        ) == (ConstV::Cast {
                            val: Box::new(ConstV::GlobalRef { id: g }),
                            ty: TyV::Ptr {
                                pointee: Box::new(TyV::Int { bits: 8 }),
                                addrspace: crate::types::DATA_ADDRSPACE,
                            },
                        }))
                        &&& (!desc.is_used_attr ==> final(self).used_statics
                            == old(self).used_statics)
                        // A value type that disagrees with the declared
                        // type hands the old global's name, linkage and
                        // visibility to a replacement of the value's
                        // type, blanks the old global, and queues the
                        // pair for use rewriting; matching types reuse
                        // the global directly.
                        &&& (crate::consts::const_ty(enc) != ty_dv(desc.llty) ==> {
                            let og = final(self).statics_to_rauw@.last().0;
                            &&& final(self).statics_to_rauw@.len()
                                == old(self).statics_to_rauw@.len() + 1
                            &&& final(self).statics_to_rauw@.subrange(
                                0,
                                old(self).statics_to_rauw@.len() as int,
                            ) == old(self).statics_to_rauw@
                            &&& final(self).statics_to_rauw@.last().1 == g
                            &&& og < final(self).globals@.len()
                            &&& final(self).globals@[og as int].name == GlobalName::Blank
                            &&& ty_dv(final(self).globals@[g as int].ty)
                                == crate::consts::const_ty(enc)
                            &&& final(self).globals@[g as int].addrspace
                                == crate::types::DATA_ADDRSPACE
                            &&& final(self).globals@[g as int].linkage
                                == final(self).globals@[og as int].linkage
                            &&& final(self).globals@[g as int].visibility
                                == final(self).globals@[og as int].visibility
                            &&& (match id_lookup(old(self).instances@, desc.def_id) {
                                Some(g0) => og == g0 && final(self).globals@[g as int].name
                                    == old(self).globals@[g0 as int].name,
                                None => final(self).globals@[g as int].name == (if !(
                                desc.is_local && !desc.is_foreign) && desc.linkage_attr
                                    is Some {
                                    GlobalName::ExternWithLinkage { id: desc.sym }
                                } else {
                                    GlobalName::Sym { id: desc.sym }
                                }),
                            })
                        })
                        &&& (crate::consts::const_ty(enc) == ty_dv(desc.llty) ==> {
                            &&& final(self).statics_to_rauw == old(self).statics_to_rauw
                            &&& (match id_lookup(old(self).instances@, desc.def_id) {
                                Some(g0) => g == g0,
                                None => final(self).globals@[g as int].name == (if !(
                                desc.is_local && !desc.is_foreign) && desc.linkage_attr
                                    is Some {
                                    GlobalName::ExternWithLinkage { id: desc.sym }
                                } else {
                                    GlobalName::Sym { id: desc.sym }
                                }),
                            })
                        })
                    })
                },
            },
    {
        let alloc = match init {
            None => {
                // The evaluation error was already reported.
                return Ok(());
            },
            Some(a) => a,
        };
        let v = crate::encode::const_alloc_to_llvm(&*self, alloc);
        let g0 = match self.get_static(desc) {
            Ok(g) => g,
            Err(e) => {
                return Err(e);
            },
        };
        let mut g = g0;
        let val_llty = crate::consts::const_type(&v);
        if !ty_eq(&val_llty, &desc.llty) {
            // The global was created at the declared type; hand its name
            // to a twin of the value's type and rewrite uses later.
            proof {
                assert(self.globals@.len() == self.globals.len());
            }
            let old_name = self.globals[g].name;
            let old_linkage = self.globals[g].linkage;
            let old_vis = self.globals[g].visibility;
            self.globals[g].name = GlobalName::Blank;
            proof {
                assert forall|q: int|
                    0 <= q < self.globals@.len() implies (match (#[trigger] self
                    .globals@[q]).name {
                    GlobalName::Local { counter } => counter < self.local_name_counter,
                    _ => true,
                }) by {}
            }
            let new_g = self.push_global(
                GlobalDef {
                    name: old_name,
                    ty: val_llty,
                    addrspace: crate::types::DATA_ADDRSPACE,
                    linkage: old_linkage,
                    visibility: old_vis,
                    initializer: None,
                    constant: false,
                    align: None,
                    unnamed_addr: false,
                },
            );
            self.statics_to_rauw.push((g, new_g));
            g = new_g;
        }
        proof {
            assert(self.globals@.len() == self.globals.len());
        }
        self.globals[g].align = Some(desc.align_bytes);
        self.globals[g].initializer = Some(v);
        proof {
            assert forall|q: int|
                0 <= q < self.globals@.len() implies (match (#[trigger] self.globals@[q]).name {
                GlobalName::Local { counter } => counter < self.local_name_counter,
                _ => true,
            }) by {}
        }
        // One metadata attachment, after the final type resolution.
        self.global_debug_metadata.push(g);
        proof {
            assert(self.global_debug_metadata@.subrange(
                0,
                self.global_debug_metadata@.len() - 1,
            ) =~= old(self).global_debug_metadata@);
        }
        // Shared statics without interior mutability live in read-only
        // memory.
        if !is_mutable && desc.is_freeze {
            self.globals[g].constant = true;
            proof {
                assert forall|q: int|
                    0 <= q < self.globals@.len() implies (match (#[trigger] self
                    .globals@[q]).name {
                    GlobalName::Local { counter } => counter < self.local_name_counter,
                    _ => true,
                }) by {}
            }
        }
        if desc.is_used_attr {
            self.add_used_global(g);
        }
        Ok(())
    }
}

} // verus!
