//! Constant values: the expression tree a compile-time memory image is
//! serialized into, and the byte accounting its invariants rest on.
//!
//! A constant's byte length counts pointer fields at the target pointer
//! width; its content maps each byte position to a literal byte or to
//! "unconstrained" (undefined padding and relocated pointer bytes).

use vstd::prelude::*;

use crate::context::CodegenCx;
use crate::types::{LowType, TyV, size_of, ty_dv, ty_eq};

verus! {

broadcast use
    vstd::std_specs::vec::group_vec_axioms,
    vstd::seq::group_seq_axioms,
;

/// What a relocation points at: compiled code, a static, or an anonymous
/// memory allocation.
#[derive(Clone, Copy, PartialEq, Eq, Structural, Debug)]
pub enum AllocTarget {
    Function { id: u64 },
    Static { id: u64 },
    Memory { id: u64 },
}

/// A constant value.
#[derive(Debug)]
pub enum Const {
    /// A literal byte-array chunk.
    Bytes { data: Vec<u8> },
    /// An undefined placeholder of known byte length.
    Undef { len: u64 },
    /// A pointer to another allocation, offset by `addend`, typed into
    /// the given address space.
    PtrReloc { target: AllocTarget, addend: u64, addrspace: u32 },
    /// A struct whose field order is byte order.
    Struct { fields: Vec<Const>, packed: bool },
    /// An array of constants of one element type.
    Array { elem_ty: LowType, elems: Vec<Const> },
    /// The address of a global of this unit.
    GlobalRef { id: usize },
    /// A value reinterpreted at another type.
    Cast { val: Box<Const>, ty: LowType },
}

/// The mathematical image of a constant.
#[verifier::ext_equal]
pub enum ConstV {
    Bytes { data: Seq<u8> },
    Undef { len: u64 },
    PtrReloc { target: AllocTarget, addend: u64, addrspace: u32 },
    Struct { fields: Seq<ConstV>, packed: bool },
    Array { elem_ty: TyV, elems: Seq<ConstV> },
    GlobalRef { id: usize },
    Cast { val: Box<ConstV>, ty: TyV },
}

/// The mathematical image of a constant value.
pub open spec fn const_dv(c: Const) -> ConstV
    decreases c, 1int,
{
    match c {
        Const::Bytes { data } => ConstV::Bytes { data: data@ },
        Const::Undef { len } => ConstV::Undef { len },
        Const::PtrReloc { target, addend, addrspace } => ConstV::PtrReloc {
            target,
            addend,
            addrspace,
        },
        Const::Struct { fields, packed } => ConstV::Struct {
            fields: const_dv_seq(fields@),
            packed,
        },
        Const::Array { elem_ty, elems } => ConstV::Array {
            elem_ty: ty_dv(elem_ty),
            elems: const_dv_seq(elems@),
        },
        Const::GlobalRef { id } => ConstV::GlobalRef { id },
        Const::Cast { val, ty } => ConstV::Cast {
            val: Box::new(const_dv(*val)),
            ty: ty_dv(ty),
        },
    }
}

/// The mathematical image of each constant in a list.
pub open spec fn const_dv_seq(s: Seq<Const>) -> Seq<ConstV>
    decreases s, 0int,
{
    Seq::new(
        s.len(),
        |i: int|
            if 0 <= i < s.len() {
                const_dv(s[i])
            } else {
                ConstV::Undef { len: 0 }
            },
    )
}

impl DeepView for Const {
    type V = ConstV;

    open spec fn deep_view(&self) -> ConstV {
        const_dv(*self)
    }
}

/// Structural equality on constants; the unit's interning caches key by
/// it, where a pointer-uniquing backend would compare constant
/// identities.
pub fn const_eq(a: &Const, b: &Const) -> (r: bool)
    ensures
        r <==> a.deep_view() == b.deep_view(),
    decreases *a, 2int,
{
    match (a, b) {
        (Const::Bytes { data: x }, Const::Bytes { data: y }) => byte_vec_eq(x, y),
        (Const::Undef { len: x }, Const::Undef { len: y }) => x == y,
        (
            Const::PtrReloc { target: t1, addend: a1, addrspace: s1 },
            Const::PtrReloc { target: t2, addend: a2, addrspace: s2 },
        ) => t1 == t2 && a1 == a2 && s1 == s2,
        (
            Const::Struct { fields: f1, packed: p1 },
            Const::Struct { fields: f2, packed: p2 },
        ) => p1 == p2 && const_vec_eq(f1, f2),
        (
            Const::Array { elem_ty: t1, elems: e1 },
            Const::Array { elem_ty: t2, elems: e2 },
        ) => ty_eq(t1, t2) && const_vec_eq(e1, e2),
        (Const::GlobalRef { id: x }, Const::GlobalRef { id: y }) => x == y,
        (Const::Cast { val: v1, ty: t1 }, Const::Cast { val: v2, ty: t2 }) => ty_eq(t1, t2)
            && const_eq(&**v1, &**v2),
        _ => false,
    }
}

/// Elementwise equality of two byte lists.
fn byte_vec_eq(x: &Vec<u8>, y: &Vec<u8>) -> (r: bool)
    ensures
        r <==> x@ == y@,
{
    if x.len() != y.len() {
        return false;
    }
    let n = x.len();
    let mut i: usize = 0;
    while i < n
        invariant
            n == x.len() == y.len(),
            i <= n,
            forall|j: int| 0 <= j < i ==> x@[j] == y@[j],
        decreases n - i,
    {
        if x[i] != y[i] {
            return false;
        }
        i += 1;
    }
    assert(x@ =~= y@);
    true
}

/// Elementwise structural equality of two constant lists.
pub fn const_vec_eq(x: &Vec<Const>, y: &Vec<Const>) -> (r: bool)
    ensures
        r <==> const_dv_seq(x@) == const_dv_seq(y@),
    decreases x@, 0int,
{
    if x.len() != y.len() {
        assert(const_dv_seq(x@).len() != const_dv_seq(y@).len());
        return false;
    }
    let n = x.len();
    let mut i: usize = 0;
    while i < n
        invariant
            n == x.len() == y.len(),
            i <= n,
            forall|j: int| 0 <= j < i ==> const_dv_seq(x@)[j] == const_dv_seq(y@)[j],
        decreases n - i,
    {
        if !const_eq(&x[i], &y[i]) {
            proof {
                assert(const_dv_seq(x@)[i as int] != const_dv_seq(y@)[i as int]);
                assert(const_dv_seq(x@) != const_dv_seq(y@));
            }
            return false;
        }
        i += 1;
    }
    assert(const_dv_seq(x@) =~= const_dv_seq(y@));
    true
}

/// The byte length of one constant field, pointers counted at the target
/// pointer width.
pub open spec fn const_len(c: ConstV, ptr_bytes: nat) -> nat
    decreases c, 1int,
{
    match c {
        ConstV::Bytes { data } => data.len(),
        ConstV::Undef { len } => len as nat,
        ConstV::PtrReloc { .. } => ptr_bytes,
        ConstV::Struct { fields, .. } => sum_const_lens(fields, ptr_bytes),
        ConstV::Array { elems, .. } => sum_const_lens(elems, ptr_bytes),
        ConstV::GlobalRef { .. } => ptr_bytes,
        ConstV::Cast { ty, .. } => size_of(ty, ptr_bytes),
    }
}

/// The summed byte length of a field list.
pub open spec fn sum_const_lens(fields: Seq<ConstV>, ptr_bytes: nat) -> nat
    decreases fields, 0int,
{
    if fields.len() == 0 {
        0
    } else {
        const_len(fields[0], ptr_bytes) + sum_const_lens(fields.drop_first(), ptr_bytes)
    }
}

/// Length sums split over concatenation.
pub proof fn lemma_sum_const_lens_concat(a: Seq<ConstV>, b: Seq<ConstV>, ptr_bytes: nat)
    ensures
        sum_const_lens(a + b, ptr_bytes) == sum_const_lens(a, ptr_bytes) + sum_const_lens(
            b,
            ptr_bytes,
        ),
    decreases a.len(),
{
    if a.len() == 0 {
        assert(a + b =~= b);
    } else {
        assert((a + b).drop_first() =~= a.drop_first() + b);
        assert((a + b)[0] == a[0]);
        lemma_sum_const_lens_concat(a.drop_first(), b, ptr_bytes);
    }
}

/// The content of one constant field: a literal byte per position of a
/// byte chunk, unconstrained everywhere else.
pub open spec fn const_content(c: ConstV, ptr_bytes: nat) -> Seq<Option<u8>>
    decreases c, 1int,
{
    match c {
        ConstV::Bytes { data } => Seq::new(data.len(), |i: int| Some(data[i])),
        ConstV::Undef { len } => Seq::new(len as nat, |i: int| None),
        ConstV::PtrReloc { .. } => Seq::new(ptr_bytes, |i: int| None),
        ConstV::Struct { fields, .. } => fields_content(fields, ptr_bytes),
        ConstV::Array { elems, .. } => fields_content(elems, ptr_bytes),
        ConstV::GlobalRef { .. } => Seq::new(ptr_bytes, |i: int| None),
        ConstV::Cast { ty, .. } => Seq::new(size_of(ty, ptr_bytes), |i: int| None),
    }
}

/// The concatenated content of a field list.
pub open spec fn fields_content(fields: Seq<ConstV>, ptr_bytes: nat) -> Seq<Option<u8>>
    decreases fields, 0int,
{
    if fields.len() == 0 {
        Seq::empty()
    } else {
        const_content(fields[0], ptr_bytes) + fields_content(fields.drop_first(), ptr_bytes)
    }
}

/// Content concatenation follows field concatenation.
pub proof fn lemma_fields_content_concat(a: Seq<ConstV>, b: Seq<ConstV>, ptr_bytes: nat)
    ensures
        fields_content(a + b, ptr_bytes) == fields_content(a, ptr_bytes) + fields_content(
            b,
            ptr_bytes,
        ),
    decreases a.len(),
{
    if a.len() == 0 {
        assert(a + b =~= b);
        assert(fields_content(a, ptr_bytes) + fields_content(b, ptr_bytes) =~= fields_content(
            b,
            ptr_bytes,
        ));
    } else {
        assert((a + b).drop_first() =~= a.drop_first() + b);
        assert((a + b)[0] == a[0]);
        lemma_fields_content_concat(a.drop_first(), b, ptr_bytes);
        vstd::seq_lib::lemma_concat_associative(
            const_content(a[0], ptr_bytes),
            fields_content(a.drop_first(), ptr_bytes),
            fields_content(b, ptr_bytes),
        );
    }
}

/// A literal string of bytes as a constant value.
pub fn bytes_in_context(bytes: &[u8]) -> (r: Const)
    ensures
        r.deep_view() == (ConstV::Bytes { data: bytes@ }),
{
    Const::Bytes { data: vstd::slice::slice_to_vec(bytes) }
}

impl CodegenCx {
    /// An array constant of the given element type.
    pub fn const_array(&self, ty: &LowType, elts: Vec<Const>) -> (r: Const)
        ensures
            r.deep_view() == (ConstV::Array {
                elem_ty: ty.deep_view(),
                elems: const_dv_seq(elts@),
            }),
    {
        Const::Array { elem_ty: crate::types::ty_clone(ty), elems: elts }
    }

    /// A literal byte-array constant.
    pub fn const_bytes(&self, bytes: &[u8]) -> (r: Const)
        ensures
            r.deep_view() == (ConstV::Bytes { data: bytes@ }),
    {
        bytes_in_context(bytes)
    }

    /// A constant reinterpreted at another type.
    pub fn const_bitcast(&self, val: Const, ty: LowType) -> (r: Const)
        ensures
            r.deep_view() == (ConstV::Cast {
                val: Box::new(val.deep_view()),
                ty: ty.deep_view(),
            }),
    {
        Const::Cast { val: Box::new(val), ty }
    }
}

/// The concrete type a constant value carries: byte chunks and undefined
/// placeholders are byte arrays, pointers are byte pointers into their
/// address space, aggregates follow their elements.
pub open spec fn const_ty(c: ConstV) -> TyV
    decreases c, 1int,
{
    match c {
        ConstV::Bytes { data } => TyV::Array {
            elem: Box::new(TyV::Int { bits: 8 }),
            len: data.len() as u64,
        },
        ConstV::Undef { len } => TyV::Array { elem: Box::new(TyV::Int { bits: 8 }), len },
        ConstV::PtrReloc { addrspace, .. } => TyV::Ptr {
            pointee: Box::new(TyV::Int { bits: 8 }),
            addrspace,
        },
        ConstV::Struct { fields, packed } => TyV::Struct {
            fields: const_tys(fields),
            packed,
        },
        ConstV::Array { elem_ty, elems } => TyV::Array {
            elem: Box::new(elem_ty),
            len: elems.len() as u64,
        },
        ConstV::GlobalRef { .. } => TyV::Ptr {
            pointee: Box::new(TyV::Int { bits: 8 }),
            addrspace: crate::types::DATA_ADDRSPACE,
        },
        ConstV::Cast { ty, .. } => ty,
    }
}

/// The types of a field list's constants.
pub open spec fn const_tys(fields: Seq<ConstV>) -> Seq<TyV>
    decreases fields, 0int,
{
    Seq::new(
        fields.len(),
        |i: int|
            if 0 <= i < fields.len() {
                const_ty(fields[i])
            } else {
                TyV::Void
            },
    )
}

/// Computes the concrete type of a constant value.
pub fn const_type(c: &Const) -> (r: LowType)
    ensures
        r.deep_view() == const_ty(c.deep_view()),
    decreases *c, 2int,
{
    match c {
        Const::Bytes { data } => {
            let n = data.len();
            proof {
                assert(LowType::Int { bits: 8u32 }.deep_view() == TyV::Int { bits: 8u32 });
                assert(n == data@.len());
                assert(n as u64 == data@.len() as u64);
            }
            LowType::Array { elem: Box::new(LowType::Int { bits: 8 }), len: n as u64 }
        },
        Const::Undef { len } => {
            proof {
                assert(LowType::Int { bits: 8u32 }.deep_view() == TyV::Int { bits: 8u32 });
            }
            LowType::Array { elem: Box::new(LowType::Int { bits: 8 }), len: *len }
        },
        Const::PtrReloc { addrspace, .. } => {
            proof {
                assert(LowType::Int { bits: 8u32 }.deep_view() == TyV::Int { bits: 8u32 });
            }
            LowType::Ptr { pointee: Box::new(LowType::Int { bits: 8 }), addrspace: *addrspace }
        },
        Const::Struct { fields, packed } => {
            let tys = const_type_vec(fields);
            LowType::Struct { fields: tys, packed: *packed }
        },
        Const::Array { elem_ty, elems } => {
            let n = elems.len();
            proof {
                assert(n == elems@.len());
                assert(n as u64 == elems@.len() as u64);
                assert(const_dv_seq(elems@).len() == elems@.len());
            }
            LowType::Array { elem: Box::new(crate::types::ty_clone(elem_ty)), len: n as u64 }
        },
        Const::GlobalRef { .. } => {
            proof {
                assert(LowType::Int { bits: 8u32 }.deep_view() == TyV::Int { bits: 8u32 });
            }
            LowType::Ptr {
                pointee: Box::new(LowType::Int { bits: 8 }),
                addrspace: crate::types::DATA_ADDRSPACE,
            }
        },
        Const::Cast { ty, .. } => crate::types::ty_clone(ty),
    }
}

/// Computes the types of a constant list's elements.
fn const_type_vec(fields: &Vec<Const>) -> (r: Vec<LowType>)
    ensures
        crate::types::ty_dv_seq(r@) == const_tys(const_dv_seq(fields@)),
    decreases fields@, 1int,
{
    let ghost goal = const_tys(const_dv_seq(fields@));
    let mut r: Vec<LowType> = Vec::new();
    let n = fields.len();
    let mut i: usize = 0;
    while i < n
        invariant
            n == fields.len(),
            i <= n,
            r@.len() == i,
            goal == const_tys(const_dv_seq(fields@)),
            goal.len() == n,
            crate::types::ty_dv_seq(r@) =~= goal.subrange(0, i as int),
        decreases n - i,
    {
        let t = const_type(&fields[i]);
        let ghost before = r@;
        r.push(t);
        proof {
            assert(const_dv_seq(fields@)[i as int] == const_dv(fields@[i as int]));
            assert(goal[i as int] == const_ty(const_dv(fields@[i as int])));
            assert(crate::types::ty_dv_seq(r@) =~= crate::types::ty_dv_seq(before).push(
                const_ty(const_dv(fields@[i as int])),
            ));
            assert(goal.subrange(0, i + 1) =~= goal.subrange(0, i as int).push(
                goal[i as int],
            ));
        }
        i += 1;
    }
    proof {
        assert(goal.subrange(0, n as int) =~= goal);
    }
    r
}

/// A structural copy of a constant value.
pub fn const_clone(c: &Const) -> (r: Const)
    ensures
        r.deep_view() == c.deep_view(),
    decreases *c, 2int,
{
    match c {
        Const::Bytes { data } => Const::Bytes { data: vstd::slice::slice_to_vec(data.as_slice()) },
        Const::Undef { len } => Const::Undef { len: *len },
        Const::PtrReloc { target, addend, addrspace } => Const::PtrReloc {
            target: *target,
            addend: *addend,
            addrspace: *addrspace,
        },
        Const::Struct { fields, packed } => Const::Struct {
            fields: const_vec_clone(fields),
            packed: *packed,
        },
        Const::Array { elem_ty, elems } => Const::Array {
            elem_ty: crate::types::ty_clone(elem_ty),
            elems: const_vec_clone(elems),
        },
        Const::GlobalRef { id } => Const::GlobalRef { id: *id },
        Const::Cast { val, ty } => Const::Cast {
            val: Box::new(const_clone(&**val)),
            ty: crate::types::ty_clone(ty),
        },
    }
}

/// A structural copy of a constant list.
fn const_vec_clone(x: &Vec<Const>) -> (r: Vec<Const>)
    ensures
        const_dv_seq(r@) == const_dv_seq(x@),
    decreases x@, 1int,
{
    let mut r: Vec<Const> = Vec::new();
    let n = x.len();
    let mut i: usize = 0;
    while i < n
        invariant
            n == x.len(),
            i <= n,
            r.len() == i,
            forall|j: int| 0 <= j < i ==> const_dv_seq(r@)[j] == const_dv_seq(x@)[j],
        decreases n - i,
    {
        let c = const_clone(&x[i]);
        r.push(c);
        i += 1;
    }
    assert(const_dv_seq(r@) =~= const_dv_seq(x@));
    r
}

} // verus!
