//! The target's concrete low-level type vocabulary.
//!
//! `LowType` is the executable representation; `TyV` is its mathematical
//! image (structurally identical, with `Seq` in place of `Vec`), used by
//! every contract. Sizes are byte counts; an aggregate's size is the sum of
//! its fields' sizes, matching the packed layouts this library emits.

use vstd::prelude::*;

verus! {

broadcast use
    vstd::std_specs::vec::group_vec_axioms,
    vstd::seq::group_seq_axioms,
;

/// A concrete low-level type as the target sees it.
#[derive(Debug)]
pub enum LowType {
    /// No value (the return type of a function returning nothing).
    Void,
    /// An integer of an arbitrary bit width.
    Int { bits: u32 },
    /// A 32-bit float.
    Float32,
    /// A 64-bit float.
    Float64,
    /// A vector of `lanes` elements; stands for register-shaped bits,
    /// not typed SIMD data.
    Vector { elem: Box<LowType>, lanes: u64 },
    /// A pointer into the given address space.
    Ptr { pointee: Box<LowType>, addrspace: u32 },
    /// A fixed-length array.
    Array { elem: Box<LowType>, len: u64 },
    /// A struct; `packed` records whether fields are laid out back to back.
    Struct { fields: Vec<LowType>, packed: bool },
    /// A function type.
    Func { params: Vec<LowType>, ret: Box<LowType>, variadic: bool },
}

/// The mathematical image of a `LowType`.
#[verifier::ext_equal]
pub enum TyV {
    Void,
    Int { bits: u32 },
    Float32,
    Float64,
    Vector { elem: Box<TyV>, lanes: u64 },
    Ptr { pointee: Box<TyV>, addrspace: u32 },
    Array { elem: Box<TyV>, len: u64 },
    Struct { fields: Seq<TyV>, packed: bool },
    Func { params: Seq<TyV>, ret: Box<TyV>, variadic: bool },
}

/// The mathematical image of a concrete type.
pub open spec fn ty_dv(t: LowType) -> TyV
    decreases t, 1int,
{
    match t {
        LowType::Void => TyV::Void,
        LowType::Int { bits } => TyV::Int { bits },
        LowType::Float32 => TyV::Float32,
        LowType::Float64 => TyV::Float64,
        LowType::Vector { elem, lanes } => TyV::Vector {
            elem: Box::new(ty_dv(*elem)),
            lanes,
        },
        LowType::Ptr { pointee, addrspace } => TyV::Ptr {
            pointee: Box::new(ty_dv(*pointee)),
            addrspace,
        },
        LowType::Array { elem, len } => TyV::Array { elem: Box::new(ty_dv(*elem)), len },
        LowType::Struct { fields, packed } => TyV::Struct {
            fields: ty_dv_seq(fields@),
            packed,
        },
        LowType::Func { params, ret, variadic } => TyV::Func {
            params: ty_dv_seq(params@),
            ret: Box::new(ty_dv(*ret)),
            variadic,
        },
    }
}

/// The mathematical image of each type in a list.
pub open spec fn ty_dv_seq(s: Seq<LowType>) -> Seq<TyV>
    decreases s, 0int,
{
    Seq::new(
        s.len(),
        |i: int|
            if 0 <= i < s.len() {
                ty_dv(s[i])
            } else {
                TyV::Void
            },
    )
}

impl DeepView for LowType {
    type V = TyV;

    open spec fn deep_view(&self) -> TyV {
        ty_dv(*self)
    }
}

/// The default data address space.
pub const DATA_ADDRSPACE: u32 = 0;

/// Byte size of a type, counting pointers at `ptr_bytes` (the target's
/// pointer width) and aggregates as the plain sum of their fields.
pub open spec fn size_of(t: TyV, ptr_bytes: nat) -> nat
    decreases t, 1int,
{
    match t {
        TyV::Void => 0,
        TyV::Int { bits } => ((bits + 7) / 8) as nat,
        TyV::Float32 => 4,
        TyV::Float64 => 8,
        TyV::Vector { elem, lanes } => (lanes * size_of(*elem, ptr_bytes)) as nat,
        TyV::Ptr { .. } => ptr_bytes,
        TyV::Array { elem, len } => (len * size_of(*elem, ptr_bytes)) as nat,
        TyV::Struct { fields, .. } => sum_sizes(fields, ptr_bytes),
        TyV::Func { .. } => 0,
    }
}

/// Sum of `size_of` over a field list.
pub open spec fn sum_sizes(fields: Seq<TyV>, ptr_bytes: nat) -> nat
    decreases fields, 0int,
{
    if fields.len() == 0 {
        0
    } else {
        size_of(fields[0], ptr_bytes) + sum_sizes(fields.drop_first(), ptr_bytes)
    }
}

/// Size sums split over concatenation.
pub proof fn lemma_sum_sizes_concat(a: Seq<TyV>, b: Seq<TyV>, ptr_bytes: nat)
    ensures
        sum_sizes(a + b, ptr_bytes) == sum_sizes(a, ptr_bytes) + sum_sizes(b, ptr_bytes),
    decreases a.len(),
{
    if a.len() == 0 {
        assert(a + b =~= b);
    } else {
        assert((a + b).drop_first() =~= a.drop_first() + b);
        assert((a + b)[0] == a[0]);
        lemma_sum_sizes_concat(a.drop_first(), b, ptr_bytes);
    }
}

/// The size sum of `n` copies of one type is `n` times its size.
pub proof fn lemma_sum_sizes_repeat(t: TyV, n: nat, ptr_bytes: nat)
    ensures
        sum_sizes(Seq::new(n, |i: int| t), ptr_bytes) == n * size_of(t, ptr_bytes),
    decreases n,
{
    let s = Seq::new(n, |i: int| t);
    if n == 0 {
    } else {
        lemma_sum_sizes_repeat(t, (n - 1) as nat, ptr_bytes);
        assert(s.drop_first() =~= Seq::new((n - 1) as nat, |i: int| t));
        assert(n * size_of(t, ptr_bytes) == (n - 1) * size_of(t, ptr_bytes) + size_of(
            t,
            ptr_bytes,
        )) by (nonlinear_arith);
    }
}

/// Structural equality on concrete types. The type vocabulary carries no
/// interner, so wherever a pointer-uniquing backend would compare type
/// identities, this comparison decides.
pub fn ty_eq(a: &LowType, b: &LowType) -> (r: bool)
    ensures
        r <==> a.deep_view() == b.deep_view(),
    decreases *a, 1int,
{
    match (a, b) {
        (LowType::Void, LowType::Void) => true,
        (LowType::Int { bits: x }, LowType::Int { bits: y }) => x == y,
        (LowType::Float32, LowType::Float32) => true,
        (LowType::Float64, LowType::Float64) => true,
        (
            LowType::Vector { elem: e1, lanes: l1 },
            LowType::Vector { elem: e2, lanes: l2 },
        ) => l1 == l2 && ty_eq(&**e1, &**e2),
        (
            LowType::Ptr { pointee: p1, addrspace: a1 },
            LowType::Ptr { pointee: p2, addrspace: a2 },
        ) => a1 == a2 && ty_eq(&**p1, &**p2),
        (
            LowType::Array { elem: e1, len: n1 },
            LowType::Array { elem: e2, len: n2 },
        ) => n1 == n2 && ty_eq(&**e1, &**e2),
        (
            LowType::Struct { fields: f1, packed: p1 },
            LowType::Struct { fields: f2, packed: p2 },
        ) => p1 == p2 && ty_vec_eq(f1, f2),
        (
            LowType::Func { params: f1, ret: r1, variadic: v1 },
            LowType::Func { params: f2, ret: r2, variadic: v2 },
        ) => v1 == v2 && ty_eq(&**r1, &**r2) && ty_vec_eq(f1, f2),
        _ => false,
    }
}

/// Elementwise structural equality of two type lists.
pub fn ty_vec_eq(x: &Vec<LowType>, y: &Vec<LowType>) -> (r: bool)
    ensures
        r <==> ty_dv_seq(x@) == ty_dv_seq(y@),
    decreases x@, 0int,
{
    if x.len() != y.len() {
        assert(ty_dv_seq(x@).len() != ty_dv_seq(y@).len());
        return false;
    }
    let n = x.len();
    let mut i: usize = 0;
    while i < n
        invariant
            n == x.len() == y.len(),
            i <= n,
            forall|j: int| 0 <= j < i ==> ty_dv_seq(x@)[j] == ty_dv_seq(y@)[j],
        decreases n - i,
    {
        if !ty_eq(&x[i], &y[i]) {
            proof {
                assert(ty_dv_seq(x@)[i as int] != ty_dv_seq(y@)[i as int]);
                assert(ty_dv_seq(x@) != ty_dv_seq(y@));
            }
            return false;
        }
        i += 1;
    }
    assert(ty_dv_seq(x@) =~= ty_dv_seq(y@));
    true
}

/// A structural copy of a concrete type.
pub fn ty_clone(t: &LowType) -> (r: LowType)
    ensures
        r.deep_view() == t.deep_view(),
    decreases *t, 1int,
{
    match t {
        LowType::Void => LowType::Void,
        LowType::Int { bits } => LowType::Int { bits: *bits },
        LowType::Float32 => LowType::Float32,
        LowType::Float64 => LowType::Float64,
        LowType::Vector { elem, lanes } => LowType::Vector {
            elem: Box::new(ty_clone(&**elem)),
            lanes: *lanes,
        },
        LowType::Ptr { pointee, addrspace } => LowType::Ptr {
            pointee: Box::new(ty_clone(&**pointee)),
            addrspace: *addrspace,
        },
        LowType::Array { elem, len } => LowType::Array {
            elem: Box::new(ty_clone(&**elem)),
            len: *len,
        },
        LowType::Struct { fields, packed } => LowType::Struct {
            fields: ty_vec_clone(fields),
            packed: *packed,
        },
        LowType::Func { params, ret, variadic } => LowType::Func {
            params: ty_vec_clone(params),
            ret: Box::new(ty_clone(&**ret)),
            variadic: *variadic,
        },
    }
}

/// A structural copy of a type list.
pub fn ty_vec_clone(x: &Vec<LowType>) -> (r: Vec<LowType>)
    ensures
        ty_dv_seq(r@) == ty_dv_seq(x@),
    decreases x@, 0int,
{
    let mut r: Vec<LowType> = Vec::new();
    let n = x.len();
    let mut i: usize = 0;
    while i < n
        invariant
            n == x.len(),
            i <= n,
            r.len() == i,
            forall|j: int| 0 <= j < i ==> ty_dv_seq(r@)[j] == ty_dv_seq(x@)[j],
        decreases n - i,
    {
        let c = ty_clone(&x[i]);
        r.push(c);
        i += 1;
    }
    assert(ty_dv_seq(r@) =~= ty_dv_seq(x@));
    r
}

impl Clone for LowType {
    /// A structural copy: the copy has the same mathematical image.
    fn clone(&self) -> (r: Self)
        ensures
            r.deep_view() == self.deep_view(),
    {
        ty_clone(self)
    }
}

} // verus!
