//! The cast-target builder: a multi-register aggregate-passing strategy
//! becomes one concrete type.
//!
//! Three ordered simplification tiers: with no prefix and a total within
//! one rest unit, the bare unit type; with no prefix and a total the unit
//! divides evenly, an array of the unit; otherwise a struct of the present
//! prefix chunks, the whole rest units, and — when a sub-unit remainder is
//! left — one trailing integer sized to the remainder, which is only legal
//! for an integer-kind unit. Identical inputs give structurally identical
//! outputs, since lowered types later serve as cache keys.

use vstd::prelude::*;

use crate::Fatal;
use crate::reg::{MAX_REG_BYTES, Reg, RegKind, lowered_dv, reg_lowered, lemma_reg_lowered_size};
use crate::types::{
    LowType, TyV, size_of, sum_sizes, ty_clone, ty_dv, ty_dv_seq, lemma_sum_sizes_concat,
    lemma_sum_sizes_repeat,
};

verus! {

broadcast use
    vstd::std_specs::vec::group_vec_axioms,
    vstd::seq::group_seq_axioms,
;

/// The largest total byte size a cast target may declare.
pub const MAX_CAST_BYTES: u64 = 1048576;

/// A multi-register passing strategy: optional prefix chunks of one fixed
/// size, then a repeating rest unit filling `rest_total_bytes`.
#[derive(Clone, Debug)]
pub struct CastTarget {
    /// At most eight optional leading chunks, each of `prefix_chunk_bytes`.
    pub prefix: Vec<Option<RegKind>>,
    /// The byte size shared by every present prefix chunk.
    pub prefix_chunk_bytes: u64,
    /// The repeating unit that covers the rest of the value.
    pub rest_unit: Reg,
    /// How many bytes the rest units (plus any remainder) cover.
    pub rest_total_bytes: u64,
}

/// No prefix chunk is present.
pub open spec fn all_prefix_none(s: Seq<Option<RegKind>>) -> bool {
    forall|i: int| 0 <= i < s.len() ==> s[i] is None
}

/// How many prefix chunks are present from index `i` on.
pub open spec fn count_present_from(s: Seq<Option<RegKind>>, i: int) -> nat
    decreases s.len() - i,
{
    if i < 0 || i >= s.len() {
        0
    } else {
        (if s[i] is Some {
            1nat
        } else {
            0nat
        }) + count_present_from(s, i + 1)
    }
}

impl CastTarget {
    /// Structural bounds the model needs: a sound rest unit, a bounded
    /// prefix, and byte counts small enough for the machine integers
    /// that carry derived bit widths.
    pub open spec fn wf(self) -> bool {
        &&& self.rest_unit.wf()
        &&& self.prefix.len() <= 8
        &&& self.prefix_chunk_bytes <= MAX_REG_BYTES
        &&& (!all_prefix_none(self.prefix@) ==> 1 <= self.prefix_chunk_bytes)
        &&& self.rest_total_bytes <= MAX_CAST_BYTES
    }

    /// The declared total: bytes of the present prefix chunks plus the
    /// rest bytes.
    pub open spec fn total_bytes(self) -> nat {
        (count_present_from(self.prefix@, 0) * self.prefix_chunk_bytes
            + self.rest_total_bytes) as nat
    }

    /// How many whole rest units fit.
    pub open spec fn rest_count(self) -> nat {
        (self.rest_total_bytes / self.rest_unit.size_bytes) as nat
    }

    /// The bytes left after the whole rest units.
    pub open spec fn rem_bytes(self) -> nat {
        (self.rest_total_bytes % self.rest_unit.size_bytes) as nat
    }
}

/// The types of the present prefix chunks from index `i` on, or the fatal
/// error the first ill chunk stops on.
pub open spec fn prefix_tys(s: Seq<Option<RegKind>>, chunk: u64, i: int) -> Result<
    Seq<TyV>,
    Fatal,
>
    decreases s.len() - i,
{
    if i < 0 || i >= s.len() {
        Ok(Seq::empty())
    } else {
        match s[i] {
            None => prefix_tys(s, chunk, i + 1),
            Some(kind) => match reg_lowered(Reg { kind, size_bytes: chunk }) {
                Err(e) => Err(e),
                Ok(t) => match prefix_tys(s, chunk, i + 1) {
                    Err(e) => Err(e),
                    Ok(rest) => Ok(seq![t] + rest),
                },
            },
        }
    }
}

/// The field list of the general (struct) tier: present prefix chunks,
/// whole rest units, then the remainder integer if one is needed.
pub open spec fn cast_fields(ct: CastTarget) -> Result<Seq<TyV>, Fatal> {
    match reg_lowered(ct.rest_unit) {
        Err(e) => Err(e),
        Ok(unit_ty) => match prefix_tys(ct.prefix@, ct.prefix_chunk_bytes, 0) {
            Err(e) => Err(e),
            Ok(pre) => {
                let body = pre + Seq::new(ct.rest_count(), |i: int| unit_ty);
                if ct.rem_bytes() == 0 {
                    Ok(body)
                } else if ct.rest_unit.kind is Integer {
                    Ok(body.push(TyV::Int { bits: (8 * ct.rem_bytes()) as u32 }))
                } else {
                    Err(Fatal::NonIntegerRemainder)
                }
            },
        },
    }
}

/// What the cast-target builder yields, or the fatal error it stops on.
pub open spec fn cast_lowered(ct: CastTarget) -> Result<TyV, Fatal> {
    match reg_lowered(ct.rest_unit) {
        Err(e) => Err(e),
        Ok(unit_ty) => if all_prefix_none(ct.prefix@) && ct.rest_total_bytes
            <= ct.rest_unit.size_bytes {
            Ok(unit_ty)
        } else if all_prefix_none(ct.prefix@) && ct.rem_bytes() == 0 {
            Ok(TyV::Array { elem: Box::new(unit_ty), len: ct.rest_count() as u64 })
        } else {
            match cast_fields(ct) {
                Err(e) => Err(e),
                Ok(fields) => Ok(TyV::Struct { fields, packed: false }),
            }
        },
    }
}

impl CastTarget {
    /// Builds the one concrete type that carries this passing strategy;
    /// fatal on a float chunk of unsupported width and on a sub-unit
    /// remainder behind a non-integer unit.
    pub fn lower(&self) -> (r: Result<LowType, Fatal>)
        requires
            self.wf(),
        ensures
            lowered_dv(r) == cast_lowered(*self),
    {
        let unit_lt = match self.rest_unit.lower() {
            Err(e) => {
                return Err(e);
            },
            Ok(t) => t,
        };
        let unit_size = self.rest_unit.size_bytes;
        let rest_count: u64 = self.rest_total_bytes / unit_size;
        let rem_bytes: u64 = self.rest_total_bytes % unit_size;

        let mut all_none = true;
        let plen = self.prefix.len();
        let mut i: usize = 0;
        while i < plen
            invariant
                plen == self.prefix.len(),
                i <= plen,
                all_none <==> (forall|j: int| 0 <= j < i ==> self.prefix@[j] is None),
            decreases plen - i,
        {
            if self.prefix[i].is_some() {
                all_none = false;
            }
            i += 1;
        }

        if all_none {
            // Simplify to one bare unit when the whole value fits in it.
            if self.rest_total_bytes <= unit_size {
                return Ok(unit_lt);
            }
            // Simplify to an array when the unit divides the total evenly.
            if rem_bytes == 0 {
                return Ok(LowType::Array { elem: Box::new(unit_lt), len: rest_count });
            }
        }

        let mut fields: Vec<LowType> = Vec::new();
        let mut i: usize = 0;
        while i < plen
            invariant
                plen == self.prefix.len(),
                i <= plen,
                self.wf(),
                prefix_tys(self.prefix@, self.prefix_chunk_bytes, 0) == (match prefix_tys(
                    self.prefix@,
                    self.prefix_chunk_bytes,
                    i as int,
                ) {
                    Err(e) => Err(e),
                    Ok(rest) => Ok::<Seq<TyV>, Fatal>(ty_dv_seq(fields@) + rest),
                }),
            decreases plen - i,
        {
            match self.prefix[i] {
                None => {},
                Some(kind) => {
                    let reg = Reg { kind, size_bytes: self.prefix_chunk_bytes };
                    match reg.lower() {
                        Err(e) => {
                            return Err(e);
                        },
                        Ok(t) => {
                            let ghost old_fields = fields@;
                            fields.push(t);
                            proof {
                                assert(ty_dv_seq(fields@) =~= ty_dv_seq(old_fields).push(
                                    ty_dv(t),
                                ));
                                if prefix_tys(
                                    self.prefix@,
                                    self.prefix_chunk_bytes,
                                    i + 1,
                                ) is Ok {
                                    let rest = prefix_tys(
                                        self.prefix@,
                                        self.prefix_chunk_bytes,
                                        i + 1,
                                    )->Ok_0;
                                    assert(ty_dv_seq(old_fields) + (seq![ty_dv(t)] + rest)
                                        =~= ty_dv_seq(fields@) + rest);
                                }
                            }
                        },
                    }
                },
            }
            i += 1;
        }

        let ghost pre_fields = ty_dv_seq(fields@);
        let ghost unit_tyv = ty_dv(unit_lt);
        let mut k: u64 = 0;
        while k < rest_count
            invariant
                k <= rest_count,
                ty_dv_seq(fields@) =~= pre_fields + Seq::new(k as nat, |i: int| unit_tyv),
                unit_tyv == ty_dv(unit_lt),
            decreases rest_count - k,
        {
            let ghost old_fields = fields@;
            let c = ty_clone(&unit_lt);
            fields.push(c);
            proof {
                assert(ty_dv_seq(fields@) =~= ty_dv_seq(old_fields).push(unit_tyv));
                assert(ty_dv_seq(old_fields).push(unit_tyv) =~= pre_fields + Seq::new(
                    (k + 1) as nat,
                    |i: int| unit_tyv,
                ));
            }
            k += 1;
        }

        // Only an integer unit can be split below its own width.
        if rem_bytes != 0 {
            if !matches!(self.rest_unit.kind, RegKind::Integer) {
                return Err(Fatal::NonIntegerRemainder);
            }
            let ghost old_fields = fields@;
            fields.push(LowType::Int { bits: (8 * rem_bytes) as u32 });
            proof {
                assert(ty_dv_seq(fields@) =~= ty_dv_seq(old_fields).push(
                    TyV::Int { bits: (8 * rem_bytes) as u32 },
                ));
            }
        }

        proof {
            assert(ty_dv_seq(fields@) =~= cast_fields(*self)->Ok_0);
        }
        Ok(LowType::Struct { fields, packed: false })
    }
}

impl CastTarget {
    /// The declared total, computed: present prefix chunks plus rest.
    pub fn total(&self) -> (r: u64)
        requires
            self.wf(),
        ensures
            r == self.total_bytes(),
    {
        let plen = self.prefix.len();
        let mut count: u64 = 0;
        let mut i: usize = 0;
        while i < plen
            invariant
                plen == self.prefix.len() <= 8,
                i <= plen,
                count == count_present_from(self.prefix@, 0) - count_present_from(
                    self.prefix@,
                    i as int,
                ),
                count <= i,
            decreases plen - i,
        {
            if self.prefix[i].is_some() {
                count = count + 1;
            }
            i += 1;
        }
        proof {
            assert(count_present_from(self.prefix@, plen as int) == 0);
            assert(count * self.prefix_chunk_bytes <= 8 * MAX_REG_BYTES) by (nonlinear_arith)
                requires
                    0 <= count <= 8,
                    0 <= self.prefix_chunk_bytes <= MAX_REG_BYTES,
            ;
        }
        count * self.prefix_chunk_bytes + self.rest_total_bytes
    }
}

impl CastTarget {
    /// The cast type's alignment: each register chunk is naturally
    /// aligned to its own width in this model, so the cast type aligns
    /// to its widest chunk.
    pub open spec fn align_bytes(self) -> u64 {
        if !all_prefix_none(self.prefix@) && self.prefix_chunk_bytes
            > self.rest_unit.size_bytes {
            self.prefix_chunk_bytes
        } else {
            self.rest_unit.size_bytes
        }
    }

    /// Computes the cast type's alignment.
    pub fn align(&self) -> (r: u64)
        requires
            self.wf(),
        ensures
            r == self.align_bytes(),
    {
        let mut any_present = false;
        let plen = self.prefix.len();
        let mut i: usize = 0;
        while i < plen
            invariant
                plen == self.prefix.len(),
                i <= plen,
                any_present <==> !(forall|j: int| 0 <= j < i ==> self.prefix@[j] is None),
            decreases plen - i,
        {
            if self.prefix[i].is_some() {
                any_present = true;
            }
            i += 1;
        }
        if any_present && self.prefix_chunk_bytes > self.rest_unit.size_bytes {
            self.prefix_chunk_bytes
        } else {
            self.rest_unit.size_bytes
        }
    }
}

/// The lowered type of a well-formed cast target covers exactly the
/// declared total byte size. The one family of inputs left out is the
/// bare-unit tier with a total strictly under the unit's width, where the
/// returned unit type is by design the wider of the two.
pub proof fn lemma_cast_lowered_size(ct: CastTarget, ptr_bytes: nat)
    requires
        ct.wf(),
        cast_lowered(ct) is Ok,
        !(all_prefix_none(ct.prefix@) && ct.rest_total_bytes < ct.rest_unit.size_bytes),
    ensures
        size_of(cast_lowered(ct)->Ok_0, ptr_bytes) == ct.total_bytes(),
{
    let unit = ct.rest_unit;
    let unit_ty = reg_lowered(unit)->Ok_0;
    lemma_reg_lowered_size(unit, ptr_bytes);
    vstd::arithmetic::div_mod::lemma_fundamental_div_mod(
        ct.rest_total_bytes as int,
        unit.size_bytes as int,
    );
    if all_prefix_none(ct.prefix@) {
        lemma_count_present_all_none(ct.prefix@, 0);
    }
    if all_prefix_none(ct.prefix@) && ct.rest_total_bytes <= unit.size_bytes {
        assert(ct.rest_total_bytes == unit.size_bytes);
    } else if all_prefix_none(ct.prefix@) && ct.rem_bytes() == 0 {
        assert(size_of(cast_lowered(ct)->Ok_0, ptr_bytes) == ct.rest_count() * size_of(
            unit_ty,
            ptr_bytes,
        ));
    } else {
        let pre = prefix_tys(ct.prefix@, ct.prefix_chunk_bytes, 0)->Ok_0;
        lemma_prefix_tys_sum(ct.prefix@, ct.prefix_chunk_bytes, 0, ptr_bytes);
        let reps = Seq::new(ct.rest_count(), |i: int| unit_ty);
        lemma_sum_sizes_concat(pre, reps, ptr_bytes);
        lemma_sum_sizes_repeat(unit_ty, ct.rest_count(), ptr_bytes);
        let body = pre + reps;
        if ct.rem_bytes() == 0 {
        } else {
            let rem_ty = TyV::Int { bits: (8 * ct.rem_bytes()) as u32 };
            assert(size_of(rem_ty, ptr_bytes) == ct.rem_bytes()) by {
                assert(ct.rem_bytes() < unit.size_bytes);
                assert((8 * ct.rem_bytes()) as u32 == 8 * ct.rem_bytes());
            };
            assert(body.push(rem_ty) =~= body + seq![rem_ty]);
            lemma_sum_sizes_concat(body, seq![rem_ty], ptr_bytes);
            assert(sum_sizes(seq![rem_ty], ptr_bytes) == size_of(rem_ty, ptr_bytes)) by {
                assert(seq![rem_ty].drop_first() =~= Seq::<TyV>::empty());
                assert(sum_sizes(Seq::<TyV>::empty(), ptr_bytes) == 0);
            };
        }
    }
}

/// With no present prefix chunk the present count is zero.
proof fn lemma_count_present_all_none(s: Seq<Option<RegKind>>, i: int)
    requires
        all_prefix_none(s),
    ensures
        count_present_from(s, i) == 0,
    decreases s.len() - i,
{
    if 0 <= i < s.len() {
        lemma_count_present_all_none(s, i + 1);
    }
}

/// Every present prefix chunk lowers to a type of the chunk's width, so
/// the prefix types sum to the present count times the chunk size.
proof fn lemma_prefix_tys_sum(s: Seq<Option<RegKind>>, chunk: u64, i: int, ptr_bytes: nat)
    requires
        1 <= chunk <= MAX_REG_BYTES || count_present_from(s, i) == 0,
        prefix_tys(s, chunk, i) is Ok,
    ensures
        sum_sizes(prefix_tys(s, chunk, i)->Ok_0, ptr_bytes) == count_present_from(s, i)
            * chunk,
    decreases s.len() - i,
{
    if i < 0 || i >= s.len() {
    } else {
        match s[i] {
            None => {
                lemma_prefix_tys_sum(s, chunk, i + 1, ptr_bytes);
            },
            Some(kind) => {
                let reg = Reg { kind, size_bytes: chunk };
                assert(count_present_from(s, i) > 0);
                lemma_reg_lowered_size(reg, ptr_bytes);
                lemma_prefix_tys_sum(s, chunk, i + 1, ptr_bytes);
                let t = reg_lowered(reg)->Ok_0;
                let rest = prefix_tys(s, chunk, i + 1)->Ok_0;
                assert(sum_sizes(seq![t] + rest, ptr_bytes) == size_of(t, ptr_bytes)
                    + sum_sizes(rest, ptr_bytes)) by {
                    lemma_sum_sizes_concat(seq![t], rest, ptr_bytes);
                    assert(seq![t].drop_first() =~= Seq::<TyV>::empty());
                    assert(sum_sizes(Seq::<TyV>::empty(), ptr_bytes) == 0);
                };
                assert(count_present_from(s, i) * chunk == count_present_from(s, i + 1)
                    * chunk + chunk) by (nonlinear_arith)
                    requires
                        count_present_from(s, i) == count_present_from(s, i + 1) + 1,
                ;
            },
        }
    }
}

/// With an empty prefix and a total within one rest unit, lowering yields
/// the bare unit type, whatever the unit's kind.
pub proof fn lemma_cast_bare_unit(ct: CastTarget)
    requires
        all_prefix_none(ct.prefix@),
        ct.rest_total_bytes <= ct.rest_unit.size_bytes,
        cast_lowered(ct) is Ok,
    ensures
        cast_lowered(ct)->Ok_0 == reg_lowered(ct.rest_unit)->Ok_0,
{
}

} // verus!
