//! Register classification: one machine register chunk becomes one
//! concrete type.
//!
//! An integer chunk becomes an integer of the chunk's bit width; a float
//! chunk becomes a 32- or 64-bit float and any other width is a fatal
//! configuration error; a vector chunk becomes a byte vector of the
//! chunk's length, deliberately stripped of numeric meaning.

use vstd::prelude::*;

use crate::Fatal;
use crate::types::{LowType, TyV, size_of};

verus! {

/// The kind of a machine register chunk.
#[derive(Clone, Copy, PartialEq, Eq, Structural, Debug)]
pub enum RegKind {
    Integer,
    Float,
    Vector,
}

/// One machine register chunk: a kind and a byte width.
#[derive(Clone, Copy, PartialEq, Eq, Structural, Debug)]
pub struct Reg {
    pub kind: RegKind,
    pub size_bytes: u64,
}

/// The largest chunk width the model admits; keeps every derived bit
/// count inside the machine integers that carry it.
pub const MAX_REG_BYTES: u64 = 65535;

impl Reg {
    /// A register chunk carries at least one byte and stays within the
    /// machine bound.
    pub open spec fn wf(self) -> bool {
        1 <= self.size_bytes <= MAX_REG_BYTES
    }
}

/// What classification yields for one chunk, or the fatal error it stops
/// on: a float chunk may only be 4 or 8 bytes wide.
pub open spec fn reg_lowered(r: Reg) -> Result<TyV, Fatal> {
    match r.kind {
        RegKind::Integer => Ok(TyV::Int { bits: (8 * r.size_bytes) as u32 }),
        RegKind::Float => if r.size_bytes == 4 {
            Ok(TyV::Float32)
        } else if r.size_bytes == 8 {
            Ok(TyV::Float64)
        } else {
            Err(Fatal::UnsupportedFloatWidth)
        },
        RegKind::Vector => Ok(
            TyV::Vector { elem: Box::new(TyV::Int { bits: 8 }), lanes: r.size_bytes },
        ),
    }
}

/// The lowered type of a chunk occupies exactly the chunk's bytes.
pub proof fn lemma_reg_lowered_size(r: Reg, ptr_bytes: nat)
    requires
        r.wf(),
        reg_lowered(r) is Ok,
    ensures
        size_of(reg_lowered(r)->Ok_0, ptr_bytes) == r.size_bytes,
{
    assert(size_of(TyV::Int { bits: 8 }, ptr_bytes) == 1);
    match r.kind {
        RegKind::Integer => {
            assert(size_of(reg_lowered(r)->Ok_0, ptr_bytes) == r.size_bytes) by {
                assert((8 * r.size_bytes) as u32 == 8 * r.size_bytes);
            };
        },
        RegKind::Float => {},
        RegKind::Vector => {
            assert(size_of(reg_lowered(r)->Ok_0, ptr_bytes) == r.size_bytes * 1);
        },
    }
}

impl Reg {
    /// Maps one register chunk to its concrete type; fatal on a float
    /// width the target lacks.
    pub fn lower(&self) -> (r: Result<LowType, Fatal>)
        requires
            self.wf(),
        ensures
            lowered_dv(r) == reg_lowered(*self),
    {
        match self.kind {
            RegKind::Integer => Ok(LowType::Int { bits: (8 * self.size_bytes) as u32 }),
            RegKind::Float => if self.size_bytes == 4 {
                Ok(LowType::Float32)
            } else if self.size_bytes == 8 {
                Ok(LowType::Float64)
            } else {
                Err(Fatal::UnsupportedFloatWidth)
            },
            RegKind::Vector => {
                proof {
                    assert(LowType::Int { bits: 8 }.deep_view() == TyV::Int { bits: 8 });
                }
                Ok(
                    LowType::Vector {
                        elem: Box::new(LowType::Int { bits: 8 }),
                        lanes: self.size_bytes,
                    },
                )
            },
        }
    }
}

/// The mathematical image of a lowering result.
pub open spec fn lowered_dv(r: Result<LowType, Fatal>) -> Result<TyV, Fatal> {
    match r {
        Ok(t) => Ok(t.deep_view()),
        Err(e) => Err(e),
    }
}

} // verus!
