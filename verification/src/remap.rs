//! Type-remapping coordination: an injected capability that decides, per
//! target, which lowered types are not natively representable and what
//! they become, and how a value is reinterpreted between the two.
//!
//! The policy is target-specific and swappable; signature lowering only
//! guarantees that every emitted slot is classified and that every
//! remapping decision is persisted and replayed faithfully.

use vstd::prelude::*;

use crate::types::{LowType, TyV, ty_clone, ty_dv};

verus! {

/// The remapping capability. `classify` may substitute a representable
/// type for an unsupported one; `reinterpret` carries a value between a
/// remapped type and its original. Values are opaque handles here.
pub trait TypeRemapper {
    /// What `classify` maps a type to; the identity on supported types.
    spec fn classify_spec(&self, t: TyV) -> TyV;

    /// What `reinterpret` yields for a value retyped to `to`.
    spec fn reinterpret_spec(&self, v: u64, to: TyV) -> u64;

    /// Classifies one type: the possibly corrected type, and whether it
    /// changed.
    fn classify(&self, t: &LowType) -> (r: (LowType, bool))
        ensures
            r.0.deep_view() == self.classify_spec(t.deep_view()),
            r.1 == (self.classify_spec(t.deep_view()) != t.deep_view()),
    ;

    /// Reinterprets a value to the given type.
    fn reinterpret(&self, v: u64, to: &LowType) -> (r: u64)
        ensures
            r == self.reinterpret_spec(v, to.deep_view()),
    ;
}

/// The trivial policy of a target whose type system needs no correction:
/// every type is kept, every value passes through.
pub struct IdentityRemapper;

impl TypeRemapper for IdentityRemapper {
    open spec fn classify_spec(&self, t: TyV) -> TyV {
        t
    }

    open spec fn reinterpret_spec(&self, v: u64, to: TyV) -> u64 {
        v
    }

    fn classify(&self, t: &LowType) -> (r: (LowType, bool)) {
        (ty_clone(t), false)
    }

    fn reinterpret(&self, v: u64, to: &LowType) -> (r: u64) {
        v
    }
}

/// A policy for a target without native 128-bit integers: they travel as
/// two 64-bit lanes, and values keep their bits across the retyping.
pub struct WideIntRemapper;

impl WideIntRemapper {
    /// The corrected form of a 128-bit integer.
    pub open spec fn wide_pair() -> TyV {
        TyV::Vector { elem: Box::new(TyV::Int { bits: 64 }), lanes: 2 }
    }
}

impl TypeRemapper for WideIntRemapper {
    open spec fn classify_spec(&self, t: TyV) -> TyV {
        if t == (TyV::Int { bits: 128 }) {
            WideIntRemapper::wide_pair()
        } else {
            t
        }
    }

    open spec fn reinterpret_spec(&self, v: u64, to: TyV) -> u64 {
        v
    }

    fn classify(&self, t: &LowType) -> (r: (LowType, bool)) {
        match t {
            LowType::Int { bits } => {
                if *bits == 128 {
                    let wide = LowType::Vector {
                        elem: Box::new(LowType::Int { bits: 64 }),
                        lanes: 2,
                    };
                    proof {
                        assert(LowType::Int { bits: 64u32 }.deep_view() == TyV::Int {
                            bits: 64u32,
                        });
                    }
                    (wide, true)
                } else {
                    (LowType::Int { bits: *bits }, false)
                }
            },
            _ => (ty_clone(t), false),
        }
    }

    fn reinterpret(&self, v: u64, to: &LowType) -> (r: u64) {
        v
    }
}

} // verus!
