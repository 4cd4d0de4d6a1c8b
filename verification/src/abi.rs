//! The function ABI descriptor: per-argument passing modes with their
//! layout facts, and the target-specific readjustment that rewrites the
//! front end's classification for this target.
//!
//! The target wants every aggregate passed by value, slice references
//! split into their two scalar halves, and zero-sized arguments dropped;
//! the readjustment pass rewrites the modes accordingly and leaves the
//! source calling convention alone.

use vstd::prelude::*;

use crate::attrs::{ArgAttributes, AttrFlags, ArgExtension};
use crate::cast::CastTarget;
use crate::reg::Reg;
use crate::types::LowType;

verus! {

/// The kind of scalar a scalar-shaped layout carries.
#[derive(Clone, Copy, PartialEq, Eq, Structural, Debug)]
pub enum ScalarKind {
    Int,
    Float,
    Pointer,
}

/// The facts of a scalar-shaped layout: its kind, bit width, whether it
/// is the boolean layout, and its declared valid value range (wrapping).
#[derive(Clone, Copy, PartialEq, Eq, Structural, Debug)]
pub struct ScalarInfo {
    pub kind: ScalarKind,
    pub bits: u32,
    pub is_bool: bool,
    pub valid_start: u64,
    pub valid_end: u64,
}

impl ScalarInfo {
    /// The largest value of this scalar's width.
    pub open spec fn mask(self) -> u64 {
        if self.bits == 64 {
            0xffff_ffff_ffff_ffffu64
        } else {
            ((1u64 << self.bits) - 1) as u64
        }
    }

    /// A scalar is one to sixty-four bits wide and its range endpoints
    /// fit its width.
    pub open spec fn wf(self) -> bool {
        &&& 1 <= self.bits <= 64
        &&& self.valid_start <= self.mask()
        &&& self.valid_end <= self.mask()
    }

    /// Whether the declared range covers every representable value, so
    /// that range metadata would say nothing.
    pub open spec fn always_valid(self) -> bool {
        self.valid_start == (if self.valid_end == self.mask() {
            0u64
        } else {
            (self.valid_end + 1) as u64
        })
    }

    /// Decides `always_valid` executably.
    pub fn is_always_valid(&self) -> (r: bool)
        requires
            self.wf(),
        ensures
            r == self.always_valid(),
    {
        let mask: u64 = if self.bits == 64 {
            0xffff_ffff_ffff_ffffu64
        } else {
            proof {
                let sh = self.bits;
                assert((1u64 << sh) >= 1u64) by (bit_vector)
                    requires
                        sh < 64u32,
                ;
            }
            (1u64 << self.bits) - 1
        };
        let next: u64 = if self.valid_end == mask {
            0
        } else {
            self.valid_end + 1
        };
        self.valid_start == next
    }
}

/// The layout facts one argument or return value brings from the
/// front-end layout engine. All types are already in the target's
/// concrete vocabulary.
pub struct ArgLayout {
    /// The type of the value when it travels in registers.
    pub immediate_ty: LowType,
    /// The type of the value in memory.
    pub memory_ty: LowType,
    /// The two halves of a scalar-pair layout, as passed immediately.
    pub pair_elem0: LowType,
    pub pair_elem1: LowType,
    /// The two halves of a pointer-to-this-value layout: the data pointer
    /// and the metadata of an unsized tail.
    pub ref_pair_elem0: LowType,
    pub ref_pair_elem1: LowType,
    pub size_bytes: u64,
    pub align_bytes: u64,
    pub is_zst: bool,
    /// No value of the type exists.
    pub is_uninhabited: bool,
    /// Present when the layout is a single scalar.
    pub scalar: Option<ScalarInfo>,
    /// The value is a reference to a slice.
    pub is_slice_ref: bool,
    /// The value's type is an array.
    pub is_array: bool,
    /// The layout is an aggregate (neither scalar, pair, nor vector).
    pub is_aggregate: bool,
}

/// How one argument or return value crosses the call boundary.
pub enum PassMode {
    /// No slot at all.
    Ignore,
    /// One slot of the immediate type.
    Direct(ArgAttributes),
    /// Two slots, the halves of a scalar pair.
    Pair(ArgAttributes, ArgAttributes),
    /// By address: one pointer slot, or pointer plus metadata for an
    /// unsized tail.
    Indirect { attrs: ArgAttributes, extra_attrs: Option<ArgAttributes>, on_stack: bool },
    /// One slot of the cast target's lowered type.
    Cast(CastTarget),
}

/// One argument or return value: its layout, its passing mode, and an
/// optional inert padding register emitted before it.
pub struct ArgAbi {
    pub layout: ArgLayout,
    pub mode: PassMode,
    pub pad: Option<Reg>,
}

/// The source calling convention of a function.
#[derive(Clone, Copy, PartialEq, Eq, Structural, Debug)]
pub enum Conv {
    Rust,
    C,
    PtxKernel,
}

/// The full ABI descriptor of one function.
pub struct FnAbi {
    pub args: Vec<ArgAbi>,
    pub ret: ArgAbi,
    pub c_variadic: bool,
    pub fixed_count: usize,
    pub conv: Conv,
    pub can_unwind: bool,
}

impl ArgAbi {
    /// Register and cast descriptions inside the mode are well formed.
    pub open spec fn wf(self) -> bool {
        &&& (match self.pad {
            Some(reg) => reg.wf(),
            None => true,
        })
        &&& (match self.mode {
            PassMode::Cast(ct) => ct.wf(),
            _ => true,
        })
        &&& (match self.layout.scalar {
            Some(sc) => sc.wf(),
            None => true,
        })
    }
}

impl FnAbi {
    /// Every argument is well formed and the argument count leaves all
    /// derived slot indices inside their machine integers.
    pub open spec fn wf(self) -> bool {
        &&& self.ret.wf()
        &&& self.args.len() <= 65536
        &&& forall|i: int| 0 <= i < self.args.len() ==> (#[trigger] self.args@[i]).wf()
    }
}

/// The readjusted mode of one argument: zero-sized arguments are dropped,
/// slice references travel as their two halves, arrays and indirectly
/// passed aggregates travel directly by value.
pub open spec fn readjust_mode(arg: ArgAbi) -> PassMode {
    let m0 = if arg.layout.is_zst {
        PassMode::Ignore
    } else {
        arg.mode
    };
    let m1 = if arg.layout.is_slice_ref {
        PassMode::Pair(
            ArgAttributes {
                regular: (match m0 {
                    PassMode::Indirect { attrs, .. } => attrs.regular,
                    _ => AttrFlags {
                        no_alias: false,
                        no_capture: false,
                        non_null: false,
                        read_only: false,
                        in_reg: false,
                    },
                }),
                pointee_size_bytes: 0,
                pointee_align_bytes: None,
                arg_ext: ArgExtension::NoExt,
            },
            ArgAttributes::empty(),
        )
    } else {
        m0
    };
    let m2 = if arg.layout.is_array && !(m1 is Direct) {
        PassMode::Direct(ArgAttributes::empty())
    } else {
        m1
    };
    if arg.layout.is_aggregate && m2 is Indirect {
        PassMode::Direct(ArgAttributes::empty())
    } else {
        m2
    }
}

/// Readjusts one argument, keeping its layout and padding.
fn readjust_arg(arg: ArgAbi) -> (r: ArgAbi)
    ensures
        r.layout == arg.layout,
        r.pad == arg.pad,
        r.mode == readjust_mode(arg),
{
    let ArgAbi { layout, mode, pad } = arg;
    let ghost arg0 = arg;
    let m0 = if layout.is_zst {
        PassMode::Ignore
    } else {
        mode
    };
    let m1 = if layout.is_slice_ref {
        let regular = match &m0 {
            PassMode::Indirect { attrs, .. } => attrs.regular,
            _ => AttrFlags::none(),
        };
        PassMode::Pair(
            ArgAttributes {
                regular,
                pointee_size_bytes: 0,
                pointee_align_bytes: None,
                arg_ext: ArgExtension::NoExt,
            },
            ArgAttributes::new(),
        )
    } else {
        m0
    };
    let m1_is_direct = matches!(m1, PassMode::Direct(_));
    let m2 = if layout.is_array && !m1_is_direct {
        PassMode::Direct(ArgAttributes::new())
    } else {
        m1
    };
    let m2_is_indirect = matches!(m2, PassMode::Indirect { .. });
    let mode_out = if layout.is_aggregate && m2_is_indirect {
        PassMode::Direct(ArgAttributes::new())
    } else {
        m2
    };
    ArgAbi { layout, mode: mode_out, pad }
}

/// Readjusts a whole descriptor for this target. The source (`Rust`)
/// convention is left untouched; for every other convention each
/// argument and the return are rewritten by `readjust_mode`.
pub fn readjust_fn_abi(fa: FnAbi) -> (r: FnAbi)
    ensures
        fa.wf() ==> r.wf(),
        fa.conv is Rust ==> r == fa,
        !(fa.conv is Rust) ==> {
            &&& r.args@.len() == fa.args@.len()
            &&& forall|i: int|
                0 <= i < fa.args@.len() ==> {
                    &&& (#[trigger] r.args@[i]).layout == fa.args@[i].layout
                    &&& r.args@[i].pad == fa.args@[i].pad
                    &&& r.args@[i].mode == readjust_mode(fa.args@[i])
                }
            &&& r.ret.layout == fa.ret.layout
            &&& r.ret.pad == fa.ret.pad
            &&& r.ret.mode == readjust_mode(fa.ret)
            &&& r.c_variadic == fa.c_variadic
            &&& r.fixed_count == fa.fixed_count
            &&& r.conv == fa.conv
            &&& r.can_unwind == fa.can_unwind
        },
{
    // The source ABI is not overridden.
    if matches!(fa.conv, Conv::Rust) {
        return fa;
    }
    let FnAbi { args, ret, c_variadic, fixed_count, conv, can_unwind } = fa;
    let ghost orig_args = args@;
    let mut args = args;
    let mut out: Vec<ArgAbi> = Vec::new();
    while args.len() > 0
        invariant
            orig_args.len() == out@.len() + args@.len(),
            args@ =~= orig_args.subrange(out@.len() as int, orig_args.len() as int),
            forall|i: int|
                0 <= i < out@.len() ==> {
                    &&& (#[trigger] out@[i]).layout == orig_args[i].layout
                    &&& out@[i].pad == orig_args[i].pad
                    &&& out@[i].mode == readjust_mode(orig_args[i])
                },
        decreases args.len(),
    {
        let a = args.remove(0);
        let ghost k = out@.len() as int;
        proof {
            assert(a == orig_args[k]);
        }
        let adjusted = readjust_arg(a);
        out.push(adjusted);
        proof {
            assert(args@ =~= orig_args.subrange(out@.len() as int, orig_args.len() as int));
        }
    }
    let new_ret = readjust_arg(ret);
    FnAbi { args: out, ret: new_ret, c_variadic, fixed_count, conv, can_unwind }
}

} // verus!
