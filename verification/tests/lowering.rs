//! Register, cast-target and signature lowering, attribute emission, and
//! entry marshaling, on concrete descriptors.

use nvvm_lower::abi::{ArgAbi, ArgLayout, Conv, FnAbi, PassMode, ScalarInfo, ScalarKind};
use nvvm_lower::attrs::{
    ArgAttributes, ArgExtension, AttrFlags, AttrPlace, CallSite, LlAttribute, LlFunc,
};
use nvvm_lower::cast::CastTarget;
use nvvm_lower::context::{CodegenCx, DataLayout};
use nvvm_lower::fnattrs::{apply_attrs_callsite, apply_attrs_llfn};
use nvvm_lower::marshal::{get_param, marshal_call_result, StoreAction};
use nvvm_lower::reg::{Reg, RegKind};
use nvvm_lower::remap::{IdentityRemapper, WideIntRemapper};
use nvvm_lower::sig::{lower_signature, ptr_to_llvm_type};
use nvvm_lower::abi::readjust_fn_abi;
use nvvm_lower::types::{ty_eq, LowType};
use nvvm_lower::Fatal;

fn dl() -> DataLayout {
    DataLayout { pointer_bytes: 8, instruction_addrspace: 1 }
}

fn plain_layout(imm: LowType) -> ArgLayout {
    ArgLayout {
        immediate_ty: imm,
        memory_ty: LowType::Int { bits: 32 },
        pair_elem0: LowType::Int { bits: 64 },
        pair_elem1: LowType::Int { bits: 64 },
        ref_pair_elem0: LowType::Ptr {
            pointee: Box::new(LowType::Int { bits: 8 }),
            addrspace: 0,
        },
        ref_pair_elem1: LowType::Int { bits: 64 },
        size_bytes: 4,
        align_bytes: 4,
        is_zst: false,
        is_uninhabited: false,
        scalar: None,
        is_slice_ref: false,
        is_array: false,
        is_aggregate: false,
    }
}

fn direct_arg(imm: LowType) -> ArgAbi {
    ArgAbi { layout: plain_layout(imm), mode: PassMode::Direct(ArgAttributes::new()), pad: None }
}

fn ignore_arg() -> ArgAbi {
    ArgAbi { layout: plain_layout(LowType::Void), mode: PassMode::Ignore, pad: None }
}

#[test]
fn integer_register_lowers_to_its_width() {
    let r = Reg { kind: RegKind::Integer, size_bytes: 4 };
    let t = r.lower().unwrap();
    assert!(ty_eq(&t, &LowType::Int { bits: 32 }));
}

#[test]
fn float_registers_lower_to_native_floats_only() {
    let f4 = Reg { kind: RegKind::Float, size_bytes: 4 };
    assert!(ty_eq(&f4.lower().unwrap(), &LowType::Float32));
    let f8 = Reg { kind: RegKind::Float, size_bytes: 8 };
    assert!(ty_eq(&f8.lower().unwrap(), &LowType::Float64));
    let f3 = Reg { kind: RegKind::Float, size_bytes: 3 };
    assert_eq!(f3.lower().unwrap_err(), Fatal::UnsupportedFloatWidth);
}

#[test]
fn vector_register_lowers_to_register_shaped_bits() {
    let v = Reg { kind: RegKind::Vector, size_bytes: 16 };
    let t = v.lower().unwrap();
    assert!(ty_eq(
        &t,
        &LowType::Vector { elem: Box::new(LowType::Int { bits: 8 }), lanes: 16 },
    ));
}

#[test]
fn cast_with_empty_prefix_within_one_unit_is_the_bare_unit() {
    // The bare unit comes back even when the total is smaller.
    let ct = CastTarget {
        prefix: vec![None, None],
        prefix_chunk_bytes: 0,
        rest_unit: Reg { kind: RegKind::Float, size_bytes: 8 },
        rest_total_bytes: 4,
    };
    assert!(ty_eq(&ct.lower().unwrap(), &LowType::Float64));
}

#[test]
fn cast_with_evenly_divided_rest_is_an_array() {
    let ct = CastTarget {
        prefix: vec![],
        prefix_chunk_bytes: 0,
        rest_unit: Reg { kind: RegKind::Integer, size_bytes: 4 },
        rest_total_bytes: 12,
    };
    let t = ct.lower().unwrap();
    assert!(ty_eq(
        &t,
        &LowType::Array { elem: Box::new(LowType::Int { bits: 32 }), len: 3 },
    ));
}

#[test]
fn general_cast_is_a_struct_with_a_trailing_remainder_integer() {
    let ct = CastTarget {
        prefix: vec![Some(RegKind::Integer), None],
        prefix_chunk_bytes: 8,
        rest_unit: Reg { kind: RegKind::Integer, size_bytes: 4 },
        rest_total_bytes: 6,
    };
    let t = ct.lower().unwrap();
    let expected = LowType::Struct {
        fields: vec![
            LowType::Int { bits: 64 },
            LowType::Int { bits: 32 },
            LowType::Int { bits: 16 },
        ],
        packed: false,
    };
    assert!(ty_eq(&t, &expected));
    // The declared total is covered exactly: 8 + 4 + 2.
    assert_eq!(ct.total(), 14);
}

#[test]
fn non_integer_remainder_is_fatal() {
    let ct = CastTarget {
        prefix: vec![],
        prefix_chunk_bytes: 0,
        rest_unit: Reg { kind: RegKind::Float, size_bytes: 4 },
        rest_total_bytes: 6,
    };
    assert_eq!(ct.lower().unwrap_err(), Fatal::NonIntegerRemainder);
}

#[test]
fn direct_and_ignore_descriptor_emits_one_slot_per_live_argument() {
    let fa = FnAbi {
        args: vec![
            direct_arg(LowType::Int { bits: 32 }),
            ignore_arg(),
            direct_arg(LowType::Float32),
        ],
        ret: ignore_arg(),
        c_variadic: false,
        fixed_count: 3,
        conv: Conv::C,
        can_unwind: false,
    };
    let mut cx = CodegenCx::new(dl(), None);
    let t = lower_signature(&fa, &IdentityRemapper, &mut cx).unwrap();
    match &t {
        LowType::Func { params, ret, variadic } => {
            assert_eq!(params.len(), 2);
            assert!(ty_eq(&params[0], &LowType::Int { bits: 32 }));
            assert!(ty_eq(&params[1], &LowType::Float32));
            assert!(ty_eq(ret, &LowType::Void));
            assert!(!variadic);
        },
        _ => panic!("expected a function type"),
    }
    // Nothing was remapped, so nothing was recorded.
    assert_eq!(cx.remapped.len(), 0);
}

#[test]
fn indirect_return_becomes_a_leading_pointer_slot() {
    let ret = ArgAbi {
        layout: plain_layout(LowType::Void),
        mode: PassMode::Indirect {
            attrs: ArgAttributes::new(),
            extra_attrs: None,
            on_stack: false,
        },
        pad: None,
    };
    let fa = FnAbi {
        args: vec![direct_arg(LowType::Int { bits: 8 })],
        ret,
        c_variadic: false,
        fixed_count: 1,
        conv: Conv::C,
        can_unwind: false,
    };
    let mut cx = CodegenCx::new(dl(), None);
    let t = lower_signature(&fa, &IdentityRemapper, &mut cx).unwrap();
    match &t {
        LowType::Func { params, ret, .. } => {
            assert_eq!(params.len(), 2);
            assert!(matches!(&params[0], LowType::Ptr { .. }));
            assert!(ty_eq(ret, &LowType::Void));
        },
        _ => panic!("expected a function type"),
    }
}

#[test]
fn remapped_slot_is_recorded_and_replayed() {
    let fa = FnAbi {
        args: vec![direct_arg(LowType::Int { bits: 128 })],
        ret: ignore_arg(),
        c_variadic: false,
        fixed_count: 1,
        conv: Conv::C,
        can_unwind: false,
    };
    let mut cx = CodegenCx::new(dl(), None);
    let t = lower_signature(&fa, &WideIntRemapper, &mut cx).unwrap();
    match &t {
        LowType::Func { params, .. } => {
            assert!(ty_eq(
                &params[0],
                &LowType::Vector { elem: Box::new(LowType::Int { bits: 64 }), lanes: 2 },
            ));
        },
        _ => panic!("expected a function type"),
    }
    assert_eq!(cx.remapped.len(), 1);
    let rec = &cx.remapped[0].1;
    assert!(rec.old_ret.is_none());
    assert_eq!(rec.args.len(), 1);
    assert_eq!(rec.args[0].0, 0);
    assert!(ty_eq(&rec.args[0].1, &LowType::Int { bits: 128 }));
    // Entry fetch replays the decision; the wide-integer policy keeps the
    // value's bits, so the handle passes through.
    assert_eq!(get_param(&cx, &WideIntRemapper, &t, 0, 7), 7);
    assert_eq!(marshal_call_result(&cx, &WideIntRemapper, &t, 9), 9);
    // Lowering the same descriptor again: the first writer won.
    let fa2 = FnAbi {
        args: vec![direct_arg(LowType::Int { bits: 128 })],
        ret: ignore_arg(),
        c_variadic: false,
        fixed_count: 1,
        conv: Conv::C,
        can_unwind: false,
    };
    let _ = lower_signature(&fa2, &WideIntRemapper, &mut cx).unwrap();
    assert_eq!(cx.remapped.len(), 1);
}

#[test]
fn attribute_emission_follows_the_effect_rule() {
    let attrs = ArgAttributes {
        regular: AttrFlags {
            no_alias: true,
            no_capture: false,
            non_null: true,
            read_only: true,
            in_reg: false,
        },
        pointee_size_bytes: 16,
        pointee_align_bytes: Some(8),
        arg_ext: ArgExtension::Zext,
    };
    let mut f = LlFunc { attrs: Vec::new() };
    attrs.apply_attrs_to_llfn(AttrPlace::Argument(0), &mut f);
    // Non-null plus a pointee size becomes `dereferenceable`, and the
    // non-null flag is dropped from the remaining flags.
    let expected = vec![
        (AttrPlace::Argument(0), LlAttribute::Dereferenceable(16)),
        (AttrPlace::Argument(0), LlAttribute::Alignment(8)),
        (AttrPlace::Argument(0), LlAttribute::NoAlias),
        (AttrPlace::Argument(0), LlAttribute::ReadOnly),
        (AttrPlace::Argument(0), LlAttribute::ZExt),
    ];
    assert_eq!(f.attrs, expected);
}

#[test]
fn nullable_pointee_gets_dereferenceable_or_null() {
    let attrs = ArgAttributes {
        regular: AttrFlags {
            no_alias: false,
            no_capture: false,
            non_null: false,
            read_only: false,
            in_reg: false,
        },
        pointee_size_bytes: 4,
        pointee_align_bytes: None,
        arg_ext: ArgExtension::NoExt,
    };
    let mut f = LlFunc { attrs: Vec::new() };
    attrs.apply_attrs_to_llfn(AttrPlace::ReturnValue, &mut f);
    assert_eq!(
        f.attrs,
        vec![(AttrPlace::ReturnValue, LlAttribute::DereferenceableOrNull(4))],
    );
}

#[test]
fn function_attributes_mark_no_return_no_unwind_and_sret() {
    let mut ret = ArgAbi {
        layout: plain_layout(LowType::Void),
        mode: PassMode::Indirect {
            attrs: ArgAttributes::new(),
            extra_attrs: None,
            on_stack: false,
        },
        pad: None,
    };
    ret.layout.is_uninhabited = true;
    let fa = FnAbi {
        args: vec![],
        ret,
        c_variadic: false,
        fixed_count: 0,
        conv: Conv::C,
        can_unwind: false,
    };
    let mut f = LlFunc { attrs: Vec::new() };
    apply_attrs_llfn(&fa, &mut f).unwrap();
    let expected = vec![
        (AttrPlace::Function, LlAttribute::NoReturn),
        (AttrPlace::Function, LlAttribute::NoUnwind),
        (AttrPlace::Argument(0), LlAttribute::StructRet),
    ];
    assert_eq!(f.attrs, expected);
}

#[test]
fn on_stack_indirect_return_aborts_fatally() {
    let ret = ArgAbi {
        layout: plain_layout(LowType::Void),
        mode: PassMode::Indirect {
            attrs: ArgAttributes::new(),
            extra_attrs: None,
            on_stack: true,
        },
        pad: None,
    };
    let fa = FnAbi {
        args: vec![],
        ret,
        c_variadic: false,
        fixed_count: 0,
        conv: Conv::C,
        can_unwind: true,
    };
    let mut f = LlFunc { attrs: Vec::new() };
    assert_eq!(apply_attrs_llfn(&fa, &mut f).unwrap_err(), Fatal::OnStackIndirectReturn);
    assert!(f.attrs.is_empty());
    let mut cs = CallSite { attrs: Vec::new(), ret_range: None };
    assert_eq!(
        apply_attrs_callsite(&fa, &mut cs).unwrap_err(),
        Fatal::OnStackIndirectReturn,
    );
    assert!(cs.attrs.is_empty());
}

#[test]
fn boolean_return_never_gets_range_metadata() {
    let mut ret = direct_arg(LowType::Int { bits: 1 });
    ret.layout.scalar = Some(ScalarInfo {
        kind: ScalarKind::Int,
        bits: 1,
        is_bool: true,
        valid_start: 0,
        valid_end: 1,
    });
    let fa = FnAbi {
        args: vec![],
        ret,
        c_variadic: false,
        fixed_count: 0,
        conv: Conv::C,
        can_unwind: true,
    };
    let mut cs = CallSite { attrs: Vec::new(), ret_range: None };
    apply_attrs_callsite(&fa, &mut cs).unwrap();
    assert_eq!(cs.ret_range, None);
}

#[test]
fn narrow_integer_return_gets_range_metadata() {
    let mut ret = direct_arg(LowType::Int { bits: 32 });
    ret.layout.scalar = Some(ScalarInfo {
        kind: ScalarKind::Int,
        bits: 32,
        is_bool: false,
        valid_start: 0,
        valid_end: 10,
    });
    let fa = FnAbi {
        args: vec![],
        ret,
        c_variadic: false,
        fixed_count: 0,
        conv: Conv::C,
        can_unwind: true,
    };
    let mut cs = CallSite { attrs: Vec::new(), ret_range: None };
    apply_attrs_callsite(&fa, &mut cs).unwrap();
    assert_eq!(cs.ret_range, Some((0, 10)));
}

#[test]
fn full_range_integer_return_gets_no_metadata() {
    let mut ret = direct_arg(LowType::Int { bits: 8 });
    ret.layout.scalar = Some(ScalarInfo {
        kind: ScalarKind::Int,
        bits: 8,
        is_bool: false,
        valid_start: 0,
        valid_end: 255,
    });
    let fa = FnAbi {
        args: vec![],
        ret,
        c_variadic: false,
        fixed_count: 0,
        conv: Conv::C,
        can_unwind: true,
    };
    let mut cs = CallSite { attrs: Vec::new(), ret_range: None };
    apply_attrs_callsite(&fa, &mut cs).unwrap();
    assert_eq!(cs.ret_range, None);
}

#[test]
fn pair_argument_consumes_two_slots_and_yields_one_value() {
    let arg = ArgAbi {
        layout: plain_layout(LowType::Int { bits: 64 }),
        mode: PassMode::Pair(ArgAttributes::new(), ArgAttributes::new()),
        pad: None,
    };
    let params: Vec<u64> = vec![10, 11, 12];
    let mut idx: usize = 0;
    let action = arg.store_fn_arg(&params, &mut idx);
    assert_eq!(idx, 2);
    assert_eq!(action, StoreAction::PairStore { a: 10, b: 11 });
}

#[test]
fn cast_argument_stages_through_a_scratch_buffer() {
    let ct = CastTarget {
        prefix: vec![],
        prefix_chunk_bytes: 0,
        rest_unit: Reg { kind: RegKind::Integer, size_bytes: 8 },
        rest_total_bytes: 8,
    };
    let mut arg = ArgAbi {
        layout: plain_layout(LowType::Int { bits: 64 }),
        mode: PassMode::Cast(ct),
        pad: None,
    };
    arg.layout.size_bytes = 5;
    let params: Vec<u64> = vec![42];
    let mut idx: usize = 0;
    let action = arg.store_fn_arg(&params, &mut idx);
    assert_eq!(idx, 1);
    assert_eq!(
        action,
        StoreAction::CastScratch {
            val: 42,
            scratch_bytes: 8,
            scratch_align: 8,
            copy_bytes: 5,
        },
    );
}

#[test]
fn readjustment_rewrites_modes_for_this_target() {
    let mut zst = direct_arg(LowType::Int { bits: 8 });
    zst.layout.is_zst = true;
    let mut slice_ref = ArgAbi {
        layout: plain_layout(LowType::Int { bits: 64 }),
        mode: PassMode::Indirect {
            attrs: ArgAttributes::new(),
            extra_attrs: None,
            on_stack: false,
        },
        pad: None,
    };
    slice_ref.layout.is_slice_ref = true;
    let mut aggregate = ArgAbi {
        layout: plain_layout(LowType::Int { bits: 64 }),
        mode: PassMode::Indirect {
            attrs: ArgAttributes::new(),
            extra_attrs: None,
            on_stack: false,
        },
        pad: None,
    };
    aggregate.layout.is_aggregate = true;
    let fa = FnAbi {
        args: vec![zst, slice_ref, aggregate],
        ret: ignore_arg(),
        c_variadic: false,
        fixed_count: 3,
        conv: Conv::PtxKernel,
        can_unwind: false,
    };
    let out = readjust_fn_abi(fa);
    assert!(matches!(out.args[0].mode, PassMode::Ignore));
    assert!(matches!(out.args[1].mode, PassMode::Pair(..)));
    assert!(matches!(out.args[2].mode, PassMode::Direct(_)));
}

#[test]
fn readjustment_leaves_the_source_convention_alone() {
    let mut zst = direct_arg(LowType::Int { bits: 8 });
    zst.layout.is_zst = true;
    let fa = FnAbi {
        args: vec![zst],
        ret: ignore_arg(),
        c_variadic: false,
        fixed_count: 1,
        conv: Conv::Rust,
        can_unwind: true,
    };
    let out = readjust_fn_abi(fa);
    assert!(matches!(out.args[0].mode, PassMode::Direct(_)));
}

#[test]
fn function_pointers_live_in_the_instruction_address_space() {
    let fa = FnAbi {
        args: vec![],
        ret: ignore_arg(),
        c_variadic: false,
        fixed_count: 0,
        conv: Conv::C,
        can_unwind: false,
    };
    let mut cx = CodegenCx::new(dl(), None);
    let t = ptr_to_llvm_type(&fa, &IdentityRemapper, &mut cx).unwrap();
    match &t {
        LowType::Ptr { pointee, addrspace } => {
            assert_eq!(*addrspace, 1);
            assert!(matches!(&**pointee, LowType::Func { .. }));
        },
        _ => panic!("expected a pointer type"),
    }
}

#[test]
fn padding_register_emits_one_inert_slot_first() {
    let mut arg = direct_arg(LowType::Int { bits: 32 });
    arg.pad = Some(Reg { kind: RegKind::Integer, size_bytes: 8 });
    let fa = FnAbi {
        args: vec![arg],
        ret: ignore_arg(),
        c_variadic: false,
        fixed_count: 1,
        conv: Conv::C,
        can_unwind: false,
    };
    let mut cx = CodegenCx::new(dl(), None);
    let t = lower_signature(&fa, &IdentityRemapper, &mut cx).unwrap();
    match &t {
        LowType::Func { params, .. } => {
            assert_eq!(params.len(), 2);
            assert!(ty_eq(&params[0], &LowType::Int { bits: 64 }));
            assert!(ty_eq(&params[1], &LowType::Int { bits: 32 }));
        },
        _ => panic!("expected a function type"),
    }
    // The inert slot shifts attribute indices: the live argument's
    // extension lands on slot one.
    let mut arg2 = direct_arg(LowType::Int { bits: 32 });
    arg2.pad = Some(Reg { kind: RegKind::Integer, size_bytes: 8 });
    arg2.mode = PassMode::Direct(ArgAttributes {
        regular: AttrFlags::none(),
        pointee_size_bytes: 0,
        pointee_align_bytes: None,
        arg_ext: ArgExtension::Sext,
    });
    let fa2 = FnAbi {
        args: vec![arg2],
        ret: ignore_arg(),
        c_variadic: false,
        fixed_count: 1,
        conv: Conv::C,
        can_unwind: true,
    };
    let mut f = LlFunc { attrs: Vec::new() };
    apply_attrs_llfn(&fa2, &mut f).unwrap();
    assert_eq!(f.attrs, vec![(AttrPlace::Argument(1), LlAttribute::SExt)]);
}

#[test]
fn readjusted_slice_reference_keeps_its_pointer_flags() {
    let mut slice_ref = ArgAbi {
        layout: plain_layout(LowType::Int { bits: 64 }),
        mode: PassMode::Indirect {
            attrs: ArgAttributes {
                regular: AttrFlags {
                    no_alias: true,
                    no_capture: true,
                    non_null: false,
                    read_only: false,
                    in_reg: false,
                },
                pointee_size_bytes: 8,
                pointee_align_bytes: Some(8),
                arg_ext: ArgExtension::NoExt,
            },
            extra_attrs: None,
            on_stack: false,
        },
        pad: None,
    };
    slice_ref.layout.is_slice_ref = true;
    let fa = FnAbi {
        args: vec![slice_ref],
        ret: ignore_arg(),
        c_variadic: false,
        fixed_count: 1,
        conv: Conv::C,
        can_unwind: false,
    };
    let out = readjust_fn_abi(fa);
    match &out.args[0].mode {
        PassMode::Pair(a, b) => {
            // The boolean flags carry over to the data pointer; the
            // pointee facts do not.
            assert!(a.regular.no_alias);
            assert!(a.regular.no_capture);
            assert_eq!(a.pointee_size_bytes, 0);
            assert_eq!(a.pointee_align_bytes, None);
            assert_eq!(*b, ArgAttributes::new());
        },
        _ => panic!("expected the slice reference to travel as a pair"),
    }
}
