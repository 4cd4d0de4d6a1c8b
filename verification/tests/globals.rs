//! Globals and statics: interning, linkage checking, and the static
//! serialization path.

use nvvm_lower::consts::{AllocTarget, Const};
use nvvm_lower::context::{CodegenCx, DataLayout};
use nvvm_lower::encode::{MemoryImage, Reloc};
use nvvm_lower::statics::{
    linkage_to_llvm, GlobalName, Linkage, LlLinkage, StaticDesc, Visibility,
};
use nvvm_lower::policy::{
    llvm_err, pass_disposition, to_llvm_code_model, to_llvm_opt_settings,
    to_llvm_relocation_model, CodeGenOptLevel, CodeGenOptSize, CodeModel, FatalDiag,
    LlCodeModel, OptLevel, PassAction, PassKind, RelocMode, RelocModel,
};
use nvvm_lower::types::{ty_eq, LowType};
use nvvm_lower::Fatal;

fn dl() -> DataLayout {
    DataLayout { pointer_bytes: 8, instruction_addrspace: 1 }
}

fn desc(sym: u64) -> StaticDesc {
    StaticDesc {
        def_id: sym,
        sym,
        is_local: true,
        is_foreign: false,
        llty: LowType::Int { bits: 32 },
        pointee_llty: None,
        linkage_attr: None,
        is_thread_local: false,
        is_used_attr: false,
        is_reachable_non_generic: true,
        align_bytes: 4,
        is_freeze: true,
    }
}

#[test]
fn interned_strings_share_one_global_per_symbol() {
    let mut cx = CodegenCx::new(dl(), None);
    let a = cx.const_cstr(5, b"abc", true);
    let b = cx.const_cstr(5, b"abc", true);
    assert_eq!(a, b);
    assert_eq!(cx.globals.len(), 1);
    let g = &cx.globals[a];
    assert_eq!(g.linkage, LlLinkage::InternalLinkage);
    assert!(g.constant);
    match &g.initializer {
        Some(Const::Bytes { data }) => assert_eq!(data, &vec![97, 98, 99, 0]),
        _ => panic!("expected the string bytes with a terminator"),
    }
}

#[test]
fn unterminated_string_keeps_only_its_bytes() {
    let mut cx = CodegenCx::new(dl(), None);
    let a = cx.const_cstr(9, b"xy", false);
    match &cx.globals[a].initializer {
        Some(Const::Bytes { data }) => assert_eq!(data, &vec![120, 121]),
        _ => panic!("expected the bare string bytes"),
    }
}

#[test]
fn constant_globals_are_interned_and_alignment_upgrades() {
    let mut cx = CodegenCx::new(dl(), None);
    let a = cx.static_addr_of(Const::Bytes { data: vec![1, 2] }, 4);
    let b = cx.static_addr_of(Const::Bytes { data: vec![1, 2] }, 16);
    assert_eq!(a, b);
    assert_eq!(cx.globals[a].align, Some(16));
    assert!(cx.globals[a].constant);
    let c = cx.static_addr_of(Const::Bytes { data: vec![3] }, 1);
    assert_ne!(a, c);
}

#[test]
fn unsupported_linkage_kind_is_fatal() {
    let mut cx = CodegenCx::new(dl(), None);
    let mut d = desc(1);
    d.is_local = false;
    d.linkage_attr = Some(Linkage::Appending);
    assert_eq!(cx.get_static(&d).unwrap_err(), Fatal::UnsupportedLinkage);
}

#[test]
fn linkage_attribute_demands_a_raw_pointer_type() {
    let mut cx = CodegenCx::new(dl(), None);
    let mut d = desc(2);
    d.is_local = false;
    d.linkage_attr = Some(Linkage::WeakAny);
    d.pointee_llty = None;
    assert_eq!(
        cx.get_static(&d).unwrap_err(),
        Fatal::LinkageRequiresRawPointer,
    );
}

#[test]
fn linkage_attribute_declares_the_symbol_and_an_internal_twin() {
    let mut cx = CodegenCx::new(dl(), None);
    let mut d = desc(3);
    d.is_local = false;
    d.linkage_attr = Some(Linkage::WeakAny);
    d.pointee_llty = Some(LowType::Int { bits: 32 });
    let g = cx.get_static(&d).unwrap();
    assert_eq!(cx.globals[g].name, GlobalName::ExternWithLinkage { id: 3 });
    assert_eq!(cx.globals[g].linkage, LlLinkage::InternalLinkage);
    match &cx.globals[g].initializer {
        Some(Const::GlobalRef { id }) => {
            assert_eq!(cx.globals[*id].name, GlobalName::Sym { id: 3 });
            assert_eq!(cx.globals[*id].linkage, LlLinkage::WeakAnyLinkage);
        },
        _ => panic!("expected the twin to hold the symbol's address"),
    }
}

#[test]
fn thread_local_statics_are_fatal() {
    let mut cx = CodegenCx::new(dl(), None);
    let mut d = desc(4);
    d.is_thread_local = true;
    assert_eq!(cx.get_static(&d).unwrap_err(), Fatal::ThreadLocalUnsupported);
}

#[test]
fn unreachable_local_static_is_hidden() {
    let mut cx = CodegenCx::new(dl(), None);
    let mut d = desc(5);
    d.is_reachable_non_generic = false;
    let g = cx.get_static(&d).unwrap();
    assert_eq!(cx.globals[g].visibility, Visibility::Hidden);
    // The second request hits the unit's cache.
    let g2 = cx.get_static(&d).unwrap();
    assert_eq!(g, g2);
    assert_eq!(cx.instances.len(), 1);
}

#[test]
fn conflicting_types_for_one_static_are_fatal() {
    let mut cx = CodegenCx::new(dl(), None);
    let first = cx.declare_global(
        GlobalName::Sym { id: 6 },
        LowType::Int { bits: 64 },
        0,
    );
    assert_eq!(first, 0);
    let d = desc(6);  // declares itself at 32 bits
    assert_eq!(cx.get_static(&d).unwrap_err(), Fatal::ConflictingStaticTypes);
}

#[test]
fn codegen_static_sets_initializer_alignment_and_read_only_memory() {
    let mut cx = CodegenCx::new(dl(), None);
    let mut d = desc(7);
    // The declared type matches the encoded struct so that no correction
    // is needed.
    d.llty = LowType::Struct {
        fields: vec![LowType::Array { elem: Box::new(LowType::Int { bits: 8 }), len: 4 }],
        packed: true,
    };
    let img = MemoryImage {
        bytes: vec![1, 2, 3, 4],
        defined: vec![true; 4],
        relocs: vec![],
    };
    cx.codegen_static(&d, Some(&img), false).unwrap();
    assert_eq!(cx.global_debug_metadata.len(), 1);
    let g = cx.global_debug_metadata[0];
    assert_eq!(cx.globals[g].align, Some(4));
    assert!(cx.globals[g].constant);
    assert!(cx.statics_to_rauw.is_empty());
    match &cx.globals[g].initializer {
        Some(Const::Struct { fields, .. }) => assert_eq!(fields.len(), 1),
        _ => panic!("expected the encoded initializer"),
    }
}

#[test]
fn codegen_static_corrects_a_mismatched_type_for_later_rewriting() {
    let mut cx = CodegenCx::new(dl(), None);
    let d = desc(8);  // declared as a 32-bit integer, encoded as a struct
    let img = MemoryImage {
        bytes: vec![0, 0, 0, 0],
        defined: vec![true; 4],
        relocs: vec![],
    };
    cx.codegen_static(&d, Some(&img), false).unwrap();
    assert_eq!(cx.statics_to_rauw.len(), 1);
    let (old_g, new_g) = cx.statics_to_rauw[0];
    assert_eq!(cx.globals[old_g].name, GlobalName::Blank);
    assert_eq!(cx.globals[new_g].name, GlobalName::Sym { id: 8 });
    // One metadata attachment, on the corrected global.
    assert_eq!(cx.global_debug_metadata, vec![new_g]);
}

#[test]
fn mutable_static_stays_writable() {
    let mut cx = CodegenCx::new(dl(), None);
    let mut d = desc(9);
    d.llty = LowType::Struct {
        fields: vec![LowType::Array { elem: Box::new(LowType::Int { bits: 8 }), len: 1 }],
        packed: true,
    };
    let img = MemoryImage { bytes: vec![5], defined: vec![true], relocs: vec![] };
    cx.codegen_static(&d, Some(&img), true).unwrap();
    let g = cx.global_debug_metadata[0];
    assert!(!cx.globals[g].constant);
}

#[test]
fn used_attribute_keeps_the_global_alive() {
    let mut cx = CodegenCx::new(dl(), None);
    let mut d = desc(10);
    d.is_used_attr = true;
    d.llty = LowType::Struct {
        fields: vec![LowType::Array { elem: Box::new(LowType::Int { bits: 8 }), len: 1 }],
        packed: true,
    };
    let img = MemoryImage { bytes: vec![0], defined: vec![true], relocs: vec![] };
    cx.codegen_static(&d, Some(&img), false).unwrap();
    assert_eq!(cx.used_statics.len(), 1);
    match &cx.used_statics[0] {
        Const::Cast { val, ty } => {
            assert!(matches!(&**val, Const::GlobalRef { .. }));
            assert!(ty_eq(
                ty,
                &LowType::Ptr { pointee: Box::new(LowType::Int { bits: 8 }), addrspace: 0 },
            ));
        },
        _ => panic!("expected the global's address as a byte pointer"),
    }
}

#[test]
fn failed_initializer_evaluation_changes_nothing() {
    let mut cx = CodegenCx::new(dl(), None);
    let d = desc(11);
    cx.codegen_static(&d, None, false).unwrap();
    assert!(cx.globals.is_empty());
    assert!(cx.global_debug_metadata.is_empty());
}

#[test]
fn statics_with_relocated_pointers_encode_their_targets() {
    let mut cx = CodegenCx::new(dl(), None);
    let mut d = desc(12);
    d.llty = LowType::Int { bits: 64 };
    let img = MemoryImage {
        bytes: vec![0; 8],
        defined: vec![true; 8],
        relocs: vec![Reloc { offset: 0, target: AllocTarget::Static { id: 40 } }],
    };
    cx.codegen_static(&d, Some(&img), false).unwrap();
    let g = cx.global_debug_metadata[0];
    match &cx.globals[g].initializer {
        Some(Const::Struct { fields, .. }) => {
            assert!(matches!(&fields[0], Const::PtrReloc { .. }));
        },
        _ => panic!("expected the encoded initializer"),
    }
}

#[test]
fn every_source_linkage_maps_to_its_target_name() {
    assert_eq!(linkage_to_llvm(Linkage::External), LlLinkage::ExternalLinkage);
    assert_eq!(linkage_to_llvm(Linkage::Internal), LlLinkage::InternalLinkage);
    assert_eq!(linkage_to_llvm(Linkage::Private), LlLinkage::PrivateLinkage);
    assert_eq!(linkage_to_llvm(Linkage::WeakODR), LlLinkage::WeakODRLinkage);
    assert_eq!(linkage_to_llvm(Linkage::Appending), LlLinkage::AppendingLinkage);
    assert_eq!(
        linkage_to_llvm(Linkage::ExternalWeak),
        LlLinkage::ExternalWeakLinkage,
    );
}

#[test]
fn policy_mappings_follow_the_driver_tables() {
    assert_eq!(
        to_llvm_opt_settings(OptLevel::Size),
        (CodeGenOptLevel::Default, CodeGenOptSize::Default),
    );
    assert_eq!(
        to_llvm_opt_settings(OptLevel::No),
        (CodeGenOptLevel::Off, CodeGenOptSize::Off),
    );
    assert_eq!(to_llvm_relocation_model(RelocModel::Pic), RelocMode::Pic);
    assert_eq!(to_llvm_code_model(Some(CodeModel::Tiny)), LlCodeModel::Small);
    assert_eq!(to_llvm_code_model(None), LlCodeModel::Unset);
    assert_eq!(pass_disposition(None), PassAction::WarnUnknownAndSkip);
    assert_eq!(
        pass_disposition(Some(PassKind::Other)),
        PassAction::ReportUnhandledKind,
    );
    assert_eq!(
        llvm_err(None, String::from("boom")),
        FatalDiag::Plain { msg: String::from("boom") },
    );
    assert_eq!(
        llvm_err(Some(String::from("why")), String::from("boom")),
        FatalDiag::WithDetail { msg: String::from("boom"), detail: String::from("why") },
    );
}

#[test]
fn compiler_used_globals_are_collected_as_byte_pointers() {
    let mut cx = CodegenCx::new(dl(), None);
    let g = cx.static_addr_of(Const::Bytes { data: vec![1] }, 1);
    cx.add_compiler_used_global(g);
    assert_eq!(cx.compiler_used_statics.len(), 1);
    match &cx.compiler_used_statics[0] {
        Const::Cast { val, .. } => match &**val {
            Const::GlobalRef { id } => assert_eq!(*id, g),
            _ => panic!("expected the global's address"),
        },
        _ => panic!("expected a pointer cast"),
    }
}

#[test]
fn a_symbol_defined_twice_under_linkage_is_fatal() {
    let mut cx = CodegenCx::new(dl(), None);
    let mut d = desc(20);
    d.is_local = false;
    d.linkage_attr = Some(Linkage::Common);
    d.pointee_llty = Some(LowType::Int { bits: 8 });
    cx.get_static(&d).unwrap();
    // A second definition of the same symbol, misses the instance cache.
    let mut d2 = desc(21);
    d2.sym = 20;
    d2.is_local = false;
    d2.linkage_attr = Some(Linkage::Common);
    d2.pointee_llty = Some(LowType::Int { bits: 8 });
    assert_eq!(cx.get_static(&d2).unwrap_err(), Fatal::DuplicateSymbol);
}

#[test]
fn a_cached_static_is_serialized_like_a_fresh_one() {
    let mut cx = CodegenCx::new(dl(), None);
    let mut d = desc(30);
    d.llty = LowType::Struct {
        fields: vec![LowType::Array { elem: Box::new(LowType::Int { bits: 8 }), len: 2 }],
        packed: true,
    };
    // Materialize the global first, so that serialization hits the
    // instance cache.
    let g0 = cx.get_static(&d).unwrap();
    let img = MemoryImage { bytes: vec![1, 2], defined: vec![true; 2], relocs: vec![] };
    cx.codegen_static(&d, Some(&img), false).unwrap();
    assert_eq!(cx.global_debug_metadata, vec![g0]);
    assert_eq!(cx.globals[g0].align, Some(4));
    assert!(cx.globals[g0].initializer.is_some());
}
