//! The constant allocation encoder on concrete memory images.

use nvvm_lower::consts::{const_eq, AllocTarget, Const};
use nvvm_lower::context::{CodegenCx, DataLayout};
use nvvm_lower::encode::{const_alloc_to_llvm, MemoryImage, Reloc};
use nvvm_lower::types::LowType;

fn dl() -> DataLayout {
    DataLayout { pointer_bytes: 8, instruction_addrspace: 1 }
}

fn image(bytes: Vec<u8>, defined: Vec<bool>, relocs: Vec<Reloc>) -> MemoryImage {
    MemoryImage { bytes, defined, relocs }
}

fn fields_of(c: &Const) -> &Vec<Const> {
    match c {
        Const::Struct { fields, packed } => {
            assert!(*packed);
            fields
        },
        _ => panic!("the encoder always yields a packed struct"),
    }
}

#[test]
fn fully_defined_image_without_relocations_is_one_literal_chunk() {
    let cx = CodegenCx::new(dl(), None);
    let img = image(vec![1, 2, 3, 4], vec![true; 4], vec![]);
    let c = const_alloc_to_llvm(&cx, &img);
    let fields = fields_of(&c);
    assert_eq!(fields.len(), 1);
    match &fields[0] {
        Const::Bytes { data } => assert_eq!(data, &vec![1, 2, 3, 4]),
        _ => panic!("expected a literal chunk"),
    }
}

#[test]
fn image_with_one_relocation_at_its_tail_has_no_trailing_field() {
    // Sixteen bytes, one relocation at offset eight: an eight-byte
    // literal prefix, then the typed pointer, and nothing after it.
    let cx = CodegenCx::new(dl(), None);
    let mut bytes = vec![0u8; 16];
    for (i, b) in bytes.iter_mut().enumerate().take(8) {
        *b = i as u8;
    }
    bytes[8] = 0x2a; // addend 42, little-endian
    let img = image(
        bytes,
        vec![true; 16],
        vec![Reloc { offset: 8, target: AllocTarget::Memory { id: 3 } }],
    );
    let c = const_alloc_to_llvm(&cx, &img);
    let fields = fields_of(&c);
    assert_eq!(fields.len(), 2);
    match &fields[0] {
        Const::Bytes { data } => assert_eq!(data.len(), 8),
        _ => panic!("expected the literal prefix"),
    }
    match &fields[1] {
        Const::PtrReloc { target, addend, addrspace } => {
            assert_eq!(*target, AllocTarget::Memory { id: 3 });
            assert_eq!(*addend, 42);
            // Data allocations live in the default address space.
            assert_eq!(*addrspace, 0);
        },
        _ => panic!("expected the typed pointer"),
    }
}

#[test]
fn code_relocation_is_typed_into_the_instruction_address_space() {
    let cx = CodegenCx::new(dl(), None);
    let img = image(
        vec![0u8; 8],
        vec![true; 8],
        vec![Reloc { offset: 0, target: AllocTarget::Function { id: 7 } }],
    );
    let c = const_alloc_to_llvm(&cx, &img);
    let fields = fields_of(&c);
    assert_eq!(fields.len(), 1);
    match &fields[0] {
        Const::PtrReloc { addrspace, .. } => assert_eq!(*addrspace, 1),
        _ => panic!("expected the typed pointer"),
    }
}

#[test]
fn default_policy_collapses_a_mixed_span_into_one_literal_chunk() {
    let cx = CodegenCx::new(dl(), None);
    let img = image(vec![9, 0, 9, 0], vec![true, false, true, false], vec![]);
    let c = const_alloc_to_llvm(&cx, &img);
    let fields = fields_of(&c);
    assert_eq!(fields.len(), 1);
    match &fields[0] {
        Const::Bytes { data } => assert_eq!(data.len(), 4),
        _ => panic!("expected one collapsed literal chunk"),
    }
}

#[test]
fn threshold_keeps_each_maximal_run_of_a_small_span() {
    let cx = CodegenCx::new(dl(), Some(16));
    let img = image(
        vec![9, 9, 0, 0, 7],
        vec![true, true, false, false, true],
        vec![],
    );
    let c = const_alloc_to_llvm(&cx, &img);
    let fields = fields_of(&c);
    assert_eq!(fields.len(), 3);
    match &fields[0] {
        Const::Bytes { data } => assert_eq!(data, &vec![9, 9]),
        _ => panic!("expected the defined run"),
    }
    match &fields[1] {
        Const::Undef { len } => assert_eq!(*len, 2),
        _ => panic!("expected the undefined run"),
    }
    match &fields[2] {
        Const::Bytes { data } => assert_eq!(data, &vec![7]),
        _ => panic!("expected the trailing defined run"),
    }
}

#[test]
fn span_over_the_threshold_collapses_even_when_mixed() {
    let cx = CodegenCx::new(dl(), Some(2));
    let img = image(vec![9, 0, 9], vec![true, false, true], vec![]);
    let c = const_alloc_to_llvm(&cx, &img);
    let fields = fields_of(&c);
    assert_eq!(fields.len(), 1);
    assert!(matches!(&fields[0], Const::Bytes { .. }));
}

#[test]
fn single_undefined_span_stays_an_undefined_placeholder() {
    let cx = CodegenCx::new(dl(), None);
    let img = image(vec![0, 0, 0], vec![false, false, false], vec![]);
    let c = const_alloc_to_llvm(&cx, &img);
    let fields = fields_of(&c);
    assert_eq!(fields.len(), 1);
    match &fields[0] {
        Const::Undef { len } => assert_eq!(*len, 3),
        _ => panic!("expected one undefined placeholder"),
    }
}

#[test]
fn encoding_is_idempotent_on_one_image_and_policy() {
    let cx = CodegenCx::new(dl(), Some(8));
    let img = image(
        vec![1, 2, 0, 4, 5, 6, 7, 8, 0x11, 0, 0, 0, 0, 0, 0, 0],
        vec![
            true, true, false, true, true, true, true, true, true, true, true, true, true,
            true, true, true,
        ],
        vec![Reloc { offset: 8, target: AllocTarget::Static { id: 1 } }],
    );
    let a = const_alloc_to_llvm(&cx, &img);
    let b = const_alloc_to_llvm(&cx, &img);
    assert!(const_eq(&a, &b));
}

#[test]
fn relocation_addend_is_read_little_endian() {
    let cx = CodegenCx::new(dl(), None);
    let mut bytes = vec![0u8; 8];
    bytes[0] = 0x01;
    bytes[1] = 0x02;
    let img = image(
        bytes,
        vec![true; 8],
        vec![Reloc { offset: 0, target: AllocTarget::Static { id: 2 } }],
    );
    let c = const_alloc_to_llvm(&cx, &img);
    let fields = fields_of(&c);
    match &fields[0] {
        Const::PtrReloc { addend, .. } => assert_eq!(*addend, 0x0201),
        _ => panic!("expected the typed pointer"),
    }
}

#[test]
fn byte_and_array_constants_are_built_structurally() {
    let cx = CodegenCx::new(dl(), None);
    let b = cx.const_bytes(&[1, 2, 3]);
    match &b {
        Const::Bytes { data } => assert_eq!(data, &vec![1, 2, 3]),
        _ => panic!("expected bytes"),
    }
    let a = cx.const_array(
        &LowType::Int { bits: 8 },
        vec![Const::Undef { len: 1 }, Const::Undef { len: 1 }],
    );
    match &a {
        Const::Array { elems, .. } => assert_eq!(elems.len(), 2),
        _ => panic!("expected an array"),
    }
}

#[test]
fn bitcast_wraps_a_value_at_another_type() {
    let cx = CodegenCx::new(dl(), None);
    let c = cx.const_bitcast(
        Const::Bytes { data: vec![1] },
        LowType::Int { bits: 8 },
    );
    match &c {
        Const::Cast { val, ty } => {
            assert!(matches!(&**val, Const::Bytes { .. }));
            assert!(matches!(ty, LowType::Int { bits: 8 }));
        },
        _ => panic!("expected a retyped value"),
    }
}

#[test]
fn empty_image_encodes_to_an_empty_struct() {
    let cx = CodegenCx::new(dl(), None);
    let img = image(vec![], vec![], vec![]);
    let c = const_alloc_to_llvm(&cx, &img);
    assert!(fields_of(&c).is_empty());
}
