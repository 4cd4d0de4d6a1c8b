//! The constant allocation encoder: a compile-time memory image —
//! defined bytes, undefined padding, and pointer relocations — becomes
//! one packed struct whose fields enumerate the image's byte ranges in
//! ascending offset order.
//!
//! Relocations are walked in ascending order; the byte span before each
//! becomes literal and undefined fields under the partial-uninit policy,
//! then the relocation's pointer value follows, typed into its target's
//! address space; the trailing span closes the image. A span at or under
//! the policy's threshold keeps each maximal defined or undefined sub-run
//! as its own field; a longer mixed span collapses into one literal
//! chunk whose bytes at undefined positions are meaningless filler.

use vstd::prelude::*;

use crate::consts::{
    AllocTarget, Const, ConstV, const_content, const_dv_seq, const_len, fields_content,
    sum_const_lens, lemma_fields_content_concat, lemma_sum_const_lens_concat,
};
use crate::context::{CodegenCx, DataLayout};
use crate::types::DATA_ADDRSPACE;

verus! {

broadcast use
    vstd::std_specs::vec::group_vec_axioms,
    vstd::seq::group_seq_axioms,
;

/// One pointer relocation: at `offset`, the image stores the address of
/// `target` plus the addend held in the bytes at the offset.
#[derive(Clone, Copy, PartialEq, Eq, Structural, Debug)]
pub struct Reloc {
    pub offset: usize,
    pub target: AllocTarget,
}

/// A compile-time memory image: its bytes, the definedness of each byte,
/// and its relocations in ascending offset order.
pub struct MemoryImage {
    pub bytes: Vec<u8>,
    pub defined: Vec<bool>,
    pub relocs: Vec<Reloc>,
}

impl MemoryImage {
    /// Definedness covers every byte; relocations are pointer-width
    /// aligned, non-overlapping, ascending, and fully contained.
    pub open spec fn wf(self, dl: DataLayout) -> bool {
        &&& self.defined@.len() == self.bytes@.len()
        &&& self.bytes@.len() <= 0x4000_0000
        &&& forall|k: int|
            0 <= k < self.relocs@.len() ==> (#[trigger] self.relocs@[k]).offset
                + dl.pointer_bytes <= self.bytes@.len()
        &&& forall|k: int|
            0 <= k && k + 1 < self.relocs@.len() ==> (#[trigger] self.relocs@[k]).offset
                + dl.pointer_bytes <= self.relocs@[k + 1].offset
        &&& forall|k: int|
            0 <= k < self.relocs@.len() ==> (#[trigger] self.relocs@[k]).offset as int
                % dl.pointer_bytes as int == 0
    }
}

/// The little-endian value of `n` bytes starting at `off`.
pub open spec fn le_val(b: Seq<u8>, off: int, n: nat) -> nat
    decreases n,
{
    if n == 0 {
        0
    } else {
        (b[off] + 256 * le_val(b, off + 1, (n - 1) as nat)) as nat
    }
}

/// The value of `n` bytes stays under two to the eight-times-`n`.
pub proof fn lemma_le_val_bound(b: Seq<u8>, off: int, n: nat)
    requires
        0 <= off,
        off + n <= b.len(),
    ensures
        le_val(b, off, n) < vstd::arithmetic::power2::pow2(8 * n),
    decreases n,
{
    vstd::arithmetic::power2::lemma_pow2_pos(8 * n);
    vstd::arithmetic::power2::lemma2_to64();
    if n == 0 {
    } else {
        lemma_le_val_bound(b, off + 1, (n - 1) as nat);
        vstd::arithmetic::power2::lemma_pow2_adds(8, 8 * (n - 1) as nat);
        let rest = le_val(b, off + 1, (n - 1) as nat);
        let p = vstd::arithmetic::power2::pow2(8 * (n - 1) as nat);
        assert(b[off] + 256 * rest < 256 * p) by (nonlinear_arith)
            requires
                0 <= b[off] < 256,
                rest < p,
                0 < p,
        ;
    }
}

/// Reads the little-endian pointer-wide integer stored at `off`: the
/// relocation's addend.
pub fn read_le(bytes: &Vec<u8>, off: usize, n: usize) -> (r: u64)
    requires
        off + n <= bytes@.len(),
        n <= 8,
    ensures
        r == le_val(bytes@, off as int, n as nat),
{
    let total = bytes.len();
    let mut acc: u64 = 0;
    let mut i: usize = n;
    while i > 0
        invariant
            i <= n,
            n <= 8,
            total == bytes@.len(),
            off + n <= total,
            acc == le_val(bytes@, off + i as int, (n - i) as nat),
        decreases i,
    {
        i = i - 1;
        let b = bytes[off + i];
        proof {
            lemma_le_val_bound(bytes@, off + i + 1, (n - i - 1) as nat);
            vstd::arithmetic::power2::lemma2_to64();
            vstd::arithmetic::power2::lemma2_to64_rest();
            if 8 * ((n - i - 1) as nat) < 56 {
                vstd::arithmetic::power2::lemma_pow2_strictly_increases(
                    8 * ((n - i - 1) as nat),
                    56,
                );
            }
        }
        acc = (b as u64) + 256 * acc;
    }
    acc
}

/// Whether a span of `len` bytes may keep its undefined sub-runs: only
/// under an explicit threshold at least as large. The default policy —
/// no threshold — never allows it.
pub open spec fn under_threshold(policy: Option<usize>, len: int) -> bool {
    match policy {
        Some(max) => len <= max,
        None => false,
    }
}

/// Where the definedness run starting at `i` ends, capped at `end`.
pub open spec fn run_end(d: Seq<bool>, i: int, end: int) -> int
    decreases end - i,
{
    if i + 1 >= end {
        end
    } else if d[i + 1] == d[i] {
        run_end(d, i + 1, end)
    } else {
        i + 1
    }
}

/// A run covers at least one byte, stays within the span, is constant,
/// and is maximal.
pub proof fn lemma_run_end_props(d: Seq<bool>, i: int, end: int)
    requires
        0 <= i < end <= d.len(),
    ensures
        i < run_end(d, i, end) <= end,
        forall|j: int| i <= j < run_end(d, i, end) ==> d[j] == d[i],
        run_end(d, i, end) < end ==> d[run_end(d, i, end)] != d[i],
    decreases end - i,
{
    if i + 1 >= end {
    } else if d[i + 1] == d[i] {
        lemma_run_end_props(d, i + 1, end);
    } else {
    }
}

/// The one field a single maximal run becomes: a literal chunk when its
/// bytes are defined, a typed undefined placeholder when they are not.
pub open spec fn run_field(b: Seq<u8>, d: Seq<bool>, i: int, e: int) -> ConstV {
    if d[i] {
        ConstV::Bytes { data: b.subrange(i, e) }
    } else {
        ConstV::Undef { len: (e - i) as u64 }
    }
}

/// Every maximal run of the span `[i, end)`, each as its own field.
pub open spec fn runs_fields(b: Seq<u8>, d: Seq<bool>, i: int, end: int) -> Seq<ConstV>
    decreases end - i,
{
    if i < 0 || i >= end {
        Seq::empty()
    } else {
        let e0 = run_end(d, i, end);
        let e = if i < e0 && e0 <= end {
            e0
        } else {
            i + 1
        };
        seq![run_field(b, d, i, e)] + runs_fields(b, d, e, end)
    }
}

/// What one byte span contributes: nothing when empty; its runs when the
/// policy admits the span; a lone run as itself; a longer mixed span as
/// one literal chunk, undefined positions filled from the buffer.
pub open spec fn span_fields(
    b: Seq<u8>,
    d: Seq<bool>,
    s: int,
    end: int,
    policy: Option<usize>,
) -> Seq<ConstV> {
    if s >= end {
        Seq::empty()
    } else if under_threshold(policy, end - s) {
        runs_fields(b, d, s, end)
    } else {
        if run_end(d, s, end) >= end {
            seq![run_field(b, d, s, end)]
        } else {
            seq![ConstV::Bytes { data: b.subrange(s, end) }]
        }
    }
}

/// The address space a relocation's pointer is typed into: compiled code
/// lives in the instruction address space, all data in the default one.
pub open spec fn reloc_addrspace(t: AllocTarget, instruction_addrspace: u32) -> u32 {
    match t {
        AllocTarget::Function { .. } => instruction_addrspace,
        _ => DATA_ADDRSPACE,
    }
}

/// The pointer field one relocation becomes.
pub open spec fn ptr_field(b: Seq<u8>, r: Reloc, ptr_bytes: nat, instruction_addrspace: u32)
    -> ConstV {
    ConstV::PtrReloc {
        target: r.target,
        addend: le_val(b, r.offset as int, ptr_bytes) as u64,
        addrspace: reloc_addrspace(r.target, instruction_addrspace),
    }
}

/// The encoded fields from relocation `k` on, the span cursor standing
/// at `next`.
pub open spec fn encode_fields(
    b: Seq<u8>,
    d: Seq<bool>,
    relocs: Seq<Reloc>,
    k: int,
    next: int,
    policy: Option<usize>,
    ptr_bytes: nat,
    instruction_addrspace: u32,
) -> Seq<ConstV>
    decreases relocs.len() - k,
{
    if k < 0 || k >= relocs.len() {
        span_fields(b, d, next, b.len() as int, policy)
    } else {
        let off = relocs[k].offset as int;
        span_fields(b, d, next, off, policy) + seq![
            ptr_field(b, relocs[k], ptr_bytes, instruction_addrspace),
        ] + encode_fields(
            b,
            d,
            relocs,
            k + 1,
            off + ptr_bytes,
            policy,
            ptr_bytes,
            instruction_addrspace,
        )
    }
}

/// What encoding an image yields: one packed struct of its fields.
pub open spec fn spec_encode(img: MemoryImage, policy: Option<usize>, dl: DataLayout) -> ConstV {
    ConstV::Struct {
        fields: encode_fields(
            img.bytes@,
            img.defined@,
            img.relocs@,
            0,
            0,
            policy,
            dl.pointer_bytes as nat,
            dl.instruction_addrspace,
        ),
        packed: true,
    }
}

/// Copies the bytes of `[from, to)` into a fresh list.
fn copy_bytes(bytes: &Vec<u8>, from: usize, to: usize) -> (r: Vec<u8>)
    requires
        from <= to <= bytes@.len(),
    ensures
        r@ == bytes@.subrange(from as int, to as int),
{
    let mut r: Vec<u8> = Vec::new();
    let mut i: usize = from;
    while i < to
        invariant
            from <= i <= to <= bytes@.len(),
            r@ =~= bytes@.subrange(from as int, i as int),
        decreases to - i,
    {
        r.push(bytes[i]);
        proof {
            assert(r@ =~= bytes@.subrange(from as int, i + 1));
        }
        i += 1;
    }
    r
}

/// Finds the end of the definedness run starting at `i`, capped at `end`.
fn run_end_exec(d: &Vec<bool>, i: usize, end: usize) -> (r: usize)
    requires
        i < end <= d@.len(),
    ensures
        r == run_end(d@, i as int, end as int),
        i < r <= end,
{
    proof {
        lemma_run_end_props(d@, i as int, end as int);
    }
    let first = d[i];
    let mut j: usize = i;
    while j + 1 < end && d[j + 1] == first
        invariant
            i <= j < end <= d@.len(),
            d@[j as int] == d@[i as int],
            run_end(d@, i as int, end as int) == run_end(d@, j as int, end as int),
            first == d@[i as int],
        decreases end - j,
    {
        j += 1;
    }
    if j + 1 >= end {
        end
    } else {
        j + 1
    }
}

/// Appends one span's fields: each maximal run on its own under the
/// policy's threshold, a lone run as itself, a longer mixed span as one
/// collapsed literal chunk.
#[verifier::loop_isolation(false)]
#[verifier::rlimit(100)]
#[verifier::spinoff_prover]
fn append_span_fields(
    llvals: &mut Vec<Const>,
    bytes: &Vec<u8>,
    defined: &Vec<bool>,
    start: usize,
    end: usize,
    policy: Option<usize>,
)
    requires
        start <= end <= bytes@.len(),
        defined@.len() == bytes@.len(),
    ensures
        const_dv_seq(final(llvals)@) == const_dv_seq(old(llvals)@) + span_fields(
            bytes@,
            defined@,
            start as int,
            end as int,
            policy,
        ),
{
    let ghost base = const_dv_seq(llvals@);
    let ghost span = span_fields(bytes@, defined@, start as int, end as int, policy);
    if start >= end {
        proof {
            assert(base + span =~= base);
        }
        return ;
    }
    let allow = match policy {
        Some(max) => end - start <= max,
        None => false,
    };
    if allow {
        let mut i: usize = start;
        while i < end
            invariant
                start <= i <= end,
                const_dv_seq(llvals@) + runs_fields(bytes@, defined@, i as int, end as int)
                    == base + runs_fields(bytes@, defined@, start as int, end as int),
            decreases end - i,
        {
            proof {
                lemma_run_end_props(defined@, i as int, end as int);
            }
            let e = run_end_exec(defined, i, end);
            let ghost before = const_dv_seq(llvals@);
            let ghost rf = run_field(bytes@, defined@, i as int, e as int);
            if defined[i] {
                let data = copy_bytes(bytes, i, e);
                llvals.push(Const::Bytes { data });
            } else {
                llvals.push(Const::Undef { len: (e - i) as u64 });
            }
            proof {
                assert(const_dv_seq(llvals@) =~= before.push(rf));
                assert(before.push(rf) =~= before + seq![rf]);
                let rest = runs_fields(bytes@, defined@, e as int, end as int);
                assert(runs_fields(bytes@, defined@, i as int, end as int) == seq![rf]
                    + rest);
                vstd::seq_lib::lemma_concat_associative(before, seq![rf], rest);
            }
            i = e;
        }
        proof {
            assert(runs_fields(bytes@, defined@, end as int, end as int) =~= Seq::<
                ConstV,
            >::empty());
            assert(const_dv_seq(llvals@) + Seq::<ConstV>::empty() =~= const_dv_seq(llvals@));
        }
    } else {
        let e = run_end_exec(defined, start, end);
        let ghost before = const_dv_seq(llvals@);
        if e >= end {
            // One maximal run: emit it as it is.
            let ghost rf = run_field(bytes@, defined@, start as int, end as int);
            if defined[start] {
                let data = copy_bytes(bytes, start, end);
                llvals.push(Const::Bytes { data });
            } else {
                llvals.push(Const::Undef { len: (end - start) as u64 });
            }
            proof {
                assert(const_dv_seq(llvals@) =~= before.push(rf));
                assert(before.push(rf) =~= before + seq![rf]);
            }
        } else {
            // Mixed and over the threshold: collapse to one literal
            // chunk; bytes at undefined positions are meaningless filler.
            let data = copy_bytes(bytes, start, end);
            llvals.push(Const::Bytes { data });
            proof {
                let rf = ConstV::Bytes {
                    data: bytes@.subrange(start as int, end as int),
                };
                assert(const_dv_seq(llvals@) =~= before.push(rf));
                assert(before.push(rf) =~= before + seq![rf]);
            }
        }
    }
}

/// Serializes a memory image into one packed struct whose fields cover
/// the image's bytes in ascending offset order: the spans between
/// relocations under the unit's partial-uninit policy, and each
/// relocation as a pointer into its target's address space.
#[verifier::loop_isolation(false)]
#[verifier::rlimit(100)]
#[verifier::spinoff_prover]
pub fn const_alloc_to_llvm(cx: &CodegenCx, alloc: &MemoryImage) -> (r: Const)
    requires
        cx.wf(),
        alloc.wf(cx.dl),
    ensures
        r.deep_view() == spec_encode(*alloc, cx.uninit_threshold, cx.dl),
{
    let ghost b = alloc.bytes@;
    let ghost d = alloc.defined@;
    let ghost rl = alloc.relocs@;
    let ghost ptr = cx.dl.pointer_bytes as nat;
    let ghost ias = cx.dl.instruction_addrspace;
    let ghost policy = cx.uninit_threshold;
    let ghost full = encode_fields(b, d, rl, 0, 0, policy, ptr, ias);

    let pointer_size: usize = cx.dl.pointer_bytes as usize;
    let mut llvals: Vec<Const> = Vec::new();
    let mut next_offset: usize = 0;
    let nrel = alloc.relocs.len();
    let mut k: usize = 0;
    while k < nrel
        invariant
            k <= nrel,
            next_offset as int == (if k == 0 {
                0int
            } else {
                rl[k as int - 1].offset + ptr
            }),
            next_offset <= alloc.bytes@.len(),
            k < nrel ==> next_offset <= rl[k as int].offset,
            const_dv_seq(llvals@) + encode_fields(
                b,
                d,
                rl,
                k as int,
                next_offset as int,
                policy,
                ptr,
                ias,
            ) == full,
        decreases nrel - k,
    {
        let reloc = alloc.relocs[k];
        let offset = reloc.offset;
        let ghost before0 = const_dv_seq(llvals@);
        // The span of plain bytes before this relocation.
        append_span_fields(&mut llvals, &alloc.bytes, &alloc.defined, next_offset, offset,
            cx.uninit_threshold);
        // The relocation: the stored little-endian addend, typed into
        // the target's address space.
        let addend = read_le(&alloc.bytes, offset, pointer_size);
        let addrspace = match reloc.target {
            AllocTarget::Function { .. } => cx.dl.instruction_addrspace,
            _ => DATA_ADDRSPACE,
        };
        let ghost pf = ptr_field(b, rl[k as int], ptr, ias);
        llvals.push(Const::PtrReloc { target: reloc.target, addend, addrspace });
        proof {
            lemma_le_val_bound(b, offset as int, ptr);
            let sp = span_fields(b, d, next_offset as int, offset as int, policy);
            let rest = encode_fields(b, d, rl, k + 1, offset + ptr, policy, ptr, ias);
            // Reassociate: what stands in the list plus what is still to
            // come is the whole encoding.
            assert(const_dv_seq(llvals@) =~= (before0 + sp).push(pf));
            assert((before0 + sp).push(pf) =~= (before0 + sp) + seq![pf]);
            vstd::seq_lib::lemma_concat_associative(before0, sp, seq![pf]);
            vstd::seq_lib::lemma_concat_associative(before0, sp + seq![pf], rest);
            assert(encode_fields(b, d, rl, k as int, next_offset as int, policy, ptr, ias)
                == (sp + seq![pf]) + rest);
        }
        next_offset = offset + pointer_size;
        k += 1;
    }
    // The trailing span after the last relocation.
    append_span_fields(
        &mut llvals,
        &alloc.bytes,
        &alloc.defined,
        next_offset,
        alloc.bytes.len(),
        cx.uninit_threshold,
    );
    proof {
        assert(const_dv_seq(llvals@) == full);
    }
    Const::Struct { fields: llvals, packed: true }
}

/// A singleton field list's content is the field's content.
proof fn lemma_fields_content_singleton(f: ConstV, ptr_bytes: nat)
    ensures
        fields_content(seq![f], ptr_bytes) == const_content(f, ptr_bytes),
{
    assert(seq![f].drop_first() =~= Seq::<ConstV>::empty());
    assert(fields_content(Seq::<ConstV>::empty(), ptr_bytes) =~= Seq::<Option<u8>>::empty());
    assert(const_content(f, ptr_bytes) + Seq::<Option<u8>>::empty() =~= const_content(
        f,
        ptr_bytes,
    ));
}

/// A singleton field list's length is the field's length.
proof fn lemma_sum_const_lens_singleton(f: ConstV, ptr_bytes: nat)
    ensures
        sum_const_lens(seq![f], ptr_bytes) == const_len(f, ptr_bytes),
{
    assert(seq![f].drop_first() =~= Seq::<ConstV>::empty());
    assert(sum_const_lens(Seq::<ConstV>::empty(), ptr_bytes) == 0);
}

/// The runs of a span sum to exactly the span's bytes.
proof fn lemma_runs_fields_len(b: Seq<u8>, d: Seq<bool>, i: int, end: int, ptr_bytes: nat)
    requires
        0 <= i <= end <= b.len(),
        end <= 0x4000_0000,
        d.len() == b.len(),
    ensures
        sum_const_lens(runs_fields(b, d, i, end), ptr_bytes) == end - i,
    decreases end - i,
{
    if i >= end {
    } else {
        lemma_run_end_props(d, i, end);
        let e = run_end(d, i, end);
        let rf = run_field(b, d, i, e);
        let rest = runs_fields(b, d, e, end);
        lemma_runs_fields_len(b, d, e, end, ptr_bytes);
        lemma_sum_const_lens_concat(seq![rf], rest, ptr_bytes);
        lemma_sum_const_lens_singleton(rf, ptr_bytes);
        assert(const_len(rf, ptr_bytes) == e - i);
    }
}

/// A span's fields sum to exactly the span's bytes, whatever the policy.
proof fn lemma_span_fields_len(
    b: Seq<u8>,
    d: Seq<bool>,
    s: int,
    end: int,
    policy: Option<usize>,
    ptr_bytes: nat,
)
    requires
        0 <= s <= end <= b.len(),
        end <= 0x4000_0000,
        d.len() == b.len(),
    ensures
        sum_const_lens(span_fields(b, d, s, end, policy), ptr_bytes) == end - s,
{
    if s >= end {
    } else if under_threshold(policy, end - s) {
        lemma_runs_fields_len(b, d, s, end, ptr_bytes);
    } else {
        lemma_run_end_props(d, s, end);
        if run_end(d, s, end) >= end {
            lemma_sum_const_lens_singleton(run_field(b, d, s, end), ptr_bytes);
        } else {
            lemma_sum_const_lens_singleton(
                ConstV::Bytes { data: b.subrange(s, end) },
                ptr_bytes,
            );
        }
    }
}

/// The encoded fields from relocation `k` on cover exactly the bytes
/// from the span cursor to the image's end.
proof fn lemma_encode_fields_len(
    img: MemoryImage,
    dl: DataLayout,
    policy: Option<usize>,
    k: int,
    next: int,
)
    requires
        img.wf(dl),
        dl.wf(),
        0 <= k <= img.relocs@.len(),
        0 <= next,
        k < img.relocs@.len() ==> next <= img.relocs@[k].offset,
        k >= img.relocs@.len() ==> next <= img.bytes@.len(),
    ensures
        sum_const_lens(
            encode_fields(
                img.bytes@,
                img.defined@,
                img.relocs@,
                k,
                next,
                policy,
                dl.pointer_bytes as nat,
                dl.instruction_addrspace,
            ),
            dl.pointer_bytes as nat,
        ) == img.bytes@.len() - next,
    decreases img.relocs@.len() - k,
{
    let b = img.bytes@;
    let d = img.defined@;
    let rl = img.relocs@;
    let ptr = dl.pointer_bytes as nat;
    let ias = dl.instruction_addrspace;
    if k >= rl.len() {
        lemma_span_fields_len(b, d, next, b.len() as int, policy, ptr);
    } else {
        let off = rl[k].offset as int;
        let sp = span_fields(b, d, next, off, policy);
        let pf = ptr_field(b, rl[k], ptr, ias);
        let rest = encode_fields(b, d, rl, k + 1, off + ptr, policy, ptr, ias);
        lemma_span_fields_len(b, d, next, off, policy, ptr);
        lemma_encode_fields_len(img, dl, policy, k + 1, off + ptr);
        lemma_sum_const_lens_concat(sp + seq![pf], rest, ptr);
        lemma_sum_const_lens_concat(sp, seq![pf], ptr);
        lemma_sum_const_lens_singleton(pf, ptr);
    }
}

/// The summed byte lengths of the encoding's fields — pointer fields
/// counted at the target pointer width — equal the image's total length
/// exactly.
pub proof fn lemma_encode_len(img: MemoryImage, policy: Option<usize>, dl: DataLayout)
    requires
        img.wf(dl),
        dl.wf(),
    ensures
        const_len(spec_encode(img, policy, dl), dl.pointer_bytes as nat) == img.bytes@.len(),
{
    if img.relocs@.len() > 0 {
        assert(img.relocs@[0].offset + dl.pointer_bytes <= img.bytes@.len());
    }
    lemma_encode_fields_len(img, dl, policy, 0, 0);
}

/// The content of a span's runs: every defined position is its literal
/// byte, and nothing but the underlying bytes is ever emitted.
proof fn lemma_runs_fields_content(b: Seq<u8>, d: Seq<bool>, i: int, end: int, ptr_bytes: nat)
    requires
        0 <= i <= end <= b.len(),
        end <= 0x4000_0000,
        d.len() == b.len(),
    ensures
        fields_content(runs_fields(b, d, i, end), ptr_bytes).len() == end - i,
        forall|p: int|
            0 <= p < end - i ==> ((#[trigger] fields_content(
                runs_fields(b, d, i, end),
                ptr_bytes,
            )[p]) is Some ==> fields_content(runs_fields(b, d, i, end), ptr_bytes)[p] == Some(
                b[i + p],
            )),
        forall|p: int|
            0 <= p < end - i ==> (d[i + p] ==> (#[trigger] fields_content(
                runs_fields(b, d, i, end),
                ptr_bytes,
            )[p]) is Some),
    decreases end - i,
{
    if i >= end {
    } else {
        lemma_run_end_props(d, i, end);
        let e = run_end(d, i, end);
        let rf = run_field(b, d, i, e);
        let rest = runs_fields(b, d, e, end);
        lemma_runs_fields_content(b, d, e, end, ptr_bytes);
        lemma_fields_content_concat(seq![rf], rest, ptr_bytes);
        lemma_fields_content_singleton(rf, ptr_bytes);
        let c = fields_content(runs_fields(b, d, i, end), ptr_bytes);
        let c0 = const_content(rf, ptr_bytes);
        let c1 = fields_content(rest, ptr_bytes);
        assert(c == c0 + c1);
        assert(c0.len() == e - i);
        assert forall|p: int| 0 <= p < end - i implies ((#[trigger] c[p]) is Some ==> c[p]
            == Some(b[i + p])) && (d[i + p] ==> c[p] is Some) by {
            if p < e - i {
                assert(c[p] == c0[p]);
                if d[i] {
                    assert(c0[p] == Some(b.subrange(i, e)[p]));
                    assert(b.subrange(i, e)[p] == b[i + p]);
                } else {
                    assert(c0[p] is None);
                    assert(d[i + p] == d[i]);
                }
            } else {
                assert(c[p] == c1[p - (e - i)]);
                assert(e + (p - (e - i)) == i + p);
            }
        }
    }
}

/// The content of one span's fields, under any policy: every defined
/// position carries its literal byte, and every literal byte emitted is
/// the underlying buffer's byte at that position.
proof fn lemma_span_fields_content(
    b: Seq<u8>,
    d: Seq<bool>,
    s: int,
    end: int,
    policy: Option<usize>,
    ptr_bytes: nat,
)
    requires
        0 <= s <= end <= b.len(),
        end <= 0x4000_0000,
        d.len() == b.len(),
    ensures
        fields_content(span_fields(b, d, s, end, policy), ptr_bytes).len() == end - s,
        forall|p: int|
            0 <= p < end - s ==> ((#[trigger] fields_content(
                span_fields(b, d, s, end, policy),
                ptr_bytes,
            )[p]) is Some ==> fields_content(span_fields(b, d, s, end, policy), ptr_bytes)[p]
                == Some(b[s + p])),
        forall|p: int|
            0 <= p < end - s ==> (d[s + p] ==> (#[trigger] fields_content(
                span_fields(b, d, s, end, policy),
                ptr_bytes,
            )[p]) is Some),
{
    if s >= end {
    } else if under_threshold(policy, end - s) {
        lemma_runs_fields_content(b, d, s, end, ptr_bytes);
    } else {
        lemma_run_end_props(d, s, end);
        let c = fields_content(span_fields(b, d, s, end, policy), ptr_bytes);
        if run_end(d, s, end) >= end {
            let rf = run_field(b, d, s, end);
            lemma_fields_content_singleton(rf, ptr_bytes);
            assert forall|p: int| 0 <= p < end - s implies ((#[trigger] c[p]) is Some ==> c[p]
                == Some(b[s + p])) && (d[s + p] ==> c[p] is Some) by {
                if d[s] {
                    assert(c[p] == Some(b.subrange(s, end)[p]));
                    assert(b.subrange(s, end)[p] == b[s + p]);
                } else {
                    assert(c[p] is None);
                    assert(d[s + p] == d[s]);
                }
            }
        } else {
            let rf = ConstV::Bytes { data: b.subrange(s, end) };
            lemma_fields_content_singleton(rf, ptr_bytes);
            assert forall|p: int| 0 <= p < end - s implies ((#[trigger] c[p]) is Some ==> c[p]
                == Some(b[s + p])) && (d[s + p] ==> c[p] is Some) by {
                assert(c[p] == Some(b.subrange(s, end)[p]));
                assert(b.subrange(s, end)[p] == b[s + p]);
            }
        }
    }
}

/// With no relocations, the encoding's concatenated field contents equal
/// the image's bytes bit for bit, undefined bytes excepted: every defined
/// position is emitted literally, and every literal byte emitted is the
/// image's byte at its position.
pub proof fn lemma_encode_no_relocs_content(
    img: MemoryImage,
    policy: Option<usize>,
    dl: DataLayout,
)
    requires
        img.wf(dl),
        dl.wf(),
        img.relocs@.len() == 0,
    ensures
        const_content(spec_encode(img, policy, dl), dl.pointer_bytes as nat).len()
            == img.bytes@.len(),
        forall|i: int|
            0 <= i < img.bytes@.len() ==> ((#[trigger] const_content(
                spec_encode(img, policy, dl),
                dl.pointer_bytes as nat,
            )[i]) is Some ==> const_content(spec_encode(img, policy, dl),
                dl.pointer_bytes as nat,
            )[i] == Some(img.bytes@[i])),
        forall|i: int|
            0 <= i < img.bytes@.len() ==> (img.defined@[i] ==> (#[trigger] const_content(
                spec_encode(img, policy, dl),
                dl.pointer_bytes as nat,
            )[i]) is Some),
{
    lemma_span_fields_content(
        img.bytes@,
        img.defined@,
        0,
        img.bytes@.len() as int,
        policy,
        dl.pointer_bytes as nat,
    );
}

/// The encoding is a function of the image and the policy alone: equal
/// inputs give structurally identical outputs, on repeated calls too.
pub proof fn lemma_encode_deterministic(
    a: ConstV,
    c: ConstV,
    img: MemoryImage,
    policy: Option<usize>,
    dl: DataLayout,
)
    requires
        a == spec_encode(img, policy, dl),
        c == spec_encode(img, policy, dl),
    ensures
        a == c,
{
}

/// Position `i` of the image lies inside some relocation's pointer bytes.
pub open spec fn in_reloc_window(relocs: Seq<Reloc>, ptr_bytes: nat, i: int) -> bool {
    exists|k: int|
        0 <= k < relocs.len() && (#[trigger] relocs[k]).offset <= i < relocs[k].offset
            + ptr_bytes
}

/// The content of the encoded fields from relocation `k` on: it covers
/// the bytes from the span cursor to the image's end; every literal byte
/// emitted is the image's byte at its position; and every defined
/// position outside a relocation's pointer bytes is emitted literally.
proof fn lemma_encode_fields_content(
    img: MemoryImage,
    dl: DataLayout,
    policy: Option<usize>,
    k: int,
    next: int,
)
    requires
        img.wf(dl),
        dl.wf(),
        0 <= k <= img.relocs@.len(),
        0 <= next,
        k < img.relocs@.len() ==> next <= img.relocs@[k].offset,
        k >= img.relocs@.len() ==> next <= img.bytes@.len(),
    ensures
        ({
            let c = fields_content(
                encode_fields(
                    img.bytes@,
                    img.defined@,
                    img.relocs@,
                    k,
                    next,
                    policy,
                    dl.pointer_bytes as nat,
                    dl.instruction_addrspace,
                ),
                dl.pointer_bytes as nat,
            );
            &&& c.len() == img.bytes@.len() - next
            &&& forall|p: int|
                0 <= p < c.len() ==> ((#[trigger] c[p]) is Some ==> c[p] == Some(
                    img.bytes@[next + p],
                ))
            &&& forall|p: int|
                0 <= p < c.len() ==> (img.defined@[next + p] && !in_reloc_window(
                    img.relocs@,
                    dl.pointer_bytes as nat,
                    next + p,
                ) ==> (#[trigger] c[p]) is Some)
        }),
    decreases img.relocs@.len() - k,
{
    let b = img.bytes@;
    let d = img.defined@;
    let rl = img.relocs@;
    let ptr = dl.pointer_bytes as nat;
    let ias = dl.instruction_addrspace;
    if k >= rl.len() {
        lemma_span_fields_content(b, d, next, b.len() as int, policy, ptr);
    } else {
        let off = rl[k].offset as int;
        let sp = span_fields(b, d, next, off, policy);
        let pf = ptr_field(b, rl[k], ptr, ias);
        let rest = encode_fields(b, d, rl, k + 1, off + ptr, policy, ptr, ias);
        lemma_span_fields_content(b, d, next, off, policy, ptr);
        lemma_encode_fields_content(img, dl, policy, k + 1, off + ptr);
        lemma_fields_content_concat(sp + seq![pf], rest, ptr);
        lemma_fields_content_concat(sp, seq![pf], ptr);
        lemma_fields_content_singleton(pf, ptr);
        let c0 = fields_content(sp, ptr);
        let c1 = const_content(pf, ptr);
        let c2 = fields_content(rest, ptr);
        let c = fields_content(
            encode_fields(b, d, rl, k, next, policy, ptr, ias),
            ptr,
        );
        assert(c == (c0 + c1) + c2);
        assert(c0.len() == off - next);
        assert(c1.len() == ptr);
        assert forall|p: int| 0 <= p < c.len() implies ((#[trigger] c[p]) is Some ==> c[p]
            == Some(b[next + p])) && (d[next + p] && !in_reloc_window(rl, ptr, next + p)
            ==> c[p] is Some) by {
            if p < off - next {
                assert(c[p] == c0[p]);
                if d[next + p] && !in_reloc_window(rl, ptr, next + p) {
                    assert(c0[p] is Some);
                }
            } else if p < off - next + ptr {
                assert(c[p] == c1[p - (off - next)]);
                assert(c1[p - (off - next)] is None);
                // These positions are the relocation's own pointer bytes.
                assert(rl[k].offset <= next + p < rl[k].offset + ptr);
                assert(in_reloc_window(rl, ptr, next + p));
            } else {
                assert(c[p] == c2[p - (off - next) - ptr]);
                assert((off + ptr) + (p - (off - next) - ptr) == next + p);
            }
        }
    }
}

/// The encoding's concatenated field contents cover the image exactly:
/// every literal byte emitted is the image's byte at its position, and
/// every defined byte outside the relocations' pointer bytes is emitted
/// literally. Dropping or reordering a relocation would break this
/// correspondence.
pub proof fn lemma_encode_content(img: MemoryImage, policy: Option<usize>, dl: DataLayout)
    requires
        img.wf(dl),
        dl.wf(),
    ensures
        ({
            let c = const_content(spec_encode(img, policy, dl), dl.pointer_bytes as nat);
            &&& c.len() == img.bytes@.len()
            &&& forall|i: int|
                0 <= i < img.bytes@.len() ==> ((#[trigger] c[i]) is Some ==> c[i] == Some(
                    img.bytes@[i],
                ))
            &&& forall|i: int|
                0 <= i < img.bytes@.len() ==> (img.defined@[i] && !in_reloc_window(
                    img.relocs@,
                    dl.pointer_bytes as nat,
                    i,
                ) ==> (#[trigger] c[i]) is Some)
        }),
{
    if img.relocs@.len() > 0 {
        assert(img.relocs@[0].offset + dl.pointer_bytes <= img.bytes@.len());
    }
    lemma_encode_fields_content(img, dl, policy, 0, 0);
}

} // verus!
