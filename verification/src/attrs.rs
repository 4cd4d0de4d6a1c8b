//! Attribute application: abstract per-argument attribute sets become
//! concrete metadata on a function definition or a call site.
//!
//! Definition site and call site follow one effect rule: a nonzero pointee
//! size becomes `dereferenceable` when the value is also non-null, else
//! `dereferenceable-or-null`, and the non-null flag is then dropped before
//! the remaining flags are applied independently; pointee alignment and the
//! extension mode follow.

use vstd::prelude::*;

verus! {

/// The boolean attribute flags an argument may carry.
#[derive(Clone, Copy, PartialEq, Eq, Structural, Debug)]
pub struct AttrFlags {
    pub no_alias: bool,
    pub no_capture: bool,
    pub non_null: bool,
    pub read_only: bool,
    pub in_reg: bool,
}

impl AttrFlags {
    /// No flag set.
    pub fn none() -> (r: AttrFlags)
        ensures
            r == (AttrFlags {
                no_alias: false,
                no_capture: false,
                non_null: false,
                read_only: false,
                in_reg: false,
            }),
    {
        AttrFlags {
            no_alias: false,
            no_capture: false,
            non_null: false,
            read_only: false,
            in_reg: false,
        }
    }
}

/// Whether a small integer argument is widened with its sign or with
/// zeros when it crosses the boundary.
#[derive(Clone, Copy, PartialEq, Eq, Structural, Debug)]
pub enum ArgExtension {
    NoExt,
    Zext,
    Sext,
}

/// The abstract attribute set of one argument or return value.
#[derive(Clone, Copy, PartialEq, Eq, Structural, Debug)]
pub struct ArgAttributes {
    pub regular: AttrFlags,
    /// Nonzero means the value is a pointer to at least this many bytes.
    pub pointee_size_bytes: u64,
    pub pointee_align_bytes: Option<u64>,
    pub arg_ext: ArgExtension,
}

impl ArgAttributes {
    /// The empty attribute set: applying it emits nothing.
    pub fn new() -> (r: ArgAttributes)
        ensures
            r == ArgAttributes::empty(),
    {
        ArgAttributes {
            regular: AttrFlags::none(),
            pointee_size_bytes: 0,
            pointee_align_bytes: None,
            arg_ext: ArgExtension::NoExt,
        }
    }

    /// The empty attribute set.
    pub open spec fn empty() -> ArgAttributes {
        ArgAttributes {
            regular: AttrFlags {
                no_alias: false,
                no_capture: false,
                non_null: false,
                read_only: false,
                in_reg: false,
            },
            pointee_size_bytes: 0,
            pointee_align_bytes: None,
            arg_ext: ArgExtension::NoExt,
        }
    }
}

/// One concrete attribute as it lands on the target.
#[derive(Clone, Copy, PartialEq, Eq, Structural, Debug)]
pub enum LlAttribute {
    NoAlias,
    NoCapture,
    NonNull,
    ReadOnly,
    InReg,
    ZExt,
    SExt,
    StructRet,
    NoReturn,
    NoUnwind,
    Dereferenceable(u64),
    DereferenceableOrNull(u64),
    Alignment(u64),
}

/// Where an attribute lands: the function itself, its return value, or
/// one concrete parameter slot.
#[derive(Clone, Copy, PartialEq, Eq, Structural, Debug)]
pub enum AttrPlace {
    Function,
    ReturnValue,
    Argument(u32),
}

/// A lowered function definition, as far as attribute emission sees it:
/// the ordered list of attributes attached so far.
pub struct LlFunc {
    pub attrs: Vec<(AttrPlace, LlAttribute)>,
}

/// A call site: attached attributes plus optional value-range metadata
/// on the call's integer result.
pub struct CallSite {
    pub attrs: Vec<(AttrPlace, LlAttribute)>,
    pub ret_range: Option<(u64, u64)>,
}

/// The dereferenceable form a nonzero pointee size emits: known non-null
/// pointers get `dereferenceable`, the rest `dereferenceable-or-null`.
pub open spec fn deref_attrs(a: ArgAttributes, place: AttrPlace) -> Seq<
    (AttrPlace, LlAttribute),
> {
    if a.pointee_size_bytes != 0 {
        if a.regular.non_null {
            seq![(place, LlAttribute::Dereferenceable(a.pointee_size_bytes))]
        } else {
            seq![(place, LlAttribute::DereferenceableOrNull(a.pointee_size_bytes))]
        }
    } else {
        Seq::empty()
    }
}

/// The alignment attribute a known pointee alignment emits.
pub open spec fn align_attrs(a: ArgAttributes, place: AttrPlace) -> Seq<
    (AttrPlace, LlAttribute),
> {
    match a.pointee_align_bytes {
        Some(al) => seq![(place, LlAttribute::Alignment(al))],
        None => Seq::empty(),
    }
}

/// The remaining boolean flags in emission order. Non-null is subsumed by
/// `dereferenceable` and dropped once a pointee size was attached.
pub open spec fn flag_attrs(a: ArgAttributes, place: AttrPlace) -> Seq<
    (AttrPlace, LlAttribute),
> {
    let keep_non_null = a.regular.non_null && a.pointee_size_bytes == 0;
    (if a.regular.no_alias {
        seq![(place, LlAttribute::NoAlias)]
    } else {
        Seq::empty()
    }) + (if a.regular.no_capture {
        seq![(place, LlAttribute::NoCapture)]
    } else {
        Seq::empty()
    }) + (if keep_non_null {
        seq![(place, LlAttribute::NonNull)]
    } else {
        Seq::empty()
    }) + (if a.regular.read_only {
        seq![(place, LlAttribute::ReadOnly)]
    } else {
        Seq::empty()
    }) + (if a.regular.in_reg {
        seq![(place, LlAttribute::InReg)]
    } else {
        Seq::empty()
    })
}

/// The extension-mode attribute, applied last and only when one is set.
pub open spec fn ext_attrs(a: ArgAttributes, place: AttrPlace) -> Seq<(AttrPlace, LlAttribute)> {
    match a.arg_ext {
        ArgExtension::NoExt => Seq::empty(),
        ArgExtension::Zext => seq![(place, LlAttribute::ZExt)],
        ArgExtension::Sext => seq![(place, LlAttribute::SExt)],
    }
}

/// The exact attribute sequence one abstract set emits at one place, in
/// emission order: the dereferenceable form first, then alignment, then
/// the remaining boolean flags, then the extension mode.
pub open spec fn attr_seq(a: ArgAttributes, place: AttrPlace) -> Seq<(AttrPlace, LlAttribute)> {
    deref_attrs(a, place) + align_attrs(a, place) + flag_attrs(a, place) + ext_attrs(a, place)
}

/// The boolean-flag attributes of `a` at `place`, as a list.
#[verifier::rlimit(60)]
fn flag_attr_vec(a: &ArgAttributes, place: AttrPlace) -> (r: Vec<(AttrPlace, LlAttribute)>)
    ensures
        r@ == flag_attrs(*a, place),
{
    let mut v: Vec<(AttrPlace, LlAttribute)> = Vec::new();
    let keep_non_null = a.regular.non_null && a.pointee_size_bytes == 0;
    let ghost na: Seq<(AttrPlace, LlAttribute)> = if a.regular.no_alias {
        seq![(place, LlAttribute::NoAlias)]
    } else {
        Seq::empty()
    };
    let ghost nc: Seq<(AttrPlace, LlAttribute)> = if a.regular.no_capture {
        seq![(place, LlAttribute::NoCapture)]
    } else {
        Seq::empty()
    };
    let ghost nn: Seq<(AttrPlace, LlAttribute)> = if keep_non_null {
        seq![(place, LlAttribute::NonNull)]
    } else {
        Seq::empty()
    };
    let ghost ro: Seq<(AttrPlace, LlAttribute)> = if a.regular.read_only {
        seq![(place, LlAttribute::ReadOnly)]
    } else {
        Seq::empty()
    };
    let ghost ir: Seq<(AttrPlace, LlAttribute)> = if a.regular.in_reg {
        seq![(place, LlAttribute::InReg)]
    } else {
        Seq::empty()
    };
    if a.regular.no_alias {
        v.push((place, LlAttribute::NoAlias));
    }
    assert(v@ =~= na);
    let ghost v1 = v@;
    if a.regular.no_capture {
        v.push((place, LlAttribute::NoCapture));
    }
    assert(v@ =~= v1 + nc);
    let ghost v2 = v@;
    if keep_non_null {
        v.push((place, LlAttribute::NonNull));
    }
    assert(v@ =~= v2 + nn);
    let ghost v3 = v@;
    if a.regular.read_only {
        v.push((place, LlAttribute::ReadOnly));
    }
    assert(v@ =~= v3 + ro);
    let ghost v4 = v@;
    if a.regular.in_reg {
        v.push((place, LlAttribute::InReg));
    }
    assert(v@ =~= v4 + ir);
    assert(flag_attrs(*a, place) == na + nc + nn + ro + ir);
    assert(v@ =~= na + nc + nn + ro + ir);
    v
}

/// The full attribute sequence of `a` at `place`, as a list.
#[verifier::rlimit(60)]
fn attr_vec(a: &ArgAttributes, place: AttrPlace) -> (r: Vec<(AttrPlace, LlAttribute)>)
    ensures
        r@ == attr_seq(*a, place),
{
    let ghost d = deref_attrs(*a, place);
    let ghost al = align_attrs(*a, place);
    let ghost fl = flag_attrs(*a, place);
    let ghost ex = ext_attrs(*a, place);
    let mut v: Vec<(AttrPlace, LlAttribute)> = Vec::new();
    if a.pointee_size_bytes != 0 {
        if a.regular.non_null {
            v.push((place, LlAttribute::Dereferenceable(a.pointee_size_bytes)));
        } else {
            v.push((place, LlAttribute::DereferenceableOrNull(a.pointee_size_bytes)));
        }
    }
    assert(v@ =~= d);
    let ghost v1 = v@;
    match a.pointee_align_bytes {
        Some(al_bytes) => v.push((place, LlAttribute::Alignment(al_bytes))),
        None => {},
    }
    assert(v@ =~= v1 + al);
    let mut flags = flag_attr_vec(a, place);
    v.append(&mut flags);
    let ghost v2 = v@;
    match a.arg_ext {
        ArgExtension::NoExt => {},
        ArgExtension::Zext => v.push((place, LlAttribute::ZExt)),
        ArgExtension::Sext => v.push((place, LlAttribute::SExt)),
    }
    assert(v@ =~= v2 + ex);
    v
}

/// Appends the attribute sequence of `a` at `place` onto a list.
fn push_attr_seq(sink: &mut Vec<(AttrPlace, LlAttribute)>, a: &ArgAttributes, place: AttrPlace)
    ensures
        final(sink)@ == old(sink)@ + attr_seq(*a, place),
{
    let mut extra = attr_vec(a, place);
    sink.append(&mut extra);
}

impl ArgAttributes {
    /// Attaches this set to one place of any attribute sink.
    pub fn apply_attrs_to_vec(&self, idx: AttrPlace, sink: &mut Vec<(AttrPlace, LlAttribute)>)
        ensures
            final(sink)@ == old(sink)@ + attr_seq(*self, idx),
    {
        push_attr_seq(sink, self, idx);
    }

    /// Attaches this set to one place of a function definition.
    pub fn apply_attrs_to_llfn(&self, idx: AttrPlace, llfn: &mut LlFunc)
        ensures
            final(llfn).attrs@ == old(llfn).attrs@ + attr_seq(*self, idx),
    {
        push_attr_seq(&mut llfn.attrs, self, idx);
    }

    /// Attaches this set to one place of a call site; range metadata is
    /// not touched here.
    pub fn apply_attrs_to_callsite(&self, idx: AttrPlace, callsite: &mut CallSite)
        ensures
            final(callsite).attrs@ == old(callsite).attrs@ + attr_seq(*self, idx),
            final(callsite).ret_range == old(callsite).ret_range,
    {
        push_attr_seq(&mut callsite.attrs, self, idx);
    }
}

} // verus!
