//! Debug notation of types, as undefined-behavior messages name them.
use vstd::prelude::*;
use crate::integer::{Int, decimal};
use crate::ir::{Type, IntType, PtrType, Layout, Signedness, Mutability};
use crate::size::Size;

verus! {

/// Whether the number is kept inline (it fits in an `i128`).
pub open spec fn fits_small(x: int) -> bool {
    i128::MIN <= x <= i128::MAX
}

pub open spec fn int_debug_text(x: int) -> Seq<char> {
    (if fits_small(x) { "Small("@ } else { "Big("@ }) + decimal(x) + ")"@
}

pub open spec fn size_debug_text(x: int) -> Seq<char> {
    "Size { raw: "@ + int_debug_text(x) + " }"@
}

pub open spec fn align_debug_text(x: int) -> Seq<char> {
    "Align { raw: "@ + int_debug_text(x) + " }"@
}

pub open spec fn int_type_debug_text(it: IntType) -> Seq<char> {
    "IntType { signed: "@ + (if it.signed == Signedness::Signed { "Signed"@ } else { "Unsigned"@ })
        + ", size: "@ + size_debug_text(it.size@) + " }"@
}

pub open spec fn bool_debug_text(b: bool) -> Seq<char> {
    if b { "true"@ } else { "false"@ }
}

pub open spec fn layout_debug_text(l: Layout) -> Seq<char> {
    "Layout { size: "@ + size_debug_text(l.size@) + ", align: "@ + align_debug_text(l.align@)
        + ", inhabited: "@ + bool_debug_text(l.inhabited) + " }"@
}

pub open spec fn ptr_debug_text(p: PtrType) -> Seq<char> {
    match p {
        PtrType::Ref { mutbl, pointee } => "Ref { mutbl: "@
            + (if mutbl == Mutability::Mutable { "Mutable"@ } else { "Immutable"@ })
            + ", pointee: "@ + layout_debug_text(pointee) + " }"@,
        PtrType::Box { pointee } => "Box { pointee: "@ + layout_debug_text(pointee) + " }"@,
        PtrType::Raw { pointee } => "Raw { pointee: "@ + layout_debug_text(pointee) + " }"@,
    }
}

/// The Debug notation of a type.
pub open spec fn type_debug_text(t: Type) -> Seq<char>
    decreases t,
{
    match t {
        Type::Int(it) => "Int("@ + int_type_debug_text(it) + ")"@,
        Type::Bool => "Bool"@,
        Type::Ptr(p) => "Ptr("@ + ptr_debug_text(p) + ")"@,
        Type::Tuple { fields, size } => "Tuple { fields: ["@ + fields_debug_text(fields@) + "], size: "@
            + size_debug_text(size@) + " }"@,
        Type::Array { elem, count } => "Array { elem: "@ + type_debug_text(*elem) + ", count: "@
            + int_debug_text(count@) + " }"@,
        Type::Union { fields, size, chunks } => "Union { fields: ["@ + fields_debug_text(fields@)
            + "], size: "@ + size_debug_text(size@) + ", chunks: ["@ + chunks_debug_text(chunks@) + "] }"@,
    }
}

/// `(offset, type)` for each field, separated by `, `.
pub open spec fn fields_debug_text(s: Seq<(Size, Type)>) -> Seq<char>
    decreases s,
{
    if s.len() == 0 {
        seq![]
    } else {
        let f = "("@ + size_debug_text(s.last().0@) + ", "@ + type_debug_text(s.last().1) + ")"@;
        if s.len() == 1 { f } else { fields_debug_text(s.drop_last()) + ", "@ + f }
    }
}

pub open spec fn chunks_debug_text(s: Seq<(Size, Size)>) -> Seq<char>
    decreases s.len(),
{
    if s.len() == 0 {
        seq![]
    } else {
        let c = "("@ + size_debug_text(s.last().0@) + ", "@ + size_debug_text(s.last().1@) + ")"@;
        if s.len() == 1 { c } else { chunks_debug_text(s.drop_last()) + ", "@ + c }
    }
}

pub open spec fn place_type_debug_text(t: Type, align: int) -> Seq<char> {
    "PlaceType { ty: "@ + type_debug_text(t) + ", align: "@ + align_debug_text(align) + " }"@
}

/// `Small(n)` for a number that fits in an `i128`, `Big(n)` for a larger one.
pub fn int_debug(i: &Int) -> (r: String)
    ensures
        r@ == int_debug_text(i@),
{
    let mut s = String::new();
    match i.to_i128() {
        Some(_) => s.append("Small("),
        None => s.append("Big("),
    }
    let t = i.to_text();
    s.append(t.as_str());
    s.append(")");
    assert(s@ =~= int_debug_text(i@));
    s
}

pub fn size_debug(sz: &Size) -> (r: String)
    ensures
        r@ == size_debug_text(sz@),
{
    let mut s = String::new();
    s.append("Size { raw: ");
    let t = int_debug(&sz.bytes());
    s.append(t.as_str());
    s.append(" }");
    assert(s@ =~= size_debug_text(sz@));
    s
}

pub fn align_debug(a: &Int) -> (r: String)
    ensures
        r@ == align_debug_text(a@),
{
    let mut s = String::new();
    s.append("Align { raw: ");
    let t = int_debug(a);
    s.append(t.as_str());
    s.append(" }");
    assert(s@ =~= align_debug_text(a@));
    s
}

fn int_type_debug(it: &IntType) -> (r: String)
    ensures
        r@ == int_type_debug_text(*it),
{
    let mut s = String::new();
    s.append("IntType { signed: ");
    match it.signed {
        Signedness::Signed => s.append("Signed"),
        Signedness::Unsigned => s.append("Unsigned"),
    }
    s.append(", size: ");
    let t = size_debug(&it.size);
    s.append(t.as_str());
    s.append(" }");
    assert(s@ =~= int_type_debug_text(*it));
    s
}

fn layout_debug(l: &Layout) -> (r: String)
    ensures
        r@ == layout_debug_text(*l),
{
    let mut s = String::new();
    s.append("Layout { size: ");
    let t = size_debug(&l.size);
    s.append(t.as_str());
    s.append(", align: ");
    let t = align_debug(&l.align.bytes());
    s.append(t.as_str());
    s.append(", inhabited: ");
    if l.inhabited {
        s.append("true");
    } else {
        s.append("false");
    }
    s.append(" }");
    assert(s@ =~= layout_debug_text(*l));
    s
}

fn ptr_debug(p: &PtrType) -> (r: String)
    ensures
        r@ == ptr_debug_text(*p),
{
    let mut s = String::new();
    let l = match p {
        PtrType::Ref { mutbl, pointee } => {
            s.append("Ref { mutbl: ");
            match mutbl {
                Mutability::Mutable => s.append("Mutable"),
                Mutability::Immutable => s.append("Immutable"),
            }
            s.append(", pointee: ");
            pointee
        },
        PtrType::Box { pointee } => {
            s.append("Box { pointee: ");
            pointee
        },
        PtrType::Raw { pointee } => {
            s.append("Raw { pointee: ");
            pointee
        },
    };
    let t = layout_debug(l);
    s.append(t.as_str());
    s.append(" }");
    assert(s@ =~= ptr_debug_text(*p));
    s
}

fn fields_debug(fields: &Vec<(Size, Type)>) -> (r: String)
    ensures
        r@ == fields_debug_text(fields@),
    decreases fields,
{
    let mut s = String::new();
    for i in 0..fields.len()
        invariant
            s@ == fields_debug_text(fields@.subrange(0, i as int)),
    {
        proof {
            assert(decreases_to!(fields => fields[i as int]));
        }
        if i > 0 {
            s.append(", ");
        }
        s.append("(");
        let t = size_debug(&fields[i].0);
        s.append(t.as_str());
        s.append(", ");
        let t = type_debug(&fields[i].1);
        s.append(t.as_str());
        s.append(")");
        proof {
            let sub = fields@.subrange(0, i + 1);
            assert(sub.drop_last() =~= fields@.subrange(0, i as int));
            assert(sub.last() == fields@[i as int]);
            assert(s@ =~= fields_debug_text(sub));
        }
    }
    assert(fields@.subrange(0, fields@.len() as int) =~= fields@);
    s
}

fn chunks_debug(chunks: &Vec<(Size, Size)>) -> (r: String)
    ensures
        r@ == chunks_debug_text(chunks@),
{
    let mut s = String::new();
    for i in 0..chunks.len()
        invariant
            s@ == chunks_debug_text(chunks@.subrange(0, i as int)),
    {
        if i > 0 {
            s.append(", ");
        }
        s.append("(");
        let t = size_debug(&chunks[i].0);
        s.append(t.as_str());
        s.append(", ");
        let t = size_debug(&chunks[i].1);
        s.append(t.as_str());
        s.append(")");
        proof {
            let sub = chunks@.subrange(0, i + 1);
            assert(sub.drop_last() =~= chunks@.subrange(0, i as int));
            assert(sub.last() == chunks@[i as int]);
            assert(s@ =~= chunks_debug_text(sub));
        }
    }
    assert(chunks@.subrange(0, chunks@.len() as int) =~= chunks@);
    s
}

/// The Debug notation of the type.
pub fn type_debug(ty: &Type) -> (r: String)
    ensures
        r@ == type_debug_text(*ty),
    decreases ty,
{
    let mut s = String::new();
    match ty {
        Type::Int(it) => {
            s.append("Int(");
            let t = int_type_debug(it);
            s.append(t.as_str());
            s.append(")");
        },
        Type::Bool => {
            s.append("Bool");
        },
        Type::Ptr(p) => {
            s.append("Ptr(");
            let t = ptr_debug(p);
            s.append(t.as_str());
            s.append(")");
        },
        Type::Tuple { fields, size } => {
            s.append("Tuple { fields: [");
            let t = fields_debug(fields);
            s.append(t.as_str());
            s.append("], size: ");
            let t = size_debug(size);
            s.append(t.as_str());
            s.append(" }");
        },
        Type::Array { elem, count } => {
            s.append("Array { elem: ");
            let e: &Type = elem;
            let t = type_debug(e);
            s.append(t.as_str());
            s.append(", count: ");
            let t = int_debug(count);
            s.append(t.as_str());
            s.append(" }");
        },
        Type::Union { fields, size, chunks } => {
            s.append("Union { fields: [");
            let t = fields_debug(fields);
            s.append(t.as_str());
            s.append("], size: ");
            let t = size_debug(size);
            s.append(t.as_str());
            s.append(", chunks: [");
            let t = chunks_debug(chunks);
            s.append(t.as_str());
            s.append("] }");
        },
    }
    assert(s@ =~= type_debug_text(*ty));
    s
}

/// `PlaceType { ty: .., align: .. }`.
pub fn place_type_debug(ty: &Type, align: &Int) -> (r: String)
    ensures
        r@ == place_type_debug_text(*ty, align@),
{
    let mut s = String::new();
    s.append("PlaceType { ty: ");
    let t = type_debug(ty);
    s.append(t.as_str());
    s.append(", align: ");
    let t = align_debug(align);
    s.append(t.as_str());
    s.append(" }");
    assert(s@ =~= place_type_debug_text(*ty, align@));
    s
}

} // verus!
