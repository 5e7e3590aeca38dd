//! The typed control-flow-graph language that the machine runs.
use vstd::prelude::*;
use crate::integer::Int;
use crate::size::{Size, Align};

verus! {

#[derive(Clone, Copy, Debug, PartialEq, Eq, Structural)]
pub enum Signedness {
    Unsigned,
    Signed,
}

#[derive(Clone, Copy, Debug, PartialEq, Eq, Structural)]
pub enum Mutability {
    Mutable,
    Immutable,
}

#[derive(Clone, Debug)]
pub struct IntType {
    pub signed: Signedness,
    pub size: Size,
}

/// Size, alignment and inhabitedness of a type.
#[derive(Clone, Debug)]
pub struct Layout {
    pub size: Size,
    pub align: Align,
    pub inhabited: bool,
}

#[derive(Clone, Debug)]
pub enum PtrType {
    Ref { mutbl: Mutability, pointee: Layout },
    Box { pointee: Layout },
    Raw { pointee: Layout },
}

#[derive(Debug)]
pub enum Type {
    Int(IntType),
    Bool,
    Ptr(PtrType),
    /// Fields at explicit byte offsets, and the total size.
    Tuple { fields: Vec<(Size, Type)>, size: Size },
    Array { elem: Box<Type>, count: Int },
    /// Fields that overlap, the total size, and the byte ranges (offset, length) that
    /// a union value carries.
    Union { fields: Vec<(Size, Type)>, size: Size, chunks: Vec<(Size, Size)> },
}

impl Clone for Type {
    fn clone(&self) -> (r: Type)
        ensures
            self is Bool ==> r is Bool,
        decreases self,
    {
        match self {
            Type::Int(it) => Type::Int(it.clone()),
            Type::Bool => Type::Bool,
            Type::Ptr(p) => Type::Ptr(p.clone()),
            Type::Tuple { fields, size } => Type::Tuple { fields: clone_fields(fields), size: size.clone() },
            Type::Array { elem, count } => {
                let e: &Type = elem;
                Type::Array { elem: Box::new(e.clone()), count: count.clone() }
            },
            Type::Union { fields, size, chunks } => {
                let mut cs: Vec<(Size, Size)> = Vec::new();
                for i in 0..chunks.len() {
                    cs.push((chunks[i].0.clone(), chunks[i].1.clone()));
                }
                Type::Union { fields: clone_fields(fields), size: size.clone(), chunks: cs }
            },
        }
    }
}

fn clone_fields(fields: &Vec<(Size, Type)>) -> (r: Vec<(Size, Type)>)
    ensures
        r.len() == fields.len(),
    decreases fields,
{
    let mut out: Vec<(Size, Type)> = Vec::new();
    for i in 0..fields.len()
        invariant
            out.len() == i,
    {
        proof {
            assert(decreases_to!(fields => fields[i as int]));
        }
        out.push((fields[i].0.clone(), fields[i].1.clone()));
    }
    out
}

/// The type of a place: a type and the alignment the place is known to have.
#[derive(Debug)]
pub struct PlaceType {
    pub ty: Type,
    pub align: Align,
}

impl Clone for PlaceType {
    fn clone(&self) -> (r: PlaceType)
        ensures
            r.align@ == self.align@,
    {
        PlaceType { ty: self.ty.clone(), align: self.align.clone() }
    }
}

/// Pointers take this many bytes.
pub const PTR_SIZE: usize = 8;

/// Whether the type's sizes are all defined (array counts are not negative).
pub open spec fn type_wf(t: Type) -> bool
    decreases t,
{
    match t {
        Type::Array { elem, count } => count@ >= 0 && type_wf(*elem),
        _ => true,
    }
}

/// The size in bytes of a value of the type.
pub open spec fn type_size(t: Type) -> int
    decreases t,
{
    match t {
        Type::Int(it) => it.size@,
        Type::Bool => 1,
        Type::Ptr(_) => PTR_SIZE as int,
        Type::Tuple { size, .. } => size@,
        Type::Array { elem, count } => type_size(*elem) * count@,
        Type::Union { size, .. } => size@,
    }
}

impl Type {
    /// The size of a value of the type; `None` where an array count is negative.
    pub fn size(&self) -> (r: Option<Size>)
        ensures
            r is Some <==> type_wf(*self),
            r matches Some(s) ==> s@ == type_size(*self),
        decreases self,
    {
        match self {
            Type::Int(it) => Some(it.size.clone()),
            Type::Bool => Some(Size::from_bytes_const(1)),
            Type::Ptr(_) => Some(Size::from_bytes_const(PTR_SIZE as u64)),
            Type::Tuple { size, .. } => Some(size.clone()),
            Type::Union { size, .. } => Some(size.clone()),
            Type::Array { elem, count } => {
                if count.is_negative() {
                    return None;
                }
                match elem.size() {
                    Some(s) => Some(s.mul(count)),
                    None => None,
                }
            },
        }
    }
}

/// The larger of two alignments.
fn max_align(a: Align, b: Align) -> (r: Align)
    ensures
        r@ == a@ || r@ == b@,
        r@ >= a@ && r@ >= b@,
{
    if a.bytes().lt(&b.bytes()) { b } else { a }
}

/// The largest alignment among the fields, and 1 for no fields.
fn fields_align(fields: &Vec<(Size, Type)>) -> (r: Option<Align>)
    decreases fields,
{
    let mut acc = Align::one();
    for i in 0..fields.len() {
        proof {
            assert(decreases_to!(fields => fields[i as int]));
        }
        match fields[i].1.layout() {
            Some(l) => {
                acc = max_align(acc, l.align);
            },
            None => {
                return None;
            },
        }
    }
    Some(acc)
}

impl Type {
    /// Size, alignment and inhabitedness of the type. Integers are aligned to their
    /// size (`None` where that is no power of two), pointers to their size, and
    /// compound types to the largest alignment of their parts. Every type is inhabited.
    pub fn layout(&self) -> (r: Option<Layout>)
        ensures
            r matches Some(l) ==> l.size@ == type_size(*self) && l.inhabited,
            r is Some ==> type_wf(*self),
            self is Bool ==> (r matches Some(l) && l.align@ == 1),
            self matches Type::Int(it) ==> (r is Some <==> crate::integer::is_pow2(it.size@)),
            self matches Type::Int(it) ==> (r matches Some(l) ==> l.align@ == it.size@),
            self is Ptr ==> (r matches Some(l) && l.align@ == PTR_SIZE as int),
        decreases self,
    {
        let size = self.size()?;
        let align = match self {
            Type::Int(it) => Align::from_bytes(it.size.bytes())?,
            Type::Bool => Align::one(),
            Type::Ptr(_) => {
                proof {
                    vstd::arithmetic::power2::lemma2_to64();
                    assert(vstd::arithmetic::power2::pow2(3) == PTR_SIZE);
                }
                Align::from_bytes(Int::from_i128(PTR_SIZE as i128))?
            },
            Type::Tuple { fields, .. } => fields_align(fields)?,
            Type::Union { fields, .. } => fields_align(fields)?,
            Type::Array { elem, .. } => elem.layout()?.align,
        };
        Some(Layout { size, align, inhabited: true })
    }
}

#[derive(Clone, Copy, Debug, PartialEq, Eq, Structural)]
pub struct LocalName(pub u32);

#[derive(Clone, Copy, Debug, PartialEq, Eq, Structural)]
pub struct BbName(pub u32);

#[derive(Clone, Copy, Debug, PartialEq, Eq, Structural)]
pub struct FnName(pub u32);

#[derive(Clone, Debug)]
pub enum Constant {
    Int(Int),
    Bool(bool),
}

#[derive(Clone, Copy, Debug, PartialEq, Eq, Structural)]
pub enum UnOpInt {
    Neg,
    Cast,
}

#[derive(Debug)]
pub enum UnOp {
    Int(UnOpInt, IntType),
    Ptr2Ptr(PtrType),
    Ptr2Int,
    Int2Ptr(PtrType),
}

#[derive(Clone, Copy, Debug, PartialEq, Eq, Structural)]
pub enum BinOpInt {
    Add,
    Sub,
    Mul,
    Div,
    Rem,
}

#[derive(Clone, Copy, Debug, PartialEq, Eq, Structural)]
pub enum IntRel {
    Lt,
    Le,
    Gt,
    Ge,
    Eq,
    Ne,
}

#[derive(Debug)]
pub enum BinOp {
    Int(BinOpInt, IntType),
    IntRel(IntRel),
    /// Pointer plus a byte offset.
    PtrOffset { inbounds: bool },
}

/// An expression that computes a value.
#[derive(Debug)]
pub enum ValueExpr {
    Constant(Constant, Type),
    /// A tuple or array built from its parts.
    Tuple(Vec<ValueExpr>, Type),
    Union { field: usize, expr: Box<ValueExpr>, union_ty: Type },
    Load { destructive: bool, source: Box<PlaceExpr> },
    AddrOf { target: Box<PlaceExpr>, ptr_ty: PtrType },
    UnOp { operator: UnOp, operand: Box<ValueExpr> },
    BinOp { operator: BinOp, left: Box<ValueExpr>, right: Box<ValueExpr> },
}

/// An expression that denotes a place in memory.
#[derive(Debug)]
pub enum PlaceExpr {
    Local(LocalName),
    Deref { operand: Box<ValueExpr>, ptype: PlaceType },
    Field { root: Box<PlaceExpr>, field: usize },
    Index { root: Box<PlaceExpr>, index: Box<ValueExpr> },
}

#[derive(Debug)]
pub enum Statement {
    Assign { destination: PlaceExpr, source: ValueExpr },
    Finalize { place: PlaceExpr, fn_entry: bool },
    StorageLive(LocalName),
    StorageDead(LocalName),
}

#[derive(Clone, Copy, Debug, PartialEq, Eq, Structural)]
pub enum Intrinsic {
    Exit,
    PrintStdout,
    PrintStderr,
    Allocate,
    Deallocate,
}

#[derive(Debug)]
pub enum Terminator {
    Goto(BbName),
    If { condition: ValueExpr, then_block: BbName, else_block: BbName },
    Unreachable,
    Call { callee: FnName, arguments: Vec<ValueExpr>, ret: Option<PlaceExpr>, next_block: Option<BbName> },
    CallIntrinsic { intrinsic: Intrinsic, arguments: Vec<ValueExpr>, ret: Option<PlaceExpr>, next_block: Option<BbName> },
    Return,
}

#[derive(Debug)]
pub struct BasicBlock {
    pub statements: Vec<Statement>,
    pub terminator: Terminator,
}

/// A function; local `_i` has the place type `locals[i]` and block `bbi` is `blocks[i]`.
#[derive(Debug)]
pub struct Function {
    pub locals: Vec<PlaceType>,
    pub args: Vec<LocalName>,
    pub ret: Option<LocalName>,
    pub blocks: Vec<BasicBlock>,
    pub start: BbName,
}

/// A program; function `fi` is `functions[i]`.
#[derive(Debug)]
pub struct Program {
    pub functions: Vec<Function>,
    pub start: FnName,
}

} // verus!
