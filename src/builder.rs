//! Builders for types, expressions, statements and small programs.
use vstd::prelude::*;
use crate::integer::Int;
use crate::ir::{
    Type, IntType, PtrType, Layout, PlaceType, Signedness, Mutability, ValueExpr, PlaceExpr,
    Statement, Terminator, Intrinsic, BasicBlock, Function, Program, LocalName, BbName, FnName,
    Constant, BinOp,
};
use crate::size::{Size, Align};
use crate::machine::{Outcome, run_program, outcome_allowed};

verus! {

pub fn layout(size: Size, align: Align) -> (r: Layout)
    ensures
        r.size@ == size@,
        r.align@ == align@,
        r.inhabited,
{
    Layout { size, align, inhabited: true }
}

pub fn int_ty(signed: Signedness, size: Size) -> (r: Type)
    ensures
        r == Type::Int(IntType { signed, size }),
{
    Type::Int(IntType { signed, size })
}

pub fn bool_ty() -> (r: Type)
    ensures
        r == Type::Bool,
{
    Type::Bool
}

pub fn ref_ty(pointee: Layout) -> (r: Type)
    ensures
        r == Type::Ptr(PtrType::Ref { mutbl: Mutability::Immutable, pointee }),
{
    Type::Ptr(PtrType::Ref { mutbl: Mutability::Immutable, pointee })
}

pub fn ref_mut_ty(pointee: Layout) -> (r: Type)
    ensures
        r == Type::Ptr(PtrType::Ref { mutbl: Mutability::Mutable, pointee }),
{
    Type::Ptr(PtrType::Ref { mutbl: Mutability::Mutable, pointee })
}

pub fn box_ty(pointee: Layout) -> (r: Type)
    ensures
        r == Type::Ptr(PtrType::Box { pointee }),
{
    Type::Ptr(PtrType::Box { pointee })
}

pub fn raw_ptr_ty(pointee: Layout) -> (r: Type)
    ensures
        r == Type::Ptr(PtrType::Raw { pointee }),
{
    Type::Ptr(PtrType::Raw { pointee })
}

/// A tuple with fields at the given offsets.
pub fn tuple_ty(f: Vec<(Size, Type)>, size: Size) -> (r: Type)
    ensures
        r == (Type::Tuple { fields: f, size }),
{
    Type::Tuple { fields: f, size }
}

/// A union whose values carry all of its bytes.
pub fn union_ty(f: Vec<(Size, Type)>, size: Size) -> (r: Type)
    ensures
        r matches Type::Union { fields, size: s, chunks } && fields == f && s@ == size@
            && chunks@.len() == 1 && chunks@[0].0@ == 0 && chunks@[0].1@ == size@,
{
    let mut chunks: Vec<(Size, Size)> = Vec::new();
    chunks.push((Size::zero(), size.clone()));
    Type::Union { fields: f, size, chunks }
}

pub fn array_ty(elem: Type, count: Int) -> (r: Type)
    ensures
        r == (Type::Array { elem: Box::new(elem), count }),
{
    Type::Array { elem: Box::new(elem), count }
}

pub fn ptype(ty: Type, align: Align) -> (r: PlaceType)
    ensures
        r == (PlaceType { ty, align }),
{
    PlaceType { ty, align }
}

/// The size of `bytes` bytes.
pub fn size(bytes: u64) -> (r: Size)
    ensures
        r@ == bytes as int,
{
    Size::from_bytes_const(bytes)
}

/// The alignment of `bytes` bytes; `None` unless it is a power of two.
pub fn align(bytes: u64) -> (r: Option<Align>)
    ensures
        r is Some <==> crate::integer::is_pow2(bytes as int),
        r matches Some(a) ==> a@ == bytes as int,
{
    Align::from_bytes(Int::from_i128(bytes as i128))
}

pub fn local(n: u32) -> (r: PlaceExpr)
    ensures
        r == PlaceExpr::Local(LocalName(n)),
{
    PlaceExpr::Local(LocalName(n))
}

pub fn field(root: PlaceExpr, n: usize) -> (r: PlaceExpr)
    ensures
        r == (PlaceExpr::Field { root: Box::new(root), field: n }),
{
    PlaceExpr::Field { root: Box::new(root), field: n }
}

pub fn index(root: PlaceExpr, i: ValueExpr) -> (r: PlaceExpr)
    ensures
        r == (PlaceExpr::Index { root: Box::new(root), index: Box::new(i) }),
{
    PlaceExpr::Index { root: Box::new(root), index: Box::new(i) }
}

pub fn deref(operand: ValueExpr, ptype: PlaceType) -> (r: PlaceExpr)
    ensures
        r == (PlaceExpr::Deref { operand: Box::new(operand), ptype }),
{
    PlaceExpr::Deref { operand: Box::new(operand), ptype }
}

pub fn load(source: PlaceExpr) -> (r: ValueExpr)
    ensures
        r == (ValueExpr::Load { destructive: false, source: Box::new(source) }),
{
    ValueExpr::Load { destructive: false, source: Box::new(source) }
}

/// The address of a place, as a pointer of type `ptr_ty` (`None` if that is no pointer type).
pub fn addr_of(target: PlaceExpr, ptr_ty: Type) -> (r: Option<ValueExpr>)
    ensures
        r is Some <==> ptr_ty is Ptr,
        r matches Some(v) ==> (v matches ValueExpr::AddrOf { target: t, ptr_ty: p }
            && *t == target && ptr_ty == Type::Ptr(p)),
{
    match ptr_ty {
        Type::Ptr(p) => Some(ValueExpr::AddrOf { target: Box::new(target), ptr_ty: p }),
        _ => None,
    }
}

pub fn ptr_offset(ptr: ValueExpr, offset: ValueExpr, inbounds: bool) -> (r: ValueExpr)
    ensures
        r == (ValueExpr::BinOp {
            operator: BinOp::PtrOffset { inbounds },
            left: Box::new(ptr),
            right: Box::new(offset),
        }),
{
    ValueExpr::BinOp { operator: BinOp::PtrOffset { inbounds }, left: Box::new(ptr), right: Box::new(offset) }
}

/// The integer constant `v` of type `ty`.
pub fn const_int(v: Int, ty: Type) -> (r: ValueExpr)
    ensures
        r == ValueExpr::Constant(Constant::Int(v), ty),
{
    ValueExpr::Constant(Constant::Int(v), ty)
}

pub fn const_bool(b: bool) -> (r: ValueExpr)
    ensures
        r == ValueExpr::Constant(Constant::Bool(b), Type::Bool),
{
    ValueExpr::Constant(Constant::Bool(b), Type::Bool)
}

pub fn live(n: u32) -> (r: Statement)
    ensures
        r == Statement::StorageLive(LocalName(n)),
{
    Statement::StorageLive(LocalName(n))
}

pub fn dead(n: u32) -> (r: Statement)
    ensures
        r == Statement::StorageDead(LocalName(n)),
{
    Statement::StorageDead(LocalName(n))
}

pub fn assign(destination: PlaceExpr, source: ValueExpr) -> (r: Statement)
    ensures
        r == (Statement::Assign { destination, source }),
{
    Statement::Assign { destination, source }
}

/// A terminator that ends the program.
pub fn exit() -> (r: Terminator)
    ensures
        r matches Terminator::CallIntrinsic { intrinsic: Intrinsic::Exit, arguments, ret: None, next_block: None }
            && arguments@.len() == 0,
{
    Terminator::CallIntrinsic { intrinsic: Intrinsic::Exit, arguments: Vec::new(), ret: None, next_block: None }
}

/// A program of one function with the given locals and one block that runs the
/// statements and then exits.
pub fn small_program(locals: Vec<PlaceType>, statements: Vec<Statement>) -> (r: Program)
    ensures
        r.start == FnName(0),
        r.functions@.len() == 1,
        r.functions@[0].locals == locals,
        r.functions@[0].args@.len() == 0,
        r.functions@[0].ret is None,
        r.functions@[0].start == BbName(0),
        r.functions@[0].blocks@.len() == 1,
        r.functions@[0].blocks@[0].statements == statements,
        r.functions@[0].blocks@[0].terminator matches Terminator::CallIntrinsic {
            intrinsic: Intrinsic::Exit, ret: None, next_block: None, arguments
        } && arguments@.len() == 0,
{
    let mut blocks: Vec<BasicBlock> = Vec::new();
    blocks.push(BasicBlock { statements, terminator: exit() });
    let f = Function { locals, args: Vec::new(), ret: None, blocks, start: BbName(0) };
    let mut functions: Vec<Function> = Vec::new();
    functions.push(f);
    Program { functions, start: FnName(0) }
}

/// Whether the program's run ends in undefined behavior with exactly this message.
pub fn assert_ub(prog: Program, msg: &str) -> (r: bool)
    ensures
        exists|o: Outcome| outcome_allowed(prog, o) && r == (o matches Outcome::Ub(m) && m@ == msg@),
{
    let ghost p = prog;
    let o = run_program(prog);
    let want = msg.to_owned();
    let r = match &o {
        Outcome::Ub(m) => *m == want,
        _ => false,
    };
    assert(outcome_allowed(p, o) && r == (o matches Outcome::Ub(m) && m@ == msg@));
    r
}

/// Whether the program's run ends normally.
pub fn assert_stop(prog: Program) -> (r: bool)
    ensures
        exists|o: Outcome| outcome_allowed(prog, o) && r == (o is Stop),
{
    let ghost p = prog;
    let o = run_program(prog);
    let r = match &o {
        Outcome::Stop => true,
        _ => false,
    };
    assert(outcome_allowed(p, o) && r == (o is Stop));
    r
}

/// Whether the machine refuses the program as malformed.
pub fn assert_unwell(prog: Program) -> (r: bool)
    ensures
        exists|o: Outcome| outcome_allowed(prog, o) && r == (o is Unwell),
{
    let ghost p = prog;
    let o = run_program(prog);
    let r = match &o {
        Outcome::Unwell => true,
        _ => false,
    };
    assert(outcome_allowed(p, o) && r == (o is Unwell));
    r
}

} // verus!
