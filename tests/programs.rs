use minirust::builder::{
    addr_of, align, array_ty, assign, bool_ty, const_bool, const_int, dead, deref, exit, field,
    index, int_ty, layout, live, load, local, ptr_offset, ptype, raw_ptr_ty, size, small_program,
    tuple_ty,
};
use minirust::fmt::{
    bb_name_to_string, fn_name_to_string, local_name_to_string, place_expr_to_string,
    program_to_string, type_to_string, value_expr_to_string,
};
use minirust::integer::Int;
use minirust::ir::{
    BasicBlock, BbName, BinOp, BinOpInt, FnName, Function, IntRel, Intrinsic, LocalName, PlaceType,
    Program, Signedness, Statement, Terminator, Type, ValueExpr, PTR_SIZE,
};
use minirust::machine::{run_program, Outcome};

fn u8_ty() -> Type {
    int_ty(Signedness::Unsigned, size(1))
}

fn u32_ty() -> Type {
    int_ty(Signedness::Unsigned, size(4))
}

fn pt(ty: Type, a: u64) -> PlaceType {
    ptype(ty, align(a).unwrap())
}

fn int_op(op: BinOpInt, ty: Type, l: ValueExpr, r: ValueExpr) -> ValueExpr {
    let ity = match ty {
        Type::Int(it) => it,
        _ => panic!("not an integer type"),
    };
    ValueExpr::BinOp { operator: BinOp::Int(op, ity), left: Box::new(l), right: Box::new(r) }
}

fn eq(l: ValueExpr, r: ValueExpr) -> ValueExpr {
    ValueExpr::BinOp { operator: BinOp::IntRel(IntRel::Eq), left: Box::new(l), right: Box::new(r) }
}

fn block(statements: Vec<Statement>, terminator: Terminator) -> BasicBlock {
    BasicBlock { statements, terminator }
}

fn branch_program(expected: i32) -> Program {
    let sum = int_op(
        BinOpInt::Add,
        u8_ty(),
        const_int(Int::from(200), u8_ty()),
        const_int(Int::from(100), u8_ty()),
    );
    let b0 = block(vec![live(0), assign(local(0), sum)], Terminator::Goto(BbName(1)));
    let b1 = block(
        vec![],
        Terminator::If {
            condition: eq(load(local(0)), const_int(Int::from(expected), u8_ty())),
            then_block: BbName(2),
            else_block: BbName(3),
        },
    );
    let b2 = block(vec![dead(0)], exit());
    let b3 = block(vec![], Terminator::Unreachable);
    let f = Function {
        locals: vec![pt(u8_ty(), 1)],
        args: vec![],
        ret: None,
        blocks: vec![b0, b1, b2, b3],
        start: BbName(0),
    };
    Program { functions: vec![f], start: FnName(0) }
}

#[test]
fn integer_addition_wraps() {
    assert_eq!(run_program(branch_program(44)), Outcome::Stop);
}

#[test]
fn unreachable_is_ub() {
    assert_eq!(run_program(branch_program(45)), Outcome::Ub("reached unreachable code".to_string()));
}

#[test]
fn division_by_zero_is_ub() {
    let q = int_op(BinOpInt::Div, u32_ty(), const_int(Int::from(1), u32_ty()), const_int(Int::from(0), u32_ty()));
    let p = small_program(vec![pt(u32_ty(), 4)], vec![live(0), assign(local(0), q)]);
    assert_eq!(run_program(p), Outcome::Ub("division by zero".to_string()));
}

#[test]
fn signed_division_overflow_is_ub() {
    let i8_ty = int_ty(Signedness::Signed, size(1));
    let q = int_op(
        BinOpInt::Div,
        i8_ty.clone(),
        const_int(Int::from(-128), i8_ty.clone()),
        const_int(Int::from(-1), i8_ty.clone()),
    );
    let p = small_program(vec![pt(i8_ty, 1)], vec![live(0), assign(local(0), q)]);
    assert_eq!(run_program(p), Outcome::Ub("overflow in division".to_string()));
}

#[test]
fn dead_local_access_is_ub() {
    let p = small_program(vec![pt(bool_ty(), 1)], vec![assign(local(0), const_bool(true))]);
    assert_eq!(run_program(p), Outcome::Ub("access to a dead local".to_string()));
}

#[test]
fn initialized_bool_copies() {
    let stmts = vec![live(0), live(1), assign(local(1), const_bool(true)), assign(local(0), load(local(1)))];
    let p = small_program(vec![pt(bool_ty(), 1), pt(bool_ty(), 1)], stmts);
    assert_eq!(run_program(p), Outcome::Stop);
}

#[test]
fn call_and_return() {
    // f0: _0 = f1(7) -> bb1; bb1: if _0 == 8 { exit } else { unreachable }
    let b0 = block(
        vec![live(0)],
        Terminator::Call {
            callee: FnName(1),
            arguments: vec![const_int(Int::from(7), u32_ty())],
            ret: Some(local(0)),
            next_block: Some(BbName(1)),
        },
    );
    let b1 = block(
        vec![],
        Terminator::If {
            condition: eq(load(local(0)), const_int(Int::from(8), u32_ty())),
            then_block: BbName(2),
            else_block: BbName(3),
        },
    );
    let f0 = Function {
        locals: vec![pt(u32_ty(), 4)],
        args: vec![],
        ret: None,
        blocks: vec![b0, b1, block(vec![], exit()), block(vec![], Terminator::Unreachable)],
        start: BbName(0),
    };
    // f1(_1) -> _0 { _0 = _1 + 1; return }
    let inc = int_op(BinOpInt::Add, u32_ty(), load(local(1)), const_int(Int::from(1), u32_ty()));
    let f1 = Function {
        locals: vec![pt(u32_ty(), 4), pt(u32_ty(), 4)],
        args: vec![LocalName(1)],
        ret: Some(LocalName(0)),
        blocks: vec![block(vec![assign(local(0), inc)], Terminator::Return)],
        start: BbName(0),
    };
    let p = Program { functions: vec![f0, f1], start: FnName(0) };
    assert_eq!(run_program(p), Outcome::Stop);
}

fn free_local0(next: BbName) -> Terminator {
    Terminator::CallIntrinsic {
        intrinsic: Intrinsic::Deallocate,
        arguments: vec![load(local(0)), const_int(Int::from(4), u32_ty()), const_int(Int::from(4), u32_ty())],
        ret: None,
        next_block: Some(next),
    }
}

fn heap_program(free_twice: bool) -> Program {
    let ptr_ty = raw_ptr_ty(layout(size(4), align(4).unwrap()));
    let alloc = Terminator::CallIntrinsic {
        intrinsic: Intrinsic::Allocate,
        arguments: vec![const_int(Int::from(4), u32_ty()), const_int(Int::from(4), u32_ty())],
        ret: Some(local(0)),
        next_block: Some(BbName(1)),
    };
    let b1 = block(
        vec![assign(deref(load(local(0)), pt(u32_ty(), 4)), const_int(Int::from(9), u32_ty()))],
        free_local0(BbName(2)),
    );
    let b2 = if free_twice { block(vec![], free_local0(BbName(3))) } else { block(vec![], exit()) };
    let f = Function {
        locals: vec![pt(ptr_ty, PTR_SIZE as u64)],
        args: vec![],
        ret: None,
        blocks: vec![block(vec![live(0)], alloc), b1, b2, block(vec![], exit())],
        start: BbName(0),
    };
    Program { functions: vec![f], start: FnName(0) }
}

#[test]
fn heap_allocation() {
    assert_eq!(run_program(heap_program(false)), Outcome::Stop);
}

#[test]
fn double_free_is_ub() {
    assert_eq!(run_program(heap_program(true)), Outcome::Ub("double-free".to_string()));
}

#[test]
fn inbounds_offset_out_of_bounds_is_ub() {
    let ptr_ty = raw_ptr_ty(layout(size(1), align(1).unwrap()));
    let stmts = vec![
        live(0),
        live(1),
        assign(local(1), addr_of(local(0), ptr_ty.clone()).unwrap()),
        assign(local(1), ptr_offset(load(local(1)), const_int(Int::from(2), u32_ty()), true)),
    ];
    let p = small_program(vec![pt(u8_ty(), 1), pt(ptr_ty, PTR_SIZE as u64)], stmts);
    assert_eq!(
        run_program(p),
        Outcome::Ub("inbounds offset does not stay in bounds of its allocation".to_string())
    );
}

#[test]
fn array_index_out_of_bounds_is_ub() {
    let arr = array_ty(u8_ty(), Int::from(3));
    let stmts = vec![
        live(0),
        assign(index(local(0), const_int(Int::from(3), u32_ty())), const_int(Int::from(1), u8_ty())),
    ];
    let p = small_program(vec![pt(arr, 1)], stmts);
    assert_eq!(run_program(p), Outcome::Ub("access to out-of-bounds index".to_string()));
}

#[test]
fn missing_start_function_is_unwell() {
    let p = Program { functions: vec![], start: FnName(0) };
    assert_eq!(run_program(p), Outcome::Unwell);
}

#[test]
fn names_render() {
    assert_eq!(local_name_to_string(LocalName(3)), "_3");
    assert_eq!(bb_name_to_string(BbName(12)), "bb12");
    assert_eq!(fn_name_to_string(FnName(0)), "f0");
}

#[test]
fn types_render() {
    assert_eq!(type_to_string(&u32_ty()), "u32");
    assert_eq!(type_to_string(&int_ty(Signedness::Signed, size(8))), "i64");
    assert_eq!(type_to_string(&bool_ty()), "bool");
    assert_eq!(type_to_string(&array_ty(bool_ty(), Int::from(4))), "[bool; 4]");
    let tup = tuple_ty(vec![(size(0), u8_ty()), (size(2), bool_ty())], size(4));
    assert_eq!(type_to_string(&tup), "(u8, bool)");
}

#[test]
fn expressions_render() {
    let e = int_op(BinOpInt::Add, u8_ty(), const_int(Int::from(5), u8_ty()), load(local(1)));
    assert_eq!(value_expr_to_string(&e), "5 +_u8 load(_1)");
    assert_eq!(place_expr_to_string(&field(local(0), 2)), "_0.2");
    assert_eq!(value_expr_to_string(&const_bool(false)), "false");
}

#[test]
fn program_renders() {
    let p = small_program(vec![pt(bool_ty(), 1)], vec![live(0), dead(0)]);
    assert_eq!(
        program_to_string(&p),
        "[start] fn f0() -> !!! {\n  let _0: bool;\n  bb0 [start]:\n    StorageLive(_0);\n    StorageDead(_0);\n    !!! = exit();\n}\n\n"
    );
}

#[test]
fn layouts() {
    let l = u32_ty().layout().unwrap();
    assert_eq!(l.size.bytes().to_text(), "4");
    assert_eq!(l.align.bytes().to_text(), "4");
    assert!(l.inhabited);
    let l = bool_ty().layout().unwrap();
    assert_eq!(l.size.bytes().to_text(), "1");
    assert_eq!(l.align.bytes().to_text(), "1");
    let arr = array_ty(int_ty(Signedness::Unsigned, size(2)), Int::from(3));
    let l = arr.layout().unwrap();
    assert_eq!(l.size.bytes().to_text(), "6");
    assert_eq!(l.align.bytes().to_text(), "2");
    let tup = tuple_ty(vec![(size(0), u8_ty()), (size(4), u32_ty())], size(8));
    let l = tup.layout().unwrap();
    assert_eq!(l.size.bytes().to_text(), "8");
    assert_eq!(l.align.bytes().to_text(), "4");
    assert!(int_ty(Signedness::Signed, size(3)).layout().is_none());
    assert!(array_ty(bool_ty(), Int::from(-1)).layout().is_none());
}

#[test]
fn union_type_renders_in_debug_notation() {
    let u = minirust::builder::union_ty(vec![(size(0), u8_ty())], size(1));
    assert_eq!(
        type_to_string(&u),
        "Union { fields: [(Size { raw: Small(0) }, Int(IntType { signed: Unsigned, size: Size { raw: Small(1) } }))], size: Size { raw: Small(1) }, chunks: [(Size { raw: Small(0) }, Size { raw: Small(1) })] }"
    );
}

#[test]
fn terminators_render() {
    let b0 = block(
        vec![live(0)],
        Terminator::If { condition: load(local(0)), then_block: BbName(1), else_block: BbName(2) },
    );
    let b1 = block(
        vec![],
        Terminator::Call {
            callee: FnName(0),
            arguments: vec![const_int(Int::from(3), u8_ty()), const_bool(true)],
            ret: Some(local(0)),
            next_block: Some(BbName(2)),
        },
    );
    let b2 = block(vec![], Terminator::Return);
    let f = Function { locals: vec![pt(bool_ty(), 1)], args: vec![LocalName(0)], ret: None, blocks: vec![b0, b1, b2], start: BbName(0) };
    let p = Program { functions: vec![f], start: FnName(0) };
    assert_eq!(
        program_to_string(&p),
        "[start] fn f0(_0: bool) -> !!! {\n  let _0: bool;\n  bb0 [start]:\n    StorageLive(_0);\n    if load(_0) {\n      goto -> bb1;\n    } else {\n      goto -> bb2;\n    }\n  bb1:\n    _0 = f0(3, true) -> bb2;\n  bb2:\n    return;\n}\n\n"
    );
}

#[test]
fn live_dead_twice_stops() {
    let p = small_program(vec![pt(bool_ty(), 1)], vec![live(0), dead(0), live(0), dead(0)]);
    assert_eq!(run_program(p), Outcome::Stop);
}

#[test]
fn union_value_renders() {
    let u = minirust::builder::union_ty(vec![(size(0), u8_ty())], size(1));
    let v = ValueExpr::Union { field: 0, expr: Box::new(const_int(Int::from(7), u8_ty())), union_ty: u.clone() };
    let expected = format!("{} {{ f0 : 7 }}", type_to_string(&u));
    assert_eq!(value_expr_to_string(&v), expected);
    assert!(minirust::fmt::check_printable(&v));
}

#[test]
fn box_address_is_not_printable() {
    let boxed = minirust::builder::box_ty(layout(size(1), align(1).unwrap()));
    let e = addr_of(local(0), boxed).unwrap();
    assert!(!minirust::fmt::check_printable(&e));
    let p = small_program(vec![pt(bool_ty(), 1)], vec![assign(local(0), e)]);
    assert!(!minirust::fmt::check_program_printable(&p));
    let q = small_program(vec![pt(bool_ty(), 1)], vec![live(0)]);
    assert!(minirust::fmt::check_program_printable(&q));
}

#[test]
fn live_dead_then_unreachable_is_ub() {
    let b0 = block(vec![live(0), dead(0), live(0), dead(0)], Terminator::Unreachable);
    let f = Function { locals: vec![pt(bool_ty(), 1)], args: vec![], ret: None, blocks: vec![b0], start: BbName(0) };
    let p = Program { functions: vec![f], start: FnName(0) };
    assert_eq!(run_program(p), Outcome::Ub("reached unreachable code".to_string()));
}
