use minirust::builder::{
    addr_of, align, array_ty, assign, bool_ty, const_int, dead, deref, field, int_ty, layout, live,
    load, local, ptr_offset, ptype, raw_ptr_ty, size, small_program, tuple_ty, union_ty,
    assert_stop, assert_ub, assert_unwell,
};
use minirust::integer::Int;
use minirust::ir::{PlaceType, Program, Signedness, Type, PTR_SIZE};
use minirust::size::Size;

fn bool_ptype() -> PlaceType {
    ptype(bool_ty(), align(1).unwrap())
}

fn uint_ty(bytes: u64) -> Type {
    int_ty(Signedness::Unsigned, size(bytes))
}

fn program_alloc(bytes: Int) -> Program {
    let count = bytes;
    let ty = array_ty(bool_ty(), count);
    let locals = vec![ptype(ty, align(1).unwrap())];
    let stmts = vec![live(0), dead(0)];
    small_program(locals, stmts)
}

#[test]
fn too_large_alloc() {
    let ptr_bits = Size::from_bytes_const(PTR_SIZE as u64).bits();
    let large = Int::from(2).pow(&ptr_bits);
    assert!(assert_unwell(program_alloc(large)));

    let small = Int::from(2);
    assert!(assert_stop(program_alloc(small)));
}

#[test]
fn double_live() {
    let locals = vec![bool_ptype()];
    let stmts = vec![live(0), live(0)];
    let p = small_program(locals, stmts);
    assert!(assert_unwell(p));
}

#[test]
fn dead_before_live() {
    let locals = vec![bool_ptype()];
    let stmts = vec![dead(0)];
    let p = small_program(locals, stmts);
    assert!(assert_unwell(p));
}

#[test]
fn uninit_read() {
    let locals = vec![bool_ptype(), bool_ptype()];
    let stmts = vec![live(0), live(1), assign(local(0), load(local(1)))];
    let p = small_program(locals, stmts);
    assert!(assert_ub(p, "load at type PlaceType { ty: Bool, align: Align { raw: Small(1) } } but the data in memory violates the validity invariant"));
}

// type Pair = (u8, u16);
// union Union { f0: Pair, f1: u32 }
//
// let _0: Union;
// let _1: Pair;
// let _2: *const u8;
// let _3: u8;
//
// _0.f1 = 0;
// _1 = _0.f0;
// _2 = &raw _1;
// _2 = load(_2).offset(1)
// _3 = *_2;
#[test]
fn no_preserve_padding() {
    let pair_ty = tuple_ty(vec![(size(0), uint_ty(1)), (size(2), uint_ty(2))], size(4));
    let pair_pty = ptype(pair_ty.clone(), align(2).unwrap());

    let union_ty = union_ty(vec![(size(0), pair_ty), (size(0), uint_ty(4))], size(4));
    let union_pty = ptype(union_ty, align(4).unwrap());

    let u8_layout = layout(size(1), align(1).unwrap());
    let ptr_ty = raw_ptr_ty(u8_layout);
    let ptr_pty = ptype(ptr_ty.clone(), align(PTR_SIZE as u64).unwrap());

    let locals = vec![union_pty, pair_pty, ptr_pty, ptype(uint_ty(1), align(1).unwrap())];

    let stmts = vec![
        live(0),
        live(1),
        live(2),
        live(3),
        assign(field(local(0), 1), const_int(Int::from(0), uint_ty(4))),
        assign(local(1), load(field(local(0), 0))),
        assign(local(2), addr_of(local(1), ptr_ty).unwrap()),
        assign(local(2), ptr_offset(load(local(2)), const_int(Int::from(1), uint_ty(4)), true)),
        assign(local(3), load(deref(load(local(2)), ptype(uint_ty(1), align(1).unwrap())))),
    ];

    let p = small_program(locals, stmts);
    assert!(assert_ub(p, "load at type PlaceType { ty: Int(IntType { signed: Unsigned, size: Size { raw: Small(1) } }), align: Align { raw: Small(1) } } but the data in memory violates the validity invariant"));
}
