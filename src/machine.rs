//! The abstract machine: memory, call stack, and the interpreter loop.
use vstd::prelude::*;
use crate::integer::{Int, trunc_div, floor_mod, floor_div};
use crate::ir::{
    Type, Program, Statement, type_wf, type_size, Terminator, ValueExpr, PlaceExpr, Constant,
    UnOp, UnOpInt, BinOp, BinOpInt, IntRel, IntType, Intrinsic, LocalName, PTR_SIZE,
};
use crate::size::Align;
use crate::value::{
    AbstractByte, Pointer, Value, decode, encode, bring_in_bounds, in_bounds, byte_modulus,
    uninit_bytes, put_bytes, modulus, int_wrap, int_in_bounds, bool_bytes_valid,
    scalar_encoding, scalar_encodable, padding_uninit,
};
use crate::debug::{place_type_debug, place_type_debug_text};

verus! {

/// How a run ends.
#[derive(Debug, PartialEq, Eq)]
pub enum Outcome {
    /// The start function returned, or the program exited.
    Stop,
    /// The program has undefined behavior; the message names the violated condition.
    Ub(String),
    /// The program is malformed in a way the machine refuses to execute.
    Unwell,
}

/// A block of memory with fixed size, alignment and base address.
/// Bytes past the end of `data` are undefined.
#[derive(Debug)]
pub struct Allocation {
    pub data: Vec<AbstractByte>,
    pub size: Int,
    pub align: Int,
    pub addr: Int,
    pub live: bool,
}

/// A location in memory together with the type and alignment it is accessed at.
#[derive(Debug)]
pub struct Place {
    pub ptr: Pointer,
    pub ty: Type,
    pub align: Int,
}

/// One active function invocation.
#[derive(Debug)]
pub struct Frame {
    pub func: usize,
    /// For each local, the pointer to its storage while it is live.
    pub locals: Vec<Option<Pointer>>,
    pub bb: usize,
    pub stmt: usize,
    /// Where the caller wants the return value.
    pub ret_place: Option<Place>,
    /// Where the caller resumes; `None` for a call that must not return.
    pub next_block: Option<usize>,
}

#[derive(Debug)]
pub struct Machine {
    pub mem: Vec<Allocation>,
    pub stack: Vec<Frame>,
    /// The lowest address that a new allocation may get.
    pub next_addr: Int,
    pub stdout: Vec<String>,
    pub stderr: Vec<String>,
}

/// The size of the address space: `2^(8 * PTR_SIZE)`.
pub open spec fn address_space() -> int {
    modulus(PTR_SIZE as int)
}

/// The address space holds `2^64` bytes.
pub proof fn lemma_address_space()
    ensures
        address_space() == 0x1_0000_0000_0000_0000int,
{
    reveal_with_fuel(vstd::arithmetic::power::pow, 9);
}

fn ub(msg: &str) -> (r: Outcome)
    ensures
        r matches Outcome::Ub(m) && m@ == msg@,
{
    Outcome::Ub(msg.to_owned())
}

fn address_space_size() -> (r: Int)
    ensures
        r@ == address_space(),
        r@ >= 1,
{
    byte_modulus(&Int::from_i128(PTR_SIZE as i128))
}

/// The result of an integer operation at an integer type; `None` where it is undefined
/// behavior (division by zero, or a quotient out of the type's range). Addition,
/// subtraction and multiplication wrap around.
pub open spec fn int_bin_op_result(op: BinOpInt, a: int, b: int, ity: IntType) -> Option<int> {
    let q = trunc_div(a, b);
    match op {
        BinOpInt::Add => Some(int_wrap(a + b, ity.signed, ity.size@)),
        BinOpInt::Sub => Some(int_wrap(a - b, ity.signed, ity.size@)),
        BinOpInt::Mul => Some(int_wrap(a * b, ity.signed, ity.size@)),
        BinOpInt::Div => if b == 0 || !int_in_bounds(q, ity.signed, ity.size@) { None } else { Some(q) },
        BinOpInt::Rem => if b == 0 || !int_in_bounds(q, ity.signed, ity.size@) { None } else { Some(a - b * q) },
    }
}

pub open spec fn int_rel_result(rel: IntRel, a: int, b: int) -> bool {
    match rel {
        IntRel::Lt => a < b,
        IntRel::Le => a <= b,
        IntRel::Gt => a > b,
        IntRel::Ge => a >= b,
        IntRel::Eq => a == b,
        IntRel::Ne => a != b,
    }
}

/// What applying a binary operator gives, for integer operators and wrapping offsets.
pub open spec fn bin_op_post(m: Machine, op: BinOp, l: Value, r: Value, res: Result<Value, Outcome>) -> bool {
    match (op, l, r) {
        (BinOp::PtrOffset { inbounds: true }, Value::Ptr(p), Value::Int(o)) => if offset_in_bounds(m, p, p.addr@ + o@) {
            match res {
                Ok(Value::Ptr(q)) => q.provenance == p.provenance && q.addr@ == p.addr@ + o@,
                _ => false,
            }
        } else {
            match res {
                Err(Outcome::Ub(_)) => true,
                _ => false,
            }
        },
        (BinOp::Int(iop, ity), Value::Int(a), Value::Int(b)) => match int_bin_op_result(iop, a@, b@, ity) {
            Some(x) => match res {
                Ok(Value::Int(v)) => v@ == x,
                _ => false,
            },
            None => match res {
                Err(Outcome::Ub(_)) => true,
                _ => false,
            },
        },
        (BinOp::IntRel(rel), Value::Int(a), Value::Int(b)) => match res {
            Ok(Value::Bool(x)) => x == int_rel_result(rel, a@, b@),
            _ => false,
        },
        (BinOp::Int(..), _, _) | (BinOp::IntRel(..), _, _) => match res {
            Err(Outcome::Unwell) => true,
            _ => false,
        },
        (BinOp::PtrOffset { inbounds: false }, Value::Ptr(p), Value::Int(o)) => match res {
            Ok(Value::Ptr(q)) => q.provenance == p.provenance
                && q.addr@ == crate::integer::floor_mod(p.addr@ + o@, address_space()),
            _ => false,
        },
        _ => true,
    }
}

/// The pointer's provenance names a live allocation, and both the pointer and the
/// address `new` lie within it (one past the end included).
pub open spec fn offset_in_bounds(m: Machine, p: Pointer, new: int) -> bool {
    p.provenance matches Some(id) && id < m.mem@.len() && {
        let a = m.mem@[id as int];
        a.live && a.addr@ <= p.addr@ <= a.addr@ + a.size@ && a.addr@ <= new <= a.addr@ + a.size@
    }
}

/// What applying a unary operator gives.
pub open spec fn un_op_post(op: UnOp, v: Value, res: Result<Value, Outcome>) -> bool {
    match (op, v) {
        (UnOp::Int(UnOpInt::Neg, ity), Value::Int(x)) => match res {
            Ok(Value::Int(y)) => y@ == int_wrap(-x@, ity.signed, ity.size@),
            _ => false,
        },
        (UnOp::Int(UnOpInt::Cast, ity), Value::Int(x)) => match res {
            Ok(Value::Int(y)) => y@ == int_wrap(x@, ity.signed, ity.size@),
            _ => false,
        },
        (UnOp::Ptr2Int, Value::Ptr(p)) => match res {
            Ok(Value::Int(y)) => y@ == p.addr@,
            _ => false,
        },
        (UnOp::Int2Ptr(_), Value::Int(x)) => match res {
            Ok(Value::Ptr(p)) => p.addr@ == x@ && p.provenance is None,
            _ => false,
        },
        (UnOp::Ptr2Ptr(_), Value::Ptr(p)) => match res {
            Ok(Value::Ptr(q)) => q == p,
            _ => false,
        },
        _ => match res {
            Err(Outcome::Unwell) => true,
            _ => false,
        },
    }
}

/// Whether `ptr` is the base of a live allocation of exactly this size and alignment.
pub open spec fn can_deallocate(m: Machine, ptr: Pointer, size: int, align: int) -> bool {
    ptr.provenance matches Some(id) && id < m.mem@.len() && {
        let a = m.mem@[id as int];
        a.live && a.addr@ == ptr.addr@ && a.size@ == size && a.align@ == align
    }
}

/// Byte `i` of the allocation; bytes never written are undefined.
pub open spec fn byte_at(a: Allocation, i: int) -> AbstractByte {
    if 0 <= i < a.data@.len() { a.data@[i] } else { AbstractByte::Uninit }
}

/// `len` bytes of the allocation from offset `off` on.
pub open spec fn bytes_at(a: Allocation, off: int, len: int) -> Seq<AbstractByte> {
    Seq::new(len as nat, |j: int| byte_at(a, off + j))
}

/// Whether `len` bytes at `ptr` lie inside the live allocation that the pointer's
/// provenance names (at an offset that a `usize` holds).
pub open spec fn access_in_bounds(m: Machine, ptr: Pointer, len: int) -> bool {
    ptr.provenance matches Some(id) && id < m.mem@.len() && {
        let a = m.mem@[id as int];
        a.live && a.addr@ <= ptr.addr@ && ptr.addr@ + len <= a.addr@ + a.size@
            && ptr.addr@ - a.addr@ <= usize::MAX
    }
}

/// The statement that the top frame is at, if it is at one.
pub open spec fn current_statement(prog: Program, m: Machine) -> Option<Statement> {
    if m.stack@.len() == 0 {
        None
    } else {
        let f = m.stack@.last();
        if f.func < prog.functions@.len() && f.bb < prog.functions@[f.func as int].blocks@.len()
            && f.stmt < prog.functions@[f.func as int].blocks@[f.bb as int].statements@.len() {
            Some(prog.functions@[f.func as int].blocks@[f.bb as int].statements@[f.stmt as int])
        } else {
            None
        }
    }
}

/// Local `l` of the top frame has a type too large for the address space.
pub open spec fn local_too_large(prog: Program, m: Machine, l: LocalName) -> bool {
    m.stack@.len() > 0 && {
        let frame = m.stack@.last();
        let i = l.0 as int;
        frame.func < prog.functions@.len() && i < frame.locals@.len()
            && i < prog.functions@[frame.func as int].locals@.len() && {
            let ty = prog.functions@[frame.func as int].locals@[i].ty;
            type_wf(ty) && type_size(ty) >= address_space()
        }
    }
}

/// The start function returns nothing and begins with `StorageLive` of a local whose
/// type does not fit the address space.
pub open spec fn starts_with_oversized_live(prog: Program) -> bool {
    start_statement(prog, 0) matches Some(Statement::StorageLive(l)) && {
        let f = prog.functions@[prog.start.0 as int];
        let i = l.0 as int;
        f.ret is None && i < f.locals@.len() && type_wf(f.locals@[i].ty)
            && type_size(f.locals@[i].ty) >= address_space()
    }
}

/// Local `l` of the top frame is dead, declared, of a type whose size is defined, and
/// there is room for its storage.
pub open spec fn live_ok(prog: Program, m: Machine, l: LocalName) -> bool {
    local_dead(m, l) && {
        let frame = m.stack@.last();
        let i = l.0 as int;
        frame.func < prog.functions@.len() && i < prog.functions@[frame.func as int].locals@.len() && {
            let pt = prog.functions@[frame.func as int].locals@[i];
            type_wf(pt.ty) && alloc_room(m, type_size(pt.ty), pt.align@)
        }
    }
}

/// Local `l` of the top frame is live, and its pointer is the base of a live allocation.
pub open spec fn dead_ok(m: Machine, l: LocalName) -> bool {
    local_live(m, l) && {
        let p = m.stack@.last().locals@[l.0 as int]->Some_0;
        p.provenance matches Some(id) && id < m.mem@.len() && m.mem@[id as int].live
            && m.mem@[id as int].addr@ == p.addr@
    }
}

/// A terminator that calls the exit intrinsic with no arguments.
pub open spec fn is_exit(t: Terminator) -> bool {
    t matches Terminator::CallIntrinsic { intrinsic: Intrinsic::Exit, arguments, .. } && arguments@.len() == 0
}

/// The top frame has run all statements of its block, and the block's terminator exits.
pub open spec fn at_exit(prog: Program, m: Machine) -> bool {
    m.stack@.len() > 0 && {
        let f = m.stack@.last();
        f.func < prog.functions@.len() && f.bb < prog.functions@[f.func as int].blocks@.len() && {
            let b = prog.functions@[f.func as int].blocks@[f.bb as int];
            f.stmt >= b.statements@.len() && is_exit(b.terminator)
        }
    }
}

/// The top frame has run all statements of its block, whose terminator is `Unreachable`.
pub open spec fn at_unreachable(prog: Program, m: Machine) -> bool {
    m.stack@.len() > 0 && {
        let f = m.stack@.last();
        f.func < prog.functions@.len() && f.bb < prog.functions@[f.func as int].blocks@.len() && {
            let b = prog.functions@[f.func as int].blocks@[f.bb as int];
            f.stmt >= b.statements@.len() && b.terminator is Unreachable
        }
    }
}

/// The start function takes no arguments, returns nothing, and its start block has no
/// statements and the terminator `Unreachable`.
pub open spec fn runs_into_unreachable(prog: Program) -> bool {
    let fi = prog.start.0 as int;
    0 <= fi < prog.functions@.len() && {
        let f = prog.functions@[fi];
        let bi = f.start.0 as int;
        f.args@.len() == 0 && f.ret is None && bi < f.blocks@.len()
            && f.blocks@[bi].statements@.len() == 0 && f.blocks@[bi].terminator is Unreachable
    }
}

/// Both machines have a top frame, at the same function, block and statement.
pub open spec fn same_position(a: Machine, b: Machine) -> bool {
    a.stack@.len() > 0 && b.stack@.len() == a.stack@.len()
        && b.stack@.last().func == a.stack@.last().func
        && b.stack@.last().bb == a.stack@.last().bb
        && b.stack@.last().stmt == a.stack@.last().stmt
}

/// `b`'s top frame is at the statement after the one `a`'s top frame is at.
pub open spec fn next_position(a: Machine, b: Machine) -> bool {
    a.stack@.len() > 0 && b.stack@.len() == a.stack@.len()
        && b.stack@.last().func == a.stack@.last().func
        && b.stack@.last().bb == a.stack@.last().bb
        && b.stack@.last().stmt == a.stack@.last().stmt + 1
}

/// `n` rounded up to a multiple of `a`.
pub open spec fn aligned_up(n: int, a: int) -> int {
    if floor_mod(n, a) == 0 { n } else { n + a - floor_mod(n, a) }
}

proof fn lemma_aligned_up_at_least(n: int, a: int)
    requires
        a >= 1,
    ensures
        aligned_up(n, a) >= n,
{
    let q = floor_div(n, a);
    vstd::arithmetic::div_mod::lemma_fundamental_div_mod(n, a);
    vstd::arithmetic::div_mod::lemma_mod_bound(n, a);
    assert(floor_mod(n, a) == n % a);
}

/// Whether an allocation of this size and alignment fits in the address space that is left.
pub open spec fn alloc_room(m: Machine, size: int, align: int) -> bool {
    0 <= size < address_space() && aligned_up(m.next_addr@, align) + size < address_space()
}

/// The message of a load whose bytes violate the validity invariant of an integer or
/// boolean type.
pub open spec fn load_ub_message(ty: Type, align: int) -> Seq<char> {
    "load at type "@ + place_type_debug_text(ty, align)
        + " but the data in memory violates the validity invariant"@
}

/// The declared place type of local `l` of the top frame's function.
pub open spec fn local_decl(prog: Program, m: Machine, l: LocalName) -> crate::ir::PlaceType {
    prog.functions@[m.stack@.last().func as int].locals@[l.0 as int]
}

/// Local `l` of the top frame is a live `bool` whose storage is a fresh, aligned, one-byte
/// allocation that was never written.
pub open spec fn uninit_bool_local(prog: Program, m: Machine, l: LocalName) -> bool {
    local_live(m, l) && m.stack@.last().func < prog.functions@.len()
        && (l.0 as int) < prog.functions@[m.stack@.last().func as int].locals@.len()
        && local_decl(prog, m, l).ty is Bool && {
        let p = m.stack@.last().locals@[l.0 as int]->Some_0;
        p.provenance matches Some(id) && id < m.mem@.len() && {
            let a = m.mem@[id as int];
            a.live && a.addr@ == p.addr@ && a.size@ == 1 && a.data@.len() == 0
                && floor_mod(p.addr@, local_decl(prog, m, l).align@) == 0
        }
    }
}

/// Local `l` of the top frame is live, and its storage is a fresh, aligned allocation of
/// the declared type's size that was never written.
pub open spec fn fresh_local(prog: Program, m: Machine, l: LocalName) -> bool {
    local_live(m, l) && m.stack@.last().func < prog.functions@.len()
        && (l.0 as int) < prog.functions@[m.stack@.last().func as int].locals@.len() && {
        let p = m.stack@.last().locals@[l.0 as int]->Some_0;
        p.provenance matches Some(id) && id < m.mem@.len() && {
            let a = m.mem@[id as int];
            a.live && a.addr@ == p.addr@ && a.size@ == type_size(local_decl(prog, m, l).ty)
                && a.data@.len() == 0 && floor_mod(p.addr@, local_decl(prog, m, l).align@) == 0
        }
    }
}

/// What a successful `StorageLive(l)` does: `l` gets fresh storage, the other locals of the
/// top frame stay as they were, and the next free address moves past the new allocation.
pub open spec fn storage_live_effect(prog: Program, m0: Machine, m1: Machine, l: LocalName) -> bool {
    fresh_local(prog, m1, l)
    && m1.stack@.last().func == m0.stack@.last().func
    && m1.stack@.last().locals@.len() == m0.stack@.last().locals@.len()
    && (forall|j: int| 0 <= j < m0.stack@.last().locals@.len() && j != l.0 as int
        ==> m1.stack@.last().locals@[j] == m0.stack@.last().locals@[j])
    && m1.next_addr@ == aligned_up(m0.next_addr@, local_decl(prog, m0, l).align@)
        + type_size(local_decl(prog, m0, l).ty) + 1
}

/// The expression loads a local that `uninit_bool_local` describes.
pub open spec fn loads_uninit_bool(prog: Program, m: Machine, e: ValueExpr) -> bool {
    match e {
        ValueExpr::Load { source, .. } => match *source {
            PlaceExpr::Local(l) => uninit_bool_local(prog, m, l),
            _ => false,
        },
        _ => false,
    }
}

/// The alignment declared for the local that the expression loads.
pub open spec fn loaded_align(prog: Program, m: Machine, e: ValueExpr) -> int {
    match e {
        ValueExpr::Load { source, .. } => match *source {
            PlaceExpr::Local(l) => local_decl(prog, m, l).align@,
            _ => 0,
        },
        _ => 0,
    }
}

/// `m1` is `m0` with `b` written into allocation `id` at offset `off`: every other byte and
/// every other allocation is as it was.
pub open spec fn written(m0: Machine, m1: Machine, id: int, off: int, b: Seq<AbstractByte>) -> bool {
    &&& m1.mem@.len() == m0.mem@.len()
    &&& forall|j: int| 0 <= j < m0.mem@.len() && j != id ==> m1.mem@[j] == m0.mem@[j]
    &&& m1.mem@[id].live == m0.mem@[id].live
    &&& m1.mem@[id].addr == m0.mem@[id].addr
    &&& m1.mem@[id].size == m0.mem@[id].size
    &&& m1.mem@[id].align == m0.mem@[id].align
    &&& forall|k: int| 0 <= k ==> #[trigger] byte_at(m1.mem@[id], k) == (
        if off <= k < off + b.len() { b[k - off] } else { byte_at(m0.mem@[id], k) })
}

/// `m1` is `m0` after writing the bytes `b` that encode `v` at type `ty` to `ptr`; a tuple's
/// padding bytes are written as undefined, whatever they held before.
pub open spec fn stored(m0: Machine, m1: Machine, ptr: Pointer, ty: Type, v: Value, b: Seq<AbstractByte>) -> bool {
    scalar_encoding(ty, v, b) && padding_uninit(ty, b) && if b.len() == 0 {
        m1.mem@ == m0.mem@
    } else {
        let id = ptr.provenance->Some_0 as int;
        written(m0, m1, id, ptr.addr@ - m0.mem@[id].addr@, b)
    }
}

/// Whether the top frame has local `l` live.
pub open spec fn local_live(m: Machine, l: LocalName) -> bool {
    m.stack@.len() > 0 && (l.0 as int) < m.stack@.last().locals@.len()
        && m.stack@.last().locals@[l.0 as int] is Some
}

/// Whether the top frame has local `l`, dead.
pub open spec fn local_dead(m: Machine, l: LocalName) -> bool {
    m.stack@.len() > 0 && (l.0 as int) < m.stack@.last().locals@.len()
        && m.stack@.last().locals@[l.0 as int] is None
}

impl Machine {
    pub fn new() -> (r: Machine)
        ensures
            r.stack@.len() == 0,
            r.mem@.len() == 0,
            r.next_addr@ == 256,
    {
        Machine {
            mem: Vec::new(),
            stack: Vec::new(),
            next_addr: Int::from_i128(256),
            stdout: Vec::new(),
            stderr: Vec::new(),
        }
    }

    /// Creates an allocation. A size that does not fit the address space makes the
    /// program `Unwell`.
    pub fn allocate(&mut self, size: &Int, align: &Align) -> (r: Result<Pointer, Outcome>)
        ensures
            (size@ < 0 || size@ >= address_space()) ==> r matches Err(Outcome::Unwell),
            r is Ok ==> final(self).mem@.len() == old(self).mem@.len() + 1,
            r matches Ok(p) ==> p.provenance == Some(old(self).mem@.len() as usize)
                && final(self).mem@.last().live && final(self).mem@.last().size@ == size@
                && final(self).mem@.last().align@ == align@ && final(self).mem@.last().addr@ == p.addr@
                && final(self).mem@.last().data@.len() == 0
                && p.addr@ + size@ < address_space() && floor_mod(p.addr@, align@) == 0
                && final(self).mem@.subrange(0, old(self).mem@.len() as int) == old(self).mem@,
            r is Err ==> final(self).mem@ == old(self).mem@,
            r is Err ==> (r matches Err(Outcome::Unwell)),
            final(self).stack@ == old(self).stack@,
            alloc_room(*old(self), size@, align@) <==> r is Ok,
            r matches Ok(p) ==> p.addr@ == aligned_up(old(self).next_addr@, align@)
                && final(self).next_addr@ == p.addr@ + size@ + 1,
    {
        let space = address_space_size();
        if size.is_negative() || !size.lt(&space) {
            return Err(Outcome::Unwell);
        }
        let a = align.bytes();
        let rem = self.next_addr.mod_floor(&a);
        let addr = if rem.eq(&Int::zero()) {
            self.next_addr.clone()
        } else {
            self.next_addr.add(&a).sub(&rem)
        };
        proof {
            let q = floor_div(self.next_addr@, a@);
            if rem@ == 0 {
                assert(addr@ == q * a@ + 0) by (nonlinear_arith)
                    requires addr@ == self.next_addr@, rem@ == self.next_addr@ - a@ * q, rem@ == 0;
                vstd::arithmetic::div_mod::lemma_fundamental_div_mod_converse(addr@, a@, q, 0);
            } else {
                assert(addr@ == (q + 1) * a@ + 0) by (nonlinear_arith)
                    requires addr@ == self.next_addr@ + a@ - rem@, rem@ == self.next_addr@ - a@ * q;
                vstd::arithmetic::div_mod::lemma_fundamental_div_mod_converse(addr@, a@, q + 1, 0);
            }
            vstd::arithmetic::div_mod::lemma_fundamental_div_mod(addr@, a@);
            assert(floor_mod(addr@, a@) == addr@ % a@);
        }
        let end = addr.add(size);
        if !end.lt(&space) {
            // No room is left in the address space.
            return Err(Outcome::Unwell);
        }
        let id = self.mem.len();
        self.mem.push(Allocation { data: Vec::new(), size: size.clone(), align: a, addr: addr.clone(), live: true });
        self.next_addr = end.add(&Int::one());
        Ok(Pointer { addr, provenance: Some(id) })
    }

    /// Ends an allocation; the pointer must be its base, with matching size and alignment.
    pub fn deallocate(&mut self, ptr: &Pointer, size: &Int, align: &Int) -> (r: Result<(), Outcome>)
        ensures
            final(self).stack@ == old(self).stack@,
            final(self).next_addr == old(self).next_addr,
            final(self).mem@.len() == old(self).mem@.len(),
            r is Ok <==> can_deallocate(*old(self), *ptr, size@, align@),
            r is Err ==> (r matches Err(Outcome::Ub(_))),
            r is Err ==> final(self).mem@ == old(self).mem@,
            r is Ok ==> ({
                let id = ptr.provenance->Some_0 as int;
                &&& !final(self).mem@[id].live
                &&& final(self).mem@[id].addr@ == old(self).mem@[id].addr@
                &&& final(self).mem@[id].size@ == old(self).mem@[id].size@
                &&& forall|j: int| 0 <= j < old(self).mem@.len() && j != id ==> final(self).mem@[j] == old(self).mem@[j]
            }),
    {
        let id = match ptr.provenance {
            Some(id) => id,
            None => {
                return Err(ub("deallocating a pointer without provenance"));
            },
        };
        if id >= self.mem.len() {
            return Err(ub("deallocating a pointer without provenance"));
        }
        if !self.mem[id].live {
            return Err(ub("double-free"));
        }
        if !self.mem[id].addr.eq(&ptr.addr) {
            return Err(ub("deallocating with pointer not to the beginning of its allocation"));
        }
        if !self.mem[id].size.eq(size) {
            return Err(ub("deallocating with incorrect size information"));
        }
        if !self.mem[id].align.eq(align) {
            return Err(ub("deallocating with incorrect alignment information"));
        }
        let old_alloc = self.mem.remove(id);
        let dead = Allocation {
            data: Vec::new(),
            size: old_alloc.size,
            align: old_alloc.align,
            addr: old_alloc.addr,
            live: false,
        };
        self.mem.insert(id, dead);
        Ok(())
    }

    /// Checks that `len` bytes at `ptr` may be accessed at alignment `align`, and gives the
    /// allocation and offset (none for an empty access).
    fn check_access(&self, ptr: &Pointer, len: &Int, align: &Int) -> (r: Result<Option<(usize, usize)>, Outcome>)
        requires
            align@ >= 1,
        ensures
            r matches Ok(Some((id, off))) ==> id < self.mem@.len() && ptr.provenance == Some(id)
                && off as int == ptr.addr@ - self.mem@[id as int].addr@,
            r matches Ok(None) ==> len@ == 0,
            r matches Ok(Some(_)) ==> len@ != 0 && access_in_bounds(*self, *ptr, len@),
            (len@ > 0 && floor_mod(ptr.addr@, align@) == 0 && access_in_bounds(*self, *ptr, len@))
                ==> r matches Ok(Some(_)),
            !(floor_mod(ptr.addr@, align@) == 0) ==> (r matches Err(Outcome::Ub(_))),
            (len@ > 0 && !access_in_bounds(*self, *ptr, len@)) ==> (r matches Err(Outcome::Ub(_))),
    {
        if !ptr.addr.mod_floor(align).eq(&Int::zero()) {
            return Err(ub("pointer is insufficiently aligned"));
        }
        if len.eq(&Int::zero()) {
            return Ok(None);
        }
        let id = match ptr.provenance {
            Some(id) => id,
            None => {
                return Err(ub("dereferencing pointer without provenance"));
            },
        };
        if id >= self.mem.len() {
            return Err(ub("dereferencing pointer without provenance"));
        }
        let alloc = &self.mem[id];
        if !alloc.live {
            return Err(ub("dereferencing pointer to dead allocation"));
        }
        let off = ptr.addr.sub(&alloc.addr);
        if off.is_negative() || alloc.size.lt(&off.add(len)) {
            return Err(ub("dereferencing pointer outside the bounds of its allocation"));
        }
        match off.to_usize() {
            Some(o) => Ok(Some((id, o))),
            None => Err(ub("dereferencing pointer outside the bounds of its allocation")),
        }
    }

    fn read_bytes(&self, id: usize, off: usize, len: usize) -> (r: Vec<AbstractByte>)
        requires
            id < self.mem@.len(),
        ensures
            r@ == bytes_at(self.mem@[id as int], off as int, len as int),
    {
        let data = &self.mem[id].data;
        let mut out: Vec<AbstractByte> = Vec::new();
        for i in 0..len
            invariant
                out@.len() == i,
                data == &self.mem@[id as int].data,
                forall|j: int| 0 <= j < i ==> out@[j] == byte_at(self.mem@[id as int], off + j),
        {
            if off < data.len() && i < data.len() - off {
                out.push(data[off + i]);
            } else {
                out.push(AbstractByte::Uninit);
            }
        }
        assert(out@ =~= bytes_at(self.mem@[id as int], off as int, len as int));
        out
    }

    fn write_bytes(&mut self, id: usize, off: usize, bytes: &Vec<AbstractByte>)
        requires
            id < old(self).mem@.len(),
            off + bytes@.len() <= usize::MAX,
        ensures
            final(self).stack@ == old(self).stack@,
            final(self).next_addr == old(self).next_addr,
            written(*old(self), *final(self), id as int, off as int, bytes@),
    {
        let ghost m0 = *self;
        let ghost a0 = self.mem@[id as int];
        let mut alloc = self.mem.remove(id);
        let mut data = alloc.data;
        let mut i: usize = 0;
        while i < bytes.len()
            invariant
                i <= bytes@.len(),
                off + bytes@.len() <= usize::MAX,
                data@.len() >= a0.data@.len(),
                i > 0 ==> data@.len() >= off + i,
                forall|k: int| 0 <= k < data@.len() ==> #[trigger] data@[k] == (
                    if off <= k < off + i { bytes@[k - off] } else { byte_at(a0, k) }),
            decreases bytes.len() - i,
        {
            let pos = off + i;
            while data.len() <= pos
                invariant
                    data@.len() >= a0.data@.len(),
                    pos == off + i,
                    i > 0 ==> data@.len() >= off + i,
                    forall|k: int| 0 <= k < data@.len() ==> #[trigger] data@[k] == (
                        if off <= k < off + i { bytes@[k - off] } else { byte_at(a0, k) }),
                decreases pos + 1 - data.len(),
            {
                data.push(AbstractByte::Uninit);
            }
            data.set(pos, bytes[i]);
            i = i + 1;
        }
        let ghost d = data@;
        alloc.data = data;
        self.mem.insert(id, alloc);
        proof {
            assert(self.mem@ =~= m0.mem@.update(id as int, self.mem@[id as int]));
            assert(self.mem@[id as int].data@ == d);
            assert forall|k: int| 0 <= k implies #[trigger] byte_at(self.mem@[id as int], k) == (
                if off <= k < off + bytes@.len() { bytes@[k - off] } else { byte_at(m0.mem@[id as int], k) }) by {
                if k < d.len() {
                    assert(d[k] == (if off <= k < off + bytes@.len() { bytes@[k - off] } else { byte_at(a0, k) }));
                }
            }
        }
    }

    /// Reads a value of the place's type; undefined behavior where the bytes violate
    /// the type's validity invariant.
    pub fn typed_load(&self, place: &Place) -> (r: Result<Value, Outcome>)
        requires
            place.align@ >= 1,
        ensures
            (place.ty is Bool && floor_mod(place.ptr.addr@, place.align@) == 0
                && access_in_bounds(*self, place.ptr, 1)) ==> (r is Ok <==> bool_bytes_valid(
                    bytes_at(self.mem@[place.ptr.provenance->Some_0 as int],
                        place.ptr.addr@ - self.mem@[place.ptr.provenance->Some_0 as int].addr@, 1))),
            (place.ty is Bool && !(floor_mod(place.ptr.addr@, place.align@) == 0
                && access_in_bounds(*self, place.ptr, 1))) ==> (r matches Err(Outcome::Ub(_))),
            (place.ty is Bool && floor_mod(place.ptr.addr@, place.align@) == 0
                && access_in_bounds(*self, place.ptr, 1) && r is Err) ==> (r matches Err(Outcome::Ub(m))
                    && m@ == load_ub_message(place.ty, place.align@)),
    {
        let size = match place.ty.size() {
            Some(s) => s.bytes(),
            None => {
                return Err(Outcome::Unwell);
            },
        };
        let len = match size.to_usize() {
            Some(n) => n,
            None => {
                return Err(ub("dereferencing pointer outside the bounds of its allocation"));
            },
        };
        let bytes = match self.check_access(&place.ptr, &size, &place.align)? {
            Some((id, off)) => self.read_bytes(id, off, len),
            None => Vec::new(),
        };
        match decode(&place.ty, &bytes) {
            Some(v) => Ok(v),
            None => {
                let mut msg = String::new();
                msg.append("load at type ");
                let t = place_type_debug(&place.ty, &place.align);
                msg.append(t.as_str());
                msg.append(" but the data in memory violates the validity invariant");
                proof {
                    if place.ty is Bool {
                        assert(msg@ =~= load_ub_message(place.ty, place.align@));
                    }
                }
                Err(Outcome::Ub(msg))
            },
        }
    }

    /// Writes a value of the place's type.
    pub fn typed_store(&mut self, place: &Place, v: &Value) -> (r: Result<(), Outcome>)
        requires
            place.align@ >= 1,
        ensures
            final(self).mem@.len() == old(self).mem@.len(),
            final(self).stack@ == old(self).stack@,
            r is Ok ==> exists|b: Seq<AbstractByte>| #[trigger] stored(*old(self), *final(self), place.ptr, place.ty, *v, b),
            r is Err ==> final(self).mem@ == old(self).mem@,
            (scalar_encodable(place.ty, *v) && floor_mod(place.ptr.addr@, place.align@) == 0
                && type_size(place.ty) > 0 && access_in_bounds(*old(self), place.ptr, type_size(place.ty))
                && place.ptr.addr@ - old(self).mem@[place.ptr.provenance->Some_0 as int].addr@
                    + type_size(place.ty) <= usize::MAX) ==> r is Ok,
    {
        let bytes = match encode(&place.ty, v) {
            Some(b) => b,
            None => {
                return Err(Outcome::Unwell);
            },
        };
        let len = Int::from_i128(bytes.len() as i128);
        match self.check_access(&place.ptr, &len, &place.align) {
            Ok(Some((id, off))) => {
                if off > usize::MAX - bytes.len() {
                    return Err(ub("dereferencing pointer outside the bounds of its allocation"));
                }
                self.write_bytes(id, off, &bytes);
                assert(stored(*old(self), *self, place.ptr, place.ty, *v, bytes@));
            },
            Ok(None) => {
                assert(stored(*old(self), *self, place.ptr, place.ty, *v, bytes@));
            },
            Err(o) => {
                return Err(o);
            },
        }
        Ok(())
    }

    /// The place of local `l` in the top frame.
    fn local_place(&self, prog: &Program, l: LocalName) -> (r: Result<Place, Outcome>)
        ensures
            r matches Ok(p) ==> p.align@ >= 1,
            (local_live(*self, l) && self.stack@.last().func < prog.functions@.len()
                && (l.0 as int) < prog.functions@[self.stack@.last().func as int].locals@.len()) ==> (
                r matches Ok(p) && p.ptr.addr@ == self.stack@.last().locals@[l.0 as int]->Some_0.addr@
                && p.ptr.provenance == self.stack@.last().locals@[l.0 as int]->Some_0.provenance
                && p.align@ == local_decl(*prog, *self, l).align@
                && (local_decl(*prog, *self, l).ty is Bool ==> p.ty is Bool)),
    {
        let n = self.stack.len();
        if n == 0 {
            return Err(Outcome::Unwell);
        }
        let frame = &self.stack[n - 1];
        if frame.func >= prog.functions.len() {
            return Err(Outcome::Unwell);
        }
        let func = &prog.functions[frame.func];
        let i = l.0 as usize;
        if i >= func.locals.len() || i >= frame.locals.len() {
            return Err(Outcome::Unwell);
        }
        match &frame.locals[i] {
            Some(ptr) => {
                let pt = &func.locals[i];
                Ok(Place { ptr: ptr.clone(), ty: pt.ty.clone(), align: pt.align.bytes() })
            },
            None => Err(ub("access to a dead local")),
        }
    }

    /// Evaluates a place expression to a location.
    pub fn eval_place(&mut self, prog: &Program, e: &PlaceExpr) -> (r: Result<Place, Outcome>)
        ensures
            r matches Ok(p) ==> p.align@ >= 1,
            final(self).stack@ == old(self).stack@,
            final(self).mem@ == old(self).mem@,
            e matches PlaceExpr::Local(l) ==> ((local_live(*old(self), *l)
                && old(self).stack@.last().func < prog.functions@.len()
                && (l.0 as int) < prog.functions@[old(self).stack@.last().func as int].locals@.len()) ==> (
                r matches Ok(p) && p.ptr.addr@ == old(self).stack@.last().locals@[l.0 as int]->Some_0.addr@
                && p.ptr.provenance == old(self).stack@.last().locals@[l.0 as int]->Some_0.provenance
                && p.align@ == local_decl(*prog, *old(self), *l).align@
                && (local_decl(*prog, *old(self), *l).ty is Bool ==> p.ty is Bool))),
        decreases e, 0nat,
    {
        match e {
            PlaceExpr::Local(l) => self.local_place(prog, *l),
            PlaceExpr::Deref { operand, ptype } => {
                let v = self.eval_value(prog, operand)?;
                match v {
                    Value::Ptr(p) => Ok(Place { ptr: p, ty: ptype.ty.clone(), align: ptype.align.bytes() }),
                    _ => Err(Outcome::Unwell),
                }
            },
            PlaceExpr::Field { root, field } => {
                let rp = self.eval_place(prog, root)?;
                let fields = match &rp.ty {
                    Type::Tuple { fields, .. } => fields,
                    Type::Union { fields, .. } => fields,
                    _ => {
                        return Err(Outcome::Unwell);
                    },
                };
                if *field >= fields.len() {
                    return Err(Outcome::Unwell);
                }
                let off = fields[*field].0.bytes();
                let ty = fields[*field].1.clone();
                let align = restrict_align(&rp.align, &off);
                let ptr = Pointer { addr: rp.ptr.addr.add(&off), provenance: rp.ptr.provenance };
                Ok(Place { ptr, ty, align })
            },
            PlaceExpr::Index { root, index } => {
                let rp = self.eval_place(prog, root)?;
                let iv = self.eval_value(prog, index)?;
                let idx = match iv {
                    Value::Int(i) => i,
                    _ => {
                        return Err(Outcome::Unwell);
                    },
                };
                match &rp.ty {
                    Type::Array { elem, count } => {
                        if idx.is_negative() || !idx.lt(count) {
                            return Err(ub("access to out-of-bounds index"));
                        }
                        let esize = match elem.size() {
                            Some(s) => s.bytes(),
                            None => {
                                return Err(Outcome::Unwell);
                            },
                        };
                        let off = esize.mul(&idx);
                        proof {
                            vstd::arithmetic::mul::lemma_mul_nonnegative(esize@, idx@);
                        }
                        let align = restrict_align(&rp.align, &off);
                        let e: &Type = elem;
                        let ptr = Pointer { addr: rp.ptr.addr.add(&off), provenance: rp.ptr.provenance };
                        Ok(Place { ptr, ty: e.clone(), align })
                    },
                    _ => Err(Outcome::Unwell),
                }
            },
        }
    }

    /// Evaluates a value expression.
    #[verifier::loop_isolation(false)]
    pub fn eval_value(&mut self, prog: &Program, e: &ValueExpr) -> (r: Result<Value, Outcome>)
        ensures
            final(self).stack@ == old(self).stack@,
            final(self).mem@ == old(self).mem@,
            loads_uninit_bool(*prog, *old(self), *e) ==> (r matches Err(Outcome::Ub(msg))
                && msg@ == load_ub_message(Type::Bool, loaded_align(*prog, *old(self), *e))),
            e matches ValueExpr::Constant(Constant::Int(i), _) ==> (r matches Ok(Value::Int(v)) && v@ == i@),
            e matches ValueExpr::Constant(Constant::Bool(b), _) ==> r == Ok::<Value, Outcome>(Value::Bool(*b)),
        decreases e, 0nat,
    {
        match e {
            ValueExpr::Constant(c, _) => match c {
                Constant::Int(i) => Ok(Value::Int(i.clone())),
                Constant::Bool(b) => Ok(Value::Bool(*b)),
            },
            ValueExpr::Tuple(es, _) => {
                let mut vals: Vec<Value> = Vec::new();
                let mut i: usize = 0;
                while i < es.len()
                    invariant
                        self.stack@ == old(self).stack@,
                        self.mem@ == old(self).mem@,
                    decreases es.len() - i,
                {
                    proof {
                        assert(decreases_to!(es => es[i as int]));
                    }
                    let v = self.eval_value(prog, &es[i])?;
                    vals.push(v);
                    i = i + 1;
                }
                Ok(Value::Tuple(vals))
            },
            ValueExpr::Union { field, expr, union_ty } => {
                let v = self.eval_value(prog, expr)?;
                match union_ty {
                    Type::Union { fields, size, .. } => {
                        if *field >= fields.len() {
                            return Err(Outcome::Unwell);
                        }
                        let fb = match encode(&fields[*field].1, &v) {
                            Some(b) => b,
                            None => {
                                return Err(Outcome::Unwell);
                            },
                        };
                        let mut data = match uninit_bytes(size) {
                            Some(d) => d,
                            None => {
                                return Err(Outcome::Unwell);
                            },
                        };
                        put_bytes(&mut data, &fields[*field].0, &fb);
                        match decode(union_ty, &data) {
                            Some(u) => Ok(u),
                            None => Err(Outcome::Unwell),
                        }
                    },
                    _ => Err(Outcome::Unwell),
                }
            },
            ValueExpr::Load { source, .. } => {
                let p = match self.eval_place(prog, source) {
                    Ok(p) => p,
                    Err(o) => {
                        return Err(o);
                    },
                };
                proof {
                    if loads_uninit_bool(*prog, *old(self), *e) {
                        let id = p.ptr.provenance->Some_0 as int;
                        assert(byte_at(self.mem@[id], 0) == AbstractByte::Uninit);
                        assert(p.ptr.addr@ - self.mem@[id].addr@ == 0);
                        assert(!bool_bytes_valid(bytes_at(self.mem@[id], 0, 1)));
                    }
                }
                self.typed_load(&p)
            },
            ValueExpr::AddrOf { target, .. } => {
                let p = self.eval_place(prog, target)?;
                Ok(Value::Ptr(p.ptr))
            },
            ValueExpr::UnOp { operator, operand } => {
                let v = self.eval_value(prog, operand)?;
                eval_un_op(operator, v)
            },
            ValueExpr::BinOp { operator, left, right } => {
                let l = self.eval_value(prog, left)?;
                let r = self.eval_value(prog, right)?;
                self.eval_bin_op(operator, l, r)
            },
        }
    }

    /// Applies a binary operator to two values.
    pub fn eval_bin_op(&self, op: &BinOp, l: Value, r: Value) -> (res: Result<Value, Outcome>)
        ensures
            bin_op_post(*self, *op, l, r, res),
    {
        match op {
            BinOp::Int(iop, ity) => {
                let (a, b) = match (l, r) {
                    (Value::Int(a), Value::Int(b)) => (a, b),
                    _ => {
                        return Err(Outcome::Unwell);
                    },
                };
                match iop {
                    BinOpInt::Add => Ok(Value::Int(bring_in_bounds(&a.add(&b), ity))),
                    BinOpInt::Sub => Ok(Value::Int(bring_in_bounds(&a.sub(&b), ity))),
                    BinOpInt::Mul => Ok(Value::Int(bring_in_bounds(&a.mul(&b), ity))),
                    BinOpInt::Div | BinOpInt::Rem => {
                        if b.eq(&Int::zero()) {
                            return Err(ub("division by zero"));
                        }
                        let q = a.div_trunc(&b);
                        if !in_bounds(&q, ity) {
                            return Err(ub("overflow in division"));
                        }
                        if *iop == BinOpInt::Div {
                            Ok(Value::Int(q))
                        } else {
                            Ok(Value::Int(a.rem_trunc(&b)))
                        }
                    },
                }
            },
            BinOp::IntRel(rel) => {
                let (a, b) = match (l, r) {
                    (Value::Int(a), Value::Int(b)) => (a, b),
                    _ => {
                        return Err(Outcome::Unwell);
                    },
                };
                let res = match rel {
                    IntRel::Lt => a.lt(&b),
                    IntRel::Le => a.le(&b),
                    IntRel::Gt => b.lt(&a),
                    IntRel::Ge => b.le(&a),
                    IntRel::Eq => a.eq(&b),
                    IntRel::Ne => !a.eq(&b),
                };
                Ok(Value::Bool(res))
            },
            BinOp::PtrOffset { inbounds } => {
                let (p, off) = match (l, r) {
                    (Value::Ptr(p), Value::Int(off)) => (p, off),
                    _ => {
                        return Err(Outcome::Unwell);
                    },
                };
                let addr = p.addr.add(&off);
                if *inbounds {
                    let msg = "inbounds offset does not stay in bounds of its allocation";
                    let id = match p.provenance {
                        Some(id) => id,
                        None => {
                            return Err(ub(msg));
                        },
                    };
                    if id >= self.mem.len() || !self.mem[id].live {
                        return Err(ub(msg));
                    }
                    let base = &self.mem[id].addr;
                    let end = base.add(&self.mem[id].size);
                    if p.addr.lt(base) || end.lt(&p.addr) || addr.lt(base) || end.lt(&addr) {
                        return Err(ub(msg));
                    }
                    Ok(Value::Ptr(Pointer { addr, provenance: p.provenance }))
                } else {
                    let space = address_space_size();
                    Ok(Value::Ptr(Pointer { addr: addr.mod_floor(&space), provenance: p.provenance }))
                }
            },
        }
    }

    /// Replaces local `l` of the top frame.
    fn set_local(&mut self, l: usize, v: Option<Pointer>)
        requires
            old(self).stack@.len() > 0,
            l < old(self).stack@.last().locals@.len(),
        ensures
            final(self).stack@.len() == old(self).stack@.len(),
            final(self).mem@ == old(self).mem@,
            final(self).stack@.last().locals@.len() == old(self).stack@.last().locals@.len(),
            final(self).stack@.last().locals@[l as int] == v,
            final(self).next_addr == old(self).next_addr,
            forall|j: int| 0 <= j < old(self).stack@.last().locals@.len() && j != l as int
                ==> final(self).stack@.last().locals@[j] == old(self).stack@.last().locals@[j],
            final(self).stack@.last().func == old(self).stack@.last().func,
            final(self).stack@.last().bb == old(self).stack@.last().bb,
            final(self).stack@.last().stmt == old(self).stack@.last().stmt,
    {
        let mut frame = self.stack.pop().unwrap();
        frame.locals.set(l, v);
        self.stack.push(frame);
    }

    /// Moves the top frame to block `bb`, statement `stmt`.
    fn set_pc(&mut self, bb: usize, stmt: usize)
        requires
            old(self).stack@.len() > 0,
        ensures
            final(self).stack@.len() == old(self).stack@.len(),
            final(self).stack@.last().locals == old(self).stack@.last().locals,
            final(self).stack@.last().func == old(self).stack@.last().func,
            final(self).stack@.last().bb == bb,
            final(self).stack@.last().stmt == stmt,
            final(self).mem@ == old(self).mem@,
            final(self).next_addr == old(self).next_addr,
    {
        let mut frame = self.stack.pop().unwrap();
        frame.bb = bb;
        frame.stmt = stmt;
        self.stack.push(frame);
    }

    /// Makes local `l` of the top frame live, with fresh undefined storage. Doing so on
    /// a live local makes the program `Unwell`.
    pub fn storage_live(&mut self, prog: &Program, l: LocalName) -> (r: Result<(), Outcome>)
        requires
            old(self).stack@.len() > 0,
        ensures
            local_live(*old(self), l) ==> r matches Err(Outcome::Unwell),
            r is Ok ==> local_live(*final(self), l),
            r is Err ==> (r matches Err(Outcome::Unwell)),
            final(self).stack@.len() == old(self).stack@.len(),
            r is Ok ==> same_position(*old(self), *final(self)),
            local_too_large(*prog, *old(self), l) ==> r matches Err(Outcome::Unwell),
            live_ok(*prog, *old(self), l) ==> r is Ok,
            r is Ok ==> (final(self).stack@.last().locals@[l.0 as int] matches Some(p)
                && p.provenance == Some(old(self).mem@.len() as usize)
                && final(self).mem@.len() == old(self).mem@.len() + 1
                && final(self).mem@.last().live && final(self).mem@.last().addr@ == p.addr@
                && final(self).mem@.subrange(0, old(self).mem@.len() as int) == old(self).mem@),
            r is Ok ==> (forall|j: int| 0 <= j < old(self).stack@.last().locals@.len() && j != l.0 as int
                ==> final(self).stack@.last().locals@[j] == old(self).stack@.last().locals@[j]),
            r is Ok ==> final(self).stack@.last().locals@.len() == old(self).stack@.last().locals@.len(),
            r is Ok ==> dead_ok(*final(self), l),
            r is Ok ==> fresh_local(*prog, *final(self), l),
            r is Ok ==> final(self).next_addr@ == aligned_up(old(self).next_addr@, local_decl(*prog, *old(self), l).align@)
                + type_size(local_decl(*prog, *old(self), l).ty) + 1,
    {
        let n = self.stack.len();
        let fi = self.stack[n - 1].func;
        let i = l.0 as usize;
        if i >= self.stack[n - 1].locals.len() {
            return Err(Outcome::Unwell);
        }
        if self.stack[n - 1].locals[i].is_some() {
            return Err(Outcome::Unwell);
        }
        if fi >= prog.functions.len() || i >= prog.functions[fi].locals.len() {
            return Err(Outcome::Unwell);
        }
        let pt = &prog.functions[fi].locals[i];
        let size = match pt.ty.size() {
            Some(s) => s.bytes(),
            None => {
                return Err(Outcome::Unwell);
            },
        };
        let ml = self.mem.len();
        let ptr = match self.allocate(&size, &pt.align) {
            Ok(p) => p,
            Err(o) => {
                return Err(o);
            },
        };
        let ghost old_len = old(self).mem@.len();
        assert(old_len == ml);
        let ghost gp = ptr;
        assert(gp.provenance == Some(old_len as usize));
        assert(self.mem@.last().live && self.mem@.last().addr@ == gp.addr@);
        self.set_local(i, Some(ptr));
        assert(self.mem@[old_len as int] == self.mem@.last());
        assert(self.stack@.last().locals@[l.0 as int] == Some(gp));
        assert(local_live(*self, l));
        Ok(())
    }

    /// Makes local `l` of the top frame dead and frees its storage. Doing so on a dead
    /// local makes the program `Unwell`.
    pub fn storage_dead(&mut self, prog: &Program, l: LocalName) -> (r: Result<(), Outcome>)
        requires
            old(self).stack@.len() > 0,
        ensures
            !local_live(*old(self), l) ==> r matches Err(Outcome::Unwell),
            r is Ok ==> local_dead(*final(self), l),
            final(self).stack@.len() == old(self).stack@.len(),
            dead_ok(*old(self), l) ==> r is Ok,
            r is Ok ==> same_position(*old(self), *final(self)),
            r is Ok ==> final(self).next_addr == old(self).next_addr,
            r is Ok ==> final(self).stack@.last().locals@.len() == old(self).stack@.last().locals@.len(),
            r is Ok ==> ({
                let id = old(self).stack@.last().locals@[l.0 as int]->Some_0.provenance->Some_0 as int;
                !final(self).mem@[id].live
            }),
    {
        let n = self.stack.len();
        let i = l.0 as usize;
        if i >= self.stack[n - 1].locals.len() {
            return Err(Outcome::Unwell);
        }
        let ptr = match &self.stack[n - 1].locals[i] {
            Some(p) => p.clone(),
            None => {
                return Err(Outcome::Unwell);
            },
        };
        let id = match ptr.provenance {
            Some(id) => id,
            None => {
                return Err(Outcome::Unwell);
            },
        };
        if id >= self.mem.len() {
            return Err(Outcome::Unwell);
        }
        let size = self.mem[id].size.clone();
        let align = self.mem[id].align.clone();
        self.deallocate(&ptr, &size, &align)?;
        self.set_local(i, None);
        Ok(())
    }

    fn exec_statement(&mut self, prog: &Program, st: &Statement) -> (r: Result<(), Outcome>)
        requires
            old(self).stack@.len() > 0,
        ensures
            final(self).stack@.len() == old(self).stack@.len(),
            st matches Statement::StorageLive(l) ==> (local_live(*old(self), *l) ==> (r matches Err(Outcome::Unwell))),
            st matches Statement::StorageLive(l) ==> (r is Err ==> (r matches Err(Outcome::Unwell))),
            st matches Statement::StorageLive(l) ==> (local_too_large(*prog, *old(self), *l) ==> (r matches Err(Outcome::Unwell))),
            st matches Statement::StorageLive(l) ==> (r is Ok ==> local_live(*final(self), *l)
                && same_position(*old(self), *final(self))),
            st matches Statement::StorageDead(l) ==> (!local_live(*old(self), *l) ==> (r matches Err(Outcome::Unwell))),
            st matches Statement::StorageLive(l) ==> (live_ok(*prog, *old(self), *l) ==> r is Ok),
            st matches Statement::StorageLive(l) ==> (r is Ok ==> dead_ok(*final(self), *l)),
            st matches Statement::StorageLive(l) ==> (r is Ok ==> storage_live_effect(*prog, *old(self), *final(self), *l)),
            st matches Statement::StorageDead(l) ==> (dead_ok(*old(self), *l) ==> r is Ok),
            st matches Statement::Assign { source, .. } ==> (loads_uninit_bool(*prog, *old(self), *source)
                ==> (r matches Err(Outcome::Ub(msg)) && msg@ == load_ub_message(Type::Bool, loaded_align(*prog, *old(self), *source)))),
            st matches Statement::StorageDead(l) ==> (r is Ok ==> local_dead(*final(self), *l)
                && same_position(*old(self), *final(self)) && final(self).next_addr == old(self).next_addr
                && final(self).stack@.last().locals@.len() == old(self).stack@.last().locals@.len()),
    {
        match st {
            Statement::Assign { destination, source } => {
                let v = match self.eval_value(prog, source) {
                    Ok(v) => v,
                    Err(o) => {
                        return Err(o);
                    },
                };
                let p = self.eval_place(prog, destination)?;
                self.typed_store(&p, &v)
            },
            Statement::Finalize { place, .. } => {
                let p = self.eval_place(prog, place)?;
                let _v = self.typed_load(&p)?;
                Ok(())
            },
            Statement::StorageLive(l) => self.storage_live(prog, *l),
            Statement::StorageDead(l) => self.storage_dead(prog, *l),
        }
    }

    /// Evaluates the arguments of a call, in order.
    fn eval_args(&mut self, prog: &Program, args: &Vec<ValueExpr>) -> (r: Result<Vec<Value>, Outcome>)
        ensures
            final(self).stack@ == old(self).stack@,
            r matches Ok(v) ==> v@.len() == args@.len(),
            args@.len() == 0 ==> r is Ok,
    {
        let mut vals: Vec<Value> = Vec::new();
        for i in 0..args.len()
            invariant
                self.stack@ == old(self).stack@,
                vals@.len() == i,
        {
            let v = self.eval_value(prog, &args[i])?;
            vals.push(v);
        }
        Ok(vals)
    }

    /// Frees the storage of every live local of the top frame.
    fn free_locals(&mut self) -> (r: Result<(), Outcome>)
        requires
            old(self).stack@.len() > 0,
        ensures
            final(self).stack@.len() == old(self).stack@.len(),
    {
        let n = self.stack.len();
        let count = self.stack[n - 1].locals.len();
        for i in 0..count
            invariant
                self.stack@.len() == n,
                n == old(self).stack@.len(),
                n > 0,
        {
            if i < self.stack[n - 1].locals.len() {
                let slot = match &self.stack[n - 1].locals[i] {
                    Some(p) => Some(p.clone()),
                    None => None,
                };
                match slot {
                    Some(ptr) => {
                        let id = match ptr.provenance {
                            Some(id) => id,
                            None => {
                                return Err(Outcome::Unwell);
                            },
                        };
                        if id >= self.mem.len() {
                            return Err(Outcome::Unwell);
                        }
                        let size = self.mem[id].size.clone();
                        let align = self.mem[id].align.clone();
                        self.deallocate(&ptr, &size, &align)?;
                        self.set_local(i, None);
                    },
                    None => {},
                }
            }
        }
        Ok(())
    }

    /// Resumes the top frame at `next`; a call without a next block must not return.
    fn resume(&mut self, next: Option<usize>) -> (r: Result<(), Outcome>)
        requires
            old(self).stack@.len() > 0,
        ensures
            final(self).stack@.len() == old(self).stack@.len(),
    {
        match next {
            Some(bb) => {
                self.set_pc(bb, 0);
                Ok(())
            },
            None => Err(ub("a function that must not return has returned")),
        }
    }

    fn exec_call(
        &mut self,
        prog: &Program,
        callee: usize,
        arguments: &Vec<ValueExpr>,
        ret: &Option<PlaceExpr>,
        next_block: Option<usize>,
    ) -> (r: Result<(), Outcome>)
        requires
            old(self).stack@.len() > 0,
        ensures
            final(self).stack@.len() > 0,
    {
        if callee >= prog.functions.len() {
            return Err(Outcome::Unwell);
        }
        let vals = self.eval_args(prog, arguments)?;
        let ret_place = match ret {
            Some(p) => Some(self.eval_place(prog, p)?),
            None => None,
        };
        let func = &prog.functions[callee];
        if func.args.len() != vals.len() {
            return Err(ub("call ABI violation: number of arguments does not agree"));
        }
        let mut locals: Vec<Option<Pointer>> = Vec::new();
        for i in 0..func.locals.len() {
            locals.push(None);
        }
        let start = func.start.0 as usize;
        self.stack.push(Frame { func: callee, locals, bb: start, stmt: 0, ret_place, next_block });
        for i in 0..func.args.len()
            invariant
                self.stack@.len() > 0,
                func.args.len() == vals.len(),
        {
            let l = func.args[i];
            self.storage_live(prog, l)?;
            let p = self.local_place(prog, l)?;
            self.typed_store(&p, &vals[i])?;
        }
        match func.ret {
            Some(l) => self.storage_live(prog, l),
            None => Ok(()),
        }
    }

    fn exec_return(&mut self, prog: &Program) -> (r: Result<(), Outcome>)
        requires
            old(self).stack@.len() > 0,
    {
        let n = self.stack.len();
        let fi = self.stack[n - 1].func;
        if fi >= prog.functions.len() {
            return Err(Outcome::Unwell);
        }
        let func = &prog.functions[fi];
        let ret_val = match func.ret {
            Some(l) => {
                let p = self.local_place(prog, l)?;
                Some(self.typed_load(&p)?)
            },
            None => None,
        };
        self.free_locals()?;
        let frame = self.stack.pop().unwrap();
        if self.stack.len() == 0 {
            return Err(Outcome::Stop);
        }
        match (&frame.ret_place, &ret_val) {
            (Some(p), Some(v)) => {
                if p.align.lt(&Int::one()) {
                    return Err(Outcome::Unwell);
                }
                self.typed_store(p, v)?;
            },
            (None, None) => {},
            _ => {
                return Err(ub("call ABI violation: return value does not agree"));
            },
        }
        self.resume(frame.next_block)
    }

    fn exec_intrinsic(
        &mut self,
        prog: &Program,
        intrinsic: Intrinsic,
        arguments: &Vec<ValueExpr>,
        ret: &Option<PlaceExpr>,
        next_block: Option<usize>,
    ) -> (r: Result<(), Outcome>)
        requires
            old(self).stack@.len() > 0,
        ensures
            final(self).stack@.len() == old(self).stack@.len(),
            (intrinsic == Intrinsic::Exit && arguments@.len() == 0) ==> r matches Err(Outcome::Stop),
    {
        let vals = match self.eval_args(prog, arguments) {
            Ok(v) => v,
            Err(o) => {
                return Err(o);
            },
        };
        let result: Option<Value> = match intrinsic {
            Intrinsic::Exit => {
                return Err(Outcome::Stop);
            },
            Intrinsic::PrintStdout | Intrinsic::PrintStderr => {
                let mut line = String::new();
                for i in 0..vals.len()
                    invariant
                        self.stack@.len() == old(self).stack@.len(),
                        intrinsic != Intrinsic::Exit,
                {
                    if i > 0 {
                        line.append(" ");
                    }
                    match &vals[i] {
                        Value::Int(x) => {
                            let t = x.to_text();
                            line.append(t.as_str());
                        },
                        Value::Bool(true) => line.append("true"),
                        Value::Bool(false) => line.append("false"),
                        _ => {
                            return Err(ub("invalid argument for print intrinsic"));
                        },
                    }
                }
                if intrinsic == Intrinsic::PrintStdout {
                    self.stdout.push(line);
                } else {
                    self.stderr.push(line);
                }
                None
            },
            Intrinsic::Allocate => {
                if vals.len() != 2 {
                    return Err(ub("invalid number of arguments for `Intrinsic::Allocate`"));
                }
                let (size, align) = match (&vals[0], &vals[1]) {
                    (Value::Int(s), Value::Int(a)) => (s, a),
                    _ => {
                        return Err(ub("invalid argument for `Intrinsic::Allocate`"));
                    },
                };
                if size.is_negative() {
                    return Err(ub("invalid size for `Intrinsic::Allocate`: negative size"));
                }
                let align = match Align::from_bytes(align.clone()) {
                    Some(a) => a,
                    None => {
                        return Err(ub("invalid alignment for `Intrinsic::Allocate`: not a power of 2"));
                    },
                };
                let p = self.allocate(size, &align)?;
                Some(Value::Ptr(p))
            },
            Intrinsic::Deallocate => {
                if vals.len() != 3 {
                    return Err(ub("invalid number of arguments for `Intrinsic::Deallocate`"));
                }
                match (&vals[0], &vals[1], &vals[2]) {
                    (Value::Ptr(p), Value::Int(s), Value::Int(a)) => {
                        self.deallocate(p, s, a)?;
                    },
                    _ => {
                        return Err(ub("invalid argument for `Intrinsic::Deallocate`"));
                    },
                }
                None
            },
        };
        match (ret, result) {
            (Some(pe), Some(v)) => {
                let p = self.eval_place(prog, pe)?;
                self.typed_store(&p, &v)?;
            },
            _ => {},
        }
        self.resume(next_block)
    }

    fn exec_terminator(&mut self, prog: &Program, t: &Terminator) -> (r: Result<(), Outcome>)
        requires
            old(self).stack@.len() > 0,
        ensures
            is_exit(*t) ==> r matches Err(Outcome::Stop),
            t is Unreachable ==> (r matches Err(Outcome::Ub(_))),
    {
        match t {
            Terminator::Goto(bb) => {
                self.set_pc(bb.0 as usize, 0);
                Ok(())
            },
            Terminator::If { condition, then_block, else_block } => {
                match self.eval_value(prog, condition)? {
                    Value::Bool(true) => self.set_pc(then_block.0 as usize, 0),
                    Value::Bool(false) => self.set_pc(else_block.0 as usize, 0),
                    _ => {
                        return Err(Outcome::Unwell);
                    },
                }
                Ok(())
            },
            Terminator::Unreachable => Err(ub("reached unreachable code")),
            Terminator::Call { callee, arguments, ret, next_block } => {
                let next = match next_block {
                    Some(b) => Some(b.0 as usize),
                    None => None,
                };
                self.exec_call(prog, callee.0 as usize, arguments, ret, next)
            },
            Terminator::CallIntrinsic { intrinsic, arguments, ret, next_block } => {
                let next = match next_block {
                    Some(b) => Some(b.0 as usize),
                    None => None,
                };
                self.exec_intrinsic(prog, *intrinsic, arguments, ret, next)
            },
            Terminator::Return => self.exec_return(prog),
        }
    }

    /// Executes one statement or terminator of the top frame. `Err` carries the
    /// outcome of a run that has ended.
    pub fn step(&mut self, prog: &Program) -> (r: Result<(), Outcome>)
        ensures
            old(self).stack@.len() == 0 ==> r matches Err(Outcome::Stop),
            current_statement(*prog, *old(self)) matches Some(Statement::StorageLive(l))
                ==> (local_live(*old(self), l) ==> (r matches Err(Outcome::Unwell))),
            current_statement(*prog, *old(self)) matches Some(Statement::StorageDead(l))
                ==> (!local_live(*old(self), l) ==> (r matches Err(Outcome::Unwell))),
            current_statement(*prog, *old(self)) matches Some(Statement::StorageLive(l))
                ==> (r is Err ==> (r matches Err(Outcome::Unwell))),
            current_statement(*prog, *old(self)) matches Some(Statement::StorageLive(l))
                ==> (local_too_large(*prog, *old(self), l) ==> (r matches Err(Outcome::Unwell))),
            current_statement(*prog, *old(self)) matches Some(Statement::StorageLive(l))
                ==> (r is Ok ==> local_live(*final(self), l) && next_position(*old(self), *final(self))),
            current_statement(*prog, *old(self)) matches Some(Statement::StorageLive(l))
                ==> (live_ok(*prog, *old(self), l) ==> r is Ok),
            current_statement(*prog, *old(self)) matches Some(Statement::StorageLive(l))
                ==> (r is Ok ==> dead_ok(*final(self), l)),
            current_statement(*prog, *old(self)) matches Some(Statement::StorageLive(l))
                ==> (r is Ok ==> storage_live_effect(*prog, *old(self), *final(self), l)),
            current_statement(*prog, *old(self)) matches Some(Statement::StorageDead(l))
                ==> (dead_ok(*old(self), l) ==> r is Ok),
            current_statement(*prog, *old(self)) matches Some(Statement::StorageDead(l))
                ==> (r is Ok ==> local_dead(*final(self), l) && next_position(*old(self), *final(self))
                    && final(self).next_addr == old(self).next_addr
                    && final(self).stack@.last().locals@.len() == old(self).stack@.last().locals@.len()),
            at_exit(*prog, *old(self)) ==> r matches Err(Outcome::Stop),
            at_unreachable(*prog, *old(self)) ==> (r matches Err(Outcome::Ub(_))),
            current_statement(*prog, *old(self)) matches Some(Statement::Assign { source, .. })
                ==> (loads_uninit_bool(*prog, *old(self), source) ==> (r matches Err(Outcome::Ub(msg))
                    && msg@ == load_ub_message(Type::Bool, loaded_align(*prog, *old(self), source)))),
    {
        let n = self.stack.len();
        if n == 0 {
            return Err(Outcome::Stop);
        }
        let fi = self.stack[n - 1].func;
        let bi = self.stack[n - 1].bb;
        let si = self.stack[n - 1].stmt;
        if fi >= prog.functions.len() || bi >= prog.functions[fi].blocks.len() {
            return Err(Outcome::Unwell);
        }
        let block = &prog.functions[fi].blocks[bi];
        if si < block.statements.len() {
            match self.exec_statement(prog, &block.statements[si]) {
                Ok(()) => {},
                Err(o) => {
                    return Err(o);
                },
            }
            if si == usize::MAX {
                return Err(Outcome::Unwell);
            }
            self.set_pc(bi, si + 1);
            Ok(())
        } else {
            self.exec_terminator(prog, &block.terminator)
        }
    }
}

/// The alignment that remains known at byte offset `off` from a place aligned to `align`:
/// the largest power of two dividing both.
fn restrict_align(align: &Int, off: &Int) -> (r: Int)
    requires
        align@ >= 1,
    ensures
        r@ >= 1,
{
    match off.trailing_zeros() {
        None => align.clone(),
        Some(k) => {
            let p = Int::from_i128(2).pow(&k);
            proof {
                vstd::arithmetic::power::lemma_pow_positive(2, k@ as nat);
            }
            if p.lt(align) { p } else { align.clone() }
        },
    }
}

/// Applies a unary operator to a value.
pub fn eval_un_op(op: &UnOp, v: Value) -> (r: Result<Value, Outcome>)
    ensures
        un_op_post(*op, v, r),
{
    match (op, v) {
        (UnOp::Int(UnOpInt::Neg, ity), Value::Int(x)) => Ok(Value::Int(bring_in_bounds(&x.neg(), ity))),
        (UnOp::Int(UnOpInt::Cast, ity), Value::Int(x)) => Ok(Value::Int(bring_in_bounds(&x, ity))),
        (UnOp::Ptr2Ptr(_), Value::Ptr(p)) => Ok(Value::Ptr(p)),
        (UnOp::Ptr2Int, Value::Ptr(p)) => Ok(Value::Int(p.addr)),
        (UnOp::Int2Ptr(_), Value::Int(x)) => Ok(Value::Ptr(Pointer { addr: x, provenance: None })),
        _ => Err(Outcome::Unwell),
    }
}

/// Statement `i` of the start function's start block, if there is one.
pub open spec fn start_statement(prog: Program, i: int) -> Option<Statement> {
    let fi = prog.start.0 as int;
    if 0 <= fi < prog.functions@.len() {
        let f = prog.functions@[fi];
        let bi = f.start.0 as int;
        if bi < f.blocks@.len() && 0 <= i < f.blocks@[bi].statements@.len() {
            Some(f.blocks@[bi].statements@[i])
        } else {
            None
        }
    } else {
        None
    }
}

/// The start function returns nothing and begins with a `StorageDead`.
pub open spec fn starts_with_storage_dead(prog: Program) -> bool {
    start_statement(prog, 0) is Some && start_statement(prog, 0)->Some_0 is StorageDead
        && prog.functions@[prog.start.0 as int].ret is None
}

/// The start function returns nothing and begins with `StorageLive` of one local twice.
pub open spec fn starts_with_double_live(prog: Program) -> bool {
    start_statement(prog, 0) is Some && start_statement(prog, 0)->Some_0 is StorageLive
        && start_statement(prog, 1) == start_statement(prog, 0)
        && prog.functions@[prog.start.0 as int].ret is None
}

/// The start function takes no arguments, returns nothing, and its start block makes one
/// local live and dead again and then exits; the local's type fits the address space.
pub open spec fn runs_live_dead_exit(prog: Program) -> bool {
    let fi = prog.start.0 as int;
    0 <= fi < prog.functions@.len() && {
        let f = prog.functions@[fi];
        let bi = f.start.0 as int;
        f.args@.len() == 0 && f.ret is None && bi < f.blocks@.len() && {
            let b = f.blocks@[bi];
            b.statements@.len() == 2 && is_exit(b.terminator) && match b.statements@[0] {
                Statement::StorageLive(l) => b.statements@[1] == Statement::StorageDead(l)
                    && (l.0 as int) < f.locals@.len() && {
                    let pt = f.locals@[l.0 as int];
                    type_wf(pt.ty) && 0 <= type_size(pt.ty) < address_space()
                        && aligned_up(256, pt.align@) + type_size(pt.ty) < address_space()
                },
                _ => false,
            }
        }
    }
}

/// The start function takes no arguments and returns nothing; its start block makes two
/// distinct `bool` locals live and then copies the second, never written, into the first.
/// Both allocations fit the address space.
pub open spec fn runs_uninit_bool_copy(prog: Program) -> bool {
    let fi = prog.start.0 as int;
    0 <= fi < prog.functions@.len() && {
        let f = prog.functions@[fi];
        let bi = f.start.0 as int;
        f.args@.len() == 0 && f.ret is None && bi < f.blocks@.len() && {
            let st = f.blocks@[bi].statements@;
            st.len() >= 3 && match (st[0], st[1], st[2]) {
                (Statement::StorageLive(a), Statement::StorageLive(b), Statement::Assign { destination, source }) =>
                    a != b && (a.0 as int) < f.locals@.len() && (b.0 as int) < f.locals@.len()
                    && f.locals@[a.0 as int].ty is Bool && f.locals@[b.0 as int].ty is Bool
                    && f.locals@[a.0 as int].align@ >= 1 && f.locals@[b.0 as int].align@ >= 1
                    && destination == PlaceExpr::Local(a) && (source matches ValueExpr::Load { source: src, .. }
                        && *src == PlaceExpr::Local(b))
                    && aligned_up(aligned_up(256, f.locals@[a.0 as int].align@) + 2,
                        f.locals@[b.0 as int].align@) + 1 < address_space(),
                _ => false,
            }
        }
    }
}

/// Where a run of `runs_live_dead_pairs` stands after `k` steps: at statement `k` of the
/// start block, with the local live after an odd number of steps and dead after an even
/// one, and the next free address moved past every allocation so far.
pub open spec fn pairs_state(prog: Program, m: Machine, k: nat) -> bool {
    let f = prog.functions@[prog.start.0 as int];
    let st = start_block(prog).statements@;
    &&& m.stack@.len() > 0 && m.stack@.last().func as int == prog.start.0 as int
    &&& m.stack@.last().bb as int == f.start.0 as int && m.stack@.last().stmt == k
    &&& k <= st.len()
    &&& m.stack@.last().locals@.len() == f.locals@.len()
    &&& st.len() > 0 ==> {
        let l = st[0]->StorageLive_0;
        let pt = f.locals@[l.0 as int];
        &&& k % 2 == 0 ==> local_dead(m, l) && m.next_addr@ == addr_after(256, pt.align@, type_size(pt.ty), k / 2)
        &&& k % 2 == 1 ==> dead_ok(m, l) && m.next_addr@ == addr_after(256, pt.align@, type_size(pt.ty), (k / 2 + 1) as nat)
    }
}

/// The start function's start block.
pub open spec fn start_block(prog: Program) -> crate::ir::BasicBlock {
    let f = prog.functions@[prog.start.0 as int];
    f.blocks@[f.start.0 as int]
}

/// The next free address after `k` allocations of `size` bytes at alignment `align`,
/// starting from `start`.
pub open spec fn addr_after(start: int, align: int, size: int, k: nat) -> int
    decreases k,
{
    if k == 0 { start } else { aligned_up(addr_after(start, align, size, (k - 1) as nat), align) + size + 1 }
}

/// The start function takes no arguments and returns nothing; its start block makes one
/// local live and dead again, any number of times, and every one of those allocations fits
/// the address space. Its terminator is the exit intrinsic or `Unreachable`.
pub open spec fn runs_live_dead_pairs(prog: Program) -> bool {
    let fi = prog.start.0 as int;
    0 <= fi < prog.functions@.len() && {
        let f = prog.functions@[fi];
        let bi = f.start.0 as int;
        f.args@.len() == 0 && f.ret is None && bi < f.blocks@.len() && {
            let b = f.blocks@[bi];
            let st = b.statements@;
            let n = st.len() / 2;
            st.len() % 2 == 0 && (is_exit(b.terminator) || b.terminator is Unreachable)
            && (st.len() > 0 ==> (st[0] is StorageLive && {
                let l = st[0]->StorageLive_0;
                let pt = f.locals@[l.0 as int];
                &&& (l.0 as int) < f.locals@.len()
                &&& type_wf(pt.ty) && 0 <= type_size(pt.ty) < address_space()
                &&& forall|i: int| 0 <= i < n ==> #[trigger] st[2 * i] == Statement::StorageLive(l)
                    && st[2 * i + 1] == Statement::StorageDead(l)
                &&& forall|k: nat| k < n ==> #[trigger] aligned_up(addr_after(256, pt.align@, type_size(pt.ty), k),
                    pt.align@) + type_size(pt.ty) < address_space()
            }))
        }
    }
}

/// The alignment declared for the local that `runs_uninit_bool_copy` reads.
pub open spec fn copied_bool_align(prog: Program) -> int {
    let f = prog.functions@[prog.start.0 as int];
    match f.blocks@[f.start.0 as int].statements@[1] {
        Statement::StorageLive(b) => f.locals@[b.0 as int].align@,
        _ => 0,
    }
}

/// What is known of the outcome of running `prog`: the cases below are settled, other
/// programs may end in any outcome.
pub open spec fn outcome_allowed(prog: Program, r: Outcome) -> bool {
    &&& (prog.start.0 as int) >= prog.functions@.len() ==> r is Unwell
    &&& starts_with_storage_dead(prog) ==> r is Unwell
    &&& starts_with_double_live(prog) ==> r is Unwell
    &&& starts_with_oversized_live(prog) ==> r is Unwell
    &&& runs_live_dead_exit(prog) ==> r is Stop
    &&& runs_into_unreachable(prog) ==> r is Ub
    &&& (runs_live_dead_pairs(prog) && is_exit(start_block(prog).terminator)) ==> r is Stop
    &&& (runs_live_dead_pairs(prog) && start_block(prog).terminator is Unreachable) ==> r is Ub
    &&& runs_uninit_bool_copy(prog) ==> (r matches Outcome::Ub(msg)
        && msg@ == load_ub_message(Type::Bool, copied_bool_align(prog)))
}

/// Runs the program from its start function to its outcome.
pub fn run_program(prog: Program) -> (r: Outcome)
    ensures
        (prog.start.0 as int) >= prog.functions@.len() ==> r matches Outcome::Unwell,
        starts_with_storage_dead(prog) ==> r matches Outcome::Unwell,
        starts_with_double_live(prog) ==> r matches Outcome::Unwell,
        starts_with_oversized_live(prog) ==> r matches Outcome::Unwell,
        runs_live_dead_exit(prog) ==> r matches Outcome::Stop,
        runs_uninit_bool_copy(prog) ==> (r matches Outcome::Ub(msg)
            && msg@ == load_ub_message(Type::Bool, copied_bool_align(prog))),
        runs_into_unreachable(prog) ==> r is Ub,
        outcome_allowed(prog, r),
{
    let mut m = Machine::new();
    let fi = prog.start.0 as usize;
    if fi >= prog.functions.len() {
        return Outcome::Unwell;
    }
    let func = &prog.functions[fi];
    if func.args.len() != 0 {
        return Outcome::Unwell;
    }
    let mut locals: Vec<Option<Pointer>> = Vec::new();
    for i in 0..func.locals.len()
        invariant
            locals@.len() == i,
            forall|j: int| 0 <= j < locals@.len() ==> locals@[j] is None,
    {
        locals.push(None);
    }
    m.stack.push(Frame { func: fi, locals, bb: func.start.0 as usize, stmt: 0, ret_place: None, next_block: None });
    if let Some(l) = func.ret {
        if let Err(o) = m.storage_live(&prog, l) {
            return o;
        }
    }
    let ghost mut k: nat = 0;
    // Each step takes time; a run that has not ended after `u64::MAX` of them is cut off.
    let mut fuel: u64 = u64::MAX;
    while fuel > 0
        invariant
            (prog.start.0 as int) < prog.functions@.len(),
            (k == 0 && prog.functions@[prog.start.0 as int].ret is None) ==> (
                m.stack@.len() > 0 && m.stack@.last().func as int == prog.start.0 as int
                && m.stack@.last().bb as int == prog.functions@[prog.start.0 as int].start.0 as int
                && m.stack@.last().stmt == 0
                && current_statement(prog, m) == start_statement(prog, 0)
                && (start_statement(prog, 0) matches Some(Statement::StorageDead(l)) ==> !local_live(m, l))),
            (k == 1 && starts_with_double_live(prog)) ==> (
                current_statement(prog, m) == start_statement(prog, 1)
                && (start_statement(prog, 1) matches Some(Statement::StorageLive(l)) ==> local_live(m, l))),
            starts_with_storage_dead(prog) ==> k == 0,
            starts_with_double_live(prog) ==> k <= 1,
            starts_with_oversized_live(prog) ==> k == 0,
            (k == 0 && prog.functions@[prog.start.0 as int].ret is None) ==>
                m.stack@.last().locals@.len() == prog.functions@[prog.start.0 as int].locals@.len()
                && m.next_addr@ == 256
                && (forall|j: int| 0 <= j < m.stack@.last().locals@.len() ==> m.stack@.last().locals@[j] is None),
            (k == 1 && runs_live_dead_exit(prog)) ==> (
                m.stack@.len() > 0 && m.stack@.last().func as int == prog.start.0 as int
                && m.stack@.last().bb as int == prog.functions@[prog.start.0 as int].start.0 as int
                && m.stack@.last().stmt == 1
                && current_statement(prog, m) == start_statement(prog, 1)
                && (start_statement(prog, 1) matches Some(Statement::StorageDead(l)) ==> dead_ok(m, l))),
            (k == 2 && runs_live_dead_exit(prog)) ==> at_exit(prog, m),
            runs_live_dead_exit(prog) ==> k <= 2,
            runs_into_unreachable(prog) ==> k == 0,
            runs_live_dead_pairs(prog) ==> pairs_state(prog, m, k),
            (k == 1 && runs_uninit_bool_copy(prog)) ==> (
                m.stack@.len() > 0 && m.stack@.last().func as int == prog.start.0 as int
                && m.stack@.last().bb as int == prog.functions@[prog.start.0 as int].start.0 as int
                && m.stack@.last().stmt == 1
                && current_statement(prog, m) == start_statement(prog, 1)
                && m.stack@.last().locals@.len() == prog.functions@[prog.start.0 as int].locals@.len()
                && (start_statement(prog, 1) matches Some(Statement::StorageLive(b)) ==> (local_dead(m, b)
                    && m.next_addr@ == aligned_up(256, local_decl(prog, m, start_statement(prog, 0)->Some_0->StorageLive_0).align@) + 2))),
            (k == 2 && runs_uninit_bool_copy(prog)) ==> (
                m.stack@.len() > 0 && m.stack@.last().func as int == prog.start.0 as int
                && current_statement(prog, m) == start_statement(prog, 2)
                && (start_statement(prog, 1) matches Some(Statement::StorageLive(b)) ==> uninit_bool_local(prog, m, b))),
            runs_uninit_bool_copy(prog) ==> k <= 2,
            k + fuel == u64::MAX,
        decreases fuel,
    {
        let ghost m_before = m;
        proof {
            if runs_live_dead_pairs(prog) {
                let f = prog.functions@[prog.start.0 as int];
                let st = start_block(prog).statements@;
                if k < st.len() {
                    let l = st[0]->StorageLive_0;
                    let pt = f.locals@[l.0 as int];
                    assert(current_statement(prog, m) == Some(st[k as int]));
                    if k % 2 == 0 {
                        let i = (k / 2) as int;
                        assert(st[2 * i] == Statement::StorageLive(l) && st[2 * i + 1] == Statement::StorageDead(l));
                        assert(2 * i == k);
                        assert(aligned_up(addr_after(256, pt.align@, type_size(pt.ty), (k / 2) as nat),
                            pt.align@) + type_size(pt.ty) < address_space());
                        assert(live_ok(prog, m, l));
                    } else {
                        let i = (k / 2) as int;
                        assert(st[2 * i] == Statement::StorageLive(l) && st[2 * i + 1] == Statement::StorageDead(l));
                        assert(2 * i + 1 == k);
                    }
                } else {
                    if is_exit(start_block(prog).terminator) {
                        assert(at_exit(prog, m));
                    } else {
                        assert(at_unreachable(prog, m));
                    }
                }
            }
            if runs_into_unreachable(prog) {
                assert(at_unreachable(prog, m));
            }
            if runs_uninit_bool_copy(prog) && k == 0 {
                let f = prog.functions@[prog.start.0 as int];
                let a = f.blocks@[f.start.0 as int].statements@[0]->StorageLive_0;
                let al = f.locals@[a.0 as int].align@;
                lemma_aligned_up_at_least(256, al);
                let b = f.blocks@[f.start.0 as int].statements@[1]->StorageLive_0;
                lemma_aligned_up_at_least(aligned_up(256, al) + 2, f.locals@[b.0 as int].align@);
            }
        }
        match m.step(&prog) {
            Ok(()) => {},
            Err(o) => {
                return o;
            },
        }
        proof {
            if runs_live_dead_pairs(prog) {
                let f = prog.functions@[prog.start.0 as int];
                let st = start_block(prog).statements@;
                let l = st[0]->StorageLive_0;
                let pt = f.locals@[l.0 as int];
                assert(k < st.len());
                assert(local_decl(prog, m_before, l) == pt);
                if k % 2 == 0 {
                    assert(m.next_addr@ == addr_after(256, pt.align@, type_size(pt.ty), (k / 2 + 1) as nat));
                } else {
                    assert((k + 1) / 2 == k / 2 + 1);
                }
            }
            k = k + 1;
        }
        fuel = fuel - 1;
    }
    Outcome::Unwell
}

} // verus!
