//! A textual rendering of programs, for diagnostics.
use vstd::prelude::*;
use crate::integer::{Int, decimal};
use crate::size::Size;
use crate::debug::type_debug_text;
use crate::ir::{
    Type, IntType, PtrType, Signedness, Mutability, ValueExpr, PlaceExpr, Constant, UnOp, UnOpInt,
    BinOp, BinOpInt, IntRel, Statement, Terminator, Intrinsic, BasicBlock, Function, Program,
    LocalName, BbName, FnName,
};

verus! {

pub open spec fn local_name_text(l: LocalName) -> Seq<char> {
    seq!['_'] + decimal(l.0 as int)
}

pub open spec fn bb_name_text(bb: BbName) -> Seq<char> {
    seq!['b', 'b'] + decimal(bb.0 as int)
}

pub open spec fn fn_name_text(f: FnName) -> Seq<char> {
    seq!['f'] + decimal(f.0 as int)
}

/// `i<bits>` or `u<bits>`.
pub open spec fn int_type_text(it: IntType) -> Seq<char> {
    (if it.signed == Signedness::Signed { seq!['i'] } else { seq!['u'] }) + decimal(it.size@ * 8)
}

/// The text of a type that has no parts.
pub open spec fn leaf_type_text(t: Type) -> Seq<char> {
    match t {
        Type::Int(it) => int_type_text(it),
        Type::Bool => seq!['b', 'o', 'o', 'l'],
        Type::Ptr(PtrType::Ref { mutbl: Mutability::Mutable, .. }) => seq!['&', 'm', 'u', 't', ' ', '_'],
        Type::Ptr(PtrType::Ref { mutbl: Mutability::Immutable, .. }) => seq!['&', '_'],
        Type::Ptr(PtrType::Box { .. }) => seq!['B', 'o', 'x', '<', '_', '>'],
        Type::Ptr(PtrType::Raw { .. }) => seq!['*', '_'],
        _ => seq![],
    }
}

/// The text of a type: `i32`, `bool`, `&mut _`, `(T, U)`, `[T; n]`, and a union in its
/// Debug notation.
pub open spec fn type_text(t: Type) -> Seq<char>
    decreases t,
{
    match t {
        Type::Tuple { fields, .. } => "("@ + field_types_text(fields@) + ")"@,
        Type::Array { elem, count } => "["@ + type_text(*elem) + "; "@ + decimal(count@) + "]"@,
        Type::Union { .. } => type_debug_text(t),
        _ => leaf_type_text(t),
    }
}

/// The texts of the field types, separated by `, `.
pub open spec fn field_types_text(s: Seq<(Size, Type)>) -> Seq<char>
    decreases s,
{
    if s.len() == 0 {
        seq![]
    } else if s.len() == 1 {
        type_text(s[0].1)
    } else {
        field_types_text(s.drop_last()) + ", "@ + type_text(s.last().1)
    }
}

pub open spec fn bin_op_int_text(op: BinOpInt) -> Seq<char> {
    match op {
        BinOpInt::Add => "+"@,
        BinOpInt::Sub => "-"@,
        BinOpInt::Mul => "*"@,
        BinOpInt::Div => "/"@,
        BinOpInt::Rem => "%"@,
    }
}

pub open spec fn int_rel_text(rel: IntRel) -> Seq<char> {
    match rel {
        IntRel::Lt => "<"@,
        IntRel::Le => "<="@,
        IntRel::Gt => ">"@,
        IntRel::Ge => ">="@,
        IntRel::Eq => "=="@,
        IntRel::Ne => "!="@,
    }
}

/// The text of a value expression.
pub open spec fn value_expr_text(v: ValueExpr) -> Seq<char>
    decreases v,
{
    match v {
        ValueExpr::Constant(Constant::Int(i), _) => decimal(i@),
        ValueExpr::Constant(Constant::Bool(b), _) => if b { "true"@ } else { "false"@ },
        ValueExpr::Tuple(l, t) => if t is Array {
            "["@ + value_exprs_text(l@) + "]"@
        } else {
            "("@ + value_exprs_text(l@) + ")"@
        },
        ValueExpr::Union { field, expr, union_ty } => type_text(union_ty) + " { f"@ + decimal(field as int)
            + " : "@ + value_expr_text(*expr) + " }"@,
        ValueExpr::Load { destructive, source } =>
            (if destructive { "move("@ } else { "load("@ }) + place_expr_text(*source) + ")"@,
        ValueExpr::AddrOf { target, ptr_ty } => (match ptr_ty {
            PtrType::Raw { .. } => "&raw "@,
            PtrType::Ref { mutbl: Mutability::Mutable, .. } => "&mut "@,
            PtrType::Ref { mutbl: Mutability::Immutable, .. } => "&"@,
            PtrType::Box { .. } => seq![],
        }) + place_expr_text(*target),
        ValueExpr::UnOp { operator, operand } => match operator {
            UnOp::Int(UnOpInt::Neg, _) => "-"@ + value_expr_text(*operand),
            _ => value_expr_text(*operand) + " as _"@,
        },
        ValueExpr::BinOp { operator, left, right } => match operator {
            BinOp::Int(op, ity) => value_expr_text(*left) + " "@ + bin_op_int_text(op) + "_"@
                + int_type_text(ity) + " "@ + value_expr_text(*right),
            BinOp::IntRel(rel) => value_expr_text(*left) + " "@ + int_rel_text(rel) + " "@
                + value_expr_text(*right),
            BinOp::PtrOffset { inbounds } => (if inbounds { "offset_inbounds("@ } else { "offset_wrapping("@ })
                + value_expr_text(*left) + ", "@ + value_expr_text(*right) + ")"@,
        },
    }
}

/// The texts of the expressions, separated by `, `.
pub open spec fn value_exprs_text(s: Seq<ValueExpr>) -> Seq<char>
    decreases s,
{
    if s.len() == 0 {
        seq![]
    } else if s.len() == 1 {
        value_expr_text(s[0])
    } else {
        value_exprs_text(s.drop_last()) + ", "@ + value_expr_text(s.last())
    }
}

pub open spec fn place_expr_text(p: PlaceExpr) -> Seq<char>
    decreases p,
{
    match p {
        PlaceExpr::Local(l) => local_name_text(l),
        PlaceExpr::Deref { operand, .. } => "*"@ + value_expr_text(*operand),
        PlaceExpr::Field { root, field } => place_expr_text(*root) + "."@ + decimal(field as int),
        PlaceExpr::Index { root, index } => place_expr_text(*root) + "["@ + value_expr_text(*index) + "]"@,
    }
}

/// The expression can be rendered: every tuple value has a tuple or array type, and no
/// address is taken at a `Box` pointer type.
pub open spec fn printable(v: ValueExpr) -> bool
    decreases v,
{
    match v {
        ValueExpr::Constant(..) => true,
        ValueExpr::Tuple(l, t) => (t is Tuple || t is Array) && all_printable(l@),
        ValueExpr::Union { expr, .. } => printable(*expr),
        ValueExpr::Load { source, .. } => place_printable(*source),
        ValueExpr::AddrOf { target, ptr_ty } => !(ptr_ty is Box) && place_printable(*target),
        ValueExpr::UnOp { operand, .. } => printable(*operand),
        ValueExpr::BinOp { left, right, .. } => printable(*left) && printable(*right),
    }
}

pub open spec fn all_printable(s: Seq<ValueExpr>) -> bool
    decreases s,
{
    s.len() > 0 ==> all_printable(s.drop_last()) && printable(s.last())
}

proof fn lemma_all_printable(s: Seq<ValueExpr>, i: int)
    requires
        all_printable(s),
        0 <= i < s.len(),
    ensures
        printable(s[i]),
    decreases s.len(),
{
    if i < s.len() - 1 {
        lemma_all_printable(s.drop_last(), i);
    }
}

pub open spec fn place_printable(p: PlaceExpr) -> bool
    decreases p,
{
    match p {
        PlaceExpr::Local(_) => true,
        PlaceExpr::Deref { operand, .. } => printable(*operand),
        PlaceExpr::Field { root, .. } => place_printable(*root),
        PlaceExpr::Index { root, index } => place_printable(*root) && printable(*index),
    }
}

fn decimal_u32(n: u32) -> (r: String)
    ensures
        r@ == decimal(n as int),
{
    Int::from_i128(n as i128).to_text()
}

pub fn local_name_to_string(l: LocalName) -> (r: String)
    ensures
        r@ == local_name_text(l),
{
    let mut s = String::new();
    s.append("_");
    let t = decimal_u32(l.0);
    s.append(t.as_str());
    proof {
        reveal_strlit("_");
    }
    s
}

pub fn bb_name_to_string(bb: BbName) -> (r: String)
    ensures
        r@ == bb_name_text(bb),
{
    let mut s = String::new();
    s.append("bb");
    let t = decimal_u32(bb.0);
    s.append(t.as_str());
    proof {
        reveal_strlit("bb");
    }
    s
}

pub fn fn_name_to_string(fn_name: FnName) -> (r: String)
    ensures
        r@ == fn_name_text(fn_name),
{
    let mut s = String::new();
    s.append("f");
    let t = decimal_u32(fn_name.0);
    s.append(t.as_str());
    proof {
        reveal_strlit("f");
    }
    s
}

fn int_type_to_string(it: &IntType) -> (r: String)
    ensures
        r@ == int_type_text(*it),
{
    let mut s = String::new();
    match it.signed {
        Signedness::Signed => s.append("i"),
        Signedness::Unsigned => s.append("u"),
    }
    let t = it.size.bits().to_text();
    s.append(t.as_str());
    proof {
        reveal_strlit("i");
        reveal_strlit("u");
    }
    s
}

fn constant_to_string(c: &Constant) -> (r: String)
    ensures
        c matches Constant::Int(i) ==> r@ == decimal(i@),
        c matches Constant::Bool(b) ==> r@ == (if *b { "true"@ } else { "false"@ }),
{
    match c {
        Constant::Int(i) => i.to_text(),
        Constant::Bool(true) => "true".to_owned(),
        Constant::Bool(false) => "false".to_owned(),
    }
}

/// Renders the types of the fields, separated by `, `.
fn fields_to_string(fields: &Vec<(Size, Type)>) -> (r: String)
    ensures
        r@ == field_types_text(fields@),
    decreases fields,
{
    let mut s = String::new();
    for i in 0..fields.len()
        invariant
            s@ == field_types_text(fields@.subrange(0, i as int)),
    {
        proof {
            assert(decreases_to!(fields => fields[i as int]));
        }
        if i > 0 {
            s.append(", ");
        }
        let t = type_to_string(&fields[i].1);
        s.append(t.as_str());
        proof {
            let sub = fields@.subrange(0, i + 1);
            assert(sub.drop_last() =~= fields@.subrange(0, i as int));
            assert(sub.last() == fields@[i as int]);
            assert(s@ =~= field_types_text(sub));
        }
    }
    assert(fields@.subrange(0, fields@.len() as int) =~= fields@);
    s
}

/// `i32`, `bool`, `&mut _`, `(T, U)`, `[T; n]`; a union in its Debug notation.
pub fn type_to_string(t: &Type) -> (r: String)
    ensures
        r@ == type_text(*t),
    decreases t,
{
    let mut s = String::new();
    match t {
        Type::Int(it) => {
            return int_type_to_string(it);
        },
        Type::Bool => s.append("bool"),
        Type::Ptr(PtrType::Ref { mutbl: Mutability::Mutable, .. }) => s.append("&mut _"),
        Type::Ptr(PtrType::Ref { mutbl: Mutability::Immutable, .. }) => s.append("&_"),
        Type::Ptr(PtrType::Box { .. }) => s.append("Box<_>"),
        Type::Ptr(PtrType::Raw { .. }) => s.append("*_"),
        Type::Tuple { fields, .. } => {
            s.append("(");
            let f = fields_to_string(fields);
            s.append(f.as_str());
            s.append(")");
            assert(s@ =~= type_text(*t));
        },
        Type::Array { elem, count } => {
            s.append("[");
            let e: &Type = elem;
            let et = type_to_string(e);
            s.append(et.as_str());
            s.append("; ");
            let c = count.to_text();
            s.append(c.as_str());
            s.append("]");
            assert(s@ =~= type_text(*t));
        },
        Type::Union { .. } => {
            let d = crate::debug::type_debug(t);
            s.append(d.as_str());
            assert(s@ =~= type_text(*t));
        },
    }
    proof {
        reveal_strlit("bool");
        reveal_strlit("&mut _");
        reveal_strlit("&_");
        reveal_strlit("Box<_>");
        reveal_strlit("*_");
    }
    s
}

/// `_n`, `*v`, `p.n` or `p[v]`.
pub fn place_expr_to_string(p: &PlaceExpr) -> (r: String)
    requires
        place_printable(*p),
    ensures
        r@ == place_expr_text(*p),
        p matches PlaceExpr::Local(l) ==> r@ == local_name_text(*l),
    decreases p,
{
    match p {
        PlaceExpr::Local(l) => local_name_to_string(*l),
        PlaceExpr::Deref { operand, .. } => {
            let mut s = String::new();
            s.append("*");
            let v = value_expr_to_string(operand);
            s.append(v.as_str());
            assert(place_printable(*p) ==> s@ =~= place_expr_text(*p));
            s
        },
        PlaceExpr::Field { root, field } => {
            let mut s = place_expr_to_string(root);
            s.append(".");
            let f = Int::from_i128(*field as i128).to_text();
            s.append(f.as_str());
            assert(place_printable(*p) ==> s@ =~= place_expr_text(*p));
            s
        },
        PlaceExpr::Index { root, index } => {
            let mut s = place_expr_to_string(root);
            s.append("[");
            let i = value_expr_to_string(index);
            s.append(i.as_str());
            s.append("]");
            assert(place_printable(*p) ==> s@ =~= place_expr_text(*p));
            s
        },
    }
}

fn bin_op_int_str(op: BinOpInt) -> (r: &'static str)
    ensures
        r@ == bin_op_int_text(op),
{
    match op {
        BinOpInt::Add => "+",
        BinOpInt::Sub => "-",
        BinOpInt::Mul => "*",
        BinOpInt::Div => "/",
        BinOpInt::Rem => "%",
    }
}

fn int_rel_str(rel: IntRel) -> (r: &'static str)
    ensures
        r@ == int_rel_text(rel),
{
    match rel {
        IntRel::Lt => "<",
        IntRel::Le => "<=",
        IntRel::Gt => ">",
        IntRel::Ge => ">=",
        IntRel::Eq => "==",
        IntRel::Ne => "!=",
    }
}

/// Renders a value expression: constants, `(a, b)`, `[a, b]`, `load(p)`, `&raw p`, `a +_i32 b`
/// and the like.
#[verifier::loop_isolation(false)]
pub fn value_expr_to_string(v: &ValueExpr) -> (r: String)
    requires
        printable(*v),
    ensures
        r@ == value_expr_text(*v),
        v matches ValueExpr::Constant(Constant::Int(i), _) ==> r@ == decimal(i@),
        v matches ValueExpr::Constant(Constant::Bool(b), _) ==> r@ == (if *b { "true"@ } else { "false"@ }),
    decreases v,
{
    match v {
        ValueExpr::Constant(c, _) => constant_to_string(c),
        ValueExpr::Tuple(l, t) => {
            let mut s = String::new();
            let is_array = match t {
                Type::Array { .. } => true,
                _ => false,
            };
            let mut inner = String::new();
            for i in 0..l.len()
                invariant
                    printable(*v) ==> inner@ == value_exprs_text(l@.subrange(0, i as int)),
            {
                proof {
                    assert(decreases_to!(l => l[i as int]));
                    lemma_all_printable(l@, i as int);
                }
                if i > 0 {
                    inner.append(", ");
                }
                let e = value_expr_to_string(&l[i]);
                inner.append(e.as_str());
                proof {
                    let sub = l@.subrange(0, i + 1);
                    assert(sub.drop_last() =~= l@.subrange(0, i as int));
                    assert(sub.last() == l@[i as int]);
                    if printable(*v) {
                        lemma_all_printable(l@, i as int);
                        if i == 0 {
                            assert(inner@ =~= value_exprs_text(sub));
                        } else {
                            assert(inner@ =~= value_exprs_text(sub));
                        }
                    }
                }
            }
            assert(l@.subrange(0, l@.len() as int) =~= l@);
            if is_array {
                s.append("[");
            } else {
                s.append("(");
            }
            s.append(inner.as_str());
            if is_array {
                s.append("]");
            } else {
                s.append(")");
            }
            assert(printable(*v) ==> s@ =~= value_expr_text(*v));
            s
        },
        ValueExpr::Union { field, expr, union_ty } => {
            let mut s = type_to_string(union_ty);
            s.append(" { f");
            let f = Int::from_i128(*field as i128).to_text();
            s.append(f.as_str());
            s.append(" : ");
            let e = value_expr_to_string(expr);
            s.append(e.as_str());
            s.append(" }");
            assert(s@ =~= value_expr_text(*v));
            s
        },
        ValueExpr::Load { destructive, source } => {
            let mut s = String::new();
            if *destructive {
                s.append("move(");
            } else {
                s.append("load(");
            }
            let p = place_expr_to_string(source);
            s.append(p.as_str());
            s.append(")");
            assert(printable(*v) ==> s@ =~= value_expr_text(*v));
            s
        },
        ValueExpr::AddrOf { target, ptr_ty } => {
            let mut s = String::new();
            match ptr_ty {
                PtrType::Raw { .. } => s.append("&raw "),
                PtrType::Ref { mutbl: Mutability::Mutable, .. } => s.append("&mut "),
                PtrType::Ref { mutbl: Mutability::Immutable, .. } => s.append("&"),
                PtrType::Box { .. } => {},
            }
            let p = place_expr_to_string(target);
            s.append(p.as_str());
            assert(printable(*v) ==> s@ =~= value_expr_text(*v));
            s
        },
        ValueExpr::UnOp { operator, operand } => {
            let o = value_expr_to_string(operand);
            let mut s = String::new();
            match operator {
                UnOp::Int(UnOpInt::Neg, _) => {
                    s.append("-");
                    s.append(o.as_str());
                },
                _ => {
                    s.append(o.as_str());
                    s.append(" as _");
                },
            }
            assert(printable(*v) ==> s@ =~= value_expr_text(*v));
            s
        },
        ValueExpr::BinOp { operator, left, right } => {
            let l = value_expr_to_string(left);
            let r = value_expr_to_string(right);
            let mut s = String::new();
            match operator {
                BinOp::Int(op, ity) => {
                    s.append(l.as_str());
                    s.append(" ");
                    s.append(bin_op_int_str(*op));
                    s.append("_");
                    let t = int_type_to_string(ity);
                    s.append(t.as_str());
                    s.append(" ");
                    s.append(r.as_str());
                },
                BinOp::IntRel(rel) => {
                    s.append(l.as_str());
                    s.append(" ");
                    s.append(int_rel_str(*rel));
                    s.append(" ");
                    s.append(r.as_str());
                },
                BinOp::PtrOffset { inbounds } => {
                    if *inbounds {
                        s.append("offset_inbounds(");
                    } else {
                        s.append("offset_wrapping(");
                    }
                    s.append(l.as_str());
                    s.append(", ");
                    s.append(r.as_str());
                    s.append(")");
                },
            }
            assert(printable(*v) ==> s@ =~= value_expr_text(*v));
            s
        },
    }
}

pub open spec fn bool_text(b: bool) -> Seq<char> {
    if b { "true"@ } else { "false"@ }
}

/// The line of a statement.
pub open spec fn statement_text(st: Statement) -> Seq<char> {
    "    "@ + match st {
        Statement::Assign { destination, source } =>
            place_expr_text(destination) + " = "@ + value_expr_text(source) + ";\n"@,
        Statement::Finalize { place, fn_entry } =>
            "Finalize("@ + place_expr_text(place) + ", "@ + bool_text(fn_entry) + ");\n"@,
        Statement::StorageLive(l) => "StorageLive("@ + local_name_text(l) + ");\n"@,
        Statement::StorageDead(l) => "StorageDead("@ + local_name_text(l) + ");\n"@,
    }
}

pub open spec fn statement_printable(st: Statement) -> bool {
    match st {
        Statement::Assign { destination, source } => place_printable(destination) && printable(source),
        Statement::Finalize { place, .. } => place_printable(place),
        _ => true,
    }
}

pub open spec fn statements_text(s: Seq<Statement>) -> Seq<char>
    decreases s.len(),
{
    if s.len() == 0 { seq![] } else { statements_text(s.drop_last()) + statement_text(s.last()) }
}

/// The line of a call: `ret = callee(args) -> next;`, with `!!!` for no return place.
pub open spec fn call_text(callee: Seq<char>, args: Seq<ValueExpr>, ret: Option<PlaceExpr>, next: Option<BbName>) -> Seq<char> {
    "    "@ + (match ret { Some(p) => place_expr_text(p), None => "!!!"@ }) + " = "@ + callee + "("@
        + value_exprs_text(args) + ")"@ + (match next { Some(bb) => " -> "@ + bb_name_text(bb), None => seq![] })
        + ";\n"@
}

pub open spec fn call_printable(args: Seq<ValueExpr>, ret: Option<PlaceExpr>) -> bool {
    all_printable(args) && (ret matches Some(p) ==> place_printable(p))
}

pub open spec fn intrinsic_text(i: Intrinsic) -> Seq<char> {
    match i {
        Intrinsic::Exit => "exit"@,
        Intrinsic::PrintStdout => "print"@,
        Intrinsic::PrintStderr => "eprint"@,
        Intrinsic::Allocate => "allocate"@,
        Intrinsic::Deallocate => "deallocate"@,
    }
}

pub open spec fn goto_text(indent: Seq<char>, bb: BbName) -> Seq<char> {
    indent + "goto -> "@ + bb_name_text(bb) + ";\n"@
}

/// The lines of a terminator.
pub open spec fn terminator_text(t: Terminator) -> Seq<char> {
    match t {
        Terminator::Goto(bb) => goto_text("    "@, bb),
        Terminator::If { condition, then_block, else_block } =>
            "    if "@ + value_expr_text(condition) + " {\n"@ + goto_text("      "@, then_block)
                + "    } else {\n"@ + goto_text("      "@, else_block) + "    }\n"@,
        Terminator::Unreachable => "    unreachable;\n"@,
        Terminator::Call { callee, arguments, ret, next_block } =>
            call_text(fn_name_text(callee), arguments@, ret, next_block),
        Terminator::Return => "    return;\n"@,
        Terminator::CallIntrinsic { intrinsic, arguments, ret, next_block } =>
            call_text(intrinsic_text(intrinsic), arguments@, ret, next_block),
    }
}

pub open spec fn terminator_printable(t: Terminator) -> bool {
    match t {
        Terminator::If { condition, .. } => printable(condition),
        Terminator::Call { arguments, ret, .. } => call_printable(arguments@, ret),
        Terminator::CallIntrinsic { arguments, ret, .. } => call_printable(arguments@, ret),
        _ => true,
    }
}

/// The lines of a basic block: its label, its statements, its terminator.
pub open spec fn bb_text(name: BbName, bb: BasicBlock, start: bool) -> Seq<char> {
    "  "@ + bb_name_text(name) + (if start { " [start]:\n"@ } else { ":\n"@ })
        + statements_text(bb.statements@) + terminator_text(bb.terminator)
}

pub open spec fn bb_printable(bb: BasicBlock) -> bool {
    (forall|i: int| 0 <= i < bb.statements@.len() ==> statement_printable(#[trigger] bb.statements@[i]))
        && terminator_printable(bb.terminator)
}

fn fmt_statement(st: &Statement, wr: &mut String)
    requires
        statement_printable(*st),
    ensures
        final(wr)@ == old(wr)@ + statement_text(*st),
        st matches Statement::StorageLive(l) ==> final(wr)@ == old(wr)@ + "    "@ + "StorageLive("@
            + local_name_text(*l) + ");\n"@,
        st matches Statement::StorageDead(l) ==> final(wr)@ == old(wr)@ + "    "@ + "StorageDead("@
            + local_name_text(*l) + ");\n"@,
{
    wr.append("    ");
    match st {
        Statement::Assign { destination, source } => {
            let d = place_expr_to_string(destination);
            wr.append(d.as_str());
            wr.append(" = ");
            let v = value_expr_to_string(source);
            wr.append(v.as_str());
            wr.append(";\n");
            assert(statement_printable(*st) ==> wr@ =~= old(wr)@ + statement_text(*st));
        },
        Statement::Finalize { place, fn_entry } => {
            wr.append("Finalize(");
            let p = place_expr_to_string(place);
            wr.append(p.as_str());
            wr.append(", ");
            if *fn_entry {
                wr.append("true");
            } else {
                wr.append("false");
            }
            wr.append(");\n");
            assert(statement_printable(*st) ==> wr@ =~= old(wr)@ + statement_text(*st));
        },
        Statement::StorageLive(l) => {
            wr.append("StorageLive(");
            let t = local_name_to_string(*l);
            wr.append(t.as_str());
            wr.append(");\n");
            assert(wr@ =~= old(wr)@ + statement_text(*st));
        },
        Statement::StorageDead(l) => {
            wr.append("StorageDead(");
            let t = local_name_to_string(*l);
            wr.append(t.as_str());
            wr.append(");\n");
            assert(wr@ =~= old(wr)@ + statement_text(*st));
        },
    }
}

fn fmt_call(callee: &str, arguments: &Vec<ValueExpr>, ret: &Option<PlaceExpr>, next_block: Option<BbName>, wr: &mut String)
    requires
        call_printable(arguments@, *ret),
    ensures
        final(wr)@ == old(wr)@
            + call_text(callee@, arguments@, *ret, next_block),
{
    wr.append("    ");
    match ret {
        Some(p) => {
            let t = place_expr_to_string(p);
            wr.append(t.as_str());
        },
        None => wr.append("!!!"),
    }
    wr.append(" = ");
    wr.append(callee);
    wr.append("(");
    let ghost head = wr@;
    for i in 0..arguments.len()
        invariant
            call_printable(arguments@, *ret),
            wr@ == head + value_exprs_text(arguments@.subrange(0, i as int)),
    {
        proof {
            lemma_all_printable(arguments@, i as int);
        }
        if i > 0 {
            wr.append(", ");
        }
        let a = value_expr_to_string(&arguments[i]);
        wr.append(a.as_str());
        proof {
            let sub = arguments@.subrange(0, i + 1);
            assert(sub.drop_last() =~= arguments@.subrange(0, i as int));
            assert(sub.last() == arguments@[i as int]);
            if call_printable(arguments@, *ret) {
                lemma_all_printable(arguments@, i as int);
                assert(wr@ =~= head + value_exprs_text(sub));
            }
        }
    }
    assert(arguments@.subrange(0, arguments@.len() as int) =~= arguments@);
    wr.append(")");
    match next_block {
        Some(bb) => {
            wr.append(" -> ");
            let t = bb_name_to_string(bb);
            wr.append(t.as_str());
        },
        None => {},
    }
    wr.append(";\n");
    assert(call_printable(arguments@, *ret) ==> wr@ =~= old(wr)@ + call_text(callee@, arguments@, *ret, next_block));
}

fn fmt_goto(indent: &str, bb: BbName, wr: &mut String)
    ensures
        final(wr)@ == old(wr)@ + goto_text(indent@, bb),
{
    wr.append(indent);
    wr.append("goto -> ");
    let t = bb_name_to_string(bb);
    wr.append(t.as_str());
    wr.append(";\n");
    assert(wr@ =~= old(wr)@ + goto_text(indent@, bb));
}

fn fmt_terminator(t: &Terminator, wr: &mut String)
    requires
        terminator_printable(*t),
    ensures
        final(wr)@ == old(wr)@ + terminator_text(*t),
        t matches Terminator::Goto(bb) ==> final(wr)@ == old(wr)@ + "    "@ + "goto -> "@ + bb_name_text(*bb) + ";\n"@,
        t is Unreachable ==> final(wr)@ == old(wr)@ + "    unreachable;\n"@,
        t is Return ==> final(wr)@ == old(wr)@ + "    return;\n"@,
{
    match t {
        Terminator::Goto(bb) => fmt_goto("    ", *bb, wr),
        Terminator::If { condition, then_block, else_block } => {
            wr.append("    if ");
            let c = value_expr_to_string(condition);
            wr.append(c.as_str());
            wr.append(" {\n");
            fmt_goto("      ", *then_block, wr);
            wr.append("    } else {\n");
            fmt_goto("      ", *else_block, wr);
            wr.append("    }\n");
            assert(terminator_printable(*t) ==> wr@ =~= old(wr)@ + terminator_text(*t));
        },
        Terminator::Unreachable => wr.append("    unreachable;\n"),
        Terminator::Call { callee, arguments, ret, next_block } => {
            let c = fn_name_to_string(*callee);
            fmt_call(c.as_str(), arguments, ret, *next_block, wr);
        },
        Terminator::Return => wr.append("    return;\n"),
        Terminator::CallIntrinsic { intrinsic, arguments, ret, next_block } => {
            let callee = match intrinsic {
                Intrinsic::Exit => "exit",
                Intrinsic::PrintStdout => "print",
                Intrinsic::PrintStderr => "eprint",
                Intrinsic::Allocate => "allocate",
                Intrinsic::Deallocate => "deallocate",
            };
            assert(callee@ == intrinsic_text(*intrinsic));
            fmt_call(callee, arguments, ret, *next_block, wr);
        },
    }
}

fn fmt_bb(bb_name: BbName, bb: &BasicBlock, start: bool, wr: &mut String)
    requires
        bb_printable(*bb),
    ensures
        final(wr)@ == old(wr)@ + bb_text(bb_name, *bb, start),
{
    wr.append("  ");
    let n = bb_name_to_string(bb_name);
    wr.append(n.as_str());
    if start {
        wr.append(" [start]:\n");
    } else {
        wr.append(":\n");
    }
    let ghost head = wr@;
    for i in 0..bb.statements.len()
        invariant
            bb_printable(*bb),
            wr@ == head + statements_text(bb.statements@.subrange(0, i as int)),
    {
        assert(statement_printable(bb.statements@[i as int]));
        fmt_statement(&bb.statements[i], wr);
        proof {
            let sub = bb.statements@.subrange(0, i + 1);
            assert(sub.drop_last() =~= bb.statements@.subrange(0, i as int));
            assert(sub.last() == bb.statements@[i as int]);
            if bb_printable(*bb) {
                assert(statement_printable(bb.statements@[i as int]));
                assert(wr@ =~= head + statements_text(sub));
            }
        }
    }
    assert(bb.statements@.subrange(0, bb.statements@.len() as int) =~= bb.statements@);
    fmt_terminator(&bb.terminator, wr);
    assert(bb_printable(*bb) ==> wr@ =~= old(wr)@ + bb_text(bb_name, *bb, start));
}

/// The text of local `l`'s type, or `?` where the function declares no such local.
pub open spec fn local_type_text(f: Function, l: LocalName) -> Seq<char> {
    if (l.0 as int) < f.locals@.len() { type_text(f.locals@[l.0 as int].ty) } else { "?"@ }
}

pub open spec fn args_text(f: Function, s: Seq<LocalName>) -> Seq<char>
    decreases s.len(),
{
    if s.len() == 0 {
        seq![]
    } else {
        let a = local_name_text(s.last()) + ": "@ + local_type_text(f, s.last());
        if s.len() == 1 { a } else { args_text(f, s.drop_last()) + ", "@ + a }
    }
}

/// The declarations of the first `n` locals.
pub open spec fn locals_text(f: Function, n: nat) -> Seq<char>
    decreases n,
{
    if n == 0 {
        seq![]
    } else {
        locals_text(f, (n - 1) as nat) + "  let "@ + local_name_text(LocalName((n - 1) as u32)) + ": "@
            + type_text(f.locals@[n - 1].ty) + ";\n"@
    }
}

/// The first `n` blocks.
pub open spec fn blocks_text(f: Function, n: nat) -> Seq<char>
    decreases n,
{
    if n == 0 {
        seq![]
    } else {
        blocks_text(f, (n - 1) as nat) + bb_text(BbName((n - 1) as u32), f.blocks@[n - 1],
            f.start == BbName((n - 1) as u32))
    }
}

/// `[start] fn fN(args) -> ret {`, the local declarations, the blocks, and `}`.
pub open spec fn function_text(name: FnName, f: Function, start: bool) -> Seq<char> {
    (if start { "[start] "@ } else { seq![] }) + "fn "@ + fn_name_text(name) + "("@
        + args_text(f, f.args@) + ") -> "@
        + (match f.ret { Some(r) => local_type_text(f, r), None => "!!!"@ }) + " {\n"@
        + locals_text(f, f.locals@.len()) + blocks_text(f, f.blocks@.len()) + "}\n\n"@
}

/// Local and block numbers fit in a `u32`, and every block is printable.
pub open spec fn function_printable(f: Function) -> bool {
    f.locals@.len() <= u32::MAX && f.blocks@.len() <= u32::MAX
        && (forall|i: int| 0 <= i < f.blocks@.len() ==> bb_printable(#[trigger] f.blocks@[i]))
}

/// The first `n` functions.
pub open spec fn program_text(prog: Program, n: nat) -> Seq<char>
    decreases n,
{
    if n == 0 {
        seq![]
    } else {
        program_text(prog, (n - 1) as nat) + function_text(FnName((n - 1) as u32), prog.functions@[n - 1],
            prog.start == FnName((n - 1) as u32))
    }
}

pub open spec fn program_printable(prog: Program) -> bool {
    prog.functions@.len() <= u32::MAX
        && forall|i: int| 0 <= i < prog.functions@.len() ==> function_printable(#[trigger] prog.functions@[i])
}

/// The type of local `l`, or `?` where the function declares no such local.
fn local_type_to_string(f: &Function, l: LocalName) -> (r: String)
    ensures
        r@ == local_type_text(*f, l),
{
    let i = l.0 as usize;
    if i < f.locals.len() {
        type_to_string(&f.locals[i].ty)
    } else {
        "?".to_owned()
    }
}

fn fmt_args(f: &Function, wr: &mut String)
    requires
        function_printable(*f),
    ensures
        final(wr)@ == old(wr)@ + args_text(*f, f.args@),
{
    let ghost ok = function_printable(*f);
    let ghost head = wr@;
    for i in 0..f.args.len()
        invariant
            ok == function_printable(*f),
            ok ==> wr@ == head + args_text(*f, f.args@.subrange(0, i as int)),
    {
        if i > 0 {
            wr.append(", ");
        }
        let a = local_name_to_string(f.args[i]);
        wr.append(a.as_str());
        wr.append(": ");
        let t = local_type_to_string(f, f.args[i]);
        wr.append(t.as_str());
        proof {
            let sub = f.args@.subrange(0, i + 1);
            assert(sub.drop_last() =~= f.args@.subrange(0, i as int));
            assert(sub.last() == f.args@[i as int]);
            if ok {
                assert(wr@ =~= head + args_text(*f, sub));
            }
        }
    }
    assert(f.args@.subrange(0, f.args@.len() as int) =~= f.args@);
}

fn fmt_locals(f: &Function, wr: &mut String)
    requires
        function_printable(*f),
    ensures
        final(wr)@ == old(wr)@ + locals_text(*f, f.locals@.len()),
{
    let ghost ok = function_printable(*f);
    let ghost head = wr@;
    for i in 0..f.locals.len()
        invariant
            ok == function_printable(*f),
            ok ==> wr@ == head + locals_text(*f, i as nat),
    {
        wr.append("  let ");
        let l = local_name_to_string(LocalName(i as u32));
        wr.append(l.as_str());
        wr.append(": ");
        let t = type_to_string(&f.locals[i].ty);
        wr.append(t.as_str());
        wr.append(";\n");
        proof {
            if ok {
                assert(wr@ =~= head + locals_text(*f, (i + 1) as nat));
            }
        }
    }
}

fn fmt_blocks(f: &Function, wr: &mut String)
    requires
        function_printable(*f),
    ensures
        final(wr)@ == old(wr)@ + blocks_text(*f, f.blocks@.len()),
{
    let ghost ok = function_printable(*f);
    let ghost head = wr@;
    for i in 0..f.blocks.len()
        invariant
            ok == function_printable(*f),
            ok,
            ok ==> wr@ == head + blocks_text(*f, i as nat),
    {
        let name = BbName(i as u32);
        assert(bb_printable(f.blocks@[i as int]));
        fmt_bb(name, &f.blocks[i], f.start == name, wr);
        proof {
            if ok {
                assert(bb_printable(f.blocks@[i as int]));
                assert(wr@ =~= head + blocks_text(*f, (i + 1) as nat));
            }
        }
    }
}

#[verifier::rlimit(100)]
fn fmt_function(fn_name: FnName, f: &Function, start: bool, wr: &mut String)
    requires
        function_printable(*f),
    ensures
        final(wr)@ == old(wr)@ + function_text(fn_name, *f, start),
{
    let ghost w0 = wr@;
    if start {
        wr.append("[start] ");
    }
    wr.append("fn ");
    let n = fn_name_to_string(fn_name);
    wr.append(n.as_str());
    wr.append("(");
    let ghost w1 = wr@;
    fmt_args(f, wr);
    let ghost w2 = wr@;
    wr.append(") -> ");
    let ghost ret_text = match f.ret { Some(r) => local_type_text(*f, r), None => "!!!"@ };
    match f.ret {
        Some(r) => {
            let t = local_type_to_string(f, r);
            wr.append(t.as_str());
        },
        None => wr.append("!!!"),
    }
    wr.append(" {\n");
    let ghost w3 = wr@;
    fmt_locals(f, wr);
    let ghost w4 = wr@;
    fmt_blocks(f, wr);
    let ghost w5 = wr@;
    wr.append("}\n\n");
    proof {
        if function_printable(*f) {
            let pre = (if start { "[start] "@ } else { seq![] }) + "fn "@ + fn_name_text(fn_name) + "("@;
            assert(w1 =~= w0 + pre);
            assert(w3 =~= w2 + ") -> "@ + ret_text + " {\n"@);
            assert(w5 == w3 + locals_text(*f, f.locals@.len()) + blocks_text(*f, f.blocks@.len()));
            assert(wr@ =~= w0 + function_text(fn_name, *f, start));
        }
    }
}

/// The text of the whole program, functions in the order of their names; see
/// `program_text` for what it is on programs whose locals all have types without parts.
pub fn program_to_string(prog: &Program) -> (r: String)
    requires
        program_printable(*prog),
    ensures
        r@ == program_text(*prog, prog.functions@.len()),
{
    let mut wr = String::new();
    let ghost ok = program_printable(*prog);
    for i in 0..prog.functions.len()
        invariant
            ok == program_printable(*prog),
            ok,
            ok ==> wr@ == program_text(*prog, i as nat),
    {
        let name = FnName(i as u32);
        assert(function_printable(prog.functions@[i as int]));
        fmt_function(name, &prog.functions[i], prog.start == name, &mut wr);
        proof {
            if ok {
                assert(function_printable(prog.functions@[i as int]));
                assert(wr@ =~= program_text(*prog, (i + 1) as nat));
            }
        }
    }
    wr
}

/// Whether the value expression can be rendered.
#[verifier::loop_isolation(false)]
pub fn check_printable(v: &ValueExpr) -> (r: bool)
    ensures
        r == printable(*v),
    decreases v,
{
    match v {
        ValueExpr::Constant(..) => true,
        ValueExpr::Tuple(l, t) => {
            let shaped = match t {
                Type::Tuple { .. } | Type::Array { .. } => true,
                _ => false,
            };
            if !shaped {
                return false;
            }
            let mut ok = true;
            for i in 0..l.len()
                invariant
                    ok == all_printable(l@.subrange(0, i as int)),
            {
                proof {
                    assert(decreases_to!(l => l[i as int]));
                }
                let e = check_printable(&l[i]);
                proof {
                    let sub = l@.subrange(0, i + 1);
                    assert(sub.drop_last() =~= l@.subrange(0, i as int));
                    assert(sub.last() == l@[i as int]);
                }
                ok = ok && e;
            }
            assert(l@.subrange(0, l@.len() as int) =~= l@);
            ok
        },
        ValueExpr::Union { expr, .. } => check_printable(expr),
        ValueExpr::Load { source, .. } => check_place_printable(source),
        ValueExpr::AddrOf { target, ptr_ty } => {
            let boxed = match ptr_ty {
                PtrType::Box { .. } => true,
                _ => false,
            };
            !boxed && check_place_printable(target)
        },
        ValueExpr::UnOp { operand, .. } => check_printable(operand),
        ValueExpr::BinOp { left, right, .. } => {
            let a = check_printable(left);
            let b = check_printable(right);
            a && b
        },
    }
}

/// Whether the place expression can be rendered.
pub fn check_place_printable(p: &PlaceExpr) -> (r: bool)
    ensures
        r == place_printable(*p),
    decreases p,
{
    match p {
        PlaceExpr::Local(_) => true,
        PlaceExpr::Deref { operand, .. } => check_printable(operand),
        PlaceExpr::Field { root, .. } => check_place_printable(root),
        PlaceExpr::Index { root, index } => {
            let a = check_place_printable(root);
            let b = check_printable(index);
            a && b
        },
    }
}

fn check_all_printable(l: &Vec<ValueExpr>) -> (r: bool)
    ensures
        r == all_printable(l@),
{
    let mut ok = true;
    for i in 0..l.len()
        invariant
            ok == all_printable(l@.subrange(0, i as int)),
    {
        let e = check_printable(&l[i]);
        proof {
            let sub = l@.subrange(0, i + 1);
            assert(sub.drop_last() =~= l@.subrange(0, i as int));
            assert(sub.last() == l@[i as int]);
        }
        ok = ok && e;
    }
    assert(l@.subrange(0, l@.len() as int) =~= l@);
    ok
}

fn check_statement_printable(st: &Statement) -> (r: bool)
    ensures
        r == statement_printable(*st),
{
    match st {
        Statement::Assign { destination, source } => {
            let a = check_place_printable(destination);
            let b = check_printable(source);
            a && b
        },
        Statement::Finalize { place, .. } => check_place_printable(place),
        _ => true,
    }
}

fn check_call_printable(args: &Vec<ValueExpr>, ret: &Option<PlaceExpr>) -> (r: bool)
    ensures
        r == call_printable(args@, *ret),
{
    let a = check_all_printable(args);
    let b = match ret {
        Some(p) => check_place_printable(p),
        None => true,
    };
    a && b
}

fn check_bb_printable(bb: &BasicBlock) -> (r: bool)
    ensures
        r == bb_printable(*bb),
{
    let mut ok = true;
    for i in 0..bb.statements.len()
        invariant
            ok == (forall|j: int| 0 <= j < i ==> statement_printable(#[trigger] bb.statements@[j])),
    {
        let e = check_statement_printable(&bb.statements[i]);
        ok = ok && e;
    }
    let t = match &bb.terminator {
        Terminator::If { condition, .. } => check_printable(condition),
        Terminator::Call { arguments, ret, .. } => check_call_printable(arguments, ret),
        Terminator::CallIntrinsic { arguments, ret, .. } => check_call_printable(arguments, ret),
        _ => true,
    };
    ok && t
}

/// Whether `program_to_string` can render the program.
pub fn check_program_printable(prog: &Program) -> (r: bool)
    ensures
        r == program_printable(*prog),
{
    if prog.functions.len() > u32::MAX as usize {
        return false;
    }
    let mut ok = true;
    for i in 0..prog.functions.len()
        invariant
            ok == (forall|j: int| 0 <= j < i ==> function_printable(#[trigger] prog.functions@[j])),
    {
        let f = &prog.functions[i];
        let mut fok = f.locals.len() <= u32::MAX as usize && f.blocks.len() <= u32::MAX as usize;
        for k in 0..f.blocks.len()
            invariant
                fok == (f.locals@.len() <= u32::MAX && f.blocks@.len() <= u32::MAX
                    && forall|j: int| 0 <= j < k ==> bb_printable(#[trigger] f.blocks@[j])),
        {
            let b = check_bb_printable(&f.blocks[k]);
            fok = fok && b;
        }
        ok = ok && fok;
    }
    ok
}

} // verus!
