//! Bytes, pointers and values, and the encoding of values as bytes.
use vstd::prelude::*;
use crate::integer::{Int, floor_mod, floor_div};
use vstd::arithmetic::power::{pow, lemma_pow0};
use crate::ir::{Type, IntType, PtrType, Signedness, PTR_SIZE, type_size};
use crate::size::Size;

verus! {

/// One byte of memory: undefined, or a byte value that may carry the provenance of a pointer.
#[derive(Clone, Copy, Debug, PartialEq, Eq, Structural)]
pub enum AbstractByte {
    Uninit,
    Init(u8, Option<usize>),
}

/// An address and the allocation (if any) that the pointer was derived from.
#[derive(Debug)]
pub struct Pointer {
    pub addr: Int,
    pub provenance: Option<usize>,
}

impl Clone for Pointer {
    fn clone(&self) -> (r: Pointer)
        ensures
            r.addr@ == self.addr@,
            r.provenance == self.provenance,
    {
        Pointer { addr: self.addr.clone(), provenance: self.provenance }
    }
}

#[derive(Debug)]
pub enum Value {
    Int(Int),
    Bool(bool),
    Ptr(Pointer),
    Tuple(Vec<Value>),
    /// The bytes of a union's chunks, one chunk after the other.
    Union(Vec<AbstractByte>),
}

pub open spec fn all_init(bytes: Seq<AbstractByte>) -> bool {
    forall|i: int| 0 <= i < bytes.len() ==> (#[trigger] bytes[i]) is Init
}

/// The modulus of an integer type: `2^(8 * size)`.
pub open spec fn modulus(size: int) -> int {
    vstd::arithmetic::power::pow(256, size as nat)
}

/// Whether `v` is a value of an integer type of `size` bytes.
pub open spec fn int_in_bounds(v: int, signed: Signedness, size: int) -> bool {
    match signed {
        Signedness::Unsigned => 0 <= v < modulus(size),
        Signedness::Signed => -(modulus(size) / 2) <= v < modulus(size) / 2,
    }
}

/// `v` wrapped into the range of an integer type of `size` bytes.
pub open spec fn int_wrap(v: int, signed: Signedness, size: int) -> int {
    let m = modulus(size);
    let r = floor_mod(v, m);
    if signed == Signedness::Signed && r >= m / 2 { r - m } else { r }
}

/// `256^n`.
pub fn byte_modulus(n: &Int) -> (r: Int)
    requires
        n@ >= 0,
    ensures
        r@ == modulus(n@),
        r@ >= 1,
{
    proof {
        vstd::arithmetic::power::lemma_pow_positive(256, n@ as nat);
    }
    Int::from_i128(256).pow(n)
}

/// Whether `v` lies in the range of the integer type.
pub fn in_bounds(v: &Int, ity: &IntType) -> (r: bool)
    ensures
        r == int_in_bounds(v@, ity.signed, ity.size@),
{
    let n = ity.size.bytes();
    let m = byte_modulus(&n);
    match ity.signed {
        Signedness::Unsigned => Int::zero().le(v) && v.lt(&m),
        Signedness::Signed => {
            let half = m.div_floor(&Int::from_i128(2));
            half.neg().le(v) && v.lt(&half)
        },
    }
}

/// `v` wrapped around into the range of the integer type.
pub fn bring_in_bounds(v: &Int, ity: &IntType) -> (r: Int)
    ensures
        r@ == int_wrap(v@, ity.signed, ity.size@),
{
    let n = ity.size.bytes();
    let m = byte_modulus(&n);
    let r = v.mod_floor(&m);
    let half = m.div_floor(&Int::from_i128(2));
    if ity.signed == Signedness::Signed && half.le(&r) {
        r.sub(&m)
    } else {
        r
    }
}

proof fn lemma_le_push(s: Seq<AbstractByte>, b: AbstractByte)
    ensures
        le_value(s.push(b)) == le_value(s) + pow(256, s.len()) * byte_value(b),
    decreases s.len(),
{
    if s.len() == 0 {
        assert(s.push(b).drop_first() =~= Seq::<AbstractByte>::empty());
        assert(le_value(Seq::<AbstractByte>::empty()) == 0);
        lemma_pow0(256);
    } else {
        let t = s.drop_first();
        assert(s.push(b).drop_first() =~= t.push(b));
        lemma_le_push(t, b);
        let p = pow(256, t.len());
        assert(pow(256, s.len()) == 256 * p) by {
            reveal(pow);
        }
        let lt = le_value(t);
        let bv = byte_value(b);
        assert(256 * (lt + p * bv) == 256 * lt + (256 * p) * bv) by (nonlinear_arith);
    }
}

proof fn lemma_le_bounds(s: Seq<AbstractByte>)
    ensures
        0 <= le_value(s) < pow(256, s.len()),
    decreases s.len(),
{
    if s.len() == 0 {
        lemma_pow0(256);
    } else {
        let t = s.drop_first();
        lemma_le_bounds(t);
        assert(pow(256, s.len()) == 256 * pow(256, t.len())) by {
            reveal(pow);
        }
        let lt = le_value(t);
        let p = pow(256, t.len());
        let bv = byte_value(s[0]);
        assert(0 <= bv < 256);
        assert(0 <= bv + 256 * lt < 256 * p) by (nonlinear_arith)
            requires 0 <= lt < p, 0 <= bv < 256;
    }
}

/// Little-endian bytes of `v` modulo `256^n`, each carrying `prov`.
fn encode_uint(v: &Int, n: usize, prov: Option<usize>) -> (r: Vec<AbstractByte>)
    ensures
        r@.len() == n,
        all_init(r@),
        le_value(r@) == floor_mod(v@, modulus(n as int)),
{
    let b256 = Int::from_i128(256);
    let mut x = v.clone();
    let mut out: Vec<AbstractByte> = Vec::new();
    proof {
        lemma_pow0(256);
        assert(le_value(out@) == 0);
    }
    for i in 0..n
        invariant
            out@.len() == i,
            all_init(out@),
            b256@ == 256,
            le_value(out@) + pow(256, i as nat) * x@ == v@,
    {
        let d = x.mod_floor(&b256);
        let q = x.div_floor(&b256);
        assert(0 <= d@ < 256 && x@ == 256 * q@ + d@);
        let byte: u8 = match d.to_u64() {
            Some(k) => {
                if k < 256 { k as u8 } else { 0 }
            },
            None => 0,
        };
        assert(byte as int == d@);
        proof {
            lemma_le_push(out@, AbstractByte::Init(byte, prov));
            assert(pow(256, (i + 1) as nat) == 256 * pow(256, i as nat)) by {
                reveal(pow);
            }
            let p = pow(256, i as nat);
            assert(p * x@ == p * d@ + (256 * p) * q@) by (nonlinear_arith)
                requires x@ == 256 * q@ + d@;
        }
        out.push(AbstractByte::Init(byte, prov));
        x = q;
    }
    proof {
        lemma_le_bounds(out@);
        let m = pow(256, n as nat);
        vstd::arithmetic::power::lemma_pow_positive(256, n as nat);
        assert(v@ == m * x@ + le_value(out@));
        vstd::arithmetic::div_mod::lemma_fundamental_div_mod_converse(v@, m, x@, le_value(out@));
    }
    out
}

pub open spec fn byte_value(b: AbstractByte) -> int {
    match b {
        AbstractByte::Init(x, _) => x as int,
        AbstractByte::Uninit => 0,
    }
}

/// The number that the bytes spell, least significant first.
pub open spec fn le_value(s: Seq<AbstractByte>) -> int
    decreases s.len(),
{
    if s.len() == 0 { 0 } else { byte_value(s[0]) + 256 * le_value(s.drop_first()) }
}

/// The integer of the given signedness that the bytes spell in two's complement.
pub open spec fn int_from_bytes(s: Seq<AbstractByte>, signed: Signedness) -> int {
    let u = le_value(s);
    let m = modulus(s.len() as int);
    if signed == Signedness::Signed && u >= m / 2 { u - m } else { u }
}

/// The number that little-endian defined bytes spell; `None` if a byte is undefined.
fn decode_uint(bytes: &Vec<AbstractByte>) -> (r: Option<Int>)
    ensures
        r is Some <==> all_init(bytes@),
        r matches Some(v) ==> v@ == le_value(bytes@),
{
    let b256 = Int::from_i128(256);
    let mut acc = Int::zero();
    let mut i: usize = bytes.len();
    while i > 0
        invariant
            i <= bytes.len(),
            b256@ == 256,
            forall|j: int| i <= j < bytes.len() ==> (#[trigger] bytes@[j]) is Init,
            acc@ == le_value(bytes@.subrange(i as int, bytes@.len() as int)),
        decreases i,
    {
        i = i - 1;
        match bytes[i] {
            AbstractByte::Init(b, _) => {
                let ghost rest = bytes@.subrange(i + 1, bytes@.len() as int);
                let ghost cur = bytes@.subrange(i as int, bytes@.len() as int);
                assert(cur.drop_first() =~= rest);
                assert(cur[0] == bytes@[i as int]);
                acc = acc.mul(&b256).add(&Int::from_i128(b as i128));
            },
            AbstractByte::Uninit => {
                return None;
            },
        }
    }
    assert(bytes@.subrange(0, bytes@.len() as int) =~= bytes@);
    Some(acc)
}

/// `len` bytes of `bytes` from `off` on, when they are all there.
pub fn sub_bytes(bytes: &Vec<AbstractByte>, off: &Size, len: &Size) -> (r: Option<Vec<AbstractByte>>)
    ensures
        r matches Some(v) ==> v@ == bytes@.subrange(off@, off@ + len@),
        r is Some <==> off@ + len@ <= bytes@.len(),
{
    let o = off.bytes();
    let l = len.bytes();
    let end = o.add(&l);
    let ou = o.to_usize();
    let eu = end.to_usize();
    if ou.is_none() || eu.is_none() {
        let blen = bytes.len();
        assert(bytes@.len() == blen);
        return None;
    }
    match (ou, eu) {
        (Some(a), Some(b)) => {
            if b > bytes.len() {
                return None;
            }
            let mut out: Vec<AbstractByte> = Vec::new();
            let mut i: usize = a;
            while i < b
                invariant
                    a <= i <= b <= bytes.len(),
                    out@ == bytes@.subrange(a as int, i as int),
                decreases b - i,
            {
                out.push(bytes[i]);
                i = i + 1;
            }
            Some(out)
        },
        _ => None,
    }
}

/// Copies `src` into `dst` at byte offset `off`, where it fits.
pub fn put_bytes(dst: &mut Vec<AbstractByte>, off: &Size, src: &Vec<AbstractByte>)
    ensures
        final(dst)@.len() == old(dst)@.len(),
        off@ + src@.len() <= old(dst)@.len() ==> final(dst)@ == old(dst)@.subrange(0, off@)
            + src@ + old(dst)@.subrange(off@ + src@.len(), old(dst)@.len() as int),
        forall|k: int| 0 <= k < old(dst)@.len() && !(off@ <= k < off@ + src@.len())
            ==> #[trigger] final(dst)@[k] == old(dst)@[k],
{
    let ghost d0 = dst@;
    match off.bytes().to_usize() {
        Some(o) => {
            let mut i: usize = 0;
            while i < src.len()
                invariant
                    dst@.len() == old(dst)@.len(),
                    d0 == old(dst)@,
                    i <= src@.len(),
                    o as int == off@,
                    off@ + src@.len() <= d0.len() ==> (forall|j: int| 0 <= j < d0.len() ==>
                        #[trigger] dst@[j] == if o <= j < o + i { src@[j - o] } else { d0[j] }),
                    forall|j: int| 0 <= j < d0.len() && !(o <= j < o + i) ==> #[trigger] dst@[j] == d0[j],
                decreases src.len() - i,
            {
                if o <= dst.len() && i < dst.len() - o {
                    dst.set(o + i, src[i]);
                }
                i = i + 1;
            }
            proof {
                if off@ + src@.len() <= d0.len() {
                    assert(dst@ =~= d0.subrange(0, off@) + src@ + d0.subrange(off@ + src@.len(), d0.len() as int));
                }
            }
        },
        None => {
            let dl = dst.len();
            assert(d0.len() == dl);
        },
    }
}

/// The bytes that an integer in the range of its type encodes to decode to that integer.
pub proof fn law_int_encoding_round_trip(x: int, signed: Signedness, s: Seq<AbstractByte>)
    requires
        int_in_bounds(x, signed, s.len() as int),
        le_value(s) == floor_mod(x, modulus(s.len() as int)),
    ensures
        int_from_bytes(s, signed) == x,
{
    let m = modulus(s.len() as int);
    vstd::arithmetic::power::lemma_pow_positive(256, s.len());
    let u = le_value(s);
    if x >= 0 {
        if signed == Signedness::Signed {
            assert(x < m);
        }
        vstd::arithmetic::div_mod::lemma_fundamental_div_mod_converse(x, m, 0, x);
        let q = floor_div(x, m);
        assert(q == 0);
        assert(floor_mod(x, m) == x - m * q);
        assert(m * q == 0) by (nonlinear_arith)
            requires q == 0;
        assert(u == x);
    } else {
        vstd::arithmetic::div_mod::lemma_fundamental_div_mod_converse(x, m, -1, x + m);
        let q = floor_div(x, m);
        assert(q == -1);
        assert(floor_mod(x, m) == x - m * q);
        assert(m * q == -m) by (nonlinear_arith)
            requires q == -1;
        assert(u == x + m);
        assert(u >= m / 2);
    }
}

/// The bytes that encode an integer or boolean value at its type (little-endian two's
/// complement, or one byte 0 or 1); of other types only the length is stated.
pub open spec fn scalar_encoding(ty: Type, v: Value, b: Seq<AbstractByte>) -> bool {
    b.len() == type_size(ty) && match (ty, v) {
        (Type::Int(ity), Value::Int(x)) => all_init(b) && le_value(b) == floor_mod(x@, modulus(ity.size@)),
        (Type::Bool, Value::Bool(x)) => b == seq![AbstractByte::Init(if x { 1u8 } else { 0u8 }, None)],
        _ => true,
    }
}

/// An integer in its type's range, or a boolean at type `bool`.
pub open spec fn scalar_encodable(ty: Type, v: Value) -> bool {
    match (ty, v) {
        (Type::Int(ity), Value::Int(x)) => int_in_bounds(x@, ity.signed, ity.size@) && ity.size@ <= usize::MAX,
        (Type::Bool, Value::Bool(_)) => true,
        _ => false,
    }
}

/// The alignment that a pointer type demands of its address, or `None` for raw pointers,
/// which may hold any address.
pub open spec fn pointee_align(pty: PtrType) -> Option<int> {
    match pty {
        PtrType::Raw { .. } => None,
        PtrType::Ref { pointee, .. } => Some(pointee.align@),
        PtrType::Box { pointee } => Some(pointee.align@),
    }
}

/// Whether the bytes are a valid pointer of the type: eight defined bytes, and for
/// references and boxes an address that is not null and is aligned for the pointee.
pub open spec fn ptr_bytes_valid(pty: PtrType, bytes: Seq<AbstractByte>) -> bool {
    bytes.len() == PTR_SIZE && all_init(bytes) && match pointee_align(pty) {
        Some(a) => le_value(bytes) != 0 && floor_mod(le_value(bytes), a) == 0,
        None => true,
    }
}

/// The bytes leave every padding byte of a tuple type undefined.
pub open spec fn padding_uninit(ty: Type, b: Seq<AbstractByte>) -> bool {
    ty matches Type::Tuple { fields, .. } ==> forall|k: int|
        0 <= k < b.len() && padding_upto(fields@, fields@.len() as int, k) ==> #[trigger] b[k] == AbstractByte::Uninit
}

/// Byte `k` of a tuple lies in none of its first `n` fields: it is padding.
pub open spec fn padding_upto(fields: Seq<(Size, Type)>, n: int, k: int) -> bool {
    forall|j: int| 0 <= j < n ==> !(#[trigger] fields[j].0@ <= k < fields[j].0@ + type_size(fields[j].1))
}

/// Whether the bytes are a valid `bool`.
pub open spec fn bool_bytes_valid(bytes: Seq<AbstractByte>) -> bool {
    bytes.len() == 1 && (bytes[0] matches AbstractByte::Init(b, _) && (b == 0 || b == 1))
}

/// Reads the bytes as a value of the type; `None` where they violate the type's
/// validity invariant.
#[verifier::loop_isolation(false)]
pub fn decode(ty: &Type, bytes: &Vec<AbstractByte>) -> (r: Option<Value>)
    ensures
        ty is Bool ==> (r is Some <==> bool_bytes_valid(bytes@)),
        ty is Int ==> (r is Some <==> (all_init(bytes@) && bytes@.len() == type_size(*ty))),
        ty matches Type::Int(ity) ==> (r is Some ==> (r matches Some(Value::Int(v))
            && v@ == int_from_bytes(bytes@, ity.signed))),
        ty matches Type::Ptr(pty) ==> (r is Some <==> ptr_bytes_valid(*pty, bytes@)),
        ty is Ptr ==> (r is Some ==> (r matches Some(Value::Ptr(p)) && p.addr@ == le_value(bytes@))),
    decreases ty,
{
    match ty {
        Type::Int(ity) => {
            let n = ity.size.bytes();
            if !n.eq(&Int::from_i128(bytes.len() as i128)) {
                return None;
            }
            match decode_uint(bytes) {
                Some(u) => {
                    let m = byte_modulus(&n);
                    let half = m.div_floor(&Int::from_i128(2));
                    if ity.signed == Signedness::Signed && half.le(&u) {
                        Some(Value::Int(u.sub(&m)))
                    } else {
                        Some(Value::Int(u))
                    }
                },
                None => None,
            }
        },
        Type::Bool => {
            if bytes.len() != 1 {
                return None;
            }
            match bytes[0] {
                AbstractByte::Init(0, _) => Some(Value::Bool(false)),
                AbstractByte::Init(1, _) => Some(Value::Bool(true)),
                _ => None,
            }
        },
        Type::Ptr(pty) => {
            if bytes.len() != PTR_SIZE {
                return None;
            }
            let addr = match decode_uint(bytes) {
                Some(a) => a,
                None => {
                    return None;
                },
            };
            let prov = match bytes[0] {
                AbstractByte::Init(_, p) => p,
                AbstractByte::Uninit => None,
            };
            let mut same = true;
            for i in 0..bytes.len() {
                match bytes[i] {
                    AbstractByte::Init(_, p) => {
                        if p != prov {
                            same = false;
                        }
                    },
                    AbstractByte::Uninit => {
                        same = false;
                    },
                }
            }
            let prov = if same { prov } else { None };
            let needs_valid = match pty {
                PtrType::Raw { .. } => None,
                PtrType::Ref { pointee, .. } => Some(pointee.align.bytes()),
                PtrType::Box { pointee } => Some(pointee.align.bytes()),
            };
            match needs_valid {
                Some(align) => {
                    if addr.eq(&Int::zero()) || !addr.mod_floor(&align).eq(&Int::zero()) {
                        return None;
                    }
                },
                None => {},
            }
            Some(Value::Ptr(Pointer { addr, provenance: prov }))
        },
        Type::Tuple { fields, size } => {
            if !size.bytes().eq(&Int::from_i128(bytes.len() as i128)) {
                return None;
            }
            let mut vals: Vec<Value> = Vec::new();
            for i in 0..fields.len() {
                proof {
                    assert(decreases_to!(fields => fields[i as int]));
                }
                let fty = &fields[i].1;
                let fsize = match fty.size() {
                    Some(s) => s,
                    None => {
                        return None;
                    },
                };
                let fbytes = match sub_bytes(bytes, &fields[i].0, &fsize) {
                    Some(b) => b,
                    None => {
                        return None;
                    },
                };
                match decode(fty, &fbytes) {
                    Some(v) => vals.push(v),
                    None => {
                        return None;
                    },
                }
            }
            Some(Value::Tuple(vals))
        },
        Type::Array { elem, count } => {
            let esize = match elem.size() {
                Some(s) => s,
                None => {
                    return None;
                },
            };
            let n = match count.to_usize() {
                Some(n) => n,
                None => {
                    return None;
                },
            };
            let e: &Type = elem;
            let mut vals: Vec<Value> = Vec::new();
            for i in 0..n {
                let off = esize.mul(&Int::from_i128(i as i128));
                let ebytes = match sub_bytes(bytes, &off, &esize) {
                    Some(b) => b,
                    None => {
                        return None;
                    },
                };
                match decode(e, &ebytes) {
                    Some(v) => vals.push(v),
                    None => {
                        return None;
                    },
                }
            }
            Some(Value::Tuple(vals))
        },
        Type::Union { chunks, size, .. } => {
            if !size.bytes().eq(&Int::from_i128(bytes.len() as i128)) {
                return None;
            }
            let mut data: Vec<AbstractByte> = Vec::new();
            for i in 0..chunks.len() {
                match sub_bytes(bytes, &chunks[i].0, &chunks[i].1) {
                    Some(b) => {
                        let mut b = b;
                        data.append(&mut b);
                    },
                    None => {
                        return None;
                    },
                }
            }
            Some(Value::Union(data))
        },
    }
}

/// The bytes that represent the value at the type; `None` where the value does not
/// have the type's shape.
#[verifier::loop_isolation(false)]
pub fn encode(ty: &Type, v: &Value) -> (r: Option<Vec<AbstractByte>>)
    ensures
        r matches Some(b) ==> b@.len() == type_size(*ty),
        ty matches Type::Int(ity) ==> (v matches Value::Int(x) ==> (
            (!int_in_bounds(x@, ity.signed, ity.size@) ==> r is None)
            && (r matches Some(b) ==> all_init(b@) && le_value(b@) == floor_mod(x@, modulus(ity.size@))))),
        ty is Bool ==> (v matches Value::Bool(x) ==> (r matches Some(b)
            && b@ == seq![AbstractByte::Init(if *x { 1u8 } else { 0u8 }, None)])),
        r matches Some(b) ==> scalar_encoding(*ty, *v, b@),
        r matches Some(b) ==> padding_uninit(*ty, b@),
        scalar_encodable(*ty, *v) ==> r is Some,
    decreases ty,
{
    match (ty, v) {
        (Type::Int(ity), Value::Int(x)) => {
            if !in_bounds(x, ity) {
                return None;
            }
            match ity.size.bytes().to_usize() {
                Some(n) => Some(encode_uint(x, n, None)),
                None => None,
            }
        },
        (Type::Bool, Value::Bool(b)) => {
            let byte: u8 = if *b { 1 } else { 0 };
            let mut out: Vec<AbstractByte> = Vec::new();
            out.push(AbstractByte::Init(byte, None));
            Some(out)
        },
        (Type::Ptr(_), Value::Ptr(p)) => {
            if p.addr.is_negative() {
                return None;
            }
            Some(encode_uint(&p.addr, PTR_SIZE, p.provenance))
        },
        (Type::Tuple { fields, size }, Value::Tuple(vals)) => {
            if fields.len() != vals.len() {
                return None;
            }
            let mut out = uninit_bytes(size)?;
            for i in 0..fields.len()
                invariant
                    out@.len() == type_size(*ty),
                    fields.len() == vals.len(),
                    forall|k: int| 0 <= k < out@.len() && padding_upto(fields@, i as int, k)
                        ==> #[trigger] out@[k] == AbstractByte::Uninit,
            {
                proof {
                    assert(decreases_to!(fields => fields[i as int]));
                }
                let fb = encode(&fields[i].1, &vals[i])?;
                put_bytes(&mut out, &fields[i].0, &fb);
                assert forall|k: int| 0 <= k < out@.len() && padding_upto(fields@, i + 1, k)
                    implies #[trigger] out@[k] == AbstractByte::Uninit by {
                    assert(padding_upto(fields@, i as int, k));
                    assert(!(fields@[i as int].0@ <= k < fields@[i as int].0@ + type_size(fields@[i as int].1)));
                }
            }
            Some(out)
        },
        (Type::Array { elem, count }, Value::Tuple(vals)) => {
            let esize = elem.size()?;
            let total = ty.size()?;
            if !count.eq(&Int::from_i128(vals.len() as i128)) {
                return None;
            }
            let mut out = uninit_bytes(&total)?;
            let e: &Type = elem;
            for i in 0..vals.len()
                invariant
                    out@.len() == type_size(*ty),
            {
                let eb = encode(e, &vals[i])?;
                let off = esize.mul(&Int::from_i128(i as i128));
                put_bytes(&mut out, &off, &eb);
            }
            Some(out)
        },
        (Type::Union { chunks, size, .. }, Value::Union(data)) => {
            let mut out = uninit_bytes(size)?;
            let mut pos = Size::zero();
            for i in 0..chunks.len()
                invariant
                    out@.len() == type_size(*ty),
            {
                let part = sub_bytes(data, &pos, &chunks[i].1)?;
                put_bytes(&mut out, &chunks[i].0, &part);
                pos = pos.add(&chunks[i].1);
            }
            Some(out)
        },
        _ => None,
    }
}

/// `size` undefined bytes, when the count fits in memory.
pub fn uninit_bytes(size: &Size) -> (r: Option<Vec<AbstractByte>>)
    ensures
        r matches Some(b) ==> b@.len() == size@ && forall|i: int| 0 <= i < b@.len() ==> b@[i] == AbstractByte::Uninit,
        r is Some <==> size@ <= usize::MAX,
{
    let n = size.bytes().to_usize()?;
    let mut out: Vec<AbstractByte> = Vec::new();
    for i in 0..n
        invariant
            out@.len() == i,
            forall|j: int| 0 <= j < out@.len() ==> out@[j] == AbstractByte::Uninit,
    {
        out.push(AbstractByte::Uninit);
    }
    Some(out)
}

} // verus!
