//! Arbitrary-precision integers with an inline fast path for values that fit in `i128`.
use vstd::prelude::*;
use vstd::arithmetic::power2::{pow2, lemma_pow2_unfold, lemma_pow2_strictly_increases, lemma_pow2_pos};
use vstd::arithmetic::power::{pow, lemma_pow0, lemma_pow1, lemma_pow_adds};
use vstd::arithmetic::div_mod::lemma_fundamental_div_mod_converse;
use num_traits::Signed;
use num_traits::ToPrimitive;
use num_bigint::BigInt as ExtInt;

verus! {

/// `num_bigint::BigInt`, held opaquely; `big_value` names the number inside.
#[verifier::external_type_specification]
#[verifier::external_body]
pub struct ExBigInt(ExtInt);

/// The number that a `num_bigint::BigInt` holds.
pub uninterp spec fn big_value(b: ExtInt) -> int;

/// Relies on `From<i128> for num_bigint::BigInt`: the same number.
#[verifier::external_body]
fn big_from_i128(x: i128) -> (r: ExtInt)
    ensures
        big_value(r) == x as int,
{
    ExtInt::from(x)
}

/// Relies on `ToPrimitive::to_i128` for `num_bigint::BigInt`: the number when it fits.
#[verifier::external_body]
fn big_to_i128(b: &ExtInt) -> (r: Option<i128>)
    ensures
        r matches Some(x) ==> x as int == big_value(*b),
        r is None ==> (big_value(*b) < i128::MIN || big_value(*b) > i128::MAX),
{
    b.to_i128()
}

/// Relies on `Clone for num_bigint::BigInt`: the same number.
pub assume_specification[ <ExtInt as std::clone::Clone>::clone ](
    b: &ExtInt,
) -> (r: ExtInt)
    ensures
        big_value(r) == big_value(*b),
;

/// Relies on `Add for &num_bigint::BigInt`: the exact sum.
#[verifier::external_body]
fn big_add(a: &ExtInt, b: &ExtInt) -> (r: ExtInt)
    ensures
        big_value(r) == big_value(*a) + big_value(*b),
{
    a + b
}

/// Relies on `Sub for &num_bigint::BigInt`: the exact difference.
#[verifier::external_body]
fn big_sub(a: &ExtInt, b: &ExtInt) -> (r: ExtInt)
    ensures
        big_value(r) == big_value(*a) - big_value(*b),
{
    a - b
}

/// Relies on `Mul for &num_bigint::BigInt`: the exact product.
#[verifier::external_body]
fn big_mul(a: &ExtInt, b: &ExtInt) -> (r: ExtInt)
    ensures
        big_value(r) == big_value(*a) * big_value(*b),
{
    a * b
}

/// Relies on `Div for &num_bigint::BigInt`: the quotient rounded toward zero
/// (it panics on a zero divisor).
#[verifier::external_body]
fn big_div(a: &ExtInt, b: &ExtInt) -> (r: ExtInt)
    requires
        big_value(*b) != 0,
    ensures
        big_value(r) == trunc_div(big_value(*a), big_value(*b)),
{
    a / b
}

/// Relies on `Signed::is_negative` for `num_bigint::BigInt`.
#[verifier::external_body]
fn big_is_negative(b: &ExtInt) -> (r: bool)
    ensures
        r == (big_value(*b) < 0),
{
    b.is_negative()
}

/// Relies on `num_bigint::BigInt::trailing_zeros`: the number of low zero bits of the
/// magnitude, `None` for zero.
#[verifier::external_body]
fn big_trailing_zeros(b: &ExtInt) -> (r: Option<u64>)
    ensures
        r is None <==> big_value(*b) == 0,
        r matches Some(k) ==> has_trailing_zeros(big_value(*b), k as nat),
{
    b.trailing_zeros()
}

/// Relies on `ToString` (via `Display`) for `num_bigint::BigInt`: the decimal notation.
#[verifier::external_body]
fn big_to_string(b: &ExtInt) -> (r: String)
    ensures
        r@ == decimal(big_value(*b)),
{
    b.to_string()
}

pub open spec fn abs_int(x: int) -> int {
    if x < 0 { -x } else { x }
}

/// Division rounding toward zero.
pub open spec fn trunc_div(a: int, b: int) -> int {
    let q = abs_int(a) / abs_int(b);
    if (a < 0) != (b < 0) { -q } else { q }
}

/// Division rounding toward negative infinity.
pub open spec fn floor_div(a: int, b: int) -> int {
    if b > 0 { a / b } else { (-a) / (-b) }
}

/// The remainder that goes with `floor_div`; it has the sign of the divisor.
pub open spec fn floor_mod(a: int, b: int) -> int {
    a - b * floor_div(a, b)
}

/// `x` is a multiple of `2^k` and not of `2^(k+1)`.
pub open spec fn has_trailing_zeros(x: int, k: nat) -> bool {
    x % (pow2(k) as int) == 0 && (x / (pow2(k) as int)) % 2 == 1
}

pub open spec fn is_pow2(x: int) -> bool {
    exists|k: nat| pow2(k) == x
}

pub open spec fn digit_char(d: int) -> char {
    if d == 0 { '0' } else if d == 1 { '1' } else if d == 2 { '2' } else if d == 3 { '3' }
    else if d == 4 { '4' } else if d == 5 { '5' } else if d == 6 { '6' } else if d == 7 { '7' }
    else if d == 8 { '8' } else { '9' }
}

pub open spec fn decimal_nat(n: nat) -> Seq<char>
    decreases n,
{
    if n < 10 {
        seq![digit_char(n as int)]
    } else {
        decimal_nat(n / 10) + seq![digit_char((n % 10) as int)]
    }
}

/// Decimal notation, with a leading `-` for negative numbers.
pub open spec fn decimal(x: int) -> Seq<char> {
    if x < 0 { seq!['-'] + decimal_nat((-x) as nat) } else { decimal_nat(x as nat) }
}

#[derive(Debug)]
pub enum IntInner {
    Big(ExtInt),
    Small(i128),
}

/// A signed integer of any size.
#[derive(Debug)]
pub struct BigInt(pub IntInner);

/// The integer type that sizes, addresses and values of the language use.
pub type Int = BigInt;

impl Clone for Int {
    fn clone(&self) -> (r: Int)
        ensures
            r@ == self@,
    {
        self.copied()
    }
}

impl From<i32> for Int {
    fn from(x: i32) -> (r: Int) {
        BigInt(IntInner::Small(x as i128))
    }
}

impl vstd::std_specs::convert::FromSpecImpl<i32> for Int {
    open spec fn obeys_from_spec() -> bool {
        true
    }

    open spec fn from_spec(v: i32) -> Int {
        BigInt(IntInner::Small(v as i128))
    }
}

impl From<i64> for Int {
    fn from(x: i64) -> (r: Int) {
        BigInt(IntInner::Small(x as i128))
    }
}

impl vstd::std_specs::convert::FromSpecImpl<i64> for Int {
    open spec fn obeys_from_spec() -> bool {
        true
    }

    open spec fn from_spec(v: i64) -> Int {
        BigInt(IntInner::Small(v as i128))
    }
}

impl From<u32> for Int {
    fn from(x: u32) -> (r: Int) {
        BigInt(IntInner::Small(x as i128))
    }
}

impl vstd::std_specs::convert::FromSpecImpl<u32> for Int {
    open spec fn obeys_from_spec() -> bool {
        true
    }

    open spec fn from_spec(v: u32) -> Int {
        BigInt(IntInner::Small(v as i128))
    }
}

impl From<u64> for Int {
    fn from(x: u64) -> (r: Int) {
        BigInt(IntInner::Small(x as i128))
    }
}

impl vstd::std_specs::convert::FromSpecImpl<u64> for Int {
    open spec fn obeys_from_spec() -> bool {
        true
    }

    open spec fn from_spec(v: u64) -> Int {
        BigInt(IntInner::Small(v as i128))
    }
}

impl From<usize> for Int {
    fn from(x: usize) -> (r: Int) {
        BigInt(IntInner::Small(x as i128))
    }
}

impl vstd::std_specs::convert::FromSpecImpl<usize> for Int {
    open spec fn obeys_from_spec() -> bool {
        true
    }

    open spec fn from_spec(v: usize) -> Int {
        BigInt(IntInner::Small(v as i128))
    }
}

impl From<i128> for Int {
    fn from(x: i128) -> (r: Int) {
        BigInt(IntInner::Small(x as i128))
    }
}

impl vstd::std_specs::convert::FromSpecImpl<i128> for Int {
    open spec fn obeys_from_spec() -> bool {
        true
    }

    open spec fn from_spec(v: i128) -> Int {
        BigInt(IntInner::Small(v as i128))
    }
}

impl View for Int {
    type V = int;

    open spec fn view(&self) -> int {
        match self.0 {
            IntInner::Big(b) => big_value(b),
            IntInner::Small(x) => x as int,
        }
    }
}

impl BigInt {
    pub fn from_i128(x: i128) -> (r: Int)
        ensures
            r@ == x as int,
    {
        BigInt(IntInner::Small(x))
    }

    pub fn zero() -> (r: Int)
        ensures
            r@ == 0,
    {
        Int::from_i128(0)
    }

    pub fn one() -> (r: Int)
        ensures
            r@ == 1,
    {
        Int::from_i128(1)
    }

    /// The same number, as an independent value.
    pub fn copied(&self) -> (r: Int)
        ensures
            r@ == self@,
    {
        match &self.0 {
            IntInner::Big(b) => BigInt(IntInner::Big(b.clone())),
            IntInner::Small(x) => BigInt(IntInner::Small(*x)),
        }
    }

    fn ext(&self) -> (r: ExtInt)
        ensures
            big_value(r) == self@,
    {
        match &self.0 {
            IntInner::Big(b) => b.clone(),
            IntInner::Small(x) => big_from_i128(*x),
        }
    }

    fn wrap(b: ExtInt) -> (r: Int)
        ensures
            r@ == big_value(b),
    {
        match big_to_i128(&b) {
            Some(x) => BigInt(IntInner::Small(x)),
            None => BigInt(IntInner::Big(b)),
        }
    }

    /// The value as an `i128`, when it fits.
    pub fn to_i128(&self) -> (r: Option<i128>)
        ensures
            r matches Some(x) ==> x as int == self@,
            r is None ==> (self@ < i128::MIN || self@ > i128::MAX),
    {
        match &self.0 {
            IntInner::Big(b) => big_to_i128(b),
            IntInner::Small(x) => Some(*x),
        }
    }

    /// The value as a `u64`, when it fits.
    pub fn to_u64(&self) -> (r: Option<u64>)
        ensures
            r matches Some(x) ==> x as int == self@,
            r is None ==> (self@ < 0 || self@ > u64::MAX),
    {
        match self.to_i128() {
            Some(x) => {
                if 0 <= x && x <= u64::MAX as i128 {
                    Some(x as u64)
                } else {
                    None
                }
            },
            None => None,
        }
    }

    /// The value as a `usize`, when it fits.
    pub fn to_usize(&self) -> (r: Option<usize>)
        ensures
            r matches Some(x) ==> x as int == self@,
            r is None ==> (self@ < 0 || self@ > usize::MAX),
    {
        match self.to_i128() {
            Some(x) => {
                if 0 <= x && x <= usize::MAX as i128 {
                    Some(x as usize)
                } else {
                    None
                }
            },
            None => None,
        }
    }

    pub fn add(&self, o: &Int) -> (r: Int)
        ensures
            r@ == self@ + o@,
    {
        if let (IntInner::Small(a), IntInner::Small(b)) = (&self.0, &o.0) {
            if let Some(s) = a.checked_add(*b) {
                return BigInt(IntInner::Small(s));
            }
        }
        Int::wrap(big_add(&self.ext(), &o.ext()))
    }

    pub fn sub(&self, o: &Int) -> (r: Int)
        ensures
            r@ == self@ - o@,
    {
        if let (IntInner::Small(a), IntInner::Small(b)) = (&self.0, &o.0) {
            if let Some(s) = a.checked_sub(*b) {
                return BigInt(IntInner::Small(s));
            }
        }
        Int::wrap(big_sub(&self.ext(), &o.ext()))
    }

    pub fn mul(&self, o: &Int) -> (r: Int)
        ensures
            r@ == self@ * o@,
    {
        if let (IntInner::Small(a), IntInner::Small(b)) = (&self.0, &o.0) {
            if let Some(s) = a.checked_mul(*b) {
                return BigInt(IntInner::Small(s));
            }
        }
        Int::wrap(big_mul(&self.ext(), &o.ext()))
    }

    pub fn neg(&self) -> (r: Int)
        ensures
            r@ == -self@,
    {
        Int::zero().sub(self)
    }

    pub fn is_negative(&self) -> (r: bool)
        ensures
            r == (self@ < 0),
    {
        match &self.0 {
            IntInner::Big(b) => big_is_negative(b),
            IntInner::Small(x) => *x < 0,
        }
    }

    pub fn lt(&self, o: &Int) -> (r: bool)
        ensures
            r == (self@ < o@),
    {
        if let (IntInner::Small(a), IntInner::Small(b)) = (&self.0, &o.0) {
            return *a < *b;
        }
        self.sub(o).is_negative()
    }

    pub fn le(&self, o: &Int) -> (r: bool)
        ensures
            r == (self@ <= o@),
    {
        !o.lt(self)
    }

    pub fn eq(&self, o: &Int) -> (r: bool)
        ensures
            r == (self@ == o@),
    {
        !self.lt(o) && !o.lt(self)
    }

    /// Division rounding toward zero, as Rust's integer division does.
    pub fn div_trunc(&self, o: &Int) -> (r: Int)
        requires
            o@ != 0,
        ensures
            r@ == trunc_div(self@, o@),
    {
        Int::wrap(big_div(&self.ext(), &o.ext()))
    }

    /// The remainder that goes with `div_trunc`; it has the sign of the dividend.
    pub fn rem_trunc(&self, o: &Int) -> (r: Int)
        requires
            o@ != 0,
        ensures
            r@ == self@ - o@ * trunc_div(self@, o@),
    {
        let q = self.div_trunc(o);
        self.sub(&o.mul(&q))
    }

    /// Division rounding toward negative infinity.
    pub fn div_floor(&self, o: &Int) -> (r: Int)
        requires
            o@ != 0,
        ensures
            r@ == floor_div(self@, o@),
    {
        let q = self.div_trunc(o);
        let rem = self.sub(&o.mul(&q));
        let adjust = !rem.eq(&Int::zero()) && (rem.is_negative() != o.is_negative());
        let res = if adjust { q.sub(&Int::one()) } else { q };
        proof {
            lemma_floor_from_trunc(self@, o@);
        }
        res
    }

    /// The remainder that goes with `div_floor`; it has the sign of the divisor.
    pub fn mod_floor(&self, o: &Int) -> (r: Int)
        requires
            o@ != 0,
        ensures
            r@ == floor_mod(self@, o@),
    {
        let q = self.div_floor(o);
        self.sub(&o.mul(&q))
    }

    /// Division that reports a zero divisor with `None`; it rounds toward negative infinity.
    pub fn checked_div(&self, other: &Int) -> (r: Option<Int>)
        ensures
            r is None <==> other@ == 0,
            r matches Some(q) ==> q@ == floor_div(self@, other@),
    {
        if other.eq(&Int::zero()) {
            None
        } else {
            Some(self.div_floor(other))
        }
    }

    pub fn abs(&self) -> (r: Int)
        ensures
            r@ == abs_int(self@),
            r@ >= 0,
            self@ >= 0 ==> r@ == self@,
    {
        if self.is_negative() {
            self.mul(&Int::from_i128(-1))
        } else {
            self.copied()
        }
    }

    /// `self` raised to the power `other`, by repeated squaring.
    pub fn pow(&self, other: &Int) -> (r: Int)
        requires
            self@ != 0,
            other@ >= 0,
        ensures
            r@ == pow(self@, other@ as nat),
        decreases other@,
    {
        let two = Int::from_i128(2);
        if other.eq(&Int::zero()) {
            proof {
                lemma_pow0(self@);
            }
            Int::one()
        } else if other.eq(&Int::one()) {
            proof {
                lemma_pow1(self@);
            }
            self.copied()
        } else {
            let half = other.div_floor(&two);
            let parity = other.mod_floor(&two);
            let a = self.pow(&half);
            let sq = a.mul(&a);
            proof {
                let h = half@ as nat;
                lemma_pow_adds(self@, h, h);
                lemma_pow_adds(self@, (h + h) as nat, 1);
                lemma_pow1(self@);
            }
            if parity.eq(&Int::zero()) {
                sq
            } else {
                sq.mul(self)
            }
        }
    }

    /// The least power of two that is at least `self` (`1` for all `self <= 1`).
    pub fn next_power_of_two(&self) -> (r: Int)
        ensures
            is_pow2(r@),
            r@ >= self@,
            r@ == 1 || r@ / 2 < self@,
    {
        let two = Int::from_i128(2);
        let mut p = Int::one();
        let ghost mut k: nat = 0;
        proof {
            lemma_pow0(2);
        }
        while p.lt(self)
            invariant
                p@ == pow2(k),
                p@ >= 1,
                two@ == 2,
                k == 0 || p@ / 2 < self@,
            decreases (if p@ < self@ { self@ - p@ } else { 0 }),
        {
            p = p.mul(&two);
            proof {
                k = k + 1;
                lemma_pow2_unfold(k);
            }
        }
        assert(is_pow2(p@)) by {
            assert(pow2(k) == p@);
        }
        p
    }

    /// Whether `self` is `2^k` for some `k >= 0`.
    pub fn is_power_of_two(&self) -> (r: bool)
        ensures
            r == is_pow2(self@),
    {
        if !Int::zero().lt(self) {
            proof {
                if is_pow2(self@) {
                    let j = choose|j: nat| pow2(j) == self@;
                    lemma_pow2_pos(j);
                }
            }
            return false;
        }
        let p = self.next_power_of_two();
        let r = p.eq(self);
        proof {
            if is_pow2(self@) {
                let j = choose|j: nat| pow2(j) == self@;
                let k = choose|k: nat| pow2(k) == p@;
                if k > j {
                    lemma_pow2_unfold(k);
                    if (k - 1) as nat > j {
                        lemma_pow2_strictly_increases(j, (k - 1) as nat);
                    }
                } else if k < j {
                    lemma_pow2_strictly_increases(k, j);
                }
            }
        }
        r
    }

    /// The number of trailing zero bits, `None` for zero.
    pub fn trailing_zeros(&self) -> (r: Option<Int>)
        ensures
            r is None <==> self@ == 0,
            r matches Some(k) ==> k@ >= 0 && has_trailing_zeros(self@, k@ as nat),
    {
        match big_trailing_zeros(&self.ext()) {
            Some(k) => Some(Int::from_i128(k as i128)),
            None => None,
        }
    }

    /// Decimal notation of the number.
    pub fn to_text(&self) -> (r: String)
        ensures
            r@ == decimal(self@),
    {
        big_to_string(&self.ext())
    }
}

proof fn lemma_floor_from_trunc(a: int, b: int)
    requires
        b != 0,
    ensures
        ({
            let q = trunc_div(a, b);
            let rem = a - b * q;
            let adjust = rem != 0 && ((rem < 0) != (b < 0));
            floor_div(a, b) == if adjust { q - 1 } else { q }
        }),
{
    let q = trunc_div(a, b);
    let rem = a - b * q;
    let adjust = rem != 0 && ((rem < 0) != (b < 0));
    let fq = if adjust { q - 1 } else { q };
    let aa = abs_int(a);
    let ab = abs_int(b);
    let m = aa / ab;
    assert(aa == ab * m + aa % ab) by (nonlinear_arith)
        requires ab > 0, m == aa / ab;
    assert(0 <= aa % ab < ab);
    if b > 0 {
        assert(a == b * fq + (a - b * fq));
        assert(0 <= a - b * fq < b) by (nonlinear_arith)
            requires
                b > 0, ab == b, aa == abs_int(a), m == aa / ab,
                aa == ab * m + aa % ab, 0 <= aa % ab < ab,
                q == (if (a < 0) != (b < 0) { -m } else { m }),
                rem == a - b * q,
                fq == (if rem != 0 && ((rem < 0) != (b < 0)) { q - 1 } else { q });
        lemma_fundamental_div_mod_converse(a, b, fq, a - b * fq);
    } else {
        let na = -a;
        let nb = -b;
        assert(0 <= na - nb * fq < nb) by (nonlinear_arith)
            requires
                b < 0, nb == -b, na == -a, ab == nb, aa == abs_int(a), m == aa / ab,
                aa == ab * m + aa % ab, 0 <= aa % ab < ab,
                q == (if (a < 0) != (b < 0) { -m } else { m }),
                rem == a - b * q,
                fq == (if rem != 0 && ((rem < 0) != (b < 0)) { q - 1 } else { q });
        lemma_fundamental_div_mod_converse(na, nb, fq, na - nb * fq);
    }
}

/// The absolute value is never negative, and leaves non-negative numbers alone.
pub proof fn law_abs_nonnegative(x: int)
    ensures
        abs_int(x) >= 0,
        x >= 0 ==> abs_int(x) == x,
{
}

/// For a nonzero base, raising to `n` multiplies the power `n - 1` by the base once more.
pub proof fn law_pow_step(x: int, n: int)
    requires
        x != 0,
        n >= 1,
    ensures
        pow(x, n as nat) == pow(x, (n - 1) as nat) * x,
{
    lemma_pow_adds(x, (n - 1) as nat, 1);
    lemma_pow1(x);
}

} // verus!
