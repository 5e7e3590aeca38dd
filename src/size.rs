//! Byte sizes and alignments.
use vstd::prelude::*;
use vstd::arithmetic::power2::pow2;
use crate::integer::{Int, is_pow2};

verus! {

/// A non-negative number of bytes.
#[derive(Debug)]
pub struct Size {
    raw: Int,
}

impl View for Size {
    type V = int;

    closed spec fn view(&self) -> int {
        self.raw@
    }
}

impl Size {
    #[verifier::type_invariant]
    spec fn inv(&self) -> bool {
        self.raw@ >= 0
    }

    pub fn zero() -> (r: Size)
        ensures
            r@ == 0,
    {
        Size { raw: Int::zero() }
    }

    /// The size that holds `bits` bits, rounded up to whole bytes.
    pub fn from_bits(bits: Int) -> (r: Size)
        requires
            bits@ >= 0,
        ensures
            r@ == (bits@ + 7) / 8,
    {
        let raw = bits.add(&Int::from_i128(7)).div_floor(&Int::from_i128(8));
        Size { raw }
    }

    pub fn from_bits_const(bits: u64) -> (r: Size)
        ensures
            r@ == (bits as int + 7) / 8,
    {
        Size::from_bits(Int::from_i128(bits as i128))
    }

    pub fn from_bytes(bytes: Int) -> (r: Size)
        requires
            bytes@ >= 0,
        ensures
            r@ == bytes@,
    {
        Size { raw: bytes }
    }

    pub fn from_bytes_const(bytes: u64) -> (r: Size)
        ensures
            r@ == bytes as int,
    {
        Size { raw: Int::from_i128(bytes as i128) }
    }

    pub fn bytes(&self) -> (r: Int)
        ensures
            r@ == self@,
            r@ >= 0,
    {
        proof {
            use_type_invariant(self);
        }
        self.raw.copied()
    }

    pub fn bits(&self) -> (r: Int)
        ensures
            r@ == self@ * 8,
    {
        self.raw.mul(&Int::from_i128(8))
    }

    pub fn is_zero(&self) -> (r: bool)
        ensures
            r == (self@ == 0),
    {
        self.raw.eq(&Int::zero())
    }

    pub fn copied(&self) -> (r: Size)
        ensures
            r@ == self@,
    {
        Size { raw: self.bytes() }
    }

    pub fn add(&self, o: &Size) -> (r: Size)
        ensures
            r@ == self@ + o@,
    {
        Size::from_bytes(self.bytes().add(&o.bytes()))
    }

    /// The size times `n`; the product must not be negative.
    pub fn mul(&self, n: &Int) -> (r: Size)
        requires
            self@ == 0 || n@ >= 0,
        ensures
            r@ == self@ * n@,
    {
        let b = self.bytes();
        proof {
            if n@ >= 0 {
                vstd::arithmetic::mul::lemma_mul_nonnegative(b@, n@);
            } else {
                assert(b@ * n@ == 0) by (nonlinear_arith)
                    requires b@ == 0;
            }
        }
        Size::from_bytes(b.mul(n))
    }
}

impl Clone for Size {
    fn clone(&self) -> (r: Size)
        ensures
            r@ == self@,
    {
        self.copied()
    }
}

impl Clone for Align {
    fn clone(&self) -> (r: Align)
        ensures
            r@ == self@,
    {
        self.copied()
    }
}

/// An alignment: a power of two, in bytes.
#[derive(Debug)]
pub struct Align {
    raw: Int,
}

impl View for Align {
    type V = int;

    closed spec fn view(&self) -> int {
        self.raw@
    }
}

impl Align {
    #[verifier::type_invariant]
    spec fn inv(&self) -> bool {
        is_pow2(self.raw@)
    }

    pub fn one() -> (r: Align)
        ensures
            r@ == 1,
    {
        proof {
            vstd::arithmetic::power::lemma_pow0(2);
            assert(pow2(0) == 1);
        }
        Align { raw: Int::one() }
    }

    /// The alignment of `bytes` bytes; `None` unless `bytes` is a power of two.
    pub fn from_bytes(bytes: Int) -> (r: Option<Align>)
        ensures
            r is Some <==> is_pow2(bytes@),
            r matches Some(a) ==> a@ == bytes@,
    {
        if bytes.is_power_of_two() {
            Some(Align { raw: bytes })
        } else {
            None
        }
    }

    pub fn bytes(&self) -> (r: Int)
        ensures
            r@ == self@,
            is_pow2(r@),
            r@ >= 1,
    {
        proof {
            use_type_invariant(self);
            let k = choose|k: nat| pow2(k) == self@;
            vstd::arithmetic::power2::lemma_pow2_pos(k);
        }
        self.raw.copied()
    }

    pub fn copied(&self) -> (r: Align)
        ensures
            r@ == self@,
    {
        Align { raw: self.bytes() }
    }
}

} // verus!
