//! The 128-bit prime field of the trace.
//!
//! An element is held as its canonical representative, an integer in
//! `[0, MODULUS)`. Contracts speak of an element through its view, that
//! integer, and of the operations through `field_add`, `field_sub` and
//! `field_mul`.

use vstd::arithmetic::div_mod::{
    lemma_add_mod_noop, lemma_fundamental_div_mod, lemma_mod_multiples_vanish, lemma_mul_mod_noop,
    lemma_small_mod,
};
use vstd::prelude::*;

verus! {

/// The field modulus, `2^128 - 45 * 2^40 + 1`.
pub const MODULUS: u128 = 340282366920938463463374557953744961537;

/// Sum of two integers in the field.
pub open spec fn field_add(a: int, b: int) -> int {
    (a + b) % (MODULUS as int)
}

/// Difference of two integers in the field.
pub open spec fn field_sub(a: int, b: int) -> int {
    (a - b) % (MODULUS as int)
}

/// Product of two integers in the field.
pub open spec fn field_mul(a: int, b: int) -> int {
    (a * b) % (MODULUS as int)
}

/// Bytes in the encoding of one element.
pub const ELEMENT_BYTES: usize = 16;

/// The first `n` bytes of `x` in little-endian order: the lowest byte of `x`, then the bytes of
/// the rest.
pub open spec fn le_bytes(x: int, n: nat) -> Seq<u8>
    decreases n,
{
    if n == 0 {
        Seq::empty()
    } else {
        seq![(x % 256) as u8] + le_bytes(x / 256, (n - 1) as nat)
    }
}

/// Whether an integer is the canonical representative of a field element.
pub open spec fn is_canonical(a: int) -> bool {
    0 <= a < MODULUS as int
}

/// The integers that a sequence of field elements stands for.
pub open spec fn values_of(cells: Seq<BaseElement>) -> Seq<int> {
    Seq::new(cells.len(), |i: int| cells[i]@)
}

/// An element of the prime field of order `MODULUS`.
#[derive(Clone, Copy, Debug, PartialEq, Eq, Structural)]
pub struct BaseElement {
    value: u128,
}

impl View for BaseElement {
    type V = int;

    closed spec fn view(&self) -> int {
        self.value as int
    }
}

impl BaseElement {
    #[verifier::type_invariant]
    spec fn reduced(self) -> bool {
        self.value < MODULUS
    }

    /// Two elements that stand for the same integer are the same element.
    pub proof fn lemma_view_injective(a: Self, b: Self)
        requires
            a@ == b@,
        ensures
            a == b,
    {
    }

    /// The additive identity.
    pub fn zero() -> (r: Self)
        ensures
            r@ == 0,
    {
        BaseElement { value: 0 }
    }

    /// The multiplicative identity.
    pub fn one() -> (r: Self)
        ensures
            r@ == 1,
    {
        BaseElement { value: 1 }
    }

    /// The element with the canonical representative `value`; `None` where `value` is at or above
    /// the modulus, which is not reduced.
    pub fn new(value: u128) -> (r: Option<Self>)
        ensures
            match r {
                Some(element) => value < MODULUS && element@ == value,
                None => value >= MODULUS,
            },
    {
        if value < MODULUS {
            Some(BaseElement { value })
        } else {
            None
        }
    }

    /// The element that a 64-bit integer stands for: the integer itself.
    pub fn from_u64(value: u64) -> (r: Self)
        ensures
            r@ == value as int,
    {
        BaseElement { value: value as u128 }
    }

    /// The canonical representative.
    pub fn as_int(&self) -> (r: u128)
        ensures
            r as int == self@,
            r < MODULUS,
    {
        proof {
            use_type_invariant(self);
        }
        self.value
    }

    /// Appends the encoding of the element to `target`: the canonical representative in
    /// `ELEMENT_BYTES` bytes, lowest byte first.
    pub fn write_into(&self, target: &mut Vec<u8>)
        ensures
            final(target)@ == old(target)@ + le_bytes(self@, ELEMENT_BYTES as nat),
    {
        let mut rest: u128 = self.value;
        let mut i: usize = 0;
        assert(target@ + le_bytes(rest as int, (ELEMENT_BYTES - i) as nat) == old(target)@
            + le_bytes(self@, ELEMENT_BYTES as nat));
        while i < ELEMENT_BYTES
            invariant
                i <= ELEMENT_BYTES,
                target@ + le_bytes(rest as int, (ELEMENT_BYTES - i) as nat) == old(target)@
                    + le_bytes(self@, ELEMENT_BYTES as nat),
            decreases ELEMENT_BYTES - i,
        {
            let ghost before: Seq<u8> = target@;
            let low: u8 = (rest % 256) as u8;
            target.push(low);
            proof {
                let k: nat = (ELEMENT_BYTES - i) as nat;
                assert(le_bytes(rest as int, k) == seq![low] + le_bytes(
                    rest as int / 256,
                    (k - 1) as nat,
                ));
                assert(target@ + le_bytes(rest as int / 256, (k - 1) as nat) =~= before
                    + le_bytes(rest as int, k));
            }
            rest = rest / 256;
            i += 1;
        }
        assert(le_bytes(rest as int, 0) =~= Seq::<u8>::empty());
        assert(target@ + Seq::<u8>::empty() =~= target@);
    }

    /// Whether `self` is above `other`, both read as integers in `[0, MODULUS)`.
    pub fn is_greater(&self, other: &Self) -> (r: bool)
        ensures
            r == (self@ > other@),
    {
        self.value > other.value
    }

    /// Sum in the field.
    pub fn add(self, rhs: Self) -> (r: Self)
        ensures
            r@ == field_add(self@, rhs@),
    {
        proof {
            use_type_invariant(self);
            use_type_invariant(rhs);
        }
        BaseElement { value: add_reduced(self.value, rhs.value) }
    }

    /// Difference in the field.
    pub fn sub(self, rhs: Self) -> (r: Self)
        ensures
            r@ == field_sub(self@, rhs@),
    {
        proof {
            use_type_invariant(self);
            use_type_invariant(rhs);
        }
        let a: u128 = self.value;
        let b: u128 = rhs.value;
        if a < b {
            let d: u128 = MODULUS - b + a;
            proof {
                lemma_small_mod(d as nat, MODULUS as nat);
                lemma_mod_multiples_vanish(1, a - b, MODULUS as int);
            }
            BaseElement { value: d }
        } else {
            let d: u128 = a - b;
            proof {
                lemma_small_mod(d as nat, MODULUS as nat);
            }
            BaseElement { value: d }
        }
    }

    /// Product in the field, by doubling and adding along the bits of `rhs`.
    pub fn mul(self, rhs: Self) -> (r: Self)
        ensures
            r@ == field_mul(self@, rhs@),
    {
        proof {
            use_type_invariant(self);
            use_type_invariant(rhs);
        }
        let mut acc: u128 = 0;
        let mut term: u128 = self.value;
        let mut rest: u128 = rhs.value;
        proof {
            lemma_small_mod(0, MODULUS as nat);
        }
        while rest > 0
            invariant
                acc < MODULUS,
                term < MODULUS,
                (acc + term * rest) % (MODULUS as int) == field_mul(self@, rhs@),
            decreases rest,
        {
            let ghost acc0: int = acc as int;
            let ghost term0: int = term as int;
            let ghost rest0: int = rest as int;
            let bit: u128 = rest % 2;
            if bit == 1 {
                acc = add_reduced(acc, term);
            }
            term = add_reduced(term, term);
            rest = rest / 2;
            proof {
                lemma_halving_step(acc0, term0, rest0, acc as int, term as int, rest as int);
            }
        }
        proof {
            assert(term * rest == 0) by (nonlinear_arith)
                requires
                    rest == 0,
            ;
            lemma_small_mod(acc as nat, MODULUS as nat);
        }
        BaseElement { value: acc }
    }
}

/// Sum of two canonical representatives, reduced, without leaving 128 bits.
fn add_reduced(a: u128, b: u128) -> (r: u128)
    requires
        a < MODULUS,
        b < MODULUS,
    ensures
        r < MODULUS,
        r as int == field_add(a as int, b as int),
{
    let gap: u128 = MODULUS - b;
    if a < gap {
        let s: u128 = a + b;
        proof {
            lemma_small_mod(s as nat, MODULUS as nat);
        }
        s
    } else {
        let s: u128 = a - gap;
        proof {
            lemma_small_mod(s as nat, MODULUS as nat);
            lemma_mod_multiples_vanish(-1, a + b, MODULUS as int);
        }
        s
    }
}

/// One step of multiplication by halving keeps `acc + term * rest` in its residue class.
proof fn lemma_halving_step(acc0: int, term0: int, rest0: int, acc1: int, term1: int, rest1: int)
    requires
        rest0 > 0,
        rest1 == rest0 / 2,
        term1 == field_add(term0, term0),
        acc1 == if rest0 % 2 == 1 {
            field_add(acc0, term0)
        } else {
            acc0
        },
    ensures
        (acc1 + term1 * rest1) % (MODULUS as int) == (acc0 + term0 * rest0) % (MODULUS as int),
{
    let m: int = MODULUS as int;
    let bit: int = rest0 % 2;
    lemma_fundamental_div_mod(rest0, 2);
    assert(rest0 == 2 * rest1 + bit);
    // the sum before reduction
    let raw: int = (acc0 + bit * term0) + (term0 + term0) * rest1;
    assert(raw == acc0 + term0 * rest0) by (nonlinear_arith)
        requires
            raw == (acc0 + bit * term0) + (term0 + term0) * rest1,
            rest0 == 2 * rest1 + bit,
    ;
    assert(acc1 % m == (acc0 + bit * term0) % m) by {
        if bit == 1 {
            assert(bit * term0 == term0) by (nonlinear_arith)
                requires
                    bit == 1,
            ;
            lemma_mod_twice_of(acc0 + term0);
        } else {
            assert(bit == 0);
            assert(bit * term0 == 0) by (nonlinear_arith)
                requires
                    bit == 0,
            ;
        }
    }
    assert((term1 * rest1) % m == ((term0 + term0) * rest1) % m) by {
        lemma_mul_mod_noop(term0 + term0, rest1, m);
        lemma_mul_mod_noop(term1, rest1, m);
        lemma_mod_twice_of(term0 + term0);
    }
    lemma_add_mod_noop(acc1, term1 * rest1, m);
    lemma_add_mod_noop(acc0 + bit * term0, (term0 + term0) * rest1, m);
}

/// Reducing twice is reducing once.
proof fn lemma_mod_twice_of(x: int)
    ensures
        (x % (MODULUS as int)) % (MODULUS as int) == x % (MODULUS as int),
{
    vstd::arithmetic::div_mod::lemma_mod_twice(x, MODULUS as int);
}

} // verus!
