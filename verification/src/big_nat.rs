//! Arbitrary-precision natural numbers.
//!
//! Balances and transferred amounts have no upper bound, so they cannot be
//! held in a machine integer. A [`BigNat`] keeps the base-256 digits of a
//! natural number and its view is that number as a `nat`.

use vstd::prelude::*;

verus! {

/// `256` to the power `n`.
pub open spec fn pow256(n: nat) -> nat
    decreases n,
{
    if n == 0 {
        1
    } else {
        256 * pow256((n - 1) as nat)
    }
}

/// The number whose base-256 digits are `s`, least significant digit first.
pub open spec fn le_value(s: Seq<u8>) -> nat
    decreases s.len(),
{
    if s.len() == 0 {
        0
    } else {
        s[0] as nat + 256 * le_value(s.skip(1))
    }
}

/// The number whose base-256 digits are `s`, most significant digit first.
pub open spec fn be_value(s: Seq<u8>) -> nat
    decreases s.len(),
{
    if s.len() == 0 {
        0
    } else {
        256 * be_value(s.drop_last()) + s.last() as nat
    }
}

/// The digit of weight `256^i` in `s`, which is zero beyond the end of `s`.
pub open spec fn digit_at(s: Seq<u8>, i: int) -> nat {
    if 0 <= i < s.len() {
        s[i] as nat
    } else {
        0
    }
}

/// The number made of the `i` least significant digits of `s`.
pub open spec fn prefix_value(s: Seq<u8>, i: int) -> nat {
    if i < s.len() {
        le_value(s.take(i))
    } else {
        le_value(s)
    }
}

/// Appending a digit adds that digit times the weight of its position.
pub proof fn lemma_le_value_push(s: Seq<u8>, d: u8)
    ensures
        le_value(s.push(d)) == le_value(s) + d as nat * pow256(s.len()),
    decreases s.len(),
{
    let sd = s.push(d);
    if s.len() == 0 {
        assert(sd.skip(1) =~= Seq::<u8>::empty());
        assert(le_value(sd) == sd[0] as nat + 256 * le_value(sd.skip(1)));
        assert(le_value(sd.skip(1)) == 0);
        assert(pow256(0) == 1);
        assert(d as nat * pow256(0) == d as nat) by (nonlinear_arith)
            requires
                pow256(0) == 1,
        ;
    } else {
        let t = s.skip(1);
        assert(sd.skip(1) =~= t.push(d));
        lemma_le_value_push(t, d);
        let p = pow256(t.len());
        let v = le_value(t);
        assert(pow256(s.len()) == 256 * p);
        assert(le_value(sd) == sd[0] as nat + 256 * le_value(sd.skip(1)));
        assert(le_value(s) == s[0] as nat + 256 * v);
        assert(s[0] as nat + 256 * (v + d as nat * p) == (s[0] as nat + 256 * v) + d as nat * (256
            * p)) by (nonlinear_arith);
    }
}

/// A number of `n` digits is below `256^n`.
pub proof fn lemma_le_value_bound(s: Seq<u8>)
    ensures
        le_value(s) < pow256(s.len()),
    decreases s.len(),
{
    if s.len() > 0 {
        lemma_le_value_bound(s.skip(1));
    }
}

/// Dropping low digits does not make a number larger.
pub proof fn lemma_le_value_suffix(s: Seq<u8>, j: int)
    requires
        0 <= j <= s.len(),
    ensures
        le_value(s.skip(j)) <= le_value(s),
    decreases j,
{
    if j == 0 {
        assert(s.skip(0) =~= s);
    } else {
        lemma_le_value_suffix(s, j - 1);
        let t = s.skip(j - 1);
        assert(t.skip(1) =~= s.skip(j));
    }
}

/// A number whose most significant digit is not zero is not zero.
pub proof fn lemma_le_value_positive(s: Seq<u8>)
    requires
        s.len() > 0,
        s.last() != 0,
    ensures
        le_value(s) > 0,
    decreases s.len(),
{
    if s.len() > 1 {
        let t = s.skip(1);
        assert(t.last() == s.last());
        lemma_le_value_positive(t);
    }
}

/// One more digit of a prefix adds that digit times its weight.
pub proof fn lemma_prefix_step(s: Seq<u8>, i: int)
    requires
        0 <= i,
    ensures
        prefix_value(s, i + 1) == prefix_value(s, i) + digit_at(s, i) * pow256(i as nat),
{
    if i < s.len() {
        assert(s.take(i + 1) =~= s.take(i).push(s[i]));
        lemma_le_value_push(s.take(i), s[i]);
        if i + 1 == s.len() {
            assert(s.take(i + 1) =~= s);
        }
    } else {
        assert(digit_at(s, i) * pow256(i as nat) == 0) by (nonlinear_arith)
            requires
                digit_at(s, i) == 0,
        ;
    }
}

/// Reading the digits in the other order gives the same number.
pub proof fn lemma_be_value_reverse(s: Seq<u8>)
    ensures
        be_value(s.reverse()) == le_value(s),
    decreases s.len(),
{
    if s.len() > 0 {
        let r = s.reverse();
        assert(r.drop_last() =~= s.skip(1).reverse());
        assert(r.last() == s[0]);
        lemma_be_value_reverse(s.skip(1));
    }
}

/// Removes the zero digits at the most significant end.
fn normalize(digits: Vec<u8>) -> (r: Vec<u8>)
    ensures
        le_value(r@) == le_value(digits@),
        r@.len() > 0 ==> r@.last() != 0,
{
    let mut r = digits;
    while r.len() > 0 && r[r.len() - 1] == 0
        invariant
            le_value(r@) == le_value(digits@),
        decreases r.len(),
    {
        proof {
            let t = r@.drop_last();
            assert(t.push(0u8) =~= r@);
            lemma_le_value_push(t, 0u8);
        }
        r.pop();
    }
    r
}

/// Copies `digits` in the opposite order.
fn reversed(digits: &[u8]) -> (r: Vec<u8>)
    ensures
        r@ == digits@.reverse(),
{
    let n = digits.len();
    let mut r: Vec<u8> = Vec::new();
    let mut i: usize = 0;
    while i < n
        invariant
            n == digits@.len(),
            i <= n,
            r@.len() == i,
            forall|j: int| 0 <= j < i ==> r@[j] == digits@[n - 1 - j],
        decreases n - i,
    {
        r.push(digits[n - 1 - i]);
        i = i + 1;
    }
    assert(r@ =~= digits@.reverse());
    r
}

/// A natural number of any size.
#[derive(Debug)]
pub struct BigNat {
    /// Base-256 digits, least significant first, the last one not zero.
    digits: Vec<u8>,
}

impl View for BigNat {
    type V = nat;

    closed spec fn view(&self) -> nat {
        le_value(self.digits@)
    }
}

impl Clone for BigNat {
    fn clone(&self) -> (r: Self)
        ensures
            r@ == self@,
    {
        proof {
            use_type_invariant(self);
        }
        BigNat { digits: self.digits.clone() }
    }
}

impl BigNat {
    #[verifier::type_invariant]
    spec fn canonical(self) -> bool {
        self.digits@.len() > 0 ==> self.digits@.last() != 0
    }

    /// The number zero.
    pub fn zero() -> (r: BigNat)
        ensures
            r@ == 0,
    {
        BigNat { digits: Vec::new() }
    }

    /// The number `x`.
    pub fn from_u64(x: u64) -> (r: BigNat)
        ensures
            r@ == x,
    {
        let mut digits: Vec<u8> = Vec::new();
        let mut rest: u64 = x;
        proof {
            assert(rest * pow256(0) == x) by (nonlinear_arith)
                requires
                    rest == x,
                    pow256(0) == 1,
            ;
        }
        while rest > 0
            invariant
                le_value(digits@) + rest * pow256(digits@.len()) == x,
            decreases rest,
        {
            let d: u8 = (rest % 256) as u8;
            proof {
                lemma_le_value_push(digits@, d);
                let p = pow256(digits@.len());
                assert(pow256((digits@.len() + 1) as nat) == 256 * p);
                assert(d as nat * p + (rest / 256) * (256 * p) == rest * p) by (nonlinear_arith)
                    requires
                        d as nat == rest % 256,
                ;
            }
            digits.push(d);
            rest = rest / 256;
        }
        assert(rest * pow256(digits@.len()) == 0) by (nonlinear_arith)
            requires
                rest == 0,
        ;
        BigNat { digits: normalize(digits) }
    }

    /// The number as a machine integer, where it fits in one.
    pub fn to_u64(&self) -> (r: Option<u64>)
        ensures
            match r {
                Some(x) => x == self@,
                None => self@ > u64::MAX,
            },
    {
        let n = self.digits.len();
        let mut acc: u64 = 0;
        let mut i: usize = n;
        proof {
            assert(self.digits@.skip(n as int) =~= Seq::<u8>::empty());
        }
        while i > 0
            invariant
                n == self.digits@.len(),
                i <= n,
                acc == le_value(self.digits@.skip(i as int)),
            decreases i,
        {
            let d = self.digits[i - 1];
            proof {
                let t = self.digits@.skip(i - 1);
                assert(t.skip(1) =~= self.digits@.skip(i as int));
                assert(le_value(t) == d as nat + 256 * acc);
                lemma_le_value_suffix(self.digits@, i - 1);
            }
            if acc > (u64::MAX - d as u64) / 256 {
                return None;
            }
            acc = acc * 256 + d as u64;
            i = i - 1;
        }
        proof {
            assert(self.digits@.skip(0) =~= self.digits@);
        }
        Some(acc)
    }

    /// Tells whether the number is zero.
    pub fn is_zero(&self) -> (r: bool)
        ensures
            r == (self@ == 0),
    {
        proof {
            use_type_invariant(self);
            if self.digits@.len() > 0 {
                lemma_le_value_positive(self.digits@);
            }
        }
        self.digits.len() == 0
    }

    /// The sum of the two numbers.
    pub fn add(&self, other: &BigNat) -> (r: BigNat)
        ensures
            r@ == self@ + other@,
    {
        let la = self.digits.len();
        let lb = other.digits.len();
        let n = if la < lb {
            lb
        } else {
            la
        };
        let mut digits: Vec<u8> = Vec::new();
        let mut carry: u16 = 0;
        let mut i: usize = 0;
        proof {
            assert(self.digits@.take(0) =~= Seq::<u8>::empty());
            assert(other.digits@.take(0) =~= Seq::<u8>::empty());
            assert(carry * pow256(0) == 0) by (nonlinear_arith)
                requires
                    carry == 0,
            ;
        }
        while i < n
            invariant
                la == self.digits@.len(),
                lb == other.digits@.len(),
                la <= n,
                lb <= n,
                i <= n,
                digits@.len() == i,
                carry <= 1,
                le_value(digits@) + carry * pow256(i as nat) == prefix_value(self.digits@, i as int)
                    + prefix_value(other.digits@, i as int),
            decreases n - i,
        {
            let da: u16 = if i < la {
                self.digits[i] as u16
            } else {
                0
            };
            let db: u16 = if i < lb {
                other.digits[i] as u16
            } else {
                0
            };
            let s: u16 = da + db + carry;
            let d: u8 = (s % 256) as u8;
            let c: u16 = s / 256;
            proof {
                lemma_prefix_step(self.digits@, i as int);
                lemma_prefix_step(other.digits@, i as int);
                lemma_le_value_push(digits@, d);
                let p = pow256(i as nat);
                assert(pow256((i + 1) as nat) == 256 * p);
                assert(da == digit_at(self.digits@, i as int));
                assert(db == digit_at(other.digits@, i as int));
                assert(d as nat * p + c * (256 * p) == da * p + db * p + carry * p)
                    by (nonlinear_arith)
                    requires
                        d as nat + 256 * c == da + db + carry,
                ;
            }
            digits.push(d);
            carry = c;
            i = i + 1;
        }
        if carry > 0 {
            proof {
                lemma_le_value_push(digits@, carry as u8);
            }
            digits.push(carry as u8);
        } else {
            assert(carry * pow256(i as nat) == 0) by (nonlinear_arith)
                requires
                    carry == 0,
            ;
        }
        BigNat { digits: normalize(digits) }
    }

    /// The difference of the two numbers, where `other` is not the larger.
    pub fn checked_sub(&self, other: &BigNat) -> (r: Option<BigNat>)
        ensures
            match r {
                Some(d) => self@ >= other@ && d@ == self@ - other@,
                None => self@ < other@,
            },
    {
        let la = self.digits.len();
        let lb = other.digits.len();
        let n = if la < lb {
            lb
        } else {
            la
        };
        let mut digits: Vec<u8> = Vec::new();
        let mut borrow: u16 = 0;
        let mut i: usize = 0;
        proof {
            assert(self.digits@.take(0) =~= Seq::<u8>::empty());
            assert(other.digits@.take(0) =~= Seq::<u8>::empty());
            assert(borrow * pow256(0) == 0) by (nonlinear_arith)
                requires
                    borrow == 0,
            ;
        }
        while i < n
            invariant
                la == self.digits@.len(),
                lb == other.digits@.len(),
                la <= n,
                lb <= n,
                i <= n,
                digits@.len() == i,
                borrow <= 1,
                le_value(digits@) + prefix_value(other.digits@, i as int) == prefix_value(
                    self.digits@,
                    i as int,
                ) + borrow * pow256(i as nat),
            decreases n - i,
        {
            let da: u16 = if i < la {
                self.digits[i] as u16
            } else {
                0
            };
            let db: u16 = if i < lb {
                other.digits[i] as u16
            } else {
                0
            };
            let t: u16 = da + 256 - db - borrow;
            let d: u8 = (t % 256) as u8;
            let b: u16 = 1 - t / 256;
            proof {
                lemma_prefix_step(self.digits@, i as int);
                lemma_prefix_step(other.digits@, i as int);
                lemma_le_value_push(digits@, d);
                let p = pow256(i as nat);
                assert(pow256((i + 1) as nat) == 256 * p);
                assert(da == digit_at(self.digits@, i as int));
                assert(db == digit_at(other.digits@, i as int));
                assert(d as nat * p + db * p + borrow * p == da * p + b * (256 * p))
                    by (nonlinear_arith)
                    requires
                        d as nat + db + borrow == da + 256 * b,
                ;
            }
            digits.push(d);
            borrow = b;
            i = i + 1;
        }
        proof {
            lemma_le_value_bound(digits@);
        }
        if borrow > 0 {
            assert(borrow * pow256(i as nat) == pow256(i as nat)) by (nonlinear_arith)
                requires
                    borrow == 1,
            ;
            None
        } else {
            assert(borrow * pow256(i as nat) == 0) by (nonlinear_arith)
                requires
                    borrow == 0,
            ;
            Some(BigNat { digits: normalize(digits) })
        }
    }

    /// Tells whether the two numbers are the same.
    pub fn equals(&self, other: &BigNat) -> (r: bool)
        ensures
            r == (self@ == other@),
    {
        match self.checked_sub(other) {
            Some(d) => d.is_zero(),
            None => false,
        }
    }

    /// Tells whether the number is smaller than `other`.
    pub fn less_than(&self, other: &BigNat) -> (r: bool)
        ensures
            r == (self@ < other@),
    {
        self.checked_sub(other).is_none()
    }

    /// The shortest big-endian byte string of the number; empty for zero.
    pub fn to_bytes_be(&self) -> (r: Vec<u8>)
        ensures
            be_value(r@) == self@,
            r@.len() > 0 ==> r@[0] != 0,
    {
        proof {
            use_type_invariant(self);
            lemma_be_value_reverse(self.digits@);
        }
        reversed(self.digits.as_slice())
    }

    /// The number that `bytes` holds in big-endian order.
    pub fn from_bytes_be(bytes: &[u8]) -> (r: BigNat)
        ensures
            r@ == be_value(bytes@),
    {
        let digits = reversed(bytes);
        proof {
            lemma_be_value_reverse(digits@);
            assert(digits@.reverse() =~= bytes@);
        }
        BigNat { digits: normalize(digits) }
    }
}

} // verus!
