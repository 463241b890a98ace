//! Natural numbers of unbounded size, held as little-endian 32-bit limbs.

use vstd::prelude::*;

verus! {

/// The weight of one limb position relative to the one below it.
pub open spec fn radix() -> nat {
    0x1_0000_0000
}

/// `radix()` raised to the power `n`.
pub open spec fn radix_pow(n: nat) -> nat
    decreases n,
{
    if n == 0 {
        1
    } else {
        radix() * radix_pow((n - 1) as nat)
    }
}

/// The limb at position `i`, reading positions past the end as zero.
pub open spec fn limb_at(limbs: Seq<u32>, i: int) -> nat {
    if 0 <= i < limbs.len() {
        limbs[i] as nat
    } else {
        0
    }
}

/// The number denoted by the lowest `n` limb positions.
pub open spec fn value_below(limbs: Seq<u32>, n: nat) -> nat
    decreases n,
{
    if n == 0 {
        0
    } else {
        value_below(limbs, (n - 1) as nat) + limb_at(limbs, n - 1) * radix_pow((n - 1) as nat)
    }
}

/// The number denoted by a whole limb sequence.
pub open spec fn limbs_value(limbs: Seq<u32>) -> nat {
    value_below(limbs, limbs.len())
}

pub proof fn lemma_radix_pow_positive(n: nat)
    ensures
        radix_pow(n) > 0,
    decreases n,
{
    if n > 0 {
        lemma_radix_pow_positive((n - 1) as nat);
        assert(radix() * radix_pow((n - 1) as nat) > 0) by (nonlinear_arith)
            requires
                radix() > 0,
                radix_pow((n - 1) as nat) > 0,
        ;
    }
}

/// Sequences that agree on the lowest `n` positions denote the same number there.
pub proof fn lemma_value_below_agree(a: Seq<u32>, b: Seq<u32>, n: nat)
    requires
        forall|k: int| 0 <= k < n ==> limb_at(a, k) == limb_at(b, k),
    ensures
        value_below(a, n) == value_below(b, n),
    decreases n,
{
    if n > 0 {
        lemma_value_below_agree(a, b, (n - 1) as nat);
    }
}

/// Positions past the end add nothing.
pub proof fn lemma_value_below_past_end(limbs: Seq<u32>, n: nat)
    requires
        n >= limbs.len(),
    ensures
        value_below(limbs, n) == limbs_value(limbs),
    decreases n,
{
    if n > limbs.len() {
        lemma_value_below_past_end(limbs, (n - 1) as nat);
        assert(limb_at(limbs, n - 1) * radix_pow((n - 1) as nat) == 0) by (nonlinear_arith)
            requires
                limb_at(limbs, n - 1) == 0,
        ;
    }
}

/// The lowest `n` positions denote a number below `radix_pow(n)`.
pub proof fn lemma_value_below_bound(limbs: Seq<u32>, n: nat)
    ensures
        value_below(limbs, n) < radix_pow(n),
    decreases n,
{
    if n > 0 {
        lemma_value_below_bound(limbs, (n - 1) as nat);
        let low = value_below(limbs, (n - 1) as nat);
        let weight = radix_pow((n - 1) as nat);
        let limb = limb_at(limbs, n - 1);
        assert(low + limb * weight < radix() * weight) by (nonlinear_arith)
            requires
                low < weight,
                limb < radix(),
        ;
    }
}

/// Taking more positions never lowers the number.
pub proof fn lemma_value_below_monotone(limbs: Seq<u32>, i: nat, n: nat)
    requires
        i <= n,
    ensures
        value_below(limbs, i) <= value_below(limbs, n),
    decreases n,
{
    if n > i {
        lemma_value_below_monotone(limbs, i, (n - 1) as nat);
        lemma_radix_pow_positive((n - 1) as nat);
        assert(limb_at(limbs, n - 1) * radix_pow((n - 1) as nat) >= 0) by (nonlinear_arith)
            requires
                limb_at(limbs, n - 1) >= 0,
                radix_pow((n - 1) as nat) > 0,
        ;
    }
}

/// Appending a limb adds it at the weight of the old length.
pub proof fn lemma_limbs_value_push(limbs: Seq<u32>, limb: u32)
    ensures
        limbs_value(limbs.push(limb)) == limbs_value(limbs) + limb * radix_pow(limbs.len()),
{
    let longer = limbs.push(limb);
    assert(limb_at(longer, limbs.len() as int) == limb);
    assert forall|k: int| 0 <= k < limbs.len() implies limb_at(longer, k) == limb_at(limbs, k) by {}
    lemma_value_below_agree(longer, limbs, limbs.len());
}

/// Dropping a zero limb from the top keeps the number.
pub proof fn lemma_limbs_value_drop_zero(limbs: Seq<u32>)
    requires
        limbs.len() > 0,
        limbs.last() == 0,
    ensures
        limbs_value(limbs.drop_last()) == limbs_value(limbs),
{
    let shorter = limbs.drop_last();
    assert forall|k: int| 0 <= k < shorter.len() implies limb_at(shorter, k) == limb_at(limbs, k) by {}
    lemma_value_below_agree(shorter, limbs, shorter.len());
    assert(limb_at(limbs, limbs.len() - 1) * radix_pow((limbs.len() - 1) as nat) == 0)
        by (nonlinear_arith)
        requires
            limb_at(limbs, limbs.len() - 1) == 0,
    ;
}

/// Putting a zero limb below all others multiplies the number by the radix.
pub proof fn lemma_value_below_shift(limbs: Seq<u32>, n: nat)
    ensures
        value_below(seq![0u32] + limbs, n + 1) == radix() * value_below(limbs, n),
    decreases n,
{
    let shifted = seq![0u32] + limbs;
    if n == 0 {
        assert(value_below(shifted, 0) == 0);
        assert(limb_at(shifted, 0) == 0);
        assert(limb_at(shifted, 0) * radix_pow(0) == 0);
    } else {
        lemma_value_below_shift(limbs, (n - 1) as nat);
        assert(limb_at(shifted, n as int) == limb_at(limbs, n - 1));
        let limb = limb_at(limbs, n - 1);
        let low = value_below(limbs, (n - 1) as nat);
        let weight = radix_pow((n - 1) as nat);
        assert(radix() * low + limb * (radix() * weight) == radix() * (low + limb * weight))
            by (nonlinear_arith);
    }
}

/// If two sequences agree on every position from `i` up to `n`, the numbers
/// of their lowest `n` positions differ by what their lowest `i` differ by.
pub proof fn lemma_value_below_common_top(a: Seq<u32>, b: Seq<u32>, i: nat, n: nat)
    requires
        i <= n,
        forall|k: int| i <= k < n ==> limb_at(a, k) == limb_at(b, k),
    ensures
        value_below(a, n) - value_below(b, n) == value_below(a, i) - value_below(b, i),
    decreases n,
{
    if n > i {
        lemma_value_below_common_top(a, b, i, (n - 1) as nat);
    }
}

/// The result of comparing two numbers, or the sign of one.
#[derive(Clone, Copy, PartialEq, Eq, Debug, Structural)]
pub enum Sign {
    Negative,
    Zero,
    Positive,
}

/// The sign of an integer.
pub open spec fn sign_of(v: int) -> Sign {
    if v < 0 {
        Sign::Negative
    } else if v == 0 {
        Sign::Zero
    } else {
        Sign::Positive
    }
}

/// A natural number of unbounded size.
#[derive(Debug)]
pub struct Natural {
    limbs: Vec<u32>,
}

impl View for Natural {
    type V = nat;

    closed spec fn view(&self) -> nat {
        limbs_value(self.limbs@)
    }
}

impl Clone for Natural {
    fn clone(&self) -> (copy: Self)
        ensures
            copy@ == self@,
    {
        let copy = Natural { limbs: self.limbs.clone() };
        assert(copy.limbs@ =~= self.limbs@);
        copy
    }
}

impl Natural {
    /// The limbs of the number, lowest first.
    pub closed spec fn limbs_view(&self) -> Seq<u32> {
        self.limbs@
    }

    /// Zero.
    pub fn zero() -> (n: Natural)
        ensures
            n@ == 0,
    {
        Natural { limbs: Vec::new() }
    }

    /// The natural number equal to `v`.
    pub fn from_u64(v: u64) -> (n: Natural)
        ensures
            n@ == v,
    {
        let low: u32 = (v % 0x1_0000_0000) as u32;
        let high: u32 = (v / 0x1_0000_0000) as u32;
        let mut limbs: Vec<u32> = Vec::new();
        limbs.push(low);
        limbs.push(high);
        proof {
            let s = limbs@;
            assert(s =~= seq![low, high]);
            assert(radix_pow(0) == 1);
            assert(radix_pow(1) == radix() * radix_pow(0));
            assert(value_below(s, 0) == 0);
            assert(value_below(s, 1) == value_below(s, 0) + limb_at(s, 0) * radix_pow(0));
            assert(value_below(s, 2) == value_below(s, 1) + limb_at(s, 1) * radix_pow(1));
            assert(limbs_value(s) == low + high * radix());
        }
        Natural { limbs }
    }

    /// The limbs of the number, lowest first. Limbs of zero may stand at the top.
    pub fn limbs(&self) -> (limbs: &Vec<u32>)
        ensures
            limbs@ == self.limbs_view(),
            limbs_value(limbs@) == self@,
    {
        &self.limbs
    }

    /// The number that the given limbs denote, lowest first.
    pub fn from_limbs(limbs: Vec<u32>) -> (n: Natural)
        ensures
            n@ == limbs_value(limbs@),
            n.limbs_view() == limbs@,
    {
        Natural { limbs }
    }

    /// Whether the number is zero.
    pub fn is_zero(&self) -> (zero: bool)
        ensures
            zero == (self@ == 0),
    {
        let mut i: usize = 0;
        while i < self.limbs.len()
            invariant
                i <= self.limbs.len(),
                value_below(self.limbs@, i as nat) == 0,
            decreases self.limbs.len() - i,
        {
            if self.limbs[i] != 0 {
                proof {
                    let limb = limb_at(self.limbs@, i as int);
                    let weight = radix_pow(i as nat);
                    lemma_radix_pow_positive(i as nat);
                    assert(limb * weight > 0) by (nonlinear_arith)
                        requires
                            limb > 0,
                            weight > 0,
                    ;
                    lemma_value_below_monotone(self.limbs@, (i + 1) as nat, self.limbs@.len());
                }
                return false;
            }
            proof {
                assert(limb_at(self.limbs@, i as int) * radix_pow(i as nat) == 0) by (nonlinear_arith)
                    requires
                        limb_at(self.limbs@, i as int) == 0,
                ;
            }
            i += 1;
        }
        true
    }

    /// Drops the limbs of zero above the highest limb that is not zero; the others stay.
    fn trim(&mut self)
        ensures
            final(self)@ == old(self)@,
            final(self).limbs_view().len() <= old(self).limbs_view().len(),
            final(self).limbs_view() == old(self).limbs_view().take(
                final(self).limbs_view().len() as int,
            ),
            final(self).limbs_view().len() > 0 ==> final(self).limbs_view().last() != 0,
            forall|k: int|
                final(self).limbs_view().len() <= k < old(self).limbs_view().len() ==> old(
                    self,
                ).limbs_view()[k] == 0,
    {
        assert(self.limbs@.take(self.limbs@.len() as int) =~= self.limbs@);
        while self.limbs.len() > 0 && self.limbs[self.limbs.len() - 1] == 0
            invariant
                limbs_value(self.limbs@) == limbs_value(old(self).limbs@),
                self.limbs@.len() <= old(self).limbs@.len(),
                self.limbs@ == old(self).limbs@.take(self.limbs@.len() as int),
                forall|k: int|
                    self.limbs@.len() <= k < old(self).limbs@.len() ==> old(self).limbs@[k] == 0,
            decreases self.limbs.len(),
        {
            let ghost before = self.limbs@;
            proof {
                lemma_limbs_value_drop_zero(self.limbs@);
                assert(self.limbs@.subrange(0, self.limbs@.len() - 1) =~= self.limbs@.drop_last());
                assert(old(self).limbs@[before.len() - 1] == before.last());
            }
            self.limbs.pop();
            assert(self.limbs@ =~= old(self).limbs@.take(self.limbs@.len() as int));
        }
    }

    /// The sum of two numbers.
    pub fn add(&self, other: &Natural) -> (sum: Natural)
        ensures
            sum@ == self@ + other@,
    {
        let n = if self.limbs.len() >= other.limbs.len() {
            self.limbs.len()
        } else {
            other.limbs.len()
        };
        let mut out: Vec<u32> = Vec::new();
        let mut carry: u64 = 0;
        let mut i: usize = 0;
        while i < n
            invariant
                i <= n,
                n >= self.limbs.len(),
                n >= other.limbs.len(),
                out@.len() == i,
                carry <= 1,
                limbs_value(out@) + carry * radix_pow(i as nat) == value_below(
                    self.limbs@,
                    i as nat,
                ) + value_below(other.limbs@, i as nat),
            decreases n - i,
        {
            let x: u64 = if i < self.limbs.len() {
                self.limbs[i] as u64
            } else {
                0
            };
            let y: u64 = if i < other.limbs.len() {
                other.limbs[i] as u64
            } else {
                0
            };
            let total: u64 = x + y + carry;
            let digit: u32 = (total % 0x1_0000_0000) as u32;
            let next: u64 = total / 0x1_0000_0000;
            proof {
                lemma_limbs_value_push(out@, digit);
                let weight = radix_pow(i as nat);
                assert(x == limb_at(self.limbs@, i as int));
                assert(y == limb_at(other.limbs@, i as int));
                assert(digit + next * radix() == x + y + carry);
                assert(digit * weight + next * (radix() * weight) == x * weight + y * weight + carry
                    * weight) by (nonlinear_arith)
                    requires
                        digit + next * radix() == x + y + carry,
                ;
            }
            out.push(digit);
            carry = next;
            i += 1;
        }
        proof {
            lemma_value_below_past_end(self.limbs@, n as nat);
            lemma_value_below_past_end(other.limbs@, n as nat);
            lemma_limbs_value_push(out@, carry as u32);
        }
        out.push(carry as u32);
        let mut sum = Natural { limbs: out };
        sum.trim();
        sum
    }

    /// The product of the number and a single limb, plus a single limb.
    pub fn mul_small_add(&self, factor: u32, addend: u32) -> (r: Natural)
        ensures
            r@ == self@ * factor + addend,
    {
        let mut out: Vec<u32> = Vec::new();
        let mut carry: u64 = addend as u64;
        let mut i: usize = 0;
        proof {
            assert(radix_pow(0) == 1);
            assert(value_below(self.limbs@, 0) == 0);
            assert(0 * factor == 0);
        }
        while i < self.limbs.len()
            invariant
                i <= self.limbs.len(),
                out@.len() == i,
                carry < radix(),
                limbs_value(out@) + carry * radix_pow(i as nat) == value_below(
                    self.limbs@,
                    i as nat,
                ) * factor + addend,
            decreases self.limbs.len() - i,
        {
            let x: u64 = self.limbs[i] as u64;
            let f: u64 = factor as u64;
            assert(x * f + carry <= 0xffff_ffff_0000_0000) by (nonlinear_arith)
                requires
                    x <= 0xffff_ffff,
                    f <= 0xffff_ffff,
                    carry <= 0xffff_ffff,
            ;
            let total: u64 = x * f + carry;
            let digit: u32 = (total % 0x1_0000_0000) as u32;
            let next: u64 = total / 0x1_0000_0000;
            proof {
                lemma_limbs_value_push(out@, digit);
                let weight = radix_pow(i as nat);
                let low = value_below(self.limbs@, i as nat);
                assert(digit + next * radix() == x * f + carry);
                assert(digit * weight + next * (radix() * weight) + low * f == (low + x * weight)
                    * f + carry * weight) by (nonlinear_arith)
                    requires
                        digit + next * radix() == x * f + carry,
                ;
            }
            out.push(digit);
            carry = next;
            i += 1;
        }
        proof {
            lemma_limbs_value_push(out@, carry as u32);
        }
        out.push(carry as u32);
        let mut r = Natural { limbs: out };
        r.trim();
        r
    }

    /// The number times the radix: every limb moves up one position.
    fn shift_up(&self) -> (r: Natural)
        ensures
            r@ == radix() * self@,
    {
        let mut out: Vec<u32> = Vec::new();
        out.push(0u32);
        let mut i: usize = 0;
        while i < self.limbs.len()
            invariant
                i <= self.limbs.len(),
                out@ =~= seq![0u32] + self.limbs@.take(i as int),
            decreases self.limbs.len() - i,
        {
            out.push(self.limbs[i]);
            i += 1;
        }
        proof {
            assert(self.limbs@.take(self.limbs@.len() as int) =~= self.limbs@);
            lemma_value_below_shift(self.limbs@, self.limbs@.len());
        }
        Natural { limbs: out }
    }

    /// The product of two numbers.
    pub fn mul(&self, other: &Natural) -> (product: Natural)
        ensures
            product@ == self@ * other@,
    {
        let mut acc = Natural::zero();
        let mut row = other.clone();
        let mut i: usize = 0;
        proof {
            assert(radix_pow(0) == 1);
            assert(value_below(self.limbs@, 0) == 0);
            assert(0 * other@ == 0);
            assert(1 * other@ == other@);
        }
        while i < self.limbs.len()
            invariant
                i <= self.limbs.len(),
                row@ == radix_pow(i as nat) * other@,
                acc@ == value_below(self.limbs@, i as nat) * other@,
            decreases self.limbs.len() - i,
        {
            let limb = self.limbs[i];
            let term = row.mul_small_add(limb, 0);
            let next_acc = acc.add(&term);
            let next_row = row.shift_up();
            proof {
                let weight = radix_pow(i as nat);
                let low = value_below(self.limbs@, i as nat);
                let o = other@;
                assert(low * o + (weight * o) * limb == (low + limb * weight) * o)
                    by (nonlinear_arith);
                assert(radix() * (weight * o) == (radix() * weight) * o) by (nonlinear_arith);
            }
            acc = next_acc;
            row = next_row;
            i += 1;
        }
        acc
    }

    /// Compares two numbers: the sign of `self - other`.
    pub fn compare(&self, other: &Natural) -> (order: Sign)
        ensures
            order == sign_of(self@ - other@),
    {
        let n = if self.limbs.len() >= other.limbs.len() {
            self.limbs.len()
        } else {
            other.limbs.len()
        };
        let mut i: usize = n;
        while i > 0
            invariant
                i <= n,
                n >= self.limbs.len(),
                n >= other.limbs.len(),
                forall|k: int| i <= k < n ==> limb_at(self.limbs@, k) == limb_at(other.limbs@, k),
            decreases i,
        {
            i -= 1;
            let x: u32 = if i < self.limbs.len() {
                self.limbs[i]
            } else {
                0
            };
            let y: u32 = if i < other.limbs.len() {
                other.limbs[i]
            } else {
                0
            };
            if x != y {
                proof {
                    lemma_value_below_past_end(self.limbs@, n as nat);
                    lemma_value_below_past_end(other.limbs@, n as nat);
                    lemma_value_below_common_top(self.limbs@, other.limbs@, (i + 1) as nat, n as nat);
                    lemma_value_below_bound(self.limbs@, i as nat);
                    lemma_value_below_bound(other.limbs@, i as nat);
                    let weight = radix_pow(i as nat);
                    lemma_radix_pow_positive(i as nat);
                    assert(x == limb_at(self.limbs@, i as int));
                    assert(y == limb_at(other.limbs@, i as int));
                    assert(value_below(self.limbs@, (i + 1) as nat) == value_below(
                        self.limbs@,
                        i as nat,
                    ) + x * weight);
                    assert(value_below(other.limbs@, (i + 1) as nat) == value_below(
                        other.limbs@,
                        i as nat,
                    ) + y * weight);
                    assert(x > y ==> x * weight - y * weight >= weight) by (nonlinear_arith)
                        requires
                            weight > 0,
                    ;
                    assert(x < y ==> y * weight - x * weight >= weight) by (nonlinear_arith)
                        requires
                            weight > 0,
                    ;
                }
                if x > y {
                    return Sign::Positive;
                } else {
                    return Sign::Negative;
                }
            }
        }
        proof {
            lemma_value_below_past_end(self.limbs@, n as nat);
            lemma_value_below_past_end(other.limbs@, n as nat);
            lemma_value_below_common_top(self.limbs@, other.limbs@, 0, n as nat);
        }
        Sign::Zero
    }

    /// The difference `self - other`, where it is a natural number.
    pub fn checked_sub(&self, other: &Natural) -> (difference: Option<Natural>)
        ensures
            self@ >= other@ ==> difference.is_some() && difference.unwrap()@ == self@ - other@,
            self@ < other@ ==> difference.is_none(),
    {
        match self.compare(other) {
            Sign::Negative => None,
            _ => Some(self.sub_smaller(other)),
        }
    }

    /// The difference `self - other` of a number and one that is no larger.
    fn sub_smaller(&self, other: &Natural) -> (difference: Natural)
        requires
            self@ >= other@,
        ensures
            difference@ == self@ - other@,
    {
        let n = if self.limbs.len() >= other.limbs.len() {
            self.limbs.len()
        } else {
            other.limbs.len()
        };
        let mut out: Vec<u32> = Vec::new();
        let mut borrow: u64 = 0;
        let mut i: usize = 0;
        while i < n
            invariant
                i <= n,
                n >= self.limbs.len(),
                n >= other.limbs.len(),
                out@.len() == i,
                borrow <= 1,
                limbs_value(out@) + value_below(other.limbs@, i as nat) == value_below(
                    self.limbs@,
                    i as nat,
                ) + borrow * radix_pow(i as nat),
            decreases n - i,
        {
            let x: u64 = if i < self.limbs.len() {
                self.limbs[i] as u64
            } else {
                0
            };
            let y: u64 = if i < other.limbs.len() {
                other.limbs[i] as u64
            } else {
                0
            };
            let lowered: u64 = y + borrow;
            let digit: u32;
            let next: u64;
            if x >= lowered {
                digit = (x - lowered) as u32;
                next = 0;
            } else {
                digit = (x + 0x1_0000_0000 - lowered) as u32;
                next = 1;
            }
            proof {
                lemma_limbs_value_push(out@, digit);
                let weight = radix_pow(i as nat);
                assert(x == limb_at(self.limbs@, i as int));
                assert(y == limb_at(other.limbs@, i as int));
                assert(digit + y + borrow == x + next * radix());
                assert(digit * weight + y * weight + borrow * weight == x * weight + next * (radix()
                    * weight)) by (nonlinear_arith)
                    requires
                        digit + y + borrow == x + next * radix(),
                ;
            }
            out.push(digit);
            borrow = next;
            i += 1;
        }
        proof {
            lemma_value_below_past_end(self.limbs@, n as nat);
            lemma_value_below_past_end(other.limbs@, n as nat);
            lemma_value_below_bound(out@, n as nat);
            let weight = radix_pow(n as nat);
            assert(borrow * weight == 0) by (nonlinear_arith)
                requires
                    borrow <= 1,
                    borrow == 1 ==> false,
            ;
        }
        let mut difference = Natural { limbs: out };
        difference.trim();
        difference
    }
}

} // verus!
