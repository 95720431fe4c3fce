//! Arbitrary-precision natural numbers.
//!
//! The quantiser compares products of powers that do not fit any machine
//! integer. A [`Natural`] holds such a number as little-endian limbs of 32
//! bits; it can be multiplied by a machine integer and compared.

use vstd::arithmetic::power::{lemma_pow0, lemma_pow_positive, pow};
use vstd::prelude::*;

verus! {

/// The weight of one limb position relative to the one below it: 2^32.
pub open spec fn radix() -> int {
    0x1_0000_0000
}

/// Limb `i` of a little-endian limb sequence; zero beyond its end.
pub open spec fn limb_at(limbs: Seq<u32>, i: int) -> int {
    if 0 <= i < limbs.len() {
        limbs[i] as int
    } else {
        0
    }
}

/// The number that the lowest `n` limbs spell:
/// the sum of `limb_at(limbs, i) * radix()^i` over `i < n`.
pub open spec fn low_value(limbs: Seq<u32>, n: nat) -> int
    decreases n,
{
    if n == 0 {
        0
    } else {
        low_value(limbs, (n - 1) as nat) + limb_at(limbs, n - 1) * pow(radix(), (n - 1) as nat)
    }
}

/// `radix()^(e + 1)` is `radix()` times `radix()^e`.
proof fn lemma_radix_pow_step(e: nat)
    ensures
        pow(radix(), e + 1) == radix() * pow(radix(), e),
        pow(radix(), e) > 0,
{
    reveal(pow);
    lemma_pow_positive(radix(), e);
}

/// The lowest `n` limbs spell a number below `radix()^n`.
proof fn lemma_low_value_bound(limbs: Seq<u32>, n: nat)
    ensures
        0 <= low_value(limbs, n) < pow(radix(), n),
    decreases n,
{
    if n == 0 {
        lemma_pow0(radix());
    } else {
        let m = (n - 1) as nat;
        lemma_low_value_bound(limbs, m);
        lemma_radix_pow_step(m);
        let w = pow(radix(), m);
        let d = limb_at(limbs, m as int);
        assert(0 <= d * w && d * w + w <= radix() * w) by (nonlinear_arith)
            requires
                0 <= d <= radix() - 1,
                w > 0,
        ;
    }
}

/// Limbs at and above the end of the sequence add nothing.
proof fn lemma_low_value_beyond(limbs: Seq<u32>, n: nat)
    requires
        n >= limbs.len(),
    ensures
        low_value(limbs, n) == low_value(limbs, limbs.len()),
    decreases n,
{
    if n > limbs.len() {
        lemma_low_value_beyond(limbs, (n - 1) as nat);
        assert(limb_at(limbs, n - 1) * pow(radix(), (n - 1) as nat) == 0) by (nonlinear_arith)
            requires
                limb_at(limbs, n - 1) == 0,
        ;
    }
}

/// Sequences that agree on their lowest `n` limbs spell the same number there.
proof fn lemma_low_value_prefix(a: Seq<u32>, b: Seq<u32>, n: nat)
    requires
        forall|j: int| 0 <= j < n ==> limb_at(a, j) == limb_at(b, j),
    ensures
        low_value(a, n) == low_value(b, n),
    decreases n,
{
    if n > 0 {
        lemma_low_value_prefix(a, b, (n - 1) as nat);
    }
}

/// Sequences that agree on the limbs from `i` up to `n` differ, in what their
/// lowest `n` limbs spell, exactly as in what their lowest `i` limbs spell.
proof fn lemma_low_value_agree(a: Seq<u32>, b: Seq<u32>, i: nat, n: nat)
    requires
        i <= n,
        forall|j: int| i <= j < n ==> limb_at(a, j) == limb_at(b, j),
    ensures
        low_value(a, n) - low_value(a, i) == low_value(b, n) - low_value(b, i),
    decreases n,
{
    if n > i {
        lemma_low_value_agree(a, b, i, (n - 1) as nat);
    }
}

/// The highest limb in which two sequences differ decides their order.
proof fn lemma_low_value_decides(a: Seq<u32>, b: Seq<u32>, i: nat)
    requires
        limb_at(a, i as int) < limb_at(b, i as int),
    ensures
        low_value(a, i + 1) < low_value(b, i + 1),
{
    lemma_low_value_bound(a, i);
    lemma_low_value_bound(b, i);
    lemma_radix_pow_step(i);
    let w = pow(radix(), i);
    let x = limb_at(a, i as int);
    let y = limb_at(b, i as int);
    assert(x * w + w <= y * w) by (nonlinear_arith)
        requires
            x + 1 <= y,
            w > 0,
    ;
}

/// One step of a long multiplication: limb times factor plus carry is split
/// into the limb written and the carry taken on.
proof fn lemma_carry_step(
    v: int,
    w: int,
    x: int,
    k: int,
    limb: int,
    carry: int,
    low: int,
    carry_out: int,
)
    requires
        v + carry * w == x * k,
        limb * k + carry == carry_out * radix() + low,
    ensures
        (v + low * w) + carry_out * (radix() * w) == (x + limb * w) * k,
{
    assert((limb * k + carry) * w == (carry_out * radix() + low) * w);
    assert((limb * k + carry) * w == (limb * w) * k + carry * w) by (nonlinear_arith);
    assert((carry_out * radix() + low) * w == carry_out * (radix() * w) + low * w)
        by (nonlinear_arith);
    assert((x + limb * w) * k == x * k + (limb * w) * k) by (nonlinear_arith);
}

/// A natural number of any size.
pub struct Natural {
    limbs: Vec<u32>,
}

impl View for Natural {
    type V = nat;

    closed spec fn view(&self) -> nat {
        low_value(self.limbs@, self.limbs@.len()) as nat
    }
}

impl Natural {
    /// The number one.
    pub fn one() -> (r: Natural)
        ensures
            r@ == 1,
    {
        let mut limbs: Vec<u32> = Vec::new();
        limbs.push(1u32);
        proof {
            lemma_pow0(radix());
            assert(low_value(limbs@, 0) == 0);
            assert(low_value(limbs@, 1) == low_value(limbs@, 0) + limb_at(limbs@, 0) * pow(
                radix(),
                0,
            ));
        }
        Natural { limbs }
    }

    /// The product of this number and `k`.
    pub fn times(&self, k: u128) -> (r: Natural)
        requires
            k < 0x1_0000_0000_0000_0000_0000_0000,
        ensures
            r@ == self@ * k,
    {
        let n: usize = self.limbs.len();
        let mut out: Vec<u32> = Vec::new();
        let mut carry: u128 = 0;
        let mut i: usize = 0;
        proof {
            lemma_pow0(radix());
        }
        while i < n
            invariant
                n == self.limbs.len(),
                i <= n,
                out.len() == i,
                carry <= k,
                k < 0x1_0000_0000_0000_0000_0000_0000,
                low_value(out@, i as nat) + carry * pow(radix(), i as nat) == low_value(
                    self.limbs@,
                    i as nat,
                ) * k,
            decreases n - i,
        {
            let limb: u128 = self.limbs[i] as u128;
            assert(limb * k + carry <= radix() * k) by (nonlinear_arith)
                requires
                    0 <= limb <= radix() - 1,
                    0 <= carry <= k,
            ;
            let t: u128 = limb * k + carry;
            let low: u32 = (t % 0x1_0000_0000) as u32;
            let carry_out: u128 = t / 0x1_0000_0000;
            proof {
                let ghost_out = out@.push(low);
                lemma_low_value_prefix(out@, ghost_out, i as nat);
                lemma_radix_pow_step(i as nat);
                lemma_carry_step(
                    low_value(out@, i as nat),
                    pow(radix(), i as nat),
                    low_value(self.limbs@, i as nat),
                    k as int,
                    limb as int,
                    carry as int,
                    low as int,
                    carry_out as int,
                );
                assert(limb_at(ghost_out, i as int) == low);
                assert(limb_at(self.limbs@, i as int) == limb);
            }
            out.push(low);
            carry = carry_out;
            i += 1;
        }
        proof {
            lemma_low_value_bound(self.limbs@, n as nat);
        }
        while carry > 0
            invariant
                low_value(out@, out.len() as nat) + carry * pow(radix(), out.len() as nat)
                    == self@ * k,
            decreases carry,
        {
            let low: u32 = (carry % 0x1_0000_0000) as u32;
            let carry_out: u128 = carry / 0x1_0000_0000;
            proof {
                let len = out.len() as nat;
                let ghost_out = out@.push(low);
                lemma_low_value_prefix(out@, ghost_out, len);
                lemma_radix_pow_step(len);
                lemma_carry_step(
                    low_value(out@, len),
                    pow(radix(), len),
                    self@ as int,
                    k as int,
                    0,
                    carry as int,
                    low as int,
                    carry_out as int,
                );
                assert(limb_at(ghost_out, len as int) == low);
                lemma_low_value_bound(self.limbs@, self.limbs@.len());
            }
            out.push(low);
            carry = carry_out;
        }
        proof {
            lemma_low_value_bound(out@, out@.len());
            lemma_low_value_bound(self.limbs@, self.limbs@.len());
            assert(self@ * k >= 0) by (nonlinear_arith)
                requires
                    self@ >= 0,
                    k >= 0,
            ;
        }
        Natural { limbs: out }
    }

    /// The product of this number and `base` raised to `exp`.
    pub fn times_power(&self, base: u128, exp: u8) -> (r: Natural)
        requires
            base < 0x1_0000_0000_0000_0000_0000_0000,
        ensures
            r@ == self@ * pow(base as int, exp as nat),
    {
        let ghost start = self@;
        let mut acc = Natural { limbs: self.limbs.clone() };
        assert(acc.limbs@ =~= self.limbs@);
        let mut i: u8 = 0;
        proof {
            lemma_pow0(base as int);
        }
        while i < exp
            invariant
                i <= exp,
                base < 0x1_0000_0000_0000_0000_0000_0000,
                acc@ == start * pow(base as int, i as nat),
            decreases exp - i,
        {
            let next = acc.times(base);
            proof {
                reveal(pow);
                let p = pow(base as int, i as nat);
                assert((start * p) * base == start * (base * p)) by (nonlinear_arith);
            }
            acc = next;
            i += 1;
        }
        acc
    }

    /// Whether this number is at most `other`.
    pub fn le(&self, other: &Natural) -> (r: bool)
        ensures
            r == (self@ <= other@),
    {
        let la: usize = self.limbs.len();
        let lb: usize = other.limbs.len();
        let top: usize = if la > lb {
            la
        } else {
            lb
        };
        let mut i: usize = top;
        proof {
            lemma_low_value_beyond(self.limbs@, top as nat);
            lemma_low_value_beyond(other.limbs@, top as nat);
            lemma_low_value_bound(self.limbs@, top as nat);
            lemma_low_value_bound(other.limbs@, top as nat);
        }
        while i > 0
            invariant
                i <= top,
                la == self.limbs.len(),
                lb == other.limbs.len(),
                self@ == low_value(self.limbs@, top as nat),
                other@ == low_value(other.limbs@, top as nat),
                forall|j: int| i <= j < top ==> limb_at(self.limbs@, j) == limb_at(other.limbs@, j),
            decreases i,
        {
            i -= 1;
            let x: u32 = if i < la {
                self.limbs[i]
            } else {
                0
            };
            let y: u32 = if i < lb {
                other.limbs[i]
            } else {
                0
            };
            if x != y {
                proof {
                    lemma_low_value_agree(self.limbs@, other.limbs@, (i + 1) as nat, top as nat);
                    if x < y {
                        lemma_low_value_decides(self.limbs@, other.limbs@, i as nat);
                    } else {
                        lemma_low_value_decides(other.limbs@, self.limbs@, i as nat);
                    }
                }
                return x < y;
            }
        }
        proof {
            lemma_low_value_agree(self.limbs@, other.limbs@, 0, top as nat);
        }
        true
    }
}

} // verus!
