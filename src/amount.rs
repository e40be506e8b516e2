//! Unsigned 256-bit amounts, held as four 64-bit limbs, least significant first.
//!
//! Arithmetic never wraps: an addition whose result does not fit and a
//! subtraction that would go below zero report `None`.
use vstd::prelude::*;

verus! {

/// The number of distinct amounts, 2^256.
pub open spec fn amount_bound() -> nat {
    18446744073709551616 * 18446744073709551616 * 18446744073709551616 * 18446744073709551616
}

/// The number that limbs `l0` (least significant) to `l3` stand for.
pub open spec fn limbs_value(l0: u64, l1: u64, l2: u64, l3: u64) -> nat {
    (l0 + l1 * 18446744073709551616 + l2 * 18446744073709551616 * 18446744073709551616 + l3
        * 18446744073709551616 * 18446744073709551616 * 18446744073709551616) as nat
}

/// A non-negative amount below 2^256.
#[derive(Clone, Copy, Debug)]
pub struct Amount {
    l0: u64,
    l1: u64,
    l2: u64,
    l3: u64,
}

impl Amount {
    /// The number this amount stands for.
    pub closed spec fn value(&self) -> nat {
        limbs_value(self.l0, self.l1, self.l2, self.l3)
    }

    /// The amount zero.
    pub fn zero() -> (r: Amount)
        ensures
            r.value() == 0,
    {
        Amount { l0: 0, l1: 0, l2: 0, l3: 0 }
    }

    /// The amount `v`.
    pub fn from_u64(v: u64) -> (r: Amount)
        ensures
            r.value() == v,
    {
        Amount { l0: v, l1: 0, l2: 0, l3: 0 }
    }

    /// The amount whose limbs, least significant first, are `limbs`.
    pub fn from_limbs(limbs: [u64; 4]) -> (r: Amount)
        ensures
            r.value() == limbs_value(limbs[0], limbs[1], limbs[2], limbs[3]),
    {
        Amount { l0: limbs[0], l1: limbs[1], l2: limbs[2], l3: limbs[3] }
    }

    /// The limbs of this amount, least significant first.
    pub fn into_limbs(self) -> (r: [u64; 4])
        ensures
            limbs_value(r[0], r[1], r[2], r[3]) == self.value(),
    {
        [self.l0, self.l1, self.l2, self.l3]
    }

    /// Whether this amount is zero.
    pub fn is_zero(&self) -> (r: bool)
        ensures
            r == (self.value() == 0),
    {
        self.l0 == 0 && self.l1 == 0 && self.l2 == 0 && self.l3 == 0
    }

    /// Whether the two amounts are equal.
    pub fn same_as(&self, other: &Amount) -> (r: bool)
        ensures
            r == (self.value() == other.value()),
    {
        let a = [self.l0, self.l1, self.l2, self.l3];
        let b = [other.l0, other.l1, other.l2, other.l3];
        let r = a[0] == b[0] && a[1] == b[1] && a[2] == b[2] && a[3] == b[3];
        proof {
            lemma_limbs_value_cmp(a, b);
            lemma_limbs_value_cmp(b, a);
        }
        r
    }

    /// Whether this amount is strictly below `other`.
    pub fn lt(&self, other: &Amount) -> (r: bool)
        ensures
            r == (self.value() < other.value()),
    {
        let a = [self.l0, self.l1, self.l2, self.l3];
        let b = [other.l0, other.l1, other.l2, other.l3];
        proof {
            lemma_limbs_value_cmp(a, b);
            lemma_limbs_value_cmp(b, a);
        }
        if a[3] != b[3] {
            a[3] < b[3]
        } else if a[2] != b[2] {
            a[2] < b[2]
        } else if a[1] != b[1] {
            a[1] < b[1]
        } else {
            a[0] < b[0]
        }
    }

    /// The sum of the two amounts, or `None` where it is 2^256 or more.
    pub fn checked_add(&self, other: &Amount) -> (r: Option<Amount>)
        ensures
            r is Some <==> self.value() + other.value() < amount_bound(),
            r matches Some(s) ==> s.value() == self.value() + other.value(),
    {
        let a = [self.l0, self.l1, self.l2, self.l3];
        let b = [other.l0, other.l1, other.l2, other.l3];
        let s0: u128 = a[0] as u128 + b[0] as u128;
        let r0: u64 = (s0 % 18446744073709551616u128) as u64;
        let c0: u128 = s0 / 18446744073709551616u128;
        assert(s0 == r0 + c0 * 18446744073709551616 && c0 <= 1);
        let s1: u128 = a[1] as u128 + b[1] as u128 + c0;
        let r1: u64 = (s1 % 18446744073709551616u128) as u64;
        let c1: u128 = s1 / 18446744073709551616u128;
        assert(s1 == r1 + c1 * 18446744073709551616 && c1 <= 1);
        let s2: u128 = a[2] as u128 + b[2] as u128 + c1;
        let r2: u64 = (s2 % 18446744073709551616u128) as u64;
        let c2: u128 = s2 / 18446744073709551616u128;
        assert(s2 == r2 + c2 * 18446744073709551616 && c2 <= 1);
        let s3: u128 = a[3] as u128 + b[3] as u128 + c2;
        let r3: u64 = (s3 % 18446744073709551616u128) as u64;
        let c3: u128 = s3 / 18446744073709551616u128;
        assert(s3 == r3 + c3 * 18446744073709551616 && c3 <= 1);
        assert(limbs_value(r0, r1, r2, r3) + c3 * 18446744073709551616 * 18446744073709551616 * 18446744073709551616 * 18446744073709551616 == self.value()
            + other.value());
        if c3 != 0 {
            None
        } else {
            Some(Amount { l0: r0, l1: r1, l2: r2, l3: r3 })
        }
    }

    /// This amount minus `other`, or `None` where `other` is the larger.
    pub fn checked_sub(&self, other: &Amount) -> (r: Option<Amount>)
        ensures
            r is Some <==> other.value() <= self.value(),
            r matches Some(d) ==> d.value() + other.value() == self.value(),
    {
        let a = [self.l0, self.l1, self.l2, self.l3];
        let b = [other.l0, other.l1, other.l2, other.l3];
        let d0: u128 = a[0] as u128 + 18446744073709551616u128 - b[0] as u128;
        let r0: u64 = (d0 % 18446744073709551616u128) as u64;
        let k0: u128 = 1 - d0 / 18446744073709551616u128;
        assert(d0 + k0 * 18446744073709551616 == r0 + 18446744073709551616 && k0 <= 1);
        let d1: u128 = a[1] as u128 + 18446744073709551616u128 - b[1] as u128 - k0;
        let r1: u64 = (d1 % 18446744073709551616u128) as u64;
        let k1: u128 = 1 - d1 / 18446744073709551616u128;
        assert(d1 + k1 * 18446744073709551616 == r1 + 18446744073709551616 && k1 <= 1);
        let d2: u128 = a[2] as u128 + 18446744073709551616u128 - b[2] as u128 - k1;
        let r2: u64 = (d2 % 18446744073709551616u128) as u64;
        let k2: u128 = 1 - d2 / 18446744073709551616u128;
        assert(d2 + k2 * 18446744073709551616 == r2 + 18446744073709551616 && k2 <= 1);
        let d3: u128 = a[3] as u128 + 18446744073709551616u128 - b[3] as u128 - k2;
        let r3: u64 = (d3 % 18446744073709551616u128) as u64;
        let k3: u128 = 1 - d3 / 18446744073709551616u128;
        assert(d3 + k3 * 18446744073709551616 == r3 + 18446744073709551616 && k3 <= 1);
        assert(limbs_value(r0, r1, r2, r3) + other.value() == self.value() + k3 * 18446744073709551616 * 18446744073709551616 * 18446744073709551616 * 18446744073709551616);
        if k3 != 0 {
            None
        } else {
            Some(Amount { l0: r0, l1: r1, l2: r2, l3: r3 })
        }
    }
}

/// Where the limbs of `a` and `b` differ, the most significant limb at which
/// they differ decides which number is the smaller.
proof fn lemma_limbs_value_cmp(a: [u64; 4], b: [u64; 4])
    ensures
        a[3] < b[3] ==> limbs_value(a[0], a[1], a[2], a[3]) < limbs_value(b[0], b[1], b[2], b[3]),
        a[3] == b[3] && a[2] < b[2] ==> limbs_value(a[0], a[1], a[2], a[3]) < limbs_value(
            b[0],
            b[1],
            b[2],
            b[3],
        ),
        a[3] == b[3] && a[2] == b[2] && a[1] < b[1] ==> limbs_value(a[0], a[1], a[2], a[3])
            < limbs_value(b[0], b[1], b[2], b[3]),
        a[3] == b[3] && a[2] == b[2] && a[1] == b[1] && a[0] < b[0] ==> limbs_value(
            a[0],
            a[1],
            a[2],
            a[3],
        ) < limbs_value(b[0], b[1], b[2], b[3]),
        a[3] == b[3] && a[2] == b[2] && a[1] == b[1] && a[0] == b[0] ==> limbs_value(
            a[0],
            a[1],
            a[2],
            a[3],
        ) == limbs_value(b[0], b[1], b[2], b[3]),
{
}

} // verus!
