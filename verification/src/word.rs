//! 256-bit unsigned words, as used for balances, storage keys and values.

use vstd::prelude::*;

verus! {

/// Two to the power 64, the weight of the second limb.
pub open spec fn limb_base() -> nat {
    0x1_0000_0000_0000_0000
}

/// Byte `j` of `limb`, counted from its most significant byte.
pub open spec fn be_byte(limb: u64, j: int) -> u8 {
    ((limb >> ((8 * (7 - j)) as u64)) & 0xff) as u8
}

/// A 256-bit unsigned integer held as four 64-bit limbs, least significant first.
#[derive(Clone, Copy, Debug, PartialEq, Eq, Structural)]
pub struct Word256 {
    pub w0: u64,
    pub w1: u64,
    pub w2: u64,
    pub w3: u64,
}

impl Word256 {
    /// The number that the word stands for.
    pub open spec fn value(self) -> nat {
        self.w0 as nat + limb_base() * (self.w1 as nat + limb_base() * (self.w2 as nat
            + limb_base() * (self.w3 as nat)))
    }

    /// The number as a `u64`, or `u64::MAX` where it does not fit.
    pub open spec fn saturated_u64(self) -> u64 {
        if self.value() <= u64::MAX {
            self.value() as u64
        } else {
            u64::MAX
        }
    }

    /// The number as a `u128`, or `u128::MAX` where it does not fit.
    pub open spec fn saturated_u128(self) -> u128 {
        if self.value() <= u128::MAX {
            self.value() as u128
        } else {
            u128::MAX
        }
    }

    /// Limb `k` of the word, the least significant being limb 0.
    pub open spec fn limb(self, k: int) -> u64 {
        if k == 0 {
            self.w0
        } else if k == 1 {
            self.w1
        } else if k == 2 {
            self.w2
        } else {
            self.w3
        }
    }

    /// The 32 bytes of the word, most significant first: bytes `8k` to `8k + 7`
    /// are limb `3 - k`, its most significant byte first.
    pub open spec fn be_bytes(self) -> Seq<u8> {
        Seq::new(32, |i: int| be_byte(self.limb(3 - i / 8), i % 8))
    }

    /// The word zero.
    pub fn zero() -> (w: Word256)
        ensures
            w.value() == 0,
            w == (Word256 { w0: 0, w1: 0, w2: 0, w3: 0 }),
    {
        Word256 { w0: 0, w1: 0, w2: 0, w3: 0 }
    }

    /// The largest word, two to the power 256 less one.
    pub fn max_value() -> (w: Word256)
        ensures
            w == (Word256 { w0: u64::MAX, w1: u64::MAX, w2: u64::MAX, w3: u64::MAX }),
            forall|o: Word256| o.value() <= #[trigger] w.value(),
    {
        let w = Word256 { w0: u64::MAX, w1: u64::MAX, w2: u64::MAX, w3: u64::MAX };
        proof {
            assert forall|o: Word256| o.value() <= #[trigger] w.value() by {
                lemma_value_monotone(o, w);
            }
        }
        w
    }

    /// The word that stands for `v`.
    pub fn from_u64(v: u64) -> (w: Word256)
        ensures
            w.value() == v,
            w == (Word256 { w0: v, w1: 0, w2: 0, w3: 0 }),
    {
        Word256 { w0: v, w1: 0, w2: 0, w3: 0 }
    }

    /// The word with the given limbs, least significant first.
    pub fn from_limbs(limbs: [u64; 4]) -> (w: Word256)
        ensures
            w == (Word256 { w0: limbs[0], w1: limbs[1], w2: limbs[2], w3: limbs[3] }),
    {
        Word256 { w0: limbs[0], w1: limbs[1], w2: limbs[2], w3: limbs[3] }
    }

    /// The four limbs, least significant first.
    pub fn to_limbs(&self) -> (limbs: [u64; 4])
        ensures
            limbs[0] == self.w0,
            limbs[1] == self.w1,
            limbs[2] == self.w2,
            limbs[3] == self.w3,
    {
        [self.w0, self.w1, self.w2, self.w3]
    }

    /// The 32 bytes of the word, most significant first.
    pub fn to_be_bytes(&self) -> (bytes: [u8; 32])
        ensures
            bytes@ == self.be_bytes(),
    {
        let limbs: [u64; 4] = [self.w3, self.w2, self.w1, self.w0];
        let mut bytes: [u8; 32] = [0u8; 32];
        let mut i: usize = 0;
        while i < 32
            invariant
                i <= 32,
                limbs[0] == self.w3,
                limbs[1] == self.w2,
                limbs[2] == self.w1,
                limbs[3] == self.w0,
                forall|n: int| 0 <= n < i ==> bytes@[n] == #[trigger] self.be_bytes()[n],
            decreases 32 - i,
        {
            let limb: u64 = limbs[i / 8];
            let place: u64 = (i % 8) as u64;
            let shift: u64 = 8 * (7 - place);
            let low: u64 = (limb >> shift) & 0xff;
            assert(low <= 0xff) by (bit_vector)
                requires
                    low == (limb >> shift) & 0xff,
            ;
            bytes[i] = low as u8;
            i = i + 1;
        }
        assert(bytes@ =~= self.be_bytes());
        bytes
    }

    /// Whether the word is zero.
    pub fn is_zero(&self) -> (z: bool)
        ensures
            z == (self.value() == 0),
    {
        proof {
            lemma_value_monotone(Word256 { w0: 0, w1: 0, w2: 0, w3: 0 }, *self);
            if self.w3 != 0 || self.w2 != 0 || self.w1 != 0 {
                lemma_high_limbs(*self);
            }
        }
        self.w0 == 0 && self.w1 == 0 && self.w2 == 0 && self.w3 == 0
    }

    /// The word as a `u64`, or `u64::MAX` where it does not fit.
    pub fn saturating_to_u64(&self) -> (r: u64)
        ensures
            r == self.saturated_u64(),
    {
        proof {
            if self.w3 != 0 || self.w2 != 0 || self.w1 != 0 {
                lemma_high_limbs(*self);
            }
        }
        if self.w1 == 0 && self.w2 == 0 && self.w3 == 0 {
            self.w0
        } else {
            u64::MAX
        }
    }

    /// The word as a `u128`, or `u128::MAX` where it does not fit.
    pub fn saturating_to_u128(&self) -> (r: u128)
        ensures
            r == self.saturated_u128(),
    {
        if self.w2 == 0 && self.w3 == 0 {
            let high: u128 = self.w1 as u128;
            let low: u128 = self.w0 as u128;
            high * 0x1_0000_0000_0000_0000u128 + low
        } else {
            proof {
                lemma_top_limbs(*self);
            }
            u128::MAX
        }
    }
}

/// A word with a non-zero limb above the first is at least two to the power 64.
pub proof fn lemma_high_limbs(w: Word256)
    requires
        w.w1 != 0 || w.w2 != 0 || w.w3 != 0,
    ensures
        w.value() >= limb_base(),
{
    let b = limb_base() as int;
    let inner = w.w2 as int + b * (w.w3 as int);
    let mid = w.w1 as int + b * inner;
    assert(b * (w.w3 as int) >= 0) by (nonlinear_arith)
        requires
            b >= 0,
            w.w3 as int >= 0,
    ;
    assert(w.w3 != 0 ==> b * (w.w3 as int) >= 1) by (nonlinear_arith)
        requires
            b >= 1,
            w.w3 as int >= 0,
    ;
    assert(inner >= 0);
    assert(w.w2 != 0 || w.w3 != 0 ==> inner >= 1);
    assert(b * inner >= 0) by (nonlinear_arith)
        requires
            b >= 0,
            inner >= 0,
    ;
    assert(inner >= 1 ==> b * inner >= 1) by (nonlinear_arith)
        requires
            b >= 1,
            inner >= 0,
    ;
    assert(mid >= 1);
    assert(b * mid >= b) by (nonlinear_arith)
        requires
            b >= 0,
            mid >= 1,
    ;
}

/// A word with a non-zero limb above the second is at least two to the power 128.
pub proof fn lemma_top_limbs(w: Word256)
    requires
        w.w2 != 0 || w.w3 != 0,
    ensures
        w.value() > u128::MAX,
{
    let b = limb_base() as int;
    let inner = w.w2 as int + b * (w.w3 as int);
    assert(b * (w.w3 as int) >= 0) by (nonlinear_arith)
        requires
            b >= 0,
            w.w3 as int >= 0,
    ;
    assert(w.w3 != 0 ==> b * (w.w3 as int) >= 1) by (nonlinear_arith)
        requires
            b >= 1,
            w.w3 as int >= 0,
    ;
    assert(inner >= 1);
    assert(b * inner >= b) by (nonlinear_arith)
        requires
            b >= 0,
            inner >= 1,
    ;
    let mid = w.w1 as int + b * inner;
    assert(mid >= b);
    assert(b * mid >= b * b) by (nonlinear_arith)
        requires
            b >= 0,
            mid >= b,
    ;
    assert(b * b == 0x1_0000_0000_0000_0000_0000_0000_0000_0000int) by (nonlinear_arith)
        requires
            b == 0x1_0000_0000_0000_0000int,
    ;
}

/// A word whose every limb is at most the other's stands for no larger a number.
pub proof fn lemma_value_monotone(a: Word256, b: Word256)
    requires
        a.w0 <= b.w0,
        a.w1 <= b.w1,
        a.w2 <= b.w2,
        a.w3 <= b.w3,
    ensures
        a.value() <= b.value(),
{
    let k = limb_base() as int;
    assert(k * (a.w3 as int) <= k * (b.w3 as int)) by (nonlinear_arith)
        requires
            k >= 0,
            a.w3 as int <= b.w3 as int,
    ;
    let ia = a.w2 as int + k * (a.w3 as int);
    let ib = b.w2 as int + k * (b.w3 as int);
    assert(k * ia <= k * ib) by (nonlinear_arith)
        requires
            k >= 0,
            ia <= ib,
    ;
    let ma = a.w1 as int + k * ia;
    let mb = b.w1 as int + k * ib;
    assert(k * ma <= k * mb) by (nonlinear_arith)
        requires
            k >= 0,
            ma <= mb,
    ;
}

} // verus!
