//! Tristate numbers ("tnums"): partial knowledge of the bits of a 64-bit value.
//!
//! A tnum `(value, mask)` stands for every `x` with `x & !mask == value`:
//! bits set in `mask` are unknown, the others are known and equal to the
//! corresponding bit of `value`. A well-formed tnum has `value & mask == 0`.
use vstd::prelude::*;

verus! {

/// Tracked number: known bits in `value`, unknown bits in `mask`.
#[derive(Debug, Clone, Copy, PartialEq, Eq, Structural)]
pub struct TnumValue {
    /// Known bit values (meaningful only where `mask` is 0)
    pub value: u64,
    /// Unknown-bit mask (1 = unknown)
    pub mask: u64,
}

/// `x` is one of the values that the tnum `(v, m)` stands for.
pub open spec fn tnum_has(v: u64, m: u64, x: u64) -> bool {
    x & !m == v
}

pub open spec fn tnum_add_spec(a: TnumValue, b: TnumValue) -> TnumValue {
    let sm = (a.mask + b.mask) as u64;
    let sv = (a.value + b.value) as u64;
    let sigma = (sm + sv) as u64;
    let chi = sigma ^ sv;
    let mu = chi | a.mask | b.mask;
    TnumValue { value: sv & !mu, mask: mu }
}

pub open spec fn tnum_sub_spec(a: TnumValue, b: TnumValue) -> TnumValue {
    let dv = (a.value - b.value) as u64;
    let alpha = (dv + a.mask) as u64;
    let beta = (dv - b.mask) as u64;
    let chi = alpha ^ beta;
    let mu = chi | a.mask | b.mask;
    TnumValue { value: dv & !mu, mask: mu }
}

pub open spec fn tnum_and_spec(a: TnumValue, b: TnumValue) -> TnumValue {
    let alpha = a.value | a.mask;
    let beta = b.value | b.mask;
    let v = a.value & b.value;
    TnumValue { value: v, mask: alpha & beta & !v }
}

pub open spec fn tnum_or_spec(a: TnumValue, b: TnumValue) -> TnumValue {
    let v = a.value | b.value;
    let mu = a.mask | b.mask;
    TnumValue { value: v, mask: mu & !v }
}

pub open spec fn tnum_xor_spec(a: TnumValue, b: TnumValue) -> TnumValue {
    let v = a.value ^ b.value;
    let mu = a.mask | b.mask;
    TnumValue { value: v & !mu, mask: mu }
}

pub open spec fn tnum_lshift_spec(a: TnumValue, s: u64) -> TnumValue {
    TnumValue { value: a.value << s, mask: a.mask << s }
}

pub open spec fn tnum_rshift_spec(a: TnumValue, s: u64) -> TnumValue {
    TnumValue { value: a.value >> s, mask: a.mask >> s }
}

pub open spec fn tnum_arshift_spec(a: TnumValue, s: u64) -> TnumValue {
    TnumValue {
        value: ((a.value as i64) >> s) as u64,
        mask: ((a.mask as i64) >> s) as u64,
    }
}

/// One step of the shift-and-add tnum multiplication: the new
/// (multiplier, multiplicand, accumulated uncertainty).
pub open spec fn tnum_mul_step(
    a: TnumValue,
    b: TnumValue,
    acc: TnumValue,
) -> (TnumValue, TnumValue, TnumValue) {
    let acc2 = if a.value & 1 == 1 {
        tnum_add_spec(acc, TnumValue { value: 0, mask: b.mask })
    } else if a.mask & 1 == 1 {
        tnum_add_spec(acc, TnumValue { value: 0, mask: b.value | b.mask })
    } else {
        acc
    };
    (tnum_rshift_spec(a, 1), tnum_lshift_spec(b, 1), acc2)
}

/// `n` steps of the tnum multiplication.
pub open spec fn tnum_mul_steps(a: TnumValue, b: TnumValue, acc: TnumValue, n: nat) -> TnumValue
    decreases n,
{
    if n == 0 {
        acc
    } else {
        let (a2, b2, acc2) = tnum_mul_step(a, b, acc);
        tnum_mul_steps(a2, b2, acc2, (n - 1) as nat)
    }
}

/// Tnum multiplication: the exact product of the known parts plus the
/// uncertainty accumulated over the 64 bits of the multiplier.
pub open spec fn tnum_mul_spec(a: TnumValue, b: TnumValue) -> TnumValue {
    let acc_v = a.value.wrapping_mul(b.value);
    let acc_m = tnum_mul_steps(a, b, TnumValue { value: 0, mask: 0 }, 64);
    tnum_add_spec(TnumValue { value: acc_v, mask: 0 }, acc_m)
}

/// `a` covers every value that `b` stands for (the Linux `tnum_in`).
pub open spec fn tnum_subsumes_spec(a: TnumValue, b: TnumValue) -> bool {
    b.mask & !a.mask == 0 && a.value == b.value & !a.mask
}

proof fn lemma_step_of_zero(b: TnumValue, acc: TnumValue)
    ensures
        tnum_mul_step(TnumValue { value: 0, mask: 0 }, b, acc).0 == (TnumValue { value: 0, mask: 0 }),
        tnum_mul_step(TnumValue { value: 0, mask: 0 }, b, acc).2 == acc,
{
    assert((0u64 >> 1u64) == 0 && (0u64 & 1) == 0) by (bit_vector);
}

/// Further steps with a zero multiplier leave the accumulator unchanged.
proof fn lemma_steps_of_zero(b: TnumValue, acc: TnumValue, n: nat)
    ensures
        tnum_mul_steps(TnumValue { value: 0, mask: 0 }, b, acc, n) == acc,
    decreases n,
{
    if n > 0 {
        lemma_step_of_zero(b, acc);
        let (a2, b2, acc2) = tnum_mul_step(TnumValue { value: 0, mask: 0 }, b, acc);
        lemma_steps_of_zero(b2, acc2, (n - 1) as nat);
    }
}

proof fn lemma_steps_unfold(a: TnumValue, b: TnumValue, acc: TnumValue, n: nat)
    requires
        n > 0,
    ensures
        tnum_mul_steps(a, b, acc, n) == ({
            let (a2, b2, acc2) = tnum_mul_step(a, b, acc);
            tnum_mul_steps(a2, b2, acc2, (n - 1) as nat)
        }),
{
}

/// Right-shifting by one keeps a zero-above-`e` bound, lowered by one.
proof fn lemma_shift_bound(v: u64, e: u64)
    requires
        1 <= e <= 64,
        e < 64 ==> (v >> e) == 0,
    ensures
        e >= 2 ==> ((v >> 1u64) >> (e - 1) as u64) == 0,
        e == 1 ==> (v >> 1u64) == 0,
{
    if e == 64 {
        assert(((v >> 1u64) >> 63u64) == 0) by (bit_vector);
    } else {
        assert(1 <= e < 64 && (v >> e) == 0 ==> (e >= 2 ==> ((v >> 1u64) >> (e - 1) as u64) == 0)
            && (e == 1 ==> (v >> 1u64) == 0)) by (bit_vector);
    }
}

impl TnumValue {
    /// `x` is one of the values this tnum stands for.
    pub open spec fn has(self, x: u64) -> bool {
        tnum_has(self.value, self.mask, x)
    }

    /// No bit is both known-set and unknown.
    pub open spec fn wf(self) -> bool {
        self.value & self.mask == 0
    }

    /// A tnum for a known constant.
    pub fn constant(value: u64) -> (r: Self)
        ensures
            r.value == value,
            r.mask == 0,
    {
        TnumValue { value, mask: 0 }
    }

    /// A tnum for a completely unknown value.
    pub fn unknown() -> (r: Self)
        ensures
            r.value == 0,
            r.mask == u64::MAX,
    {
        TnumValue { value: 0, mask: u64::MAX }
    }

    /// Check if this is a known constant.
    pub fn is_constant(&self) -> (r: bool)
        ensures
            r == (self.mask == 0),
    {
        self.mask == 0
    }

    /// The constant, if every bit is known.
    pub fn as_constant(&self) -> (r: Option<u64>)
        ensures
            r == (if self.mask == 0 { Some(self.value) } else { None::<u64> }),
    {
        if self.mask == 0 {
            Some(self.value)
        } else {
            None
        }
    }

    /// Whether `x` is one of the values this tnum stands for.
    pub fn contains(&self, x: u64) -> (r: bool)
        ensures
            r == self.has(x),
    {
        x & !self.mask == self.value
    }

    /// Whether this tnum covers every value that `other` stands for.
    pub fn subsumes(&self, other: &TnumValue) -> (r: bool)
        ensures
            r == tnum_subsumes_spec(*self, *other),
    {
        if other.mask & !self.mask != 0 {
            return false;
        }
        self.value == other.value & !self.mask
    }

    /// Tnum of the wrapping sum.
    pub fn add(self, other: TnumValue) -> (r: TnumValue)
        ensures
            r == tnum_add_spec(self, other),
    {
        let sm = ((self.mask as u128) + (other.mask as u128)) as u64;
        let sv = ((self.value as u128) + (other.value as u128)) as u64;
        let sigma = ((sm as u128) + (sv as u128)) as u64;
        let chi = sigma ^ sv;
        let mu = chi | self.mask | other.mask;
        TnumValue { value: sv & !mu, mask: mu }
    }

    /// Tnum of the wrapping difference.
    pub fn sub(self, other: TnumValue) -> (r: TnumValue)
        ensures
            r == tnum_sub_spec(self, other),
    {
        let dv = ((self.value as i128) - (other.value as i128)) as u64;
        let alpha = ((dv as u128) + (self.mask as u128)) as u64;
        let beta = ((dv as i128) - (other.mask as i128)) as u64;
        let chi = alpha ^ beta;
        let mu = chi | self.mask | other.mask;
        TnumValue { value: dv & !mu, mask: mu }
    }

    /// Tnum of the bitwise and.
    pub fn and(self, other: TnumValue) -> (r: TnumValue)
        ensures
            r == tnum_and_spec(self, other),
    {
        let alpha = self.value | self.mask;
        let beta = other.value | other.mask;
        let v = self.value & other.value;
        TnumValue { value: v, mask: alpha & beta & !v }
    }

    /// Tnum of the bitwise or.
    pub fn or(self, other: TnumValue) -> (r: TnumValue)
        ensures
            r == tnum_or_spec(self, other),
    {
        let v = self.value | other.value;
        let mu = self.mask | other.mask;
        TnumValue { value: v, mask: mu & !v }
    }

    /// Tnum of the bitwise exclusive or.
    pub fn xor(self, other: TnumValue) -> (r: TnumValue)
        ensures
            r == tnum_xor_spec(self, other),
    {
        let v = self.value ^ other.value;
        let mu = self.mask | other.mask;
        TnumValue { value: v & !mu, mask: mu }
    }

    /// Tnum of a left shift by `shift` (below 64).
    pub fn lshift(self, shift: u8) -> (r: TnumValue)
        requires
            shift < 64,
        ensures
            r == tnum_lshift_spec(self, shift as u64),
    {
        TnumValue { value: self.value << shift, mask: self.mask << shift }
    }

    /// Tnum of a logical right shift by `shift` (below 64).
    pub fn rshift(self, shift: u8) -> (r: TnumValue)
        requires
            shift < 64,
        ensures
            r == tnum_rshift_spec(self, shift as u64),
    {
        TnumValue { value: self.value >> shift, mask: self.mask >> shift }
    }

    /// Tnum of an arithmetic right shift by `shift` (below 64).
    pub fn arshift(self, shift: u8) -> (r: TnumValue)
        requires
            shift < 64,
        ensures
            r == tnum_arshift_spec(self, shift as u64),
    {
        TnumValue {
            value: ((self.value as i64) >> shift) as u64,
            mask: ((self.mask as i64) >> shift) as u64,
        }
    }

    /// Tnum of the wrapping product.
    pub fn mul(self, other: TnumValue) -> (r: TnumValue)
        ensures
            r == tnum_mul_spec(self, other),
    {
        let acc_v = self.value.wrapping_mul(other.value);
        let mut acc_m = TnumValue { value: 0, mask: 0 };
        let mut a = self;
        let mut b = other;
        let ghost mut k: nat = 0;
        while a.value != 0 || a.mask != 0
            invariant
                k <= 64,
                k >= 1 ==> (a.value >> (64 - k) as u64) == 0 && (a.mask >> (64 - k) as u64) == 0,
                tnum_mul_steps(self, other, TnumValue { value: 0, mask: 0 }, 64)
                    == tnum_mul_steps(a, b, acc_m, (64 - k) as nat),
            decreases 64 - k,
        {
            proof {
                if k == 64 {
                    let (v, m) = (a.value, a.mask);
                    assert((v >> 0u64) == v && (m >> 0u64) == m) by (bit_vector);
                }
                lemma_steps_unfold(a, b, acc_m, (64 - k) as nat);
                lemma_shift_bound(a.value, (64 - k) as u64);
                lemma_shift_bound(a.mask, (64 - k) as u64);
            }
            if a.value & 1 == 1 {
                acc_m = acc_m.add(TnumValue { value: 0, mask: b.mask });
            } else if a.mask & 1 == 1 {
                acc_m = acc_m.add(TnumValue { value: 0, mask: b.value | b.mask });
            }
            a = a.rshift(1);
            b = b.lshift(1);
            proof {
                k = k + 1;
                if k == 64 {
                    let (v, m) = (a.value, a.mask);
                    assert(v == 0 && m == 0 ==> (v >> 0u64) == 0 && (m >> 0u64) == 0) by (bit_vector);
                }
            }
        }
        proof {
            lemma_steps_of_zero(b, acc_m, (64 - k) as nat);
        }
        TnumValue { value: acc_v, mask: 0 }.add(acc_m)
    }
}

/// Soundness of tnum addition: the wrapping sum of members of two
/// well-formed tnums is a member of their tnum sum, which is well-formed.
pub proof fn lemma_tnum_add_sound(a: TnumValue, b: TnumValue, x: u64, y: u64)
    requires
        a.wf(),
        b.wf(),
        a.has(x),
        b.has(y),
    ensures
        tnum_add_spec(a, b).has((x + y) as u64),
        tnum_add_spec(a, b).wf(),
{
    let (av, am, bv, bm) = (a.value, a.mask, b.value, b.mask);
    assert(({
        let sm = (am + bm) as u64;
        let sv = (av + bv) as u64;
        let sigma = (sm + sv) as u64;
        let chi = sigma ^ sv;
        let mu = chi | am | bm;
        ((x + y) as u64) & !mu == sv & !mu && (sv & !mu) & mu == 0
    })) by (bit_vector)
        requires
            av & am == 0,
            bv & bm == 0,
            x & !am == av,
            y & !bm == bv,
    ;
}

/// Soundness of tnum subtraction.
pub proof fn lemma_tnum_sub_sound(a: TnumValue, b: TnumValue, x: u64, y: u64)
    requires
        a.wf(),
        b.wf(),
        a.has(x),
        b.has(y),
    ensures
        tnum_sub_spec(a, b).has((x - y) as u64),
        tnum_sub_spec(a, b).wf(),
{
    let (av, am, bv, bm) = (a.value, a.mask, b.value, b.mask);
    assert(({
        let dv = (av - bv) as u64;
        let alpha = (dv + am) as u64;
        let beta = (dv - bm) as u64;
        let chi = alpha ^ beta;
        let mu = chi | am | bm;
        ((x - y) as u64) & !mu == dv & !mu && (dv & !mu) & mu == 0
    })) by (bit_vector)
        requires
            av & am == 0,
            bv & bm == 0,
            x & !am == av,
            y & !bm == bv,
    ;
}

/// Soundness of the bitwise tnum operations.
pub proof fn lemma_tnum_bitwise_sound(a: TnumValue, b: TnumValue, x: u64, y: u64)
    requires
        a.wf(),
        b.wf(),
        a.has(x),
        b.has(y),
    ensures
        tnum_and_spec(a, b).has(x & y),
        tnum_and_spec(a, b).wf(),
        tnum_or_spec(a, b).has(x | y),
        tnum_or_spec(a, b).wf(),
        tnum_xor_spec(a, b).has(x ^ y),
        tnum_xor_spec(a, b).wf(),
{
    let (av, am, bv, bm) = (a.value, a.mask, b.value, b.mask);
    assert((x & y) & !((av | am) & (bv | bm) & !(av & bv)) == av & bv && (av & bv) & ((av | am)
        & (bv | bm) & !(av & bv)) == 0) by (bit_vector)
        requires
            av & am == 0,
            bv & bm == 0,
            x & !am == av,
            y & !bm == bv,
    ;
    assert((x | y) & !((am | bm) & !(av | bv)) == av | bv && (av | bv) & ((am | bm) & !(av | bv))
        == 0) by (bit_vector)
        requires
            av & am == 0,
            bv & bm == 0,
            x & !am == av,
            y & !bm == bv,
    ;
    assert((x ^ y) & !(am | bm) == (av ^ bv) & !(am | bm) && ((av ^ bv) & !(am | bm)) & (am | bm)
        == 0) by (bit_vector)
        requires
            av & am == 0,
            bv & bm == 0,
            x & !am == av,
            y & !bm == bv,
    ;
}

/// Soundness of the tnum shifts by an amount below 64.
pub proof fn lemma_tnum_shift_sound(a: TnumValue, x: u64, s: u64)
    requires
        a.wf(),
        a.has(x),
        s < 64,
    ensures
        tnum_lshift_spec(a, s).has(x << s),
        tnum_lshift_spec(a, s).wf(),
        tnum_rshift_spec(a, s).has(x >> s),
        tnum_rshift_spec(a, s).wf(),
        tnum_arshift_spec(a, s).has(((x as i64) >> s) as u64),
        tnum_arshift_spec(a, s).wf(),
{
    let (av, am) = (a.value, a.mask);
    assert((x << s) & !(am << s) == (av << s) && (av << s) & (am << s) == 0) by (bit_vector)
        requires
            av & am == 0,
            x & !am == av,
            s < 64,
    ;
    assert((x >> s) & !(am >> s) == (av >> s) && (av >> s) & (am >> s) == 0) by (bit_vector)
        requires
            av & am == 0,
            x & !am == av,
            s < 64,
    ;
    assert((((x as i64) >> s) as u64) & !(((am as i64) >> s) as u64) == ((av as i64) >> s) as u64
        && (((av as i64) >> s) as u64) & (((am as i64) >> s) as u64) == 0) by (bit_vector)
        requires
            av & am == 0,
            x & !am == av,
            s < 64,
    ;
}

/// Subsumption is sound: every member of `b` is a member of `a`.
pub proof fn lemma_tnum_subsumes_sound(a: TnumValue, b: TnumValue, x: u64)
    requires
        tnum_subsumes_spec(a, b),
        b.has(x),
    ensures
        a.has(x),
{
    let (av, am, bv, bm) = (a.value, a.mask, b.value, b.mask);
    assert(x & !am == av) by (bit_vector)
        requires
            bm & !am == 0,
            av == bv & !am,
            x & !bm == bv,
    ;
}

/// Subsumption is reflexive on well-formed tnums and transitive.
pub proof fn lemma_tnum_subsumes_preorder(a: TnumValue, b: TnumValue, c: TnumValue)
    ensures
        a.wf() ==> tnum_subsumes_spec(a, a),
        tnum_subsumes_spec(a, b) && tnum_subsumes_spec(b, c) ==> tnum_subsumes_spec(a, c),
{
    let (av, am, bv, bm, cv, cm) = (a.value, a.mask, b.value, b.mask, c.value, c.mask);
    assert(av & am == 0 ==> am & !am == 0 && av == av & !am) by (bit_vector);
    assert((bm & !am == 0 && av == bv & !am && cm & !bm == 0 && bv == cv & !bm) ==> (cm & !am
        == 0 && av == cv & !am)) by (bit_vector);
}

} // verus!
