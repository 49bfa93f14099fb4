use vstd::arithmetic::power2::pow2;
use vstd::prelude::*;

verus! {

/// The three LC-3 condition flags. The same triple doubles as the branch test
/// mask carried by a BR instruction.
#[derive(Debug, PartialEq, Eq, Structural, Clone, Copy)]
pub struct Condition {
    pub n: bool,
    pub z: bool,
    pub p: bool,
}

/// A branch mask is satisfied by the current flags when they share at least
/// one true flag.
pub open spec fn satisfies(current: Condition, mask: Condition) -> bool {
    (current.n && mask.n) || (current.z && mask.z) || (current.p && mask.p)
}

/// Exactly one of the three flags is set.
pub open spec fn exactly_one_flag(c: Condition) -> bool {
    ||| (c.n && !c.z && !c.p)
    ||| (!c.n && c.z && !c.p)
    ||| (!c.n && !c.z && c.p)
}

/// The flags that classify the sign of a signed 16-bit value.
pub open spec fn condition_for(v: i16) -> Condition {
    Condition { n: v < 0, z: v == 0, p: v > 0 }
}

/// The sign classification always sets exactly one flag.
pub proof fn lemma_condition_for_exclusive(v: i16)
    ensures
        exactly_one_flag(condition_for(v)),
{
}

impl Condition {
    /// Whether `self` (the current flags) shares a true flag with the branch
    /// mask `other`.
    pub fn is_satisfied_by(&self, other: &Condition) -> (r: bool)
        ensures
            r == satisfies(*self, *other),
    {
        (self.n && other.n) || (self.z && other.z) || (self.p && other.p)
    }
}

impl Default for Condition {
    /// All flags start clear; no instruction has classified a value yet.
    fn default() -> (c: Condition)
        ensures
            c == (Condition { n: false, z: false, p: false }),
    {
        Condition { n: false, z: false, p: false }
    }
}

/// The signed value denoted by a `width`-bit field holding `v`: the field is
/// read in two's complement, so values with the top bit set lie below zero.
pub open spec fn signed_value(v: u16, width: nat) -> int {
    if v < pow2((width - 1) as nat) {
        v as int
    } else {
        v as int - pow2(width)
    }
}

/// The same signed value, narrowed to `i16` (in range whenever `width <= 16`).
pub open spec fn signed16(v: u16, width: nat) -> i16 {
    signed_value(v, width) as i16
}

/// Sign-extend the low `bits` bits of `val` to a full 16-bit signed value.
pub fn sext(val: i16, bits: i32) -> (r: i16)
    requires
        1 <= bits <= 15,
        0 <= val < pow2(bits as nat),
    ensures
        r == signed16(val as u16, bits as nat),
        r as int == signed_value(val as u16, bits as nat),
{
    let uval = val as u16;
    let k = bits as u16;
    let j = k - 1;
    proof {
        lemma_shl_is_pow2(k);
        lemma_shl_is_pow2(j);
    }
    match (uval >> j) & 0b1 {
        0b1 => {
            proof {
                assert((uval >> j) & 0b1 == 1 && uval < (1u16 << k) && k == j + 1 && 1 <= k <= 15
                    ==> ((0xFFFFu16 << k) | uval) as i16 == uval - (1u16 << k)) by (bit_vector);
                assert((uval >> j) & 0b1 == 1 && k == j + 1 && 1 <= k <= 15 ==> uval >= (1u16
                    << j)) by (bit_vector);
                assert(-0x8000 <= uval as int - pow2(k as nat) < 0);
            }
            #[verifier::truncate] ((0xFFFF << k | uval) as i16)
        },
        _ => {
            proof {
                assert((uval >> j) & 0b1 != 1 && uval < (1u16 << k) && k == j + 1 && 1 <= k <= 15
                    ==> uval < (1u16 << j)) by (bit_vector);
            }
            val
        },
    }
}

/// `1 << k` on a 16-bit value is the k-th power of two.
pub proof fn lemma_shl_is_pow2(k: u16)
    requires
        k <= 15,
    ensures
        (1u16 << k) == pow2(k as nat),
{
    vstd::arithmetic::power2::lemma2_to64();
    vstd::bits::lemma_u16_shl_is_mul(1u16, k);
}

} // verus!
