//! Float policies: whether and how 32- and 64-bit floats take part in keys.
//!
//! A float reaches this crate as its IEEE 754 bit pattern. Under
//! [`RejectFloatPolicy`] no float can be held at all; under
//! [`OrderedFloatPolicy`] a float is held by its place in a total order in
//! which every NaN is equal to every other NaN and above all numbers, and
//! numbers are in their usual order, with negative zero just below zero.
//!
//! Every float that is not a NaN is handed back with exactly the bits it came
//! with. A NaN is handed back as the quiet NaN of its width: its payload is not
//! kept. Keeping it would need a second field that equality, order and hash
//! ignore, and the verifier refuses the hand-written `Ord` that such a field
//! needs (its `cmp` cannot meet the postcondition that vstd gives `Ord::cmp`
//! without an `OrdSpecImpl`), while a derived `Ord` would tell NaNs apart.
use vstd::prelude::*;

use core::cmp::Ordering;

use crate::error::Error;
use crate::order::int_cmp;
use crate::sealed::Sealed;

verus! {

/// How a float of one width (its bit pattern of type `B`) is held in a key.
pub trait FloatRepr<B>: Sealed + Sized + Copy + core::fmt::Debug + Eq + Ord + core::hash::Hash {
    /// Place of the value in the total order of its width.
    spec fn rank(&self) -> int;

    /// What capturing the float with bit pattern `bits` gives.
    spec fn captured(bits: B) -> Result<Self, Error>;

    /// The bit pattern that the value is handed back as.
    spec fn emitted(&self) -> B;

    /// Captures the float with bit pattern `bits`, or refuses it.
    fn serialize(bits: B) -> (r: Result<Self, Error>)
        ensures
            r == Self::captured(bits),
    ;

    /// The bit pattern of the float that this value stands for.
    fn to_bits(&self) -> (r: B)
        ensures
            r == self.emitted(),
    ;

    /// Compares two values by their place in the order.
    fn compare(&self, other: &Self) -> (r: Ordering)
        ensures
            r == int_cmp(self.rank(), other.rank()),
    ;
}

/// A policy for floats: the representation of each width.
pub trait FloatPolicy: Sealed + Sized + Copy + core::fmt::Debug + Eq + Ord + core::hash::Hash {
    /// How a 32-bit float is held.
    type F32: FloatRepr<u32>;

    /// How a 64-bit float is held.
    type F64: FloatRepr<u64>;
}

/// A representation that no value has: [`RejectFloatPolicy`] uses it, so that
/// a key under that policy can never hold a float.
#[derive(Debug, Clone, Copy, PartialEq, Eq, PartialOrd, Ord, Hash)]
pub struct NeverFloat(core::convert::Infallible);

impl NeverFloat {
    /// No value of this type exists.
    #[verifier::type_invariant]
    spec fn inhabited(&self) -> bool {
        false
    }
}

impl Sealed for NeverFloat {
}

impl FloatRepr<u32> for NeverFloat {
    open spec fn rank(&self) -> int {
        0
    }

    open spec fn captured(bits: u32) -> Result<Self, Error> {
        Err(Error::UnsupportedType("f32"))
    }

    open spec fn emitted(&self) -> u32 {
        0
    }

    fn serialize(bits: u32) -> (r: Result<Self, Error>) {
        Err(Error::UnsupportedType("f32"))
    }

    fn to_bits(&self) -> (r: u32) {
        proof {
            use_type_invariant(self);
        }
        0
    }

    fn compare(&self, other: &Self) -> (r: Ordering) {
        Ordering::Equal
    }
}

impl FloatRepr<u64> for NeverFloat {
    open spec fn rank(&self) -> int {
        0
    }

    open spec fn captured(bits: u64) -> Result<Self, Error> {
        Err(Error::UnsupportedType("f64"))
    }

    open spec fn emitted(&self) -> u64 {
        0
    }

    fn serialize(bits: u64) -> (r: Result<Self, Error>) {
        Err(Error::UnsupportedType("f64"))
    }

    fn to_bits(&self) -> (r: u64) {
        proof {
            use_type_invariant(self);
        }
        0
    }

    fn compare(&self, other: &Self) -> (r: Ordering) {
        Ordering::Equal
    }
}

/// The float policy that refuses every float with
/// [`Error::UnsupportedType`].
#[derive(Debug, Clone, Copy, PartialEq, Eq, PartialOrd, Ord, Hash)]
pub struct RejectFloatPolicy(());

impl Sealed for RejectFloatPolicy {
}

impl FloatPolicy for RejectFloatPolicy {
    type F32 = NeverFloat;
    type F64 = NeverFloat;
}

/// Size of the magnitude of a 32-bit float, the bits below the sign.
pub open spec fn magnitude32(bits: u32) -> int {
    bits as int % 0x8000_0000
}

/// The bits are those of a 32-bit NaN: all exponent bits set, and a mantissa
/// that is not zero.
pub open spec fn is_nan32(bits: u32) -> bool {
    magnitude32(bits) > 0x7F80_0000
}

/// Place of a 32-bit float in the order of keys: its magnitude for a
/// non-negative number, one below minus its magnitude for a negative one (so
/// that numbers order as IEEE 754 orders them, negative zero just below zero),
/// and one place above every number for a NaN.
pub open spec fn order32(bits: u32) -> int {
    if is_nan32(bits) {
        0x7FFF_FFFF
    } else if bits >= 0x8000_0000 {
        -magnitude32(bits) - 1
    } else {
        magnitude32(bits)
    }
}

/// The bits that a captured 32-bit float is handed back as: a NaN becomes the
/// quiet NaN `0x7FC0_0000`; every other float keeps its bits.
pub open spec fn canonical32(bits: u32) -> u32 {
    if is_nan32(bits) {
        0x7FC0_0000
    } else {
        bits
    }
}

/// Size of the magnitude of a 64-bit float, the bits below the sign.
pub open spec fn magnitude64(bits: u64) -> int {
    bits as int % 0x8000_0000_0000_0000
}

/// The bits are those of a 64-bit NaN.
pub open spec fn is_nan64(bits: u64) -> bool {
    magnitude64(bits) > 0x7FF0_0000_0000_0000
}

/// Place of a 64-bit float in the order of keys, as [`order32`] for 32 bits.
pub open spec fn order64(bits: u64) -> int {
    if is_nan64(bits) {
        0x7FFF_FFFF_FFFF_FFFF
    } else if bits >= 0x8000_0000_0000_0000 {
        -magnitude64(bits) - 1
    } else {
        magnitude64(bits)
    }
}

/// The bits that a captured 64-bit float is handed back as: a NaN becomes the
/// quiet NaN `0x7FF8_0000_0000_0000`; every other float keeps its bits.
pub open spec fn canonical64(bits: u64) -> u64 {
    if is_nan64(bits) {
        0x7FF8_0000_0000_0000
    } else {
        bits
    }
}

/// A float held by its place in the total order of its width (`T` is `u32`
/// for 32-bit floats and `u64` for 64-bit ones), shifted so that it is never
/// negative. Equality, order and hash all go by that place, so they agree with
/// each other.
///
/// The place is the canonical form of the float: it determines the bits of
/// every float that is not a NaN (see [`canonical32`] and [`canonical64`]),
/// and all NaNs of a width share one place, handed back as the quiet NaN.
#[derive(Debug, Clone, Copy, PartialEq, Eq, PartialOrd, Ord, Hash)]
pub struct OrderedFloat<T>(T);

impl Sealed for OrderedFloat<u32> {
}

impl Sealed for OrderedFloat<u64> {
}

impl OrderedFloat<u32> {
    /// The place of a 32-bit float, shifted up by `2^31`.
    fn place_of_bits(bits: u32) -> (r: u32)
        ensures
            r == order32(bits) + 0x8000_0000,
    {
        let m: u32 = bits % 0x8000_0000;
        if m > 0x7F80_0000 {
            0xFFFF_FFFF
        } else if bits >= 0x8000_0000 {
            0x7FFF_FFFF - m
        } else {
            0x8000_0000 + m
        }
    }
}

/// The bits handed back for a 32-bit place. Places below `0x007F_FFFF` are
/// never captured.
pub open spec fn bits_of_place32(place: u32) -> u32 {
    if place == 0xFFFF_FFFF || place < 0x007F_FFFF {
        0x7FC0_0000
    } else if place >= 0x8000_0000 {
        (place - 0x8000_0000) as u32
    } else {
        (0x8000_0000 + (0x7FFF_FFFF - place)) as u32
    }
}

impl FloatRepr<u32> for OrderedFloat<u32> {
    closed spec fn rank(&self) -> int {
        self.0 as int
    }

    closed spec fn captured(bits: u32) -> Result<Self, Error> {
        Ok(OrderedFloat((order32(bits) + 0x8000_0000) as u32))
    }

    closed spec fn emitted(&self) -> u32 {
        bits_of_place32(self.0)
    }

    fn serialize(bits: u32) -> (r: Result<Self, Error>) {
        Ok(OrderedFloat(Self::place_of_bits(bits)))
    }

    fn to_bits(&self) -> (r: u32) {
        let p = self.0;
        if p == 0xFFFF_FFFF || p < 0x007F_FFFF {
            0x7FC0_0000
        } else if p >= 0x8000_0000 {
            p - 0x8000_0000
        } else {
            0x8000_0000 + (0x7FFF_FFFF - p)
        }
    }

    fn compare(&self, other: &Self) -> (r: Ordering) {
        if self.0 < other.0 {
            Ordering::Less
        } else if self.0 == other.0 {
            Ordering::Equal
        } else {
            Ordering::Greater
        }
    }
}

impl OrderedFloat<u64> {
    /// The place of a 64-bit float, shifted up by `2^63`.
    fn place_of_bits(bits: u64) -> (r: u64)
        ensures
            r == order64(bits) + 0x8000_0000_0000_0000,
    {
        let m: u64 = bits % 0x8000_0000_0000_0000;
        if m > 0x7FF0_0000_0000_0000 {
            0xFFFF_FFFF_FFFF_FFFF
        } else if bits >= 0x8000_0000_0000_0000 {
            0x7FFF_FFFF_FFFF_FFFF - m
        } else {
            0x8000_0000_0000_0000 + m
        }
    }
}

/// The bits handed back for a 64-bit place. Places below `2^52 - 1` are never
/// captured.
pub open spec fn bits_of_place64(place: u64) -> u64 {
    if place == 0xFFFF_FFFF_FFFF_FFFF || place < 0x000F_FFFF_FFFF_FFFF {
        0x7FF8_0000_0000_0000
    } else if place >= 0x8000_0000_0000_0000 {
        (place - 0x8000_0000_0000_0000) as u64
    } else {
        (0x8000_0000_0000_0000 + (0x7FFF_FFFF_FFFF_FFFF - place)) as u64
    }
}

impl FloatRepr<u64> for OrderedFloat<u64> {
    closed spec fn rank(&self) -> int {
        self.0 as int
    }

    closed spec fn captured(bits: u64) -> Result<Self, Error> {
        Ok(OrderedFloat((order64(bits) + 0x8000_0000_0000_0000) as u64))
    }

    closed spec fn emitted(&self) -> u64 {
        bits_of_place64(self.0)
    }

    fn serialize(bits: u64) -> (r: Result<Self, Error>) {
        Ok(OrderedFloat(Self::place_of_bits(bits)))
    }

    fn to_bits(&self) -> (r: u64) {
        let p = self.0;
        if p == 0xFFFF_FFFF_FFFF_FFFF || p < 0x000F_FFFF_FFFF_FFFF {
            0x7FF8_0000_0000_0000
        } else if p >= 0x8000_0000_0000_0000 {
            p - 0x8000_0000_0000_0000
        } else {
            0x8000_0000_0000_0000 + (0x7FFF_FFFF_FFFF_FFFF - p)
        }
    }

    fn compare(&self, other: &Self) -> (r: Ordering) {
        if self.0 < other.0 {
            Ordering::Less
        } else if self.0 == other.0 {
            Ordering::Equal
        } else {
            Ordering::Greater
        }
    }
}

/// The float policy under which floats are captured by their place in the
/// total order described at the top of this module.
#[derive(Debug, Clone, Copy, PartialEq, Eq, PartialOrd, Ord, Hash)]
pub struct OrderedFloatPolicy(());

impl Sealed for OrderedFloatPolicy {
}

impl FloatPolicy for OrderedFloatPolicy {
    type F32 = OrderedFloat<u32>;
    type F64 = OrderedFloat<u64>;
}

/// A 32-bit float is always captured, at the place that [`order32`] gives it,
/// and is handed back with its own bits unless it is a NaN.
pub proof fn lemma_f32_round_trip(bits: u32)
    ensures
        OrderedFloat::<u32>::captured(bits) matches Ok(f) && f.rank() == order32(bits)
            + 0x8000_0000 && f.emitted() == canonical32(bits),
        !is_nan32(bits) ==> canonical32(bits) == bits,
{
}

/// A 64-bit float is always captured, at the place that [`order64`] gives it,
/// and is handed back with its own bits unless it is a NaN.
pub proof fn lemma_f64_round_trip(bits: u64)
    ensures
        OrderedFloat::<u64>::captured(bits) matches Ok(f) && f.rank() == order64(bits)
            + 0x8000_0000_0000_0000 && f.emitted() == canonical64(bits),
        !is_nan64(bits) ==> canonical64(bits) == bits,
{
}

/// Two 32-bit floats take the same place exactly when both are NaNs or their
/// bits are the same; a NaN's place is above every number's.
pub proof fn lemma_order32(a: u32, b: u32)
    ensures
        (order32(a) == order32(b)) <==> ((is_nan32(a) && is_nan32(b)) || a == b),
        is_nan32(a) && !is_nan32(b) ==> order32(b) < order32(a),
{
}

/// Two 64-bit floats take the same place exactly when both are NaNs or their
/// bits are the same; a NaN's place is above every number's.
pub proof fn lemma_order64(a: u64, b: u64)
    ensures
        (order64(a) == order64(b)) <==> ((is_nan64(a) && is_nan64(b)) || a == b),
        is_nan64(a) && !is_nan64(b) ==> order64(b) < order64(a),
{
}

} // verus!
