//! The bit storage that backs a grid, and what is taken on trust about it.

use fixedbitset::FixedBitSet;
use vstd::prelude::*;

verus! {

/// `fixedbitset::FixedBitSet`, held as an opaque value.
#[verifier::external_type_specification]
#[verifier::external_body]
pub struct ExFixedBitSet(fixedbitset::FixedBitSet);

/// The bits that a `FixedBitSet` holds, in index order: entry `i` is `true`
/// exactly when bit `i` is enabled, and the length is the set's `len()`.
pub uninterp spec fn bits_of(set: FixedBitSet) -> Seq<bool>;

/// `FixedBitSet::with_capacity`: a set of `bits` bits, all of them disabled.
pub assume_specification[ FixedBitSet::with_capacity ](bits: usize) -> (set: FixedBitSet)
    ensures
        bits_of(set) == Seq::new(bits as nat, |i: int| false),
;

/// `FixedBitSet::contains`: whether `bit` is enabled; a bit at or beyond the
/// set's length counts as disabled.
pub assume_specification[ FixedBitSet::contains ](set: &FixedBitSet, bit: usize) -> (enabled: bool)
    ensures
        enabled == (bit < bits_of(*set).len() && bits_of(*set)[bit as int]),
;

/// `FixedBitSet::set`: gives `bit` the value `enabled` and leaves every other
/// bit and the length as they were. The outside method panics when `bit` is
/// not below the length, so that is required here.
pub assume_specification[ FixedBitSet::set ](set: &mut FixedBitSet, bit: usize, enabled: bool)
    requires
        bit < bits_of(*old(set)).len(),
    ensures
        bits_of(*final(set)) == bits_of(*old(set)).update(bit as int, enabled),
;

} // verus!
