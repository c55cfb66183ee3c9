//! Field elements and storage words.
//!
//! Account storage is addressed in words of four field elements.  A field
//! element is modelled as a `u64` reduced modulo the ledger's prime field
//! modulus; a word is four such elements.

use vstd::prelude::*;

verus! {

/// The prime modulus of the ledger's base field: `2^64 - 2^32 + 1`.
pub const FIELD_MODULUS: u64 = 0xffff_ffff_0000_0001;

/// A `u64` stands for a field element exactly when it is already reduced.
pub open spec fn felt_valid(x: u64) -> bool {
    x < FIELD_MODULUS
}

/// One word of ledger state: four field elements.  The counter contract
/// keeps its running count in the last element, `e3`.
#[derive(Clone, Copy, Debug, PartialEq, Eq, Structural)]
pub struct Word {
    pub e0: u64,
    pub e1: u64,
    pub e2: u64,
    pub e3: u64,
}

impl Word {
    /// A word is valid when every element is a reduced field element.
    pub open spec fn is_valid(self) -> bool {
        felt_valid(self.e0) && felt_valid(self.e1) && felt_valid(self.e2) && felt_valid(self.e3)
    }

    /// The element at `index`, or `None` past the width of a word.
    pub open spec fn spec_get(self, index: int) -> Option<u64> {
        if index == 0 {
            Some(self.e0)
        } else if index == 1 {
            Some(self.e1)
        } else if index == 2 {
            Some(self.e2)
        } else if index == 3 {
            Some(self.e3)
        } else {
            None
        }
    }

    /// The all-zero word, the initial value of a fresh storage slot.
    pub fn zero() -> (w: Word)
        ensures
            w == (Word { e0: 0, e1: 0, e2: 0, e3: 0 }),
            w.is_valid(),
    {
        Word { e0: 0, e1: 0, e2: 0, e3: 0 }
    }

    /// Reads one element of the word by index.
    pub fn get(&self, index: usize) -> (r: Option<u64>)
        ensures
            r == self.spec_get(index as int),
    {
        if index == 0 {
            Some(self.e0)
        } else if index == 1 {
            Some(self.e1)
        } else if index == 2 {
            Some(self.e2)
        } else if index == 3 {
            Some(self.e3)
        } else {
            None
        }
    }
}

/// The canonical field element of an arbitrary `u64`.
pub open spec fn felt_reduce(x: u64) -> u64 {
    (x % FIELD_MODULUS) as u64
}

/// Reduces a `u64` into the field.
pub fn felt_new(x: u64) -> (r: u64)
    ensures
        r == felt_reduce(x),
        felt_valid(r),
{
    x % FIELD_MODULUS
}

/// The sum of two field elements, wrapping around the modulus.
pub open spec fn spec_felt_add(a: u64, b: u64) -> u64 {
    (((a + b) as int) % (FIELD_MODULUS as int)) as u64
}

/// Adds two field elements.
pub fn felt_add(a: u64, b: u64) -> (r: u64)
    requires
        felt_valid(a),
        felt_valid(b),
    ensures
        r == spec_felt_add(a, b),
        felt_valid(r),
{
    let s: u128 = a as u128 + b as u128;
    let m: u128 = FIELD_MODULUS as u128;
    if s >= m {
        assert(s - m < FIELD_MODULUS);
        assert((s - m) as int == ((a + b) as int) % (FIELD_MODULUS as int)) by {
            assert(((a + b) as int) - FIELD_MODULUS < FIELD_MODULUS);
        };
        (s - m) as u64
    } else {
        assert((s as int) % (FIELD_MODULUS as int) == s as int);
        a + b
    }
}

/// The word after one increment of the counter element.
pub open spec fn spec_increment_word(w: Word) -> Word {
    Word { e0: w.e0, e1: w.e1, e2: w.e2, e3: spec_felt_add(w.e3, 1) }
}

/// Advances the counter element of a storage word by one, as a committed
/// increment transaction does to the counter contract's first slot.
pub fn increment_word(w: &Word) -> (r: Word)
    requires
        w.is_valid(),
    ensures
        r == spec_increment_word(*w),
        r.is_valid(),
{
    Word { e0: w.e0, e1: w.e1, e2: w.e2, e3: felt_add(w.e3, 1) }
}

} // verus!
