//! Dictionary arrays and their slot-wise equality.
//!
//! A dictionary array stores per-slot keys into a small table of values.
//! Two arrays are equal when their logical slots are equal: a slot whose key
//! is null and a slot whose key points at a null value are the same slot.

use vstd::prelude::*;
use crate::marray::PrimitiveType;

verus! {

/// An array of keys into a dictionary of values.
#[derive(Debug, Clone)]
pub struct DictionaryArray {
    /// The logical value type of the array.
    pub data_type: PrimitiveType,
    /// One optional key per slot.
    pub keys: Vec<Option<usize>>,
    /// The dictionary the keys point into; an entry may itself be null.
    pub values: Vec<Option<i64>>,
}

/// The logical value of one slot: nothing if the key is null, out of range,
/// or points at a null value.
pub open spec fn spec_slot(a: DictionaryArray, i: int) -> Option<i64> {
    match a.keys@[i] {
        Some(k) => {
            if k < a.values@.len() {
                a.values@[k as int]
            } else {
                None
            }
        }
        None => None,
    }
}

/// Reads the logical value of one slot.
pub fn slot(a: &DictionaryArray, i: usize) -> (r: Option<i64>)
    requires
        i < a.keys@.len(),
    ensures
        r == spec_slot(*a, i as int),
{
    match a.keys[i] {
        Some(k) => {
            if k < a.values.len() {
                a.values[k]
            } else {
                None
            }
        }
        None => None,
    }
}

/// Whether two dictionary arrays are equal: same logical type, same length,
/// and slot-for-slot the same logical value. A null key on one side equals
/// a key pointing at a null value on the other.
pub open spec fn spec_equal(lhs: DictionaryArray, rhs: DictionaryArray) -> bool {
    &&& lhs.data_type == rhs.data_type
    &&& lhs.keys@.len() == rhs.keys@.len()
    &&& forall|i: int| 0 <= i < lhs.keys@.len() ==> spec_slot(lhs, i) == #[trigger] spec_slot(
        rhs,
        i,
    )
}

/// Compares two dictionary arrays slot by slot.
pub fn equal(lhs: &DictionaryArray, rhs: &DictionaryArray) -> (r: bool)
    ensures
        r == spec_equal(*lhs, *rhs),
{
    if lhs.data_type != rhs.data_type {
        return false;
    }
    if lhs.keys.len() != rhs.keys.len() {
        return false;
    }
    let n = lhs.keys.len();
    let mut i: usize = 0;
    while i < n
        invariant
            i <= n,
            n == lhs.keys@.len(),
            n == rhs.keys@.len(),
            forall|j: int| 0 <= j < i ==> spec_slot(*lhs, j) == #[trigger] spec_slot(*rhs, j),
        decreases n - i,
    {
        let a = slot(lhs, i);
        let b = slot(rhs, i);
        let same = match (a, b) {
            (None, None) => true,
            (Some(x), Some(y)) => x == y,
            _ => false,
        };
        if !same {
            return false;
        }
        i = i + 1;
    }
    true
}

} // verus!
