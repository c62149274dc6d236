//! Routing metadata store of a horizontally sharded tabular data store.
//!
//! Each logical table is split into regions, and each region is assigned to
//! one leader node plus zero or more follower nodes. This crate records, in a
//! key-value substrate, the mapping from a table's name to its catalog record
//! and the mapping from a table's id to the physical placement of its regions,
//! under stable, reversible key encodings.

use vstd::prelude::*;

pub mod codec;
pub mod constraint;
pub mod error;
pub mod keys;
pub mod kv;
pub mod table_routes;
pub mod values;

verus! {

/// The byte that separates the fields of an encoded key: ASCII `-`.
///
/// Names that contain this byte cannot appear in a key; the encoders reject
/// them and the well-formedness predicates of the key types exclude them.
pub const KEY_SEPARATOR: u8 = 45;

/// Holds of a name that may appear as a field of an encoded key: the name
/// contains no separator byte, so the encoding can be split back into its
/// fields unambiguously.
pub open spec fn name_ok(s: Seq<u8>) -> bool {
    forall|i: int| 0 <= i < s.len() ==> s[i] != KEY_SEPARATOR
}

/// Checks at run time that a name is free of the key separator.
pub fn check_name_ok(s: &Vec<u8>) -> (r: bool)
    ensures
        r == name_ok(s@),
{
    let mut i: usize = 0;
    while i < s.len()
        invariant
            0 <= i <= s@.len(),
            forall|j: int| 0 <= j < i ==> s@[j] != KEY_SEPARATOR,
        decreases s@.len() - i,
    {
        if s[i] == KEY_SEPARATOR {
            return false;
        }
        i = i + 1;
    }
    true
}

} // verus!
