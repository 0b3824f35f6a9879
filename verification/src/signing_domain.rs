//! The kinds of messages that are signed.
use crate::signed::SigningDomain;
use vstd::prelude::*;

verus! {

/// Name records.
pub struct NameRecord {}

impl SigningDomain for NameRecord {

}

} // verus!
