//! The final output of a credentials parse: a mapping from profile name to
//! committed credential record.

use vstd::prelude::*;
use crate::record::CredentialRecord;
use crate::str_map::StrKeyMap;

verus! {

/// The profile map: the committed records of one parse, keyed by profile
/// name, with distinct names.
pub type ProfileMap = StrKeyMap<CredentialRecord>;

} // verus!
