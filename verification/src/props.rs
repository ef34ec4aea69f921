//! Property maps.

use vstd::prelude::*;

use crate::alist::AList;
use crate::ambiguous::UnresolvedValue;
use crate::value::TypedValue;

verus! {

/// A property map: property name to exactly-typed value, keys unique.
pub type Props = AList<TypedValue>;

/// A loose property map: property name to loose value, keys unique; the
/// shape sidecar files and project nodes carry.
pub type UProps = AList<UnresolvedValue>;

} // verus!
