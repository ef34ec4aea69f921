//! Syncback: keeps a hierarchical instance tree consistent with a filesystem
//! representation, in both directions.
//!
//! The core is the write-back reconciliation engine: a data model describing
//! where an instance's bytes live (`Meta`/`Source`), diff envelopes describing
//! a single change, algorithms that apply an addition, update or removal to
//! both the in-memory tree and the disk layout, and a property codec that
//! converts between loosely-typed, human-editable values and exact typed
//! values.
//!
//! All file-system effects are expressed against an in-memory model of the
//! disk ([`vfs::Vfs`]) which records an action log; a thin outer layer replays
//! that log against a real disk.

pub mod alist;
pub mod cli;
pub mod ambiguous;
pub mod datafile;
pub mod engine;
pub mod filter;
pub mod meta;
pub mod path;
pub mod project;
pub mod props;
pub mod read;
pub mod reflect;
pub mod resolution;
pub mod snapshot;
pub mod text;
pub mod tree;
pub mod updater;
pub mod value;
pub mod vfs;

use vstd::prelude::*;

verus! {

/// Numbers in loose values are fixed-point with six decimal digits: a value
/// is stored as an integer count of millionths. Values are clamped to
/// `MAX_NUM_MICROS` in magnitude, mirroring the codec's rule that infinite
/// values are clamped to a large finite sentinel before serialization.
pub type Micros = i64;

/// The clamp sentinel, `999_999_999.0`, in millionths.
pub const MAX_NUM_MICROS: i64 = 999_999_999_000_000;

/// A fixed-point number is well formed when it is within the clamp range.
pub open spec fn micros_wf(m: i64) -> bool {
    -MAX_NUM_MICROS <= m <= MAX_NUM_MICROS
}

} // verus!
