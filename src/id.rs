use vstd::prelude::*;

verus! {

/// A durable identifier of an entity inside one identity-keyed collection.
///
/// Identifiers are issued in increasing order and never reused by the
/// collection that issued them; they carry no positional meaning.
#[derive(Clone, Copy, PartialEq, Eq, Structural, Debug, Hash, PartialOrd, Ord)]
pub struct Uid(pub u64);

/// A position in the current iteration order of a collection.
///
/// Positions are derived and transient: any insertion or removal may shift them.
pub type OrderNum = usize;

} // verus!
