use vstd::prelude::*;

verus! {

/// What can go wrong while running a command or a query.
#[derive(Clone, Copy, Debug, PartialEq, Eq, Structural)]
pub enum CoreError {
    /// The requested counter does not exist.
    NotFound,
    /// The storage refused to record something.
    PersistenceFailure,
    /// An event could not be applied to the read model.
    ProjectionFailure,
}

} // verus!
