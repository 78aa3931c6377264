use vstd::prelude::*;

verus! {

/// Every way a registry call can fail. A failed call commits nothing:
/// the contracts of the mutating operations state that the registry is
/// unchanged whenever one of these is returned.
#[derive(Clone, Copy, Debug, PartialEq, Eq, Structural)]
pub enum Error {
    /// The id or identity is not in the registry.
    NotFound,
    /// The identity already holds a directory entry covering the requested role.
    AlreadyRegistered,
    /// The acting identity lacks the role the operation demands.
    UnauthorizedRole,
    /// The acting identity is not the actor this operation belongs to.
    Unauthorized,
    /// The transition was attempted from a state that does not allow it.
    WrongState,
    /// A poster tried to claim their own item.
    SelfClaimForbidden,
    /// A claim was attempted on an item that is no longer open.
    AlreadyClaimed,
    /// Settlement was attempted before the item was completed.
    NotPayable,
    /// The offered amount differs from the price owed.
    AmountMismatch,
    /// Settlement was attempted on an item that is already settled.
    AlreadySettled,
    /// An insert would overwrite an existing canonical record. With
    /// engine-assigned ids this is unreachable and signals an engine bug.
    DuplicateId,
}

} // verus!
