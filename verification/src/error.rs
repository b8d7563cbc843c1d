//! The ways in which an operation is rejected.
use vstd::prelude::*;

verus! {

/// Why an operation was rejected. A rejected operation changes nothing.
#[derive(Clone, Copy, Debug, PartialEq, Eq, Structural)]
pub enum ContractError {
    /// The caller lacks the role, approval or grant that the operation asks
    /// for. A grant that has ended counts as none.
    Unauthorized,
    /// The token ID is taken, by a token or by one that was burnt.
    AlreadyExists,
    /// No token, approval or pending transfer of that name exists.
    NotFound,
    /// The approval to set has ended already, or the pending transfer to
    /// accept has.
    Expired,
    /// An account identifier is malformed.
    InvalidInput,
    /// The notification for the receiving contract could not be encoded.
    Serialization,
}

} // verus!
