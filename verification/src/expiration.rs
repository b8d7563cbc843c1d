//! Blocks, callers and points in time at which a grant ends.
use vstd::prelude::*;

verus! {

/// The block in which an operation runs.
#[derive(Clone, Copy, Debug, PartialEq, Eq, Structural)]
pub struct BlockInfo {
    /// The height of the block.
    pub height: u64,
    /// The time of the block, in nanoseconds since the epoch.
    pub time: u64,
}

/// What an operation learns of its surroundings.
#[derive(Clone, Copy, Debug, PartialEq, Eq, Structural)]
pub struct Env {
    pub block: BlockInfo,
}

/// Who asks for an operation.
#[derive(Debug, PartialEq, Eq)]
pub struct MessageInfo {
    pub sender: String,
}

/// The point at which a grant ends.
#[derive(Clone, Copy, Debug, PartialEq, Eq, Structural)]
pub enum Expiration {
    /// The grant has ended once the block height has reached this height.
    AtHeight(u64),
    /// The grant has ended once the block time has reached this time, in
    /// nanoseconds since the epoch.
    AtTime(u64),
    /// The grant does not end.
    Never,
}

impl Expiration {
    /// Whether the grant has ended in `block`.
    pub open spec fn expired_at(self, block: BlockInfo) -> bool {
        match self {
            Expiration::AtHeight(height) => block.height >= height,
            Expiration::AtTime(time) => block.time >= time,
            Expiration::Never => false,
        }
    }

    /// Tells whether the grant has ended in `block`.
    pub fn is_expired(&self, block: &BlockInfo) -> (r: bool)
        ensures
            r == self.expired_at(*block),
    {
        match self {
            Expiration::AtHeight(height) => block.height >= *height,
            Expiration::AtTime(time) => block.time >= *time,
            Expiration::Never => false,
        }
    }
}

impl Default for Expiration {
    /// A grant that does not end.
    fn default() -> (r: Self)
        ensures
            r == Expiration::Never,
    {
        Expiration::Never
    }
}

/// The end of a grant that names none: it does not end.
pub open spec fn or_never(expires: Option<Expiration>) -> Expiration {
    match expires {
        Some(e) => e,
        None => Expiration::Never,
    }
}

/// The end of a grant, `Never` where none is named.
pub fn unwrap_or_never(expires: Option<Expiration>) -> (r: Expiration)
    ensures
        r == or_never(expires),
{
    match expires {
        Some(e) => e,
        None => Expiration::Never,
    }
}

} // verus!
