//! Points at which a period of the round ends, and the block they are held
//! against.

use vstd::prelude::*;

verus! {

/// What the round reads of the block in which a message runs.
#[derive(Debug, Clone, Copy, PartialEq, Eq)]
pub struct BlockInfo {
    /// The number of blocks before this one.
    pub height: u64,
    /// When the block was made, in nanoseconds since the Unix epoch.
    pub time: u64,
}

/// What the round reads of the environment in which a message runs.
#[derive(Debug, Clone, Copy, PartialEq, Eq)]
pub struct Env {
    pub block: BlockInfo,
}

/// A point at which a period ends.
#[derive(Debug, Clone, Copy, PartialEq, Eq)]
pub enum Expiration {
    /// The period is over from the block of this height on.
    AtHeight(u64),
    /// The period is over from this time on, in nanoseconds since the Unix
    /// epoch.
    AtTime(u64),
    /// The period has no end.
    Never,
}

impl Expiration {
    /// The period is over in the given block.
    pub open spec fn expired_in(self, block: BlockInfo) -> bool {
        match self {
            Expiration::AtHeight(height) => block.height >= height,
            Expiration::AtTime(time) => block.time >= time,
            Expiration::Never => false,
        }
    }
}

/// Asks `cw_utils::Expiration::is_expired` whether the period is over in the
/// given block.
///
/// Trusted: the answer is taken to be what `cw_utils` documents for each
/// variant. A height has expired once the block's height has reached it, a
/// time once the block's time has reached it, and `Never` has not.
#[verifier::external_body]
pub(crate) fn is_expired(expiration: &Expiration, block: &BlockInfo) -> (expired: bool)
    ensures
        expired == expiration.expired_in(*block),
{
    let outside = match expiration {
        Expiration::AtHeight(height) => cw_utils::Expiration::AtHeight(*height),
        Expiration::AtTime(time) => cw_utils::Expiration::AtTime(
            cosmwasm_std::Timestamp::from_nanos(*time),
        ),
        Expiration::Never => cw_utils::Expiration::Never {},
    };
    outside.is_expired(
        &cosmwasm_std::BlockInfo {
            height: block.height,
            time: cosmwasm_std::Timestamp::from_nanos(block.time),
            chain_id: String::new(),
        },
    )
}

} // verus!
