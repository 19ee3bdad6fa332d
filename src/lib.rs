//! A liquidity-mining campaign engine over a constant-product market maker.
//!
//! The library holds the engine's arithmetic (fee split, fee-inclusive swap
//! output, safe-emission cap, reward weights), the campaign lifecycle as a state
//! machine over an in-memory store, and a URL-safe base64 encoder. The market
//! maker and token transfers are outside collaborators: the lifecycle entry
//! points take what they observed (reserves, minted liquidity, balances) as
//! arguments and return what is to be paid out.
use vstd::prelude::*;

pub mod base64_url;
pub mod laws;
pub mod manager;
pub mod math;
pub mod rewards;
pub mod storage;
pub mod zap;

verus! {

/// Every way an entry point of the engine can refuse a call.
#[derive(Clone, Copy, Debug, PartialEq, Eq, Structural)]
pub enum FlashErr {
    /// The engine was already initialized.
    AlreadyInit,
    /// Arithmetic overflowed, or produced an amount out of its range.
    Math,
    /// A surplus of one whole or more.
    BpsOutOfRange,
    /// A claim before the campaign's unlock height.
    TooEarly,
    /// No open position, or one of zero weight.
    NothingToClaim,
    /// The caller is not the admin.
    NotAdmin,
    /// Reserved.
    Maa,
    /// Reserved.
    Mas,
    /// The initial reward-asset amount is not positive.
    Mad,
    /// The re-deposit of a campaign's stake minted nothing.
    Mae,
    /// A join minted no liquidity.
    Maw,
    /// A join's stake is not positive.
    Maq,
    /// Reserved.
    Mal,
    /// The admin holds less stable asset than the initial amount.
    Mak,
    /// The admin holds less reward asset than the initial amount.
    Maj,
    /// Reserved.
    Mah,
    /// Reserved.
    Mag,
    /// The initial stable-asset amount is not positive.
    Maf,
    /// Seeding the engine's pool minted no liquidity.
    Mar,
    /// The seed pool's tokens are not the configured pair.
    InvalidToken,
    /// The pool carries a campaign that has not unlocked yet.
    CampaignActiveForPair,
    /// The engine is not initialized, or has no seed pool.
    NoCorePair,
    /// No campaign has that id.
    NoCampaign,
    /// A join at or after the campaign's unlock height.
    CampaignEnded,
    /// The depositor already holds a position in the campaign.
    AlreadyJoined,
}

} // verus!
