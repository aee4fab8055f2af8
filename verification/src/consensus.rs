//! Consensus rules shared by validation, storage and difficulty adjustment.

use vstd::prelude::*;

verus! {

/// Number of blocks a coinbase output stays locked beyond its block's height.
pub const COINBASE_LOCK_HEIGHT: u64 = 1;

/// The blockchain version written into new headers.
pub const BLOCKCHAIN_VERSION: u16 = 0;

/// Number of observations the difficulty window holds.
pub const DIFFICULTY_BLOCK_WINDOW: u64 = 90;

/// The target block interval, in seconds.
pub const DIFF_TARGET_BLOCK_INTERVAL: u64 = 120;

/// The consensus constants of the network: immutable shared configuration.
#[derive(Clone, Copy, Debug, PartialEq, Eq, Structural)]
pub struct ConsensusConstants {
    pub coinbase_lock_height: u64,
    pub blockchain_version: u16,
    pub difficulty_block_window: u64,
    pub diff_target_block_interval: u64,
}

impl ConsensusConstants {
    /// The constants currently in force.
    pub fn current() -> (r: ConsensusConstants)
        ensures
            r == ConsensusConstants::spec_current(),
    {
        ConsensusConstants {
            coinbase_lock_height: COINBASE_LOCK_HEIGHT,
            blockchain_version: BLOCKCHAIN_VERSION,
            difficulty_block_window: DIFFICULTY_BLOCK_WINDOW,
            diff_target_block_interval: DIFF_TARGET_BLOCK_INTERVAL,
        }
    }

    /// The constants currently in force.
    pub open spec fn spec_current() -> ConsensusConstants {
        ConsensusConstants {
            coinbase_lock_height: COINBASE_LOCK_HEIGHT,
            blockchain_version: BLOCKCHAIN_VERSION,
            difficulty_block_window: DIFFICULTY_BLOCK_WINDOW,
            diff_target_block_interval: DIFF_TARGET_BLOCK_INTERVAL,
        }
    }

    /// How many blocks a coinbase output stays locked beyond its height.
    pub fn coinbase_lock_height(&self) -> (r: u64)
        ensures
            r == self.coinbase_lock_height,
    {
        self.coinbase_lock_height
    }

    /// The blockchain version for new headers.
    pub fn blockchain_version(&self) -> (r: u16)
        ensures
            r == self.blockchain_version,
    {
        self.blockchain_version
    }

    /// The difficulty window length.
    pub fn get_difficulty_block_window(&self) -> (r: u64)
        ensures
            r == self.difficulty_block_window,
    {
        self.difficulty_block_window
    }

    /// The target block interval, in seconds.
    pub fn get_diff_target_block_interval(&self) -> (r: u64)
        ensures
            r == self.diff_target_block_interval,
    {
        self.diff_target_block_interval
    }
}

} // verus!
