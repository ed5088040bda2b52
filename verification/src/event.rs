//! What the program announces of its instructions.

use crate::address::Address;
use crate::state::RecoveryKind;
use vstd::prelude::*;

verus! {

#[derive(Clone, Debug, PartialEq, Eq)]
pub struct PlayerEntered {
    pub game_id: String,
    pub player: Address,
    pub count: u16,
}

#[derive(Clone, Debug, PartialEq, Eq)]
pub struct SeedRevealed {
    pub game_id: String,
    pub seed: [u8; 32],
}

#[derive(Clone, Debug, PartialEq, Eq)]
pub struct WinnerSettlement {
    pub game_id: String,
    pub winner_count: u8,
    pub prize_each: u64,
    pub house_cut: u64,
    pub carry_in: u64,
    pub carry_out: u64,
}

#[derive(Clone, Debug, PartialEq, Eq)]
pub struct NoWinnerSettlementOpened {
    pub game_id: String,
    pub refund_round_id: u64,
    pub house_cut: u64,
    pub carry_in: u64,
    pub refund_pool: u64,
    pub carry_out: u64,
    pub refund_per_entry: u64,
    pub eligible_entry_count: u64,
}

#[derive(Clone, Debug, PartialEq, Eq)]
pub struct NoWinnerSettlementClosed {
    pub game_id: String,
    pub refund_round_id: u64,
    pub carry_out: u64,
}

#[derive(Clone, Debug, PartialEq, Eq)]
pub struct NoWinnerEntriesRepaired {
    pub game_id: String,
    pub refund_round_id: u64,
    pub repaired_entries: u64,
}

#[derive(Clone, Debug, PartialEq, Eq)]
pub struct GameCancelled {
    pub game_id: String,
}

#[derive(Clone, Debug, PartialEq, Eq)]
pub struct GameVaultRecovery {
    pub game_id: String,
    pub destination: Address,
    pub amount: u64,
    pub recovery_kind: RecoveryKind,
}

#[derive(Clone, Debug, PartialEq, Eq)]
pub struct ModeVaultRecovery {
    pub mode: u8,
    pub destination: Address,
    pub amount: u64,
}

} // verus!
