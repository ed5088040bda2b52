//! The records that the program keeps, and what holds of them.

use crate::address::Address;
use crate::error::DoorCashError;
use crate::seed::sha256;
use vstd::prelude::*;
use vstd::utf8::encode_utf8;

verus! {

/// The house's share of a pot, in basis points.
pub const HOUSE_EDGE_BPS: u64 = 1_000;

/// How many basis points make a whole.
pub const BASIS_POINTS: u64 = 10_000;

/// The most winners that one settlement pays.
pub const MAX_WINNERS: usize = 111;

/// The longest game id, in bytes.
pub const MAX_GAME_ID_LEN: usize = 64;

/// How many slots after its start a game's vaults may be swept in an emergency.
pub const EMERGENCY_RECOVERY_DELAY_SLOTS: u64 = 216_000;

pub const MODE_DAILY: u8 = 0;

pub const MODE_HIGHROLLER: u8 = 1;

pub const MODE_FLASH: u8 = 2;

/// Where a game stands in its life.
#[derive(Clone, Copy, Debug, PartialEq, Eq, Structural)]
pub enum GameStatus {
    Waiting,
    Lobby,
    Active,
    Settling,
    Complete,
    Cancelled,
}

impl GameStatus {
    /// The game takes players.
    pub open spec fn accepting(self) -> bool {
        self is Waiting || self is Lobby
    }

    /// The game has been started and not been cancelled.
    pub open spec fn started(self) -> bool {
        self is Active || self is Settling || self is Complete
    }

    /// The statuses that a game may have some instructions after it had this one.
    pub open spec fn may_become(self, later: GameStatus) -> bool {
        match self {
            GameStatus::Waiting => !(later is Lobby),
            GameStatus::Lobby => !(later is Waiting),
            GameStatus::Active => !later.accepting(),
            GameStatus::Settling => later is Settling || later is Complete || later is Cancelled,
            GameStatus::Complete => later is Complete,
            GameStatus::Cancelled => later is Cancelled,
        }
    }

    pub fn is_accepting(&self) -> (r: bool)
        ensures
            r == self.accepting(),
    {
        matches!(self, GameStatus::Waiting | GameStatus::Lobby)
    }

    pub fn is_started(&self) -> (r: bool)
        ensures
            r == self.started(),
    {
        matches!(self, GameStatus::Active | GameStatus::Settling | GameStatus::Complete)
    }
}

/// How a game was settled.
#[derive(Clone, Copy, Debug, PartialEq, Eq, Structural)]
pub enum SettlementKind {
    Unsettled,
    Winner,
    NoWinner,
}

/// Why a vault was swept.
#[derive(Clone, Copy, Debug, PartialEq, Eq, Structural)]
pub enum RecoveryKind {
    Dust,
    Emergency,
}

/// One game, from the taking of entry fees to its settlement.
#[derive(Clone, Debug, PartialEq, Eq)]
pub struct Game {
    pub game_id: String,
    pub authority: Address,
    pub house_wallet: Address,
    pub seed_hash: [u8; 32],
    pub seed: [u8; 32],
    pub seed_revealed: bool,
    pub mode: u8,
    pub entry_fee: u64,
    pub max_players: u8,
    pub min_players: u8,
    pub player_count: u16,
    pub total_pot: u64,
    pub prize_each: u64,
    pub house_cut: u64,
    pub carry_in: u64,
    pub carry_out: u64,
    pub refund_pool: u64,
    pub refund_per_entry: u64,
    pub refund_round_id: u64,
    pub streak_id: u64,
    pub settlement_kind: SettlementKind,
    pub vault_bump: u8,
    pub status: GameStatus,
    pub initialized_slot: u64,
}

/// One player's entry in one game.
#[derive(Debug, PartialEq, Eq)]
pub struct PlayerEntry {
    pub player: Address,
    pub game_id: String,
    pub mode: u8,
    pub entered_at_slot: u64,
    pub refunded: bool,
    /// The streak for which the entry has been counted as eligible, 0 for none.
    pub merged_streak_id: u64,
}

/// What the games of one mode share.
#[derive(Clone, Copy, Debug, PartialEq, Eq)]
pub struct ModeState {
    pub mode: u8,
    pub active_streak_id: u64,
    pub carry_lamports: u64,
    pub eligible_entry_count: u64,
    pub open_refund_round_id: u64,
    pub refund_per_entry_lamports: u64,
    pub refund_remainder_lamports: u64,
    pub refund_round_open: bool,
    pub refund_paid_entry_count: u64,
}

/// What the program remembers of one wallet in one mode.
#[derive(Clone, Copy, Debug, PartialEq, Eq)]
pub struct ModeParticipant {
    pub wallet: Address,
    pub mode: u8,
    pub streak_id: u64,
    pub eligible_entries: u64,
    pub last_paid_refund_round_id: u64,
}

impl Clone for PlayerEntry {
    fn clone(&self) -> (r: Self)
        ensures
            r == *self,
    {
        PlayerEntry {
            player: self.player,
            game_id: self.game_id.clone(),
            mode: self.mode,
            entered_at_slot: self.entered_at_slot,
            refunded: self.refunded,
            merged_streak_id: self.merged_streak_id,
        }
    }
}

/// The modes that the program knows.
pub open spec fn valid_mode(mode: u8) -> bool {
    mode == MODE_DAILY || mode == MODE_HIGHROLLER || mode == MODE_FLASH
}

pub fn is_valid_mode(mode: u8) -> (r: bool)
    ensures
        r == valid_mode(mode),
{
    mode == MODE_DAILY || mode == MODE_HIGHROLLER || mode == MODE_FLASH
}

/// The house's share of a pot, rounded down.
pub open spec fn house_share(pot: int) -> int {
    pot * HOUSE_EDGE_BPS / BASIS_POINTS as int
}

/// The pot is too large for its share to be worked out in 64 bits.
pub open spec fn house_share_overflows(pot: int) -> bool {
    pot * HOUSE_EDGE_BPS > u64::MAX
}

/// Works out the house's share of a pot.
pub fn calculate_house_cut(ante_in: u64) -> (r: Result<u64, DoorCashError>)
    ensures
        match r {
            Ok(cut) => !house_share_overflows(ante_in as int) && cut == house_share(ante_in as int),
            Err(e) => house_share_overflows(ante_in as int) && e
                == DoorCashError::ArithmeticOverflow,
        },
        r matches Ok(cut) ==> cut <= ante_in,
{
    match ante_in.checked_mul(HOUSE_EDGE_BPS) {
        Some(product) => Ok(product / BASIS_POINTS),
        None => Err(DoorCashError::ArithmeticOverflow),
    }
}

impl Game {
    /// The settlement amounts fit the way in which the game was settled.
    pub open spec fn amounts_consistent(self) -> bool {
        let rest = self.carry_in + self.total_pot - self.house_cut;
        match self.settlement_kind {
            SettlementKind::Unsettled => {
                &&& self.prize_each == 0 && self.house_cut == 0
                &&& self.carry_in == 0 && self.carry_out == 0
                &&& self.refund_pool == 0 && self.refund_per_entry == 0
                &&& self.refund_round_id == 0
            },
            SettlementKind::Winner => {
                &&& self.house_cut == house_share(self.total_pot as int)
                &&& self.prize_each + self.carry_out <= rest
                &&& self.refund_pool == 0 && self.refund_per_entry == 0
                &&& self.refund_round_id == 0
            },
            SettlementKind::NoWinner => {
                &&& self.house_cut == house_share(self.total_pot as int)
                &&& self.prize_each == 0
                &&& self.refund_pool == rest / 2
                &&& self.refund_per_entry <= self.refund_pool
                &&& rest - self.refund_pool <= self.carry_out
                &&& self.carry_out + self.refund_per_entry <= rest
            },
        }
    }

    /// What holds of a game from its start to its end.
    pub open spec fn valid(self) -> bool {
        &&& encode_utf8(self.game_id@).len() <= MAX_GAME_ID_LEN
        &&& valid_mode(self.mode)
        &&& 2 <= self.min_players <= self.max_players
        &&& 0 < self.entry_fee
        &&& self.player_count <= self.max_players
        &&& self.total_pot == self.player_count * self.entry_fee
        &&& self.seed_revealed ==> sha256(self.seed@) == self.seed_hash@
        &&& self.status.accepting() ==> !self.seed_revealed
        &&& self.status.started() ==> self.player_count >= self.min_players
        &&& match self.status {
            GameStatus::Waiting | GameStatus::Lobby
            | GameStatus::Active => self.settlement_kind is Unsettled,
            GameStatus::Settling => self.settlement_kind is NoWinner && self.seed_revealed,
            GameStatus::Complete => !(self.settlement_kind is Unsettled) && self.seed_revealed,
            GameStatus::Cancelled => !(self.settlement_kind is Winner),
        }
        &&& self.amounts_consistent()
    }

    /// The lamports of the game's vault that a dust sweep leaves alone: the pot,
    /// as long as it is still to be settled or refunded.
    pub open spec fn protected_lamports(self) -> u64 {
        if self.status.accepting() || self.status is Active || (self.status is Cancelled
            && self.settlement_kind is Unsettled) {
            self.total_pot
        } else {
            0
        }
    }
}

/// The lamports of the game's vault that a dust sweep leaves alone.
pub fn protected_game_vault_lamports(game: &Game) -> (r: u64)
    ensures
        r == game.protected_lamports(),
{
    match game.status {
        GameStatus::Waiting | GameStatus::Lobby | GameStatus::Active => game.total_pot,
        GameStatus::Cancelled => match game.settlement_kind {
            SettlementKind::Unsettled => game.total_pot,
            _ => 0,
        },
        _ => 0,
    }
}

impl ModeParticipant {
    /// The participant has been paid in no refund round that a mode has not had
    /// yet.
    pub open spec fn paid_by(self, mode_state: ModeState) -> bool {
        self.last_paid_refund_round_id <= mode_state.open_refund_round_id
    }
}

impl ModeState {
    /// What holds of a mode's state between instructions.
    pub open spec fn valid(self) -> bool {
        &&& valid_mode(self.mode)
        &&& self.refund_round_open ==> self.refund_remainder_lamports < self.eligible_entry_count
        &&& !self.refund_round_open ==> {
            &&& self.refund_per_entry_lamports == 0
            &&& self.refund_remainder_lamports == 0
            &&& self.refund_paid_entry_count == 0
        }
    }

    /// What the mode's vault has to hold: the carry, and the refunds of the
    /// open round that have not been paid yet.
    pub open spec fn obligations(self) -> int {
        let unpaid = if self.refund_paid_entry_count < self.eligible_entry_count {
            self.eligible_entry_count - self.refund_paid_entry_count
        } else {
            0
        };
        self.carry_lamports + self.refund_per_entry_lamports * unpaid
    }
}

} // verus!
