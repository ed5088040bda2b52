//! Rules and bookkeeping of an on-chain door game.
//!
//! Players pay an entry fee into a game's vault. Once the game has been started
//! and the seed that it is committed to has been revealed, it is settled: either
//! the pot, less the house's cut, is shared out among the winners, or half of it
//! goes back to the entries of the mode's streak and the rest is carried over to
//! the next game of the mode.
//!
//! An instruction is a function from the accounts that it is given to their new
//! contents, the transfers that have to be made and what is announced. A refused
//! instruction changes nothing.

pub mod accounts;
pub mod address;
pub mod batch_laws;
pub mod error;
pub mod event;
pub mod law_terms;
pub mod laws;
pub mod lifecycle;
pub mod lifecycle_laws;
pub mod list_laws;
pub mod pot;
pub mod recovery;
pub mod recovery_laws;
pub mod refund_round;
pub mod registry;
pub mod seed;
pub mod settlement_laws;
pub mod state;
pub mod transfer;
pub mod winners;

pub use accounts::{
    AdminGameVaultRecovery, AdminModeVaultRecovery, AuthorityAction, CloseNoWinnerSettlement,
    EnterGame, InitializeGame, OpenNoWinnerSettlement, PayNoWinnerBatch, RefundPlayer,
    RegisterNoWinnerEntries, RepairNoWinnerStreakEntries, SettleWinners, StartGame,
};
pub use error::{DoorCashError, Fault};
pub use event::{
    GameCancelled, GameVaultRecovery, ModeVaultRecovery, NoWinnerEntriesRepaired,
    NoWinnerSettlementClosed, NoWinnerSettlementOpened, PlayerEntered, SeedRevealed,
    WinnerSettlement,
};
pub use lifecycle::{cancel_game, enter_game, initialize_game, reveal_seed, start_game};
pub use recovery::{
    admin_emergency_sweep_game_vault, admin_emergency_sweep_mode_vault,
    admin_sweep_game_vault_dust, refund_player_single,
};
pub use refund_round::{
    close_no_winner_settlement, open_no_winner_settlement, pay_no_winner_batch,
};
pub use registry::{register_no_winner_entries, repair_no_winner_streak_entries};
pub use state::{
    Game, GameStatus, ModeParticipant, ModeState, PlayerEntry, RecoveryKind, SettlementKind,
};
pub use winners::settle_winners;
