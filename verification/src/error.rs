//! Reasons for which an instruction is refused.

use vstd::prelude::*;

verus! {

/// The program's own refusals.
#[derive(Clone, Copy, Debug, PartialEq, Eq, Structural)]
pub enum DoorCashError {
    /// Not authorised to perform this action.
    Unauthorized,
    /// Game is not currently accepting players.
    GameNotAccepting,
    /// Lobby is full.
    LobbyFull,
    /// Not enough players to start.
    NotEnoughPlayers,
    /// Seed has already been revealed.
    SeedAlreadyRevealed,
    /// Seed must be revealed before settlement.
    SeedNotRevealed,
    /// Seed does not match committed hash.
    SeedHashMismatch,
    /// Invalid game status for this operation.
    InvalidGameStatus,
    /// Cannot cancel a game that is Active, Settling, or Complete.
    CannotCancelActiveGame,
    /// Game must be Cancelled to issue refunds.
    GameNotCancelled,
    /// Player has already been refunded.
    AlreadyRefunded,
    /// No winners provided.
    NoWinners,
    /// Winner account count does not match winner_count argument.
    WinnerAccountMismatch,
    /// Arithmetic overflow in settlement calculation.
    ArithmeticOverflow,
    /// House wallet does not match game record.
    HouseWalletMismatch,
    /// Invalid game configuration.
    InvalidConfig,
    /// Game ID exceeds maximum length.
    GameIdTooLong,
    /// Invalid game mode.
    InvalidMode,
    /// Mode account does not match game mode.
    ModeMismatch,
    /// A no-winner refund round is still open for this mode.
    ModeRefundRoundOpen,
    /// Batch account list is malformed.
    BatchAccountMismatch,
    /// Player entry does not belong to this game.
    EntryGameMismatch,
    /// No eligible entries are registered for this refund round.
    NoEligibleRefundEntries,
    /// Refund round is not open.
    RefundRoundNotOpen,
    /// Refund round id does not match the active mode state.
    RefundRoundMismatch,
    /// Refund round has not paid all eligible entries yet.
    RefundRoundIncomplete,
    /// Mode participant streak does not match the game streak.
    StreakMismatch,
    /// Winner entry does not match the supplied winner wallet.
    InvalidWinnerEntry,
    /// Winner list contains the same wallet more than once.
    DuplicateWinner,
    /// Vault does not contain enough lamports for the recorded pot.
    InsufficientVaultFunds,
    /// Emergency recovery delay has not elapsed.
    EmergencyRecoveryTooEarly,
}

/// Why an instruction over a list of accounts stops.
#[derive(Clone, Copy, Debug, PartialEq, Eq, Structural)]
pub enum Fault {
    /// One of the program's own rules refuses the instruction.
    Program(DoorCashError),
    /// An account of the list does not hold the record that is read from it;
    /// the code is what reading it reported.
    Account(u64),
    /// No bump seed leads from the seeds to an address of the program, so the
    /// instruction cannot go on.
    NoProgramAddress,
}

} // verus!
