//! Money that leaves the vaults outside a settlement.

use crate::accounts::{AdminGameVaultRecovery, AdminModeVaultRecovery, RefundPlayer};
use crate::error::{DoorCashError, Fault};
use crate::event::{GameVaultRecovery, ModeVaultRecovery};
use crate::state::{
    is_valid_mode, protected_game_vault_lamports, valid_mode, Game, GameStatus, ModeState,
    PlayerEntry, RecoveryKind, EMERGENCY_RECOVERY_DELAY_SLOTS,
};
use crate::transfer::{
    add_transfer, game_vault_transfer, listed, mode_vault_found, mode_vault_transfer, signed,
    transfer_game_vault, transfer_mode_vault, SignedTransfer, VaultTransfer,
};
use vstd::prelude::*;

verus! {

/// Why a player cannot be refunded.
pub open spec fn refund_refusal(ctx: RefundPlayer) -> Option<DoorCashError> {
    if ctx.game.authority != ctx.authority {
        Some(DoorCashError::Unauthorized)
    } else if ctx.game.house_wallet != ctx.house_wallet {
        Some(DoorCashError::HouseWalletMismatch)
    } else if ctx.player_entry.player != ctx.player {
        Some(DoorCashError::Unauthorized)
    } else if !(ctx.game.status is Cancelled) {
        Some(DoorCashError::GameNotCancelled)
    } else if ctx.player_entry.refunded {
        Some(DoorCashError::AlreadyRefunded)
    } else if ctx.vault.lamports < ctx.game.entry_fee {
        Some(DoorCashError::InsufficientVaultFunds)
    } else {
        None
    }
}

/// What a refund sends to the house: what the vault would be left with, if that
/// is not enough for another refund.
pub open spec fn refund_dust(ctx: RefundPlayer) -> u64 {
    let left = ctx.vault.lamports - ctx.game.entry_fee;
    if left < ctx.game.entry_fee {
        left as u64
    } else {
        0
    }
}

/// The transfers of a refund.
pub open spec fn refund_transfers(ctx: RefundPlayer, game_id: Seq<char>) -> Seq<SignedTransfer> {
    let bump = ctx.game.vault_bump;
    listed(
        game_vault_transfer(game_id, bump, ctx.vault.key, ctx.house_wallet, refund_dust(ctx)),
    ) + listed(
        game_vault_transfer(game_id, bump, ctx.vault.key, ctx.player, ctx.game.entry_fee),
    )
}

/// Gives a player of a cancelled game the entry fee back.
pub fn refund_player_single(ctx: &mut RefundPlayer, game_id: &str) -> (r: Result<
    Vec<VaultTransfer>,
    DoorCashError,
>)
    ensures
        match r {
            Ok(transfers) => {
                &&& refund_refusal(*old(ctx)) is None
                &&& *final(ctx) == (RefundPlayer {
                    player_entry: PlayerEntry { refunded: true, ..old(ctx).player_entry },
                    ..*old(ctx)
                })
                &&& signed(transfers@) == refund_transfers(*old(ctx), game_id@)
            },
            Err(e) => {
                &&& refund_refusal(*old(ctx)) == Some(e)
                &&& *final(ctx) == *old(ctx)
            },
        },
{
    if !ctx.game.authority.same(&ctx.authority) {
        return Err(DoorCashError::Unauthorized);
    }
    if !ctx.game.house_wallet.same(&ctx.house_wallet) {
        return Err(DoorCashError::HouseWalletMismatch);
    }
    if !ctx.player_entry.player.same(&ctx.player) {
        return Err(DoorCashError::Unauthorized);
    }
    if !matches!(ctx.game.status, GameStatus::Cancelled) {
        return Err(DoorCashError::GameNotCancelled);
    }
    if ctx.player_entry.refunded {
        return Err(DoorCashError::AlreadyRefunded);
    }
    if ctx.vault.lamports < ctx.game.entry_fee {
        return Err(DoorCashError::InsufficientVaultFunds);
    }
    let remaining_after_refund: u64 = ctx.vault.lamports - ctx.game.entry_fee;
    let bump: u8 = ctx.game.vault_bump;
    let mut transfers: Vec<VaultTransfer> = Vec::new();
    assert(signed(transfers@) =~= seq![]);
    if remaining_after_refund > 0 && remaining_after_refund < ctx.game.entry_fee {
        add_transfer(
            &mut transfers,
            transfer_game_vault(
                game_id,
                bump,
                &ctx.vault.key,
                &ctx.house_wallet,
                remaining_after_refund,
            ),
        );
    }
    assert(signed(transfers@) =~= listed(
        game_vault_transfer(game_id@, bump, ctx.vault.key, ctx.house_wallet, refund_dust(*ctx)),
    ));
    add_transfer(
        &mut transfers,
        transfer_game_vault(game_id, bump, &ctx.vault.key, &ctx.player, ctx.game.entry_fee),
    );
    ctx.player_entry.refunded = true;
    Ok(transfers)
}

/// Why somebody may not empty the vault of a game.
pub open spec fn game_recovery_refusal(ctx: AdminGameVaultRecovery) -> Option<DoorCashError> {
    if ctx.game.authority != ctx.authority {
        Some(DoorCashError::Unauthorized)
    } else if ctx.game.house_wallet != ctx.house_wallet {
        Some(DoorCashError::HouseWalletMismatch)
    } else {
        None
    }
}

/// What a game's vault holds beyond what is protected.
pub open spec fn dust(ctx: AdminGameVaultRecovery) -> u64 {
    if ctx.vault.lamports <= ctx.game.protected_lamports() {
        0
    } else {
        (ctx.vault.lamports - ctx.game.protected_lamports()) as u64
    }
}

/// Sends what a game's vault holds beyond what is protected to the house.
pub fn admin_sweep_game_vault_dust(ctx: &AdminGameVaultRecovery) -> (r: Result<
    (Option<VaultTransfer>, GameVaultRecovery),
    DoorCashError,
>)
    ensures
        match r {
            Ok((transfer, event)) => {
                &&& game_recovery_refusal(*ctx) is None
                &&& match transfer {
                    Some(t) => Some(t@),
                    None => None,
                } == game_vault_transfer(
                    ctx.game.game_id@,
                    ctx.game.vault_bump,
                    ctx.vault.key,
                    ctx.house_wallet,
                    dust(*ctx),
                )
                &&& event == (GameVaultRecovery {
                    game_id: ctx.game.game_id,
                    destination: ctx.house_wallet,
                    amount: dust(*ctx),
                    recovery_kind: RecoveryKind::Dust,
                })
            },
            Err(e) => game_recovery_refusal(*ctx) == Some(e),
        },
{
    if !ctx.game.authority.same(&ctx.authority) {
        return Err(DoorCashError::Unauthorized);
    }
    if !ctx.game.house_wallet.same(&ctx.house_wallet) {
        return Err(DoorCashError::HouseWalletMismatch);
    }
    let protected_lamports: u64 = protected_game_vault_lamports(&ctx.game);
    let amount: u64 = if ctx.vault.lamports <= protected_lamports {
        0
    } else {
        ctx.vault.lamports - protected_lamports
    };
    let transfer = transfer_game_vault(
        ctx.game.game_id.as_str(),
        ctx.game.vault_bump,
        &ctx.vault.key,
        &ctx.house_wallet,
        amount,
    );
    let event = GameVaultRecovery {
        game_id: ctx.game.game_id.clone(),
        destination: ctx.house_wallet,
        amount,
        recovery_kind: RecoveryKind::Dust,
    };
    Ok((transfer, event))
}

/// Why it is too early for an emergency sweep in a slot.
pub open spec fn delay_refusal(initialized_slot: u64, slot: u64) -> Option<DoorCashError> {
    if initialized_slot + EMERGENCY_RECOVERY_DELAY_SLOTS > u64::MAX {
        Some(DoorCashError::ArithmeticOverflow)
    } else if slot < initialized_slot + EMERGENCY_RECOVERY_DELAY_SLOTS {
        Some(DoorCashError::EmergencyRecoveryTooEarly)
    } else {
        None
    }
}

/// Checks that the delay before an emergency sweep has passed.
pub fn check_delay(initialized_slot: u64, slot: u64) -> (r: Result<(), DoorCashError>)
    ensures
        match r {
            Ok(_) => delay_refusal(initialized_slot, slot) is None,
            Err(e) => delay_refusal(initialized_slot, slot) == Some(e),
        },
{
    match initialized_slot.checked_add(EMERGENCY_RECOVERY_DELAY_SLOTS) {
        None => Err(DoorCashError::ArithmeticOverflow),
        Some(earliest) => if slot >= earliest {
            Ok(())
        } else {
            Err(DoorCashError::EmergencyRecoveryTooEarly)
        },
    }
}

/// Why a game's vault cannot be swept in an emergency.
pub open spec fn game_emergency_refusal(ctx: AdminGameVaultRecovery, slot: u64) -> Option<
    DoorCashError,
> {
    match game_recovery_refusal(ctx) {
        Some(e) => Some(e),
        None => if ctx.game.status.accepting() {
            Some(DoorCashError::InvalidGameStatus)
        } else {
            delay_refusal(ctx.game.initialized_slot, slot)
        },
    }
}

/// The game after its vault has been swept: it is cancelled unless it is complete.
pub open spec fn game_swept(game: Game) -> Game {
    if game.status is Complete {
        game
    } else {
        Game { status: GameStatus::Cancelled, ..game }
    }
}

/// Sends all that the vault of a game holds to the house, in the slot `slot`.
pub fn admin_emergency_sweep_game_vault(ctx: &mut AdminGameVaultRecovery, slot: u64) -> (r: Result<
    (Option<VaultTransfer>, GameVaultRecovery),
    DoorCashError,
>)
    ensures
        match r {
            Ok((transfer, event)) => {
                &&& game_emergency_refusal(*old(ctx), slot) is None
                &&& *final(ctx) == (AdminGameVaultRecovery {
                    game: game_swept(old(ctx).game),
                    ..*old(ctx)
                })
                &&& match transfer {
                    Some(t) => Some(t@),
                    None => None,
                } == game_vault_transfer(
                    old(ctx).game.game_id@,
                    old(ctx).game.vault_bump,
                    old(ctx).vault.key,
                    old(ctx).house_wallet,
                    old(ctx).vault.lamports,
                )
                &&& event == (GameVaultRecovery {
                    game_id: old(ctx).game.game_id,
                    destination: old(ctx).house_wallet,
                    amount: old(ctx).vault.lamports,
                    recovery_kind: RecoveryKind::Emergency,
                })
            },
            Err(e) => {
                &&& game_emergency_refusal(*old(ctx), slot) == Some(e)
                &&& *final(ctx) == *old(ctx)
            },
        },
        old(ctx).game.valid() ==> final(ctx).game.valid(),
        old(ctx).game.status.may_become(final(ctx).game.status),
{
    if !ctx.game.authority.same(&ctx.authority) {
        return Err(DoorCashError::Unauthorized);
    }
    if !ctx.game.house_wallet.same(&ctx.house_wallet) {
        return Err(DoorCashError::HouseWalletMismatch);
    }
    if ctx.game.status.is_accepting() {
        return Err(DoorCashError::InvalidGameStatus);
    }
    if let Err(e) = check_delay(ctx.game.initialized_slot, slot) {
        return Err(e);
    }
    let amount: u64 = ctx.vault.lamports;
    let transfer = transfer_game_vault(
        ctx.game.game_id.as_str(),
        ctx.game.vault_bump,
        &ctx.vault.key,
        &ctx.house_wallet,
        amount,
    );
    if !matches!(ctx.game.status, GameStatus::Complete) {
        ctx.game.status = GameStatus::Cancelled;
    }
    let event = GameVaultRecovery {
        game_id: ctx.game.game_id.clone(),
        destination: ctx.house_wallet,
        amount,
        recovery_kind: RecoveryKind::Emergency,
    };
    Ok((transfer, event))
}

/// Why a mode's vault cannot be swept in an emergency, before anything is sent.
pub open spec fn mode_emergency_refusal(ctx: AdminModeVaultRecovery, mode: u8, slot: u64) -> Option<
    DoorCashError,
> {
    if ctx.game.authority != ctx.authority {
        Some(DoorCashError::Unauthorized)
    } else if ctx.game.house_wallet != ctx.house_wallet {
        Some(DoorCashError::HouseWalletMismatch)
    } else if !valid_mode(mode) {
        Some(DoorCashError::InvalidMode)
    } else if ctx.game.mode != mode || ctx.mode_state.mode != mode {
        Some(DoorCashError::ModeMismatch)
    } else {
        delay_refusal(ctx.game.initialized_slot, slot)
    }
}

/// The mode after its vault has been swept: nothing is carried over or owed,
/// and a new streak starts.
pub open spec fn mode_swept(mode_state: ModeState) -> ModeState {
    ModeState {
        carry_lamports: 0,
        eligible_entry_count: 0,
        refund_per_entry_lamports: 0,
        refund_remainder_lamports: 0,
        refund_round_open: false,
        refund_paid_entry_count: 0,
        active_streak_id: (mode_state.active_streak_id + 1) as u64,
        ..mode_state
    }
}

/// The mode and the transfer after a mode's vault has been swept, or why it is
/// refused.
pub open spec fn mode_emergency_outcome(ctx: AdminModeVaultRecovery, mode: u8, slot: u64) -> Result<
    (ModeState, Option<SignedTransfer>),
    Fault,
> {
    match mode_emergency_refusal(ctx, mode, slot) {
        Some(e) => Err(Fault::Program(e)),
        None => match mode_vault_transfer(
            mode,
            mode_vault_found(mode),
            ctx.mode_vault.key,
            ctx.house_wallet,
            ctx.mode_vault.lamports,
        ) {
            Err(fault) => Err(fault),
            Ok(transfer) => if ctx.mode_state.active_streak_id == u64::MAX {
                Err(Fault::Program(DoorCashError::ArithmeticOverflow))
            } else {
                Ok((mode_swept(ctx.mode_state), transfer))
            },
        },
    }
}

/// Records that a mode's vault has been swept.
pub fn record_mode_sweep(mode_state: &mut ModeState) -> (r: Result<(), DoorCashError>)
    ensures
        match r {
            Ok(_) => {
                &&& old(mode_state).active_streak_id < u64::MAX
                &&& *final(mode_state) == mode_swept(*old(mode_state))
            },
            Err(e) => {
                &&& old(mode_state).active_streak_id == u64::MAX
                &&& e == DoorCashError::ArithmeticOverflow
                &&& *final(mode_state) == *old(mode_state)
            },
        },
{
    let next_streak: u64 = match mode_state.active_streak_id.checked_add(1) {
        Some(next) => next,
        None => return Err(DoorCashError::ArithmeticOverflow),
    };
    mode_state.carry_lamports = 0;
    mode_state.eligible_entry_count = 0;
    mode_state.refund_per_entry_lamports = 0;
    mode_state.refund_remainder_lamports = 0;
    mode_state.refund_round_open = false;
    mode_state.refund_paid_entry_count = 0;
    mode_state.active_streak_id = next_streak;
    Ok(())
}

/// Sends all that the vault of a mode holds to the house, in the slot `slot`.
pub fn admin_emergency_sweep_mode_vault(
    ctx: &mut AdminModeVaultRecovery,
    mode: u8,
    slot: u64,
) -> (r: Result<(Option<VaultTransfer>, ModeVaultRecovery), Fault>)
    ensures
        match (r, mode_emergency_outcome(*old(ctx), mode, slot)) {
            (Ok((transfer, event)), Ok((mode_state, expected))) => {
                &&& *final(ctx) == (AdminModeVaultRecovery { mode_state, ..*old(ctx) })
                &&& match transfer {
                    Some(t) => Some(t@),
                    None => None,
                } == expected
                &&& event == (ModeVaultRecovery {
                    mode,
                    destination: old(ctx).house_wallet,
                    amount: old(ctx).mode_vault.lamports,
                })
            },
            (Err(fault), Err(expected)) => {
                &&& fault == expected
                &&& *final(ctx) == *old(ctx)
            },
            _ => false,
        },
        old(ctx).mode_state.valid() ==> final(ctx).mode_state.valid(),
{
    if !ctx.game.authority.same(&ctx.authority) {
        return Err(Fault::Program(DoorCashError::Unauthorized));
    }
    if !ctx.game.house_wallet.same(&ctx.house_wallet) {
        return Err(Fault::Program(DoorCashError::HouseWalletMismatch));
    }
    if !is_valid_mode(mode) {
        return Err(Fault::Program(DoorCashError::InvalidMode));
    }
    if ctx.game.mode != mode {
        return Err(Fault::Program(DoorCashError::ModeMismatch));
    }
    if ctx.mode_state.mode != mode {
        return Err(Fault::Program(DoorCashError::ModeMismatch));
    }
    if let Err(e) = check_delay(ctx.game.initialized_slot, slot) {
        return Err(Fault::Program(e));
    }
    let amount: u64 = ctx.mode_vault.lamports;
    let transfer = match transfer_mode_vault(mode, &ctx.mode_vault.key, &ctx.house_wallet, amount) {
        Ok(transfer) => transfer,
        Err(fault) => return Err(fault),
    };
    if let Err(e) = record_mode_sweep(&mut ctx.mode_state) {
        return Err(Fault::Program(e));
    }
    let event = ModeVaultRecovery { mode, destination: ctx.house_wallet, amount };
    Ok((transfer, event))
}

} // verus!
