//! What refunds and sweeps accept and do, field by field.

use crate::accounts::{
    AdminGameVaultRecovery, AdminModeVaultRecovery, AuthorityAction, RefundPlayer,
};
use crate::error::{DoorCashError, Fault};
use crate::event::{GameCancelled, GameVaultRecovery, ModeVaultRecovery};
use crate::law_terms::{
    game_seeds, is_vault_of_mode, lemma_records, mode_seeds, moves, record, recorded, records,
    refused, vault_of_mode,
};
use crate::lifecycle::cancel_game;
use crate::lifecycle_laws::law_cancel_game;
use crate::recovery::{
    admin_emergency_sweep_game_vault, admin_emergency_sweep_mode_vault, admin_sweep_game_vault_dust,
    refund_player_single,
};
use crate::state::{protected_game_vault_lamports, Game, GameStatus, PlayerEntry, RecoveryKind};
use crate::transfer::{mode_vault_found, mode_vault_signer, VaultTransfer};
use vstd::prelude::*;

verus! {

/// A player is refunded exactly where the game's authority asks for it, the house
/// wallet and the player are the recorded ones, the game is cancelled, the entry
/// has not been refunded and the vault holds the fee: the seed and the number of
/// players do not matter. What is wrong is named in this order.
pub proof fn law_refund_accepts(
    ctx: &mut RefundPlayer,
    game_id: &str,
    r: Result<Vec<VaultTransfer>, DoorCashError>,
)
    requires
        call_ensures(refund_player_single, (ctx, game_id), r),
    ensures
        ({
            let game = old(ctx).game;
            let entry = old(ctx).player_entry;
            let asked = game.authority == old(ctx).authority;
            let house = asked && game.house_wallet == old(ctx).house_wallet;
            let own = house && entry.player == old(ctx).player;
            let over = own && game.status is Cancelled;
            let due = over && !entry.refunded;
            let held = due && old(ctx).vault.lamports >= game.entry_fee;
            &&& r is Ok <==> held
            &&& refused(r, DoorCashError::Unauthorized) <==> !asked || (house && !own)
            &&& refused(r, DoorCashError::HouseWalletMismatch) <==> asked && !house
            &&& refused(r, DoorCashError::GameNotCancelled) <==> own && !over
            &&& refused(r, DoorCashError::AlreadyRefunded) <==> over && !due
            &&& refused(r, DoorCashError::InsufficientVaultFunds) <==> due && !held
            &&& r is Err ==> *final(ctx) == *old(ctx)
        }),
{
}

/// A refund sends the fee from the game's vault to the player and marks the entry.
/// What would be left in the vault goes to the house before, if there is something
/// left and it is less than another fee.
pub proof fn law_refund_pays(
    ctx: &mut RefundPlayer,
    game_id: &str,
    r: Result<Vec<VaultTransfer>, DoorCashError>,
)
    requires
        call_ensures(refund_player_single, (ctx, game_id), r),
        r is Ok,
    ensures
        ({
            let before = *old(ctx);
            let fee = before.game.entry_fee;
            let left = before.vault.lamports - fee;
            let dust = if left < fee {
                left
            } else {
                0
            };
            let seeds = game_seeds(game_id@, before.game.vault_bump);
            &&& records(r->Ok_0@) == moves(before.vault.key, before.house_wallet, dust, seeds)
                + moves(before.vault.key, before.player, fee as int, seeds)
            &&& final(ctx).player_entry == (PlayerEntry { refunded: true, ..before.player_entry })
            &&& *final(ctx) == (RefundPlayer { player_entry: final(ctx).player_entry, ..before })
        }),
{
    let before = *old(ctx);
    let fee = before.game.entry_fee;
    let left = before.vault.lamports - fee;
    let dust = if left < fee {
        left
    } else {
        0
    };
    let seeds = game_seeds(game_id@, before.game.vault_bump);
    lemma_records(r->Ok_0@);
    assert(records(r->Ok_0@) =~= moves(before.vault.key, before.house_wallet, dust, seeds) + moves(
        before.vault.key,
        before.player,
        fee as int,
        seeds,
    ));
}

/// After a game has been cancelled, whether or not its seed was revealed, each of
/// its players gets the fee back from a vault that holds the pot.
pub proof fn law_cancelled_game_refunds_its_players(
    cancel: &mut AuthorityAction,
    cancelled: Result<GameCancelled, DoorCashError>,
    refund: &mut RefundPlayer,
    game_id: &str,
    r: Result<Vec<VaultTransfer>, DoorCashError>,
)
    requires
        call_ensures(cancel_game, (cancel,), cancelled),
        cancelled is Ok,
        old(cancel).game.total_pot == old(cancel).game.player_count * old(cancel).game.entry_fee,
        old(cancel).game.player_count > 0,
        call_ensures(refund_player_single, (refund, game_id), r),
        old(refund).game == final(cancel).game,
        old(refund).authority == old(cancel).authority,
        old(refund).house_wallet == old(cancel).game.house_wallet,
        old(refund).player_entry.player == old(refund).player,
        !old(refund).player_entry.refunded,
        old(refund).vault.lamports >= old(cancel).game.total_pot,
    ensures
        r is Ok,
        final(refund).player_entry.refunded,
{
    let count = old(cancel).game.player_count;
    let fee = old(cancel).game.entry_fee;
    law_cancel_game(cancel, cancelled);
    law_refund_accepts(refund, game_id, r);
    assert(count * fee >= fee) by (nonlinear_arith)
        requires
            count > 0,
    ;
}

/// A pot is protected from its first fee to its settlement, and after a
/// cancellation until it has been refunded; nothing is protected of a vault whose
/// pot has been settled.
pub proof fn law_protected_lamports(game: Game, r: u64)
    requires
        call_ensures(protected_game_vault_lamports, (&game,), r),
    ensures
        match game.status {
            GameStatus::Waiting | GameStatus::Lobby | GameStatus::Active => r == game.total_pot,
            GameStatus::Cancelled => r == if game.settlement_kind is Unsettled {
                game.total_pot
            } else {
                0
            },
            GameStatus::Settling | GameStatus::Complete => r == 0,
        },
{
}

/// A dust sweep is for the game's authority and the game's house wallet alone.
/// While the pot is still to be settled or refunded, a vault that held at least the
/// pot holds exactly the pot afterwards, and one that held less is left alone; of
/// any other game the vault is emptied. All goes to the house.
pub proof fn law_dust_sweep(
    ctx: AdminGameVaultRecovery,
    r: Result<(Option<VaultTransfer>, GameVaultRecovery), DoorCashError>,
)
    requires
        call_ensures(admin_sweep_game_vault_dust, (&ctx,), r),
    ensures
        ({
            let game = ctx.game;
            let asked = game.authority == ctx.authority;
            let house = asked && game.house_wallet == ctx.house_wallet;
            let pending = game.status is Waiting || game.status is Lobby || game.status is Active
                || (game.status is Cancelled && game.settlement_kind is Unsettled);
            &&& r is Ok <==> house
            &&& refused(r, DoorCashError::Unauthorized) <==> !asked
            &&& refused(r, DoorCashError::HouseWalletMismatch) <==> asked && !house
            &&& r matches Ok((transfer, event)) ==> {
                let left = ctx.vault.lamports - event.amount;
                &&& pending && ctx.vault.lamports >= game.total_pot ==> left == game.total_pot
                &&& pending && ctx.vault.lamports < game.total_pot ==> left == ctx.vault.lamports
                &&& !pending ==> left == 0
                &&& recorded(transfer) == moves(
                    ctx.vault.key,
                    ctx.house_wallet,
                    event.amount as int,
                    game_seeds(game.game_id@, game.vault_bump),
                )
                &&& event.game_id == game.game_id
                &&& event.destination == ctx.house_wallet
                &&& event.recovery_kind == RecoveryKind::Dust
            }
        }),
{
    if let Ok((transfer, event)) = r {
        if let Some(t) = transfer {
            assert(record(t).1 =~= t@.signer_seeds);
        }
    }
}

/// A game's vault is swept in an emergency exactly by the game's authority to the
/// game's house wallet, after the game stopped taking players and 216,000 slots
/// after its creation. What is wrong is named in this order. All that the vault
/// holds goes to the house, and the game is cancelled unless it was complete.
pub proof fn law_emergency_game_sweep(
    ctx: &mut AdminGameVaultRecovery,
    slot: u64,
    r: Result<(Option<VaultTransfer>, GameVaultRecovery), DoorCashError>,
)
    requires
        call_ensures(admin_emergency_sweep_game_vault, (ctx, slot), r),
    ensures
        ({
            let before = *old(ctx);
            let game = before.game;
            let asked = game.authority == before.authority;
            let house = asked && game.house_wallet == before.house_wallet;
            let closed = house && !(game.status is Waiting) && !(game.status is Lobby);
            let finite = closed && game.initialized_slot + 216_000 <= u64::MAX;
            &&& r is Ok <==> closed && slot >= game.initialized_slot + 216_000
            &&& refused(r, DoorCashError::Unauthorized) <==> !asked
            &&& refused(r, DoorCashError::HouseWalletMismatch) <==> asked && !house
            &&& refused(r, DoorCashError::InvalidGameStatus) <==> house && !closed
            &&& refused(r, DoorCashError::ArithmeticOverflow) <==> closed && !finite
            &&& refused(r, DoorCashError::EmergencyRecoveryTooEarly) <==> finite && slot
                < game.initialized_slot + 216_000
            &&& r is Err ==> *final(ctx) == before
            &&& r matches Ok((transfer, event)) ==> {
                &&& recorded(transfer) == moves(
                    before.vault.key,
                    before.house_wallet,
                    before.vault.lamports as int,
                    game_seeds(game.game_id@, game.vault_bump),
                )
                &&& final(ctx).game.status == if game.status is Complete {
                    GameStatus::Complete
                } else {
                    GameStatus::Cancelled
                }
                &&& final(ctx).game == (Game { status: final(ctx).game.status, ..game })
                &&& *final(ctx) == (AdminGameVaultRecovery { game: final(ctx).game, ..before })
                &&& event.game_id == game.game_id
                &&& event.destination == before.house_wallet
                &&& event.amount == before.vault.lamports
                &&& event.recovery_kind == RecoveryKind::Emergency
            }
        }),
{
    if let Ok((transfer, event)) = r {
        if let Some(t) = transfer {
            assert(record(t).1 =~= t@.signer_seeds);
        }
    }
}

/// The vault of a mode is swept in an emergency exactly by the authority of a game
/// of that mode to the game's house wallet, 216,000 slots after the game's
/// creation, from the mode's own vault unless it is empty. What is wrong is named
/// in this order.
pub proof fn law_emergency_mode_sweep_accepts(
    ctx: &mut AdminModeVaultRecovery,
    mode: u8,
    slot: u64,
    r: Result<(Option<VaultTransfer>, ModeVaultRecovery), Fault>,
)
    requires
        call_ensures(admin_emergency_sweep_mode_vault, (ctx, mode, slot), r),
    ensures
        ({
            let before = *old(ctx);
            let game = before.game;
            let asked = game.authority == before.authority;
            let house = asked && game.house_wallet == before.house_wallet;
            let known = house && mode < 3;
            let matching = known && game.mode == mode && before.mode_state.mode == mode;
            let finite = matching && game.initialized_slot + 216_000 <= u64::MAX;
            let late = finite && slot >= game.initialized_slot + 216_000;
            let empty = before.mode_vault.lamports == 0;
            let found = late && (empty || vault_of_mode(mode) is Some);
            let own = found && (empty || is_vault_of_mode(before.mode_vault.key, mode));
            let more = before.mode_state.active_streak_id < u64::MAX;
            &&& r is Ok <==> own && more
            &&& refused(r, Fault::Program(DoorCashError::Unauthorized)) <==> !asked
            &&& refused(r, Fault::Program(DoorCashError::HouseWalletMismatch)) <==> asked && !house
            &&& refused(r, Fault::Program(DoorCashError::InvalidMode)) <==> house && !known
            &&& refused(r, Fault::Program(DoorCashError::ModeMismatch)) <==> (known && !matching)
                || (found && !own)
            &&& refused(r, Fault::Program(DoorCashError::ArithmeticOverflow)) <==> (matching
                && !finite) || (own && !more)
            &&& refused(r, Fault::Program(DoorCashError::EmergencyRecoveryTooEarly)) <==> finite
                && !late
            &&& refused(r, Fault::NoProgramAddress) <==> late && !found
            &&& r is Err ==> *final(ctx) == before
        }),
{
    assert(mode_vault_found(mode) == vault_of_mode(mode));
}

/// An emergency sweep of a mode's vault sends all that it holds to the house, and
/// the mode starts a new streak with no carry, no eligible entries and no refund
/// round; the number of its last round stays.
pub proof fn law_emergency_mode_sweep_empties(
    ctx: &mut AdminModeVaultRecovery,
    mode: u8,
    slot: u64,
    r: Result<(Option<VaultTransfer>, ModeVaultRecovery), Fault>,
)
    requires
        call_ensures(admin_emergency_sweep_mode_vault, (ctx, mode, slot), r),
        r is Ok,
    ensures
        ({
            let before = *old(ctx);
            let state = final(ctx).mode_state;
            let (transfer, event) = r->Ok_0;
            &&& recorded(transfer) == moves(
                before.mode_vault.key,
                before.house_wallet,
                before.mode_vault.lamports as int,
                mode_seeds(mode, vault_of_mode(mode)->Some_0.1),
            )
            &&& state.mode == before.mode_state.mode
            &&& state.active_streak_id == before.mode_state.active_streak_id + 1
            &&& state.carry_lamports == 0
            &&& state.eligible_entry_count == 0
            &&& state.open_refund_round_id == before.mode_state.open_refund_round_id
            &&& state.refund_per_entry_lamports == 0
            &&& state.refund_remainder_lamports == 0
            &&& !state.refund_round_open
            &&& state.refund_paid_entry_count == 0
            &&& *final(ctx) == (AdminModeVaultRecovery { mode_state: state, ..before })
            &&& event.mode == mode
            &&& event.destination == before.house_wallet
            &&& event.amount == before.mode_vault.lamports
        }),
{
    assert(mode_vault_found(mode) == vault_of_mode(mode));
    let (transfer, event) = r->Ok_0;
    if let Some(t) = transfer {
        let bump = vault_of_mode(mode)->Some_0.1;
        assert(mode_vault_signer(mode, bump) =~= mode_seeds(mode, bump));
        assert(record(t).1 =~= t@.signer_seeds);
    }
}

} // verus!
