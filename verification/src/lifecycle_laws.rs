//! What the instructions before a settlement accept and do, field by field.
//!
//! Each law speaks of every result that the contract of an instruction allows.

use crate::accounts::{AuthorityAction, EnterGame, InitializeGame, StartGame};
use crate::error::DoorCashError;
use crate::event::{GameCancelled, PlayerEntered, SeedRevealed};
use crate::law_terms::{blank, refused};
use crate::lifecycle::{cancel_game, enter_game, initialize_game, reveal_seed, start_game};
use crate::seed::sha256;
use crate::state::{
    is_valid_mode, Game, GameStatus, SettlementKind, BASIS_POINTS, EMERGENCY_RECOVERY_DELAY_SLOTS,
    HOUSE_EDGE_BPS, MAX_GAME_ID_LEN, MAX_WINNERS,
};
use crate::transfer::{SystemInstruction, Transfer};
use vstd::prelude::*;
use vstd::utf8::encode_utf8;

verus! {

/// The figures that the program is run by: the house takes a tenth, a settlement
/// has at most 111 winners, a game id at most 64 bytes, and an emergency sweep has
/// to wait for 216,000 slots.
pub proof fn law_figures()
    ensures
        BASIS_POINTS == 10 * HOUSE_EDGE_BPS,
        BASIS_POINTS == 10_000,
        MAX_WINNERS == 111,
        MAX_GAME_ID_LEN == 64,
        EMERGENCY_RECOVERY_DELAY_SLOTS == 216_000,
{
}

/// There are three modes.
pub proof fn law_three_modes(mode: u8, r: bool)
    requires
        call_ensures(is_valid_mode, (mode,), r),
    ensures
        r <==> mode < 3,
{
}

/// The instruction that asks for a transfer is one for the system program, whose
/// address is blank. It names the source, which signs, and then the destination,
/// both as writable, and asks in twelve bytes for request number 2 and for as many
/// lamports as its last eight bytes say, lowest byte first.
pub proof fn law_instruction(transfer: Transfer, r: SystemInstruction)
    requires
        call_ensures(Transfer::instruction, (&transfer,), r),
    ensures
        blank(r.program_id),
        r.accounts@.len() == 2,
        r.accounts@[0].key == transfer.from,
        r.accounts@[0].is_signer && r.accounts@[0].is_writable,
        r.accounts@[1].key == transfer.to,
        !r.accounts@[1].is_signer && r.accounts@[1].is_writable,
        r.data@.len() == 12,
        r.data@[0] == 2 && r.data@[1] == 0 && r.data@[2] == 0 && r.data@[3] == 0,
        r.data@[4] + 0x100 * r.data@[5] + 0x1_0000 * r.data@[6] + 0x100_0000 * r.data@[7]
            + 0x1_0000_0000 * r.data@[8] + 0x100_0000_0000 * r.data@[9] + 0x1_0000_0000_0000
            * r.data@[10] + 0x100_0000_0000_0000 * r.data@[11] == transfer.lamports,
{
    let n = transfer.lamports as int;
    assert(r.program_id.is_unset());
    assert(0 <= n / 0x100_0000_0000_0000 < 0x100);
    assert(n / 0x100 / 0x100 == n / 0x1_0000);
    assert(n / 0x1_0000 / 0x100 == n / 0x100_0000);
    assert(n / 0x100_0000 / 0x100 == n / 0x1_0000_0000);
    assert(n / 0x1_0000_0000 / 0x100 == n / 0x100_0000_0000);
    assert(n / 0x100_0000_0000 / 0x100 == n / 0x1_0000_0000_0000);
    assert(n / 0x1_0000_0000_0000 / 0x100 == n / 0x100_0000_0000_0000);
}

/// A game is created exactly from an id of at most 64 bytes, one of the three
/// modes, at least two players, no fewer at most than at least, and a fee, where
/// the mode has no game of another mode and no open refund round. What is wrong is
/// named in this order.
pub proof fn law_initialize_game_accepts(
    ctx: &mut InitializeGame,
    game_id: String,
    mode: u8,
    seed_hash: [u8; 32],
    fee: u64,
    max_players: u8,
    min_players: u8,
    slot: u64,
    r: Result<(), DoorCashError>,
)
    requires
        call_ensures(
            initialize_game,
            (ctx, game_id, mode, seed_hash, fee, max_players, min_players, slot),
            r,
        ),
    ensures
        ({
            let state = old(ctx).mode_state;
            let short = encode_utf8(game_id@).len() <= 64;
            let known = short && mode < 3;
            let sound = known && 2 <= min_players && min_players <= max_players && fee > 0;
            let matching = sound && (state.active_streak_id == 0 || state.mode == mode);
            &&& r is Ok <==> matching && !state.refund_round_open
            &&& refused(r, DoorCashError::GameIdTooLong) <==> !short
            &&& refused(r, DoorCashError::InvalidMode) <==> short && !known
            &&& refused(r, DoorCashError::InvalidConfig) <==> known && !sound
            &&& refused(r, DoorCashError::ModeMismatch) <==> sound && !matching
            &&& refused(r, DoorCashError::ModeRefundRoundOpen) <==> matching
                && state.refund_round_open
            &&& r is Err ==> *final(ctx) == *old(ctx)
        }),
{
}

/// A created game carries what its creator chose, has taken nothing and nobody
/// yet, and belongs to the mode's current streak, which is the first one if the
/// mode had none. Nothing else of the mode changes.
pub proof fn law_initialize_game_creates(
    ctx: &mut InitializeGame,
    game_id: String,
    mode: u8,
    seed_hash: [u8; 32],
    fee: u64,
    max_players: u8,
    min_players: u8,
    slot: u64,
    r: Result<(), DoorCashError>,
)
    requires
        call_ensures(
            initialize_game,
            (ctx, game_id, mode, seed_hash, fee, max_players, min_players, slot),
            r,
        ),
        r is Ok,
    ensures
        ({
            let game = final(ctx).game;
            let before = old(ctx).mode_state;
            let after = final(ctx).mode_state;
            &&& game.game_id == game_id
            &&& game.authority == old(ctx).authority
            &&& game.house_wallet == old(ctx).house_wallet
            &&& game.seed_hash == seed_hash
            &&& game.seed == old(ctx).game.seed && !game.seed_revealed
            &&& game.mode == mode
            &&& game.entry_fee == fee
            &&& game.max_players == max_players
            &&& game.min_players == min_players
            &&& game.player_count == 0 && game.total_pot == 0
            &&& game.prize_each == 0 && game.house_cut == 0
            &&& game.carry_in == 0 && game.carry_out == 0
            &&& game.refund_pool == 0 && game.refund_per_entry == 0
            &&& game.refund_round_id == 0
            &&& game.settlement_kind == SettlementKind::Unsettled
            &&& game.vault_bump == old(ctx).vault_bump
            &&& game.status == GameStatus::Waiting
            &&& game.initialized_slot == slot
            &&& game.streak_id == after.active_streak_id
            &&& after.mode == mode
            &&& after.active_streak_id == if before.active_streak_id == 0 {
                1
            } else {
                before.active_streak_id
            }
            &&& after.carry_lamports == before.carry_lamports
            &&& after.eligible_entry_count == before.eligible_entry_count
            &&& after.open_refund_round_id == before.open_refund_round_id
            &&& after.refund_per_entry_lamports == before.refund_per_entry_lamports
            &&& after.refund_remainder_lamports == before.refund_remainder_lamports
            &&& after.refund_round_open == before.refund_round_open
            &&& after.refund_paid_entry_count == before.refund_paid_entry_count
            &&& final(ctx).authority == old(ctx).authority
            &&& final(ctx).house_wallet == old(ctx).house_wallet
            &&& final(ctx).vault_bump == old(ctx).vault_bump
        }),
{
}

/// A player may enter exactly where the game's authority agrees, the game still
/// takes players, its mode has no open refund round, there is room, the pot has
/// room for the fee, and what is known of the player in the mode is the player's
/// own or nothing. What is wrong is named in this order.
pub proof fn law_enter_game_accepts(
    ctx: &mut EnterGame,
    game_id: String,
    slot: u64,
    r: Result<(Transfer, PlayerEntered), DoorCashError>,
)
    requires
        call_ensures(enter_game, (ctx, game_id, slot), r),
    ensures
        ({
            let game = old(ctx).game;
            let known = old(ctx).mode_participant;
            let fresh = blank(known.wallet);
            let asked = game.authority == old(ctx).authority;
            let open = asked && (game.status is Waiting || game.status is Lobby);
            let idle = open && !old(ctx).mode_state.refund_round_open;
            let matching = idle && old(ctx).mode_state.mode == game.mode;
            let room = matching && game.player_count < game.max_players;
            let held = room && game.total_pot + game.entry_fee <= u64::MAX;
            let own = held && (fresh || known.wallet == old(ctx).player);
            &&& r is Ok <==> own && (fresh || known.mode == game.mode)
            &&& refused(r, DoorCashError::Unauthorized) <==> !asked || (held && !own)
            &&& refused(r, DoorCashError::GameNotAccepting) <==> asked && !open
            &&& refused(r, DoorCashError::ModeRefundRoundOpen) <==> open && !idle
            &&& refused(r, DoorCashError::ModeMismatch) <==> (idle && !matching) || (own
                && !fresh && known.mode != game.mode)
            &&& refused(r, DoorCashError::LobbyFull) <==> matching && !room
            &&& refused(r, DoorCashError::ArithmeticOverflow) <==> room && !held
            &&& r is Err ==> *final(ctx) == *old(ctx)
        }),
{
    assert(old(ctx).mode_participant.wallet.is_unset() == blank(old(ctx).mode_participant.wallet));
}

/// A player who enters pays the fee from the own wallet into the game's vault and
/// is counted; the entry is the player's, for this game, neither refunded nor
/// counted for a streak. What was known of the player in the mode stays, and if
/// nothing was, the player is known as one without entries or refunds.
pub proof fn law_enter_game_enters(
    ctx: &mut EnterGame,
    game_id: String,
    slot: u64,
    r: Result<(Transfer, PlayerEntered), DoorCashError>,
)
    requires
        call_ensures(enter_game, (ctx, game_id, slot), r),
        r is Ok,
    ensures
        ({
            let (transfer, event) = r->Ok_0;
            let before = *old(ctx);
            let after = *final(ctx);
            let entry = after.player_entry;
            let known = after.mode_participant;
            &&& transfer.from == before.player
            &&& transfer.to == before.vault
            &&& transfer.lamports == before.game.entry_fee
            &&& after.game.player_count == before.game.player_count + 1
            &&& after.game.total_pot == before.game.total_pot + before.game.entry_fee
            &&& after.game == (Game {
                player_count: after.game.player_count,
                total_pot: after.game.total_pot,
                ..before.game
            })
            &&& entry.player == before.player
            &&& entry.game_id == game_id
            &&& entry.mode == before.game.mode
            &&& entry.entered_at_slot == slot
            &&& !entry.refunded
            &&& entry.merged_streak_id == 0
            &&& !blank(before.mode_participant.wallet) ==> known == before.mode_participant
            &&& blank(before.mode_participant.wallet) ==> {
                &&& known.mode == before.game.mode
                &&& known.streak_id == 0
                &&& known.eligible_entries == 0
                &&& known.last_paid_refund_round_id == 0
            }
            &&& known.wallet == before.player
            &&& event.game_id == before.game.game_id
            &&& event.player == before.player
            &&& event.count == before.game.player_count + 1
            &&& after.mode_state == before.mode_state
            &&& after.player == before.player
            &&& after.authority == before.authority
            &&& after.vault == before.vault
        }),
{
    assert(old(ctx).mode_participant.wallet.is_unset() == blank(old(ctx).mode_participant.wallet));
}

/// A game is started exactly by its authority, while it takes players, once it
/// has enough of them, and while its mode has no open refund round. What is wrong
/// is named in this order. Only the status changes.
pub proof fn law_start_game(ctx: &mut StartGame, r: Result<(), DoorCashError>)
    requires
        call_ensures(start_game, (ctx,), r),
    ensures
        ({
            let game = old(ctx).game;
            let asked = game.authority == old(ctx).authority;
            let open = asked && (game.status is Waiting || game.status is Lobby);
            let enough = open && game.player_count >= game.min_players;
            &&& r is Ok <==> enough && !old(ctx).mode_state.refund_round_open
            &&& refused(r, DoorCashError::Unauthorized) <==> !asked
            &&& refused(r, DoorCashError::InvalidGameStatus) <==> asked && !open
            &&& refused(r, DoorCashError::NotEnoughPlayers) <==> open && !enough
            &&& refused(r, DoorCashError::ModeRefundRoundOpen) <==> enough
                && old(ctx).mode_state.refund_round_open
            &&& r is Err ==> *final(ctx) == *old(ctx)
            &&& r is Ok ==> {
                &&& final(ctx).game == (Game { status: GameStatus::Active, ..game })
                &&& final(ctx).mode_state == old(ctx).mode_state
                &&& final(ctx).authority == old(ctx).authority
            }
        }),
{
}

/// A game that was created for at least `min_players` players is not started
/// before so many have entered, and is started then if its authority wants it and
/// its mode is free.
pub proof fn law_created_game_waits_for_its_players(
    ctx: &mut InitializeGame,
    game_id: String,
    mode: u8,
    seed_hash: [u8; 32],
    fee: u64,
    max_players: u8,
    min_players: u8,
    slot: u64,
    created: Result<(), DoorCashError>,
    start: &mut StartGame,
    r: Result<(), DoorCashError>,
)
    requires
        call_ensures(
            initialize_game,
            (ctx, game_id, mode, seed_hash, fee, max_players, min_players, slot),
            created,
        ),
        created is Ok,
        call_ensures(start_game, (start,), r),
        old(start).game == (Game {
            player_count: old(start).game.player_count,
            total_pot: old(start).game.total_pot,
            ..final(ctx).game
        }),
        old(start).authority == old(ctx).authority,
        !old(start).mode_state.refund_round_open,
    ensures
        r is Ok <==> old(start).game.player_count >= min_players,
        r is Err ==> r->Err_0 == DoorCashError::NotEnoughPlayers,
{
    law_initialize_game_creates(
        ctx,
        game_id,
        mode,
        seed_hash,
        fee,
        max_players,
        min_players,
        slot,
        created,
    );
    law_start_game(start, r);
}

/// A seed is revealed exactly by the game's authority, once, of a game that has
/// been started and not been cancelled, and only the one whose digest the game was
/// created with. What is wrong is named in this order. The game then shows the
/// seed, and nothing else of it changes.
pub proof fn law_reveal_seed(
    ctx: &mut AuthorityAction,
    seed: [u8; 32],
    r: Result<SeedRevealed, DoorCashError>,
)
    requires
        call_ensures(reveal_seed, (ctx, seed), r),
    ensures
        ({
            let game = old(ctx).game;
            let asked = game.authority == old(ctx).authority;
            let running = asked && (game.status is Active || game.status is Settling
                || game.status is Complete);
            let secret = running && !game.seed_revealed;
            &&& r is Ok <==> secret && sha256(seed@) == game.seed_hash@
            &&& refused(r, DoorCashError::Unauthorized) <==> !asked
            &&& refused(r, DoorCashError::InvalidGameStatus) <==> asked && !running
            &&& refused(r, DoorCashError::SeedAlreadyRevealed) <==> running && !secret
            &&& refused(r, DoorCashError::SeedHashMismatch) <==> secret && sha256(seed@)
                != game.seed_hash@
            &&& r is Err ==> *final(ctx) == *old(ctx)
            &&& r matches Ok(event) ==> {
                &&& final(ctx).game == (Game { seed, seed_revealed: true, ..game })
                &&& final(ctx).authority == old(ctx).authority
                &&& event.game_id == game.game_id
                &&& event.seed == seed
            }
        }),
{
}

/// A game is cancelled exactly by its authority and only before it is started;
/// one that has been cancelled can be cancelled again. Only the status changes.
pub proof fn law_cancel_game(ctx: &mut AuthorityAction, r: Result<GameCancelled, DoorCashError>)
    requires
        call_ensures(cancel_game, (ctx,), r),
    ensures
        ({
            let game = old(ctx).game;
            let asked = game.authority == old(ctx).authority;
            let unstarted = game.status is Waiting || game.status is Lobby || game.status
                is Cancelled;
            &&& r is Ok <==> asked && unstarted
            &&& refused(r, DoorCashError::Unauthorized) <==> !asked
            &&& refused(r, DoorCashError::CannotCancelActiveGame) <==> asked && !unstarted
            &&& r is Err ==> *final(ctx) == *old(ctx)
            &&& r matches Ok(event) ==> {
                &&& final(ctx).game == (Game { status: GameStatus::Cancelled, ..game })
                &&& final(ctx).authority == old(ctx).authority
                &&& event.game_id == game.game_id
            }
        }),
{
}

} // verus!
