//! A game's life before its settlement: from its creation to the revealed seed.

use crate::accounts::{AuthorityAction, EnterGame, InitializeGame, StartGame};
use crate::address::{same_bytes, Address};
use crate::error::DoorCashError;
use crate::event::{GameCancelled, PlayerEntered, SeedRevealed};
use crate::seed::{hash_seed, sha256};
use crate::state::{
    is_valid_mode, valid_mode, Game, GameStatus, ModeParticipant, ModeState, PlayerEntry,
    SettlementKind, MAX_GAME_ID_LEN,
};
use crate::transfer::Transfer;
use vstd::prelude::*;
use vstd::utf8::encode_utf8;

verus! {

/// What the creator of a game chooses.
#[derive(Clone, Debug, PartialEq, Eq)]
pub struct GameConfig {
    pub game_id: String,
    pub mode: u8,
    pub seed_hash: [u8; 32],
    pub entry_fee_lamports: u64,
    pub max_players: u8,
    pub min_players: u8,
}

/// Why a game cannot be created.
pub open spec fn initialize_refusal(ctx: InitializeGame, config: GameConfig) -> Option<
    DoorCashError,
> {
    if encode_utf8(config.game_id@).len() > MAX_GAME_ID_LEN {
        Some(DoorCashError::GameIdTooLong)
    } else if !valid_mode(config.mode) {
        Some(DoorCashError::InvalidMode)
    } else if !(2 <= config.min_players <= config.max_players && config.entry_fee_lamports > 0) {
        Some(DoorCashError::InvalidConfig)
    } else if ctx.mode_state.active_streak_id != 0 && ctx.mode_state.mode != config.mode {
        Some(DoorCashError::ModeMismatch)
    } else if ctx.mode_state.refund_round_open {
        Some(DoorCashError::ModeRefundRoundOpen)
    } else {
        None
    }
}

/// The mode at the creation of one of its games: the first one starts the
/// first streak.
pub open spec fn mode_in_use(mode_state: ModeState, mode: u8) -> ModeState {
    if mode_state.active_streak_id == 0 {
        ModeState { mode, active_streak_id: 1, ..mode_state }
    } else {
        mode_state
    }
}

/// A new game, which waits for players.
pub open spec fn new_game(ctx: InitializeGame, config: GameConfig, slot: u64) -> Game {
    Game {
        game_id: config.game_id,
        authority: ctx.authority,
        house_wallet: ctx.house_wallet,
        seed_hash: config.seed_hash,
        seed: ctx.game.seed,
        seed_revealed: false,
        mode: config.mode,
        entry_fee: config.entry_fee_lamports,
        max_players: config.max_players,
        min_players: config.min_players,
        player_count: 0,
        total_pot: 0,
        prize_each: 0,
        house_cut: 0,
        carry_in: 0,
        carry_out: 0,
        refund_pool: 0,
        refund_per_entry: 0,
        refund_round_id: 0,
        streak_id: mode_in_use(ctx.mode_state, config.mode).active_streak_id,
        settlement_kind: SettlementKind::Unsettled,
        vault_bump: ctx.vault_bump,
        status: GameStatus::Waiting,
        initialized_slot: slot,
    }
}

/// Creates a game in the slot `slot`.
pub fn initialize_game(
    ctx: &mut InitializeGame,
    game_id: String,
    mode: u8,
    seed_hash: [u8; 32],
    entry_fee_lamports: u64,
    max_players: u8,
    min_players: u8,
    slot: u64,
) -> (r: Result<(), DoorCashError>)
    ensures
        ({
            let config = GameConfig {
                game_id,
                mode,
                seed_hash,
                entry_fee_lamports,
                max_players,
                min_players,
            };
            match r {
                Ok(_) => {
                    &&& initialize_refusal(*old(ctx), config) is None
                    &&& *final(ctx) == (InitializeGame {
                        game: new_game(*old(ctx), config, slot),
                        mode_state: mode_in_use(old(ctx).mode_state, mode),
                        ..*old(ctx)
                    })
                    &&& final(ctx).game.valid()
                },
                Err(e) => {
                    &&& initialize_refusal(*old(ctx), config) == Some(e)
                    &&& *final(ctx) == *old(ctx)
                },
            }
        }),
        old(ctx).mode_state.valid() ==> final(ctx).mode_state.valid(),
{
    if game_id.as_str().as_bytes().len() > MAX_GAME_ID_LEN {
        return Err(DoorCashError::GameIdTooLong);
    }
    if !is_valid_mode(mode) {
        return Err(DoorCashError::InvalidMode);
    }
    if min_players < 2 {
        return Err(DoorCashError::InvalidConfig);
    }
    if max_players < min_players {
        return Err(DoorCashError::InvalidConfig);
    }
    if entry_fee_lamports == 0 {
        return Err(DoorCashError::InvalidConfig);
    }
    let first_game = ctx.mode_state.active_streak_id == 0;
    if !first_game && ctx.mode_state.mode != mode {
        return Err(DoorCashError::ModeMismatch);
    }
    if ctx.mode_state.refund_round_open {
        return Err(DoorCashError::ModeRefundRoundOpen);
    }
    if first_game {
        ctx.mode_state.mode = mode;
        ctx.mode_state.active_streak_id = 1;
    }
    ctx.game.game_id = game_id;
    ctx.game.authority = ctx.authority;
    ctx.game.house_wallet = ctx.house_wallet;
    ctx.game.seed_hash = seed_hash;
    ctx.game.entry_fee = entry_fee_lamports;
    ctx.game.max_players = max_players;
    ctx.game.min_players = min_players;
    ctx.game.player_count = 0;
    ctx.game.total_pot = 0;
    ctx.game.prize_each = 0;
    ctx.game.house_cut = 0;
    ctx.game.carry_in = 0;
    ctx.game.carry_out = 0;
    ctx.game.refund_pool = 0;
    ctx.game.refund_per_entry = 0;
    ctx.game.refund_round_id = 0;
    ctx.game.streak_id = ctx.mode_state.active_streak_id;
    ctx.game.mode = mode;
    ctx.game.settlement_kind = SettlementKind::Unsettled;
    ctx.game.status = GameStatus::Waiting;
    ctx.game.vault_bump = ctx.vault_bump;
    ctx.game.seed_revealed = false;
    ctx.game.initialized_slot = slot;
    Ok(())
}

/// Why a player cannot enter a game.
pub open spec fn enter_refusal(ctx: EnterGame) -> Option<DoorCashError> {
    let game = ctx.game;
    let participant = ctx.mode_participant;
    if game.authority != ctx.authority {
        Some(DoorCashError::Unauthorized)
    } else if !game.status.accepting() {
        Some(DoorCashError::GameNotAccepting)
    } else if ctx.mode_state.refund_round_open {
        Some(DoorCashError::ModeRefundRoundOpen)
    } else if ctx.mode_state.mode != game.mode {
        Some(DoorCashError::ModeMismatch)
    } else if game.player_count >= game.max_players {
        Some(DoorCashError::LobbyFull)
    } else if game.total_pot + game.entry_fee > u64::MAX {
        Some(DoorCashError::ArithmeticOverflow)
    } else if !participant.wallet.is_unset() && participant.wallet != ctx.player {
        Some(DoorCashError::Unauthorized)
    } else if !participant.wallet.is_unset() && participant.mode != game.mode {
        Some(DoorCashError::ModeMismatch)
    } else {
        None
    }
}

/// The game after one more player has entered.
pub open spec fn game_entered(game: Game) -> Game {
    Game {
        player_count: (game.player_count + 1) as u16,
        total_pot: (game.total_pot + game.entry_fee) as u64,
        ..game
    }
}

/// The entry of a player.
pub open spec fn new_entry(player: Address, game_id: String, mode: u8, slot: u64) -> PlayerEntry {
    PlayerEntry {
        player,
        game_id,
        mode,
        entered_at_slot: slot,
        refunded: false,
        merged_streak_id: 0,
    }
}

/// What the program remembers of a player in a mode: at the first entry,
/// nothing has been counted or paid yet.
pub open spec fn known_participant(
    participant: ModeParticipant,
    player: Address,
    mode: u8,
) -> ModeParticipant {
    if participant.wallet.is_unset() {
        ModeParticipant {
            wallet: player,
            mode,
            streak_id: 0,
            eligible_entries: 0,
            last_paid_refund_round_id: 0,
        }
    } else {
        participant
    }
}

/// The accounts after a player has entered.
pub open spec fn enter_post(ctx: EnterGame, game_id: String, slot: u64) -> EnterGame {
    EnterGame {
        game: game_entered(ctx.game),
        player_entry: new_entry(ctx.player, game_id, ctx.game.mode, slot),
        mode_participant: known_participant(ctx.mode_participant, ctx.player, ctx.game.mode),
        ..ctx
    }
}

/// Lets a player enter a game in the slot `slot`, against the entry fee: the
/// transfer is from the player to the game's vault.
pub fn enter_game(ctx: &mut EnterGame, game_id: String, slot: u64) -> (r: Result<
    (Transfer, PlayerEntered),
    DoorCashError,
>)
    ensures
        match r {
            Ok((transfer, event)) => {
                &&& enter_refusal(*old(ctx)) is None
                &&& *final(ctx) == enter_post(*old(ctx), game_id, slot)
                &&& transfer == (Transfer {
                    from: old(ctx).player,
                    to: old(ctx).vault,
                    lamports: old(ctx).game.entry_fee,
                })
                &&& event == (PlayerEntered {
                    game_id: old(ctx).game.game_id,
                    player: old(ctx).player,
                    count: final(ctx).game.player_count,
                })
            },
            Err(e) => {
                &&& enter_refusal(*old(ctx)) == Some(e)
                &&& *final(ctx) == *old(ctx)
            },
        },
        old(ctx).game.valid() ==> final(ctx).game.valid(),
        old(ctx).game.status.may_become(final(ctx).game.status),
{
    if !ctx.game.authority.same(&ctx.authority) {
        return Err(DoorCashError::Unauthorized);
    }
    if !ctx.game.status.is_accepting() {
        return Err(DoorCashError::GameNotAccepting);
    }
    if ctx.mode_state.refund_round_open {
        return Err(DoorCashError::ModeRefundRoundOpen);
    }
    if ctx.mode_state.mode != ctx.game.mode {
        return Err(DoorCashError::ModeMismatch);
    }
    if ctx.game.player_count >= ctx.game.max_players as u16 {
        return Err(DoorCashError::LobbyFull);
    }
    let new_pot: u64 = match ctx.game.total_pot.checked_add(ctx.game.entry_fee) {
        Some(pot) => pot,
        None => return Err(DoorCashError::ArithmeticOverflow),
    };
    let first_entry = ctx.mode_participant.wallet.unset();
    if !first_entry && !ctx.mode_participant.wallet.same(&ctx.player) {
        return Err(DoorCashError::Unauthorized);
    }
    if !first_entry && ctx.mode_participant.mode != ctx.game.mode {
        return Err(DoorCashError::ModeMismatch);
    }
    proof {
        assert((ctx.game.player_count + 1) * ctx.game.entry_fee == ctx.game.player_count
            * ctx.game.entry_fee + ctx.game.entry_fee) by (nonlinear_arith);
    }
    ctx.game.player_count = ctx.game.player_count + 1;
    ctx.game.total_pot = new_pot;

    ctx.player_entry = PlayerEntry {
        player: ctx.player,
        game_id,
        mode: ctx.game.mode,
        entered_at_slot: slot,
        refunded: false,
        merged_streak_id: 0,
    };
    if first_entry {
        ctx.mode_participant = ModeParticipant {
            wallet: ctx.player,
            mode: ctx.game.mode,
            streak_id: 0,
            eligible_entries: 0,
            last_paid_refund_round_id: 0,
        };
    }
    let transfer = Transfer { from: ctx.player, to: ctx.vault, lamports: ctx.game.entry_fee };
    let event = PlayerEntered {
        game_id: ctx.game.game_id.clone(),
        player: ctx.player,
        count: ctx.game.player_count,
    };
    Ok((transfer, event))
}

/// Why a game cannot be started.
pub open spec fn start_refusal(ctx: StartGame) -> Option<DoorCashError> {
    if ctx.game.authority != ctx.authority {
        Some(DoorCashError::Unauthorized)
    } else if !ctx.game.status.accepting() {
        Some(DoorCashError::InvalidGameStatus)
    } else if ctx.game.player_count < ctx.game.min_players {
        Some(DoorCashError::NotEnoughPlayers)
    } else if ctx.mode_state.refund_round_open {
        Some(DoorCashError::ModeRefundRoundOpen)
    } else {
        None
    }
}

/// A game with another status.
pub open spec fn with_status(game: Game, status: GameStatus) -> Game {
    Game { status, ..game }
}

/// Starts a game that has enough players.
pub fn start_game(ctx: &mut StartGame) -> (r: Result<(), DoorCashError>)
    ensures
        match r {
            Ok(_) => {
                &&& start_refusal(*old(ctx)) is None
                &&& *final(ctx) == (StartGame {
                    game: with_status(old(ctx).game, GameStatus::Active),
                    ..*old(ctx)
                })
            },
            Err(e) => {
                &&& start_refusal(*old(ctx)) == Some(e)
                &&& *final(ctx) == *old(ctx)
            },
        },
        old(ctx).game.valid() ==> final(ctx).game.valid(),
        old(ctx).game.status.may_become(final(ctx).game.status),
{
    if !ctx.game.authority.same(&ctx.authority) {
        return Err(DoorCashError::Unauthorized);
    }
    if !ctx.game.status.is_accepting() {
        return Err(DoorCashError::InvalidGameStatus);
    }
    if ctx.game.player_count < ctx.game.min_players as u16 {
        return Err(DoorCashError::NotEnoughPlayers);
    }
    if ctx.mode_state.refund_round_open {
        return Err(DoorCashError::ModeRefundRoundOpen);
    }
    ctx.game.status = GameStatus::Active;
    Ok(())
}

/// Why a seed whose digest is `digest` cannot be recorded.
pub open spec fn seed_refusal(game: Game, digest: Seq<u8>) -> Option<DoorCashError> {
    if !game.status.started() {
        Some(DoorCashError::InvalidGameStatus)
    } else if game.seed_revealed {
        Some(DoorCashError::SeedAlreadyRevealed)
    } else if digest != game.seed_hash@ {
        Some(DoorCashError::SeedHashMismatch)
    } else {
        None
    }
}

/// The game after its seed has been revealed.
pub open spec fn game_revealed(game: Game, seed: [u8; 32]) -> Game {
    Game { seed, seed_revealed: true, ..game }
}

/// Records a game's seed if its digest is the one that the game is committed to.
pub fn record_seed(game: &mut Game, seed: [u8; 32], digest: &[u8; 32]) -> (r: Result<
    SeedRevealed,
    DoorCashError,
>)
    ensures
        match r {
            Ok(event) => {
                &&& seed_refusal(*old(game), digest@) is None
                &&& *final(game) == game_revealed(*old(game), seed)
                &&& event == (SeedRevealed { game_id: old(game).game_id, seed })
            },
            Err(e) => {
                &&& seed_refusal(*old(game), digest@) == Some(e)
                &&& *final(game) == *old(game)
            },
        },
{
    if !game.status.is_started() {
        return Err(DoorCashError::InvalidGameStatus);
    }
    if game.seed_revealed {
        return Err(DoorCashError::SeedAlreadyRevealed);
    }
    if !same_bytes(digest, &game.seed_hash) {
        return Err(DoorCashError::SeedHashMismatch);
    }
    game.seed = seed;
    game.seed_revealed = true;
    Ok(SeedRevealed { game_id: game.game_id.clone(), seed })
}

/// Why a seed cannot be revealed.
pub open spec fn reveal_refusal(ctx: AuthorityAction, seed: [u8; 32]) -> Option<DoorCashError> {
    if ctx.game.authority != ctx.authority {
        Some(DoorCashError::Unauthorized)
    } else {
        seed_refusal(ctx.game, sha256(seed@))
    }
}

/// Reveals the seed that a started game is committed to.
pub fn reveal_seed(ctx: &mut AuthorityAction, seed: [u8; 32]) -> (r: Result<
    SeedRevealed,
    DoorCashError,
>)
    ensures
        match r {
            Ok(event) => {
                &&& reveal_refusal(*old(ctx), seed) is None
                &&& *final(ctx) == (AuthorityAction {
                    game: game_revealed(old(ctx).game, seed),
                    ..*old(ctx)
                })
                &&& event == (SeedRevealed { game_id: old(ctx).game.game_id, seed })
            },
            Err(e) => {
                &&& reveal_refusal(*old(ctx), seed) == Some(e)
                &&& *final(ctx) == *old(ctx)
            },
        },
        old(ctx).game.valid() ==> final(ctx).game.valid(),
        old(ctx).game.status.may_become(final(ctx).game.status),
{
    if !ctx.game.authority.same(&ctx.authority) {
        return Err(DoorCashError::Unauthorized);
    }
    let digest = hash_seed(&seed);
    record_seed(&mut ctx.game, seed, &digest)
}

/// Why a game cannot be cancelled.
pub open spec fn cancel_refusal(ctx: AuthorityAction) -> Option<DoorCashError> {
    if ctx.game.authority != ctx.authority {
        Some(DoorCashError::Unauthorized)
    } else if ctx.game.status.started() {
        Some(DoorCashError::CannotCancelActiveGame)
    } else {
        None
    }
}

/// Cancels a game that has not been started.
pub fn cancel_game(ctx: &mut AuthorityAction) -> (r: Result<GameCancelled, DoorCashError>)
    ensures
        match r {
            Ok(event) => {
                &&& cancel_refusal(*old(ctx)) is None
                &&& *final(ctx) == (AuthorityAction {
                    game: with_status(old(ctx).game, GameStatus::Cancelled),
                    ..*old(ctx)
                })
                &&& event == (GameCancelled { game_id: old(ctx).game.game_id })
            },
            Err(e) => {
                &&& cancel_refusal(*old(ctx)) == Some(e)
                &&& *final(ctx) == *old(ctx)
            },
        },
        old(ctx).game.valid() ==> final(ctx).game.valid(),
        old(ctx).game.status.may_become(final(ctx).game.status),
{
    if !ctx.game.authority.same(&ctx.authority) {
        return Err(DoorCashError::Unauthorized);
    }
    if ctx.game.status.is_started() {
        return Err(DoorCashError::CannotCancelActiveGame);
    }
    ctx.game.status = GameStatus::Cancelled;
    Ok(GameCancelled { game_id: ctx.game.game_id.clone() })
}

} // verus!
