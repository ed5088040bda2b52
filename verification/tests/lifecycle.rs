use anchor_lang::prelude::Pubkey;
use doorcash::address::{entry_address, id, mode_vault_address, Address};
use doorcash::lifecycle::record_seed;
use doorcash::state::{calculate_house_cut, is_valid_mode, protected_game_vault_lamports};
use doorcash::transfer::Transfer;
use doorcash::{
    cancel_game, enter_game, initialize_game, reveal_seed, start_game, AuthorityAction,
    DoorCashError, EnterGame, Game, GameCancelled, GameStatus, InitializeGame, ModeParticipant,
    ModeState, PlayerEntered, PlayerEntry, SeedRevealed, SettlementKind, StartGame,
};

/// The SHA-256 digest of 32 zero bytes.
const ZERO_DIGEST: [u8; 32] = [
    0x66, 0x68, 0x7a, 0xad, 0xf8, 0x62, 0xbd, 0x77, 0x6c, 0x8f, 0xc1, 0x8b, 0x8e, 0x9f, 0x8e, 0x20,
    0x08, 0x97, 0x14, 0x85, 0x6e, 0xe2, 0x33, 0xb3, 0x90, 0x2a, 0x59, 0x1d, 0x0d, 0x5f, 0x29, 0x25,
];

fn address(n: u8) -> Address {
    Address { bytes: [n; 32] }
}

fn blank_game() -> Game {
    Game {
        game_id: String::new(),
        authority: address(0),
        house_wallet: address(0),
        seed_hash: [0; 32],
        seed: [0; 32],
        seed_revealed: false,
        mode: 0,
        entry_fee: 0,
        max_players: 0,
        min_players: 0,
        player_count: 0,
        total_pot: 0,
        prize_each: 0,
        house_cut: 0,
        carry_in: 0,
        carry_out: 0,
        refund_pool: 0,
        refund_per_entry: 0,
        refund_round_id: 0,
        streak_id: 0,
        settlement_kind: SettlementKind::Unsettled,
        vault_bump: 0,
        status: GameStatus::Waiting,
        initialized_slot: 0,
    }
}

fn blank_mode() -> ModeState {
    ModeState {
        mode: 0,
        active_streak_id: 0,
        carry_lamports: 0,
        eligible_entry_count: 0,
        open_refund_round_id: 0,
        refund_per_entry_lamports: 0,
        refund_remainder_lamports: 0,
        refund_round_open: false,
        refund_paid_entry_count: 0,
    }
}

fn blank_entry() -> PlayerEntry {
    PlayerEntry {
        player: address(0),
        game_id: String::new(),
        mode: 0,
        entered_at_slot: 0,
        refunded: false,
        merged_streak_id: 0,
    }
}

fn blank_participant() -> ModeParticipant {
    ModeParticipant {
        wallet: address(0),
        mode: 0,
        streak_id: 0,
        eligible_entries: 0,
        last_paid_refund_round_id: 0,
    }
}

fn creation() -> InitializeGame {
    InitializeGame {
        authority: address(1),
        house_wallet: address(2),
        game: blank_game(),
        vault_bump: 254,
        mode_state: blank_mode(),
    }
}

fn new_game() -> (Game, ModeState) {
    let mut ctx = creation();
    let made = initialize_game(&mut ctx, "door-1".to_string(), 1, ZERO_DIGEST, 500, 3, 2, 77);
    assert_eq!(made, Ok(()));
    (ctx.game, ctx.mode_state)
}

fn entering(game: Game, mode_state: ModeState, player: u8) -> EnterGame {
    EnterGame {
        player: address(player),
        authority: address(1),
        game,
        vault: address(9),
        player_entry: blank_entry(),
        mode_participant: blank_participant(),
        mode_state,
    }
}

fn with_players(n: u8) -> (Game, ModeState) {
    let (mut game, mut mode_state) = new_game();
    let mut player = 0;
    while player < n {
        let mut ctx = entering(game, mode_state, 20 + player);
        assert!(enter_game(&mut ctx, "door-1".to_string(), 80).is_ok());
        game = ctx.game;
        mode_state = ctx.mode_state;
        player += 1;
    }
    (game, mode_state)
}

fn active_game() -> (Game, ModeState) {
    let (game, mode_state) = with_players(2);
    let mut ctx = StartGame { authority: address(1), game, mode_state };
    assert_eq!(start_game(&mut ctx), Ok(()));
    (ctx.game, ctx.mode_state)
}

#[test]
fn program_id_is_the_declared_one() {
    let declared: Pubkey = "67g5HhrzQ2eqqEDJTEogHGBjAfwRD8evD3wg6LTDV8GK".parse().unwrap();
    assert_eq!(id().bytes, declared.to_bytes());
}

#[test]
fn entry_address_is_the_derived_one() {
    let program = address(7);
    let player = address(3);
    let (key, bump) = Pubkey::find_program_address(
        &[b"entry", b"door-1", &player.bytes],
        &Pubkey::from(program.bytes),
    );
    assert_eq!(
        entry_address("door-1", &player, &program),
        Some((Address { bytes: key.to_bytes() }, bump))
    );
}

#[test]
fn long_game_id_has_no_entry_address() {
    let longest = "x".repeat(32);
    let too_long = "x".repeat(33);
    assert!(entry_address(&longest, &address(3), &id()).is_some());
    assert_eq!(entry_address(&too_long, &address(3), &id()), None);
}

#[test]
fn mode_vault_address_is_the_derived_one() {
    let (key, bump) =
        Pubkey::find_program_address(&[b"mode-vault", &[2u8]], &Pubkey::from(id().bytes));
    assert_eq!(mode_vault_address(2), Some((Address { bytes: key.to_bytes() }, bump)));
    assert_ne!(mode_vault_address(1), mode_vault_address(2));
}

#[test]
fn addresses_are_compared_byte_by_byte() {
    let mut other = address(5);
    assert!(address(5).same(&other));
    other.bytes[31] = 6;
    assert!(!address(5).same(&other));
    assert!(address(0).unset());
    assert!(!other.unset());
}

#[test]
fn three_modes_are_valid() {
    assert!(is_valid_mode(0));
    assert!(is_valid_mode(1));
    assert!(is_valid_mode(2));
    assert!(!is_valid_mode(3));
    assert!(!is_valid_mode(255));
}

#[test]
fn house_cut_is_a_tenth_rounded_down() {
    assert_eq!(calculate_house_cut(0), Ok(0));
    assert_eq!(calculate_house_cut(9), Ok(0));
    assert_eq!(calculate_house_cut(1_999), Ok(199));
    assert_eq!(calculate_house_cut(18_446_744_073_709_551), Ok(1_844_674_407_370_955));
    assert_eq!(
        calculate_house_cut(18_446_744_073_709_552),
        Err(DoorCashError::ArithmeticOverflow)
    );
}

#[test]
fn first_game_of_a_mode_starts_the_first_streak() {
    let (game, mode_state) = new_game();
    assert_eq!(game.game_id, "door-1");
    assert_eq!(game.authority, address(1));
    assert_eq!(game.house_wallet, address(2));
    assert_eq!(game.seed_hash, ZERO_DIGEST);
    assert_eq!(game.entry_fee, 500);
    assert_eq!((game.max_players, game.min_players), (3, 2));
    assert_eq!((game.player_count, game.total_pot), (0, 0));
    assert_eq!(game.streak_id, 1);
    assert_eq!(game.mode, 1);
    assert_eq!(game.vault_bump, 254);
    assert_eq!(game.status, GameStatus::Waiting);
    assert_eq!(game.settlement_kind, SettlementKind::Unsettled);
    assert_eq!(game.initialized_slot, 77);
    assert_eq!(mode_state, ModeState { mode: 1, active_streak_id: 1, ..blank_mode() });
}

#[test]
fn later_game_joins_the_streak_of_its_mode() {
    let mut ctx = creation();
    ctx.mode_state.mode = 2;
    ctx.mode_state.active_streak_id = 8;
    assert_eq!(
        initialize_game(&mut ctx, "g".to_string(), 2, [1; 32], 1, 2, 2, 0),
        Ok(())
    );
    assert_eq!(ctx.game.streak_id, 8);
    assert_eq!(ctx.mode_state.active_streak_id, 8);
}

#[test]
fn bad_configurations_are_refused() {
    let mut ctx = creation();
    let before = ctx.clone();
    let long = "x".repeat(65);
    assert_eq!(
        initialize_game(&mut ctx, long, 1, [0; 32], 1, 2, 2, 0),
        Err(DoorCashError::GameIdTooLong)
    );
    assert_eq!(
        initialize_game(&mut ctx, "g".to_string(), 3, [0; 32], 1, 2, 2, 0),
        Err(DoorCashError::InvalidMode)
    );
    assert_eq!(
        initialize_game(&mut ctx, "g".to_string(), 1, [0; 32], 1, 2, 1, 0),
        Err(DoorCashError::InvalidConfig)
    );
    assert_eq!(
        initialize_game(&mut ctx, "g".to_string(), 1, [0; 32], 1, 2, 3, 0),
        Err(DoorCashError::InvalidConfig)
    );
    assert_eq!(
        initialize_game(&mut ctx, "g".to_string(), 1, [0; 32], 0, 2, 2, 0),
        Err(DoorCashError::InvalidConfig)
    );
    assert_eq!(ctx, before);
}

#[test]
fn game_id_of_64_bytes_is_accepted() {
    let mut ctx = creation();
    assert_eq!(initialize_game(&mut ctx, "x".repeat(64), 1, [0; 32], 1, 2, 2, 0), Ok(()));
    let mut ctx = creation();
    assert_eq!(
        initialize_game(&mut ctx, "\u{e9}".repeat(33), 1, [0; 32], 1, 2, 2, 0),
        Err(DoorCashError::GameIdTooLong)
    );
}

#[test]
fn game_of_another_mode_or_in_an_open_round_is_refused() {
    let mut ctx = creation();
    ctx.mode_state.active_streak_id = 4;
    ctx.mode_state.mode = 0;
    assert_eq!(
        initialize_game(&mut ctx, "g".to_string(), 1, [0; 32], 1, 2, 2, 0),
        Err(DoorCashError::ModeMismatch)
    );
    ctx.mode_state.mode = 1;
    ctx.mode_state.refund_round_open = true;
    let before = ctx.clone();
    assert_eq!(
        initialize_game(&mut ctx, "g".to_string(), 1, [0; 32], 1, 2, 2, 0),
        Err(DoorCashError::ModeRefundRoundOpen)
    );
    assert_eq!(ctx, before);
}

#[test]
fn player_enters_and_pays_the_fee() {
    let (game, mode_state) = new_game();
    let mut ctx = entering(game, mode_state, 20);
    let (transfer, event) = enter_game(&mut ctx, "door-1".to_string(), 81).unwrap();
    assert_eq!(transfer, Transfer { from: address(20), to: address(9), lamports: 500 });
    assert_eq!(
        event,
        PlayerEntered { game_id: "door-1".to_string(), player: address(20), count: 1 }
    );
    assert_eq!((ctx.game.player_count, ctx.game.total_pot), (1, 500));
    assert_eq!(
        ctx.player_entry,
        PlayerEntry {
            player: address(20),
            game_id: "door-1".to_string(),
            mode: 1,
            entered_at_slot: 81,
            refunded: false,
            merged_streak_id: 0,
        }
    );
    assert_eq!(
        ctx.mode_participant,
        ModeParticipant { wallet: address(20), mode: 1, ..blank_participant() }
    );
}

#[test]
fn known_participant_is_kept() {
    let (game, mode_state) = new_game();
    let mut ctx = entering(game, mode_state, 20);
    let known = ModeParticipant {
        wallet: address(20),
        mode: 1,
        streak_id: 1,
        eligible_entries: 4,
        last_paid_refund_round_id: 2,
    };
    ctx.mode_participant = known;
    assert!(enter_game(&mut ctx, "door-1".to_string(), 81).is_ok());
    assert_eq!(ctx.mode_participant, known);
}

#[test]
fn entering_is_refused() {
    let (game, mode_state) = new_game();
    let fresh = entering(game, mode_state, 20);
    let mut ctx = fresh.clone();
    ctx.authority = address(3);
    assert_eq!(enter_game(&mut ctx, "g".to_string(), 0), Err(DoorCashError::Unauthorized));

    let mut ctx = fresh.clone();
    ctx.game.status = GameStatus::Active;
    assert_eq!(enter_game(&mut ctx, "g".to_string(), 0), Err(DoorCashError::GameNotAccepting));

    let mut ctx = fresh.clone();
    ctx.mode_state.refund_round_open = true;
    assert_eq!(enter_game(&mut ctx, "g".to_string(), 0), Err(DoorCashError::ModeRefundRoundOpen));

    let mut ctx = fresh.clone();
    ctx.mode_state.mode = 2;
    assert_eq!(enter_game(&mut ctx, "g".to_string(), 0), Err(DoorCashError::ModeMismatch));

    let mut ctx = fresh.clone();
    ctx.game.player_count = 3;
    assert_eq!(enter_game(&mut ctx, "g".to_string(), 0), Err(DoorCashError::LobbyFull));

    let mut ctx = fresh.clone();
    ctx.game.total_pot = u64::MAX - 499;
    assert_eq!(enter_game(&mut ctx, "g".to_string(), 0), Err(DoorCashError::ArithmeticOverflow));

    let mut ctx = fresh.clone();
    ctx.mode_participant.wallet = address(21);
    let before = ctx.clone();
    assert_eq!(enter_game(&mut ctx, "g".to_string(), 0), Err(DoorCashError::Unauthorized));
    assert_eq!(ctx, before);

    let mut ctx = fresh.clone();
    ctx.mode_participant.wallet = address(20);
    ctx.mode_participant.mode = 0;
    assert_eq!(enter_game(&mut ctx, "g".to_string(), 0), Err(DoorCashError::ModeMismatch));
}

#[test]
fn lobby_takes_players_too() {
    let (mut game, mode_state) = new_game();
    game.status = GameStatus::Lobby;
    let mut ctx = entering(game, mode_state, 20);
    assert!(enter_game(&mut ctx, "door-1".to_string(), 81).is_ok());
    assert_eq!(ctx.game.status, GameStatus::Lobby);
}

#[test]
fn pot_is_a_fee_for_each_player() {
    let (game, _) = with_players(3);
    assert_eq!((game.player_count, game.total_pot), (3, 1_500));
}

#[test]
fn game_starts_with_enough_players() {
    let (game, mode_state) = with_players(1);
    let mut ctx = StartGame { authority: address(1), game, mode_state };
    assert_eq!(start_game(&mut ctx), Err(DoorCashError::NotEnoughPlayers));
    let (game, _) = active_game();
    assert_eq!(game.status, GameStatus::Active);
}

#[test]
fn starting_is_refused() {
    let (game, mode_state) = with_players(2);
    let mut ctx = StartGame { authority: address(1), game, mode_state };
    ctx.authority = address(4);
    assert_eq!(start_game(&mut ctx), Err(DoorCashError::Unauthorized));
    ctx.authority = address(1);
    ctx.mode_state.refund_round_open = true;
    assert_eq!(start_game(&mut ctx), Err(DoorCashError::ModeRefundRoundOpen));
    ctx.game.status = GameStatus::Complete;
    assert_eq!(start_game(&mut ctx), Err(DoorCashError::InvalidGameStatus));
}

#[test]
fn committed_seed_is_revealed_once() {
    let (game, _) = active_game();
    let mut ctx = AuthorityAction { authority: address(1), game };
    assert_eq!(reveal_seed(&mut ctx, [1; 32]), Err(DoorCashError::SeedHashMismatch));
    assert!(!ctx.game.seed_revealed);
    assert_eq!(
        reveal_seed(&mut ctx, [0; 32]),
        Ok(SeedRevealed { game_id: "door-1".to_string(), seed: [0; 32] })
    );
    assert!(ctx.game.seed_revealed);
    assert_eq!(reveal_seed(&mut ctx, [0; 32]), Err(DoorCashError::SeedAlreadyRevealed));
}

#[test]
fn revealing_is_refused() {
    let (game, _) = with_players(2);
    let mut ctx = AuthorityAction { authority: address(1), game };
    assert_eq!(reveal_seed(&mut ctx, [0; 32]), Err(DoorCashError::InvalidGameStatus));
    ctx.game.status = GameStatus::Cancelled;
    assert_eq!(reveal_seed(&mut ctx, [0; 32]), Err(DoorCashError::InvalidGameStatus));
    ctx.authority = address(5);
    assert_eq!(reveal_seed(&mut ctx, [0; 32]), Err(DoorCashError::Unauthorized));
}

#[test]
fn seed_is_recorded_under_a_given_digest() {
    let (mut game, _) = active_game();
    game.seed_hash = [8; 32];
    assert_eq!(record_seed(&mut game, [3; 32], &[9; 32]), Err(DoorCashError::SeedHashMismatch));
    assert!(record_seed(&mut game, [3; 32], &[8; 32]).is_ok());
    assert_eq!(game.seed, [3; 32]);
}

#[test]
fn game_is_cancelled_before_its_start_only() {
    let (game, _) = with_players(1);
    let mut ctx = AuthorityAction { authority: address(6), game };
    assert_eq!(cancel_game(&mut ctx), Err(DoorCashError::Unauthorized));
    ctx.authority = address(1);
    assert_eq!(cancel_game(&mut ctx), Ok(GameCancelled { game_id: "door-1".to_string() }));
    assert_eq!(ctx.game.status, GameStatus::Cancelled);
    assert!(cancel_game(&mut ctx).is_ok());
    for status in [GameStatus::Active, GameStatus::Settling, GameStatus::Complete] {
        ctx.game.status = status;
        assert_eq!(cancel_game(&mut ctx), Err(DoorCashError::CannotCancelActiveGame));
        assert_eq!(ctx.game.status, status);
    }
}

#[test]
fn pot_is_protected_until_it_is_settled() {
    let (mut game, _) = with_players(2);
    for status in [GameStatus::Waiting, GameStatus::Lobby, GameStatus::Active, GameStatus::Cancelled]
    {
        game.status = status;
        assert_eq!(protected_game_vault_lamports(&game), 1_000);
    }
    game.settlement_kind = SettlementKind::NoWinner;
    assert_eq!(protected_game_vault_lamports(&game), 0);
    game.status = GameStatus::Settling;
    assert_eq!(protected_game_vault_lamports(&game), 0);
    game.status = GameStatus::Complete;
    assert_eq!(protected_game_vault_lamports(&game), 0);
}
