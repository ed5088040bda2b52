use anchor_lang::prelude::Pubkey;
use doorcash::accounts::Vault;
use doorcash::address::{id, Address};
use doorcash::recovery::{check_delay, record_mode_sweep};
use doorcash::transfer::VaultTransfer;
use doorcash::{
    admin_emergency_sweep_game_vault, admin_emergency_sweep_mode_vault,
    admin_sweep_game_vault_dust, refund_player_single, AdminGameVaultRecovery,
    AdminModeVaultRecovery, DoorCashError, Fault, Game, GameStatus, GameVaultRecovery, ModeState,
    ModeVaultRecovery, PlayerEntry, RecoveryKind, RefundPlayer, SettlementKind,
};

fn address(n: u8) -> Address {
    Address { bytes: [n; 32] }
}

fn active_game(pot: u64) -> Game {
    Game {
        game_id: "door-1".to_string(),
        authority: address(1),
        house_wallet: address(2),
        seed_hash: [0; 32],
        seed: [0; 32],
        seed_revealed: true,
        mode: 1,
        entry_fee: 500,
        max_players: 200,
        min_players: 2,
        player_count: 2,
        total_pot: pot,
        prize_each: 0,
        house_cut: 0,
        carry_in: 0,
        carry_out: 0,
        refund_pool: 0,
        refund_per_entry: 0,
        refund_round_id: 0,
        streak_id: 3,
        settlement_kind: SettlementKind::Unsettled,
        vault_bump: 254,
        status: GameStatus::Active,
        initialized_slot: 77,
    }
}

fn mode_with(carry: u64, eligible: u64) -> ModeState {
    ModeState {
        mode: 1,
        active_streak_id: 3,
        carry_lamports: carry,
        eligible_entry_count: eligible,
        open_refund_round_id: 6,
        refund_per_entry_lamports: 0,
        refund_remainder_lamports: 0,
        refund_round_open: false,
        refund_paid_entry_count: 0,
    }
}

fn entry_of(player: Address) -> PlayerEntry {
    PlayerEntry {
        player,
        game_id: "door-1".to_string(),
        mode: 1,
        entered_at_slot: 80,
        refunded: false,
        merged_streak_id: 0,
    }
}

fn mode_vault() -> (Address, u8) {
    let (key, bump) =
        Pubkey::find_program_address(&[b"mode-vault", &[1u8]], &Pubkey::from(id().bytes));
    (Address { bytes: key.to_bytes() }, bump)
}

fn refunding(vault: u64) -> RefundPlayer {
    let mut game = active_game(1_000);
    game.status = GameStatus::Cancelled;
    RefundPlayer {
        authority: address(1),
        game,
        house_wallet: address(2),
        vault: Vault { key: address(9), lamports: vault },
        player: address(30),
        player_entry: entry_of(address(30)),
    }
}

fn sweeping(vault: u64) -> AdminGameVaultRecovery {
    AdminGameVaultRecovery {
        authority: address(1),
        game: active_game(1_000),
        house_wallet: address(2),
        vault: Vault { key: address(9), lamports: vault },
    }
}

fn sweeping_mode(vault: u64) -> AdminModeVaultRecovery {
    AdminModeVaultRecovery {
        authority: address(1),
        game: active_game(1_000),
        house_wallet: address(2),
        mode_state: mode_with(458, 5),
        mode_vault: Vault { key: mode_vault().0, lamports: vault },
    }
}

fn amounts(transfers: &Vec<VaultTransfer>) -> Vec<(Address, Address, u64)> {
    transfers.iter().map(|t| (t.transfer.from, t.transfer.to, t.transfer.lamports)).collect()
}

#[test]
fn player_of_a_cancelled_game_is_refunded_once() {
    let mut ctx = refunding(1_007);
    let transfers = refund_player_single(&mut ctx, "door-1").unwrap();
    assert_eq!(amounts(&transfers), vec![(address(9), address(30), 500)]);
    assert_eq!(
        transfers[0].signer_seeds,
        vec![b"vault".to_vec(), b"door-1".to_vec(), vec![254]]
    );
    assert!(ctx.player_entry.refunded);
    assert_eq!(refund_player_single(&mut ctx, "door-1"), Err(DoorCashError::AlreadyRefunded));
}

#[test]
fn last_refund_sends_the_dust_to_the_house() {
    let mut ctx = refunding(507);
    let transfers = refund_player_single(&mut ctx, "door-1").unwrap();
    assert_eq!(
        amounts(&transfers),
        vec![(address(9), address(2), 7), (address(9), address(30), 500)]
    );
    let mut ctx = refunding(500);
    let transfers = refund_player_single(&mut ctx, "door-1").unwrap();
    assert_eq!(amounts(&transfers), vec![(address(9), address(30), 500)]);
    let mut ctx = refunding(1_000);
    let transfers = refund_player_single(&mut ctx, "door-1").unwrap();
    assert_eq!(amounts(&transfers), vec![(address(9), address(30), 500)]);
}

#[test]
fn refund_is_refused() {
    let mut ctx = refunding(499);
    let before = ctx.clone();
    assert_eq!(
        refund_player_single(&mut ctx, "door-1"),
        Err(DoorCashError::InsufficientVaultFunds)
    );
    assert_eq!(ctx, before);
    ctx.game.status = GameStatus::Active;
    assert_eq!(refund_player_single(&mut ctx, "door-1"), Err(DoorCashError::GameNotCancelled));
    ctx.player = address(31);
    assert_eq!(refund_player_single(&mut ctx, "door-1"), Err(DoorCashError::Unauthorized));
    ctx.house_wallet = address(3);
    assert_eq!(refund_player_single(&mut ctx, "door-1"), Err(DoorCashError::HouseWalletMismatch));
    ctx.authority = address(3);
    assert_eq!(refund_player_single(&mut ctx, "door-1"), Err(DoorCashError::Unauthorized));
}

#[test]
fn dust_is_swept_and_the_pot_is_not() {
    let (transfer, event) = admin_sweep_game_vault_dust(&sweeping(1_030)).unwrap();
    assert_eq!(transfer.unwrap().transfer.lamports, 30);
    assert_eq!(
        event,
        GameVaultRecovery {
            game_id: "door-1".to_string(),
            destination: address(2),
            amount: 30,
            recovery_kind: RecoveryKind::Dust,
        }
    );
    for balance in [0, 999, 1_000] {
        let (transfer, event) = admin_sweep_game_vault_dust(&sweeping(balance)).unwrap();
        assert_eq!(transfer, None);
        assert_eq!(event.amount, 0);
    }
    let mut ctx = sweeping(40);
    ctx.game.status = GameStatus::Complete;
    let (transfer, _) = admin_sweep_game_vault_dust(&ctx).unwrap();
    assert_eq!(transfer.unwrap().transfer.lamports, 40);
}

#[test]
fn dust_sweep_is_refused() {
    let mut ctx = sweeping(1_030);
    ctx.house_wallet = address(3);
    assert_eq!(admin_sweep_game_vault_dust(&ctx), Err(DoorCashError::HouseWalletMismatch));
    ctx.authority = address(3);
    assert_eq!(admin_sweep_game_vault_dust(&ctx), Err(DoorCashError::Unauthorized));
}

#[test]
fn delay_has_to_pass() {
    assert_eq!(check_delay(77, 216_076), Err(DoorCashError::EmergencyRecoveryTooEarly));
    assert_eq!(check_delay(77, 216_077), Ok(()));
    assert_eq!(check_delay(u64::MAX, u64::MAX), Err(DoorCashError::ArithmeticOverflow));
}

#[test]
fn emergency_sweep_cancels_the_game() {
    let mut ctx = sweeping(1_030);
    let (transfer, event) = admin_emergency_sweep_game_vault(&mut ctx, 300_000).unwrap();
    assert_eq!(transfer.unwrap().transfer.lamports, 1_030);
    assert_eq!((event.amount, event.recovery_kind), (1_030, RecoveryKind::Emergency));
    assert_eq!(ctx.game.status, GameStatus::Cancelled);
    let mut ctx = sweeping(0);
    ctx.game.status = GameStatus::Complete;
    let (transfer, event) = admin_emergency_sweep_game_vault(&mut ctx, 300_000).unwrap();
    assert_eq!(transfer, None);
    assert_eq!(event.amount, 0);
    assert_eq!(ctx.game.status, GameStatus::Complete);
}

#[test]
fn emergency_sweep_is_refused() {
    let mut ctx = sweeping(1_030);
    assert_eq!(
        admin_emergency_sweep_game_vault(&mut ctx, 100),
        Err(DoorCashError::EmergencyRecoveryTooEarly)
    );
    ctx.game.status = GameStatus::Waiting;
    assert_eq!(
        admin_emergency_sweep_game_vault(&mut ctx, 300_000),
        Err(DoorCashError::InvalidGameStatus)
    );
    ctx.house_wallet = address(3);
    assert_eq!(
        admin_emergency_sweep_game_vault(&mut ctx, 300_000),
        Err(DoorCashError::HouseWalletMismatch)
    );
    ctx.authority = address(3);
    assert_eq!(
        admin_emergency_sweep_game_vault(&mut ctx, 300_000),
        Err(DoorCashError::Unauthorized)
    );
}

#[test]
fn mode_vault_is_swept() {
    let mut ctx = sweeping_mode(600);
    ctx.mode_state.refund_round_open = true;
    ctx.mode_state.refund_per_entry_lamports = 91;
    let (transfer, event) = admin_emergency_sweep_mode_vault(&mut ctx, 1, 300_000).unwrap();
    let transfer = transfer.unwrap();
    assert_eq!((transfer.transfer.to, transfer.transfer.lamports), (address(2), 600));
    assert_eq!(
        transfer.signer_seeds,
        vec![b"mode-vault".to_vec(), vec![1], vec![mode_vault().1]]
    );
    assert_eq!(event, ModeVaultRecovery { mode: 1, destination: address(2), amount: 600 });
    assert_eq!(ctx.mode_state, ModeState { active_streak_id: 4, ..mode_with(0, 0) });
}

#[test]
fn mode_sweep_is_recorded() {
    let mut mode_state = mode_with(458, 5);
    assert_eq!(record_mode_sweep(&mut mode_state), Ok(()));
    assert_eq!(mode_state, ModeState { active_streak_id: 4, ..mode_with(0, 0) });
}

#[test]
fn mode_sweep_is_refused() {
    let mut ctx = sweeping_mode(600);
    assert_eq!(
        admin_emergency_sweep_mode_vault(&mut ctx, 3, 300_000),
        Err(Fault::Program(DoorCashError::InvalidMode))
    );
    assert_eq!(
        admin_emergency_sweep_mode_vault(&mut ctx, 2, 300_000),
        Err(Fault::Program(DoorCashError::ModeMismatch))
    );
    assert_eq!(
        admin_emergency_sweep_mode_vault(&mut ctx, 1, 300),
        Err(Fault::Program(DoorCashError::EmergencyRecoveryTooEarly))
    );
    ctx.mode_state.active_streak_id = u64::MAX;
    assert_eq!(
        admin_emergency_sweep_mode_vault(&mut ctx, 1, 300_000),
        Err(Fault::Program(DoorCashError::ArithmeticOverflow))
    );
    ctx.mode_vault.key = address(70);
    assert_eq!(
        admin_emergency_sweep_mode_vault(&mut ctx, 1, 300_000),
        Err(Fault::Program(DoorCashError::ModeMismatch))
    );
    ctx.mode_state.mode = 0;
    assert_eq!(
        admin_emergency_sweep_mode_vault(&mut ctx, 1, 300_000),
        Err(Fault::Program(DoorCashError::ModeMismatch))
    );
    ctx.house_wallet = address(3);
    assert_eq!(
        admin_emergency_sweep_mode_vault(&mut ctx, 1, 300_000),
        Err(Fault::Program(DoorCashError::HouseWalletMismatch))
    );
    ctx.authority = address(3);
    assert_eq!(
        admin_emergency_sweep_mode_vault(&mut ctx, 1, 300_000),
        Err(Fault::Program(DoorCashError::Unauthorized))
    );
}

#[test]
fn every_player_of_a_cancelled_game_is_refunded() {
    let mut balance = 1_507;
    for n in [30, 31, 32] {
        let mut ctx = refunding(balance);
        ctx.player = address(n);
        ctx.player_entry = entry_of(address(n));
        let transfers = refund_player_single(&mut ctx, "door-1").unwrap();
        for (_, _, lamports) in amounts(&transfers) {
            balance -= lamports;
        }
    }
    assert_eq!(balance, 0);
}

#[test]
fn second_dust_sweep_finds_nothing() {
    let mut ctx = sweeping(1_030);
    let (transfer, _) = admin_sweep_game_vault_dust(&ctx).unwrap();
    ctx.vault.lamports -= transfer.unwrap().transfer.lamports;
    assert_eq!(ctx.vault.lamports, ctx.game.total_pot);
    assert_eq!(admin_sweep_game_vault_dust(&ctx).unwrap().0, None);
}
