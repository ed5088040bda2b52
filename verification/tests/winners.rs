use anchor_lang::prelude::Pubkey;
use doorcash::accounts::{AccountData, RemainingAccount, Vault, WRONG_RECORD};
use doorcash::address::{id, Address};
use doorcash::pot::{plan_refund, share_out, split_pot, PotSplit, RefundPlan};
use doorcash::transfer::{
    match_mode_vault, mode_vault_bump, transfer_found_mode_vault, transfer_game_vault,
    transfer_mode_vault, AccountRole, Transfer, VaultTransfer,
};
use doorcash::winners::{check_winner, is_listed_before, pay_winners, record_winners};
use doorcash::{
    settle_winners, DoorCashError, Fault, Game, GameStatus, ModeParticipant, ModeState,
    PlayerEntry, SettleWinners, SettlementKind, WinnerSettlement,
};

fn address(n: u8) -> Address {
    Address { bytes: [n; 32] }
}

fn active_game(pot: u64) -> Game {
    Game {
        game_id: "door-1".to_string(),
        authority: address(1),
        house_wallet: address(2),
        seed_hash: [0; 32],
        seed: [0; 32],
        seed_revealed: true,
        mode: 1,
        entry_fee: 500,
        max_players: 200,
        min_players: 2,
        player_count: 2,
        total_pot: pot,
        prize_each: 0,
        house_cut: 0,
        carry_in: 0,
        carry_out: 0,
        refund_pool: 0,
        refund_per_entry: 0,
        refund_round_id: 0,
        streak_id: 3,
        settlement_kind: SettlementKind::Unsettled,
        vault_bump: 254,
        status: GameStatus::Active,
        initialized_slot: 77,
    }
}

fn mode_with(carry: u64, eligible: u64) -> ModeState {
    ModeState {
        mode: 1,
        active_streak_id: 3,
        carry_lamports: carry,
        eligible_entry_count: eligible,
        open_refund_round_id: 6,
        refund_per_entry_lamports: 0,
        refund_remainder_lamports: 0,
        refund_round_open: false,
        refund_paid_entry_count: 0,
    }
}

fn entry_of(player: Address) -> PlayerEntry {
    PlayerEntry {
        player,
        game_id: "door-1".to_string(),
        mode: 1,
        entered_at_slot: 80,
        refunded: false,
        merged_streak_id: 0,
    }
}

fn mode_vault() -> (Address, u8) {
    let (key, bump) =
        Pubkey::find_program_address(&[b"mode-vault", &[1u8]], &Pubkey::from(id().bytes));
    (Address { bytes: key.to_bytes() }, bump)
}

fn entry_key(player: Address) -> Address {
    let (key, _) = Pubkey::find_program_address(
        &[b"entry", b"door-1", &player.bytes],
        &Pubkey::from(id().bytes),
    );
    Address { bytes: key.to_bytes() }
}

fn wallet(key: Address) -> RemainingAccount {
    RemainingAccount { key, data: AccountData::Unreadable(0) }
}

fn winners(players: &[u8]) -> Vec<RemainingAccount> {
    let mut list = Vec::new();
    for n in players {
        let player = address(*n);
        list.push(wallet(player));
        list.push(RemainingAccount {
            key: entry_key(player),
            data: AccountData::Entry(entry_of(player)),
        });
    }
    list
}

fn settling(pot: u64, vault: u64, carry: u64) -> SettleWinners {
    SettleWinners {
        authority: address(1),
        game: active_game(pot),
        game_vault: Vault { key: address(9), lamports: vault },
        mode_state: mode_with(carry, 5),
        mode_vault: mode_vault().0,
        house_wallet: address(2),
    }
}

fn amounts(transfers: &Vec<VaultTransfer>) -> Vec<(Address, Address, u64)> {
    transfers.iter().map(|t| (t.transfer.from, t.transfer.to, t.transfer.lamports)).collect()
}

fn refused(change: fn(&mut SettleWinners, &mut Vec<RemainingAccount>)) -> Fault {
    let mut ctx = settling(1_000, 1_005, 20);
    let mut list = winners(&[30, 31]);
    change(&mut ctx, &mut list);
    let before = ctx.clone();
    let fault = settle_winners(&mut ctx, &list, 2, &id()).unwrap_err();
    assert_eq!(ctx, before);
    fault
}

#[test]
fn pot_is_split() {
    assert_eq!(
        split_pot(1_005, 1_010, 7),
        Ok(PotSplit {
            vault_dust: 5,
            house_cut: 100,
            ante_after_house: 905,
            carry_in: 7,
            distributable: 912,
        })
    );
    assert_eq!(split_pot(1_005, 1_004, 7), Err(DoorCashError::InsufficientVaultFunds));
    assert_eq!(split_pot(10, 10, u64::MAX), Err(DoorCashError::ArithmeticOverflow));
    assert_eq!(split_pot(u64::MAX, u64::MAX, 0), Err(DoorCashError::ArithmeticOverflow));
}

#[test]
fn prize_is_an_equal_share() {
    assert_eq!(share_out(912, 5), (182, 2));
    assert_eq!(share_out(3, 5), (0, 3));
}

#[test]
fn half_is_refunded() {
    assert_eq!(
        plan_refund(913, 5),
        RefundPlan { refund_pool: 456, refund_per_entry: 91, refund_remainder: 1, carry_out: 458 }
    );
}

#[test]
fn winners_share_the_pot_and_the_carry() {
    let mut ctx = settling(1_000, 1_005, 21);
    let list = winners(&[30, 31]);
    let (transfers, event) = settle_winners(&mut ctx, &list, 2, &id()).unwrap();
    let (vault, bump) = mode_vault();
    assert_eq!(
        amounts(&transfers),
        vec![
            (address(9), address(2), 5),
            (address(9), address(2), 100),
            (address(9), vault, 900),
            (vault, address(30), 460),
            (vault, address(31), 460),
        ]
    );
    assert_eq!(
        transfers[0].signer_seeds,
        vec![b"vault".to_vec(), b"door-1".to_vec(), vec![254]]
    );
    assert_eq!(transfers[4].signer_seeds, vec![b"mode-vault".to_vec(), vec![1], vec![bump]]);
    assert_eq!(
        event,
        WinnerSettlement {
            game_id: "door-1".to_string(),
            winner_count: 2,
            prize_each: 460,
            house_cut: 100,
            carry_in: 21,
            carry_out: 1,
        }
    );
    assert_eq!(ctx.game.status, GameStatus::Complete);
    assert_eq!(ctx.game.settlement_kind, SettlementKind::Winner);
    assert_eq!((ctx.game.prize_each, ctx.game.house_cut), (460, 100));
    assert_eq!((ctx.game.carry_in, ctx.game.carry_out), (21, 1));
    assert_eq!(
        ctx.mode_state,
        ModeState { active_streak_id: 4, carry_lamports: 1, ..mode_with(1, 0) }
    );
}

#[test]
fn empty_parts_are_not_transferred() {
    let mut ctx = settling(5, 5, 0);
    let list = winners(&[30]);
    let (transfers, event) = settle_winners(&mut ctx, &list, 1, &id()).unwrap();
    let (vault, _) = mode_vault();
    assert_eq!(
        amounts(&transfers),
        vec![(address(9), vault, 5), (vault, address(30), 5)]
    );
    assert_eq!(event.house_cut, 0);

    let mut ctx = settling(0, 0, 1);
    ctx.mode_vault = address(70);
    let list = winners(&[30, 31]);
    let (transfers, event) = settle_winners(&mut ctx, &list, 2, &id()).unwrap();
    assert!(transfers.is_empty());
    assert_eq!((event.prize_each, event.carry_out), (0, 1));
}

#[test]
fn settlement_is_refused_for_its_accounts() {
    assert_eq!(
        refused(|ctx, _| ctx.authority = address(3)),
        Fault::Program(DoorCashError::Unauthorized)
    );
    assert_eq!(
        refused(|ctx, _| ctx.house_wallet = address(3)),
        Fault::Program(DoorCashError::HouseWalletMismatch)
    );
    assert_eq!(
        refused(|ctx, _| ctx.game.status = GameStatus::Complete),
        Fault::Program(DoorCashError::InvalidGameStatus)
    );
    assert_eq!(
        refused(|ctx, _| ctx.game.seed_revealed = false),
        Fault::Program(DoorCashError::SeedNotRevealed)
    );
    assert_eq!(
        refused(|ctx, _| ctx.mode_state.refund_round_open = true),
        Fault::Program(DoorCashError::ModeRefundRoundOpen)
    );
    assert_eq!(
        refused(|ctx, _| ctx.mode_state.mode = 0),
        Fault::Program(DoorCashError::ModeMismatch)
    );
    assert_eq!(
        refused(|ctx, _| ctx.mode_vault = address(70)),
        Fault::Program(DoorCashError::ModeMismatch)
    );
    assert_eq!(
        refused(|ctx, _| ctx.mode_state.active_streak_id = u64::MAX),
        Fault::Program(DoorCashError::ArithmeticOverflow)
    );
    assert_eq!(
        refused(|ctx, _| ctx.game_vault.lamports = 999),
        Fault::Program(DoorCashError::InsufficientVaultFunds)
    );
    assert_eq!(
        refused(|ctx, _| ctx.mode_state.carry_lamports = u64::MAX),
        Fault::Program(DoorCashError::ArithmeticOverflow)
    );
}

#[test]
fn winner_count_is_bounded() {
    let mut ctx = settling(1_000, 1_000, 0);
    let none = winners(&[]);
    assert_eq!(
        settle_winners(&mut ctx, &none, 0, &id()).unwrap_err(),
        Fault::Program(DoorCashError::NoWinners)
    );
    assert_eq!(
        settle_winners(&mut ctx, &none, 112, &id()).unwrap_err(),
        Fault::Program(DoorCashError::NoWinners)
    );
    assert_eq!(
        settle_winners(&mut ctx, &none, 111, &id()).unwrap_err(),
        Fault::Program(DoorCashError::WinnerAccountMismatch)
    );
    let one = winners(&[30]);
    assert_eq!(
        settle_winners(&mut ctx, &one, 2, &id()).unwrap_err(),
        Fault::Program(DoorCashError::WinnerAccountMismatch)
    );
}

#[test]
fn winner_list_is_checked() {
    assert_eq!(
        refused(|_, list| list[3].key = address(50)),
        Fault::Program(DoorCashError::InvalidWinnerEntry)
    );
    assert_eq!(
        refused(|_, list| list[3].data = AccountData::Entry(entry_of(address(30)))),
        Fault::Program(DoorCashError::InvalidWinnerEntry)
    );
    assert_eq!(
        refused(|_, list| {
            let mut entry = entry_of(address(31));
            entry.game_id = "door-2".to_string();
            list[3].data = AccountData::Entry(entry);
        }),
        Fault::Program(DoorCashError::EntryGameMismatch)
    );
    assert_eq!(
        refused(|_, list| {
            let mut entry = entry_of(address(31));
            entry.mode = 2;
            list[3].data = AccountData::Entry(entry);
        }),
        Fault::Program(DoorCashError::ModeMismatch)
    );
    assert_eq!(
        refused(|_, list| {
            let mut entry = entry_of(address(31));
            entry.refunded = true;
            list[3].data = AccountData::Entry(entry);
        }),
        Fault::Program(DoorCashError::AlreadyRefunded)
    );
    assert_eq!(
        refused(|_, list| *list = winners(&[30, 30])),
        Fault::Program(DoorCashError::DuplicateWinner)
    );
    assert_eq!(
        refused(|_, list| list[3].data = AccountData::Unreadable(3_007)),
        Fault::Account(3_007)
    );
    assert_eq!(
        refused(|_, list| {
            list[3].data = AccountData::Participant(ModeParticipant {
                wallet: address(31),
                mode: 1,
                streak_id: 3,
                eligible_entries: 0,
                last_paid_refund_round_id: 0,
            })
        }),
        Fault::Account(WRONG_RECORD)
    );
}

#[test]
fn winner_of_a_game_with_a_long_id_has_no_entry() {
    let mut ctx = settling(1_000, 1_000, 0);
    ctx.game.game_id = "x".repeat(33);
    let list = winners(&[30]);
    assert_eq!(settle_winners(&mut ctx, &list, 1, &id()).unwrap_err(), Fault::NoProgramAddress);
}

#[test]
fn winner_is_checked_against_a_given_address() {
    let game = active_game(1_000);
    let account = RemainingAccount {
        key: address(40),
        data: AccountData::Entry(entry_of(address(30))),
    };
    let found = Some((address(40), 251));
    assert_eq!(check_winner(&game, &address(30), &account, &found), Ok(()));
    assert_eq!(
        check_winner(&game, &address(31), &account, &found),
        Err(Fault::Program(DoorCashError::InvalidWinnerEntry))
    );
    assert_eq!(
        check_winner(&game, &address(30), &account, &Some((address(41), 251))),
        Err(Fault::Program(DoorCashError::InvalidWinnerEntry))
    );
    assert_eq!(
        check_winner(&game, &address(30), &account, &None),
        Err(Fault::NoProgramAddress)
    );
}

#[test]
fn earlier_places_are_searched() {
    let list = winners(&[30, 31, 30]);
    assert!(!is_listed_before(&list, 0));
    assert!(!is_listed_before(&list, 1));
    assert!(is_listed_before(&list, 2));
}

#[test]
fn winners_are_paid_from_a_given_vault() {
    let list = winners(&[30, 31]);
    let mut transfers = Vec::new();
    let found = Some((address(8), 250));
    assert_eq!(pay_winners(1, &found, &address(8), &list, 2, 7, &mut transfers), Ok(()));
    assert_eq!(
        amounts(&transfers),
        vec![(address(8), address(30), 7), (address(8), address(31), 7)]
    );
    assert_eq!(transfers[1].signer_seeds, vec![b"mode-vault".to_vec(), vec![1], vec![250]]);
    let mut transfers = Vec::new();
    assert_eq!(
        pay_winners(1, &None, &address(8), &list, 2, 7, &mut transfers),
        Err(Fault::NoProgramAddress)
    );
    assert_eq!(pay_winners(1, &None, &address(8), &list, 2, 0, &mut transfers), Ok(()));
    assert!(transfers.is_empty());
}

#[test]
fn settlement_is_recorded() {
    let mut game = active_game(1_005);
    let mut mode_state = mode_with(7, 5);
    let split = split_pot(1_005, 1_010, 7).unwrap();
    let event = record_winners(&mut game, &mut mode_state, &split, 5).unwrap();
    assert_eq!((event.prize_each, event.carry_out), (182, 2));
    assert_eq!(mode_state.carry_lamports, 2);
    assert_eq!(mode_state.active_streak_id, 4);
    mode_state.active_streak_id = u64::MAX;
    assert_eq!(
        record_winners(&mut game, &mut mode_state, &split, 5),
        Err(DoorCashError::ArithmeticOverflow)
    );
}

#[test]
fn mode_vault_is_recognised() {
    let (key, bump) = mode_vault();
    assert_eq!(mode_vault_bump(1, &key), Ok(bump));
    assert_eq!(
        mode_vault_bump(2, &key),
        Err(Fault::Program(DoorCashError::ModeMismatch))
    );
    assert_eq!(match_mode_vault(&Some((address(8), 3)), &address(8)), Ok(3));
    assert_eq!(match_mode_vault(&None, &address(8)), Err(Fault::NoProgramAddress));
}

#[test]
fn transfers_name_their_signers() {
    let transfer = transfer_game_vault("door-1", 9, &address(3), &address(4), 11).unwrap();
    assert_eq!(
        transfer,
        VaultTransfer {
            transfer: Transfer { from: address(3), to: address(4), lamports: 11 },
            signer_seeds: vec![b"vault".to_vec(), b"door-1".to_vec(), vec![9]],
        }
    );
    assert_eq!(transfer_game_vault("door-1", 9, &address(3), &address(4), 0), None);

    let (key, bump) = mode_vault();
    let transfer = transfer_mode_vault(1, &key, &address(4), 11).unwrap().unwrap();
    assert_eq!(transfer.signer_seeds, vec![b"mode-vault".to_vec(), vec![1], vec![bump]]);
    assert_eq!(transfer_mode_vault(1, &address(3), &address(4), 0), Ok(None));
    assert_eq!(
        transfer_mode_vault(1, &address(3), &address(4), 1),
        Err(Fault::Program(DoorCashError::ModeMismatch))
    );
    let found = Some((address(3), 4));
    let transfer = transfer_found_mode_vault(2, &found, &address(3), &address(4), 1);
    assert_eq!(
        transfer.unwrap().unwrap().signer_seeds,
        vec![b"mode-vault".to_vec(), vec![2], vec![4]]
    );
}

#[test]
fn transfer_instruction_is_encoded() {
    let transfer =
        Transfer { from: address(3), to: address(4), lamports: 0x0807_0605_0403_0201 };
    let instruction = transfer.instruction();
    assert!(instruction.program_id.unset());
    assert_eq!(
        instruction.accounts,
        vec![
            AccountRole { key: address(3), is_signer: true, is_writable: true },
            AccountRole { key: address(4), is_signer: false, is_writable: true },
        ]
    );
    assert_eq!(instruction.data, vec![2, 0, 0, 0, 1, 2, 3, 4, 5, 6, 7, 8]);
}

#[test]
fn won_game_is_settled_once() {
    let mut ctx = settling(1_000, 1_000, 0);
    let list = winners(&[30]);
    assert!(settle_winners(&mut ctx, &list, 1, &id()).is_ok());
    assert_eq!(
        settle_winners(&mut ctx, &list, 1, &id()).unwrap_err(),
        Fault::Program(DoorCashError::InvalidGameStatus)
    );
}

fn gained(transfers: &Vec<VaultTransfer>, account: Address) -> i128 {
    let mut sum: i128 = 0;
    for (from, to, lamports) in amounts(transfers) {
        if to == account {
            sum += lamports as i128;
        }
        if from == account {
            sum -= lamports as i128;
        }
    }
    sum
}

#[test]
fn house_may_be_among_the_winners() {
    let mut ctx = settling(1_000, 1_005, 21);
    let list = winners(&[2, 30]);
    let (transfers, _) = settle_winners(&mut ctx, &list, 2, &id()).unwrap();
    assert_eq!(gained(&transfers, address(2)), 5 + 100 + 460);
    assert_eq!(gained(&transfers, address(30)), 460);
    assert_eq!(gained(&transfers, address(9)), -1_005);
    assert_eq!(gained(&transfers, ctx.mode_vault), 1 - 21);
    assert_eq!(ctx.mode_state.carry_lamports, 1);
}

#[test]
fn dust_goes_to_the_house_alone() {
    let mut ctx = settling(1_000, 1_005, 21);
    let mut richer = settling(1_000, 1_782, 21);
    let list = winners(&[30, 31]);
    let (transfers, event) = settle_winners(&mut ctx, &list, 2, &id()).unwrap();
    let (more, same_event) = settle_winners(&mut richer, &list, 2, &id()).unwrap();
    assert_eq!(event, same_event);
    assert_eq!(ctx.game, richer.game);
    assert_eq!(ctx.mode_state, richer.mode_state);
    for account in [address(30), address(31), ctx.mode_vault] {
        assert_eq!(gained(&transfers, account), gained(&more, account));
    }
    assert_eq!(gained(&more, address(2)), gained(&transfers, address(2)) + 777);
    assert_eq!(gained(&more, address(9)), gained(&transfers, address(9)) - 777);
}
