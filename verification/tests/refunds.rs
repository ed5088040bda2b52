use anchor_lang::prelude::Pubkey;
use doorcash::accounts::{copy_accounts, write_account, AccountData, RemainingAccount, Vault, WRONG_RECORD};
use doorcash::address::{id, Address};
use doorcash::refund_round::{pay_participant, pay_participants};
use doorcash::registry::{register_entry, repair_entry};
use doorcash::transfer::VaultTransfer;
use doorcash::{
    close_no_winner_settlement, open_no_winner_settlement, pay_no_winner_batch,
    register_no_winner_entries, repair_no_winner_streak_entries, CloseNoWinnerSettlement,
    DoorCashError, Fault, Game, GameStatus, ModeParticipant, ModeState, NoWinnerEntriesRepaired,
    NoWinnerSettlementClosed, NoWinnerSettlementOpened, OpenNoWinnerSettlement, PayNoWinnerBatch,
    PlayerEntry, RegisterNoWinnerEntries, RepairNoWinnerStreakEntries, SettlementKind,
};

fn address(n: u8) -> Address {
    Address { bytes: [n; 32] }
}

fn active_game(pot: u64) -> Game {
    Game {
        game_id: "door-1".to_string(),
        authority: address(1),
        house_wallet: address(2),
        seed_hash: [0; 32],
        seed: [0; 32],
        seed_revealed: true,
        mode: 1,
        entry_fee: 500,
        max_players: 200,
        min_players: 2,
        player_count: 2,
        total_pot: pot,
        prize_each: 0,
        house_cut: 0,
        carry_in: 0,
        carry_out: 0,
        refund_pool: 0,
        refund_per_entry: 0,
        refund_round_id: 0,
        streak_id: 3,
        settlement_kind: SettlementKind::Unsettled,
        vault_bump: 254,
        status: GameStatus::Active,
        initialized_slot: 77,
    }
}

fn mode_with(carry: u64, eligible: u64) -> ModeState {
    ModeState {
        mode: 1,
        active_streak_id: 3,
        carry_lamports: carry,
        eligible_entry_count: eligible,
        open_refund_round_id: 6,
        refund_per_entry_lamports: 0,
        refund_remainder_lamports: 0,
        refund_round_open: false,
        refund_paid_entry_count: 0,
    }
}

fn entry_of(player: Address) -> PlayerEntry {
    PlayerEntry {
        player,
        game_id: "door-1".to_string(),
        mode: 1,
        entered_at_slot: 80,
        refunded: false,
        merged_streak_id: 0,
    }
}

fn mode_vault() -> (Address, u8) {
    let (key, bump) =
        Pubkey::find_program_address(&[b"mode-vault", &[1u8]], &Pubkey::from(id().bytes));
    (Address { bytes: key.to_bytes() }, bump)
}

fn participant_of(wallet: Address) -> ModeParticipant {
    ModeParticipant {
        wallet,
        mode: 1,
        streak_id: 0,
        eligible_entries: 0,
        last_paid_refund_round_id: 0,
    }
}

fn account(key: u8, data: AccountData) -> RemainingAccount {
    RemainingAccount { key: address(key), data }
}

/// The entries and participants of players, at the keys 100 + n and 150 + n.
fn pairs(players: &[u8]) -> Vec<RemainingAccount> {
    let mut list = Vec::new();
    for n in players {
        list.push(account(100 + n, AccountData::Entry(entry_of(address(*n)))));
        list.push(account(150 + n, AccountData::Participant(participant_of(address(*n)))));
    }
    list
}

fn entry_at(list: &Vec<RemainingAccount>, i: usize) -> PlayerEntry {
    list[i].data.read_entry().unwrap()
}

fn participant_at(list: &Vec<RemainingAccount>, i: usize) -> ModeParticipant {
    list[i].data.read_participant().unwrap()
}

fn registering(eligible: u64) -> RegisterNoWinnerEntries {
    RegisterNoWinnerEntries {
        authority: address(1),
        game: active_game(1_000),
        mode_state: mode_with(20, eligible),
    }
}

fn opening(pot: u64, vault: u64, carry: u64, eligible: u64) -> OpenNoWinnerSettlement {
    OpenNoWinnerSettlement {
        authority: address(1),
        game: active_game(pot),
        game_vault: Vault { key: address(9), lamports: vault },
        mode_state: mode_with(carry, eligible),
        mode_vault: mode_vault().0,
        house_wallet: address(2),
    }
}

/// A game in a refund round of 91 lamports for each of 5 entries.
fn opened() -> (Game, ModeState) {
    let mut ctx = opening(1_000, 1_005, 13, 5);
    assert!(open_no_winner_settlement(&mut ctx).is_ok());
    (ctx.game, ctx.mode_state)
}

fn paying() -> PayNoWinnerBatch {
    let (game, mode_state) = opened();
    PayNoWinnerBatch { authority: address(1), game, mode_state, mode_vault: mode_vault().0 }
}

/// Participants with their eligible entries, and their wallets.
fn payees(players: &[(u8, u64)]) -> Vec<RemainingAccount> {
    let mut list = Vec::new();
    for (n, entries) in players {
        let participant = ModeParticipant {
            streak_id: 3,
            eligible_entries: *entries,
            ..participant_of(address(*n))
        };
        list.push(account(150 + n, AccountData::Participant(participant)));
        list.push(account(*n, AccountData::Unreadable(0)));
    }
    list
}

fn repairing() -> RepairNoWinnerStreakEntries {
    let (game, mode_state) = opened();
    RepairNoWinnerStreakEntries { authority: address(1), game, mode_state }
}

fn amounts(transfers: &Vec<VaultTransfer>) -> Vec<(Address, u64)> {
    transfers.iter().map(|t| (t.transfer.to, t.transfer.lamports)).collect()
}

#[test]
fn writing_shows_at_every_place() {
    let mut list = pairs(&[30, 31, 30]);
    write_account(&mut list, &address(130), AccountData::Unreadable(7));
    assert_eq!(list[0].data, AccountData::Unreadable(7));
    assert_eq!(list[4].data, AccountData::Unreadable(7));
    assert_eq!(list[2].data, AccountData::Entry(entry_of(address(31))));
    assert_eq!(copy_accounts(&list), list);
}

#[test]
fn entries_are_registered() {
    let mut ctx = registering(10);
    let mut list = pairs(&[30, 31]);
    assert_eq!(register_no_winner_entries(&mut ctx, &mut list), Ok(()));
    assert_eq!(ctx.mode_state.eligible_entry_count, 12);
    assert_eq!(entry_at(&list, 0).merged_streak_id, 3);
    assert_eq!(
        participant_at(&list, 3),
        ModeParticipant { streak_id: 3, eligible_entries: 1, ..participant_of(address(31)) }
    );
}

#[test]
fn entry_counts_once() {
    let mut ctx = registering(0);
    let mut list = pairs(&[30, 30]);
    assert_eq!(register_no_winner_entries(&mut ctx, &mut list), Ok(()));
    assert_eq!(ctx.mode_state.eligible_entry_count, 1);
    assert_eq!(participant_at(&list, 1).eligible_entries, 1);
    assert_eq!(participant_at(&list, 3).eligible_entries, 1);
    let (first_mode, first_list) = (ctx.mode_state, list.clone());
    assert_eq!(register_no_winner_entries(&mut ctx, &mut list), Ok(()));
    assert_eq!(ctx.mode_state, first_mode);
    assert_eq!(list, first_list);
}

#[test]
fn two_entries_of_one_participant_count_twice() {
    let mut ctx = registering(0);
    let mut list = pairs(&[30, 30]);
    list[2].key = address(99);
    assert_eq!(register_no_winner_entries(&mut ctx, &mut list), Ok(()));
    assert_eq!(ctx.mode_state.eligible_entry_count, 2);
    assert_eq!(participant_at(&list, 1).eligible_entries, 2);
}

#[test]
fn entries_of_an_earlier_streak_count_no_more() {
    let game = active_game(1_000);
    let mut mode_state = mode_with(0, 0);
    let mut entry = entry_of(address(30));
    let mut participant = ModeParticipant {
        streak_id: 2,
        eligible_entries: 8,
        ..participant_of(address(30))
    };
    assert_eq!(register_entry(&game, &mut mode_state, &mut entry, &mut participant), Ok(()));
    assert_eq!((participant.streak_id, participant.eligible_entries), (3, 1));
    participant.streak_id = 2;
    assert_eq!(register_entry(&game, &mut mode_state, &mut entry, &mut participant), Ok(()));
    assert_eq!((participant.streak_id, participant.eligible_entries), (3, 0));
    assert_eq!(mode_state.eligible_entry_count, 1);
}

#[test]
fn registration_overflows() {
    let mut ctx = registering(u64::MAX);
    let mut list = pairs(&[30]);
    let before = list.clone();
    assert_eq!(
        register_no_winner_entries(&mut ctx, &mut list),
        Err(Fault::Program(DoorCashError::ArithmeticOverflow))
    );
    assert_eq!(list, before);
    let mut ctx = registering(0);
    list[1].data = AccountData::Participant(ModeParticipant {
        streak_id: 3,
        eligible_entries: u64::MAX,
        ..participant_of(address(30))
    });
    assert_eq!(
        register_no_winner_entries(&mut ctx, &mut list),
        Err(Fault::Program(DoorCashError::ArithmeticOverflow))
    );
}

#[test]
fn refused_batch_changes_nothing() {
    let mut ctx = registering(4);
    let mut list = pairs(&[30, 31]);
    let mut entry = entry_of(address(31));
    entry.game_id = "door-2".to_string();
    list[2].data = AccountData::Entry(entry);
    let (ctx_before, list_before) = (ctx.clone(), list.clone());
    assert_eq!(
        register_no_winner_entries(&mut ctx, &mut list),
        Err(Fault::Program(DoorCashError::EntryGameMismatch))
    );
    assert_eq!(ctx, ctx_before);
    assert_eq!(list, list_before);
}

#[test]
fn registration_is_refused() {
    let fresh = registering(4);
    let mut list = pairs(&[30]);
    let mut ctx = fresh.clone();
    ctx.authority = address(5);
    assert_eq!(
        register_no_winner_entries(&mut ctx, &mut list),
        Err(Fault::Program(DoorCashError::Unauthorized))
    );
    let mut ctx = fresh.clone();
    ctx.game.status = GameStatus::Settling;
    assert_eq!(
        register_no_winner_entries(&mut ctx, &mut list),
        Err(Fault::Program(DoorCashError::InvalidGameStatus))
    );
    let mut ctx = fresh.clone();
    ctx.mode_state.refund_round_open = true;
    assert_eq!(
        register_no_winner_entries(&mut ctx, &mut list),
        Err(Fault::Program(DoorCashError::ModeRefundRoundOpen))
    );
    let mut ctx = fresh.clone();
    ctx.mode_state.mode = 0;
    assert_eq!(
        register_no_winner_entries(&mut ctx, &mut list),
        Err(Fault::Program(DoorCashError::ModeMismatch))
    );
    let mut ctx = fresh.clone();
    list.push(account(7, AccountData::Unreadable(0)));
    assert_eq!(
        register_no_winner_entries(&mut ctx, &mut list),
        Err(Fault::Program(DoorCashError::BatchAccountMismatch))
    );
    list.pop();
    list[0].data = AccountData::Unreadable(3_012);
    assert_eq!(register_no_winner_entries(&mut ctx, &mut list), Err(Fault::Account(3_012)));
    let mut list = pairs(&[30]);
    list[1].data = list[0].data.clone();
    assert_eq!(register_no_winner_entries(&mut ctx, &mut list), Err(Fault::Account(WRONG_RECORD)));
    let mut list = pairs(&[30]);
    list[1].data = AccountData::Participant(participant_of(address(31)));
    assert_eq!(
        register_no_winner_entries(&mut ctx, &mut list),
        Err(Fault::Program(DoorCashError::Unauthorized))
    );
    let mut other_mode = participant_of(address(30));
    other_mode.mode = 2;
    list[1].data = AccountData::Participant(other_mode);
    assert_eq!(
        register_no_winner_entries(&mut ctx, &mut list),
        Err(Fault::Program(DoorCashError::ModeMismatch))
    );
    let mut entry = entry_of(address(30));
    entry.mode = 0;
    list[0].data = AccountData::Entry(entry);
    assert_eq!(
        register_no_winner_entries(&mut ctx, &mut list),
        Err(Fault::Program(DoorCashError::ModeMismatch))
    );
}

#[test]
fn refund_round_is_opened() {
    let mut ctx = opening(1_000, 1_005, 13, 5);
    let (transfers, event) = open_no_winner_settlement(&mut ctx).unwrap();
    assert_eq!(
        amounts(&transfers),
        vec![(address(2), 5), (address(2), 100), (mode_vault().0, 900)]
    );
    assert_eq!(
        event,
        NoWinnerSettlementOpened {
            game_id: "door-1".to_string(),
            refund_round_id: 7,
            house_cut: 100,
            carry_in: 13,
            refund_pool: 456,
            carry_out: 458,
            refund_per_entry: 91,
            eligible_entry_count: 5,
        }
    );
    assert_eq!(ctx.game.status, GameStatus::Settling);
    assert_eq!(ctx.game.settlement_kind, SettlementKind::NoWinner);
    assert_eq!(ctx.game.refund_round_id, 7);
    assert_eq!((ctx.game.refund_pool, ctx.game.refund_per_entry), (456, 91));
    assert_eq!(
        ctx.mode_state,
        ModeState {
            open_refund_round_id: 7,
            refund_per_entry_lamports: 91,
            refund_remainder_lamports: 1,
            refund_round_open: true,
            ..mode_with(458, 5)
        }
    );
}

fn opening_refused(change: fn(&mut OpenNoWinnerSettlement)) -> DoorCashError {
    let mut ctx = opening(1_000, 1_005, 13, 5);
    change(&mut ctx);
    let before = ctx.clone();
    let error = open_no_winner_settlement(&mut ctx).unwrap_err();
    assert_eq!(ctx, before);
    error
}

#[test]
fn opening_is_refused() {
    assert_eq!(opening_refused(|c| c.authority = address(3)), DoorCashError::Unauthorized);
    assert_eq!(
        opening_refused(|c| c.house_wallet = address(3)),
        DoorCashError::HouseWalletMismatch
    );
    assert_eq!(
        opening_refused(|c| c.game.status = GameStatus::Waiting),
        DoorCashError::InvalidGameStatus
    );
    assert_eq!(
        opening_refused(|c| c.game.seed_revealed = false),
        DoorCashError::SeedNotRevealed
    );
    assert_eq!(
        opening_refused(|c| c.mode_state.refund_round_open = true),
        DoorCashError::ModeRefundRoundOpen
    );
    assert_eq!(opening_refused(|c| c.mode_state.mode = 0), DoorCashError::ModeMismatch);
    assert_eq!(
        opening_refused(|c| c.mode_state.eligible_entry_count = 0),
        DoorCashError::NoEligibleRefundEntries
    );
    assert_eq!(
        opening_refused(|c| c.game_vault.lamports = 999),
        DoorCashError::InsufficientVaultFunds
    );
    assert_eq!(
        opening_refused(|c| c.mode_state.carry_lamports = u64::MAX),
        DoorCashError::ArithmeticOverflow
    );
    assert_eq!(
        opening_refused(|c| c.mode_state.open_refund_round_id = u64::MAX),
        DoorCashError::ArithmeticOverflow
    );
}

#[test]
fn participants_are_paid_once() {
    let mut ctx = paying();
    let mut list = payees(&[(30, 2), (31, 3), (30, 2)]);
    let transfers = pay_no_winner_batch(&mut ctx, &mut list, 7).unwrap();
    assert_eq!(amounts(&transfers), vec![(address(30), 182), (address(31), 273)]);
    assert_eq!(transfers[0].transfer.from, mode_vault().0);
    assert_eq!(
        transfers[0].signer_seeds,
        vec![b"mode-vault".to_vec(), vec![1], vec![mode_vault().1]]
    );
    assert_eq!(ctx.mode_state.refund_paid_entry_count, 5);
    assert_eq!(participant_at(&list, 0).last_paid_refund_round_id, 7);
    let (ctx_before, list_before) = (ctx.clone(), list.clone());
    assert_eq!(pay_no_winner_batch(&mut ctx, &mut list, 7), Ok(vec![]));
    assert_eq!(ctx, ctx_before);
    assert_eq!(list, list_before);
}

#[test]
fn participant_without_entries_is_marked_as_paid() {
    let mut ctx = paying();
    ctx.mode_vault = address(70);
    let mut list = payees(&[(30, 0)]);
    assert_eq!(pay_no_winner_batch(&mut ctx, &mut list, 7), Ok(vec![]));
    assert_eq!(participant_at(&list, 0).last_paid_refund_round_id, 7);
    assert_eq!(ctx.mode_state.refund_paid_entry_count, 0);
}

#[test]
fn payments_are_refused() {
    let fresh = paying();
    let mut list = payees(&[(30, 2)]);
    let mut ctx = fresh.clone();
    ctx.authority = address(3);
    assert_eq!(
        pay_no_winner_batch(&mut ctx, &mut list, 7),
        Err(Fault::Program(DoorCashError::Unauthorized))
    );
    let mut ctx = fresh.clone();
    ctx.game.status = GameStatus::Active;
    assert_eq!(
        pay_no_winner_batch(&mut ctx, &mut list, 7),
        Err(Fault::Program(DoorCashError::InvalidGameStatus))
    );
    let mut ctx = fresh.clone();
    ctx.mode_state.mode = 0;
    assert_eq!(
        pay_no_winner_batch(&mut ctx, &mut list, 7),
        Err(Fault::Program(DoorCashError::ModeMismatch))
    );
    let mut ctx = fresh.clone();
    ctx.mode_state.refund_round_open = false;
    assert_eq!(
        pay_no_winner_batch(&mut ctx, &mut list, 7),
        Err(Fault::Program(DoorCashError::RefundRoundNotOpen))
    );
    let mut ctx = fresh.clone();
    assert_eq!(
        pay_no_winner_batch(&mut ctx, &mut list, 6),
        Err(Fault::Program(DoorCashError::RefundRoundMismatch))
    );
    ctx.mode_vault = address(70);
    assert_eq!(
        pay_no_winner_batch(&mut ctx, &mut list, 7),
        Err(Fault::Program(DoorCashError::ModeMismatch))
    );
    list.pop();
    assert_eq!(
        pay_no_winner_batch(&mut ctx, &mut list, 7),
        Err(Fault::Program(DoorCashError::BatchAccountMismatch))
    );
    let mut ctx = fresh.clone();
    let mut list = pairs(&[30]);
    assert_eq!(pay_no_winner_batch(&mut ctx, &mut list, 7), Err(Fault::Account(WRONG_RECORD)));
}

#[test]
fn participant_is_checked_before_payment() {
    let (game, mode_state) = opened();
    let found = Some((address(8), 250));
    let payee = ModeParticipant {
        streak_id: 3,
        eligible_entries: 2,
        ..participant_of(address(30))
    };
    let pay = |participant: ModeParticipant, wallet: Address, mode_state: ModeState| {
        let mut mode_state = mode_state;
        let mut participant = participant;
        pay_participant(&game, &address(8), &found, 7, &mut mode_state, &mut participant, &wallet)
    };
    assert_eq!(
        pay(payee, address(30), mode_state).unwrap().unwrap().transfer.lamports,
        182
    );
    assert_eq!(
        pay(ModeParticipant { mode: 0, ..payee }, address(30), mode_state),
        Err(Fault::Program(DoorCashError::ModeMismatch))
    );
    assert_eq!(
        pay(payee, address(31), mode_state),
        Err(Fault::Program(DoorCashError::Unauthorized))
    );
    assert_eq!(
        pay(ModeParticipant { streak_id: 2, ..payee }, address(30), mode_state),
        Err(Fault::Program(DoorCashError::StreakMismatch))
    );
    assert_eq!(
        pay(ModeParticipant { eligible_entries: u64::MAX, ..payee }, address(30), mode_state),
        Err(Fault::Program(DoorCashError::ArithmeticOverflow))
    );
    let all_paid = ModeState { refund_paid_entry_count: u64::MAX, ..mode_state };
    assert_eq!(
        pay(payee, address(30), all_paid),
        Err(Fault::Program(DoorCashError::ArithmeticOverflow))
    );
    assert_eq!(
        pay(ModeParticipant { last_paid_refund_round_id: 7, ..payee }, address(30), all_paid),
        Ok(None)
    );
}

#[test]
fn list_is_paid_from_a_given_vault() {
    let (game, mut mode_state) = opened();
    let mut list = payees(&[(30, 1), (31, 1)]);
    let before = list.clone();
    assert_eq!(
        pay_participants(&game, &address(8), &None, 7, &mut mode_state, &mut list),
        Err(Fault::NoProgramAddress)
    );
    assert_eq!(list, before);
    let found = Some((address(8), 250));
    let transfers =
        pay_participants(&game, &address(8), &found, 7, &mut mode_state, &mut list).unwrap();
    assert_eq!(amounts(&transfers), vec![(address(30), 91), (address(31), 91)]);
    assert_eq!(mode_state.refund_paid_entry_count, 2);
}

#[test]
fn uncounted_entries_are_repaired() {
    let ctx = repairing();
    let mut list = pairs(&[30, 31, 32]);
    let mut counted = entry_of(address(31));
    counted.merged_streak_id = 3;
    list[2].data = AccountData::Entry(counted.clone());
    counted.player = address(32);
    list[4].data = AccountData::Entry(counted);
    list[5].data = AccountData::Participant(ModeParticipant {
        streak_id: 3,
        eligible_entries: 4,
        ..participant_of(address(32))
    });
    assert_eq!(
        repair_no_winner_streak_entries(&ctx, &mut list),
        Ok(NoWinnerEntriesRepaired {
            game_id: "door-1".to_string(),
            refund_round_id: 7,
            repaired_entries: 2,
        })
    );
    assert_eq!(entry_at(&list, 0).merged_streak_id, 3);
    assert_eq!(participant_at(&list, 1).eligible_entries, 1);
    assert_eq!(participant_at(&list, 3).eligible_entries, 1);
    assert_eq!(participant_at(&list, 5).eligible_entries, 4);
    let before = list.clone();
    assert_eq!(repair_no_winner_streak_entries(&ctx, &mut list).unwrap().repaired_entries, 0);
    assert_eq!(list, before);
}

#[test]
fn repair_is_refused() {
    let fresh = repairing();
    let mut list = pairs(&[30]);
    let mut ctx = fresh.clone();
    ctx.authority = address(3);
    assert_eq!(
        repair_no_winner_streak_entries(&ctx, &mut list),
        Err(Fault::Program(DoorCashError::Unauthorized))
    );
    let mut ctx = fresh.clone();
    ctx.game.status = GameStatus::Active;
    assert_eq!(
        repair_no_winner_streak_entries(&ctx, &mut list),
        Err(Fault::Program(DoorCashError::InvalidGameStatus))
    );
    let mut ctx = fresh.clone();
    ctx.game.settlement_kind = SettlementKind::Winner;
    assert_eq!(
        repair_no_winner_streak_entries(&ctx, &mut list),
        Err(Fault::Program(DoorCashError::InvalidGameStatus))
    );
    let mut ctx = fresh.clone();
    ctx.mode_state.mode = 2;
    assert_eq!(
        repair_no_winner_streak_entries(&ctx, &mut list),
        Err(Fault::Program(DoorCashError::ModeMismatch))
    );
    let mut ctx = fresh.clone();
    ctx.mode_state.refund_round_open = false;
    assert_eq!(
        repair_no_winner_streak_entries(&ctx, &mut list),
        Err(Fault::Program(DoorCashError::RefundRoundNotOpen))
    );
    let mut ctx = fresh.clone();
    ctx.mode_state.open_refund_round_id = 8;
    assert_eq!(
        repair_no_winner_streak_entries(&ctx, &mut list),
        Err(Fault::Program(DoorCashError::RefundRoundMismatch))
    );
    let mut odd = pairs(&[30]);
    odd.pop();
    assert_eq!(
        repair_no_winner_streak_entries(&fresh, &mut odd),
        Err(Fault::Program(DoorCashError::BatchAccountMismatch))
    );
    list[1].data = AccountData::Participant(ModeParticipant {
        last_paid_refund_round_id: 7,
        ..participant_of(address(30))
    });
    assert_eq!(
        repair_no_winner_streak_entries(&fresh, &mut list),
        Err(Fault::Program(DoorCashError::AlreadyRefunded))
    );
    let mut entry = entry_of(address(30));
    let mut full = ModeParticipant {
        streak_id: 3,
        eligible_entries: u64::MAX,
        ..participant_of(address(30))
    };
    assert_eq!(
        repair_entry(&fresh.game, &mut entry, &mut full),
        Err(DoorCashError::ArithmeticOverflow)
    );
}

#[test]
fn paid_round_is_closed() {
    let (game, mode_state) = opened();
    let mut ctx = CloseNoWinnerSettlement { authority: address(1), game, mode_state };
    assert_eq!(
        close_no_winner_settlement(&mut ctx, 7),
        Err(DoorCashError::RefundRoundIncomplete)
    );
    ctx.mode_state.refund_paid_entry_count = 5;
    assert_eq!(
        close_no_winner_settlement(&mut ctx, 7),
        Ok(NoWinnerSettlementClosed {
            game_id: "door-1".to_string(),
            refund_round_id: 7,
            carry_out: 458,
        })
    );
    assert_eq!(ctx.game.status, GameStatus::Complete);
    assert_eq!(ctx.mode_state, ModeState { open_refund_round_id: 7, ..mode_with(458, 5) });
}

#[test]
fn closing_is_refused() {
    let (game, mode_state) = opened();
    let mut ctx = CloseNoWinnerSettlement { authority: address(1), game, mode_state };
    assert_eq!(close_no_winner_settlement(&mut ctx, 6), Err(DoorCashError::RefundRoundMismatch));
    ctx.game.refund_round_id = 6;
    assert_eq!(close_no_winner_settlement(&mut ctx, 7), Err(DoorCashError::RefundRoundMismatch));
    ctx.mode_state.refund_round_open = false;
    assert_eq!(close_no_winner_settlement(&mut ctx, 7), Err(DoorCashError::RefundRoundNotOpen));
    ctx.game.status = GameStatus::Active;
    assert_eq!(close_no_winner_settlement(&mut ctx, 7), Err(DoorCashError::InvalidGameStatus));
    ctx.authority = address(3);
    assert_eq!(close_no_winner_settlement(&mut ctx, 7), Err(DoorCashError::Unauthorized));
}

#[test]
fn whole_round_pays_out_half() {
    let mut register = registering(0);
    let mut list = pairs(&[30, 31, 32]);
    assert_eq!(register_no_winner_entries(&mut register, &mut list), Ok(()));
    let mut open = opening(900, 900, 20, register.mode_state.eligible_entry_count);
    assert!(open_no_winner_settlement(&mut open).is_ok());
    let mut pay = PayNoWinnerBatch {
        authority: address(1),
        game: open.game,
        mode_state: open.mode_state,
        mode_vault: mode_vault().0,
    };
    let mut payees = Vec::new();
    for i in 0..3 {
        payees.push(list[2 * i + 1].clone());
        payees.push(account(30 + i as u8, AccountData::Unreadable(0)));
    }
    let transfers = pay_no_winner_batch(&mut pay, &mut payees, 7).unwrap();
    assert_eq!(
        amounts(&transfers),
        vec![(address(30), 138), (address(31), 138), (address(32), 138)]
    );
    let mut close = CloseNoWinnerSettlement {
        authority: address(1),
        game: pay.game,
        mode_state: pay.mode_state,
    };
    let event = close_no_winner_settlement(&mut close, 7).unwrap();
    assert_eq!(event.carry_out + 3 * 138 + 90, 900 + 20);
}

#[test]
fn next_round_pays_again() {
    let mut ctx = paying();
    let mut list = payees(&[(30, 2), (31, 3)]);
    assert!(pay_no_winner_batch(&mut ctx, &mut list, 7).is_ok());
    let mut close = CloseNoWinnerSettlement {
        authority: address(1),
        game: ctx.game,
        mode_state: ctx.mode_state,
    };
    assert!(close_no_winner_settlement(&mut close, 7).is_ok());
    let mut open = opening(1_000, 1_000, 0, 5);
    open.mode_state = close.mode_state;
    assert_eq!(open_no_winner_settlement(&mut open).unwrap().1.refund_round_id, 8);
    let mut ctx = PayNoWinnerBatch {
        authority: address(1),
        game: open.game,
        mode_state: open.mode_state,
        mode_vault: mode_vault().0,
    };
    let transfers = pay_no_winner_batch(&mut ctx, &mut list, 8).unwrap();
    assert_eq!(amounts(&transfers), vec![(address(30), 270), (address(31), 405)]);
}

#[test]
fn mode_vault_covers_what_is_owed() {
    let mut ctx = opening(1_000, 1_005, 13, 5);
    let mut balance = 13;
    let (transfers, _) = open_no_winner_settlement(&mut ctx).unwrap();
    for (to, lamports) in amounts(&transfers) {
        if to == ctx.mode_vault {
            balance += lamports;
        }
    }
    let state = ctx.mode_state;
    assert_eq!(balance, state.carry_lamports + 5 * state.refund_per_entry_lamports);
    let mut pay = paying();
    let mut list = payees(&[(30, 2), (31, 3)]);
    let transfers = pay_no_winner_batch(&mut pay, &mut list, 7).unwrap();
    for (_, lamports) in amounts(&transfers) {
        balance -= lamports;
    }
    assert_eq!(balance, pay.mode_state.carry_lamports);
}

fn counted_entry(player: u8) -> AccountData {
    AccountData::Entry(PlayerEntry { merged_streak_id: 3, ..entry_of(address(player)) })
}

#[test]
fn registration_adds_up() {
    let mut ctx = registering(10);
    let mut list = pairs(&[30, 31, 30, 30]);
    list[2].data = counted_entry(31);
    list[3].data = AccountData::Participant(ModeParticipant {
        streak_id: 3,
        eligible_entries: 4,
        ..participant_of(address(31))
    });
    list[6].key = address(99);
    let before = list.clone();
    assert_eq!(register_no_winner_entries(&mut ctx, &mut list), Ok(()));
    assert_eq!(ctx.mode_state, mode_with(20, 12));
    for i in [0, 2, 4, 6] {
        assert_eq!(
            entry_at(&list, i),
            PlayerEntry { merged_streak_id: 3, ..entry_at(&before, i) }
        );
    }
    for i in [1, 5, 7] {
        assert_eq!(
            participant_at(&list, i),
            ModeParticipant { streak_id: 3, eligible_entries: 2, ..participant_of(address(30)) }
        );
    }
    assert_eq!(list[3], before[3]);
}

#[test]
fn repair_depends_on_the_order_of_a_participants_entries() {
    let ctx = repairing();
    let mut list = pairs(&[30, 30]);
    list[0].data = counted_entry(30);
    list[2].key = address(99);
    assert_eq!(repair_no_winner_streak_entries(&ctx, &mut list).unwrap().repaired_entries, 2);
    assert_eq!(participant_at(&list, 1).eligible_entries, 2);
    assert_eq!(participant_at(&list, 3).eligible_entries, 2);

    let mut list = pairs(&[30, 30]);
    list[2].key = address(99);
    list[2].data = counted_entry(30);
    assert_eq!(repair_no_winner_streak_entries(&ctx, &mut list).unwrap().repaired_entries, 1);
    assert_eq!(participant_at(&list, 1).eligible_entries, 1);
}

#[test]
fn unpaid_participants_are_paid_in_order() {
    let mut ctx = paying();
    let mut list = payees(&[(30, 2), (31, 0), (30, 2), (32, 4), (33, 3)]);
    let mut paid = participant_at(&list, 6);
    paid.last_paid_refund_round_id = 7;
    list[6].data = AccountData::Participant(paid);
    let before = list.clone();
    let transfers = pay_no_winner_batch(&mut ctx, &mut list, 7).unwrap();
    assert_eq!(amounts(&transfers), vec![(address(30), 182), (address(33), 273)]);
    assert_eq!(ctx.mode_state.refund_paid_entry_count, 5);
    for i in [0, 2, 4, 6, 8] {
        assert_eq!(
            participant_at(&list, i),
            ModeParticipant { last_paid_refund_round_id: 7, ..participant_at(&before, i) }
        );
        assert_eq!(list[i + 1], before[i + 1]);
    }
}

#[test]
fn repaired_round_pays_out_of_the_carry() {
    let ctx = repairing();
    let mut repaired = pairs(&[32]);
    assert_eq!(repair_no_winner_streak_entries(&ctx, &mut repaired).unwrap().repaired_entries, 1);
    let mut pay = paying();
    let mut list = payees(&[(30, 2), (31, 3), (32, 0)]);
    list[4].data = repaired[1].data.clone();
    let transfers = pay_no_winner_batch(&mut pay, &mut list, 7).unwrap();
    let paid: u64 = amounts(&transfers).iter().map(|t| t.1).sum();
    assert_eq!(paid, 6 * 91);
    assert_eq!(pay.mode_state.refund_paid_entry_count, 6);
    assert_eq!(pay.mode_state.eligible_entry_count, 5);
    assert_eq!(913 - paid, pay.mode_state.carry_lamports - 91);
}

#[test]
fn dust_goes_to_the_house_without_winner() {
    let mut ctx = opening(1_000, 1_005, 13, 5);
    let mut richer = opening(1_000, 1_782, 13, 5);
    let (transfers, event) = open_no_winner_settlement(&mut ctx).unwrap();
    let (more, same_event) = open_no_winner_settlement(&mut richer).unwrap();
    assert_eq!(event, same_event);
    assert_eq!(ctx.game, richer.game);
    assert_eq!(ctx.mode_state, richer.mode_state);
    let vault = ctx.mode_vault;
    assert_eq!(
        amounts(&transfers),
        vec![(address(2), 5), (address(2), 100), (vault, 900)]
    );
    assert_eq!(amounts(&more), vec![(address(2), 782), (address(2), 100), (vault, 900)]);
}

#[test]
fn nobody_is_paid_ahead() {
    let mut pay = paying();
    let mut list = payees(&[(30, 2), (31, 0)]);
    assert!(pay_no_winner_batch(&mut pay, &mut list, 7).is_ok());
    assert_eq!(pay.mode_state.open_refund_round_id, 7);
    for i in [0, 2] {
        assert_eq!(participant_at(&list, i).last_paid_refund_round_id, 7);
    }

    let earlier = ModeParticipant { last_paid_refund_round_id: 6, ..participant_of(address(30)) };
    let mut register = registering(0);
    let mut list = pairs(&[30]);
    list[1].data = AccountData::Participant(earlier);
    assert_eq!(register_no_winner_entries(&mut register, &mut list), Ok(()));
    assert_eq!(register.mode_state.open_refund_round_id, 6);
    assert_eq!(participant_at(&list, 1).last_paid_refund_round_id, 6);

    let mut list = pairs(&[30]);
    list[1].data = AccountData::Participant(earlier);
    assert!(repair_no_winner_streak_entries(&repairing(), &mut list).is_ok());
    assert_eq!(participant_at(&list, 1).last_paid_refund_round_id, 6);
}
