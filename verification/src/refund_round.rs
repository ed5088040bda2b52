//! Settlement of a game without a winner: half of the money goes back to the
//! entries of the streak, in a refund round that is opened, paid and closed.

use crate::accounts::{
    copy_accounts, write_account, written, AccountData, CloseNoWinnerSettlement,
    OpenNoWinnerSettlement, PayNoWinnerBatch, RemainingAccount,
};
use crate::address::{found_bytes, mode_vault_address, Address};
use crate::error::{DoorCashError, Fault};
use crate::event::{NoWinnerSettlementClosed, NoWinnerSettlementOpened};
use crate::pot::{
    clear_vault, plan_refund, pot_split, refund_plan, split_pot, split_refusal, vault_clearing,
    PotSplit, RefundPlan,
};
use crate::state::{Game, GameStatus, ModeParticipant, ModeState, SettlementKind};
use crate::transfer::{
    add_transfer, listed, mode_vault_found, mode_vault_transfer, signed,
    transfer_found_mode_vault, SignedTransfer, VaultTransfer,
};
use vstd::prelude::*;

verus! {

/// How the pot of the game is divided.
pub open spec fn opened_split(ctx: OpenNoWinnerSettlement) -> PotSplit {
    pot_split(ctx.game.total_pot, ctx.game_vault.lamports, ctx.mode_state.carry_lamports)
}

/// How the refund of the game is worked out.
pub open spec fn opened_plan(ctx: OpenNoWinnerSettlement) -> RefundPlan {
    refund_plan(opened_split(ctx).distributable, ctx.mode_state.eligible_entry_count)
}

/// Why a refund round cannot be opened.
pub open spec fn open_refusal(ctx: OpenNoWinnerSettlement) -> Option<DoorCashError> {
    let game = ctx.game;
    let mode_state = ctx.mode_state;
    if game.authority != ctx.authority {
        Some(DoorCashError::Unauthorized)
    } else if game.house_wallet != ctx.house_wallet {
        Some(DoorCashError::HouseWalletMismatch)
    } else if !(game.status is Active) {
        Some(DoorCashError::InvalidGameStatus)
    } else if !game.seed_revealed {
        Some(DoorCashError::SeedNotRevealed)
    } else if mode_state.refund_round_open {
        Some(DoorCashError::ModeRefundRoundOpen)
    } else if mode_state.mode != game.mode {
        Some(DoorCashError::ModeMismatch)
    } else if mode_state.eligible_entry_count == 0 {
        Some(DoorCashError::NoEligibleRefundEntries)
    } else {
        match split_refusal(game.total_pot, ctx.game_vault.lamports, mode_state.carry_lamports) {
            Some(e) => Some(e),
            None => if mode_state.open_refund_round_id == u64::MAX {
                Some(DoorCashError::ArithmeticOverflow)
            } else {
                None
            },
        }
    }
}

/// The mode after a refund round has been opened.
pub open spec fn mode_opened(mode_state: ModeState, plan: RefundPlan) -> ModeState {
    ModeState {
        carry_lamports: plan.carry_out,
        open_refund_round_id: (mode_state.open_refund_round_id + 1) as u64,
        refund_per_entry_lamports: plan.refund_per_entry,
        refund_remainder_lamports: plan.refund_remainder,
        refund_round_open: true,
        refund_paid_entry_count: 0,
        ..mode_state
    }
}

/// The game after a refund round with the number `round` has been opened for it.
pub open spec fn game_opened(game: Game, split: PotSplit, plan: RefundPlan, round: u64) -> Game {
    Game {
        house_cut: split.house_cut,
        carry_in: split.carry_in,
        carry_out: plan.carry_out,
        refund_pool: plan.refund_pool,
        refund_per_entry: plan.refund_per_entry,
        refund_round_id: round,
        prize_each: 0,
        settlement_kind: SettlementKind::NoWinner,
        status: GameStatus::Settling,
        ..game
    }
}

/// The accounts after a refund round has been opened.
pub open spec fn open_post(ctx: OpenNoWinnerSettlement) -> OpenNoWinnerSettlement {
    let mode_state = mode_opened(ctx.mode_state, opened_plan(ctx));
    OpenNoWinnerSettlement {
        game: game_opened(
            ctx.game,
            opened_split(ctx),
            opened_plan(ctx),
            mode_state.open_refund_round_id,
        ),
        mode_state,
        ..ctx
    }
}

/// What is announced of an opened refund round.
pub open spec fn opened_event(game: Game, mode_state: ModeState) -> NoWinnerSettlementOpened {
    NoWinnerSettlementOpened {
        game_id: game.game_id,
        refund_round_id: game.refund_round_id,
        house_cut: game.house_cut,
        carry_in: game.carry_in,
        refund_pool: game.refund_pool,
        carry_out: game.carry_out,
        refund_per_entry: game.refund_per_entry,
        eligible_entry_count: mode_state.eligible_entry_count,
    }
}

/// Opens the refund round of an active game without a winner, and empties the
/// game's vault.
pub fn open_no_winner_settlement(ctx: &mut OpenNoWinnerSettlement) -> (r: Result<
    (Vec<VaultTransfer>, NoWinnerSettlementOpened),
    DoorCashError,
>)
    ensures
        match r {
            Ok((transfers, event)) => {
                &&& open_refusal(*old(ctx)) is None
                &&& *final(ctx) == open_post(*old(ctx))
                &&& signed(transfers@) == vault_clearing(
                    old(ctx).game,
                    old(ctx).game_vault.key,
                    old(ctx).mode_vault,
                    old(ctx).house_wallet,
                    opened_split(*old(ctx)),
                )
                &&& event == opened_event(final(ctx).game, final(ctx).mode_state)
            },
            Err(e) => {
                &&& open_refusal(*old(ctx)) == Some(e)
                &&& *final(ctx) == *old(ctx)
            },
        },
        old(ctx).game.valid() ==> final(ctx).game.valid(),
        old(ctx).mode_state.valid() ==> final(ctx).mode_state.valid(),
        old(ctx).game.status.may_become(final(ctx).game.status),
{
    if !ctx.game.authority.same(&ctx.authority) {
        return Err(DoorCashError::Unauthorized);
    }
    if !ctx.game.house_wallet.same(&ctx.house_wallet) {
        return Err(DoorCashError::HouseWalletMismatch);
    }
    if !matches!(ctx.game.status, GameStatus::Active) {
        return Err(DoorCashError::InvalidGameStatus);
    }
    if !ctx.game.seed_revealed {
        return Err(DoorCashError::SeedNotRevealed);
    }
    if ctx.mode_state.refund_round_open {
        return Err(DoorCashError::ModeRefundRoundOpen);
    }
    if ctx.mode_state.mode != ctx.game.mode {
        return Err(DoorCashError::ModeMismatch);
    }
    if ctx.mode_state.eligible_entry_count == 0 {
        return Err(DoorCashError::NoEligibleRefundEntries);
    }
    let split = match split_pot(
        ctx.game.total_pot,
        ctx.game_vault.lamports,
        ctx.mode_state.carry_lamports,
    ) {
        Ok(split) => split,
        Err(e) => return Err(e),
    };
    let transfers = clear_vault(
        &ctx.game,
        &ctx.game_vault.key,
        &ctx.mode_vault,
        &ctx.house_wallet,
        &split,
    );
    let plan = plan_refund(split.distributable, ctx.mode_state.eligible_entry_count);
    let round: u64 = match ctx.mode_state.open_refund_round_id.checked_add(1) {
        Some(round) => round,
        None => return Err(DoorCashError::ArithmeticOverflow),
    };
    ctx.mode_state.carry_lamports = plan.carry_out;
    ctx.mode_state.open_refund_round_id = round;
    ctx.mode_state.refund_per_entry_lamports = plan.refund_per_entry;
    ctx.mode_state.refund_remainder_lamports = plan.refund_remainder;
    ctx.mode_state.refund_round_open = true;
    ctx.mode_state.refund_paid_entry_count = 0;

    ctx.game.house_cut = split.house_cut;
    ctx.game.carry_in = split.carry_in;
    ctx.game.carry_out = plan.carry_out;
    ctx.game.refund_pool = plan.refund_pool;
    ctx.game.refund_per_entry = plan.refund_per_entry;
    ctx.game.refund_round_id = round;
    ctx.game.prize_each = 0;
    ctx.game.settlement_kind = SettlementKind::NoWinner;
    ctx.game.status = GameStatus::Settling;

    let event = NoWinnerSettlementOpened {
        game_id: ctx.game.game_id.clone(),
        refund_round_id: round,
        house_cut: split.house_cut,
        carry_in: split.carry_in,
        refund_pool: plan.refund_pool,
        carry_out: plan.carry_out,
        refund_per_entry: plan.refund_per_entry,
        eligible_entry_count: ctx.mode_state.eligible_entry_count,
    };
    Ok((transfers, event))
}

/// What a participant is due in a refund round.
pub open spec fn amount_due(mode_state: ModeState, participant: ModeParticipant) -> int {
    mode_state.refund_per_entry_lamports * participant.eligible_entries
}

/// The mode, the participant and the transfer after a participant has been paid
/// in a refund round, or why it is refused. One that has been paid in the round
/// is passed over; `found` is the address of the mode's vault.
pub open spec fn payment(
    game: Game,
    mode_vault: Address,
    found: Option<(Seq<u8>, u8)>,
    refund_round_id: u64,
    mode_state: ModeState,
    participant: ModeParticipant,
    wallet: Address,
) -> Result<(ModeState, ModeParticipant, Option<SignedTransfer>), Fault> {
    if participant.mode != game.mode {
        Err(Fault::Program(DoorCashError::ModeMismatch))
    } else if participant.wallet != wallet {
        Err(Fault::Program(DoorCashError::Unauthorized))
    } else if participant.streak_id != game.streak_id {
        Err(Fault::Program(DoorCashError::StreakMismatch))
    } else if participant.last_paid_refund_round_id == refund_round_id {
        Ok((mode_state, participant, None))
    } else if amount_due(mode_state, participant) > u64::MAX {
        Err(Fault::Program(DoorCashError::ArithmeticOverflow))
    } else {
        match mode_vault_transfer(
            game.mode,
            found,
            mode_vault,
            wallet,
            amount_due(mode_state, participant) as u64,
        ) {
            Err(fault) => Err(fault),
            Ok(transfer) => if mode_state.refund_paid_entry_count + participant.eligible_entries
                > u64::MAX {
                Err(Fault::Program(DoorCashError::ArithmeticOverflow))
            } else {
                Ok(
                    (
                        ModeState {
                            refund_paid_entry_count: (mode_state.refund_paid_entry_count
                                + participant.eligible_entries) as u64,
                            ..mode_state
                        },
                        ModeParticipant {
                            last_paid_refund_round_id: refund_round_id,
                            ..participant
                        },
                        transfer,
                    ),
                )
            },
        }
    }
}

/// Pays one participant in a refund round.
pub fn pay_participant(
    game: &Game,
    mode_vault: &Address,
    found: &Option<(Address, u8)>,
    refund_round_id: u64,
    mode_state: &mut ModeState,
    participant: &mut ModeParticipant,
    wallet: &Address,
) -> (r: Result<Option<VaultTransfer>, Fault>)
    ensures
        match (
            r,
            payment(
                *game,
                *mode_vault,
                found_bytes(*found),
                refund_round_id,
                *old(mode_state),
                *old(participant),
                *wallet,
            ),
        ) {
            (Ok(transfer), Ok((new_mode, new_participant, expected))) => {
                &&& *final(mode_state) == new_mode
                &&& *final(participant) == new_participant
                &&& match transfer {
                    Some(t) => Some(t@),
                    None => None,
                } == expected
            },
            (Err(fault), Err(expected)) => {
                &&& fault == expected
                &&& *final(mode_state) == *old(mode_state)
                &&& *final(participant) == *old(participant)
            },
            _ => false,
        },
{
    if participant.mode != game.mode {
        return Err(Fault::Program(DoorCashError::ModeMismatch));
    }
    if !participant.wallet.same(wallet) {
        return Err(Fault::Program(DoorCashError::Unauthorized));
    }
    if participant.streak_id != game.streak_id {
        return Err(Fault::Program(DoorCashError::StreakMismatch));
    }
    if participant.last_paid_refund_round_id == refund_round_id {
        return Ok(None);
    }
    let amount: u64 = match mode_state.refund_per_entry_lamports.checked_mul(
        participant.eligible_entries,
    ) {
        Some(amount) => amount,
        None => return Err(Fault::Program(DoorCashError::ArithmeticOverflow)),
    };
    let transfer = match transfer_found_mode_vault(game.mode, found, mode_vault, wallet, amount) {
        Ok(transfer) => transfer,
        Err(fault) => return Err(fault),
    };
    let paid: u64 = match mode_state.refund_paid_entry_count.checked_add(
        participant.eligible_entries,
    ) {
        Some(paid) => paid,
        None => return Err(Fault::Program(DoorCashError::ArithmeticOverflow)),
    };
    participant.last_paid_refund_round_id = refund_round_id;
    mode_state.refund_paid_entry_count = paid;
    Ok(transfer)
}

/// The mode, the list and the transfers after the pair at a place has been
/// paid, or why it is refused.
pub open spec fn pay_pair(
    game: Game,
    mode_vault: Address,
    found: Option<(Seq<u8>, u8)>,
    refund_round_id: u64,
    so_far: (ModeState, Seq<RemainingAccount>, Seq<SignedTransfer>),
    i: int,
) -> Result<(ModeState, Seq<RemainingAccount>, Seq<SignedTransfer>), Fault> {
    let (mode_state, accounts, transfers) = so_far;
    match accounts[2 * i].data.participant() {
        Err(fault) => Err(fault),
        Ok(participant) => match payment(
            game,
            mode_vault,
            found,
            refund_round_id,
            mode_state,
            participant,
            accounts[2 * i + 1].key,
        ) {
            Err(fault) => Err(fault),
            Ok((new_mode, new_participant, transfer)) => Ok(
                (
                    new_mode,
                    if participant.last_paid_refund_round_id == refund_round_id {
                        accounts
                    } else {
                        written(
                            accounts,
                            accounts[2 * i].key,
                            AccountData::Participant(new_participant),
                        )
                    },
                    transfers + listed(transfer),
                ),
            ),
        },
    }
}

/// The mode, the list and the transfers after the first `n` pairs have been
/// paid one by one, or why the first refused pair is refused.
pub open spec fn pay_pairs(
    game: Game,
    mode_vault: Address,
    found: Option<(Seq<u8>, u8)>,
    refund_round_id: u64,
    mode_state: ModeState,
    accounts: Seq<RemainingAccount>,
    n: nat,
) -> Result<(ModeState, Seq<RemainingAccount>, Seq<SignedTransfer>), Fault>
    decreases n,
{
    if n == 0 {
        Ok((mode_state, accounts, seq![]))
    } else {
        match pay_pairs(
            game,
            mode_vault,
            found,
            refund_round_id,
            mode_state,
            accounts,
            (n - 1) as nat,
        ) {
            Err(fault) => Err(fault),
            Ok(so_far) => pay_pair(game, mode_vault, found, refund_round_id, so_far, n - 1),
        }
    }
}

pub(crate) proof fn lemma_pay_stops(
    game: Game,
    mode_vault: Address,
    found: Option<(Seq<u8>, u8)>,
    round: u64,
    mode_state: ModeState,
    accounts: Seq<RemainingAccount>,
    i: nat,
    n: nat,
)
    requires
        i <= n,
        pay_pairs(game, mode_vault, found, round, mode_state, accounts, i) is Err,
    ensures
        pay_pairs(game, mode_vault, found, round, mode_state, accounts, n) == pay_pairs(
            game,
            mode_vault,
            found,
            round,
            mode_state,
            accounts,
            i,
        ),
    decreases n,
{
    if i < n {
        lemma_pay_stops(
            game,
            mode_vault,
            found,
            round,
            mode_state,
            accounts,
            i,
            (n - 1) as nat,
        );
    }
}

/// Pays the participants of a list out of a mode's vault, whose address has
/// been searched for; the list holds participants and their wallets by turns.
pub fn pay_participants(
    game: &Game,
    mode_vault: &Address,
    found: &Option<(Address, u8)>,
    refund_round_id: u64,
    mode_state: &mut ModeState,
    remaining_accounts: &mut Vec<RemainingAccount>,
) -> (r: Result<Vec<VaultTransfer>, Fault>)
    requires
        old(remaining_accounts)@.len() % 2 == 0,
    ensures
        match (
            r,
            pay_pairs(
                *game,
                *mode_vault,
                found_bytes(*found),
                refund_round_id,
                *old(mode_state),
                old(remaining_accounts)@,
                old(remaining_accounts)@.len() / 2,
            ),
        ) {
            (Ok(transfers), Ok((new_mode, accounts, expected))) => {
                &&& *final(mode_state) == new_mode
                &&& final(remaining_accounts)@ == accounts
                &&& signed(transfers@) == expected
            },
            (Err(fault), Err(expected)) => {
                &&& fault == expected
                &&& *final(mode_state) == *old(mode_state)
                &&& *final(remaining_accounts) == *old(remaining_accounts)
            },
            _ => false,
        },
        *final(mode_state) == (ModeState {
            refund_paid_entry_count: final(mode_state).refund_paid_entry_count,
            ..*old(mode_state)
        }),
{
    let n: usize = remaining_accounts.len() / 2;
    let ghost found_at = found_bytes(*found);
    let ghost listed_at = remaining_accounts@;
    let mut current: ModeState = *mode_state;
    let mut accounts = copy_accounts(remaining_accounts);
    let mut transfers: Vec<VaultTransfer> = Vec::new();
    assert(signed(transfers@) =~= seq![]);
    let mut i: usize = 0;
    while i < n
        invariant
            i <= n,
            accounts@.len() == 2 * n <= usize::MAX,
            n == listed_at.len() / 2,
            found_at == found_bytes(*found),
            *mode_state == *old(mode_state),
            *remaining_accounts == *old(remaining_accounts),
            listed_at == old(remaining_accounts)@,
            pay_pairs(
                *game,
                *mode_vault,
                found_at,
                refund_round_id,
                *mode_state,
                listed_at,
                i as nat,
            ) == Ok::<(ModeState, Seq<RemainingAccount>, Seq<SignedTransfer>), Fault>(
                (current, accounts@, signed(transfers@)),
            ),
            current == (ModeState {
                refund_paid_entry_count: current.refund_paid_entry_count,
                ..*mode_state
            }),
        decreases n - i,
    {
        proof {
            if pay_pair(
                *game,
                *mode_vault,
                found_at,
                refund_round_id,
                (current, accounts@, signed(transfers@)),
                i as int,
            ) is Err {
                lemma_pay_stops(
                    *game,
                    *mode_vault,
                    found_at,
                    refund_round_id,
                    *mode_state,
                    listed_at,
                    (i + 1) as nat,
                    n as nat,
                );
            }
        }
        let mut participant = match accounts[2 * i].data.read_participant() {
            Ok(participant) => participant,
            Err(fault) => return Err(fault),
        };
        let paid_before = participant.last_paid_refund_round_id == refund_round_id;
        let wallet = accounts[2 * i + 1].key;
        match pay_participant(
            game,
            mode_vault,
            found,
            refund_round_id,
            &mut current,
            &mut participant,
            &wallet,
        ) {
            Ok(transfer) => add_transfer(&mut transfers, transfer),
            Err(fault) => return Err(fault),
        }
        if !paid_before {
            let key = accounts[2 * i].key;
            write_account(&mut accounts, &key, AccountData::Participant(participant));
        }
        i += 1;
    }
    *mode_state = current;
    *remaining_accounts = accounts;
    Ok(transfers)
}

/// The mode, the list and the transfers after a batch has been paid, or why it
/// is refused.
pub open spec fn pay_outcome(
    ctx: PayNoWinnerBatch,
    accounts: Seq<RemainingAccount>,
    refund_round_id: u64,
) -> Result<(ModeState, Seq<RemainingAccount>, Seq<SignedTransfer>), Fault> {
    if ctx.game.authority != ctx.authority {
        Err(Fault::Program(DoorCashError::Unauthorized))
    } else if !(ctx.game.status is Settling) {
        Err(Fault::Program(DoorCashError::InvalidGameStatus))
    } else if ctx.mode_state.mode != ctx.game.mode {
        Err(Fault::Program(DoorCashError::ModeMismatch))
    } else if !ctx.mode_state.refund_round_open {
        Err(Fault::Program(DoorCashError::RefundRoundNotOpen))
    } else if ctx.mode_state.open_refund_round_id != refund_round_id || ctx.game.refund_round_id
        != refund_round_id {
        Err(Fault::Program(DoorCashError::RefundRoundMismatch))
    } else if accounts.len() % 2 != 0 {
        Err(Fault::Program(DoorCashError::BatchAccountMismatch))
    } else {
        pay_pairs(
            ctx.game,
            ctx.mode_vault,
            mode_vault_found(ctx.game.mode),
            refund_round_id,
            ctx.mode_state,
            accounts,
            accounts.len() / 2,
        )
    }
}

/// Pays participants of an open refund round, each at most once.
///
/// The list holds participants and their wallets by turns.
pub fn pay_no_winner_batch(
    ctx: &mut PayNoWinnerBatch,
    remaining_accounts: &mut Vec<RemainingAccount>,
    refund_round_id: u64,
) -> (r: Result<Vec<VaultTransfer>, Fault>)
    ensures
        match (r, pay_outcome(*old(ctx), old(remaining_accounts)@, refund_round_id)) {
            (Ok(transfers), Ok((mode_state, accounts, expected))) => {
                &&& *final(ctx) == (PayNoWinnerBatch { mode_state, ..*old(ctx) })
                &&& final(remaining_accounts)@ == accounts
                &&& signed(transfers@) == expected
            },
            (Err(fault), Err(expected)) => {
                &&& fault == expected
                &&& *final(ctx) == *old(ctx)
                &&& *final(remaining_accounts) == *old(remaining_accounts)
            },
            _ => false,
        },
        old(ctx).mode_state.valid() ==> final(ctx).mode_state.valid(),
{
    if !ctx.game.authority.same(&ctx.authority) {
        return Err(Fault::Program(DoorCashError::Unauthorized));
    }
    if !matches!(ctx.game.status, GameStatus::Settling) {
        return Err(Fault::Program(DoorCashError::InvalidGameStatus));
    }
    if ctx.mode_state.mode != ctx.game.mode {
        return Err(Fault::Program(DoorCashError::ModeMismatch));
    }
    if !ctx.mode_state.refund_round_open {
        return Err(Fault::Program(DoorCashError::RefundRoundNotOpen));
    }
    if ctx.mode_state.open_refund_round_id != refund_round_id || ctx.game.refund_round_id
        != refund_round_id {
        return Err(Fault::Program(DoorCashError::RefundRoundMismatch));
    }
    if remaining_accounts.len() % 2 != 0 {
        return Err(Fault::Program(DoorCashError::BatchAccountMismatch));
    }
    let found = mode_vault_address(ctx.game.mode);
    pay_participants(
        &ctx.game,
        &ctx.mode_vault,
        &found,
        refund_round_id,
        &mut ctx.mode_state,
        remaining_accounts,
    )
}

/// Why a refund round cannot be closed.
pub open spec fn close_refusal(ctx: CloseNoWinnerSettlement, refund_round_id: u64) -> Option<
    DoorCashError,
> {
    let mode_state = ctx.mode_state;
    if ctx.game.authority != ctx.authority {
        Some(DoorCashError::Unauthorized)
    } else if !(ctx.game.status is Settling) {
        Some(DoorCashError::InvalidGameStatus)
    } else if !mode_state.refund_round_open {
        Some(DoorCashError::RefundRoundNotOpen)
    } else if mode_state.open_refund_round_id != refund_round_id || ctx.game.refund_round_id
        != refund_round_id {
        Some(DoorCashError::RefundRoundMismatch)
    } else if mode_state.refund_paid_entry_count < mode_state.eligible_entry_count {
        Some(DoorCashError::RefundRoundIncomplete)
    } else {
        None
    }
}

/// The mode after a refund round has been closed.
pub open spec fn mode_closed(mode_state: ModeState) -> ModeState {
    ModeState {
        refund_round_open: false,
        refund_per_entry_lamports: 0,
        refund_remainder_lamports: 0,
        refund_paid_entry_count: 0,
        ..mode_state
    }
}

/// Closes a refund round in which every eligible entry has been paid.
pub fn close_no_winner_settlement(
    ctx: &mut CloseNoWinnerSettlement,
    refund_round_id: u64,
) -> (r: Result<NoWinnerSettlementClosed, DoorCashError>)
    ensures
        match r {
            Ok(event) => {
                &&& close_refusal(*old(ctx), refund_round_id) is None
                &&& *final(ctx) == (CloseNoWinnerSettlement {
                    game: Game { status: GameStatus::Complete, ..old(ctx).game },
                    mode_state: mode_closed(old(ctx).mode_state),
                    ..*old(ctx)
                })
                &&& event == (NoWinnerSettlementClosed {
                    game_id: old(ctx).game.game_id,
                    refund_round_id,
                    carry_out: old(ctx).mode_state.carry_lamports,
                })
            },
            Err(e) => {
                &&& close_refusal(*old(ctx), refund_round_id) == Some(e)
                &&& *final(ctx) == *old(ctx)
            },
        },
        old(ctx).game.valid() ==> final(ctx).game.valid(),
        old(ctx).mode_state.valid() ==> final(ctx).mode_state.valid(),
        old(ctx).game.status.may_become(final(ctx).game.status),
{
    if !ctx.game.authority.same(&ctx.authority) {
        return Err(DoorCashError::Unauthorized);
    }
    if !matches!(ctx.game.status, GameStatus::Settling) {
        return Err(DoorCashError::InvalidGameStatus);
    }
    if !ctx.mode_state.refund_round_open {
        return Err(DoorCashError::RefundRoundNotOpen);
    }
    if ctx.mode_state.open_refund_round_id != refund_round_id || ctx.game.refund_round_id
        != refund_round_id {
        return Err(DoorCashError::RefundRoundMismatch);
    }
    if ctx.mode_state.refund_paid_entry_count < ctx.mode_state.eligible_entry_count {
        return Err(DoorCashError::RefundRoundIncomplete);
    }
    ctx.mode_state.refund_round_open = false;
    ctx.mode_state.refund_per_entry_lamports = 0;
    ctx.mode_state.refund_remainder_lamports = 0;
    ctx.mode_state.refund_paid_entry_count = 0;
    ctx.game.status = GameStatus::Complete;
    Ok(
        NoWinnerSettlementClosed {
            game_id: ctx.game.game_id.clone(),
            refund_round_id,
            carry_out: ctx.mode_state.carry_lamports,
        },
    )
}

} // verus!
