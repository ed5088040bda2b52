//! What the instructions that work on lists of accounts accept and do, field by
//! field.

use crate::accounts::{
    coherent, write_account, AccountData, PayNoWinnerBatch, RegisterNoWinnerEntries,
    RemainingAccount, RepairNoWinnerStreakEntries,
};
use crate::address::Address;
use crate::batch_laws::{
    counted_at, counted_list, entries_in, law_paying_amounts, law_registering_amounts,
    law_repairing_amounts, lemma_pay_amounts, lemma_register_amounts, lemma_repair_amounts,
    newly_merged, newly_repaired, pair_belongs, paid_list, payable, refund_at, refunds, registrable,
    repairable, tally, unpaid_at, unpaid_entries,
};
use crate::error::{DoorCashError, Fault};
use crate::event::NoWinnerEntriesRepaired;
use crate::law_terms::{
    is_vault_of_mode, lemma_records, mode_seeds, moves, record, recorded, records, refused,
    vault_of_mode,
};
use crate::refund_round::{
    lemma_pay_stops, pay_no_winner_batch, pay_pair, pay_pairs, pay_participant,
};
use crate::registry::{
    lemma_register_stops, lemma_repair_stops, register_entry, register_no_winner_entries,
    register_pair, register_pairs, repair_entry, repair_no_winner_streak_entries, repair_pair,
    repair_pairs,
};
use crate::state::{Game, ModeParticipant, ModeState, PlayerEntry};
use crate::transfer::{mode_vault_found, mode_vault_signer, Transfer, VaultTransfer};
use vstd::prelude::*;

verus! {

/// Writing a record shows at every place of its account, and at no other.
pub proof fn law_writing(list: &mut Vec<RemainingAccount>, key: Address, data: AccountData)
    requires
        call_ensures(write_account, (list, &key, data), ()),
    ensures
        final(list)@.len() == old(list)@.len(),
        forall|i: int|
            0 <= i < old(list)@.len() ==> {
                &&& (#[trigger] final(list)@[i]).key == old(list)@[i].key
                &&& final(list)@[i].data == if old(list)@[i].key == key {
                    data
                } else {
                    old(list)@[i].data
                }
            },
{
}

/// An account shows a record only as what it is; of the other kind, reading it
/// reports that it is another record.
pub proof fn law_reading(
    data: AccountData,
    entry: Result<PlayerEntry, Fault>,
    participant: Result<ModeParticipant, Fault>,
)
    requires
        call_ensures(AccountData::read_entry, (&data,), entry),
        call_ensures(AccountData::read_participant, (&data,), participant),
    ensures
        match data {
            AccountData::Entry(record) => {
                &&& entry == Ok::<PlayerEntry, Fault>(record)
                &&& refused(participant, Fault::Account(3002))
            },
            AccountData::Participant(record) => {
                &&& refused(entry, Fault::Account(3002))
                &&& participant == Ok::<ModeParticipant, Fault>(record)
            },
            AccountData::Unreadable(code) => {
                &&& refused(entry, Fault::Account(code))
                &&& refused(participant, Fault::Account(code))
            },
        },
{
}

/// What is wrong with an entry and a participant that do not belong to a game and
/// to each other: what is read in place of the one or the other, another game, a
/// mode that is not the game's, or another player.
pub open spec fn pair_fault(game: Game, accounts: Seq<RemainingAccount>, i: int) -> Fault {
    match (accounts[2 * i].data, accounts[2 * i + 1].data) {
        (AccountData::Unreadable(code), _) => Fault::Account(code),
        (AccountData::Participant(_), _) => Fault::Account(3002),
        (_, AccountData::Unreadable(code)) => Fault::Account(code),
        (_, AccountData::Entry(_)) => Fault::Account(3002),
        (AccountData::Entry(entry), AccountData::Participant(participant)) => {
            if entry.game_id@ != game.game_id@ {
                Fault::Program(DoorCashError::EntryGameMismatch)
            } else if entry.mode != game.mode {
                Fault::Program(DoorCashError::ModeMismatch)
            } else if participant.wallet != entry.player {
                Fault::Program(DoorCashError::Unauthorized)
            } else {
                Fault::Program(DoorCashError::ModeMismatch)
            }
        },
    }
}

/// One entry is registered exactly where it belongs to the game and to its
/// participant and, if it has not been counted for the streak, no count overflows.
/// It then counts once, for the mode and for the participant, of whom entries of
/// another streak are forgotten.
pub proof fn law_register_entry(
    game: Game,
    mode_state: &mut ModeState,
    entry: &mut PlayerEntry,
    participant: &mut ModeParticipant,
    r: Result<(), DoorCashError>,
)
    requires
        call_ensures(register_entry, (&game, mode_state, entry, participant), r),
    ensures
        ({
            let had = entries_in(*old(participant), game.streak_id);
            let count = old(mode_state).eligible_entry_count;
            let same_game = old(entry).game_id@ == game.game_id@;
            let same_mode = same_game && old(entry).mode == game.mode;
            let own = same_mode && old(participant).wallet == old(entry).player;
            let belongs = own && old(participant).mode == game.mode;
            let fresh = old(entry).merged_streak_id != game.streak_id;
            let finite = belongs && (!fresh || (had < u64::MAX && count < u64::MAX));
            let more = if fresh {
                1int
            } else {
                0
            };
            &&& r is Ok <==> finite
            &&& refused(r, DoorCashError::EntryGameMismatch) <==> !same_game
            &&& refused(r, DoorCashError::Unauthorized) <==> same_mode && !own
            &&& refused(r, DoorCashError::ModeMismatch) <==> (same_game && !same_mode) || (own
                && !belongs)
            &&& refused(r, DoorCashError::ArithmeticOverflow) <==> belongs && !finite
            &&& r is Ok ==> {
                &&& final(mode_state).eligible_entry_count == count + more
                &&& *final(mode_state) == (ModeState {
                    eligible_entry_count: final(mode_state).eligible_entry_count,
                    ..*old(mode_state)
                })
                &&& *final(entry) == (PlayerEntry {
                    merged_streak_id: game.streak_id,
                    ..*old(entry)
                })
                &&& final(participant).eligible_entries == had + more
                &&& *final(participant) == (ModeParticipant {
                    streak_id: game.streak_id,
                    eligible_entries: final(participant).eligible_entries,
                    ..*old(participant)
                })
            }
            &&& r is Err ==> {
                &&& *final(mode_state) == *old(mode_state)
                &&& *final(entry) == *old(entry)
                &&& *final(participant) == *old(participant)
            }
        }),
{
}

/// One entry is repaired exactly where it belongs to the game and to its
/// participant, who has not been paid in the game's refund round, and no count
/// overflows. An entry that has not been counted for the streak counts then, and a
/// participant without an entry in the streak gets one; nothing else is changed.
pub proof fn law_repair_entry(
    game: Game,
    entry: &mut PlayerEntry,
    participant: &mut ModeParticipant,
    r: Result<bool, DoorCashError>,
)
    requires
        call_ensures(repair_entry, (&game, entry, participant), r),
    ensures
        ({
            let had = entries_in(*old(participant), game.streak_id);
            let same_game = old(entry).game_id@ == game.game_id@;
            let same_mode = same_game && old(entry).mode == game.mode;
            let own = same_mode && old(participant).wallet == old(entry).player;
            let belongs = own && old(participant).mode == game.mode;
            let unpaid = belongs && old(participant).last_paid_refund_round_id
                != game.refund_round_id;
            let fresh = old(entry).merged_streak_id != game.streak_id;
            let finite = unpaid && (!fresh || had < u64::MAX);
            &&& r is Ok <==> finite
            &&& refused(r, DoorCashError::EntryGameMismatch) <==> !same_game
            &&& refused(r, DoorCashError::Unauthorized) <==> same_mode && !own
            &&& refused(r, DoorCashError::ModeMismatch) <==> (same_game && !same_mode) || (own
                && !belongs)
            &&& refused(r, DoorCashError::AlreadyRefunded) <==> belongs && !unpaid
            &&& refused(r, DoorCashError::ArithmeticOverflow) <==> unpaid && !finite
            &&& r matches Ok(changed) ==> {
                &&& changed <==> fresh || had == 0
                &&& *final(entry) == (PlayerEntry {
                    merged_streak_id: game.streak_id,
                    ..*old(entry)
                })
                &&& final(participant).eligible_entries == if changed {
                    had + 1
                } else {
                    had
                }
                &&& *final(participant) == (ModeParticipant {
                    streak_id: game.streak_id,
                    eligible_entries: final(participant).eligible_entries,
                    ..*old(participant)
                })
            }
            &&& r is Err ==> *final(entry) == *old(entry) && *final(participant) == *old(
                participant,
            )
        }),
{
}

/// One participant is paid the refund per entry times its entries, to the own
/// wallet and out of a vault whose address was found, unless it has been paid in the
/// round, and is marked; its entries count as paid. Whoever is of another mode,
/// wallet or streak is refused, and so is a payment out of another vault.
pub proof fn law_pay_participant(
    game: Game,
    mode_vault: Address,
    found: Option<(Address, u8)>,
    round: u64,
    mode_state: &mut ModeState,
    participant: &mut ModeParticipant,
    wallet: Address,
    r: Result<Option<VaultTransfer>, Fault>,
)
    requires
        call_ensures(
            pay_participant,
            (&game, &mode_vault, &found, round, mode_state, participant, &wallet),
            r,
        ),
    ensures
        ({
            let before = *old(participant);
            let state = *old(mode_state);
            let refund = state.refund_per_entry_lamports * before.eligible_entries;
            let same_mode = before.mode == game.mode;
            let own = same_mode && before.wallet == wallet;
            let same_streak = own && before.streak_id == game.streak_id;
            let paid = before.last_paid_refund_round_id == round;
            let due = same_streak && !paid;
            let finite = due && refund <= u64::MAX;
            let known = finite && (refund == 0 || found is Some);
            let right = known && (refund == 0 || found->Some_0.0.bytes@ == mode_vault.bytes@);
            let counted = right && state.refund_paid_entry_count + before.eligible_entries
                <= u64::MAX;
            &&& r is Ok <==> (same_streak && paid) || counted
            &&& refused(r, Fault::Program(DoorCashError::Unauthorized)) <==> same_mode && !own
            &&& refused(r, Fault::Program(DoorCashError::StreakMismatch)) <==> own && !same_streak
            &&& refused(r, Fault::Program(DoorCashError::ModeMismatch)) <==> !same_mode || (known
                && !right)
            &&& refused(r, Fault::Program(DoorCashError::ArithmeticOverflow)) <==> (due
                && !finite) || (right && !counted)
            &&& refused(r, Fault::NoProgramAddress) <==> finite && !known
            &&& r is Ok && paid ==> {
                &&& r->Ok_0 is None
                &&& *final(mode_state) == state
                &&& *final(participant) == before
            }
            &&& r is Ok && !paid ==> {
                &&& recorded(r->Ok_0) == moves(
                    mode_vault,
                    wallet,
                    refund,
                    mode_seeds(game.mode, found->Some_0.1),
                )
                &&& final(mode_state).refund_paid_entry_count == state.refund_paid_entry_count
                    + before.eligible_entries
                &&& *final(mode_state) == (ModeState {
                    refund_paid_entry_count: final(mode_state).refund_paid_entry_count,
                    ..state
                })
                &&& *final(participant) == (ModeParticipant {
                    last_paid_refund_round_id: round,
                    ..before
                })
            }
            &&& r is Err ==> *final(mode_state) == state && *final(participant) == before
        }),
{
    let each = old(mode_state).refund_per_entry_lamports;
    let entries = old(participant).eligible_entries;
    assert(each * entries >= 0) by (nonlinear_arith)
        requires
            each >= 0,
            entries >= 0,
    ;
    if r is Ok {
        if let Some(t) = r->Ok_0 {
            let bump = found->Some_0.1;
            assert(mode_vault_signer(game.mode, bump) =~= mode_seeds(game.mode, bump));
            assert(record(t).1 =~= t@.signer_seeds);
        }
    }
}

/// A batch is asked to be registered by the authority of an active game, in the
/// game's mode, while no refund round is open, with a participant for each entry.
pub open spec fn registration_due(
    ctx: RegisterNoWinnerEntries,
    accounts: Seq<RemainingAccount>,
) -> bool {
    &&& ctx.game.authority == ctx.authority
    &&& ctx.game.status is Active
    &&& !ctx.mode_state.refund_round_open
    &&& ctx.mode_state.mode == ctx.game.mode
    &&& accounts.len() % 2 == 0
}

/// A batch is registered exactly where that is due and every pair is registrable.
/// What is wrong is named in this order. A refused batch changes nothing.
pub proof fn law_register_accepts(
    ctx: &mut RegisterNoWinnerEntries,
    list: &mut Vec<RemainingAccount>,
    r: Result<(), Fault>,
)
    requires
        call_ensures(register_no_winner_entries, (ctx, list), r),
        coherent(old(list)@),
    ensures
        ({
            let before = *old(ctx);
            let accounts = old(list)@;
            let asked = before.game.authority == before.authority;
            let active = asked && before.game.status is Active;
            let idle = active && !before.mode_state.refund_round_open;
            let matching = idle && before.mode_state.mode == before.game.mode;
            &&& r is Ok <==> {
                &&& registration_due(before, accounts)
                &&& registrable(before.game, before.mode_state, accounts, accounts.len() / 2)
            }
            &&& !asked ==> refused(r, Fault::Program(DoorCashError::Unauthorized))
            &&& asked && !active ==> refused(r, Fault::Program(DoorCashError::InvalidGameStatus))
            &&& active && !idle ==> refused(r, Fault::Program(DoorCashError::ModeRefundRoundOpen))
            &&& idle && !matching ==> refused(r, Fault::Program(DoorCashError::ModeMismatch))
            &&& matching && accounts.len() % 2 != 0 ==> refused(
                r,
                Fault::Program(DoorCashError::BatchAccountMismatch),
            )
            &&& r is Err ==> *final(ctx) == before && *final(list) == *old(list)
        }),
{
    law_registering_amounts(*old(ctx), old(list)@);
}

/// A due registration is refused for the first pair that is not registrable: for
/// what keeps it from belonging to the game, or for a count that overflows.
pub proof fn law_register_refuses_pair(
    ctx: &mut RegisterNoWinnerEntries,
    list: &mut Vec<RemainingAccount>,
    i: nat,
    r: Result<(), Fault>,
)
    requires
        call_ensures(register_no_winner_entries, (ctx, list), r),
        coherent(old(list)@),
        registration_due(*old(ctx), old(list)@),
        i < old(list)@.len() / 2,
        registrable(old(ctx).game, old(ctx).mode_state, old(list)@, i),
        !registrable(old(ctx).game, old(ctx).mode_state, old(list)@, i + 1),
    ensures
        refused(
            r,
            if pair_belongs(old(ctx).game, old(list)@, i as int) {
                Fault::Program(DoorCashError::ArithmeticOverflow)
            } else {
                pair_fault(old(ctx).game, old(list)@, i as int)
            },
        ),
{
    let game = old(ctx).game;
    let state = old(ctx).mode_state;
    let accounts = old(list)@;
    lemma_register_amounts(game, state, accounts, i);
    lemma_register_amounts(game, state, accounts, i + 1);
    let (mode, before) = register_pairs(game, state, accounts, i)->Ok_0;
    assert(register_pairs(game, state, accounts, i + 1) == register_pair(
        game,
        mode,
        before,
        i as int,
    ));
    lemma_register_stops(game, state, accounts, i + 1, accounts.len() / 2);
}

/// Registering a batch raises the mode's count by the number of entries of the list
/// that had not been counted for the streak, each taken once, and nothing else of
/// the mode. It marks every entry as counted, and gives each participant, besides
/// what it had in the streak, one entry for each of those that stands with it.
pub proof fn law_register_registers(
    ctx: &mut RegisterNoWinnerEntries,
    list: &mut Vec<RemainingAccount>,
    r: Result<(), Fault>,
)
    requires
        call_ensures(register_no_winner_entries, (ctx, list), r),
        coherent(old(list)@),
        r is Ok,
    ensures
        ({
            let before = *old(ctx);
            let accounts = old(list)@;
            let n = accounts.len() / 2;
            let counts = newly_merged(accounts, before.game.streak_id);
            let state = final(ctx).mode_state;
            &&& state.eligible_entry_count == before.mode_state.eligible_entry_count + tally(
                counts,
                n,
            )
            &&& state == (ModeState {
                eligible_entry_count: state.eligible_entry_count,
                ..before.mode_state
            })
            &&& *final(ctx) == (RegisterNoWinnerEntries { mode_state: state, ..before })
            &&& final(list)@ == counted_list(accounts, before.game.streak_id, counts, n)
            &&& forall|i: int|
                0 <= i < n ==> #[trigger] counted_at(
                    accounts,
                    before.game.streak_id,
                    counts,
                    final(list)@,
                    i,
                )
        }),
{
    law_registering_amounts(*old(ctx), old(list)@);
}

/// A batch is asked to be repaired by the authority of a game that is being settled
/// without a winner, in the game's mode, while the game's refund round is open, with
/// a participant for each entry.
pub open spec fn repair_due(
    ctx: RepairNoWinnerStreakEntries,
    accounts: Seq<RemainingAccount>,
) -> bool {
    &&& ctx.game.authority == ctx.authority
    &&& ctx.game.status is Settling && ctx.game.settlement_kind is NoWinner
    &&& ctx.mode_state.mode == ctx.game.mode
    &&& ctx.mode_state.refund_round_open
    &&& ctx.mode_state.open_refund_round_id == ctx.game.refund_round_id
    &&& accounts.len() % 2 == 0
}

/// A batch is repaired exactly where that is due and every pair is repairable. What
/// is wrong is named in this order. A refused batch changes nothing.
pub proof fn law_repair_accepts(
    ctx: RepairNoWinnerStreakEntries,
    list: &mut Vec<RemainingAccount>,
    r: Result<NoWinnerEntriesRepaired, Fault>,
)
    requires
        call_ensures(repair_no_winner_streak_entries, (&ctx, list), r),
        coherent(old(list)@),
    ensures
        ({
            let accounts = old(list)@;
            let asked = ctx.game.authority == ctx.authority;
            let settling = asked && ctx.game.status is Settling && ctx.game.settlement_kind
                is NoWinner;
            let matching = settling && ctx.mode_state.mode == ctx.game.mode;
            let open = matching && ctx.mode_state.refund_round_open;
            let current = open && ctx.mode_state.open_refund_round_id == ctx.game.refund_round_id;
            &&& r is Ok <==> repair_due(ctx, accounts) && repairable(
                ctx.game,
                accounts,
                accounts.len() / 2,
            )
            &&& !asked ==> refused(r, Fault::Program(DoorCashError::Unauthorized))
            &&& asked && !settling ==> refused(r, Fault::Program(DoorCashError::InvalidGameStatus))
            &&& settling && !matching ==> refused(r, Fault::Program(DoorCashError::ModeMismatch))
            &&& matching && !open ==> refused(r, Fault::Program(DoorCashError::RefundRoundNotOpen))
            &&& open && !current ==> refused(r, Fault::Program(DoorCashError::RefundRoundMismatch))
            &&& current && accounts.len() % 2 != 0 ==> refused(
                r,
                Fault::Program(DoorCashError::BatchAccountMismatch),
            )
            &&& r is Err ==> *final(list) == *old(list)
        }),
{
    law_repairing_amounts(ctx, old(list)@);
}

/// A due repair is refused for the first pair that is not repairable: for what keeps
/// it from belonging to the game, for a refund that was paid in the round, or for a
/// count that overflows.
pub proof fn law_repair_refuses_pair(
    ctx: RepairNoWinnerStreakEntries,
    list: &mut Vec<RemainingAccount>,
    i: nat,
    r: Result<NoWinnerEntriesRepaired, Fault>,
)
    requires
        call_ensures(repair_no_winner_streak_entries, (&ctx, list), r),
        coherent(old(list)@),
        repair_due(ctx, old(list)@),
        i < old(list)@.len() / 2,
        repairable(ctx.game, old(list)@, i),
        !repairable(ctx.game, old(list)@, i + 1),
    ensures
        ({
            let accounts = old(list)@;
            let at = 2 * i as int + 1;
            let paid = accounts[at].data->Participant_0.last_paid_refund_round_id;
            refused(
                r,
                if !pair_belongs(ctx.game, accounts, i as int) {
                    pair_fault(ctx.game, accounts, i as int)
                } else if paid == ctx.game.refund_round_id {
                    Fault::Program(DoorCashError::AlreadyRefunded)
                } else {
                    Fault::Program(DoorCashError::ArithmeticOverflow)
                },
            )
        }),
{
    let game = ctx.game;
    let accounts = old(list)@;
    lemma_repair_amounts(game, accounts, i);
    lemma_repair_amounts(game, accounts, i + 1);
    let (count, before) = repair_pairs(game, accounts, i)->Ok_0;
    assert(repair_pairs(game, accounts, i + 1) == repair_pair(game, count, before, i as int));
    lemma_repair_stops(game, accounts, i + 1, accounts.len() / 2);
}

/// Repairing a batch marks every entry as counted for the streak, gives each
/// participant, besides what it had in the streak, one entry for each pair of it
/// that is changed, and announces how many pairs were.
pub proof fn law_repair_repairs(
    ctx: RepairNoWinnerStreakEntries,
    list: &mut Vec<RemainingAccount>,
    r: Result<NoWinnerEntriesRepaired, Fault>,
)
    requires
        call_ensures(repair_no_winner_streak_entries, (&ctx, list), r),
        coherent(old(list)@),
        r is Ok,
    ensures
        ({
            let accounts = old(list)@;
            let n = accounts.len() / 2;
            let counts = newly_repaired(accounts, ctx.game.streak_id);
            let event = r->Ok_0;
            &&& event.game_id == ctx.game.game_id
            &&& event.refund_round_id == ctx.game.refund_round_id
            &&& event.repaired_entries == tally(counts, n)
            &&& final(list)@ == counted_list(accounts, ctx.game.streak_id, counts, n)
            &&& forall|i: int|
                0 <= i < n ==> #[trigger] counted_at(
                    accounts,
                    ctx.game.streak_id,
                    counts,
                    final(list)@,
                    i,
                )
        }),
{
    law_repairing_amounts(ctx, old(list)@);
}

/// A batch is asked to be paid by the authority of a game that is being settled, in
/// the game's mode, under the number of the game's open refund round, with a wallet
/// for each participant.
pub open spec fn payment_due(
    ctx: PayNoWinnerBatch,
    accounts: Seq<RemainingAccount>,
    refund_round_id: u64,
) -> bool {
    &&& ctx.game.authority == ctx.authority
    &&& ctx.game.status is Settling
    &&& ctx.mode_state.mode == ctx.game.mode
    &&& ctx.mode_state.refund_round_open
    &&& ctx.mode_state.open_refund_round_id == refund_round_id
    &&& ctx.game.refund_round_id == refund_round_id
    &&& accounts.len() % 2 == 0
}

/// A batch is paid exactly where that is due and every pair is payable. What is
/// wrong is named in this order. A refused batch changes nothing.
pub proof fn law_pay_accepts(
    ctx: &mut PayNoWinnerBatch,
    list: &mut Vec<RemainingAccount>,
    refund_round_id: u64,
    r: Result<Vec<VaultTransfer>, Fault>,
)
    requires
        call_ensures(pay_no_winner_batch, (ctx, list, refund_round_id), r),
        coherent(old(list)@),
    ensures
        ({
            let before = *old(ctx);
            let accounts = old(list)@;
            let state = before.mode_state;
            let asked = before.game.authority == before.authority;
            let settling = asked && before.game.status is Settling;
            let matching = settling && state.mode == before.game.mode;
            let open = matching && state.refund_round_open;
            let current = open && state.open_refund_round_id == refund_round_id
                && before.game.refund_round_id == refund_round_id;
            &&& r is Ok <==> payment_due(before, accounts, refund_round_id) && payable(
                before.game,
                before.mode_vault,
                vault_of_mode(before.game.mode),
                refund_round_id,
                state,
                accounts,
                accounts.len() / 2,
            )
            &&& !asked ==> refused(r, Fault::Program(DoorCashError::Unauthorized))
            &&& asked && !settling ==> refused(r, Fault::Program(DoorCashError::InvalidGameStatus))
            &&& settling && !matching ==> refused(r, Fault::Program(DoorCashError::ModeMismatch))
            &&& matching && !open ==> refused(r, Fault::Program(DoorCashError::RefundRoundNotOpen))
            &&& open && !current ==> refused(r, Fault::Program(DoorCashError::RefundRoundMismatch))
            &&& current && accounts.len() % 2 != 0 ==> refused(
                r,
                Fault::Program(DoorCashError::BatchAccountMismatch),
            )
            &&& r is Err ==> *final(ctx) == before && *final(list) == *old(list)
        }),
{
    assert(mode_vault_found(old(ctx).game.mode) == vault_of_mode(old(ctx).game.mode));
    law_paying_amounts(*old(ctx), old(list)@, refund_round_id);
}

/// A due payment is refused for the first pair that is not payable: for what is read
/// in place of a participant, for another mode, another wallet or another streak,
/// for a refund or a count that overflows, or for a vault that is not the mode's.
pub proof fn law_pay_refuses_pair(
    ctx: &mut PayNoWinnerBatch,
    list: &mut Vec<RemainingAccount>,
    refund_round_id: u64,
    i: nat,
    r: Result<Vec<VaultTransfer>, Fault>,
)
    requires
        call_ensures(pay_no_winner_batch, (ctx, list, refund_round_id), r),
        coherent(old(list)@),
        payment_due(*old(ctx), old(list)@, refund_round_id),
        i < old(list)@.len() / 2,
        ({
            let game = old(ctx).game;
            let vault = old(ctx).mode_vault;
            let found = vault_of_mode(game.mode);
            let state = old(ctx).mode_state;
            &&& payable(game, vault, found, refund_round_id, state, old(list)@, i)
            &&& !payable(game, vault, found, refund_round_id, state, old(list)@, i + 1)
        }),
    ensures
        ({
            let game = old(ctx).game;
            let accounts = old(list)@;
            let at = 2 * i as int;
            let refund = refund_at(old(ctx).mode_state, accounts, i as int);
            match accounts[at].data {
                AccountData::Unreadable(code) => refused(r, Fault::Account(code)),
                AccountData::Entry(_) => refused(r, Fault::Account(3002)),
                AccountData::Participant(participant) => {
                    let wallet = accounts[at + 1].key;
                    let same_mode = participant.mode == game.mode;
                    let own = same_mode && participant.wallet == wallet;
                    let same_streak = own && participant.streak_id == game.streak_id;
                    let finite = same_streak && refund <= u64::MAX;
                    let found = finite && (refund == 0 || vault_of_mode(game.mode) is Some);
                    let known = found && (refund == 0 || is_vault_of_mode(
                        old(ctx).mode_vault,
                        game.mode,
                    ));
                    &&& !same_mode ==> refused(r, Fault::Program(DoorCashError::ModeMismatch))
                    &&& same_mode && !own ==> refused(
                        r,
                        Fault::Program(DoorCashError::Unauthorized),
                    )
                    &&& own && !same_streak ==> refused(
                        r,
                        Fault::Program(DoorCashError::StreakMismatch),
                    )
                    &&& same_streak && !finite ==> refused(
                        r,
                        Fault::Program(DoorCashError::ArithmeticOverflow),
                    )
                    &&& finite && !found ==> refused(r, Fault::NoProgramAddress)
                    &&& found && !known ==> refused(
                        r,
                        Fault::Program(DoorCashError::ModeMismatch),
                    )
                    &&& known ==> refused(r, Fault::Program(DoorCashError::ArithmeticOverflow))
                },
            }
        }),
{
    let game = old(ctx).game;
    let vault = old(ctx).mode_vault;
    let found = vault_of_mode(game.mode);
    let state = old(ctx).mode_state;
    let accounts = old(list)@;
    assert(mode_vault_found(game.mode) == found);
    lemma_pay_amounts(game, vault, found, refund_round_id, state, accounts, i);
    lemma_pay_amounts(game, vault, found, refund_round_id, state, accounts, i + 1);
    let so_far = pay_pairs(game, vault, found, refund_round_id, state, accounts, i)->Ok_0;
    assert(pay_pairs(game, vault, found, refund_round_id, state, accounts, i + 1) == pay_pair(
        game,
        vault,
        found,
        refund_round_id,
        so_far,
        i as int,
    ));
    lemma_pay_stops(
        game,
        vault,
        found,
        refund_round_id,
        state,
        accounts,
        i + 1,
        accounts.len() / 2,
    );
}

/// The transfers of a batch of refunds, with the seeds that sign for them: from the
/// vault of the mode to the wallet of each participant of the first `n` pairs that
/// had not been paid in the round, once, the refund per entry times its entries. A
/// refund of nothing is left out.
pub open spec fn refund_moves(
    ctx: PayNoWinnerBatch,
    accounts: Seq<RemainingAccount>,
    refund_round_id: u64,
    n: nat,
) -> Seq<(Transfer, Seq<Seq<u8>>)>
    decreases n,
{
    if n == 0 {
        seq![]
    } else {
        let earlier = refund_moves(ctx, accounts, refund_round_id, (n - 1) as nat);
        let participant = accounts[2 * (n - 1)].data->Participant_0;
        let mode = ctx.game.mode;
        if unpaid_at(accounts, refund_round_id, n - 1) {
            earlier + moves(
                ctx.mode_vault,
                accounts[2 * (n - 1) + 1].key,
                ctx.mode_state.refund_per_entry_lamports * participant.eligible_entries,
                mode_seeds(mode, vault_of_mode(mode)->Some_0.1),
            )
        } else {
            earlier
        }
    }
}

proof fn lemma_refund_moves(
    ctx: PayNoWinnerBatch,
    accounts: Seq<RemainingAccount>,
    refund_round_id: u64,
    n: nat,
)
    ensures
        ({
            let mode = ctx.game.mode;
            let bump = vault_of_mode(mode)->Some_0.1;
            let listed = refunds(
                ctx.game,
                ctx.mode_vault,
                bump,
                refund_round_id,
                ctx.mode_state,
                accounts,
                n,
            );
            let expected = refund_moves(ctx, accounts, refund_round_id, n);
            &&& listed.len() == expected.len()
            &&& forall|k: int|
                0 <= k < listed.len() ==> #[trigger] expected[k] == (
                    listed[k].transfer,
                    listed[k].signer_seeds,
                )
        }),
    decreases n,
{
    if n > 0 {
        lemma_refund_moves(ctx, accounts, refund_round_id, (n - 1) as nat);
        let each = ctx.mode_state.refund_per_entry_lamports;
        let entries = accounts[2 * (n - 1)].data->Participant_0.eligible_entries;
        assert(each * entries >= 0) by (nonlinear_arith)
            requires
                each >= 0,
                entries >= 0,
        ;
    }
}

/// Paying a batch sends each participant that had not been paid in the round the
/// refund per entry times its entries, once, and nothing else; counts their entries
/// as paid; marks every participant of the list as paid in the round; and changes
/// nothing else of the list, the mode or the game.
pub proof fn law_pay_pays(
    ctx: &mut PayNoWinnerBatch,
    list: &mut Vec<RemainingAccount>,
    refund_round_id: u64,
    r: Result<Vec<VaultTransfer>, Fault>,
)
    requires
        call_ensures(pay_no_winner_batch, (ctx, list, refund_round_id), r),
        coherent(old(list)@),
        r is Ok,
    ensures
        ({
            let before = *old(ctx);
            let accounts = old(list)@;
            let n = accounts.len() / 2;
            let state = final(ctx).mode_state;
            &&& records(r->Ok_0@) == refund_moves(before, accounts, refund_round_id, n)
            &&& state.refund_paid_entry_count == before.mode_state.refund_paid_entry_count
                + unpaid_entries(accounts, refund_round_id, n)
            &&& state == (ModeState {
                refund_paid_entry_count: state.refund_paid_entry_count,
                ..before.mode_state
            })
            &&& *final(ctx) == (PayNoWinnerBatch { mode_state: state, ..before })
            &&& final(list)@ == paid_list(accounts, refund_round_id, n)
        }),
{
    let before = *old(ctx);
    let accounts = old(list)@;
    let n = accounts.len() / 2;
    let mode = before.game.mode;
    assert(mode_vault_found(mode) == vault_of_mode(mode));
    law_paying_amounts(before, accounts, refund_round_id);
    lemma_records(r->Ok_0@);
    lemma_refund_moves(before, accounts, refund_round_id, n);
    assert(records(r->Ok_0@) =~= refund_moves(before, accounts, refund_round_id, n));
}

} // verus!
