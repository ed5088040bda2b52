//! What settlements accept and do, field by field.

use crate::accounts::{
    coherent, AccountData, CloseNoWinnerSettlement, OpenNoWinnerSettlement, RegisterNoWinnerEntries,
    RemainingAccount, SettleWinners,
};
use crate::address::{program_address, Address};
use crate::batch_laws::{law_registering_amounts, lemma_tally_counts, newly_merged};
use crate::error::{DoorCashError, Fault};
use crate::event::{NoWinnerSettlementClosed, NoWinnerSettlementOpened, WinnerSettlement};
use crate::law_terms::{
    game_seeds, is_vault_of_mode, lemma_records, mode_seeds, moves, records, refused, vault_of_mode,
};
use crate::laws::law_winners_distinct;
use crate::pot::lemma_quotient;
use crate::refund_round::{
    close_no_winner_settlement, open_no_winner_settlement, opened_plan, opened_split,
};
use crate::registry::register_no_winner_entries;
use crate::state::{
    calculate_house_cut, Game, GameStatus, SettlementKind, BASIS_POINTS, HOUSE_EDGE_BPS,
};
use crate::transfer::{mode_vault_found, mode_vault_signer, Transfer, VaultTransfer};
use crate::winners::{
    lemma_refusal_stays, list_refusal, listed_before, place_refusal, settle_winners, settled_split,
};
use vstd::prelude::*;
use vstd::utf8::encode_utf8;

verus! {

/// A cut is the house's part of a pot: the most whole lamports that are no more
/// than the house's basis points of it, which is a tenth.
pub open spec fn is_cut(pot: u64, cut: int) -> bool {
    &&& BASIS_POINTS * cut <= HOUSE_EDGE_BPS * pot
    &&& HOUSE_EDGE_BPS * pot < BASIS_POINTS * (cut + 1)
    &&& 10 * cut <= pot < 10 * (cut + 1)
}

/// A pot whose cut can be worked out in 64 bits.
pub open spec fn cuttable(pot: u64) -> bool {
    pot * HOUSE_EDGE_BPS <= u64::MAX
}

/// The house's cut is its part of the pot, and fails only for a pot that is too
/// large to work with.
pub proof fn law_house_cut(pot: u64, r: Result<u64, DoorCashError>)
    requires
        call_ensures(calculate_house_cut, (pot,), r),
    ensures
        r is Ok <==> cuttable(pot),
        r matches Ok(cut) ==> is_cut(pot, cut as int),
        r is Err ==> refused(r, DoorCashError::ArithmeticOverflow),
{
}

/// A winner list shows, behind a wallet, the program's own entry account of that
/// wallet in a game, for that game and mode and not refunded.
pub open spec fn winner_shown(
    game: Game,
    accounts: Seq<RemainingAccount>,
    program_id: Address,
    i: int,
) -> bool {
    let wallet = accounts[2 * i].key;
    let found = program_address(
        seq![encode_utf8("entry"@), encode_utf8(game.game_id@), wallet.bytes@],
        program_id.bytes@,
    );
    match accounts[2 * i + 1].data {
        AccountData::Entry(entry) => {
            &&& found is Some && found->Some_0.0 == accounts[2 * i + 1].key.bytes@
            &&& entry.player == wallet
            &&& entry.game_id@ == game.game_id@
            &&& entry.mode == game.mode
            &&& !entry.refunded
        },
        _ => false,
    }
}

/// The first `n` wallets of a winner list are shown to be players, and none of
/// them stands there twice.
pub open spec fn winners_shown(
    game: Game,
    accounts: Seq<RemainingAccount>,
    program_id: Address,
    n: int,
) -> bool {
    &&& forall|i: int| 0 <= i < n ==> #[trigger] winner_shown(game, accounts, program_id, i)
    &&& forall|i: int, j: int|
        0 <= i < j < n ==> (#[trigger] accounts[2 * i]).key != (#[trigger] accounts[2 * j]).key
}

proof fn lemma_winner_list(
    game: Game,
    accounts: Seq<RemainingAccount>,
    program_id: Address,
    n: nat,
)
    ensures
        list_refusal(game, accounts, program_id, n) is None <==> winners_shown(
            game,
            accounts,
            program_id,
            n as int,
        ),
    decreases n,
{
    if n > 0 {
        let m = (n - 1) as nat;
        lemma_winner_list(game, accounts, program_id, m);
        if list_refusal(game, accounts, program_id, n) is None {
            law_winners_distinct(game, accounts, program_id, n);
            assert(place_refusal(game, accounts, program_id, n - 1) is None);
            assert forall|i: int| 0 <= i < n implies #[trigger] winner_shown(
                game,
                accounts,
                program_id,
                i,
            ) by {
                if i == n - 1 {
                    assert(winner_shown(game, accounts, program_id, n - 1));
                }
            }
        }
        if winners_shown(game, accounts, program_id, n as int) {
            assert(winners_shown(game, accounts, program_id, m as int));
            assert(winner_shown(game, accounts, program_id, n - 1));
            assert(!listed_before(accounts, n - 1));
        }
    }
}

/// The pot of a game can be divided: its vault holds it, and no amount overflows.
pub open spec fn dividable(pot: u64, balance: u64, carry: u64) -> bool {
    &&& pot <= balance
    &&& cuttable(pot)
    &&& carry + (pot - pot * HOUSE_EDGE_BPS / BASIS_POINTS as int) <= u64::MAX
}

/// A settlement is asked for by the authority of an active game whose seed has been
/// revealed, for its own house wallet and mode, of between 1 and 111 winners, with
/// a wallet and an entry account for each, while no refund round is open.
pub open spec fn settlement_due(
    ctx: SettleWinners,
    accounts: Seq<RemainingAccount>,
    winner_count: u8,
) -> bool {
    &&& ctx.game.authority == ctx.authority
    &&& ctx.game.house_wallet == ctx.house_wallet
    &&& ctx.game.status is Active
    &&& ctx.game.seed_revealed
    &&& 1 <= winner_count <= 111
    &&& accounts.len() == 2 * winner_count
    &&& !ctx.mode_state.refund_round_open
    &&& ctx.mode_state.mode == ctx.game.mode
}

/// A settlement with winners succeeds exactly where it is due, every winner is
/// shown to be a player, the pot can be divided, the prizes, unless they are
/// nothing, come out of the mode's own vault, and the mode can start another
/// streak.
pub proof fn law_settle_winners_accepts(
    ctx: &mut SettleWinners,
    accounts: &Vec<RemainingAccount>,
    winner_count: u8,
    program_id: &Address,
    r: Result<(Vec<VaultTransfer>, WinnerSettlement), Fault>,
)
    requires
        call_ensures(settle_winners, (ctx, accounts, winner_count, program_id), r),
    ensures
        ({
            let before = *old(ctx);
            let pot = before.game.total_pot;
            let carry = before.mode_state.carry_lamports;
            let share = carry + (pot - pot * HOUSE_EDGE_BPS / BASIS_POINTS as int);
            &&& r is Ok <==> {
                &&& settlement_due(before, accounts@, winner_count)
                &&& winners_shown(before.game, accounts@, *program_id, winner_count as int)
                &&& dividable(pot, before.game_vault.lamports, carry)
                &&& share < winner_count || is_vault_of_mode(before.mode_vault, before.game.mode)
                &&& before.mode_state.active_streak_id < u64::MAX
            }
            &&& r is Err ==> *final(ctx) == before
        }),
{
    let before = *old(ctx);
    lemma_winner_list(before.game, accounts@, *program_id, winner_count as nat);
    assert(mode_vault_found(before.game.mode) == vault_of_mode(before.game.mode));
    if winner_count > 0 {
        lemma_share(settled_split(before).distributable, winner_count);
    }
}

/// A share is a whole lamport for each winner where there are enough lamports.
proof fn lemma_share(lamports: u64, winner_count: u8)
    requires
        winner_count > 0,
    ensures
        ({
            let prize = lamports / winner_count as u64;
            &&& prize == 0 <==> lamports < winner_count
            &&& winner_count * prize <= lamports < winner_count * (prize + 1)
            &&& lamports % winner_count as u64 == lamports - winner_count * prize
        }),
{
    lemma_quotient(lamports, winner_count as u64);
    let prize = lamports / winner_count as u64;
    assert(winner_count * prize == prize * winner_count) by (nonlinear_arith);
    assert(winner_count * (prize + 1) == winner_count * prize + winner_count) by (nonlinear_arith);
    assert(prize == 0 ==> winner_count * prize == 0) by (nonlinear_arith);
    assert(prize >= 1 ==> winner_count * prize >= winner_count) by (nonlinear_arith);
}

/// The reasons for which a settlement with winners is refused before its winners
/// are looked at, in the order in which they are named.
pub proof fn law_settle_winners_refuses(
    ctx: &mut SettleWinners,
    accounts: &Vec<RemainingAccount>,
    winner_count: u8,
    program_id: &Address,
    r: Result<(Vec<VaultTransfer>, WinnerSettlement), Fault>,
)
    requires
        call_ensures(settle_winners, (ctx, accounts, winner_count, program_id), r),
    ensures
        ({
            let game = old(ctx).game;
            let asked = game.authority == old(ctx).authority;
            let house = asked && game.house_wallet == old(ctx).house_wallet;
            let active = house && game.status is Active;
            let revealed = active && game.seed_revealed;
            let counted = revealed && 1 <= winner_count <= 111;
            let listed = counted && accounts@.len() == 2 * winner_count;
            let idle = listed && !old(ctx).mode_state.refund_round_open;
            &&& refused(r, Fault::Program(DoorCashError::Unauthorized)) <==> !asked
            &&& refused(r, Fault::Program(DoorCashError::HouseWalletMismatch)) <==> asked && !house
            &&& refused(r, Fault::Program(DoorCashError::InvalidGameStatus)) <==> house && !active
            &&& refused(r, Fault::Program(DoorCashError::SeedNotRevealed)) <==> active
                && !revealed
            &&& refused(r, Fault::Program(DoorCashError::NoWinners)) <==> revealed && !counted
            &&& refused(r, Fault::Program(DoorCashError::WinnerAccountMismatch)) <==> counted
                && !listed
            &&& refused(r, Fault::Program(DoorCashError::ModeRefundRoundOpen)) <==> listed && !idle
            &&& idle && old(ctx).mode_state.mode != game.mode ==> refused(
                r,
                Fault::Program(DoorCashError::ModeMismatch),
            )
        }),
{
    let winners = winner_count as nat;
    lemma_list_reasons(old(ctx).game, accounts@, *program_id, winners);
}

/// What a winner list is refused for is none of the reasons that are named before
/// the list is looked at.
proof fn lemma_list_reasons(
    game: Game,
    accounts: Seq<RemainingAccount>,
    program_id: Address,
    n: nat,
)
    ensures
        list_refusal(game, accounts, program_id, n) matches Some(fault) ==> match fault {
            Fault::Program(e) => e == DoorCashError::InvalidWinnerEntry || e
                == DoorCashError::EntryGameMismatch || e == DoorCashError::ModeMismatch || e
                == DoorCashError::AlreadyRefunded || e == DoorCashError::DuplicateWinner,
            _ => true,
        },
    decreases n,
{
    if n > 0 {
        lemma_list_reasons(game, accounts, program_id, (n - 1) as nat);
    }
}

/// A due settlement is refused for the first wallet of the list that is not shown
/// to be a player or stands there already: for what is read in place of an entry,
/// for want of a program address, for an account or a player that is another one,
/// for another game or mode, for a refund, or for a repetition.
pub proof fn law_settle_winners_refuses_winner(
    ctx: &mut SettleWinners,
    accounts: &Vec<RemainingAccount>,
    winner_count: u8,
    program_id: &Address,
    i: int,
    r: Result<(Vec<VaultTransfer>, WinnerSettlement), Fault>,
)
    requires
        call_ensures(settle_winners, (ctx, accounts, winner_count, program_id), r),
        settlement_due(*old(ctx), accounts@, winner_count),
        0 <= i < winner_count,
        winners_shown(old(ctx).game, accounts@, *program_id, i),
        !winners_shown(old(ctx).game, accounts@, *program_id, i + 1),
    ensures
        ({
            let game = old(ctx).game;
            let account = accounts@[2 * i + 1];
            let wallet = accounts@[2 * i].key;
            let found = program_address(
                seq![encode_utf8("entry"@), encode_utf8(game.game_id@), wallet.bytes@],
                program_id.bytes@,
            );
            match account.data {
                AccountData::Unreadable(code) => refused(r, Fault::Account(code)),
                AccountData::Participant(_) => refused(r, Fault::Account(3002)),
                AccountData::Entry(entry) => if found is None {
                    refused(r, Fault::NoProgramAddress)
                } else {
                    let own = found->Some_0.0 == account.key.bytes@ && entry.player == wallet;
                    let same_game = own && entry.game_id@ == game.game_id@;
                    let same_mode = same_game && entry.mode == game.mode;
                    let paying = same_mode && !entry.refunded;
                    &&& !own ==> refused(r, Fault::Program(DoorCashError::InvalidWinnerEntry))
                    &&& own && !same_game ==> refused(
                        r,
                        Fault::Program(DoorCashError::EntryGameMismatch),
                    )
                    &&& same_game && !same_mode ==> refused(
                        r,
                        Fault::Program(DoorCashError::ModeMismatch),
                    )
                    &&& same_mode && !paying ==> refused(
                        r,
                        Fault::Program(DoorCashError::AlreadyRefunded),
                    )
                    &&& paying ==> refused(r, Fault::Program(DoorCashError::DuplicateWinner))
                },
            }
        }),
{
    let game = old(ctx).game;
    lemma_winner_list(game, accounts@, *program_id, i as nat);
    lemma_winner_list(game, accounts@, *program_id, (i + 1) as nat);
    assert(place_refusal(game, accounts@, *program_id, i) is Some);
    lemma_refusal_stays(game, accounts@, *program_id, (i + 1) as nat, winner_count as nat);
    if winner_shown(game, accounts@, *program_id, i) {
        assert(listed_before(accounts@, i));
    }
}

/// A due settlement among players is refused where the vault lacks part of the pot,
/// where an amount overflows, where there are prizes and the vault they would come
/// out of is not the mode's, and where the streaks are used up; in this order.
pub proof fn law_settle_winners_refuses_pot(
    ctx: &mut SettleWinners,
    accounts: &Vec<RemainingAccount>,
    winner_count: u8,
    program_id: &Address,
    r: Result<(Vec<VaultTransfer>, WinnerSettlement), Fault>,
)
    requires
        call_ensures(settle_winners, (ctx, accounts, winner_count, program_id), r),
        settlement_due(*old(ctx), accounts@, winner_count),
        winners_shown(old(ctx).game, accounts@, *program_id, winner_count as int),
    ensures
        ({
            let before = *old(ctx);
            let pot = before.game.total_pot;
            let carry = before.mode_state.carry_lamports;
            let mode = before.game.mode;
            let share = carry + (pot - pot * HOUSE_EDGE_BPS / BASIS_POINTS as int);
            let held = before.game_vault.lamports >= pot;
            let divided = dividable(pot, before.game_vault.lamports, carry);
            let found = divided && (share < winner_count || vault_of_mode(mode) is Some);
            let own = found && (share < winner_count || is_vault_of_mode(before.mode_vault, mode));
            &&& refused(r, Fault::Program(DoorCashError::InsufficientVaultFunds)) <==> !held
            &&& refused(r, Fault::Program(DoorCashError::ArithmeticOverflow)) <==> (held
                && !divided) || (own && before.mode_state.active_streak_id == u64::MAX)
            &&& refused(r, Fault::NoProgramAddress) <==> divided && !found
            &&& refused(r, Fault::Program(DoorCashError::ModeMismatch)) <==> found && !own
        }),
{
    let before = *old(ctx);
    lemma_winner_list(before.game, accounts@, *program_id, winner_count as nat);
    assert(mode_vault_found(before.game.mode) == vault_of_mode(before.game.mode));
    lemma_share(settled_split(before).distributable, winner_count);
}

/// A settlement with winners gives the house its part of the pot, each winner the
/// same share of the rest of the pot and of the carry, as large as whole lamports
/// allow, and carries over what does not divide. The game is complete and won, and
/// the mode starts a new streak without eligible entries or refund round.
pub proof fn law_settle_winners_settles(
    ctx: &mut SettleWinners,
    accounts: &Vec<RemainingAccount>,
    winner_count: u8,
    program_id: &Address,
    r: Result<(Vec<VaultTransfer>, WinnerSettlement), Fault>,
)
    requires
        call_ensures(settle_winners, (ctx, accounts, winner_count, program_id), r),
        r is Ok,
    ensures
        ({
            let before = *old(ctx);
            let game = final(ctx).game;
            let state = final(ctx).mode_state;
            let event = r->Ok_0.1;
            let share = before.mode_state.carry_lamports + before.game.total_pot - game.house_cut;
            &&& is_cut(before.game.total_pot, game.house_cut as int)
            &&& winner_count * game.prize_each <= share < winner_count * (game.prize_each + 1)
            &&& game.carry_out == share - winner_count * game.prize_each
            &&& game.carry_in == before.mode_state.carry_lamports
            &&& game == (Game {
                prize_each: game.prize_each,
                house_cut: game.house_cut,
                carry_in: game.carry_in,
                carry_out: game.carry_out,
                refund_pool: 0,
                refund_per_entry: 0,
                refund_round_id: 0,
                settlement_kind: SettlementKind::Winner,
                status: GameStatus::Complete,
                ..before.game
            })
            &&& state.mode == before.mode_state.mode
            &&& state.active_streak_id == before.mode_state.active_streak_id + 1
            &&& state.carry_lamports == game.carry_out
            &&& state.eligible_entry_count == 0
            &&& state.open_refund_round_id == before.mode_state.open_refund_round_id
            &&& state.refund_per_entry_lamports == 0
            &&& state.refund_remainder_lamports == 0
            &&& !state.refund_round_open
            &&& state.refund_paid_entry_count == 0
            &&& *final(ctx) == (SettleWinners { game, mode_state: state, ..before })
            &&& event.game_id == before.game.game_id
            &&& event.winner_count == winner_count
            &&& event.prize_each == game.prize_each
            &&& event.house_cut == game.house_cut
            &&& event.carry_in == game.carry_in
            &&& event.carry_out == game.carry_out
        }),
{
    lemma_share(settled_split(*old(ctx)).distributable, winner_count);
}

/// A settlement with winners moves, in this order, the dust and the house's cut
/// from the game's vault to the house, the rest of the pot from there to the vault
/// of the mode, and the prize from there to each winner; nothing else. What would
/// move no lamports is left out, and each vault signs with its own seeds.
pub proof fn law_settle_winners_sends(
    ctx: &mut SettleWinners,
    accounts: &Vec<RemainingAccount>,
    winner_count: u8,
    program_id: &Address,
    r: Result<(Vec<VaultTransfer>, WinnerSettlement), Fault>,
)
    requires
        call_ensures(settle_winners, (ctx, accounts, winner_count, program_id), r),
        r is Ok,
    ensures
        ({
            let before = *old(ctx);
            let pot = before.game.total_pot;
            let from = before.game_vault.key;
            let house = before.house_wallet;
            let cut = final(ctx).game.house_cut;
            let prize = final(ctx).game.prize_each;
            let seeds = game_seeds(before.game.game_id@, before.game.vault_bump);
            let mode = before.game.mode;
            records(r->Ok_0.0@) == moves(from, house, before.game_vault.lamports - pot, seeds)
                + moves(from, house, cut as int, seeds) + moves(
                from,
                before.mode_vault,
                pot - cut,
                seeds,
            ) + Seq::new(
                if prize == 0 {
                    0
                } else {
                    winner_count as nat
                },
                |i: int|
                    (
                        Transfer {
                            from: before.mode_vault,
                            to: accounts@[2 * i].key,
                            lamports: prize,
                        },
                        mode_seeds(mode, vault_of_mode(mode)->Some_0.1),
                    ),
            )
        }),
{
    let before = *old(ctx);
    let pot = before.game.total_pot;
    let from = before.game_vault.key;
    let house = before.house_wallet;
    let cut = final(ctx).game.house_cut;
    let prize = final(ctx).game.prize_each;
    let seeds = game_seeds(before.game.game_id@, before.game.vault_bump);
    let mode = before.game.mode;
    let bump = vault_of_mode(mode)->Some_0.1;
    let sent = records(r->Ok_0.0@);
    let expected = moves(from, house, before.game_vault.lamports - pot, seeds) + moves(
        from,
        house,
        cut as int,
        seeds,
    ) + moves(from, before.mode_vault, pot - cut, seeds) + Seq::new(
        if prize == 0 {
            0
        } else {
            winner_count as nat
        },
        |i: int|
            (
                Transfer { from: before.mode_vault, to: accounts@[2 * i].key, lamports: prize },
                mode_seeds(mode, bump),
            ),
    );
    assert(mode_vault_found(mode) == vault_of_mode(mode));
    assert(mode_vault_signer(mode, bump) =~= mode_seeds(mode, bump));
    lemma_records(r->Ok_0.0@);
    lemma_share(settled_split(before).distributable, winner_count);
    assert(sent =~= expected);
}

/// A refund round is opened exactly by the authority of an active game whose seed
/// has been revealed, for its own house wallet and mode, while none is open, for at
/// least one eligible entry, where the pot can be divided and the rounds are not
/// used up. What is wrong is named in this order.
pub proof fn law_open_accepts(
    ctx: &mut OpenNoWinnerSettlement,
    r: Result<(Vec<VaultTransfer>, NoWinnerSettlementOpened), DoorCashError>,
)
    requires
        call_ensures(open_no_winner_settlement, (ctx,), r),
    ensures
        ({
            let before = *old(ctx);
            let game = before.game;
            let state = before.mode_state;
            let asked = game.authority == before.authority;
            let house = asked && game.house_wallet == before.house_wallet;
            let active = house && game.status is Active;
            let revealed = active && game.seed_revealed;
            let idle = revealed && !state.refund_round_open;
            let matching = idle && state.mode == game.mode;
            let eligible = matching && state.eligible_entry_count > 0;
            let held = eligible && before.game_vault.lamports >= game.total_pot;
            let divided = held && dividable(
                game.total_pot,
                before.game_vault.lamports,
                state.carry_lamports,
            );
            &&& r is Ok <==> divided && state.open_refund_round_id < u64::MAX
            &&& refused(r, DoorCashError::Unauthorized) <==> !asked
            &&& refused(r, DoorCashError::HouseWalletMismatch) <==> asked && !house
            &&& refused(r, DoorCashError::InvalidGameStatus) <==> house && !active
            &&& refused(r, DoorCashError::SeedNotRevealed) <==> active && !revealed
            &&& refused(r, DoorCashError::ModeRefundRoundOpen) <==> revealed && !idle
            &&& refused(r, DoorCashError::ModeMismatch) <==> idle && !matching
            &&& refused(r, DoorCashError::NoEligibleRefundEntries) <==> matching && !eligible
            &&& refused(r, DoorCashError::InsufficientVaultFunds) <==> eligible && !held
            &&& refused(r, DoorCashError::ArithmeticOverflow) <==> held && !(divided
                && state.open_refund_round_id < u64::MAX)
            &&& r is Err ==> *final(ctx) == before
        }),
{
}

/// The opening of a refund round gives the house its part of the pot; half of the
/// rest of the pot and of the carry, rounded down, is refunded in equal parts, as
/// large as whole lamports allow, to the eligible entries, and the rest is carried
/// over. The round gets the next number, and nobody has been paid in it.
pub proof fn law_open_opens(
    ctx: &mut OpenNoWinnerSettlement,
    r: Result<(Vec<VaultTransfer>, NoWinnerSettlementOpened), DoorCashError>,
)
    requires
        call_ensures(open_no_winner_settlement, (ctx,), r),
        r is Ok,
    ensures
        ({
            let before = *old(ctx);
            let game = final(ctx).game;
            let state = final(ctx).mode_state;
            let event = r->Ok_0.1;
            let entries = before.mode_state.eligible_entry_count;
            let share = before.mode_state.carry_lamports + before.game.total_pot - game.house_cut;
            let paid = entries * game.refund_per_entry;
            &&& is_cut(before.game.total_pot, game.house_cut as int)
            &&& game.carry_in == before.mode_state.carry_lamports
            &&& 2 * game.refund_pool <= share <= 2 * game.refund_pool + 1
            &&& paid <= game.refund_pool < entries * (game.refund_per_entry + 1)
            &&& game.carry_out == share - paid
            &&& game.refund_round_id == before.mode_state.open_refund_round_id + 1
            &&& game == (Game {
                house_cut: game.house_cut,
                carry_in: game.carry_in,
                carry_out: game.carry_out,
                refund_pool: game.refund_pool,
                refund_per_entry: game.refund_per_entry,
                refund_round_id: game.refund_round_id,
                prize_each: 0,
                settlement_kind: SettlementKind::NoWinner,
                status: GameStatus::Settling,
                ..before.game
            })
            &&& state.mode == before.mode_state.mode
            &&& state.active_streak_id == before.mode_state.active_streak_id
            &&& state.carry_lamports == game.carry_out
            &&& state.eligible_entry_count == entries
            &&& state.open_refund_round_id == game.refund_round_id
            &&& state.refund_per_entry_lamports == game.refund_per_entry
            &&& state.refund_remainder_lamports == game.refund_pool - paid
            &&& state.refund_round_open
            &&& state.refund_paid_entry_count == 0
            &&& *final(ctx) == (OpenNoWinnerSettlement { game, mode_state: state, ..before })
            &&& event.game_id == before.game.game_id
            &&& event.refund_round_id == game.refund_round_id
            &&& event.house_cut == game.house_cut
            &&& event.carry_in == game.carry_in
            &&& event.refund_pool == game.refund_pool
            &&& event.carry_out == game.carry_out
            &&& event.refund_per_entry == game.refund_per_entry
            &&& event.eligible_entry_count == entries
        }),
{
    let before = *old(ctx);
    let entries = before.mode_state.eligible_entry_count;
    let pool = opened_split(before).distributable / 2;
    lemma_quotient(pool, entries);
    let each = pool / entries;
    assert(entries * each == each * entries) by (nonlinear_arith);
    assert(entries * (each + 1) == entries * each + entries) by (nonlinear_arith);
    assert(opened_plan(before).refund_pool == pool);
}

/// The opening of a refund round moves, in this order, the dust and the house's cut
/// from the game's vault to the house and the rest of the pot from there to the
/// vault of the mode; nothing else. What would move no lamports is left out.
pub proof fn law_open_sends(
    ctx: &mut OpenNoWinnerSettlement,
    r: Result<(Vec<VaultTransfer>, NoWinnerSettlementOpened), DoorCashError>,
)
    requires
        call_ensures(open_no_winner_settlement, (ctx,), r),
        r is Ok,
    ensures
        ({
            let before = *old(ctx);
            let pot = before.game.total_pot;
            let from = before.game_vault.key;
            let house = before.house_wallet;
            let cut = final(ctx).game.house_cut;
            let seeds = game_seeds(before.game.game_id@, before.game.vault_bump);
            records(r->Ok_0.0@) == moves(from, house, before.game_vault.lamports - pot, seeds)
                + moves(from, house, cut as int, seeds) + moves(
                from,
                before.mode_vault,
                pot - cut,
                seeds,
            )
        }),
{
    let before = *old(ctx);
    let pot = before.game.total_pot;
    let from = before.game_vault.key;
    let house = before.house_wallet;
    let cut = final(ctx).game.house_cut;
    let seeds = game_seeds(before.game.game_id@, before.game.vault_bump);
    lemma_records(r->Ok_0.0@);
    assert(records(r->Ok_0.0@) =~= moves(from, house, before.game_vault.lamports - pot, seeds)
        + moves(from, house, cut as int, seeds) + moves(
        from,
        before.mode_vault,
        pot - cut,
        seeds,
    ));
}

/// Once an entry of a game that had not been counted has been registered, the game
/// can be settled without a winner: however many players it has, the opening of the
/// refund round asks for no more than a revealed seed and a vault that holds the
/// pot.
pub proof fn law_registered_game_can_be_opened(
    register: &mut RegisterNoWinnerEntries,
    list: &mut Vec<RemainingAccount>,
    registered: Result<(), Fault>,
    open: &mut OpenNoWinnerSettlement,
    r: Result<(Vec<VaultTransfer>, NoWinnerSettlementOpened), DoorCashError>,
)
    requires
        call_ensures(register_no_winner_entries, (register, list), registered),
        registered is Ok,
        coherent(old(list)@),
        old(list)@.len() > 0,
        old(list)@[0].data is Entry,
        old(list)@[0].data->Entry_0.merged_streak_id != old(register).game.streak_id,
        call_ensures(open_no_winner_settlement, (open,), r),
        old(open).authority == old(register).authority,
        old(open).game == (Game {
            seed: old(open).game.seed,
            seed_revealed: true,
            ..old(register).game
        }),
        old(open).house_wallet == old(register).game.house_wallet,
        old(open).mode_state == final(register).mode_state,
        dividable(
            old(register).game.total_pot,
            old(open).game_vault.lamports,
            old(register).mode_state.carry_lamports,
        ),
        old(register).mode_state.open_refund_round_id < u64::MAX,
    ensures
        r is Ok,
{
    let accounts = old(list)@;
    let counts = newly_merged(accounts, old(register).game.streak_id);
    law_registering_amounts(*old(register), accounts);
    assert(counts(0));
    lemma_tally_counts(counts, 0, accounts.len() / 2);
    law_open_accepts(open, r);
}

/// A refund round is closed exactly by the authority of the game that it was opened
/// for, under its number, once no fewer entries have been paid than are eligible.
/// What is wrong is named in this order. The game is complete, and the mode keeps
/// its carry, its streak and its eligible entries.
pub proof fn law_close(
    ctx: &mut CloseNoWinnerSettlement,
    refund_round_id: u64,
    r: Result<NoWinnerSettlementClosed, DoorCashError>,
)
    requires
        call_ensures(close_no_winner_settlement, (ctx, refund_round_id), r),
    ensures
        ({
            let before = *old(ctx);
            let game = before.game;
            let state = before.mode_state;
            let after = final(ctx).mode_state;
            let asked = game.authority == before.authority;
            let settling = asked && game.status is Settling;
            let open = settling && state.refund_round_open;
            let current = open && state.open_refund_round_id == refund_round_id
                && game.refund_round_id == refund_round_id;
            let paid = current && state.refund_paid_entry_count >= state.eligible_entry_count;
            &&& r is Ok <==> paid
            &&& refused(r, DoorCashError::Unauthorized) <==> !asked
            &&& refused(r, DoorCashError::InvalidGameStatus) <==> asked && !settling
            &&& refused(r, DoorCashError::RefundRoundNotOpen) <==> settling && !open
            &&& refused(r, DoorCashError::RefundRoundMismatch) <==> open && !current
            &&& refused(r, DoorCashError::RefundRoundIncomplete) <==> current && !paid
            &&& r is Err ==> *final(ctx) == before
            &&& r matches Ok(event) ==> {
                &&& final(ctx).game == (Game { status: GameStatus::Complete, ..game })
                &&& after.mode == state.mode
                &&& after.active_streak_id == state.active_streak_id
                &&& after.carry_lamports == state.carry_lamports
                &&& after.eligible_entry_count == state.eligible_entry_count
                &&& after.open_refund_round_id == state.open_refund_round_id
                &&& after.refund_per_entry_lamports == 0
                &&& after.refund_remainder_lamports == 0
                &&& !after.refund_round_open
                &&& after.refund_paid_entry_count == 0
                &&& final(ctx).authority == before.authority
                &&& event.game_id == game.game_id
                &&& event.refund_round_id == refund_round_id
                &&& event.carry_out == state.carry_lamports
            }
        }),
{
}

} // verus!
