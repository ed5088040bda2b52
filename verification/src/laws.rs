//! What holds across the instructions.

use crate::accounts::{
    AdminGameVaultRecovery, AdminModeVaultRecovery, AuthorityAction, CloseNoWinnerSettlement,
    EnterGame, InitializeGame, OpenNoWinnerSettlement, PayNoWinnerBatch, RefundPlayer,
    RegisterNoWinnerEntries, RemainingAccount, RepairNoWinnerStreakEntries, SettleWinners,
    StartGame, Vault,
};
use crate::address::{entry_seeds, program_address, Address};
use crate::error::{DoorCashError, Fault};
use crate::lifecycle::{
    cancel_refusal, enter_post, enter_refusal, game_revealed, initialize_refusal, known_participant,
    mode_in_use, new_game, reveal_refusal, start_refusal, GameConfig,
};
use crate::pot::{lemma_quotient, vault_clearing, PotSplit};
use crate::recovery::{
    dust, game_emergency_refusal, game_recovery_refusal, mode_emergency_outcome, mode_swept,
    refund_dust, refund_refusal, refund_transfers,
};
use crate::refund_round::{
    close_refusal, mode_closed, open_post, open_refusal, opened_split, pay_outcome,
};
use crate::registry::{register_outcome, repair_outcome};
use crate::seed::sha256;
use crate::state::{
    Game, GameStatus, ModeParticipant, ModeState, PlayerEntry, EMERGENCY_RECOVERY_DELAY_SLOTS,
};
use crate::transfer::{
    bump_of, game_vault_transfer, lemma_net_concat, lemma_net_listed, listed, mode_vault_found, net,
    SignedTransfer,
};
use crate::winners::{
    list_refusal, listed_before, payouts, place_refusal, settle_post, settle_refusal,
    settle_transfers, settled_split,
};
use vstd::prelude::*;

verus! {

/// A game may stay as it is, and what may become of it in two steps may become
/// of it.
pub proof fn law_status_order(a: GameStatus, b: GameStatus, c: GameStatus)
    ensures
        a.may_become(a),
        a.may_become(b) && b.may_become(c) ==> a.may_become(c),
{
}

/// A game that is complete or cancelled stays so, and a game that has been
/// started takes no more players.
pub proof fn law_no_way_back(a: GameStatus, b: GameStatus)
    requires
        a.may_become(b),
    ensures
        a is Complete ==> b is Complete,
        a is Cancelled ==> b is Cancelled,
        a.started() ==> !b.accepting(),
{
}

/// What an account gains, if it is the one that gains.
pub open spec fn gain(gains: bool, lamports: int) -> int {
    if gains {
        lamports
    } else {
        0
    }
}

proof fn lemma_clearing(
    game: Game,
    game_vault: Address,
    mode_vault: Address,
    house: Address,
    split: PotSplit,
    account: Address,
)
    ensures
        net(vault_clearing(game, game_vault, mode_vault, house, split), account) == gain(
            account == house,
            split.vault_dust + split.house_cut,
        ) + gain(account == mode_vault, split.ante_after_house as int) - gain(
            account == game_vault,
            split.vault_dust + split.house_cut + split.ante_after_house,
        ),
{
    let id = game.game_id@;
    let bump = game.vault_bump;
    let a = game_vault_transfer(id, bump, game_vault, house, split.vault_dust);
    let b = game_vault_transfer(id, bump, game_vault, house, split.house_cut);
    let c = game_vault_transfer(id, bump, game_vault, mode_vault, split.ante_after_house);
    lemma_net_concat(listed(a) + listed(b), listed(c), account);
    lemma_net_concat(listed(a), listed(b), account);
    lemma_net_listed(a, account);
    lemma_net_listed(b, account);
    lemma_net_listed(c, account);
}

/// How many of the first `n` winners have an address.
spec fn places(accounts: Seq<RemainingAccount>, account: Address, n: nat) -> int
    decreases n,
{
    if n == 0 {
        0
    } else {
        places(accounts, account, (n - 1) as nat) + (if accounts[2 * (n - 1)].key == account {
            1int
        } else {
            0
        })
    }
}

proof fn lemma_payouts(
    mode: u8,
    bump: u8,
    mode_vault: Address,
    accounts: Seq<RemainingAccount>,
    n: nat,
    prize: u64,
    account: Address,
)
    ensures
        net(payouts(mode, bump, mode_vault, accounts, n, prize), account) == prize * places(
            accounts,
            account,
            n,
        ) - (if account == mode_vault {
            prize * n
        } else {
            0
        }),
    decreases n,
{
    let all = payouts(mode, bump, mode_vault, accounts, n, prize);
    if prize == 0 {
        assert(net(all, account) == 0);
    } else if n == 0 {
        assert(all =~= seq![]);
    } else {
        let m = (n - 1) as nat;
        lemma_payouts(mode, bump, mode_vault, accounts, m, prize, account);
        assert(all.drop_last() =~= payouts(mode, bump, mode_vault, accounts, m, prize));
        let p = places(accounts, account, m);
        assert(prize * (p + 1) == prize * p + prize) by (nonlinear_arith);
        assert(prize * n == prize * m + prize) by (nonlinear_arith)
            requires
                n == m + 1,
        ;
    }
}

proof fn lemma_places_none(accounts: Seq<RemainingAccount>, account: Address, n: nat)
    requires
        forall|i: int| 0 <= i < n ==> (#[trigger] accounts[2 * i]).key != account,
    ensures
        places(accounts, account, n) == 0,
    decreases n,
{
    if n > 0 {
        lemma_places_none(accounts, account, (n - 1) as nat);
        assert(accounts[2 * (n - 1)].key != account);
    }
}

proof fn lemma_places_one(accounts: Seq<RemainingAccount>, i: int, n: nat)
    requires
        0 <= i < n,
        forall|j: int|
            0 <= j < n && j != i ==> (#[trigger] accounts[2 * j]).key != accounts[2 * i].key,
    ensures
        places(accounts, accounts[2 * i].key, n) == 1,
    decreases n,
{
    let key = accounts[2 * i].key;
    if i == n - 1 {
        lemma_places_none(accounts, key, (n - 1) as nat);
    } else {
        lemma_places_one(accounts, i, (n - 1) as nat);
        assert(accounts[2 * (n - 1)].key != key);
    }
}

/// No wallet stands twice in a winner list that is not refused.
pub proof fn law_winners_distinct(
    game: Game,
    accounts: Seq<RemainingAccount>,
    program_id: Address,
    n: nat,
)
    requires
        list_refusal(game, accounts, program_id, n) is None,
    ensures
        forall|i: int, j: int|
            0 <= i < n && 0 <= j < n && i != j ==> (#[trigger] accounts[2 * i]).key != (
            #[trigger] accounts[2 * j]).key,
    decreases n,
{
    if n > 0 {
        law_winners_distinct(game, accounts, program_id, (n - 1) as nat);
        let last = n - 1;
        assert(place_refusal(game, accounts, program_id, last) is None);
        assert(!listed_before(accounts, last));
        assert forall|i: int, j: int|
            0 <= i < n && 0 <= j < n && i != j implies (#[trigger] accounts[2 * i]).key != (
        #[trigger] accounts[2 * j]).key by {
            if i == last {
                assert(accounts[2 * j].key != accounts[2 * last].key);
            } else if j == last {
                assert(accounts[2 * i].key != accounts[2 * last].key);
            }
        }
    }
}

/// Every winner of a list that is not refused has entered the game and has not
/// been refunded, as the program's own entry account shows.
pub proof fn law_winners_are_players(
    game: Game,
    accounts: Seq<RemainingAccount>,
    program_id: Address,
    n: nat,
)
    requires
        list_refusal(game, accounts, program_id, n) is None,
    ensures
        forall|i: int|
            0 <= i < n ==> {
                let winner = (#[trigger] accounts[2 * i]).key;
                let account = accounts[2 * i + 1];
                let found = program_address(
                    entry_seeds(game.game_id@, winner),
                    program_id.bytes@,
                );
                &&& found is Some && found->Some_0.0 == account.key.bytes@
                &&& account.data is Entry
                &&& account.data->Entry_0.player == winner
                &&& account.data->Entry_0.game_id@ == game.game_id@
                &&& account.data->Entry_0.mode == game.mode
                &&& !account.data->Entry_0.refunded
            },
    decreases n,
{
    if n > 0 {
        law_winners_are_players(game, accounts, program_id, (n - 1) as nat);
        assert(place_refusal(game, accounts, program_id, n - 1) is None);
    }
}

/// A game that has been won is over: it takes no player, is not started,
/// settled, cancelled or refunded again.
pub proof fn law_settled_once(
    ctx: SettleWinners,
    winner_count: u8,
    accounts: Seq<RemainingAccount>,
    again: u8,
    program_id: Address,
    entering: EnterGame,
    starting: StartGame,
    acting: AuthorityAction,
    opening: OpenNoWinnerSettlement,
    refunding: RefundPlayer,
)
    ensures
        ({
            let over = settle_post(ctx, winner_count);
            &&& settle_refusal(over, accounts, again, program_id) is Some
            &&& entering.game == over.game ==> enter_refusal(entering) is Some
            &&& starting.game == over.game ==> start_refusal(starting) is Some
            &&& acting.game == over.game ==> cancel_refusal(acting) is Some
            &&& opening.game == over.game ==> open_refusal(opening) is Some
            &&& refunding.game == over.game ==> refund_refusal(refunding) is Some
        }),
{
}

/// An address is that of one of the first `n` winners of a list.
pub open spec fn is_winner(accounts: Seq<RemainingAccount>, account: Address, n: nat) -> bool {
    exists|i: int| 0 <= i < n && (#[trigger] accounts[2 * i]).key == account
}

/// A settlement with winners hands out exactly what was there: the vault of the
/// game and the carry become the dust and the cut of the house, the prizes, and
/// a carry of less than one lamport for each winner.
pub proof fn law_winner_settlement_conserves(
    ctx: SettleWinners,
    accounts: Seq<RemainingAccount>,
    winner_count: u8,
    program_id: Address,
)
    requires
        settle_refusal(ctx, accounts, winner_count, program_id) is None,
    ensures
        ({
            let split = settled_split(ctx);
            let post = settle_post(ctx, winner_count);
            &&& split.vault_dust + post.game.house_cut + winner_count * post.game.prize_each
                + post.game.carry_out == ctx.game_vault.lamports + ctx.mode_state.carry_lamports
            &&& post.game.carry_out < winner_count
            &&& post.mode_state.carry_lamports == post.game.carry_out
        }),
{
    let split = settled_split(ctx);
    assert(split.adds_up(ctx.game.total_pot, ctx.game_vault.lamports));
    lemma_quotient(split.distributable, winner_count as u64);
    let prize = split.distributable / winner_count as u64;
    assert(winner_count * prize == prize * winner_count) by (nonlinear_arith);
}

/// What the transfers of a settlement with winners amount to for any account:
/// the house gains the dust and its cut, the vault of the mode the rest of the
/// pot, each winner the prize; the vault of the game loses all that it held, the
/// vault of the mode all the prizes. An account that is several of these gains
/// and loses for each.
pub proof fn law_winner_settlement_balances(
    ctx: SettleWinners,
    accounts: Seq<RemainingAccount>,
    winner_count: u8,
    program_id: Address,
    account: Address,
)
    requires
        settle_refusal(ctx, accounts, winner_count, program_id) is None,
    ensures
        ({
            let split = settled_split(ctx);
            let post = settle_post(ctx, winner_count);
            net(settle_transfers(ctx, accounts, winner_count), account) == gain(
                account == ctx.house_wallet,
                split.vault_dust + post.game.house_cut,
            ) + gain(account == ctx.mode_vault, ctx.game.total_pot - post.game.house_cut) + gain(
                is_winner(accounts, account, winner_count as nat),
                post.game.prize_each as int,
            ) - gain(account == ctx.game_vault.key, ctx.game_vault.lamports as int) - gain(
                account == ctx.mode_vault,
                winner_count * post.game.prize_each,
            )
        }),
{
    let split = settled_split(ctx);
    let n = winner_count as nat;
    let prize = split.distributable / winner_count as u64;
    let bump = bump_of(mode_vault_found(ctx.game.mode), ctx.mode_vault)->Ok_0;
    let first = vault_clearing(
        ctx.game,
        ctx.game_vault.key,
        ctx.mode_vault,
        ctx.house_wallet,
        split,
    );
    let second = payouts(ctx.game.mode, bump, ctx.mode_vault, accounts, n, prize);
    assert(split.adds_up(ctx.game.total_pot, ctx.game_vault.lamports));
    lemma_net_concat(first, second, account);
    lemma_clearing(
        ctx.game,
        ctx.game_vault.key,
        ctx.mode_vault,
        ctx.house_wallet,
        split,
        account,
    );
    lemma_payouts(ctx.game.mode, bump, ctx.mode_vault, accounts, n, prize, account);
    law_winners_distinct(ctx.game, accounts, program_id, n);
    if is_winner(accounts, account, n) {
        let i = choose|i: int| 0 <= i < n && (#[trigger] accounts[2 * i]).key == account;
        lemma_places_one(accounts, i, n);
        assert(prize * 1 == prize);
    } else {
        lemma_places_none(accounts, account, n);
    }
    assert(prize * n == winner_count * prize) by (nonlinear_arith)
        requires
            n == winner_count,
    ;
}

/// The transfers of a settlement with winners empty the game's vault, pay each
/// winner the prize and the house its dust and cut, and change the vault of the
/// mode by as much as the carry changes. The house may be among the winners: it
/// then gains the prize as well.
pub proof fn law_winner_settlement_moves(
    ctx: SettleWinners,
    accounts: Seq<RemainingAccount>,
    winner_count: u8,
    program_id: Address,
)
    requires
        settle_refusal(ctx, accounts, winner_count, program_id) is None,
    ensures
        ({
            let moved = settle_transfers(ctx, accounts, winner_count);
            let post = settle_post(ctx, winner_count);
            let n = winner_count as nat;
            let to_house = settled_split(ctx).vault_dust + post.game.house_cut;
            let game_vault = ctx.game_vault.key;
            let mode_vault = ctx.mode_vault;
            let house = ctx.house_wallet;
            &&& game_vault != mode_vault && game_vault != house && !is_winner(
                accounts,
                game_vault,
                n,
            ) ==> net(moved, game_vault) == -ctx.game_vault.lamports
            &&& mode_vault != game_vault && mode_vault != house && !is_winner(
                accounts,
                mode_vault,
                n,
            ) ==> net(moved, mode_vault) == post.mode_state.carry_lamports
                - ctx.mode_state.carry_lamports
            &&& house != game_vault && house != mode_vault ==> net(moved, house) == to_house + gain(
                is_winner(accounts, house, n),
                post.game.prize_each as int,
            )
            &&& forall|i: int|
                0 <= i < n && (#[trigger] accounts[2 * i]).key != game_vault && accounts[2 * i].key
                    != mode_vault ==> net(moved, accounts[2 * i].key) == post.game.prize_each
                    + gain(accounts[2 * i].key == house, to_house)
        }),
{
    let moved = settle_transfers(ctx, accounts, winner_count);
    let post = settle_post(ctx, winner_count);
    let n = winner_count as nat;
    let to_house = settled_split(ctx).vault_dust + post.game.house_cut;
    law_winner_settlement_conserves(ctx, accounts, winner_count, program_id);
    assert(settled_split(ctx).adds_up(ctx.game.total_pot, ctx.game_vault.lamports));
    law_winner_settlement_balances(ctx, accounts, winner_count, program_id, ctx.game_vault.key);
    law_winner_settlement_balances(ctx, accounts, winner_count, program_id, ctx.mode_vault);
    law_winner_settlement_balances(ctx, accounts, winner_count, program_id, ctx.house_wallet);
    assert forall|i: int|
        0 <= i < n && (#[trigger] accounts[2 * i]).key != ctx.game_vault.key && accounts[2 * i].key
            != ctx.mode_vault implies net(moved, accounts[2 * i].key) == post.game.prize_each + gain(
        accounts[2 * i].key == ctx.house_wallet,
        to_house,
    ) by {
        let key = accounts[2 * i].key;
        law_winner_settlement_balances(ctx, accounts, winner_count, program_id, key);
        assert(is_winner(accounts, key, n));
    }
}

/// Dust in the vault of a game goes to the house alone: `more` lamports that
/// somebody else has put there change neither the prizes, nor the house's cut,
/// nor the carry, nor what any account but the house and that vault gains.
pub proof fn law_dust_goes_to_the_house(
    ctx: SettleWinners,
    more: u64,
    accounts: Seq<RemainingAccount>,
    winner_count: u8,
    program_id: Address,
    account: Address,
)
    requires
        settle_refusal(ctx, accounts, winner_count, program_id) is None,
        ctx.game_vault.lamports + more <= u64::MAX,
    ensures
        ({
            let richer = SettleWinners {
                game_vault: Vault {
                    lamports: (ctx.game_vault.lamports + more) as u64,
                    ..ctx.game_vault
                },
                ..ctx
            };
            &&& settle_refusal(richer, accounts, winner_count, program_id) is None
            &&& settle_post(richer, winner_count).game == settle_post(ctx, winner_count).game
            &&& settle_post(richer, winner_count).mode_state == settle_post(
                ctx,
                winner_count,
            ).mode_state
            &&& net(settle_transfers(richer, accounts, winner_count), account) == net(
                settle_transfers(ctx, accounts, winner_count),
                account,
            ) + gain(account == ctx.house_wallet, more as int) - gain(
                account == ctx.game_vault.key,
                more as int,
            )
        }),
{
    let richer = SettleWinners {
        game_vault: Vault { lamports: (ctx.game_vault.lamports + more) as u64, ..ctx.game_vault },
        ..ctx
    };
    assert(settled_split(richer).vault_dust == settled_split(ctx).vault_dust + more);
    assert(settled_split(richer).house_cut == settled_split(ctx).house_cut);
    assert(settled_split(richer).distributable == settled_split(ctx).distributable);
    law_winner_settlement_balances(ctx, accounts, winner_count, program_id, account);
    law_winner_settlement_balances(richer, accounts, winner_count, program_id, account);
}

/// The opening of a refund round accounts for exactly what was there: the vault
/// of the game and the carry become the dust and the cut of the house, the
/// refunds of all eligible entries, and the new carry. The refunds come out of
/// half of it.
pub proof fn law_refund_round_conserves(ctx: OpenNoWinnerSettlement)
    requires
        open_refusal(ctx) is None,
    ensures
        ({
            let split = opened_split(ctx);
            let post = open_post(ctx);
            let refunds = post.mode_state.refund_per_entry_lamports
                * post.mode_state.eligible_entry_count;
            &&& split.vault_dust + post.game.house_cut + refunds + post.game.carry_out
                == ctx.game_vault.lamports + ctx.mode_state.carry_lamports
            &&& refunds + post.mode_state.refund_remainder_lamports == post.game.refund_pool
            &&& post.game.refund_pool == split.distributable / 2
            &&& post.mode_state.refund_remainder_lamports < post.mode_state.eligible_entry_count
            &&& post.mode_state.carry_lamports == post.game.carry_out
        }),
{
    let split = opened_split(ctx);
    assert(split.adds_up(ctx.game.total_pot, ctx.game_vault.lamports));
    lemma_quotient(split.distributable / 2, ctx.mode_state.eligible_entry_count);
}

/// The transfers that open a refund round empty the game's vault into the
/// vault of the mode and the house's wallet.
pub proof fn law_refund_round_moves(ctx: OpenNoWinnerSettlement)
    requires
        open_refusal(ctx) is None,
    ensures
        ({
            let split = opened_split(ctx);
            let game_vault = ctx.game_vault.key;
            let mode_vault = ctx.mode_vault;
            let house = ctx.house_wallet;
            let moved = vault_clearing(ctx.game, game_vault, mode_vault, house, split);
            &&& game_vault != mode_vault && game_vault != house ==> net(moved, game_vault)
                == -ctx.game_vault.lamports
            &&& house != game_vault && house != mode_vault ==> net(moved, house)
                == split.vault_dust + split.house_cut
            &&& mode_vault != game_vault && mode_vault != house ==> net(moved, mode_vault)
                == ctx.game.total_pot - split.house_cut
        }),
{
    let split = opened_split(ctx);
    let game_vault = ctx.game_vault.key;
    let mode_vault = ctx.mode_vault;
    let house = ctx.house_wallet;
    assert(split.adds_up(ctx.game.total_pot, ctx.game_vault.lamports));
    lemma_clearing(ctx.game, game_vault, mode_vault, house, split, game_vault);
    lemma_clearing(ctx.game, game_vault, mode_vault, house, split, mode_vault);
    lemma_clearing(ctx.game, game_vault, mode_vault, house, split, house);
}

/// Dust in the vault of a game goes to the house alone when a refund round is
/// opened: `more` lamports that somebody else has put there change neither the
/// refunds, nor the house's cut, nor the carry, nor what any account but the
/// house and that vault gains.
pub proof fn law_dust_goes_to_the_house_without_winner(
    ctx: OpenNoWinnerSettlement,
    more: u64,
    account: Address,
)
    requires
        open_refusal(ctx) is None,
        ctx.game_vault.lamports + more <= u64::MAX,
    ensures
        ({
            let richer = OpenNoWinnerSettlement {
                game_vault: Vault {
                    lamports: (ctx.game_vault.lamports + more) as u64,
                    ..ctx.game_vault
                },
                ..ctx
            };
            let game_vault = ctx.game_vault.key;
            let mode_vault = ctx.mode_vault;
            let house = ctx.house_wallet;
            &&& open_refusal(richer) is None
            &&& open_post(richer).game == open_post(ctx).game
            &&& open_post(richer).mode_state == open_post(ctx).mode_state
            &&& net(
                vault_clearing(ctx.game, game_vault, mode_vault, house, opened_split(richer)),
                account,
            ) == net(
                vault_clearing(ctx.game, game_vault, mode_vault, house, opened_split(ctx)),
                account,
            ) + gain(account == house, more as int) - gain(account == game_vault, more as int)
        }),
{
    let richer = OpenNoWinnerSettlement {
        game_vault: Vault { lamports: (ctx.game_vault.lamports + more) as u64, ..ctx.game_vault },
        ..ctx
    };
    let game_vault = ctx.game_vault.key;
    let mode_vault = ctx.mode_vault;
    let house = ctx.house_wallet;
    assert(opened_split(richer).vault_dust == opened_split(ctx).vault_dust + more);
    assert(opened_split(richer).house_cut == opened_split(ctx).house_cut);
    assert(opened_split(richer).distributable == opened_split(ctx).distributable);
    lemma_clearing(ctx.game, game_vault, mode_vault, house, opened_split(ctx), account);
    lemma_clearing(ctx.game, game_vault, mode_vault, house, opened_split(richer), account);
}

/// A settlement with winners changes the vault of a mode by as much as the carry
/// and as what the vault has to hold: a vault that held that much goes on
/// holding it.
pub proof fn law_winner_settlement_keeps_mode_solvent(
    ctx: SettleWinners,
    accounts: Seq<RemainingAccount>,
    winner_count: u8,
    program_id: Address,
    balance: int,
)
    requires
        settle_refusal(ctx, accounts, winner_count, program_id) is None,
        ctx.mode_vault != ctx.game_vault.key,
        ctx.mode_vault != ctx.house_wallet,
        forall|i: int|
            0 <= i < winner_count ==> (#[trigger] accounts[2 * i]).key != ctx.mode_vault,
    ensures
        ({
            let moved = net(settle_transfers(ctx, accounts, winner_count), ctx.mode_vault);
            let before = ctx.mode_state;
            let after = settle_post(ctx, winner_count).mode_state;
            &&& moved == after.carry_lamports - before.carry_lamports
            &&& balance >= before.carry_lamports ==> balance + moved >= after.carry_lamports
            &&& before.valid() ==> moved == after.obligations() - before.obligations()
        }),
{
    law_winner_settlement_moves(ctx, accounts, winner_count, program_id);
    assert(!is_winner(accounts, ctx.mode_vault, winner_count as nat));
}

/// The opening of a refund round changes the vault of a mode by as much as what
/// the vault has to hold.
pub proof fn law_refund_round_keeps_mode_solvent(ctx: OpenNoWinnerSettlement)
    requires
        ctx.mode_state.valid(),
        open_refusal(ctx) is None,
        ctx.mode_vault != ctx.game_vault.key,
        ctx.mode_vault != ctx.house_wallet,
    ensures
        net(
            vault_clearing(
                ctx.game,
                ctx.game_vault.key,
                ctx.mode_vault,
                ctx.house_wallet,
                opened_split(ctx),
            ),
            ctx.mode_vault,
        ) == open_post(ctx).mode_state.obligations() - ctx.mode_state.obligations(),
{
    law_refund_round_moves(ctx);
    law_refund_round_conserves(ctx);
    assert(ctx.mode_state.obligations() == ctx.mode_state.carry_lamports);
}

/// The closing of a refund round changes nothing of what the vault of a mode
/// has to hold.
pub proof fn law_closing_keeps_mode_solvent(ctx: CloseNoWinnerSettlement, refund_round_id: u64)
    requires
        close_refusal(ctx, refund_round_id) is None,
    ensures
        mode_closed(ctx.mode_state).obligations() == ctx.mode_state.obligations(),
{
    assert(ctx.mode_state.obligations() == ctx.mode_state.carry_lamports);
}

/// Nothing is owed out of the vault of a mode after an emergency sweep.
pub proof fn law_swept_mode_owes_nothing(mode_state: ModeState)
    ensures
        mode_swept(mode_state).obligations() == 0,
{
}

/// A new game takes its first player, who pays the entry fee into an empty pot.
pub proof fn law_new_game_takes_players(
    created: InitializeGame,
    config: GameConfig,
    slot: u64,
    ctx: EnterGame,
    game_id: String,
)
    requires
        initialize_refusal(created, config) is None,
        ctx.game == new_game(created, config, slot),
        ctx.mode_state == mode_in_use(created.mode_state, config.mode),
        ctx.authority == created.authority,
        ctx.mode_participant.wallet.is_unset(),
    ensures
        enter_refusal(ctx) is None,
        enter_post(ctx, game_id, slot).game.total_pot == config.entry_fee_lamports,
        enter_post(ctx, game_id, slot).game.player_count == 1,
{
}

/// Each player who enters raises the pot by what is paid into the vault, so a
/// vault that holds the pot goes on holding it.
pub proof fn law_entering_backs_the_pot(
    ctx: EnterGame,
    game_id: String,
    slot: u64,
    vault_balance: int,
)
    requires
        enter_refusal(ctx) is None,
    ensures
        enter_post(ctx, game_id, slot).game.total_pot == ctx.game.total_pot + ctx.game.entry_fee,
        enter_post(ctx, game_id, slot).game.player_count == ctx.game.player_count + 1,
        vault_balance >= ctx.game.total_pot ==> vault_balance + ctx.game.entry_fee >= enter_post(
            ctx,
            game_id,
            slot,
        ).game.total_pot,
{
}

/// While a refund round is open, its mode starts no game, takes no player,
/// registers no entry and settles nothing.
pub proof fn law_open_round_blocks(
    created: InitializeGame,
    config: GameConfig,
    entering: EnterGame,
    starting: StartGame,
    settling: SettleWinners,
    opening: OpenNoWinnerSettlement,
    registering: RegisterNoWinnerEntries,
    accounts: Seq<RemainingAccount>,
    winner_count: u8,
    program_id: Address,
)
    ensures
        created.mode_state.refund_round_open ==> initialize_refusal(created, config) is Some,
        entering.mode_state.refund_round_open ==> enter_refusal(entering) is Some,
        starting.mode_state.refund_round_open ==> start_refusal(starting) is Some,
        settling.mode_state.refund_round_open ==> settle_refusal(
            settling,
            accounts,
            winner_count,
            program_id,
        ) is Some,
        opening.mode_state.refund_round_open ==> open_refusal(opening) is Some,
        registering.mode_state.refund_round_open ==> register_outcome(registering, accounts) is Err,
{
}

/// Nobody but the authority of a game moves it on.
pub proof fn law_only_the_authority(
    entering: EnterGame,
    starting: StartGame,
    acting: AuthorityAction,
    seed: [u8; 32],
    settling: SettleWinners,
    registering: RegisterNoWinnerEntries,
    opening: OpenNoWinnerSettlement,
    paying: PayNoWinnerBatch,
    repairing: RepairNoWinnerStreakEntries,
    closing: CloseNoWinnerSettlement,
    accounts: Seq<RemainingAccount>,
    winner_count: u8,
    program_id: Address,
    round: u64,
)
    ensures
        entering.game.authority != entering.authority ==> enter_refusal(entering) == Some(
            DoorCashError::Unauthorized,
        ),
        starting.game.authority != starting.authority ==> start_refusal(starting) == Some(
            DoorCashError::Unauthorized,
        ),
        acting.game.authority != acting.authority ==> reveal_refusal(acting, seed) == Some(
            DoorCashError::Unauthorized,
        ) && cancel_refusal(acting) == Some(DoorCashError::Unauthorized),
        settling.game.authority != settling.authority ==> settle_refusal(
            settling,
            accounts,
            winner_count,
            program_id,
        ) == Some(Fault::Program(DoorCashError::Unauthorized)),
        registering.game.authority != registering.authority ==> register_outcome(
            registering,
            accounts,
        ) == Err::<(ModeState, Seq<RemainingAccount>), Fault>(
            Fault::Program(DoorCashError::Unauthorized),
        ),
        opening.game.authority != opening.authority ==> open_refusal(opening) == Some(
            DoorCashError::Unauthorized,
        ),
        paying.game.authority != paying.authority ==> pay_outcome(paying, accounts, round) == Err::<
            (ModeState, Seq<RemainingAccount>, Seq<SignedTransfer>),
            Fault,
        >(Fault::Program(DoorCashError::Unauthorized)),
        repairing.game.authority != repairing.authority ==> repair_outcome(repairing, accounts)
            == Err::<(nat, Seq<RemainingAccount>), Fault>(
            Fault::Program(DoorCashError::Unauthorized),
        ),
        closing.game.authority != closing.authority ==> close_refusal(closing, round) == Some(
            DoorCashError::Unauthorized,
        ),
{
}

/// Nobody but the authority of a game takes money out of the vaults outside a
/// settlement, and then only to the game's house wallet or its players.
pub proof fn law_only_the_authority_recovers(
    refunding: RefundPlayer,
    sweeping: AdminGameVaultRecovery,
    sweeping_mode: AdminModeVaultRecovery,
    mode: u8,
    slot: u64,
)
    ensures
        refund_refusal(refunding) is None ==> refunding.game.authority == refunding.authority
            && refunding.game.house_wallet == refunding.house_wallet
            && refunding.player_entry.player == refunding.player,
        game_recovery_refusal(sweeping) is None ==> sweeping.game.authority == sweeping.authority
            && sweeping.game.house_wallet == sweeping.house_wallet,
        game_emergency_refusal(sweeping, slot) is None ==> game_recovery_refusal(sweeping) is None,
        mode_emergency_outcome(sweeping_mode, mode, slot) is Ok ==> sweeping_mode.game.authority
            == sweeping_mode.authority && sweeping_mode.game.house_wallet
            == sweeping_mode.house_wallet,
{
}

/// A seed is revealed once, and it is the one that the game was committed to.
pub proof fn law_seed_revealed_once(ctx: AuthorityAction, seed: [u8; 32], other: [u8; 32])
    requires
        reveal_refusal(ctx, seed) is None,
    ensures
        sha256(seed@) == ctx.game.seed_hash@,
        reveal_refusal(
            AuthorityAction { game: game_revealed(ctx.game, seed), ..ctx },
            other,
        ) == Some(DoorCashError::SeedAlreadyRevealed),
{
}

/// A game is settled only after the seed that it was committed to has been
/// revealed.
pub proof fn law_settled_with_committed_seed(
    settling: SettleWinners,
    opening: OpenNoWinnerSettlement,
    accounts: Seq<RemainingAccount>,
    winner_count: u8,
    program_id: Address,
)
    ensures
        settling.game.valid() && settle_refusal(settling, accounts, winner_count, program_id)
            is None ==> sha256(settling.game.seed@) == settling.game.seed_hash@,
        opening.game.valid() && open_refusal(opening) is None ==> sha256(opening.game.seed@)
            == opening.game.seed_hash@,
{
}

/// A refund round that has just been opened can be paid and repaired under its
/// number, and under no other.
pub proof fn law_opened_round_is_current(ctx: OpenNoWinnerSettlement, other: u64)
    requires
        open_refusal(ctx) is None,
    ensures
        ({
            let game = open_post(ctx).game;
            let mode_state = open_post(ctx).mode_state;
            let round = game.refund_round_id;
            let paying = PayNoWinnerBatch {
                authority: ctx.authority,
                game,
                mode_state,
                mode_vault: ctx.mode_vault,
            };
            let none = Seq::<RemainingAccount>::empty();
            &&& round == ctx.mode_state.open_refund_round_id + 1
            &&& pay_outcome(paying, none, round) is Ok
            &&& repair_outcome(
                RepairNoWinnerStreakEntries { authority: ctx.authority, game, mode_state },
                none,
            ) is Ok
            &&& other != round ==> pay_outcome(paying, none, other) is Err && close_refusal(
                CloseNoWinnerSettlement { authority: ctx.authority, game, mode_state },
                other,
            ) == Some(DoorCashError::RefundRoundMismatch)
        }),
{
}

/// A refund round gets a number that no earlier one of the mode had, so nobody
/// counts as paid in it when it is opened.
pub proof fn law_new_round_has_paid_nobody(
    ctx: OpenNoWinnerSettlement,
    participant: ModeParticipant,
)
    requires
        open_refusal(ctx) is None,
    ensures
        open_post(ctx).mode_state.open_refund_round_id > ctx.mode_state.open_refund_round_id,
        open_post(ctx).game.refund_round_id == open_post(ctx).mode_state.open_refund_round_id,
        participant.paid_by(ctx.mode_state) ==> participant.last_paid_refund_round_id != open_post(
            ctx,
        ).game.refund_round_id,
        open_post(ctx).mode_state.refund_paid_entry_count == 0,
{
}

/// Nobody has been paid in a refund round that the mode has not had yet: a
/// participant of a first entry has been paid in none, one that is known is kept,
/// and the number of the mode's last round never sinks below one that was paid.
pub proof fn law_nobody_is_paid_ahead(
    participant: ModeParticipant,
    player: Address,
    mode: u8,
    mode_state: ModeState,
    entering: EnterGame,
    game_id: String,
    slot: u64,
    settling: SettleWinners,
    accounts: Seq<RemainingAccount>,
    winner_count: u8,
    program_id: Address,
    opening: OpenNoWinnerSettlement,
)
    ensures
        participant.wallet.is_unset() ==> known_participant(
            participant,
            player,
            mode,
        ).last_paid_refund_round_id == 0,
        participant.paid_by(mode_state) ==> {
            &&& known_participant(participant, player, mode).paid_by(mode_state)
            &&& participant.paid_by(mode_in_use(mode_state, mode))
            &&& participant.paid_by(mode_closed(mode_state))
            &&& participant.paid_by(mode_swept(mode_state))
        },
        entering.mode_participant.paid_by(entering.mode_state) ==> {
            let after = enter_post(entering, game_id, slot);
            after.mode_participant.paid_by(after.mode_state)
        },
        settle_refusal(settling, accounts, winner_count, program_id) is None
            && participant.paid_by(settling.mode_state) ==> participant.paid_by(
            settle_post(settling, winner_count).mode_state,
        ),
        open_refusal(opening) is None && participant.paid_by(opening.mode_state)
            ==> participant.paid_by(open_post(opening).mode_state),
{
}

/// The numbers of a mode's streaks and refund rounds never go back.
pub proof fn law_counters_never_go_back(
    mode_state: ModeState,
    mode: u8,
    settling: SettleWinners,
    accounts: Seq<RemainingAccount>,
    winner_count: u8,
    program_id: Address,
    sweeping: AdminModeVaultRecovery,
    slot: u64,
)
    ensures
        mode_in_use(mode_state, mode).active_streak_id >= mode_state.active_streak_id,
        mode_in_use(mode_state, mode).open_refund_round_id == mode_state.open_refund_round_id,
        mode_closed(mode_state).active_streak_id == mode_state.active_streak_id,
        mode_closed(mode_state).open_refund_round_id == mode_state.open_refund_round_id,
        settle_refusal(settling, accounts, winner_count, program_id) is None ==> {
            let after = settle_post(settling, winner_count).mode_state;
            &&& after.active_streak_id == settling.mode_state.active_streak_id + 1
            &&& after.open_refund_round_id == settling.mode_state.open_refund_round_id
        },
        mode_emergency_outcome(sweeping, mode, slot) is Ok ==> {
            let after = mode_swept(sweeping.mode_state);
            &&& after.active_streak_id == sweeping.mode_state.active_streak_id + 1
            &&& after.open_refund_round_id == sweeping.mode_state.open_refund_round_id
        },
{
}

/// A refund round is not closed before all eligible entries have been paid.
pub proof fn law_unpaid_round_stays_open(ctx: OpenNoWinnerSettlement, round: u64)
    requires
        open_refusal(ctx) is None,
    ensures
        close_refusal(
            CloseNoWinnerSettlement {
                authority: ctx.authority,
                game: open_post(ctx).game,
                mode_state: open_post(ctx).mode_state,
            },
            round,
        ) is Some,
{
}

/// A player is refunded once.
pub proof fn law_refunded_once(ctx: RefundPlayer)
    requires
        refund_refusal(ctx) is None,
    ensures
        refund_refusal(
            RefundPlayer {
                player_entry: PlayerEntry { refunded: true, ..ctx.player_entry },
                ..ctx
            },
        ) == Some(DoorCashError::AlreadyRefunded),
{
}

/// A refund gives the player the entry fee and the house the dust, to one
/// account if the two are one, and leaves the vault with nothing or with enough
/// for another refund. As long as the vault holds a fee for each of `k` players,
/// one refund leaves a fee for each of the others.
pub proof fn law_refunds_suffice(ctx: RefundPlayer, game_id: Seq<char>, k: nat)
    requires
        refund_refusal(ctx) is None,
        ctx.game.entry_fee > 0,
    ensures
        ({
            let moved = refund_transfers(ctx, game_id);
            let left = ctx.vault.lamports + net(moved, ctx.vault.key);
            let fee = ctx.game.entry_fee;
            let same = ctx.player == ctx.house_wallet;
            &&& ctx.player != ctx.vault.key ==> net(moved, ctx.player) == fee + gain(
                same,
                refund_dust(ctx) as int,
            )
            &&& ctx.house_wallet != ctx.vault.key ==> net(moved, ctx.house_wallet) == refund_dust(
                ctx,
            ) + gain(same, fee as int)
            &&& ctx.vault.key != ctx.house_wallet && ctx.vault.key != ctx.player ==> {
                &&& left == 0 || left >= fee
                &&& k > 0 && ctx.vault.lamports >= k * fee ==> left >= (k - 1) * fee
            }
        }),
{
    let fee = ctx.game.entry_fee;
    let bump = ctx.game.vault_bump;
    let a = game_vault_transfer(game_id, bump, ctx.vault.key, ctx.house_wallet, refund_dust(ctx));
    let b = game_vault_transfer(game_id, bump, ctx.vault.key, ctx.player, fee);
    lemma_net_concat(listed(a), listed(b), ctx.vault.key);
    lemma_net_concat(listed(a), listed(b), ctx.player);
    lemma_net_concat(listed(a), listed(b), ctx.house_wallet);
    lemma_net_listed(a, ctx.vault.key);
    lemma_net_listed(b, ctx.vault.key);
    lemma_net_listed(a, ctx.player);
    lemma_net_listed(b, ctx.player);
    lemma_net_listed(a, ctx.house_wallet);
    lemma_net_listed(b, ctx.house_wallet);
    assert((k - 1) * fee == k * fee - fee) by (nonlinear_arith);
    if refund_dust(ctx) > 0 && ctx.vault.lamports >= k * fee {
        assert(k < 2) by (nonlinear_arith)
            requires
                k * fee <= ctx.vault.lamports,
                ctx.vault.lamports < fee + fee,
                fee > 0,
        ;
    }
}

/// A dust sweep leaves what is protected: a vault that holds the pot of a game
/// that is still to be settled or refunded goes on holding it. A second sweep
/// finds nothing.
pub proof fn law_dust_sweep_spares_the_pot(ctx: AdminGameVaultRecovery)
    ensures
        ({
            let left = (ctx.vault.lamports - dust(ctx)) as u64;
            &&& left <= ctx.game.protected_lamports()
            &&& ctx.vault.lamports >= ctx.game.protected_lamports() ==> left
                == ctx.game.protected_lamports()
            &&& dust(
                AdminGameVaultRecovery { vault: Vault { lamports: left, ..ctx.vault }, ..ctx },
            ) == 0
        }),
{
}

/// No vault is swept in an emergency before the delay since the game's creation
/// has passed.
pub proof fn law_no_early_emergency(
    sweeping: AdminGameVaultRecovery,
    sweeping_mode: AdminModeVaultRecovery,
    mode: u8,
    slot: u64,
)
    ensures
        game_emergency_refusal(sweeping, slot) is None ==> slot >= sweeping.game.initialized_slot
            + EMERGENCY_RECOVERY_DELAY_SLOTS,
        mode_emergency_outcome(sweeping_mode, mode, slot) is Ok ==> slot
            >= sweeping_mode.game.initialized_slot + EMERGENCY_RECOVERY_DELAY_SLOTS,
{
}

} // verus!
