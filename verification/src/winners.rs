//! Settlement of a game that has winners.

use crate::accounts::{RemainingAccount, SettleWinners};
use crate::address::{
    entry_address, entry_seeds, found_bytes, mode_vault_address, program_address, Address,
};
use crate::error::{DoorCashError, Fault};
use crate::event::WinnerSettlement;
use crate::pot::{
    clear_vault, pot_split, share_out, split_pot, split_refusal, vault_clearing, PotSplit,
};
use crate::state::{Game, GameStatus, ModeState, SettlementKind, MAX_WINNERS};
use crate::transfer::{
    add_transfer, bump_of, mode_vault_found, mode_vault_signer, signed, transfer_found_mode_vault,
    SignedTransfer, Transfer, VaultTransfer,
};
use vstd::prelude::*;

verus! {

/// Why a wallet cannot be paid as a winner, whether or not it stands in the
/// list twice: `found` is the address of the wallet's entry in the game.
pub open spec fn winner_refusal(
    game: Game,
    winner: Address,
    entry_account: RemainingAccount,
    found: Option<(Seq<u8>, u8)>,
) -> Option<Fault> {
    match (entry_account.data.entry(), found) {
        (Err(fault), _) => Some(fault),
        (Ok(_), None) => Some(Fault::NoProgramAddress),
        (Ok(entry), Some((expected, _))) => {
            if entry_account.key.bytes@ != expected || entry.player != winner {
                Some(Fault::Program(DoorCashError::InvalidWinnerEntry))
            } else if entry.game_id@ != game.game_id@ {
                Some(Fault::Program(DoorCashError::EntryGameMismatch))
            } else if entry.mode != game.mode {
                Some(Fault::Program(DoorCashError::ModeMismatch))
            } else if entry.refunded {
                Some(Fault::Program(DoorCashError::AlreadyRefunded))
            } else {
                None
            }
        },
    }
}

/// Checks a winner against the entry account that was given for it.
pub fn check_winner(
    game: &Game,
    winner: &Address,
    entry_account: &RemainingAccount,
    found: &Option<(Address, u8)>,
) -> (r: Result<(), Fault>)
    ensures
        match r {
            Ok(_) => winner_refusal(*game, *winner, *entry_account, found_bytes(*found)) is None,
            Err(fault) => winner_refusal(*game, *winner, *entry_account, found_bytes(*found))
                == Some(fault),
        },
{
    let entry = match entry_account.data.read_entry() {
        Ok(entry) => entry,
        Err(fault) => return Err(fault),
    };
    match found {
        None => Err(Fault::NoProgramAddress),
        Some((expected, _)) => {
            if !crate::address::same_bytes(&entry_account.key.bytes, &expected.bytes) {
                Err(Fault::Program(DoorCashError::InvalidWinnerEntry))
            } else if !entry.player.same(winner) {
                Err(Fault::Program(DoorCashError::InvalidWinnerEntry))
            } else if entry.game_id != game.game_id {
                Err(Fault::Program(DoorCashError::EntryGameMismatch))
            } else if entry.mode != game.mode {
                Err(Fault::Program(DoorCashError::ModeMismatch))
            } else if entry.refunded {
                Err(Fault::Program(DoorCashError::AlreadyRefunded))
            } else {
                Ok(())
            }
        },
    }
}

/// The wallet at a place of the winner list stands at an earlier place too.
pub open spec fn listed_before(accounts: Seq<RemainingAccount>, i: int) -> bool {
    exists|j: int| 0 <= j < i && (#[trigger] accounts[2 * j]).key == accounts[2 * i].key
}

/// Tells whether the wallet at a place of the winner list stands at an earlier
/// place too.
pub fn is_listed_before(accounts: &Vec<RemainingAccount>, i: usize) -> (r: bool)
    requires
        2 * i < accounts.len(),
    ensures
        r == listed_before(accounts@, i as int),
{
    let mut j: usize = 0;
    while j < i
        invariant
            j <= i,
            2 * i < accounts.len(),
            forall|k: int| 0 <= k < j ==> (#[trigger] accounts@[2 * k]).key != accounts@[2 * i].key,
        decreases i - j,
    {
        if accounts[2 * j].key.same(&accounts[2 * i].key) {
            return true;
        }
        j += 1;
    }
    false
}

/// Why the winner at a place of the list cannot be paid.
pub open spec fn place_refusal(
    game: Game,
    accounts: Seq<RemainingAccount>,
    program_id: Address,
    i: int,
) -> Option<Fault> {
    let winner = accounts[2 * i].key;
    let found = program_address(entry_seeds(game.game_id@, winner), program_id.bytes@);
    match winner_refusal(game, winner, accounts[2 * i + 1], found) {
        Some(fault) => Some(fault),
        None => if listed_before(accounts, i) {
            Some(Fault::Program(DoorCashError::DuplicateWinner))
        } else {
            None
        },
    }
}

/// Why one of the first `n` winners of the list cannot be paid: the reason of
/// the first such winner.
pub open spec fn list_refusal(
    game: Game,
    accounts: Seq<RemainingAccount>,
    program_id: Address,
    n: nat,
) -> Option<Fault>
    decreases n,
{
    if n == 0 {
        None
    } else {
        match list_refusal(game, accounts, program_id, (n - 1) as nat) {
            Some(fault) => Some(fault),
            None => place_refusal(game, accounts, program_id, n - 1),
        }
    }
}

/// Once a winner has been refused, a longer list is refused for the same reason.
pub(crate) proof fn lemma_refusal_stays(
    game: Game,
    accounts: Seq<RemainingAccount>,
    program_id: Address,
    i: nat,
    n: nat,
)
    requires
        i <= n,
        list_refusal(game, accounts, program_id, i) is Some,
    ensures
        list_refusal(game, accounts, program_id, n) == list_refusal(game, accounts, program_id, i),
    decreases n,
{
    if i < n {
        lemma_refusal_stays(game, accounts, program_id, i, (n - 1) as nat);
    }
}

/// Checks the winners of a list, wallets and entry accounts by turns.
pub fn check_winners(
    game: &Game,
    accounts: &Vec<RemainingAccount>,
    winner_count: u8,
    program_id: &Address,
) -> (r: Result<(), Fault>)
    requires
        accounts@.len() == 2 * winner_count,
    ensures
        match r {
            Ok(_) => list_refusal(*game, accounts@, *program_id, winner_count as nat) is None,
            Err(fault) => list_refusal(*game, accounts@, *program_id, winner_count as nat) == Some(
                fault,
            ),
        },
{
    let n: usize = winner_count as usize;
    let mut i: usize = 0;
    while i < n
        invariant
            i <= n,
            n == winner_count,
            accounts@.len() == 2 * n,
            list_refusal(*game, accounts@, *program_id, i as nat) is None,
        decreases n - i,
    {
        let winner = accounts[2 * i].key;
        let found = entry_address(game.game_id.as_str(), &winner, program_id);
        let checked = check_winner(game, &winner, &accounts[2 * i + 1], &found);
        proof {
            if place_refusal(*game, accounts@, *program_id, i as int) is Some {
                lemma_refusal_stays(*game, accounts@, *program_id, (i + 1) as nat, n as nat);
            }
        }
        if let Err(fault) = checked {
            return Err(fault);
        }
        if is_listed_before(accounts, i) {
            return Err(Fault::Program(DoorCashError::DuplicateWinner));
        }
        i += 1;
    }
    Ok(())
}

/// The transfers that pay each winner the same prize.
pub open spec fn payouts(
    mode: u8,
    bump: u8,
    mode_vault: Address,
    accounts: Seq<RemainingAccount>,
    n: nat,
    prize_each: u64,
) -> Seq<SignedTransfer> {
    if prize_each == 0 {
        seq![]
    } else {
        Seq::new(
            n,
            |i: int|
                SignedTransfer {
                    transfer: Transfer {
                        from: mode_vault,
                        to: accounts[2 * i].key,
                        lamports: prize_each,
                    },
                    signer_seeds: mode_vault_signer(mode, bump),
                },
        )
    }
}

/// Why the winners cannot be paid out of a mode's vault; `found` is the vault's
/// address.
pub open spec fn payout_refusal(
    found: Option<(Seq<u8>, u8)>,
    mode_vault: Address,
    winner_count: u8,
    prize_each: u64,
) -> Option<Fault> {
    match bump_of(found, mode_vault) {
        Err(fault) => if prize_each > 0 && winner_count > 0 {
            Some(fault)
        } else {
            None
        },
        Ok(_) => None,
    }
}

/// Prepares the transfers that pay each winner the same prize.
pub fn pay_winners(
    mode: u8,
    found: &Option<(Address, u8)>,
    mode_vault: &Address,
    accounts: &Vec<RemainingAccount>,
    winner_count: u8,
    prize_each: u64,
    transfers: &mut Vec<VaultTransfer>,
) -> (r: Result<(), Fault>)
    requires
        accounts@.len() == 2 * winner_count,
    ensures
        match r {
            Ok(_) => {
                &&& payout_refusal(found_bytes(*found), *mode_vault, winner_count, prize_each) is None
                &&& signed(final(transfers)@) == signed(old(transfers)@) + payouts(
                    mode,
                    bump_of(found_bytes(*found), *mode_vault)->Ok_0,
                    *mode_vault,
                    accounts@,
                    winner_count as nat,
                    prize_each,
                )
            },
            Err(fault) => {
                &&& payout_refusal(found_bytes(*found), *mode_vault, winner_count, prize_each)
                    == Some(fault)
                &&& *final(transfers) == *old(transfers)
            },
        },
{
    let n: usize = winner_count as usize;
    let ghost bump = bump_of(found_bytes(*found), *mode_vault)->Ok_0;
    let mut i: usize = 0;
    proof {
        assert(signed(transfers@) =~= signed(old(transfers)@) + payouts(
            mode,
            bump,
            *mode_vault,
            accounts@,
            0,
            prize_each,
        ));
    }
    while i < n
        invariant
            i <= n,
            n == winner_count,
            accounts@.len() == 2 * n,
            bump == bump_of(found_bytes(*found), *mode_vault)->Ok_0,
            i > 0 && prize_each > 0 ==> bump_of(found_bytes(*found), *mode_vault) is Ok,
            i == 0 ==> *transfers == *old(transfers),
            signed(transfers@) == signed(old(transfers)@) + payouts(
                mode,
                bump,
                *mode_vault,
                accounts@,
                i as nat,
                prize_each,
            ),
        decreases n - i,
    {
        match transfer_found_mode_vault(mode, found, mode_vault, &accounts[2 * i].key, prize_each) {
            Ok(transfer) => {
                add_transfer(transfers, transfer);
            },
            Err(fault) => {
                return Err(fault);
            },
        }
        i += 1;
        proof {
            assert(signed(transfers@) =~= signed(old(transfers)@) + payouts(
                mode,
                bump,
                *mode_vault,
                accounts@,
                i as nat,
                prize_each,
            ));
        }
    }
    Ok(())
}

/// The game after its pot has been shared out among winners.
pub open spec fn game_won(game: Game, split: PotSplit, winner_count: u8) -> Game {
    Game {
        prize_each: split.distributable / winner_count as u64,
        house_cut: split.house_cut,
        carry_in: split.carry_in,
        carry_out: split.distributable % winner_count as u64,
        refund_pool: 0,
        refund_per_entry: 0,
        refund_round_id: 0,
        settlement_kind: SettlementKind::Winner,
        status: GameStatus::Complete,
        ..game
    }
}

/// The mode after one of its games has been won: a new streak starts, and only
/// what does not divide evenly is carried over.
pub open spec fn mode_won(mode_state: ModeState, split: PotSplit, winner_count: u8) -> ModeState {
    ModeState {
        carry_lamports: split.distributable % winner_count as u64,
        active_streak_id: (mode_state.active_streak_id + 1) as u64,
        eligible_entry_count: 0,
        refund_per_entry_lamports: 0,
        refund_remainder_lamports: 0,
        refund_round_open: false,
        refund_paid_entry_count: 0,
        ..mode_state
    }
}

/// What is announced of a game that has been won.
pub open spec fn won_event(game: Game, winner_count: u8) -> WinnerSettlement {
    WinnerSettlement {
        game_id: game.game_id,
        winner_count,
        prize_each: game.prize_each,
        house_cut: game.house_cut,
        carry_in: game.carry_in,
        carry_out: game.carry_out,
    }
}

/// Records in the game and its mode that a pot has been shared out.
pub fn record_winners(
    game: &mut Game,
    mode_state: &mut ModeState,
    split: &PotSplit,
    winner_count: u8,
) -> (r: Result<WinnerSettlement, DoorCashError>)
    requires
        winner_count > 0,
    ensures
        match r {
            Ok(event) => {
                &&& old(mode_state).active_streak_id < u64::MAX
                &&& *final(game) == game_won(*old(game), *split, winner_count)
                &&& *final(mode_state) == mode_won(*old(mode_state), *split, winner_count)
                &&& event == won_event(*final(game), winner_count)
            },
            Err(e) => {
                &&& e == DoorCashError::ArithmeticOverflow
                &&& old(mode_state).active_streak_id == u64::MAX
                &&& *final(game) == *old(game)
                &&& *final(mode_state) == *old(mode_state)
            },
        },
{
    let (prize_each, remainder) = share_out(split.distributable, winner_count);
    let next_streak: u64 = match mode_state.active_streak_id.checked_add(1) {
        Some(next) => next,
        None => return Err(DoorCashError::ArithmeticOverflow),
    };
    mode_state.carry_lamports = remainder;
    mode_state.active_streak_id = next_streak;
    mode_state.eligible_entry_count = 0;
    mode_state.refund_per_entry_lamports = 0;
    mode_state.refund_remainder_lamports = 0;
    mode_state.refund_round_open = false;
    mode_state.refund_paid_entry_count = 0;

    game.prize_each = prize_each;
    game.house_cut = split.house_cut;
    game.carry_in = split.carry_in;
    game.carry_out = remainder;
    game.refund_pool = 0;
    game.refund_per_entry = 0;
    game.refund_round_id = 0;
    game.settlement_kind = SettlementKind::Winner;
    game.status = GameStatus::Complete;

    Ok(
        WinnerSettlement {
            game_id: game.game_id.clone(),
            winner_count,
            prize_each,
            house_cut: split.house_cut,
            carry_in: split.carry_in,
            carry_out: remainder,
        },
    )
}

/// Why a settlement with winners is refused: the first rule that is broken.
pub open spec fn settle_refusal(
    ctx: SettleWinners,
    accounts: Seq<RemainingAccount>,
    winner_count: u8,
    program_id: Address,
) -> Option<Fault> {
    let game = ctx.game;
    let mode_state = ctx.mode_state;
    if game.authority != ctx.authority {
        Some(Fault::Program(DoorCashError::Unauthorized))
    } else if game.house_wallet != ctx.house_wallet {
        Some(Fault::Program(DoorCashError::HouseWalletMismatch))
    } else if !(game.status is Active) {
        Some(Fault::Program(DoorCashError::InvalidGameStatus))
    } else if !game.seed_revealed {
        Some(Fault::Program(DoorCashError::SeedNotRevealed))
    } else if !(0 < winner_count <= MAX_WINNERS) {
        Some(Fault::Program(DoorCashError::NoWinners))
    } else if accounts.len() != 2 * winner_count {
        Some(Fault::Program(DoorCashError::WinnerAccountMismatch))
    } else if mode_state.refund_round_open {
        Some(Fault::Program(DoorCashError::ModeRefundRoundOpen))
    } else if mode_state.mode != game.mode {
        Some(Fault::Program(DoorCashError::ModeMismatch))
    } else {
        match list_refusal(game, accounts, program_id, winner_count as nat) {
            Some(fault) => Some(fault),
            None => match split_refusal(
                game.total_pot,
                ctx.game_vault.lamports,
                mode_state.carry_lamports,
            ) {
                Some(e) => Some(Fault::Program(e)),
                None => {
                    let prize_each = settled_split(ctx).distributable / winner_count as u64;
                    match payout_refusal(
                        mode_vault_found(game.mode),
                        ctx.mode_vault,
                        winner_count,
                        prize_each,
                    ) {
                        Some(fault) => Some(fault),
                        None => if mode_state.active_streak_id == u64::MAX {
                            Some(Fault::Program(DoorCashError::ArithmeticOverflow))
                        } else {
                            None
                        },
                    }
                },
            },
        }
    }
}

/// How the pot of the game is divided.
pub open spec fn settled_split(ctx: SettleWinners) -> PotSplit {
    pot_split(ctx.game.total_pot, ctx.game_vault.lamports, ctx.mode_state.carry_lamports)
}

/// The transfers of a settlement with winners.
pub open spec fn settle_transfers(
    ctx: SettleWinners,
    accounts: Seq<RemainingAccount>,
    winner_count: u8,
) -> Seq<SignedTransfer> {
    let split = settled_split(ctx);
    vault_clearing(ctx.game, ctx.game_vault.key, ctx.mode_vault, ctx.house_wallet, split) + payouts(
        ctx.game.mode,
        bump_of(mode_vault_found(ctx.game.mode), ctx.mode_vault)->Ok_0,
        ctx.mode_vault,
        accounts,
        winner_count as nat,
        split.distributable / winner_count as u64,
    )
}

/// The accounts after a settlement with winners.
pub open spec fn settle_post(ctx: SettleWinners, winner_count: u8) -> SettleWinners {
    SettleWinners {
        game: game_won(ctx.game, settled_split(ctx), winner_count),
        mode_state: mode_won(ctx.mode_state, settled_split(ctx), winner_count),
        ..ctx
    }
}

/// Settles a game that has winners: empties its vault, pays each winner the
/// same prize out of the vault of the mode, and carries the rest over.
///
/// The list holds the winners' wallets and their entry accounts by turns.
pub fn settle_winners(
    ctx: &mut SettleWinners,
    remaining_accounts: &Vec<RemainingAccount>,
    winner_count: u8,
    program_id: &Address,
) -> (r: Result<(Vec<VaultTransfer>, WinnerSettlement), Fault>)
    ensures
        match r {
            Ok((transfers, event)) => {
                &&& settle_refusal(*old(ctx), remaining_accounts@, winner_count, *program_id) is None
                &&& *final(ctx) == settle_post(*old(ctx), winner_count)
                &&& signed(transfers@) == settle_transfers(
                    *old(ctx),
                    remaining_accounts@,
                    winner_count,
                )
                &&& event == won_event(final(ctx).game, winner_count)
            },
            Err(fault) => {
                &&& settle_refusal(*old(ctx), remaining_accounts@, winner_count, *program_id)
                    == Some(fault)
                &&& *final(ctx) == *old(ctx)
            },
        },
        old(ctx).game.valid() ==> final(ctx).game.valid(),
        old(ctx).mode_state.valid() ==> final(ctx).mode_state.valid(),
        old(ctx).game.status.may_become(final(ctx).game.status),
{
    if !ctx.game.authority.same(&ctx.authority) {
        return Err(Fault::Program(DoorCashError::Unauthorized));
    }
    if !ctx.game.house_wallet.same(&ctx.house_wallet) {
        return Err(Fault::Program(DoorCashError::HouseWalletMismatch));
    }
    if !matches!(ctx.game.status, GameStatus::Active) {
        return Err(Fault::Program(DoorCashError::InvalidGameStatus));
    }
    if !ctx.game.seed_revealed {
        return Err(Fault::Program(DoorCashError::SeedNotRevealed));
    }
    if winner_count == 0 || winner_count as usize > MAX_WINNERS {
        return Err(Fault::Program(DoorCashError::NoWinners));
    }
    if remaining_accounts.len() != winner_count as usize * 2 {
        return Err(Fault::Program(DoorCashError::WinnerAccountMismatch));
    }
    if ctx.mode_state.refund_round_open {
        return Err(Fault::Program(DoorCashError::ModeRefundRoundOpen));
    }
    if ctx.mode_state.mode != ctx.game.mode {
        return Err(Fault::Program(DoorCashError::ModeMismatch));
    }
    if let Err(fault) = check_winners(&ctx.game, remaining_accounts, winner_count, program_id) {
        return Err(fault);
    }
    let split = match split_pot(
        ctx.game.total_pot,
        ctx.game_vault.lamports,
        ctx.mode_state.carry_lamports,
    ) {
        Ok(split) => split,
        Err(e) => return Err(Fault::Program(e)),
    };
    let (prize_each, _) = share_out(split.distributable, winner_count);
    let mut transfers = clear_vault(
        &ctx.game,
        &ctx.game_vault.key,
        &ctx.mode_vault,
        &ctx.house_wallet,
        &split,
    );
    let found = mode_vault_address(ctx.game.mode);
    if let Err(fault) = pay_winners(
        ctx.game.mode,
        &found,
        &ctx.mode_vault,
        remaining_accounts,
        winner_count,
        prize_each,
        &mut transfers,
    ) {
        return Err(fault);
    }
    proof {
        assert(prize_each + split.distributable % winner_count as u64 <= split.distributable)
            by (nonlinear_arith)
            requires
                prize_each * winner_count + split.distributable % winner_count as u64
                    == split.distributable,
                winner_count >= 1,
                prize_each >= 0,
        ;
    }
    match record_winners(&mut ctx.game, &mut ctx.mode_state, &split, winner_count) {
        Ok(event) => Ok((transfers, event)),
        Err(e) => Err(Fault::Program(e)),
    }
}

} // verus!
