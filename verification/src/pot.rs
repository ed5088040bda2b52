//! How a pot is divided between the house and the players.

use crate::address::Address;
use crate::error::DoorCashError;
use crate::state::{calculate_house_cut, house_share, house_share_overflows, Game};
use crate::transfer::{
    add_transfer, game_vault_transfer, listed, signed, transfer_game_vault, SignedTransfer,
    VaultTransfer,
};
use vstd::prelude::*;

verus! {

/// The parts of a game's vault at settlement, and what is there to hand out.
#[derive(Clone, Copy, Debug, PartialEq, Eq)]
pub struct PotSplit {
    /// What the vault holds beyond the pot.
    pub vault_dust: u64,
    pub house_cut: u64,
    pub ante_after_house: u64,
    pub carry_in: u64,
    /// The carry and the pot without the house's cut.
    pub distributable: u64,
}

/// What a pot and the carry leave after the house's cut.
pub open spec fn distributable(pot: u64, carry_in: u64) -> int {
    carry_in + pot - house_share(pot as int)
}

/// Why a pot cannot be divided.
pub open spec fn split_refusal(pot: u64, vault_balance: u64, carry_in: u64) -> Option<
    DoorCashError,
> {
    if vault_balance < pot {
        Some(DoorCashError::InsufficientVaultFunds)
    } else if house_share_overflows(pot as int) || distributable(pot, carry_in) > u64::MAX {
        Some(DoorCashError::ArithmeticOverflow)
    } else {
        None
    }
}

/// The parts of a pot that can be divided.
pub open spec fn pot_split(pot: u64, vault_balance: u64, carry_in: u64) -> PotSplit {
    PotSplit {
        vault_dust: (vault_balance - pot) as u64,
        house_cut: house_share(pot as int) as u64,
        ante_after_house: (pot - house_share(pot as int)) as u64,
        carry_in,
        distributable: distributable(pot, carry_in) as u64,
    }
}

impl PotSplit {
    /// The parts add up, and none has been cut short.
    pub open spec fn adds_up(self, pot: u64, vault_balance: u64) -> bool {
        &&& self.vault_dust + pot == vault_balance
        &&& self.house_cut == house_share(pot as int)
        &&& self.house_cut + self.ante_after_house == pot
        &&& self.carry_in + self.ante_after_house == self.distributable
    }
}

/// Divides a pot.
pub fn split_pot(pot: u64, vault_balance: u64, carry_in: u64) -> (r: Result<
    PotSplit,
    DoorCashError,
>)
    ensures
        match r {
            Ok(split) => {
                &&& split_refusal(pot, vault_balance, carry_in) is None
                &&& split == pot_split(pot, vault_balance, carry_in)
                &&& split.adds_up(pot, vault_balance)
            },
            Err(e) => split_refusal(pot, vault_balance, carry_in) == Some(e),
        },
{
    if vault_balance < pot {
        return Err(DoorCashError::InsufficientVaultFunds);
    }
    let vault_dust: u64 = vault_balance - pot;
    let house_cut: u64 = match calculate_house_cut(pot) {
        Ok(cut) => cut,
        Err(e) => return Err(e),
    };
    let ante_after_house: u64 = pot - house_cut;
    match carry_in.checked_add(ante_after_house) {
        Some(distributable) => Ok(
            PotSplit { vault_dust, house_cut, ante_after_house, carry_in, distributable },
        ),
        None => Err(DoorCashError::ArithmeticOverflow),
    }
}

/// What each winner gets, and what is carried over: the lamports that do not
/// divide evenly.
pub fn share_out(distributable: u64, winner_count: u8) -> (r: (u64, u64))
    requires
        winner_count > 0,
    ensures
        r.0 == distributable / winner_count as u64,
        r.1 == distributable % winner_count as u64,
        r.0 * winner_count + r.1 == distributable,
        r.1 < winner_count,
{
    let prize_each: u64 = distributable / winner_count as u64;
    proof {
        lemma_quotient(distributable, winner_count as u64);
    }
    let payout_total: u64 = prize_each * winner_count as u64;
    (prize_each, distributable - payout_total)
}

/// How the refund of a game without a winner is worked out.
#[derive(Clone, Copy, Debug, PartialEq, Eq)]
pub struct RefundPlan {
    /// The half that goes to the eligible entries.
    pub refund_pool: u64,
    pub refund_per_entry: u64,
    /// What does not divide evenly.
    pub refund_remainder: u64,
    /// The other half, and what does not divide evenly.
    pub carry_out: u64,
}

/// Half of what is there goes to the eligible entries in equal parts, and the
/// rest is carried over.
pub open spec fn refund_plan(distributable: u64, eligible: u64) -> RefundPlan {
    let pool = distributable / 2;
    RefundPlan {
        refund_pool: pool,
        refund_per_entry: pool / eligible,
        refund_remainder: pool % eligible,
        carry_out: (distributable - pool + pool % eligible) as u64,
    }
}

/// Works out the refund of a game without a winner.
pub fn plan_refund(distributable: u64, eligible: u64) -> (r: RefundPlan)
    requires
        eligible > 0,
    ensures
        r == refund_plan(distributable, eligible),
        r.refund_per_entry * eligible + r.carry_out == distributable,
        r.refund_per_entry * eligible + r.refund_remainder == r.refund_pool,
        r.refund_remainder < eligible,
        distributable - r.refund_pool <= r.carry_out,
        r.refund_per_entry <= r.refund_pool,
        r.carry_out + r.refund_per_entry <= distributable,
{
    let refund_pool: u64 = distributable / 2;
    let refund_per_entry: u64 = refund_pool / eligible;
    proof {
        lemma_quotient(refund_pool, eligible);
    }
    let paid_total: u64 = refund_per_entry * eligible;
    let refund_remainder: u64 = refund_pool - paid_total;
    assert(refund_per_entry <= refund_per_entry * eligible) by (nonlinear_arith)
        requires
            eligible >= 1,
            refund_per_entry >= 0,
    ;
    let carry_out: u64 = (distributable - refund_pool) + refund_remainder;
    RefundPlan { refund_pool, refund_per_entry, refund_remainder, carry_out }
}

/// The transfers that empty a game's vault: dust and cut to the house, the rest
/// to the vault of the mode.
pub open spec fn vault_clearing(
    game: Game,
    game_vault: Address,
    mode_vault: Address,
    house_wallet: Address,
    split: PotSplit,
) -> Seq<SignedTransfer> {
    let bump = game.vault_bump;
    listed(game_vault_transfer(game.game_id@, bump, game_vault, house_wallet, split.vault_dust))
        + listed(game_vault_transfer(game.game_id@, bump, game_vault, house_wallet, split.house_cut))
        + listed(
        game_vault_transfer(game.game_id@, bump, game_vault, mode_vault, split.ante_after_house),
    )
}

/// Prepares the transfers that empty a game's vault.
pub fn clear_vault(
    game: &Game,
    game_vault: &Address,
    mode_vault: &Address,
    house_wallet: &Address,
    split: &PotSplit,
) -> (r: Vec<VaultTransfer>)
    ensures
        signed(r@) == vault_clearing(*game, *game_vault, *mode_vault, *house_wallet, *split),
{
    let id = game.game_id.as_str();
    let bump: u8 = game.vault_bump;
    let mut transfers: Vec<VaultTransfer> = Vec::new();
    assert(signed(transfers@) =~= seq![]);
    add_transfer(
        &mut transfers,
        transfer_game_vault(id, bump, game_vault, house_wallet, split.vault_dust),
    );
    add_transfer(
        &mut transfers,
        transfer_game_vault(id, bump, game_vault, house_wallet, split.house_cut),
    );
    add_transfer(
        &mut transfers,
        transfer_game_vault(id, bump, game_vault, mode_vault, split.ante_after_house),
    );
    assert(signed(transfers@) =~= vault_clearing(
        *game,
        *game_vault,
        *mode_vault,
        *house_wallet,
        *split,
    ));
    transfers
}

/// A quotient times its divisor, and the remainder.
pub(crate) proof fn lemma_quotient(a: u64, b: u64)
    requires
        b > 0,
    ensures
        (a / b) * b + a % b == a,
        0 <= a % b < b,
        0 <= (a / b) * b <= a,
{
    vstd::arithmetic::div_mod::lemma_fundamental_div_mod(a as int, b as int);
    vstd::arithmetic::mul::lemma_mul_is_commutative(b as int, a as int / b as int);
    assert((a / b) * b >= 0) by (nonlinear_arith);
}

} // verus!
