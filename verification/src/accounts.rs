//! The accounts that the instructions work on.

use crate::address::Address;
use crate::error::Fault;
use crate::state::{Game, ModeParticipant, ModeState, PlayerEntry};
use vstd::prelude::*;

verus! {

/// A vault and what it holds when an instruction starts.
#[derive(Clone, Copy, Debug, PartialEq, Eq)]
pub struct Vault {
    pub key: Address,
    pub lamports: u64,
}

#[derive(Clone, Debug, PartialEq, Eq)]
pub struct InitializeGame {
    pub authority: Address,
    pub house_wallet: Address,
    /// The new game's account, all zero.
    pub game: Game,
    pub vault_bump: u8,
    /// The mode's account, all zero if this is the mode's first game.
    pub mode_state: ModeState,
}

#[derive(Clone, Debug, PartialEq, Eq)]
pub struct EnterGame {
    pub player: Address,
    pub authority: Address,
    pub game: Game,
    pub vault: Address,
    /// The entry's new account, all zero.
    pub player_entry: PlayerEntry,
    /// The participant's account, all zero at the wallet's first entry.
    pub mode_participant: ModeParticipant,
    pub mode_state: ModeState,
}

#[derive(Clone, Debug, PartialEq, Eq)]
pub struct StartGame {
    pub authority: Address,
    pub game: Game,
    pub mode_state: ModeState,
}

#[derive(Clone, Debug, PartialEq, Eq)]
pub struct AuthorityAction {
    pub authority: Address,
    pub game: Game,
}

#[derive(Clone, Debug, PartialEq, Eq)]
pub struct SettleWinners {
    pub authority: Address,
    pub game: Game,
    pub game_vault: Vault,
    pub mode_state: ModeState,
    pub mode_vault: Address,
    pub house_wallet: Address,
}

#[derive(Clone, Debug, PartialEq, Eq)]
pub struct RegisterNoWinnerEntries {
    pub authority: Address,
    pub game: Game,
    pub mode_state: ModeState,
}

#[derive(Clone, Debug, PartialEq, Eq)]
pub struct OpenNoWinnerSettlement {
    pub authority: Address,
    pub game: Game,
    pub game_vault: Vault,
    pub mode_state: ModeState,
    pub mode_vault: Address,
    pub house_wallet: Address,
}

#[derive(Clone, Debug, PartialEq, Eq)]
pub struct PayNoWinnerBatch {
    pub authority: Address,
    pub game: Game,
    pub mode_state: ModeState,
    pub mode_vault: Address,
}

#[derive(Clone, Debug, PartialEq, Eq)]
pub struct RepairNoWinnerStreakEntries {
    pub authority: Address,
    pub game: Game,
    pub mode_state: ModeState,
}

#[derive(Clone, Debug, PartialEq, Eq)]
pub struct CloseNoWinnerSettlement {
    pub authority: Address,
    pub game: Game,
    pub mode_state: ModeState,
}

#[derive(Clone, Debug, PartialEq, Eq)]
pub struct RefundPlayer {
    pub authority: Address,
    pub game: Game,
    pub house_wallet: Address,
    pub vault: Vault,
    pub player: Address,
    pub player_entry: PlayerEntry,
}

#[derive(Clone, Debug, PartialEq, Eq)]
pub struct AdminGameVaultRecovery {
    pub authority: Address,
    pub game: Game,
    pub house_wallet: Address,
    pub vault: Vault,
}

#[derive(Clone, Debug, PartialEq, Eq)]
pub struct AdminModeVaultRecovery {
    pub authority: Address,
    pub game: Game,
    pub house_wallet: Address,
    pub mode_state: ModeState,
    pub mode_vault: Vault,
}

/// What an account of a list holds, as far as the instruction reads it.
#[derive(Debug, PartialEq, Eq)]
pub enum AccountData {
    Entry(PlayerEntry),
    Participant(ModeParticipant),
    /// Not a record that the instruction can read, with the code that reading
    /// it reports; or a wallet, of which the instruction reads only the key.
    Unreadable(u64),
}

/// One account of the list that a batch instruction is given.
///
/// An account may stand in the list more than once. Every place then shows the
/// same record, and shows a change as soon as it is written.
#[derive(Debug, PartialEq, Eq)]
pub struct RemainingAccount {
    pub key: Address,
    pub data: AccountData,
}

/// The code that reading a record of another type reports.
pub const WRONG_RECORD: u64 = 3002;

impl Clone for AccountData {
    fn clone(&self) -> (r: Self)
        ensures
            r == *self,
    {
        match self {
            AccountData::Entry(entry) => AccountData::Entry(entry.clone()),
            AccountData::Participant(participant) => AccountData::Participant(*participant),
            AccountData::Unreadable(code) => AccountData::Unreadable(*code),
        }
    }
}

impl Clone for RemainingAccount {
    fn clone(&self) -> (r: Self)
        ensures
            r == *self,
    {
        RemainingAccount { key: self.key, data: self.data.clone() }
    }
}

impl AccountData {
    /// The entry that the account holds, or why there is none.
    pub open spec fn entry(self) -> Result<PlayerEntry, Fault> {
        match self {
            AccountData::Entry(entry) => Ok(entry),
            AccountData::Participant(_) => Err(Fault::Account(WRONG_RECORD)),
            AccountData::Unreadable(code) => Err(Fault::Account(code)),
        }
    }

    /// The participant that the account holds, or why there is none.
    pub open spec fn participant(self) -> Result<ModeParticipant, Fault> {
        match self {
            AccountData::Entry(_) => Err(Fault::Account(WRONG_RECORD)),
            AccountData::Participant(participant) => Ok(participant),
            AccountData::Unreadable(code) => Err(Fault::Account(code)),
        }
    }

    pub fn read_entry(&self) -> (r: Result<PlayerEntry, Fault>)
        ensures
            r == self.entry(),
    {
        match self {
            AccountData::Entry(entry) => Ok(entry.clone()),
            AccountData::Participant(_) => Err(Fault::Account(WRONG_RECORD)),
            AccountData::Unreadable(code) => Err(Fault::Account(*code)),
        }
    }

    pub fn read_participant(&self) -> (r: Result<ModeParticipant, Fault>)
        ensures
            r == self.participant(),
    {
        match self {
            AccountData::Entry(_) => Err(Fault::Account(WRONG_RECORD)),
            AccountData::Participant(participant) => Ok(*participant),
            AccountData::Unreadable(code) => Err(Fault::Account(*code)),
        }
    }
}

/// Wherever an account stands in the list, the list shows the same record of it.
pub open spec fn coherent(accounts: Seq<RemainingAccount>) -> bool {
    forall|i: int, j: int|
        0 <= i < accounts.len() && 0 <= j < accounts.len() && (#[trigger] accounts[i]).key == (
        #[trigger] accounts[j]).key ==> accounts[i].data == accounts[j].data
}

/// The list after a record has been written to one account.
pub open spec fn written(
    accounts: Seq<RemainingAccount>,
    key: Address,
    data: AccountData,
) -> Seq<RemainingAccount> {
    accounts.map_values(
        |account: RemainingAccount|
            if account.key == key {
                RemainingAccount { key, data }
            } else {
                account
            },
    )
}

/// Writes a record to one account, at every place where it stands.
pub fn write_account(accounts: &mut Vec<RemainingAccount>, key: &Address, data: AccountData)
    ensures
        final(accounts)@ == written(old(accounts)@, *key, data),
{
    let mut i: usize = 0;
    while i < accounts.len()
        invariant
            i <= accounts.len(),
            accounts@.len() == old(accounts)@.len(),
            forall|j: int|
                0 <= j < i ==> accounts@[j] == written(old(accounts)@, *key, data)[j],
            forall|j: int| i <= j < accounts@.len() ==> accounts@[j] == old(accounts)@[j],
        decreases accounts.len() - i,
    {
        if accounts[i].key.same(key) {
            accounts.set(i, RemainingAccount { key: *key, data: data.clone() });
        }
        i += 1;
    }
    assert(accounts@ =~= written(old(accounts)@, *key, data));
}

/// Copies a list of accounts.
pub fn copy_accounts(accounts: &Vec<RemainingAccount>) -> (r: Vec<RemainingAccount>)
    ensures
        r@ == accounts@,
{
    let mut copy: Vec<RemainingAccount> = Vec::new();
    let mut i: usize = 0;
    while i < accounts.len()
        invariant
            i <= accounts.len(),
            copy@ == accounts@.take(i as int),
        decreases accounts.len() - i,
    {
        copy.push(accounts[i].clone());
        i += 1;
        assert(copy@ =~= accounts@.take(i as int));
    }
    assert(copy@ =~= accounts@);
    copy
}

} // verus!
