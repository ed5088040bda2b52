//! Movements of lamports, and who signs for them.

use crate::address::{
    found_bytes, id_bytes, mode_vault_address, mode_vault_seeds, program_address, seed_bytes,
    Address,
};
use crate::error::{DoorCashError, Fault};
use anchor_lang::prelude::{AccountMeta, Pubkey};
use anchor_lang::solana_program::system_instruction;
use vstd::prelude::*;
use vstd::slice::slice_to_vec;
use vstd::utf8::encode_utf8;

verus! {

/// A movement of lamports from one account to another.
#[derive(Clone, Copy, Debug, PartialEq, Eq)]
pub struct Transfer {
    pub from: Address,
    pub to: Address,
    pub lamports: u64,
}

/// A movement of lamports out of a vault, with the seeds that sign for it.
#[derive(Clone, Debug, PartialEq, Eq)]
pub struct VaultTransfer {
    pub transfer: Transfer,
    pub signer_seeds: Vec<Vec<u8>>,
}

/// A transfer out of a vault, as contracts speak of it.
pub struct SignedTransfer {
    pub transfer: Transfer,
    pub signer_seeds: Seq<Seq<u8>>,
}

impl View for VaultTransfer {
    type V = SignedTransfer;

    open spec fn view(&self) -> SignedTransfer {
        SignedTransfer { transfer: self.transfer, signer_seeds: seed_bytes(self.signer_seeds@) }
    }
}

/// A list of transfers, as contracts speak of it.
pub open spec fn signed(transfers: Seq<VaultTransfer>) -> Seq<SignedTransfer> {
    transfers.map_values(|t: VaultTransfer| t@)
}

/// An account that an instruction of the system program names.
#[derive(Clone, Copy, Debug, PartialEq, Eq)]
pub struct AccountRole {
    pub key: Address,
    pub is_signer: bool,
    pub is_writable: bool,
}

/// An instruction for the system program.
#[derive(Clone, Debug, PartialEq, Eq)]
pub struct SystemInstruction {
    pub program_id: Address,
    pub accounts: Vec<AccountRole>,
    pub data: Vec<u8>,
}

/// The bytes that ask the system program for a transfer: the number of the
/// request, 2, in four bytes, and the lamports in eight, lowest byte first.
pub open spec fn transfer_request(lamports: u64) -> Seq<u8> {
    seq![
        2,
        0,
        0,
        0,
        (lamports % 0x100) as u8,
        (lamports / 0x100 % 0x100) as u8,
        (lamports / 0x1_0000 % 0x100) as u8,
        (lamports / 0x100_0000 % 0x100) as u8,
        (lamports / 0x1_0000_0000 % 0x100) as u8,
        (lamports / 0x100_0000_0000 % 0x100) as u8,
        (lamports / 0x1_0000_0000_0000 % 0x100) as u8,
        (lamports / 0x100_0000_0000_0000) as u8,
    ]
}

/// Calls `system_instruction::transfer`.
///
/// What is not proved: that the instruction is for the system program, whose
/// address is all zero, that it names the source as a writable signer and then
/// the destination as writable, and that its data is `transfer_request`.
#[verifier::external_body]
fn system_transfer(from: &Address, to: &Address, lamports: u64) -> (r: SystemInstruction)
    ensures
        r.program_id.is_unset(),
        r.accounts@ == seq![
            AccountRole { key: *from, is_signer: true, is_writable: true },
            AccountRole { key: *to, is_signer: false, is_writable: true },
        ],
        r.data@ == transfer_request(lamports),
{
    let (source, target) = (Pubkey::from(from.bytes), Pubkey::from(to.bytes));
    let ix = system_instruction::transfer(&source, &target, lamports);
    let role = |meta: &AccountMeta| AccountRole {
        key: Address { bytes: meta.pubkey.to_bytes() },
        is_signer: meta.is_signer,
        is_writable: meta.is_writable,
    };
    SystemInstruction {
        program_id: Address { bytes: ix.program_id.to_bytes() },
        accounts: ix.accounts.iter().map(role).collect(),
        data: ix.data,
    }
}

impl Transfer {
    /// The instruction that asks the system program for this transfer.
    pub fn instruction(&self) -> (r: SystemInstruction)
        ensures
            r.program_id.is_unset(),
            r.accounts@ == seq![
                AccountRole { key: self.from, is_signer: true, is_writable: true },
                AccountRole { key: self.to, is_signer: false, is_writable: true },
            ],
            r.data@ == transfer_request(self.lamports),
    {
        system_transfer(&self.from, &self.to, self.lamports)
    }
}

/// The seeds that sign for a game's vault.
pub open spec fn game_vault_signer(game_id: Seq<char>, vault_bump: u8) -> Seq<Seq<u8>> {
    seq![encode_utf8("vault"@), encode_utf8(game_id), seq![vault_bump]]
}

/// The seeds that sign for a mode's vault.
pub open spec fn mode_vault_signer(mode: u8, bump: u8) -> Seq<Seq<u8>> {
    mode_vault_seeds(mode).push(seq![bump])
}

/// The transfer out of a game's vault, if there is anything to move.
pub open spec fn game_vault_transfer(
    game_id: Seq<char>,
    vault_bump: u8,
    from: Address,
    to: Address,
    lamports: u64,
) -> Option<SignedTransfer> {
    if lamports == 0 {
        None
    } else {
        Some(
            SignedTransfer {
                transfer: Transfer { from, to, lamports },
                signer_seeds: game_vault_signer(game_id, vault_bump),
            },
        )
    }
}

/// A transfer that may be missing, as a list.
pub open spec fn listed(transfer: Option<SignedTransfer>) -> Seq<SignedTransfer> {
    match transfer {
        Some(t) => seq![t],
        None => seq![],
    }
}

/// Prepares a transfer out of a game's vault; none for no lamports.
pub fn transfer_game_vault(
    game_id: &str,
    vault_bump: u8,
    from: &Address,
    to: &Address,
    amount: u64,
) -> (r: Option<VaultTransfer>)
    ensures
        match r {
            Some(t) => Some(t@),
            None => None,
        } == game_vault_transfer(game_id@, vault_bump, *from, *to, amount),
{
    if amount == 0 {
        return None;
    }
    let signer_seeds: Vec<Vec<u8>> = vec![
        slice_to_vec("vault".as_bytes()),
        slice_to_vec(game_id.as_bytes()),
        vec![vault_bump],
    ];
    assert(signer_seeds@[2]@ =~= seq![vault_bump]);
    assert(seed_bytes(signer_seeds@) =~= game_vault_signer(game_id@, vault_bump));
    Some(
        VaultTransfer {
            transfer: Transfer { from: *from, to: *to, lamports: amount },
            signer_seeds,
        },
    )
}

/// The bump of a mode's vault, given what the search for its address found:
/// refused where `key` is not that address.
pub open spec fn bump_of(found: Option<(Seq<u8>, u8)>, key: Address) -> Result<u8, Fault> {
    match found {
        None => Err(Fault::NoProgramAddress),
        Some((address, bump)) => if address == key.bytes@ {
            Ok(bump)
        } else {
            Err(Fault::Program(DoorCashError::ModeMismatch))
        },
    }
}

/// Checks an account against the address that was found for a mode's vault.
pub fn match_mode_vault(found: &Option<(Address, u8)>, key: &Address) -> (r: Result<u8, Fault>)
    ensures
        r == bump_of(found_bytes(*found), *key),
{
    match found {
        None => Err(Fault::NoProgramAddress),
        Some((address, bump)) => {
            if address.same(key) {
                Ok(*bump)
            } else {
                proof {
                    if address.bytes@ == key.bytes@ {
                        assert(address.bytes =~= key.bytes);
                    }
                }
                Err(Fault::Program(DoorCashError::ModeMismatch))
            }
        },
    }
}

/// What the search for the address of a mode's vault finds.
pub open spec fn mode_vault_found(mode: u8) -> Option<(Seq<u8>, u8)> {
    program_address(mode_vault_seeds(mode), id_bytes())
}

/// Finds the bump of a mode's vault, and refuses any other account.
pub fn mode_vault_bump(mode: u8, key: &Address) -> (r: Result<u8, Fault>)
    ensures
        r == bump_of(mode_vault_found(mode), *key),
{
    let found = mode_vault_address(mode);
    match_mode_vault(&found, key)
}

/// The transfer out of a mode's vault, if there is anything to move, given
/// what the search for the vault's address found.
pub open spec fn mode_vault_transfer(
    mode: u8,
    found: Option<(Seq<u8>, u8)>,
    from: Address,
    to: Address,
    lamports: u64,
) -> Result<Option<SignedTransfer>, Fault> {
    if lamports == 0 {
        Ok(None)
    } else {
        match bump_of(found, from) {
            Err(fault) => Err(fault),
            Ok(bump) => Ok(
                Some(
                    SignedTransfer {
                        transfer: Transfer { from, to, lamports },
                        signer_seeds: mode_vault_signer(mode, bump),
                    },
                ),
            ),
        }
    }
}

/// Prepares a transfer out of a mode's vault, whose address has been searched
/// for; none for no lamports.
pub fn transfer_found_mode_vault(
    mode: u8,
    found: &Option<(Address, u8)>,
    from: &Address,
    to: &Address,
    amount: u64,
) -> (r: Result<Option<VaultTransfer>, Fault>)
    ensures
        match r {
            Ok(Some(t)) => Ok(Some(t@)),
            Ok(None) => Ok(None),
            Err(fault) => Err(fault),
        } == mode_vault_transfer(mode, found_bytes(*found), *from, *to, amount),
{
    if amount == 0 {
        return Ok(None);
    }
    let bump: u8 = match match_mode_vault(found, from) {
        Ok(bump) => bump,
        Err(fault) => return Err(fault),
    };
    let signer_seeds: Vec<Vec<u8>> = vec![
        slice_to_vec("mode-vault".as_bytes()),
        vec![mode],
        vec![bump],
    ];
    assert(signer_seeds@[1]@ =~= seq![mode]);
    assert(signer_seeds@[2]@ =~= seq![bump]);
    assert(seed_bytes(signer_seeds@) =~= mode_vault_signer(mode, bump));
    Ok(
        Some(
            VaultTransfer {
                transfer: Transfer { from: *from, to: *to, lamports: amount },
                signer_seeds,
            },
        ),
    )
}

/// Prepares a transfer out of a mode's vault; none for no lamports.
pub fn transfer_mode_vault(mode: u8, from: &Address, to: &Address, amount: u64) -> (r: Result<
    Option<VaultTransfer>,
    Fault,
>)
    ensures
        match r {
            Ok(Some(t)) => Ok(Some(t@)),
            Ok(None) => Ok(None),
            Err(fault) => Err(fault),
        } == mode_vault_transfer(mode, mode_vault_found(mode), *from, *to, amount),
{
    let found = mode_vault_address(mode);
    transfer_found_mode_vault(mode, &found, from, to, amount)
}

/// Puts a transfer that may be missing at the end of a list.
pub fn add_transfer(transfers: &mut Vec<VaultTransfer>, transfer: Option<VaultTransfer>)
    ensures
        signed(final(transfers)@) == signed(old(transfers)@) + listed(
            match transfer {
                Some(t) => Some(t@),
                None => None,
            },
        ),
{
    if let Some(t) = transfer {
        transfers.push(t);
    }
    assert(signed(transfers@) =~= signed(old(transfers)@) + listed(
        match transfer {
            Some(t) => Some(t@),
            None => None,
        },
    ));
}

/// How the balance of one account changes when a list of transfers is made.
pub open spec fn net(transfers: Seq<SignedTransfer>, account: Address) -> int
    decreases transfers.len(),
{
    if transfers.len() == 0 {
        0
    } else {
        let last = transfers.last().transfer;
        net(transfers.drop_last(), account) + (if last.to == account {
            last.lamports as int
        } else {
            0
        }) - (if last.from == account {
            last.lamports as int
        } else {
            0
        })
    }
}

/// A list of transfers does what its parts do.
pub(crate) proof fn lemma_net_concat(a: Seq<SignedTransfer>, b: Seq<SignedTransfer>, account: Address)
    ensures
        net(a + b, account) == net(a, account) + net(b, account),
    decreases b.len(),
{
    if b.len() == 0 {
        assert(a + b =~= a);
    } else {
        lemma_net_concat(a, b.drop_last(), account);
        assert((a + b).drop_last() =~= a + b.drop_last());
        assert((a + b).last() == b.last());
    }
}

/// What a transfer that may be missing does to the balance of an account.
pub open spec fn change(transfer: Option<SignedTransfer>, account: Address) -> int {
    match transfer {
        None => 0,
        Some(t) => (if t.transfer.to == account {
            t.transfer.lamports as int
        } else {
            0
        }) - (if t.transfer.from == account {
            t.transfer.lamports as int
        } else {
            0
        }),
    }
}

/// A list of at most one transfer does what the transfer does.
pub(crate) proof fn lemma_net_listed(transfer: Option<SignedTransfer>, account: Address)
    ensures
        net(listed(transfer), account) == change(transfer, account),
{
    reveal_with_fuel(net, 2);
    match transfer {
        None => {},
        Some(t) => {
            assert(listed(transfer).drop_last() =~= seq![]);
        },
    }
}

} // verus!
