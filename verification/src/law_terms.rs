//! What the laws of the instructions speak of.

use crate::address::{id_bytes, program_address, Address};
use crate::transfer::{signed, Transfer, VaultTransfer};
use vstd::prelude::*;
use vstd::utf8::encode_utf8;

verus! {

/// An instruction is refused for one reason.
pub open spec fn refused<T, E>(r: Result<T, E>, reason: E) -> bool {
    r is Err && r->Err_0 == reason
}

/// An address that no account has been given yet.
pub open spec fn blank(address: Address) -> bool {
    forall|i: int| 0 <= i < 32 ==> (#[trigger] address.bytes@[i]) == 0
}

/// A transfer and the seeds that sign for it.
pub open spec fn record(transfer: VaultTransfer) -> (Transfer, Seq<Seq<u8>>) {
    (transfer.transfer, transfer.signer_seeds@.map_values(|seed: Vec<u8>| seed@))
}

/// The transfers of a list, and the seeds that sign for them.
pub open spec fn records(transfers: Seq<VaultTransfer>) -> Seq<(Transfer, Seq<Seq<u8>>)> {
    transfers.map_values(|transfer: VaultTransfer| record(transfer))
}

/// The list of one movement of lamports, or of none where there is nothing to
/// move.
pub open spec fn moves(from: Address, to: Address, lamports: int, seeds: Seq<Seq<u8>>) -> Seq<
    (Transfer, Seq<Seq<u8>>),
> {
    if lamports == 0 {
        seq![]
    } else {
        seq![(Transfer { from, to, lamports: lamports as u64 }, seeds)]
    }
}

/// The list of a transfer that may be missing.
pub open spec fn recorded(transfer: Option<VaultTransfer>) -> Seq<(Transfer, Seq<Seq<u8>>)> {
    match transfer {
        Some(transfer) => seq![record(transfer)],
        None => seq![],
    }
}

/// The seeds that sign for the vault of a game.
pub open spec fn game_seeds(game_id: Seq<char>, bump: u8) -> Seq<Seq<u8>> {
    seq![encode_utf8("vault"@), encode_utf8(game_id), seq![bump]]
}

/// The seeds that sign for the vault of a mode.
pub open spec fn mode_seeds(mode: u8, bump: u8) -> Seq<Seq<u8>> {
    seq![encode_utf8("mode-vault"@), seq![mode], seq![bump]]
}

/// The address of the vault of a mode, and its bump.
pub open spec fn vault_of_mode(mode: u8) -> Option<(Seq<u8>, u8)> {
    program_address(seq![encode_utf8("mode-vault"@), seq![mode]], id_bytes())
}

/// An account is the vault of a mode.
pub open spec fn is_vault_of_mode(key: Address, mode: u8) -> bool {
    vault_of_mode(mode) is Some && vault_of_mode(mode)->Some_0.0 == key.bytes@
}

pub(crate) proof fn lemma_records(transfers: Seq<VaultTransfer>)
    ensures
        records(transfers).len() == signed(transfers).len(),
        forall|i: int|
            0 <= i < transfers.len() ==> #[trigger] records(transfers)[i] == (
                signed(transfers)[i].transfer,
                signed(transfers)[i].signer_seeds,
            ),
{
    assert forall|i: int| 0 <= i < transfers.len() implies #[trigger] records(transfers)[i] == (
        signed(transfers)[i].transfer,
        signed(transfers)[i].signer_seeds,
    ) by {
        assert(records(transfers)[i].1 =~= signed(transfers)[i].signer_seeds);
    }
}

} // verus!
