//! Account addresses, and how the program's own addresses are derived.

use anchor_lang::prelude::Pubkey;
use vstd::prelude::*;
use vstd::slice::slice_to_vec;
use vstd::utf8::encode_utf8;

verus! {

/// The address of an account.
#[derive(Clone, Copy, Debug, PartialEq, Eq)]
pub struct Address {
    pub bytes: [u8; 32],
}

/// Tells whether two 32-byte strings are the same.
pub fn same_bytes(a: &[u8; 32], b: &[u8; 32]) -> (r: bool)
    ensures
        r == (*a == *b),
        r == (a@ == b@),
{
    let mut i: usize = 0;
    while i < 32
        invariant
            i <= 32,
            forall|j: int| 0 <= j < i ==> a@[j] == b@[j],
        decreases 32 - i,
    {
        if a[i] != b[i] {
            assert(a@[i as int] != b@[i as int]);
            return false;
        }
        i += 1;
    }
    assert(a =~= b);
    assert(a@ =~= b@);
    true
}

impl Address {
    /// The address that stands for none: all zero.
    pub open spec fn is_unset(self) -> bool {
        forall|i: int| 0 <= i < 32 ==> self.bytes@[i] == 0
    }

    /// Tells whether two addresses are the same.
    pub fn same(&self, other: &Address) -> (r: bool)
        ensures
            r == (*self == *other),
    {
        same_bytes(&self.bytes, &other.bytes)
    }

    /// Tells whether the address is the one that stands for none.
    pub fn unset(&self) -> (r: bool)
        ensures
            r == self.is_unset(),
    {
        let mut i: usize = 0;
        while i < 32
            invariant
                i <= 32,
                forall|j: int| 0 <= j < i ==> self.bytes@[j] == 0,
            decreases 32 - i,
        {
            if self.bytes[i] != 0 {
                return false;
            }
            i += 1;
        }
        true
    }
}

/// The bytes of the address that the program is deployed at.
pub open spec fn id_bytes() -> Seq<u8> {
    seq![
        76, 0, 25, 187, 191, 126, 105, 77, 68, 131, 214, 184, 34, 88, 91, 134,
        142, 92, 60, 105, 107, 44, 90, 155, 16, 177, 199, 234, 144, 241, 17, 20,
    ]
}

/// The address that the program is deployed at,
/// `67g5HhrzQ2eqqEDJTEogHGBjAfwRD8evD3wg6LTDV8GK`.
pub fn id() -> (r: Address)
    ensures
        r.bytes@ == id_bytes(),
{
    let bytes: [u8; 32] = [
        76, 0, 25, 187, 191, 126, 105, 77, 68, 131, 214, 184, 34, 88, 91, 134,
        142, 92, 60, 105, 107, 44, 90, 155, 16, 177, 199, 234, 144, 241, 17, 20,
    ];
    assert(bytes@ =~= id_bytes());
    Address { bytes }
}

/// The longest seed of a program address, in bytes.
pub const MAX_SEED_LEN: usize = 32;

/// The number of seeds of a program address, the bump among them, is at most this.
pub const MAX_SEEDS: usize = 16;

/// The address of `program_id` that belongs to the seeds, with its bump seed;
/// `None` where no bump seed gives one.
pub uninterp spec fn program_address(seeds: Seq<Seq<u8>>, program_id: Seq<u8>) -> Option<
    (Seq<u8>, u8),
>;

/// What a search for a program address found, as bytes.
pub open spec fn found_bytes(found: Option<(Address, u8)>) -> Option<(Seq<u8>, u8)> {
    match found {
        Some((address, bump)) => Some((address.bytes@, bump)),
        None => None,
    }
}

pub open spec fn seed_bytes(seeds: Seq<Vec<u8>>) -> Seq<Seq<u8>> {
    seeds.map_values(|seed: Vec<u8>| seed@)
}

/// Calls `Pubkey::try_find_program_address`.
///
/// What is not proved: that the call returns the address and bump named
/// `program_address`, which depend on the seeds and the program id alone, and
/// that it finds none where there are too many seeds or one of them is too long.
#[verifier::external_body]
fn try_find_program_address(seeds: &Vec<Vec<u8>>, program_id: &Address) -> (found: Option<
    (Address, u8),
>)
    ensures
        found_bytes(found) == program_address(seed_bytes(seeds@), program_id.bytes@),
        seeds@.len() >= MAX_SEEDS ==> found is None,
        (exists|i: int| 0 <= i < seeds@.len() && (#[trigger] seeds@[i])@.len() > MAX_SEED_LEN)
            ==> found is None,
{
    let parts: Vec<&[u8]> = seeds.iter().map(|seed| seed.as_slice()).collect();
    Pubkey::try_find_program_address(&parts, &Pubkey::from(program_id.bytes)).map(
        |found| (Address { bytes: found.0.to_bytes() }, found.1),
    )
}

/// The seeds of the account that holds a player's entry in a game.
pub open spec fn entry_seeds(game_id: Seq<char>, player: Address) -> Seq<Seq<u8>> {
    seq![encode_utf8("entry"@), encode_utf8(game_id), player.bytes@]
}

/// The seeds of the vault of a mode.
pub open spec fn mode_vault_seeds(mode: u8) -> Seq<Seq<u8>> {
    seq![encode_utf8("mode-vault"@), seq![mode]]
}

/// Finds the account that holds a player's entry in a game.
///
/// A game id that does not fit into one seed has no such account.
pub fn entry_address(game_id: &str, player: &Address, program_id: &Address) -> (found: Option<
    (Address, u8),
>)
    ensures
        found_bytes(found) == program_address(
            entry_seeds(game_id@, *player),
            program_id.bytes@,
        ),
        encode_utf8(game_id@).len() > MAX_SEED_LEN ==> found is None,
{
    let seeds: Vec<Vec<u8>> = vec![
        slice_to_vec("entry".as_bytes()),
        slice_to_vec(game_id.as_bytes()),
        slice_to_vec(player.bytes.as_slice()),
    ];
    assert(seed_bytes(seeds@) =~= entry_seeds(game_id@, *player));
    assert(seeds@[1]@ == encode_utf8(game_id@));
    try_find_program_address(&seeds, program_id)
}

/// Finds the vault of a mode.
pub fn mode_vault_address(mode: u8) -> (found: Option<(Address, u8)>)
    ensures
        found_bytes(found) == program_address(mode_vault_seeds(mode), id_bytes()),
{
    let seeds: Vec<Vec<u8>> = vec![slice_to_vec("mode-vault".as_bytes()), vec![mode]];
    assert(seeds@[1]@ =~= seq![mode]);
    assert(seed_bytes(seeds@) =~= mode_vault_seeds(mode));
    try_find_program_address(&seeds, &id())
}

} // verus!
