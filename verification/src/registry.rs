//! Which entries of a streak a refund counts.

use crate::accounts::{
    copy_accounts, write_account, written, AccountData, RegisterNoWinnerEntries, RemainingAccount,
    RepairNoWinnerStreakEntries,
};
use crate::error::{DoorCashError, Fault};
use crate::event::NoWinnerEntriesRepaired;
use crate::state::{Game, GameStatus, ModeParticipant, ModeState, PlayerEntry, SettlementKind};
use vstd::prelude::*;

verus! {

/// Why an entry and a participant do not belong to a game, or not to each other.
pub open spec fn pair_refusal(
    game: Game,
    entry: PlayerEntry,
    participant: ModeParticipant,
) -> Option<DoorCashError> {
    if entry.game_id@ != game.game_id@ {
        Some(DoorCashError::EntryGameMismatch)
    } else if entry.mode != game.mode {
        Some(DoorCashError::ModeMismatch)
    } else if participant.wallet != entry.player {
        Some(DoorCashError::Unauthorized)
    } else if participant.mode != game.mode {
        Some(DoorCashError::ModeMismatch)
    } else {
        None
    }
}

/// Checks that an entry and a participant belong to a game and to each other.
pub fn check_pair(game: &Game, entry: &PlayerEntry, participant: &ModeParticipant) -> (r: Result<
    (),
    DoorCashError,
>)
    ensures
        match r {
            Ok(_) => pair_refusal(*game, *entry, *participant) is None,
            Err(e) => pair_refusal(*game, *entry, *participant) == Some(e),
        },
{
    if entry.game_id != game.game_id {
        return Err(DoorCashError::EntryGameMismatch);
    }
    if entry.mode != game.mode {
        return Err(DoorCashError::ModeMismatch);
    }
    if !participant.wallet.same(&entry.player) {
        return Err(DoorCashError::Unauthorized);
    }
    if participant.mode != game.mode {
        return Err(DoorCashError::ModeMismatch);
    }
    Ok(())
}

/// A participant in a streak: entries that were counted for another streak
/// count no more.
pub open spec fn in_streak(participant: ModeParticipant, streak_id: u64) -> ModeParticipant {
    if participant.streak_id != streak_id {
        ModeParticipant { streak_id, eligible_entries: 0, ..participant }
    } else {
        participant
    }
}

/// A participant with one more eligible entry.
pub open spec fn credited(participant: ModeParticipant) -> ModeParticipant {
    ModeParticipant {
        eligible_entries: (participant.eligible_entries + 1) as u64,
        ..participant
    }
}

/// An entry that has been counted for a streak.
pub open spec fn merged(entry: PlayerEntry, streak_id: u64) -> PlayerEntry {
    PlayerEntry { merged_streak_id: streak_id, ..entry }
}

/// Why an entry cannot be registered.
pub open spec fn register_entry_refusal(
    game: Game,
    mode_state: ModeState,
    entry: PlayerEntry,
    participant: ModeParticipant,
) -> Option<DoorCashError> {
    match pair_refusal(game, entry, participant) {
        Some(e) => Some(e),
        None => if entry.merged_streak_id != game.streak_id && (in_streak(
            participant,
            game.streak_id,
        ).eligible_entries == u64::MAX || mode_state.eligible_entry_count == u64::MAX) {
            Some(DoorCashError::ArithmeticOverflow)
        } else {
            None
        },
    }
}

/// The mode, the entry and the participant after an entry has been registered:
/// it counts once for the streak.
pub open spec fn registered(
    game: Game,
    mode_state: ModeState,
    entry: PlayerEntry,
    participant: ModeParticipant,
) -> (ModeState, PlayerEntry, ModeParticipant) {
    let current = in_streak(participant, game.streak_id);
    if entry.merged_streak_id != game.streak_id {
        (
            ModeState {
                eligible_entry_count: (mode_state.eligible_entry_count + 1) as u64,
                ..mode_state
            },
            merged(entry, game.streak_id),
            credited(current),
        )
    } else {
        (mode_state, entry, current)
    }
}

/// Registers one entry for the refund of its streak.
pub fn register_entry(
    game: &Game,
    mode_state: &mut ModeState,
    entry: &mut PlayerEntry,
    participant: &mut ModeParticipant,
) -> (r: Result<(), DoorCashError>)
    ensures
        match r {
            Ok(_) => {
                &&& register_entry_refusal(
                    *game,
                    *old(mode_state),
                    *old(entry),
                    *old(participant),
                ) is None
                &&& (*final(mode_state), *final(entry), *final(participant)) == registered(
                    *game,
                    *old(mode_state),
                    *old(entry),
                    *old(participant),
                )
            },
            Err(e) => {
                &&& register_entry_refusal(
                    *game,
                    *old(mode_state),
                    *old(entry),
                    *old(participant),
                ) == Some(e)
                &&& *final(mode_state) == *old(mode_state)
                &&& *final(entry) == *old(entry)
                &&& *final(participant) == *old(participant)
            },
        },
{
    if let Err(e) = check_pair(game, entry, participant) {
        return Err(e);
    }
    let mut current: ModeParticipant = *participant;
    if current.streak_id != game.streak_id {
        current.streak_id = game.streak_id;
        current.eligible_entries = 0;
    }
    if entry.merged_streak_id != game.streak_id {
        let entries: u64 = match current.eligible_entries.checked_add(1) {
            Some(entries) => entries,
            None => return Err(DoorCashError::ArithmeticOverflow),
        };
        let count: u64 = match mode_state.eligible_entry_count.checked_add(1) {
            Some(count) => count,
            None => return Err(DoorCashError::ArithmeticOverflow),
        };
        current.eligible_entries = entries;
        mode_state.eligible_entry_count = count;
        entry.merged_streak_id = game.streak_id;
    }
    *participant = current;
    Ok(())
}

/// The mode and the list after the pair at a place has been registered, or why
/// it is refused.
pub open spec fn register_pair(
    game: Game,
    mode_state: ModeState,
    accounts: Seq<RemainingAccount>,
    i: int,
) -> Result<(ModeState, Seq<RemainingAccount>), Fault> {
    match (accounts[2 * i].data.entry(), accounts[2 * i + 1].data.participant()) {
        (Err(fault), _) => Err(fault),
        (Ok(_), Err(fault)) => Err(fault),
        (Ok(entry), Ok(participant)) => match register_entry_refusal(
            game,
            mode_state,
            entry,
            participant,
        ) {
            Some(e) => Err(Fault::Program(e)),
            None => {
                let (new_mode, new_entry, new_participant) = registered(
                    game,
                    mode_state,
                    entry,
                    participant,
                );
                Ok(
                    (
                        new_mode,
                        written(
                            written(accounts, accounts[2 * i].key, AccountData::Entry(new_entry)),
                            accounts[2 * i + 1].key,
                            AccountData::Participant(new_participant),
                        ),
                    ),
                )
            },
        },
    }
}

/// The mode and the list after the first `n` pairs have been registered one by
/// one, or why the first refused pair is refused.
pub open spec fn register_pairs(
    game: Game,
    mode_state: ModeState,
    accounts: Seq<RemainingAccount>,
    n: nat,
) -> Result<(ModeState, Seq<RemainingAccount>), Fault>
    decreases n,
{
    if n == 0 {
        Ok((mode_state, accounts))
    } else {
        match register_pairs(game, mode_state, accounts, (n - 1) as nat) {
            Err(fault) => Err(fault),
            Ok((m, a)) => register_pair(game, m, a, n - 1),
        }
    }
}

pub(crate) proof fn lemma_register_stops(
    game: Game,
    mode_state: ModeState,
    accounts: Seq<RemainingAccount>,
    i: nat,
    n: nat,
)
    requires
        i <= n,
        register_pairs(game, mode_state, accounts, i) is Err,
    ensures
        register_pairs(game, mode_state, accounts, n) == register_pairs(
            game,
            mode_state,
            accounts,
            i,
        ),
    decreases n,
{
    if i < n {
        lemma_register_stops(game, mode_state, accounts, i, (n - 1) as nat);
    }
}

/// The mode and the list after a batch has been registered, or why it is refused.
pub open spec fn register_outcome(
    ctx: RegisterNoWinnerEntries,
    accounts: Seq<RemainingAccount>,
) -> Result<(ModeState, Seq<RemainingAccount>), Fault> {
    if ctx.game.authority != ctx.authority {
        Err(Fault::Program(DoorCashError::Unauthorized))
    } else if !(ctx.game.status is Active) {
        Err(Fault::Program(DoorCashError::InvalidGameStatus))
    } else if ctx.mode_state.refund_round_open {
        Err(Fault::Program(DoorCashError::ModeRefundRoundOpen))
    } else if ctx.mode_state.mode != ctx.game.mode {
        Err(Fault::Program(DoorCashError::ModeMismatch))
    } else if accounts.len() % 2 != 0 {
        Err(Fault::Program(DoorCashError::BatchAccountMismatch))
    } else {
        register_pairs(ctx.game, ctx.mode_state, accounts, accounts.len() / 2)
    }
}

/// Registers entries of an active game for the refund of their streak.
///
/// The list holds entries and the participants that they belong to by turns.
pub fn register_no_winner_entries(
    ctx: &mut RegisterNoWinnerEntries,
    remaining_accounts: &mut Vec<RemainingAccount>,
) -> (r: Result<(), Fault>)
    ensures
        match (r, register_outcome(*old(ctx), old(remaining_accounts)@)) {
            (Ok(_), Ok((mode_state, accounts))) => {
                &&& *final(ctx) == (RegisterNoWinnerEntries { mode_state, ..*old(ctx) })
                &&& final(remaining_accounts)@ == accounts
            },
            (Err(fault), Err(expected)) => {
                &&& fault == expected
                &&& *final(ctx) == *old(ctx)
                &&& *final(remaining_accounts) == *old(remaining_accounts)
            },
            _ => false,
        },
        old(ctx).mode_state.valid() ==> final(ctx).mode_state.valid(),
{
    if !ctx.game.authority.same(&ctx.authority) {
        return Err(Fault::Program(DoorCashError::Unauthorized));
    }
    if !matches!(ctx.game.status, GameStatus::Active) {
        return Err(Fault::Program(DoorCashError::InvalidGameStatus));
    }
    if ctx.mode_state.refund_round_open {
        return Err(Fault::Program(DoorCashError::ModeRefundRoundOpen));
    }
    if ctx.mode_state.mode != ctx.game.mode {
        return Err(Fault::Program(DoorCashError::ModeMismatch));
    }
    if remaining_accounts.len() % 2 != 0 {
        return Err(Fault::Program(DoorCashError::BatchAccountMismatch));
    }
    let n: usize = remaining_accounts.len() / 2;
    let mut mode_state: ModeState = ctx.mode_state;
    let mut accounts = copy_accounts(remaining_accounts);
    let mut i: usize = 0;
    while i < n
        invariant
            i <= n,
            accounts@.len() == 2 * n <= usize::MAX,
            n == old(remaining_accounts)@.len() / 2,
            *ctx == *old(ctx),
            *remaining_accounts == *old(remaining_accounts),
            register_outcome(*old(ctx), old(remaining_accounts)@) == register_pairs(
                ctx.game,
                ctx.mode_state,
                old(remaining_accounts)@,
                n as nat,
            ),
            register_pairs(ctx.game, ctx.mode_state, old(remaining_accounts)@, i as nat) == Ok::<
                (ModeState, Seq<RemainingAccount>),
                Fault,
            >((mode_state, accounts@)),
            !ctx.mode_state.refund_round_open,
            mode_state == (ModeState {
                eligible_entry_count: mode_state.eligible_entry_count,
                ..ctx.mode_state
            }),
        decreases n - i,
    {
        proof {
            if register_pair(ctx.game, mode_state, accounts@, i as int) is Err {
                lemma_register_stops(
                    ctx.game,
                    ctx.mode_state,
                    old(remaining_accounts)@,
                    (i + 1) as nat,
                    n as nat,
                );
            }
        }
        let mut entry = match accounts[2 * i].data.read_entry() {
            Ok(entry) => entry,
            Err(fault) => return Err(fault),
        };
        let mut participant = match accounts[2 * i + 1].data.read_participant() {
            Ok(participant) => participant,
            Err(fault) => return Err(fault),
        };
        if let Err(e) = register_entry(&ctx.game, &mut mode_state, &mut entry, &mut participant) {
            return Err(Fault::Program(e));
        }
        let entry_key = accounts[2 * i].key;
        let participant_key = accounts[2 * i + 1].key;
        write_account(&mut accounts, &entry_key, AccountData::Entry(entry));
        write_account(&mut accounts, &participant_key, AccountData::Participant(participant));
        i += 1;
    }
    ctx.mode_state = mode_state;
    *remaining_accounts = accounts;
    Ok(())
}

/// Why an entry cannot be repaired.
pub open spec fn repair_entry_refusal(
    game: Game,
    entry: PlayerEntry,
    participant: ModeParticipant,
) -> Option<DoorCashError> {
    match pair_refusal(game, entry, participant) {
        Some(e) => Some(e),
        None => if participant.last_paid_refund_round_id == game.refund_round_id {
            Some(DoorCashError::AlreadyRefunded)
        } else if entry.merged_streak_id != game.streak_id && in_streak(
            participant,
            game.streak_id,
        ).eligible_entries == u64::MAX {
            Some(DoorCashError::ArithmeticOverflow)
        } else {
            None
        },
    }
}

/// An entry is repaired where it has not been counted for the streak, or its
/// participant has no eligible entry left.
pub open spec fn needs_repair(game: Game, entry: PlayerEntry, participant: ModeParticipant) -> bool {
    ||| entry.merged_streak_id != game.streak_id
    ||| in_streak(participant, game.streak_id).eligible_entries == 0
}

/// The entry and the participant after a repair.
pub open spec fn repaired(
    game: Game,
    entry: PlayerEntry,
    participant: ModeParticipant,
) -> (PlayerEntry, ModeParticipant) {
    let current = in_streak(participant, game.streak_id);
    if needs_repair(game, entry, participant) {
        (merged(entry, game.streak_id), credited(current))
    } else {
        (entry, current)
    }
}

/// Repairs one entry of a game that is being settled without a winner, and
/// tells whether there was anything to repair.
pub fn repair_entry(
    game: &Game,
    entry: &mut PlayerEntry,
    participant: &mut ModeParticipant,
) -> (r: Result<bool, DoorCashError>)
    ensures
        match r {
            Ok(changed) => {
                &&& repair_entry_refusal(*game, *old(entry), *old(participant)) is None
                &&& (*final(entry), *final(participant)) == repaired(
                    *game,
                    *old(entry),
                    *old(participant),
                )
                &&& changed == needs_repair(*game, *old(entry), *old(participant))
            },
            Err(e) => {
                &&& repair_entry_refusal(*game, *old(entry), *old(participant)) == Some(e)
                &&& *final(entry) == *old(entry)
                &&& *final(participant) == *old(participant)
            },
        },
{
    if let Err(e) = check_pair(game, entry, participant) {
        return Err(e);
    }
    if participant.last_paid_refund_round_id == game.refund_round_id {
        return Err(DoorCashError::AlreadyRefunded);
    }
    let mut current: ModeParticipant = *participant;
    if current.streak_id != game.streak_id {
        current.streak_id = game.streak_id;
        current.eligible_entries = 0;
    }
    let mut changed = false;
    if entry.merged_streak_id != game.streak_id {
        current.eligible_entries = match current.eligible_entries.checked_add(1) {
            Some(entries) => entries,
            None => return Err(DoorCashError::ArithmeticOverflow),
        };
        entry.merged_streak_id = game.streak_id;
        changed = true;
    } else if current.eligible_entries == 0 {
        current.eligible_entries = 1;
        changed = true;
    }
    *participant = current;
    Ok(changed)
}

/// The number of repaired entries and the list after the pair at a place has
/// been repaired, or why it is refused.
pub open spec fn repair_pair(
    game: Game,
    count: nat,
    accounts: Seq<RemainingAccount>,
    i: int,
) -> Result<(nat, Seq<RemainingAccount>), Fault> {
    match (accounts[2 * i].data.entry(), accounts[2 * i + 1].data.participant()) {
        (Err(fault), _) => Err(fault),
        (Ok(_), Err(fault)) => Err(fault),
        (Ok(entry), Ok(participant)) => match repair_entry_refusal(game, entry, participant) {
            Some(e) => Err(Fault::Program(e)),
            None => {
                let (new_entry, new_participant) = repaired(game, entry, participant);
                Ok(
                    (
                        if needs_repair(game, entry, participant) {
                            count + 1
                        } else {
                            count
                        },
                        written(
                            written(accounts, accounts[2 * i].key, AccountData::Entry(new_entry)),
                            accounts[2 * i + 1].key,
                            AccountData::Participant(new_participant),
                        ),
                    ),
                )
            },
        },
    }
}

/// The number of repaired entries and the list after the first `n` pairs have
/// been repaired one by one, or why the first refused pair is refused.
pub open spec fn repair_pairs(game: Game, accounts: Seq<RemainingAccount>, n: nat) -> Result<
    (nat, Seq<RemainingAccount>),
    Fault,
>
    decreases n,
{
    if n == 0 {
        Ok((0, accounts))
    } else {
        match repair_pairs(game, accounts, (n - 1) as nat) {
            Err(fault) => Err(fault),
            Ok((count, a)) => repair_pair(game, count, a, n - 1),
        }
    }
}

pub(crate) proof fn lemma_repair_stops(game: Game, accounts: Seq<RemainingAccount>, i: nat, n: nat)
    requires
        i <= n,
        repair_pairs(game, accounts, i) is Err,
    ensures
        repair_pairs(game, accounts, n) == repair_pairs(game, accounts, i),
    decreases n,
{
    if i < n {
        lemma_repair_stops(game, accounts, i, (n - 1) as nat);
    }
}

/// The number of repaired entries and the list after a batch has been repaired,
/// or why it is refused.
pub open spec fn repair_outcome(
    ctx: RepairNoWinnerStreakEntries,
    accounts: Seq<RemainingAccount>,
) -> Result<(nat, Seq<RemainingAccount>), Fault> {
    if ctx.game.authority != ctx.authority {
        Err(Fault::Program(DoorCashError::Unauthorized))
    } else if !(ctx.game.status is Settling && ctx.game.settlement_kind is NoWinner) {
        Err(Fault::Program(DoorCashError::InvalidGameStatus))
    } else if ctx.mode_state.mode != ctx.game.mode {
        Err(Fault::Program(DoorCashError::ModeMismatch))
    } else if !ctx.mode_state.refund_round_open {
        Err(Fault::Program(DoorCashError::RefundRoundNotOpen))
    } else if ctx.mode_state.open_refund_round_id != ctx.game.refund_round_id {
        Err(Fault::Program(DoorCashError::RefundRoundMismatch))
    } else if accounts.len() % 2 != 0 {
        Err(Fault::Program(DoorCashError::BatchAccountMismatch))
    } else {
        repair_pairs(ctx.game, accounts, accounts.len() / 2)
    }
}

/// Makes up for entries that were not counted before the refund round of their
/// game was opened.
///
/// The list holds entries and the participants that they belong to by turns.
pub fn repair_no_winner_streak_entries(
    ctx: &RepairNoWinnerStreakEntries,
    remaining_accounts: &mut Vec<RemainingAccount>,
) -> (r: Result<NoWinnerEntriesRepaired, Fault>)
    ensures
        match (r, repair_outcome(*ctx, old(remaining_accounts)@)) {
            (Ok(event), Ok((count, accounts))) => {
                &&& event.game_id == ctx.game.game_id
                &&& event.refund_round_id == ctx.game.refund_round_id
                &&& event.repaired_entries == count
                &&& final(remaining_accounts)@ == accounts
            },
            (Err(fault), Err(expected)) => {
                &&& fault == expected
                &&& *final(remaining_accounts) == *old(remaining_accounts)
            },
            _ => false,
        },
{
    if !ctx.game.authority.same(&ctx.authority) {
        return Err(Fault::Program(DoorCashError::Unauthorized));
    }
    if !matches!(ctx.game.status, GameStatus::Settling) {
        return Err(Fault::Program(DoorCashError::InvalidGameStatus));
    }
    if !matches!(ctx.game.settlement_kind, SettlementKind::NoWinner) {
        return Err(Fault::Program(DoorCashError::InvalidGameStatus));
    }
    if ctx.mode_state.mode != ctx.game.mode {
        return Err(Fault::Program(DoorCashError::ModeMismatch));
    }
    if !ctx.mode_state.refund_round_open {
        return Err(Fault::Program(DoorCashError::RefundRoundNotOpen));
    }
    if ctx.mode_state.open_refund_round_id != ctx.game.refund_round_id {
        return Err(Fault::Program(DoorCashError::RefundRoundMismatch));
    }
    if remaining_accounts.len() % 2 != 0 {
        return Err(Fault::Program(DoorCashError::BatchAccountMismatch));
    }
    let n: usize = remaining_accounts.len() / 2;
    let mut accounts = copy_accounts(remaining_accounts);
    let mut repaired_entries: u64 = 0;
    let mut i: usize = 0;
    while i < n
        invariant
            i <= n,
            repaired_entries <= i,
            accounts@.len() == 2 * n <= usize::MAX,
            n == old(remaining_accounts)@.len() / 2,
            *remaining_accounts == *old(remaining_accounts),
            repair_outcome(*ctx, old(remaining_accounts)@) == repair_pairs(
                ctx.game,
                old(remaining_accounts)@,
                n as nat,
            ),
            repair_pairs(ctx.game, old(remaining_accounts)@, i as nat) == Ok::<
                (nat, Seq<RemainingAccount>),
                Fault,
            >((repaired_entries as nat, accounts@)),
        decreases n - i,
    {
        proof {
            if repair_pair(ctx.game, repaired_entries as nat, accounts@, i as int) is Err {
                lemma_repair_stops(
                    ctx.game,
                    old(remaining_accounts)@,
                    (i + 1) as nat,
                    n as nat,
                );
            }
        }
        let mut entry = match accounts[2 * i].data.read_entry() {
            Ok(entry) => entry,
            Err(fault) => return Err(fault),
        };
        let mut participant = match accounts[2 * i + 1].data.read_participant() {
            Ok(participant) => participant,
            Err(fault) => return Err(fault),
        };
        match repair_entry(&ctx.game, &mut entry, &mut participant) {
            Ok(changed) => {
                if changed {
                    repaired_entries = repaired_entries + 1;
                }
            },
            Err(e) => return Err(Fault::Program(e)),
        }
        let entry_key = accounts[2 * i].key;
        let participant_key = accounts[2 * i + 1].key;
        write_account(&mut accounts, &entry_key, AccountData::Entry(entry));
        write_account(&mut accounts, &participant_key, AccountData::Participant(participant));
        i += 1;
    }
    *remaining_accounts = accounts;
    Ok(
        NoWinnerEntriesRepaired {
            game_id: ctx.game.game_id.clone(),
            refund_round_id: ctx.game.refund_round_id,
            repaired_entries,
        },
    )
}

} // verus!
