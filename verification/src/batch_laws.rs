//! What holds of the instructions that work on lists of accounts.

use crate::accounts::{
    coherent, written, AccountData, CloseNoWinnerSettlement, PayNoWinnerBatch,
    RegisterNoWinnerEntries, RemainingAccount, RepairNoWinnerStreakEntries,
};
use crate::address::Address;
use crate::error::Fault;
use crate::refund_round::{amount_due, close_refusal, pay_outcome, pay_pair, pay_pairs, payment};
use crate::registry::{
    pair_refusal, register_outcome, register_pair, register_pairs, registered, repair_outcome,
    repair_pair, repair_pairs, repaired,
};
use crate::state::{Game, ModeParticipant, ModeState, PlayerEntry};
use crate::transfer::{
    lemma_net_concat, lemma_net_listed, listed, mode_vault_found, mode_vault_signer, net,
    SignedTransfer, Transfer,
};
use vstd::prelude::*;
use vstd::utf8::encode_utf8;

verus! {

/// Writing to one account keeps a list coherent.
proof fn lemma_written_coherent(
    accounts: Seq<RemainingAccount>,
    key: Address,
    data: AccountData,
)
    requires
        coherent(accounts),
    ensures
        coherent(written(accounts, key, data)),
{
}

/// Writing what an account holds changes nothing.
proof fn lemma_written_same(accounts: Seq<RemainingAccount>, i: int)
    requires
        coherent(accounts),
        0 <= i < accounts.len(),
    ensures
        written(accounts, accounts[i].key, accounts[i].data) == accounts,
{
    assert(written(accounts, accounts[i].key, accounts[i].data) =~= accounts);
}

/// A pair that registering again would not change.
spec fn registered_at(game: Game, accounts: Seq<RemainingAccount>, i: int) -> bool {
    match (accounts[2 * i].data, accounts[2 * i + 1].data) {
        (AccountData::Entry(entry), AccountData::Participant(participant)) => {
            &&& pair_refusal(game, entry, participant) is None
            &&& entry.merged_streak_id == game.streak_id
            &&& participant.streak_id == game.streak_id
        },
        _ => false,
    }
}

proof fn lemma_register_pair(
    game: Game,
    mode_state: ModeState,
    accounts: Seq<RemainingAccount>,
    i: int,
)
    requires
        coherent(accounts),
        0 <= i,
        2 * i + 1 < accounts.len(),
        register_pair(game, mode_state, accounts, i) is Ok,
    ensures
        ({
            let after = register_pair(game, mode_state, accounts, i)->Ok_0.1;
            &&& coherent(after)
            &&& after.len() == accounts.len()
            &&& registered_at(game, after, i)
            &&& forall|j: int|
                0 <= j && 2 * j + 1 < accounts.len() && #[trigger] registered_at(game, accounts, j)
                    ==> registered_at(game, after, j)
        }),
{
    let entry = accounts[2 * i].data->Entry_0;
    let participant = accounts[2 * i + 1].data->Participant_0;
    let (_, new_entry, new_participant) = registered(game, mode_state, entry, participant);
    let entry_key = accounts[2 * i].key;
    let participant_key = accounts[2 * i + 1].key;
    assert(entry_key != participant_key);
    let between = written(accounts, entry_key, AccountData::Entry(new_entry));
    let after = written(between, participant_key, AccountData::Participant(new_participant));
    lemma_written_coherent(accounts, entry_key, AccountData::Entry(new_entry));
    lemma_written_coherent(between, participant_key, AccountData::Participant(new_participant));
    assert forall|j: int|
        0 <= j && 2 * j + 1 < accounts.len() && #[trigger] registered_at(
            game,
            accounts,
            j,
        ) implies registered_at(game, after, j) by {
        assert(accounts[2 * j].key != participant_key);
        assert(accounts[2 * j + 1].key != entry_key);
    }
}

proof fn lemma_register_pairs(
    game: Game,
    mode_state: ModeState,
    accounts: Seq<RemainingAccount>,
    n: nat,
)
    requires
        coherent(accounts),
        2 * n <= accounts.len(),
        register_pairs(game, mode_state, accounts, n) is Ok,
    ensures
        ({
            let after = register_pairs(game, mode_state, accounts, n)->Ok_0.1;
            &&& coherent(after)
            &&& after.len() == accounts.len()
            &&& forall|j: int| 0 <= j < n ==> #[trigger] registered_at(game, after, j)
        }),
    decreases n,
{
    if n > 0 {
        let m = (n - 1) as nat;
        lemma_register_pairs(game, mode_state, accounts, m);
        let (before_mode, before) = register_pairs(game, mode_state, accounts, m)->Ok_0;
        lemma_register_pair(game, before_mode, before, n - 1);
        let after = register_pairs(game, mode_state, accounts, n)->Ok_0.1;
        assert forall|j: int| 0 <= j < n implies #[trigger] registered_at(game, after, j) by {
            if j < n - 1 {
                assert(registered_at(game, before, j));
            }
        }
    }
}

proof fn lemma_register_again(
    game: Game,
    mode_state: ModeState,
    accounts: Seq<RemainingAccount>,
    n: nat,
)
    requires
        coherent(accounts),
        2 * n <= accounts.len(),
        forall|j: int| 0 <= j < n ==> #[trigger] registered_at(game, accounts, j),
    ensures
        register_pairs(game, mode_state, accounts, n) == Ok::<
            (ModeState, Seq<RemainingAccount>),
            Fault,
        >((mode_state, accounts)),
    decreases n,
{
    if n > 0 {
        lemma_register_again(game, mode_state, accounts, (n - 1) as nat);
        assert(registered_at(game, accounts, n - 1));
        lemma_written_same(accounts, 2 * (n - 1));
        lemma_written_same(accounts, 2 * (n - 1) + 1);
    }
}

/// An entry counts once for a streak: a batch that has been registered can be
/// registered again, and nothing changes.
pub proof fn law_registering_twice(
    ctx: RegisterNoWinnerEntries,
    accounts: Seq<RemainingAccount>,
)
    requires
        coherent(accounts),
        register_outcome(ctx, accounts) is Ok,
    ensures
        ({
            let (mode_state, after) = register_outcome(ctx, accounts)->Ok_0;
            register_outcome(RegisterNoWinnerEntries { mode_state, ..ctx }, after) == Ok::<
                (ModeState, Seq<RemainingAccount>),
                Fault,
            >((mode_state, after))
        }),
{
    let n = accounts.len() / 2;
    let (mode_state, after) = register_outcome(ctx, accounts)->Ok_0;
    lemma_register_pairs(ctx.game, ctx.mode_state, accounts, n);
    lemma_register_mode(ctx.game, ctx.mode_state, accounts, n);
    lemma_register_again(ctx.game, mode_state, after, n);
}

/// Registering changes nothing of a mode but the count of eligible entries.
proof fn lemma_register_mode(
    game: Game,
    mode_state: ModeState,
    accounts: Seq<RemainingAccount>,
    n: nat,
)
    requires
        register_pairs(game, mode_state, accounts, n) is Ok,
    ensures
        ({
            let after = register_pairs(game, mode_state, accounts, n)->Ok_0.0;
            after == ModeState { eligible_entry_count: after.eligible_entry_count, ..mode_state }
        }),
    decreases n,
{
    if n > 0 {
        lemma_register_mode(game, mode_state, accounts, (n - 1) as nat);
    }
}

/// A pair that repairing again would not change.
spec fn repaired_at(game: Game, accounts: Seq<RemainingAccount>, i: int) -> bool {
    match (accounts[2 * i].data, accounts[2 * i + 1].data) {
        (AccountData::Entry(entry), AccountData::Participant(participant)) => {
            &&& pair_refusal(game, entry, participant) is None
            &&& entry.merged_streak_id == game.streak_id
            &&& participant.streak_id == game.streak_id
            &&& participant.eligible_entries > 0
            &&& participant.last_paid_refund_round_id != game.refund_round_id
        },
        _ => false,
    }
}

proof fn lemma_repair_pair(game: Game, count: nat, accounts: Seq<RemainingAccount>, i: int)
    requires
        coherent(accounts),
        0 <= i,
        2 * i + 1 < accounts.len(),
        repair_pair(game, count, accounts, i) is Ok,
    ensures
        ({
            let after = repair_pair(game, count, accounts, i)->Ok_0.1;
            &&& coherent(after)
            &&& after.len() == accounts.len()
            &&& repaired_at(game, after, i)
            &&& forall|j: int|
                0 <= j && 2 * j + 1 < accounts.len() && #[trigger] repaired_at(game, accounts, j)
                    ==> repaired_at(game, after, j)
        }),
{
    let entry = accounts[2 * i].data->Entry_0;
    let participant = accounts[2 * i + 1].data->Participant_0;
    let (new_entry, new_participant) = repaired(game, entry, participant);
    let entry_key = accounts[2 * i].key;
    let participant_key = accounts[2 * i + 1].key;
    assert(entry_key != participant_key);
    let between = written(accounts, entry_key, AccountData::Entry(new_entry));
    let after = written(between, participant_key, AccountData::Participant(new_participant));
    lemma_written_coherent(accounts, entry_key, AccountData::Entry(new_entry));
    lemma_written_coherent(between, participant_key, AccountData::Participant(new_participant));
    assert forall|j: int|
        0 <= j && 2 * j + 1 < accounts.len() && #[trigger] repaired_at(
            game,
            accounts,
            j,
        ) implies repaired_at(game, after, j) by {
        assert(accounts[2 * j].key != participant_key);
        assert(accounts[2 * j + 1].key != entry_key);
    }
}

proof fn lemma_repair_pairs(game: Game, accounts: Seq<RemainingAccount>, n: nat)
    requires
        coherent(accounts),
        2 * n <= accounts.len(),
        repair_pairs(game, accounts, n) is Ok,
    ensures
        ({
            let (count, after) = repair_pairs(game, accounts, n)->Ok_0;
            &&& count <= n
            &&& coherent(after)
            &&& after.len() == accounts.len()
            &&& forall|j: int| 0 <= j < n ==> #[trigger] repaired_at(game, after, j)
        }),
    decreases n,
{
    if n > 0 {
        let m = (n - 1) as nat;
        lemma_repair_pairs(game, accounts, m);
        let (count, before) = repair_pairs(game, accounts, m)->Ok_0;
        lemma_repair_pair(game, count, before, n - 1);
        let after = repair_pairs(game, accounts, n)->Ok_0.1;
        assert forall|j: int| 0 <= j < n implies #[trigger] repaired_at(game, after, j) by {
            if j < n - 1 {
                assert(repaired_at(game, before, j));
            }
        }
    }
}

proof fn lemma_repair_again(game: Game, accounts: Seq<RemainingAccount>, n: nat)
    requires
        coherent(accounts),
        2 * n <= accounts.len(),
        forall|j: int| 0 <= j < n ==> #[trigger] repaired_at(game, accounts, j),
    ensures
        repair_pairs(game, accounts, n) == Ok::<(nat, Seq<RemainingAccount>), Fault>(
            (0nat, accounts),
        ),
    decreases n,
{
    if n > 0 {
        lemma_repair_again(game, accounts, (n - 1) as nat);
        assert(repaired_at(game, accounts, n - 1));
        lemma_written_same(accounts, 2 * (n - 1));
        lemma_written_same(accounts, 2 * (n - 1) + 1);
    }
}

/// A batch that has been repaired can be repaired again, and there is nothing
/// left to repair.
pub proof fn law_repairing_twice(
    ctx: RepairNoWinnerStreakEntries,
    accounts: Seq<RemainingAccount>,
)
    requires
        coherent(accounts),
        repair_outcome(ctx, accounts) is Ok,
    ensures
        ({
            let (count, after) = repair_outcome(ctx, accounts)->Ok_0;
            &&& count <= accounts.len() / 2
            &&& repair_outcome(ctx, after) == Ok::<(nat, Seq<RemainingAccount>), Fault>(
                (0nat, after),
            )
        }),
{
    let n = accounts.len() / 2;
    lemma_repair_pairs(ctx.game, accounts, n);
    lemma_repair_again(ctx.game, repair_outcome(ctx, accounts)->Ok_0.1, n);
}

/// A pair that has been paid in a refund round.
spec fn paid_at(game: Game, round: u64, accounts: Seq<RemainingAccount>, i: int) -> bool {
    match accounts[2 * i].data {
        AccountData::Participant(participant) => {
            &&& participant.mode == game.mode
            &&& participant.wallet == accounts[2 * i + 1].key
            &&& participant.streak_id == game.streak_id
            &&& participant.last_paid_refund_round_id == round
        },
        _ => false,
    }
}

proof fn lemma_pay_pair(
    game: Game,
    mode_vault: Address,
    found: Option<(Seq<u8>, u8)>,
    round: u64,
    so_far: (ModeState, Seq<RemainingAccount>, Seq<SignedTransfer>),
    i: int,
)
    requires
        coherent(so_far.1),
        0 <= i,
        2 * i + 1 < so_far.1.len(),
        pay_pair(game, mode_vault, found, round, so_far, i) is Ok,
    ensures
        ({
            let accounts = so_far.1;
            let after = pay_pair(game, mode_vault, found, round, so_far, i)->Ok_0.1;
            &&& coherent(after)
            &&& after.len() == accounts.len()
            &&& forall|j: int|
                0 <= j < accounts.len() ==> (#[trigger] after[j]).key == accounts[j].key
            &&& forall|j: int|
                0 <= j < accounts.len() && !(accounts[j].data is Participant) ==> (
                #[trigger] after[j]).data == accounts[j].data
            &&& paid_at(game, round, after, i)
            &&& forall|j: int|
                0 <= j && 2 * j + 1 < accounts.len() && #[trigger] paid_at(game, round, accounts, j)
                    ==> paid_at(game, round, after, j)
        }),
{
    let accounts = so_far.1;
    let participant = accounts[2 * i].data->Participant_0;
    let key = accounts[2 * i].key;
    let (_, new_participant, _) = payment(
        game,
        mode_vault,
        found,
        round,
        so_far.0,
        participant,
        accounts[2 * i + 1].key,
    )->Ok_0;
    lemma_written_coherent(accounts, key, AccountData::Participant(new_participant));
}

proof fn lemma_pay_pairs(
    game: Game,
    mode_vault: Address,
    found: Option<(Seq<u8>, u8)>,
    round: u64,
    mode_state: ModeState,
    accounts: Seq<RemainingAccount>,
    n: nat,
)
    requires
        coherent(accounts),
        2 * n <= accounts.len(),
        pay_pairs(game, mode_vault, found, round, mode_state, accounts, n) is Ok,
    ensures
        ({
            let (new_mode, after, _) = pay_pairs(
                game,
                mode_vault,
                found,
                round,
                mode_state,
                accounts,
                n,
            )->Ok_0;
            &&& coherent(after)
            &&& after.len() == accounts.len()
            &&& forall|j: int|
                0 <= j < accounts.len() ==> (#[trigger] after[j]).key == accounts[j].key
            &&& forall|j: int|
                0 <= j < accounts.len() && !(accounts[j].data is Participant) ==> (
                #[trigger] after[j]).data == accounts[j].data
            &&& forall|j: int| 0 <= j < n ==> #[trigger] paid_at(game, round, after, j)
            &&& new_mode == (ModeState {
                refund_paid_entry_count: new_mode.refund_paid_entry_count,
                ..mode_state
            })
        }),
    decreases n,
{
    if n > 0 {
        let m = (n - 1) as nat;
        lemma_pay_pairs(game, mode_vault, found, round, mode_state, accounts, m);
        let so_far = pay_pairs(game, mode_vault, found, round, mode_state, accounts, m)->Ok_0;
        lemma_pay_pair(game, mode_vault, found, round, so_far, n - 1);
        let before = so_far.1;
        let after = pay_pairs(game, mode_vault, found, round, mode_state, accounts, n)->Ok_0.1;
        assert forall|j: int| 0 <= j < n implies #[trigger] paid_at(game, round, after, j) by {
            if j < n - 1 {
                assert(paid_at(game, round, before, j));
            }
        }
        assert forall|j: int|
            0 <= j < accounts.len() && !(accounts[j].data is Participant) implies (
        #[trigger] after[j]).data == accounts[j].data by {
            assert(before[j].data == accounts[j].data);
        }
        assert forall|j: int| 0 <= j < accounts.len() implies (#[trigger] after[j]).key
            == accounts[j].key by {
            assert(before[j].key == accounts[j].key);
        }
    }
}

proof fn lemma_pay_again(
    game: Game,
    mode_vault: Address,
    found: Option<(Seq<u8>, u8)>,
    round: u64,
    mode_state: ModeState,
    accounts: Seq<RemainingAccount>,
    n: nat,
)
    requires
        coherent(accounts),
        2 * n <= accounts.len(),
        forall|j: int| 0 <= j < n ==> #[trigger] paid_at(game, round, accounts, j),
    ensures
        pay_pairs(game, mode_vault, found, round, mode_state, accounts, n) == Ok::<
            (ModeState, Seq<RemainingAccount>, Seq<SignedTransfer>),
            Fault,
        >((mode_state, accounts, Seq::<SignedTransfer>::empty())),
    decreases n,
{
    if n > 0 {
        lemma_pay_again(game, mode_vault, found, round, mode_state, accounts, (n - 1) as nat);
        assert(paid_at(game, round, accounts, n - 1));
        assert(Seq::<SignedTransfer>::empty() + listed(None) =~= Seq::<SignedTransfer>::empty());
    }
}

/// A participant is paid once in a refund round: a batch that has been paid can
/// be paid again, and nothing moves.
pub proof fn law_paid_once(
    ctx: PayNoWinnerBatch,
    accounts: Seq<RemainingAccount>,
    refund_round_id: u64,
)
    requires
        coherent(accounts),
        pay_outcome(ctx, accounts, refund_round_id) is Ok,
    ensures
        ({
            let (mode_state, after, _) = pay_outcome(ctx, accounts, refund_round_id)->Ok_0;
            pay_outcome(PayNoWinnerBatch { mode_state, ..ctx }, after, refund_round_id) == Ok::<
                (ModeState, Seq<RemainingAccount>, Seq<SignedTransfer>),
                Fault,
            >((mode_state, after, Seq::<SignedTransfer>::empty()))
        }),
{
    let n = accounts.len() / 2;
    let found = mode_vault_found(ctx.game.mode);
    let (mode_state, after, _) = pay_outcome(ctx, accounts, refund_round_id)->Ok_0;
    lemma_pay_pairs(
        ctx.game,
        ctx.mode_vault,
        found,
        refund_round_id,
        ctx.mode_state,
        accounts,
        n,
    );
    lemma_pay_again(ctx.game, ctx.mode_vault, found, refund_round_id, mode_state, after, n);
}

proof fn lemma_pay_net(
    game: Game,
    mode_vault: Address,
    found: Option<(Seq<u8>, u8)>,
    round: u64,
    mode_state: ModeState,
    accounts: Seq<RemainingAccount>,
    n: nat,
)
    requires
        coherent(accounts),
        2 * n <= accounts.len(),
        forall|i: int| 0 <= i < n ==> (#[trigger] accounts[2 * i + 1]).key != mode_vault,
        pay_pairs(game, mode_vault, found, round, mode_state, accounts, n) is Ok,
    ensures
        ({
            let (new_mode, _, moved) = pay_pairs(
                game,
                mode_vault,
                found,
                round,
                mode_state,
                accounts,
                n,
            )->Ok_0;
            &&& new_mode.refund_paid_entry_count >= mode_state.refund_paid_entry_count
            &&& net(moved, mode_vault) == -(mode_state.refund_per_entry_lamports * (
            new_mode.refund_paid_entry_count - mode_state.refund_paid_entry_count))
        }),
    decreases n,
{
    let per_entry = mode_state.refund_per_entry_lamports as int;
    if n == 0 {
        assert(per_entry * 0 == 0);
    } else {
        let m = (n - 1) as nat;
        lemma_pay_net(game, mode_vault, found, round, mode_state, accounts, m);
        lemma_pay_pairs(game, mode_vault, found, round, mode_state, accounts, m);
        let so_far = pay_pairs(game, mode_vault, found, round, mode_state, accounts, m)->Ok_0;
        let (before_mode, before, moved) = so_far;
        let participant = before[2 * (n - 1)].data->Participant_0;
        assert(before[2 * (n - 1) + 1].key == accounts[2 * (n - 1) + 1].key);
        let (new_mode, _, transfer) = payment(
            game,
            mode_vault,
            found,
            round,
            before_mode,
            participant,
            before[2 * (n - 1) + 1].key,
        )->Ok_0;
        lemma_net_concat(moved, listed(transfer), mode_vault);
        lemma_net_listed(transfer, mode_vault);
        let old_paid = mode_state.refund_paid_entry_count as int;
        let mid_paid = before_mode.refund_paid_entry_count as int;
        let new_paid = new_mode.refund_paid_entry_count as int;
        assert(per_entry * (new_paid - old_paid) == per_entry * (mid_paid - old_paid) + per_entry
            * (new_paid - mid_paid)) by (nonlinear_arith);
        if participant.last_paid_refund_round_id == round {
            assert(per_entry * (new_paid - mid_paid) == 0) by (nonlinear_arith)
                requires
                    new_paid == mid_paid,
            ;
        } else {
            assert(new_paid - mid_paid == participant.eligible_entries);
        }
    }
}

/// The refunds of a batch leave the vault of the mode, so much for each entry
/// that becomes a paid one; and as long as no more entries are paid than are
/// eligible, what the vault has to hold shrinks by the same amount.
pub proof fn law_payments_keep_mode_solvent(
    ctx: PayNoWinnerBatch,
    accounts: Seq<RemainingAccount>,
    refund_round_id: u64,
)
    requires
        coherent(accounts),
        forall|i: int|
            0 <= i < accounts.len() / 2 ==> (#[trigger] accounts[2 * i + 1]).key
                != ctx.mode_vault,
        pay_outcome(ctx, accounts, refund_round_id) is Ok,
    ensures
        ({
            let (mode_state, _, moved) = pay_outcome(ctx, accounts, refund_round_id)->Ok_0;
            &&& net(moved, ctx.mode_vault) == -(ctx.mode_state.refund_per_entry_lamports * (
            mode_state.refund_paid_entry_count - ctx.mode_state.refund_paid_entry_count))
            &&& mode_state.refund_paid_entry_count <= ctx.mode_state.eligible_entry_count ==> net(
                moved,
                ctx.mode_vault,
            ) == mode_state.obligations() - ctx.mode_state.obligations()
        }),
{
    let n = accounts.len() / 2;
    let found = mode_vault_found(ctx.game.mode);
    lemma_pay_net(
        ctx.game,
        ctx.mode_vault,
        found,
        refund_round_id,
        ctx.mode_state,
        accounts,
        n,
    );
    lemma_pay_pairs(
        ctx.game,
        ctx.mode_vault,
        found,
        refund_round_id,
        ctx.mode_state,
        accounts,
        n,
    );
    let (mode_state, _, _) = pay_outcome(ctx, accounts, refund_round_id)->Ok_0;
    let per_entry = ctx.mode_state.refund_per_entry_lamports as int;
    let eligible = ctx.mode_state.eligible_entry_count as int;
    let a = ctx.mode_state.refund_paid_entry_count as int;
    let b = mode_state.refund_paid_entry_count as int;
    assert(per_entry * (eligible - b) - per_entry * (eligible - a) == -(per_entry * (b - a)))
        by (nonlinear_arith);
    assert(per_entry * 0 == 0);
}

/// The place is the first at which its account stands in the list.
pub open spec fn first_at(accounts: Seq<RemainingAccount>, i: int) -> bool {
    forall|j: int| 0 <= j < i ==> (#[trigger] accounts[j]).key != accounts[i].key
}

/// The sum of a measure over the accounts of the first `n` places, each account
/// counted once.
pub open spec fn total(
    accounts: Seq<RemainingAccount>,
    measure: spec_fn(AccountData) -> int,
    n: nat,
) -> int
    decreases n,
{
    if n == 0 {
        0
    } else {
        total(accounts, measure, (n - 1) as nat) + (if first_at(accounts, n - 1) {
            measure(accounts[n - 1].data)
        } else {
            0
        })
    }
}

/// Writing to one account changes a sum by the change of that account.
proof fn lemma_total_written(
    accounts: Seq<RemainingAccount>,
    measure: spec_fn(AccountData) -> int,
    p: int,
    data: AccountData,
    n: nat,
)
    requires
        coherent(accounts),
        0 <= p < accounts.len(),
        n <= accounts.len(),
    ensures
        total(written(accounts, accounts[p].key, data), measure, n) == total(accounts, measure, n)
            + (if exists|j: int| 0 <= j < n && (#[trigger] accounts[j]).key == accounts[p].key {
            measure(data) - measure(accounts[p].data)
        } else {
            0
        }),
    decreases n,
{
    let after = written(accounts, accounts[p].key, data);
    if n > 0 {
        let m = n - 1;
        lemma_total_written(accounts, measure, p, data, m as nat);
        assert(first_at(after, m) == first_at(accounts, m)) by {
            assert(forall|j: int|
                0 <= j < accounts.len() ==> (#[trigger] after[j]).key == accounts[j].key);
            if first_at(accounts, m) {
                assert forall|j: int| 0 <= j < m implies (#[trigger] after[j]).key
                    != after[m].key by {
                    assert(accounts[j].key != accounts[m].key);
                }
            }
            if first_at(after, m) {
                assert forall|j: int| 0 <= j < m implies (#[trigger] accounts[j]).key
                    != accounts[m].key by {
                    assert(after[j].key != after[m].key);
                }
            }
        }
        if accounts[m].key == accounts[p].key {
            assert(accounts[m].data == accounts[p].data);
            if !first_at(accounts, m) {
                let j = choose|j: int| 0 <= j < m && (#[trigger] accounts[j]).key
                    == accounts[m].key;
                assert(accounts[j].key == accounts[p].key);
            }
        }
    }
}

/// The eligible entries of the participants of a streak.
pub open spec fn eligible_in(streak_id: u64) -> spec_fn(AccountData) -> int {
    |data: AccountData|
        match data {
            AccountData::Participant(participant) if participant.streak_id == streak_id => {
                participant.eligible_entries as int
            },
            _ => 0,
        }
}

proof fn lemma_register_total(
    game: Game,
    mode_state: ModeState,
    accounts: Seq<RemainingAccount>,
    n: nat,
)
    requires
        coherent(accounts),
        2 * n <= accounts.len(),
        register_pairs(game, mode_state, accounts, n) is Ok,
    ensures
        ({
            let (new_mode, after) = register_pairs(game, mode_state, accounts, n)->Ok_0;
            let measure = eligible_in(game.streak_id);
            new_mode.eligible_entry_count - mode_state.eligible_entry_count == total(
                after,
                measure,
                accounts.len(),
            ) - total(accounts, measure, accounts.len())
        }),
    decreases n,
{
    if n > 0 {
        let m = (n - 1) as nat;
        let len = accounts.len();
        let measure = eligible_in(game.streak_id);
        lemma_register_total(game, mode_state, accounts, m);
        lemma_register_pairs(game, mode_state, accounts, m);
        let (before_mode, before) = register_pairs(game, mode_state, accounts, m)->Ok_0;
        let e = 2 * (n - 1);
        let p = 2 * (n - 1) + 1;
        let entry = before[e].data->Entry_0;
        let participant = before[p].data->Participant_0;
        assert(before[e].key != before[p].key);
        let (new_mode, new_entry, new_participant) = registered(
            game,
            before_mode,
            entry,
            participant,
        );
        let between = written(before, before[e].key, AccountData::Entry(new_entry));
        lemma_written_coherent(before, before[e].key, AccountData::Entry(new_entry));
        lemma_total_written(before, measure, e, AccountData::Entry(new_entry), len);
        lemma_total_written(
            between,
            measure,
            p,
            AccountData::Participant(new_participant),
            len,
        );
        assert(between[p] == before[p]);
        assert(measure(AccountData::Entry(new_entry)) == 0);
        assert(measure(before[e].data) == 0);
    }
}

/// Registering raises the mode's count of eligible entries by as much as it
/// raises those of the participants.
pub proof fn law_registering_counts(
    ctx: RegisterNoWinnerEntries,
    accounts: Seq<RemainingAccount>,
)
    requires
        coherent(accounts),
        register_outcome(ctx, accounts) is Ok,
    ensures
        ({
            let (mode_state, after) = register_outcome(ctx, accounts)->Ok_0;
            let measure = eligible_in(ctx.game.streak_id);
            mode_state.eligible_entry_count - ctx.mode_state.eligible_entry_count == total(
                after,
                measure,
                after.len(),
            ) - total(accounts, measure, accounts.len())
        }),
{
    let n = accounts.len() / 2;
    lemma_register_total(ctx.game, ctx.mode_state, accounts, n);
    lemma_register_pairs(ctx.game, ctx.mode_state, accounts, n);
}

/// An account stands first in one of the first `n` pairs of a list.
pub open spec fn listed_first(accounts: Seq<RemainingAccount>, key: Address, n: nat) -> bool {
    exists|j: int| 0 <= j < n && (#[trigger] accounts[2 * j]).key == key
}

/// An account stands second in one of the first `n` pairs of a list.
pub open spec fn listed_second(accounts: Seq<RemainingAccount>, key: Address, n: nat) -> bool {
    exists|j: int| 0 <= j < n && (#[trigger] accounts[2 * j + 1]).key == key
}

proof fn lemma_listed(accounts: Seq<RemainingAccount>, key: Address, n: nat)
    requires
        n > 0,
    ensures
        listed_first(accounts, key, n) == (listed_first(accounts, key, (n - 1) as nat) || accounts[2
            * (n - 1)].key == key),
        listed_second(accounts, key, n) == (listed_second(accounts, key, (n - 1) as nat)
            || accounts[2 * (n - 1) + 1].key == key),
{
    let last = n - 1;
    if listed_first(accounts, key, last as nat) {
        let j = choose|j: int| 0 <= j < last && (#[trigger] accounts[2 * j]).key == key;
        assert(0 <= j < n && accounts[2 * j].key == key);
    }
    if accounts[2 * last].key == key {
        assert(0 <= last < n && accounts[2 * last].key == key);
    }
    if listed_second(accounts, key, last as nat) {
        let j = choose|j: int| 0 <= j < last && (#[trigger] accounts[2 * j + 1]).key == key;
        assert(0 <= j < n && accounts[2 * j + 1].key == key);
    }
    if accounts[2 * last + 1].key == key {
        assert(0 <= last < n && accounts[2 * last + 1].key == key);
    }
}

/// How many of the first `n` pairs count.
pub open spec fn tally(counts: spec_fn(int) -> bool, n: nat) -> nat
    decreases n,
{
    if n == 0 {
        0
    } else {
        tally(counts, (n - 1) as nat) + (if counts(n - 1) {
            1nat
        } else {
            0
        })
    }
}

pub(crate) proof fn lemma_tally_counts(counts: spec_fn(int) -> bool, j: int, n: nat)
    requires
        0 <= j < n,
        counts(j),
    ensures
        tally(counts, n) > 0,
    decreases n,
{
    if j < n - 1 {
        lemma_tally_counts(counts, j, (n - 1) as nat);
    }
}

/// How many of the first `n` pairs count for the account that stands second in
/// them.
pub open spec fn tally_for(
    accounts: Seq<RemainingAccount>,
    key: Address,
    counts: spec_fn(int) -> bool,
    n: nat,
) -> nat {
    tally(|j: int| counts(j) && accounts[2 * j + 1].key == key, n)
}

proof fn lemma_tally_none(
    accounts: Seq<RemainingAccount>,
    key: Address,
    counts: spec_fn(int) -> bool,
    n: nat,
)
    requires
        !listed_second(accounts, key, n),
    ensures
        tally_for(accounts, key, counts, n) == 0,
    decreases n,
{
    if n > 0 {
        lemma_listed(accounts, key, n);
        lemma_tally_none(accounts, key, counts, (n - 1) as nat);
    }
}

/// The entries that a participant has in a streak: those of another streak do
/// not count.
pub open spec fn entries_in(participant: ModeParticipant, streak_id: u64) -> int {
    if participant.streak_id == streak_id {
        participant.eligible_entries as int
    } else {
        0
    }
}

/// A participant of a streak with so many entries more than it had in it.
pub open spec fn with_entries(
    participant: ModeParticipant,
    streak_id: u64,
    more: nat,
) -> ModeParticipant {
    ModeParticipant {
        streak_id,
        eligible_entries: (entries_in(participant, streak_id) + more) as u64,
        ..participant
    }
}

/// A list of entries and participants after the first `n` pairs have been
/// counted for a streak: their entries are merged, and their participants have
/// one entry more for each pair that counts.
pub open spec fn counted_list(
    accounts: Seq<RemainingAccount>,
    streak_id: u64,
    counts: spec_fn(int) -> bool,
    n: nat,
) -> Seq<RemainingAccount> {
    accounts.map_values(
        |account: RemainingAccount|
            RemainingAccount {
                key: account.key,
                data: match account.data {
                    AccountData::Entry(entry) if listed_first(accounts, account.key, n) => {
                        AccountData::Entry(PlayerEntry { merged_streak_id: streak_id, ..entry })
                    },
                    AccountData::Participant(participant) if listed_second(
                        accounts,
                        account.key,
                        n,
                    ) => AccountData::Participant(
                        with_entries(
                            participant,
                            streak_id,
                            tally_for(accounts, account.key, counts, n),
                        ),
                    ),
                    data => data,
                },
            },
    )
}

proof fn lemma_count_pair(
    accounts: Seq<RemainingAccount>,
    streak_id: u64,
    counts: spec_fn(int) -> bool,
    n: nat,
)
    requires
        coherent(accounts),
        0 < n,
        2 * n <= accounts.len(),
        accounts[2 * (n - 1)].data is Entry,
        accounts[2 * (n - 1) + 1].data is Participant,
    ensures
        ({
            let entry = accounts[2 * (n - 1)];
            let participant = accounts[2 * (n - 1) + 1];
            written(
                written(
                    counted_list(accounts, streak_id, counts, (n - 1) as nat),
                    entry.key,
                    AccountData::Entry(
                        PlayerEntry { merged_streak_id: streak_id, ..entry.data->Entry_0 },
                    ),
                ),
                participant.key,
                AccountData::Participant(
                    with_entries(
                        participant.data->Participant_0,
                        streak_id,
                        tally_for(accounts, participant.key, counts, n),
                    ),
                ),
            ) == counted_list(accounts, streak_id, counts, n)
        }),
{
    let entry = accounts[2 * (n - 1)];
    let participant = accounts[2 * (n - 1) + 1];
    let before = counted_list(accounts, streak_id, counts, (n - 1) as nat);
    let between = written(
        before,
        entry.key,
        AccountData::Entry(
                        PlayerEntry { merged_streak_id: streak_id, ..entry.data->Entry_0 },
                    ),
    );
    let after = written(
        between,
        participant.key,
        AccountData::Participant(
            with_entries(
                participant.data->Participant_0,
                streak_id,
                tally_for(accounts, participant.key, counts, n),
            ),
        ),
    );
    let expected = counted_list(accounts, streak_id, counts, n);
    assert forall|q: int| 0 <= q < accounts.len() implies #[trigger] after[q] == expected[q] by {
        lemma_listed(accounts, accounts[q].key, n);
        assert(before[q].key == accounts[q].key);
    }
    assert(after =~= expected);
}

/// The entry and the participant of a pair belong to a game and to each other.
pub open spec fn pair_belongs(game: Game, accounts: Seq<RemainingAccount>, j: int) -> bool {
    match (accounts[2 * j].data, accounts[2 * j + 1].data) {
        (AccountData::Entry(entry), AccountData::Participant(participant)) => {
            &&& entry.game_id@ == game.game_id@
            &&& entry.mode == game.mode
            &&& participant.wallet == entry.player
            &&& participant.mode == game.mode
        },
        _ => false,
    }
}

/// The entries that the participant of a pair has in a streak after the first
/// `n` pairs have been counted.
pub open spec fn entries_after(
    accounts: Seq<RemainingAccount>,
    streak_id: u64,
    counts: spec_fn(int) -> bool,
    j: int,
    n: nat,
) -> int {
    entries_in(accounts[2 * j + 1].data->Participant_0, streak_id) + tally_for(
        accounts,
        accounts[2 * j + 1].key,
        counts,
        n,
    )
}

/// The pair at a place of a list after all pairs have been counted: the entry is
/// merged, and the participant has one entry more for each pair that counts for
/// it.
pub open spec fn counted_at(
    accounts: Seq<RemainingAccount>,
    streak_id: u64,
    counts: spec_fn(int) -> bool,
    after: Seq<RemainingAccount>,
    i: int,
) -> bool {
    let entry = accounts[2 * i].data->Entry_0;
    let participant = accounts[2 * i + 1].data->Participant_0;
    let entries = after[2 * i + 1].data->Participant_0.eligible_entries;
    &&& after[2 * i].key == accounts[2 * i].key
    &&& after[2 * i + 1].key == accounts[2 * i + 1].key
    &&& after[2 * i].data == AccountData::Entry(
        PlayerEntry { merged_streak_id: streak_id, ..entry },
    )
    &&& after[2 * i + 1].data == AccountData::Participant(
        ModeParticipant { streak_id, eligible_entries: entries, ..participant },
    )
    &&& entries == entries_after(accounts, streak_id, counts, i, accounts.len() / 2)
}

proof fn lemma_counted_pairs(
    game: Game,
    accounts: Seq<RemainingAccount>,
    counts: spec_fn(int) -> bool,
)
    requires
        ({
            let n = accounts.len() / 2;
            &&& forall|j: int| 0 <= j < n ==> #[trigger] pair_belongs(game, accounts, j)
            &&& forall|j: int|
                0 <= j < n ==> #[trigger] entries_after(accounts, game.streak_id, counts, j, n)
                    <= u64::MAX
        }),
    ensures
        ({
            let n = accounts.len() / 2;
            let after = counted_list(accounts, game.streak_id, counts, n);
            forall|i: int|
                0 <= i < n ==> #[trigger] counted_at(accounts, game.streak_id, counts, after, i)
        }),
{
    let n = accounts.len() / 2;
    let after = counted_list(accounts, game.streak_id, counts, n);
    assert forall|i: int| 0 <= i < n implies #[trigger] counted_at(
        accounts,
        game.streak_id,
        counts,
        after,
        i,
    ) by {
        assert(pair_belongs(game, accounts, i));
        assert(entries_after(accounts, game.streak_id, counts, i, n) <= u64::MAX);
        assert(listed_first(accounts, accounts[2 * i].key, n));
        assert(listed_second(accounts, accounts[2 * i + 1].key, n)) by {
            assert(0 <= i < n && accounts[2 * i + 1].key == accounts[2 * i + 1].key);
        }
    }
}

/// The pairs whose entry has not been counted for a streak and stands in no
/// earlier pair.
pub open spec fn newly_merged(accounts: Seq<RemainingAccount>, streak_id: u64) -> spec_fn(
    int,
) -> bool {
    |j: int|
        {
            &&& accounts[2 * j].data->Entry_0.merged_streak_id != streak_id
            &&& !listed_first(accounts, accounts[2 * j].key, j as nat)
        }
}

/// The first `n` pairs of a list can be registered: each of them belongs to the
/// game, and no count overflows.
pub open spec fn registrable(
    game: Game,
    mode_state: ModeState,
    accounts: Seq<RemainingAccount>,
    n: nat,
) -> bool {
    let counts = newly_merged(accounts, game.streak_id);
    &&& forall|j: int| 0 <= j < n ==> #[trigger] pair_belongs(game, accounts, j)
    &&& forall|j: int|
        0 <= j < n ==> #[trigger] entries_after(accounts, game.streak_id, counts, j, n) <= u64::MAX
    &&& mode_state.eligible_entry_count + tally(counts, n) <= u64::MAX
}

pub(crate) proof fn lemma_register_amounts(
    game: Game,
    mode_state: ModeState,
    accounts: Seq<RemainingAccount>,
    n: nat,
)
    requires
        coherent(accounts),
        2 * n <= accounts.len(),
    ensures
        ({
            let counts = newly_merged(accounts, game.streak_id);
            match register_pairs(game, mode_state, accounts, n) {
                Ok((new_mode, after)) => {
                    &&& registrable(game, mode_state, accounts, n)
                    &&& new_mode == (ModeState {
                        eligible_entry_count: (mode_state.eligible_entry_count + tally(
                            counts,
                            n,
                        )) as u64,
                        ..mode_state
                    })
                    &&& after == counted_list(accounts, game.streak_id, counts, n)
                },
                Err(_) => !registrable(game, mode_state, accounts, n),
            }
        }),
    decreases n,
{
    let streak_id = game.streak_id;
    let counts = newly_merged(accounts, streak_id);
    if n == 0 {
        assert(counted_list(accounts, streak_id, counts, 0) =~= accounts);
    } else {
        let m = (n - 1) as nat;
        lemma_register_amounts(game, mode_state, accounts, m);
        let e = accounts[2 * (n - 1)];
        let p = accounts[2 * (n - 1) + 1];
        lemma_listed(accounts, p.key, n);
        if register_pairs(game, mode_state, accounts, m) is Err {
            if registrable(game, mode_state, accounts, n) {
                assert forall|j: int| 0 <= j < m implies #[trigger] entries_after(
                    accounts,
                    streak_id,
                    counts,
                    j,
                    m,
                ) <= u64::MAX by {
                    assert(entries_after(accounts, streak_id, counts, j, n) <= u64::MAX);
                }
                assert(registrable(game, mode_state, accounts, m));
            }
        } else {
            let (before_mode, before) = register_pairs(game, mode_state, accounts, m)->Ok_0;
            if pair_belongs(game, accounts, n - 1) {
                lemma_count_pair(accounts, streak_id, counts, n);
                if !listed_second(accounts, p.key, m) {
                    lemma_tally_none(accounts, p.key, counts, m);
                } else {
                    let i = choose|i: int| 0 <= i < m && (#[trigger] accounts[2 * i + 1]).key
                        == p.key;
                    assert(entries_after(accounts, streak_id, counts, i, m) <= u64::MAX);
                    assert(accounts[2 * i + 1].data == p.data);
                }
                assert(registrable(game, mode_state, accounts, n) ==> entries_after(
                    accounts,
                    streak_id,
                    counts,
                    n - 1,
                    n,
                ) <= u64::MAX);
                if register_pair(game, before_mode, before, n - 1) is Ok {
                    assert forall|j: int| 0 <= j < n implies #[trigger] entries_after(
                        accounts,
                        streak_id,
                        counts,
                        j,
                        n,
                    ) <= u64::MAX by {
                        if accounts[2 * j + 1].key == p.key {
                            assert(accounts[2 * j + 1].data == p.data);
                        } else {
                            assert(entries_after(accounts, streak_id, counts, j, m) <= u64::MAX);
                        }
                    }
                }
            }
        }
    }
}

/// What registering a batch amounts to. It succeeds exactly where an empty batch
/// would and every pair is registrable. It raises the mode's count by the number
/// of entries in the list that had not been counted for the streak, each entry
/// taken once; it marks every entry as counted; and it gives each participant
/// one entry more for each of those that stands with it.
pub proof fn law_registering_amounts(
    ctx: RegisterNoWinnerEntries,
    accounts: Seq<RemainingAccount>,
)
    requires
        coherent(accounts),
    ensures
        ({
            let n = accounts.len() / 2;
            let streak_id = ctx.game.streak_id;
            let counts = newly_merged(accounts, streak_id);
            &&& register_outcome(ctx, accounts) is Ok <==> {
                &&& register_outcome(ctx, Seq::empty()) is Ok
                &&& accounts.len() % 2 == 0
                &&& registrable(ctx.game, ctx.mode_state, accounts, n)
            }
            &&& register_outcome(ctx, accounts) matches Ok((mode_state, after)) ==> {
                &&& mode_state == (ModeState {
                    eligible_entry_count: mode_state.eligible_entry_count,
                    ..ctx.mode_state
                })
                &&& mode_state.eligible_entry_count == ctx.mode_state.eligible_entry_count + tally(
                    counts,
                    n,
                )
                &&& after == counted_list(accounts, streak_id, counts, n)
                &&& forall|i: int|
                    0 <= i < n ==> #[trigger] counted_at(accounts, streak_id, counts, after, i)
            }
        }),
{
    let n = accounts.len() / 2;
    let counts = newly_merged(accounts, ctx.game.streak_id);
    lemma_register_amounts(ctx.game, ctx.mode_state, accounts, n);
    assert(register_pairs(ctx.game, ctx.mode_state, Seq::empty(), 0) is Ok);
    if register_outcome(ctx, accounts) is Ok {
        lemma_counted_pairs(ctx.game, accounts, counts);
    }
}

/// The pairs that a repair changes: those whose entry has not been counted for
/// the streak and stands in no earlier pair, and those whose participant has no
/// entry in the streak and stands in no earlier pair.
pub open spec fn newly_repaired(accounts: Seq<RemainingAccount>, streak_id: u64) -> spec_fn(
    int,
) -> bool {
    |j: int|
        {
            ||| newly_merged(accounts, streak_id)(j)
            ||| {
                &&& entries_in(accounts[2 * j + 1].data->Participant_0, streak_id) == 0
                &&& !listed_second(accounts, accounts[2 * j + 1].key, j as nat)
            }
        }
}

/// The first `n` pairs of a list can be repaired: each of them belongs to the
/// game, none of them has been paid in its refund round, and no count overflows.
pub open spec fn repairable(game: Game, accounts: Seq<RemainingAccount>, n: nat) -> bool {
    let counts = newly_repaired(accounts, game.streak_id);
    &&& forall|j: int| 0 <= j < n ==> #[trigger] pair_belongs(game, accounts, j)
    &&& forall|j: int|
        0 <= j < n ==> (#[trigger] accounts[2 * j
            + 1]).data->Participant_0.last_paid_refund_round_id != game.refund_round_id
    &&& forall|j: int|
        0 <= j < n ==> #[trigger] entries_after(accounts, game.streak_id, counts, j, n) <= u64::MAX
}

pub(crate) proof fn lemma_repair_amounts(game: Game, accounts: Seq<RemainingAccount>, n: nat)
    requires
        coherent(accounts),
        2 * n <= accounts.len(),
    ensures
        ({
            let counts = newly_repaired(accounts, game.streak_id);
            match repair_pairs(game, accounts, n) {
                Ok((count, after)) => {
                    &&& repairable(game, accounts, n)
                    &&& forall|j: int|
                        0 <= j < n ==> #[trigger] entries_after(
                            accounts,
                            game.streak_id,
                            counts,
                            j,
                            n,
                        ) > 0
                    &&& count == tally(counts, n)
                    &&& after == counted_list(accounts, game.streak_id, counts, n)
                },
                Err(_) => !repairable(game, accounts, n),
            }
        }),
    decreases n,
{
    let streak_id = game.streak_id;
    let counts = newly_repaired(accounts, streak_id);
    if n == 0 {
        assert(counted_list(accounts, streak_id, counts, 0) =~= accounts);
    } else {
        let m = (n - 1) as nat;
        lemma_repair_amounts(game, accounts, m);
        let p = accounts[2 * (n - 1) + 1];
        lemma_listed(accounts, p.key, n);
        if repair_pairs(game, accounts, m) is Err {
            if repairable(game, accounts, n) {
                assert forall|j: int| 0 <= j < m implies #[trigger] entries_after(
                    accounts,
                    streak_id,
                    counts,
                    j,
                    m,
                ) <= u64::MAX by {
                    assert(entries_after(accounts, streak_id, counts, j, n) <= u64::MAX);
                }
                assert(repairable(game, accounts, m));
            }
        } else {
            let (count, before) = repair_pairs(game, accounts, m)->Ok_0;
            if pair_belongs(game, accounts, n - 1) {
                lemma_count_pair(accounts, streak_id, counts, n);
                if !listed_second(accounts, p.key, m) {
                    lemma_tally_none(accounts, p.key, counts, m);
                } else {
                    let i = choose|i: int| 0 <= i < m && (#[trigger] accounts[2 * i + 1]).key
                        == p.key;
                    assert(0 < entries_after(accounts, streak_id, counts, i, m) <= u64::MAX);
                    assert(accounts[2 * i + 1].data == p.data);
                }
                assert(repairable(game, accounts, n) ==> entries_after(
                    accounts,
                    streak_id,
                    counts,
                    n - 1,
                    n,
                ) <= u64::MAX);
                if repair_pair(game, count, before, n - 1) is Ok {
                    assert forall|j: int| 0 <= j < n implies 0 < #[trigger] entries_after(
                        accounts,
                        streak_id,
                        counts,
                        j,
                        n,
                    ) <= u64::MAX by {
                        if accounts[2 * j + 1].key == p.key {
                            assert(accounts[2 * j + 1].data == p.data);
                        } else {
                            assert(0 < entries_after(accounts, streak_id, counts, j, m)
                                <= u64::MAX);
                        }
                    }
                }
            }
        }
    }
}

/// What repairing a batch amounts to. It succeeds exactly where an empty batch
/// would and every pair is repairable. It marks every entry as counted, gives
/// each participant one entry more for each pair of it that is changed, and
/// tells how many pairs are changed.
pub proof fn law_repairing_amounts(
    ctx: RepairNoWinnerStreakEntries,
    accounts: Seq<RemainingAccount>,
)
    requires
        coherent(accounts),
    ensures
        ({
            let n = accounts.len() / 2;
            let streak_id = ctx.game.streak_id;
            let counts = newly_repaired(accounts, streak_id);
            &&& repair_outcome(ctx, accounts) is Ok <==> {
                &&& repair_outcome(ctx, Seq::empty()) is Ok
                &&& accounts.len() % 2 == 0
                &&& repairable(ctx.game, accounts, n)
            }
            &&& repair_outcome(ctx, accounts) matches Ok((count, after)) ==> {
                &&& count == tally(counts, n)
                &&& after == counted_list(accounts, streak_id, counts, n)
                &&& forall|i: int|
                    0 <= i < n ==> #[trigger] counted_at(accounts, streak_id, counts, after, i)
            }
        }),
{
    let n = accounts.len() / 2;
    let counts = newly_repaired(accounts, ctx.game.streak_id);
    lemma_repair_amounts(ctx.game, accounts, n);
    assert(repair_pairs(ctx.game, Seq::empty(), 0) is Ok);
    if repair_outcome(ctx, accounts) is Ok {
        lemma_counted_pairs(ctx.game, accounts, counts);
    }
}

/// No account stands twice in a list.
pub open spec fn no_repetition(accounts: Seq<RemainingAccount>) -> bool {
    forall|i: int, j: int|
        0 <= i < accounts.len() && 0 <= j < accounts.len() && i != j ==> (
        #[trigger] accounts[i]).key != (#[trigger] accounts[j]).key
}

proof fn lemma_tally_one(
    accounts: Seq<RemainingAccount>,
    counts: spec_fn(int) -> bool,
    i: int,
    n: nat,
)
    requires
        no_repetition(accounts),
        2 * n <= accounts.len(),
        0 <= i < n,
    ensures
        tally_for(accounts, accounts[2 * i + 1].key, counts, n) == if counts(i) {
            1nat
        } else {
            0
        },
    decreases n,
{
    let key = accounts[2 * i + 1].key;
    let m = (n - 1) as nat;
    if i == n - 1 {
        assert(!listed_second(accounts, key, m));
        lemma_tally_none(accounts, key, counts, m);
    } else {
        lemma_tally_one(accounts, counts, i, m);
    }
}

proof fn lemma_tally_same(f: spec_fn(int) -> bool, g: spec_fn(int) -> bool, n: nat)
    requires
        forall|j: int| 0 <= j < n ==> #[trigger] f(j) == g(j),
    ensures
        tally(f, n) == tally(g, n),
    decreases n,
{
    if n > 0 {
        lemma_tally_same(f, g, (n - 1) as nat);
        assert(f(n - 1) == g(n - 1));
    }
}

/// The pairs of a list that a repair would change by themselves.
pub open spec fn in_need(game: Game, accounts: Seq<RemainingAccount>) -> spec_fn(int) -> bool {
    |j: int|
        {
            ||| accounts[2 * j].data->Entry_0.merged_streak_id != game.streak_id
            ||| entries_in(accounts[2 * j + 1].data->Participant_0, game.streak_id) == 0
        }
}

/// A pair can be repaired by itself.
pub open spec fn repairable_alone(game: Game, accounts: Seq<RemainingAccount>, i: int) -> bool {
    let participant = accounts[2 * i + 1].data->Participant_0;
    &&& pair_belongs(game, accounts, i)
    &&& participant.last_paid_refund_round_id != game.refund_round_id
    &&& accounts[2 * i].data->Entry_0.merged_streak_id == game.streak_id || entries_in(
        participant,
        game.streak_id,
    ) < u64::MAX
}

/// A pair has become what a repair of it by itself makes of it.
pub open spec fn repaired_alone(
    game: Game,
    accounts: Seq<RemainingAccount>,
    after: Seq<RemainingAccount>,
    i: int,
) -> bool {
    let entry = accounts[2 * i].data->Entry_0;
    let participant = accounts[2 * i + 1].data->Participant_0;
    let more = if in_need(game, accounts)(i) {
        1nat
    } else {
        0
    };
    &&& after[2 * i] == (RemainingAccount {
        key: accounts[2 * i].key,
        data: AccountData::Entry(PlayerEntry { merged_streak_id: game.streak_id, ..entry }),
    })
    &&& after[2 * i + 1] == (RemainingAccount {
        key: accounts[2 * i + 1].key,
        data: AccountData::Participant(with_entries(participant, game.streak_id, more)),
    })
}

/// Repairing a list in which no account stands twice repairs each pair by
/// itself, and tells how many of the pairs needed it.
pub proof fn law_repairing_each(ctx: RepairNoWinnerStreakEntries, accounts: Seq<RemainingAccount>)
    requires
        no_repetition(accounts),
    ensures
        ({
            let n = accounts.len() / 2;
            &&& repair_outcome(ctx, accounts) is Ok <==> {
                &&& repair_outcome(ctx, Seq::empty()) is Ok
                &&& accounts.len() % 2 == 0
                &&& forall|i: int|
                    0 <= i < n ==> #[trigger] repairable_alone(ctx.game, accounts, i)
            }
            &&& repair_outcome(ctx, accounts) matches Ok((count, after)) ==> {
                &&& count == tally(in_need(ctx.game, accounts), n)
                &&& after.len() == accounts.len()
                &&& forall|i: int|
                    0 <= i < n ==> #[trigger] repaired_alone(ctx.game, accounts, after, i)
            }
        }),
{
    let n = accounts.len() / 2;
    let game = ctx.game;
    let streak_id = game.streak_id;
    let counts = newly_repaired(accounts, streak_id);
    law_repairing_amounts(ctx, accounts);
    assert forall|j: int| 0 <= j < n implies #[trigger] counts(j) == in_need(game, accounts)(
        j,
    ) by {
        assert(!listed_first(accounts, accounts[2 * j].key, j as nat));
        assert(!listed_second(accounts, accounts[2 * j + 1].key, j as nat));
    }
    lemma_tally_same(counts, in_need(game, accounts), n);
    assert forall|j: int| 0 <= j < n implies {
        let base = entries_in(accounts[2 * j + 1].data->Participant_0, streak_id);
        #[trigger] entries_after(accounts, streak_id, counts, j, n) == base + (if in_need(
            game,
            accounts,
        )(j) {
            1int
        } else {
            0
        })
    } by {
        lemma_tally_one(accounts, counts, j, n);
        assert(counts(j) == in_need(game, accounts)(j));
    }
    if repairable(game, accounts, n) {
        assert forall|i: int| 0 <= i < n implies #[trigger] repairable_alone(
            game,
            accounts,
            i,
        ) by {
            assert(pair_belongs(game, accounts, i));
            assert(entries_after(accounts, streak_id, counts, i, n) <= u64::MAX);
        }
    } else if forall|i: int| 0 <= i < n ==> #[trigger] repairable_alone(game, accounts, i) {
        assert forall|j: int| 0 <= j < n implies #[trigger] pair_belongs(game, accounts, j) by {
            assert(repairable_alone(game, accounts, j));
        }
        assert forall|j: int| 0 <= j < n implies (#[trigger] accounts[2 * j
            + 1]).data->Participant_0.last_paid_refund_round_id != game.refund_round_id by {
            assert(repairable_alone(game, accounts, j));
        }
        assert forall|j: int| 0 <= j < n implies #[trigger] entries_after(
            accounts,
            streak_id,
            counts,
            j,
            n,
        ) <= u64::MAX by {
            assert(repairable_alone(game, accounts, j));
        }
        assert(repairable(game, accounts, n));
    }
    if repair_outcome(ctx, accounts) is Ok {
        let after = repair_outcome(ctx, accounts)->Ok_0.1;
        assert forall|i: int| 0 <= i < n implies #[trigger] repaired_alone(
            game,
            accounts,
            after,
            i,
        ) by {
            assert(counted_at(accounts, streak_id, counts, after, i));
            assert(entries_after(accounts, streak_id, counts, i, n) <= u64::MAX);
        }
    }
}

/// The participant of a pair can be paid in a refund round of a game: it belongs
/// to the game's mode and streak, and its wallet stands beside it.
pub open spec fn payee_belongs(game: Game, accounts: Seq<RemainingAccount>, j: int) -> bool {
    match accounts[2 * j].data {
        AccountData::Participant(participant) => {
            &&& participant.mode == game.mode
            &&& participant.wallet == accounts[2 * j + 1].key
            &&& participant.streak_id == game.streak_id
        },
        _ => false,
    }
}

/// The participant of a pair has not been paid in a refund round and stands in no
/// earlier pair.
pub open spec fn unpaid_at(accounts: Seq<RemainingAccount>, round: u64, j: int) -> bool {
    &&& accounts[2 * j].data->Participant_0.last_paid_refund_round_id != round
    &&& !listed_first(accounts, accounts[2 * j].key, j as nat)
}

/// The refund of the participant of a pair.
pub open spec fn refund_at(mode_state: ModeState, accounts: Seq<RemainingAccount>, j: int) -> int {
    mode_state.refund_per_entry_lamports
        * accounts[2 * j].data->Participant_0.eligible_entries
}

/// The transfers that pay the unpaid participants of the first `n` pairs, in the
/// order of the list: to each its refund, once. A refund of nothing is no
/// transfer.
pub open spec fn refunds(
    game: Game,
    mode_vault: Address,
    bump: u8,
    round: u64,
    mode_state: ModeState,
    accounts: Seq<RemainingAccount>,
    n: nat,
) -> Seq<SignedTransfer>
    decreases n,
{
    if n == 0 {
        seq![]
    } else {
        let before = refunds(
            game,
            mode_vault,
            bump,
            round,
            mode_state,
            accounts,
            (n - 1) as nat,
        );
        if unpaid_at(accounts, round, n - 1) && refund_at(mode_state, accounts, n - 1) > 0 {
            before.push(
                SignedTransfer {
                    transfer: Transfer {
                        from: mode_vault,
                        to: accounts[2 * (n - 1) + 1].key,
                        lamports: refund_at(mode_state, accounts, n - 1) as u64,
                    },
                    signer_seeds: seq![encode_utf8("mode-vault"@), seq![game.mode], seq![bump]],
                },
            )
        } else {
            before
        }
    }
}

/// The eligible entries of the unpaid participants of the first `n` pairs, each
/// participant taken once.
pub open spec fn unpaid_entries(accounts: Seq<RemainingAccount>, round: u64, n: nat) -> nat
    decreases n,
{
    if n == 0 {
        0
    } else {
        unpaid_entries(accounts, round, (n - 1) as nat) + (if unpaid_at(accounts, round, n - 1) {
            accounts[2 * (n - 1)].data->Participant_0.eligible_entries as nat
        } else {
            0
        })
    }
}

/// A list after the participants of its first `n` pairs have been paid in a
/// refund round.
pub open spec fn paid_list(accounts: Seq<RemainingAccount>, round: u64, n: nat) -> Seq<
    RemainingAccount,
> {
    accounts.map_values(
        |account: RemainingAccount|
            RemainingAccount {
                key: account.key,
                data: match account.data {
                    AccountData::Participant(participant) if listed_first(
                        accounts,
                        account.key,
                        n,
                    ) => AccountData::Participant(
                        ModeParticipant { last_paid_refund_round_id: round, ..participant },
                    ),
                    data => data,
                },
            },
    )
}

/// The first `n` pairs of a list can be paid: each participant belongs to the
/// game and has its wallet beside it, no refund and no count overflows, and where
/// anything is to be paid the vault is the program's own.
pub open spec fn payable(
    game: Game,
    mode_vault: Address,
    found: Option<(Seq<u8>, u8)>,
    round: u64,
    mode_state: ModeState,
    accounts: Seq<RemainingAccount>,
    n: nat,
) -> bool {
    &&& forall|j: int| 0 <= j < n ==> #[trigger] payee_belongs(game, accounts, j)
    &&& forall|j: int|
        0 <= j < n && #[trigger] unpaid_at(accounts, round, j) ==> {
            &&& refund_at(mode_state, accounts, j) <= u64::MAX
            &&& refund_at(mode_state, accounts, j) > 0 ==> found is Some && found->Some_0.0
                == mode_vault.bytes@
        }
    &&& mode_state.refund_paid_entry_count + unpaid_entries(accounts, round, n) <= u64::MAX
}

pub(crate) proof fn lemma_pay_amounts(
    game: Game,
    mode_vault: Address,
    found: Option<(Seq<u8>, u8)>,
    round: u64,
    mode_state: ModeState,
    accounts: Seq<RemainingAccount>,
    n: nat,
)
    requires
        coherent(accounts),
        2 * n <= accounts.len(),
    ensures
        match pay_pairs(game, mode_vault, found, round, mode_state, accounts, n) {
            Ok((new_mode, after, moved)) => {
                &&& payable(game, mode_vault, found, round, mode_state, accounts, n)
                &&& new_mode == (ModeState {
                    refund_paid_entry_count: (mode_state.refund_paid_entry_count + unpaid_entries(
                        accounts,
                        round,
                        n,
                    )) as u64,
                    ..mode_state
                })
                &&& after == paid_list(accounts, round, n)
                &&& moved == refunds(
                    game,
                    mode_vault,
                    found->Some_0.1,
                    round,
                    mode_state,
                    accounts,
                    n,
                )
            },
            Err(_) => !payable(game, mode_vault, found, round, mode_state, accounts, n),
        },
    decreases n,
{
    if n == 0 {
        assert(paid_list(accounts, round, 0) =~= accounts);
    } else {
        let m = (n - 1) as nat;
        lemma_pay_amounts(game, mode_vault, found, round, mode_state, accounts, m);
        let p = accounts[2 * (n - 1)];
        lemma_listed(accounts, p.key, n);
        if pay_pairs(game, mode_vault, found, round, mode_state, accounts, m) is Ok {
            let so_far = pay_pairs(game, mode_vault, found, round, mode_state, accounts, m)->Ok_0;
            let (before_mode, before, moved) = so_far;
            assert(before[2 * (n - 1) + 1].key == accounts[2 * (n - 1) + 1].key);
            if payee_belongs(game, accounts, n - 1) {
                let new_participant = ModeParticipant {
                    last_paid_refund_round_id: round,
                    ..p.data->Participant_0
                };
                let written_list = written(before, p.key, AccountData::Participant(new_participant));
                let expected = paid_list(accounts, round, n);
                assert forall|q: int| 0 <= q < accounts.len() implies #[trigger] written_list[q]
                    == expected[q] by {
                    lemma_listed(accounts, accounts[q].key, n);
                    assert(before[q].key == accounts[q].key);
                }
                assert(written_list =~= expected);
                if !unpaid_at(accounts, round, n - 1) {
                    assert(before =~= expected) by {
                        assert forall|q: int| 0 <= q < accounts.len() implies #[trigger] before[q]
                            == expected[q] by {
                            lemma_listed(accounts, accounts[q].key, n);
                            if accounts[q].key == p.key {
                                assert(accounts[q].data == p.data);
                            }
                        }
                    }
                    assert(moved + listed(None) =~= moved);
                } else {
                    assert(amount_due(before_mode, before[2 * (n - 1)].data->Participant_0)
                        == refund_at(mode_state, accounts, n - 1));
                    let bump = found->Some_0.1;
                    assert(mode_vault_signer(game.mode, bump) =~= seq![
                        encode_utf8("mode-vault"@),
                        seq![game.mode],
                        seq![bump],
                    ]);
                    assert(moved + listed(None) =~= moved);
                }
            }
        }
    }
}

/// What paying a batch amounts to. It succeeds exactly where an empty batch would
/// and every pair is payable. It makes one transfer to each participant that had
/// not been paid in the round, of the refund per entry times its entries; it
/// counts their entries as paid; and every participant of the list is marked as
/// paid.
pub proof fn law_paying_amounts(
    ctx: PayNoWinnerBatch,
    accounts: Seq<RemainingAccount>,
    refund_round_id: u64,
)
    requires
        coherent(accounts),
    ensures
        ({
            let n = accounts.len() / 2;
            let found = mode_vault_found(ctx.game.mode);
            &&& pay_outcome(ctx, accounts, refund_round_id) is Ok <==> {
                &&& pay_outcome(ctx, Seq::empty(), refund_round_id) is Ok
                &&& accounts.len() % 2 == 0
                &&& payable(
                    ctx.game,
                    ctx.mode_vault,
                    found,
                    refund_round_id,
                    ctx.mode_state,
                    accounts,
                    n,
                )
            }
            &&& pay_outcome(ctx, accounts, refund_round_id) matches Ok((mode_state, after, moved))
                ==> {
                &&& mode_state == (ModeState {
                    refund_paid_entry_count: mode_state.refund_paid_entry_count,
                    ..ctx.mode_state
                })
                &&& mode_state.refund_paid_entry_count == ctx.mode_state.refund_paid_entry_count
                    + unpaid_entries(accounts, refund_round_id, n)
                &&& moved == refunds(
                    ctx.game,
                    ctx.mode_vault,
                    found->Some_0.1,
                    refund_round_id,
                    ctx.mode_state,
                    accounts,
                    n,
                )
                &&& after == paid_list(accounts, refund_round_id, n)
                &&& forall|i: int|
                    0 <= i < n ==> (#[trigger] after[2 * i]) == (RemainingAccount {
                        key: accounts[2 * i].key,
                        data: AccountData::Participant(
                            ModeParticipant {
                                last_paid_refund_round_id: refund_round_id,
                                ..accounts[2 * i].data->Participant_0
                            },
                        ),
                    })
            }
        }),
{
    let n = accounts.len() / 2;
    let found = mode_vault_found(ctx.game.mode);
    lemma_pay_amounts(
        ctx.game,
        ctx.mode_vault,
        found,
        refund_round_id,
        ctx.mode_state,
        accounts,
        n,
    );
    if pay_outcome(ctx, accounts, refund_round_id) is Ok {
        let after = paid_list(accounts, refund_round_id, n);
        assert forall|i: int| 0 <= i < n implies (#[trigger] after[2 * i]) == (RemainingAccount {
            key: accounts[2 * i].key,
            data: AccountData::Participant(
                ModeParticipant {
                    last_paid_refund_round_id: refund_round_id,
                    ..accounts[2 * i].data->Participant_0
                },
            ),
        }) by {
            assert(payee_belongs(ctx.game, accounts, i));
            assert(listed_first(accounts, accounts[2 * i].key, n));
        }
    }
}

/// The participants that a list shows have been paid in no refund round that
/// their mode has not had yet.
pub open spec fn all_paid_by(accounts: Seq<RemainingAccount>, mode_state: ModeState) -> bool {
    forall|q: int|
        0 <= q < accounts.len() && (#[trigger] accounts[q]).data is Participant
            ==> accounts[q].data->Participant_0.paid_by(mode_state)
}

/// No batch marks a participant as paid in a refund round that the mode has not
/// had yet. Paying marks those that it pays with the number of the open round;
/// registering and repairing mark nobody.
pub proof fn law_no_batch_pays_ahead(
    paying: PayNoWinnerBatch,
    refund_round_id: u64,
    registering: RegisterNoWinnerEntries,
    repairing: RepairNoWinnerStreakEntries,
    accounts: Seq<RemainingAccount>,
)
    requires
        coherent(accounts),
    ensures
        pay_outcome(paying, accounts, refund_round_id) matches Ok((mode_state, after, _)) ==> {
            &&& forall|i: int|
                0 <= i < accounts.len() / 2 ==> (#[trigger] after[2
                    * i]).data->Participant_0.last_paid_refund_round_id
                    <= mode_state.open_refund_round_id
            &&& all_paid_by(accounts, paying.mode_state) ==> all_paid_by(after, mode_state)
        },
        register_outcome(registering, accounts) matches Ok((mode_state, after)) ==> {
            all_paid_by(accounts, registering.mode_state) ==> all_paid_by(after, mode_state)
        },
        repair_outcome(repairing, accounts) matches Ok((_, after)) ==> {
            all_paid_by(accounts, repairing.mode_state) ==> all_paid_by(
                after,
                repairing.mode_state,
            )
        },
{
    law_paying_amounts(paying, accounts, refund_round_id);
    law_registering_amounts(registering, accounts);
    law_repairing_amounts(repairing, accounts);
}

/// A refund round can be closed after a batch that holds all that was unpaid of
/// it has been paid.
pub proof fn law_paid_round_can_be_closed(
    ctx: PayNoWinnerBatch,
    accounts: Seq<RemainingAccount>,
    refund_round_id: u64,
)
    requires
        coherent(accounts),
        pay_outcome(ctx, accounts, refund_round_id) is Ok,
        ctx.mode_state.eligible_entry_count <= ctx.mode_state.refund_paid_entry_count
            + unpaid_entries(accounts, refund_round_id, accounts.len() / 2),
    ensures
        close_refusal(
            CloseNoWinnerSettlement {
                authority: ctx.authority,
                game: ctx.game,
                mode_state: pay_outcome(ctx, accounts, refund_round_id)->Ok_0.0,
            },
            refund_round_id,
        ) is None,
{
    law_paying_amounts(ctx, accounts, refund_round_id);
}

} // verus!
