//! What holds of every request, stated over the same spec functions as the
//! handlers' contracts.

use crate::error::LedgerError;
use crate::handle::{handles_view, HandleView, StorageHandle};
use crate::instruction::{parse_instruction, ProgramInstruction};
use crate::processor::{
    after_instruction, after_request, after_save_token_by_owner, after_set_token_to_account,
    after_withdraw_token_by_owner, change, checked_balance, is_outcome,
};
use crate::record::{
    is_record, lemma_parse_record_canonical, lemma_record_roundtrip, ChangeDetailView,
    TokenDataView,
};
use crate::storage::StorageView;
use vstd::prelude::*;

verus! {

/// The handle whose buffer an instruction writes to: the second for an
/// administrative set, the first for the owner's operations.
pub open spec fn target_of(instruction: ProgramInstruction) -> int {
    match instruction {
        ProgramInstruction::SetTokenToAccount { .. } => 1,
        _ => 0,
    }
}

/// The amount that an instruction names; a check names none.
pub open spec fn amount_of(instruction: ProgramInstruction) -> u32 {
    match instruction {
        ProgramInstruction::SetTokenToAccount { amount } => amount,
        ProgramInstruction::SaveTokenByOwner { amount } => amount,
        ProgramInstruction::WithdrawTokenByOwner { amount } => amount,
        ProgramInstruction::CheckBalanceToken => 0,
    }
}

/// The entry that a set, deposit or withdrawal appends when it succeeds at
/// `now`: made by the first handle's identity, on the target's record.
pub open spec fn entry_of(handles: Seq<HandleView>, instruction: ProgramInstruction, now: i64)
    -> ChangeDetailView
    recommends
        !(instruction is CheckBalanceToken),
{
    change(amount_of(instruction), handles[0].key, handles[target_of(instruction)].key, now)
}

/// The record behind a handle, an empty buffer standing for the record that
/// nothing has been written to.
pub open spec fn record_of(handle: HandleView) -> TokenDataView {
    handle.storage.load_or_init()->Ok_0
}

/// Whether a buffer is empty or holds exactly one record's encoding.
pub open spec fn sound(storage: StorageView) -> bool {
    storage.bytes.len() == 0 || is_record(storage.bytes)
}

/// All or nothing. A call that was to end in a refusal has returned that
/// error and left every handle, and so every stored byte, as it was.
pub proof fn law_failure_changes_nothing(
    expected: Result<Seq<HandleView>, LedgerError>,
    before: Seq<StorageHandle>,
    after: Seq<StorageHandle>,
    r: Result<(), LedgerError>,
)
    requires
        expected is Err,
        is_outcome(expected, before, after, r),
    ensures
        r == Err::<(), LedgerError>(expected->Err_0),
        after == before,
        handles_view(after) == handles_view(before),
{
}

/// A stored record reads back as it was written.
pub proof fn law_load_after_store(storage: StorageView, record: TokenDataView)
    requires
        storage.store(record) is Ok,
    ensures
        storage.store(record)->Ok_0.load() == Ok::<TokenDataView, LedgerError>(record),
        storage.store(record)->Ok_0.load_or_init() == Ok::<TokenDataView, LedgerError>(record),
        storage.store(record)->Ok_0.capacity == storage.capacity,
        storage.store(record)->Ok_0.wf(),
        sound(storage.store(record)->Ok_0),
{
    lemma_record_roundtrip(record);
}

/// Monotonic history. A successful set, deposit or withdrawal leaves the
/// target's history as it was with exactly one entry appended at the end, and
/// touches no other handle; a successful check changes nothing.
pub proof fn law_history_grows_by_one(
    handles: Seq<HandleView>,
    instruction: ProgramInstruction,
    now: i64,
)
    requires
        after_instruction(handles, instruction, now) is Ok,
    ensures
        ({
            let after = after_instruction(handles, instruction, now)->Ok_0;
            let t = target_of(instruction);
            if instruction is CheckBalanceToken {
                after == handles
            } else {
                &&& 0 <= t < handles.len() == after.len()
                &&& forall|i: int| 0 <= i < handles.len() && i != t ==> after[i] == handles[i]
                &&& after[t].key == handles[t].key
                &&& after[t].is_signer == handles[t].is_signer
                &&& after[t].is_writable == handles[t].is_writable
                &&& handles[t].storage.load_or_init() is Ok
                &&& after[t].storage.load() is Ok
                &&& record_of(after[t]).history == record_of(handles[t]).history.push(
                    entry_of(handles, instruction, now),
                )
                &&& record_of(after[t]).history.len() == record_of(handles[t]).history.len() + 1
            }
        }),
{
    match instruction {
        ProgramInstruction::SetTokenToAccount { amount } => {
            let record = handles[1].storage.load_or_init()->Ok_0;
            law_load_after_store(
                handles[1].storage,
                record.set(change(amount, handles[0].key, handles[1].key, now)),
            );
        },
        ProgramInstruction::SaveTokenByOwner { amount } => {
            let record = handles[0].storage.load()->Ok_0;
            law_load_after_store(
                handles[0].storage,
                record.deposit(change(amount, handles[0].key, handles[0].key, now))->Ok_0,
            );
        },
        ProgramInstruction::WithdrawTokenByOwner { amount } => {
            let record = handles[0].storage.load()->Ok_0;
            law_load_after_store(
                handles[0].storage,
                record.withdraw(change(amount, handles[0].key, handles[0].key, now))->Ok_0,
            );
        },
        ProgramInstruction::CheckBalanceToken => {},
    }
}

/// A withdrawal of more than the balance is refused as insufficient funds,
/// whatever else holds of the handles; one of no more than the balance that
/// succeeds leaves exactly the difference, which is not negative.
pub proof fn law_withdraw_never_overdraws(handles: Seq<HandleView>, amount: u32, now: i64)
    requires
        handles.len() >= 1,
        handles[0].storage.load() is Ok,
    ensures
        ({
            let balance = handles[0].storage.load()->Ok_0.amount;
            let after = after_withdraw_token_by_owner(handles, amount, now);
            &&& amount > balance ==> after == Err::<Seq<HandleView>, LedgerError>(
                LedgerError::InsufficientFunds,
            )
            &&& after is Ok ==> {
                &&& amount <= balance
                &&& after->Ok_0[0].storage.load() is Ok
                &&& after->Ok_0[0].storage.load()->Ok_0.amount == balance - amount >= 0
            }
        }),
{
    let record = handles[0].storage.load()->Ok_0;
    let after = after_withdraw_token_by_owner(handles, amount, now);
    if after is Ok {
        law_load_after_store(
            handles[0].storage,
            record.withdraw(change(amount, handles[0].key, handles[0].key, now))->Ok_0,
        );
    }
}

/// Overflow safety. A deposit that would take the balance past the 32-bit
/// range is refused as an arithmetic overflow; one that succeeds leaves
/// exactly the sum.
pub proof fn law_deposit_never_wraps(handles: Seq<HandleView>, amount: u32, now: i64)
    requires
        handles.len() >= 1,
        handles[0].storage.load() is Ok,
    ensures
        ({
            let balance = handles[0].storage.load()->Ok_0.amount;
            let after = after_save_token_by_owner(handles, amount, now);
            &&& balance + amount > u32::MAX ==> after == Err::<Seq<HandleView>, LedgerError>(
                LedgerError::ArithmeticOverflow,
            )
            &&& after is Ok ==> {
                &&& after->Ok_0[0].storage.load() is Ok
                &&& after->Ok_0[0].storage.load()->Ok_0.amount == balance + amount <= u32::MAX
            }
        }),
{
    let record = handles[0].storage.load()->Ok_0;
    let after = after_save_token_by_owner(handles, amount, now);
    if after is Ok {
        law_load_after_store(
            handles[0].storage,
            record.deposit(change(amount, handles[0].key, handles[0].key, now))->Ok_0,
        );
    }
}

/// Set is absolute. After a successful set the balance is the amount that was
/// set, whatever it was before.
pub proof fn law_set_is_absolute(handles: Seq<HandleView>, amount: u32, now: i64)
    requires
        after_set_token_to_account(handles, amount, now) is Ok,
    ensures
        after_set_token_to_account(handles, amount, now)->Ok_0[1].storage.load() is Ok,
        after_set_token_to_account(handles, amount, now)->Ok_0[1].storage.load()->Ok_0.amount
            == amount,
{
    let record = handles[1].storage.load_or_init()->Ok_0;
    law_load_after_store(
        handles[1].storage,
        record.set(change(amount, handles[0].key, handles[1].key, now)),
    );
}

/// Idempotent read. A check changes no handle, so a second check, whenever it
/// is made, ends as the first did and reads the same balance.
pub proof fn law_check_is_idempotent(handles: Seq<HandleView>, first: i64, second: i64)
    ensures
        match after_instruction(handles, ProgramInstruction::CheckBalanceToken, first) {
            Ok(after) => {
                &&& after == handles
                &&& checked_balance(after) == checked_balance(handles)
                &&& after_instruction(after, ProgramInstruction::CheckBalanceToken, second) == Ok::<
                    Seq<HandleView>,
                    LedgerError,
                >(handles)
            },
            Err(e) => after_instruction(handles, ProgramInstruction::CheckBalanceToken, second)
                == Err::<Seq<HandleView>, LedgerError>(e),
        },
{
}

/// Whether every handle's key is 32 bytes long, as every key is.
pub open spec fn keys_wf(handles: Seq<HandleView>) -> bool {
    forall|i: int| 0 <= i < handles.len() ==> (#[trigger] handles[i]).key.len() == 32
}

/// Whether one more entry can be stored behind the handle: the entry count
/// still fits its 32 bits, and the longer encoding fits the capacity.
pub open spec fn has_room(handle: HandleView) -> bool {
    let n = record_of(handle).history.len();
    n < u32::MAX && 8 + 76 * (n + 1) <= handle.storage.capacity
}

/// A record that was read, with one well-formed entry more, can be stored
/// exactly where there is room for it.
proof fn lemma_fits_one_more(handle: HandleView, after: TokenDataView, entry: ChangeDetailView)
    requires
        handle.storage.load_or_init() is Ok,
        entry.wf(),
        after.history == record_of(handle).history.push(entry),
    ensures
        handle.storage.fits(after) <==> has_room(handle),
{
    let before = record_of(handle);
    if handle.storage.bytes.len() != 0 {
        lemma_parse_record_canonical(handle.storage.bytes);
    }
    assert(before.wf());
    assert forall|i: int| 0 <= i < after.history.len() implies (#[trigger] after.history[i]).wf() by {
        if i < before.history.len() {
            assert(after.history[i] == before.history[i]);
        }
    }
    if after.encodable() {
        lemma_record_roundtrip(after);
    }
}

/// When a set is owed success: exactly when the administrator and the target
/// are both there, the administrator signed, the target is writable and is
/// empty or holds a record, and there is room for one more entry. In
/// particular a history that already counts `u32::MAX` entries takes no
/// more, whatever the capacity.
pub proof fn law_set_succeeds_exactly_when(handles: Seq<HandleView>, amount: u32, now: i64)
    requires
        keys_wf(handles),
    ensures
        after_set_token_to_account(handles, amount, now) is Ok <==> {
            &&& handles.len() >= 2
            &&& handles[0].is_signer
            &&& handles[1].is_writable
            &&& handles[1].storage.load_or_init() is Ok
            &&& has_room(handles[1])
        },
{
    if handles.len() >= 2 && handles[1].storage.load_or_init() is Ok {
        let entry = change(amount, handles[0].key, handles[1].key, now);
        lemma_fits_one_more(handles[1], record_of(handles[1]).set(entry), entry);
    }
}

/// When a deposit is owed success: exactly when the owner's handle is there
/// and holds a record, the sum stays in the 32-bit range, and there is room
/// for one more entry.
pub proof fn law_deposit_succeeds_exactly_when(handles: Seq<HandleView>, amount: u32, now: i64)
    requires
        keys_wf(handles),
    ensures
        after_save_token_by_owner(handles, amount, now) is Ok <==> {
            &&& handles.len() >= 1
            &&& handles[0].storage.load() is Ok
            &&& handles[0].storage.load()->Ok_0.amount + amount <= u32::MAX
            &&& has_room(handles[0])
        },
{
    if handles.len() >= 1 && handles[0].storage.load() is Ok {
        let entry = change(amount, handles[0].key, handles[0].key, now);
        let record = handles[0].storage.load()->Ok_0;
        if record.deposit(entry) is Ok {
            lemma_fits_one_more(handles[0], record.deposit(entry)->Ok_0, entry);
        }
    }
}

/// When a withdrawal is owed success: exactly when the owner's handle is
/// there and holds a record, the balance covers the amount, and there is room
/// for one more entry.
pub proof fn law_withdraw_succeeds_exactly_when(handles: Seq<HandleView>, amount: u32, now: i64)
    requires
        keys_wf(handles),
    ensures
        after_withdraw_token_by_owner(handles, amount, now) is Ok <==> {
            &&& handles.len() >= 1
            &&& handles[0].storage.load() is Ok
            &&& amount <= handles[0].storage.load()->Ok_0.amount
            &&& has_room(handles[0])
        },
{
    if handles.len() >= 1 && handles[0].storage.load() is Ok {
        let entry = change(amount, handles[0].key, handles[0].key, now);
        let record = handles[0].storage.load()->Ok_0;
        if record.withdraw(entry) is Ok {
            lemma_fits_one_more(handles[0], record.withdraw(entry)->Ok_0, entry);
        }
    }
}

/// The handles after a run of requests, each given as its bytes and the time
/// at which it is served. A request that fails leaves the handles as they
/// were.
pub open spec fn after_requests(handles: Seq<HandleView>, requests: Seq<(Seq<u8>, i64)>) -> Seq<
    HandleView,
>
    decreases requests.len(),
{
    if requests.len() == 0 {
        handles
    } else {
        let before = after_requests(handles, requests.drop_last());
        match after_request(before, requests.last().0, requests.last().1) {
            Ok(after) => after,
            Err(_) => before,
        }
    }
}

/// One request keeps every sound buffer sound and every history a
/// continuation of what it was.
proof fn lemma_request_keeps_trail(handles: Seq<HandleView>, data: Seq<u8>, now: i64, i: int)
    requires
        0 <= i < handles.len(),
        sound(handles[i].storage),
        after_request(handles, data, now) is Ok,
    ensures
        after_request(handles, data, now)->Ok_0.len() == handles.len(),
        sound(after_request(handles, data, now)->Ok_0[i].storage),
        record_of(handles[i]).history.is_prefix_of(
            record_of(after_request(handles, data, now)->Ok_0[i]).history,
        ),
{
    let instruction = parse_instruction(data)->0;
    let after = after_request(handles, data, now)->Ok_0;
    law_history_grows_by_one(handles, instruction, now);
    let t = target_of(instruction);
    if !(instruction is CheckBalanceToken) && i == t {
        let old_history = record_of(handles[i]).history;
        let new_history = record_of(after[i]).history;
        assert(new_history.subrange(0, old_history.len() as int) =~= old_history);
        match instruction {
            ProgramInstruction::SetTokenToAccount { amount } => {
                law_load_after_store(
                    handles[1].storage,
                    record_of(handles[1]).set(change(amount, handles[0].key, handles[1].key, now)),
                );
            },
            ProgramInstruction::SaveTokenByOwner { amount } => {
                law_load_after_store(
                    handles[0].storage,
                    handles[0].storage.load()->Ok_0.deposit(
                        change(amount, handles[0].key, handles[0].key, now),
                    )->Ok_0,
                );
            },
            ProgramInstruction::WithdrawTokenByOwner { amount } => {
                law_load_after_store(
                    handles[0].storage,
                    handles[0].storage.load()->Ok_0.withdraw(
                        change(amount, handles[0].key, handles[0].key, now),
                    )->Ok_0,
                );
            },
            ProgramInstruction::CheckBalanceToken => {},
        }
    } else {
        assert(after[i] == handles[i]);
    }
}

/// Non-negative balance and append-only history, over any run of requests.
/// A buffer that is empty or holds a record still does so after the run; the
/// balance it then holds is a 32-bit quantity, never below zero; and its
/// history is what it was before the run with entries added at the end, none
/// changed and none removed.
pub proof fn law_run_keeps_trail(
    handles: Seq<HandleView>,
    requests: Seq<(Seq<u8>, i64)>,
    i: int,
)
    requires
        0 <= i < handles.len(),
        sound(handles[i].storage),
    ensures
        after_requests(handles, requests).len() == handles.len(),
        sound(after_requests(handles, requests)[i].storage),
        after_requests(handles, requests)[i].storage.load_or_init() is Ok,
        0 <= record_of(after_requests(handles, requests)[i]).amount <= u32::MAX,
        record_of(handles[i]).history.is_prefix_of(
            record_of(after_requests(handles, requests)[i]).history,
        ),
    decreases requests.len(),
{
    if requests.len() > 0 {
        let before = after_requests(handles, requests.drop_last());
        law_run_keeps_trail(handles, requests.drop_last(), i);
        if after_request(before, requests.last().0, requests.last().1) is Ok {
            lemma_request_keeps_trail(before, requests.last().0, requests.last().1, i);
        }
    }
}

/// Whether the request succeeds on `handles` and appends an entry to the
/// history behind the handle at `i`.
pub open spec fn appends_to(handles: Seq<HandleView>, data: Seq<u8>, now: i64, i: int) -> bool {
    &&& after_request(handles, data, now) is Ok
    &&& !(parse_instruction(data)->0 is CheckBalanceToken)
    &&& target_of(parse_instruction(data)->0) == i
}

/// How many requests of a run succeed and append to the history behind the
/// handle at `i`.
pub open spec fn appended(handles: Seq<HandleView>, requests: Seq<(Seq<u8>, i64)>, i: int) -> nat
    decreases requests.len(),
{
    if requests.len() == 0 {
        0
    } else {
        let before = after_requests(handles, requests.drop_last());
        let one: nat = if appends_to(before, requests.last().0, requests.last().1, i) {
            1
        } else {
            0
        };
        appended(handles, requests.drop_last(), i) + one
    }
}

/// Over any run of requests a history grows by one entry for each set,
/// deposit or withdrawal that succeeds on it, and by nothing else: not by a
/// check, not by a request that fails, not by one that writes elsewhere.
pub proof fn law_run_counts_entries(
    handles: Seq<HandleView>,
    requests: Seq<(Seq<u8>, i64)>,
    i: int,
)
    requires
        0 <= i < handles.len(),
        sound(handles[i].storage),
    ensures
        record_of(after_requests(handles, requests)[i]).history.len() == record_of(
            handles[i],
        ).history.len() + appended(handles, requests, i),
    decreases requests.len(),
{
    if requests.len() > 0 {
        let before = after_requests(handles, requests.drop_last());
        let data = requests.last().0;
        let now = requests.last().1;
        law_run_counts_entries(handles, requests.drop_last(), i);
        law_run_keeps_trail(handles, requests.drop_last(), i);
        if after_request(before, data, now) is Ok {
            law_history_grows_by_one(before, parse_instruction(data)->0, now);
        }
    }
}

} // verus!
