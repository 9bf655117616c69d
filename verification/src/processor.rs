//! The dispatcher and the four handlers. Each request runs to an outcome in
//! one piece: it either stores one new record or leaves every buffer as it
//! was.
//!
//! Requests that touch the same buffer must not run at the same time; the
//! host sees to that, and hands each request its buffers for itself alone.
//!
//! Every handler takes the identity of the running program first, as the host
//! passes it. No rule looks at it. The time of a change is an argument too,
//! in seconds since the Unix epoch: it is written into the entry as it is
//! given, and compared with nothing.

use crate::error::LedgerError;
use crate::handle::{
    authorize, authorized, handles_view, with_storage, HandleView, Role, StorageHandle,
};
use crate::instruction::{parse_instruction, ProgramInstruction};
use crate::record::{ChangeDetailView, IdentityKey};
use vstd::prelude::*;

verus! {

/// The entry that records a change of `amount` made by `from` to the record
/// of `to` at `timestamp`.
pub open spec fn change(amount: u32, from: Seq<u8>, to: Seq<u8>, timestamp: i64)
    -> ChangeDetailView {
    ChangeDetailView { amount, from, to, timestamp }
}

/// What an administrative set does to the handles. The first handle is the
/// administrator, who must have signed; the second is the target, which must
/// be writable. An empty target gets its first record; any other is decoded,
/// and its balance overwritten.
pub open spec fn after_set_token_to_account(handles: Seq<HandleView>, amount: u32, now: i64)
    -> Result<Seq<HandleView>, LedgerError> {
    if handles.len() < 1 {
        Err(LedgerError::NotEnoughAccountKeys)
    } else if authorized(Role::Administrator, handles[0]) is Err {
        Err(LedgerError::Unauthorized)
    } else if handles.len() < 2 {
        Err(LedgerError::NotEnoughAccountKeys)
    } else if !handles[1].is_writable {
        Err(LedgerError::NonWritableTarget)
    } else {
        match handles[1].storage.load_or_init() {
            Err(e) => Err(e),
            Ok(record) => match handles[1].storage.store(
                record.set(change(amount, handles[0].key, handles[1].key, now)),
            ) {
                Err(e) => Err(e),
                Ok(storage) => Ok(with_storage(handles, 1, storage)),
            },
        }
    }
}

/// What a deposit does to the handles. The first handle is the owner's, and
/// must already hold a record. No signature is asked of the owner.
pub open spec fn after_save_token_by_owner(handles: Seq<HandleView>, amount: u32, now: i64)
    -> Result<Seq<HandleView>, LedgerError> {
    if handles.len() < 1 {
        Err(LedgerError::NotEnoughAccountKeys)
    } else if authorized(Role::Owner, handles[0]) is Err {
        Err(LedgerError::Unauthorized)
    } else {
        match handles[0].storage.load() {
            Err(e) => Err(e),
            Ok(record) => match record.deposit(change(amount, handles[0].key, handles[0].key, now)) {
                Err(e) => Err(e),
                Ok(record) => match handles[0].storage.store(record) {
                    Err(e) => Err(e),
                    Ok(storage) => Ok(with_storage(handles, 0, storage)),
                },
            },
        }
    }
}

/// What a withdrawal does to the handles. The first handle is the owner's,
/// and must already hold a record. No signature is asked of the owner.
pub open spec fn after_withdraw_token_by_owner(handles: Seq<HandleView>, amount: u32, now: i64)
    -> Result<Seq<HandleView>, LedgerError> {
    if handles.len() < 1 {
        Err(LedgerError::NotEnoughAccountKeys)
    } else if authorized(Role::Owner, handles[0]) is Err {
        Err(LedgerError::Unauthorized)
    } else {
        match handles[0].storage.load() {
            Err(e) => Err(e),
            Ok(record) => match record.withdraw(
                change(amount, handles[0].key, handles[0].key, now),
            ) {
                Err(e) => Err(e),
                Ok(record) => match handles[0].storage.store(record) {
                    Err(e) => Err(e),
                    Ok(storage) => Ok(with_storage(handles, 0, storage)),
                },
            },
        }
    }
}

/// The balance that a check reads: that of the record behind the first
/// handle, which is the owner's. No signature is asked of the owner.
pub open spec fn checked_balance(handles: Seq<HandleView>) -> Result<u32, LedgerError> {
    if handles.len() < 1 {
        Err(LedgerError::NotEnoughAccountKeys)
    } else if authorized(Role::Owner, handles[0]) is Err {
        Err(LedgerError::Unauthorized)
    } else {
        match handles[0].storage.load() {
            Err(e) => Err(e),
            Ok(record) => Ok(record.amount),
        }
    }
}

/// What one instruction does to the handles at time `now`.
pub open spec fn after_instruction(
    handles: Seq<HandleView>,
    instruction: ProgramInstruction,
    now: i64,
) -> Result<Seq<HandleView>, LedgerError> {
    match instruction {
        ProgramInstruction::SetTokenToAccount { amount } => after_set_token_to_account(
            handles,
            amount,
            now,
        ),
        ProgramInstruction::SaveTokenByOwner { amount } => after_save_token_by_owner(
            handles,
            amount,
            now,
        ),
        ProgramInstruction::WithdrawTokenByOwner { amount } => after_withdraw_token_by_owner(
            handles,
            amount,
            now,
        ),
        ProgramInstruction::CheckBalanceToken => match checked_balance(handles) {
            Err(e) => Err(e),
            Ok(_) => Ok(handles),
        },
    }
}

/// What a request does to the handles at time `now`: its bytes are decoded
/// before any buffer is looked at.
pub open spec fn after_request(handles: Seq<HandleView>, instruction_data: Seq<u8>, now: i64)
    -> Result<Seq<HandleView>, LedgerError> {
    match parse_instruction(instruction_data) {
        None => Err(LedgerError::MalformedInstruction),
        Some(instruction) => after_instruction(handles, instruction, now),
    }
}

/// Whether a call that found the handles as `before` and left them as `after`
/// with result `r` did what `expected` says: on success the handles are the
/// expected ones, on failure the error is the expected one and nothing has
/// changed.
pub open spec fn is_outcome(
    expected: Result<Seq<HandleView>, LedgerError>,
    before: Seq<StorageHandle>,
    after: Seq<StorageHandle>,
    r: Result<(), LedgerError>,
) -> bool {
    match expected {
        Ok(handles) => r is Ok && handles_view(after) == handles,
        Err(e) => r == Err::<(), LedgerError>(e) && after == before,
    }
}

/// Sets the balance behind the second handle to `amount`, on the authority of
/// the first handle's signature, and records the change at `now`.
pub fn set_token_to_account(
    _program_id: &IdentityKey,
    accounts: &mut Vec<StorageHandle>,
    amount: u32,
    now: i64,
) -> (r: Result<(), LedgerError>)
    ensures
        is_outcome(
            after_set_token_to_account(handles_view(old(accounts)@), amount, now),
            old(accounts)@,
            final(accounts)@,
            r,
        ),
{
    if accounts.len() < 1 {
        return Err(LedgerError::NotEnoughAccountKeys);
    }
    match authorize(Role::Administrator, &accounts[0]) {
        Ok(()) => {},
        Err(e) => { return Err(e); },
    }
    let admin = accounts[0].key;
    if accounts.len() < 2 {
        return Err(LedgerError::NotEnoughAccountKeys);
    }
    if !accounts[1].is_writable {
        return Err(LedgerError::NonWritableTarget);
    }
    let target = accounts[1].key;
    let mut record = match accounts[1].storage.load_or_init() {
        Ok(record) => record,
        Err(e) => { return Err(e); },
    };
    record.set(amount, admin, target, now);
    let r = accounts[1].storage.store(&record);
    proof {
        if r is Ok {
            assert(handles_view(accounts@) =~= with_storage(
                handles_view(old(accounts)@),
                1,
                accounts@[1].storage@,
            ));
        } else {
            assert(accounts@ =~= old(accounts)@);
        }
    }
    r
}

/// Adds `amount` to the balance behind the first handle and records the
/// change at `now`.
pub fn save_token_by_owner(
    _program_id: &IdentityKey,
    accounts: &mut Vec<StorageHandle>,
    amount: u32,
    now: i64,
) -> (r: Result<(), LedgerError>)
    ensures
        is_outcome(
            after_save_token_by_owner(handles_view(old(accounts)@), amount, now),
            old(accounts)@,
            final(accounts)@,
            r,
        ),
{
    if accounts.len() < 1 {
        return Err(LedgerError::NotEnoughAccountKeys);
    }
    match authorize(Role::Owner, &accounts[0]) {
        Ok(()) => {},
        Err(e) => { return Err(e); },
    }
    let owner = accounts[0].key;
    let mut record = match accounts[0].storage.load() {
        Ok(record) => record,
        Err(e) => { return Err(e); },
    };
    match record.deposit(amount, owner, now) {
        Ok(()) => {},
        Err(e) => { return Err(e); },
    }
    let r = accounts[0].storage.store(&record);
    proof {
        if r is Ok {
            assert(handles_view(accounts@) =~= with_storage(
                handles_view(old(accounts)@),
                0,
                accounts@[0].storage@,
            ));
        } else {
            assert(accounts@ =~= old(accounts)@);
        }
    }
    r
}

/// Takes `amount` from the balance behind the first handle and records the
/// change at `now`.
pub fn withdraw_token_by_owner(
    _program_id: &IdentityKey,
    accounts: &mut Vec<StorageHandle>,
    amount: u32,
    now: i64,
) -> (r: Result<(), LedgerError>)
    ensures
        is_outcome(
            after_withdraw_token_by_owner(handles_view(old(accounts)@), amount, now),
            old(accounts)@,
            final(accounts)@,
            r,
        ),
{
    if accounts.len() < 1 {
        return Err(LedgerError::NotEnoughAccountKeys);
    }
    match authorize(Role::Owner, &accounts[0]) {
        Ok(()) => {},
        Err(e) => { return Err(e); },
    }
    let owner = accounts[0].key;
    let mut record = match accounts[0].storage.load() {
        Ok(record) => record,
        Err(e) => { return Err(e); },
    };
    match record.withdraw(amount, owner, now) {
        Ok(()) => {},
        Err(e) => { return Err(e); },
    }
    let r = accounts[0].storage.store(&record);
    proof {
        if r is Ok {
            assert(handles_view(accounts@) =~= with_storage(
                handles_view(old(accounts)@),
                0,
                accounts@[0].storage@,
            ));
        } else {
            assert(accounts@ =~= old(accounts)@);
        }
    }
    r
}

/// Reads the balance behind the first handle. Nothing is written.
pub fn check_balance_token(_program_id: &IdentityKey, accounts: &Vec<StorageHandle>) -> (r: Result<
    u32,
    LedgerError,
>)
    ensures
        r == checked_balance(handles_view(accounts@)),
{
    if accounts.len() < 1 {
        return Err(LedgerError::NotEnoughAccountKeys);
    }
    match authorize(Role::Owner, &accounts[0]) {
        Ok(()) => {},
        Err(e) => { return Err(e); },
    }
    match accounts[0].storage.load() {
        Ok(record) => Ok(record.amount),
        Err(e) => Err(e),
    }
}

/// Runs the request in `instruction_data` against `accounts`, with `now` as
/// the time of the entry it records. The time is the caller's to give: no
/// clock is read here, so the same request on the same handles at the same
/// time always ends the same way.
pub fn process_instruction(
    program_id: &IdentityKey,
    accounts: &mut Vec<StorageHandle>,
    instruction_data: &[u8],
    now: i64,
) -> (r: Result<(), LedgerError>)
    ensures
        is_outcome(
            after_request(handles_view(old(accounts)@), instruction_data@, now),
            old(accounts)@,
            final(accounts)@,
            r,
        ),
{
    let instruction = match ProgramInstruction::decode(instruction_data) {
        Ok(instruction) => instruction,
        Err(e) => { return Err(e); },
    };
    match instruction {
        ProgramInstruction::SetTokenToAccount { amount } => set_token_to_account(
            program_id,
            accounts,
            amount,
            now,
        ),
        ProgramInstruction::SaveTokenByOwner { amount } => save_token_by_owner(
            program_id,
            accounts,
            amount,
            now,
        ),
        ProgramInstruction::WithdrawTokenByOwner { amount } => withdraw_token_by_owner(
            program_id,
            accounts,
            amount,
            now,
        ),
        ProgramInstruction::CheckBalanceToken => match check_balance_token(program_id, accounts) {
            Ok(_) => Ok(()),
            Err(e) => Err(e),
        },
    }
}

} // verus!
