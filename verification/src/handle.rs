//! Storage handles: a buffer together with the identity and the permissions
//! that the host attaches to it for one request.

use crate::error::LedgerError;
use crate::record::IdentityKey;
use crate::storage::{StorageBuffer, StorageView};
use vstd::prelude::*;

verus! {

/// One storage handle as the host presents it.
#[derive(Clone, Debug, PartialEq, Eq)]
pub struct StorageHandle {
    /// The identity that the handle stands for.
    pub key: IdentityKey,
    /// Whether that identity signed the current request.
    pub is_signer: bool,
    /// Whether the request may write to the buffer.
    pub is_writable: bool,
    /// The buffer behind the handle.
    pub storage: StorageBuffer,
}

/// What a handle is.
pub struct HandleView {
    pub key: Seq<u8>,
    pub is_signer: bool,
    pub is_writable: bool,
    pub storage: StorageView,
}

impl View for StorageHandle {
    type V = HandleView;

    open spec fn view(&self) -> HandleView {
        HandleView {
            key: self.key@,
            is_signer: self.is_signer,
            is_writable: self.is_writable,
            storage: self.storage@,
        }
    }
}

/// The views of a list of handles, in order.
pub open spec fn handles_view(handles: Seq<StorageHandle>) -> Seq<HandleView> {
    Seq::new(handles.len(), |i: int| handles[i]@)
}

/// `handles` with the buffer of the handle at `i` replaced by `storage`.
pub open spec fn with_storage(handles: Seq<HandleView>, i: int, storage: StorageView) -> Seq<
    HandleView,
> {
    handles.update(
        i,
        HandleView {
            key: handles[i].key,
            is_signer: handles[i].is_signer,
            is_writable: handles[i].is_writable,
            storage,
        },
    )
}

/// The part that a party plays in a request.
#[derive(Clone, Copy, Debug, PartialEq, Eq, Structural)]
pub enum Role {
    /// May set a balance outright. Must have signed the request; which
    /// identity signs is not looked at.
    Administrator,
    /// May deposit to, withdraw from and check its own record. Presenting the
    /// record's handle is all that is asked of an owner: no signature is
    /// checked.
    Owner,
}

/// Whether the party behind the handle signed the request.
pub open spec fn signed(party: HandleView) -> Result<(), LedgerError> {
    if party.is_signer {
        Ok(())
    } else {
        Err(LedgerError::Unauthorized)
    }
}

/// Whether `party` may act in `role`.
pub open spec fn authorized(role: Role, party: HandleView) -> Result<(), LedgerError> {
    match role {
        Role::Administrator => signed(party),
        Role::Owner => Ok(()),
    }
}

/// Accepts `party` only if it signed the current request. No list of known
/// identities is consulted: whoever signs is accepted.
pub fn require_signed(party: &StorageHandle) -> (r: Result<(), LedgerError>)
    ensures
        r == signed(party@),
{
    if party.is_signer {
        Ok(())
    } else {
        Err(LedgerError::Unauthorized)
    }
}

/// Decides whether `party` may act in `role`: an administrator must have
/// signed, an owner is taken at its word.
pub fn authorize(role: Role, party: &StorageHandle) -> (r: Result<(), LedgerError>)
    ensures
        r == authorized(role, party@),
{
    match role {
        Role::Administrator => require_signed(party),
        Role::Owner => Ok(()),
    }
}

} // verus!
