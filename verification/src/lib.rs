//! A minimal account ledger engine: a binary balance record with an
//! append-only audit trail, changed by a small set of authorized operations.
//!
//! - [`record`] holds the record, its entries and their binary layout;
//! - [`mutator`] holds the balance rules;
//! - [`storage`] bridges a buffer of fixed capacity and the typed record;
//! - [`handle`] holds the storage handles and the authorization guard;
//! - [`instruction`] holds the four operations and their envelope;
//! - [`processor`] holds the dispatcher and the handlers;
//! - [`laws`] states what holds of every request.

pub mod error;
pub mod handle;
pub mod instruction;
pub mod laws;
pub mod mutator;
pub mod processor;
pub mod record;
pub mod storage;
pub mod wire;

pub use error::LedgerError;
pub use handle::{Role, StorageHandle};
pub use instruction::ProgramInstruction;
pub use processor::process_instruction;
pub use record::{ChangeDetail, IdentityKey, TokenData};
pub use storage::StorageBuffer;
