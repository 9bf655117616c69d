//! The bridge between a byte buffer of fixed capacity and the typed record.

use crate::error::LedgerError;
use crate::record::{parse_record, record_bytes, TokenData, TokenDataView};
use vstd::prelude::*;

verus! {

/// A byte buffer whose capacity the host fixed when it allocated it. Its
/// contents may be shorter than its capacity, and are empty until the first
/// record is stored.
#[derive(Debug, PartialEq, Eq)]
pub struct StorageBuffer {
    data: Vec<u8>,
    capacity: usize,
}

/// What a buffer is: its contents and the most it can hold.
pub struct StorageView {
    pub bytes: Seq<u8>,
    pub capacity: nat,
}

impl StorageView {
    /// The contents fit the capacity.
    pub open spec fn wf(self) -> bool {
        self.bytes.len() <= self.capacity
    }

    /// The record that the contents encode.
    pub open spec fn load(self) -> Result<TokenDataView, LedgerError> {
        match parse_record(self.bytes) {
            Some(record) => Ok(record),
            None => Err(LedgerError::MalformedRecord),
        }
    }

    /// The record that the contents encode, where empty contents stand for
    /// the record that nothing has been written to.
    pub open spec fn load_or_init(self) -> Result<TokenDataView, LedgerError> {
        if self.bytes.len() == 0 {
            Ok(TokenDataView::empty())
        } else {
            self.load()
        }
    }

    /// Whether `record` can be stored: it has an encoding, and the encoding
    /// is no longer than the capacity.
    pub open spec fn fits(self, record: TokenDataView) -> bool {
        record.encodable() && record_bytes(record).len() <= self.capacity
    }

    /// The buffer after `record` is stored in it, or the refusal where it
    /// does not fit.
    pub open spec fn store(self, record: TokenDataView) -> Result<StorageView, LedgerError> {
        if self.fits(record) {
            Ok(StorageView { bytes: record_bytes(record), capacity: self.capacity })
        } else {
            Err(LedgerError::CapacityExceeded)
        }
    }
}

impl View for StorageBuffer {
    type V = StorageView;

    closed spec fn view(&self) -> StorageView {
        StorageView { bytes: self.data@, capacity: self.capacity as nat }
    }
}

impl Clone for StorageBuffer {
    /// A buffer of the same capacity with the same contents.
    fn clone(&self) -> (r: StorageBuffer)
        ensures
            r@ == self@,
    {
        proof {
            use_type_invariant(self);
        }
        let data = self.data.clone();
        assert(data@ =~= self.data@);
        StorageBuffer { data, capacity: self.capacity }
    }
}

impl StorageBuffer {
    /// The contents never exceed the capacity.
    #[verifier::type_invariant]
    spec fn inv(self) -> bool {
        self.data@.len() <= self.capacity
    }

    /// An empty buffer that can hold up to `capacity` bytes.
    pub fn with_capacity(capacity: usize) -> (r: StorageBuffer)
        ensures
            r@.bytes == Seq::<u8>::empty(),
            r@.capacity == capacity,
    {
        StorageBuffer { data: Vec::new(), capacity }
    }

    /// A buffer of the given capacity that already holds `bytes`, or `None`
    /// where they are more than it can hold.
    pub fn from_bytes(bytes: Vec<u8>, capacity: usize) -> (r: Option<StorageBuffer>)
        ensures
            r is Some <==> bytes@.len() <= capacity,
            r is Some ==> r->0@ == (StorageView { bytes: bytes@, capacity: capacity as nat }),
    {
        if bytes.len() <= capacity {
            Some(StorageBuffer { data: bytes, capacity })
        } else {
            None
        }
    }

    /// The contents, which never exceed the capacity.
    pub fn as_slice(&self) -> (r: &[u8])
        ensures
            r@ == self@.bytes,
            self@.wf(),
    {
        proof {
            use_type_invariant(self);
        }
        self.data.as_slice()
    }

    /// The most bytes the buffer can hold.
    pub fn capacity(&self) -> (r: usize)
        ensures
            r == self@.capacity,
    {
        self.capacity
    }

    /// Whether nothing has been written yet.
    pub fn is_empty(&self) -> (r: bool)
        ensures
            r == (self@.bytes.len() == 0),
    {
        self.data.len() == 0
    }

    /// Decodes the contents strictly: an empty buffer holds no record.
    pub fn load(&self) -> (r: Result<TokenData, LedgerError>)
        ensures
            match self@.load() {
                Ok(record) => r is Ok && r->Ok_0@ == record,
                Err(e) => r == Err::<TokenData, LedgerError>(e),
            },
    {
        TokenData::decode(self.data.as_slice())
    }

    /// The record in the buffer; an empty buffer yields the record that
    /// nothing has been written to, and any other contents are decoded
    /// strictly.
    pub fn load_or_init(&self) -> (r: Result<TokenData, LedgerError>)
        ensures
            match self@.load_or_init() {
                Ok(record) => r is Ok && r->Ok_0@ == record,
                Err(e) => r == Err::<TokenData, LedgerError>(e),
            },
    {
        if self.data.len() == 0 {
            Ok(TokenData::new())
        } else {
            TokenData::decode(self.data.as_slice())
        }
    }

    /// Replaces the contents by the encoding of `record`. Where the record
    /// does not fit, the buffer stays as it was.
    pub fn store(&mut self, record: &TokenData) -> (r: Result<(), LedgerError>)
        ensures
            match old(self)@.store(record@) {
                Ok(after) => r is Ok && final(self)@ == after,
                Err(e) => r == Err::<(), LedgerError>(e) && *final(self) == *old(self),
            },
    {
        match record.encode() {
            Some(bytes) => {
                if bytes.len() <= self.capacity {
                    self.data = bytes;
                    Ok(())
                } else {
                    Err(LedgerError::CapacityExceeded)
                }
            },
            None => Err(LedgerError::CapacityExceeded),
        }
    }
}

} // verus!
