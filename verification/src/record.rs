//! The ledger record, its audit entries, and their binary layout.
//!
//! A record is stored as
//! `amount:u32 || history_len:u32 || history_len x (amount:u32 || from:32 bytes || to:32 bytes || timestamp:i64)`,
//! every integer little-endian, with nothing before, between or after.

use crate::error::LedgerError;
use crate::wire::{
    i64_from_le, i64_le, lemma_i64_from_le_roundtrip, lemma_i64_le_roundtrip,
    lemma_u32_from_le_roundtrip, lemma_u32_le_roundtrip, read_i64, read_key, read_u32,
    u32_from_le, u32_le, write_i64, write_key, write_u32,
};
use vstd::prelude::*;
use vstd::slice::slice_subrange;

verus! {

/// Bytes of one encoded audit entry.
pub const ENTRY_LEN: usize = 76;

/// Bytes in front of the entries: the balance and the entry count.
pub const HEADER_LEN: usize = 8;

/// An opaque 32-byte identity.
#[derive(Clone, Copy, Debug, PartialEq, Eq)]
pub struct IdentityKey {
    pub bytes: [u8; 32],
}

impl View for IdentityKey {
    type V = Seq<u8>;

    open spec fn view(&self) -> Seq<u8> {
        self.bytes@
    }
}

/// One historical fact: who changed whose balance by how much, and when.
#[derive(Clone, Copy, Debug, PartialEq, Eq)]
pub struct ChangeDetail {
    /// Magnitude of the change, never the resulting balance.
    pub amount: u32,
    /// The acting party.
    pub from: IdentityKey,
    /// The identity that owns the affected record.
    pub to: IdentityKey,
    /// Seconds since the Unix epoch, as the caller gave them.
    pub timestamp: i64,
}

/// What an audit entry is, with its keys as byte sequences.
pub struct ChangeDetailView {
    pub amount: u32,
    pub from: Seq<u8>,
    pub to: Seq<u8>,
    pub timestamp: i64,
}

impl ChangeDetailView {
    /// Both keys are 32 bytes long.
    pub open spec fn wf(self) -> bool {
        self.from.len() == 32 && self.to.len() == 32
    }
}

impl View for ChangeDetail {
    type V = ChangeDetailView;

    open spec fn view(&self) -> ChangeDetailView {
        ChangeDetailView {
            amount: self.amount,
            from: self.from@,
            to: self.to@,
            timestamp: self.timestamp,
        }
    }
}

/// The persisted state of one account: a balance and its audit trail.
#[derive(Clone, Debug, PartialEq, Eq)]
pub struct TokenData {
    /// The balance.
    pub amount: u32,
    /// Every change so far, oldest first.
    pub history: Vec<ChangeDetail>,
}

/// What a record is: its balance and the sequence of its entries.
pub struct TokenDataView {
    pub amount: u32,
    pub history: Seq<ChangeDetailView>,
}

impl TokenDataView {
    /// The record of an account that nothing has been written to: no balance
    /// and no history.
    pub open spec fn empty() -> TokenDataView {
        TokenDataView { amount: 0, history: Seq::empty() }
    }

    /// Every entry is well formed.
    pub open spec fn wf(self) -> bool {
        forall|i: int| 0 <= i < self.history.len() ==> (#[trigger] self.history[i]).wf()
    }

    /// The record has an encoding: the entry count fits the 32-bit prefix.
    pub open spec fn encodable(self) -> bool {
        self.wf() && self.history.len() <= u32::MAX
    }
}

/// The views of a sequence of entries, in order.
pub open spec fn history_view(h: Seq<ChangeDetail>) -> Seq<ChangeDetailView> {
    Seq::new(h.len(), |i: int| h[i]@)
}

impl View for TokenData {
    type V = TokenDataView;

    open spec fn view(&self) -> TokenDataView {
        TokenDataView { amount: self.amount, history: history_view(self.history@) }
    }
}

/// The 76 bytes of one entry.
#[verifier::opaque]
pub open spec fn entry_bytes(e: ChangeDetailView) -> Seq<u8> {
    u32_le(e.amount) + e.from + e.to + i64_le(e.timestamp)
}

/// The entries' encodings, one after the other.
pub open spec fn history_bytes(h: Seq<ChangeDetailView>) -> Seq<u8>
    decreases h.len(),
{
    if h.len() == 0 {
        Seq::empty()
    } else {
        history_bytes(h.drop_last()) + entry_bytes(h.last())
    }
}

/// The encoding of a record.
pub open spec fn record_bytes(r: TokenDataView) -> Seq<u8> {
    u32_le(r.amount) + u32_le(r.history.len() as u32) + history_bytes(r.history)
}

/// The entry that 76 bytes encode.
#[verifier::opaque]
pub open spec fn parse_entry(b: Seq<u8>) -> ChangeDetailView {
    ChangeDetailView {
        amount: u32_from_le(b.subrange(0, 4)),
        from: b.subrange(4, 36),
        to: b.subrange(36, 68),
        timestamp: i64_from_le(b.subrange(68, 76)),
    }
}

/// The entry count that the header of `b` announces.
pub open spec fn announced_len(b: Seq<u8>) -> u32 {
    u32_from_le(b.subrange(4, 8))
}

/// Whether `b` is the encoding of a record: a header, then exactly as many
/// entries as the header announces, then nothing.
pub open spec fn is_record(b: Seq<u8>) -> bool {
    b.len() >= 8 && b.len() == 8 + 76 * announced_len(b)
}

/// The `n` entries that the first `76 * n` bytes of `d` encode.
pub open spec fn parse_entries(d: Seq<u8>, n: nat) -> Seq<ChangeDetailView> {
    Seq::new(n, |i: int| parse_entry(d.subrange(76 * i, 76 * i + 76)))
}

/// The record that `b` encodes, if it encodes one.
pub open spec fn parse_record(b: Seq<u8>) -> Option<TokenDataView> {
    if is_record(b) {
        Some(
            TokenDataView {
                amount: u32_from_le(b.subrange(0, 4)),
                history: parse_entries(b.subrange(8, b.len() as int), announced_len(b) as nat),
            },
        )
    } else {
        None
    }
}

/// An entry's encoding is 76 bytes long and parses back to the entry.
pub proof fn lemma_entry_roundtrip(e: ChangeDetailView)
    requires
        e.wf(),
    ensures
        entry_bytes(e).len() == 76,
        parse_entry(entry_bytes(e)) == e,
{
    reveal(entry_bytes);
    reveal(parse_entry);
    let b = entry_bytes(e);
    lemma_u32_le_roundtrip(e.amount);
    lemma_i64_le_roundtrip(e.timestamp);
    assert(b.subrange(0, 4) =~= u32_le(e.amount));
    assert(b.subrange(4, 36) =~= e.from);
    assert(b.subrange(36, 68) =~= e.to);
    assert(b.subrange(68, 76) =~= i64_le(e.timestamp));
}

/// Any 76 bytes are the encoding of the entry they parse to.
pub proof fn lemma_parse_entry_roundtrip(b: Seq<u8>)
    requires
        b.len() == 76,
    ensures
        parse_entry(b).wf(),
        entry_bytes(parse_entry(b)) == b,
{
    reveal(entry_bytes);
    reveal(parse_entry);
    lemma_u32_from_le_roundtrip(b.subrange(0, 4));
    lemma_i64_from_le_roundtrip(b.subrange(68, 76));
    assert(entry_bytes(parse_entry(b)) =~= b);
}

/// Each entry takes 76 bytes of the history's encoding.
proof fn lemma_history_bytes_len(h: Seq<ChangeDetailView>)
    requires
        forall|i: int| 0 <= i < h.len() ==> (#[trigger] h[i]).wf(),
    ensures
        history_bytes(h).len() == 76 * h.len(),
    decreases h.len(),
{
    if h.len() > 0 {
        lemma_history_bytes_len(h.drop_last());
        lemma_entry_roundtrip(h.last());
    }
}

/// The `i`-th stretch of 76 bytes is the encoding of the `i`-th entry.
proof fn lemma_history_bytes_index(h: Seq<ChangeDetailView>, i: int)
    requires
        forall|j: int| 0 <= j < h.len() ==> (#[trigger] h[j]).wf(),
        0 <= i < h.len(),
    ensures
        history_bytes(h).len() == 76 * h.len(),
        history_bytes(h).subrange(76 * i, 76 * i + 76) == entry_bytes(h[i]),
    decreases h.len(),
{
    lemma_history_bytes_len(h);
    lemma_history_bytes_len(h.drop_last());
    lemma_entry_roundtrip(h.last());
    if i == h.len() - 1 {
        assert(history_bytes(h).subrange(76 * i, 76 * i + 76) =~= entry_bytes(h[i]));
    } else {
        lemma_history_bytes_index(h.drop_last(), i);
        assert(history_bytes(h).subrange(76 * i, 76 * i + 76) =~= history_bytes(
            h.drop_last(),
        ).subrange(76 * i, 76 * i + 76));
    }
}

/// The encoding of a history parses back to the history.
proof fn lemma_parse_entries_of_history_bytes(h: Seq<ChangeDetailView>)
    requires
        forall|i: int| 0 <= i < h.len() ==> (#[trigger] h[i]).wf(),
    ensures
        history_bytes(h).len() == 76 * h.len(),
        parse_entries(history_bytes(h), h.len()) == h,
{
    lemma_history_bytes_len(h);
    let p = parse_entries(history_bytes(h), h.len());
    assert forall|i: int| 0 <= i < h.len() implies p[i] == h[i] by {
        lemma_history_bytes_index(h, i);
        lemma_entry_roundtrip(h[i]);
    }
    assert(p =~= h);
}

/// Whatever is parsed from `76 * n` bytes is well formed.
proof fn lemma_parse_entries_wf(d: Seq<u8>, n: nat)
    requires
        d.len() == 76 * n,
    ensures
        forall|i: int| 0 <= i < n ==> (#[trigger] parse_entries(d, n)[i]).wf(),
{
    assert forall|i: int| 0 <= i < n implies (#[trigger] parse_entries(d, n)[i]).wf() by {
        lemma_parse_entry_roundtrip(d.subrange(76 * i, 76 * i + 76));
    }
}

/// Parsing `n` entries is parsing `n - 1` from the front and one from the
/// last 76 bytes.
proof fn lemma_parse_entries_prefix(d: Seq<u8>, n: nat)
    requires
        d.len() == 76 * n,
        n > 0,
    ensures
        parse_entries(d, n).drop_last() == parse_entries(d.subrange(0, 76 * (n - 1)), (n - 1) as nat),
        parse_entries(d, n).last() == parse_entry(d.subrange(76 * (n - 1), 76 * (n as int))),
{
    let k = n - 1;
    let d0 = d.subrange(0, 76 * k);
    let p = parse_entries(d, n);
    let front = parse_entries(d0, k as nat);
    assert forall|i: int| 0 <= i < k implies p.drop_last()[i] == front[i] by {
        assert(d0.subrange(76 * i, 76 * i + 76) =~= d.subrange(76 * i, 76 * i + 76));
    }
    assert(p.drop_last() =~= front);
    assert(76 * k + 76 == 76 * n);
}

/// Any `76 * n` bytes are the encoding of the entries they parse to.
proof fn lemma_history_bytes_of_parse_entries(d: Seq<u8>, n: nat)
    requires
        d.len() == 76 * n,
    ensures
        history_bytes(parse_entries(d, n)) == d,
    decreases n,
{
    let p = parse_entries(d, n);
    if n == 0 {
        assert(history_bytes(p) =~= d);
    } else {
        let k = n - 1;
        let d0 = d.subrange(0, 76 * k);
        let tail = d.subrange(76 * k, 76 * (n as int));
        lemma_history_bytes_of_parse_entries(d0, k as nat);
        lemma_parse_entries_prefix(d, n);
        lemma_parse_entry_roundtrip(tail);
        assert(history_bytes(p) == d0 + tail);
        assert(d0 + tail =~= d);
    }
}

/// Decoding undoes encoding: the encoding of a record that has one is a
/// record's encoding, and it parses back to the same record.
pub proof fn lemma_record_roundtrip(r: TokenDataView)
    requires
        r.encodable(),
    ensures
        record_bytes(r).len() == 8 + 76 * r.history.len(),
        is_record(record_bytes(r)),
        parse_record(record_bytes(r)) == Some(r),
{
    let b = record_bytes(r);
    let n = r.history.len() as u32;
    lemma_u32_le_roundtrip(r.amount);
    lemma_u32_le_roundtrip(n);
    lemma_parse_entries_of_history_bytes(r.history);
    assert(b.subrange(0, 4) =~= u32_le(r.amount));
    assert(b.subrange(4, 8) =~= u32_le(n));
    assert(b.subrange(8, b.len() as int) =~= history_bytes(r.history));
}

/// Encoding undoes decoding: bytes that parse to a record are that record's
/// encoding, so no two byte strings stand for the same record.
pub proof fn lemma_parse_record_canonical(b: Seq<u8>)
    requires
        is_record(b),
    ensures
        parse_record(b) is Some,
        parse_record(b)->0.encodable(),
        record_bytes(parse_record(b)->0) == b,
{
    let r = parse_record(b)->0;
    let d = b.subrange(8, b.len() as int);
    lemma_history_bytes_of_parse_entries(d, announced_len(b) as nat);
    lemma_parse_entries_wf(d, announced_len(b) as nat);
    lemma_u32_from_le_roundtrip(b.subrange(0, 4));
    lemma_u32_from_le_roundtrip(b.subrange(4, 8));
    assert(record_bytes(r) =~= b);
}

impl ChangeDetail {
    /// Appends the 76 bytes of this entry to `out`.
    pub fn encode_into(&self, out: &mut Vec<u8>)
        ensures
            final(out)@ == old(out)@ + entry_bytes(self@),
    {
        write_u32(out, self.amount);
        write_key(out, &self.from.bytes);
        write_key(out, &self.to.bytes);
        write_i64(out, self.timestamp);
        proof {
            reveal(entry_bytes);
            assert(out@ =~= old(out)@ + entry_bytes(self@));
        }
    }

    /// Reads one entry from exactly 76 bytes; any other length is refused.
    pub fn decode(bytes: &[u8]) -> (out: Option<ChangeDetail>)
        ensures
            out is Some <==> bytes@.len() == 76,
            out is Some ==> out->0@ == parse_entry(bytes@),
    {
        if bytes.len() != ENTRY_LEN {
            return None;
        }
        let amount = read_u32(slice_subrange(bytes, 0, 4));
        let from = read_key(slice_subrange(bytes, 4, 36));
        let to = read_key(slice_subrange(bytes, 36, 68));
        let timestamp = read_i64(slice_subrange(bytes, 68, 76));
        proof {
            reveal(parse_entry);
        }
        match (amount, from, to, timestamp) {
            (Ok(amount), Ok(from), Ok(to), Ok(timestamp)) => Some(
                ChangeDetail {
                    amount,
                    from: IdentityKey { bytes: from },
                    to: IdentityKey { bytes: to },
                    timestamp,
                },
            ),
            _ => None,
        }
    }
}

impl TokenData {
    /// The record of an account that nothing has been written to: no balance
    /// and no history.
    pub fn new() -> (r: TokenData)
        ensures
            r@ == TokenDataView::empty(),
    {
        let r = TokenData { amount: 0, history: Vec::new() };
        assert(r@.history =~= TokenDataView::empty().history);
        r
    }

    /// The encoding of this record, or `None` where it has none because its
    /// history is longer than the 32-bit entry count can say.
    pub fn encode(&self) -> (out: Option<Vec<u8>>)
        ensures
            out is Some <==> self@.encodable(),
            out is Some ==> out->0@ == record_bytes(self@),
    {
        let n: usize = self.history.len();
        if n > u32::MAX as usize {
            return None;
        }
        let mut out: Vec<u8> = Vec::new();
        write_u32(&mut out, self.amount);
        write_u32(&mut out, n as u32);
        let ghost head = out@;
        let ghost h = self@.history;
        let mut i: usize = 0;
        while i < n
            invariant
                i <= n,
                n == self.history.len(),
                h == self@.history,
                out@ == head + history_bytes(h.take(i as int)),
            decreases n - i,
        {
            proof {
                assert(h.take(i + 1).drop_last() =~= h.take(i as int));
                assert(h.take(i + 1).last() == self.history[i as int]@);
            }
            self.history[i].encode_into(&mut out);
            i = i + 1;
            assert(out@ =~= head + history_bytes(h.take(i as int)));
        }
        proof {
            assert(h.take(n as int) =~= h);
            assert(out@ =~= record_bytes(self@));
        }
        Some(out)
    }

    /// Reads a record from `bytes`, which must be exactly one record's
    /// encoding: truncated, overlong or empty input is refused.
    pub fn decode(bytes: &[u8]) -> (out: Result<TokenData, LedgerError>)
        ensures
            match out {
                Ok(r) => parse_record(bytes@) == Some(r@),
                Err(e) => e == LedgerError::MalformedRecord && parse_record(bytes@) is None,
            },
    {
        let len: usize = bytes.len();
        if len < HEADER_LEN {
            return Err(LedgerError::MalformedRecord);
        }
        let amount = read_u32(slice_subrange(bytes, 0, 4));
        let announced = read_u32(slice_subrange(bytes, 4, 8));
        let (amount, count): (u32, usize) = match (amount, announced) {
            (Ok(amount), Ok(announced)) => (amount, announced as usize),
            _ => { return Err(LedgerError::MalformedRecord); },
        };
        let body: usize = len - HEADER_LEN;
        if body % ENTRY_LEN != 0 || body / ENTRY_LEN != count {
            return Err(LedgerError::MalformedRecord);
        }
        let ghost d = bytes@.subrange(8, len as int);
        let mut history: Vec<ChangeDetail> = Vec::new();
        let mut i: usize = 0;
        while i < count
            invariant
                i <= count,
                len == bytes@.len(),
                len == 8 + 76 * count,
                d == bytes@.subrange(8, len as int),
                history@.len() == i,
                history_view(history@) == parse_entries(d, i as nat),
            decreases count - i,
        {
            let start: usize = HEADER_LEN + i * ENTRY_LEN;
            let entry = ChangeDetail::decode(slice_subrange(bytes, start, start + ENTRY_LEN));
            let ghost prev = history@;
            match entry {
                Some(entry) => {
                    proof {
                        assert(bytes@.subrange(start as int, start + 76) =~= d.subrange(
                            76 * i,
                            76 * i + 76,
                        ));
                        assert(entry@ == parse_entries(d, (i + 1) as nat)[i as int]);
                    }
                    history.push(entry);
                },
                None => { return Err(LedgerError::MalformedRecord); },
            }
            proof {
                assert forall|j: int| 0 <= j < i + 1 implies history_view(history@)[j]
                    == parse_entries(d, (i + 1) as nat)[j] by {
                    if j < i {
                        assert(history_view(prev)[j] == parse_entries(d, i as nat)[j]);
                    }
                }
                assert(history_view(history@) =~= parse_entries(d, (i + 1) as nat));
            }
            i = i + 1;
        }
        Ok(TokenData { amount, history })
    }
}

} // verus!
