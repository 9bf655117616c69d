use borsh::{BorshDeserialize, BorshSerialize};
use token_ledger::error::LedgerError;
use token_ledger::instruction::ProgramInstruction;
use token_ledger::record::{ChangeDetail, IdentityKey, TokenData, ENTRY_LEN, HEADER_LEN};

type WireEntry = (u32, [u8; 32], [u8; 32], i64);
type WireRecord = (u32, Vec<WireEntry>);

fn key(byte: u8) -> IdentityKey {
    IdentityKey { bytes: [byte; 32] }
}

fn entry(amount: u32, from: u8, to: u8, timestamp: i64) -> ChangeDetail {
    ChangeDetail { amount, from: key(from), to: key(to), timestamp }
}

fn sample() -> TokenData {
    TokenData {
        amount: 0x0102_0304,
        history: vec![
            entry(100, 1, 2, 1_700_000_000),
            entry(u32::MAX, 3, 3, -2),
            entry(0, 0, 255, i64::MIN),
        ],
    }
}

fn wire(record: &TokenData) -> WireRecord {
    (
        record.amount,
        record
            .history
            .iter()
            .map(|e| (e.amount, e.from.bytes, e.to.bytes, e.timestamp))
            .collect(),
    )
}

#[test]
fn layout_constants() {
    assert_eq!(HEADER_LEN, 8);
    assert_eq!(ENTRY_LEN, 4 + 32 + 32 + 8);
}

#[test]
fn encode_empty_record_is_header_only() {
    let bytes = TokenData::new().encode().unwrap();
    assert_eq!(bytes, vec![0u8; 8]);
}

#[test]
fn encode_one_entry_exact_bytes() {
    let record = TokenData { amount: 100, history: vec![entry(100, 1, 2, 1_700_000_000)] };
    let mut expected: Vec<u8> = vec![100, 0, 0, 0, 1, 0, 0, 0, 100, 0, 0, 0];
    expected.extend_from_slice(&[1u8; 32]);
    expected.extend_from_slice(&[2u8; 32]);
    expected.extend_from_slice(&[0x00, 0xF1, 0x53, 0x65, 0, 0, 0, 0]);
    assert_eq!(record.encode().unwrap(), expected);
    assert_eq!(expected.len(), 84);
}

#[test]
fn encode_is_little_endian_and_twos_complement() {
    let record = TokenData { amount: 0x0102_0304, history: vec![entry(0x0A0B_0C0D, 7, 9, -2)] };
    let bytes = record.encode().unwrap();
    assert_eq!(&bytes[0..4], &[0x04, 0x03, 0x02, 0x01]);
    assert_eq!(&bytes[4..8], &[1, 0, 0, 0]);
    assert_eq!(&bytes[8..12], &[0x0D, 0x0C, 0x0B, 0x0A]);
    assert_eq!(&bytes[12..44], &[7u8; 32]);
    assert_eq!(&bytes[44..76], &[9u8; 32]);
    assert_eq!(&bytes[76..84], &[0xFE, 0xFF, 0xFF, 0xFF, 0xFF, 0xFF, 0xFF, 0xFF]);
}

#[test]
fn keys_keep_their_byte_order() {
    let mut from = [0u8; 32];
    let mut to = [0u8; 32];
    for i in 0..32 {
        from[i] = i as u8;
        to[i] = 255 - i as u8;
    }
    let e = ChangeDetail {
        amount: 1,
        from: IdentityKey { bytes: from },
        to: IdentityKey { bytes: to },
        timestamp: 0,
    };
    let mut out = Vec::new();
    e.encode_into(&mut out);
    assert_eq!(out.len(), ENTRY_LEN);
    assert_eq!(&out[4..36], &from);
    assert_eq!(&out[36..68], &to);
    assert_eq!(ChangeDetail::decode(&out), Some(e));
}

#[test]
fn encode_into_appends() {
    let mut out = vec![9u8, 9];
    entry(5, 1, 1, 6).encode_into(&mut out);
    assert_eq!(out.len(), 2 + ENTRY_LEN);
    assert_eq!(&out[0..2], &[9, 9]);
    assert_eq!(&out[2..6], &[5, 0, 0, 0]);
    assert_eq!(&out[70..78], &[6, 0, 0, 0, 0, 0, 0, 0]);
}

#[test]
fn round_trip() {
    let record = sample();
    let bytes = record.encode().unwrap();
    assert_eq!(bytes.len(), HEADER_LEN + 3 * ENTRY_LEN);
    assert_eq!(TokenData::decode(&bytes), Ok(record));
}

#[test]
fn round_trip_extreme_values() {
    for amount in [0u32, 1, 255, 256, 65_535, 65_536, u32::MAX - 1, u32::MAX] {
        for timestamp in [i64::MIN, -1, 0, 1, 0x0102_0304_0506_0708, i64::MAX] {
            let record = TokenData { amount, history: vec![entry(amount, 17, 200, timestamp)] };
            let bytes = record.encode().unwrap();
            assert_eq!(TokenData::decode(&bytes), Ok(record));
        }
    }
}

#[test]
fn decode_then_encode_gives_the_same_bytes() {
    let bytes = sample().encode().unwrap();
    let record = TokenData::decode(&bytes).unwrap();
    assert_eq!(record.encode().unwrap(), bytes);
}

#[test]
fn encoding_matches_borsh() {
    let record = sample();
    assert_eq!(record.encode().unwrap(), wire(&record).try_to_vec().unwrap());
    let empty = TokenData::new();
    assert_eq!(empty.encode().unwrap(), wire(&empty).try_to_vec().unwrap());
}

#[test]
fn decoding_matches_borsh() {
    let record = sample();
    let bytes = wire(&record).try_to_vec().unwrap();
    assert_eq!(TokenData::decode(&bytes), Ok(record));
    for cut in 0..bytes.len() {
        let ours = TokenData::decode(&bytes[..cut]).is_ok();
        let theirs = WireRecord::try_from_slice(&bytes[..cut]).is_ok();
        assert_eq!(ours, theirs, "prefix of {} bytes", cut);
        assert!(!ours);
    }
    let mut longer = bytes.clone();
    longer.push(0);
    assert!(WireRecord::try_from_slice(&longer).is_err());
    assert_eq!(TokenData::decode(&longer), Err(LedgerError::MalformedRecord));
}

#[test]
fn decode_rejects_empty_and_short_input() {
    assert_eq!(TokenData::decode(&[]), Err(LedgerError::MalformedRecord));
    assert_eq!(TokenData::decode(&[0u8; 7]), Err(LedgerError::MalformedRecord));
    assert_eq!(TokenData::decode(&[0u8; 8]), Ok(TokenData::new()));
}

#[test]
fn decode_rejects_wrong_entry_count() {
    let mut bytes = sample().encode().unwrap();
    bytes[4] = 4;
    assert_eq!(TokenData::decode(&bytes), Err(LedgerError::MalformedRecord));
    bytes[4] = 2;
    assert_eq!(TokenData::decode(&bytes), Err(LedgerError::MalformedRecord));
    bytes[4] = 3;
    assert!(TokenData::decode(&bytes).is_ok());
    assert_eq!(
        TokenData::decode(&[0, 0, 0, 0, 0xFF, 0xFF, 0xFF, 0xFF]),
        Err(LedgerError::MalformedRecord)
    );
}

#[test]
fn entry_decode_wants_exactly_76_bytes() {
    let mut out = Vec::new();
    entry(1, 2, 3, 4).encode_into(&mut out);
    assert_eq!(ChangeDetail::decode(&out), Some(entry(1, 2, 3, 4)));
    assert_eq!(ChangeDetail::decode(&out[..75]), None);
    out.push(0);
    assert_eq!(ChangeDetail::decode(&out), None);
    assert_eq!(ChangeDetail::decode(&[]), None);
}

#[test]
fn instruction_exact_bytes() {
    assert_eq!(
        ProgramInstruction::SetTokenToAccount { amount: 100 }.encode(),
        vec![0, 100, 0, 0, 0]
    );
    assert_eq!(
        ProgramInstruction::SaveTokenByOwner { amount: 0x0102_0304 }.encode(),
        vec![1, 4, 3, 2, 1]
    );
    assert_eq!(
        ProgramInstruction::WithdrawTokenByOwner { amount: u32::MAX }.encode(),
        vec![2, 255, 255, 255, 255]
    );
    assert_eq!(ProgramInstruction::CheckBalanceToken.encode(), vec![3]);
}

#[test]
fn instruction_round_trip() {
    let all = [
        ProgramInstruction::SetTokenToAccount { amount: 0 },
        ProgramInstruction::SetTokenToAccount { amount: 0x8000_0001 },
        ProgramInstruction::SaveTokenByOwner { amount: 50 },
        ProgramInstruction::WithdrawTokenByOwner { amount: 65_536 },
        ProgramInstruction::CheckBalanceToken,
    ];
    for instruction in all {
        assert_eq!(ProgramInstruction::decode(&instruction.encode()), Ok(instruction));
    }
}

#[test]
fn instruction_decode_rejects_malformed_input() {
    let bad: [&[u8]; 9] = [
        &[],
        &[0],
        &[0, 1, 2, 3],
        &[0, 1, 2, 3, 4, 5],
        &[1, 0, 0],
        &[2],
        &[3, 0],
        &[4],
        &[255, 0, 0, 0, 0],
    ];
    for data in bad {
        assert_eq!(ProgramInstruction::decode(data), Err(LedgerError::MalformedInstruction));
    }
}

#[test]
fn instruction_bytes_match_borsh_enum_layout() {
    let mut expected = 1u8.try_to_vec().unwrap();
    expected.extend(77u32.try_to_vec().unwrap());
    assert_eq!(ProgramInstruction::SaveTokenByOwner { amount: 77 }.encode(), expected);
    assert_eq!(
        ProgramInstruction::decode(&expected),
        Ok(ProgramInstruction::SaveTokenByOwner { amount: u32::try_from_slice(&expected[1..]).unwrap() })
    );
}
