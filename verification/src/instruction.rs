//! The four operations and their binary envelope: a one-byte opcode, then the
//! operation's fields, with no padding and nothing after them.

use crate::error::LedgerError;
use crate::wire::{
    lemma_u32_from_le_roundtrip, lemma_u32_le_roundtrip, read_u32, u32_from_le, u32_le, write_u32,
};
use vstd::prelude::*;
use vstd::slice::slice_subrange;

verus! {

/// The operations a request can ask for.
#[derive(Clone, Copy, Debug, PartialEq, Eq, Structural)]
pub enum ProgramInstruction {
    /// Sets the balance of an account; for the administrator only.
    SetTokenToAccount { amount: u32 },
    /// Adds to the balance of the owner's account.
    SaveTokenByOwner { amount: u32 },
    /// Takes from the balance of the owner's account.
    WithdrawTokenByOwner { amount: u32 },
    /// Checks that the owner's account holds a readable record.
    CheckBalanceToken,
}

/// The bytes of an instruction: its opcode, then its amount if it has one.
pub open spec fn instruction_bytes(instruction: ProgramInstruction) -> Seq<u8> {
    match instruction {
        ProgramInstruction::SetTokenToAccount { amount } => seq![0u8] + u32_le(amount),
        ProgramInstruction::SaveTokenByOwner { amount } => seq![1u8] + u32_le(amount),
        ProgramInstruction::WithdrawTokenByOwner { amount } => seq![2u8] + u32_le(amount),
        ProgramInstruction::CheckBalanceToken => seq![3u8],
    }
}

/// The instruction that `b` encodes, if it encodes one: a known opcode
/// followed by exactly the bytes of that operation's fields.
pub open spec fn parse_instruction(b: Seq<u8>) -> Option<ProgramInstruction> {
    if b.len() == 5 && b[0] == 0 {
        Some(ProgramInstruction::SetTokenToAccount { amount: u32_from_le(b.subrange(1, 5)) })
    } else if b.len() == 5 && b[0] == 1 {
        Some(ProgramInstruction::SaveTokenByOwner { amount: u32_from_le(b.subrange(1, 5)) })
    } else if b.len() == 5 && b[0] == 2 {
        Some(ProgramInstruction::WithdrawTokenByOwner { amount: u32_from_le(b.subrange(1, 5)) })
    } else if b.len() == 1 && b[0] == 3 {
        Some(ProgramInstruction::CheckBalanceToken)
    } else {
        None
    }
}

/// Decoding undoes encoding, for every instruction.
pub proof fn lemma_instruction_roundtrip(instruction: ProgramInstruction)
    ensures
        parse_instruction(instruction_bytes(instruction)) == Some(instruction),
{
    let b = instruction_bytes(instruction);
    match instruction {
        ProgramInstruction::SetTokenToAccount { amount } => {
            lemma_u32_le_roundtrip(amount);
            assert(b.subrange(1, 5) =~= u32_le(amount));
        },
        ProgramInstruction::SaveTokenByOwner { amount } => {
            lemma_u32_le_roundtrip(amount);
            assert(b.subrange(1, 5) =~= u32_le(amount));
        },
        ProgramInstruction::WithdrawTokenByOwner { amount } => {
            lemma_u32_le_roundtrip(amount);
            assert(b.subrange(1, 5) =~= u32_le(amount));
        },
        ProgramInstruction::CheckBalanceToken => {},
    }
}

/// Encoding undoes decoding: bytes that parse to an instruction are that
/// instruction's encoding.
pub proof fn lemma_parse_instruction_canonical(b: Seq<u8>)
    requires
        parse_instruction(b) is Some,
    ensures
        instruction_bytes(parse_instruction(b)->0) == b,
{
    if b.len() == 5 {
        lemma_u32_from_le_roundtrip(b.subrange(1, 5));
    }
    assert(instruction_bytes(parse_instruction(b)->0) =~= b);
}

impl ProgramInstruction {
    /// The bytes of this instruction.
    pub fn encode(&self) -> (out: Vec<u8>)
        ensures
            out@ == instruction_bytes(*self),
    {
        let mut out: Vec<u8> = Vec::new();
        match self {
            ProgramInstruction::SetTokenToAccount { amount } => {
                out.push(0u8);
                write_u32(&mut out, *amount);
            },
            ProgramInstruction::SaveTokenByOwner { amount } => {
                out.push(1u8);
                write_u32(&mut out, *amount);
            },
            ProgramInstruction::WithdrawTokenByOwner { amount } => {
                out.push(2u8);
                write_u32(&mut out, *amount);
            },
            ProgramInstruction::CheckBalanceToken => {
                out.push(3u8);
            },
        }
        assert(out@ =~= instruction_bytes(*self));
        out
    }

    /// Reads an instruction from `data`, which must be exactly one
    /// instruction's encoding.
    pub fn decode(data: &[u8]) -> (out: Result<ProgramInstruction, LedgerError>)
        ensures
            match parse_instruction(data@) {
                Some(instruction) => out == Ok::<ProgramInstruction, LedgerError>(instruction),
                None => out == Err::<ProgramInstruction, LedgerError>(
                    LedgerError::MalformedInstruction,
                ),
            },
    {
        if data.len() == 0 {
            return Err(LedgerError::MalformedInstruction);
        }
        let opcode: u8 = data[0];
        let fields = slice_subrange(data, 1, data.len());
        if opcode == 3 {
            if fields.len() == 0 {
                Ok(ProgramInstruction::CheckBalanceToken)
            } else {
                Err(LedgerError::MalformedInstruction)
            }
        } else if opcode <= 2 {
            match read_u32(fields) {
                Ok(amount) => {
                    if opcode == 0 {
                        Ok(ProgramInstruction::SetTokenToAccount { amount })
                    } else if opcode == 1 {
                        Ok(ProgramInstruction::SaveTokenByOwner { amount })
                    } else {
                        Ok(ProgramInstruction::WithdrawTokenByOwner { amount })
                    }
                },
                Err(_) => Err(LedgerError::MalformedInstruction),
            }
        } else {
            Err(LedgerError::MalformedInstruction)
        }
    }
}

} // verus!
