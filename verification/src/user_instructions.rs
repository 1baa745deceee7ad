use vstd::prelude::*;
use vstd::string::StringSliceAdditionalSpecFns;
use crate::text::{
    spec_trim, spec_find_byte, spec_hex_ok, spec_hex_value, spec_parse_i64, trim, find_byte,
    parse_hex_u64, parse_dec_i64,
};

verus! {

/// One parsed operator request, ready for the instruction interpreter.
#[derive(Clone, Copy, PartialEq, Eq, Structural, Debug)]
pub enum UserInstruction {
    AddBreakpoint { address: u64 },
    ContinueUntilBreakpoint,
    ContinueUntilSyscall,
    ShowHelp,
    ShowMemory { address: u64 },
    WriteToMemory { address: u64, value: i64 },
    ShowRegisters,
    SingleStep,
    FindInMemory { value: i64 },
}

/// Why a command line could not be parsed. User input errors never mutate
/// session state.
#[derive(Clone, Copy, PartialEq, Eq, Structural, Debug)]
pub enum UserInstructionParseError {
    UnknownInstruction,
    AddressShouldStartWith0x,
    ValueParseError,
    UnparseableAddress,
    UnparseableValue,
    NotEmoughArguments,
}

/// An address argument: `0x` followed by hexadecimal digits. A missing
/// prefix and undigestible digits are distinct user errors.
pub open spec fn spec_parse_address(a: Seq<u8>) -> Result<u64, UserInstructionParseError> {
    if !(a.len() >= 2 && a[0] == '0' as u8 && a[1] == 'x' as u8) {
        Err(UserInstructionParseError::AddressShouldStartWith0x)
    } else if spec_hex_ok(a.skip(2)) {
        Ok(spec_hex_value(a.skip(2)) as u64)
    } else {
        Err(UserInstructionParseError::UnparseableAddress)
    }
}

/// A one-letter command followed by a space and its arguments.
pub open spec fn spec_has_verb(t: Seq<u8>, c: u8) -> bool {
    t.len() >= 2 && t[0] == c && t[1] == ' ' as u8
}

/// The write command's arguments: an address, one space, and a decimal
/// value; anything after a further space is ignored.
pub open spec fn spec_parse_write(rest: Seq<u8>) -> Result<
    UserInstruction,
    UserInstructionParseError,
> {
    let sp = spec_find_byte(rest, ' ' as u8, 0);
    if sp == rest.len() {
        Err(UserInstructionParseError::NotEmoughArguments)
    } else {
        let rest2 = rest.skip(sp + 1);
        match spec_parse_address(rest.take(sp)) {
            Ok(address) => match spec_parse_i64(rest2.take(spec_find_byte(rest2, ' ' as u8, 0))) {
                Some(value) => Ok(UserInstruction::WriteToMemory { address, value }),
                None => Err(UserInstructionParseError::UnparseableValue),
            },
            Err(e) => Err(e),
        }
    }
}

/// The command grammar over an already-trimmed line.
pub open spec fn spec_parse_trimmed(t: Seq<u8>) -> Result<
    UserInstruction,
    UserInstructionParseError,
> {
    if t.len() == 1 && t[0] == 'c' as u8 {
        Ok(UserInstruction::ContinueUntilBreakpoint)
    } else if t.len() == 1 && t[0] == 's' as u8 {
        Ok(UserInstruction::ContinueUntilSyscall)
    } else if t.len() == 1 && t[0] == 'h' as u8 {
        Ok(UserInstruction::ShowHelp)
    } else if t.len() == 1 && t[0] == 'r' as u8 {
        Ok(UserInstruction::ShowRegisters)
    } else if t.len() == 1 && t[0] == 'n' as u8 {
        Ok(UserInstruction::SingleStep)
    } else if spec_has_verb(t, 'm' as u8) {
        match spec_parse_address(t.skip(2)) {
            Ok(address) => Ok(UserInstruction::ShowMemory { address }),
            Err(e) => Err(e),
        }
    } else if spec_has_verb(t, 'b' as u8) {
        match spec_parse_address(t.skip(2)) {
            Ok(address) => Ok(UserInstruction::AddBreakpoint { address }),
            Err(e) => Err(e),
        }
    } else if spec_has_verb(t, 'w' as u8) {
        spec_parse_write(t.skip(2))
    } else if spec_has_verb(t, 'f' as u8) {
        match spec_parse_i64(t.skip(2)) {
            Some(value) => Ok(UserInstruction::FindInMemory { value }),
            None => Err(UserInstructionParseError::UnparseableValue),
        }
    } else {
        Err(UserInstructionParseError::UnknownInstruction)
    }
}

/// The full command grammar: the line is trimmed of surrounding
/// whitespace, then read as one of the one-letter commands.
pub open spec fn spec_parse(s: Seq<u8>) -> Result<UserInstruction, UserInstructionParseError> {
    spec_parse_trimmed(spec_trim(s))
}

fn parse_address(a: &[u8]) -> (r: Result<u64, UserInstructionParseError>)
    ensures
        r == spec_parse_address(a@),
{
    if !(a.len() >= 2 && a[0] == ('0' as u8) && a[1] == ('x' as u8)) {
        return Err(UserInstructionParseError::AddressShouldStartWith0x);
    }
    let digits = vstd::slice::slice_subrange(a, 2, a.len());
    proof {
        assert(digits@ =~= a@.skip(2));
    }
    match parse_hex_u64(digits) {
        Some(v) => Ok(v),
        None => Err(UserInstructionParseError::UnparseableAddress),
    }
}

impl UserInstruction {
    /// Parses one command line, exactly as `spec_parse` describes it.
    pub fn from_bytes(s: &[u8]) -> (r: Result<UserInstruction, UserInstructionParseError>)
        ensures
            r == spec_parse(s@),
    {
        let t = trim(s);
        proof {
            assert(spec_parse(s@) == spec_parse_trimmed(t@));
        }
        if t.len() == 1 && t[0] == ('c' as u8) {
            Ok(UserInstruction::ContinueUntilBreakpoint)
        } else if t.len() == 1 && t[0] == ('s' as u8) {
            Ok(UserInstruction::ContinueUntilSyscall)
        } else if t.len() == 1 && t[0] == ('h' as u8) {
            Ok(UserInstruction::ShowHelp)
        } else if t.len() == 1 && t[0] == ('r' as u8) {
            Ok(UserInstruction::ShowRegisters)
        } else if t.len() == 1 && t[0] == ('n' as u8) {
            Ok(UserInstruction::SingleStep)
        } else if t.len() >= 2 && t[0] == ('m' as u8) && t[1] == (' ' as u8) {
            let rest = vstd::slice::slice_subrange(t, 2, t.len());
            proof {
                assert(rest@ =~= t@.skip(2));
            }
            match parse_address(rest) {
                Ok(address) => Ok(UserInstruction::ShowMemory { address }),
                Err(e) => Err(e),
            }
        } else if t.len() >= 2 && t[0] == ('b' as u8) && t[1] == (' ' as u8) {
            let rest = vstd::slice::slice_subrange(t, 2, t.len());
            proof {
                assert(rest@ =~= t@.skip(2));
            }
            match parse_address(rest) {
                Ok(address) => Ok(UserInstruction::AddBreakpoint { address }),
                Err(e) => Err(e),
            }
        } else if t.len() >= 2 && t[0] == ('w' as u8) && t[1] == (' ' as u8) {
            let rest = vstd::slice::slice_subrange(t, 2, t.len());
            proof {
                assert(rest@ =~= t@.skip(2));
            }
            let sp = find_byte(rest, (' ' as u8));
            if sp == rest.len() {
                Err(UserInstructionParseError::NotEmoughArguments)
            } else {
                let first = vstd::slice::slice_subrange(rest, 0, sp);
                let rest2 = vstd::slice::slice_subrange(rest, sp + 1, rest.len());
                proof {
                    assert(first@ =~= rest@.take(sp as int));
                    assert(rest2@ =~= rest@.skip(sp + 1));
                }
                let sp2 = find_byte(rest2, (' ' as u8));
                let second = vstd::slice::slice_subrange(rest2, 0, sp2);
                proof {
                    assert(second@ =~= rest2@.take(sp2 as int));
                }
                match parse_address(first) {
                    Ok(address) => match parse_dec_i64(second) {
                        Some(value) => Ok(UserInstruction::WriteToMemory { address, value }),
                        None => Err(UserInstructionParseError::UnparseableValue),
                    },
                    Err(e) => Err(e),
                }
            }
        } else if t.len() >= 2 && t[0] == ('f' as u8) && t[1] == (' ' as u8) {
            let rest = vstd::slice::slice_subrange(t, 2, t.len());
            proof {
                assert(rest@ =~= t@.skip(2));
            }
            match parse_dec_i64(rest) {
                Some(value) => Ok(UserInstruction::FindInMemory { value }),
                None => Err(UserInstructionParseError::UnparseableValue),
            }
        } else {
            Err(UserInstructionParseError::UnknownInstruction)
        }
    }

    /// Parses one command line given as a string.
    pub fn from_str(s: &str) -> (r: Result<UserInstruction, UserInstructionParseError>)
        ensures
            r == spec_parse(s.spec_bytes()),
    {
        UserInstruction::from_bytes(s.as_bytes())
    }
}

} // verus!
