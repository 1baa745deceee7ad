use debugrs::user_instructions::{UserInstruction, UserInstructionParseError};

#[test]
fn parse_single_letter_commands() {
    assert_eq!(
        UserInstruction::from_str("c"),
        Ok(UserInstruction::ContinueUntilBreakpoint)
    );
    assert_eq!(
        UserInstruction::from_str("s"),
        Ok(UserInstruction::ContinueUntilSyscall)
    );
    assert_eq!(UserInstruction::from_str("h"), Ok(UserInstruction::ShowHelp));
    assert_eq!(
        UserInstruction::from_str("r"),
        Ok(UserInstruction::ShowRegisters)
    );
    assert_eq!(
        UserInstruction::from_str("n"),
        Ok(UserInstruction::SingleStep)
    );
}

#[test]
fn parse_trims_surrounding_whitespace() {
    assert_eq!(
        UserInstruction::from_str("  n\n"),
        Ok(UserInstruction::SingleStep)
    );
    assert_eq!(
        UserInstruction::from_str("\tm 0x10\r\n"),
        Ok(UserInstruction::ShowMemory { address: 0x10 })
    );
}

#[test]
fn parse_show_memory() {
    assert_eq!(
        UserInstruction::from_str("m 0x401000"),
        Ok(UserInstruction::ShowMemory { address: 0x401000 })
    );
    assert_eq!(
        UserInstruction::from_str("m 0xdeadBEEF"),
        Ok(UserInstruction::ShowMemory {
            address: 0xdead_beef
        })
    );
}

#[test]
fn parse_missing_prefix_reports_prefix_error() {
    assert_eq!(
        UserInstruction::from_str("m ABC"),
        Err(UserInstructionParseError::AddressShouldStartWith0x)
    );
    assert_eq!(
        UserInstruction::from_str("b 401000"),
        Err(UserInstructionParseError::AddressShouldStartWith0x)
    );
}

#[test]
fn parse_bad_hex_digits() {
    assert_eq!(
        UserInstruction::from_str("m 0xZZ"),
        Err(UserInstructionParseError::UnparseableAddress)
    );
    assert_eq!(
        UserInstruction::from_str("m 0x"),
        Err(UserInstructionParseError::UnparseableAddress)
    );
    // 17 significant hex digits exceed the u64 range
    assert_eq!(
        UserInstruction::from_str("m 0x10000000000000000"),
        Err(UserInstructionParseError::UnparseableAddress)
    );
    // leading zeros keep the value in range
    assert_eq!(
        UserInstruction::from_str("m 0x000000000000000001"),
        Ok(UserInstruction::ShowMemory { address: 1 })
    );
    assert_eq!(
        UserInstruction::from_str("m 0xffffffffffffffff"),
        Ok(UserInstruction::ShowMemory { address: u64::MAX })
    );
}

#[test]
fn parse_add_breakpoint() {
    assert_eq!(
        UserInstruction::from_str("b 0x401000"),
        Ok(UserInstruction::AddBreakpoint { address: 0x401000 })
    );
}

#[test]
fn parse_write_to_memory() {
    assert_eq!(
        UserInstruction::from_str("w 0x10 42"),
        Ok(UserInstruction::WriteToMemory {
            address: 0x10,
            value: 42
        })
    );
    assert_eq!(
        UserInstruction::from_str("w 0x10 -7"),
        Ok(UserInstruction::WriteToMemory {
            address: 0x10,
            value: -7
        })
    );
    assert_eq!(
        UserInstruction::from_str("w 0x10"),
        Err(UserInstructionParseError::NotEmoughArguments)
    );
    assert_eq!(
        UserInstruction::from_str("w 0x10 abc"),
        Err(UserInstructionParseError::UnparseableValue)
    );
    assert_eq!(
        UserInstruction::from_str("w ABC 42"),
        Err(UserInstructionParseError::AddressShouldStartWith0x)
    );
    // anything after the second argument is ignored
    assert_eq!(
        UserInstruction::from_str("w 0x10 42 junk"),
        Ok(UserInstruction::WriteToMemory {
            address: 0x10,
            value: 42
        })
    );
}

#[test]
fn parse_find_in_memory() {
    assert_eq!(
        UserInstruction::from_str("f 1234"),
        Ok(UserInstruction::FindInMemory { value: 1234 })
    );
    assert_eq!(
        UserInstruction::from_str("f -5"),
        Ok(UserInstruction::FindInMemory { value: -5 })
    );
    assert_eq!(
        UserInstruction::from_str("f 9223372036854775807"),
        Ok(UserInstruction::FindInMemory { value: i64::MAX })
    );
    assert_eq!(
        UserInstruction::from_str("f -9223372036854775808"),
        Ok(UserInstruction::FindInMemory { value: i64::MIN })
    );
    assert_eq!(
        UserInstruction::from_str("f 9223372036854775808"),
        Err(UserInstructionParseError::UnparseableValue)
    );
    assert_eq!(
        UserInstruction::from_str("f five"),
        Err(UserInstructionParseError::UnparseableValue)
    );
}

#[test]
fn parse_unknown_instruction() {
    assert_eq!(
        UserInstruction::from_str("xyz"),
        Err(UserInstructionParseError::UnknownInstruction)
    );
    assert_eq!(
        UserInstruction::from_str(""),
        Err(UserInstructionParseError::UnknownInstruction)
    );
    assert_eq!(
        UserInstruction::from_str("m"),
        Err(UserInstructionParseError::UnknownInstruction)
    );
}
