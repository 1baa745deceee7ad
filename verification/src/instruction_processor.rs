use vstd::prelude::*;
use crate::breakpoint::{Breakpoint, spec_low_byte};
use crate::text::{spec_trim, spec_find_byte, spec_hex_ok, spec_hex_value, trim, find_byte,
    parse_hex_u64};
use crate::user_instructions::UserInstructionParseError;

verus! {

/// The native word size of the traced target, in bytes.
pub const WORD_SIZE: u64 = 8;

/// Why a line read from the operator could not be turned into an
/// instruction.
#[derive(Clone, Copy, PartialEq, Eq, Structural, Debug)]
pub enum InputError {
    InvalidInput,
    UserInstructionParseError(UserInstructionParseError),
}

/// Why executing an instruction against the target failed. An `Errno`
/// carries the raw code of a failed trace operation.
#[derive(Clone, Copy, PartialEq, Eq, Structural, Debug)]
pub enum ProcessingError {
    Errno(i32),
    ValueNotFoundInMemory,
    StackMemoryAddresesNotFound,
}

/// The low 32 bits of a word, read as a signed value: what the memory
/// display shows the operator.
pub open spec fn spec_display_value(w: u64) -> i32 {
    (w as u32) as i32
}

/// Extracts the value that the memory display reports for a word.
pub fn word_display_value(w: u64) -> (v: i32)
    ensures
        v == spec_display_value(w),
{
    (w as u32) as i32
}

/// Builds the breakpoint record for `address` from the word currently
/// there: the saved byte is the one the patch will overwrite.
pub fn make_breakpoint(address: u64, current_word: u64) -> (bp: Breakpoint)
    ensures
        bp.address == address,
        bp.previous_byte == spec_low_byte(current_word),
{
    Breakpoint { address, previous_byte: crate::breakpoint::low_byte(current_word) }
}

/// Whether a stack word matches the searched value: its low 32 bits,
/// read as signed, equal it.
pub open spec fn spec_word_matches(w: u64, value: i32) -> bool {
    spec_display_value(w) == value
}

/// The addresses of the matching words among the first `n`, where word `k`
/// was read at `base + WORD_SIZE * k`.
pub open spec fn spec_matches_up_to(base: u64, words: Seq<u64>, value: i32, n: int) -> Seq<u64>
    decreases n,
{
    if n <= 0 {
        Seq::empty()
    } else {
        let prev = spec_matches_up_to(base, words, value, n - 1);
        if spec_word_matches(words[n - 1], value) {
            prev.push((base + WORD_SIZE * (n - 1)) as u64)
        } else {
            prev
        }
    }
}

/// The addresses of all matching words of a scanned region.
pub open spec fn spec_matching_addresses(base: u64, words: Seq<u64>, value: i32) -> Seq<u64> {
    spec_matches_up_to(base, words, value, words.len() as int)
}

/// Scans the words read from the stack region, word `k` read at address
/// `base + WORD_SIZE * k`, and reports every address whose word matches
/// `value`; an empty result is the "value not found" error.
pub fn find_matches(base: u64, words: &Vec<u64>, value: i32) -> (r: Result<Vec<u64>, ProcessingError>)
    requires
        base + WORD_SIZE * words@.len() <= u64::MAX,
    ensures
        r matches Ok(addrs) ==> addrs@ == spec_matching_addresses(base, words@, value)
            && addrs@.len() > 0,
        r is Err <==> spec_matching_addresses(base, words@, value).len() == 0,
        r is Err ==> r == Err::<Vec<u64>, ProcessingError>(ProcessingError::ValueNotFoundInMemory),
{
    let mut addrs: Vec<u64> = Vec::new();
    let mut i: usize = 0;
    while i < words.len()
        invariant
            base + WORD_SIZE * words@.len() <= u64::MAX,
            0 <= i <= words@.len(),
            addrs@ == spec_matches_up_to(base, words@, value, i as int),
        decreases words@.len() - i,
    {
        let w = words[i];
        if word_display_value(w) == value {
            addrs.push(base + WORD_SIZE * (i as u64));
        }
        i += 1;
    }
    if addrs.len() == 0 {
        Err(ProcessingError::ValueNotFoundInMemory)
    } else {
        Ok(addrs)
    }
}

/// Whether a trimmed maps line carries the stack label: its last
/// whitespace-separated field is `[stack]`.
pub open spec fn spec_has_stack_suffix(t: Seq<u8>) -> bool {
    t.len() >= 8 && t[t.len() - 8] == ' ' as u8 && t[t.len() - 7] == '[' as u8 && t[t.len() - 6]
        == 's' as u8 && t[t.len() - 5] == 't' as u8 && t[t.len() - 4] == 'a' as u8 && t[t.len()
        - 3] == 'c' as u8 && t[t.len() - 2] == 'k' as u8 && t[t.len() - 1] == ']' as u8
}

/// Reads the region bounds out of a trimmed maps line labeled as the
/// stack: the first field is `<begin>-<end>` in hexadecimal.
pub open spec fn spec_maps_line_from_trimmed(t: Seq<u8>) -> Option<(u64, u64)> {
    if !spec_has_stack_suffix(t) {
        None
    } else {
        let tok = t.take(spec_find_byte(t, ' ' as u8, 0));
        let d = spec_find_byte(tok, '-' as u8, 0);
        if d == tok.len() {
            None
        } else if spec_hex_ok(tok.take(d)) && spec_hex_ok(tok.skip(d + 1)) {
            Some(
                (spec_hex_value(tok.take(d)) as u64, spec_hex_value(tok.skip(d + 1)) as u64),
            )
        } else {
            None
        }
    }
}

/// What one line of the target's memory-mapping listing contributes: the
/// stack region's bounds, when the line is labeled `[stack]` and its
/// address field is well formed.
pub open spec fn spec_parse_maps_line(line: Seq<u8>) -> Option<(u64, u64)> {
    spec_maps_line_from_trimmed(spec_trim(line))
}

/// Parses one line of the memory-mapping listing, as
/// `spec_parse_maps_line` describes.
pub fn parse_maps_line(line: &[u8]) -> (r: Option<(u64, u64)>)
    ensures
        r == spec_parse_maps_line(line@),
{
    let t = trim(line);
    proof {
        assert(spec_parse_maps_line(line@) == spec_maps_line_from_trimmed(t@));
    }
    if t.len() < 8 {
        return None;
    }
    let base = t.len() - 8;
    if !(t[base] == (' ' as u8) && t[base + 1] == ('[' as u8) && t[base + 2] == ('s' as u8)
        && t[base + 3] == ('t' as u8) && t[base + 4] == ('a' as u8) && t[base + 5] == ('c' as u8)
        && t[base + 6] == ('k' as u8) && t[base + 7] == (']' as u8)) {
        return None;
    }
    let sp = find_byte(t, ' ' as u8);
    let tok = vstd::slice::slice_subrange(t, 0, sp);
    proof {
        assert(tok@ =~= t@.take(sp as int));
    }
    let d = find_byte(tok, '-' as u8);
    if d == tok.len() {
        return None;
    }
    let left = vstd::slice::slice_subrange(tok, 0, d);
    let right = vstd::slice::slice_subrange(tok, d + 1, tok.len());
    proof {
        assert(left@ =~= tok@.take(d as int));
        assert(right@ =~= tok@.skip(d + 1));
    }
    match (parse_hex_u64(left), parse_hex_u64(right)) {
        (Some(b), Some(e)) => Some((b, e)),
        _ => None,
    }
}

/// The stack region reported by a whole memory-mapping listing: the last
/// line labeled `[stack]` whose address field parses.
pub open spec fn spec_stack_region(ls: Seq<Seq<u8>>) -> Option<(u64, u64)>
    decreases ls.len(),
{
    if ls.len() == 0 {
        None
    } else {
        match spec_parse_maps_line(ls.last()) {
            Some(b) => Some(b),
            None => spec_stack_region(ls.drop_last()),
        }
    }
}

/// Finds the stack region in the memory-mapping listing, one line per
/// entry. `None` is the "stack addresses not found" error.
pub fn find_stack_region(lines: &Vec<Vec<u8>>) -> (r: Option<(u64, u64)>)
    ensures
        r == spec_stack_region(lines.deep_view()),
{
    let ghost ls = lines.deep_view();
    let mut found: Option<(u64, u64)> = None;
    let mut i: usize = 0;
    proof {
        assert(ls.take(0) =~= Seq::<Seq<u8>>::empty());
    }
    while i < lines.len()
        invariant
            ls == lines.deep_view(),
            ls.len() == lines@.len(),
            forall|k: int| 0 <= k < ls.len() ==> ls[k] == lines@[k]@,
            0 <= i <= lines@.len(),
            found == spec_stack_region(ls.take(i as int)),
        decreases lines@.len() - i,
    {
        let line_result = parse_maps_line(lines[i].as_slice());
        proof {
            assert(ls.take(i + 1).drop_last() =~= ls.take(i as int));
            assert(ls.take(i + 1).last() == ls[i as int]);
        }
        if let Some(b) = line_result {
            found = Some(b);
        }
        i += 1;
    }
    proof {
        assert(ls.take(ls.len() as int) =~= ls);
    }
    found
}

/// The scan bounds derived from the stack region: one word trimmed at
/// each end to avoid edge artifacts. `None` when the region is too small
/// or too close to the ends of the address space to trim.
pub open spec fn spec_scan_bounds(begin: u64, end: u64) -> Option<(u64, u64)> {
    if begin + WORD_SIZE <= u64::MAX && end >= WORD_SIZE {
        Some(((begin + WORD_SIZE) as u64, (end - WORD_SIZE) as u64))
    } else {
        None
    }
}

/// Trims one word from each end of the stack region before scanning.
pub fn stack_scan_bounds(begin: u64, end: u64) -> (r: Option<(u64, u64)>)
    ensures
        r == spec_scan_bounds(begin, end),
{
    if begin <= u64::MAX - WORD_SIZE && end >= WORD_SIZE {
        Some((begin + WORD_SIZE, end - WORD_SIZE))
    } else {
        None
    }
}

} // verus!
