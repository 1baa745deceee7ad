use vstd::prelude::*;

verus! {

/// The single-byte trap opcode written over the first byte of a
/// breakpointed instruction.
pub const TRAP_OPCODE: u8 = 0xcc;

/// The mask that keeps every byte of a machine word except the lowest.
pub const HIGH_BYTES_MASK: u64 = 0xffff_ffff_ffff_ff00;

/// Low byte of a machine word: the byte that a breakpoint patch replaces.
/// A word read at address `a` carries the byte at `a` in this position.
pub open spec fn spec_low_byte(w: u64) -> u8 {
    (w & 0xff) as u8
}

/// The word `w` with its low byte replaced by `b`; all other bytes kept.
pub open spec fn spec_with_low_byte(w: u64, b: u8) -> u64 {
    (w & HIGH_BYTES_MASK) | (b as u64)
}

/// Replacing the low byte of a word touches exactly the low byte: the new
/// low byte is `b`, the remaining bytes are those of `w`, and putting the
/// original low byte back restores `w` exactly.
pub proof fn lemma_with_low_byte(w: u64, b: u8)
    ensures
        spec_low_byte(spec_with_low_byte(w, b)) == b,
        spec_with_low_byte(w, b) >> 8 == w >> 8,
        spec_with_low_byte(w, spec_low_byte(w)) == w,
{
    assert((((w & HIGH_BYTES_MASK) | (b as u64)) & 0xff) as u8 == b) by (bit_vector);
    assert(((w & HIGH_BYTES_MASK) | (b as u64)) >> 8 == w >> 8) by (bit_vector);
    assert((w & HIGH_BYTES_MASK) | (((w & 0xff) as u8) as u64) == w) by (bit_vector);
}

/// Patching a low byte twice keeps only the second patch: restoring a saved
/// byte over an installed trap gives the same word as never having trapped.
pub proof fn lemma_patch_overwrites(w: u64, first: u8, second: u8)
    ensures
        spec_with_low_byte(spec_with_low_byte(w, first), second) == spec_with_low_byte(w, second),
{
    assert((((w & HIGH_BYTES_MASK) | (first as u64)) & HIGH_BYTES_MASK) | (second as u64) == (w
        & HIGH_BYTES_MASK) | (second as u64)) by (bit_vector);
}

/// Extracts the low byte of a word.
pub fn low_byte(w: u64) -> (b: u8)
    ensures
        b == spec_low_byte(w),
{
    (w & 0xff) as u8
}

/// One patched location: the address of the trapped instruction and the
/// byte that originally stood there, kept so execution semantics can be
/// restored exactly.
#[derive(Clone, Copy, PartialEq, Eq, Structural)]
pub struct Breakpoint {
    pub address: u64,
    pub previous_byte: u8,
}

impl Breakpoint {
    /// The word to write back when installing this breakpoint: the current
    /// word at `address` with its low byte replaced by the trap opcode.
    pub fn insert_word(&self, current_word: u64) -> (r: u64)
        ensures
            r == spec_with_low_byte(current_word, TRAP_OPCODE),
            spec_low_byte(r) == TRAP_OPCODE,
            r >> 8 == current_word >> 8,
    {
        proof {
            lemma_with_low_byte(current_word, TRAP_OPCODE);
        }
        (current_word & HIGH_BYTES_MASK) | (TRAP_OPCODE as u64)
    }

    /// The word to write back when removing this breakpoint: the current
    /// word at `address` with its low byte replaced by the saved byte.
    pub fn remove_word(&self, current_word: u64) -> (r: u64)
        ensures
            r == spec_with_low_byte(current_word, self.previous_byte),
            spec_low_byte(r) == self.previous_byte,
            r >> 8 == current_word >> 8,
    {
        proof {
            lemma_with_low_byte(current_word, self.previous_byte);
        }
        (current_word & HIGH_BYTES_MASK) | (self.previous_byte as u64)
    }
}

/// No two breakpoints of the sequence share an address.
pub open spec fn distinct_addresses(bps: Seq<Breakpoint>) -> bool {
    forall|i: int, j: int| 0 <= i < j < bps.len() ==> bps[i].address != bps[j].address
}

/// Byte-level model of installing one breakpoint into the target's memory:
/// the byte at its address becomes the trap opcode.
pub open spec fn spec_install(mem: Map<u64, u8>, bp: Breakpoint) -> Map<u64, u8> {
    mem.insert(bp.address, TRAP_OPCODE)
}

/// Byte-level model of uninstalling one breakpoint: the byte at its address
/// becomes the saved original byte again.
pub open spec fn spec_uninstall(mem: Map<u64, u8>, bp: Breakpoint) -> Map<u64, u8> {
    mem.insert(bp.address, bp.previous_byte)
}

/// Memory after installing every breakpoint of the sequence, in order.
pub open spec fn spec_apply_all(mem: Map<u64, u8>, bps: Seq<Breakpoint>) -> Map<u64, u8>
    decreases bps.len(),
{
    if bps.len() == 0 {
        mem
    } else {
        spec_apply_all(spec_install(mem, bps[0]), bps.skip(1))
    }
}

/// Memory after uninstalling every breakpoint of the sequence, in order.
pub open spec fn spec_remove_all(mem: Map<u64, u8>, bps: Seq<Breakpoint>) -> Map<u64, u8>
    decreases bps.len(),
{
    if bps.len() == 0 {
        mem
    } else {
        spec_remove_all(spec_uninstall(mem, bps[0]), bps.skip(1))
    }
}

/// Neither installing nor uninstalling a set of breakpoints touches an
/// address that none of them patches.
pub proof fn lemma_patches_leave_others(mem: Map<u64, u8>, bps: Seq<Breakpoint>, a: u64)
    requires
        forall|i: int| 0 <= i < bps.len() ==> bps[i].address != a,
    ensures
        spec_apply_all(mem, bps).contains_key(a) == mem.contains_key(a),
        mem.contains_key(a) ==> spec_apply_all(mem, bps)[a] == mem[a],
        spec_remove_all(mem, bps).contains_key(a) == mem.contains_key(a),
        mem.contains_key(a) ==> spec_remove_all(mem, bps)[a] == mem[a],
    decreases bps.len(),
{
    if bps.len() > 0 {
        assert(forall|i: int| 0 <= i < bps.skip(1).len() ==> bps.skip(1)[i] == bps[i + 1]);
        lemma_patches_leave_others(spec_install(mem, bps[0]), bps.skip(1), a);
        lemma_patches_leave_others(spec_uninstall(mem, bps[0]), bps.skip(1), a);
    }
}

/// An address patched by a set of breakpoints is in the domain of both
/// folds, whether or not it was mapped before.
pub proof fn lemma_patched_in_domain(mem: Map<u64, u8>, bps: Seq<Breakpoint>, i: int)
    requires
        0 <= i < bps.len(),
    ensures
        spec_apply_all(mem, bps).contains_key(bps[i].address),
        spec_remove_all(mem, bps).contains_key(bps[i].address),
    decreases bps.len(),
{
    assert(forall|k: int| 0 <= k < bps.skip(1).len() ==> bps.skip(1)[k] == bps[k + 1]);
    if i == 0 {
        if forall|k: int| 0 <= k < bps.skip(1).len() ==> bps.skip(1)[k].address != bps[0].address {
            lemma_patches_leave_others(spec_install(mem, bps[0]), bps.skip(1), bps[0].address);
            lemma_patches_leave_others(spec_uninstall(mem, bps[0]), bps.skip(1), bps[0].address);
        } else {
            let k = choose|k: int|
                0 <= k < bps.skip(1).len() && bps.skip(1)[k].address == bps[0].address;
            lemma_patched_in_domain(spec_install(mem, bps[0]), bps.skip(1), k);
            lemma_patched_in_domain(spec_uninstall(mem, bps[0]), bps.skip(1), k);
        }
    } else {
        lemma_patched_in_domain(spec_install(mem, bps[0]), bps.skip(1), i - 1);
        lemma_patched_in_domain(spec_uninstall(mem, bps[0]), bps.skip(1), i - 1);
    }
}

/// After installing a set of breakpoints with distinct addresses, every
/// patched address holds the trap opcode.
pub proof fn lemma_apply_all_installs(mem: Map<u64, u8>, bps: Seq<Breakpoint>, i: int)
    requires
        distinct_addresses(bps),
        0 <= i < bps.len(),
    ensures
        spec_apply_all(mem, bps).contains_key(bps[i].address),
        spec_apply_all(mem, bps)[bps[i].address] == TRAP_OPCODE,
    decreases bps.len(),
{
    assert(forall|k: int| 0 <= k < bps.skip(1).len() ==> bps.skip(1)[k] == bps[k + 1]);
    if i == 0 {
        lemma_patches_leave_others(spec_install(mem, bps[0]), bps.skip(1), bps[0].address);
    } else {
        lemma_apply_all_installs(spec_install(mem, bps[0]), bps.skip(1), i - 1);
    }
}

/// After uninstalling a set of breakpoints with distinct addresses, every
/// patched address holds its saved original byte again.
pub proof fn lemma_remove_all_restores(mem: Map<u64, u8>, bps: Seq<Breakpoint>, i: int)
    requires
        distinct_addresses(bps),
        0 <= i < bps.len(),
    ensures
        spec_remove_all(mem, bps).contains_key(bps[i].address),
        spec_remove_all(mem, bps)[bps[i].address] == bps[i].previous_byte,
    decreases bps.len(),
{
    assert(forall|k: int| 0 <= k < bps.skip(1).len() ==> bps.skip(1)[k] == bps[k + 1]);
    if i == 0 {
        lemma_patches_leave_others(spec_uninstall(mem, bps[0]), bps.skip(1), bps[0].address);
    } else {
        lemma_remove_all_restores(spec_uninstall(mem, bps[0]), bps.skip(1), i - 1);
    }
}

/// Breakpoint round trip: when every tracked breakpoint records the byte
/// its address currently holds, installing all of them and then removing
/// all of them gives back exactly the memory they started from.
pub proof fn lemma_breakpoint_round_trip(mem: Map<u64, u8>, bps: Seq<Breakpoint>)
    requires
        distinct_addresses(bps),
        forall|i: int|
            0 <= i < bps.len() ==> mem.contains_key(bps[i].address) && mem[bps[i].address]
                == bps[i].previous_byte,
    ensures
        spec_remove_all(spec_apply_all(mem, bps), bps) =~= mem,
{
    let applied = spec_apply_all(mem, bps);
    let restored = spec_remove_all(applied, bps);
    assert forall|a: u64| restored.contains_key(a) == mem.contains_key(a) by {
        if exists|i: int| 0 <= i < bps.len() && bps[i].address == a {
            let i = choose|i: int| 0 <= i < bps.len() && bps[i].address == a;
            lemma_patched_in_domain(applied, bps, i);
        } else {
            lemma_patches_leave_others(mem, bps, a);
            lemma_patches_leave_others(applied, bps, a);
        }
    }
    assert forall|a: u64| mem.contains_key(a) implies restored[a] == mem[a] by {
        if exists|i: int| 0 <= i < bps.len() && bps[i].address == a {
            let i = choose|i: int| 0 <= i < bps.len() && bps[i].address == a;
            lemma_remove_all_restores(applied, bps, i);
        } else {
            lemma_patches_leave_others(mem, bps, a);
            lemma_patches_leave_others(applied, bps, a);
        }
    }
    assert(restored.dom() =~= mem.dom());
}

/// Visibility invariant: while the session is stopped, that is after
/// removing every tracked breakpoint, reading the byte at any tracked
/// address yields the saved original byte, never the trap opcode that was
/// injected while running.
pub proof fn lemma_stopped_visibility(mem: Map<u64, u8>, ctx: Context)
    requires
        ctx.wf(),
    ensures
        forall|i: int|
            0 <= i < ctx.breakpoints@.len() ==> spec_remove_all(
                mem,
                ctx.breakpoints@,
            ).contains_key(#[trigger] ctx.breakpoints@[i].address) && spec_remove_all(
                mem,
                ctx.breakpoints@,
            )[ctx.breakpoints@[i].address] == ctx.breakpoints@[i].previous_byte,
{
    assert forall|i: int| 0 <= i < ctx.breakpoints@.len() implies spec_remove_all(
        mem,
        ctx.breakpoints@,
    ).contains_key(#[trigger] ctx.breakpoints@[i].address) && spec_remove_all(
        mem,
        ctx.breakpoints@,
    )[ctx.breakpoints@[i].address] == ctx.breakpoints@[i].previous_byte by {
        lemma_remove_all_restores(mem, ctx.breakpoints@, i);
    }
}

/// Resume safety: right after a breakpoint hit the set has been removed
/// from live memory, so as long as the instruction at the hit address was
/// not itself the trap opcode, the single step that precedes a resume
/// executes the original instruction and cannot re-trap at that address.
pub proof fn lemma_resume_safety(mem: Map<u64, u8>, ctx: Context, i: int)
    requires
        ctx.wf(),
        0 <= i < ctx.breakpoints@.len(),
        ctx.breakpoints@[i].previous_byte != TRAP_OPCODE,
    ensures
        spec_remove_all(mem, ctx.breakpoints@)[ctx.breakpoints@[i].address] != TRAP_OPCODE,
{
    lemma_remove_all_restores(mem, ctx.breakpoints@, i);
}

/// The deduplicated collection of breakpoints for one session. The target
/// process's memory is a derived view that this set pushes to and pulls
/// from; the set itself is the authoritative record.
pub struct Context {
    pub breakpoints: Vec<Breakpoint>,
}

impl Context {
    /// No two tracked breakpoints share an address.
    pub open spec fn wf(self) -> bool {
        distinct_addresses(self.breakpoints@)
    }

    /// Whether some tracked breakpoint patches `address`.
    pub open spec fn tracks(self, address: u64) -> bool {
        exists|i: int|
            0 <= i < self.breakpoints@.len() && self.breakpoints@[i].address == address
    }

    pub fn new() -> (c: Context)
        ensures
            c.wf(),
            c.breakpoints@.len() == 0,
    {
        Context { breakpoints: Vec::new() }
    }

    /// Records a breakpoint. Adding at an address already tracked is a
    /// no-op: the set's size and the recorded original byte are unchanged.
    pub fn add_breakpoint(&mut self, breakpoint: Breakpoint)
        requires
            old(self).wf(),
        ensures
            final(self).wf(),
            old(self).tracks(breakpoint.address) ==> final(self).breakpoints@ == old(
                self,
            ).breakpoints@,
            !old(self).tracks(breakpoint.address) ==> final(self).breakpoints@ == old(
                self,
            ).breakpoints@.push(breakpoint),
    {
        let mut i: usize = 0;
        while i < self.breakpoints.len()
            invariant
                old(self).wf(),
                0 <= i <= self.breakpoints@.len(),
                forall|k: int| 0 <= k < i ==> self.breakpoints@[k].address != breakpoint.address,
                *self == *old(self),
            decreases self.breakpoints@.len() - i,
        {
            if self.breakpoints[i].address == breakpoint.address {
                proof {
                    assert(self.breakpoints@[i as int].address == breakpoint.address);
                    assert(old(self).tracks(breakpoint.address));
                }
                return ;
            }
            i += 1;
        }
        self.breakpoints.push(breakpoint);
    }

    /// Lookup used to classify a stop as breakpoint-caused.
    pub fn find_by_address(&self, address: u64) -> (r: Option<Breakpoint>)
        ensures
            r is Some <==> self.tracks(address),
            r matches Some(bp) ==> bp.address == address && exists|i: int|
                0 <= i < self.breakpoints@.len() && self.breakpoints@[i] == bp,
    {
        let mut i: usize = 0;
        while i < self.breakpoints.len()
            invariant
                0 <= i <= self.breakpoints@.len(),
                forall|k: int| 0 <= k < i ==> self.breakpoints@[k].address != address,
            decreases self.breakpoints@.len() - i,
        {
            if self.breakpoints[i].address == address {
                return Some(self.breakpoints[i]);
            }
            i += 1;
        }
        None
    }
}

} // verus!
