//! The interpreter's linear memory: address ranges, the registers that say
//! which part of the memory the running context owns, and the checked
//! primitives through which instructions write to it.

use vstd::prelude::*;

use crate::consts::{MEM_SIZE, VM_MAX_RAM};
use crate::error::PanicReason;
use core::ops::Range;

verus! {

/// Kind of execution a frame belongs to.
#[derive(Debug, Clone, Copy, PartialEq, Eq, Structural, Hash)]
pub enum Context {
    /// Top-level execution of a transaction's script.
    Script { block_height: u32 },
    /// Execution inside a contract call.
    Call { block_height: u32 },
}

impl Context {
    /// An external context is one that no contract call encloses.
    pub open spec fn spec_is_external(&self) -> bool {
        *self is Script
    }

    /// Tells whether the context is external.
    #[verifier::when_used_as_spec(spec_is_external)]
    pub fn is_external(&self) -> (r: bool)
        ensures
            r == self.spec_is_external(),
    {
        match self {
            Context::Script { .. } => true,
            Context::Call { .. } => false,
        }
    }
}

/// A half-open range of addresses `[start, end)` that fits in the memory.
#[derive(Debug, Clone, Copy, PartialEq, Eq, Hash)]
pub struct MemoryRange {
    start: usize,
    end: usize,
}

impl MemoryRange {
    #[verifier::type_invariant]
    spec fn in_memory(self) -> bool {
        self.start <= self.end <= MEM_SIZE
    }

    /// First address of the range.
    pub closed spec fn spec_start(&self) -> usize {
        self.start
    }

    /// Address after the last one of the range.
    pub closed spec fn spec_end(&self) -> usize {
        self.end
    }

    /// A range is well formed when it is ordered and ends inside the memory.
    pub open spec fn wf(&self) -> bool {
        self.spec_start() <= self.spec_end() <= MEM_SIZE
    }

    /// Builds the range of `size` bytes that starts at `address`. Fails with
    /// `MemoryOverflow` exactly when the range would end beyond the memory.
    pub fn new(address: usize, size: usize) -> (r: Result<MemoryRange, PanicReason>)
        ensures
            address + size <= MEM_SIZE ==> (r matches Ok(range) && range.spec_start() == address
                && range.spec_end() == address + size && range.wf()),
            address + size > MEM_SIZE ==> r == Err::<MemoryRange, PanicReason>(
                PanicReason::MemoryOverflow,
            ),
    {
        if address > MEM_SIZE || size > MEM_SIZE - address {
            return Err(PanicReason::MemoryOverflow);
        }
        Ok(MemoryRange { start: address, end: address + size })
    }

    /// First address of the range.
    #[verifier::when_used_as_spec(spec_start)]
    pub fn start(&self) -> (r: usize)
        ensures
            r == self.spec_start(),
            self.wf(),
    {
        proof {
            use_type_invariant(self);
        }
        self.start
    }

    /// Address after the last one of the range.
    #[verifier::when_used_as_spec(spec_end)]
    pub fn end(&self) -> (r: usize)
        ensures
            r == self.spec_end(),
            self.wf(),
    {
        proof {
            use_type_invariant(self);
        }
        self.end
    }

    /// Number of addresses in the range.
    pub fn len(&self) -> (r: usize)
        ensures
            r == self.spec_end() - self.spec_start(),
    {
        proof {
            use_type_invariant(self);
        }
        self.end - self.start
    }

    /// Tells whether the range holds no address.
    pub fn is_empty(&self) -> (r: bool)
        ensures
            r == (self.spec_start() == self.spec_end()),
    {
        proof {
            use_type_invariant(self);
        }
        self.start == self.end
    }
}

/// The registers that delimit what the running context owns: its stack
/// `[ssp, sp)` and its heap, which starts at `hp`.
#[derive(Debug, Clone, Copy, PartialEq, Eq, Structural, Hash)]
pub struct OwnershipRegisters {
    /// Top of the stack, exclusive.
    pub sp: u64,
    /// Start of the stack of the running frame.
    pub ssp: u64,
    /// Bottom of the heap; the heap grows towards lower addresses.
    pub hp: u64,
    /// Bottom of the heap as the calling frame left it.
    pub prev_hp: u64,
    /// Kind of the running frame.
    pub context: Context,
}

impl OwnershipRegisters {
    /// Registers of a frame whose stack is `stack` and whose heap is `heap`.
    pub fn test(stack: Range<u64>, heap: Range<u64>, context: Context) -> (r: OwnershipRegisters)
        ensures
            r == (OwnershipRegisters {
                sp: stack.end,
                ssp: stack.start,
                hp: heap.start,
                prev_hp: heap.end,
                context,
            }),
    {
        OwnershipRegisters {
            sp: stack.end,
            ssp: stack.start,
            hp: heap.start,
            prev_hp: heap.end,
            context,
        }
    }

    /// Address at which the owned heap ends: the end of the memory for an
    /// external context, the caller's heap bottom inside a call.
    pub open spec fn heap_end(&self) -> int {
        if self.context.spec_is_external() {
            VM_MAX_RAM as int
        } else {
            self.prev_hp as int
        }
    }

    /// Ownership of `[start, end)` through the stack. A range that starts in
    /// `[ssp, sp)` is owned when it ends at or before `sp`; the empty range
    /// at `ssp` is owned even when the stack is empty.
    pub open spec fn owns_in_stack(&self, start: int, end: int) -> bool {
        ||| (start >= end && start == self.ssp)
        ||| (self.ssp <= start < self.sp && self.ssp <= end <= self.sp && end <= VM_MAX_RAM)
    }

    /// Ownership of `[start, end)` through the heap: the heap is not empty
    /// and the range lies between `hp` and the heap's end.
    pub open spec fn owns_in_heap(&self, start: int, end: int) -> bool {
        self.hp <= start && self.hp != self.heap_end() && end <= self.heap_end()
    }

    /// Ownership of `[start, end)`: through the stack or through the heap.
    pub open spec fn owns(&self, start: int, end: int) -> bool {
        self.owns_in_stack(start, end) || self.owns_in_heap(start, end)
    }

    /// Tells whether the stack of the running frame owns `range`.
    pub fn has_ownership_stack(&self, range: &Range<u64>) -> (r: bool)
        ensures
            r == self.owns_in_stack(range.start as int, range.end as int),
    {
        if range.start >= range.end && range.start == self.ssp {
            return true;
        }
        if !(self.ssp <= range.start && range.start < self.sp) {
            return false;
        }
        if range.end > VM_MAX_RAM {
            return false;
        }
        self.ssp <= range.end && range.end <= self.sp
    }

    /// Tells whether the heap of the running frame owns `range`.
    pub fn has_ownership_heap(&self, range: &Range<u64>) -> (r: bool)
        ensures
            r == self.owns_in_heap(range.start as int, range.end as int),
    {
        if range.start < self.hp {
            return false;
        }
        let heap_end = if self.context.is_external() {
            VM_MAX_RAM
        } else {
            self.prev_hp
        };
        self.hp != heap_end && range.end <= heap_end
    }

    /// Tells whether the running frame owns `range`.
    pub fn has_ownership_range(&self, range: &MemoryRange) -> (r: bool)
        ensures
            r == self.owns(range.spec_start() as int, range.spec_end() as int),
    {
        let range = (range.start() as u64)..(range.end() as u64);
        self.has_ownership_stack(&range) || self.has_ownership_heap(&range)
    }

    /// Accepts `range` when the running frame owns it, and fails with
    /// `MemoryOwnership` otherwise.
    pub fn verify_ownership(&self, range: &MemoryRange) -> (r: Result<(), PanicReason>)
        ensures
            self.owns(range.spec_start() as int, range.spec_end() as int) ==> r is Ok,
            !self.owns(range.spec_start() as int, range.spec_end() as int) ==> r == Err::<
                (),
                PanicReason,
            >(PanicReason::MemoryOwnership),
    {
        if self.has_ownership_range(range) {
            Ok(())
        } else {
            Err(PanicReason::MemoryOwnership)
        }
    }

    /// A range that holds an address is owned exactly when it lies wholly
    /// inside the stack `[ssp, sp)` or wholly inside the heap
    /// `[hp, heap_end)`.
    pub proof fn lemma_owned_iff_inside(self, start: int, end: int)
        requires
            0 <= start < end <= VM_MAX_RAM,
        ensures
            self.owns(start, end) <==> ((self.ssp <= start && end <= self.sp) || (self.hp <= start
                && end <= self.heap_end())),
    {
    }

    /// Ownership passes to the ranges inside an owned range, but for the
    /// empty range at the very end of a non-empty one.
    pub proof fn lemma_ownership_monotonic(
        self,
        start1: int,
        end1: int,
        start2: int,
        end2: int,
    )
        requires
            self.owns(start1, end1),
            start1 <= start2 <= end2 <= end1,
            start2 < end1 || start1 == end1,
        ensures
            self.owns(start2, end2),
    {
    }
}

/// The memory `mem` after `data` was written at `addr`.
pub open spec fn spec_write(mem: Seq<u8>, addr: int, data: Seq<u8>) -> Seq<u8> {
    Seq::new(
        mem.len(),
        |i: int|
            if addr <= i < addr + data.len() {
                data[i - addr]
            } else {
                mem[i]
            },
    )
}

/// `len` zero bytes.
pub open spec fn spec_zeros(len: nat) -> Seq<u8> {
    Seq::new(len, |i: int| 0u8)
}

/// The outcome of checking a write of `len` bytes at `addr`: the reason for
/// which it is refused, if it is. An empty write is refused first, then one
/// that leaves the memory, then one to addresses that `registers` does not
/// own.
pub open spec fn spec_write_check(addr: int, len: int, registers: OwnershipRegisters) -> Result<
    (),
    PanicReason,
> {
    if len == 0 {
        Err(PanicReason::MemoryWriteSize)
    } else if addr + len > MEM_SIZE {
        Err(PanicReason::MemoryOverflow)
    } else if !registers.owns(addr, addr + len) {
        Err(PanicReason::MemoryOwnership)
    } else {
        Ok(())
    }
}

/// Checks a write of `len` bytes at `addr` and gives the range it covers.
fn check_write(addr: usize, len: usize, registers: &OwnershipRegisters) -> (r: Result<
    MemoryRange,
    PanicReason,
>)
    ensures
        match spec_write_check(addr as int, len as int, *registers) {
            Ok(_) => r matches Ok(range) && range.spec_start() == addr && range.spec_end() == addr
                + len && range.wf(),
            Err(e) => r == Err::<MemoryRange, PanicReason>(e),
        },
{
    if len == 0 {
        return Err(PanicReason::MemoryWriteSize);
    }
    let range = match MemoryRange::new(addr, len) {
        Ok(range) => range,
        Err(e) => {
            return Err(e);
        },
    };
    match registers.verify_ownership(&range) {
        Ok(_) => Ok(range),
        Err(e) => Err(e),
    }
}

/// Writes `data` at `addr` if the running frame owns the addresses written.
/// On any refusal the memory is left as it was.
pub fn try_mem_write(
    addr: usize,
    data: &[u8],
    registers: OwnershipRegisters,
    memory: &mut [u8; MEM_SIZE],
) -> (r: Result<(), PanicReason>)
    ensures
        r == spec_write_check(addr as int, data@.len() as int, registers),
        r is Ok ==> final(memory)@ == spec_write(old(memory)@, addr as int, data@),
        r is Err ==> final(memory)@ == old(memory)@,
{
    let range = match check_write(addr, data.len(), &registers) {
        Ok(range) => range,
        Err(e) => {
            return Err(e);
        },
    };
    let start = range.start();
    let len = data.len();
    let mut i: usize = 0;
    while i < len
        invariant
            i <= len,
            len == data@.len(),
            start + len <= MEM_SIZE,
            memory@ == spec_write(old(memory)@, start as int, data@.subrange(0, i as int)),
        decreases len - i,
    {
        memory[start + i] = data[i];
        i = i + 1;
    }
    assert(data@.subrange(0, len as int) == data@);
    Ok(())
}

/// Sets `len` bytes at `addr` to zero if the running frame owns them. On any
/// refusal the memory is left as it was.
pub fn try_zeroize(
    addr: usize,
    len: usize,
    registers: OwnershipRegisters,
    memory: &mut [u8; MEM_SIZE],
) -> (r: Result<(), PanicReason>)
    ensures
        r == spec_write_check(addr as int, len as int, registers),
        r is Ok ==> final(memory)@ == spec_write(old(memory)@, addr as int, spec_zeros(len as nat)),
        r is Err ==> final(memory)@ == old(memory)@,
{
    let range = match check_write(addr, len, &registers) {
        Ok(range) => range,
        Err(e) => {
            return Err(e);
        },
    };
    let start = range.start();
    let mut i: usize = 0;
    while i < len
        invariant
            i <= len,
            start + len <= MEM_SIZE,
            memory@ == spec_write(old(memory)@, start as int, spec_zeros(i as nat)),
        decreases len - i,
    {
        memory[start + i] = 0;
        i = i + 1;
    }
    Ok(())
}

/// Number of bytes that a copy of `len` bytes can take from a source of
/// `src_len` bytes, starting at `src_offset` in it.
pub open spec fn spec_copied(src_len: int, src_offset: int, len: int) -> int {
    let available = if src_offset <= src_len {
        src_len - src_offset
    } else {
        0
    };
    if len <= available {
        len
    } else {
        available
    }
}

/// The `len` bytes that a zero-filling copy writes: those of `src` from
/// `src_offset` on, as far as there are any, and zeros after them.
pub open spec fn spec_zero_filled(src: Seq<u8>, src_offset: int, len: int) -> Seq<u8> {
    Seq::new(
        len as nat,
        |i: int|
            if i < spec_copied(src.len() as int, src_offset, len) {
                src[src_offset + i]
            } else {
                0u8
            },
    )
}

/// Copies `len` bytes to `dst_addr`, taken from `src` at `src_offset` as far
/// as `src` reaches and zero beyond it, without asking who owns the
/// destination. Fails with `MemoryOverflow`, leaving the memory as it was,
/// exactly when the destination leaves the memory.
pub fn copy_from_slice_zero_fill_noownerchecks(
    memory: &mut [u8; MEM_SIZE],
    src: &[u8],
    dst_addr: usize,
    src_offset: usize,
    len: usize,
) -> (r: Result<(), PanicReason>)
    ensures
        dst_addr + len <= MEM_SIZE ==> r is Ok && final(memory)@ == spec_write(
            old(memory)@,
            dst_addr as int,
            spec_zero_filled(src@, src_offset as int, len as int),
        ),
        dst_addr + len > MEM_SIZE ==> r == Err::<(), PanicReason>(PanicReason::MemoryOverflow)
            && final(memory)@ == old(memory)@,
{
    let range = match MemoryRange::new(dst_addr, len) {
        Ok(range) => range,
        Err(e) => {
            return Err(e);
        },
    };
    let start = range.start();
    let available = if src_offset <= src.len() {
        src.len() - src_offset
    } else {
        0
    };
    let copied = if len <= available {
        len
    } else {
        available
    };
    let ghost filled = spec_zero_filled(src@, src_offset as int, len as int);
    let mut i: usize = 0;
    while i < len
        invariant
            i <= len,
            start + len <= MEM_SIZE,
            copied == spec_copied(src@.len() as int, src_offset as int, len as int),
            copied == 0 || src_offset + copied <= src.len(),
            filled == spec_zero_filled(src@, src_offset as int, len as int),
            memory@ == spec_write(old(memory)@, start as int, filled.subrange(0, i as int)),
        decreases len - i,
    {
        if i < copied {
            memory[start + i] = src[src_offset + i];
        } else {
            memory[start + i] = 0;
        }
        i = i + 1;
    }
    assert(filled.subrange(0, len as int) == filled);
    Ok(())
}

/// The array `array` with `val` at `index`.
pub fn set_index(index: usize, val: u8, array: [u8; 100]) -> (r: [u8; 100])
    requires
        index < 100,
    ensures
        r@ == array@.update(index as int, val),
{
    let mut array = array;
    array[index] = val;
    array
}

} // verus!
