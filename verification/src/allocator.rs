//! The bump allocator that serves the heap of a program, and the per-call
//! bookkeeping that travels with it.

use vstd::prelude::*;

verus! {

/// The first address of the heap region.
pub const HEAP_START: u64 = 0x3_0000_0000;

/// Reads `MM_HEAP_START` of `solana_sbpf::ebpf`, the first address of the heap
/// region. Trusted: the constant is three regions of 2^32 bytes.
#[verifier::external_body]
fn heap_start() -> (address: u64)
    ensures
        address == HEAP_START,
{
    solana_sbpf::ebpf::MM_HEAP_START
}

/// The allocator has no room left for a request.
#[derive(Clone, Copy, Debug, PartialEq, Eq, Structural)]
pub struct AllocErr;

impl AllocErr {
    /// The message that goes with the error.
    pub fn to_string(&self) -> (message: String)
        ensures
            message@ == "Error: Memory allocation failed"@,
    {
        String::from_str("Error: Memory allocation failed")
    }
}

/// Saturating sum of two `u64` values.
pub open spec fn saturating_sum(a: u64, b: u64) -> u64 {
    if a + b > u64::MAX {
        u64::MAX
    } else {
        (a + b) as u64
    }
}

/// The bytes to skip from `pos` to reach the next multiple of `align`.
pub open spec fn bytes_to_align(pos: u64, align: u64) -> u64
    recommends
        align > 0,
{
    ((align - pos % align) % (align as int)) as u64
}

/// A bump allocator over `len` bytes of heap: it only ever moves forward.
pub struct BpfAllocator {
    len: u64,
    pos: u64,
}

impl BpfAllocator {
    /// The size of the heap.
    pub closed spec fn len(&self) -> u64 {
        self.len
    }

    /// The offset of the first byte that was not handed out yet.
    pub closed spec fn pos(&self) -> u64 {
        self.pos
    }

    /// An allocator over a heap of `len` bytes, all of them free.
    pub fn new(len: u64) -> (allocator: Self)
        ensures
            allocator.len() == len,
            allocator.pos() == 0,
    {
        Self { len, pos: 0 }
    }

    /// Hands out `size` bytes at the next address that is a multiple of
    /// `align`, or fails and leaves the allocator as it was when the heap has
    /// no room for them.
    pub fn allocate(&mut self, size: u64, align: u64) -> (r: Result<u64, AllocErr>)
        requires
            align > 0,
        ensures
            final(self).len() == old(self).len(),
            ({
                let start = saturating_sum(old(self).pos(), bytes_to_align(old(self).pos(), align));
                let end = saturating_sum(start, size);
                if end <= old(self).len() {
                    &&& r == Ok::<u64, AllocErr>(saturating_sum(HEAP_START, start))
                    &&& final(self).pos() == end
                } else {
                    &&& r is Err
                    &&& final(self).pos() == old(self).pos()
                }
            }),
    {
        let rest: u64 = self.pos % align;
        let padding: u64 = (align - rest) % align;
        let start: u64 = self.pos.saturating_add(padding);
        let end: u64 = start.saturating_add(size);
        if end <= self.len {
            self.pos = end;
            Ok(heap_start().saturating_add(start))
        } else {
            Err(AllocErr)
        }
    }
}

/// Where one account was placed in the memory of the program.
#[derive(Clone, Copy, Debug)]
pub struct SerializedAccountMetadata {
    pub original_data_len: usize,
    pub vm_data_addr: u64,
    pub vm_key_addr: u64,
    pub vm_lamports_addr: u64,
    pub vm_owner_addr: u64,
}

/// What one call of a program carries: its heap, the accounts it was given and
/// the register trace it left.
pub struct SyscallContext {
    pub allocator: BpfAllocator,
    pub accounts_metadata: Vec<SerializedAccountMetadata>,
    pub trace_log: Vec<[u64; 12]>,
}

} // verus!
