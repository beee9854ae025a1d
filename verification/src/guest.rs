//! Guest memory and the descriptor chains that point into it.
use vm_memory::{Bytes, GuestAddress, GuestMemoryError, GuestMemoryMmap};
use vstd::prelude::*;

verus! {

/// The guest memory of the `vm-memory` crate: regions of guest physical addresses, each mapped into
/// this process. The regions of a value never change; their bytes are shared with the guest, which
/// may change them at any time.
///
/// Trusted: nothing but that the type exists.
#[verifier::external_type_specification]
#[verifier::external_body]
pub struct ExGuestMemoryMmap(GuestMemoryMmap);

/// Why an access to guest memory failed.
#[derive(Debug, Clone, Copy, PartialEq, Eq, Structural)]
pub enum GuestError {
    /// No memory region holds the first address of the access.
    InvalidGuestAddress,
    /// The mapped bytes end before the access does.
    PartialBuffer,
    /// Any other failure of the memory backend.
    Backend,
}

/// The guest physical addresses that the regions of `mem` cover. Regions are not empty, do not
/// overlap and end below the greatest address.
pub uninterp spec fn guest_addresses(mem: GuestMemoryMmap) -> Set<u64>;

/// The accesses that [`write_guest`] and [`read_guest`] have made through `mem`, oldest first:
/// whether it was a write, the guest address, and the bytes of the caller's buffer when the access
/// returned. It is a record for contracts, by which they say what was handed to the memory and what
/// it gave. Other accesses, such as those of the host to the queues' rings, are not in it. What the
/// guest memory holds has no name: the guest changes it.
pub uninterp spec fn guest_accesses(mem: GuestMemoryMmap) -> Seq<(bool, u64, Seq<u8>)>;

/// Every address of the `len` bytes at `addr` is mapped.
pub open spec fn range_mapped(mapped: Set<u64>, addr: u64, len: nat) -> bool {
    forall|k: int|
        0 <= k < len ==> addr + k <= u64::MAX && #[trigger] mapped.contains((addr + k) as u64)
}

/// How an access of `len` bytes at `addr` ends.
pub open spec fn access_result(mapped: Set<u64>, addr: u64, len: nat) -> Result<(), GuestError> {
    if !mapped.contains(addr) {
        Err(GuestError::InvalidGuestAddress)
    } else if range_mapped(mapped, addr, len) {
        Ok(())
    } else {
        Err(GuestError::PartialBuffer)
    }
}

/// Writes `buf` to guest memory at `addr`, by `Bytes::write_slice` of `GuestMemoryMmap`.
///
/// Trusted: that this is the one access made, with these bytes and this address; that the regions
/// stay as they are; and that the access succeeds if and only if the first address and every
/// address of the range are mapped. With the first address unmapped, also for an empty `buf`, the
/// error is `InvalidGuestAddress`; else the bytes up to the first gap are written and the error is
/// `PartialBuffer`. That the bytes are then found in the memory is left unsaid: the guest and its
/// other devices may overwrite them.
#[verifier::external_body]
fn write_guest(mem: &mut GuestMemoryMmap, buf: &[u8], addr: u64) -> (r: Result<(), GuestError>)
    ensures
        guest_addresses(*final(mem)) == guest_addresses(*old(mem)),
        guest_accesses(*final(mem)) == guest_accesses(*old(mem)).push((true, addr, buf@)),
        r == access_result(guest_addresses(*old(mem)), addr, buf@.len()),
{
    match mem.write_slice(buf, GuestAddress(addr)) {
        Ok(()) => Ok(()),
        Err(GuestMemoryError::InvalidGuestAddress(_)) => Err(GuestError::InvalidGuestAddress),
        Err(GuestMemoryError::PartialBuffer { .. }) => Err(GuestError::PartialBuffer),
        Err(GuestMemoryError::IOError(_)) => Err(GuestError::Backend),
        Err(GuestMemoryError::InvalidBackendAddress) => Err(GuestError::Backend),
        Err(GuestMemoryError::HostAddressNotAvailable) => Err(GuestError::Backend),
    }
}

/// Reads guest memory at `addr` into the whole of `buf`, by `Bytes::read_slice` of
/// `GuestMemoryMmap`.
///
/// Trusted: that this is the one access made, at this address, and gives what `buf` then holds;
/// that the regions and the length of `buf` stay as they are; and that the access succeeds or fails
/// as a write of the same length would. Which bytes come is left unsaid: it is the guest that put
/// them there, and may be changing them.
#[verifier::external_body]
fn read_guest(mem: &mut GuestMemoryMmap, buf: &mut [u8], addr: u64) -> (r: Result<(), GuestError>)
    ensures
        guest_addresses(*final(mem)) == guest_addresses(*old(mem)),
        guest_accesses(*final(mem)) == guest_accesses(*old(mem)).push((false, addr, final(buf)@)),
        final(buf)@.len() == old(buf)@.len(),
        r == access_result(guest_addresses(*old(mem)), addr, old(buf)@.len()),
{
    match mem.read_slice(buf, GuestAddress(addr)) {
        Ok(()) => Ok(()),
        Err(GuestMemoryError::InvalidGuestAddress(_)) => Err(GuestError::InvalidGuestAddress),
        Err(GuestMemoryError::PartialBuffer { .. }) => Err(GuestError::PartialBuffer),
        Err(GuestMemoryError::IOError(_)) => Err(GuestError::Backend),
        Err(GuestMemoryError::InvalidBackendAddress) => Err(GuestError::Backend),
        Err(GuestMemoryError::HostAddressNotAvailable) => Err(GuestError::Backend),
    }
}

/// One buffer that the driver offers: `len` bytes of guest memory at `addr`.
#[derive(Debug, Clone, Copy, PartialEq, Eq, Structural)]
pub struct Descriptor {
    pub addr: u64,
    pub len: u32,
    /// The device may write the buffer, and may not read it.
    pub write_only: bool,
}

/// A descriptor chain that the driver made available: the index of its head, and its buffers. It
/// has at least one buffer, and no more than a queue can have entries.
#[derive(Debug)]
pub struct DescriptorChain {
    head: u16,
    descriptors: Vec<Descriptor>,
}

impl DescriptorChain {
    #[verifier::type_invariant]
    spec fn bounded(self) -> bool {
        0 < self.descriptors@.len() <= u16::MAX
    }

    /// The chain as plain values: its head and its buffers.
    pub closed spec fn view(&self) -> (u16, Seq<Descriptor>) {
        (self.head, self.descriptors@)
    }

    /// The chain with head `head` and the buffers `descriptors`; `None` if there are none of them
    /// or more than a queue can have entries.
    pub fn new(head: u16, descriptors: Vec<Descriptor>) -> (chain: Option<DescriptorChain>)
        ensures
            chain is Some <==> 0 < descriptors@.len() <= u16::MAX,
            chain matches Some(c) ==> c@ == (head, descriptors@),
    {
        if descriptors.len() == 0 || descriptors.len() > u16::MAX as usize {
            None
        } else {
            Some(DescriptorChain { head, descriptors })
        }
    }

    /// The index of the chain's first descriptor, by which the driver knows it.
    pub fn head(&self) -> (head: u16)
        ensures
            head == self@.0,
    {
        self.head
    }

    /// The buffers of the chain.
    pub fn descriptors(&self) -> (descriptors: &[Descriptor])
        ensures
            descriptors@ == self@.1,
            0 < descriptors@.len() <= u16::MAX,
    {
        proof {
            use_type_invariant(self);
        }
        self.descriptors.as_slice()
    }
}

/// Why a received frame was not placed in a descriptor chain.
#[derive(Debug, Clone, Copy, PartialEq, Eq, Structural)]
pub enum FrontendError {
    /// The buffers of the chain end before the frame does.
    DescriptorChainTooSmall,
    /// The guest memory refused a buffer's address range.
    GuestMemory(GuestError),
    /// The frame reached a buffer that the device may not write.
    ReadOnlyDescriptor,
}

/// Number of bytes in the first `n` buffers of `descs`.
pub open spec fn capacity(descs: Seq<Descriptor>, n: nat) -> nat
    decreases n,
{
    if n == 0 {
        0
    } else {
        capacity(descs, (n - 1) as nat) + descs[n - 1].len as nat
    }
}

/// Number of bytes that a transfer of up to `limit` bytes has moved when it has gone through the
/// first `n` buffers of `descs`.
pub open spec fn moved(descs: Seq<Descriptor>, limit: nat, n: nat) -> nat {
    if capacity(descs, n) < limit {
        capacity(descs, n)
    } else {
        limit
    }
}

/// Number of bytes that a transfer of up to `limit` bytes moves through buffer `i`.
pub open spec fn share(descs: Seq<Descriptor>, limit: nat, i: nat) -> nat {
    (moved(descs, limit, i + 1) - moved(descs, limit, i)) as nat
}

/// How the access to buffer `i` ends, in a transfer of up to `limit` bytes.
pub open spec fn buffer_access(
    mapped: Set<u64>,
    descs: Seq<Descriptor>,
    limit: nat,
    i: nat,
) -> Result<(), GuestError> {
    access_result(mapped, descs[i as int].addr, share(descs, limit, i))
}

/// The first buffer at or after `i` that a frame of `len` bytes is not copied to: the frame has
/// ended, the chain has ended, the buffer is read-only, or the guest memory refuses it.
pub open spec fn scatter_end(mapped: Set<u64>, descs: Seq<Descriptor>, len: nat, i: nat) -> nat
    decreases descs.len() - i,
{
    if i < descs.len() && moved(descs, len, i) < len && descs[i as int].write_only
        && buffer_access(mapped, descs, len, i) is Ok {
        scatter_end(mapped, descs, len, i + 1)
    } else {
        i
    }
}

/// The outcome of copying a frame of `len` bytes to the buffers `descs`.
pub open spec fn scatter_result(mapped: Set<u64>, descs: Seq<Descriptor>, len: nat) -> Result<
    (),
    FrontendError,
> {
    let end = scatter_end(mapped, descs, len, 0);
    if moved(descs, len, end) == len {
        Ok(())
    } else if end == descs.len() {
        Err(FrontendError::DescriptorChainTooSmall)
    } else if !descs[end as int].write_only {
        Err(FrontendError::ReadOnlyDescriptor)
    } else {
        Err(FrontendError::GuestMemory(buffer_access(mapped, descs, len, end)->Err_0))
    }
}

/// Number of writes that copying a frame of `len` bytes to `descs` issues: one for each buffer
/// that took its share, and the one that the guest memory refused.
pub open spec fn scatter_writes(mapped: Set<u64>, descs: Seq<Descriptor>, len: nat) -> nat {
    let end = scatter_end(mapped, descs, len, 0);
    if scatter_result(mapped, descs, len) matches Err(FrontendError::GuestMemory(_)) {
        end + 1
    } else {
        end
    }
}

/// The writes of the first `n` shares of `frame` to the buffers `descs`.
pub open spec fn share_writes(descs: Seq<Descriptor>, frame: Seq<u8>, n: nat) -> Seq<
    (bool, u64, Seq<u8>),
> {
    Seq::new(
        n,
        |i: int|
            (
                true,
                descs[i].addr,
                frame.subrange(
                    moved(descs, frame.len(), i as nat) as int,
                    moved(descs, frame.len(), (i + 1) as nat) as int,
                ),
            ),
    )
}

/// Copies `frame` to the buffers `descs`, in order, until the frame or the chain ends or a buffer
/// cannot be written. Returns the number of buffers that took their share, and the outcome.
pub fn copy_frame_to_chain(
    mem: &mut GuestMemoryMmap,
    frame: &[u8],
    descs: &[Descriptor],
) -> (copied: (usize, Result<(), FrontendError>))
    ensures
        guest_addresses(*final(mem)) == guest_addresses(*old(mem)),
        guest_accesses(*final(mem)) == guest_accesses(*old(mem)) + share_writes(
            descs@,
            frame@,
            scatter_writes(guest_addresses(*old(mem)), descs@, frame@.len()),
        ),
        guest_accesses(*final(mem)) == guest_accesses(*old(mem)) ==> *final(mem) == *old(mem),
        copied.0 == scatter_end(guest_addresses(*old(mem)), descs@, frame@.len(), 0),
        copied.1 == scatter_result(guest_addresses(*old(mem)), descs@, frame@.len()),
{
    let ghost mapped = guest_addresses(*mem);
    let ghost before = guest_accesses(*mem);
    let mut done: usize = 0;
    let mut i: usize = 0;
    while i < descs.len()
        invariant
            i <= descs@.len(),
            done <= frame@.len(),
            mapped == guest_addresses(*old(mem)),
            before == guest_accesses(*old(mem)),
            guest_addresses(*mem) == mapped,
            guest_accesses(*mem) == before + share_writes(descs@, frame@, i as nat),
            i == 0 ==> *mem == *old(mem),
            done == moved(descs@, frame@.len(), i as nat),
            scatter_end(mapped, descs@, frame@.len(), 0) == scatter_end(
                mapped,
                descs@,
                frame@.len(),
                i as nat,
            ),
        decreases descs@.len() - i,
    {
        let desc: Descriptor = descs[i];
        if done == frame.len() {
            return (i, Ok(()));
        }
        if !desc.write_only {
            return (i, Err(FrontendError::ReadOnlyDescriptor));
        }
        let left: usize = frame.len() - done;
        let n: usize = if left < desc.len as usize { left } else { desc.len as usize };
        assert(done + n == moved(descs@, frame@.len(), (i + 1) as nat));
        let r = write_guest(mem, vstd::slice::slice_subrange(frame, done, done + n), desc.addr);
        assert(guest_accesses(*mem) =~= before + share_writes(descs@, frame@, (i + 1) as nat));
        match r {
            Ok(()) => {},
            Err(e) => {
                return (i, Err(FrontendError::GuestMemory(e)));
            },
        }
        done += n;
        i += 1;
    }
    if done < frame.len() {
        (i, Err(FrontendError::DescriptorChainTooSmall))
    } else {
        (i, Ok(()))
    }
}

/// The first buffer at or after `i` that cannot be read, in a transfer of up to `limit` bytes;
/// the number of buffers if there is none.
pub open spec fn gather_end(mapped: Set<u64>, descs: Seq<Descriptor>, limit: nat, i: nat) -> nat
    decreases descs.len() - i,
{
    if i < descs.len() && buffer_access(mapped, descs, limit, i) is Ok {
        gather_end(mapped, descs, limit, i + 1)
    } else {
        i
    }
}

/// How gathering up to `limit` bytes from `descs` ends.
pub open spec fn gather_result(mapped: Set<u64>, descs: Seq<Descriptor>, limit: nat) -> Result<
    (),
    GuestError,
> {
    let end = gather_end(mapped, descs, limit, 0);
    if end == descs.len() {
        Ok(())
    } else {
        buffer_access(mapped, descs, limit, end)
    }
}

/// Number of reads that gathering up to `limit` bytes from `descs` issues: one for each buffer
/// that gave its share, and the one that the guest memory refused.
pub open spec fn gather_reads(mapped: Set<u64>, descs: Seq<Descriptor>, limit: nat) -> nat {
    let end = gather_end(mapped, descs, limit, 0);
    if end == descs.len() {
        end
    } else {
        end + 1
    }
}

/// `reads` are what reading the first buffers of `descs` gives in a transfer of up to `limit`
/// bytes: each item is as long as its buffer's share.
pub open spec fn shares_of(reads: Seq<Seq<u8>>, descs: Seq<Descriptor>, limit: nat) -> bool {
    forall|i: int|
        0 <= i < reads.len() ==> (#[trigger] reads[i]).len() == share(descs, limit, i as nat)
}

/// The reads of the first buffers of `descs`, which gave the bytes `reads`.
pub open spec fn share_reads(descs: Seq<Descriptor>, reads: Seq<Seq<u8>>) -> Seq<
    (bool, u64, Seq<u8>),
> {
    Seq::new(reads.len(), |i: int| (false, descs[i].addr, reads[i]))
}

/// The bytes of the first `n` items of `reads`, one after the other.
pub open spec fn joined(reads: Seq<Seq<u8>>, n: nat) -> Seq<u8>
    decreases n,
{
    if n == 0 {
        Seq::empty()
    } else {
        joined(reads, (n - 1) as nat) + reads[n - 1]
    }
}

/// The bytes of the accesses `accesses`, without where they went.
pub open spec fn access_bytes(accesses: Seq<(bool, u64, Seq<u8>)>) -> Seq<Seq<u8>> {
    Seq::new(accesses.len(), |i: int| accesses[i].2)
}

/// Reads the buffers `descs`, in order, into the start of `buf`, until they end or one of them
/// cannot be read; once `buf` is full the reads are empty. Returns the number of buffers that
/// gave their share, and the number of bytes in `buf`, or why a buffer could not be read.
pub fn copy_chain_to_frame(
    mem: &mut GuestMemoryMmap,
    descs: &[Descriptor],
    buf: &mut [u8],
) -> (copied: (usize, Result<usize, GuestError>))
    ensures
        guest_addresses(*final(mem)) == guest_addresses(*old(mem)),
        guest_accesses(*final(mem)) == guest_accesses(*old(mem)) ==> *final(mem) == *old(mem),
        final(buf)@.len() == old(buf)@.len(),
        ({
            let mapped = guest_addresses(*old(mem));
            let limit = old(buf)@.len();
            let before = guest_accesses(*old(mem));
            let reads = access_bytes(guest_accesses(*final(mem)).skip(before.len() as int));
            &&& guest_accesses(*final(mem)) == before + share_reads(descs@, reads)
            &&& reads.len() == gather_reads(mapped, descs@, limit)
            &&& shares_of(reads, descs@, limit)
            &&& copied.0 == gather_end(mapped, descs@, limit, 0)
            &&& match (gather_result(mapped, descs@, limit), copied.1) {
                (Ok(_), Ok(n)) => n <= limit && final(buf)@.take(n as int) == joined(
                    reads,
                    reads.len(),
                ),
                (Err(e), Err(f)) => e == f,
                _ => false,
            }
        }),
{
    let ghost mapped = guest_addresses(*mem);
    let ghost before = guest_accesses(*mem);
    let ghost limit = buf@.len();
    let ghost mut reads: Seq<Seq<u8>> = Seq::empty();
    let mut done: usize = 0;
    let mut i: usize = 0;
    while i < descs.len()
        invariant
            i <= descs@.len(),
            done <= buf@.len(),
            buf@.len() == limit,
            limit == old(buf)@.len(),
            mapped == guest_addresses(*old(mem)),
            before == guest_accesses(*old(mem)),
            guest_addresses(*mem) == mapped,
            guest_accesses(*mem) == before + share_reads(descs@, reads),
            i == 0 ==> *mem == *old(mem),
            reads.len() == i,
            shares_of(reads, descs@, limit),
            done == moved(descs@, limit, i as nat),
            buf@.take(done as int) == joined(reads, i as nat),
            gather_end(mapped, descs@, limit, 0) == gather_end(mapped, descs@, limit, i as nat),
        decreases descs@.len() - i,
    {
        let desc: Descriptor = descs[i];
        let left: usize = buf.len() - done;
        let n: usize = if left < desc.len as usize { left } else { desc.len as usize };
        assert(done + n == moved(descs@, limit, (i + 1) as nat));
        let ghost buf0 = buf@;
        let ghost reads0 = reads;
        let r = {
            let (_, rest) = buf.split_at_mut(done);
            let (target, _) = rest.split_at_mut(n);
            read_guest(mem, target, desc.addr)
        };
        proof {
            let data = guest_accesses(*mem).last().2;
            reads = reads.push(data);
            assert(guest_accesses(*mem) =~= before + share_reads(descs@, reads));
            assert(access_bytes(guest_accesses(*mem).skip(before.len() as int)) =~= reads);
            lemma_joined_prefix(reads0, reads, i as nat);
            assert(buf@.take(done as int) =~= buf0.take(done as int));
            assert(buf@.take(done + n) =~= joined(reads, (i + 1) as nat));
        }
        match r {
            Ok(()) => {},
            Err(e) => {
                return (i, Err(e));
            },
        }
        done += n;
        i += 1;
    }
    assert(access_bytes(guest_accesses(*mem).skip(before.len() as int)) =~= reads);
    (i, Ok(done))
}

/// A chain of no more buffers than a queue can have entries has a capacity that 64 bits hold.
pub proof fn lemma_capacity_bound(descs: Seq<Descriptor>, n: nat)
    ensures
        capacity(descs, n) <= n * u32::MAX,
        n <= u16::MAX ==> capacity(descs, n) <= u64::MAX,
    decreases n,
{
    if n > 0 {
        lemma_capacity_bound(descs, (n - 1) as nat);
        assert(n * u32::MAX == (n - 1) * u32::MAX + u32::MAX) by (nonlinear_arith);
        assert(n <= u16::MAX ==> n * u32::MAX <= u16::MAX * u32::MAX) by (nonlinear_arith);
    }
}

/// The bytes of the first `n` shares of a transfer are as many as the transfer has moved by then.
pub proof fn lemma_joined_len(
    reads: Seq<Seq<u8>>,
    descs: Seq<Descriptor>,
    limit: nat,
    n: nat,
)
    requires
        n <= reads.len(),
        shares_of(reads, descs, limit),
    ensures
        joined(reads, n).len() == moved(descs, limit, n),
    decreases n,
{
    if n > 0 {
        lemma_joined_len(reads, descs, limit, (n - 1) as nat);
        assert(reads[n - 1].len() == share(descs, limit, (n - 1) as nat));
    }
}

proof fn lemma_joined_prefix(a: Seq<Seq<u8>>, b: Seq<Seq<u8>>, n: nat)
    requires
        n <= a.len(),
        n <= b.len(),
        forall|i: int| 0 <= i < n ==> a[i] == b[i],
    ensures
        joined(a, n) == joined(b, n),
    decreases n,
{
    if n > 0 {
        lemma_joined_prefix(a, b, (n - 1) as nat);
    }
}

} // verus!
