//! Helpers on frame buffers that carry a virtio-net header.
use vstd::prelude::*;

verus! {

/// Length of the virtio-net header (`virtio_net_hdr_v1`): two bytes and five 16-bit words.
pub const VNET_HDR_LEN: usize = 12;

/// Errors of the network device model.
#[derive(Debug, Clone, Copy, PartialEq, Eq, Structural)]
pub enum Error {
    /// A frame is shorter than the virtio-net header.
    VnetHeaderMissing,
}

/// Length of the virtio-net header that precedes every frame.
pub fn vnet_hdr_len() -> (len: usize)
    ensures
        len == VNET_HDR_LEN,
{
    VNET_HDR_LEN
}

/// The L2 frame bytes in `buf`, that is what follows the virtio-net header.
pub fn frame_bytes_from_buf(buf: &[u8]) -> (frame: Result<&[u8], Error>)
    ensures
        frame is Err <==> buf@.len() < VNET_HDR_LEN,
        frame matches Ok(bytes) ==> bytes@ == buf@.skip(VNET_HDR_LEN as int),
        frame matches Err(e) ==> e == Error::VnetHeaderMissing,
{
    if buf.len() < vnet_hdr_len() {
        Err(Error::VnetHeaderMissing)
    } else {
        Ok(vstd::slice::slice_subrange(buf, vnet_hdr_len(), buf.len()))
    }
}

/// The L2 frame bytes in `buf`, for writing; the header bytes stay as they are.
pub fn frame_bytes_from_buf_mut(buf: &mut [u8]) -> (frame: Result<&mut [u8], Error>)
    ensures
        frame is Err <==> old(buf)@.len() < VNET_HDR_LEN,
        frame matches Ok(bytes) ==> {
            &&& bytes@ == old(buf)@.skip(VNET_HDR_LEN as int)
            &&& final(buf)@ == old(buf)@.take(VNET_HDR_LEN as int) + final(bytes)@
        },
        frame matches Err(e) ==> e == Error::VnetHeaderMissing && final(buf)@ == old(buf)@,
{
    if buf.len() < vnet_hdr_len() {
        Err(Error::VnetHeaderMissing)
    } else {
        let (_, frame) = buf.split_at_mut(vnet_hdr_len());
        Ok(frame)
    }
}

/// Sets the virtio-net header at the start of `buf` to zero.
pub fn init_vnet_hdr(buf: &mut [u8])
    requires
        old(buf)@.len() >= VNET_HDR_LEN,
    ensures
        final(buf)@ == Seq::new(VNET_HDR_LEN as nat, |i: int| 0u8) + old(buf)@.skip(
            VNET_HDR_LEN as int,
        ),
{
    let mut i: usize = 0;
    while i < vnet_hdr_len()
        invariant
            i <= VNET_HDR_LEN <= buf@.len() == old(buf)@.len(),
            forall|j: int| 0 <= j < i ==> buf@[j] == 0,
            forall|j: int| i <= j < buf@.len() ==> buf@[j] == old(buf)@[j],
        decreases VNET_HDR_LEN - i,
    {
        buf[i] = 0;
        i += 1;
    }
}

} // verus!
