//! Copies between frames and guest buffers, in real guest memory.
use virtio_net::config::{is_spoofed, MacAddr};
use virtio_net::guest::{
    copy_chain_to_frame, copy_frame_to_chain, Descriptor, DescriptorChain, FrontendError,
    GuestError,
};
use vm_memory::{Bytes, GuestAddress, GuestMemoryMmap};

fn desc(addr: u64, len: u32, write_only: bool) -> Descriptor {
    Descriptor {
        addr,
        len,
        write_only,
    }
}

/// Mapped: 0 to 0x3fff and 0x8000 to 0x8fff, the first of them in two regions.
fn memory() -> GuestMemoryMmap {
    GuestMemoryMmap::from_ranges(&[
        (GuestAddress(0), 0x1000),
        (GuestAddress(0x1000), 0x3000),
        (GuestAddress(0x8000), 0x1000),
    ])
    .unwrap()
}

#[test]
fn frame_is_scattered_in_order() {
    let mut mem = memory();
    let frame: Vec<u8> = (0..100).collect();
    let descs = [
        desc(0xff0, 30, true),
        desc(0x8000, 0, true),
        desc(0x2000, 500, true),
        desc(0x5000, 1, false),
    ];
    assert_eq!(copy_frame_to_chain(&mut mem, &frame, &descs), (3, Ok(())));
    let mut first = [0u8; 30];
    mem.read_slice(&mut first, GuestAddress(0xff0)).unwrap();
    assert_eq!(first[..], frame[..30]);
    let mut rest = [0u8; 71];
    mem.read_slice(&mut rest, GuestAddress(0x2000)).unwrap();
    assert_eq!(rest[..70], frame[30..]);
    assert_eq!(rest[70], 0);
}

#[test]
fn scatter_failures() {
    let mut mem = memory();
    let frame = [1u8; 10];
    let too_small = [desc(0, 4, true), desc(8, 5, true)];
    assert_eq!(
        copy_frame_to_chain(&mut mem, &frame, &too_small),
        (2, Err(FrontendError::DescriptorChainTooSmall))
    );
    let read_only = [desc(0, 4, true), desc(8, 6, false)];
    assert_eq!(
        copy_frame_to_chain(&mut mem, &frame, &read_only),
        (1, Err(FrontendError::ReadOnlyDescriptor))
    );
    let unmapped = [desc(0x4000, 10, true)];
    assert_eq!(
        copy_frame_to_chain(&mut mem, &frame, &unmapped),
        (0, Err(FrontendError::GuestMemory(GuestError::InvalidGuestAddress)))
    );
    let partial = [desc(0, 5, true), desc(0x3ffe, 5, true)];
    assert_eq!(
        copy_frame_to_chain(&mut mem, &frame, &partial),
        (1, Err(FrontendError::GuestMemory(GuestError::PartialBuffer)))
    );
    // The bytes before the gap were written.
    let mut written = [0u8; 2];
    mem.read_slice(&mut written, GuestAddress(0x3ffe)).unwrap();
    assert_eq!(written, [1, 1]);
    // An empty buffer must be mapped too.
    let empty = [desc(0x5000, 0, true), desc(0, 10, true)];
    assert_eq!(
        copy_frame_to_chain(&mut mem, &frame, &empty),
        (0, Err(FrontendError::GuestMemory(GuestError::InvalidGuestAddress)))
    );
    // An empty frame needs no buffer at all.
    assert_eq!(copy_frame_to_chain(&mut mem, &[], &read_only), (0, Ok(())));
    assert_eq!(copy_frame_to_chain(&mut mem, &[], &[]), (0, Ok(())));
}

#[test]
fn frame_is_gathered_in_order() {
    let mut mem = memory();
    let data: Vec<u8> = (1..=60).collect();
    mem.write_slice(&data[..40], GuestAddress(0xff0)).unwrap();
    mem.write_slice(&data[40..], GuestAddress(0x8000)).unwrap();
    let descs = [desc(0xff0, 40, false), desc(0x8000, 20, false)];
    let mut buf = [0u8; 64];
    assert_eq!(
        copy_chain_to_frame(&mut mem, &descs, &mut buf),
        (2, Ok(60))
    );
    assert_eq!(buf[..60], data[..]);
    // A short buffer is filled, and the rest of the chain read in empty pieces.
    let mut short = [0u8; 50];
    let longer = [descs[0], descs[1], desc(0, 7, false)];
    assert_eq!(
        copy_chain_to_frame(&mut mem, &longer, &mut short),
        (3, Ok(50))
    );
    assert_eq!(short[..], data[..50]);
}

#[test]
fn gather_failures() {
    let mut mem = memory();
    let mut buf = [0u8; 64];
    let partial = [desc(0, 4, false), desc(0x8ffe, 4, false)];
    assert_eq!(
        copy_chain_to_frame(&mut mem, &partial, &mut buf),
        (1, Err(GuestError::PartialBuffer))
    );
    let unmapped = [desc(u64::MAX, 4, false)];
    assert_eq!(
        copy_chain_to_frame(&mut mem, &unmapped, &mut buf),
        (0, Err(GuestError::InvalidGuestAddress))
    );
    assert_eq!(copy_chain_to_frame(&mut mem, &[], &mut buf), (0, Ok(0)));
}

#[test]
fn chains_have_buffers_and_are_no_longer_than_a_queue() {
    assert!(DescriptorChain::new(3, vec![]).is_none());
    assert!(DescriptorChain::new(3, vec![desc(0, 1, true); 65536]).is_none());
    let chain = DescriptorChain::new(3, vec![desc(0, 1, true); 65535]).unwrap();
    assert_eq!(chain.head(), 3);
    assert_eq!(chain.descriptors().len(), 65535);
}

#[test]
fn source_addresses_are_compared() {
    let mac = MacAddr::from_bytes_unchecked(&[1, 2, 3, 4, 5, 6]);
    let mut frame = vec![0u8; 14];
    frame[6..12].copy_from_slice(&[1, 2, 3, 4, 5, 6]);
    assert!(!is_spoofed(&frame, &mac));
    frame[11] = 7;
    assert!(is_spoofed(&frame, &mac));
    assert!(!is_spoofed(&frame[..13], &mac));
}
