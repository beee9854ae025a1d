//! Identity and configuration of the device: MAC address, configuration space, feature bits.
use vstd::prelude::*;

verus! {

/// Number of bytes in a MAC address.
pub const MAC_ADDR_LEN: usize = 6;

/// Offset of the source MAC address in an Ethernet frame.
pub const SRC_MAC_OFFSET: usize = 6;

/// Number of bytes before the payload of an Ethernet frame.
pub const ETHERNET_HEADER_LEN: usize = 14;

/// The device type number of a network device.
pub const TYPE_NET: u32 = 1;

/// Index of the receive queue.
pub const RX_INDEX: usize = 0;

/// Index of the transmit queue.
pub const TX_INDEX: usize = 1;

/// Number of queues of the device.
pub const NUM_QUEUES: usize = 2;

/// Greatest number of entries in each queue.
pub const QUEUE_SIZE: u16 = 256;

/// Size of the buffers that hold one frame with its virtio-net header.
pub const MAX_BUFFER_SIZE: usize = 65562;

/// Bit of the interrupt status that says that a used ring has changed.
pub const VIRTIO_MMIO_INT_VRING: u32 = 1;

/// Offloads that a TAP interface behind the device is set to: checksum, TSO4, TSO6 and UFO.
pub const TAP_OFFLOADS: u32 = 0x17;

pub const VIRTIO_NET_F_CSUM: u64 = 0;

pub const VIRTIO_NET_F_GUEST_CSUM: u64 = 1;

pub const VIRTIO_NET_F_MAC: u64 = 5;

pub const VIRTIO_NET_F_GUEST_TSO4: u64 = 7;

pub const VIRTIO_NET_F_GUEST_UFO: u64 = 10;

pub const VIRTIO_NET_F_HOST_TSO4: u64 = 11;

pub const VIRTIO_NET_F_HOST_UFO: u64 = 14;

pub const VIRTIO_F_VERSION_1: u64 = 32;

/// The features of a device behind a plain file descriptor: no offload is done by the device.
pub open spec fn fd_features() -> u64 {
    1u64 << VIRTIO_NET_F_GUEST_CSUM | 1u64 << VIRTIO_NET_F_GUEST_TSO4 | 1u64
        << VIRTIO_NET_F_GUEST_UFO | 1u64 << VIRTIO_F_VERSION_1
}

/// The features of a device behind a TAP interface.
pub open spec fn tap_features() -> u64 {
    1u64 << VIRTIO_NET_F_GUEST_CSUM | 1u64 << VIRTIO_NET_F_CSUM | 1u64 << VIRTIO_NET_F_GUEST_TSO4
        | 1u64 << VIRTIO_NET_F_GUEST_UFO | 1u64 << VIRTIO_NET_F_HOST_TSO4 | 1u64
        << VIRTIO_NET_F_HOST_UFO | 1u64 << VIRTIO_F_VERSION_1
}

/// Neither kind of device offers the MAC feature by itself.
pub proof fn lemma_base_features()
    ensures
        fd_features() & 1u64 << VIRTIO_NET_F_MAC == 0,
        tap_features() & 1u64 << VIRTIO_NET_F_MAC == 0,
{
    assert((1u64 << 1u64 | 1u64 << 7u64 | 1u64 << 10u64 | 1u64 << 32u64) & 1u64 << 5u64 == 0)
        by (bit_vector);
    assert((1u64 << 1u64 | 1u64 << 0u64 | 1u64 << 7u64 | 1u64 << 10u64 | 1u64 << 11u64 | 1u64
        << 14u64 | 1u64 << 32u64) & 1u64 << 5u64 == 0) by (bit_vector);
}

/// `base`, with the MAC feature if the device has an address to offer to the driver.
pub open spec fn with_mac_feature(base: u64, guest_mac: Option<MacAddr>) -> u64 {
    if guest_mac is Some {
        base | 1u64 << VIRTIO_NET_F_MAC
    } else {
        base
    }
}

/// Page `page` of the feature bits `features`, 32 of them to a page; there are two pages.
pub open spec fn features_page(features: u64, page: u32) -> u32 {
    if page == 0 {
        (features & 0xffff_ffff) as u32
    } else if page == 1 {
        (features >> 32) as u32
    } else {
        0
    }
}

/// The feature bits of which page `page` is `value` and the rest is zero.
pub open spec fn features_of_page(page: u32, value: u32) -> u64 {
    if page == 0 {
        value as u64
    } else if page == 1 {
        (value as u64) << 32
    } else {
        0
    }
}

/// The accepted features after the driver, which had accepted `before`, accepts `value` of page
/// `page` from a device that offers `avail`.
pub open spec fn acked(before: u64, avail: u64, page: u32, value: u32) -> u64 {
    before | features_of_page(page, value) & avail
}

/// A MAC address.
#[derive(Debug, Clone, Copy, PartialEq, Eq)]
pub struct MacAddr {
    pub bytes: [u8; MAC_ADDR_LEN],
}

impl MacAddr {
    /// The address with the bytes `src`.
    pub fn from_bytes_unchecked(src: &[u8]) -> (mac: MacAddr)
        requires
            src@.len() == MAC_ADDR_LEN,
        ensures
            mac.bytes@ == src@,
    {
        let bytes = [src[0], src[1], src[2], src[3], src[4], src[5]];
        assert(bytes@ =~= src@);
        MacAddr { bytes }
    }

    /// The bytes of the address.
    pub fn get_bytes(&self) -> (bytes: &[u8])
        ensures
            bytes@ == self.bytes@,
    {
        &self.bytes
    }
}

/// The source MAC address of the Ethernet frame `frame`; `None` if it is shorter than a header.
pub open spec fn source_mac(frame: Seq<u8>) -> Option<Seq<u8>> {
    if frame.len() < ETHERNET_HEADER_LEN {
        None
    } else {
        Some(frame.subrange(SRC_MAC_OFFSET as int, SRC_MAC_OFFSET + MAC_ADDR_LEN))
    }
}

/// The Ethernet frame `frame` names a source other than `mac`.
pub open spec fn spoofs(frame: Seq<u8>, mac: Seq<u8>) -> bool {
    source_mac(frame) matches Some(src) && src != mac
}

/// Whether the Ethernet frame `frame` names a source other than `mac`. A frame that is too short
/// to have a source does not.
pub fn is_spoofed(frame: &[u8], mac: &MacAddr) -> (spoofed: bool)
    ensures
        spoofed == spoofs(frame@, mac.bytes@),
{
    if frame.len() < ETHERNET_HEADER_LEN {
        return false;
    }
    let ghost src = frame@.subrange(SRC_MAC_OFFSET as int, SRC_MAC_OFFSET + MAC_ADDR_LEN);
    let mut i: usize = 0;
    while i < MAC_ADDR_LEN
        invariant
            i <= MAC_ADDR_LEN,
            frame@.len() >= ETHERNET_HEADER_LEN,
            src == frame@.subrange(SRC_MAC_OFFSET as int, SRC_MAC_OFFSET + MAC_ADDR_LEN),
            forall|j: int| 0 <= j < i ==> src[j] == mac.bytes@[j],
        decreases MAC_ADDR_LEN - i,
    {
        if frame[SRC_MAC_OFFSET + i] != mac.bytes[i] {
            assert(src[i as int] != mac.bytes@[i as int]);
            return true;
        }
        i += 1;
    }
    assert(src =~= mac.bytes@);
    false
}

/// The device configuration that the driver sees.
#[derive(Debug, Clone, Copy)]
pub struct ConfigSpace {
    pub guest_mac: [u8; MAC_ADDR_LEN],
}

impl Default for ConfigSpace {
    fn default() -> (config: ConfigSpace)
        ensures
            config.guest_mac@ == Seq::new(MAC_ADDR_LEN as nat, |i: int| 0u8),
    {
        let config = ConfigSpace { guest_mac: [0; MAC_ADDR_LEN] };
        assert(config.guest_mac@ =~= Seq::new(MAC_ADDR_LEN as nat, |i: int| 0u8));
        config
    }
}

/// `data` after a read of the configuration bytes `config` at `offset`: the bytes from there on
/// take the place of the first bytes of `data`, as far as both go.
pub open spec fn config_read(config: Seq<u8>, offset: nat, data: Seq<u8>) -> Seq<u8> {
    Seq::new(
        data.len(),
        |i: int|
            if offset + i < config.len() {
                config[offset + i]
            } else {
                data[i]
            },
    )
}

/// The configuration bytes `config` after a write of `data` at `offset`; a write that does not
/// fit changes nothing.
pub open spec fn config_written(config: Seq<u8>, offset: nat, data: Seq<u8>) -> Seq<u8> {
    if offset + data.len() > config.len() {
        config
    } else {
        Seq::new(
            config.len(),
            |i: int|
                if offset <= i < offset + data.len() {
                    data[i - offset]
                } else {
                    config[i]
                },
        )
    }
}

impl ConfigSpace {
    /// Copies the configuration bytes from `offset` on into `data`. Returns whether `offset` lies
    /// in the configuration space; if it does not, `data` stays as it is.
    pub fn read(&self, offset: u64, data: &mut [u8]) -> (in_space: bool)
        ensures
            in_space == (offset < MAC_ADDR_LEN),
            final(data)@ == config_read(self.guest_mac@, offset as nat, old(data)@),
    {
        if offset >= MAC_ADDR_LEN as u64 {
            assert(data@ =~= config_read(self.guest_mac@, offset as nat, old(data)@));
            return false;
        }
        let start: usize = offset as usize;
        let mut i: usize = 0;
        while i < data.len() && start + i < MAC_ADDR_LEN
            invariant
                start == offset,
                start + i <= MAC_ADDR_LEN,
                i <= data@.len() == old(data)@.len(),
                forall|j: int| 0 <= j < i ==> data@[j] == self.guest_mac@[start + j],
                forall|j: int| i <= j < data@.len() ==> data@[j] == old(data)@[j],
            decreases MAC_ADDR_LEN - (start + i),
        {
            data[i] = self.guest_mac[start + i];
            i += 1;
        }
        assert(data@ =~= config_read(self.guest_mac@, offset as nat, old(data)@));
        true
    }

    /// Writes `data` to the configuration bytes from `offset` on. Returns whether it fits; if it
    /// does not, nothing is written.
    pub fn write(&mut self, offset: u64, data: &[u8]) -> (fits: bool)
        requires
            offset + data@.len() <= u64::MAX,
        ensures
            fits == (offset + data@.len() <= MAC_ADDR_LEN),
            final(self).guest_mac@ == config_written(
                old(self).guest_mac@,
                offset as nat,
                data@,
            ),
    {
        if offset + data.len() as u64 > MAC_ADDR_LEN as u64 {
            return false;
        }
        let start: usize = offset as usize;
        let mut i: usize = 0;
        while i < data.len()
            invariant
                start == offset,
                start + data@.len() <= MAC_ADDR_LEN,
                i <= data@.len(),
                forall|j: int|
                    0 <= j < MAC_ADDR_LEN ==> self.guest_mac@[j] == (if start <= j < start + i {
                        data@[j - start]
                    } else {
                        old(self).guest_mac@[j]
                    }),
            decreases data@.len() - i,
        {
            self.guest_mac[start + i] = data[i];
            i += 1;
        }
        assert(self.guest_mac@ =~= config_written(old(self).guest_mac@, offset as nat, data@));
        true
    }
}

} // verus!
