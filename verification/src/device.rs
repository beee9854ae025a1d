//! The network device.
use crate::config::{
    is_spoofed, ConfigSpace, MacAddr, MAX_BUFFER_SIZE, NUM_QUEUES, QUEUE_SIZE, RX_INDEX, TYPE_NET,
    VIRTIO_F_VERSION_1, VIRTIO_NET_F_CSUM, VIRTIO_NET_F_GUEST_CSUM, VIRTIO_NET_F_GUEST_TSO4,
    VIRTIO_NET_F_GUEST_UFO, VIRTIO_NET_F_HOST_TSO4, VIRTIO_NET_F_HOST_UFO, VIRTIO_NET_F_MAC,
};
use crate::guest::{
    copy_chain_to_frame, copy_frame_to_chain, Descriptor, DescriptorChain, FrontendError,
    GuestError,
};
use crate::protocol::{
    BucketUpdate, DeviceError, Direction, Effect, Metric, NetView, QueueError, Reply, Request,
    Stage, TokenType, TxRun, EAGAIN,
};
use crate::vnet::{
    frame_bytes_from_buf, frame_bytes_from_buf_mut, init_vnet_hdr, vnet_hdr_len, VNET_HDR_LEN,
};
use vm_memory::GuestMemoryMmap;
use vstd::prelude::*;

verus! {

/// What frames are exchanged with on the host side.
pub trait Backend {
    /// The name of the interface.
    fn if_name_as_string(&self) -> String;
}

/// The size of a virtqueue: what the device offers and what the driver chose.
#[derive(Debug, Clone, Copy, PartialEq, Eq, Structural)]
pub struct Queue {
    pub max_size: u16,
    pub size: u16,
}

impl Queue {
    /// Number of entries of the queue: no more than the device offers.
    pub open spec fn entries(self) -> u16 {
        if self.size < self.max_size {
            self.size
        } else {
            self.max_size
        }
    }

    /// A queue of up to `max_size` entries, for which the driver has chosen no size yet.
    pub fn new(max_size: u16) -> (queue: Queue)
        ensures
            queue == (Queue { max_size, size: 0 }),
    {
        Queue { max_size, size: 0 }
    }

    /// Number of entries of the queue.
    pub fn actual_size(&self) -> (size: u16)
        ensures
            size == self.entries(),
            size <= self.size && size <= self.max_size,
            size == self.size || size == self.max_size,
    {
        if self.size < self.max_size {
            self.size
        } else {
            self.max_size
        }
    }
}

/// Whether the driver has activated the device, and with which memory.
pub enum DeviceState {
    Inactive,
    Activated(GuestMemoryMmap),
}

/// Why the device could not be activated.
#[derive(Debug, Clone, Copy, PartialEq, Eq, Structural)]
pub enum ActivateError {
    BadActivate,
}

/// The parts of a device that its work on frames leaves alone.
#[verifier::ext_equal]
pub struct NetParts<B, L, M> {
    pub id: Seq<char>,
    pub tap: B,
    pub avail_features: u64,
    pub acked_features: u64,
    pub queues: Seq<Queue>,
    pub rx_rate_limiter: L,
    pub tx_rate_limiter: L,
    pub config: Seq<u8>,
    pub guest_mac: Option<MacAddr>,
    pub mmds_ns: Option<M>,
}

/// A virtio network device with the backend `B`, rate limiters `L` and the network stack `M` of
/// the metadata service.
pub struct Net<B: Backend, L, M> {
    id: String,
    tap: B,
    avail_features: u64,
    acked_features: u64,
    queues: Vec<Queue>,
    rx_rate_limiter: L,
    tx_rate_limiter: L,
    rx_deferred_frame: bool,
    rx_deferred_irqs: bool,
    rx_bytes_read: usize,
    rx_frame_buf: Vec<u8>,
    tx_iovec: Vec<Descriptor>,
    tx_bytes_read: usize,
    tx_frame_buf: Vec<u8>,
    config_space: ConfigSpace,
    guest_mac: Option<MacAddr>,
    device_state: DeviceState,
    mmds_ns: Option<M>,
    stage: Stage,
    effects: Vec<Effect>,
}

/// The OS error code of an operation that would block: the constant `EAGAIN` of the `libc` crate.
///
/// Trusted: that its value is 11, as it is on Linux, which tap devices belong to.
#[verifier::external_body]
fn eagain() -> (code: i32)
    ensures
        code == EAGAIN,
{
    libc::EAGAIN
}

impl<B: Backend, L, M> Net<B, L, M> {
    /// The device, as far as it decides what happens to frames.
    pub closed spec fn view(&self) -> NetView {
        NetView {
            stage: self.stage,
            rx_deferred_frame: self.rx_deferred_frame,
            rx_deferred_irqs: self.rx_deferred_irqs,
            rx_frame: self.rx_frame_buf@.take(self.rx_bytes_read as int),
            tx_iovec: self.tx_iovec@,
            tx_frame: self.tx_frame_buf@.take(self.tx_bytes_read as int),
            effects: self.effects@,
            accesses: match self.device_state {
                DeviceState::Inactive => Seq::empty(),
                DeviceState::Activated(mem) => crate::guest::guest_accesses(mem),
            },
            mapped: match self.device_state {
                DeviceState::Inactive => None,
                DeviceState::Activated(mem) => Some(crate::guest::guest_addresses(mem)),
            },
            mmds: self.mmds_ns is Some,
            guest_mac: match self.guest_mac {
                None => None,
                Some(mac) => Some(mac.bytes@),
            },
            rx_queue_size: self.queues@[RX_INDEX as int].entries(),
        }
    }

    /// The parts of the device that its work on frames leaves alone.
    pub closed spec fn parts(&self) -> NetParts<B, L, M> {
        NetParts {
            id: self.id@,
            tap: self.tap,
            avail_features: self.avail_features,
            acked_features: self.acked_features,
            queues: self.queues@,
            rx_rate_limiter: self.rx_rate_limiter,
            tx_rate_limiter: self.tx_rate_limiter,
            config: self.config_space.guest_mac@,
            guest_mac: self.guest_mac,
            mmds_ns: self.mmds_ns,
        }
    }

    /// The guest memory that the device works on; `None` before activation.
    pub closed spec fn guest_memory(&self) -> Option<GuestMemoryMmap> {
        match self.device_state {
            DeviceState::Inactive => None,
            DeviceState::Activated(mem) => Some(mem),
        }
    }

    /// The buffers have their fixed size and hold what was read into them.
    pub closed spec fn sized(&self) -> bool {
        &&& self.rx_frame_buf@.len() == MAX_BUFFER_SIZE
        &&& self.tx_frame_buf@.len() == MAX_BUFFER_SIZE
        &&& self.rx_bytes_read <= MAX_BUFFER_SIZE
        &&& self.tx_bytes_read <= MAX_BUFFER_SIZE
        &&& self.queues@.len() == NUM_QUEUES
    }

    /// What holds of the device at every moment. A MAC address that frames are checked against is
    /// the one that the driver reads from the configuration; without one the configuration is zero
    /// and the MAC feature is not offered.
    pub open spec fn wf(&self) -> bool {
        &&& self.sized()
        &&& self@.wf()
        &&& match self.parts().guest_mac {
            Some(mac) => mac.bytes@ == self.parts().config,
            None => {
                &&& self.parts().config == Seq::new(crate::config::MAC_ADDR_LEN as nat, |i: int| 0u8)
                &&& self.parts().avail_features & 1u64 << VIRTIO_NET_F_MAC == 0
            },
        }
    }

    /// The device has become `other` by its work on frames. Its memory is the same as long as no
    /// access was made to it.
    pub open spec fn becomes(&self, other: &Self, view: NetView) -> bool {
        &&& other@ == view
        &&& other.parts() == self.parts()
        &&& other@.accesses == self@.accesses ==> other.guest_memory() == self.guest_memory()
        &&& self.sized() ==> other.sized()
    }

    /// What decides on frames follows the configuration and the memory of the device, and the
    /// configuration is one MAC address long.
    pub proof fn law_view_follows_the_parts(&self)
        ensures
            self@.mmds == (self.parts().mmds_ns is Some),
            self@.guest_mac == (match self.parts().guest_mac {
                Some(mac) => Some(mac.bytes@),
                None => None,
            }),
            ({
                let queue = self.parts().queues[RX_INDEX as int];
                self@.rx_queue_size == if queue.size < queue.max_size {
                    queue.size
                } else {
                    queue.max_size
                }
            }),
            self.sized() ==> self.parts().queues.len() == NUM_QUEUES,
            self.parts().config.len() == crate::config::MAC_ADDR_LEN,
            match self.guest_memory() {
                Some(mem) => {
                    &&& self@.mapped == Some(crate::guest::guest_addresses(mem))
                    &&& self@.accesses == crate::guest::guest_accesses(mem)
                },
                None => self@.mapped is None && self@.accesses == Seq::<
                    (bool, u64, Seq<u8>),
                >::empty(),
            },
    {
    }

    /// Work on frames changes what the view shows and nothing else: identity, features, queues,
    /// limiters, configuration, backend and metadata service stay, and so does the memory if no
    /// access was made.
    pub proof fn law_work_on_frames_keeps_the_rest(&self, other: &Self, view: NetView)
        requires
            self.becomes(other, view),
        ensures
            other@ == view,
            other.parts() == self.parts(),
            view.accesses == self@.accesses ==> other.guest_memory() == self.guest_memory(),
    {
    }

    /// The driver reads the address that frames are checked against: `read_config` at offset 0
    /// gives its bytes. A device without one shows zeros and does not offer the MAC feature.
    pub proof fn law_configuration_shows_the_address(&self, data: Seq<u8>)
        requires
            self.wf(),
            data.len() == crate::config::MAC_ADDR_LEN,
        ensures
            match self.parts().guest_mac {
                Some(mac) => crate::config::config_read(self.parts().config, 0, data) == mac.bytes@,
                None => {
                    &&& crate::config::config_read(self.parts().config, 0, data) == Seq::new(
                        crate::config::MAC_ADDR_LEN as nat,
                        |i: int| 0u8,
                    )
                    &&& self.parts().avail_features & 1u64 << VIRTIO_NET_F_MAC == 0
                },
            },
    {
        self.law_view_follows_the_parts();
        assert(crate::config::config_read(self.parts().config, 0, data) =~= self.parts().config);
    }

    /// A device with the given features that no driver has activated yet.
    fn new(
        id: String,
        tap: B,
        base_features: u64,
        guest_mac: Option<&MacAddr>,
        rx_rate_limiter: L,
        tx_rate_limiter: L,
        mmds_ns: Option<M>,
    ) -> (net: Self)
        requires
            base_features & 1u64 << VIRTIO_NET_F_MAC == 0,
        ensures
            net.wf(),
            net@ == new_view(guest_mac, mmds_ns is Some),
            net.guest_memory() is None,
            net.parts() == new_parts(
                id@,
                tap,
                base_features,
                guest_mac,
                rx_rate_limiter,
                tx_rate_limiter,
                mmds_ns,
            ),
    {
        let mut avail_features: u64 = base_features;
        let mut config_space = ConfigSpace::default();
        let mut own_mac: Option<MacAddr> = None;
        if let Some(mac) = guest_mac {
            config_space.guest_mac = mac.bytes;
            own_mac = Some(*mac);
            // When this feature isn't available, the driver generates a random MAC address.
            // Otherwise, it should attempt to read the device MAC address from the config space.
            avail_features = avail_features | 1u64 << VIRTIO_NET_F_MAC;
        }
        let mut queues: Vec<Queue> = Vec::new();
        queues.push(Queue::new(QUEUE_SIZE));
        queues.push(Queue::new(QUEUE_SIZE));
        let net = Net {
            id,
            tap,
            avail_features,
            acked_features: 0,
            queues,
            rx_rate_limiter,
            tx_rate_limiter,
            rx_deferred_frame: false,
            rx_deferred_irqs: false,
            rx_bytes_read: 0,
            rx_frame_buf: vec![0u8; MAX_BUFFER_SIZE],
            tx_iovec: Vec::new(),
            tx_bytes_read: 0,
            tx_frame_buf: vec![0u8; MAX_BUFFER_SIZE],
            config_space,
            guest_mac: own_mac,
            device_state: DeviceState::Inactive,
            mmds_ns,
            stage: Stage::Idle,
            effects: Vec::new(),
        };
        assert(net@ =~= new_view(guest_mac, mmds_ns is Some));
        assert(net.queues@ =~= seq![
            Queue { max_size: QUEUE_SIZE, size: 0 },
            Queue { max_size: QUEUE_SIZE, size: 0 },
        ]);
        net
    }

    /// A new device behind a backend that does no offloads, such as a plain file descriptor.
    pub fn new_with_fd(
        id: String,
        tap: B,
        guest_mac: Option<&MacAddr>,
        rx_rate_limiter: L,
        tx_rate_limiter: L,
        mmds_ns: Option<M>,
    ) -> (net: Self)
        ensures
            net.wf(),
            net@ == new_view(guest_mac, mmds_ns is Some),
            net.guest_memory() is None,
            net.parts() == new_parts(
                id@,
                tap,
                crate::config::fd_features(),
                guest_mac,
                rx_rate_limiter,
                tx_rate_limiter,
                mmds_ns,
            ),
    {
        let features: u64 = 1u64 << VIRTIO_NET_F_GUEST_CSUM | 1u64 << VIRTIO_NET_F_GUEST_TSO4 | 1u64
            << VIRTIO_NET_F_GUEST_UFO | 1u64 << VIRTIO_F_VERSION_1;
        proof {
            crate::config::lemma_base_features();
        }
        Self::new(id, tap, features, guest_mac, rx_rate_limiter, tx_rate_limiter, mmds_ns)
    }

    /// A new device behind a TAP interface, which is set to the offloads `TAP_OFFLOADS` and to
    /// virtio-net headers of `vnet_hdr_len()` bytes.
    pub fn new_with_tap(
        id: String,
        tap: B,
        guest_mac: Option<&MacAddr>,
        rx_rate_limiter: L,
        tx_rate_limiter: L,
        mmds_ns: Option<M>,
    ) -> (net: Self)
        ensures
            net.wf(),
            net@ == new_view(guest_mac, mmds_ns is Some),
            net.guest_memory() is None,
            net.parts() == new_parts(
                id@,
                tap,
                crate::config::tap_features(),
                guest_mac,
                rx_rate_limiter,
                tx_rate_limiter,
                mmds_ns,
            ),
    {
        let features: u64 = 1u64 << VIRTIO_NET_F_GUEST_CSUM | 1u64 << VIRTIO_NET_F_CSUM | 1u64
            << VIRTIO_NET_F_GUEST_TSO4 | 1u64 << VIRTIO_NET_F_GUEST_UFO | 1u64
            << VIRTIO_NET_F_HOST_TSO4 | 1u64 << VIRTIO_NET_F_HOST_UFO | 1u64 << VIRTIO_F_VERSION_1;
        proof {
            crate::config::lemma_base_features();
        }
        Self::new(id, tap, features, guest_mac, rx_rate_limiter, tx_rate_limiter, mmds_ns)
    }

    /// The ID of this device.
    pub fn id(&self) -> (id: &String)
        ensures
            id@ == self.parts().id,
    {
        &self.id
    }

    /// The MAC address of this device.
    pub fn guest_mac(&self) -> (mac: Option<&MacAddr>)
        ensures
            mac == (match self.parts().guest_mac {
                Some(m) => Some(&m),
                None => None,
            }),
    {
        self.guest_mac.as_ref()
    }

    /// The network stack of the metadata service, for changing it.
    pub fn mmds_ns_mut(&mut self) -> (mmds_ns: Option<&mut M>)
        ensures
            final(self)@ == old(self)@,
            old(self).sized() ==> final(self).sized(),
            final(self).guest_memory() == old(self).guest_memory(),
            match (old(self).parts().mmds_ns, mmds_ns) {
                (Some(before), Some(m)) => {
                    &&& *m == before
                    &&& final(self).parts() == (NetParts {
                        mmds_ns: Some(*final(m)),
                        ..old(self).parts()
                    })
                },
                (None, None) => final(self).parts() == old(self).parts(),
                _ => false,
            },
    {
        self.mmds_ns.as_mut()
    }

    /// The backend, for reading and writing frames.
    pub fn tap_mut(&mut self) -> (tap: &mut B)
        ensures
            *tap == old(self).parts().tap,
            final(self)@ == old(self)@,
            old(self).sized() ==> final(self).sized(),
            final(self).guest_memory() == old(self).guest_memory(),
            final(self).parts() == (NetParts { tap: *final(tap), ..old(self).parts() }),
    {
        &mut self.tap
    }

    /// The rate limiter of a direction, for taking and giving back tokens.
    pub fn rate_limiter_mut(&mut self, direction: Direction) -> (limiter: &mut L)
        ensures
            final(self)@ == old(self)@,
            old(self).sized() ==> final(self).sized(),
            final(self).guest_memory() == old(self).guest_memory(),
            match direction {
                Direction::Rx => {
                    &&& *limiter == old(self).parts().rx_rate_limiter
                    &&& final(self).parts() == (NetParts {
                        rx_rate_limiter: *final(limiter),
                        ..old(self).parts()
                    })
                },
                Direction::Tx => {
                    &&& *limiter == old(self).parts().tx_rate_limiter
                    &&& final(self).parts() == (NetParts {
                        tx_rate_limiter: *final(limiter),
                        ..old(self).parts()
                    })
                },
            },
    {
        match direction {
            Direction::Rx => &mut self.rx_rate_limiter,
            Direction::Tx => &mut self.tx_rate_limiter,
        }
    }

    /// Changes the buckets of the rate limiters.
    pub fn patch_rate_limiters(
        &mut self,
        rx_bytes: BucketUpdate,
        rx_ops: BucketUpdate,
        tx_bytes: BucketUpdate,
        tx_ops: BucketUpdate,
    )
        ensures
            old(self).becomes(
                final(self),
                old(self)@.emit(
                    Effect::UpdateBuckets { limiter: Direction::Rx, bytes: rx_bytes, ops: rx_ops },
                ).emit(
                    Effect::UpdateBuckets { limiter: Direction::Tx, bytes: tx_bytes, ops: tx_ops },
                ),
            ),
            final(self)@.effects == old(self)@.effects + seq![
                Effect::UpdateBuckets { limiter: Direction::Rx, bytes: rx_bytes, ops: rx_ops },
                Effect::UpdateBuckets { limiter: Direction::Tx, bytes: tx_bytes, ops: tx_ops },
            ],
    {
        self.emit(
            Effect::UpdateBuckets { limiter: Direction::Rx, bytes: rx_bytes, ops: rx_ops },
        );
        self.emit(
            Effect::UpdateBuckets { limiter: Direction::Tx, bytes: tx_bytes, ops: tx_ops },
        );
    }

    /// The device type: a network device.
    pub fn device_type(&self) -> (device_type: u32)
        ensures
            device_type == TYPE_NET,
    {
        TYPE_NET
    }

    /// The queues: receive, then transmit.
    pub fn queues(&self) -> (queues: &[Queue])
        ensures
            queues@ == self.parts().queues,
    {
        self.queues.as_slice()
    }

    /// The queues, for setting the sizes that the driver chose.
    pub fn queues_mut(&mut self) -> (queues: &mut [Queue])
        requires
            old(self).wf(),
        ensures
            queues@ == old(self).parts().queues,
            queues@.len() == NUM_QUEUES,
            final(self).guest_memory() == old(self).guest_memory(),
            final(self).parts() == (NetParts { queues: final(queues)@, ..old(self).parts() }),
            final(self)@ == (NetView {
                rx_queue_size: final(queues)@[RX_INDEX as int].entries(),
                ..old(self)@
            }),
            final(self)@.rx_queue_size <= final(queues)@[RX_INDEX as int].size,
            final(self)@.rx_queue_size <= final(queues)@[RX_INDEX as int].max_size,
            final(self)@.rx_queue_size == final(queues)@[RX_INDEX as int].size
                || final(self)@.rx_queue_size == final(queues)@[RX_INDEX as int].max_size,
            final(queues)@.len() == NUM_QUEUES ==> final(self).wf(),
    {
        self.queues.as_mut_slice()
    }

    /// The features that the device offers.
    pub fn avail_features(&self) -> (features: u64)
        ensures
            features == self.parts().avail_features,
    {
        self.avail_features
    }

    /// The features that the driver has accepted.
    pub fn acked_features(&self) -> (features: u64)
        ensures
            features == self.parts().acked_features,
    {
        self.acked_features
    }

    /// Sets the features that the driver has accepted.
    pub fn set_acked_features(&mut self, acked_features: u64)
        ensures
            final(self)@ == old(self)@,
            old(self).sized() ==> final(self).sized(),
            final(self).guest_memory() == old(self).guest_memory(),
            final(self).parts() == (NetParts { acked_features, ..old(self).parts() }),
    {
        self.acked_features = acked_features;
    }

    /// The features that the device offers, 32 of them to a page.
    pub fn avail_features_by_page(&self, page: u32) -> (features: u32)
        ensures
            features == crate::config::features_page(self.parts().avail_features, page),
    {
        match page {
            0 => (self.avail_features & 0xffff_ffff) as u32,
            1 => (self.avail_features >> 32) as u32,
            _ => 0,
        }
    }

    /// The driver accepts features of a page. Those that the device does not offer stay out.
    pub fn ack_features_by_page(&mut self, page: u32, value: u32)
        ensures
            final(self)@ == old(self)@,
            old(self).sized() ==> final(self).sized(),
            final(self).guest_memory() == old(self).guest_memory(),
            final(self).parts() == (NetParts {
                acked_features: crate::config::acked(
                    old(self).parts().acked_features,
                    old(self).parts().avail_features,
                    page,
                    value,
                ),
                ..old(self).parts()
            }),
    {
        let features: u64 = match page {
            0 => value as u64,
            1 => (value as u64) << 32,
            _ => 0,
        };
        self.acked_features = self.acked_features | (features & self.avail_features);
    }

    /// Reads the device configuration from `offset` on into `data`. If `offset` does not lie in the
    /// configuration space, `data` stays as it is, and what is returned is for the host to carry
    /// out.
    pub fn read_config(&self, offset: u64, data: &mut [u8]) -> (failure: Option<Effect>)
        ensures
            failure == (if offset < self.parts().config.len() {
                None
            } else {
                Some(Effect::Count { metric: Metric::CfgFails, by: 1 })
            }),
            final(data)@ == crate::config::config_read(
                self.parts().config,
                offset as nat,
                old(data)@,
            ),
    {
        if self.config_space.read(offset, data) {
            None
        } else {
            Some(Effect::Count { metric: Metric::CfgFails, by: 1 })
        }
    }

    /// Writes `data` to the device configuration at `offset`, and takes over the MAC address that
    /// then stands there. A write that does not fit changes nothing but a counter.
    pub fn write_config(&mut self, offset: u64, data: &[u8])
        requires
            offset + data@.len() <= u64::MAX,
        ensures
            old(self).sized() ==> final(self).sized(),
            old(self).wf() ==> final(self).wf(),
            final(self).guest_memory() == old(self).guest_memory(),
            ({
                let parts = old(self).parts();
                let config = crate::config::config_written(parts.config, offset as nat, data@);
                if offset + data@.len() <= parts.config.len() {
                    &&& final(self).parts().guest_mac matches Some(mac) && mac.bytes@ == config
                    &&& final(self).parts() == (NetParts {
                        config,
                        guest_mac: final(self).parts().guest_mac,
                        ..parts
                    })
                    &&& final(self)@ == (NetView {
                        guest_mac: Some(config),
                        ..old(self)@
                    }).count(Metric::MacAddressUpdates)
                } else {
                    &&& final(self).parts() == parts
                    &&& final(self)@ == old(self)@.count(Metric::CfgFails)
                }
            }),
    {
        if !self.config_space.write(offset, data) {
            self.count(Metric::CfgFails);
            return;
        }
        self.guest_mac = Some(MacAddr { bytes: self.config_space.guest_mac });
        self.count(Metric::MacAddressUpdates);
    }

    /// Whether the driver has activated the device.
    pub fn is_activated(&self) -> (activated: bool)
        ensures
            activated == self@.mapped is Some,
    {
        match self.device_state {
            DeviceState::Inactive => false,
            DeviceState::Activated(_) => true,
        }
    }

    /// Activates the device with the guest memory `mem`, if the activation event could be raised.
    pub fn activate(&mut self, mem: GuestMemoryMmap, event_raised: bool) -> (result: Result<
        (),
        ActivateError,
    >)
        ensures
            final(self).parts() == old(self).parts(),
            old(self).wf() ==> final(self).wf(),
            result == (if event_raised {
                Ok(())
            } else {
                Err(ActivateError::BadActivate)
            }),
            final(self).guest_memory() == (if event_raised {
                Some(mem)
            } else {
                old(self).guest_memory()
            }),
            final(self)@ == (if event_raised {
                NetView {
                    mapped: Some(crate::guest::guest_addresses(mem)),
                    accesses: crate::guest::guest_accesses(mem),
                    ..old(self)@
                }
            } else {
                old(self)@
            }),
    {
        if !event_raised {
            return Err(ActivateError::BadActivate);
        }
        self.device_state = DeviceState::Activated(mem);
        Ok(())
    }

    /// The guest memory that the device was activated with.
    pub fn memory(&self) -> (mem: Option<&GuestMemoryMmap>)
        ensures
            mem == (match self.guest_memory() {
                Some(m) => Some(&m),
                None => None,
            }),
            mem is Some <==> self@.mapped is Some,
            mem matches Some(m) ==> {
                &&& self@.mapped == Some(crate::guest::guest_addresses(*m))
                &&& self@.accesses == crate::guest::guest_accesses(*m)
            },
    {
        match &self.device_state {
            DeviceState::Inactive => None,
            DeviceState::Activated(mem) => Some(mem),
        }
    }

    fn emit(&mut self, effect: Effect)
        ensures
            old(self).becomes(final(self), old(self)@.emit(effect)),
    {
        self.effects.push(effect);
    }

    fn count(&mut self, metric: Metric)
        ensures
            old(self).becomes(final(self), old(self)@.count(metric)),
    {
        self.emit(Effect::Count { metric, by: 1 });
    }

    fn replenish(&mut self, limiter: Direction, tokens: usize, kind: TokenType)
        ensures
            old(self).becomes(final(self), old(self)@.replenish(limiter, tokens as nat, kind)),
    {
        self.emit(Effect::Replenish { limiter, tokens: tokens as u64, kind });
    }

    fn count_times(&mut self, metric: Metric, n: usize)
        ensures
            old(self).becomes(
                final(self),
                old(self)@.emit_all(crate::protocol::counts(metric, n as nat)),
            ),
    {
        let mut i: usize = 0;
        assert(self@ =~= self@.emit_all(crate::protocol::counts(metric, 0)));
        while i < n
            invariant
                i <= n,
                old(self).becomes(
                    self,
                    old(self)@.emit_all(crate::protocol::counts(metric, i as nat)),
                ),
            decreases n - i,
        {
            self.count(metric);
            i += 1;
            assert(self@ =~= old(self)@.emit_all(crate::protocol::counts(metric, i as nat)));
        }
    }

    fn enter(&mut self, stage: Stage)
        ensures
            old(self).becomes(final(self), old(self)@.to(stage)),
    {
        self.stage = stage;
    }

    /// Ends the work on an event; a failure is reported.
    fn finish(&mut self, result: Result<(), DeviceError>)
        ensures
            old(self).becomes(final(self), old(self)@.finish(result)),
    {
        if let Err(e) = result {
            self.emit(Effect::Report(e));
        }
        self.enter(Stage::Idle);
    }

    // The receive path.

    /// Looks for the next frame to receive: those of the metadata service go first.
    fn process_rx(&mut self)
        ensures
            old(self).becomes(final(self), old(self)@.process_rx()),
    {
        if self.mmds_ns.is_some() {
            self.enter(Stage::RxMmds);
        } else {
            self.enter(Stage::RxTap);
        }
    }

    /// Processes the deferred frame first, then continues reading.
    fn handle_deferred_frame(&mut self)
        ensures
            old(self).becomes(final(self), old(self)@.handle_deferred_frame()),
    {
        self.rate_limited_rx_single_frame();
    }

    fn resume_rx(&mut self)
        ensures
            old(self).becomes(final(self), old(self)@.resume_rx()),
    {
        if self.rx_deferred_frame {
            self.handle_deferred_frame();
        } else {
            self.finish(Ok(()));
        }
    }

    /// Asks for the budget that the received frame needs.
    fn rate_limited_rx_single_frame(&mut self)
        ensures
            old(self).becomes(final(self), old(self)@.to(Stage::RxOps)),
    {
        self.enter(Stage::RxOps);
    }

    /// Ends a receive pass: tells the driver if chains were given back.
    fn signal_rx_used_queue(&mut self)
        ensures
            old(self).becomes(final(self), old(self)@.signal_rx_used_queue()),
    {
        if self.rx_deferred_irqs {
            self.enter(Stage::RxSignal);
        } else {
            self.finish(Ok(()));
        }
    }

    fn frame_deferred(&mut self)
        ensures
            old(self).becomes(final(self), old(self)@.frame_deferred()),
    {
        self.rx_deferred_frame = true;
        self.signal_rx_used_queue();
    }

    fn delivery_failed(&mut self)
        requires
            old(self).sized(),
        ensures
            old(self).becomes(final(self), old(self)@.delivery_failed()),
    {
        self.replenish(Direction::Rx, 1, TokenType::Ops);
        self.replenish(Direction::Rx, self.rx_bytes_read, TokenType::Bytes);
        self.frame_deferred();
    }

    fn frame_delivered(&mut self)
        ensures
            old(self).becomes(final(self), old(self)@.frame_delivered()),
    {
        self.rx_deferred_frame = false;
        self.process_rx();
    }

    /// Tries up to `left` chains for the received frame.
    fn write_frame_to_guest(&mut self, left: u16)
        requires
            old(self).sized(),
        ensures
            old(self).becomes(final(self), old(self)@.write_frame_to_guest(left)),
    {
        if left == 0 {
            self.delivery_failed();
        } else {
            self.enter(Stage::RxPop { left });
        }
    }

    /// Takes over the frame that is now in the first `len` bytes of the receive buffer.
    fn frame_read(&mut self, len: usize, Ghost(frame): Ghost<Seq<u8>>)
        requires
            old(self).sized(),
            len <= MAX_BUFFER_SIZE,
            old(self).rx_frame_buf@.take(len as int) == frame,
        ensures
            old(self).becomes(final(self), old(self)@.frame_read(frame)),
    {
        self.rx_bytes_read = len;
        self.count(Metric::RxCount);
        self.rate_limited_rx_single_frame();
    }

    /// The metadata service has given the frame `payload`, or has none.
    pub fn mmds_frame(&mut self, payload: Option<&[u8]>)
        requires
            old(self).wf(),
            old(self)@.accepts(Reply::MmdsFrame(option_bytes(payload))),
        ensures
            final(self).wf(),
            old(self).becomes(final(self), old(self)@.after(Reply::MmdsFrame(option_bytes(payload)))),
    {
        match payload {
            None => self.enter(Stage::RxTap),
            Some(bytes) => {
                self.count(Metric::MmdsTxFrames);
                self.emit(Effect::Count { metric: Metric::MmdsTxBytes, by: bytes.len() as u64 });
                if let Ok(frame) = frame_bytes_from_buf_mut(self.rx_frame_buf.as_mut_slice()) {
                    copy_to_start(frame, bytes);
                }
                init_vnet_hdr(self.rx_frame_buf.as_mut_slice());
                let ghost frame = Seq::new(VNET_HDR_LEN as nat, |i: int| 0u8) + bytes@;
                let len: usize = vnet_hdr_len() + bytes.len();
                assert(self.rx_frame_buf@.take(len as int) =~= frame);
                self.frame_read(len, Ghost(frame));
            },
        }
    }

    /// The tap has given the frame `read`, with its virtio-net header, or an error with its OS
    /// error code, if there is one.
    pub fn tap_read(&mut self, read: Result<&[u8], Option<i32>>)
        requires
            old(self).wf(),
            old(self)@.accepts(Reply::TapRead(result_bytes(read))),
        ensures
            final(self).wf(),
            old(self).becomes(final(self), old(self)@.after(Reply::TapRead(result_bytes(read)))),
    {
        match read {
            Ok(frame) => {
                copy_to_start(self.rx_frame_buf.as_mut_slice(), frame);
                let len: usize = frame.len();
                assert(self.rx_frame_buf@.take(len as int) =~= frame@);
                self.frame_read(len, Ghost(frame@));
            },
            Err(code) => {
                let would_block: bool = match code {
                    Some(e) => e == eagain(),
                    None => false,
                };
                if would_block {
                    self.signal_rx_used_queue();
                } else {
                    self.count(Metric::TapReadFails);
                    self.finish(Err(DeviceError::FailedReadTap));
                }
            },
        }
    }

    /// Copies the received frame to `chain`, and asks for the chain to be given back.
    fn do_write_frame_to_guest(&mut self, left: u16, chain: &DescriptorChain)
        requires
            old(self).sized(),
            old(self)@.mapped is Some,
        ensures
            0 < chain@.1.len() <= u16::MAX,
            old(self).becomes(final(self), old(self)@.rx_popped(left, Some(chain@))),
    {
        let ghost v0 = self@;
        let descs = chain.descriptors();
        let len: usize = self.rx_bytes_read;
        let frame = vstd::slice::slice_subrange(self.rx_frame_buf.as_slice(), 0, len);
        let (copied, outcome) = match &mut self.device_state {
            DeviceState::Activated(mem) => copy_frame_to_chain(mem, frame, descs),
            DeviceState::Inactive => return,
        };
        self.count_times(Metric::RxCount, copied);
        match outcome {
            Err(FrontendError::GuestMemory(GuestError::PartialBuffer)) => {
                self.count(Metric::RxPartialWrites);
            },
            Err(FrontendError::GuestMemory(_)) => {
                self.count(Metric::RxFails);
            },
            Err(FrontendError::DescriptorChainTooSmall) => {
                self.count(Metric::RxFails);
            },
            _ => {},
        }
        let delivered: bool = outcome.is_ok();
        self.enter(Stage::RxUsed { left, head: chain.head(), delivered });
        assert(self@ =~= v0.rx_popped(left, Some(chain@)));
    }

    /// A queue has given the descriptor chain `chain`, or has none.
    pub fn popped(&mut self, chain: Option<&DescriptorChain>)
        requires
            old(self).wf(),
            old(self)@.request() is Pop,
        ensures
            final(self).wf(),
            old(self)@.accepts(Reply::Popped(option_chain(chain))),
            old(self).becomes(final(self), old(self)@.after(Reply::Popped(option_chain(chain)))),
    {
        match self.stage {
            Stage::RxPop { left } => {
                match chain {
                    None => {
                        self.count(Metric::NoRxAvailBuffer);
                        self.delivery_failed();
                    },
                    Some(chain) => self.do_write_frame_to_guest(left, chain),
                }
            },
            Stage::TxPop { run } => {
                match chain {
                    None => self.tx_queue_left(run),
                    Some(chain) => {
                        let descs = chain.descriptors();
                        let bytes: u64 = self.fill_tx_iovec(descs);
                        self.enter(Stage::TxOps { run, head: chain.head(), bytes });
                    },
                }
            },
            _ => {},
        }
    }

    /// A used ring has taken the descriptor chain back, or says why it has not.
    pub fn used_added(&mut self, added: Result<(), QueueError>)
        requires
            old(self).wf(),
            old(self)@.accepts(Reply::UsedAdded(added)),
        ensures
            final(self).wf(),
            old(self).becomes(final(self), old(self)@.after(Reply::UsedAdded(added))),
    {
        match self.stage {
            Stage::RxUsed { left, delivered, .. } => {
                if added.is_err() {
                    self.delivery_failed();
                    return;
                }
                self.rx_deferred_irqs = true;
                if delivered {
                    self.emit(
                        Effect::Count {
                            metric: Metric::RxBytesCount,
                            by: self.rx_bytes_read as u64,
                        },
                    );
                    self.count(Metric::RxPacketsCount);
                    self.frame_delivered();
                } else {
                    self.write_frame_to_guest(left - 1);
                }
            },
            Stage::TxUsed { run, .. } => {
                match added {
                    Ok(()) => self.enter(Stage::TxPop { run: TxRun { raise_irq: true, ..run } }),
                    Err(e) => self.finish(Err(DeviceError::QueueError(e))),
                }
            },
            _ => {},
        }
    }

    /// A rate limiter has given the tokens that were asked for, or has not.
    pub fn consumed(&mut self, granted: bool)
        requires
            old(self).wf(),
            old(self)@.request() is Consume,
        ensures
            final(self).wf(),
            ({
                let reads = new_reads(old(self)@, final(self)@);
                &&& old(self)@.accepts(Reply::Consumed { granted, reads })
                &&& old(self).becomes(
                    final(self),
                    old(self)@.after(Reply::Consumed { granted, reads }),
                )
            }),
    {
        let ghost v0 = self@;
        match self.stage {
            Stage::RxOps => {
                if granted {
                    self.enter(Stage::RxBytes);
                } else {
                    self.count(Metric::RxRateLimiterThrottled);
                    self.frame_deferred();
                }
            },
            Stage::RxBytes => {
                if granted {
                    let size: u16 = self.queues[RX_INDEX].actual_size();
                    self.write_frame_to_guest(size);
                } else {
                    self.replenish(Direction::Rx, 1, TokenType::Ops);
                    self.count(Metric::RxRateLimiterThrottled);
                    self.frame_deferred();
                }
            },
            Stage::TxOps { run, head, bytes } => {
                if granted {
                    self.enter(Stage::TxBytes { run, head, bytes });
                } else {
                    self.tx_throttled(run);
                }
            },
            Stage::TxBytes { run, head, .. } => {
                if granted {
                    self.read_tx_frame();
                    self.write_to_mmds_or_tap(run, head);
                } else {
                    self.replenish(Direction::Tx, 1, TokenType::Ops);
                    self.tx_throttled(run);
                }
            },
            _ => {},
        }
        assert(!(granted && v0.stage is TxBytes) ==> new_reads(v0, self@) =~= Seq::empty());
    }

    // The transmit path.

    fn process_tx(&mut self)
        ensures
            old(self).becomes(final(self), old(self)@.process_tx()),
    {
        self.enter(Stage::TxPop { run: TxRun { serve_mmds: false, raise_irq: false } });
    }

    /// Notes the buffers of the frame in `descs`, none if the device may not read one of them, and
    /// returns the number of bytes to charge for.
    fn fill_tx_iovec(&mut self, descs: &[Descriptor]) -> (bytes: u64)
        requires
            descs@.len() <= u16::MAX,
        ensures
            old(self).becomes(
                final(self),
                (NetView { tx_iovec: crate::protocol::readable(descs@), ..old(self)@ }),
            ),
            bytes == crate::protocol::charged(descs@),
    {
        self.tx_iovec.clear();
        let mut bytes: u64 = 0;
        let mut i: usize = 0;
        while i < descs.len()
            invariant
                i <= descs@.len() <= u16::MAX,
                self.tx_iovec@ == descs@.take(i as int),
                old(self).becomes(self, (NetView { tx_iovec: self.tx_iovec@, ..old(self)@ })),
                bytes == crate::guest::capacity(descs@, i as nat),
                bytes <= i * u32::MAX,
                crate::protocol::first_write_only(descs@, 0) == crate::protocol::first_write_only(
                    descs@,
                    i as nat,
                ),
            decreases descs@.len() - i,
        {
            let desc: Descriptor = descs[i];
            if desc.write_only {
                self.tx_iovec.clear();
                return bytes;
            }
            self.tx_iovec.push(desc);
            assert(self.tx_iovec@ =~= descs@.take(i + 1));
            assert(bytes + desc.len <= (i + 1) * u32::MAX) by (nonlinear_arith)
                requires
                    bytes <= i * u32::MAX,
                    desc.len <= u32::MAX,
            ;
            assert((i + 1) * u32::MAX <= u16::MAX * u32::MAX) by (nonlinear_arith)
                requires
                    i + 1 <= u16::MAX,
            ;
            bytes += desc.len as u64;
            i += 1;
        }
        assert(descs@.take(i as int) =~= descs@);
        bytes
    }

    fn tx_queue_left(&mut self, run: TxRun)
        ensures
            old(self).becomes(final(self), old(self)@.tx_queue_left(run)),
    {
        if run.raise_irq {
            self.enter(Stage::TxSignal { run });
        } else {
            self.count(Metric::NoTxAvailBuffer);
            self.tx_finish(run);
        }
    }

    fn tx_finish(&mut self, run: TxRun)
        ensures
            old(self).becomes(final(self), old(self)@.tx_finish(run)),
    {
        if run.serve_mmds {
            self.process_rx();
        } else {
            self.finish(Ok(()));
        }
    }

    fn tx_throttled(&mut self, run: TxRun)
        ensures
            old(self).becomes(final(self), old(self)@.tx_throttled(run)),
    {
        self.emit(Effect::UndoPop);
        self.count(Metric::TxRateLimiterThrottled);
        self.tx_queue_left(run);
    }

    /// Reads the frame that the noted buffers make up; it is empty if one of them cannot be read.
    fn read_tx_frame(&mut self)
        requires
            old(self).sized(),
            old(self)@.mapped is Some,
        ensures
            ({
                let reads = new_reads(old(self)@, final(self)@);
                &&& old(self)@.reads_fit(reads)
                &&& old(self).becomes(final(self), old(self)@.tx_frame_read(reads))
            }),
    {
        let ghost v0 = self@;
        let (copied, outcome) = match &mut self.device_state {
            DeviceState::Activated(mem) => copy_chain_to_frame(
                mem,
                self.tx_iovec.as_slice(),
                self.tx_frame_buf.as_mut_slice(),
            ),
            DeviceState::Inactive => return,
        };
        self.tx_bytes_read = match outcome {
            Ok(n) => n,
            Err(_) => 0,
        };
        self.count_times(Metric::TxCount, copied);
        match outcome {
            Ok(_) => {},
            Err(GuestError::PartialBuffer) => self.count(Metric::TxPartialReads),
            Err(_) => self.count(Metric::RxFails),
        }
        proof {
            let w = v0.tx_frame_read(new_reads(v0, self@));
            assert(self@.tx_frame =~= w.tx_frame);
            assert(self@.accesses =~= w.accesses);
            assert(self@.effects =~= w.effects);
            assert(self@ =~= w);
        }
    }

    /// Offers the transmitted frame to the metadata service, if there is one, or sends it to the
    /// tap.
    fn write_to_mmds_or_tap(&mut self, run: TxRun, head: u16)
        requires
            old(self).sized(),
        ensures
            old(self).becomes(final(self), old(self)@.write_to_mmds_or_tap(run, head)),
    {
        if self.mmds_ns.is_some() {
            if frame_bytes_from_buf(self.tx_frame()).is_err() {
                self.tx_malformed(run, head);
            } else {
                self.enter(Stage::TxDetour { run, head });
            }
        } else {
            self.write_to_tap(run, head);
        }
    }

    /// Sends the transmitted frame to the tap. That it names a wrong source address is counted.
    fn write_to_tap(&mut self, run: TxRun, head: u16)
        requires
            old(self).sized(),
        ensures
            old(self).becomes(final(self), old(self)@.write_to_tap(run, head)),
    {
        if let Some(mac) = self.guest_mac {
            match frame_bytes_from_buf(self.tx_frame()) {
                Err(_) => {
                    self.tx_malformed(run, head);
                    return;
                },
                Ok(frame) => {
                    if is_spoofed(frame, &mac) {
                        self.count(Metric::TxSpoofedMacCount);
                    }
                },
            }
        }
        self.enter(Stage::TxTap { run, head });
    }

    fn tx_malformed(&mut self, run: TxRun, head: u16)
        ensures
            old(self).becomes(final(self), old(self)@.tx_malformed(run, head)),
    {
        self.count(Metric::TxMalformedFrames);
        self.enter(Stage::TxUsed { run, head });
    }

    /// The frame that is being transmitted, with its virtio-net header.
    pub fn tx_frame(&self) -> (frame: &[u8])
        requires
            self.sized(),
        ensures
            frame@ == self@.tx_frame,
    {
        vstd::slice::slice_subrange(self.tx_frame_buf.as_slice(), 0, self.tx_bytes_read)
    }

    /// The metadata service has taken the transmitted frame, or has not.
    pub fn detoured(&mut self, accepted: bool)
        requires
            old(self).wf(),
            old(self)@.accepts(Reply::Detoured(accepted)),
        ensures
            final(self).wf(),
            old(self).becomes(final(self), old(self)@.after(Reply::Detoured(accepted))),
    {
        if let Stage::TxDetour { run, head } = self.stage {
            if accepted {
                self.count(Metric::MmdsRxAccepted);
                self.replenish(Direction::Tx, self.tx_bytes_read, TokenType::Bytes);
                self.replenish(Direction::Tx, 1, TokenType::Ops);
                let serve_mmds: bool = run.serve_mmds || !self.rx_deferred_frame;
                self.enter(Stage::TxUsed { run: TxRun { serve_mmds, ..run }, head });
            } else {
                self.write_to_tap(run, head);
            }
        }
    }

    /// The tap has taken the transmitted frame, or has failed to.
    pub fn tap_written(&mut self, written: bool)
        requires
            old(self).wf(),
            old(self)@.accepts(Reply::TapWritten(written)),
        ensures
            final(self).wf(),
            old(self).becomes(final(self), old(self)@.after(Reply::TapWritten(written))),
    {
        if let Stage::TxTap { run, head } = self.stage {
            if written {
                self.emit(
                    Effect::Count { metric: Metric::TxBytesCount, by: self.tx_bytes_read as u64 },
                );
                self.count(Metric::TxPacketsCount);
                self.count(Metric::TxCount);
            } else {
                self.count(Metric::TapWriteFails);
            }
            self.enter(Stage::TxUsed { run, head });
        }
    }

    /// The interrupt was raised, or could not be: the OS error code, if there is one.
    pub fn signaled(&mut self, signal: Result<(), Option<i32>>)
        requires
            old(self).wf(),
            old(self)@.accepts(Reply::Signaled(signal)),
        ensures
            final(self).wf(),
            old(self).becomes(final(self), old(self)@.after(Reply::Signaled(signal))),
    {
        let stage: Stage = self.stage;
        match signal {
            Ok(()) => {
                self.rx_deferred_irqs = false;
                match stage {
                    Stage::TxSignal { run } => self.tx_finish(run),
                    _ => self.finish(Ok(())),
                }
            },
            Err(code) => {
                self.count(Metric::EventFails);
                self.finish(Err(DeviceError::FailedSignalingUsedQueue(code)));
            },
        }
    }

    // Events.

    /// The driver has made receive buffers available: `event_read` tells whether the queue's event
    /// could be read, `blocked` whether the receive rate limiter is blocked.
    pub fn process_rx_queue_event(&mut self, event_read: bool, blocked: bool)
        requires
            old(self).wf(),
            old(self)@.stage == Stage::Idle,
            event_read && !blocked && old(self)@.rx_deferred_frame ==> old(self)@.mapped is Some,
        ensures
            final(self).wf(),
            old(self).becomes(
                final(self),
                old(self)@.process_rx_queue_event(event_read, blocked),
            ),
    {
        self.count(Metric::RxQueueEventCount);
        if !event_read {
            self.count(Metric::EventFails);
        } else if !blocked {
            // If the limiter is not blocked, resume the receiving of bytes.
            self.resume_rx();
        } else {
            self.count(Metric::RxRateLimiterThrottled);
        }
    }

    /// The tap has something to read: `queue_empty` tells whether the receive queue has no buffer
    /// available, `blocked` whether the receive rate limiter is blocked.
    pub fn process_tap_rx_event(&mut self, queue_empty: bool, blocked: bool)
        requires
            old(self).wf(),
            old(self)@.stage == Stage::Idle,
            old(self)@.mapped is Some,
        ensures
            final(self).wf(),
            old(self).becomes(final(self), old(self)@.process_tap_rx_event(queue_empty, blocked)),
    {
        self.count(Metric::RxTapEventCount);
        // While there are no available buffers and a frame is deferred, don't process any more
        // incoming.
        if queue_empty && self.rx_deferred_frame {
            self.count(Metric::NoRxAvailBuffer);
            return;
        }
        // While the limiter is blocked, don't process any more incoming.
        if blocked {
            self.count(Metric::RxRateLimiterThrottled);
            return;
        }
        // Don't read again until the deferred frame has been received.
        if self.rx_deferred_frame {
            self.handle_deferred_frame();
        } else {
            self.process_rx();
        }
    }

    /// The driver has made frames available: `event_read` tells whether the queue's event could be
    /// read, `blocked` whether the transmit rate limiter is blocked.
    pub fn process_tx_queue_event(&mut self, event_read: bool, blocked: bool)
        requires
            old(self).wf(),
            old(self)@.stage == Stage::Idle,
            event_read && !blocked ==> old(self)@.mapped is Some,
        ensures
            final(self).wf(),
            old(self).becomes(
                final(self),
                old(self)@.process_tx_queue_event(event_read, blocked),
            ),
    {
        self.count(Metric::TxQueueEventCount);
        if !event_read {
            self.count(Metric::EventFails);
        } else if !blocked {
            // If the limiter is not blocked, continue transmitting bytes.
            self.process_tx();
        } else {
            self.count(Metric::TxRateLimiterThrottled);
        }
    }

    /// The timer of the receive rate limiter went off; `handled` tells whether the limiter took
    /// the event.
    pub fn process_rx_rate_limiter_event(&mut self, handled: bool)
        requires
            old(self).wf(),
            old(self)@.stage == Stage::Idle,
            handled && old(self)@.rx_deferred_frame ==> old(self)@.mapped is Some,
        ensures
            final(self).wf(),
            old(self).becomes(final(self), old(self)@.process_rx_rate_limiter_event(handled)),
    {
        self.count(Metric::RxEventRateLimiterCount);
        if handled {
            // There might be enough budget now to receive the frame.
            self.resume_rx();
        } else {
            self.count(Metric::EventFails);
        }
    }

    /// The timer of the transmit rate limiter went off; `handled` tells whether the limiter took
    /// the event.
    pub fn process_tx_rate_limiter_event(&mut self, handled: bool)
        requires
            old(self).wf(),
            old(self)@.stage == Stage::Idle,
            handled ==> old(self)@.mapped is Some,
        ensures
            final(self).wf(),
            old(self).becomes(final(self), old(self)@.process_tx_rate_limiter_event(handled)),
    {
        self.count(Metric::TxRateLimiterEventCount);
        if handled {
            // There might be enough budget now to send the frame.
            self.process_tx();
        } else {
            self.count(Metric::EventFails);
        }
    }

    /// What the device waits for.
    pub fn request(&self) -> (request: Request)
        requires
            self.wf(),
        ensures
            request == self@.request(),
    {
        match self.stage {
            Stage::Idle => Request::Nothing,
            Stage::RxMmds => Request::ReadMmdsFrame,
            Stage::RxTap => Request::ReadTap,
            Stage::RxOps => Request::Consume {
                limiter: Direction::Rx,
                tokens: 1,
                kind: TokenType::Ops,
            },
            Stage::RxBytes => Request::Consume {
                limiter: Direction::Rx,
                tokens: self.rx_bytes_read as u64,
                kind: TokenType::Bytes,
            },
            Stage::RxPop { .. } => Request::Pop(Direction::Rx),
            Stage::RxUsed { head, delivered, .. } => Request::AddUsed {
                queue: Direction::Rx,
                index: head,
                len: if delivered {
                    self.rx_bytes_read as u32
                } else {
                    0
                },
            },
            Stage::RxSignal => Request::Signal,
            Stage::TxPop { .. } => Request::Pop(Direction::Tx),
            Stage::TxOps { .. } => Request::Consume {
                limiter: Direction::Tx,
                tokens: 1,
                kind: TokenType::Ops,
            },
            Stage::TxBytes { bytes, .. } => Request::Consume {
                limiter: Direction::Tx,
                tokens: bytes,
                kind: TokenType::Bytes,
            },
            Stage::TxDetour { .. } => Request::DetourFrame,
            Stage::TxTap { .. } => Request::WriteTap,
            Stage::TxUsed { head, .. } => Request::AddUsed {
                queue: Direction::Tx,
                index: head,
                len: 0,
            },
            Stage::TxSignal { .. } => Request::Signal,
        }
    }

    /// Whether a frame was read and could not be delivered yet.
    pub fn rx_deferred_frame(&self) -> (deferred: bool)
        ensures
            deferred == self@.rx_deferred_frame,
    {
        self.rx_deferred_frame
    }

    /// Hands out what the host has to carry out, oldest first.
    pub fn take_effects(&mut self) -> (effects: Vec<Effect>)
        ensures
            effects@ == old(self)@.effects,
            old(self).becomes(final(self), (NetView { effects: Seq::empty(), ..old(self)@ })),
    {
        let mut effects: Vec<Effect> = Vec::new();
        std::mem::swap(&mut effects, &mut self.effects);
        effects
    }
}

/// A new device, as far as it decides what happens to frames.
pub open spec fn new_view(guest_mac: Option<&MacAddr>, mmds: bool) -> NetView {
    NetView {
        stage: Stage::Idle,
        rx_deferred_frame: false,
        rx_deferred_irqs: false,
        rx_frame: Seq::empty(),
        tx_iovec: Seq::empty(),
        tx_frame: Seq::empty(),
        effects: Seq::empty(),
        accesses: Seq::empty(),
        mapped: None,
        mmds,
        guest_mac: match guest_mac {
            Some(mac) => Some(mac.bytes@),
            None => None,
        },
        rx_queue_size: 0,
    }
}

/// The parts of a new device that its work on frames leaves alone: its configuration offers the
/// MAC address, if it has one.
pub open spec fn new_parts<B, L, M>(
    id: Seq<char>,
    tap: B,
    base_features: u64,
    guest_mac: Option<&MacAddr>,
    rx_rate_limiter: L,
    tx_rate_limiter: L,
    mmds_ns: Option<M>,
) -> NetParts<B, L, M> {
    let own_mac = match guest_mac {
        Some(mac) => Some(*mac),
        None => None,
    };
    let queue = Queue { max_size: QUEUE_SIZE, size: 0 };
    NetParts {
        id,
        tap,
        avail_features: crate::config::with_mac_feature(base_features, own_mac),
        acked_features: 0,
        queues: seq![queue, queue],
        rx_rate_limiter,
        tx_rate_limiter,
        config: match own_mac {
            Some(mac) => mac.bytes@,
            None => Seq::new(crate::config::MAC_ADDR_LEN as nat, |i: int| 0u8),
        },
        guest_mac: own_mac,
        mmds_ns,
    }
}

/// A new device is idle, has nothing to tell or to deliver, and no memory. It keeps what it was made
/// from, offers the MAC feature and shows an address if it was given one, and has two queues of
/// which the driver has chosen no size.
pub proof fn law_new_device<B, L, M>(
    id: Seq<char>,
    tap: B,
    base_features: u64,
    guest_mac: Option<&MacAddr>,
    rx_rate_limiter: L,
    tx_rate_limiter: L,
    mmds_ns: Option<M>,
)
    ensures
        ({
            let view = new_view(guest_mac, mmds_ns is Some);
            let parts = new_parts(
                id,
                tap,
                base_features,
                guest_mac,
                rx_rate_limiter,
                tx_rate_limiter,
                mmds_ns,
            );
            &&& view.request() == Request::Nothing
            &&& view.effects.len() == 0 && view.accesses.len() == 0 && view.rx_frame.len() == 0
            &&& view.tx_iovec.len() == 0 && view.tx_frame.len() == 0 && view.rx_queue_size == 0
            &&& !view.rx_deferred_frame && !view.rx_deferred_irqs && view.mapped is None
            &&& view.mmds == (mmds_ns is Some)
            &&& parts.id == id && parts.tap == tap && parts.mmds_ns == mmds_ns
            &&& parts.rx_rate_limiter == rx_rate_limiter && parts.tx_rate_limiter == tx_rate_limiter
            &&& parts.acked_features == 0
            &&& parts.queues.len() == 2
            &&& forall|i: int|
                0 <= i < 2 ==> (#[trigger] parts.queues[i]).max_size == QUEUE_SIZE
                    && parts.queues[i].size == 0
            &&& parts.config.len() == 6
            &&& match guest_mac {
                Some(mac) => {
                    &&& parts.guest_mac == Some(*mac)
                    &&& view.guest_mac == Some(mac.bytes@)
                    &&& parts.config == mac.bytes@
                    &&& parts.avail_features == base_features | 1u64 << VIRTIO_NET_F_MAC
                },
                None => {
                    &&& parts.guest_mac is None
                    &&& view.guest_mac is None
                    &&& forall|i: int| 0 <= i < 6 ==> #[trigger] parts.config[i] == 0
                    &&& parts.avail_features == base_features
                },
            }
        }),
{
}

/// `payload` by its bytes.
pub open spec fn option_bytes(payload: Option<&[u8]>) -> Option<Seq<u8>> {
    match payload {
        None => None,
        Some(bytes) => Some(bytes@),
    }
}

/// `chain` by its plain values.
pub open spec fn option_chain(chain: Option<&DescriptorChain>) -> Option<(u16, Seq<Descriptor>)> {
    match chain {
        None => None,
        Some(c) => Some(c@),
    }
}

/// The bytes of the accesses to guest memory that were made between `before` and `after`.
pub open spec fn new_reads(before: NetView, after: NetView) -> Seq<Seq<u8>> {
    crate::guest::access_bytes(after.accesses.skip(before.accesses.len() as int))
}

/// `read` by its bytes.
pub open spec fn result_bytes(read: Result<&[u8], Option<i32>>) -> Result<Seq<u8>, Option<i32>> {
    match read {
        Ok(bytes) => Ok(bytes@),
        Err(code) => Err(code),
    }
}

/// Copies `src` to the start of `dst`.
fn copy_to_start(dst: &mut [u8], src: &[u8])
    requires
        src@.len() <= old(dst)@.len(),
    ensures
        final(dst)@ == src@ + old(dst)@.skip(src@.len() as int),
{
    let mut i: usize = 0;
    while i < src.len()
        invariant
            i <= src@.len() <= dst@.len(),
            dst@.len() == old(dst)@.len(),
            forall|j: int| 0 <= j < i ==> dst@[j] == src@[j],
            forall|j: int| i <= j < dst@.len() ==> dst@[j] == old(dst)@[j],
        decreases src@.len() - i,
    {
        dst[i] = src[i];
        i += 1;
    }
    assert(dst@ =~= src@ + old(dst)@.skip(src@.len() as int));
}

} // verus!
