//! Runs the device against a small host: virtqueues whose buffers lie in real guest memory, a tap
//! with queued frames, rate limiters that are refilled by hand, and a metadata service.
use std::collections::VecDeque;
use virtio_net::config::{
    MacAddr, MAC_ADDR_LEN, MAX_BUFFER_SIZE, NUM_QUEUES, QUEUE_SIZE, RX_INDEX, TX_INDEX, TYPE_NET,
    VIRTIO_F_VERSION_1, VIRTIO_MMIO_INT_VRING, VIRTIO_NET_F_CSUM, VIRTIO_NET_F_GUEST_CSUM,
    VIRTIO_NET_F_GUEST_TSO4, VIRTIO_NET_F_GUEST_UFO, VIRTIO_NET_F_HOST_TSO4,
    VIRTIO_NET_F_HOST_UFO, VIRTIO_NET_F_MAC,
};
use virtio_net::device::{ActivateError, Backend, Net};
use virtio_net::guest::{Descriptor, DescriptorChain, GuestError};
use virtio_net::protocol::{
    BucketUpdate, DeviceError, Direction, Effect, Metric, QueueError, Request, TokenBucket,
    TokenType,
};
use virtio_net::vnet::{
    frame_bytes_from_buf, frame_bytes_from_buf_mut, init_vnet_hdr, vnet_hdr_len,
};
use vm_memory::{Address, Bytes, GuestAddress, GuestMemory, GuestMemoryMmap};

const VIRTQ_DESC_F_WRITE: u16 = 2;
const DATA_ADDR: u64 = 0x1000;
const TEST_QUEUE_SIZE: u16 = 16;
const GUEST_MAC: [u8; 6] = [0x11, 0x22, 0x33, 0x44, 0x55, 0x66];

enum TapRead {
    Frame(Vec<u8>),
    Failure(Option<i32>),
}

#[derive(Default)]
struct Tap {
    incoming: VecDeque<TapRead>,
    /// What is read when nothing is queued.
    mock_frame: Option<Vec<u8>>,
    sent: Vec<Vec<u8>>,
    refuse_writes: bool,
}

impl Backend for Tap {
    fn if_name_as_string(&self) -> String {
        "tap0".to_string()
    }
}

#[derive(Clone, Copy)]
struct Bucket {
    params: TokenBucket,
    budget: u64,
}

#[derive(Default)]
struct Limiter {
    bytes: Option<Bucket>,
    ops: Option<Bucket>,
    blocked: bool,
}

fn bucket(capacity: u64, one_time_burst: u64, refill_time_ms: u64) -> Option<Bucket> {
    if capacity == 0 || refill_time_ms == 0 {
        return None;
    }
    let params = TokenBucket {
        capacity,
        one_time_burst,
        refill_time_ms,
    };
    Some(Bucket {
        params,
        budget: capacity + one_time_burst,
    })
}

impl Limiter {
    fn new(b: (u64, u64, u64), o: (u64, u64, u64)) -> Limiter {
        Limiter {
            bytes: bucket(b.0, b.1, b.2),
            ops: bucket(o.0, o.1, o.2),
            blocked: false,
        }
    }

    fn bucket_of(&mut self, kind: TokenType) -> &mut Option<Bucket> {
        match kind {
            TokenType::Bytes => &mut self.bytes,
            TokenType::Ops => &mut self.ops,
        }
    }

    fn consume(&mut self, tokens: u64, kind: TokenType) -> bool {
        if self.blocked {
            return false;
        }
        let granted = match self.bucket_of(kind) {
            None => true,
            Some(b) if b.budget >= tokens => {
                b.budget -= tokens;
                true
            }
            Some(_) => false,
        };
        self.blocked = !granted;
        granted
    }

    fn replenish(&mut self, tokens: u64, kind: TokenType) {
        if let Some(b) = self.bucket_of(kind) {
            b.budget += tokens;
        }
    }

    fn event_handler(&mut self) -> bool {
        let was_blocked = self.blocked;
        self.blocked = false;
        was_blocked
    }

    fn refill(&mut self) {
        for b in [&mut self.bytes, &mut self.ops] {
            if let Some(b) = b {
                b.budget = b.params.capacity;
            }
        }
    }

    fn update(&mut self, kind: TokenType, update: BucketUpdate) {
        match update {
            BucketUpdate::Unchanged => {}
            BucketUpdate::Disabled => *self.bucket_of(kind) = None,
            BucketUpdate::Update(p) => {
                *self.bucket_of(kind) = bucket(p.capacity, p.one_time_burst, p.refill_time_ms)
            }
        }
    }
}

/// Takes ARP requests for one address, and has an answer to each.
#[derive(Default)]
struct Mmds {
    offered: Vec<Vec<u8>>,
    answers: VecDeque<Vec<u8>>,
}

const MMDS_IP: [u8; 4] = [169, 254, 169, 254];

impl Mmds {
    fn detour_frame(&mut self, frame: &[u8]) -> bool {
        self.offered.push(frame.to_vec());
        let taken = frame.len() >= 42 && frame[12..14] == [0x08, 0x06] && frame[38..42] == MMDS_IP;
        if taken {
            self.answers.push_back(vec![0xab; 42]);
        }
        taken
    }
}

#[derive(Default)]
struct VirtQueue {
    table: Vec<(u64, u32, u16, Option<u16>)>,
    avail: Vec<u16>,
    next_avail: usize,
    used: Vec<(u16, u32)>,
    event: bool,
    refuse_used: Option<QueueError>,
}

impl VirtQueue {
    fn new() -> VirtQueue {
        VirtQueue {
            table: vec![(0, 0, 0, None); TEST_QUEUE_SIZE as usize],
            ..VirtQueue::default()
        }
    }

    fn pop(&mut self) -> Option<DescriptorChain> {
        let head = *self.avail.get(self.next_avail)?;
        self.next_avail += 1;
        let mut descs = Vec::new();
        let mut index = Some(head);
        while let Some(i) = index {
            let (addr, len, flags, next) = self.table[i as usize];
            let write_only = flags & VIRTQ_DESC_F_WRITE != 0;
            descs.push(Descriptor {
                addr,
                len,
                write_only,
            });
            index = next;
        }
        DescriptorChain::new(head, descs)
    }

    fn check_used_elem(&self, i: usize, id: u16, len: u32) {
        assert_eq!(self.used[i], (id, len));
    }

    fn check_data(&self, mem: &GuestMemoryMmap, index: usize, expected: &[u8]) {
        let mut buf = vec![0u8; expected.len()];
        mem.read_slice(&mut buf, GuestAddress(self.table[index].0))
            .unwrap();
        assert_eq!(&buf[..], expected);
    }
}

enum NetEvent {
    RxQueue,
    RxRateLimiter,
    Tap,
    TxQueue,
    TxRateLimiter,
}

#[derive(Clone, Copy)]
enum NetQueue {
    Rx,
    Tx,
}

struct TestHelper {
    net: Net<Tap, Limiter, Mmds>,
    mem: GuestMemoryMmap,
    rxq: VirtQueue,
    txq: VirtQueue,
    metrics: Vec<(Metric, u64)>,
    reports: Vec<DeviceError>,
    requests: Vec<Request>,
    interrupt_status: u32,
    interrupt_evt: u64,
    refuse_interrupts: bool,
}

fn new_net(mmds: bool) -> Net<Tap, Limiter, Mmds> {
    let mac = MacAddr::from_bytes_unchecked(&GUEST_MAC);
    Net::new_with_tap(
        "net0".to_string(),
        Tap::default(),
        Some(&mac),
        Limiter::default(),
        Limiter::default(),
        if mmds { Some(Mmds::default()) } else { None },
    )
}

fn default_net() -> Net<Tap, Limiter, Mmds> {
    new_net(true)
}

impl TestHelper {
    fn with(net: Net<Tap, Limiter, Mmds>) -> TestHelper {
        TestHelper {
            net,
            mem: GuestMemoryMmap::from_ranges(&[(GuestAddress(0), MAX_BUFFER_SIZE)]).unwrap(),
            rxq: VirtQueue::new(),
            txq: VirtQueue::new(),
            metrics: Vec::new(),
            reports: Vec::new(),
            requests: Vec::new(),
            interrupt_status: 0,
            interrupt_evt: 0,
            refuse_interrupts: false,
        }
    }

    fn default() -> TestHelper {
        TestHelper::with(default_net())
    }

    fn activate_net(&mut self) {
        for queue in self.net.queues_mut() {
            queue.size = TEST_QUEUE_SIZE;
        }
        self.net.activate(self.mem.clone(), true).unwrap();
    }

    fn queue(&mut self, queue: NetQueue) -> &mut VirtQueue {
        match queue {
            NetQueue::Rx => &mut self.rxq,
            NetQueue::Tx => &mut self.txq,
        }
    }

    fn add_desc_chain(&mut self, queue: NetQueue, offset: u64, list: &[(u16, u32, u16)]) {
        let queue = self.queue(queue);
        let mut addr = DATA_ADDR + offset;
        for (i, &(index, len, flags)) in list.iter().enumerate() {
            let next = list.get(i + 1).map(|d| d.0);
            queue.table[index as usize] = (addr, len, flags, next);
            // Gaps between the buffers, so that contiguous memory is not taken for granted.
            addr += u64::from(len) + (u64::from(index) * 7) % 10;
        }
        queue.avail.push(list[0].0);
        queue.event = true;
    }

    fn metric(&self, metric: Metric) -> u64 {
        self.metrics
            .iter()
            .filter(|(m, _)| *m == metric)
            .map(|(_, by)| by)
            .sum()
    }

    fn carry_out(&mut self) {
        for effect in self.net.take_effects() {
            match effect {
                Effect::Count { metric, by } => self.metrics.push((metric, by)),
                Effect::Replenish {
                    limiter,
                    tokens,
                    kind,
                } => self.net.rate_limiter_mut(limiter).replenish(tokens, kind),
                Effect::UndoPop => self.txq.next_avail -= 1,
                Effect::Report(e) => self.reports.push(e),
                Effect::UpdateBuckets {
                    limiter,
                    bytes,
                    ops,
                } => {
                    let limiter = self.net.rate_limiter_mut(limiter);
                    limiter.update(TokenType::Bytes, bytes);
                    limiter.update(TokenType::Ops, ops);
                }
            }
        }
    }

    fn run(&mut self) {
        loop {
            self.carry_out();
            let request = self.net.request();
            self.requests.push(request);
            match request {
                Request::Nothing => return,
                Request::ReadMmdsFrame => {
                    let frame = self.net.mmds_ns_mut().unwrap().answers.pop_front();
                    self.net.mmds_frame(frame.as_deref());
                }
                Request::ReadTap => {
                    let tap = self.net.tap_mut();
                    match (tap.incoming.pop_front(), tap.mock_frame.clone()) {
                        (Some(TapRead::Frame(frame)), _) => self.net.tap_read(Ok(&frame)),
                        (Some(TapRead::Failure(code)), _) => self.net.tap_read(Err(code)),
                        (None, Some(frame)) => self.net.tap_read(Ok(&frame)),
                        (None, None) => self.net.tap_read(Err(Some(libc::EAGAIN))),
                    }
                }
                Request::Consume {
                    limiter,
                    tokens,
                    kind,
                } => {
                    let granted = self.net.rate_limiter_mut(limiter).consume(tokens, kind);
                    self.net.consumed(granted);
                }
                Request::Pop(Direction::Rx) => {
                    let chain = self.rxq.pop();
                    self.net.popped(chain.as_ref());
                }
                Request::Pop(Direction::Tx) => {
                    let chain = self.txq.pop();
                    self.net.popped(chain.as_ref());
                }
                Request::AddUsed { queue, index, len } => {
                    let queue = match queue {
                        Direction::Rx => &mut self.rxq,
                        Direction::Tx => &mut self.txq,
                    };
                    let added = match queue.refuse_used {
                        None => {
                            queue.used.push((index, len));
                            Ok(())
                        }
                        Some(e) => Err(e),
                    };
                    self.net.used_added(added);
                }
                Request::DetourFrame => {
                    let frame = frame_bytes_from_buf(self.net.tx_frame()).unwrap().to_vec();
                    let accepted = self.net.mmds_ns_mut().unwrap().detour_frame(&frame);
                    self.net.detoured(accepted);
                }
                Request::WriteTap => {
                    let frame = self.net.tx_frame().to_vec();
                    let tap = self.net.tap_mut();
                    let written = !tap.refuse_writes;
                    if written {
                        tap.sent.push(frame);
                    }
                    self.net.tap_written(written);
                }
                Request::Signal => {
                    self.interrupt_status |= VIRTIO_MMIO_INT_VRING;
                    if self.refuse_interrupts {
                        self.net.signaled(Err(Some(5)));
                    } else {
                        self.interrupt_evt += 1;
                        self.net.signaled(Ok(()));
                    }
                }
            }
        }
    }

    fn simulate_event(&mut self, event: NetEvent) {
        self.requests.clear();
        let rx_blocked = self.net.rate_limiter_mut(Direction::Rx).blocked;
        let tx_blocked = self.net.rate_limiter_mut(Direction::Tx).blocked;
        match event {
            NetEvent::RxQueue => {
                let event_read = self.rxq.event;
                self.rxq.event = false;
                self.net.process_rx_queue_event(event_read, rx_blocked);
            }
            NetEvent::TxQueue => {
                let event_read = self.txq.event;
                self.txq.event = false;
                self.net.process_tx_queue_event(event_read, tx_blocked);
            }
            NetEvent::Tap => {
                let empty = self.rxq.next_avail == self.rxq.avail.len();
                self.net.process_tap_rx_event(empty, rx_blocked);
            }
            NetEvent::RxRateLimiter => {
                let handled = self.net.rate_limiter_mut(Direction::Rx).event_handler();
                self.net.process_rx_rate_limiter_event(handled);
            }
            NetEvent::TxRateLimiter => {
                let handled = self.net.rate_limiter_mut(Direction::Tx).event_handler();
                self.net.process_tx_rate_limiter_event(handled);
            }
        }
        self.run();
    }

    /// Handles whatever is pending, as an event loop would.
    fn run_events(&mut self) {
        if self.rxq.event {
            self.simulate_event(NetEvent::RxQueue);
        }
        if self.txq.event {
            self.simulate_event(NetEvent::TxQueue);
        }
        if !self.net.tap_mut().incoming.is_empty() {
            self.simulate_event(NetEvent::Tap);
        }
    }

    fn check_used_queue_signal(&mut self, expected: u64) {
        assert_eq!(self.interrupt_evt, expected);
        self.interrupt_evt = 0;
    }

    fn inject_tap_tx_frame(&mut self, len: usize) -> Vec<u8> {
        let mut frame: Vec<u8> = (0..len).map(|i| (i * 31 + len) as u8).collect();
        init_vnet_hdr(&mut frame);
        let queued = TapRead::Frame(frame.clone());
        self.net.tap_mut().incoming.push_back(queued);
        frame
    }

    /// From now on the tap has the same frame at every read.
    fn mock_tap_frame(&mut self, len: usize) -> Vec<u8> {
        let frame: Vec<u8> = (0..len).map(|i| b'a' + (i % 26) as u8).collect();
        self.net.tap_mut().mock_frame = Some(frame.clone());
        frame
    }

    /// Puts a frame of `len` bytes into the buffers of `list`.
    fn write_tx_frame(&mut self, list: &[(u16, u32, u16)], len: usize) -> Vec<u8> {
        let mut frame: Vec<u8> = (0..len).map(|i| (i * 17 + 3) as u8).collect();
        init_vnet_hdr(&mut frame);
        let mut rest = &frame[..];
        for &(index, desc_len, _) in list {
            let n = rest.len().min(desc_len as usize);
            self.mem
                .write_slice(&rest[..n], GuestAddress(self.txq.table[index as usize].0))
                .unwrap();
            rest = &rest[n..];
        }
        frame
    }

    fn check_rx_deferred_frame(&mut self, len: usize) -> Vec<u8> {
        let used = self.rxq.used.len();
        let packets = self.metric(Metric::RxPacketsCount);
        let frame = self.inject_tap_tx_frame(len);
        self.run_events();
        assert_eq!(self.metric(Metric::RxPacketsCount), packets);
        // The frame has been deferred, and the descriptor chain discarded.
        assert!(self.net.rx_deferred_frame());
        assert_eq!(self.rxq.used.len(), used + 1);
        self.check_used_queue_signal(1);
        frame
    }

    fn check_rx_queue_resume(&mut self, frame: &[u8]) {
        let used = self.rxq.used.len();
        let packets = self.metric(Metric::RxPacketsCount);
        self.add_desc_chain(
            NetQueue::Rx,
            0,
            &[(0, frame.len() as u32, VIRTQ_DESC_F_WRITE)],
        );
        self.run_events();
        assert_eq!(self.metric(Metric::RxPacketsCount), packets + 1);
        assert_eq!(self.rxq.used.len(), used + 1);
        self.check_used_queue_signal(1);
        self.rxq.check_used_elem(used, 0, frame.len() as u32);
        self.rxq.check_data(&self.mem, 0, frame);
        assert!(!self.net.rx_deferred_frame());
    }
}

fn create_arp_request(src_mac: [u8; 6], src_ip: [u8; 4], dst_mac: [u8; 6], dst_ip: [u8; 4]) -> Vec<u8> {
    let mut frame = vec![0u8; vnet_hdr_len()];
    frame.extend_from_slice(&dst_mac);
    frame.extend_from_slice(&src_mac);
    frame.extend_from_slice(&[0x08, 0x06]);
    frame.extend_from_slice(&[0, 1, 8, 0, 6, 4, 0, 1]);
    frame.extend_from_slice(&src_mac);
    frame.extend_from_slice(&src_ip);
    frame.extend_from_slice(&[0; 6]);
    frame.extend_from_slice(&dst_ip);
    frame
}

/// Hands `frame` to the transmit queue as one buffer, and runs it.
fn transmit(th: &mut TestHelper, frame: &[u8]) {
    th.add_desc_chain(NetQueue::Tx, 0, &[(0, frame.len() as u32, 0)]);
    th.mem.write_slice(frame, GuestAddress(DATA_ADDR)).unwrap();
    th.simulate_event(NetEvent::TxQueue);
}

#[test]
fn test_vnet_helpers() {
    let mut frame_buf = vec![42u8; vnet_hdr_len() - 1];
    assert_eq!(
        format!("{:?}", frame_bytes_from_buf(&frame_buf)),
        "Err(VnetHeaderMissing)"
    );
    assert_eq!(
        format!("{:?}", frame_bytes_from_buf_mut(&mut frame_buf)),
        "Err(VnetHeaderMissing)"
    );

    let mut frame_buf: [u8; MAX_BUFFER_SIZE] = [42u8; MAX_BUFFER_SIZE];

    let vnet_hdr_len_ = 12;
    assert_eq!(vnet_hdr_len_, vnet_hdr_len());

    init_vnet_hdr(&mut frame_buf);
    let zero_vnet_hdr = vec![0u8; vnet_hdr_len_];
    assert_eq!(zero_vnet_hdr, &frame_buf[..vnet_hdr_len_]);

    let payload = vec![42u8; MAX_BUFFER_SIZE - vnet_hdr_len_];
    assert_eq!(payload, frame_bytes_from_buf(&frame_buf).unwrap());

    {
        let payload = frame_bytes_from_buf_mut(&mut frame_buf).unwrap();
        payload[0] = 15;
    }
    assert_eq!(frame_buf[vnet_hdr_len_], 15);
}

#[test]
fn test_virtio_device_type() {
    let net = default_net();
    assert_eq!(net.device_type(), TYPE_NET);
}

#[test]
fn test_virtio_device_features() {
    let mut net = default_net();

    let features: u64 = 1 << VIRTIO_NET_F_GUEST_CSUM
        | 1 << VIRTIO_NET_F_CSUM
        | 1 << VIRTIO_NET_F_GUEST_TSO4
        | 1 << VIRTIO_NET_F_MAC
        | 1 << VIRTIO_NET_F_GUEST_UFO
        | 1 << VIRTIO_NET_F_HOST_TSO4
        | 1 << VIRTIO_NET_F_HOST_UFO
        | 1 << VIRTIO_F_VERSION_1;

    assert_eq!(net.avail_features_by_page(0), features as u32);
    assert_eq!(net.avail_features_by_page(1), (features >> 32) as u32);
    for i in 2..10 {
        assert_eq!(net.avail_features_by_page(i), 0u32);
    }

    for i in 0..10 {
        net.ack_features_by_page(i, std::u32::MAX);
    }

    assert_eq!(net.acked_features(), features);
}

#[test]
fn test_virtio_device_read_config() {
    let net = default_net();

    // This also validates that the MAC was properly configured.
    let mac = MacAddr::from_bytes_unchecked(&GUEST_MAC);
    let mut config_mac = [0u8; MAC_ADDR_LEN];
    net.read_config(0, &mut config_mac);
    assert_eq!(config_mac, mac.get_bytes());

    // Invalid read.
    config_mac = [0u8; MAC_ADDR_LEN];
    net.read_config(MAC_ADDR_LEN as u64 + 1, &mut config_mac);
    assert_eq!(config_mac, [0u8, 0u8, 0u8, 0u8, 0u8, 0u8]);
}

#[test]
fn test_virtio_device_rewrite_config() {
    let mut th = TestHelper::default();

    let new_config: [u8; 6] = [0x66, 0x55, 0x44, 0x33, 0x22, 0x11];
    th.net.write_config(0, &new_config);
    let mut new_config_read = [0u8; 6];
    th.net.read_config(0, &mut new_config_read);
    assert_eq!(new_config, new_config_read);

    // Check that the guest MAC was updated.
    let expected_guest_mac = MacAddr::from_bytes_unchecked(&new_config);
    assert_eq!(expected_guest_mac, *th.net.guest_mac().unwrap());
    th.carry_out();
    assert_eq!(th.metric(Metric::MacAddressUpdates), 1);

    // Partial write (this is how the kernel sets a new mac address) - byte by byte.
    let new_config = [0x11, 0x22, 0x33, 0x44, 0x55, 0x66];
    for i in 0..new_config.len() {
        th.net.write_config(i as u64, &new_config[i..=i]);
    }
    th.net.read_config(0, &mut new_config_read);
    assert_eq!(new_config, new_config_read);

    // Invalid write.
    th.net.write_config(5, &new_config);
    // Verify old config was untouched.
    new_config_read = [0u8; 6];
    th.net.read_config(0, &mut new_config_read);
    assert_eq!(new_config, new_config_read);
    th.carry_out();
    assert_eq!(th.metric(Metric::MacAddressUpdates), 7);
    assert_eq!(th.metric(Metric::CfgFails), 1);
}

#[test]
fn test_rx_missing_queue_signal() {
    let mut th = TestHelper::default();
    th.activate_net();

    th.add_desc_chain(NetQueue::Rx, 0, &[(0, 4096, VIRTQ_DESC_F_WRITE)]);
    th.rxq.event = false;
    th.simulate_event(NetEvent::RxQueue);
    assert_eq!(th.metric(Metric::EventFails), 1);

    // Check that the used queue didn't advance.
    assert_eq!(th.rxq.used.len(), 0);
}

#[test]
fn test_rx_read_only_descriptor() {
    let mut th = TestHelper::default();
    th.activate_net();

    th.add_desc_chain(
        NetQueue::Rx,
        0,
        &[
            (0, 100, VIRTQ_DESC_F_WRITE),
            (1, 100, 0),
            (2, 1000, VIRTQ_DESC_F_WRITE),
        ],
    );
    let frame = th.check_rx_deferred_frame(1000);
    th.rxq.check_used_elem(0, 0, 0);

    th.check_rx_queue_resume(&frame);
}

#[test]
fn test_rx_short_writable_descriptor() {
    let mut th = TestHelper::default();
    th.activate_net();

    th.add_desc_chain(NetQueue::Rx, 0, &[(0, 100, VIRTQ_DESC_F_WRITE)]);
    let frame = th.check_rx_deferred_frame(1000);
    th.rxq.check_used_elem(0, 0, 0);

    th.check_rx_queue_resume(&frame);
}

#[test]
fn test_rx_partial_write() {
    let mut th = TestHelper::default();
    th.activate_net();

    // The descriptor chain is created so that the last descriptor doesn't fit in the
    // guest memory.
    let offset = th.mem.last_addr().raw_value() - DATA_ADDR - 300;
    th.add_desc_chain(
        NetQueue::Rx,
        offset,
        &[
            (0, 100, VIRTQ_DESC_F_WRITE),
            (1, 50, VIRTQ_DESC_F_WRITE),
            (2, 4096, VIRTQ_DESC_F_WRITE),
        ],
    );
    let frame = th.check_rx_deferred_frame(1000);
    th.rxq.check_used_elem(0, 0, 0);
    assert_eq!(th.metric(Metric::RxPartialWrites), 1);

    th.check_rx_queue_resume(&frame);
}

#[test]
fn test_rx_retry() {
    let mut th = TestHelper::default();
    th.activate_net();

    // Add invalid descriptor chain - read only descriptor.
    th.add_desc_chain(
        NetQueue::Rx,
        0,
        &[
            (0, 100, VIRTQ_DESC_F_WRITE),
            (1, 100, 0),
            (2, 1000, VIRTQ_DESC_F_WRITE),
        ],
    );
    // Add invalid descriptor chain - too short.
    th.add_desc_chain(NetQueue::Rx, 1200, &[(3, 100, VIRTQ_DESC_F_WRITE)]);
    // Add invalid descriptor chain - invalid memory offset.
    th.add_desc_chain(
        NetQueue::Rx,
        th.mem.last_addr().raw_value(),
        &[(4, 1000, VIRTQ_DESC_F_WRITE)],
    );

    // Add valid descriptor chain.
    th.add_desc_chain(NetQueue::Rx, 1300, &[(5, 1000, VIRTQ_DESC_F_WRITE)]);

    // Inject frame to tap and run the events.
    let frame = th.inject_tap_tx_frame(1000);
    th.run_events();
    assert_eq!(th.metric(Metric::RxPacketsCount), 1);

    // Check that the used queue has advanced.
    assert_eq!(th.rxq.used.len(), 4);
    th.check_used_queue_signal(1);
    // Check that the invalid descriptor chains have been discarded
    th.rxq.check_used_elem(0, 0, 0);
    th.rxq.check_used_elem(1, 3, 0);
    th.rxq.check_used_elem(2, 4, 0);
    // Check that the frame wasn't deferred.
    assert!(!th.net.rx_deferred_frame());
    // Check that the frame has been written successfully to the valid Rx descriptor chain.
    th.rxq.check_used_elem(3, 5, frame.len() as u32);
    th.rxq.check_data(&th.mem, 5, &frame);
}

#[test]
fn test_rx_complex_desc_chain() {
    let mut th = TestHelper::default();
    th.activate_net();

    // Create a valid Rx avail descriptor chain with multiple descriptors.
    th.add_desc_chain(
        NetQueue::Rx,
        0,
        // Add gaps between the descriptor ids in order to ensure that we follow
        // the `next` field.
        &[
            (3, 100, VIRTQ_DESC_F_WRITE),
            (5, 50, VIRTQ_DESC_F_WRITE),
            (11, 4096, VIRTQ_DESC_F_WRITE),
        ],
    );
    // Inject frame to tap and run the events.
    let frame = th.inject_tap_tx_frame(1000);
    th.run_events();
    assert_eq!(th.metric(Metric::RxPacketsCount), 1);

    // Check that the frame wasn't deferred.
    assert!(!th.net.rx_deferred_frame());
    // Check that the used queue has advanced.
    assert_eq!(th.rxq.used.len(), 1);
    th.check_used_queue_signal(1);
    // Check that the frame has been written successfully to the Rx descriptor chain.
    th.rxq.check_used_elem(0, 3, frame.len() as u32);
    th.rxq.check_data(&th.mem, 3, &frame[..100]);
    th.rxq.check_data(&th.mem, 5, &frame[100..150]);
    th.rxq.check_data(&th.mem, 11, &frame[150..]);
}

#[test]
fn test_rx_multiple_frames() {
    let mut th = TestHelper::default();
    th.activate_net();

    // Create 2 valid Rx avail descriptor chains. Each one has enough space to fit the
    // following 2 frames. But only 1 frame has to be written to each chain.
    th.add_desc_chain(
        NetQueue::Rx,
        0,
        &[(0, 500, VIRTQ_DESC_F_WRITE), (1, 500, VIRTQ_DESC_F_WRITE)],
    );
    th.add_desc_chain(
        NetQueue::Rx,
        1000,
        &[(2, 500, VIRTQ_DESC_F_WRITE), (3, 500, VIRTQ_DESC_F_WRITE)],
    );
    // Inject 2 frames to tap and run the events.
    let frame_1 = th.inject_tap_tx_frame(200);
    let frame_2 = th.inject_tap_tx_frame(300);
    th.run_events();
    assert_eq!(th.metric(Metric::RxPacketsCount), 2);

    // Check that the frames weren't deferred.
    assert!(!th.net.rx_deferred_frame());
    // Check that the used queue has advanced.
    assert_eq!(th.rxq.used.len(), 2);
    th.check_used_queue_signal(1);
    // Check that the 1st frame was written successfully to the 1st Rx descriptor chain.
    th.rxq.check_used_elem(0, 0, frame_1.len() as u32);
    th.rxq.check_data(&th.mem, 0, &frame_1);
    th.rxq.check_data(&th.mem, 1, &[0; 500]);
    // Check that the 2nd frame was written successfully to the 2nd Rx descriptor chain.
    th.rxq.check_used_elem(1, 2, frame_2.len() as u32);
    th.rxq.check_data(&th.mem, 2, &frame_2);
    th.rxq.check_data(&th.mem, 3, &[0; 500]);
}

#[test]
fn test_tx_missing_queue_signal() {
    let mut th = TestHelper::default();
    th.activate_net();

    th.add_desc_chain(NetQueue::Tx, 0, &[(0, 4096, 0)]);
    th.txq.event = false;
    th.simulate_event(NetEvent::TxQueue);
    assert_eq!(th.metric(Metric::EventFails), 1);

    // Check that the used queue didn't advance.
    assert_eq!(th.txq.used.len(), 0);
    // Check that the frame wasn't sent to the tap.
    assert!(th.net.tap_mut().sent.is_empty());
}

#[test]
fn test_tx_writeable_descriptor() {
    let mut th = TestHelper::default();
    th.activate_net();

    let desc_list = [(0, 100, 0), (1, 100, VIRTQ_DESC_F_WRITE), (2, 500, 0)];
    th.add_desc_chain(NetQueue::Tx, 0, &desc_list);
    th.write_tx_frame(&desc_list, 700);
    th.run_events();

    // Check that the used queue advanced.
    assert_eq!(th.txq.used.len(), 1);
    th.check_used_queue_signal(1);
    th.txq.check_used_elem(0, 0, 0);
    // Check that the frame was skipped.
    assert!(th.net.tap_mut().sent.is_empty());
}

#[test]
fn test_tx_short_frame() {
    let mut th = TestHelper::default();
    th.activate_net();

    // Send an invalid frame (too small, VNET header missing).
    th.add_desc_chain(NetQueue::Tx, 0, &[(0, 1, 0)]);
    th.run_events();
    assert_eq!(th.metric(Metric::TxMalformedFrames), 1);

    // Check that the used queue advanced.
    assert_eq!(th.txq.used.len(), 1);
    th.check_used_queue_signal(1);
    th.txq.check_used_elem(0, 0, 0);
    // Check that the frame was skipped.
    assert!(th.net.tap_mut().sent.is_empty());
}

#[test]
fn test_tx_partial_read() {
    let mut th = TestHelper::default();
    th.activate_net();

    // The descriptor chain is created so that the last descriptor doesn't fit in the
    // guest memory.
    let offset = th.mem.last_addr().raw_value() + 1 - DATA_ADDR - 300;
    let desc_list = [(0, 100, 0), (1, 50, 0), (2, 4096, 0)];
    th.add_desc_chain(NetQueue::Tx, offset, &desc_list);
    let expected_len = (150 + th.mem.last_addr().raw_value() + 1 - th.txq.table[2].0) as usize;
    th.write_tx_frame(&desc_list, expected_len);
    th.run_events();
    assert_eq!(th.metric(Metric::TxPartialReads), 1);

    // Check that the used queue advanced.
    assert_eq!(th.txq.used.len(), 1);
    th.check_used_queue_signal(1);
    th.txq.check_used_elem(0, 0, 0);
    // Check that the frame was skipped.
    assert!(th.net.tap_mut().sent.is_empty());
}

#[test]
fn test_tx_retry() {
    let mut th = TestHelper::default();
    th.activate_net();

    // Add invalid descriptor chain - writeable descriptor.
    th.add_desc_chain(
        NetQueue::Tx,
        0,
        &[(0, 100, 0), (1, 100, VIRTQ_DESC_F_WRITE), (2, 500, 0)],
    );
    // Add invalid descriptor chain - invalid memory.
    th.add_desc_chain(
        NetQueue::Tx,
        th.mem.last_addr().raw_value(),
        &[(3, 100, 0)],
    );
    // Add invalid descriptor chain - too short.
    th.add_desc_chain(NetQueue::Tx, 700, &[(0, 1, 0)]);

    // Add valid descriptor chain
    let desc_list = [(4, 1000, 0)];
    th.add_desc_chain(NetQueue::Tx, 0, &desc_list);
    let frame = th.write_tx_frame(&desc_list, 1000);

    th.run_events();
    assert_eq!(th.metric(Metric::TxMalformedFrames), 3);

    // Check that the used queue advanced.
    assert_eq!(th.txq.used.len(), 4);
    th.check_used_queue_signal(1);
    th.txq.check_used_elem(3, 4, 0);
    // Check that the valid frame was sent to the tap, and no other.
    assert_eq!(th.net.tap_mut().sent, vec![frame]);
}

#[test]
fn test_tx_complex_descriptor() {
    let mut th = TestHelper::default();
    th.activate_net();

    // Add gaps between the descriptor ids in order to ensure that we follow
    // the `next` field.
    let desc_list = [(3, 100, 0), (5, 50, 0), (11, 850, 0)];
    th.add_desc_chain(NetQueue::Tx, 0, &desc_list);
    let frame = th.write_tx_frame(&desc_list, 1000);

    th.run_events();
    assert_eq!(th.metric(Metric::TxPacketsCount), 1);

    // Check that the used queue advanced.
    assert_eq!(th.txq.used.len(), 1);
    th.check_used_queue_signal(1);
    th.txq.check_used_elem(0, 3, 0);
    // Check that the frame was sent to the tap.
    assert_eq!(&th.net.tap_mut().sent[0][..1000], &frame[..1000]);
}

#[test]
fn test_tx_multiple_frame() {
    let mut th = TestHelper::default();
    th.activate_net();

    // Write the first frame to the Tx queue
    let desc_list = [(0, 50, 0), (1, 100, 0), (2, 150, 0)];
    th.add_desc_chain(NetQueue::Tx, 0, &desc_list);
    let frame_1 = th.write_tx_frame(&desc_list, 300);
    // Write the second frame to the Tx queue
    let desc_list = [(3, 100, 0), (4, 200, 0), (5, 300, 0)];
    th.add_desc_chain(NetQueue::Tx, 500, &desc_list);
    let frame_2 = th.write_tx_frame(&desc_list, 600);

    th.run_events();
    assert_eq!(th.metric(Metric::TxPacketsCount), 2);

    // Check that the used queue advanced.
    assert_eq!(th.txq.used.len(), 2);
    th.check_used_queue_signal(1);
    th.txq.check_used_elem(0, 0, 0);
    th.txq.check_used_elem(1, 3, 0);
    // Check that the frames were sent to the tap, in order.
    assert_eq!(&th.net.tap_mut().sent[0][..300], &frame_1[..300]);
    assert_eq!(&th.net.tap_mut().sent[1][..600], &frame_2[..600]);
    assert_eq!(th.net.tap_mut().sent.len(), 2);
}

#[test]
fn test_mmds_detour_and_injection() {
    let mut th = TestHelper::default();
    th.activate_net();

    let src_mac = [0x11; 6];
    let src_ip = [10, 1, 2, 3];
    let dst_mac = [0x22; 6];
    let dst_ip = [169, 254, 169, 254];

    let frame = create_arp_request(src_mac, src_ip, dst_mac, dst_ip);

    // Validate the frame was consumed by MMDS and that the metrics reflect that.
    transmit(&mut th, &frame);
    assert_eq!(th.metric(Metric::MmdsRxAccepted), 1);
    assert!(th.net.tap_mut().sent.is_empty());
    let offered = th.net.mmds_ns_mut().unwrap().offered.clone();
    assert_eq!(offered, vec![frame[vnet_hdr_len()..].to_vec()]);

    // Validate that MMDS has a response and that it was retrieved.
    assert_eq!(th.metric(Metric::MmdsTxFrames), 1);
    assert_eq!(th.metric(Metric::MmdsTxBytes), 42);
    // There is no receive buffer yet; with one, the response arrives behind an empty header.
    assert!(th.net.rx_deferred_frame());
    let mut response = vec![0u8; vnet_hdr_len()];
    response.extend_from_slice(&[0xab; 42]);
    th.interrupt_evt = 0;
    th.check_rx_queue_resume(&response);
}

#[test]
fn test_mac_spoofing_detection() {
    let guest_mac = [0x11; 6];
    let not_guest_mac = [0x33; 6];
    let guest_ip = [10, 1, 2, 3];
    let dst_mac = [0x22; 6];
    let dst_ip = [10, 1, 1, 1];

    let frame = create_arp_request(guest_mac, guest_ip, dst_mac, dst_ip);

    // Check that a legit MAC doesn't affect the spoofed MAC metric.
    let mut th = TestHelper::default();
    th.activate_net();
    th.net.write_config(0, &guest_mac);
    transmit(&mut th, &frame);
    assert_eq!(th.metric(Metric::TxSpoofedMacCount), 0);

    // Check that a spoofed MAC increases our spoofed MAC metric.
    th.net.write_config(0, &not_guest_mac);
    transmit(&mut th, &frame);
    assert_eq!(th.metric(Metric::TxSpoofedMacCount), 1);
    // It is sent all the same.
    assert_eq!(th.net.tap_mut().sent, vec![frame.clone(), frame]);
}

#[test]
fn test_process_error_cases() {
    let mut th = TestHelper::default();
    th.activate_net();

    // RX rate limiter events should error since the limiter is not blocked.
    // Validate that the event failed and failure was properly accounted for.
    th.simulate_event(NetEvent::RxRateLimiter);
    assert_eq!(th.metric(Metric::EventFails), 1);

    // TX rate limiter events should error since the limiter is not blocked.
    // Validate that the event failed and failure was properly accounted for.
    th.simulate_event(NetEvent::TxRateLimiter);
    assert_eq!(th.metric(Metric::EventFails), 2);
}

#[test]
fn test_read_tap_fail_event_handler() {
    let mut th = TestHelper::default();
    th.activate_net();

    // An empty frame is deferred, as the RX queue is empty.
    th.net
        .tap_mut()
        .incoming
        .push_back(TapRead::Frame(Vec::new()));
    th.simulate_event(NetEvent::Tap);
    assert!(th.net.rx_deferred_frame());
    th.net
        .tap_mut()
        .incoming
        .push_back(TapRead::Failure(None));

    // The RX queue is empty and a frame is deferred.
    th.metrics.clear();
    th.simulate_event(NetEvent::Tap);
    assert_eq!(th.metric(Metric::NoRxAvailBuffer), 1);

    // Fake an avail buffer; this time, tap reading should error out.
    th.rxq.avail.push(0);
    th.simulate_event(NetEvent::Tap);
    assert_eq!(th.metric(Metric::TapReadFails), 1);
    assert_eq!(th.reports, vec![DeviceError::FailedReadTap]);
}

#[test]
fn test_rx_rate_limiter_handling() {
    let mut th = TestHelper::default();
    th.activate_net();

    *th.net.rate_limiter_mut(Direction::Rx) = Limiter::new((0, 0, 0), (0, 0, 0));
    // There is no actual event on the rate limiter's timerfd.
    th.simulate_event(NetEvent::RxRateLimiter);
    assert_eq!(th.metric(Metric::EventFails), 1);
}

#[test]
fn test_tx_rate_limiter_handling() {
    let mut th = TestHelper::default();
    th.activate_net();

    *th.net.rate_limiter_mut(Direction::Tx) = Limiter::new((0, 0, 0), (0, 0, 0));
    th.simulate_event(NetEvent::TxRateLimiter);
    // There is no actual event on the rate limiter's timerfd.
    let fails = th.metric(Metric::EventFails);
    th.simulate_event(NetEvent::TxRateLimiter);
    assert_eq!(th.metric(Metric::EventFails), fails + 1);
}

#[test]
fn test_bandwidth_rate_limiter() {
    let mut th = TestHelper::default();
    th.activate_net();

    // Test TX bandwidth rate limiting
    {
        // create bandwidth rate limiter that allows 40960 bytes/s with bucket size 4096 bytes
        let mut rl = Limiter::new((0x1000, 0, 100), (0, 0, 0));
        // use up the budget
        assert!(rl.consume(0x1000, TokenType::Bytes));

        // set this tx rate limiter to be used
        *th.net.rate_limiter_mut(Direction::Tx) = rl;

        // following TX procedure should fail because of bandwidth rate limiting
        th.add_desc_chain(NetQueue::Tx, 0, &[(0, 4096, 0)]);
        th.simulate_event(NetEvent::TxQueue);

        // assert that limiter is blocked
        assert!(th.net.rate_limiter_mut(Direction::Tx).blocked);
        assert_eq!(th.metric(Metric::TxRateLimiterThrottled), 1);
        // make sure the data is still queued for processing
        assert_eq!(th.txq.used.len(), 0);
        assert_eq!(th.txq.next_avail, 0);

        // the timer gives the budget back
        th.net.rate_limiter_mut(Direction::Tx).refill();

        // following TX procedure should succeed because bandwidth should now be available:
        // tx_count increments 1 from reading the frame and 1 from writing it to the tap
        let count = th.metric(Metric::TxCount);
        th.simulate_event(NetEvent::TxRateLimiter);
        assert_eq!(th.metric(Metric::TxCount), count + 2);
        // validate the rate_limiter is no longer blocked
        assert!(!th.net.rate_limiter_mut(Direction::Tx).blocked);
        // make sure the data queue advanced
        assert_eq!(th.txq.used.len(), 1);
    }

    // Test RX bandwidth rate limiting
    {
        // create bandwidth rate limiter that allows 40960 bytes/s with bucket size 4096 bytes
        let mut rl = Limiter::new((0x1000, 0, 100), (0, 0, 0));
        // use up the budget
        assert!(rl.consume(0x1000, TokenType::Bytes));

        // set this rx rate limiter to be used
        *th.net.rate_limiter_mut(Direction::Rx) = rl;

        // set up RX
        assert!(!th.net.rx_deferred_frame());
        th.add_desc_chain(NetQueue::Rx, 0, &[(0, 4096, VIRTQ_DESC_F_WRITE)]);
        let frame = th.mock_tap_frame(1234);

        // following RX procedure should fail because of bandwidth rate limiting
        th.simulate_event(NetEvent::Tap);

        // assert that limiter is blocked
        assert!(th.net.rate_limiter_mut(Direction::Rx).blocked);
        assert_eq!(th.metric(Metric::RxRateLimiterThrottled), 1);
        assert!(th.net.rx_deferred_frame());
        // assert that no operation actually completed (the signal is that of the TX part)
        th.check_used_queue_signal(1);
        // make sure the data is still queued for processing
        assert_eq!(th.rxq.used.len(), 0);

        // the timer gives the budget back
        th.net.rate_limiter_mut(Direction::Rx).refill();

        // following RX procedure should succeed because bandwidth should now be available:
        // no longer throttled
        th.simulate_event(NetEvent::RxRateLimiter);
        assert_eq!(th.metric(Metric::RxRateLimiterThrottled), 1);
        // validate the rate_limiter is no longer blocked
        assert!(!th.net.rate_limiter_mut(Direction::Rx).blocked);
        // make sure the virtio queue operation completed this time
        th.check_used_queue_signal(1);
        // make sure the data queue advanced
        assert_eq!(th.rxq.used.len(), 1);
        th.rxq.check_used_elem(0, 0, frame.len() as u32);
        th.rxq.check_data(&th.mem, 0, &frame);
    }
}

#[test]
fn test_ops_rate_limiter() {
    let mut th = TestHelper::default();
    th.activate_net();

    // Test TX ops rate limiting
    {
        // create ops rate limiter that allows 10 ops/s with bucket size 1 ops
        let mut rl = Limiter::new((0, 0, 0), (1, 0, 100));
        // use up the budget
        assert!(rl.consume(1, TokenType::Ops));

        // set this tx rate limiter to be used
        *th.net.rate_limiter_mut(Direction::Tx) = rl;

        // following TX procedure should fail because of ops rate limiting
        th.add_desc_chain(NetQueue::Tx, 0, &[(0, 4096, 0)]);
        th.simulate_event(NetEvent::TxQueue);
        assert_eq!(th.metric(Metric::TxRateLimiterThrottled), 1);

        // assert that limiter is blocked
        assert!(th.net.rate_limiter_mut(Direction::Tx).blocked);
        // make sure the data is still queued for processing
        assert_eq!(th.txq.used.len(), 0);
        assert_eq!(th.txq.next_avail, 0);

        // the timer gives the budget back
        th.net.rate_limiter_mut(Direction::Tx).refill();

        // following TX procedure should succeed because ops should now be available:
        // no longer throttled
        th.simulate_event(NetEvent::TxRateLimiter);
        assert_eq!(th.metric(Metric::TxRateLimiterThrottled), 1);
        // validate the rate_limiter is no longer blocked
        assert!(!th.net.rate_limiter_mut(Direction::Tx).blocked);
        // make sure the data queue advanced
        assert_eq!(th.txq.used.len(), 1);
    }

    // Test RX ops rate limiting
    {
        // create ops rate limiter that allows 10 ops/s with bucket size 1 ops
        let mut rl = Limiter::new((0, 0, 0), (1, 0, 100));
        // use up the initial budget
        assert!(rl.consume(1, TokenType::Ops));

        // set this rx rate limiter to be used
        *th.net.rate_limiter_mut(Direction::Rx) = rl;

        // set up RX
        assert!(!th.net.rx_deferred_frame());
        th.add_desc_chain(NetQueue::Rx, 0, &[(0, 4096, VIRTQ_DESC_F_WRITE)]);
        let frame = th.mock_tap_frame(1234);

        // following RX procedure should fail because of ops rate limiting
        th.simulate_event(NetEvent::Tap);
        assert_eq!(th.metric(Metric::RxRateLimiterThrottled), 1);

        // assert that limiter is blocked
        assert!(th.net.rate_limiter_mut(Direction::Rx).blocked);
        assert!(th.net.rx_deferred_frame());
        // assert that no operation actually completed (the signal is that of the TX part)
        th.check_used_queue_signal(1);
        // make sure the data is still queued for processing
        assert_eq!(th.rxq.used.len(), 0);

        // trigger the RX handler again, this time it should do the limiter fast path exit
        th.simulate_event(NetEvent::Tap);
        // assert that no operation actually completed, that the limiter blocked it
        th.check_used_queue_signal(0);
        // make sure the data is still queued for processing
        assert_eq!(th.rxq.used.len(), 0);

        // the timer gives the budget back
        th.net.rate_limiter_mut(Direction::Rx).refill();

        // following RX procedure should succeed because ops should now be available
        th.simulate_event(NetEvent::RxRateLimiter);
        // make sure the virtio queue operation completed this time
        th.check_used_queue_signal(1);
        // make sure the data queue advanced
        assert_eq!(th.rxq.used.len(), 1);
        th.rxq.check_used_elem(0, 0, frame.len() as u32);
        th.rxq.check_data(&th.mem, 0, &frame);
    }
}

#[test]
fn test_patch_rate_limiters() {
    let mut th = TestHelper::default();
    th.activate_net();

    *th.net.rate_limiter_mut(Direction::Rx) = Limiter::new((10, 0, 10), (2, 0, 2));
    *th.net.rate_limiter_mut(Direction::Tx) = Limiter::new((10, 0, 10), (2, 0, 2));

    let params = |capacity, one_time_burst, refill_time_ms| TokenBucket {
        capacity,
        one_time_burst,
        refill_time_ms,
    };
    let rx_bytes = params(1000, 1001, 1002);
    let rx_ops = params(1003, 1004, 1005);
    let tx_bytes = params(1006, 1007, 1008);
    let tx_ops = params(1009, 1010, 1011);

    th.net.patch_rate_limiters(
        BucketUpdate::Update(rx_bytes),
        BucketUpdate::Update(rx_ops),
        BucketUpdate::Update(tx_bytes),
        BucketUpdate::Update(tx_ops),
    );
    th.carry_out();
    let rx = th.net.rate_limiter_mut(Direction::Rx);
    assert_eq!(rx.bytes.unwrap().params, rx_bytes);
    assert_eq!(rx.ops.unwrap().params, rx_ops);
    let tx = th.net.rate_limiter_mut(Direction::Tx);
    assert_eq!(tx.bytes.unwrap().params, tx_bytes);
    assert_eq!(tx.ops.unwrap().params, tx_ops);

    th.net.patch_rate_limiters(
        BucketUpdate::Disabled,
        BucketUpdate::Disabled,
        BucketUpdate::Disabled,
        BucketUpdate::Disabled,
    );
    th.carry_out();
    assert!(th.net.rate_limiter_mut(Direction::Rx).bytes.is_none());
    assert!(th.net.rate_limiter_mut(Direction::Rx).ops.is_none());
    assert!(th.net.rate_limiter_mut(Direction::Tx).bytes.is_none());
    assert!(th.net.rate_limiter_mut(Direction::Tx).ops.is_none());
}

#[test]
fn test_virtio_device() {
    let mut th = TestHelper::default();
    th.activate_net();

    // Test queues count (TX and RX).
    let queues = th.net.queues();
    assert_eq!(queues.len(), NUM_QUEUES);
    assert_eq!(queues[RX_INDEX].size, th.rxq.table.len() as u16);
    assert_eq!(queues[TX_INDEX].size, th.txq.table.len() as u16);
    assert_eq!(queues[RX_INDEX].max_size, QUEUE_SIZE);

    // Test interrupts.
    th.interrupt_status |= VIRTIO_MMIO_INT_VRING;
    assert_eq!(th.interrupt_status, VIRTIO_MMIO_INT_VRING);

    th.check_used_queue_signal(0);
}

// Beyond these, the corners of the device.

#[test]
fn activation_needs_its_event() {
    let mut net = default_net();
    let mem = GuestMemoryMmap::from_ranges(&[(GuestAddress(0), 4096)]).unwrap();
    assert_eq!(
        net.activate(mem.clone(), false),
        Err(ActivateError::BadActivate)
    );
    assert!(!net.is_activated());
    assert!(net.memory().is_none());
    assert_eq!(net.activate(mem, true), Ok(()));
    assert!(net.is_activated());
    assert_eq!(net.memory().unwrap().last_addr().raw_value(), 4095);
    assert_eq!(net.id(), "net0");
    assert_eq!(net.tap_mut().if_name_as_string(), "tap0");
}

#[test]
fn fd_device_without_address() {
    let mut net: Net<Tap, Limiter, Mmds> = Net::new_with_fd(
        "fd".to_string(),
        Tap::default(),
        None,
        Limiter::default(),
        Limiter::default(),
        None,
    );
    assert_eq!(
        net.avail_features(),
        1 << VIRTIO_NET_F_GUEST_CSUM
            | 1 << VIRTIO_NET_F_GUEST_TSO4
            | 1 << VIRTIO_NET_F_GUEST_UFO
            | 1 << VIRTIO_F_VERSION_1
    );
    assert_eq!(net.avail_features(), 0x1_0000_0482);
    assert!(net.guest_mac().is_none());
    assert!(net.mmds_ns_mut().is_none());
    let mut config = [7u8; 6];
    assert_eq!(net.read_config(0, &mut config), None);
    assert_eq!(config, [0; 6]);
    net.set_acked_features(0x80);
    assert_eq!(net.acked_features(), 0x80);
}

#[test]
fn config_reads_at_the_edges() {
    let net = default_net();
    let mut data = [0xff; 4];
    assert_eq!(net.read_config(4, &mut data), None);
    assert_eq!(data, [0x55, 0x66, 0xff, 0xff]);
    let failure = net.read_config(6, &mut data);
    let cfg_fails = Effect::Count {
        metric: Metric::CfgFails,
        by: 1,
    };
    assert_eq!(failure, Some(cfg_fails));
    assert_eq!(data, [0x55, 0x66, 0xff, 0xff]);
}

#[test]
fn refused_used_ring_defers_the_received_frame() {
    let mut th = TestHelper::default();
    th.activate_net();
    th.add_desc_chain(NetQueue::Rx, 0, &[(0, 4096, VIRTQ_DESC_F_WRITE)]);
    th.rxq.event = false;
    th.rxq.refuse_used = Some(QueueError::DescIndexOutOfBounds(0));
    let mut rl = Limiter::new((5000, 0, 100), (3, 0, 100));
    assert!(rl.consume(500, TokenType::Bytes));
    *th.net.rate_limiter_mut(Direction::Rx) = rl;
    let frame = th.inject_tap_tx_frame(700);
    th.run_events();
    assert!(th.net.rx_deferred_frame());
    assert_eq!(th.metric(Metric::RxPacketsCount), 0);
    // What was taken for the frame is back.
    let rl = th.net.rate_limiter_mut(Direction::Rx);
    assert_eq!(rl.bytes.unwrap().budget, 4500);
    assert_eq!(rl.ops.unwrap().budget, 3);
    // With a working ring the frame arrives, and is paid for.
    th.rxq.refuse_used = None;
    th.check_rx_queue_resume(&frame);
    let rl = th.net.rate_limiter_mut(Direction::Rx);
    assert_eq!(rl.bytes.unwrap().budget, 3800);
    assert_eq!(rl.ops.unwrap().budget, 2);
}

#[test]
fn refused_used_ring_ends_the_transmit_pass() {
    let mut th = TestHelper::default();
    th.activate_net();
    let error = QueueError::UsedRing(GuestError::InvalidGuestAddress);
    th.txq.refuse_used = Some(error);
    let frame = create_arp_request([1; 6], [10, 0, 0, 1], [2; 6], [10, 0, 0, 2]);
    transmit(&mut th, &frame);
    assert_eq!(th.reports, vec![DeviceError::QueueError(error)]);
    assert_eq!(th.interrupt_evt, 0);
    assert_eq!(th.requests.last(), Some(&Request::Nothing));
}

#[test]
fn failed_interrupt_is_reported_and_owed() {
    let mut th = TestHelper::default();
    th.activate_net();
    th.refuse_interrupts = true;
    th.add_desc_chain(NetQueue::Rx, 0, &[(0, 4096, VIRTQ_DESC_F_WRITE)]);
    th.rxq.event = false;
    th.inject_tap_tx_frame(100);
    th.run_events();
    let error = DeviceError::FailedSignalingUsedQueue(Some(5));
    assert_eq!(th.reports, vec![error]);
    assert_eq!(th.metric(Metric::EventFails), 1);
    assert_eq!(th.rxq.used.len(), 1);
    // The next receive pass makes up for it, though it has nothing to deliver.
    th.refuse_interrupts = false;
    th.simulate_event(NetEvent::Tap);
    th.check_used_queue_signal(1);
}

#[test]
fn failed_transmit_interrupt_ends_the_pass() {
    let mut th = TestHelper::default();
    th.activate_net();
    th.refuse_interrupts = true;
    let frame = create_arp_request([1; 6], [10, 0, 0, 1], [2; 6], MMDS_IP);
    transmit(&mut th, &frame);
    let error = DeviceError::FailedSignalingUsedQueue(Some(5));
    assert_eq!(th.reports, vec![error]);
    // The metadata service's answer is not fetched.
    assert_eq!(th.metric(Metric::MmdsTxFrames), 0);
}

#[test]
fn no_more_chains_are_tried_than_the_queue_has_entries() {
    let mut th = TestHelper::default();
    th.activate_net();
    th.net.queues_mut()[RX_INDEX].size = 2;
    for i in 0..5 {
        th.add_desc_chain(NetQueue::Rx, 100 * u64::from(i), &[(i, 10, VIRTQ_DESC_F_WRITE)]);
    }
    th.rxq.event = false;
    th.inject_tap_tx_frame(500);
    th.run_events();
    assert_eq!(th.rxq.used, vec![(0, 0), (1, 0)]);
    assert_eq!(th.metric(Metric::RxFails), 2);
    assert!(th.net.rx_deferred_frame());
    // A queue without entries is not tried at all.
    th.net.queues_mut()[RX_INDEX].size = 0;
    th.simulate_event(NetEvent::Tap);
    assert_eq!(th.rxq.used.len(), 2);
    assert!(th.net.rx_deferred_frame());
}

#[test]
fn nothing_is_read_while_a_frame_is_deferred() {
    let mut th = TestHelper::with(new_net(false));
    th.activate_net();
    let first = th.inject_tap_tx_frame(60);
    let second = th.inject_tap_tx_frame(61);
    th.simulate_event(NetEvent::Tap);
    assert!(th.net.rx_deferred_frame());
    assert_eq!(th.net.tap_mut().incoming.len(), 1);
    assert_eq!(th.metric(Metric::NoRxAvailBuffer), 1);
    th.simulate_event(NetEvent::Tap);
    assert_eq!(th.net.tap_mut().incoming.len(), 1);
    th.add_desc_chain(NetQueue::Rx, 0, &[(0, 100, VIRTQ_DESC_F_WRITE)]);
    th.add_desc_chain(NetQueue::Rx, 200, &[(1, 100, VIRTQ_DESC_F_WRITE)]);
    th.simulate_event(NetEvent::RxQueue);
    th.rxq.check_data(&th.mem, 0, &first);
    th.rxq.check_data(&th.mem, 1, &second);
    assert_eq!(th.metric(Metric::RxBytesCount), 121);
    assert_eq!(th.metric(Metric::RxPacketsCount), 2);
    th.check_used_queue_signal(1);
}

#[test]
fn metadata_frames_are_not_charged() {
    let mut th = TestHelper::default();
    th.activate_net();
    *th.net.rate_limiter_mut(Direction::Tx) = Limiter::new((1000, 0, 100), (5, 0, 100));
    let to_mmds = create_arp_request([1; 6], [10, 0, 0, 1], [2; 6], MMDS_IP);
    transmit(&mut th, &to_mmds);
    let rl = th.net.rate_limiter_mut(Direction::Tx);
    assert_eq!(rl.bytes.unwrap().budget, 1000);
    assert_eq!(rl.ops.unwrap().budget, 5);
    let to_host = create_arp_request([1; 6], [10, 0, 0, 1], [2; 6], [10, 0, 0, 2]);
    transmit(&mut th, &to_host);
    let rl = th.net.rate_limiter_mut(Direction::Tx);
    assert_eq!(rl.bytes.unwrap().budget, 1000 - to_host.len() as u64);
    assert_eq!(rl.ops.unwrap().budget, 4);
}

#[test]
fn chain_with_a_writeable_buffer_is_charged_up_to_it() {
    let mut th = TestHelper::default();
    th.activate_net();
    *th.net.rate_limiter_mut(Direction::Tx) = Limiter::new((1000, 0, 100), (5, 0, 100));
    let list = [(0, 100, 0), (1, 100, VIRTQ_DESC_F_WRITE), (2, 500, 0)];
    th.add_desc_chain(NetQueue::Tx, 0, &list);
    th.simulate_event(NetEvent::TxQueue);
    let rl = th.net.rate_limiter_mut(Direction::Tx);
    assert_eq!(rl.bytes.unwrap().budget, 900);
    assert_eq!(th.metric(Metric::TxMalformedFrames), 1);
}

#[test]
fn refused_bytes_give_the_operation_back() {
    let mut th = TestHelper::default();
    th.activate_net();
    *th.net.rate_limiter_mut(Direction::Tx) = Limiter::new((10, 0, 100), (5, 0, 100));
    th.add_desc_chain(NetQueue::Tx, 0, &[(0, 64, 0)]);
    th.simulate_event(NetEvent::TxQueue);
    assert_eq!(
        th.net
            .rate_limiter_mut(Direction::Tx)
            .ops
            .unwrap()
            .budget,
        5
    );
    assert_eq!(th.txq.next_avail, 0);
    assert_eq!(th.metric(Metric::NoTxAvailBuffer), 1);
    // Blocked, the event is not even looked at.
    th.txq.event = true;
    th.simulate_event(NetEvent::TxQueue);
    assert_eq!(th.metric(Metric::TxRateLimiterThrottled), 2);
    assert_eq!(th.requests, vec![Request::Nothing]);
}

#[test]
fn frames_longer_than_the_buffer_are_cut() {
    let mut th = TestHelper::with(new_net(false));
    th.activate_net();
    th.txq.table[0] = (0, 60000, 0, Some(1));
    th.txq.table[1] = (0, 60000, 0, Some(2));
    th.txq.table[2] = (16, 60000, 0, None);
    th.txq.avail.push(0);
    th.txq.event = true;
    th.simulate_event(NetEvent::TxQueue);
    assert_eq!(th.net.tap_mut().sent[0].len(), MAX_BUFFER_SIZE);
    assert_eq!(th.metric(Metric::TxBytesCount), MAX_BUFFER_SIZE as u64);
    // One for each buffer, the empty one too, and one for the tap.
    assert_eq!(th.metric(Metric::TxCount), 4);
}

#[test]
fn headerless_frame_goes_to_the_tap_of_a_device_without_address_and_metadata() {
    let mut th = TestHelper::with(Net::new_with_fd(
        "fd".to_string(),
        Tap::default(),
        None,
        Limiter::default(),
        Limiter::default(),
        None,
    ));
    th.activate_net();
    th.add_desc_chain(NetQueue::Tx, 0, &[(0, 3, 0)]);
    th.simulate_event(NetEvent::TxQueue);
    assert_eq!(th.net.tap_mut().sent, vec![vec![0u8; 3]]);
    assert_eq!(th.metric(Metric::TxMalformedFrames), 0);
}

#[test]
fn short_ethernet_frame_has_no_source_to_check() {
    let mut th = TestHelper::with(new_net(false));
    th.activate_net();
    transmit(&mut th, &vec![0u8; vnet_hdr_len() + 13]);
    assert_eq!(th.metric(Metric::TxSpoofedMacCount), 0);
    transmit(&mut th, &vec![0u8; vnet_hdr_len() + 14]);
    assert_eq!(th.metric(Metric::TxSpoofedMacCount), 1);
    assert_eq!(th.net.tap_mut().sent.len(), 2);
}

#[test]
fn failed_tap_write_is_counted_and_the_chain_given_back() {
    let mut th = TestHelper::default();
    th.activate_net();
    th.net.tap_mut().refuse_writes = true;
    let frame = create_arp_request([1; 6], [10, 0, 0, 1], [2; 6], [10, 0, 0, 2]);
    transmit(&mut th, &frame);
    assert_eq!(th.metric(Metric::TapWriteFails), 1);
    assert_eq!(th.metric(Metric::TxPacketsCount), 0);
    th.txq.check_used_elem(0, 0, 0);
    th.check_used_queue_signal(1);
}

#[test]
fn tap_errors_other_than_blocking_end_the_pass() {
    let mut th = TestHelper::default();
    th.activate_net();
    th.net
        .tap_mut()
        .incoming
        .push_back(TapRead::Failure(Some(libc::EAGAIN)));
    th.simulate_event(NetEvent::Tap);
    assert!(th.reports.is_empty());
    assert_eq!(th.metric(Metric::TapReadFails), 0);
    th.net
        .tap_mut()
        .incoming
        .push_back(TapRead::Failure(Some(libc::EIO)));
    th.simulate_event(NetEvent::Tap);
    assert_eq!(th.reports, vec![DeviceError::FailedReadTap]);
    assert_eq!(th.metric(Metric::TapReadFails), 1);
}

#[test]
fn metadata_frames_go_before_those_of_the_tap() {
    let mut th = TestHelper::default();
    th.activate_net();
    th.net
        .mmds_ns_mut()
        .unwrap()
        .answers
        .push_back(vec![9u8; 20]);
    th.inject_tap_tx_frame(50);
    th.add_desc_chain(NetQueue::Rx, 0, &[(0, 100, VIRTQ_DESC_F_WRITE)]);
    th.add_desc_chain(NetQueue::Rx, 200, &[(1, 100, VIRTQ_DESC_F_WRITE)]);
    th.simulate_event(NetEvent::Tap);
    assert_eq!(th.rxq.used, vec![(0, 32), (1, 50)]);
    let mut expected = vec![0u8; 12];
    expected.extend_from_slice(&[9u8; 20]);
    th.rxq.check_data(&th.mem, 0, &expected);
}

#[test]
fn device_works_on_the_memory_of_its_last_activation() {
    let mut net = default_net();
    let first = GuestMemoryMmap::from_ranges(&[(GuestAddress(0), 4096)]).unwrap();
    let second = GuestMemoryMmap::from_ranges(&[(GuestAddress(0), 4096)]).unwrap();
    first.write_slice(&[1], GuestAddress(7)).unwrap();
    second.write_slice(&[2], GuestAddress(7)).unwrap();
    let byte = |net: &Net<Tap, Limiter, Mmds>| {
        let mut b = [0u8];
        net.memory()
            .unwrap()
            .read_slice(&mut b, GuestAddress(7))
            .unwrap();
        b[0]
    };
    assert_eq!(net.activate(first, true), Ok(()));
    assert_eq!(byte(&net), 1);
    assert_eq!(
        net.activate(second.clone(), false),
        Err(ActivateError::BadActivate)
    );
    assert_eq!(byte(&net), 1);
    assert_eq!(net.activate(second, true), Ok(()));
    assert_eq!(byte(&net), 2);
}

#[test]
fn address_written_later_is_shown_but_its_feature_is_not_offered() {
    let mut net: Net<Tap, Limiter, Mmds> = Net::new_with_tap(
        "tap".to_string(),
        Tap::default(),
        None,
        Limiter::default(),
        Limiter::default(),
        None,
    );
    assert_eq!(net.avail_features() & 1 << VIRTIO_NET_F_MAC, 0);
    let mut config = [7u8; 6];
    assert_eq!(net.read_config(0, &mut config), None);
    assert_eq!(config, [0; 6]);
    net.write_config(2, &[9]);
    assert_eq!(net.guest_mac().unwrap().get_bytes(), &[0, 0, 9, 0, 0, 0]);
    assert_eq!(net.read_config(0, &mut config), None);
    assert_eq!(config, [0, 0, 9, 0, 0, 0]);
    assert_eq!(net.avail_features() & 1 << VIRTIO_NET_F_MAC, 0);
}

#[test]
fn frames_are_delivered_in_the_order_read() {
    let mut th = TestHelper::default();
    th.activate_net();
    let first = th.inject_tap_tx_frame(60);
    th.run_events();
    assert!(th.net.rx_deferred_frame());
    let second = th.inject_tap_tx_frame(61);
    let third = th.inject_tap_tx_frame(62);
    // The first chain is too small, and is passed over.
    th.add_desc_chain(NetQueue::Rx, 0, &[(0, 20, VIRTQ_DESC_F_WRITE)]);
    th.add_desc_chain(NetQueue::Rx, 200, &[(1, 100, VIRTQ_DESC_F_WRITE)]);
    th.add_desc_chain(NetQueue::Rx, 400, &[(2, 100, VIRTQ_DESC_F_WRITE)]);
    th.simulate_event(NetEvent::RxQueue);
    assert_eq!(th.rxq.used, vec![(0, 0), (1, 60), (2, 61)]);
    th.rxq.check_data(&th.mem, 1, &first);
    th.rxq.check_data(&th.mem, 2, &second);
    // The third waits until there is a buffer again.
    assert!(th.net.rx_deferred_frame());
    th.interrupt_evt = 0;
    th.check_rx_queue_resume(&third);
}

#[test]
fn frames_are_sent_in_the_order_gathered() {
    let mut th = TestHelper::default();
    th.activate_net();
    let to_host = create_arp_request(GUEST_MAC, [10, 0, 0, 1], [2; 6], [10, 0, 0, 2]);
    let to_mmds = create_arp_request(GUEST_MAC, [10, 0, 0, 1], [2; 6], MMDS_IP);
    let other = create_arp_request(GUEST_MAC, [10, 0, 0, 1], [2; 6], [10, 0, 0, 3]);
    let len = to_host.len() as u32;
    for (i, frame) in [&to_host, &to_mmds, &other].iter().enumerate() {
        let offset = 1000 * i as u64;
        th.add_desc_chain(NetQueue::Tx, offset, &[(2 * i as u16, len, 0)]);
        th.mem
            .write_slice(frame, GuestAddress(DATA_ADDR + offset))
            .unwrap();
        // Followed by a frame without a header.
        th.add_desc_chain(NetQueue::Tx, offset + 500, &[(2 * i as u16 + 1, 3, 0)]);
    }
    th.simulate_event(NetEvent::TxQueue);
    let offered = th.net.mmds_ns_mut().unwrap().offered.clone();
    let all = [&to_host, &to_mmds, &other];
    let bare: Vec<Vec<u8>> = all.iter().map(|f| f[vnet_hdr_len()..].to_vec()).collect();
    assert_eq!(offered, bare);
    assert_eq!(th.net.tap_mut().sent, vec![to_host.clone(), other.clone()]);
    assert_eq!(th.metric(Metric::TxMalformedFrames), 3);
    let used: Vec<u16> = th.txq.used.iter().map(|u| u.0).collect();
    assert_eq!(used, vec![0, 1, 2, 3, 4, 5]);
}

#[test]
fn each_pass_asks_for_at_most_one_interrupt() {
    let signals = |th: &TestHelper| {
        th.requests
            .iter()
            .filter(|r| **r == Request::Signal)
            .count()
    };
    let mut th = TestHelper::default();
    th.activate_net();
    // Nothing was read or given back.
    th.simulate_event(NetEvent::Tap);
    assert_eq!(signals(&th), 0);
    th.simulate_event(NetEvent::TxRateLimiter);
    assert_eq!(signals(&th), 0);
    // Two frames, and a chain that is passed over.
    th.add_desc_chain(NetQueue::Rx, 0, &[(0, 1, VIRTQ_DESC_F_WRITE)]);
    th.add_desc_chain(NetQueue::Rx, 100, &[(1, 100, VIRTQ_DESC_F_WRITE)]);
    th.add_desc_chain(NetQueue::Rx, 300, &[(2, 100, VIRTQ_DESC_F_WRITE)]);
    th.inject_tap_tx_frame(40);
    th.inject_tap_tx_frame(41);
    th.simulate_event(NetEvent::Tap);
    assert_eq!(th.rxq.used.len(), 3);
    assert_eq!(signals(&th), 1);
    // A failed read leaves the interrupt to the next pass.
    th.add_desc_chain(NetQueue::Rx, 0, &[(3, 100, VIRTQ_DESC_F_WRITE)]);
    th.inject_tap_tx_frame(42);
    let failure = TapRead::Failure(Some(libc::EIO));
    th.net.tap_mut().incoming.push_back(failure);
    th.simulate_event(NetEvent::Tap);
    assert_eq!(signals(&th), 0);
    th.simulate_event(NetEvent::Tap);
    assert_eq!(signals(&th), 1);
    // A transmit pass, followed by a receive pass for the metadata service.
    th.add_desc_chain(NetQueue::Rx, 5000, &[(4, 100, VIRTQ_DESC_F_WRITE)]);
    let frame = create_arp_request(GUEST_MAC, [10, 0, 0, 1], [2; 6], MMDS_IP);
    transmit(&mut th, &frame);
    assert_eq!(th.rxq.used.last(), Some(&(4, 54)));
    assert_eq!(signals(&th), 2);
}
