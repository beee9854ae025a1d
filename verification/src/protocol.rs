//! What the device asks of its host, what it tells it, and how it moves from one request to the
//! next.
//!
//! The device never performs I/O. At each moment it either is idle or waits for the host to carry
//! out one [`Request`]. The answer moves it to its next [`Stage`] and appends [`Effect`]s, which
//! the host carries out in order before it turns to the next request.
use crate::config::{spoofs, MAX_BUFFER_SIZE};
use crate::guest::{
    capacity, gather_end, gather_reads, gather_result, joined, scatter_end, scatter_result,
    scatter_writes, share_reads, share_writes, shares_of, Descriptor, FrontendError, GuestError,
};
use crate::vnet::VNET_HDR_LEN;
use vstd::prelude::*;

verus! {

/// The error code of a tap read that would block.
pub const EAGAIN: i32 = 11;

/// One of the two directions of traffic, seen from the guest; each has a queue and a rate limiter.
#[derive(Debug, Clone, Copy, PartialEq, Eq, Structural)]
pub enum Direction {
    Rx,
    Tx,
}

/// What a rate limiter's bucket counts.
#[derive(Debug, Clone, Copy, PartialEq, Eq, Structural)]
pub enum TokenType {
    Bytes,
    Ops,
}

/// The parameters of a rate limiter's bucket.
#[derive(Debug, Clone, Copy, PartialEq, Eq, Structural)]
pub struct TokenBucket {
    pub capacity: u64,
    pub one_time_burst: u64,
    pub refill_time_ms: u64,
}

/// A change to one bucket of a rate limiter.
#[derive(Debug, Clone, Copy, PartialEq, Eq, Structural)]
pub enum BucketUpdate {
    Unchanged,
    Disabled,
    Update(TokenBucket),
}

/// The counters that the device moves. Those of the metadata service begin with `Mmds`.
#[derive(Debug, Clone, Copy, PartialEq, Eq, Structural)]
pub enum Metric {
    CfgFails,
    EventFails,
    MacAddressUpdates,
    MmdsRxAccepted,
    MmdsTxBytes,
    MmdsTxFrames,
    NoRxAvailBuffer,
    NoTxAvailBuffer,
    RxBytesCount,
    RxCount,
    RxEventRateLimiterCount,
    RxFails,
    RxPacketsCount,
    RxPartialWrites,
    RxQueueEventCount,
    RxRateLimiterThrottled,
    RxTapEventCount,
    TapReadFails,
    TapWriteFails,
    TxBytesCount,
    TxCount,
    TxMalformedFrames,
    TxPacketsCount,
    TxPartialReads,
    TxQueueEventCount,
    TxRateLimiterEventCount,
    TxRateLimiterThrottled,
    TxSpoofedMacCount,
}

/// Why a used ring did not take a descriptor chain back.
#[derive(Debug, Clone, Copy, PartialEq, Eq, Structural)]
pub enum QueueError {
    /// The queue has no descriptor with this index.
    DescIndexOutOfBounds(u16),
    /// The guest memory refused the entry of the used ring.
    UsedRing(GuestError),
}

/// Why the handling of an event was given up.
#[derive(Debug, Clone, Copy, PartialEq, Eq, Structural)]
pub enum DeviceError {
    /// The tap read failed, and not because it would block.
    FailedReadTap,
    /// The interrupt could not be raised; the OS error code, if there is one.
    FailedSignalingUsedQueue(Option<i32>),
    /// The transmit queue did not take a descriptor chain back.
    QueueError(QueueError),
}

/// Something that the host carries out for the device, and that the device needs no answer to.
#[derive(Debug, Clone, Copy, PartialEq, Eq, Structural)]
pub enum Effect {
    /// Add `by` to a counter.
    Count { metric: Metric, by: u64 },
    /// Give tokens back to a rate limiter.
    Replenish { limiter: Direction, tokens: u64, kind: TokenType },
    /// Put the descriptor chain popped last back at the head of the transmit queue.
    UndoPop,
    /// Report that the handling of an event failed.
    Report(DeviceError),
    /// Change the buckets of a rate limiter.
    UpdateBuckets { limiter: Direction, bytes: BucketUpdate, ops: BucketUpdate },
}

/// What the device waits for the host to do.
#[derive(Debug, Clone, Copy, PartialEq, Eq, Structural)]
pub enum Request {
    /// Nothing: the device is idle.
    Nothing,
    /// Take the next frame of the metadata service, if it has one.
    ReadMmdsFrame,
    /// Read a frame, with its virtio-net header, from the tap.
    ReadTap,
    /// Take tokens from a rate limiter.
    Consume { limiter: Direction, tokens: u64, kind: TokenType },
    /// Pop a descriptor chain from a queue.
    Pop(Direction),
    /// Give the descriptor chain with head `index` back through a queue's used ring.
    AddUsed { queue: Direction, index: u16, len: u32 },
    /// Offer the transmitted frame, without its virtio-net header, to the metadata service.
    DetourFrame,
    /// Write the transmitted frame, with its virtio-net header, to the tap.
    WriteTap,
    /// Set the used-ring bit of the interrupt status and raise the interrupt.
    Signal,
}

/// What a pass over the transmit queue has come to.
#[derive(Debug, Clone, Copy, PartialEq, Eq, Structural)]
pub struct TxRun {
    /// The metadata service has taken a frame, so it may have one to send.
    pub serve_mmds: bool,
    /// A descriptor chain has been given back, so the driver is owed an interrupt.
    pub raise_irq: bool,
}

/// Where the device stands in its work.
#[derive(Debug, Clone, Copy, PartialEq, Eq, Structural)]
pub enum Stage {
    Idle,
    /// Waits for a frame of the metadata service.
    RxMmds,
    /// Waits for a frame of the tap.
    RxTap,
    /// Has a frame to deliver; waits for one operation of the receive budget.
    RxOps,
    /// Waits for the frame's bytes of the receive budget.
    RxBytes,
    /// Waits for buffers; `left` chains may still be tried for the frame.
    RxPop { left: u16 },
    /// Has tried the chain with head `head`; waits for it to be given back.
    RxUsed { left: u16, head: u16, delivered: bool },
    /// Waits for the interrupt that ends a receive pass.
    RxSignal,
    /// Waits for a chain to transmit.
    TxPop { run: TxRun },
    /// Has a chain; waits for one operation of the transmit budget.
    TxOps { run: TxRun, head: u16, bytes: u64 },
    /// Waits for the chain's bytes of the transmit budget.
    TxBytes { run: TxRun, head: u16, bytes: u64 },
    /// Has offered the frame to the metadata service.
    TxDetour { run: TxRun, head: u16 },
    /// Has sent the frame to the tap.
    TxTap { run: TxRun, head: u16 },
    /// Is done with the chain; waits for it to be given back.
    TxUsed { run: TxRun, head: u16 },
    /// Waits for the interrupt that ends a transmit pass.
    TxSignal { run: TxRun },
}

/// The first write-only buffer of `descs` at or after `i`; their number if there is none.
pub open spec fn first_write_only(descs: Seq<Descriptor>, i: nat) -> nat
    decreases descs.len() - i,
{
    if i < descs.len() && !descs[i as int].write_only {
        first_write_only(descs, i + 1)
    } else {
        i
    }
}

/// The first write-only buffer is not past the end.
pub proof fn lemma_first_write_only_bound(descs: Seq<Descriptor>, i: nat)
    requires
        i <= descs.len(),
    ensures
        i <= first_write_only(descs, i) <= descs.len(),
    decreases descs.len() - i,
{
    if i < descs.len() && !descs[i as int].write_only {
        lemma_first_write_only_bound(descs, i + 1);
    }
}

/// The buffers that make up a transmitted frame: all of `descs`, or none if the device may not
/// read one of them.
pub open spec fn readable(descs: Seq<Descriptor>) -> Seq<Descriptor> {
    if first_write_only(descs, 0) == descs.len() {
        descs
    } else {
        Seq::empty()
    }
}

/// The bytes that transmitting `descs` is charged for: those before the first write-only buffer.
pub open spec fn charged(descs: Seq<Descriptor>) -> nat {
    capacity(descs, first_write_only(descs, 0))
}

/// `n` times the effect that adds one to `metric`.
pub open spec fn counts(metric: Metric, n: nat) -> Seq<Effect> {
    Seq::new(n, |i: int| Effect::Count { metric, by: 1 })
}

/// What is counted for the outcome of copying a received frame to the guest.
pub open spec fn scatter_failure(outcome: Result<(), FrontendError>) -> Seq<Effect> {
    match outcome {
        Err(FrontendError::GuestMemory(GuestError::PartialBuffer)) => counts(
            Metric::RxPartialWrites,
            1,
        ),
        Err(FrontendError::GuestMemory(_)) => counts(Metric::RxFails, 1),
        Err(FrontendError::DescriptorChainTooSmall) => counts(Metric::RxFails, 1),
        _ => Seq::empty(),
    }
}

/// What is counted for the outcome of reading a transmitted frame from the guest.
pub open spec fn gather_failure(outcome: Result<(), GuestError>) -> Seq<Effect> {
    match outcome {
        Ok(()) => Seq::empty(),
        Err(GuestError::PartialBuffer) => counts(Metric::TxPartialReads, 1),
        Err(_) => counts(Metric::RxFails, 1),
    }
}

/// An answer of the host, or of the guest memory on the host's behalf.
pub enum Reply {
    /// A frame of the metadata service, without a virtio-net header.
    MmdsFrame(Option<Seq<u8>>),
    /// A frame of the tap with its virtio-net header, or the OS error code if there is one.
    TapRead(Result<Seq<u8>, Option<i32>>),
    /// Whether the tokens were there; `reads` is what the guest memory then gave for each buffer
    /// of the frame, if there is one to transmit.
    Consumed { granted: bool, reads: Seq<Seq<u8>> },
    /// The head and the buffers of a descriptor chain.
    Popped(Option<(u16, Seq<Descriptor>)>),
    /// Whether a used ring took the descriptor chain back.
    UsedAdded(Result<(), QueueError>),
    Detoured(bool),
    TapWritten(bool),
    Signaled(Result<(), Option<i32>>),
}

/// The device, as far as it decides what happens to frames.
#[verifier::ext_equal]
pub struct NetView {
    pub stage: Stage,
    /// A frame was read and could not be delivered yet.
    pub rx_deferred_frame: bool,
    /// The driver has not been told yet of receive chains that were given back.
    pub rx_deferred_irqs: bool,
    /// The received frame, with its virtio-net header.
    pub rx_frame: Seq<u8>,
    /// The buffers of the frame that is being transmitted.
    pub tx_iovec: Seq<Descriptor>,
    /// The transmitted frame, with its virtio-net header.
    pub tx_frame: Seq<u8>,
    /// Everything that the host was told to do and has not fetched.
    pub effects: Seq<Effect>,
    /// The accesses made to guest memory.
    pub accesses: Seq<(bool, u64, Seq<u8>)>,
    /// The mapped guest addresses; `None` before activation.
    pub mapped: Option<Set<u64>>,
    /// Whether frames may be detoured to the metadata service.
    pub mmds: bool,
    /// The MAC address that the guest should send from.
    pub guest_mac: Option<Seq<u8>>,
    /// Number of entries of the receive queue.
    pub rx_queue_size: u16,
}

impl NetView {
    /// What the device waits for.
    pub open spec fn request(self) -> Request {
        let rx_len = self.rx_frame.len();
        match self.stage {
            Stage::Idle => Request::Nothing,
            Stage::RxMmds => Request::ReadMmdsFrame,
            Stage::RxTap => Request::ReadTap,
            Stage::RxOps => Request::Consume {
                limiter: Direction::Rx,
                tokens: 1,
                kind: TokenType::Ops,
            },
            Stage::RxBytes => Request::Consume {
                limiter: Direction::Rx,
                tokens: rx_len as u64,
                kind: TokenType::Bytes,
            },
            Stage::RxPop { .. } => Request::Pop(Direction::Rx),
            Stage::RxUsed { head, delivered, .. } => Request::AddUsed {
                queue: Direction::Rx,
                index: head,
                len: if delivered {
                    rx_len as u32
                } else {
                    0
                },
            },
            Stage::RxSignal => Request::Signal,
            Stage::TxPop { .. } => Request::Pop(Direction::Tx),
            Stage::TxOps { .. } => Request::Consume {
                limiter: Direction::Tx,
                tokens: 1,
                kind: TokenType::Ops,
            },
            Stage::TxBytes { bytes, .. } => Request::Consume {
                limiter: Direction::Tx,
                tokens: bytes,
                kind: TokenType::Bytes,
            },
            Stage::TxDetour { .. } => Request::DetourFrame,
            Stage::TxTap { .. } => Request::WriteTap,
            Stage::TxUsed { head, .. } => Request::AddUsed {
                queue: Direction::Tx,
                index: head,
                len: 0,
            },
            Stage::TxSignal { .. } => Request::Signal,
        }
    }

    /// What holds of the device at every moment.
    pub open spec fn wf(self) -> bool {
        &&& self.rx_frame.len() <= MAX_BUFFER_SIZE
        &&& self.tx_frame.len() <= MAX_BUFFER_SIZE
        &&& self.stage != Stage::Idle ==> self.mapped is Some
        &&& match self.stage {
            Stage::RxMmds => self.mmds && !self.rx_deferred_frame,
            Stage::RxTap => !self.rx_deferred_frame,
            Stage::RxPop { left } => left > 0,
            Stage::RxUsed { left, .. } => left > 0,
            Stage::TxOps { bytes, .. } | Stage::TxBytes { bytes, .. } => self.tx_iovec.len() > 0
                ==> bytes == capacity(self.tx_iovec, self.tx_iovec.len()),
            Stage::TxDetour { .. } => self.mmds && self.tx_frame.len() >= VNET_HDR_LEN,
            _ => true,
        }
        &&& match self.stage {
            Stage::TxPop { run }
            | Stage::TxOps { run, .. }
            | Stage::TxBytes { run, .. }
            | Stage::TxDetour { run, .. }
            | Stage::TxTap { run, .. }
            | Stage::TxUsed { run, .. }
            | Stage::TxSignal { run } => run.serve_mmds ==> self.mmds && !self.rx_deferred_frame,
            _ => true,
        }
    }

    pub open spec fn to(self, stage: Stage) -> NetView {
        NetView { stage, ..self }
    }

    pub open spec fn emit(self, effect: Effect) -> NetView {
        NetView { effects: self.effects.push(effect), ..self }
    }

    pub open spec fn emit_all(self, effects: Seq<Effect>) -> NetView {
        NetView { effects: self.effects + effects, ..self }
    }

    pub open spec fn count(self, metric: Metric) -> NetView {
        self.emit(Effect::Count { metric, by: 1 })
    }

    pub open spec fn replenish(
        self,
        limiter: Direction,
        tokens: nat,
        kind: TokenType,
    ) -> NetView {
        self.emit(Effect::Replenish { limiter, tokens: tokens as u64, kind })
    }

    /// The work ends; a failure is reported.
    pub open spec fn finish(self, result: Result<(), DeviceError>) -> NetView {
        match result {
            Ok(()) => self.to(Stage::Idle),
            Err(e) => self.emit(Effect::Report(e)).to(Stage::Idle),
        }
    }

    // The receive path.

    /// A receive pass looks for the next frame: those of the metadata service go first.
    pub open spec fn process_rx(self) -> NetView {
        self.to(
            if self.mmds {
                Stage::RxMmds
            } else {
                Stage::RxTap
            },
        )
    }

    pub open spec fn handle_deferred_frame(self) -> NetView {
        self.to(Stage::RxOps)
    }

    pub open spec fn resume_rx(self) -> NetView {
        if self.rx_deferred_frame {
            self.handle_deferred_frame()
        } else {
            self.finish(Ok(()))
        }
    }

    /// A receive pass ends: the driver is told if chains were given back.
    pub open spec fn signal_rx_used_queue(self) -> NetView {
        if self.rx_deferred_irqs {
            self.to(Stage::RxSignal)
        } else {
            self.finish(Ok(()))
        }
    }

    /// `frame` was read; it needs budget before it can be delivered.
    pub open spec fn frame_read(self, frame: Seq<u8>) -> NetView {
        NetView { rx_frame: frame, ..self }.count(Metric::RxCount).to(Stage::RxOps)
    }

    /// The metadata service gave `payload`, which goes behind an empty virtio-net header.
    pub open spec fn mmds_frame(self, payload: Option<Seq<u8>>) -> NetView {
        match payload {
            None => self.to(Stage::RxTap),
            Some(bytes) => self.count(Metric::MmdsTxFrames).emit(
                Effect::Count { metric: Metric::MmdsTxBytes, by: bytes.len() as u64 },
            ).frame_read(Seq::new(VNET_HDR_LEN as nat, |i: int| 0u8) + bytes),
        }
    }

    /// The tap gave a frame or an error. That it has no frame now ends the pass.
    pub open spec fn tap_read(self, read: Result<Seq<u8>, Option<i32>>) -> NetView {
        match read {
            Ok(frame) => self.frame_read(frame),
            Err(code) => if code == Some(EAGAIN) {
                self.signal_rx_used_queue()
            } else {
                self.count(Metric::TapReadFails).finish(Err(DeviceError::FailedReadTap))
            },
        }
    }

    /// The frame could not be delivered now: it is kept, and the pass ends.
    pub open spec fn frame_deferred(self) -> NetView {
        NetView { rx_deferred_frame: true, ..self }.signal_rx_used_queue()
    }

    /// The frame could not be delivered though there was budget for it, which is given back.
    pub open spec fn delivery_failed(self) -> NetView {
        self.replenish(Direction::Rx, 1, TokenType::Ops).replenish(
            Direction::Rx,
            self.rx_frame.len(),
            TokenType::Bytes,
        ).frame_deferred()
    }

    /// The frame is in the guest: the pass goes on.
    pub open spec fn frame_delivered(self) -> NetView {
        NetView { rx_deferred_frame: false, ..self }.process_rx()
    }

    pub open spec fn rx_ops_consumed(self, granted: bool) -> NetView {
        if granted {
            self.to(Stage::RxBytes)
        } else {
            self.count(Metric::RxRateLimiterThrottled).frame_deferred()
        }
    }

    pub open spec fn rx_bytes_consumed(self, granted: bool) -> NetView {
        if !granted {
            self.replenish(Direction::Rx, 1, TokenType::Ops).count(
                Metric::RxRateLimiterThrottled,
            ).frame_deferred()
        } else {
            self.write_frame_to_guest(self.rx_queue_size)
        }
    }

    /// Up to `left` chains are tried for the frame.
    pub open spec fn write_frame_to_guest(self, left: u16) -> NetView {
        if left == 0 {
            self.delivery_failed()
        } else {
            self.to(Stage::RxPop { left })
        }
    }

    /// The frame is copied to the chain `chain`, which is given back whatever comes of it.
    pub open spec fn rx_popped(
        self,
        left: u16,
        chain: Option<(u16, Seq<Descriptor>)>,
    ) -> NetView {
        match chain {
            None => self.count(Metric::NoRxAvailBuffer).delivery_failed(),
            Some((head, descs)) => {
                let mapped = self.mapped->0;
                let len = self.rx_frame.len();
                let outcome = scatter_result(mapped, descs, len);
                let writes = share_writes(
                    descs,
                    self.rx_frame,
                    scatter_writes(mapped, descs, len),
                );
                NetView { accesses: self.accesses + writes, ..self }.emit_all(
                    counts(Metric::RxCount, scatter_end(mapped, descs, len, 0)),
                ).emit_all(scatter_failure(outcome)).to(
                    Stage::RxUsed { left, head, delivered: outcome is Ok },
                )
            },
        }
    }

    /// The chain was given back, or the used ring refused it; a chain that did not take the frame
    /// is followed by the next.
    pub open spec fn rx_used_added(
        self,
        left: u16,
        delivered: bool,
        added: Result<(), QueueError>,
    ) -> NetView {
        if added is Err {
            self.delivery_failed()
        } else {
            let told = NetView { rx_deferred_irqs: true, ..self };
            if delivered {
                told.emit(
                    Effect::Count {
                        metric: Metric::RxBytesCount,
                        by: self.rx_frame.len() as u64,
                    },
                ).count(Metric::RxPacketsCount).frame_delivered()
            } else {
                told.write_frame_to_guest((left - 1) as u16)
            }
        }
    }

    /// The interrupt was raised, or it could not be.
    pub open spec fn rx_signaled(self, signal: Result<(), Option<i32>>) -> NetView {
        match signal {
            Ok(()) => NetView { rx_deferred_irqs: false, ..self }.finish(Ok(())),
            Err(code) => self.count(Metric::EventFails).finish(
                Err(DeviceError::FailedSignalingUsedQueue(code)),
            ),
        }
    }

    // The transmit path.

    pub open spec fn process_tx(self) -> NetView {
        self.to(Stage::TxPop { run: TxRun { serve_mmds: false, raise_irq: false } })
    }

    /// A chain came from the transmit queue, or none is left.
    pub open spec fn tx_popped(
        self,
        run: TxRun,
        chain: Option<(u16, Seq<Descriptor>)>,
    ) -> NetView {
        match chain {
            None => self.tx_queue_left(run),
            Some((head, descs)) => NetView { tx_iovec: readable(descs), ..self }.to(
                Stage::TxOps { run, head, bytes: charged(descs) as u64 },
            ),
        }
    }

    /// A transmit pass leaves the queue: the driver is told if chains were given back.
    pub open spec fn tx_queue_left(self, run: TxRun) -> NetView {
        if run.raise_irq {
            self.to(Stage::TxSignal { run })
        } else {
            self.count(Metric::NoTxAvailBuffer).tx_finish(run)
        }
    }

    /// A transmit pass ends; if the metadata service took a frame, a receive pass follows.
    pub open spec fn tx_finish(self, run: TxRun) -> NetView {
        if run.serve_mmds {
            self.process_rx()
        } else {
            self.finish(Ok(()))
        }
    }

    /// There is no budget for the chain: it goes back to the queue, and the pass ends.
    pub open spec fn tx_throttled(self, run: TxRun) -> NetView {
        self.emit(Effect::UndoPop).count(Metric::TxRateLimiterThrottled).tx_queue_left(run)
    }

    pub open spec fn tx_ops_consumed(
        self,
        run: TxRun,
        head: u16,
        bytes: u64,
        granted: bool,
    ) -> NetView {
        if granted {
            self.to(Stage::TxBytes { run, head, bytes })
        } else {
            self.tx_throttled(run)
        }
    }

    /// With budget for the chain, its frame is read from the guest, which gives `reads`.
    pub open spec fn tx_bytes_consumed(
        self,
        run: TxRun,
        head: u16,
        granted: bool,
        reads: Seq<Seq<u8>>,
    ) -> NetView {
        if !granted {
            self.replenish(Direction::Tx, 1, TokenType::Ops).tx_throttled(run)
        } else {
            self.tx_frame_read(reads).write_to_mmds_or_tap(run, head)
        }
    }

    /// `reads` is what the guest memory can give for the noted buffers.
    pub open spec fn reads_fit(self, reads: Seq<Seq<u8>>) -> bool {
        let limit = MAX_BUFFER_SIZE as nat;
        &&& reads.len() == gather_reads(self.mapped->0, self.tx_iovec, limit)
        &&& shares_of(reads, self.tx_iovec, limit)
    }

    /// The guest memory gave `reads` for the noted buffers; a frame that cannot be read is empty.
    pub open spec fn tx_frame_read(self, reads: Seq<Seq<u8>>) -> NetView {
        let mapped = self.mapped->0;
        let limit = MAX_BUFFER_SIZE as nat;
        let outcome = gather_result(mapped, self.tx_iovec, limit);
        NetView {
            tx_frame: if outcome is Ok {
                joined(reads, reads.len())
            } else {
                Seq::empty()
            },
            accesses: self.accesses + share_reads(self.tx_iovec, reads),
            ..self
        }.emit_all(
            counts(Metric::TxCount, gather_end(mapped, self.tx_iovec, limit, 0)),
        ).emit_all(gather_failure(outcome))
    }

    /// Where the transmitted frame goes: the metadata service sees it first.
    pub open spec fn write_to_mmds_or_tap(self, run: TxRun, head: u16) -> NetView {
        if !self.mmds {
            self.write_to_tap(run, head)
        } else if self.tx_frame.len() < VNET_HDR_LEN {
            self.tx_malformed(run, head)
        } else {
            self.to(Stage::TxDetour { run, head })
        }
    }

    /// The frame goes to the tap; that it names a wrong source address is counted.
    pub open spec fn write_to_tap(self, run: TxRun, head: u16) -> NetView {
        match self.guest_mac {
            None => self.to(Stage::TxTap { run, head }),
            Some(mac) => if self.tx_frame.len() < VNET_HDR_LEN {
                self.tx_malformed(run, head)
            } else if spoofs(self.tx_frame.skip(VNET_HDR_LEN as int), mac) {
                self.count(Metric::TxSpoofedMacCount).to(Stage::TxTap { run, head })
            } else {
                self.to(Stage::TxTap { run, head })
            },
        }
    }

    /// The frame has no complete virtio-net header, and goes nowhere.
    pub open spec fn tx_malformed(self, run: TxRun, head: u16) -> NetView {
        self.count(Metric::TxMalformedFrames).to(Stage::TxUsed { run, head })
    }

    /// The metadata service took the frame, which is then not charged to the guest, or left it to
    /// the tap.
    pub open spec fn detoured(self, run: TxRun, head: u16, accepted: bool) -> NetView {
        if accepted {
            self.count(Metric::MmdsRxAccepted).replenish(
                Direction::Tx,
                self.tx_frame.len(),
                TokenType::Bytes,
            ).replenish(Direction::Tx, 1, TokenType::Ops).to(
                Stage::TxUsed {
                    run: TxRun {
                        serve_mmds: run.serve_mmds || !self.rx_deferred_frame,
                        ..run
                    },
                    head,
                },
            )
        } else {
            self.write_to_tap(run, head)
        }
    }

    pub open spec fn tap_written(self, run: TxRun, head: u16, written: bool) -> NetView {
        (if written {
            self.emit(
                Effect::Count { metric: Metric::TxBytesCount, by: self.tx_frame.len() as u64 },
            ).count(Metric::TxPacketsCount).count(Metric::TxCount)
        } else {
            self.count(Metric::TapWriteFails)
        }).to(Stage::TxUsed { run, head })
    }

    pub open spec fn tx_used_added(self, run: TxRun, added: Result<(), QueueError>) -> NetView {
        match added {
            Ok(()) => self.to(Stage::TxPop { run: TxRun { raise_irq: true, ..run } }),
            Err(e) => self.finish(Err(DeviceError::QueueError(e))),
        }
    }

    pub open spec fn tx_signaled(self, run: TxRun, signal: Result<(), Option<i32>>) -> NetView {
        match signal {
            Ok(()) => NetView { rx_deferred_irqs: false, ..self }.tx_finish(run),
            Err(code) => self.count(Metric::EventFails).finish(
                Err(DeviceError::FailedSignalingUsedQueue(code)),
            ),
        }
    }

    // Answers.

    /// `reply` answers what the device waits for.
    pub open spec fn accepts(self, reply: Reply) -> bool {
        match reply {
            Reply::MmdsFrame(payload) => {
                &&& self.stage == Stage::RxMmds
                &&& payload matches Some(bytes) ==> 0 < bytes.len() <= MAX_BUFFER_SIZE
                    - VNET_HDR_LEN
            },
            Reply::TapRead(read) => {
                &&& self.stage == Stage::RxTap
                &&& read matches Ok(frame) ==> frame.len() <= MAX_BUFFER_SIZE
            },
            Reply::Consumed { granted, reads } => {
                &&& self.request() is Consume
                &&& (granted && self.stage is TxBytes) ==> self.reads_fit(reads)
                &&& !(granted && self.stage is TxBytes) ==> reads.len() == 0
            },
            Reply::Popped(chain) => {
                &&& self.request() is Pop
                &&& chain matches Some((_, descs)) ==> 0 < descs.len() <= u16::MAX
            },
            Reply::UsedAdded(_) => self.request() is AddUsed,
            Reply::Detoured(_) => self.request() is DetourFrame,
            Reply::TapWritten(_) => self.request() is WriteTap,
            Reply::Signaled(_) => self.request() is Signal,
        }
    }

    /// The device after the answer `reply`.
    pub open spec fn after(self, reply: Reply) -> NetView {
        match (reply, self.stage) {
            (Reply::MmdsFrame(payload), _) => self.mmds_frame(payload),
            (Reply::TapRead(read), _) => self.tap_read(read),
            (Reply::Consumed { granted, .. }, Stage::RxOps) => self.rx_ops_consumed(granted),
            (Reply::Consumed { granted, .. }, Stage::RxBytes) => self.rx_bytes_consumed(granted),
            (Reply::Consumed { granted, .. }, Stage::TxOps { run, head, bytes }) =>
                self.tx_ops_consumed(run, head, bytes, granted),
            (Reply::Consumed { granted, reads }, Stage::TxBytes { run, head, .. }) =>
                self.tx_bytes_consumed(run, head, granted, reads),
            (Reply::Popped(chain), Stage::RxPop { left }) => self.rx_popped(left, chain),
            (Reply::Popped(chain), Stage::TxPop { run }) => self.tx_popped(run, chain),
            (Reply::UsedAdded(added), Stage::RxUsed { left, delivered, .. }) =>
                self.rx_used_added(left, delivered, added),
            (Reply::UsedAdded(added), Stage::TxUsed { run, .. }) => self.tx_used_added(run, added),
            (Reply::Detoured(accepted), Stage::TxDetour { run, head }) =>
                self.detoured(run, head, accepted),
            (Reply::TapWritten(written), Stage::TxTap { run, head }) =>
                self.tap_written(run, head, written),
            (Reply::Signaled(signal), Stage::RxSignal) => self.rx_signaled(signal),
            (Reply::Signaled(signal), Stage::TxSignal { run }) => self.tx_signaled(run, signal),
            _ => self,
        }
    }

    // Events.

    /// The receive queue's event was read, or could not be.
    pub open spec fn process_rx_queue_event(self, event_read: bool, blocked: bool) -> NetView {
        let counted = self.count(Metric::RxQueueEventCount);
        if !event_read {
            counted.count(Metric::EventFails)
        } else if blocked {
            counted.count(Metric::RxRateLimiterThrottled)
        } else {
            counted.resume_rx()
        }
    }

    /// The tap has something to read.
    pub open spec fn process_tap_rx_event(self, queue_empty: bool, blocked: bool) -> NetView {
        let counted = self.count(Metric::RxTapEventCount);
        if queue_empty && self.rx_deferred_frame {
            counted.count(Metric::NoRxAvailBuffer)
        } else if blocked {
            counted.count(Metric::RxRateLimiterThrottled)
        } else if self.rx_deferred_frame {
            counted.handle_deferred_frame()
        } else {
            counted.process_rx()
        }
    }

    /// The transmit queue's event was read, or could not be.
    pub open spec fn process_tx_queue_event(self, event_read: bool, blocked: bool) -> NetView {
        let counted = self.count(Metric::TxQueueEventCount);
        if !event_read {
            counted.count(Metric::EventFails)
        } else if blocked {
            counted.count(Metric::TxRateLimiterThrottled)
        } else {
            counted.process_tx()
        }
    }

    /// The receive rate limiter's timer went off.
    pub open spec fn process_rx_rate_limiter_event(self, handled: bool) -> NetView {
        let counted = self.count(Metric::RxEventRateLimiterCount);
        if handled {
            counted.resume_rx()
        } else {
            counted.count(Metric::EventFails)
        }
    }

    /// The transmit rate limiter's timer went off.
    pub open spec fn process_tx_rate_limiter_event(self, handled: bool) -> NetView {
        let counted = self.count(Metric::TxRateLimiterEventCount);
        if handled {
            counted.process_tx()
        } else {
            counted.count(Metric::EventFails)
        }
    }
}

} // verus!
