//! What each event and each answer leads to, told by what the host sees: the effects that it has to
//! carry out, the request that comes next, the bytes that went to or came from guest memory.
use crate::config::{ETHERNET_HEADER_LEN, MAX_BUFFER_SIZE};
use crate::guest::{
    access_bytes, capacity, gather_end, gather_result, joined, scatter_end, scatter_result,
    scatter_writes, share, share_reads, share_writes, Descriptor, DescriptorChain, FrontendError,
    GuestError,
};
use crate::protocol::{
    DeviceError, Direction, Effect, Metric, NetView, QueueError, Reply, Request, Stage, TokenType,
    TxRun,
};
use crate::vnet::VNET_HDR_LEN;
use vstd::prelude::*;

verus! {

/// The effect that adds one to a counter.
pub open spec fn tick(metric: Metric) -> Effect {
    Effect::Count { metric, by: 1 }
}

/// The effect that gives tokens back.
pub open spec fn refund(limiter: Direction, tokens: nat, kind: TokenType) -> Effect {
    Effect::Replenish { limiter, tokens: tokens as u64, kind }
}

/// Telling the host something appends it to the effects and changes nothing else.
pub proof fn law_effects_are_appended(
    v: NetView,
    effect: Effect,
    more: Seq<Effect>,
    metric: Metric,
    limiter: Direction,
    tokens: nat,
    kind: TokenType,
)
    ensures
        v.emit(effect) == (NetView { effects: v.effects.push(effect), ..v }),
        v.emit_all(more) == (NetView { effects: v.effects + more, ..v }),
        v.count(metric) == (NetView {
            effects: v.effects.push(Effect::Count { metric, by: 1 }),
            ..v
        }),
        tick(metric) == (Effect::Count { metric, by: 1 }),
        refund(limiter, tokens, kind) == (Effect::Replenish {
            limiter,
            tokens: tokens as u64,
            kind,
        }),
{
}

/// What a device in each stage asks of its host.
pub proof fn law_requests(v: NetView)
    requires
        v.wf(),
    ensures
        match v.stage {
            Stage::Idle => v.request() == Request::Nothing,
            Stage::RxMmds => v.request() == Request::ReadMmdsFrame,
            Stage::RxTap => v.request() == Request::ReadTap,
            Stage::RxOps => v.request() matches Request::Consume {
                limiter: Direction::Rx,
                tokens,
                kind: TokenType::Ops,
            } && tokens == 1,
            Stage::RxBytes => v.request() matches Request::Consume {
                limiter: Direction::Rx,
                tokens,
                kind: TokenType::Bytes,
            } && tokens as nat == v.rx_frame.len(),
            Stage::RxPop { .. } => v.request() == Request::Pop(Direction::Rx),
            Stage::RxUsed { head, delivered, .. } => v.request() matches Request::AddUsed {
                queue: Direction::Rx,
                index,
                len,
            } && index == head && len as nat == if delivered {
                v.rx_frame.len()
            } else {
                0
            },
            Stage::RxSignal => v.request() == Request::Signal,
            Stage::TxPop { .. } => v.request() == Request::Pop(Direction::Tx),
            Stage::TxOps { .. } => v.request() matches Request::Consume {
                limiter: Direction::Tx,
                tokens,
                kind: TokenType::Ops,
            } && tokens == 1,
            Stage::TxBytes { bytes, .. } => v.request() matches Request::Consume {
                limiter: Direction::Tx,
                tokens,
                kind: TokenType::Bytes,
            } && tokens == bytes,
            Stage::TxDetour { .. } => v.request() == Request::DetourFrame,
            Stage::TxTap { .. } => v.request() == Request::WriteTap,
            Stage::TxUsed { head, .. } => v.request() matches Request::AddUsed {
                queue: Direction::Tx,
                index,
                len,
            } && index == head && len == 0,
            Stage::TxSignal { .. } => v.request() == Request::Signal,
        },
{
}

/// A device takes every answer to what it asked for, and no other: every frame that its buffer has
/// room for, every chain that a queue can hold, every outcome.
pub proof fn law_every_answer_is_taken(v: NetView, reply: Reply)
    requires
        v.wf(),
    ensures
        match reply {
            Reply::MmdsFrame(None) => v.accepts(reply) <==> v.stage == Stage::RxMmds,
            Reply::MmdsFrame(Some(bytes)) => v.accepts(reply) <==> v.stage == Stage::RxMmds && 0
                < bytes.len() && bytes.len() + VNET_HDR_LEN <= MAX_BUFFER_SIZE,
            Reply::TapRead(Ok(frame)) => v.accepts(reply) <==> v.stage == Stage::RxTap
                && frame.len() <= MAX_BUFFER_SIZE,
            Reply::TapRead(Err(_)) => v.accepts(reply) <==> v.stage == Stage::RxTap,
            Reply::Popped(None) => v.accepts(reply) <==> v.stage is RxPop || v.stage is TxPop,
            Reply::Popped(Some((_, descs))) => v.accepts(reply) <==> (v.stage is RxPop
                || v.stage is TxPop) && 0 < descs.len() <= 65535,
            Reply::UsedAdded(_) => v.accepts(reply) <==> v.stage is RxUsed || v.stage is TxUsed,
            Reply::Detoured(_) => v.accepts(reply) <==> v.stage is TxDetour,
            Reply::TapWritten(_) => v.accepts(reply) <==> v.stage is TxTap,
            Reply::Signaled(_) => v.accepts(reply) <==> v.stage is RxSignal || v.stage is TxSignal,
            Reply::Consumed { granted, reads } => {
                &&& !(granted && v.stage is TxBytes) ==> (v.accepts(reply) <==> (v.stage is RxOps
                    || v.stage is RxBytes || v.stage is TxOps || v.stage is TxBytes) && reads.len()
                    == 0)
                &&& granted && v.stage is TxBytes ==> (v.accepts(reply) <==> {
                    let end = gather_end(
                        v.mapped->0,
                        v.tx_iovec,
                        MAX_BUFFER_SIZE as nat,
                        0,
                    );
                    &&& reads.len() == if end == v.tx_iovec.len() {
                        end
                    } else {
                        end + 1
                    }
                    &&& forall|i: int|
                        0 <= i < reads.len() ==> (#[trigger] reads[i]).len() == share(
                            v.tx_iovec,
                            MAX_BUFFER_SIZE as nat,
                            i as nat,
                        )
                })
            },
        },
{
}

// Receiving.

/// The metadata service has a frame: it is received behind a header of zeros, and counted. It has
/// none: the tap is read.
pub proof fn law_mmds_frame_is_received(v: NetView, payload: Option<Seq<u8>>)
    requires
        v.wf(),
        v.accepts(Reply::MmdsFrame(payload)),
    ensures
        ({
            let w = v.after(Reply::MmdsFrame(payload));
            match payload {
                None => w == (NetView { stage: Stage::RxTap, ..v }),
                Some(bytes) => {
                    &&& w.rx_frame.len() == VNET_HDR_LEN + bytes.len()
                    &&& forall|i: int| 0 <= i < VNET_HDR_LEN ==> #[trigger] w.rx_frame[i] == 0
                    &&& forall|i: int|
                        0 <= i < bytes.len() ==> w.rx_frame[VNET_HDR_LEN + i] == #[trigger] bytes[i]
                    &&& w == (NetView {
                        stage: Stage::RxOps,
                        rx_frame: w.rx_frame,
                        effects: v.effects + seq![
                            tick(Metric::MmdsTxFrames),
                            Effect::Count {
                                metric: Metric::MmdsTxBytes,
                                by: bytes.len() as u64,
                            },
                            tick(Metric::RxCount),
                        ],
                        ..v
                    })
                },
            }
        }),
{
    if let Some(bytes) = payload {
        let w = v.after(Reply::MmdsFrame(payload));
        assert(w.effects =~= v.effects + seq![
            tick(Metric::MmdsTxFrames),
            Effect::Count { metric: Metric::MmdsTxBytes, by: bytes.len() as u64 },
            tick(Metric::RxCount),
        ]);
    }
}

/// The tap has a frame: it is received as it is. That a read would block ends the pass; any other
/// failure is counted and reported.
pub proof fn law_tap_frame_is_received(v: NetView, read: Result<Seq<u8>, Option<i32>>)
    requires
        v.wf(),
        v.accepts(Reply::TapRead(read)),
    ensures
        ({
            let w = v.after(Reply::TapRead(read));
            match read {
                Ok(frame) => w == (NetView {
                    stage: Stage::RxOps,
                    rx_frame: frame,
                    effects: v.effects + seq![tick(Metric::RxCount)],
                    ..v
                }),
                Err(code) => if code == Some(11i32) {
                    w == (NetView {
                        stage: if v.rx_deferred_irqs {
                            Stage::RxSignal
                        } else {
                            Stage::Idle
                        },
                        ..v
                    })
                } else {
                    w == (NetView {
                        stage: Stage::Idle,
                        effects: v.effects + seq![
                            tick(Metric::TapReadFails),
                            Effect::Report(DeviceError::FailedReadTap),
                        ],
                        ..v
                    })
                },
            }
        }),
{
    let w = v.after(Reply::TapRead(read));
    match read {
        Ok(_) => {
            assert(w.effects =~= v.effects + seq![tick(Metric::RxCount)]);
        },
        Err(code) => {
            if code != Some(11i32) {
                assert(w.effects =~= v.effects + seq![
                    tick(Metric::TapReadFails),
                    Effect::Report(DeviceError::FailedReadTap),
                ]);
            }
        },
    }
}

/// With an operation granted, the frame's bytes are asked for; with those granted too, a chain is
/// asked for whenever the receive queue has an entry. Without budget the frame is put off, and what
/// was taken is given back.
pub proof fn law_receive_budget(v: NetView, granted: bool)
    requires
        v.wf(),
        v.stage == Stage::RxOps || v.stage == Stage::RxBytes,
    ensures
        ({
            let w = v.after(Reply::Consumed { granted, reads: Seq::empty() });
            let ended = if v.rx_deferred_irqs {
                Stage::RxSignal
            } else {
                Stage::Idle
            };
            match (v.stage == Stage::RxBytes, granted) {
                (false, true) => w == (NetView { stage: Stage::RxBytes, ..v }),
                (false, false) => w == (NetView {
                    stage: ended,
                    rx_deferred_frame: true,
                    effects: v.effects + seq![tick(Metric::RxRateLimiterThrottled)],
                    ..v
                }),
                (true, false) => w == (NetView {
                    stage: ended,
                    rx_deferred_frame: true,
                    effects: v.effects + seq![
                        refund(Direction::Rx, 1, TokenType::Ops),
                        tick(Metric::RxRateLimiterThrottled),
                    ],
                    ..v
                }),
                (true, true) => if v.rx_queue_size > 0 {
                    &&& w == (NetView { stage: Stage::RxPop { left: v.rx_queue_size }, ..v })
                    &&& w.request() == Request::Pop(Direction::Rx)
                } else {
                    w == (NetView {
                        stage: ended,
                        rx_deferred_frame: true,
                        effects: v.effects + seq![
                            refund(Direction::Rx, 1, TokenType::Ops),
                            refund(Direction::Rx, v.rx_frame.len(), TokenType::Bytes),
                        ],
                        ..v
                    })
                },
            }
        }),
{
    let w = v.after(Reply::Consumed { granted, reads: Seq::empty() });
    if v.stage == Stage::RxOps {
        if !granted {
            assert(w.effects =~= v.effects + seq![tick(Metric::RxRateLimiterThrottled)]);
        }
    } else if !granted {
        assert(w.effects =~= v.effects + seq![
            refund(Direction::Rx, 1, TokenType::Ops),
            tick(Metric::RxRateLimiterThrottled),
        ]);
    } else if v.rx_queue_size == 0 {
        assert(w.effects =~= v.effects + seq![
            refund(Direction::Rx, 1, TokenType::Ops),
            refund(Direction::Rx, v.rx_frame.len(), TokenType::Bytes),
        ]);
    }
}

/// Without a receive chain the frame is put off, and its budget is given back. With one the frame
/// goes to its buffers, and the chain is to be given back: with the frame's length if it took all
/// of it, else with length zero.
pub proof fn law_receive_chain(
    v: NetView,
    left: u16,
    chain: Option<(u16, Seq<Descriptor>)>,
)
    requires
        v.wf(),
        v.stage == (Stage::RxPop { left }),
        v.accepts(Reply::Popped(chain)),
    ensures
        ({
            let w = v.after(Reply::Popped(chain));
            match chain {
                None => w == (NetView {
                    stage: if v.rx_deferred_irqs {
                        Stage::RxSignal
                    } else {
                        Stage::Idle
                    },
                    rx_deferred_frame: true,
                    effects: v.effects + seq![
                        tick(Metric::NoRxAvailBuffer),
                        refund(Direction::Rx, 1, TokenType::Ops),
                        refund(Direction::Rx, v.rx_frame.len(), TokenType::Bytes),
                    ],
                    ..v
                }),
                Some((head, descs)) => {
                    let mapped = v.mapped->0;
                    let len = v.rx_frame.len();
                    let outcome = scatter_result(mapped, descs, len);
                    &&& w == (NetView {
                        stage: Stage::RxUsed { left, head, delivered: outcome is Ok },
                        accesses: v.accesses + share_writes(
                            descs,
                            v.rx_frame,
                            scatter_writes(mapped, descs, len),
                        ),
                        effects: v.effects + Seq::new(
                            scatter_end(mapped, descs, len, 0),
                            |i: int| tick(Metric::RxCount),
                        ) + match outcome {
                            Ok(_) => Seq::empty(),
                            Err(FrontendError::ReadOnlyDescriptor) => Seq::empty(),
                            Err(FrontendError::DescriptorChainTooSmall) => seq![
                                tick(Metric::RxFails),
                            ],
                            Err(FrontendError::GuestMemory(GuestError::PartialBuffer)) => seq![
                                tick(Metric::RxPartialWrites),
                            ],
                            Err(FrontendError::GuestMemory(_)) => seq![tick(Metric::RxFails)],
                        },
                        ..v
                    })
                },
            }
        }),
{
    let w = v.after(Reply::Popped(chain));
    match chain {
        None => {
            assert(w.effects =~= v.effects + seq![
                tick(Metric::NoRxAvailBuffer),
                refund(Direction::Rx, 1, TokenType::Ops),
                refund(Direction::Rx, v.rx_frame.len(), TokenType::Bytes),
            ]);
        },
        Some((head, descs)) => {
            let mapped = v.mapped->0;
            let len = v.rx_frame.len();
            let end = scatter_end(mapped, descs, len, 0);
            let copied = Seq::new(end, |i: int| tick(Metric::RxCount));
            assert(crate::protocol::counts(Metric::RxCount, end) =~= copied);
            assert(crate::protocol::counts(Metric::RxFails, 1) =~= seq![tick(Metric::RxFails)]);
            assert(crate::protocol::counts(Metric::RxPartialWrites, 1) =~= seq![
                tick(Metric::RxPartialWrites),
            ]);
        },
    }
}

/// A chain that the used ring refuses puts the frame off. One that is given back is to be told to
/// the driver; if it holds the frame, the frame is counted and the pass goes on, else the next
/// chain is asked for as long as tries are left.
pub proof fn law_receive_chain_is_given_back(
    v: NetView,
    left: u16,
    head: u16,
    delivered: bool,
    added: Result<(), QueueError>,
)
    requires
        v.wf(),
        v.stage == (Stage::RxUsed { left, head, delivered }),
    ensures
        ({
            let w = v.after(Reply::UsedAdded(added));
            let refunds = seq![
                refund(Direction::Rx, 1, TokenType::Ops),
                refund(Direction::Rx, v.rx_frame.len(), TokenType::Bytes),
            ];
            if added is Err {
                w == (NetView {
                    stage: if v.rx_deferred_irqs {
                        Stage::RxSignal
                    } else {
                        Stage::Idle
                    },
                    rx_deferred_frame: true,
                    effects: v.effects + refunds,
                    ..v
                })
            } else if delivered {
                w == (NetView {
                    stage: if v.mmds {
                        Stage::RxMmds
                    } else {
                        Stage::RxTap
                    },
                    rx_deferred_frame: false,
                    rx_deferred_irqs: true,
                    effects: v.effects + seq![
                        Effect::Count {
                            metric: Metric::RxBytesCount,
                            by: v.rx_frame.len() as u64,
                        },
                        tick(Metric::RxPacketsCount),
                    ],
                    ..v
                })
            } else if left > 1 {
                w == (NetView {
                    stage: Stage::RxPop { left: (left - 1) as u16 },
                    rx_deferred_irqs: true,
                    ..v
                })
            } else {
                w == (NetView {
                    stage: Stage::RxSignal,
                    rx_deferred_frame: true,
                    rx_deferred_irqs: true,
                    effects: v.effects + refunds,
                    ..v
                })
            }
        }),
{
    let w = v.after(Reply::UsedAdded(added));
    let refunds = seq![
        refund(Direction::Rx, 1, TokenType::Ops),
        refund(Direction::Rx, v.rx_frame.len(), TokenType::Bytes),
    ];
    if added is Err {
        assert(w.effects =~= v.effects + refunds);
    } else if delivered {
        assert(w.effects =~= v.effects + seq![
            Effect::Count { metric: Metric::RxBytesCount, by: v.rx_frame.len() as u64 },
            tick(Metric::RxPacketsCount),
        ]);
    } else if left == 1 {
        assert(w.effects =~= v.effects + refunds);
    }
}

/// The interrupt that ends a receive pass settles what the driver was owed; a failure is counted
/// and reported, and the interrupt stays owed.
pub proof fn law_receive_interrupt(v: NetView, signal: Result<(), Option<i32>>)
    requires
        v.wf(),
        v.stage == Stage::RxSignal,
    ensures
        ({
            let w = v.after(Reply::Signaled(signal));
            match signal {
                Ok(_) => w == (NetView { stage: Stage::Idle, rx_deferred_irqs: false, ..v }),
                Err(code) => w == (NetView {
                    stage: Stage::Idle,
                    effects: v.effects + seq![
                        tick(Metric::EventFails),
                        Effect::Report(DeviceError::FailedSignalingUsedQueue(code)),
                    ],
                    ..v
                }),
            }
        }),
{
    let w = v.after(Reply::Signaled(signal));
    if let Err(code) = signal {
        assert(w.effects =~= v.effects + seq![
            tick(Metric::EventFails),
            Effect::Report(DeviceError::FailedSignalingUsedQueue(code)),
        ]);
    }
}

// Transmitting.

/// A chain that the device may read, whatever its length, is transmitted whole: all of its buffers
/// are noted, and the bytes asked for are the sum of their lengths. A chain with a write-only buffer
/// is charged for what stands before the first one, at `k`, and nothing of it is noted.
pub proof fn law_transmit_chain(
    v: NetView,
    run: TxRun,
    head: u16,
    descs: Seq<Descriptor>,
    k: int,
)
    requires
        v.wf(),
        v.stage == (Stage::TxPop { run }),
        0 < descs.len() <= u16::MAX,
        0 <= k <= descs.len(),
        forall|j: int| 0 <= j < k ==> !(#[trigger] descs[j]).write_only,
        k < descs.len() ==> descs[k].write_only,
    ensures
        ({
            let w = v.after(Reply::Popped(Some((head, descs))));
            &&& w == (NetView {
                stage: Stage::TxOps { run, head, bytes: capacity(descs, k as nat) as u64 },
                tx_iovec: if k == descs.len() {
                    descs
                } else {
                    Seq::empty()
                },
                ..v
            })
            &&& capacity(descs, k as nat) <= u64::MAX
        }),
{
    lemma_first_write_only(descs, 0, k);
    crate::guest::lemma_capacity_bound(descs, k as nat);
}

pub(crate) proof fn lemma_first_write_only(descs: Seq<Descriptor>, i: nat, k: int)
    requires
        i <= k <= descs.len(),
        forall|j: int| i <= j < k ==> !(#[trigger] descs[j]).write_only,
        k < descs.len() ==> descs[k].write_only,
    ensures
        crate::protocol::first_write_only(descs, i) == k,
    decreases k - i,
{
    if i < k {
        lemma_first_write_only(descs, i + 1, k);
    }
}

/// No chain is left to transmit: the driver is told if one was given back. After that, or if there
/// was none, the metadata service is asked for its answer if it took a frame.
pub proof fn law_transmit_queue_is_empty(v: NetView, run: TxRun)
    requires
        v.wf(),
        v.stage == (Stage::TxPop { run }),
    ensures
        v.after(Reply::Popped(None)) == if run.raise_irq {
            NetView { stage: Stage::TxSignal { run }, ..v }
        } else {
            NetView {
                stage: if run.serve_mmds {
                    Stage::RxMmds
                } else {
                    Stage::Idle
                },
                effects: v.effects + seq![tick(Metric::NoTxAvailBuffer)],
                ..v
            }
        },
{
    if !run.raise_irq {
        assert(v.after(Reply::Popped(None)).effects =~= v.effects + seq![
            tick(Metric::NoTxAvailBuffer),
        ]);
    }
}

/// With an operation granted for a chain, its bytes are asked for. Without budget the chain goes
/// back to the queue, what was taken is given back, and the pass leaves the queue.
pub proof fn law_transmit_budget(v: NetView, run: TxRun, head: u16, bytes: u64, granted: bool)
    requires
        v.wf(),
        v.stage == (Stage::TxOps { run, head, bytes }) || v.stage == (Stage::TxBytes {
            run,
            head,
            bytes,
        }) && !granted,
    ensures
        ({
            let w = v.after(Reply::Consumed { granted, reads: Seq::empty() });
            if granted {
                w == (NetView { stage: Stage::TxBytes { run, head, bytes }, ..v })
            } else {
                w == (NetView {
                    stage: if run.raise_irq {
                        Stage::TxSignal { run }
                    } else if run.serve_mmds {
                        Stage::RxMmds
                    } else {
                        Stage::Idle
                    },
                    effects: v.effects + (if v.stage is TxBytes {
                        seq![refund(Direction::Tx, 1, TokenType::Ops)]
                    } else {
                        Seq::empty()
                    }) + seq![Effect::UndoPop, tick(Metric::TxRateLimiterThrottled)] + (
                    if run.raise_irq {
                        Seq::empty()
                    } else {
                        seq![tick(Metric::NoTxAvailBuffer)]
                    }),
                    ..v
                })
            }
        }),
{
    let w = v.after(Reply::Consumed { granted, reads: Seq::empty() });
    if !granted {
        assert(w.effects =~= v.effects + (if v.stage is TxBytes {
            seq![refund(Direction::Tx, 1, TokenType::Ops)]
        } else {
            Seq::empty()
        }) + seq![Effect::UndoPop, tick(Metric::TxRateLimiterThrottled)] + (if run.raise_irq {
            Seq::empty()
        } else {
            seq![tick(Metric::NoTxAvailBuffer)]
        }));
    }
}

/// With its bytes granted, a chain's frame is what its buffers give, and nothing if one of them
/// cannot be read. It goes to the metadata service, if there is one, and else to the tap. A frame
/// that is looked into and is shorter than a virtio-net header goes nowhere. One that goes to the
/// tap from another source than the device's address is counted, and sent all the same.
#[verifier::rlimit(60)]
#[verifier::spinoff_prover]
pub proof fn law_transmitted_frame_is_read(
    v: NetView,
    run: TxRun,
    head: u16,
    bytes: u64,
    reads: Seq<Seq<u8>>,
)
    requires
        v.wf(),
        v.stage == (Stage::TxBytes { run, head, bytes }),
        v.accepts((Reply::Consumed { granted: true, reads })),
    ensures
        ({
            let w = v.after(Reply::Consumed { granted: true, reads });
            let mapped = v.mapped->0;
            let limit = MAX_BUFFER_SIZE as nat;
            let outcome = gather_result(mapped, v.tx_iovec, limit);
            let short = w.tx_frame.len() < VNET_HDR_LEN;
            let looked_into = v.mmds || v.guest_mac is Some;
            let spoofed = !v.mmds && v.guest_mac is Some && w.tx_frame.len() >= VNET_HDR_LEN
                + ETHERNET_HEADER_LEN && w.tx_frame.subrange(18, 24) != v.guest_mac->0;
            &&& w.tx_frame == if outcome is Ok {
                joined(reads, reads.len())
            } else {
                Seq::empty()
            }
            &&& w == (NetView {
                stage: if short && looked_into {
                    Stage::TxUsed { run, head }
                } else if v.mmds {
                    Stage::TxDetour { run, head }
                } else {
                    Stage::TxTap { run, head }
                },
                tx_frame: w.tx_frame,
                accesses: v.accesses + share_reads(v.tx_iovec, reads),
                effects: v.effects + Seq::new(
                    gather_end(mapped, v.tx_iovec, limit, 0),
                    |i: int| tick(Metric::TxCount),
                ) + (match outcome {
                    Ok(_) => Seq::empty(),
                    Err(GuestError::PartialBuffer) => seq![tick(Metric::TxPartialReads)],
                    Err(_) => seq![tick(Metric::RxFails)],
                }) + (if short && looked_into {
                    seq![tick(Metric::TxMalformedFrames)]
                } else if spoofed {
                    seq![tick(Metric::TxSpoofedMacCount)]
                } else {
                    Seq::empty()
                }),
                ..v
            })
        }),
{
    let w = v.after(Reply::Consumed { granted: true, reads });
    let mapped = v.mapped->0;
    let limit = MAX_BUFFER_SIZE as nat;
    let end = gather_end(mapped, v.tx_iovec, limit, 0);
    let copied = Seq::new(end, |i: int| tick(Metric::TxCount));
    assert(crate::protocol::counts(Metric::TxCount, end) =~= copied);
    assert(crate::protocol::counts(Metric::RxFails, 1) =~= seq![tick(Metric::RxFails)]);
    assert(crate::protocol::counts(Metric::TxPartialReads, 1) =~= seq![
        tick(Metric::TxPartialReads),
    ]);
    let outcome = gather_result(mapped, v.tx_iovec, limit);
    let failure: Seq<Effect> = match outcome {
        Ok(_) => Seq::empty(),
        Err(GuestError::PartialBuffer) => seq![tick(Metric::TxPartialReads)],
        Err(_) => seq![tick(Metric::RxFails)],
    };
    let read = v.tx_frame_read(reads);
    assert(read.effects == v.effects + copied + failure);
    assert(read.effects + Seq::<Effect>::empty() =~= read.effects);
    assert(read.effects.push(tick(Metric::TxMalformedFrames)) =~= read.effects + seq![
        tick(Metric::TxMalformedFrames),
    ]);
    assert(read.effects.push(tick(Metric::TxSpoofedMacCount)) =~= read.effects + seq![
        tick(Metric::TxSpoofedMacCount),
    ]);
    if w.tx_frame.len() >= VNET_HDR_LEN + ETHERNET_HEADER_LEN {
        assert(w.tx_frame.skip(VNET_HDR_LEN as int).subrange(6, 12) =~= w.tx_frame.subrange(18, 24));
    }
}

/// A frame that the metadata service takes is counted and costs nothing; unless a received frame
/// waits, the service is to be asked for its answer, whatever the pass has done before. One that it
/// leaves goes to the tap.
pub proof fn law_metadata_service_is_offered_the_frame(
    v: NetView,
    run: TxRun,
    head: u16,
    accepted: bool,
)
    requires
        v.wf(),
        v.stage == (Stage::TxDetour { run, head }),
    ensures
        ({
            let w = v.after(Reply::Detoured(accepted));
            let spoofed = v.guest_mac is Some && v.tx_frame.len() >= VNET_HDR_LEN
                + ETHERNET_HEADER_LEN && v.tx_frame.subrange(18, 24) != v.guest_mac->0;
            if accepted {
                w == (NetView {
                    stage: Stage::TxUsed {
                        run: TxRun {
                            serve_mmds: run.serve_mmds || !v.rx_deferred_frame,
                            raise_irq: run.raise_irq,
                        },
                        head,
                    },
                    effects: v.effects + seq![
                        tick(Metric::MmdsRxAccepted),
                        refund(Direction::Tx, v.tx_frame.len(), TokenType::Bytes),
                        refund(Direction::Tx, 1, TokenType::Ops),
                    ],
                    ..v
                })
            } else {
                w == (NetView {
                    stage: Stage::TxTap { run, head },
                    effects: if spoofed {
                        v.effects + seq![tick(Metric::TxSpoofedMacCount)]
                    } else {
                        v.effects
                    },
                    ..v
                })
            }
        }),
{
    let w = v.after(Reply::Detoured(accepted));
    if accepted {
        assert(w.effects =~= v.effects + seq![
            tick(Metric::MmdsRxAccepted),
            refund(Direction::Tx, v.tx_frame.len(), TokenType::Bytes),
            refund(Direction::Tx, 1, TokenType::Ops),
        ]);
    } else {
        assert(v.effects.push(tick(Metric::TxSpoofedMacCount)) =~= v.effects + seq![
            tick(Metric::TxSpoofedMacCount),
        ]);
        if v.tx_frame.len() >= VNET_HDR_LEN + ETHERNET_HEADER_LEN {
            assert(v.tx_frame.skip(VNET_HDR_LEN as int).subrange(6, 12) =~= v.tx_frame.subrange(
                18,
                24,
            ));
        }
    }
}

/// The outcome of a write to the tap is counted, and the chain is to be given back either way.
pub proof fn law_tap_is_written(v: NetView, run: TxRun, head: u16, written: bool)
    requires
        v.wf(),
        v.stage == (Stage::TxTap { run, head }),
    ensures
        v.after(Reply::TapWritten(written)) == (NetView {
            stage: Stage::TxUsed { run, head },
            effects: v.effects + if written {
                seq![
                    Effect::Count { metric: Metric::TxBytesCount, by: v.tx_frame.len() as u64 },
                    tick(Metric::TxPacketsCount),
                    tick(Metric::TxCount),
                ]
            } else {
                seq![tick(Metric::TapWriteFails)]
            },
            ..v
        }),
{
    let w = v.after(Reply::TapWritten(written));
    if written {
        assert(w.effects =~= v.effects + seq![
            Effect::Count { metric: Metric::TxBytesCount, by: v.tx_frame.len() as u64 },
            tick(Metric::TxPacketsCount),
            tick(Metric::TxCount),
        ]);
    } else {
        assert(w.effects =~= v.effects + seq![tick(Metric::TapWriteFails)]);
    }
}

/// A transmit chain that is given back is to be told to the driver, and the next one is asked for.
/// If the queue refuses it, the pass ends with a report.
pub proof fn law_transmit_chain_is_given_back(
    v: NetView,
    run: TxRun,
    head: u16,
    added: Result<(), QueueError>,
)
    requires
        v.wf(),
        v.stage == (Stage::TxUsed { run, head }),
    ensures
        v.after(Reply::UsedAdded(added)) == match added {
            Ok(_) => NetView {
                stage: Stage::TxPop {
                    run: TxRun { serve_mmds: run.serve_mmds, raise_irq: true },
                },
                ..v
            },
            Err(e) => NetView {
                stage: Stage::Idle,
                effects: v.effects + seq![Effect::Report(DeviceError::QueueError(e))],
                ..v
            },
        },
{
    if let Err(e) = added {
        assert(v.after(Reply::UsedAdded(added)).effects =~= v.effects + seq![
            Effect::Report(DeviceError::QueueError(e)),
        ]);
    }
}

/// The interrupt that ends a transmit pass settles what the driver was owed, and the metadata
/// service is asked for its answer if it took a frame. A failure is counted and reported.
pub proof fn law_transmit_interrupt(v: NetView, run: TxRun, signal: Result<(), Option<i32>>)
    requires
        v.wf(),
        v.stage == (Stage::TxSignal { run }),
    ensures
        ({
            let w = v.after(Reply::Signaled(signal));
            match signal {
                Ok(_) => w == (NetView {
                    stage: if run.serve_mmds {
                        Stage::RxMmds
                    } else {
                        Stage::Idle
                    },
                    rx_deferred_irqs: false,
                    ..v
                }),
                Err(code) => w == (NetView {
                    stage: Stage::Idle,
                    effects: v.effects + seq![
                        tick(Metric::EventFails),
                        Effect::Report(DeviceError::FailedSignalingUsedQueue(code)),
                    ],
                    ..v
                }),
            }
        }),
{
    let w = v.after(Reply::Signaled(signal));
    if let Err(code) = signal {
        assert(w.effects =~= v.effects + seq![
            tick(Metric::EventFails),
            Effect::Report(DeviceError::FailedSignalingUsedQueue(code)),
        ]);
    }
}

/// A good frame is sent, whatever the number of its buffers: if the device may read all of them, all
/// of their addresses are mapped, and together they hold a virtio-net header and no more than the
/// frame buffer, then their bytes are asked for, and with the budget granted a frame of just as many
/// bytes is offered to the metadata service, or else written to the tap.
#[verifier::rlimit(60)]
#[verifier::spinoff_prover]
pub proof fn law_good_frame_is_sent(
    v: NetView,
    run: TxRun,
    head: u16,
    descs: Seq<Descriptor>,
    reads: Seq<Seq<u8>>,
)
    requires
        v.wf(),
        v.stage == (Stage::TxPop { run }),
        0 < descs.len() <= u16::MAX,
        forall|j: int| 0 <= j < descs.len() ==> !(#[trigger] descs[j]).write_only,
        forall|j: int| 0 <= j < descs.len() ==> all_mapped(v.mapped->0, #[trigger] descs[j]),
        VNET_HDR_LEN <= capacity(descs, descs.len()) <= MAX_BUFFER_SIZE,
        v.after(Reply::Popped(Some((head, descs)))).after(
            Reply::Consumed { granted: true, reads: Seq::empty() },
        ).accepts((Reply::Consumed { granted: true, reads })),
    ensures
        ({
            let popped = v.after(Reply::Popped(Some((head, descs))));
            let charged = popped.after(Reply::Consumed { granted: true, reads: Seq::empty() });
            let sent = charged.after(Reply::Consumed { granted: true, reads });
            &&& popped.request() == (Request::Consume {
                limiter: Direction::Tx,
                tokens: 1,
                kind: TokenType::Ops,
            })
            &&& charged.request() == (Request::Consume {
                limiter: Direction::Tx,
                tokens: capacity(descs, descs.len()) as u64,
                kind: TokenType::Bytes,
            })
            &&& sent.request() == if v.mmds {
                Request::DetourFrame
            } else {
                Request::WriteTap
            }
            &&& reads.len() == descs.len()
            &&& forall|j: int|
                0 <= j < descs.len() ==> (#[trigger] reads[j]).len() == descs[j].len
            &&& sent.tx_frame == joined(reads, reads.len())
            &&& sent.tx_frame.len() == capacity(descs, descs.len())
        }),
{
    let limit = MAX_BUFFER_SIZE as nat;
    let popped = v.after(Reply::Popped(Some((head, descs))));
    let charged = popped.after(Reply::Consumed { granted: true, reads: Seq::empty() });
    let bytes = capacity(descs, descs.len()) as u64;
    law_transmit_chain(v, run, head, descs, descs.len() as int);
    crate::laws::law_answers_keep_the_device_sound(v, Reply::Popped(Some((head, descs))));
    law_transmit_budget(popped, run, head, bytes, true);
    crate::laws::law_answers_keep_the_device_sound(
        popped,
        (Reply::Consumed { granted: true, reads: Seq::empty() }),
    );
    law_mapped_buffers_can_be_read(v.mapped->0, descs, limit);
    law_transmitted_frame_is_read(charged, run, head, bytes, reads);
    crate::guest::lemma_joined_len(reads, descs, limit, reads.len());
    assert forall|j: int| 0 <= j < descs.len() implies (#[trigger] reads[j]).len()
        == descs[j].len by {
        lemma_capacity_grows(descs, (j + 1) as nat, descs.len());
        law_capacity_adds_up(descs, j as nat);
    }
}

// Copies.

/// Every address of the buffer is mapped, and its first address also if it is empty.
pub open spec fn all_mapped(mapped: Set<u64>, desc: Descriptor) -> bool {
    &&& mapped.contains(desc.addr)
    &&& desc.addr + desc.len <= u64::MAX + 1
    &&& forall|a: u64| desc.addr <= a < desc.addr + desc.len ==> #[trigger] mapped.contains(a)
}

/// The capacity of a chain is the sum of the lengths of its buffers.
pub proof fn law_capacity_adds_up(descs: Seq<Descriptor>, n: nat)
    ensures
        capacity(descs, 0) == 0,
        capacity(descs, n + 1) == capacity(descs, n) + descs[n as int].len,
{
}

proof fn lemma_capacity_grows(descs: Seq<Descriptor>, n: nat, m: nat)
    requires
        n <= m,
    ensures
        capacity(descs, n) <= capacity(descs, m),
    decreases m - n,
{
    if n < m {
        lemma_capacity_grows(descs, n, (m - 1) as nat);
    }
}

/// A transfer of up to `limit` bytes fills its buffers one after the other: buffer `i` takes all of
/// its length, or what is left of the limit.
pub proof fn law_buffers_are_filled_in_order(descs: Seq<Descriptor>, limit: nat, i: nat)
    ensures
        capacity(descs, i + 1) <= limit ==> share(descs, limit, i) == descs[i as int].len,
        capacity(descs, i) <= limit < capacity(descs, i + 1) ==> share(descs, limit, i) == limit
            - capacity(descs, i),
        capacity(descs, i) >= limit ==> share(descs, limit, i) == 0,
{
    law_capacity_adds_up(descs, i);
}

/// How the access to buffer `i` of a transfer ends: it needs the first address mapped, also if there
/// is nothing to move, and every address of the bytes that it moves.
pub proof fn law_access_needs_its_addresses(
    mapped: Set<u64>,
    descs: Seq<Descriptor>,
    limit: nat,
    i: nat,
)
    ensures
        ({
            let addr = descs[i as int].addr;
            let outcome = crate::guest::buffer_access(mapped, descs, limit, i);
            &&& !mapped.contains(addr) ==> outcome == Err::<(), GuestError>(
                GuestError::InvalidGuestAddress,
            )
            &&& mapped.contains(addr) ==> {
                let n = share(descs, limit, i);
                let whole = addr + n <= u64::MAX + 1 && forall|a: u64|
                    addr <= a < addr + n ==> #[trigger] mapped.contains(a);
                &&& whole ==> outcome is Ok
                &&& !whole ==> outcome == Err::<(), GuestError>(GuestError::PartialBuffer)
            }
        }),
{
    lemma_range_mapped(mapped, descs[i as int].addr, share(descs, limit, i));
}

proof fn lemma_range_mapped(mapped: Set<u64>, addr: u64, n: nat)
    ensures
        crate::guest::range_mapped(mapped, addr, n) == (addr + n <= u64::MAX + 1 && forall|a: u64|
            addr <= a < addr + n ==> #[trigger] mapped.contains(a)),
{
    if crate::guest::range_mapped(mapped, addr, n) {
        if addr + n > u64::MAX + 1 {
            let k = u64::MAX + 1 - addr;
            assert(mapped.contains((addr + k) as u64));
        }
        assert forall|a: u64| addr <= a < addr + n implies #[trigger] mapped.contains(a) by {
            let k = a - addr;
            assert(mapped.contains((addr + k) as u64));
        }
    }
}

/// Buffers whose addresses are all mapped can be read, however many they are.
pub proof fn law_mapped_buffers_can_be_read(mapped: Set<u64>, descs: Seq<Descriptor>, limit: nat)
    requires
        forall|j: int| 0 <= j < descs.len() ==> all_mapped(mapped, #[trigger] descs[j]),
    ensures
        gather_end(mapped, descs, limit, 0) == descs.len(),
        gather_result(mapped, descs, limit) is Ok,
{
    lemma_mapped_buffers(mapped, descs, limit, 0);
}

proof fn lemma_mapped_buffers(mapped: Set<u64>, descs: Seq<Descriptor>, limit: nat, i: nat)
    requires
        i <= descs.len(),
        forall|j: int| 0 <= j < descs.len() ==> all_mapped(mapped, #[trigger] descs[j]),
    ensures
        gather_end(mapped, descs, limit, i) == descs.len(),
    decreases descs.len() - i,
{
    if i < descs.len() {
        lemma_mapped_buffers(mapped, descs, limit, i + 1);
        law_capacity_adds_up(descs, i);
        law_access_needs_its_addresses(mapped, descs, limit, i);
        assert(all_mapped(mapped, descs[i as int]));
    }
}

/// Gathering reads the buffers one after the other and stops at the first that cannot be read, with
/// its error; only if there is none it succeeds.
pub proof fn law_gathering_stops_at_the_first_failure(
    mapped: Set<u64>,
    descs: Seq<Descriptor>,
    limit: nat,
)
    ensures
        ({
            let end = gather_end(mapped, descs, limit, 0);
            &&& end <= descs.len()
            &&& forall|j: nat|
                j < end ==> (#[trigger] crate::guest::buffer_access(
                    mapped,
                    descs,
                    limit,
                    j,
                )) is Ok
            &&& end < descs.len() ==> crate::guest::buffer_access(mapped, descs, limit, end) is Err
            &&& gather_result(mapped, descs, limit) == if end < descs.len() {
                crate::guest::buffer_access(mapped, descs, limit, end)
            } else {
                Ok::<(), GuestError>(())
            }
            &&& crate::guest::gather_reads(mapped, descs, limit) == if end < descs.len() {
                end + 1
            } else {
                end
            }
        }),
{
    crate::laws::lemma_gather_end(mapped, descs, limit, 0);
}

/// Copying a frame of `len` bytes goes through the buffers one after the other. It stops when the
/// frame ends, when the chain ends, at the first read-only buffer and at the first that the guest
/// memory refuses, and the outcome says which of these it was.
pub proof fn law_scattering_stops_for_a_reason(mapped: Set<u64>, descs: Seq<Descriptor>, len: nat)
    ensures
        ({
            let end = scatter_end(mapped, descs, len, 0);
            let outcome = scatter_result(mapped, descs, len);
            &&& end <= descs.len()
            &&& forall|j: nat|
                j < end ==> {
                    &&& (#[trigger] crate::guest::buffer_access(mapped, descs, len, j)) is Ok
                    &&& descs[j as int].write_only
                    &&& capacity(descs, j) < len
                }
            &&& capacity(descs, end) >= len ==> outcome == Ok::<(), FrontendError>(())
            &&& capacity(descs, end) < len && end == descs.len() ==> outcome == Err::<
                (),
                FrontendError,
            >(FrontendError::DescriptorChainTooSmall)
            &&& capacity(descs, end) < len && end < descs.len() ==> if !descs[end as int].write_only {
                outcome == Err::<(), FrontendError>(FrontendError::ReadOnlyDescriptor)
            } else {
                crate::guest::buffer_access(mapped, descs, len, end) matches Err(e) && outcome
                    == Err::<(), FrontendError>(FrontendError::GuestMemory(e))
            }
            &&& scatter_writes(mapped, descs, len) == if outcome matches Err(
                FrontendError::GuestMemory(_),
            ) {
                end + 1
            } else {
                end
            }
        }),
{
    lemma_scattering(mapped, descs, len, 0);
}

proof fn lemma_scattering(mapped: Set<u64>, descs: Seq<Descriptor>, len: nat, i: nat)
    requires
        i <= descs.len(),
    ensures
        ({
            let end = scatter_end(mapped, descs, len, i);
            &&& i <= end <= descs.len()
            &&& forall|j: nat|
                i <= j < end ==> {
                    &&& (#[trigger] crate::guest::buffer_access(mapped, descs, len, j)) is Ok
                    &&& descs[j as int].write_only
                    &&& capacity(descs, j) < len
                }
            &&& end < descs.len() && capacity(descs, end) < len && descs[end as int].write_only
                ==> crate::guest::buffer_access(mapped, descs, len, end) is Err
        }),
    decreases descs.len() - i,
{
    if i < descs.len() && crate::guest::moved(descs, len, i) < len && descs[i as int].write_only
        && crate::guest::buffer_access(mapped, descs, len, i) is Ok {
        lemma_scattering(mapped, descs, len, i + 1);
    }
}

/// A frame is delivered to every chain that is good for it, however many buffers it has: all of them
/// may be written, all of their addresses are mapped, and together they are large enough.
pub proof fn law_good_chain_takes_the_frame(mapped: Set<u64>, descs: Seq<Descriptor>, len: nat)
    requires
        forall|j: int| 0 <= j < descs.len() ==> (#[trigger] descs[j]).write_only,
        forall|j: int| 0 <= j < descs.len() ==> all_mapped(mapped, #[trigger] descs[j]),
        capacity(descs, descs.len()) >= len,
    ensures
        scatter_result(mapped, descs, len) is Ok,
{
    lemma_scattering(mapped, descs, len, 0);
    let end = scatter_end(mapped, descs, len, 0);
    if end < descs.len() && capacity(descs, end) < len {
        law_capacity_adds_up(descs, end);
        law_access_needs_its_addresses(mapped, descs, len, end);
        assert(descs[end as int].write_only && all_mapped(mapped, descs[end as int]));
    }
}

/// A received frame for which a good chain comes is in the guest: the chain is to be given back next
/// with the frame's length.
pub proof fn law_good_chain_is_given_back_with_the_frame(
    v: NetView,
    left: u16,
    head: u16,
    descs: Seq<Descriptor>,
)
    requires
        v.wf(),
        v.stage == (Stage::RxPop { left }),
        0 < descs.len() <= u16::MAX,
        forall|j: int| 0 <= j < descs.len() ==> (#[trigger] descs[j]).write_only,
        forall|j: int| 0 <= j < descs.len() ==> all_mapped(v.mapped->0, #[trigger] descs[j]),
        capacity(descs, descs.len()) >= v.rx_frame.len(),
    ensures
        v.after(Reply::Popped(Some((head, descs)))).request() == (Request::AddUsed {
            queue: Direction::Rx,
            index: head,
            len: v.rx_frame.len() as u32,
        }),
{
    law_good_chain_takes_the_frame(v.mapped->0, descs, v.rx_frame.len());
}

/// The writes of a frame: each goes to the start of its buffer, and carries the bytes of the frame
/// that come after those of the buffers before it, as many as the buffer takes.
pub proof fn law_writes_carry_the_frame(
    descs: Seq<Descriptor>,
    frame: Seq<u8>,
    n: nat,
)
    ensures
        share_writes(descs, frame, n).len() == n,
        forall|i: int|
            0 <= i < n ==> {
                let write = #[trigger] share_writes(descs, frame, n)[i];
                &&& write.0
                &&& write.1 == descs[i].addr
                &&& write.2.len() == share(descs, frame.len(), i as nat)
                &&& forall|k: int|
                    0 <= k < write.2.len() ==> #[trigger] write.2[k] == frame[capacity(
                        descs,
                        i as nat,
                    ) + k]
            },
{
    assert forall|i: int| 0 <= i < n implies {
        let write = #[trigger] share_writes(descs, frame, n)[i];
        &&& write.0
        &&& write.1 == descs[i].addr
        &&& write.2.len() == share(descs, frame.len(), i as nat)
        &&& forall|k: int|
            0 <= k < write.2.len() ==> #[trigger] write.2[k] == frame[capacity(descs, i as nat) + k]
    } by {
        law_capacity_adds_up(descs, i as nat);
        law_buffers_are_filled_in_order(descs, frame.len(), i as nat);
    }
}

/// The reads of a frame, and how their bytes come together.
pub proof fn law_reads_come_together(
    descs: Seq<Descriptor>,
    reads: Seq<Seq<u8>>,
    accesses: Seq<(bool, u64, Seq<u8>)>,
    n: nat,
)
    ensures
        share_reads(descs, reads).len() == reads.len(),
        forall|i: int|
            0 <= i < reads.len() ==> #[trigger] share_reads(descs, reads)[i] == (
                false,
                descs[i].addr,
                reads[i],
            ),
        access_bytes(accesses).len() == accesses.len(),
        forall|i: int|
            0 <= i < accesses.len() ==> #[trigger] access_bytes(accesses)[i] == accesses[i].2,
        joined(reads, 0) == Seq::<u8>::empty(),
        joined(reads, n + 1) == joined(reads, n) + reads[n as int],
{
}

/// Answers are taken as they are given: a frame with all of its bytes, a chain with all of its
/// buffers, and of guest memory every byte that came since.
pub proof fn law_answers_are_taken_whole(
    payload: Option<&[u8]>,
    read: Result<&[u8], Option<i32>>,
    chain: Option<&DescriptorChain>,
    before: NetView,
    after: NetView,
    accesses: Seq<(bool, u64, Seq<u8>)>,
)
    requires
        after.accesses == before.accesses + accesses,
    ensures
        match (payload, crate::device::option_bytes(payload)) {
            (Some(given), Some(taken)) => taken == given@,
            (None, None) => true,
            _ => false,
        },
        match (read, crate::device::result_bytes(read)) {
            (Ok(given), Ok(taken)) => taken == given@,
            (Err(given), Err(taken)) => taken == given,
            _ => false,
        },
        match (chain, crate::device::option_chain(chain)) {
            (Some(given), Some(taken)) => taken == given@,
            (None, None) => true,
            _ => false,
        },
        crate::device::new_reads(before, after) == access_bytes(accesses),
{
    assert(after.accesses.skip(before.accesses.len() as int) =~= accesses);
}

// Events.

/// Buffers for receiving are there: a deferred frame is tried again, unless the limiter is blocked.
pub proof fn law_receive_queue_event(v: NetView, event_read: bool, blocked: bool)
    requires
        v.wf(),
        v.stage == Stage::Idle,
    ensures
        v.process_rx_queue_event(event_read, blocked) == (NetView {
            stage: if event_read && !blocked && v.rx_deferred_frame {
                Stage::RxOps
            } else {
                Stage::Idle
            },
            effects: v.effects + seq![tick(Metric::RxQueueEventCount)] + (if !event_read {
                seq![tick(Metric::EventFails)]
            } else if blocked {
                seq![tick(Metric::RxRateLimiterThrottled)]
            } else {
                Seq::empty()
            }),
            ..v
        }),
{
    assert(v.process_rx_queue_event(event_read, blocked).effects =~= v.effects + seq![
        tick(Metric::RxQueueEventCount),
    ] + (if !event_read {
        seq![tick(Metric::EventFails)]
    } else if blocked {
        seq![tick(Metric::RxRateLimiterThrottled)]
    } else {
        Seq::empty()
    }));
}

/// The tap has something: unless the limiter is blocked, a deferred frame is tried first, and
/// without one the next frame is read, first that of the metadata service. A deferred frame waits
/// as long as there is no buffer.
pub proof fn law_tap_event(v: NetView, queue_empty: bool, blocked: bool)
    requires
        v.wf(),
        v.stage == Stage::Idle,
    ensures
        ({
            let waits = queue_empty && v.rx_deferred_frame;
            v.process_tap_rx_event(queue_empty, blocked) == (NetView {
                stage: if waits || blocked {
                    Stage::Idle
                } else if v.rx_deferred_frame {
                    Stage::RxOps
                } else if v.mmds {
                    Stage::RxMmds
                } else {
                    Stage::RxTap
                },
                effects: v.effects + seq![tick(Metric::RxTapEventCount)] + (if waits {
                    seq![tick(Metric::NoRxAvailBuffer)]
                } else if blocked {
                    seq![tick(Metric::RxRateLimiterThrottled)]
                } else {
                    Seq::empty()
                }),
                ..v
            })
        }),
{
    assert(v.process_tap_rx_event(queue_empty, blocked).effects =~= v.effects + seq![
        tick(Metric::RxTapEventCount),
    ] + (if queue_empty && v.rx_deferred_frame {
        seq![tick(Metric::NoRxAvailBuffer)]
    } else if blocked {
        seq![tick(Metric::RxRateLimiterThrottled)]
    } else {
        Seq::empty()
    }));
}

/// Frames for transmission are there: in every state of the receive side a chain is asked for,
/// unless the limiter is blocked or the event could not be read.
pub proof fn law_transmit_queue_event(v: NetView, event_read: bool, blocked: bool)
    requires
        v.wf(),
        v.stage == Stage::Idle,
    ensures
        ({
            let w = v.process_tx_queue_event(event_read, blocked);
            &&& event_read && !blocked ==> w.request() == Request::Pop(Direction::Tx)
            &&& w == (NetView {
                stage: if event_read && !blocked {
                    Stage::TxPop { run: TxRun { serve_mmds: false, raise_irq: false } }
                } else {
                    Stage::Idle
                },
                effects: v.effects + seq![tick(Metric::TxQueueEventCount)] + (if !event_read {
                    seq![tick(Metric::EventFails)]
                } else if blocked {
                    seq![tick(Metric::TxRateLimiterThrottled)]
                } else {
                    Seq::empty()
                }),
                ..v
            })
        }),
{
    assert(v.process_tx_queue_event(event_read, blocked).effects =~= v.effects + seq![
        tick(Metric::TxQueueEventCount),
    ] + (if !event_read {
        seq![tick(Metric::EventFails)]
    } else if blocked {
        seq![tick(Metric::TxRateLimiterThrottled)]
    } else {
        Seq::empty()
    }));
}

/// A rate limiter's timer went off: a deferred frame is tried again on the receive side; on the
/// transmit side a chain is asked for in every state of the receive side.
pub proof fn law_rate_limiter_events(v: NetView, handled: bool)
    requires
        v.wf(),
        v.stage == Stage::Idle,
    ensures
        v.process_rx_rate_limiter_event(handled) == (NetView {
            stage: if handled && v.rx_deferred_frame {
                Stage::RxOps
            } else {
                Stage::Idle
            },
            effects: v.effects + seq![tick(Metric::RxEventRateLimiterCount)] + (if handled {
                Seq::empty()
            } else {
                seq![tick(Metric::EventFails)]
            }),
            ..v
        }),
        handled ==> v.process_tx_rate_limiter_event(handled).request() == Request::Pop(
            Direction::Tx,
        ),
        v.process_tx_rate_limiter_event(handled) == (NetView {
            stage: if handled {
                Stage::TxPop { run: TxRun { serve_mmds: false, raise_irq: false } }
            } else {
                Stage::Idle
            },
            effects: v.effects + seq![tick(Metric::TxRateLimiterEventCount)] + (if handled {
                Seq::empty()
            } else {
                seq![tick(Metric::EventFails)]
            }),
            ..v
        }),
{
    let failure: Seq<Effect> = if handled {
        Seq::empty()
    } else {
        seq![tick(Metric::EventFails)]
    };
    assert(v.process_rx_rate_limiter_event(handled).effects =~= v.effects + seq![
        tick(Metric::RxEventRateLimiterCount),
    ] + failure);
    assert(v.process_tx_rate_limiter_event(handled).effects =~= v.effects + seq![
        tick(Metric::TxRateLimiterEventCount),
    ] + failure);
}

} // verus!
