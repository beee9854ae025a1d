//! What holds of single events and answers, of the configuration and of the features.
use crate::config::{
    acked, config_read, config_written, fd_features, features_of_page, features_page, tap_features,
    with_mac_feature, MacAddr, VIRTIO_NET_F_MAC,
};
use crate::guest::Descriptor;
use crate::protocol::{Direction, Effect, Metric, NetView, Reply, Request, Stage, TokenType};
use vstd::prelude::*;

verus! {

/// The stages in which an event can leave an idle device.
pub open spec fn is_start(stage: Stage) -> bool {
    match stage {
        Stage::Idle | Stage::RxMmds | Stage::RxTap | Stage::RxOps => true,
        Stage::TxPop { run } => !run.serve_mmds && !run.raise_irq,
        _ => false,
    }
}

/// An event finds an idle device sound and leaves it sound, at the start of a run or still idle. It
/// neither touches the frame that waits for delivery nor the guest memory.
pub proof fn law_events_start_a_run(v: NetView, after: NetView, a: bool, b: bool)
    requires
        v.wf(),
        v.stage == Stage::Idle,
        v.mapped is Some,
        after == v.process_rx_queue_event(a, b) || after == v.process_tap_rx_event(a, b) || after
            == v.process_tx_queue_event(a, b) || after == v.process_rx_rate_limiter_event(a)
            || after == v.process_tx_rate_limiter_event(a),
    ensures
        after.wf(),
        is_start(after.stage),
        after.rx_frame == v.rx_frame,
        after.rx_deferred_frame == v.rx_deferred_frame,
        after.rx_deferred_irqs == v.rx_deferred_irqs,
        after.accesses == v.accesses,
        after.stage == Stage::RxOps ==> v.rx_deferred_frame,
        after.stage == Stage::RxMmds || after.stage == Stage::RxTap ==> !v.rx_deferred_frame,
{
}

/// What a list of effects can be added up by.
pub enum Tally {
    /// Tokens given back to a rate limiter.
    Returned(Direction, TokenType),
    /// What is added to a counter.
    Counted(Metric),
    /// Chains put back at the head of the transmit queue.
    Undone,
    /// Reports of failure.
    Failures,
}

/// What one effect adds to a tally.
pub open spec fn weight(what: Tally, effect: Effect) -> int {
    match (what, effect) {
        (Tally::Returned(l, k), Effect::Replenish { limiter, tokens, kind }) => if limiter == l
            && kind == k {
            tokens as int
        } else {
            0
        },
        (Tally::Counted(m), Effect::Count { metric, by }) => if metric == m {
            by as int
        } else {
            0
        },
        (Tally::Undone, Effect::UndoPop) => 1,
        (Tally::Failures, Effect::Report(_)) => 1,
        _ => 0,
    }
}

/// What `effects` add up to.
pub open spec fn tally(what: Tally, effects: Seq<Effect>) -> int
    decreases effects.len(),
{
    if effects.len() == 0 {
        0
    } else {
        tally(what, effects.drop_last()) + weight(what, effects.last())
    }
}

pub(crate) broadcast proof fn lemma_tally_push(what: Tally, effects: Seq<Effect>, effect: Effect)
    ensures
        #[trigger] tally(what, effects.push(effect)) == tally(what, effects) + weight(
            what,
            effect,
        ),
{
    assert(effects.push(effect).drop_last() =~= effects);
}

proof fn lemma_tally_counts(what: Tally, effects: Seq<Effect>, metric: Metric, n: nat)
    requires
        weight(what, (Effect::Count { metric, by: 1 })) == 0,
    ensures
        tally(what, effects + crate::protocol::counts(metric, n)) == tally(what, effects),
    decreases n,
{
    let counts = crate::protocol::counts(metric, n);
    if n == 0 {
        assert(effects + counts =~= effects);
    } else {
        lemma_tally_counts(what, effects, metric, (n - 1) as nat);
        assert((effects + counts).drop_last() =~= effects + crate::protocol::counts(
            metric,
            (n - 1) as nat,
        ));
    }
}

/// The tally does not speak of what is counted while a frame is copied.
pub(crate) open spec fn ignores_copies(what: Tally) -> bool {
    match what {
        Tally::Counted(m) => {
            &&& m != Metric::RxCount
            &&& m != Metric::TxCount
            &&& m != Metric::RxFails
            &&& m != Metric::RxPartialWrites
            &&& m != Metric::TxPartialReads
        },
        _ => true,
    }
}

pub(crate) proof fn lemma_rx_popped_tally(what: Tally, v: NetView, left: u16, chain: (u16, Seq<Descriptor>))
    requires
        ignores_copies(what),
    ensures
        tally(what, v.rx_popped(left, Some(chain)).effects) == tally(what, v.effects),
{
    let len = v.rx_frame.len();
    let end = crate::guest::scatter_end(v.mapped->0, chain.1, len, 0);
    let copied = v.effects + crate::protocol::counts(Metric::RxCount, end);
    lemma_tally_counts(what, v.effects, Metric::RxCount, end);
    lemma_tally_counts(what, copied, Metric::RxFails, 1);
    lemma_tally_counts(what, copied, Metric::RxPartialWrites, 1);
    assert(copied + Seq::<Effect>::empty() =~= copied);
}

pub(crate) proof fn lemma_tx_frame_read_tally(what: Tally, v: NetView, reads: Seq<Seq<u8>>)
    requires
        ignores_copies(what),
    ensures
        tally(what, v.tx_frame_read(reads).effects) == tally(what, v.effects),
{
    let limit = crate::config::MAX_BUFFER_SIZE as nat;
    let end = crate::guest::gather_end(v.mapped->0, v.tx_iovec, limit, 0);
    let copied = v.effects + crate::protocol::counts(Metric::TxCount, end);
    lemma_tally_counts(what, v.effects, Metric::TxCount, end);
    lemma_tally_counts(what, copied, Metric::RxFails, 1);
    lemma_tally_counts(what, copied, Metric::TxPartialReads, 1);
    assert(copied + Seq::<Effect>::empty() =~= copied);
}

/// Every answer leads from a sound state to a sound state.
pub proof fn law_answers_keep_the_device_sound(v: NetView, reply: Reply)
    requires
        v.wf(),
        v.accepts(reply),
    ensures
        v.after(reply).wf(),
{
    match reply {
        Reply::Consumed { granted, reads } => {
            if granted && v.stage is TxBytes {
                crate::guest::lemma_joined_len(
                    reads,
                    v.tx_iovec,
                    crate::config::MAX_BUFFER_SIZE as nat,
                    reads.len(),
                );
            }
        },
        Reply::Popped(Some((_, descs))) => {
            crate::protocol::lemma_first_write_only_bound(descs, 0);
            crate::guest::lemma_capacity_bound(descs, crate::protocol::first_write_only(descs, 0));
        },
        _ => {},
    }
}

/// Number of received frames that wait for delivery.
pub open spec fn waiting(v: NetView) -> int {
    match v.stage {
        Stage::RxOps | Stage::RxBytes | Stage::RxPop { .. } | Stage::RxUsed { .. } => 1,
        _ => if v.rx_deferred_frame {
            1
        } else {
            0
        },
    }
}

/// While a frame waits for delivery, nothing is read, and the frame stays as it is.
pub proof fn law_waiting_frame_is_kept(v: NetView, reply: Reply)
    requires
        v.wf(),
        v.accepts(reply),
        waiting(v) == 1,
    ensures
        v.request() != Request::ReadTap,
        v.request() != Request::ReadMmdsFrame,
        v.after(reply).rx_frame == v.rx_frame,
{
}

/// Where there is a metadata service, the tap is read only when the service has no frame to send,
/// and written only when the service has not taken the frame.
pub proof fn law_metadata_service_goes_first(v: NetView, reply: Reply)
    requires
        v.wf(),
        v.accepts(reply),
        v.mmds,
    ensures
        v.after(reply).stage == Stage::RxTap ==> reply == Reply::MmdsFrame(None),
        v.after(reply).stage is TxTap ==> reply == Reply::Detoured(false),
{
}

/// That a frame names a wrong source address is counted, and changes nothing else.
pub proof fn law_spoofed_frames_are_only_counted(v: NetView, run: crate::protocol::TxRun, head: u16)
    requires
        v.tx_frame.len() >= crate::vnet::VNET_HDR_LEN,
    ensures
        (NetView { effects: v.effects, ..v.write_to_tap(run, head) }) == v.to(
            Stage::TxTap { run, head },
        ),
        tally(Tally::Counted(Metric::TxSpoofedMacCount), v.write_to_tap(run, head).effects)
            == tally(Tally::Counted(Metric::TxSpoofedMacCount), v.effects) + (
        if v.guest_mac matches Some(mac) && crate::config::spoofs(
            v.tx_frame.skip(crate::vnet::VNET_HDR_LEN as int),
            mac,
        ) {
            1int
        } else {
            0int
        }),
{
    broadcast use lemma_tally_push;

}

/// A frame that the metadata service takes costs the guest nothing: the bytes and the operation
/// taken for it are given back, if the chain is no longer than the device's frame buffer.
pub proof fn law_metadata_frames_are_free(v: NetView, reads: Seq<Seq<u8>>)
    requires
        v.wf(),
        v.stage matches Stage::TxBytes { bytes, .. } && bytes <= crate::config::MAX_BUFFER_SIZE,
        v.accepts((Reply::Consumed { granted: true, reads })),
        v.after((Reply::Consumed { granted: true, reads })).stage is TxDetour,
    ensures
        ({
            let read = v.after(Reply::Consumed { granted: true, reads });
            let taken = read.after(Reply::Detoured(true));
            let ops = Tally::Returned(Direction::Tx, TokenType::Ops);
            let bytes = Tally::Returned(Direction::Tx, TokenType::Bytes);
            &&& tally(ops, taken.effects) - tally(ops, v.effects) == 1
            &&& tally(bytes, taken.effects) - tally(bytes, v.effects) == v.stage->TxBytes_bytes
        }),
{
    broadcast use lemma_tally_push;

    let limit = crate::config::MAX_BUFFER_SIZE as nat;
    lemma_tx_frame_read_tally(Tally::Returned(Direction::Tx, TokenType::Ops), v, reads);
    lemma_tx_frame_read_tally(Tally::Returned(Direction::Tx, TokenType::Bytes), v, reads);
    crate::guest::lemma_joined_len(reads, v.tx_iovec, limit, reads.len());
    lemma_gather_end(v.mapped->0, v.tx_iovec, limit, 0);
    let read = v.tx_frame_read(reads);
    assert(read.tx_frame.len() >= crate::vnet::VNET_HDR_LEN);
    assert(crate::guest::gather_result(v.mapped->0, v.tx_iovec, limit) is Ok);
    assert(reads.len() == v.tx_iovec.len());
    assert(v.tx_iovec.len() > 0);
    assert(read.tx_frame.len() == v.stage->TxBytes_bytes);
}

pub(crate) proof fn lemma_gather_end(mapped: Set<u64>, descs: Seq<Descriptor>, limit: nat, i: nat)
    requires
        i <= descs.len(),
    ensures
        ({
            let end = crate::guest::gather_end(mapped, descs, limit, i);
            &&& i <= end <= descs.len()
            &&& end < descs.len() ==> crate::guest::buffer_access(mapped, descs, limit, end) is Err
            &&& forall|j: nat|
                i <= j < end ==> (#[trigger] crate::guest::buffer_access(
                    mapped,
                    descs,
                    limit,
                    j,
                )) is Ok
        }),
    decreases descs.len() - i,
{
    if i < descs.len() && crate::guest::buffer_access(mapped, descs, limit, i) is Ok {
        lemma_gather_end(mapped, descs, limit, i + 1);
    }
}

proof fn lemma_scatter_end(mapped: Set<u64>, descs: Seq<Descriptor>, len: nat, i: nat)
    requires
        i <= descs.len(),
    ensures
        i <= crate::guest::scatter_end(mapped, descs, len, i) <= descs.len(),
        forall|j: int|
            i <= j < crate::guest::scatter_end(mapped, descs, len, i) ==> {
                &&& (#[trigger] descs[j]).write_only
                &&& crate::guest::buffer_access(mapped, descs, len, j as nat) is Ok
            },
    decreases descs.len() - i,
{
    if i < descs.len() && crate::guest::moved(descs, len, i) < len && descs[i as int].write_only
        && crate::guest::buffer_access(mapped, descs, len, i) is Ok {
        lemma_scatter_end(mapped, descs, len, i + 1);
    }
}

proof fn lemma_writes_join(descs: Seq<Descriptor>, frame: Seq<u8>, n: nat, k: nat)
    requires
        k <= n,
    ensures
        crate::guest::joined(
            crate::guest::access_bytes(crate::guest::share_writes(descs, frame, n)),
            k,
        ) == frame.take(crate::guest::moved(descs, frame.len(), k) as int),
    decreases k,
{
    let data = crate::guest::access_bytes(crate::guest::share_writes(descs, frame, n));
    if k > 0 {
        lemma_writes_join(descs, frame, n, (k - 1) as nat);
        assert(data[k - 1] == frame.subrange(
            crate::guest::moved(descs, frame.len(), (k - 1) as nat) as int,
            crate::guest::moved(descs, frame.len(), k) as int,
        ));
    }
    assert(crate::guest::joined(data, k) =~= frame.take(
        crate::guest::moved(descs, frame.len(), k) as int,
    ));
}

/// A frame that is delivered lies in the buffers of its chain: what is written to them, one after
/// the other, is the frame, and each write goes to the start of a mapped buffer that the device
/// may write, and stays inside it.
#[verifier::rlimit(60)]
#[verifier::spinoff_prover]
pub proof fn law_delivered_frame_is_in_the_buffers(
    v: NetView,
    left: u16,
    head: u16,
    descs: Seq<Descriptor>,
)
    requires
        v.wf(),
        v.stage == (Stage::RxPop { left }),
        v.after(Reply::Popped(Some((head, descs)))).stage == (Stage::RxUsed {
            left,
            head,
            delivered: true,
        }),
    ensures
        ({
            let w = v.after(Reply::Popped(Some((head, descs))));
            let writes = w.accesses.skip(v.accesses.len() as int);
            let data = crate::guest::access_bytes(writes);
            &&& w.accesses == v.accesses + writes
            &&& crate::guest::joined(data, data.len()) == v.rx_frame
            &&& writes.len() <= descs.len()
            &&& forall|i: int|
                0 <= i < writes.len() ==> {
                    &&& (#[trigger] writes[i]).0
                    &&& writes[i].1 == descs[i].addr
                    &&& writes[i].2.len() <= descs[i].len
                    &&& descs[i].write_only
                    &&& crate::guest::range_mapped(
                        v.mapped->0,
                        descs[i].addr,
                        writes[i].2.len(),
                    )
                }
        }),
{
    let mapped = v.mapped->0;
    let len = v.rx_frame.len();
    let end = crate::guest::scatter_end(mapped, descs, len, 0);
    let issued = crate::guest::share_writes(descs, v.rx_frame, end);
    let w = v.after(Reply::Popped(Some((head, descs))));
    let writes = w.accesses.skip(v.accesses.len() as int);
    assert(crate::guest::scatter_result(mapped, descs, len) is Ok);
    assert(writes =~= issued);
    lemma_scatter_end(mapped, descs, len, 0);
    lemma_writes_join(descs, v.rx_frame, end, end);
    assert(v.rx_frame.take(len as int) =~= v.rx_frame);
    assert forall|i: int| 0 <= i < writes.len() implies {
        &&& (#[trigger] writes[i]).0
        &&& writes[i].1 == descs[i].addr
        &&& writes[i].2.len() <= descs[i].len
        &&& descs[i].write_only
        &&& crate::guest::range_mapped(mapped, descs[i].addr, writes[i].2.len())
    } by {
        assert(writes[i] == issued[i]);
        assert(descs[i].write_only);
        assert(writes[i].2.len() == crate::guest::share(descs, len, i as nat));
    }
}

/// A transmitted frame is what the buffers of its chain gave, one after the other: unless it is
/// empty, each of them was readable and mapped, and gave all of its bytes that the frame buffer had
/// room for.
pub proof fn law_transmitted_frame_comes_from_the_buffers(
    v: NetView,
    descs: Seq<Descriptor>,
    reads: Seq<Seq<u8>>,
)
    requires
        v.wf(),
        v.mapped is Some,
        v.tx_iovec == crate::protocol::readable(descs),
        v.reads_fit(reads),
        v.tx_frame_read(reads).tx_frame.len() > 0,
    ensures
        ({
            let limit = crate::config::MAX_BUFFER_SIZE as nat;
            let w = v.tx_frame_read(reads);
            let gets = w.accesses.skip(v.accesses.len() as int);
            let data = crate::guest::access_bytes(gets);
            &&& w.accesses == v.accesses + gets
            &&& w.tx_frame == crate::guest::joined(data, data.len())
            &&& w.tx_frame.len() == crate::guest::moved(descs, limit, descs.len())
            &&& gets.len() == descs.len()
            &&& forall|i: int|
                0 <= i < descs.len() ==> {
                    &&& !(#[trigger] gets[i]).0
                    &&& gets[i].1 == descs[i].addr
                    &&& gets[i].2.len() == crate::guest::share(descs, limit, i as nat)
                    &&& !descs[i].write_only
                    &&& crate::guest::range_mapped(v.mapped->0, descs[i].addr, gets[i].2.len())
                }
        }),
{
    let mapped = v.mapped->0;
    let limit = crate::config::MAX_BUFFER_SIZE as nat;
    let w = v.tx_frame_read(reads);
    let gets = w.accesses.skip(v.accesses.len() as int);
    crate::guest::lemma_joined_len(reads, v.tx_iovec, limit, reads.len());
    lemma_gather_end(mapped, v.tx_iovec, limit, 0);
    assert(reads.len() == v.tx_iovec.len());
    assert(v.tx_iovec.len() > 0);
    assert(v.tx_iovec == descs);
    assert(gets =~= crate::guest::share_reads(descs, reads));
    assert(crate::guest::access_bytes(gets) =~= reads);
    lemma_readable(descs, 0);
    assert forall|i: int| 0 <= i < descs.len() implies {
        &&& !(#[trigger] gets[i]).0
        &&& gets[i].1 == descs[i].addr
        &&& gets[i].2.len() == crate::guest::share(descs, limit, i as nat)
        &&& !descs[i].write_only
        &&& crate::guest::range_mapped(mapped, descs[i].addr, gets[i].2.len())
    } by {
        assert(reads[i].len() == crate::guest::share(descs, limit, i as nat));
        assert(crate::guest::buffer_access(mapped, descs, limit, i as nat) is Ok);
        assert(!descs[i].write_only);
    }
}

pub(crate) proof fn lemma_readable(descs: Seq<Descriptor>, i: nat)
    requires
        i <= descs.len(),
        crate::protocol::first_write_only(descs, i) == descs.len(),
    ensures
        forall|j: int| i <= j < descs.len() ==> !(#[trigger] descs[j]).write_only,
    decreases descs.len() - i,
{
    if i < descs.len() {
        lemma_readable(descs, i + 1);
    }
}

/// Where there is a metadata service or a MAC address to check, a frame without a complete
/// virtio-net header is counted as malformed and goes nowhere: its chain is given back next. So it
/// goes with a chain that holds a write-only buffer or one that cannot be read.
pub proof fn law_malformed_frames_are_skipped(
    v: NetView,
    run: crate::protocol::TxRun,
    head: u16,
    bytes: u64,
    reads: Seq<Seq<u8>>,
)
    requires
        v.wf(),
        v.stage == (Stage::TxBytes { run, head, bytes }),
        v.mmds || v.guest_mac is Some,
        v.accepts((Reply::Consumed { granted: true, reads })),
    ensures
        ({
            let w = v.after(Reply::Consumed { granted: true, reads });
            let malformed = Tally::Counted(Metric::TxMalformedFrames);
            let skipped = Request::AddUsed { queue: Direction::Tx, index: head, len: 0 };
            &&& v.tx_iovec.len() == 0 ==> w.tx_frame.len() == 0
            &&& crate::guest::gather_result(
                v.mapped->0,
                v.tx_iovec,
                crate::config::MAX_BUFFER_SIZE as nat,
            ) is Err ==> w.tx_frame.len() == 0
            &&& w.tx_frame.len() < crate::vnet::VNET_HDR_LEN <==> w.request() == skipped
            &&& tally(malformed, w.effects) - tally(malformed, v.effects) == if w.request()
                == skipped {
                1int
            } else {
                0int
            }
        }),
{
    broadcast use lemma_tally_push;

    lemma_tx_frame_read_tally(Tally::Counted(Metric::TxMalformedFrames), v, reads);
    crate::guest::lemma_joined_len(
        reads,
        v.tx_iovec,
        crate::config::MAX_BUFFER_SIZE as nat,
        reads.len(),
    );
}

/// A receive chain that was popped is given back next, with the frame's length if it took the
/// frame, and else with length zero.
pub proof fn law_tried_chain_is_given_back(v: NetView, left: u16, head: u16, descs: Seq<Descriptor>)
    requires
        v.wf(),
        v.stage == (Stage::RxPop { left }),
    ensures
        v.after(Reply::Popped(Some((head, descs)))).request() == (Request::AddUsed {
            queue: Direction::Rx,
            index: head,
            len: if crate::guest::scatter_result(v.mapped->0, descs, v.rx_frame.len()) is Ok {
                v.rx_frame.len() as u32
            } else {
                0
            },
        }),
{
}

/// A read of the configuration gives back what a write that fits put there.
pub proof fn law_config_read_gives_back_a_write(
    config: Seq<u8>,
    offset: nat,
    data: Seq<u8>,
    buf: Seq<u8>,
)
    requires
        offset + data.len() <= config.len(),
        buf.len() == data.len(),
    ensures
        config_read(config_written(config, offset, data), offset, buf) == data,
{
    assert(config_read(config_written(config, offset, data), offset, buf) =~= data);
}

/// The configuration can be written piece by piece.
pub proof fn law_config_is_written_in_pieces(
    config: Seq<u8>,
    offset: nat,
    first: Seq<u8>,
    rest: Seq<u8>,
)
    requires
        offset + first.len() + rest.len() <= config.len(),
    ensures
        config_written(config_written(config, offset, first), offset + first.len(), rest)
            == config_written(config, offset, first + rest),
{
    assert(config_written(config_written(config, offset, first), offset + first.len(), rest)
        =~= config_written(config, offset, first + rest));
}

/// A write of the configuration changes the bytes that it covers and no other, and not the length;
/// one that does not fit changes nothing.
pub proof fn law_config_write_touches_only_its_bytes(config: Seq<u8>, offset: nat, data: Seq<u8>)
    ensures
        ({
            let after = config_written(config, offset, data);
            &&& after.len() == config.len()
            &&& offset + data.len() <= config.len() ==> {
                &&& forall|i: int|
                    0 <= i < config.len() && !(offset <= i < offset + data.len())
                        ==> #[trigger] after[i] == config[i]
                &&& forall|i: int| 0 <= i < data.len() ==> after[offset + i] == #[trigger] data[i]
            }
            &&& offset + data.len() > config.len() ==> after == config
        }),
{
}

/// A read of the configuration gives the bytes from its offset on, as many as both the
/// configuration and the reader's buffer have, and leaves the rest of the buffer as it is.
pub proof fn law_config_read_gives_the_bytes(config: Seq<u8>, offset: nat, data: Seq<u8>)
    ensures
        ({
            let after = config_read(config, offset, data);
            &&& after.len() == data.len()
            &&& forall|i: int|
                0 <= i < data.len() && offset + i < config.len() ==> #[trigger] after[i]
                    == config[offset + i]
            &&& forall|i: int|
                0 <= i < data.len() && offset + i >= config.len() ==> #[trigger] after[i] == data[i]
        }),
{
}

/// A frame is from another source than `mac` if and only if it has an Ethernet header and one of
/// the six bytes of its source address differs.
pub proof fn law_spoofed_frame_has_another_source(frame: Seq<u8>, mac: Seq<u8>)
    requires
        mac.len() == 6,
    ensures
        crate::config::spoofs(frame, mac) <==> frame.len() >= 14 && exists|j: int|
            0 <= j < 6 && frame[6 + j] != #[trigger] mac[j],
{
    if frame.len() >= 14 {
        let src = frame.subrange(6, 12);
        if forall|j: int| 0 <= j < 6 ==> frame[6 + j] == #[trigger] mac[j] {
            assert(src =~= mac);
        } else {
            let j = choose|j: int| 0 <= j < 6 && frame[6 + j] != #[trigger] mac[j];
            assert(src[j] == frame[6 + j]);
        }
    }
}

/// The numbers that drivers, hosts and the wire know the device by.
pub proof fn law_numbers_of_the_device()
    ensures
        crate::config::TYPE_NET == 1,
        crate::config::RX_INDEX == 0,
        crate::config::TX_INDEX == 1,
        crate::config::NUM_QUEUES == 2,
        crate::config::QUEUE_SIZE == 256,
        crate::config::MAX_BUFFER_SIZE == 65562,
        crate::config::MAC_ADDR_LEN == 6,
        crate::config::SRC_MAC_OFFSET == 6,
        crate::config::ETHERNET_HEADER_LEN == 14,
        crate::config::VIRTIO_MMIO_INT_VRING == 1,
        crate::config::TAP_OFFLOADS == 0x17,
        crate::vnet::VNET_HDR_LEN == 12,
        crate::protocol::EAGAIN == 11,
{
}

/// The features that each kind of device offers, bit by bit.
pub proof fn law_offered_features(base: u64, mac: Option<MacAddr>)
    ensures
        fd_features() == 0x1_0000_0482u64,
        tap_features() == 0x1_0000_4c83u64,
        with_mac_feature(base, mac) == if mac is Some {
            base | 0x20u64
        } else {
            base
        },
{
    assert((1u64 << 1u64 | 1u64 << 7u64 | 1u64 << 10u64 | 1u64 << 32u64) == 0x1_0000_0482u64)
        by (bit_vector);
    assert((1u64 << 1u64 | 1u64 << 0u64 | 1u64 << 7u64 | 1u64 << 10u64 | 1u64 << 11u64 | 1u64
        << 14u64 | 1u64 << 32u64) == 0x1_0000_4c83u64) by (bit_vector);
    assert(1u64 << 5u64 == 0x20u64) by (bit_vector);
}

/// Bit `b` of page 0 is feature `b`, and bit `b` of page 1 is feature `32 + b`. After a driver
/// accepts `value` of a page, it has accepted what it had before and those features of `value` that
/// the device offers, and no other.
pub proof fn law_features_bit_by_bit(before: u64, avail: u64, page: u32, value: u32, b: u64)
    requires
        b < 32,
    ensures
        ({
            let after = acked(before, avail, page, value);
            let high = (32 + b) as u64;
            let chosen = (value >> b) & 1 == 1;
            &&& (features_page(avail, 0) >> b) & 1 == 1 <==> (avail >> b) & 1 == 1
            &&& (features_page(avail, 1) >> b) & 1 == 1 <==> (avail >> high) & 1 == 1
            &&& (after >> b) & 1 == 1 <==> (before >> b) & 1 == 1 || page == 0 && chosen && (avail
                >> b) & 1 == 1
            &&& (after >> high) & 1 == 1 <==> (before >> high) & 1 == 1 || page == 1 && chosen && (
            avail >> high) & 1 == 1
        }),
{
    let high = (32 + b) as u64;
    assert(((((avail & 0xffff_ffff) as u32) >> b) & 1 == 1) == ((avail >> b) & 1 == 1))
        by (bit_vector)
        requires
            b < 32,
    ;
    assert(((((avail >> 32) as u32) >> b) & 1 == 1) == ((avail >> high) & 1 == 1)) by (bit_vector)
        requires
            b < 32,
            high == 32 + b,
    ;
    let low_page = value as u64;
    let high_page = (value as u64) << 32;
    assert(((low_page >> b) & 1 == 1) == ((value >> b) & 1 == 1) && (low_page >> high) & 1 == 0)
        by (bit_vector)
        requires
            b < 32,
            high == 32 + b,
            low_page == value as u64,
    ;
    assert(((high_page >> high) & 1 == 1) == ((value >> b) & 1 == 1) && (high_page >> b) & 1 == 0)
        by (bit_vector)
        requires
            b < 32,
            high == 32 + b,
            high_page == (value as u64) << 32,
    ;
    let new = features_of_page(page, value);
    assert(((before | new & avail) >> b) & 1 == 1 <==> (before >> b) & 1 == 1 || (new >> b) & 1 == 1
        && (avail >> b) & 1 == 1) by (bit_vector);
    assert(((before | new & avail) >> high) & 1 == 1 <==> (before >> high) & 1 == 1 || (new >> high)
        & 1 == 1 && (avail >> high) & 1 == 1) by (bit_vector);
    assert((0u64 >> b) & 1 == 0 && (0u64 >> high) & 1 == 0) by (bit_vector);
}

/// A write of the configuration that does not fit leaves it as it is.
pub proof fn law_config_write_that_does_not_fit_is_refused(
    config: Seq<u8>,
    offset: nat,
    data: Seq<u8>,
)
    requires
        offset + data.len() > config.len(),
    ensures
        config_written(config, offset, data) == config,
{
}

/// The driver never comes to have accepted a feature that the device does not offer, and keeps
/// what it had accepted.
pub proof fn law_accepted_features_are_offered(before: u64, avail: u64, page: u32, value: u32)
    requires
        before & !avail == 0,
    ensures
        acked(before, avail, page, value) & !avail == 0,
        acked(before, avail, page, value) & before == before,
{
    let new = features_of_page(page, value);
    assert((before | new & avail) & !avail == 0) by (bit_vector)
        requires
            before & !avail == 0,
    ;
    assert((before | new & avail) & before == before) by (bit_vector);
}

/// A driver that accepts everything on both pages has accepted exactly what the device offers.
pub proof fn law_everything_offered_can_be_accepted(avail: u64)
    ensures
        acked(acked(0, avail, 0, u32::MAX), avail, 1, u32::MAX) == avail,
{
    let low = u32::MAX as u64;
    let high = (u32::MAX as u64) << 32;
    assert((0xffff_ffffu64 << 32) == 0xffff_ffff_0000_0000u64) by (bit_vector);
    assert((0u64 | low & avail) | high & avail == avail) by (bit_vector)
        requires
            low == 0xffff_ffffu64,
            high == 0xffff_ffff_0000_0000u64,
    ;
}

/// The two pages of the feature bits make up all of them, and there is nothing on other pages.
pub proof fn law_pages_make_up_the_features(features: u64, page: u32)
    ensures
        features_of_page(0, features_page(features, 0)) | features_of_page(
            1,
            features_page(features, 1),
        ) == features,
        page >= 2 ==> features_page(features, page) == 0,
{
    assert((((features & 0xffff_ffff) as u32) as u64) | ((((features >> 32) as u32) as u64) << 32)
        == features) by (bit_vector);
}

/// The MAC feature is offered if and only if the device has an address.
pub proof fn law_mac_feature_follows_the_address(mac: Option<MacAddr>)
    ensures
        (with_mac_feature(fd_features(), mac) & 1u64 << VIRTIO_NET_F_MAC != 0) == (mac is Some),
        (with_mac_feature(tap_features(), mac) & 1u64 << VIRTIO_NET_F_MAC != 0) == (mac is Some),
{
    assert(forall|base: u64| #[trigger] (base | 1u64 << 5u64) & 1u64 << 5u64 != 0) by (bit_vector);
    crate::config::lemma_base_features();
}

} // verus!
