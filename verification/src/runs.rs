//! Whole runs of the device: from an event to the next moment of rest, whatever the host answers and
//! whenever it fetches the effects.
use crate::config::MAX_BUFFER_SIZE;
use crate::guest::{access_bytes, gather_result, joined, Descriptor};
use crate::laws::{
    ignores_copies, is_start, law_answers_keep_the_device_sound,
    law_delivered_frame_is_in_the_buffers, lemma_rx_popped_tally, lemma_tally_push,
    lemma_tx_frame_read_tally, tally, waiting, Tally,
};
use crate::protocol::{
    first_write_only, readable, Direction, Effect, Metric, NetView, Reply, Request,
    Stage, TokenType, TxRun, EAGAIN,
};
use crate::vnet::VNET_HDR_LEN;
use vstd::prelude::*;

verus! {

/// What the host does with a device that handles an event.
pub enum Step {
    /// Answers what the device waits for.
    Answer(Reply),
    /// Fetches what the device has for the host to carry out.
    Fetch,
}

/// The device after the answer `reply`.
#[verifier::opaque]
pub open spec fn next(v: NetView, reply: Reply) -> NetView {
    v.after(reply)
}

/// The device after `step`.
pub open spec fn stepped(v: NetView, step: Step) -> NetView {
    match step {
        Step::Answer(reply) => next(v, reply),
        Step::Fetch => NetView { effects: Seq::empty(), ..v },
    }
}

/// The device after `steps`, one after the other.
pub open spec fn run(v: NetView, steps: Seq<Step>) -> NetView
    decreases steps.len(),
{
    if steps.len() == 0 {
        v
    } else {
        stepped(run(v, steps.drop_last()), steps.last())
    }
}

/// Each answer among `steps` answers what the device waits for when it comes.
pub open spec fn valid_run(v: NetView, steps: Seq<Step>) -> bool
    decreases steps.len(),
{
    steps.len() > 0 ==> {
        &&& valid_run(v, steps.drop_last())
        &&& steps.last() matches Step::Answer(reply) ==> run(v, steps.drop_last()).accepts(reply)
    }
}

/// The effects that the host has fetched in a run, oldest first.
pub open spec fn fetched(v: NetView, steps: Seq<Step>) -> Seq<Effect>
    decreases steps.len(),
{
    if steps.len() == 0 {
        Seq::empty()
    } else {
        let before = fetched(v, steps.drop_last());
        match steps.last() {
            Step::Answer(_) => before,
            Step::Fetch => before + run(v, steps.drop_last()).effects,
        }
    }
}

/// What the effects of a run add up to: those fetched and those that are left to fetch, less those
/// that were left when it began.
pub open spec fn told(what: Tally, v: NetView, steps: Seq<Step>) -> int {
    tally(what, fetched(v, steps)) + tally(what, run(v, steps).effects) - tally(what, v.effects)
}

proof fn lemma_chain_popped_adds(
    v: NetView,
    left: u16,
    chain: (u16, Seq<Descriptor>),
    effects: Seq<Effect>,
)
    ensures
        ({
            let w = v.rx_popped(left, Some(chain));
            let added = w.effects.skip(v.effects.len() as int);
            &&& w.effects == v.effects + added
            &&& (NetView { effects, ..v }).rx_popped(left, Some(chain)) == (NetView {
                effects: effects + added,
                ..w
            })
        }),
{
    let w = v.rx_popped(left, Some(chain));
    let u = (NetView { effects, ..v }).rx_popped(left, Some(chain));
    let len = v.rx_frame.len();
    let copied = crate::protocol::counts(
        Metric::RxCount,
        crate::guest::scatter_end(v.mapped->0, chain.1, len, 0),
    );
    let failure = crate::protocol::scatter_failure(
        crate::guest::scatter_result(v.mapped->0, chain.1, len),
    );
    assert(w.effects =~= v.effects + (copied + failure));
    assert(u.effects =~= effects + (copied + failure));
    assert(w.effects.skip(v.effects.len() as int) =~= copied + failure);
}

proof fn lemma_frame_read_adds(v: NetView, reads: Seq<Seq<u8>>, effects: Seq<Effect>)
    ensures
        ({
            let w = v.tx_frame_read(reads);
            let added = w.effects.skip(v.effects.len() as int);
            &&& w.effects == v.effects + added
            &&& (NetView { effects, ..v }).tx_frame_read(reads) == (NetView {
                effects: effects + added,
                ..w
            })
        }),
{
    let w = v.tx_frame_read(reads);
    let u = (NetView { effects, ..v }).tx_frame_read(reads);
    let limit = MAX_BUFFER_SIZE as nat;
    let copied = crate::protocol::counts(
        Metric::TxCount,
        crate::guest::gather_end(v.mapped->0, v.tx_iovec, limit, 0),
    );
    let failure = crate::protocol::gather_failure(gather_result(v.mapped->0, v.tx_iovec, limit));
    assert(w.effects =~= v.effects + (copied + failure));
    assert(u.effects =~= effects + (copied + failure));
    assert(w.effects.skip(v.effects.len() as int) =~= copied + failure);
}

/// With `effects` in place of those of `v`, the answer leads to the same state and adds the same
/// effects.
spec fn adds_the_same(v: NetView, reply: Reply, effects: Seq<Effect>) -> bool {
    let w = v.after(reply);
    let added = w.effects.skip(v.effects.len() as int);
    &&& w.effects =~= v.effects + added
    &&& (NetView { effects, ..v }).after(reply) =~= (NetView { effects: effects + added, ..w })
}

#[verifier::rlimit(60)]
#[verifier::spinoff_prover]
proof fn lemma_consumed_adds(v: NetView, granted: bool, reads: Seq<Seq<u8>>, effects: Seq<Effect>)
    ensures
        adds_the_same(v, (Reply::Consumed { granted, reads }), effects),
{
    let reply = Reply::Consumed { granted, reads };
    match v.stage {
        Stage::RxOps => {
            assert(adds_the_same(v, reply, effects));
        },
        Stage::RxBytes => {
            assert(adds_the_same(v, reply, effects));
        },
        Stage::TxOps { .. } => {
            assert(adds_the_same(v, reply, effects));
        },
        Stage::TxBytes { .. } => {
            if granted {
                lemma_frame_read_adds(v, reads, effects);
            }
            assert(adds_the_same(v, reply, effects));
        },
        _ => {
            assert(adds_the_same(v, reply, effects));
        },
    }
}

/// The effects that have not been fetched decide nothing: whatever they are, the device accepts the
/// same answers, goes to the same state, and adds the same effects.
#[verifier::rlimit(60)]
#[verifier::spinoff_prover]
pub proof fn law_effects_decide_nothing(v: NetView, reply: Reply, effects: Seq<Effect>)
    ensures
        (NetView { effects, ..v }).accepts(reply) == v.accepts(reply),
        (NetView { effects, ..v }).request() == v.request(),
        ({
            let w = v.after(reply);
            let added = w.effects.skip(v.effects.len() as int);
            &&& w.effects == v.effects + added
            &&& (NetView { effects, ..v }).after(reply) == (NetView {
                effects: effects + added,
                ..w
            })
        }),
{
    match reply {
        Reply::MmdsFrame(_) => {
            assert(adds_the_same(v, reply, effects));
        },
        Reply::TapRead(_) => {
            assert(adds_the_same(v, reply, effects));
        },
        Reply::Consumed { granted, reads } => {
            lemma_consumed_adds(v, granted, reads, effects);
        },
        Reply::Popped(chain) => {
            if let (Some(c), Stage::RxPop { left }) = (chain, v.stage) {
                lemma_chain_popped_adds(v, left, c, effects);
            }
            assert(adds_the_same(v, reply, effects));
        },
        Reply::UsedAdded(_) => {
            assert(adds_the_same(v, reply, effects));
        },
        Reply::Detoured(_) => {
            assert(adds_the_same(v, reply, effects));
        },
        Reply::TapWritten(_) => {
            assert(adds_the_same(v, reply, effects));
        },
        Reply::Signaled(_) => {
            assert(adds_the_same(v, reply, effects));
        },
    }
}

proof fn lemma_tally_add(what: Tally, a: Seq<Effect>, b: Seq<Effect>)
    ensures
        tally(what, a + b) == tally(what, a) + tally(what, b),
    decreases b.len(),
{
    if b.len() == 0 {
        assert(a + b =~= a);
    } else {
        lemma_tally_add(what, a, b.drop_last());
        assert((a + b).drop_last() =~= a + b.drop_last());
    }
}

/// What the last step of a run adds to what its effects add up to.
proof fn lemma_told_step(what: Tally, v: NetView, steps: Seq<Step>)
    requires
        steps.len() > 0,
    ensures
        ({
            let s = run(v, steps.drop_last());
            told(what, v, steps) == told(what, v, steps.drop_last()) + match steps.last() {
                Step::Answer(reply) => tally(what, next(s, reply).effects) - tally(what, s.effects),
                Step::Fetch => 0,
            }
        }),
{
    lemma_tally_add(what, fetched(v, steps.drop_last()), run(v, steps.drop_last()).effects);
}

proof fn lemma_run_wf(v: NetView, steps: Seq<Step>)
    requires
        v.wf(),
        valid_run(v, steps),
    ensures
        run(v, steps).wf(),
    decreases steps.len(),
{
    if steps.len() > 0 {
        lemma_run_wf(v, steps.drop_last());
        if let Step::Answer(reply) = steps.last() {
            reveal(next);
            law_answers_keep_the_device_sound(run(v, steps.drop_last()), reply);
        }
    }
}

/// What the answers of a run can be added up by.
pub enum Quantity {
    /// Tokens that a rate limiter gave.
    Taken(Direction, TokenType),
    /// Frames that the metadata service or the tap gave.
    FramesRead,
    /// Received frames that the driver was given, and their bytes.
    FramesDelivered,
    BytesDelivered,
    /// Chains that were read for transmission.
    ChainsRead,
    /// Transmitted frames that the metadata service took, and their bytes.
    FramesDetoured,
    BytesDetoured,
    /// Transmitted frames that the tap took, and their bytes.
    FramesSent,
    BytesSent,
    /// Chains that a used ring took back.
    ChainsReturned(Direction),
    /// Interrupts asked for at the end of a pass.
    Interrupts(Direction),
}

/// What the answer `reply` adds to a quantity.
pub open spec fn amount(what: Quantity, v: NetView, reply: Reply) -> int {
    match (what, v.request(), reply) {
        (
            Quantity::Taken(l, k),
            Request::Consume { limiter, tokens, kind },
            Reply::Consumed { granted, .. },
        ) => if granted && limiter == l && kind == k {
            tokens as int
        } else {
            0
        },
        (Quantity::FramesRead, _, Reply::MmdsFrame(Some(_))) => 1,
        (Quantity::FramesRead, _, Reply::TapRead(Ok(_))) => 1,
        (Quantity::FramesDelivered, _, Reply::UsedAdded(Ok(_))) => if v.stage matches Stage::RxUsed {
            delivered: true,
            ..
        } {
            1
        } else {
            0
        },
        (Quantity::BytesDelivered, _, Reply::UsedAdded(Ok(_))) => if v.stage matches Stage::RxUsed {
            delivered: true,
            ..
        } {
            v.rx_frame.len() as int
        } else {
            0
        },
        (Quantity::ChainsRead, _, Reply::Consumed { granted: true, .. }) => if v.stage is TxBytes {
            1
        } else {
            0
        },
        (Quantity::FramesDetoured, _, Reply::Detoured(true)) => 1,
        (Quantity::BytesDetoured, _, Reply::Detoured(true)) => v.tx_frame.len() as int,
        (Quantity::FramesSent, _, Reply::TapWritten(true)) => 1,
        (Quantity::BytesSent, _, Reply::TapWritten(true)) => v.tx_frame.len() as int,
        (
            Quantity::ChainsReturned(q),
            Request::AddUsed { queue, .. },
            Reply::UsedAdded(Ok(_)),
        ) => if queue == q {
            1
        } else {
            0
        },
        (Quantity::Interrupts(q), _, Reply::Signaled(_)) => if (q == Direction::Rx) == (v.stage
            == Stage::RxSignal) {
            1
        } else {
            0
        },
        _ => 0,
    }
}

/// What the answers of a run add up to.
pub open spec fn total(what: Quantity, v: NetView, steps: Seq<Step>) -> int
    decreases steps.len(),
{
    if steps.len() == 0 {
        0
    } else {
        total(what, v, steps.drop_last()) + match steps.last() {
            Step::Answer(reply) => amount(what, run(v, steps.drop_last()), reply),
            Step::Fetch => 0,
        }
    }
}

// Budgets.

/// Tokens that a device in the middle of a frame has taken for it and not settled yet.
pub open spec fn held(limiter: Direction, kind: TokenType, v: NetView) -> int {
    match (limiter, kind, v.stage) {
        (Direction::Rx, TokenType::Ops, Stage::RxBytes) => 1,
        (Direction::Rx, TokenType::Ops, Stage::RxPop { .. }) => 1,
        (Direction::Rx, TokenType::Ops, Stage::RxUsed { .. }) => 1,
        (Direction::Rx, TokenType::Bytes, Stage::RxPop { .. }) => v.rx_frame.len() as int,
        (Direction::Rx, TokenType::Bytes, Stage::RxUsed { .. }) => v.rx_frame.len() as int,
        (Direction::Tx, TokenType::Ops, Stage::TxBytes { .. }) => 1,
        _ => 0,
    }
}

/// Tokens that one answer settles for good. A received frame costs one operation and its bytes when
/// it is delivered; a transmitted chain costs one operation and the bytes that were asked for when
/// it is read, less what the metadata service took of it.
spec fn cost(limiter: Direction, kind: TokenType, v: NetView, reply: Reply) -> int {
    match (limiter, kind) {
        (Direction::Rx, TokenType::Ops) => amount(Quantity::FramesDelivered, v, reply),
        (Direction::Rx, TokenType::Bytes) => amount(Quantity::BytesDelivered, v, reply),
        (Direction::Tx, TokenType::Ops) => amount(Quantity::ChainsRead, v, reply) - amount(
            Quantity::FramesDetoured,
            v,
            reply,
        ),
        (Direction::Tx, TokenType::Bytes) => amount(Quantity::Taken(limiter, kind), v, reply)
            - amount(Quantity::BytesDetoured, v, reply),
    }
}

/// Tokens that a run settles for good.
pub open spec fn spent(limiter: Direction, kind: TokenType, v: NetView, steps: Seq<Step>) -> int {
    match (limiter, kind) {
        (Direction::Rx, TokenType::Ops) => total(Quantity::FramesDelivered, v, steps),
        (Direction::Rx, TokenType::Bytes) => total(Quantity::BytesDelivered, v, steps),
        (Direction::Tx, TokenType::Ops) => total(Quantity::ChainsRead, v, steps) - total(
            Quantity::FramesDetoured,
            v,
            steps,
        ),
        (Direction::Tx, TokenType::Bytes) => total(Quantity::Taken(limiter, kind), v, steps)
            - total(Quantity::BytesDetoured, v, steps),
    }
}

spec fn step_budget(limiter: Direction, kind: TokenType, v: NetView, reply: Reply) -> bool {
    let what = Tally::Returned(limiter, kind);
    let returned = tally(what, next(v, reply).effects) - tally(what, v.effects);
    amount(Quantity::Taken(limiter, kind), v, reply) - returned == cost(limiter, kind, v, reply)
        + held(limiter, kind, next(v, reply)) - held(limiter, kind, v)
}

// Counters.

/// The counter that follows a quantity.
pub open spec fn counter_of(what: Quantity) -> Option<Metric> {
    match what {
        Quantity::FramesDelivered => Some(Metric::RxPacketsCount),
        Quantity::BytesDelivered => Some(Metric::RxBytesCount),
        Quantity::FramesDetoured => Some(Metric::MmdsRxAccepted),
        Quantity::FramesSent => Some(Metric::TxPacketsCount),
        Quantity::BytesSent => Some(Metric::TxBytesCount),
        _ => None,
    }
}

spec fn step_counter(what: Quantity, v: NetView, reply: Reply) -> bool {
    let counted = Tally::Counted(counter_of(what)->0);
    tally(counted, next(v, reply).effects) == tally(counted, v.effects) + amount(what, v, reply)
}

// Received frames.

spec fn step_frames(v: NetView, reply: Reply) -> bool {
    waiting(v) + amount(Quantity::FramesRead, v, reply) == amount(
        Quantity::FramesDelivered,
        v,
        reply,
    ) + waiting(next(v, reply))
}

/// The frame that waits for delivery, if there is one, with its virtio-net header.
pub open spec fn waiting_frames(v: NetView) -> Seq<Seq<u8>> {
    if waiting(v) == 1 {
        seq![v.rx_frame]
    } else {
        Seq::empty()
    }
}

/// The frames that the metadata service or the tap gave in a run, in order. Those of the metadata
/// service go behind an empty virtio-net header.
pub open spec fn frames_read(steps: Seq<Step>) -> Seq<Seq<u8>>
    decreases steps.len(),
{
    if steps.len() == 0 {
        Seq::empty()
    } else {
        let before = frames_read(steps.drop_last());
        match steps.last() {
            Step::Answer(Reply::MmdsFrame(Some(bytes))) => before.push(
                Seq::new(VNET_HDR_LEN as nat, |i: int| 0u8) + bytes,
            ),
            Step::Answer(Reply::TapRead(Ok(frame))) => before.push(frame),
            _ => before,
        }
    }
}

/// The bytes that went to or came from guest memory between the records of accesses `before` and
/// `after`, one access after the other.
pub open spec fn bytes_moved(
    before: Seq<(bool, u64, Seq<u8>)>,
    after: Seq<(bool, u64, Seq<u8>)>,
) -> Seq<u8> {
    let data = access_bytes(after.skip(before.len() as int));
    joined(data, data.len())
}

/// The record of accesses when a queue was asked last for a chain.
pub open spec fn accesses_before_chain(v: NetView, steps: Seq<Step>) -> Seq<(bool, u64, Seq<u8>)>
    decreases steps.len(),
{
    if steps.len() == 0 {
        v.accesses
    } else {
        match steps.last() {
            Step::Answer(Reply::Popped(_)) => run(v, steps.drop_last()).accesses,
            _ => accesses_before_chain(v, steps.drop_last()),
        }
    }
}

/// The frames that the driver was given in a run, in order: for each receive chain that was given
/// back as holding a frame, the bytes that were written to guest memory since the chain came.
pub open spec fn frames_delivered(v: NetView, steps: Seq<Step>) -> Seq<Seq<u8>>
    decreases steps.len(),
{
    if steps.len() == 0 {
        Seq::empty()
    } else {
        let fewer = steps.drop_last();
        let before = frames_delivered(v, fewer);
        match (run(v, fewer).stage, steps.last()) {
            (
                Stage::RxUsed { delivered: true, .. },
                Step::Answer(Reply::UsedAdded(Ok(_))),
            ) => before.push(bytes_moved(accesses_before_chain(v, fewer), run(v, fewer).accesses)),
            _ => before,
        }
    }
}

spec fn is_placed(v: NetView) -> bool {
    v.stage matches Stage::RxUsed { delivered: true, .. }
}

spec fn step_contents(v: NetView, reply: Reply) -> bool {
    let w = next(v, reply);
    &&& match reply {
        Reply::MmdsFrame(Some(bytes)) => waiting(v) == 0 && waiting_frames(w) =~= seq![
            Seq::new(VNET_HDR_LEN as nat, |i: int| 0u8) + bytes,
        ],
        Reply::TapRead(Ok(frame)) => waiting(v) == 0 && waiting_frames(w) =~= seq![frame],
        _ => if is_placed(v) && reply matches Reply::UsedAdded(Ok(_)) {
            waiting_frames(v) =~= seq![v.rx_frame] && waiting(w) == 0
        } else {
            waiting_frames(w) =~= waiting_frames(v)
        },
    }
    &&& is_placed(w) ==> reply is Popped && bytes_moved(v.accesses, w.accesses) == w.rx_frame
}

// Transmitted frames.

/// The chain that the transmit queue gave last in a run.
pub open spec fn last_chain(v: NetView, steps: Seq<Step>) -> Option<(u16, Seq<Descriptor>)>
    decreases steps.len(),
{
    if steps.len() == 0 {
        None
    } else {
        match (run(v, steps.drop_last()).request(), steps.last()) {
            (
                Request::Pop(Direction::Tx),
                Step::Answer(Reply::Popped(Some(chain))),
            ) => Some(chain),
            _ => last_chain(v, steps.drop_last()),
        }
    }
}

/// The frame in the buffers `descs`: the bytes that came from guest memory between the records of
/// accesses `before` and `after`, or nothing if a buffer may not or cannot be read.
pub open spec fn gathered_frame(
    mapped: Set<u64>,
    descs: Seq<Descriptor>,
    before: Seq<(bool, u64, Seq<u8>)>,
    after: Seq<(bool, u64, Seq<u8>)>,
) -> Seq<u8> {
    if (forall|j: int| 0 <= j < descs.len() ==> !(#[trigger] descs[j]).write_only) && gather_result(
        mapped,
        descs,
        MAX_BUFFER_SIZE as nat,
    ) is Ok {
        bytes_moved(before, after)
    } else {
        Seq::empty()
    }
}

/// The device looks into the frame `frame`, and it has no complete virtio-net header.
pub open spec fn is_malformed(v: NetView, frame: Seq<u8>) -> bool {
    (v.mmds || v.guest_mac is Some) && frame.len() < VNET_HDR_LEN
}

/// The frames gathered from transmit chains in a run, in order, each with the head of its chain;
/// malformed ones are left out.
pub open spec fn frames_gathered(v: NetView, steps: Seq<Step>) -> Seq<(u16, Seq<u8>)>
    decreases steps.len(),
{
    if steps.len() == 0 {
        Seq::empty()
    } else {
        let fewer = steps.drop_last();
        let s = run(v, fewer);
        let before = frames_gathered(v, fewer);
        match (s.stage, steps.last()) {
            (
                Stage::TxBytes { .. },
                Step::Answer(Reply::Consumed { granted: true, .. }),
            ) => {
                let (head, descs) = last_chain(v, fewer)->0;
                let frame = gathered_frame(
                    s.mapped->0,
                    descs,
                    s.accesses,
                    run(v, steps).accesses,
                );
                if is_malformed(s, frame) {
                    before
                } else {
                    before.push((head, frame))
                }
            },
            _ => before,
        }
    }
}

/// The frames that the metadata service took or that were written to the tap in a run, in order,
/// each with the head of its chain.
pub open spec fn frames_sent(v: NetView, steps: Seq<Step>) -> Seq<(u16, Seq<u8>)>
    decreases steps.len(),
{
    if steps.len() == 0 {
        Seq::empty()
    } else {
        let s = run(v, steps.drop_last());
        let before = frames_sent(v, steps.drop_last());
        match (s.stage, steps.last()) {
            (
                Stage::TxDetour { head, .. },
                Step::Answer(Reply::Detoured(true)),
            ) => before.push((head, s.tx_frame)),
            (
                Stage::TxTap { head, .. },
                Step::Answer(Reply::TapWritten(_)),
            ) => before.push((head, s.tx_frame)),
            _ => before,
        }
    }
}

/// The frame on its way to the metadata service or to the tap, with the head of its chain.
pub open spec fn outgoing(v: NetView) -> Seq<(u16, Seq<u8>)> {
    match v.stage {
        Stage::TxDetour { head, .. } => seq![(head, v.tx_frame)],
        Stage::TxTap { head, .. } => seq![(head, v.tx_frame)],
        _ => Seq::empty(),
    }
}

/// The device has noted the buffers of `chain`, if it is about to read a chain.
spec fn is_noted(v: NetView, chain: Option<(u16, Seq<Descriptor>)>) -> bool {
    match v.stage {
        Stage::TxOps { head, .. } | Stage::TxBytes { head, .. } => {
            &&& chain matches Some((h, descs)) && h == head && v.tx_iovec == readable(descs)
        },
        _ => true,
    }
}

spec fn step_sent(v: NetView, reply: Reply) -> bool {
    let w = next(v, reply);
    match (v.stage, reply) {
        (Stage::TxBytes { head, .. }, Reply::Consumed { granted: true, .. }) => {
            &&& w.tx_frame == if gather_result(
                v.mapped->0,
                v.tx_iovec,
                MAX_BUFFER_SIZE as nat,
            ) is Ok {
                bytes_moved(v.accesses, w.accesses)
            } else {
                Seq::empty()
            }
            &&& v.tx_iovec.len() == 0 ==> w.accesses == v.accesses
            &&& outgoing(w) =~= if is_malformed(v, w.tx_frame) {
                Seq::empty()
            } else {
                seq![(head, w.tx_frame)]
            }
        },
        (Stage::TxDetour { .. }, Reply::Detoured(true)) => outgoing(w).len() == 0,
        (Stage::TxTap { .. }, Reply::TapWritten(_)) => outgoing(w).len() == 0,
        _ => outgoing(w) =~= outgoing(v),
    }
}

spec fn step_noted(v: NetView, reply: Reply, chain: Option<(u16, Seq<Descriptor>)>) -> bool {
    is_noted(
        next(v, reply),
        match (v.request(), reply) {
            (Request::Pop(Direction::Tx), Reply::Popped(Some(c))) => Some(c),
            _ => chain,
        },
    )
}

// Chains.

/// The heads of the chains popped from `queue` in a run, but for those put back at its head.
pub open spec fn popped_heads(queue: Direction, v: NetView, steps: Seq<Step>) -> Seq<u16>
    decreases steps.len(),
{
    if steps.len() == 0 {
        Seq::empty()
    } else {
        let before = popped_heads(queue, v, steps.drop_last());
        match steps.last() {
            Step::Answer(reply) => heads_after(queue, before, run(v, steps.drop_last()), reply),
            Step::Fetch => before,
        }
    }
}

/// `heads`, the heads of popped chains, after one more answer.
pub open spec fn heads_after(
    queue: Direction,
    heads: Seq<u16>,
    v: NetView,
    reply: Reply,
) -> Seq<u16> {
    match (v.request(), reply) {
        (Request::Pop(q), Reply::Popped(Some((head, _)))) => if q == queue {
            heads.push(head)
        } else {
            heads
        },
        _ => if queue == Direction::Tx && undone(v, reply) {
            heads.drop_last()
        } else {
            heads
        },
    }
}

/// The answer makes the host put a chain back at the head of the transmit queue.
pub open spec fn undone(v: NetView, reply: Reply) -> bool {
    tally(Tally::Undone, next(v, reply).effects) > tally(Tally::Undone, v.effects)
}

/// The heads of the chains offered to the used ring of `queue` in a run.
pub open spec fn returned_heads(queue: Direction, v: NetView, steps: Seq<Step>) -> Seq<u16>
    decreases steps.len(),
{
    if steps.len() == 0 {
        Seq::empty()
    } else {
        let before = returned_heads(queue, v, steps.drop_last());
        match (run(v, steps.drop_last()).request(), steps.last()) {
            (
                Request::AddUsed { queue: q, index, .. },
                Step::Answer(Reply::UsedAdded(_)),
            ) => if q == queue {
                before.push(index)
            } else {
                before
            },
            _ => before,
        }
    }
}

/// The chain of `queue` that the device works on.
pub open spec fn in_hand(queue: Direction, v: NetView) -> Seq<u16> {
    match (queue, v.stage) {
        (Direction::Rx, Stage::RxUsed { head, .. }) => seq![head],
        (Direction::Tx, Stage::TxOps { head, .. }) => seq![head],
        (Direction::Tx, Stage::TxBytes { head, .. }) => seq![head],
        (Direction::Tx, Stage::TxDetour { head, .. }) => seq![head],
        (Direction::Tx, Stage::TxTap { head, .. }) => seq![head],
        (Direction::Tx, Stage::TxUsed { head, .. }) => seq![head],
        _ => Seq::empty(),
    }
}

spec fn step_heads(queue: Direction, v: NetView, reply: Reply) -> bool {
    match (v.request(), reply) {
        (Request::Pop(q), Reply::Popped(Some((head, _)))) => {
            &&& q == queue ==> in_hand(queue, v).len() == 0
            &&& in_hand(queue, next(v, reply)) =~= if q == queue {
                seq![head]
            } else {
                in_hand(queue, v)
            }
        },
        (Request::AddUsed { queue: q, index, .. }, Reply::UsedAdded(_)) => {
            &&& !undone(v, reply)
            &&& q == queue ==> in_hand(queue, v) =~= seq![index] && in_hand(
                queue,
                next(v, reply),
            ).len() == 0
            &&& q != queue ==> in_hand(queue, next(v, reply)) =~= in_hand(queue, v)
        },
        _ => if queue == Direction::Tx && undone(v, reply) {
            in_hand(queue, v).len() == 1 && in_hand(queue, next(v, reply)).len() == 0
        } else {
            in_hand(queue, next(v, reply)) =~= in_hand(queue, v)
        },
    }
}

// Interrupts.

/// A chain has been given back and no interrupt has been raised since.
pub open spec fn driver_untold(steps: Seq<Step>) -> bool
    decreases steps.len(),
{
    if steps.len() == 0 {
        false
    } else {
        match steps.last() {
            Step::Answer(Reply::UsedAdded(Ok(_))) => true,
            Step::Answer(Reply::Signaled(Ok(_))) => false,
            _ => driver_untold(steps.drop_last()),
        }
    }
}

/// What a transmit pass in `stage` has come to; `None` in other stages.
pub open spec fn tx_run(stage: Stage) -> Option<TxRun> {
    match stage {
        Stage::TxPop { run }
        | Stage::TxOps { run, .. }
        | Stage::TxBytes { run, .. }
        | Stage::TxDetour { run, .. }
        | Stage::TxTap { run, .. }
        | Stage::TxUsed { run, .. }
        | Stage::TxSignal { run } => Some(run),
        _ => None,
    }
}

/// The device is in a receive pass.
pub open spec fn is_receiving(stage: Stage) -> bool {
    stage != Stage::Idle && tx_run(stage) is None
}

/// A tap read failed, and not because it would block.
pub open spec fn is_failed_read(reply: Reply) -> bool {
    reply matches Reply::TapRead(Err(code)) && code != Some(EAGAIN)
}

/// The transmit queue did not take a chain back.
pub open spec fn is_refused_chain(v: NetView, reply: Reply) -> bool {
    v.stage is TxUsed && reply matches Reply::UsedAdded(Err(_))
}

/// A tap read of the run failed.
pub open spec fn read_failed(steps: Seq<Step>) -> bool
    decreases steps.len(),
{
    steps.len() > 0 && {
        ||| read_failed(steps.drop_last())
        ||| steps.last() matches Step::Answer(reply) && is_failed_read(reply)
    }
}

/// The transmit queue refused a chain of the run.
pub open spec fn chain_refused(v: NetView, steps: Seq<Step>) -> bool
    decreases steps.len(),
{
    steps.len() > 0 && {
        ||| chain_refused(v, steps.drop_last())
        ||| steps.last() matches Step::Answer(reply) && is_refused_chain(
            run(v, steps.drop_last()),
            reply,
        )
    }
}

/// The device owes the driver an interrupt for chains that this pass has given back.
spec fn owes(v: NetView) -> bool {
    match tx_run(v.stage) {
        Some(run) => run.raise_irq,
        None => v.stage != Stage::Idle && v.rx_deferred_irqs,
    }
}

spec fn step_told(v: NetView, reply: Reply) -> bool {
    let w = next(v, reply);
    let failed = tally(Tally::Failures, w.effects) > tally(Tally::Failures, v.effects);
    &&& tally(Tally::Failures, w.effects) >= tally(Tally::Failures, v.effects)
    &&& failed || match reply {
        Reply::UsedAdded(Ok(_)) => owes(w),
        Reply::Signaled(Ok(_)) => true,
        _ => owes(v) ==> owes(w),
    }
}

/// How an answer moves a receive pass on to its interrupt, or past it.
spec fn step_receiving(v: NetView, reply: Reply) -> bool {
    let w = next(v, reply);
    is_receiving(v.stage) ==> {
        &&& tx_run(w.stage) is None
        &&& v.stage == Stage::RxSignal ==> w.stage == Stage::Idle && reply is Signaled
        &&& v.stage != Stage::RxSignal ==> {
            &&& reply !is Signaled
            &&& w.rx_deferred_irqs == (v.rx_deferred_irqs || amount(
                Quantity::ChainsReturned(Direction::Rx),
                v,
                reply,
            ) == 1)
            &&& w.stage == Stage::RxSignal ==> w.rx_deferred_irqs
            &&& w.stage == Stage::Idle && !is_failed_read(reply) ==> !w.rx_deferred_irqs
        }
    }
}

/// How an answer moves a transmit pass on to its interrupt, or past it.
spec fn step_transmitting(v: NetView, reply: Reply) -> bool {
    let w = next(v, reply);
    let returned = amount(Quantity::ChainsReturned(Direction::Tx), v, reply) == 1;
    let asked = amount(Quantity::Interrupts(Direction::Tx), v, reply) == 1;
    match tx_run(v.stage) {
        None => tx_run(w.stage) is None && !returned && !asked,
        Some(run) => if v.stage is TxSignal {
            tx_run(w.stage) is None && asked && !returned
        } else {
            &&& !asked
            &&& tx_run(w.stage) matches Some(later) ==> later.raise_irq == (run.raise_irq
                || returned)
            &&& w.stage is TxSignal ==> run.raise_irq
            &&& tx_run(w.stage) is None && !is_refused_chain(v, reply) ==> !run.raise_irq
                && !returned
        },
    }
}

/// How an answer of a transmit pass bears on the answer of the metadata service.
spec fn step_serving(v: NetView, reply: Reply) -> bool {
    let w = next(v, reply);
    let taken = amount(Quantity::FramesDetoured, v, reply) == 1;
    tx_run(v.stage) matches Some(run) ==> match tx_run(w.stage) {
        Some(later) => {
            &&& w.rx_deferred_frame == v.rx_deferred_frame
            &&& later.serve_mmds == (run.serve_mmds || taken && !v.rx_deferred_frame)
        },
        None => {
            &&& !taken
            &&& !is_refused_chain(v, reply) && !is_failed_signal(reply) ==> w.stage
                == if run.serve_mmds {
                Stage::RxMmds
            } else {
                Stage::Idle
            }
        },
    }
}

/// The interrupt could not be raised.
pub open spec fn is_failed_signal(reply: Reply) -> bool {
    reply matches Reply::Signaled(Err(_))
}

// Tries.

/// Number of receive chains asked for since the budget for the frame was granted.
pub open spec fn tries(v: NetView, steps: Seq<Step>) -> int
    decreases steps.len(),
{
    if steps.len() == 0 {
        0
    } else {
        let before = tries(v, steps.drop_last());
        match (run(v, steps.drop_last()).stage, steps.last()) {
            (Stage::RxBytes, Step::Answer(_)) => 0,
            (Stage::RxPop { .. }, Step::Answer(_)) => before + 1,
            _ => before,
        }
    }
}

/// The tries made and those left make up the entries of the receive queue.
spec fn tries_add_up(v: NetView, made: int) -> bool {
    &&& 0 <= made <= v.rx_queue_size
    &&& match v.stage {
        Stage::RxPop { left } => made + left == v.rx_queue_size,
        Stage::RxUsed { left, .. } => made + left == v.rx_queue_size + 1,
        _ => true,
    }
}

spec fn step_tries(v: NetView, reply: Reply, made: int) -> bool {
    &&& next(v, reply).rx_queue_size == v.rx_queue_size
    &&& tries_add_up(
        next(v, reply),
        match v.stage {
            Stage::RxBytes => 0,
            Stage::RxPop { .. } => made + 1,
            _ => made,
        },
    )
}

// One answer.

/// What holds of every answer that the device accepts.
spec fn step_holds(v: NetView, reply: Reply) -> bool {
    &&& forall|limiter: Direction, kind: TokenType| #[trigger] step_budget(limiter, kind, v, reply)
    &&& forall|what: Quantity|
        counter_of(what) is Some ==> #[trigger] step_counter(what, v, reply)
    &&& step_frames(v, reply)
    &&& step_contents(v, reply)
    &&& step_sent(v, reply)
    &&& forall|chain: Option<(u16, Seq<Descriptor>)>|
        is_noted(v, chain) ==> #[trigger] step_noted(v, reply, chain)
    &&& forall|queue: Direction| #[trigger] step_heads(queue, v, reply)
    &&& step_told(v, reply)
    &&& step_receiving(v, reply)
    &&& step_transmitting(v, reply)
    &&& step_serving(v, reply)
    &&& forall|made: int| tries_add_up(v, made) ==> #[trigger] step_tries(v, reply, made)
}

#[verifier::rlimit(100)]
#[verifier::spinoff_prover]
proof fn lemma_step_consumed(v: NetView, granted: bool, reads: Seq<Seq<u8>>)
    requires
        v.wf(),
        v.accepts((Reply::Consumed { granted, reads })),
    ensures
        step_holds(v, (Reply::Consumed { granted, reads })),
{
    reveal(next);
    broadcast use lemma_tally_push;

    let reply = Reply::Consumed { granted, reads };
    match v.stage {
        Stage::TxBytes { .. } => {
            if granted {
                assert forall|what: Tally| ignores_copies(what) implies (
                #[trigger] tally(what, v.tx_frame_read(reads).effects)) == tally(
                    what,
                    v.effects,
                ) by {
                    lemma_tx_frame_read_tally(what, v, reads);
                }
                let read = crate::guest::share_reads(v.tx_iovec, reads);
                assert((v.accesses + read).skip(v.accesses.len() as int) =~= read);
                assert(access_bytes(read) =~= reads);
                assert(v.tx_iovec.len() == 0 ==> v.accesses + read =~= v.accesses);
            }
            assert(step_holds(v, reply));
        },
        Stage::TxOps { .. } => {
            assert(step_holds(v, reply));
        },
        Stage::RxOps => {
            assert(step_holds(v, reply));
        },
        _ => {
            assert(step_holds(v, reply));
        },
    }
}

#[verifier::rlimit(100)]
#[verifier::spinoff_prover]
proof fn lemma_step_popped(v: NetView, chain: Option<(u16, Seq<Descriptor>)>)
    requires
        v.wf(),
        v.accepts(Reply::Popped(chain)),
    ensures
        step_holds(v, Reply::Popped(chain)),
{
    reveal(next);
    broadcast use lemma_tally_push;

    let reply = Reply::Popped(chain);
    match (v.stage, chain) {
        (Stage::RxPop { left }, Some((head, descs))) => {
            assert forall|what: Tally| ignores_copies(what) implies (
            #[trigger] tally(what, v.rx_popped(left, chain).effects)) == tally(
                what,
                v.effects,
            ) by {
                lemma_rx_popped_tally(what, v, left, (head, descs));
            }
            if is_placed(next(v, reply)) {
                law_delivered_frame_is_in_the_buffers(v, left, head, descs);
            }
            assert(step_holds(v, reply));
        },
        _ => {
            assert(step_holds(v, reply));
        },
    }
}

#[verifier::rlimit(100)]
#[verifier::spinoff_prover]
proof fn lemma_step(v: NetView, reply: Reply)
    requires
        v.wf(),
        v.accepts(reply),
    ensures
        step_holds(v, reply),
{
    reveal(next);
    broadcast use lemma_tally_push;

    match reply {
        Reply::MmdsFrame(_) => {
            assert(step_holds(v, reply));
        },
        Reply::TapRead(_) => {
            assert(step_holds(v, reply));
        },
        Reply::Consumed { granted, reads } => {
            lemma_step_consumed(v, granted, reads);
        },
        Reply::Popped(chain) => {
            lemma_step_popped(v, chain);
        },
        Reply::UsedAdded(_) => {
            assert(step_holds(v, reply));
        },
        Reply::Detoured(_) => {
            assert(step_holds(v, reply));
        },
        Reply::TapWritten(_) => {
            assert(step_holds(v, reply));
        },
        Reply::Signaled(_) => {
            assert(step_holds(v, reply));
        },
    }
}

/// What the last step of a run does, and what it finds.
proof fn lemma_last_step(v: NetView, steps: Seq<Step>)
    requires
        v.wf(),
        valid_run(v, steps),
        steps.len() > 0,
    ensures
        run(v, steps.drop_last()).wf(),
        steps.last() matches Step::Answer(reply) ==> step_holds(run(v, steps.drop_last()), reply),
{
    lemma_run_wf(v, steps.drop_last());
    if let Step::Answer(reply) = steps.last() {
        lemma_step(run(v, steps.drop_last()), reply);
    }
}

// Runs.

proof fn lemma_budget(limiter: Direction, kind: TokenType, v: NetView, steps: Seq<Step>)
    requires
        v.wf(),
        valid_run(v, steps),
    ensures
        total(Quantity::Taken(limiter, kind), v, steps) - told(
            Tally::Returned(limiter, kind),
            v,
            steps,
        ) == spent(limiter, kind, v, steps) + held(limiter, kind, run(v, steps)) - held(
            limiter,
            kind,
            v,
        ),
    decreases steps.len(),
{
    if steps.len() > 0 {
        let s = run(v, steps.drop_last());
        lemma_budget(limiter, kind, v, steps.drop_last());
        lemma_told_step(Tally::Returned(limiter, kind), v, steps);
        lemma_last_step(v, steps);
        if let Step::Answer(reply) = steps.last() {
            assert(step_budget(limiter, kind, s, reply));
        }
    }
}

/// From an event to the next moment of rest, the tokens that a rate limiter gave and did not get
/// back are exactly those that frames cost: what was taken for a received frame that could not be
/// delivered, for a chain that was put back, or for a frame that the metadata service took has
/// been given back.
pub proof fn law_budget_is_settled(
    limiter: Direction,
    kind: TokenType,
    v: NetView,
    steps: Seq<Step>,
)
    requires
        v.wf(),
        is_start(v.stage),
        valid_run(v, steps),
        run(v, steps).stage == Stage::Idle,
    ensures
        total(Quantity::Taken(limiter, kind), v, steps) - told(
            Tally::Returned(limiter, kind),
            v,
            steps,
        ) == spent(limiter, kind, v, steps),
{
    lemma_budget(limiter, kind, v, steps);
}

/// Packet and byte counters follow what happened: delivered frames, frames that the tap took and
/// frames that the metadata service took.
pub proof fn law_counters_follow_the_frames(what: Quantity, v: NetView, steps: Seq<Step>)
    requires
        v.wf(),
        valid_run(v, steps),
        counter_of(what) is Some,
    ensures
        told(Tally::Counted(counter_of(what)->0), v, steps) == total(what, v, steps),
    decreases steps.len(),
{
    if steps.len() > 0 {
        law_counters_follow_the_frames(what, v, steps.drop_last());
        lemma_told_step(Tally::Counted(counter_of(what)->0), v, steps);
        lemma_last_step(v, steps);
        if let Step::Answer(reply) = steps.last() {
            assert(step_counter(what, run(v, steps.drop_last()), reply));
        }
    }
}

/// No received frame is lost and none is delivered twice: the frames that waited and those that
/// were read are as many as those that were delivered and the one that still waits.
pub proof fn law_no_received_frame_is_lost(v: NetView, steps: Seq<Step>)
    requires
        v.wf(),
        valid_run(v, steps),
    ensures
        waiting(v) + total(Quantity::FramesRead, v, steps) == total(
            Quantity::FramesDelivered,
            v,
            steps,
        ) + waiting(run(v, steps)),
    decreases steps.len(),
{
    if steps.len() > 0 {
        law_no_received_frame_is_lost(v, steps.drop_last());
        lemma_last_step(v, steps);
    }
}

/// A device that has placed a frame in a chain has written the frame to guest memory since the
/// chain came.
proof fn lemma_placed_frame_was_written(v: NetView, steps: Seq<Step>)
    requires
        v.wf(),
        is_start(v.stage),
        valid_run(v, steps),
        is_placed(run(v, steps)),
    ensures
        bytes_moved(accesses_before_chain(v, steps), run(v, steps).accesses) == run(
            v,
            steps,
        ).rx_frame,
    decreases steps.len(),
{
    assert(steps.len() > 0);
    match steps.last() {
        Step::Answer(reply) => lemma_last_step(v, steps),
        Step::Fetch => lemma_placed_frame_was_written(v, steps.drop_last()),
    }
}

/// The frames delivered are the frames read, in order and byte by byte: the frame that waited,
/// followed by those that were read, are those whose bytes were written to the buffers of chains
/// that the driver got back, followed by the frame that still waits.
pub proof fn law_frames_are_delivered_in_order(v: NetView, steps: Seq<Step>)
    requires
        v.wf(),
        is_start(v.stage),
        valid_run(v, steps),
    ensures
        waiting_frames(v) + frames_read(steps) == frames_delivered(v, steps) + waiting_frames(
            run(v, steps),
        ),
    decreases steps.len(),
{
    let goal = frames_delivered(v, steps) + waiting_frames(run(v, steps));
    if steps.len() > 0 {
        let fewer = steps.drop_last();
        let s = run(v, fewer);
        law_frames_are_delivered_in_order(v, fewer);
        lemma_last_step(v, steps);
        if is_placed(s) {
            lemma_placed_frame_was_written(v, fewer);
        }
        let old_sum = waiting_frames(v) + frames_read(fewer);
        assert(old_sum == frames_delivered(v, fewer) + waiting_frames(s));
        match steps.last() {
            Step::Answer(Reply::MmdsFrame(Some(_))) | Step::Answer(Reply::TapRead(Ok(_))) => {
                assert(waiting_frames(v) + frames_read(steps) =~= old_sum.push(
                    frames_read(steps).last(),
                ));
                assert(goal =~= old_sum.push(frames_read(steps).last()));
            },
            _ => {
                assert(frames_read(steps) == frames_read(fewer));
                assert(goal =~= old_sum);
            },
        }
    } else {
        assert(waiting_frames(v) + frames_read(steps) =~= goal);
    }
}

proof fn lemma_noted(v: NetView, steps: Seq<Step>)
    requires
        v.wf(),
        is_start(v.stage),
        valid_run(v, steps),
    ensures
        is_noted(run(v, steps), last_chain(v, steps)),
    decreases steps.len(),
{
    if steps.len() > 0 {
        let fewer = steps.drop_last();
        lemma_noted(v, fewer);
        lemma_last_step(v, steps);
        if let Step::Answer(reply) = steps.last() {
            assert(step_noted(run(v, fewer), reply, last_chain(v, fewer)));
        }
    }
}

/// The frames sent are the frames gathered, in order, byte by byte and each once: those gathered
/// from the chains that were read, but for malformed ones, are those that the metadata service took
/// or that were written to the tap, followed by the one that is on its way.
pub proof fn law_frames_are_sent_in_order(v: NetView, steps: Seq<Step>)
    requires
        v.wf(),
        is_start(v.stage),
        valid_run(v, steps),
    ensures
        frames_gathered(v, steps) == frames_sent(v, steps) + outgoing(run(v, steps)),
    decreases steps.len(),
{
    let goal = frames_sent(v, steps) + outgoing(run(v, steps));
    if steps.len() > 0 {
        let fewer = steps.drop_last();
        let s = run(v, fewer);
        law_frames_are_sent_in_order(v, fewer);
        lemma_last_step(v, steps);
        lemma_noted(v, fewer);
        let w = run(v, steps);
        match (s.stage, steps.last()) {
            (
                Stage::TxBytes { head, .. },
                Step::Answer(Reply::Consumed { granted: true, reads }),
            ) => {
                let (h, descs) = last_chain(v, fewer)->0;
                let frame = gathered_frame(s.mapped->0, descs, s.accesses, w.accesses);
                assert(step_sent(s, (Reply::Consumed { granted: true, reads })));
                if forall|j: int| 0 <= j < descs.len() ==> !(#[trigger] descs[j]).write_only {
                    crate::answers::lemma_first_write_only(descs, 0, descs.len() as int);
                } else {
                    if first_write_only(descs, 0) == descs.len() {
                        crate::laws::lemma_readable(descs, 0);
                    }
                    assert(access_bytes(s.accesses.skip(s.accesses.len() as int)) =~= Seq::empty());
                }
                assert(w.tx_frame == frame);
                assert(outgoing(s) =~= Seq::empty());
                assert(frames_gathered(v, steps) =~= goal);
            },
            _ => {
                assert(frames_gathered(v, steps) =~= goal);
            },
        }
    } else {
        assert(frames_gathered(v, steps) =~= goal);
    }
}

/// Chains are given back in the order in which they were popped, and each of them once: the heads
/// popped and not put back are those offered to the used ring and the one that the device works
/// on.
pub proof fn law_chains_are_given_back_in_order(queue: Direction, v: NetView, steps: Seq<Step>)
    requires
        v.wf(),
        is_start(v.stage),
        valid_run(v, steps),
    ensures
        popped_heads(queue, v, steps) == returned_heads(queue, v, steps) + in_hand(
            queue,
            run(v, steps),
        ),
    decreases steps.len(),
{
    if steps.len() > 0 {
        let fewer = steps.drop_last();
        law_chains_are_given_back_in_order(queue, v, fewer);
        lemma_last_step(v, steps);
        if let Step::Answer(reply) = steps.last() {
            assert(step_heads(queue, run(v, fewer), reply));
        }
    }
    assert(popped_heads(queue, v, steps) =~= returned_heads(queue, v, steps) + in_hand(
        queue,
        run(v, steps),
    ));
}

proof fn lemma_told(v: NetView, steps: Seq<Step>)
    requires
        v.wf(),
        valid_run(v, steps),
    ensures
        told(Tally::Failures, v, steps) >= 0,
        told(Tally::Failures, v, steps) == 0 && driver_untold(steps) ==> owes(run(v, steps)),
    decreases steps.len(),
{
    if steps.len() > 0 {
        lemma_told(v, steps.drop_last());
        lemma_told_step(Tally::Failures, v, steps);
        lemma_last_step(v, steps);
    }
}

/// A run that comes to rest without a failure has raised an interrupt after the last chain that it
/// gave back.
pub proof fn law_driver_is_told_of_returned_chains(v: NetView, steps: Seq<Step>)
    requires
        v.wf(),
        valid_run(v, steps),
        run(v, steps).stage == Stage::Idle,
        told(Tally::Failures, v, steps) == 0,
    ensures
        !driver_untold(steps),
{
    lemma_told(v, steps);
}

/// Where a receive pass that started in `v` stands with its interrupt.
spec fn receive_settled(v: NetView, steps: Seq<Step>) -> bool {
    let s = run(v, steps);
    let asked = total(Quantity::Interrupts(Direction::Rx), v, steps);
    let returned = total(Quantity::ChainsReturned(Direction::Rx), v, steps);
    let owed = v.rx_deferred_irqs || returned > 0;
    &&& returned >= 0
    &&& tx_run(s.stage) is None
    &&& if s.stage == Stage::Idle {
        asked == if owed {
            1int
        } else {
            0int
        }
    } else {
        &&& asked == 0
        &&& s.rx_deferred_irqs == owed
        &&& s.stage == Stage::RxSignal ==> owed
    }
}

proof fn lemma_receive_settled(v: NetView, steps: Seq<Step>)
    requires
        v.wf(),
        is_receiving(v.stage),
        is_start(v.stage),
        valid_run(v, steps),
        !read_failed(steps),
    ensures
        receive_settled(v, steps),
    decreases steps.len(),
{
    if steps.len() > 0 {
        lemma_receive_settled(v, steps.drop_last());
        lemma_last_step(v, steps);
    }
}

/// A receive pass without a failed read asks for exactly one interrupt if the driver was owed one or
/// a chain was given back, and for none otherwise.
pub proof fn law_receive_pass_asks_for_one_interrupt(v: NetView, steps: Seq<Step>)
    requires
        v.wf(),
        v.stage == Stage::RxMmds || v.stage == Stage::RxTap || v.stage == Stage::RxOps,
        valid_run(v, steps),
        run(v, steps).stage == Stage::Idle,
        !read_failed(steps),
    ensures
        total(Quantity::Interrupts(Direction::Rx), v, steps) == if v.rx_deferred_irqs || total(
            Quantity::ChainsReturned(Direction::Rx),
            v,
            steps,
        ) > 0 {
            1int
        } else {
            0int
        },
        total(Quantity::Interrupts(Direction::Tx), v, steps) == 0,
{
    lemma_receive_settled(v, steps);
    lemma_no_transmit_interrupts(v, steps);
}

proof fn lemma_no_transmit_interrupts(v: NetView, steps: Seq<Step>)
    requires
        v.wf(),
        tx_run(v.stage) is None,
        valid_run(v, steps),
    ensures
        tx_run(run(v, steps).stage) is None,
        total(Quantity::Interrupts(Direction::Tx), v, steps) == 0,
    decreases steps.len(),
{
    if steps.len() > 0 {
        lemma_no_transmit_interrupts(v, steps.drop_last());
        lemma_last_step(v, steps);
        if let Step::Answer(reply) = steps.last() {
            let s = run(v, steps.drop_last());
            assert(step_transmitting(s, reply));
        }
    }
}

/// Where a transmit pass that started in `v` stands with its interrupt.
spec fn transmit_settled(v: NetView, steps: Seq<Step>) -> bool {
    let s = run(v, steps);
    let asked = total(Quantity::Interrupts(Direction::Tx), v, steps);
    let returned = total(Quantity::ChainsReturned(Direction::Tx), v, steps);
    &&& returned >= 0
    &&& match tx_run(s.stage) {
        Some(run) => {
            &&& asked == 0
            &&& run.raise_irq == (returned > 0)
            &&& s.stage is TxSignal ==> run.raise_irq
        },
        None => asked == if returned > 0 {
            1int
        } else {
            0int
        },
    }
}

proof fn lemma_transmit_settled(v: NetView, steps: Seq<Step>)
    requires
        v.wf(),
        v.stage is TxPop,
        is_start(v.stage),
        valid_run(v, steps),
        !chain_refused(v, steps),
    ensures
        transmit_settled(v, steps),
    decreases steps.len(),
{
    if steps.len() > 0 {
        lemma_transmit_settled(v, steps.drop_last());
        lemma_last_step(v, steps);
        if let Step::Answer(reply) = steps.last() {
            let s = run(v, steps.drop_last());
            assert(step_transmitting(s, reply));
        }
    }
}

/// A transmit pass of which the queue took every chain back asks for exactly one interrupt if there
/// was such a chain, and for none otherwise. A receive pass may follow it, with its own.
pub proof fn law_transmit_pass_asks_for_one_interrupt(v: NetView, steps: Seq<Step>)
    requires
        v.wf(),
        v.stage is TxPop,
        is_start(v.stage),
        valid_run(v, steps),
        tx_run(run(v, steps).stage) is None,
        !chain_refused(v, steps),
    ensures
        total(Quantity::Interrupts(Direction::Tx), v, steps) == if total(
            Quantity::ChainsReturned(Direction::Tx),
            v,
            steps,
        ) > 0 {
            1int
        } else {
            0int
        },
{
    lemma_transmit_settled(v, steps);
}

proof fn lemma_tries(v: NetView, steps: Seq<Step>)
    requires
        v.wf(),
        is_start(v.stage),
        valid_run(v, steps),
    ensures
        run(v, steps).rx_queue_size == v.rx_queue_size,
        tries_add_up(run(v, steps), tries(v, steps)),
    decreases steps.len(),
{
    if steps.len() > 0 {
        let fewer = steps.drop_last();
        lemma_tries(v, fewer);
        lemma_last_step(v, steps);
        if let Step::Answer(reply) = steps.last() {
            assert(step_tries(run(v, fewer), reply, tries(v, fewer)));
        }
    }
}

/// A frame for which the budget was granted is put off only if the receive queue had no chain, if
/// the used ring refused one, or if as many chains as the queue has entries were tried for it.
pub proof fn law_frame_is_put_off_only_for_a_reason(v: NetView, steps: Seq<Step>, reply: Reply)
    requires
        v.wf(),
        is_start(v.stage),
        valid_run(v, steps),
        steps.len() > 0,
        steps.last() == Step::Answer(reply),
        ({
            let s = run(v, steps.drop_last());
            let w = run(v, steps);
            &&& s.stage is RxBytes || s.stage is RxPop || s.stage is RxUsed
            &&& !(w.stage is RxPop || w.stage is RxUsed)
            &&& w.rx_deferred_frame
        }),
    ensures
        reply == Reply::Popped(None) || (reply matches Reply::UsedAdded(Err(_))) || (
        reply matches Reply::Consumed { granted: false, .. }) || tries(v, steps) == v.rx_queue_size,
{
    let s = run(v, steps.drop_last());
    lemma_run_wf(v, steps.drop_last());
    lemma_tries(v, steps.drop_last());
    reveal(next);
    match (s.stage, reply) {
        (Stage::RxBytes, Reply::Consumed { granted: true, reads }) => {
            assert(reads =~= Seq::empty());
            crate::answers::law_receive_budget(s, true);
        },
        (Stage::RxPop { left }, Reply::Popped(chain)) => {
            crate::answers::law_receive_chain(s, left, chain);
        },
        (Stage::RxUsed { left, head, delivered }, Reply::UsedAdded(added)) => {
            crate::answers::law_receive_chain_is_given_back(s, left, head, delivered, added);
        },
        _ => {},
    }
}

proof fn lemma_serving(v: NetView, steps: Seq<Step>)
    requires
        v.wf(),
        v.stage is TxPop,
        is_start(v.stage),
        valid_run(v, steps),
        tx_run(run(v, steps).stage) is Some,
    ensures
        total(Quantity::FramesDetoured, v, steps) >= 0,
        run(v, steps).rx_deferred_frame == v.rx_deferred_frame,
        tx_run(run(v, steps).stage)->0.serve_mmds == (total(Quantity::FramesDetoured, v, steps) > 0
            && !v.rx_deferred_frame),
    decreases steps.len(),
{
    if steps.len() > 0 {
        lemma_last_step(v, steps);
        let s = run(v, steps.drop_last());
        if let Step::Answer(reply) = steps.last() {
            assert(step_transmitting(s, reply));
            assert(step_serving(s, reply));
        }
        lemma_serving(v, steps.drop_last());
    }
}

/// A transmit pass in which the metadata service took a frame, whichever it was, while no received
/// frame waited is followed by the question for the service's answer; without such a frame the
/// device rests. This is so unless the queue refused a chain or the interrupt could not be raised.
pub proof fn law_metadata_service_is_asked_for_its_answer(v: NetView, steps: Seq<Step>)
    requires
        v.wf(),
        v.stage is TxPop,
        is_start(v.stage),
        valid_run(v, steps),
        steps.len() > 0,
        tx_run(run(v, steps.drop_last()).stage) is Some,
        tx_run(run(v, steps).stage) is None,
        !chain_refused(v, steps),
        !(steps.last() matches Step::Answer(reply) && is_failed_signal(reply)),
    ensures
        run(v, steps).request() == if total(Quantity::FramesDetoured, v, steps) > 0
            && !v.rx_deferred_frame {
            Request::ReadMmdsFrame
        } else {
            Request::Nothing
        },
{
    lemma_last_step(v, steps);
    lemma_serving(v, steps.drop_last());
    if let Step::Answer(reply) = steps.last() {
        assert(step_serving(run(v, steps.drop_last()), reply));
    }
}

/// For one frame, no more receive chains are asked for than the queue has entries.
pub proof fn law_receive_tries_are_bounded(v: NetView, steps: Seq<Step>)
    requires
        v.wf(),
        is_start(v.stage),
        valid_run(v, steps),
    ensures
        0 <= tries(v, steps) <= v.rx_queue_size,
{
    lemma_tries(v, steps);
}

} // verus!
