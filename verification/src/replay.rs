//! Runs replayed on paper: what the state machine does, from start to end,
//! against any ledger client.
//!
//! A client is given by the outcomes it answers with, one for each chunk it
//! is asked to send, in the order of asking. The theorems here say which
//! chunks are asked for, what is reported, and where the run ends.

use crate::batcher::{
    leading_chunks, lemma_chunk_count_covers, lemma_chunk_len, lemma_leading_chunks_flatten,
};
use crate::error::MigrationError;
use crate::ledger::Outcome;
use crate::orchestrator::{
    command_of, next, progress_of, start, Command, Event, Progress, Run, State,
};
use vstd::prelude::*;

verus! {

/// The run after a sequence of events, taken in order.
pub open spec fn after(run: Run, events: Seq<Event>) -> Run
    decreases events.len(),
{
    if events.len() == 0 {
        run
    } else {
        after(next(run, events.first()), events.drop_first())
    }
}

/// The run after a client has answered: while a chunk is in flight, the next
/// outcome is taken; once the run has ended, the client is not asked again.
pub open spec fn transmit(run: Run, outcomes: Seq<Outcome>) -> Run
    decreases outcomes.len(),
{
    if outcomes.len() == 0 || !(run.state is Transmitting) {
        run
    } else {
        transmit(next(run, Event::Transmitted(outcomes.first())), outcomes.drop_first())
    }
}

/// The indices of the chunks that the client is asked to send, in the order
/// of asking.
pub open spec fn attempts(run: Run, outcomes: Seq<Outcome>) -> Seq<usize>
    decreases outcomes.len(),
{
    if outcomes.len() == 0 {
        Seq::empty()
    } else {
        match run.state {
            State::Transmitting(k) => seq![k] + attempts(
                next(run, Event::Transmitted(outcomes.first())),
                outcomes.drop_first(),
            ),
            _ => Seq::empty(),
        }
    }
}

/// The progress observations made while the client answers, in order.
pub open spec fn reports(run: Run, outcomes: Seq<Outcome>) -> Seq<Progress>
    decreases outcomes.len(),
{
    if outcomes.len() == 0 || !(run.state is Transmitting) {
        Seq::empty()
    } else {
        let event = Event::Transmitted(outcomes.first());
        let rest = reports(next(run, event), outcomes.drop_first());
        match progress_of(run, event) {
            Some(progress) => seq![progress] + rest,
            None => rest,
        }
    }
}

/// The chunk indices `from, from + 1, ...`, `count` of them.
pub open spec fn indices(from: nat, count: nat) -> Seq<usize> {
    Seq::new(count, |j: int| (from + j) as usize)
}

/// The observations made on delivering the chunks `from, from + 1, ...`,
/// `count` of them: each names its chunk and the blocks delivered up to and
/// including it.
pub open spec fn deliveries(run: Run, from: nat, count: nat) -> Seq<Progress> {
    Seq::new(
        count,
        |j: int|
            Progress {
                chunk: (from + j) as usize,
                blocks_sent: run.blocks_in((from + j) as nat) as usize,
            },
    )
}

/// Every event leaves a consistent run consistent.
pub proof fn lemma_next_keeps_wf(run: Run, event: Event)
    requires
        run.wf(),
    ensures
        next(run, event).wf(),
        next(run, event).chunk_size == run.chunk_size,
{
    match (run.state, event) {
        (State::ClientReady, Event::BlocksRead(blocks)) => {
            assert(blocks.deep_view().len() == blocks@.len());
            assert(blocks@.len() <= usize::MAX) by {
                assert(blocks.len() == blocks@.len());
            }
        },
        (State::Reading, Event::Batched) => {
            lemma_chunk_count_covers(run.blocks.len(), run.chunk_size);
        },
        (State::Transmitting(_), Event::Transmitted(_)) => {
            lemma_chunk_count_covers(run.blocks.len(), run.chunk_size);
        },
        _ => {},
    }
}

/// The number of blocks in the first `chunks` chunks is the sum of their
/// sizes: the length of their concatenation.
pub proof fn lemma_blocks_in_is_sum_of_sizes(run: Run, chunks: nat)
    requires
        run.chunk_size > 0,
        chunks <= run.chunk_total(),
    ensures
        run.blocks_in(chunks) == leading_chunks(run.blocks, run.chunk_size, chunks).flatten().len(),
{
    lemma_leading_chunks_flatten(run.blocks, run.chunk_size, chunks);
    if chunks > 0 {
        lemma_chunk_len(run.blocks, run.chunk_size, (chunks - 1) as nat);
        assert((chunks - 1) * run.chunk_size + run.chunk_size == chunks * run.chunk_size)
            by (nonlinear_arith);
    }
}

/// `Done` and `Aborted` are final: no event changes the run, and the command
/// stays `Finish` or `Halt`.
pub proof fn lemma_ended_run_stays(run: Run, events: Seq<Event>)
    requires
        run.state is Done || run.state is Aborted,
    ensures
        after(run, events) == run,
    decreases events.len(),
{
    if events.len() > 0 {
        lemma_ended_run_stays(run, events.drop_first());
    }
}

/// The client's answers change neither the blocks nor the chunk size.
pub proof fn lemma_transmit_keeps_blocks(run: Run, outcomes: Seq<Outcome>)
    ensures
        transmit(run, outcomes).blocks == run.blocks,
        transmit(run, outcomes).chunk_size == run.chunk_size,
    decreases outcomes.len(),
{
    if outcomes.len() > 0 && run.state is Transmitting {
        lemma_transmit_keeps_blocks(
            next(run, Event::Transmitted(outcomes.first())),
            outcomes.drop_first(),
        );
    }
}

/// Fail fast, from any chunk: a run about to send chunk `from`, against a
/// client that accepts the chunks before chunk `k` and fails on chunk `k`.
proof fn lemma_first_failure_from(run: Run, outcomes: Seq<Outcome>, from: nat, k: nat)
    requires
        run.wf(),
        run.state == State::Transmitting(from as usize),
        1 <= from <= k <= run.chunk_total(),
        outcomes.len() > k - from,
        forall|j: int| 0 <= j < k - from ==> outcomes[j] is Accepted,
        !(outcomes[k - from] is Accepted),
    ensures
        transmit(run, outcomes).state == State::Aborted(
            outcomes[k - from].failure().unwrap(),
            k as usize,
        ),
        attempts(run, outcomes) == indices(from, (k - from + 1) as nat),
        reports(run, outcomes) == deliveries(run, from, (k - from) as nat),
    decreases k - from,
{
    lemma_chunk_count_covers(run.blocks.len(), run.chunk_size);
    let event = Event::Transmitted(outcomes.first());
    let moved = next(run, event);
    let rest = outcomes.drop_first();
    if from == k {
        assert(moved.state is Aborted);
        assert(attempts(moved, rest) =~= Seq::<usize>::empty());
        assert(attempts(run, outcomes) =~= indices(from, 1));
        assert(progress_of(run, event) is None);
        assert(reports(moved, rest) =~= Seq::<Progress>::empty());
        assert(reports(run, outcomes) =~= deliveries(run, from, 0));
    } else {
        assert(outcomes[0] is Accepted);
        assert(moved.state == State::Transmitting((from + 1) as usize));
        lemma_next_keeps_wf(run, event);
        assert forall|j: int| 0 <= j < k - (from + 1) implies rest[j] is Accepted by {
            assert(rest[j] == outcomes[j + 1]);
        }
        assert(rest[k - (from + 1)] == outcomes[k - from]);
        lemma_first_failure_from(moved, rest, from + 1, k);
        assert(attempts(run, outcomes) =~= indices(from, (k - from + 1) as nat));
        assert(moved.blocks == run.blocks && moved.chunk_size == run.chunk_size);
        assert(reports(run, outcomes) =~= deliveries(run, from, (k - from) as nat));
    }
}

/// Full delivery, from any chunk: a run about to send chunk `from`, against
/// a client that accepts that chunk and every later one.
proof fn lemma_all_accepted_from(run: Run, outcomes: Seq<Outcome>, from: nat)
    requires
        run.wf(),
        run.state == State::Transmitting(from as usize),
        1 <= from <= run.chunk_total(),
        outcomes.len() > run.chunk_total() - from,
        forall|j: int| 0 <= j <= run.chunk_total() - from ==> outcomes[j] is Accepted,
    ensures
        transmit(run, outcomes).state == State::Done,
        attempts(run, outcomes) == indices(from, (run.chunk_total() - from + 1) as nat),
        reports(run, outcomes) == deliveries(run, from, (run.chunk_total() - from + 1) as nat),
    decreases run.chunk_total() - from,
{
    lemma_chunk_count_covers(run.blocks.len(), run.chunk_size);
    let event = Event::Transmitted(outcomes.first());
    let moved = next(run, event);
    let rest = outcomes.drop_first();
    assert(outcomes[0] is Accepted);
    assert(moved.blocks == run.blocks && moved.chunk_size == run.chunk_size);
    if from == run.chunk_total() {
        assert(moved.state == State::Done);
        assert(transmit(moved, rest) == moved);
        assert(transmit(run, outcomes) == transmit(moved, rest));
        assert(attempts(moved, rest) =~= Seq::<usize>::empty());
        assert(attempts(run, outcomes) =~= indices(from, 1));
        assert(reports(moved, rest) =~= Seq::<Progress>::empty());
        assert(reports(run, outcomes) =~= deliveries(run, from, 1));
    } else {
        assert(moved.state == State::Transmitting((from + 1) as usize));
        lemma_next_keeps_wf(run, event);
        assert forall|j: int| 0 <= j <= moved.chunk_total() - (from + 1) implies rest[j]
            is Accepted by {
            assert(rest[j] == outcomes[j + 1]);
        }
        lemma_all_accepted_from(moved, rest, from + 1);
        assert(transmit(run, outcomes) == transmit(moved, rest));
        assert(attempts(run, outcomes) =~= indices(
            from,
            (run.chunk_total() - from + 1) as nat,
        ));
        assert(reports(run, outcomes) =~= deliveries(
            run,
            from,
            (run.chunk_total() - from + 1) as nat,
        ));
    }
}

/// Fail fast. Against a client that accepts the chunks before chunk `k` and
/// fails on chunk `k`, a run that is about to send its first chunk
/// - asks for the chunks `1, ..., k`, in this order, and for no other;
/// - ends in `Aborted`, with the failure of chunk `k` as the reason and `k`
///   as the chunk index, whatever the client would have answered later;
/// - reports one delivery for each of the chunks `1, ..., k - 1`;
/// - counts as sent the sum of the sizes of the chunks `1, ..., k - 1`.
pub proof fn lemma_run_halts_at_first_failure(run: Run, outcomes: Seq<Outcome>, k: nat)
    requires
        run.wf(),
        run.state == State::Transmitting(1),
        1 <= k <= run.chunk_total(),
        k <= outcomes.len(),
        forall|j: int| 0 <= j < k - 1 ==> outcomes[j] is Accepted,
        !(outcomes[k - 1] is Accepted),
    ensures
        transmit(run, outcomes).state == State::Aborted(
            outcomes[k - 1].failure().unwrap(),
            k as usize,
        ),
        command_of(transmit(run, outcomes)) == Command::Halt(
            outcomes[k - 1].failure().unwrap(),
            k as usize,
        ),
        attempts(run, outcomes) == indices(1, k),
        reports(run, outcomes) == deliveries(run, 1, (k - 1) as nat),
        transmit(run, outcomes).blocks_sent() == leading_chunks(
            run.blocks,
            run.chunk_size,
            (k - 1) as nat,
        ).flatten().len(),
{
    lemma_first_failure_from(run, outcomes, 1, k);
    lemma_transmit_keeps_blocks(run, outcomes);
    lemma_blocks_in_is_sum_of_sizes(run, (k - 1) as nat);
    lemma_chunk_count_covers(run.blocks.len(), run.chunk_size);
}

/// Full delivery. Against a client that accepts every chunk, a run that is
/// about to send its first chunk asks for the chunks `1, ..., n` in this order,
/// where `n` is the chunk count, reports one delivery for each, ends in
/// `Done`, and has then sent every block. Every chunk but the last holds
/// `chunk_size` blocks; the last holds what is left.
pub proof fn lemma_run_completes_when_all_accepted(run: Run, outcomes: Seq<Outcome>)
    requires
        run.wf(),
        run.state == State::Transmitting(1),
        run.chunk_total() <= outcomes.len(),
        forall|j: int| 0 <= j < run.chunk_total() ==> outcomes[j] is Accepted,
    ensures
        transmit(run, outcomes).state == State::Done,
        command_of(transmit(run, outcomes)) == Command::Finish,
        attempts(run, outcomes) == indices(1, run.chunk_total()),
        reports(run, outcomes) == deliveries(run, 1, run.chunk_total()),
        transmit(run, outcomes).blocks_sent() == run.blocks.len(),
        forall|i: nat|
            1 <= i <= run.chunk_total() ==> (#[trigger] run.chunk(i)).len() == if i
                < run.chunk_total() || run.blocks.len() % run.chunk_size == 0 {
                run.chunk_size
            } else {
                run.blocks.len() % run.chunk_size
            },
{
    lemma_all_accepted_from(run, outcomes, 1);
    lemma_transmit_keeps_blocks(run, outcomes);
    assert forall|i: nat| 1 <= i <= run.chunk_total() implies (#[trigger] run.chunk(i)).len()
        == if i < run.chunk_total() || run.blocks.len() % run.chunk_size == 0 {
        run.chunk_size
    } else {
        run.blocks.len() % run.chunk_size
    } by {
        lemma_chunk_len(run.blocks, run.chunk_size, (i - 1) as nat);
    }
}

/// The setup steps in their order: from a positive chunk size, loading the
/// identity, opening the client, reading the blocks and batching lead to the
/// first chunk, or straight to `Done` where there are no blocks.
pub proof fn lemma_setup_leads_to_first_chunk(chunk_size: nat, blocks: Vec<Vec<u8>>)
    requires
        0 < chunk_size <= usize::MAX,
    ensures
        ({
            let events = seq![
                Event::IdentityLoaded,
                Event::ClientReady,
                Event::BlocksRead(blocks),
                Event::Batched,
            ];
            let ready = after(start(chunk_size), events);
            &&& ready.wf()
            &&& ready.blocks == blocks.deep_view()
            &&& ready.chunk_size == chunk_size
            &&& ready.state == if blocks@.len() == 0 {
                State::Done
            } else {
                State::Transmitting(1)
            }
        }),
{
    let events = seq![
        Event::IdentityLoaded,
        Event::ClientReady,
        Event::BlocksRead(blocks),
        Event::Batched,
    ];
    let read = next(
        next(next(start(chunk_size), Event::IdentityLoaded), Event::ClientReady),
        Event::BlocksRead(blocks),
    );
    assert(read.wf()) by {
        assert(blocks.deep_view().len() == blocks.len());
    }
    lemma_next_keeps_wf(read, Event::Batched);
    lemma_chunk_count_covers(read.blocks.len(), chunk_size);
    assert(after(start(chunk_size), events) == next(read, Event::Batched)) by {
        reveal_with_fuel(after, 5);
    }
}

/// A failure during setup ends the run on the spot: from then on the command
/// is `Halt`, so no client is opened, no store is read and no chunk is sent,
/// whatever is reported afterwards. In particular a key file that cannot be
/// loaded ends a fresh run as `KeyLoad` before any network or store access.
pub proof fn lemma_setup_failure_ends_run(run: Run, failure: Event, later: Seq<Event>)
    requires
        (run.state is Init && failure is IdentityFailed) || (run.state is IdentityLoaded
            && failure is ClientFailed) || (run.state is ClientReady && failure is StoreFailed),
    ensures
        next(run, failure).state == State::Aborted(
            match failure {
                Event::IdentityFailed => MigrationError::KeyLoad,
                Event::ClientFailed => MigrationError::ClientSetup,
                _ => MigrationError::StoreRead,
            },
            0,
        ),
        after(next(run, failure), later) == next(run, failure),
        command_of(after(next(run, failure), later)) is Halt,
{
    lemma_ended_run_stays(next(run, failure), later);
}

} // verus!
