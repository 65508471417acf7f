//! The state machine of a migration run.
//!
//! A run goes `Init -> IdentityLoaded -> ClientReady -> Reading ->
//! Transmitting(1) -> ... -> Transmitting(last) -> Done`, or ends in `Aborted`
//! at the first failure. The machine decides; the embedding program acts: it
//! asks for the command of the current state, carries it out (reads the key
//! file, opens the client, queries the store, sends a chunk) and reports what
//! happened as an event. Chunks go out one at a time, in order of their index;
//! none is skipped, none is sent twice, and nothing is sent after a failure.
//!
//! A run keeps no record beyond its own state. Chunks that were delivered
//! before a failure stay delivered: nothing is rolled back and nothing is
//! retried. Whether the service replaces what it holds or appends to it is
//! not known here, so a second run after a failed one is not assumed to be
//! safe.

use crate::batcher::{
    chunk_count, chunk_end, chunk_of, count_chunks, lemma_chunk_count_covers, lemma_chunk_len,
    nth_chunk,
};
use crate::error::MigrationError;
use crate::ledger::{candid_message, encode_chunk, Outcome};
use vstd::prelude::*;

verus! {

/// Where a run stands. Chunk indices count from one.
#[derive(Clone, Copy, Debug, PartialEq, Eq, Structural)]
pub enum State {
    /// Nothing has been done yet.
    Init,
    /// The signing identity has been built from the private key.
    IdentityLoaded,
    /// The client is connected and holds the service's trust root.
    ClientReady,
    /// The blocks have been read from the local store.
    Reading,
    /// The chunk with this index is the next to be delivered.
    Transmitting(usize),
    /// Every chunk has been delivered.
    Done,
    /// The run failed for this reason, at the chunk with this index (zero
    /// where it failed before any chunk was sent).
    Aborted(MigrationError, usize),
}

/// What the embedding program reports back after carrying out a command.
#[derive(Debug)]
pub enum Event {
    /// The identity was built from the key file.
    IdentityLoaded,
    /// The key file could not be read, or holds no private key.
    IdentityFailed,
    /// The client was built and the trust root fetched.
    ClientReady,
    /// The client could not be built, or the trust root not fetched.
    ClientFailed,
    /// The store handed over these blocks, in stored order.
    BlocksRead(Vec<Vec<u8>>),
    /// The store could not be opened or queried.
    StoreFailed,
    /// The blocks have been cut into chunks.
    Batched,
    /// The chunk in flight ended with this outcome.
    Transmitted(Outcome),
}

/// What the embedding program is to do next.
#[derive(Clone, Copy, Debug, PartialEq, Eq, Structural)]
pub enum Command {
    /// Read the key file and build the identity.
    LoadIdentity,
    /// Build the client and fetch the trust root.
    OpenClient,
    /// Read all blocks from the local store, in stored order.
    ReadBlocks,
    /// Nothing to do outside: the blocks are cut into chunks.
    Batch,
    /// Send the chunk with this index and wait for the outcome.
    Transmit(usize),
    /// Report completion and end.
    Finish,
    /// Report the failure, with its chunk index, and end.
    Halt(MigrationError, usize),
}

/// Observation made each time a chunk has been delivered.
#[derive(Clone, Copy, Debug, PartialEq, Eq, Structural)]
pub struct Progress {
    /// Index of the chunk that was just delivered.
    pub chunk: usize,
    /// Number of blocks delivered so far, this chunk included.
    pub blocks_sent: usize,
}

/// A run as a mathematical value: its configuration, the blocks it holds and
/// its state.
pub struct Run {
    pub chunk_size: nat,
    pub blocks: Seq<Seq<u8>>,
    pub state: State,
}

impl Run {
    /// Number of chunks of the run.
    pub open spec fn chunk_total(self) -> nat {
        chunk_count(self.blocks.len(), self.chunk_size)
    }

    /// The chunk with index `index`, counted from one.
    pub open spec fn chunk(self, index: nat) -> Seq<Seq<u8>> {
        chunk_of(self.blocks, self.chunk_size, (index - 1) as nat)
    }

    /// Number of blocks in the first `chunks` chunks.
    pub open spec fn blocks_in(self, chunks: nat) -> nat {
        if chunks == 0 {
            0
        } else {
            chunk_end(self.blocks.len(), self.chunk_size, (chunks - 1) as nat)
        }
    }

    /// Number of blocks delivered so far.
    pub open spec fn blocks_sent(self) -> nat {
        match self.state {
            State::Transmitting(k) => self.blocks_in((k - 1) as nat),
            State::Done => self.blocks.len(),
            State::Aborted(_, k) => if k == 0 {
                0
            } else {
                self.blocks_in((k - 1) as nat)
            },
            _ => 0,
        }
    }

    /// The state of a run is consistent with its configuration and blocks.
    pub open spec fn wf(self) -> bool {
        &&& self.blocks.len() <= usize::MAX
        &&& self.chunk_size <= usize::MAX
        &&& match self.state {
            State::Aborted(reason, k) => if reason.during_setup() {
                k == 0
            } else {
                self.chunk_size > 0 && 1 <= k <= self.chunk_total()
            },
            State::Transmitting(k) => self.chunk_size > 0 && 1 <= k <= self.chunk_total(),
            _ => self.chunk_size > 0,
        }
    }
}

/// The run that a configuration starts with. A chunk size of zero is refused
/// before anything else is done.
pub open spec fn start(chunk_size: nat) -> Run {
    Run {
        chunk_size,
        blocks: Seq::empty(),
        state: if chunk_size == 0 {
            State::Aborted(MigrationError::InvalidConfig, 0)
        } else {
            State::Init
        },
    }
}

/// The run after an event. An event that does not answer the command of the
/// current state changes nothing; `Done` and `Aborted` are final.
pub open spec fn next(run: Run, event: Event) -> Run {
    match (run.state, event) {
        (State::Init, Event::IdentityLoaded) => Run { state: State::IdentityLoaded, ..run },
        (State::Init, Event::IdentityFailed) => Run {
            state: State::Aborted(MigrationError::KeyLoad, 0),
            ..run
        },
        (State::IdentityLoaded, Event::ClientReady) => Run { state: State::ClientReady, ..run },
        (State::IdentityLoaded, Event::ClientFailed) => Run {
            state: State::Aborted(MigrationError::ClientSetup, 0),
            ..run
        },
        (State::ClientReady, Event::BlocksRead(blocks)) => Run {
            blocks: blocks.deep_view(),
            state: State::Reading,
            ..run
        },
        (State::ClientReady, Event::StoreFailed) => Run {
            state: State::Aborted(MigrationError::StoreRead, 0),
            ..run
        },
        (State::Reading, Event::Batched) => Run {
            state: if run.chunk_total() == 0 {
                State::Done
            } else {
                State::Transmitting(1)
            },
            ..run
        },
        (State::Transmitting(k), Event::Transmitted(outcome)) => Run {
            state: match outcome.failure() {
                Some(reason) => State::Aborted(reason, k),
                None => if k == run.chunk_total() {
                    State::Done
                } else {
                    State::Transmitting((k + 1) as usize)
                },
            },
            ..run
        },
        _ => run,
    }
}

/// The progress observed on an event: one observation for each delivered
/// chunk, none otherwise.
pub open spec fn progress_of(run: Run, event: Event) -> Option<Progress> {
    match (run.state, event) {
        (State::Transmitting(k), Event::Transmitted(Outcome::Accepted)) => Some(
            Progress { chunk: k, blocks_sent: run.blocks_in(k as nat) as usize },
        ),
        _ => None,
    }
}

/// The command of a state.
pub open spec fn command_of(run: Run) -> Command {
    match run.state {
        State::Init => Command::LoadIdentity,
        State::IdentityLoaded => Command::OpenClient,
        State::ClientReady => Command::ReadBlocks,
        State::Reading => Command::Batch,
        State::Transmitting(k) => Command::Transmit(k),
        State::Done => Command::Finish,
        State::Aborted(reason, k) => Command::Halt(reason, k),
    }
}

/// A migration run in progress.
pub struct Orchestrator {
    chunk_size: usize,
    blocks: Vec<Vec<u8>>,
    state: State,
}

impl View for Orchestrator {
    type V = Run;

    closed spec fn view(&self) -> Run {
        Run {
            chunk_size: self.chunk_size as nat,
            blocks: self.blocks.deep_view(),
            state: self.state,
        }
    }
}

impl Orchestrator {
    #[verifier::type_invariant]
    spec fn consistent(self) -> bool {
        self@.wf()
    }

    /// Starts a run that sends chunks of `chunk_size` blocks. With a chunk
    /// size of zero the run is aborted from the start, as `InvalidConfig`.
    pub fn new(chunk_size: usize) -> (res: Orchestrator)
        ensures
            res@ == start(chunk_size as nat),
            res@.wf(),
    {
        let state = if chunk_size == 0 {
            State::Aborted(MigrationError::InvalidConfig, 0)
        } else {
            State::Init
        };
        let res = Orchestrator { chunk_size, blocks: Vec::new(), state };
        assert(res.blocks.deep_view() =~= Seq::<Seq<u8>>::empty());
        res
    }

    /// The state of the run.
    pub fn state(&self) -> (res: State)
        ensures
            res == self@.state,
    {
        self.state
    }

    /// Takes in what happened to the last command and moves the run on.
    /// Returns the progress observation when the event is the delivery of a
    /// chunk.
    pub fn step(&mut self, event: Event) -> (res: Option<Progress>)
        ensures
            final(self)@ == next(old(self)@, event),
            res == progress_of(old(self)@, event),
            final(self)@.wf(),
    {
        proof {
            use_type_invariant(&*self);
        }
        match (self.state, event) {
            (State::Init, Event::IdentityLoaded) => {
                self.state = State::IdentityLoaded;
                None
            },
            (State::Init, Event::IdentityFailed) => {
                self.state = State::Aborted(MigrationError::KeyLoad, 0);
                None
            },
            (State::IdentityLoaded, Event::ClientReady) => {
                self.state = State::ClientReady;
                None
            },
            (State::IdentityLoaded, Event::ClientFailed) => {
                self.state = State::Aborted(MigrationError::ClientSetup, 0);
                None
            },
            (State::ClientReady, Event::BlocksRead(blocks)) => {
                proof {
                    assert(blocks.deep_view().len() == blocks.len());
                }
                *self = Orchestrator { chunk_size: self.chunk_size, blocks, state: State::Reading };
                None
            },
            (State::ClientReady, Event::StoreFailed) => {
                self.state = State::Aborted(MigrationError::StoreRead, 0);
                None
            },
            (State::Reading, Event::Batched) => {
                proof {
                    lemma_chunk_count_covers(self@.blocks.len(), self@.chunk_size);
                }
                self.state = if self.blocks.len() == 0 {
                    State::Done
                } else {
                    State::Transmitting(1)
                };
                None
            },
            (State::Transmitting(k), Event::Transmitted(outcome)) => {
                match outcome.error() {
                    Some(reason) => {
                        self.state = State::Aborted(reason, k);
                        None
                    },
                    None => {
                        let sent: usize = self.blocks_through(k);
                        proof {
                            lemma_chunk_count_covers(self@.blocks.len(), self@.chunk_size);
                        }
                        if sent == self.blocks.len() {
                            self.state = State::Done;
                        } else {
                            self.state = State::Transmitting(k + 1);
                        }
                        Some(Progress { chunk: k, blocks_sent: sent })
                    },
                }
            },
            _ => None,
        }
    }

    /// Number of blocks in the first `chunks` chunks.
    fn blocks_through(&self, chunks: usize) -> (res: usize)
        requires
            self@.chunk_size > 0,
            chunks <= self@.chunk_total(),
        ensures
            res == self@.blocks_in(chunks as nat),
            res <= self@.blocks.len(),
            res == self@.blocks.len() <==> chunks == self@.chunk_total(),
    {
        let len: usize = self.blocks.len();
        if chunks == 0 {
            proof {
                lemma_chunk_count_covers(len as nat, self.chunk_size as nat);
            }
            return 0;
        }
        proof {
            lemma_chunk_count_covers(len as nat, self.chunk_size as nat);
            lemma_chunk_len(self@.blocks, self.chunk_size as nat, (chunks - 1) as nat);
            assert((chunks - 1) * self.chunk_size + self.chunk_size == chunks * self.chunk_size)
                by (nonlinear_arith);
            if chunks < self@.chunk_total() {
                lemma_chunk_len(self@.blocks, self.chunk_size as nat, chunks as nat);
            }
        }
        let start: usize = (chunks - 1) * self.chunk_size;
        if len - start <= self.chunk_size {
            len
        } else {
            start + self.chunk_size
        }
    }

    /// The chunk with index `index`, counted from one: the blocks that a
    /// `Transmit(index)` command asks to send. `None` where the run has no
    /// such chunk.
    pub fn chunk(&self, index: usize) -> (res: Option<&[Vec<u8>]>)
        ensures
            res is Some <==> self@.chunk_size > 0 && 1 <= index <= self@.chunk_total(),
            res matches Some(blocks) ==> blocks.deep_view() == self@.chunk(index as nat),
    {
        if index == 0 {
            return None;
        }
        match nth_chunk(self.blocks.as_slice(), self.chunk_size, index - 1) {
            Ok(Some(blocks)) => {
                proof {
                    let held = self.blocks@;
                    let at: nat = (index - 1) as nat;
                    lemma_chunk_len(held, self.chunk_size as nat, at);
                    assert(self.blocks.deep_view().len() == held.len());
                    assert forall|i: int| 0 <= i < blocks@.len() implies blocks.deep_view()[i]
                        == self@.chunk(index as nat)[i] by {
                        assert(blocks@[i] == held[at * self.chunk_size + i]);
                    }
                    assert(blocks.deep_view() =~= self@.chunk(index as nat));
                }
                Some(blocks)
            },
            _ => None,
        }
    }

    /// The argument of the call for the chunk in flight: the encoded list of
    /// that chunk's blocks. `None` where no chunk is in flight, or where the
    /// encoder fails on the chunk.
    pub fn request(&self) -> (res: Option<Vec<u8>>)
        ensures
            match res {
                Some(message) => self@.state matches State::Transmitting(k) && candid_message(
                    self@.chunk(k as nat),
                ) == Some(message@),
                None => self@.state matches State::Transmitting(k) ==> candid_message(
                    self@.chunk(k as nat),
                ) is None,
            },
    {
        proof {
            use_type_invariant(self);
        }
        match self.state {
            State::Transmitting(k) => {
                match self.chunk(k) {
                    Some(blocks) => encode_chunk(blocks),
                    None => None,
                }
            },
            _ => None,
        }
    }

    /// Number of blocks that the run holds.
    pub fn total_blocks(&self) -> (res: usize)
        ensures
            res == self@.blocks.len(),
    {
        self.blocks.len()
    }

    /// Number of chunks that the run's blocks are cut into.
    pub fn total_chunks(&self) -> (res: usize)
        ensures
            res == self@.chunk_total(),
    {
        match count_chunks(self.blocks.len(), self.chunk_size) {
            Ok(count) => count,
            Err(_) => 0,
        }
    }

    /// Number of blocks delivered so far: the blocks of all chunks before the
    /// one in flight or the one that failed.
    pub fn blocks_sent(&self) -> (res: usize)
        ensures
            res == self@.blocks_sent(),
    {
        proof {
            use_type_invariant(self);
        }
        match self.state {
            State::Transmitting(k) => self.blocks_through(k - 1),
            State::Done => self.blocks.len(),
            State::Aborted(_, k) => {
                if k == 0 {
                    0
                } else {
                    self.blocks_through(k - 1)
                }
            },
            _ => 0,
        }
    }

    /// What is to be done next.
    pub fn command(&self) -> (res: Command)
        ensures
            res == command_of(self@),
    {
        match self.state {
            State::Init => Command::LoadIdentity,
            State::IdentityLoaded => Command::OpenClient,
            State::ClientReady => Command::ReadBlocks,
            State::Reading => Command::Batch,
            State::Transmitting(k) => Command::Transmit(k),
            State::Done => Command::Finish,
            State::Aborted(reason, k) => Command::Halt(reason, k),
        }
    }
}

} // verus!
