use vstd::prelude::*;

use crate::signal::SignalPoll;
use crate::signal::poll_signal;
use std::sync::mpsc::Receiver;
use vstd::string::StringExecFns;

verus! {

/// State of one background reader.
#[derive(Debug, Clone, Copy, PartialEq, Eq, Structural)]
pub enum LoopState {
    Running,
    Stopped,
}

/// An ordered byte sequence plus its length, emitted once per successful
/// read cycle.
#[derive(Debug, Clone)]
pub struct ReadChunk {
    pub data: Vec<u8>,
    pub size: usize,
}

impl ReadChunk {
    /// The recorded length is the length of the bytes carried.
    pub open spec fn wf(self) -> bool {
        self.size == self.data@.len()
    }
}

/// The chunk size one read cycle asks for: 1024 bytes when no override is
/// given.
pub open spec fn spec_chunk_size(value: Option<usize>) -> usize {
    match value {
        Option::Some(v) => v,
        Option::None => 1024usize,
    }
}

/// How one poll of the cancellation channel moves the reader: a stopped
/// reader stays stopped, and a running one stops exactly when a signal
/// arrived or the channel disconnected.
pub open spec fn spec_transition(state: LoopState, poll: SignalPoll) -> LoopState {
    match state {
        LoopState::Stopped => LoopState::Stopped,
        LoopState::Running => match poll {
            SignalPoll::Pending => LoopState::Running,
            SignalPoll::Received => LoopState::Stopped,
            SignalPoll::Disconnected => LoopState::Stopped,
        },
    }
}

/// The reader state after a whole run of polls, starting from a freshly
/// started reader.
pub open spec fn state_after(polls: Seq<SignalPoll>) -> LoopState
    decreases polls.len(),
{
    if polls.len() == 0 {
        LoopState::Running
    } else {
        spec_transition(state_after(polls.drop_last()), polls.last())
    }
}

/// Applies one poll outcome to the reader state.
pub fn transition(state: LoopState, poll: SignalPoll) -> (next: LoopState)
    ensures
        next == spec_transition(state, poll),
{
    match state {
        LoopState::Stopped => LoopState::Stopped,
        LoopState::Running => match poll {
            SignalPoll::Pending => LoopState::Running,
            SignalPoll::Received => LoopState::Stopped,
            SignalPoll::Disconnected => LoopState::Stopped,
        },
    }
}

/// Polls the cancellation channel once, without blocking, and moves the
/// reader state accordingly. Which poll outcome comes back depends on the
/// run, so the contract holds for every outcome: a stopped reader never
/// resumes, and a reader that keeps running saw an idle, connected channel.
pub fn poll_cancellation(state: LoopState, receiver: &Receiver<usize>) -> (next: LoopState)
    ensures
        exists|poll: SignalPoll| next == spec_transition(state, poll),
        state is Stopped ==> next is Stopped,
        next is Running ==> state is Running,
{
    let poll = poll_signal(receiver);
    let next = transition(state, poll);
    proof {
        assert(next == spec_transition(state, poll));
    }
    next
}

/// Turns the outcome of one bounded read into the chunk to emit, if any: a
/// stopped reader emits nothing, an empty read emits nothing, and a read of
/// `count` bytes into `buf` emits exactly the first `count` bytes.
pub fn make_chunk(state: LoopState, buf: Vec<u8>, count: usize) -> (r: Option<ReadChunk>)
    requires
        count <= buf@.len(),
    ensures
        state is Stopped ==> r is None,
        count == 0 ==> r is None,
        state is Running && count > 0 ==> (r matches Some(c) && c.wf() && c.size == count
            && c.data@ == buf@.take(count as int)),
{
    match state {
        LoopState::Stopped => None,
        LoopState::Running => {
            if count == 0 {
                None
            } else {
                let mut data = buf;
                data.truncate(count);
                Some(ReadChunk { data, size: count })
            }
        },
    }
}

/// The timeout and chunk-size overrides of a read request, resolved to
/// their documented defaults of 200 ms and 1024 bytes.
pub fn read_defaults(timeout: Option<u64>, size: Option<usize>) -> (r: (u64, usize))
    ensures
        r.0 == crate::config::spec_timeout_ms(timeout),
        r.1 == spec_chunk_size(size),
{
    let timeout_ms: u64 = match timeout {
        Some(v) => v,
        None => 200,
    };
    let chunk_size: usize = match size {
        Some(v) => v,
        None => 1024,
    };
    (timeout_ms, chunk_size)
}

/// The name of the notification channel for one identifier: each port's
/// chunks are delivered on its own channel.
pub fn read_event_name(path: &String) -> (r: String)
    ensures
        r@ == "plugin-serialport-read-"@ + path@,
{
    let mut name: String = "plugin-serialport-read-".to_owned();
    name.append(path.as_str());
    name
}

/// Law: once some poll of a reader's cancellation channel returns a signal
/// or finds the channel disconnected, the reader is stopped at every later
/// cycle, so no further chunk is ever emitted for its identifier.
pub proof fn lemma_no_chunk_after_disconnect(polls: Seq<SignalPoll>, i: int, j: int)
    requires
        0 <= i < j <= polls.len(),
        polls[i] != SignalPoll::Pending,
    ensures
        state_after(polls.take(j)) is Stopped,
    decreases j,
{
    if j == i + 1 {
        assert(polls.take(j).last() == polls[i]);
    } else {
        lemma_no_chunk_after_disconnect(polls, i, j - 1);
        assert(polls.take(j).drop_last() =~= polls.take(j - 1));
        assert(polls.take(j).last() == polls[j - 1]);
    }
}

} // verus!
