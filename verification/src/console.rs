//! The console multiplexer's decision core: what must happen, in what
//! order, for each event the worker observes. The worker around this
//! library owns the PTY, the listener, the log file and the clients; it
//! feeds every event through `console_step` and performs the returned
//! actions in order. The transcript guarantee lives here: a PTY chunk is
//! appended to the log strictly before it is fanned out, so the log stays
//! the authoritative transcript even if a client drops mid-chunk.
use vstd::prelude::*;

verus! {

/// What the console worker observed.
#[derive(Debug)]
pub enum ConsoleEvent {
    /// A client connected on the console listener.
    Attached,
    /// Bytes arrived from the PTY master.
    PtyChunk(Vec<u8>),
    /// The PTY master reached end of stream: the guest is gone.
    PtyEof,
    /// A connected client sent bytes for the guest's serial input.
    ClientInput(Vec<u8>),
    /// The owner cleared the liveness flag: the worker must wind down.
    FlagCleared,
    /// Nothing happened this tick.
    Idle,
}

/// What the worker must do, in the order given.
#[derive(Debug)]
pub enum ConsoleAction {
    /// Send the current log contents to the newly attached client, before
    /// it is registered for live output.
    ReplayLog,
    /// Append these bytes to the log file and flush it.
    AppendToLog(Vec<u8>),
    /// Write these bytes to every connected client, dropping any client
    /// whose write fails.
    Broadcast(Vec<u8>),
    /// Write these bytes to the PTY master: the guest's serial input.
    WriteToPty(Vec<u8>),
    /// Leave the loop; the sockets are then unlinked by the kill path.
    Exit,
    /// Sleep one idle tick to bound CPU.
    Sleep,
}

/// The policy of the multiplexer loop, one event at a time. For a PTY
/// chunk the append comes strictly before the fan-out; a late attacher is
/// replayed the log before joining the live set; the loop exits exactly on
/// PTY end-of-stream or a cleared liveness flag.
pub fn console_step(e: ConsoleEvent) -> (r: Vec<ConsoleAction>)
    ensures
        e matches ConsoleEvent::PtyChunk(d) ==> r@.len() == 2 && (
        r@[0] matches ConsoleAction::AppendToLog(b) && b@ == d@) && (
        r@[1] matches ConsoleAction::Broadcast(b) && b@ == d@),
        e is Attached ==> r@.len() == 1 && r@[0] is ReplayLog,
        e is PtyEof ==> r@.len() == 1 && r@[0] is Exit,
        e is FlagCleared ==> r@.len() == 1 && r@[0] is Exit,
        e matches ConsoleEvent::ClientInput(d) ==> r@.len() == 1 && (
        r@[0] matches ConsoleAction::WriteToPty(b) && b@ == d@),
        e is Idle ==> r@.len() == 1 && r@[0] is Sleep,
{
    let mut actions: Vec<ConsoleAction> = Vec::new();
    match e {
        ConsoleEvent::Attached => {
            actions.push(ConsoleAction::ReplayLog);
        },
        ConsoleEvent::PtyChunk(d) => {
            let copy = d.clone();
            proof {
                assert(copy@ == d@);
            }
            actions.push(ConsoleAction::AppendToLog(copy));
            actions.push(ConsoleAction::Broadcast(d));
        },
        ConsoleEvent::PtyEof => {
            actions.push(ConsoleAction::Exit);
        },
        ConsoleEvent::ClientInput(d) => {
            actions.push(ConsoleAction::WriteToPty(d));
        },
        ConsoleEvent::FlagCleared => {
            actions.push(ConsoleAction::Exit);
        },
        ConsoleEvent::Idle => {
            actions.push(ConsoleAction::Sleep);
        },
    }
    actions
}

} // verus!
