//! Connection lifecycle supervisor: when to advertise, when to serve, when
//! to stop.
//!
//! The node advertises until a peer attaches, serves that peer until the
//! dispatcher or the navigation pipeline ends, releases the connection and
//! advertises again. A fault of the stack ends this for good.

use vstd::prelude::*;

verus! {

/// A failure of the stack that cannot be mended from here.
#[derive(Clone, Copy, Debug, PartialEq, Eq)]
pub enum Fault {
    /// Advertising could not be set up.
    Advertising,
    /// The attribute table could not be built.
    AttributeTable,
    /// The background driver of the link failed.
    LinkRunner,
}

/// Where the supervisor stands.
#[derive(Clone, Copy, Debug, PartialEq, Eq)]
pub enum State {
    /// No connection and not advertising.
    Idle,
    /// Advertising, waiting for a peer.
    Advertising,
    /// Serving the peer of this connection.
    Connected { connection: u16 },
    /// Stopped after a fault; nothing leads out of here.
    Fatal(Fault),
}

/// What the supervisor is told.
#[derive(Clone, Copy, Debug, PartialEq, Eq)]
pub enum Signal {
    /// Nothing happened; the supervisor may go on.
    Proceed,
    /// A peer attached while advertising.
    PeerAttached { connection: u16 },
    /// The dispatcher ended: the peer disconnected.
    PeerDisconnected { reason: u8 },
    /// The navigation pipeline ended.
    PipelineEnded,
    /// The stack failed.
    Failed(Fault),
}

/// What the supervisor asks to be done.
#[derive(Clone, Copy, Debug, PartialEq, Eq)]
pub enum Action {
    /// Start advertising.
    Advertise,
    /// Run the dispatcher for this connection and, with `navigation`, the
    /// navigation pipeline beside it; the first to end ends both.
    Serve { connection: u16, navigation: bool },
    /// Cancel what still runs for this connection and drop it.
    Release { connection: u16 },
    /// Keep waiting.
    Wait,
    /// Stop the device and report the fault.
    Halt(Fault),
}

/// The connection that a state holds.
pub open spec fn connection_of(state: State) -> Option<u16> {
    match state {
        State::Connected { connection } => Some(connection),
        _ => None,
    }
}

/// The signal ends the service of a connection.
pub open spec fn ends_epoch(signal: Signal) -> bool {
    signal is PeerDisconnected || signal is PipelineEnded
}

/// The state and the action that follow a signal. `navigation` says whether
/// the node has the navigation service.
pub open spec fn transition(state: State, signal: Signal, navigation: bool) -> (State, Action) {
    match (state, signal) {
        (State::Fatal(fault), _) => (State::Fatal(fault), Action::Halt(fault)),
        (_, Signal::Failed(fault)) => (State::Fatal(fault), Action::Halt(fault)),
        (State::Idle, _) => (State::Advertising, Action::Advertise),
        (State::Advertising, Signal::PeerAttached { connection }) => (
            State::Connected { connection },
            Action::Serve { connection, navigation },
        ),
        (State::Advertising, _) => (State::Advertising, Action::Wait),
        (State::Connected { connection }, Signal::PeerDisconnected { reason }) => (
            State::Idle,
            Action::Release { connection },
        ),
        (State::Connected { connection }, Signal::PipelineEnded) => (
            State::Idle,
            Action::Release { connection },
        ),
        (State::Connected { connection }, _) => (State::Connected { connection }, Action::Wait),
    }
}

/// Decides what follows a signal.
///
/// A fault stops the node from any state, and the first fault is the one
/// that stays reported. Otherwise an idle node starts advertising; an
/// advertising node serves the peer that attaches; a connected node releases
/// its connection when the dispatcher or the pipeline ends. A signal that
/// means nothing in the current state changes nothing.
pub fn step(state: State, signal: Signal, navigation: bool) -> (next: (State, Action))
    ensures
        next == transition(state, signal, navigation),
{
    match state {
        State::Fatal(fault) => (State::Fatal(fault), Action::Halt(fault)),
        State::Idle => match signal {
            Signal::Failed(fault) => (State::Fatal(fault), Action::Halt(fault)),
            _ => (State::Advertising, Action::Advertise),
        },
        State::Advertising => match signal {
            Signal::Failed(fault) => (State::Fatal(fault), Action::Halt(fault)),
            Signal::PeerAttached { connection } => (
                State::Connected { connection },
                Action::Serve { connection, navigation },
            ),
            _ => (State::Advertising, Action::Wait),
        },
        State::Connected { connection } => match signal {
            Signal::Failed(fault) => (State::Fatal(fault), Action::Halt(fault)),
            Signal::PeerDisconnected { reason } => (State::Idle, Action::Release { connection }),
            Signal::PipelineEnded => (State::Idle, Action::Release { connection }),
            _ => (State::Connected { connection }, Action::Wait),
        },
    }
}

/// When the service of a connection ends, by a disconnect or by the
/// pipeline, the connection is released at once and no state holds it any
/// longer; the very next step advertises again, whatever is signalled then,
/// short of a fault.
pub proof fn lemma_epoch_end_resumes_advertising(
    connection: u16,
    end: Signal,
    then: Signal,
    navigation: bool,
)
    requires
        ends_epoch(end),
        !(then is Failed),
    ensures
        transition(State::Connected { connection }, end, navigation) == (
            State::Idle,
            Action::Release { connection },
        ),
        connection_of(transition(State::Connected { connection }, end, navigation).0).is_none(),
        transition(transition(State::Connected { connection }, end, navigation).0, then, navigation)
            == (State::Advertising, Action::Advertise),
{
}

/// Nothing leads out of the fatal state, and the fault reported stays the
/// first one.
pub proof fn lemma_fatal_is_absorbing(fault: Fault, signal: Signal, navigation: bool)
    ensures
        transition(State::Fatal(fault), signal, navigation) == (
            State::Fatal(fault),
            Action::Halt(fault),
        ),
{
}

/// A fault stops the node from every state that is not yet fatal.
pub proof fn lemma_fault_is_fatal(state: State, fault: Fault, navigation: bool)
    requires
        !(state is Fatal),
    ensures
        transition(state, Signal::Failed(fault), navigation) == (
            State::Fatal(fault),
            Action::Halt(fault),
        ),
{
}

/// A connection is held only while connected: a step ends with a connection
/// only by attaching a peer while advertising, or by keeping the one it had.
pub proof fn lemma_single_connection(state: State, signal: Signal, navigation: bool)
    ensures
        connection_of(transition(state, signal, navigation).0) matches Some(c) ==> (state
            == State::Advertising && signal == (Signal::PeerAttached { connection: c }))
            || connection_of(state) == Some(c),
{
}

}
