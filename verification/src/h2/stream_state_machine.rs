use vstd::prelude::*;
use crate::text::concat_str;

verus! {

/// HTTP/2 stream states (RFC 7540, Section 5.1).
#[derive(Debug, Clone, Copy, PartialEq, Eq, Hash, Structural)]
pub enum StreamState {
    /// The stream has not been created yet.
    Idle,
    /// Open for sending and receiving.
    Open,
    /// The local side has closed; the remote side may still send.
    HalfClosedLocal,
    /// The remote side has closed; the local side may still send.
    HalfClosedRemote,
    /// Both sides have closed.
    Closed,
    /// Reserved by a locally initiated push.
    ReservedLocal,
    /// Reserved by a remotely initiated push.
    ReservedRemote,
}

impl StreamState {
    pub open spec fn spec_can_send(self) -> bool {
        self == StreamState::Open || self == StreamState::HalfClosedRemote
    }

    pub open spec fn spec_can_receive(self) -> bool {
        self == StreamState::Open || self == StreamState::HalfClosedLocal
    }

    pub open spec fn spec_name(self) -> Seq<char> {
        match self {
            StreamState::Idle => "IDLE"@,
            StreamState::Open => "OPEN"@,
            StreamState::HalfClosedLocal => "HALF_CLOSED_LOCAL"@,
            StreamState::HalfClosedRemote => "HALF_CLOSED_REMOTE"@,
            StreamState::Closed => "CLOSED"@,
            StreamState::ReservedLocal => "RESERVED_LOCAL"@,
            StreamState::ReservedRemote => "RESERVED_REMOTE"@,
        }
    }

    /// Whether the local side may send on a stream in this state.
    pub fn can_send(&self) -> (r: bool)
        ensures
            r == self.spec_can_send(),
    {
        match self {
            StreamState::Open | StreamState::HalfClosedRemote => true,
            _ => false,
        }
    }

    /// Whether the remote side may send (we may receive) on a stream in this state.
    pub fn can_receive(&self) -> (r: bool)
        ensures
            r == self.spec_can_receive(),
    {
        match self {
            StreamState::Open | StreamState::HalfClosedLocal => true,
            _ => false,
        }
    }

    /// Whether the stream is neither idle nor closed.
    pub fn is_active(&self) -> (r: bool)
        ensures
            r == (*self != StreamState::Idle && *self != StreamState::Closed),
    {
        match self {
            StreamState::Idle | StreamState::Closed => false,
            _ => true,
        }
    }

    /// Whether the stream is closed.
    pub fn is_closed(&self) -> (r: bool)
        ensures
            r == (*self == StreamState::Closed),
    {
        *self == StreamState::Closed
    }

    /// The RFC name of the state.
    pub fn name(&self) -> (r: &'static str)
        ensures
            r@ == self.spec_name(),
    {
        match self {
            StreamState::Idle => "IDLE",
            StreamState::Open => "OPEN",
            StreamState::HalfClosedLocal => "HALF_CLOSED_LOCAL",
            StreamState::HalfClosedRemote => "HALF_CLOSED_REMOTE",
            StreamState::Closed => "CLOSED",
            StreamState::ReservedLocal => "RESERVED_LOCAL",
            StreamState::ReservedRemote => "RESERVED_REMOTE",
        }
    }
}

/// The abstract state of a stream state machine.
pub struct StreamMachineView {
    pub state: StreamState,
    pub stream_id: u32,
    pub sent_end_stream: bool,
    pub received_end_stream: bool,
}

/// Per-stream state machine enforcing the RFC 7540 transitions.
pub struct StreamStateMachine {
    state: StreamState,
    stream_id: u32,
    sent_end_stream: bool,
    received_end_stream: bool,
}

impl View for StreamStateMachine {
    type V = StreamMachineView;

    closed spec fn view(&self) -> StreamMachineView {
        StreamMachineView {
            state: self.state,
            stream_id: self.stream_id,
            sent_end_stream: self.sent_end_stream,
            received_end_stream: self.received_end_stream,
        }
    }
}

/// The view with its state replaced by `s`.
pub open spec fn with_state(v: StreamMachineView, s: StreamState) -> StreamMachineView {
    StreamMachineView { state: s, ..v }
}

/// Successor of sending HEADERS, or `None` where the transition is refused.
pub open spec fn next_send_headers(v: StreamMachineView) -> Option<StreamMachineView> {
    if v.state == StreamState::Idle { Some(with_state(v, StreamState::Open)) } else { None }
}

/// Successor of receiving HEADERS, or `None` where the transition is refused.
pub open spec fn next_receive_headers(v: StreamMachineView) -> Option<StreamMachineView> {
    if v.state == StreamState::Idle {
        Some(with_state(v, StreamState::Open))
    } else if v.state == StreamState::ReservedRemote {
        Some(with_state(v, StreamState::HalfClosedLocal))
    } else {
        None
    }
}

/// Successor of sending DATA, or `None` where the transition is refused.
pub open spec fn next_send_data(v: StreamMachineView, end_stream: bool) -> Option<StreamMachineView> {
    if !v.state.spec_can_send() {
        None
    } else if end_stream {
        Some(StreamMachineView {
            state: if v.received_end_stream { StreamState::Closed } else { StreamState::HalfClosedLocal },
            sent_end_stream: true,
            ..v
        })
    } else {
        Some(v)
    }
}

/// Successor of receiving DATA, or `None` where the transition is refused.
pub open spec fn next_receive_data(v: StreamMachineView, end_stream: bool) -> Option<StreamMachineView> {
    if !v.state.spec_can_receive() {
        None
    } else if end_stream {
        Some(StreamMachineView {
            state: if v.sent_end_stream { StreamState::Closed } else { StreamState::HalfClosedRemote },
            received_end_stream: true,
            ..v
        })
    } else {
        Some(v)
    }
}

/// Successor of sending or receiving RST_STREAM.
pub open spec fn next_reset(v: StreamMachineView) -> Option<StreamMachineView> {
    if v.state == StreamState::Idle { None } else { Some(with_state(v, StreamState::Closed)) }
}

/// Successor of reserving the stream locally.
pub open spec fn next_reserve_local(v: StreamMachineView) -> Option<StreamMachineView> {
    if v.state == StreamState::Idle { Some(with_state(v, StreamState::ReservedLocal)) } else { None }
}

/// Successor of reserving the stream remotely.
pub open spec fn next_reserve_remote(v: StreamMachineView) -> Option<StreamMachineView> {
    if v.state == StreamState::Idle { Some(with_state(v, StreamState::ReservedRemote)) } else { None }
}

/// What every reachable machine state satisfies: END_STREAM in both directions means
/// closed, a stream that is idle, open or reserved has seen no END_STREAM, and a
/// half-closed stream has seen END_STREAM only in its closed direction.
pub open spec fn machine_inv(v: StreamMachineView) -> bool {
    &&& (v.sent_end_stream && v.received_end_stream) ==> v.state == StreamState::Closed
    &&& (v.state == StreamState::Idle || v.state == StreamState::Open
        || v.state == StreamState::ReservedLocal || v.state == StreamState::ReservedRemote)
        ==> (!v.sent_end_stream && !v.received_end_stream)
    &&& v.state == StreamState::HalfClosedLocal ==> !v.received_end_stream
    &&& v.state == StreamState::HalfClosedRemote ==> !v.sent_end_stream
}

/// The outcome of a transition: `Ok` with the successor, or the refusal message with the
/// machine unchanged.
pub open spec fn transition_outcome(
    old_v: StreamMachineView,
    new_v: StreamMachineView,
    next: Option<StreamMachineView>,
    r: Result<(), String>,
    msg: Seq<char>,
) -> bool {
    match next {
        Some(n) => r is Ok && new_v == n,
        None => r is Err && r->Err_0@ == msg && new_v == old_v,
    }
}

impl StreamStateMachine {
    /// A fresh machine for `stream_id`, in the idle state.
    pub fn new(stream_id: u32) -> (sm: Self)
        ensures
            sm@ == (StreamMachineView {
                state: StreamState::Idle,
                stream_id,
                sent_end_stream: false,
                received_end_stream: false,
            }),
    {
        StreamStateMachine {
            state: StreamState::Idle,
            stream_id,
            sent_end_stream: false,
            received_end_stream: false,
        }
    }

    /// The current state.
    pub fn state(&self) -> (s: StreamState)
        ensures
            s == self@.state,
    {
        self.state
    }

    fn refuse(prefix: &str, state: StreamState) -> (r: Result<(), String>)
        ensures
            r is Err && r->Err_0@ == prefix@ + state.spec_name(),
    {
        Err(concat_str(prefix, state.name()))
    }

    /// Sends HEADERS: only an idle stream opens.
    pub fn send_headers(&mut self) -> (r: Result<(), String>)
        ensures
            transition_outcome(old(self)@, final(self)@, next_send_headers(old(self)@), r,
                "Cannot send headers in state: "@ + old(self)@.state.spec_name()),
    {
        match self.state {
            StreamState::Idle => {
                self.state = StreamState::Open;
                Ok(())
            },
            _ => Self::refuse("Cannot send headers in state: ", self.state),
        }
    }

    /// Receives HEADERS: an idle stream opens, a remotely reserved one becomes half-closed (local).
    pub fn receive_headers(&mut self) -> (r: Result<(), String>)
        ensures
            transition_outcome(old(self)@, final(self)@, next_receive_headers(old(self)@), r,
                "Cannot receive headers in state: "@ + old(self)@.state.spec_name()),
    {
        match self.state {
            StreamState::Idle => {
                self.state = StreamState::Open;
                Ok(())
            },
            StreamState::ReservedRemote => {
                self.state = StreamState::HalfClosedLocal;
                Ok(())
            },
            _ => Self::refuse("Cannot receive headers in state: ", self.state),
        }
    }

    /// Sends DATA, optionally with END_STREAM.
    pub fn send_data(&mut self, end_stream: bool) -> (r: Result<(), String>)
        ensures
            transition_outcome(old(self)@, final(self)@, next_send_data(old(self)@, end_stream), r,
                "Cannot send data in state: "@ + old(self)@.state.spec_name()),
    {
        if !self.state.can_send() {
            return Self::refuse("Cannot send data in state: ", self.state);
        }
        if end_stream {
            self.sent_end_stream = true;
            self.state = if self.received_end_stream {
                StreamState::Closed
            } else {
                StreamState::HalfClosedLocal
            };
        }
        Ok(())
    }

    /// Receives DATA, optionally with END_STREAM.
    pub fn receive_data(&mut self, end_stream: bool) -> (r: Result<(), String>)
        ensures
            transition_outcome(old(self)@, final(self)@, next_receive_data(old(self)@, end_stream), r,
                "Cannot receive data in state: "@ + old(self)@.state.spec_name()),
    {
        if !self.state.can_receive() {
            return Self::refuse("Cannot receive data in state: ", self.state);
        }
        if end_stream {
            self.received_end_stream = true;
            self.state = if self.sent_end_stream {
                StreamState::Closed
            } else {
                StreamState::HalfClosedRemote
            };
        }
        Ok(())
    }

    /// Sends RST_STREAM: closes any stream but an idle one.
    pub fn reset(&mut self) -> (r: Result<(), String>)
        ensures
            transition_outcome(old(self)@, final(self)@, next_reset(old(self)@), r,
                "Cannot reset idle stream"@),
    {
        if self.state == StreamState::Idle {
            return Err("Cannot reset idle stream".to_owned());
        }
        self.state = StreamState::Closed;
        Ok(())
    }

    /// Receives RST_STREAM: closes any stream but an idle one.
    pub fn receive_reset(&mut self) -> (r: Result<(), String>)
        ensures
            transition_outcome(old(self)@, final(self)@, next_reset(old(self)@), r,
                "Cannot reset idle stream"@),
    {
        if self.state == StreamState::Idle {
            return Err("Cannot reset idle stream".to_owned());
        }
        self.state = StreamState::Closed;
        Ok(())
    }

    /// Checks that PUSH_PROMISE may be sent on this (parent) stream; the state is unchanged.
    pub fn push_promise(&mut self) -> (r: Result<(), String>)
        ensures
            final(self)@ == old(self)@,
            r is Ok <==> (old(self)@.state == StreamState::Open
                || old(self)@.state == StreamState::HalfClosedRemote),
            r is Err ==> r->Err_0@ == "Cannot send PUSH_PROMISE in state: "@
                + old(self)@.state.spec_name(),
    {
        match self.state {
            StreamState::Open | StreamState::HalfClosedRemote => Ok(()),
            _ => Self::refuse("Cannot send PUSH_PROMISE in state: ", self.state),
        }
    }

    /// Reserves an idle stream for a local push.
    pub fn reserve_local(&mut self) -> (r: Result<(), String>)
        ensures
            transition_outcome(old(self)@, final(self)@, next_reserve_local(old(self)@), r,
                "Cannot reserve local in state: "@ + old(self)@.state.spec_name()),
    {
        match self.state {
            StreamState::Idle => {
                self.state = StreamState::ReservedLocal;
                Ok(())
            },
            _ => Self::refuse("Cannot reserve local in state: ", self.state),
        }
    }

    /// Reserves an idle stream for a remote push.
    pub fn reserve_remote(&mut self) -> (r: Result<(), String>)
        ensures
            transition_outcome(old(self)@, final(self)@, next_reserve_remote(old(self)@), r,
                "Cannot reserve remote in state: "@ + old(self)@.state.spec_name()),
    {
        match self.state {
            StreamState::Idle => {
                self.state = StreamState::ReservedRemote;
                Ok(())
            },
            _ => Self::refuse("Cannot reserve remote in state: ", self.state),
        }
    }

    /// Whether a PRIORITY frame may be received (neither idle nor closed).
    pub fn can_receive_priority(&self) -> (r: bool)
        ensures
            r == (self@.state != StreamState::Idle && self@.state != StreamState::Closed),
    {
        self.state != StreamState::Idle && self.state != StreamState::Closed
    }

    /// Whether a WINDOW_UPDATE frame may be received (neither idle nor closed).
    pub fn can_receive_window_update(&self) -> (r: bool)
        ensures
            r == (self@.state != StreamState::Idle && self@.state != StreamState::Closed),
    {
        self.state != StreamState::Idle && self.state != StreamState::Closed
    }
}

/// A closed stream stays closed: no transition leads out of `Closed`.
pub proof fn lemma_closed_is_final(v: StreamMachineView, end_stream: bool)
    requires
        v.state == StreamState::Closed,
    ensures
        next_send_headers(v) is None,
        next_receive_headers(v) is None,
        next_send_data(v, end_stream) is None,
        next_receive_data(v, end_stream) is None,
        next_reserve_local(v) is None,
        next_reserve_remote(v) is None,
        next_reset(v) == Some(v),
{
}

/// Every transition keeps the machine invariant: a fresh machine satisfies it, and once
/// END_STREAM has been both sent and received the stream is closed.
pub proof fn lemma_transitions_keep_invariant(v: StreamMachineView, end_stream: bool)
    requires
        machine_inv(v),
    ensures
        next_send_headers(v) matches Some(n) ==> machine_inv(n),
        next_receive_headers(v) matches Some(n) ==> machine_inv(n),
        next_send_data(v, end_stream) matches Some(n) ==> machine_inv(n),
        next_receive_data(v, end_stream) matches Some(n) ==> machine_inv(n),
        next_reset(v) matches Some(n) ==> machine_inv(n),
        next_reserve_local(v) matches Some(n) ==> machine_inv(n),
        next_reserve_remote(v) matches Some(n) ==> machine_inv(n),
        machine_inv(StreamMachineView {
            state: StreamState::Idle,
            stream_id: v.stream_id,
            sent_end_stream: false,
            received_end_stream: false,
        }),
{
}

/// Sending and receiving END_STREAM, in either order, closes an open stream.
pub proof fn lemma_both_end_streams_close(v: StreamMachineView)
    requires
        v.state == StreamState::Open,
        machine_inv(v),
    ensures
        next_send_data(v, true) matches Some(a) && next_receive_data(a, true) matches Some(b)
            && b.state == StreamState::Closed,
        next_receive_data(v, true) matches Some(a) && next_send_data(a, true) matches Some(b)
            && b.state == StreamState::Closed,
{
}

} // verus!
