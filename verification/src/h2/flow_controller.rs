use vstd::prelude::*;
use std::collections::HashMap;
use crate::text::{push_decimal, decimal};

verus! {

broadcast use vstd::std_specs::hash::group_hash_axioms;

/// A signed integer rendered in decimal.
pub open spec fn signed_decimal(i: int) -> Seq<char> {
    if i < 0 { "-"@ + decimal((-i) as nat) } else { decimal(i as nat) }
}

/// Appends the decimal rendering of a signed number.
pub fn push_signed(out: &mut String, v: i64)
    ensures
        final(out)@ == old(out)@ + signed_decimal(v as int),
{
    if v < 0 {
        out.append("-");
        let m: u64 = if v == i64::MIN { 9223372036854775808u64 } else { (-v) as u64 };
        push_decimal(out, m);
    } else {
        push_decimal(out, v as u64);
    }
}

/// An HTTP/2 flow-control window.
pub struct FlowWindow {
    available: i32,
    initial_size: i32,
    total_consumed: u64,
}

/// The abstract state of a window.
pub struct FlowWindowView {
    pub available: i32,
    pub initial_size: i32,
    pub total_consumed: u64,
}

impl View for FlowWindow {
    type V = FlowWindowView;

    closed spec fn view(&self) -> FlowWindowView {
        FlowWindowView {
            available: self.available,
            initial_size: self.initial_size,
            total_consumed: self.total_consumed,
        }
    }
}

/// The message for a refused consumption.
pub open spec fn exhausted_message(bytes: u32, available: i32) -> Seq<char> {
    "Flow control window exhausted: need "@ + decimal(bytes as nat) + ", have "@
        + signed_decimal(available as int)
}

/// The message for a refused update.
pub open spec fn overflow_message(available: i32, increment: u32) -> Seq<char> {
    "Flow control window overflow: current "@ + signed_decimal(available as int) + ", increment "@
        + decimal(increment as nat)
}

impl FlowWindow {
    /// A window of `initial_size` bytes, nothing consumed.
    pub fn new(initial_size: i32) -> (w: Self)
        ensures
            w@ == (FlowWindowView { available: initial_size, initial_size, total_consumed: 0 }),
    {
        FlowWindow { available: initial_size, initial_size, total_consumed: 0 }
    }

    /// The RFC 7540 default window size, 65535.
    pub fn default_size() -> (r: i32)
        ensures
            r == 65535,
    {
        65535
    }

    /// The bytes that may still be sent.
    pub fn available(&self) -> (r: i32)
        ensures
            r == self@.available,
    {
        self.available
    }

    /// Consumes `bytes` from the window; refused when `bytes` (read as an `i32`) exceeds what
    /// is available.
    pub fn consume(&mut self, bytes: u32) -> (r: Result<(), String>)
        requires
            (bytes as i32) <= old(self)@.available ==> (
                i32::MIN <= old(self)@.available - (bytes as i32) <= i32::MAX
                && old(self)@.total_consumed + bytes <= u64::MAX),
        ensures
            (bytes as i32) > old(self)@.available ==> r is Err && final(self)@ == old(self)@
                && r->Err_0@ == exhausted_message(bytes, old(self)@.available),
            (bytes as i32) <= old(self)@.available ==> r is Ok && final(self)@ == (FlowWindowView {
                available: (old(self)@.available - (bytes as i32)) as i32,
                initial_size: old(self)@.initial_size,
                total_consumed: (old(self)@.total_consumed + bytes) as u64,
            }),
    {
        if (bytes as i32) > self.available {
            let mut msg = String::from_str("Flow control window exhausted: need ");
            push_decimal(&mut msg, bytes as u64);
            msg.append(", have ");
            push_signed(&mut msg, self.available as i64);
            return Err(msg);
        }
        self.available = self.available - (bytes as i32);
        self.total_consumed = self.total_consumed + bytes as u64;
        Ok(())
    }

    /// Grows the window by `increment`; refused when it would pass `i32::MAX`.
    pub fn update(&mut self, increment: u32) -> (r: Result<(), String>)
        ensures
            old(self)@.available + increment > i32::MAX ==> r is Err && final(self)@ == old(self)@
                && r->Err_0@ == overflow_message(old(self)@.available, increment),
            old(self)@.available + increment <= i32::MAX ==> r is Ok && final(self)@ == (FlowWindowView {
                available: (old(self)@.available + increment) as i32,
                ..old(self)@
            }),
    {
        let new_size = (self.available as i64) + (increment as i64);
        if new_size > i32::MAX as i64 {
            let mut msg = String::from_str("Flow control window overflow: current ");
            push_signed(&mut msg, self.available as i64);
            msg.append(", increment ");
            push_decimal(&mut msg, increment as u64);
            return Err(msg);
        }
        self.available = new_size as i32;
        Ok(())
    }

    /// The total bytes consumed so far.
    pub fn total_consumed(&self) -> (r: u64)
        ensures
            r == self@.total_consumed,
    {
        self.total_consumed
    }

    /// Restores the window to its initial size (the consumed total is kept).
    pub fn reset(&mut self)
        ensures
            final(self)@ == (FlowWindowView { available: old(self)@.initial_size, ..old(self)@ }),
    {
        self.available = self.initial_size;
    }
}

/// Consuming `n` bytes and then granting `n` bytes back restores the available window
/// (for `n` that fits in an `i32`).
pub proof fn lemma_consume_then_update_restores(w: FlowWindowView, n: u32)
    requires
        n <= i32::MAX,
        n <= w.available,
    ensures
        ({
            let after = (w.available - (n as i32)) as i32;
            &&& (n as i32) <= w.available
            &&& after + n <= i32::MAX
            &&& (after + n) as i32 == w.available
        }),
{
}

/// Consumed bytes past which a window update is sent: half the default window, rounded down.
pub const UPDATE_THRESHOLD: u32 = 32767;

/// The flow-control windows of a connection and of its streams, and the bytes received
/// since each last sent a window update.
pub struct FlowController {
    connection_window: FlowWindow,
    stream_windows: HashMap<u32, FlowWindow>,
    bytes_since_update_conn: u32,
    bytes_since_update_stream: HashMap<u32, u32>,
    updates_sent: u64,
    backpressure_events: u64,
}

/// The abstract state of a flow controller.
pub struct FlowControllerView {
    pub connection: FlowWindowView,
    pub streams: Map<u32, FlowWindowView>,
    pub since_conn: u32,
    pub since_stream: Map<u32, u32>,
    pub updates_sent: u64,
    pub backpressure_events: u64,
}

/// The windows by their abstract states.
pub open spec fn window_views(m: Map<u32, FlowWindow>) -> Map<u32, FlowWindowView> {
    m.map_values(|w: FlowWindow| w@)
}

/// A fresh window of the default size.
pub open spec fn fresh_window() -> FlowWindowView {
    FlowWindowView { available: 65535, initial_size: 65535, total_consumed: 0 }
}

/// The message for a stream without a window.
pub open spec fn no_window_message(stream_id: u32) -> Seq<char> {
    "Stream "@ + decimal(stream_id as nat) + " window not found"@
}

impl View for FlowController {
    type V = FlowControllerView;

    closed spec fn view(&self) -> FlowControllerView {
        FlowControllerView {
            connection: self.connection_window@,
            streams: window_views(self.stream_windows@),
            since_conn: self.bytes_since_update_conn,
            since_stream: self.bytes_since_update_stream@,
            updates_sent: self.updates_sent,
            backpressure_events: self.backpressure_events,
        }
    }
}

/// What consuming `bytes` on a stream does to a controller (see `consume_data`).
pub open spec fn consume_outcome(s: FlowControllerView, stream_id: u32, bytes: u32) -> (FlowControllerView, Result<(), Seq<char>>) {
    if (bytes as i32) > s.connection.available {
        (s, Err(exhausted_message(bytes, s.connection.available)))
    } else {
        let conn = FlowWindowView {
            available: (s.connection.available - (bytes as i32)) as i32,
            total_consumed: (s.connection.total_consumed + bytes) as u64,
            ..s.connection
        };
        let s1 = FlowControllerView { connection: conn, since_conn: (s.since_conn + bytes) as u32, ..s };
        if !s.streams.contains_key(stream_id) {
            (s1, Err(no_window_message(stream_id)))
        } else if (bytes as i32) > s.streams[stream_id].available {
            (s1, Err(exhausted_message(bytes, s.streams[stream_id].available)))
        } else {
            let w = s.streams[stream_id];
            let w2 = FlowWindowView {
                available: (w.available - (bytes as i32)) as i32,
                total_consumed: (w.total_consumed + bytes) as u64,
                ..w
            };
            let s2 = FlowControllerView {
                streams: s.streams.insert(stream_id, w2),
                since_stream: s.since_stream.insert(stream_id, (s.since_stream[stream_id] + bytes) as u32),
                ..s1
            };
            if conn.available <= 0 {
                (FlowControllerView { backpressure_events: (s.backpressure_events + 1) as u64, ..s2 }, Ok(()))
            } else {
                (s2, Ok(()))
            }
        }
    }
}

/// What the statistics of a controller report.
#[derive(Debug, Clone)]
pub struct FlowControlStats {
    pub connection_window_available: i32,
    pub connection_window_consumed: u64,
    pub stream_count: usize,
    pub updates_sent: u64,
    pub backpressure_events: u64,
}

impl FlowControlStats {
    /// The one-line summary of the statistics.
    pub fn to_string(&self) -> (r: String)
        ensures
            r@ == "FlowControl: "@ + signed_decimal(self.connection_window_available as int) + " bytes available, "@
                + decimal(self.connection_window_consumed as nat) + " consumed, "@ + decimal(self.stream_count as nat)
                + " streams, "@ + decimal(self.updates_sent as nat) + " updates, "@
                + decimal(self.backpressure_events as nat) + " backpressure"@,
    {
        let mut r = String::from_str("FlowControl: ");
        push_signed(&mut r, self.connection_window_available as i64);
        r.append(" bytes available, ");
        push_decimal(&mut r, self.connection_window_consumed);
        r.append(" consumed, ");
        push_decimal(&mut r, self.stream_count as u64);
        r.append(" streams, ");
        push_decimal(&mut r, self.updates_sent);
        r.append(" updates, ");
        push_decimal(&mut r, self.backpressure_events);
        r.append(" backpressure");
        r
    }
}

fn no_window_error(stream_id: u32) -> (r: String)
    ensures
        r@ == no_window_message(stream_id),
{
    let mut m = String::from_str("Stream ");
    push_decimal(&mut m, stream_id as u64);
    m.append(" window not found");
    m
}

impl FlowController {
    /// Every stream with a window has a count of bytes since its last update, and no other.
    pub closed spec fn wf(&self) -> bool {
        self.stream_windows@.dom() == self.bytes_since_update_stream@.dom()
    }

    /// A connection window of the default size and no streams.
    pub fn new() -> (c: Self)
        ensures
            c.wf(),
            c@.connection == fresh_window(),
            c@.streams == Map::<u32, FlowWindowView>::empty(),
            c@.since_conn == 0,
            c@.since_stream == Map::<u32, u32>::empty(),
            c@.updates_sent == 0,
            c@.backpressure_events == 0,
    {
        let c = FlowController {
            connection_window: FlowWindow::new(65535),
            stream_windows: HashMap::new(),
            bytes_since_update_conn: 0,
            bytes_since_update_stream: HashMap::new(),
            updates_sent: 0,
            backpressure_events: 0,
        };
        assert(window_views(c.stream_windows@) =~= Map::<u32, FlowWindowView>::empty());
        c
    }

    /// Opens a stream's window at the default size; refused when it has one.
    pub fn create_stream(&mut self, stream_id: u32) -> (r: Result<(), String>)
        requires
            old(self).wf(),
        ensures
            final(self).wf(),
            old(self)@.streams.contains_key(stream_id) ==> (r matches Err(m)
                && m@ == "Stream "@ + decimal(stream_id as nat) + " window already exists"@ && final(self)@ == old(self)@),
            !old(self)@.streams.contains_key(stream_id) ==> r is Ok && final(self)@ == (FlowControllerView {
                streams: old(self)@.streams.insert(stream_id, fresh_window()),
                since_stream: old(self)@.since_stream.insert(stream_id, 0),
                ..old(self)@
            }),
    {
        if self.stream_windows.contains_key(&stream_id) {
            let mut m = String::from_str("Stream ");
            push_decimal(&mut m, stream_id as u64);
            m.append(" window already exists");
            return Err(m);
        }
        let ghost before = self.stream_windows@;
        self.stream_windows.insert(stream_id, FlowWindow::new(65535));
        self.bytes_since_update_stream.insert(stream_id, 0);
        assert(window_views(self.stream_windows@) =~= window_views(before).insert(stream_id, fresh_window()));
        Ok(())
    }

    /// Consumes received bytes from the connection window and then the stream's (see
    /// `consume_outcome`); a stream without a window is an error after the connection
    /// window was charged.
    pub fn consume_data(&mut self, stream_id: u32, bytes: u32) -> (r: Result<(), String>)
        requires
            old(self).wf(),
            bytes <= i32::MAX,
            old(self)@.connection.total_consumed + bytes <= u64::MAX,
            old(self)@.since_conn + bytes <= u32::MAX,
            old(self)@.streams.contains_key(stream_id) ==> old(self)@.streams[stream_id].total_consumed + bytes <= u64::MAX
                && old(self)@.since_stream[stream_id] + bytes <= u32::MAX,
            old(self)@.backpressure_events < u64::MAX,
        ensures
            final(self).wf(),
            final(self)@ == consume_outcome(old(self)@, stream_id, bytes).0,
            match consume_outcome(old(self)@, stream_id, bytes).1 {
                Ok(()) => r is Ok,
                Err(e) => r matches Err(m) && m@ == e,
            },
    {
        if let Err(e) = self.connection_window.consume(bytes) {
            return Err(e);
        }
        self.bytes_since_update_conn = self.bytes_since_update_conn + bytes;
        let ghost before = self.stream_windows@;
        let ghost before_counts = self.bytes_since_update_stream@;
        match self.stream_windows.remove(&stream_id) {
            Some(mut window) => {
                let res = window.consume(bytes);
                self.stream_windows.insert(stream_id, window);
                if let Err(e) = res {
                    assert(self.stream_windows@ =~= before);
                    return Err(e);
                }
                assert(window_views(self.stream_windows@) =~= window_views(before).insert(stream_id, window@));
                let count = match self.bytes_since_update_stream.remove(&stream_id) {
                    Some(c) => c,
                    None => 0,
                };
                self.bytes_since_update_stream.insert(stream_id, count + bytes);
                assert(self.bytes_since_update_stream@ =~= before_counts.insert(stream_id, (before_counts[stream_id] + bytes) as u32));
            },
            None => {
                assert(self.stream_windows@ =~= before);
                return Err(no_window_error(stream_id));
            },
        }
        if self.connection_window.available() <= 0 {
            self.backpressure_events = self.backpressure_events + 1;
        }
        Ok(())
    }

    /// Whether enough bytes arrived on the connection to send it a window update.
    pub fn should_update_connection(&self) -> (r: bool)
        ensures
            r == (self@.since_conn >= UPDATE_THRESHOLD),
    {
        self.bytes_since_update_conn >= UPDATE_THRESHOLD
    }

    /// Whether enough bytes arrived on a stream to send it a window update.
    pub fn should_update_stream(&self, stream_id: u32) -> (r: bool)
        ensures
            r == (self@.since_stream.contains_key(stream_id) && self@.since_stream[stream_id] >= UPDATE_THRESHOLD),
    {
        match self.bytes_since_update_stream.get(&stream_id) {
            Some(c) => *c >= UPDATE_THRESHOLD,
            None => false,
        }
    }

    /// The connection's window update, when one is due: the bytes received since the last
    /// one, which starts a new count.
    pub fn get_connection_update(&mut self) -> (r: Option<u32>)
        requires
            old(self).wf(),
            old(self)@.updates_sent < u64::MAX,
        ensures
            final(self).wf(),
            old(self)@.since_conn >= UPDATE_THRESHOLD ==> r == Some(old(self)@.since_conn) && final(self)@ == (FlowControllerView {
                since_conn: 0,
                updates_sent: (old(self)@.updates_sent + 1) as u64,
                ..old(self)@
            }),
            old(self)@.since_conn < UPDATE_THRESHOLD ==> r is None && final(self)@ == old(self)@,
    {
        if !self.should_update_connection() {
            return None;
        }
        let increment = self.bytes_since_update_conn;
        self.bytes_since_update_conn = 0;
        self.updates_sent = self.updates_sent + 1;
        Some(increment)
    }

    /// A stream's window update, when one is due: the bytes received on it since the last
    /// one, which starts a new count.
    pub fn get_stream_update(&mut self, stream_id: u32) -> (r: Option<u32>)
        requires
            old(self).wf(),
            old(self)@.updates_sent < u64::MAX,
        ensures
            final(self).wf(),
            ({
                let due = old(self)@.since_stream.contains_key(stream_id) && old(self)@.since_stream[stream_id] >= UPDATE_THRESHOLD;
                &&& due ==> r == Some(old(self)@.since_stream[stream_id]) && final(self)@ == (FlowControllerView {
                    since_stream: old(self)@.since_stream.insert(stream_id, 0),
                    updates_sent: (old(self)@.updates_sent + 1) as u64,
                    ..old(self)@
                })
                &&& !due ==> r is None && final(self)@ == old(self)@
            }),
    {
        if !self.should_update_stream(stream_id) {
            return None;
        }
        let ghost before = self.bytes_since_update_stream@;
        let increment = match self.bytes_since_update_stream.remove(&stream_id) {
            Some(c) => c,
            None => 0,
        };
        self.bytes_since_update_stream.insert(stream_id, 0);
        assert(self.bytes_since_update_stream@ =~= before.insert(stream_id, 0));
        self.updates_sent = self.updates_sent + 1;
        Some(increment)
    }

    /// Applies a window update: stream 0 grows the connection window, another stream grows
    /// its own; an unknown stream, or growth past `i32::MAX`, is refused.
    pub fn handle_window_update(&mut self, stream_id: u32, increment: u32) -> (r: Result<(), String>)
        requires
            old(self).wf(),
        ensures
            final(self).wf(),
            stream_id == 0 ==> (if old(self)@.connection.available + increment > i32::MAX {
                r matches Err(m) && m@ == overflow_message(old(self)@.connection.available, increment)
                    && final(self)@ == old(self)@
            } else {
                r is Ok && final(self)@ == (FlowControllerView {
                    connection: FlowWindowView {
                        available: (old(self)@.connection.available + increment) as i32,
                        ..old(self)@.connection
                    },
                    ..old(self)@
                })
            }),
            stream_id != 0 && !old(self)@.streams.contains_key(stream_id) ==> (r matches Err(m)
                && m@ == no_window_message(stream_id) && final(self)@ == old(self)@),
            stream_id != 0 && old(self)@.streams.contains_key(stream_id) ==> ({
                let w = old(self)@.streams[stream_id];
                if w.available + increment > i32::MAX {
                    r matches Err(m) && m@ == overflow_message(w.available, increment) && final(self)@ == old(self)@
                } else {
                    r is Ok && final(self)@ == (FlowControllerView {
                        streams: old(self)@.streams.insert(stream_id, FlowWindowView {
                            available: (w.available + increment) as i32,
                            ..w
                        }),
                        ..old(self)@
                    })
                }
            }),
    {
        if stream_id == 0 {
            return self.connection_window.update(increment);
        }
        let ghost before = self.stream_windows@;
        match self.stream_windows.remove(&stream_id) {
            Some(mut window) => {
                let res = window.update(increment);
                self.stream_windows.insert(stream_id, window);
                proof {
                    if res is Err {
                        assert(self.stream_windows@ =~= before);
                    } else {
                        assert(window_views(self.stream_windows@) =~= window_views(before).insert(stream_id, window@));
                    }
                }
                res
            },
            None => {
                assert(self.stream_windows@ =~= before);
                Err(no_window_error(stream_id))
            },
        }
    }

    /// Forgets a stream's window and count.
    pub fn close_stream(&mut self, stream_id: u32)
        requires
            old(self).wf(),
        ensures
            final(self).wf(),
            final(self)@ == (FlowControllerView {
                streams: old(self)@.streams.remove(stream_id),
                since_stream: old(self)@.since_stream.remove(stream_id),
                ..old(self)@
            }),
    {
        let ghost before = self.stream_windows@;
        self.stream_windows.remove(&stream_id);
        self.bytes_since_update_stream.remove(&stream_id);
        assert(window_views(self.stream_windows@) =~= window_views(before).remove(stream_id));
    }

    /// The bytes the connection window still allows.
    pub fn connection_window_available(&self) -> (r: i32)
        ensures
            r == self@.connection.available,
    {
        self.connection_window.available()
    }

    /// The bytes a stream's window still allows, if it has one.
    pub fn stream_window_available(&self, stream_id: u32) -> (r: Option<i32>)
        ensures
            r == (if self@.streams.contains_key(stream_id) { Some(self@.streams[stream_id].available) } else { None::<i32> }),
    {
        match self.stream_windows.get(&stream_id) {
            Some(w) => Some(w.available()),
            None => None,
        }
    }

    /// The controller's statistics.
    pub fn stats(&self) -> (st: FlowControlStats)
        ensures
            st.connection_window_available == self@.connection.available,
            st.connection_window_consumed == self@.connection.total_consumed,
            st.stream_count == self@.streams.len(),
            st.updates_sent == self@.updates_sent,
            st.backpressure_events == self@.backpressure_events,
    {
        assert(window_views(self.stream_windows@).dom() =~= self.stream_windows@.dom());
        FlowControlStats {
            connection_window_available: self.connection_window.available(),
            connection_window_consumed: self.connection_window.total_consumed(),
            stream_count: self.stream_windows.len(),
            updates_sent: self.updates_sent,
            backpressure_events: self.backpressure_events,
        }
    }
}

impl Default for FlowController {
    fn default() -> (c: Self)
        ensures
            c.wf(),
            c@.connection == fresh_window(),
            c@.streams == Map::<u32, FlowWindowView>::empty(),
            c@.since_conn == 0,
            c@.since_stream == Map::<u32, u32>::empty(),
            c@.updates_sent == 0,
            c@.backpressure_events == 0,
    {
        FlowController::new()
    }
}

} // verus!
