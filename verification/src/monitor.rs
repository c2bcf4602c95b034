//! Socket monitor events, and the proxy's count of connected publishers.
use vstd::prelude::*;
use zmq::SocketEvent::{
    ACCEPTED, ACCEPT_FAILED, ALL, BIND_FAILED, CLOSED, CLOSE_FAILED, CONNECTED, CONNECT_DELAYED,
    CONNECT_RETRIED, DISCONNECTED, HANDSHAKE_FAILED_AUTH, HANDSHAKE_FAILED_NO_DETAIL,
    HANDSHAKE_FAILED_PROTOCOL, HANDSHAKE_SUCCEEDED, LISTENING, MONITOR_STOPPED,
};

verus! {

/// What a socket monitor event means to the proxy.
#[derive(Clone, Copy, Debug, PartialEq, Eq, Structural)]
pub enum MonitorEvent {
    /// A peer connected (a publisher was accepted).
    Accepted,
    /// A peer went away.
    Disconnected,
    /// Any other event.
    Other,
}

/// The event codes that the monitor reports, as zmq numbers them.
pub open spec fn is_known_event(code: u16) -> bool {
    code == 1 || code == 2 || code == 4 || code == 8 || code == 16 || code == 32 || code == 64
        || code == 128 || code == 256 || code == 512 || code == 1024 || code == 2048 || code
        == 4096 || code == 8192 || code == 16384 || code == 65535
}

/// Whether zmq knows `code` as a monitor event.
pub fn known_event(code: u16) -> (res: bool)
    ensures
        res == is_known_event(code),
{
    code == 1 || code == 2 || code == 4 || code == 8 || code == 16 || code == 32 || code == 64
        || code == 128 || code == 256 || code == 512 || code == 1024 || code == 2048 || code
        == 4096 || code == 8192 || code == 16384 || code == 65535
}

/// A socket event that zmq's monitor reports, one variant per zmq event.
#[derive(Clone, Copy, Debug, PartialEq, Eq, Structural)]
pub enum SocketEventKind {
    Connected,
    ConnectDelayed,
    ConnectRetried,
    Listening,
    BindFailed,
    Accepted,
    AcceptFailed,
    Closed,
    CloseFailed,
    Disconnected,
    MonitorStopped,
    HandshakeFailedNoDetail,
    HandshakeSucceeded,
    HandshakeFailedProtocol,
    HandshakeFailedAuth,
    All,
}

/// The socket event that zmq numbers `code` (one of `is_known_event`).
pub open spec fn socket_event_of(code: u16) -> SocketEventKind {
    if code == 1 {
        SocketEventKind::Connected
    } else if code == 2 {
        SocketEventKind::ConnectDelayed
    } else if code == 4 {
        SocketEventKind::ConnectRetried
    } else if code == 8 {
        SocketEventKind::Listening
    } else if code == 16 {
        SocketEventKind::BindFailed
    } else if code == 32 {
        SocketEventKind::Accepted
    } else if code == 64 {
        SocketEventKind::AcceptFailed
    } else if code == 128 {
        SocketEventKind::Closed
    } else if code == 256 {
        SocketEventKind::CloseFailed
    } else if code == 512 {
        SocketEventKind::Disconnected
    } else if code == 1024 {
        SocketEventKind::MonitorStopped
    } else if code == 2048 {
        SocketEventKind::HandshakeFailedNoDetail
    } else if code == 4096 {
        SocketEventKind::HandshakeSucceeded
    } else if code == 8192 {
        SocketEventKind::HandshakeFailedProtocol
    } else if code == 16384 {
        SocketEventKind::HandshakeFailedAuth
    } else {
        SocketEventKind::All
    }
}

/// What a socket event means to the proxy: a publisher came, one went, or
/// neither.
pub open spec fn monitor_event_of(kind: SocketEventKind) -> MonitorEvent {
    match kind {
        SocketEventKind::Accepted => MonitorEvent::Accepted,
        SocketEventKind::Disconnected => MonitorEvent::Disconnected,
        _ => MonitorEvent::Other,
    }
}

/// The meaning of the event code `code`.
pub open spec fn event_of(code: u16) -> MonitorEvent {
    monitor_event_of(socket_event_of(code))
}

/// The socket event that `code` stands for, through zmq's
/// `SocketEvent::from_raw`, which knows the codes of `is_known_event` (and
/// panics on any other) and names them as the table `socket_event_of` does.
#[verifier::external_body]
pub(crate) fn socket_event(code: u16) -> (res: SocketEventKind)
    requires
        is_known_event(code),
    ensures
        res == socket_event_of(code),
{
    match zmq::SocketEvent::from_raw(code) {
        CONNECTED => SocketEventKind::Connected, CONNECT_DELAYED => SocketEventKind::ConnectDelayed,
        CONNECT_RETRIED => SocketEventKind::ConnectRetried, LISTENING => SocketEventKind::Listening,
        BIND_FAILED => SocketEventKind::BindFailed, ACCEPTED => SocketEventKind::Accepted,
        ACCEPT_FAILED => SocketEventKind::AcceptFailed, CLOSED => SocketEventKind::Closed,
        CLOSE_FAILED => SocketEventKind::CloseFailed, DISCONNECTED => SocketEventKind::Disconnected,
        MONITOR_STOPPED => SocketEventKind::MonitorStopped, ALL => SocketEventKind::All,
        HANDSHAKE_FAILED_NO_DETAIL => SocketEventKind::HandshakeFailedNoDetail,
        HANDSHAKE_SUCCEEDED => SocketEventKind::HandshakeSucceeded,
        HANDSHAKE_FAILED_PROTOCOL => SocketEventKind::HandshakeFailedProtocol,
        HANDSHAKE_FAILED_AUTH => SocketEventKind::HandshakeFailedAuth,
    }
}

/// What a socket event means to the proxy.
pub fn event_kind_to_monitor(kind: SocketEventKind) -> (res: MonitorEvent)
    ensures
        res == monitor_event_of(kind),
{
    match kind {
        SocketEventKind::Accepted => MonitorEvent::Accepted,
        SocketEventKind::Disconnected => MonitorEvent::Disconnected,
        _ => MonitorEvent::Other,
    }
}

/// The event code at the front of a monitor frame: its first two bytes,
/// little endian.
pub open spec fn le_u16(b0: u8, b1: u8) -> u16 {
    (b0 as int + 256 * (b1 as int)) as u16
}

/// The event code of a monitor frame of at least two bytes.
pub fn event_code(frame: &[u8]) -> (res: u16)
    requires
        frame@.len() >= 2,
    ensures
        res == le_u16(frame@[0], frame@[1]),
{
    (frame[0] as u16) + (frame[1] as u16) * 256
}

/// The event code of a frame that the proxy's monitor received: frames of
/// fewer than six bytes (the code and a 32-bit value) are not events.
pub fn proxy_event_code(frame: &[u8]) -> (res: Option<u16>)
    ensures
        frame@.len() >= 6 ==> res == Some(le_u16(frame@[0], frame@[1])),
        frame@.len() < 6 ==> res is None,
{
    if frame.len() >= 6 {
        Some(event_code(frame))
    } else {
        None
    }
}

/// The event in a frame that the proxy's monitor received, where the frame
/// is long enough to be one.
pub fn proxy_monitor_event(frame: &[u8]) -> (res: Option<MonitorEvent>)
    requires
        frame@.len() >= 6 ==> is_known_event(le_u16(frame@[0], frame@[1])),
    ensures
        frame@.len() < 6 ==> res is None,
        frame@.len() >= 6 ==> res == Some(event_of(le_u16(frame@[0], frame@[1]))),
{
    match proxy_event_code(frame) {
        Some(code) => Some(event_kind_to_monitor(socket_event(code))),
        None => None,
    }
}

/// The event of a frame that a monitor received.
pub fn monitor_event(frame: &[u8]) -> (res: MonitorEvent)
    requires
        frame@.len() >= 2,
        is_known_event(le_u16(frame@[0], frame@[1])),
    ensures
        res == event_of(le_u16(frame@[0], frame@[1])),
{
    event_kind_to_monitor(socket_event(event_code(frame)))
}

/// The count of publishers after `event`: one more on a connection, one fewer
/// on a disconnection while any are counted.
pub open spec fn next_publishers(count: int, event: MonitorEvent) -> int {
    match event {
        MonitorEvent::Accepted => count + 1,
        MonitorEvent::Disconnected => if count > 0 {
            count - 1
        } else {
            count
        },
        MonitorEvent::Other => count,
    }
}

/// The number of publishers connected to the proxy.
pub struct PublisherCount {
    count: i32,
}

impl View for PublisherCount {
    type V = int;

    closed spec fn view(&self) -> int {
        self.count as int
    }
}

impl PublisherCount {
    /// The count is never negative.
    pub closed spec fn wf(&self) -> bool {
        self.count >= 0
    }

    /// No publisher yet.
    pub fn new() -> (res: Self)
        ensures
            res.wf(),
            res@ == 0,
    {
        PublisherCount { count: 0 }
    }

    /// The number of publishers counted.
    pub fn get(&self) -> (res: i32)
        ensures
            res == self@,
    {
        self.count
    }

    /// Takes a monitor event into account. Returns the new count where a
    /// publisher connected or one that was counted went away.
    pub fn on_event(&mut self, event: MonitorEvent) -> (res: Option<i32>)
        requires
            old(self).wf(),
            event == MonitorEvent::Accepted ==> old(self)@ < i32::MAX,
        ensures
            final(self).wf(),
            final(self)@ == next_publishers(old(self)@, event),
            res == (if event == MonitorEvent::Other {
                None
            } else {
                Some(final(self)@ as i32)
            }),
    {
        match event {
            MonitorEvent::Accepted => {
                self.count = self.count + 1;
                Some(self.count)
            },
            MonitorEvent::Disconnected => {
                if self.count > 0 {
                    self.count = self.count - 1;
                }
                Some(self.count)
            },
            MonitorEvent::Other => None,
        }
    }
}

/// A connection followed by a disconnection leaves the count as it was.
pub proof fn lemma_accept_then_disconnect(count: int)
    requires
        count >= 0,
    ensures
        next_publishers(next_publishers(count, MonitorEvent::Accepted), MonitorEvent::Disconnected)
            == count,
{
}

/// The count never goes below zero.
pub proof fn lemma_count_stays_non_negative(count: int, event: MonitorEvent)
    requires
        count >= 0,
    ensures
        next_publishers(count, event) >= 0,
{
}

/// A connection adds one publisher; a disconnection takes one away while any
/// are counted and leaves zero at zero; every other event leaves the count
/// as it is.
pub proof fn lemma_publisher_events(count: int)
    requires
        count >= 0,
    ensures
        next_publishers(count, MonitorEvent::Accepted) == count + 1,
        count > 0 ==> next_publishers(count, MonitorEvent::Disconnected) == count - 1,
        count == 0 ==> next_publishers(count, MonitorEvent::Disconnected) == 0,
        next_publishers(count, MonitorEvent::Other) == count,
{
}

/// Only the codes of an accepted and of a lost connection move the count:
/// 32 connects a publisher, 512 disconnects one, every other known code is
/// neither.
pub proof fn lemma_event_codes(code: u16)
    requires
        is_known_event(code),
    ensures
        (event_of(code) == MonitorEvent::Accepted) <==> code == 32,
        (event_of(code) == MonitorEvent::Disconnected) <==> code == 512,
{
}

} // verus!
