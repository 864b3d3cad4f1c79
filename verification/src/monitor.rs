//! Monitoring: the events a server reports, the masks that select them, and the
//! configuration that decides which events reach a subscriber.

use vstd::prelude::*;

use crate::http::date::{is_date_time_of, DateTime};
use crate::http::status::StatusCode;
use crate::text::{decimal, decimal2, owned_string, push_decimal, push_decimal2, string_push, string_push_str};

verus! {

/// The type of an event.
#[derive(Clone, Copy, Debug, PartialEq, Eq, Structural)]
pub enum EventType {
    /// A successful connection.
    ConnectionSuccess,
    /// The connection was denied.
    ConnectionDenied,
    /// An error occurred while connecting.
    ConnectionError,
    /// The connection was closed.
    ConnectionClosed,
    /// The process started running in the thread pool.
    ThreadPoolProcessStarted,
    /// The stream disconnected while waiting to be processed.
    StreamDisconnectedWhileWaiting,
    /// A request was served successfully.
    RequestServedSuccess,
    /// A request was served, but an error was encountered.
    RequestServedError,
    /// A request timed out.
    RequestTimeout,
    /// A connection was held open due to the `Keep-Alive` header.
    KeepAliveRespected,
    /// A WebSocket connection was requested.
    WebsocketConnectionRequested,
    /// A WebSocket connection was closed.
    WebsocketConnectionClosed,
    /// A client was redirected to use HTTPS.
    HTTPSRedirect,
    /// The thread pool is overloaded.
    ThreadPoolOverload,
    /// The thread pool recovered from a thread error.
    ThreadPoolPanic,
}

/// A category of events.
#[derive(Clone, Copy, Debug, PartialEq, Eq, Structural)]
pub enum EventLevel {
    /// Only critical errors are logged.
    Error,
    /// Only errors and warnings are logged.
    Warning,
    /// Informative messages are logged.
    Info,
    /// Everything is logged.
    Debug,
}

impl EventType {
    /// The bit of this event type in an event mask.
    pub open spec fn spec_mask(self) -> u32 {
        match self {
            EventType::ConnectionSuccess => 0x01,
            EventType::ConnectionDenied => 0x02,
            EventType::ConnectionError => 0x04,
            EventType::ConnectionClosed => 0x08,
            EventType::ThreadPoolProcessStarted => 0x10,
            EventType::StreamDisconnectedWhileWaiting => 0x20,
            EventType::RequestServedSuccess => 0x40,
            EventType::RequestServedError => 0x80,
            EventType::RequestTimeout => 0x0100,
            EventType::KeepAliveRespected => 0x0200,
            EventType::WebsocketConnectionRequested => 0x0400,
            EventType::WebsocketConnectionClosed => 0x0800,
            EventType::HTTPSRedirect => 0x1000,
            EventType::ThreadPoolOverload => 0x2000,
            EventType::ThreadPoolPanic => 0x4000,
        }
    }

    /// The description of this event type.
    pub open spec fn spec_description(self) -> Seq<char> {
        match self {
            EventType::ConnectionSuccess => "Connection successful"@,
            EventType::ConnectionDenied => "Connection denied"@,
            EventType::ConnectionError => "Connection error"@,
            EventType::ConnectionClosed => "Connection closed"@,
            EventType::ThreadPoolProcessStarted => "Handler sent in thread pool"@,
            EventType::StreamDisconnectedWhileWaiting => "Stream disconnected while waiting to be processed"@,
            EventType::RequestServedSuccess => "Request served"@,
            EventType::RequestServedError => "Request error"@,
            EventType::RequestTimeout => "Request timeout"@,
            EventType::KeepAliveRespected => "Connection kept alive after response"@,
            EventType::WebsocketConnectionRequested => "WebSocket connection requested"@,
            EventType::WebsocketConnectionClosed => "WebSocket connection closed"@,
            EventType::HTTPSRedirect => "Redirected to HTTPS"@,
            EventType::ThreadPoolOverload => "Thread pool overloaded"@,
            EventType::ThreadPoolPanic => "Thread pool panic"@,
        }
    }

    /// The description of this event type.
    pub fn description(self) -> (r: &'static str)
        ensures
            r@ == self.spec_description(),
    {
        match self {
            EventType::ConnectionSuccess => "Connection successful",
            EventType::ConnectionDenied => "Connection denied",
            EventType::ConnectionError => "Connection error",
            EventType::ConnectionClosed => "Connection closed",
            EventType::ThreadPoolProcessStarted => "Handler sent in thread pool",
            EventType::StreamDisconnectedWhileWaiting => "Stream disconnected while waiting to be processed",
            EventType::RequestServedSuccess => "Request served",
            EventType::RequestServedError => "Request error",
            EventType::RequestTimeout => "Request timeout",
            EventType::KeepAliveRespected => "Connection kept alive after response",
            EventType::WebsocketConnectionRequested => "WebSocket connection requested",
            EventType::WebsocketConnectionClosed => "WebSocket connection closed",
            EventType::HTTPSRedirect => "Redirected to HTTPS",
            EventType::ThreadPoolOverload => "Thread pool overloaded",
            EventType::ThreadPoolPanic => "Thread pool panic",
        }
    }

    /// The description of this event type, as an owned string.
    pub fn to_string(&self) -> (r: String)
        ensures
            r@ == self.spec_description(),
    {
        owned_string(self.description())
    }
}

impl EventLevel {
    /// The event types that this level selects, as a mask.
    pub open spec fn spec_mask(self) -> u32 {
        match self {
            EventLevel::Error => 0b100_0000_1000_0100,
            EventLevel::Warning => 0b110_0001_1010_0110,
            EventLevel::Info => 0b111_1101_1110_1110,
            EventLevel::Debug => u32::MAX,
        }
    }
}

/// A value that selects events by a mask.
pub trait ToEventMask {
    /// The mask of this value.
    spec fn event_mask(&self) -> u32;

    /// Converts to an event mask.
    fn to_event_mask(&self) -> (r: u32)
        ensures
            r == self.event_mask(),
    ;
}

impl ToEventMask for EventType {
    /// The single bit of the event type.
    open spec fn event_mask(&self) -> u32 {
        self.spec_mask()
    }

    fn to_event_mask(&self) -> (r: u32) {
        match self {
            EventType::ConnectionSuccess => 0x01,
            EventType::ConnectionDenied => 0x02,
            EventType::ConnectionError => 0x04,
            EventType::ConnectionClosed => 0x08,
            EventType::ThreadPoolProcessStarted => 0x10,
            EventType::StreamDisconnectedWhileWaiting => 0x20,
            EventType::RequestServedSuccess => 0x40,
            EventType::RequestServedError => 0x80,
            EventType::RequestTimeout => 0x0100,
            EventType::KeepAliveRespected => 0x0200,
            EventType::WebsocketConnectionRequested => 0x0400,
            EventType::WebsocketConnectionClosed => 0x0800,
            EventType::HTTPSRedirect => 0x1000,
            EventType::ThreadPoolOverload => 0x2000,
            EventType::ThreadPoolPanic => 0x4000,
        }
    }
}

impl ToEventMask for EventLevel {
    /// The mask of the level.
    open spec fn event_mask(&self) -> u32 {
        self.spec_mask()
    }

    fn to_event_mask(&self) -> (r: u32) {
        match self {
            EventLevel::Error => 0b100_0000_1000_0100,
            EventLevel::Warning => 0b110_0001_1010_0110,
            EventLevel::Info => 0b111_1101_1110_1110,
            EventLevel::Debug => u32::MAX,
        }
    }
}

impl ToEventMask for u32 {
    /// A number is its own mask.
    open spec fn event_mask(&self) -> u32 {
        *self
    }

    fn to_event_mask(&self) -> (r: u32) {
        *self
    }
}

/// Each level selects every event type that the level below it selects: `Error` within
/// `Warning`, `Warning` within `Info`, `Info` within `Debug`.
pub proof fn lemma_levels_nest()
    ensures
        EventLevel::Error.spec_mask() & EventLevel::Warning.spec_mask() == EventLevel::Error.spec_mask(),
        EventLevel::Warning.spec_mask() & EventLevel::Info.spec_mask() == EventLevel::Warning.spec_mask(),
        EventLevel::Info.spec_mask() & EventLevel::Debug.spec_mask() == EventLevel::Info.spec_mask(),
{
    assert(0b100_0000_1000_0100u32 & 0b110_0001_1010_0110u32 == 0b100_0000_1000_0100u32) by (bit_vector);
    assert(0b110_0001_1010_0110u32 & 0b111_1101_1110_1110u32 == 0b110_0001_1010_0110u32) by (bit_vector);
    assert(0b111_1101_1110_1110u32 & 0xffff_ffffu32 == 0b111_1101_1110_1110u32) by (bit_vector);
}

/// Distinct event types have distinct bits, so a mask made of some types' bits selects
/// exactly those types.
pub proof fn lemma_event_bits_distinct(a: EventType, b: EventType)
    requires
        a != b,
    ensures
        a.spec_mask() & b.spec_mask() == 0,
        a.spec_mask() != 0,
{
    let x = a.spec_mask();
    let y = b.spec_mask();
    assert(x == 0x01 || x == 0x02 || x == 0x04 || x == 0x08 || x == 0x10 || x == 0x20 || x == 0x40
        || x == 0x80 || x == 0x100 || x == 0x200 || x == 0x400 || x == 0x800 || x == 0x1000
        || x == 0x2000 || x == 0x4000);
    assert(x != y);
    assert((x == 0x01 || x == 0x02 || x == 0x04 || x == 0x08 || x == 0x10 || x == 0x20 || x == 0x40
        || x == 0x80 || x == 0x100 || x == 0x200 || x == 0x400 || x == 0x800 || x == 0x1000
        || x == 0x2000 || x == 0x4000) && (y == 0x01 || y == 0x02 || y == 0x04 || y == 0x08 || y
        == 0x10 || y == 0x20 || y == 0x40 || y == 0x80 || y == 0x100 || y == 0x200 || y == 0x400 || y
        == 0x800 || y == 0x1000 || y == 0x2000 || y == 0x4000) && x != y ==> x & y == 0 && x != 0)
        by (bit_vector);
}

/// How long, in milliseconds, a task may wait in the thread pool before the pool counts as
/// overloaded.
pub const OVERLOAD_THRESHOLD: u128 = 100;

/// Whether a task that waited this many milliseconds in the thread pool shows that the
/// pool is overloaded.
pub fn is_overloaded(time_in_pool_ms: u128) -> (r: bool)
    ensures
        r == (time_in_pool_ms > OVERLOAD_THRESHOLD),
{
    time_in_pool_ms > OVERLOAD_THRESHOLD
}

/// A monitoring event.
#[derive(Clone, Debug)]
pub struct Event {
    /// The type of the event.
    pub kind: EventType,
    /// The address of the peer that triggered the event, if applicable.
    pub peer: Option<String>,
    /// Additional information about the event, if applicable.
    pub info: Option<String>,
}

/// The text of an optional part of an event: the peer followed by a space, or nothing.
pub open spec fn peer_prefix(peer: Option<Seq<char>>) -> Seq<char> {
    match peer {
        Some(p) => p + seq![' '],
        None => Seq::empty(),
    }
}

/// The log line of an event at a time: `year-MM-DD hh:mm:ss `, the peer and a space when
/// there is one, the event type's description, then `: ` and the information when there
/// is some.
pub open spec fn event_text(
    kind: EventType,
    peer: Option<Seq<char>>,
    info: Option<Seq<char>>,
    time: DateTime,
) -> Seq<char> {
    decimal(time.year as nat) + seq!['-'] + decimal2(time.month as nat + 1) + seq!['-'] + decimal2(
        time.day as nat,
    ) + seq![' '] + decimal2(time.hour as nat) + seq![':'] + decimal2(time.minute as nat) + seq![':']
        + decimal2(time.second as nat) + seq![' '] + peer_prefix(peer) + kind.spec_description()
        + match info {
        Some(i) => ": "@ + i,
        None => Seq::empty(),
    }
}

/// The view of an optional string.
pub open spec fn opt_view(s: Option<String>) -> Option<Seq<char>> {
    match s {
        Some(v) => Some(v@),
        None => None,
    }
}

impl Event {
    /// Creates an event of the given type with no peer and no information.
    pub fn new(kind: EventType) -> (r: Event)
        ensures
            r.kind == kind,
            r.peer is None,
            r.info is None,
    {
        Event { kind, peer: None, info: None }
    }

    /// Sets the address of the peer that triggered the event.
    pub fn with_peer(self, peer: &str) -> (r: Event)
        ensures
            r.kind == self.kind,
            opt_view(r.peer) == Some(peer@),
            r.info == self.info,
    {
        Event { peer: Some(owned_string(peer)), ..self }
    }

    /// Sets the address of the peer when one was found.
    pub fn with_peer_result<E>(self, peer_result: Result<String, E>) -> (r: Event)
        ensures
            r.kind == self.kind,
            r.info == self.info,
            match peer_result {
                Ok(p) => r.peer == Some(p),
                Err(_) => r.peer == self.peer,
            },
    {
        match peer_result {
            Ok(p) => Event { peer: Some(p), ..self },
            Err(_) => self,
        }
    }

    /// Adds information to the event.
    pub fn with_info(self, info: &str) -> (r: Event)
        ensures
            r.kind == self.kind,
            r.peer == self.peer,
            opt_view(r.info) == Some(info@),
    {
        Event { info: Some(owned_string(info)), ..self }
    }

    /// The log line of the event at the given time (see `event_text`).
    pub fn text_at(&self, time: &DateTime) -> (r: String)
        ensures
            r@ == event_text(self.kind, opt_view(self.peer), opt_view(self.info), *time),
    {
        let mut s = String::new();
        push_decimal(&mut s, time.year as u64);
        string_push(&mut s, '-');
        push_decimal2(&mut s, time.month as u64 + 1);
        string_push(&mut s, '-');
        push_decimal2(&mut s, time.day as u64);
        string_push(&mut s, ' ');
        push_decimal2(&mut s, time.hour as u64);
        string_push(&mut s, ':');
        push_decimal2(&mut s, time.minute as u64);
        string_push(&mut s, ':');
        push_decimal2(&mut s, time.second as u64);
        string_push(&mut s, ' ');
        match &self.peer {
            Some(p) => {
                string_push_str(&mut s, p.as_str());
                string_push(&mut s, ' ');
            },
            None => {},
        }
        string_push_str(&mut s, self.kind.description());
        match &self.info {
            Some(i) => {
                string_push_str(&mut s, ": ");
                string_push_str(&mut s, i.as_str());
            },
            None => {},
        }
        proof {
            reveal_strlit(": ");
        }
        assert(s@ =~= event_text(self.kind, opt_view(self.peer), opt_view(self.info), *time));
        s
    }

    /// The log line of the event now, by the system clock.
    pub fn to_string(&self) -> (r: String)
        ensures
            exists|time: DateTime, y: int|
                #[trigger] is_date_time_of(time, time.timestamp as int, y) && r@ == event_text(
                    self.kind,
                    opt_view(self.peer),
                    opt_view(self.info),
                    time,
                ),
    {
        let time = DateTime::now();
        self.text_at(&time)
    }
}

impl From<EventType> for Event {
    fn from(kind: EventType) -> (r: Event) {
        Event::new(kind)
    }
}

impl vstd::std_specs::convert::FromSpecImpl<EventType> for Event {
    open spec fn obeys_from_spec() -> bool {
        true
    }

    open spec fn from_spec(kind: EventType) -> Event {
        Event { kind, peer: None, info: None }
    }
}

/// The event reported after a response was sent: `Request served` with `200 OK` and the
/// URI for a `200 OK` response, `Request timeout` for `408 Request Timeout`, otherwise
/// `Request error` with the code, the reason phrase and, when the request was read, its
/// URI.
pub open spec fn served_event_spec(
    status: StatusCode,
    uri: Option<Seq<char>>,
    peer: Seq<char>,
) -> (EventType, Option<Seq<char>>, Option<Seq<char>>) {
    if status == StatusCode::OK {
        (EventType::RequestServedSuccess, Some(peer), Some("200 OK "@ + uri.unwrap()))
    } else if status == StatusCode::RequestTimeout {
        (EventType::RequestTimeout, Some(peer), Some("408 Request Timeout"@))
    } else {
        let head = decimal(status.spec_code() as nat) + seq![' '] + status.spec_reason();
        (
            EventType::RequestServedError,
            Some(peer),
            Some(
                match uri {
                    Some(u) => head + seq![' '] + u,
                    None => head,
                },
            ),
        )
    }
}

/// The event reported after a response with the given status was sent to a peer; `uri`
/// is the request's URI when the request could be read. A `200 OK` answer is only sent
/// to a request that was read.
pub fn served_event(status: StatusCode, uri: Option<&str>, peer: &str) -> (r: Event)
    requires
        status == StatusCode::OK ==> uri is Some,
    ensures
        (r.kind, opt_view(r.peer), opt_view(r.info)) == served_event_spec(
            status,
            match uri {
                Some(u) => Some(u@),
                None => None,
            },
            peer@,
        ),
{
    proof {
        reveal_strlit("200 OK ");
        reveal_strlit("408 Request Timeout");
    }
    if status == StatusCode::OK {
        let mut info = String::new();
        string_push_str(&mut info, "200 OK ");
        match uri {
            Some(u) => string_push_str(&mut info, u),
            None => {},
        }
        Event::new(EventType::RequestServedSuccess).with_peer(peer).with_info(info.as_str())
    } else if status == StatusCode::RequestTimeout {
        Event::new(EventType::RequestTimeout).with_peer(peer).with_info("408 Request Timeout")
    } else {
        let mut info = String::new();
        push_decimal(&mut info, status.code() as u64);
        string_push(&mut info, ' ');
        string_push_str(&mut info, status.reason_phrase());
        match uri {
            Some(u) => {
                string_push(&mut info, ' ');
                string_push_str(&mut info, u);
            },
            None => {},
        }
        Event::new(EventType::RequestServedError).with_peer(peer).with_info(info.as_str())
    }
}

} // verus!
verus! {

/// The sending half of a channel of events.
#[verifier::external_type_specification]
#[verifier::external_body]
#[verifier::reject_recursive_types(T)]
pub struct ExSender<T>(std::sync::mpsc::Sender<T>);

/// Hands an event to a channel, ignoring a receiver that has hung up.
///
/// Wraps `Sender::send`; nothing is stated, since what happens to the event is up to the
/// receiving side.
#[verifier::external_body]
fn channel_send(sender: &std::sync::mpsc::Sender<Event>, event: Event) {
    sender.send(event).ok();
}

/// The configuration of monitoring: the mask of the events subscribed to and the channel
/// that receives them.
///
/// Cloning this type creates another configuration that sends events to the same
/// receiver, like cloning a channel.
#[derive(Clone)]
pub struct MonitorConfig {
    mask: u32,
    sender: Option<std::sync::mpsc::Sender<Event>>,
}

impl MonitorConfig {
    /// Creates a configuration that sends to the given channel and is subscribed to no
    /// event.
    pub fn new(sender: std::sync::mpsc::Sender<Event>) -> (r: MonitorConfig)
        ensures
            r.spec_mask() == 0,
            r.has_receiver(),
    {
        MonitorConfig { mask: 0, sender: Some(sender) }
    }

    /// The mask of the events subscribed to.
    pub closed spec fn spec_mask(&self) -> u32 {
        self.mask
    }

    /// Whether the configuration has a channel to send to.
    pub closed spec fn has_receiver(&self) -> bool {
        self.sender is Some
    }

    /// Subscribes to the events of the given mask, an event type or an event level.
    pub fn with_subscription_to<T: ToEventMask>(self, event: T) -> (r: MonitorConfig)
        ensures
            r.spec_mask() == self.spec_mask() | event.event_mask(),
            r.has_receiver() == self.has_receiver(),
    {
        let m = event.to_event_mask();
        MonitorConfig { mask: self.mask | m, ..self }
    }

    /// Whether an event of this type is sent on: the configuration has a channel and its
    /// mask shares a bit with the type's.
    pub fn wants(&self, kind: EventType) -> (r: bool)
        ensures
            r == (self.has_receiver() && self.spec_mask() & kind.spec_mask() != 0),
    {
        self.sender.is_some() && self.mask & kind.to_event_mask() != 0
    }

    /// Sends a monitoring event, when it is subscribed to.
    pub fn send(&self, event: Event) {
        if self.wants(event.kind) {
            match &self.sender {
                Some(sender) => channel_send(sender, event),
                None => {},
            }
        }
    }

    /// The mask of the events subscribed to.
    pub fn mask(&self) -> (r: u32)
        ensures
            r == self.spec_mask(),
    {
        self.mask
    }
}

impl Default for MonitorConfig {
    /// A configuration with no channel and no subscription.
    fn default() -> (r: MonitorConfig)
        ensures
            r.spec_mask() == 0,
            !r.has_receiver(),
    {
        MonitorConfig { mask: 0, sender: None }
    }
}

} // verus!
