//! The serial-network bridge: one serial line, any number of network clients.
//!
//! What is read from the serial line is published to every client through the
//! broadcast channel; what the clients send is, if the configuration allows
//! it, funnelled to the serial line through one bounded queue. The bridge
//! itself performs no I/O: whoever drives it reports what happened on the
//! serial line, on the listening socket and on each client's socket, and is
//! told what to do next.

use crate::broadcast::{copy_bytes, Broadcast, BusView, Delivery, DeliveryView};
use crate::config::MyConfig;
use crate::funnel::{opt_bytes, Funnel, FunnelView};
use crate::state::MyState;
use vstd::prelude::*;

verus! {

/// Size of the buffers into which the serial line and the sockets are read.
pub const BUFSZ: usize = 64;

/// Capacity of the broadcast channel and of the funnel queue, in chunks.
pub const CHANSZ: usize = 8;

/// Seconds between two looks at the connectivity flag before start-up.
pub const NETWORK_POLL_SECS: u64 = 1;

/// What an activity that serves the network does before it serves.
#[derive(Clone, Copy, Debug, PartialEq, Eq, Structural)]
pub enum Startup {
    /// No connectivity yet: sleep for this many seconds and look again.
    Wait(u64),
    /// The network is usable: bind the listening socket to this port.
    Bind(u16),
}

/// What an activity does that is to listen on `port`, given whether the
/// uplink is up: no socket is bound before connectivity is observed.
pub open spec fn startup(wifi_up: bool, port: u16) -> Startup {
    if wifi_up {
        Startup::Bind(port)
    } else {
        Startup::Wait(NETWORK_POLL_SECS)
    }
}

/// The start of the bridge: it waits for connectivity and then listens on
/// the configured port of the serial bridge.
pub fn run_serial(wifi_up: bool, config: &MyConfig) -> (next: Startup)
    ensures
        next == startup(wifi_up, config.serial_tcp_port),
{
    if wifi_up {
        Startup::Bind(config.serial_tcp_port)
    } else {
        Startup::Wait(NETWORK_POLL_SECS)
    }
}

/// Why the bridge has ended.
#[derive(Clone, Copy, Debug, PartialEq, Eq, Structural)]
pub enum BridgeEnd {
    /// A read of the serial line returned no bytes.
    EndOfStream,
    /// The serial peripheral could not be opened, read or written.
    SerialFault,
    /// A chunk from the serial line could not be published.
    PublishFailed,
    /// The listening socket could not be bound.
    BindFailed,
}

/// What the serial task does after it has reported something.
#[derive(Clone, Copy, Debug, PartialEq, Eq, Structural)]
pub enum SerialAction {
    /// The chunk is on its way: toggle the status LED and go on.
    Blink,
    /// The bridge has ended for this reason: leave the loop.
    Stop(BridgeEnd),
}

/// What the accept loop does after it has reported something.
#[derive(Debug, PartialEq, Eq)]
pub enum ListenerAction {
    /// Start a client task with this session and go on accepting.
    Spawn(ClientSession),
    /// Nothing to do but to accept again.
    Continue,
    /// The bridge has ended for this reason: leave the loop.
    Stop(BridgeEnd),
}

/// What a client task does with what it has read from its socket.
#[derive(Clone, Copy, Debug, PartialEq, Eq, Structural)]
pub enum ClientAction {
    /// The peer has closed, or the bridge has ended: end this client.
    Close,
    /// Write-back is disabled: the bytes are dropped.
    Discard,
    /// The bytes wait in the funnel queue for the serial line.
    Queued,
    /// The funnel queue is full: keep the bytes, read no more from the
    /// socket, and offer them again once the serial task has taken a chunk.
    Retry,
}

/// One accepted connection: its number and its subscription to the broadcast
/// channel. There is one session per connection and it cannot be copied.
#[derive(Debug, PartialEq, Eq)]
pub struct ClientSession {
    number: u32,
    slot: usize,
}

impl ClientSession {
    /// The number under which the connection was accepted.
    pub closed spec fn spec_number(&self) -> u32 {
        self.number
    }

    /// The subscription slot of this session in the broadcast channel.
    pub closed spec fn spec_slot(&self) -> nat {
        self.slot as nat
    }

    /// The number under which the connection was accepted.
    #[verifier::when_used_as_spec(spec_number)]
    pub fn number(&self) -> (n: u32)
        ensures
            n == self.spec_number(),
    {
        self.number
    }

    /// The subscription slot of this session in the broadcast channel.
    pub fn slot(&self) -> (s: usize)
        ensures
            s == self.spec_slot(),
    {
        self.slot
    }
}

/// Mathematical model of the bridge.
pub struct BridgeView {
    /// Whether client input is written back to the serial line.
    pub write_enabled: bool,
    /// The broadcast channel from the serial line to the clients.
    pub bus: BusView,
    /// The funnel queue from the clients to the serial line; there is one
    /// exactly if write-back is enabled.
    pub funnel: Option<FunnelView>,
    /// Why the bridge has ended, once it has.
    pub ended: Option<BridgeEnd>,
}

impl BridgeView {
    /// A bridge that has just been set up.
    pub open spec fn fresh(write_enabled: bool) -> BridgeView {
        BridgeView {
            write_enabled,
            bus: BusView::fresh(CHANSZ as nat),
            funnel: if write_enabled {
                Some(FunnelView::fresh(CHANSZ as nat))
            } else {
                None
            },
            ended: None,
        }
    }

    /// Both channels are consistent, and there is a funnel queue exactly if
    /// write-back is enabled.
    pub open spec fn wf(self) -> bool {
        &&& self.bus.wf()
        &&& self.funnel is Some <==> self.write_enabled
        &&& match self.funnel {
            Some(f) => f.wf(),
            None => true,
        }
    }

    /// The bridge has not ended.
    pub open spec fn running(self) -> bool {
        self.ended is None
    }

    /// The bridge with its end recorded. The first reason stays.
    pub open spec fn end(self, reason: BridgeEnd) -> BridgeView {
        if self.running() {
            BridgeView { ended: Some(reason), ..self }
        } else {
            self
        }
    }

    /// The reason for which the bridge stops when `reason` is reported.
    pub open spec fn end_reason(self, reason: BridgeEnd) -> BridgeEnd {
        match self.ended {
            Some(first) => first,
            None => reason,
        }
    }

    /// What the serial task is told when a read returned `data`.
    pub open spec fn serial_read_action(self, data: Seq<u8>) -> SerialAction {
        if let Some(first) = self.ended {
            SerialAction::Stop(first)
        } else if data.len() == 0 {
            SerialAction::Stop(BridgeEnd::EndOfStream)
        } else if !self.bus.has_subscriber() {
            SerialAction::Stop(BridgeEnd::PublishFailed)
        } else {
            SerialAction::Blink
        }
    }

    /// The bridge after a read of the serial line returned `data`.
    pub open spec fn after_serial_read(self, data: Seq<u8>) -> BridgeView {
        if !self.running() {
            self
        } else if data.len() == 0 {
            self.end(BridgeEnd::EndOfStream)
        } else if !self.bus.has_subscriber() {
            self.end(BridgeEnd::PublishFailed)
        } else {
            BridgeView { bus: self.bus.publish(data), ..self }
        }
    }

    /// The chunk that the serial task writes next, if any.
    pub open spec fn next_write(self) -> Option<Seq<u8>> {
        match self.funnel {
            Some(f) if self.running() => f.next(),
            _ => None,
        }
    }

    /// The bridge after the serial task has asked for its next chunk.
    pub open spec fn after_next_write(self) -> BridgeView {
        match self.funnel {
            Some(f) if self.running() => BridgeView { funnel: Some(f.take()), ..self },
            _ => self,
        }
    }

    /// What the client in `slot` is handed when it asks for its next chunk.
    pub open spec fn client_delivery(self, slot: nat) -> DeliveryView {
        if self.running() {
            self.bus.delivery(slot)
        } else {
            DeliveryView::Closed
        }
    }

    /// The bridge after the client in `slot` has asked for its next chunk.
    pub open spec fn after_client_poll(self, slot: nat) -> BridgeView {
        if self.running() {
            BridgeView { bus: self.bus.after_recv(slot), ..self }
        } else {
            self
        }
    }

    /// What a client is told when a read of its socket returned `data`.
    pub open spec fn client_read_action(self, data: Seq<u8>) -> ClientAction {
        if !self.running() || data.len() == 0 {
            ClientAction::Close
        } else {
            match self.funnel {
                None => ClientAction::Discard,
                Some(f) => if f.full() {
                    ClientAction::Retry
                } else {
                    ClientAction::Queued
                },
            }
        }
    }

    /// The bridge after a read of a client's socket returned `data`.
    pub open spec fn after_client_read(self, data: Seq<u8>) -> BridgeView {
        if !self.running() || data.len() == 0 {
            self
        } else {
            match self.funnel {
                None => self,
                Some(f) => BridgeView { funnel: Some(f.offer(data)), ..self },
            }
        }
    }

    /// The bridge after a connection was accepted and given `slot`.
    pub open spec fn after_accept(self, slot: nat) -> BridgeView {
        if self.running() {
            BridgeView { bus: self.bus.subscribe(slot), ..self }
        } else {
            self
        }
    }

    /// The bridge after the client in `slot` has ended.
    pub open spec fn after_client_gone(self, slot: nat) -> BridgeView {
        BridgeView { bus: self.bus.unsubscribe(slot), ..self }
    }
}

/// The serial-network bridge.
pub struct Bridge {
    bus: Broadcast,
    funnel: Option<Funnel>,
    ended: Option<BridgeEnd>,
}

impl View for Bridge {
    type V = BridgeView;

    closed spec fn view(&self) -> BridgeView {
        BridgeView {
            write_enabled: self.funnel is Some,
            bus: self.bus@,
            funnel: match self.funnel {
                Some(f) => Some(f@),
                None => None,
            },
            ended: self.ended,
        }
    }
}

impl Bridge {
    /// The bridge and both of its channels are consistent.
    pub closed spec fn wf(&self) -> bool {
        &&& self.bus.wf()
        &&& match self.funnel {
            Some(f) => f.wf(),
            None => true,
        }
    }

    /// A consistent bridge has a consistent model.
    pub proof fn lemma_wf_view(&self)
        requires
            self.wf(),
        ensures
            self@.wf(),
    {
        self.bus.lemma_wf_view();
        if let Some(f) = self.funnel {
            f.lemma_wf_view();
        }
    }

    /// Sets the bridge up for a session under `config`: an empty broadcast
    /// channel, and a funnel queue if the configuration enables write-back.
    pub fn new(config: &MyConfig) -> (bridge: Bridge)
        ensures
            bridge.wf(),
            bridge@ == BridgeView::fresh(config.serial_write_enabled),
    {
        let funnel = if config.serial_write_enabled {
            Some(Funnel::new(CHANSZ))
        } else {
            None
        };
        Bridge { bus: Broadcast::new(CHANSZ), funnel, ended: None }
    }

    /// Why the bridge has ended, if it has.
    pub fn ended(&self) -> (e: Option<BridgeEnd>)
        ensures
            e == self@.ended,
    {
        self.ended
    }

    /// Whether client input is written back to the serial line.
    pub fn write_enabled(&self) -> (w: bool)
        ensures
            w == self@.write_enabled,
    {
        self.funnel.is_some()
    }

    /// Records that the bridge ends for `reason`, unless it has ended before,
    /// and returns the reason that stands.
    fn stop(&mut self, reason: BridgeEnd) -> (stands: BridgeEnd)
        requires
            old(self).wf(),
        ensures
            final(self).wf(),
            final(self)@ == old(self)@.end(reason),
            stands == old(self)@.end_reason(reason),
            final(self)@.ended == Some(stands),
    {
        match self.ended {
            Some(first) => first,
            None => {
                self.ended = Some(reason);
                reason
            },
        }
    }

    /// Reports that the serial peripheral could not be opened, read or
    /// written. The bridge ends: both directions share the one peripheral.
    pub fn serial_fault(&mut self) -> (action: SerialAction)
        requires
            old(self).wf(),
        ensures
            final(self).wf(),
            final(self)@ == old(self)@.end(BridgeEnd::SerialFault),
            action == SerialAction::Stop(old(self)@.end_reason(BridgeEnd::SerialFault)),
    {
        SerialAction::Stop(self.stop(BridgeEnd::SerialFault))
    }

    /// Reports that a read of the serial line returned `data`. No bytes mean
    /// the end of the stream, which ends the bridge. Any other chunk is
    /// published once to every client; if that fails, the bridge ends.
    pub fn serial_read(&mut self, data: &[u8]) -> (action: SerialAction)
        requires
            old(self).wf(),
        ensures
            final(self).wf(),
            final(self)@ == old(self)@.after_serial_read(data@),
            action == old(self)@.serial_read_action(data@),
    {
        if let Some(first) = self.ended {
            return SerialAction::Stop(first);
        }
        if data.len() == 0 {
            return SerialAction::Stop(self.stop(BridgeEnd::EndOfStream));
        }
        match self.bus.publish(copy_bytes(data)) {
            Ok(()) => SerialAction::Blink,
            Err(_) => SerialAction::Stop(self.stop(BridgeEnd::PublishFailed)),
        }
    }

    /// Hands the serial task the chunk that it writes next: the one that has
    /// waited longest in the funnel queue. There is none while the queue is
    /// empty, without write-back, and once the bridge has ended.
    pub fn next_write(&mut self) -> (chunk: Option<Vec<u8>>)
        requires
            old(self).wf(),
        ensures
            final(self).wf(),
            final(self)@ == old(self)@.after_next_write(),
            opt_bytes(chunk) == old(self)@.next_write(),
    {
        if self.ended.is_some() {
            return None;
        }
        match &mut self.funnel {
            Some(f) => f.recv(),
            None => None,
        }
    }
}

impl Bridge {
    /// Reports that the listening socket could not be bound, which ends the
    /// bridge.
    pub fn bind_failed(&mut self) -> (action: ListenerAction)
        requires
            old(self).wf(),
        ensures
            final(self).wf(),
            final(self)@ == old(self)@.end(BridgeEnd::BindFailed),
            action == ListenerAction::Stop(old(self)@.end_reason(BridgeEnd::BindFailed)),
    {
        ListenerAction::Stop(self.stop(BridgeEnd::BindFailed))
    }

    /// Reports that an attempt to accept a connection failed. That is
    /// transient: the bridge stays as it is and the loop accepts again, unless
    /// the bridge has ended for another reason.
    pub fn accept_failed(&self) -> (action: ListenerAction)
        ensures
            action == (match self@.ended {
                Some(first) => ListenerAction::Stop(first),
                None => ListenerAction::Continue,
            }),
    {
        match self.ended {
            Some(first) => ListenerAction::Stop(first),
            None => ListenerAction::Continue,
        }
    }

    /// Reports that a connection was accepted and counted as `number`. The
    /// connection gets a session of its own, subscribed to the broadcast
    /// channel from this moment on, in the lowest free slot.
    pub fn accept(&mut self, number: u32) -> (action: ListenerAction)
        requires
            old(self).wf(),
        ensures
            final(self).wf(),
            match action {
                ListenerAction::Spawn(session) => {
                    &&& old(self)@.running()
                    &&& session.spec_number() == number
                    &&& old(self)@.bus.free_slot(session.spec_slot())
                    &&& forall|j: nat| j < session.spec_slot() ==> old(self)@.bus.subscribed(j)
                    &&& final(self)@ == old(self)@.after_accept(session.spec_slot())
                    &&& final(self)@.bus.subscribed(session.spec_slot())
                    &&& final(self)@.bus.cursor(session.spec_slot()) == old(
                        self,
                    )@.bus.history.len()
                },
                ListenerAction::Stop(reason) => old(self)@.ended == Some(reason) && final(self)@
                    == old(self)@,
                ListenerAction::Continue => false,
            },
    {
        match self.ended {
            Some(first) => ListenerAction::Stop(first),
            None => {
                let slot = self.bus.subscribe();
                ListenerAction::Spawn(ClientSession { number, slot })
            },
        }
    }

    /// Hands the client of `session` the next chunk from the serial line, or
    /// says why there is none. Once the bridge has ended there is nothing more
    /// to receive.
    pub fn client_poll(&mut self, session: &ClientSession) -> (out: Delivery)
        requires
            old(self).wf(),
        ensures
            final(self).wf(),
            final(self)@ == old(self)@.after_client_poll(session.spec_slot()),
            out@ == old(self)@.client_delivery(session.spec_slot()),
    {
        if self.ended.is_some() {
            return Delivery::Closed;
        }
        self.bus.recv(session.slot)
    }

    /// Reports that a read of a client's socket returned `data`. No bytes mean
    /// that the peer has closed. Without write-back the bytes are dropped and
    /// never reach the serial line; with it they are queued for the serial
    /// task, or, if the queue is full, left with the client to offer again.
    pub fn client_read(&mut self, session: &ClientSession, data: &[u8]) -> (action: ClientAction)
        requires
            old(self).wf(),
        ensures
            final(self).wf(),
            final(self)@ == old(self)@.after_client_read(data@),
            action == old(self)@.client_read_action(data@),
    {
        if self.ended.is_some() || data.len() == 0 {
            return ClientAction::Close;
        }
        match &mut self.funnel {
            None => ClientAction::Discard,
            Some(f) => {
                if f.is_full() {
                    ClientAction::Retry
                } else {
                    let sent = f.send(copy_bytes(data));
                    assert(sent is Ok);
                    ClientAction::Queued
                }
            },
        }
    }

    /// Ends the session of a client whose connection is gone: its
    /// subscription is given up. Nothing else changes, for the other clients
    /// or for the serial task.
    pub fn client_gone(&mut self, session: ClientSession)
        requires
            old(self).wf(),
        ensures
            final(self).wf(),
            final(self)@ == old(self)@.after_client_gone(session.spec_slot()),
    {
        self.bus.unsubscribe(session.slot);
    }
}

/// What the serial task reports.
pub enum SerialEvent<'a> {
    /// A read of the serial line returned these bytes.
    Read(&'a [u8]),
    /// The serial peripheral could not be opened, read or written.
    Fault,
    /// The serial line is free for the next chunk from the clients.
    Ready,
}

/// What the serial task does next.
#[derive(Debug, PartialEq, Eq)]
pub enum SerialStep {
    /// The chunk that was read is on its way to the clients: toggle the
    /// status LED and go on.
    Blink,
    /// Toggle the status LED and write this chunk to the serial line.
    Write(Vec<u8>),
    /// Nothing waits to be written.
    Idle,
    /// The bridge has ended for this reason: leave the loop.
    Stop(BridgeEnd),
}

/// What the accept loop reports.
#[derive(Clone, Copy, Debug, PartialEq, Eq, Structural)]
pub enum ListenerEvent {
    /// The listening socket could not be bound.
    BindFailed,
    /// A connection was accepted.
    Accepted,
    /// An attempt to accept a connection failed.
    AcceptFailed,
}

/// What a client task reports.
pub enum ClientEvent<'a> {
    /// Something may wait for this client on the broadcast channel.
    Wake,
    /// A read of the socket returned these bytes.
    Read(&'a [u8]),
    /// The socket could not be read or written.
    Fault,
}

/// What a client task does next.
#[derive(Debug, PartialEq, Eq)]
pub enum ClientStep {
    /// Write this chunk to the socket and flush.
    Forward(Vec<u8>),
    /// This many chunks were lost to this client; go on with the next.
    Skipped(u64),
    /// Nothing waits for this client.
    Idle,
    /// End this client, and this client only.
    Close,
    /// The input is dropped: write-back is disabled.
    Discard,
    /// The input waits in the funnel queue.
    Queued,
    /// The funnel queue is full: keep the input and offer it again.
    Retry,
}

/// One step of the serial task.
///
/// A read without bytes ends the bridge, any other read is published to the
/// clients; a fault of the peripheral ends the bridge; and when the line is
/// free, the chunk that has waited longest in the funnel queue is written.
pub fn handle_serial(bridge: &mut Bridge, event: SerialEvent<'_>) -> (step: SerialStep)
    requires
        old(bridge).wf(),
    ensures
        final(bridge).wf(),
        match event {
            SerialEvent::Read(data) => {
                &&& final(bridge)@ == old(bridge)@.after_serial_read(data@)
                &&& match old(bridge)@.serial_read_action(data@) {
                    SerialAction::Blink => step is Blink,
                    SerialAction::Stop(reason) => step matches SerialStep::Stop(r) && r == reason,
                }
            },
            SerialEvent::Fault => {
                &&& final(bridge)@ == old(bridge)@.end(BridgeEnd::SerialFault)
                &&& step matches SerialStep::Stop(r) && r == old(bridge)@.end_reason(
                    BridgeEnd::SerialFault,
                )
            },
            SerialEvent::Ready => {
                &&& final(bridge)@ == old(bridge)@.after_next_write()
                &&& match step {
                    SerialStep::Write(chunk) => old(bridge)@.next_write() == Some(chunk@),
                    SerialStep::Idle => old(bridge)@.running() && old(bridge)@.next_write() is None,
                    SerialStep::Stop(reason) => old(bridge)@.ended == Some(reason),
                    SerialStep::Blink => false,
                }
            },
        },
{
    match event {
        SerialEvent::Read(data) => match bridge.serial_read(data) {
            SerialAction::Blink => SerialStep::Blink,
            SerialAction::Stop(reason) => SerialStep::Stop(reason),
        },
        SerialEvent::Fault => match bridge.serial_fault() {
            SerialAction::Blink => SerialStep::Blink,
            SerialAction::Stop(reason) => SerialStep::Stop(reason),
        },
        SerialEvent::Ready => match bridge.ended() {
            Some(reason) => SerialStep::Stop(reason),
            None => match bridge.next_write() {
                Some(chunk) => SerialStep::Write(chunk),
                None => SerialStep::Idle,
            },
        },
    }
}

/// One step of the accept loop.
///
/// A failure to bind ends the bridge; an accepted connection is counted in
/// the state store and gets a session under its number; a failed accept
/// changes nothing and the loop goes on.
pub fn handle_network<N, S>(
    state: &mut MyState<N, S>,
    bridge: &mut Bridge,
    event: ListenerEvent,
) -> (action: ListenerAction)
    requires
        old(bridge).wf(),
    ensures
        final(bridge).wf(),
        final(state).config == old(state).config,
        final(state).restart == old(state).restart,
        final(state).serial == old(state).serial,
        final(state).wifi_up == old(state).wifi_up,
        match event {
            ListenerEvent::BindFailed => {
                &&& final(bridge)@ == old(bridge)@.end(BridgeEnd::BindFailed)
                &&& action == ListenerAction::Stop(
                    old(bridge)@.end_reason(BridgeEnd::BindFailed),
                )
                &&& final(state).api_cnt == old(state).api_cnt
            },
            ListenerEvent::AcceptFailed => {
                &&& final(bridge)@ == old(bridge)@
                &&& action == (match old(bridge)@.ended {
                    Some(first) => ListenerAction::Stop(first),
                    None => ListenerAction::Continue,
                })
                &&& final(state).api_cnt == old(state).api_cnt
            },
            ListenerEvent::Accepted => match action {
                ListenerAction::Spawn(session) => {
                    &&& old(bridge)@.running()
                    &&& session.spec_number() == old(state).api_cnt
                    &&& final(state).api_cnt == (if old(state).api_cnt == u32::MAX {
                        0
                    } else {
                        old(state).api_cnt + 1
                    })
                    &&& old(bridge)@.bus.free_slot(session.spec_slot())
                    &&& forall|j: nat|
                        j < session.spec_slot() ==> old(bridge)@.bus.subscribed(j)
                    &&& final(bridge)@ == old(bridge)@.after_accept(session.spec_slot())
                },
                ListenerAction::Stop(reason) => {
                    &&& old(bridge)@.ended == Some(reason)
                    &&& final(bridge)@ == old(bridge)@
                    &&& final(state).api_cnt == old(state).api_cnt
                },
                ListenerAction::Continue => false,
            },
        },
{
    match event {
        ListenerEvent::BindFailed => bridge.bind_failed(),
        ListenerEvent::AcceptFailed => bridge.accept_failed(),
        ListenerEvent::Accepted => match bridge.ended() {
            Some(reason) => ListenerAction::Stop(reason),
            None => {
                let number = state.count_request();
                bridge.accept(number)
            },
        },
    }
}

/// One step of a client task.
///
/// On a wake-up the client is handed the next chunk from the serial line, if
/// one waits for it. Input from its socket is queued for the serial line or
/// dropped, as the configuration says. A peer that has closed and a socket
/// that has failed end this client and leave the bridge as it is.
pub fn handle_client(bridge: &mut Bridge, session: &ClientSession, event: ClientEvent<'_>) -> (step:
    ClientStep)
    requires
        old(bridge).wf(),
    ensures
        final(bridge).wf(),
        final(bridge)@.ended == old(bridge)@.ended,
        match event {
            ClientEvent::Wake => {
                &&& final(bridge)@ == old(bridge)@.after_client_poll(session.spec_slot())
                &&& match old(bridge)@.client_delivery(session.spec_slot()) {
                    DeliveryView::Chunk(bytes) => step matches ClientStep::Forward(chunk) && chunk@
                        == bytes,
                    DeliveryView::Lagged(n) => step matches ClientStep::Skipped(m) && m == n,
                    DeliveryView::Empty => step is Idle,
                    DeliveryView::Closed => step is Close,
                }
            },
            ClientEvent::Read(data) => {
                &&& final(bridge)@ == old(bridge)@.after_client_read(data@)
                &&& match old(bridge)@.client_read_action(data@) {
                    ClientAction::Close => step is Close,
                    ClientAction::Discard => step is Discard,
                    ClientAction::Queued => step is Queued,
                    ClientAction::Retry => step is Retry,
                }
            },
            ClientEvent::Fault => final(bridge)@ == old(bridge)@ && step is Close,
        },
{
    match event {
        ClientEvent::Wake => match bridge.client_poll(session) {
            Delivery::Chunk(chunk) => ClientStep::Forward(chunk),
            Delivery::Lagged(n) => ClientStep::Skipped(n),
            Delivery::Empty => ClientStep::Idle,
            Delivery::Closed => ClientStep::Close,
        },
        ClientEvent::Read(data) => match bridge.client_read(session, data) {
            ClientAction::Close => ClientStep::Close,
            ClientAction::Discard => ClientStep::Discard,
            ClientAction::Queued => ClientStep::Queued,
            ClientAction::Retry => ClientStep::Retry,
        },
        ClientEvent::Fault => ClientStep::Close,
    }
}

} // verus!
