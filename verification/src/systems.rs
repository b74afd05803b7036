//! The session bridge: the single consumer that reconciles the concurrent
//! network tasks with the host's tick-polled loop.
//!
//! Background tasks push every event — packets, lifecycle transitions,
//! errors — onto one FIFO queue (`push_event`).  Once per tick the host calls
//! `drain_inbound`, which pops everything currently queued, maintains the
//! connection table (allocated on Connected, removed on Disconnected, cleared
//! on SocketClosed), and republishes every event unmodified in the order
//! popped: events from one connection are observed exactly in the order its
//! tasks produced them.  Outbound commands are routed by `submit_outbound` to
//! the addressed connection's queue; a command naming an unknown connection
//! is an addressing error and causes no transport activity.  The table is
//! mutated only through these operations, by the one thread that owns the
//! state.

use std::collections::HashMap;

use vstd::prelude::*;

use crate::components::{Connection, ConnectionView};
use crate::events::{
    receive_events_view, NetworkError, ReceiveEvent, ReceiveEventView, SendEvent,
};
use crate::id::ConnectionId;
use crate::serialization::{spec_decode, DecodeError};
use crate::streams::{frame_payload, frame_ready, frame_rest, FrameReceiver, RecvError};

verus! {

broadcast use vstd::std_specs::hash::group_hash_axioms;

/// Internal state of the network session system: the single inbound event
/// queue fed by every background task, and the single-consumer connection
/// table.
pub struct SessionEventListenerState {
    inbound: Vec<ReceiveEvent>,
    connections: HashMap<u128, Connection>,
}

/// How one inbound event changes the connection table: a Connected event
/// allocates a fresh record, a Disconnected event removes the record,
/// SocketClosed clears every record, and all other events leave it unchanged.
pub open spec fn spec_apply_event(
    m: Map<ConnectionId, ConnectionView>,
    e: ReceiveEventView,
) -> Map<ConnectionId, ConnectionView> {
    match e {
        ReceiveEventView::Connected(id) => m.insert(
            id,
            ConnectionView { id, outbound: Seq::empty() },
        ),
        ReceiveEventView::Disconnected(id) => m.remove(id),
        ReceiveEventView::SocketClosed => Map::empty(),
        _ => m,
    }
}

/// The connection table after processing the given events in order.
pub open spec fn spec_apply_events(
    m: Map<ConnectionId, ConnectionView>,
    es: Seq<ReceiveEventView>,
) -> Map<ConnectionId, ConnectionView>
    decreases es.len(),
{
    if es.len() == 0 {
        m
    } else {
        spec_apply_events(spec_apply_event(m, es[0]), es.skip(1))
    }
}

/// Every record in a connection table is filed under its own identifier.
pub open spec fn table_wf(m: Map<ConnectionId, ConnectionView>) -> bool {
    forall|id: ConnectionId| #[trigger] m.contains_key(id) ==> m[id].id == id
}

/// Processing inbound events preserves the table's well-formedness: the only
/// records ever inserted are fresh ones filed under their own identifier.
pub proof fn lemma_apply_events_preserve_wf(
    m: Map<ConnectionId, ConnectionView>,
    es: Seq<ReceiveEventView>,
)
    requires
        table_wf(m),
    ensures
        table_wf(spec_apply_events(m, es)),
    decreases es.len(),
{
    if es.len() > 0 {
        assert(table_wf(spec_apply_event(m, es[0])));
        lemma_apply_events_preserve_wf(spec_apply_event(m, es[0]), es.skip(1));
    }
}

impl SessionEventListenerState {
    /// The queued inbound events, oldest first.
    pub closed spec fn inbound_view(&self) -> Seq<ReceiveEventView> {
        receive_events_view(self.inbound@)
    }

    /// The connection table: a record for each connection that completed its
    /// handshake and has not yet disconnected.
    pub closed spec fn table_view(&self) -> Map<ConnectionId, ConnectionView> {
        Map::new(
            |id: ConnectionId| self.connections@.contains_key(id.0),
            |id: ConnectionId| self.connections@[id.0]@,
        )
    }

    /// A bridge with no queued events and no connections.
    pub fn new() -> (r: SessionEventListenerState)
        ensures
            r.inbound_view() == Seq::<ReceiveEventView>::empty(),
            r.table_view() == Map::<ConnectionId, ConnectionView>::empty(),
    {
        let r = SessionEventListenerState { inbound: Vec::new(), connections: HashMap::new() };
        proof {
            assert(r.inbound_view() =~= Seq::<ReceiveEventView>::empty());
            assert(r.table_view() =~= Map::<ConnectionId, ConnectionView>::empty());
        }
        r
    }

    /// Append one event to the inbound queue.  Producers call this in the
    /// order they generate events, so per producer the queue holds its events
    /// in production order.
    pub fn push_event(&mut self, e: ReceiveEvent)
        ensures
            final(self).inbound_view() == old(self).inbound_view().push(e@),
            final(self).table_view() == old(self).table_view(),
    {
        let ghost pre = self.inbound@;
        self.inbound.push(e);
        proof {
            assert(receive_events_view(pre.push(e)) =~= receive_events_view(pre).push(e@));
        }
    }

    /// Pop every currently queued inbound event, never blocking: update the
    /// connection table from the lifecycle events among them, and return all
    /// popped events unmodified, in the order they were queued.  For one
    /// connection this is exactly the order its tasks produced them.
    pub fn drain_inbound(&mut self) -> (events: Vec<ReceiveEvent>)
        ensures
            receive_events_view(events@) == old(self).inbound_view(),
            final(self).inbound_view() == Seq::<ReceiveEventView>::empty(),
            final(self).table_view() == spec_apply_events(
                old(self).table_view(),
                old(self).inbound_view(),
            ),
    {
        let ghost orig_events = receive_events_view(self.inbound@);
        let ghost target = spec_apply_events(self.table_view(), receive_events_view(self.inbound@));
        let mut events: Vec<ReceiveEvent> = Vec::new();
        proof {
            assert(receive_events_view(events@) + receive_events_view(self.inbound@)
                =~= orig_events);
        }
        while self.inbound.len() > 0
            invariant
                receive_events_view(events@) + receive_events_view(self.inbound@) == orig_events,
                spec_apply_events(self.table_view(), receive_events_view(self.inbound@)) == target,
            decreases self.inbound.len(),
        {
            let ghost pre_inbound = self.inbound@;
            let ghost pre_events = events@;
            let ghost pre_table = self.table_view();
            let e = self.inbound.remove(0);
            proof {
                assert(pre_inbound.remove(0) =~= pre_inbound.skip(1));
                assert(receive_events_view(pre_inbound.skip(1)) =~= receive_events_view(
                    pre_inbound,
                ).skip(1));
                assert(receive_events_view(pre_inbound)[0] == e@);
            }
            match &e {
                ReceiveEvent::Connected(id) => {
                    let c = Connection::new(*id);
                    self.connections.insert(id.0, c);
                    proof {
                        assert(self.table_view() =~= spec_apply_event(pre_table, e@));
                    }
                },
                ReceiveEvent::Disconnected(id) => {
                    self.connections.remove(&id.0);
                    proof {
                        assert(self.table_view() =~= spec_apply_event(pre_table, e@));
                    }
                },
                ReceiveEvent::SocketClosed => {
                    self.connections.clear();
                    proof {
                        assert(self.table_view() =~= spec_apply_event(pre_table, e@));
                    }
                },
                _ => {
                    proof {
                        assert(self.table_view() =~= spec_apply_event(pre_table, e@));
                    }
                },
            }
            events.push(e);
            proof {
                assert(receive_events_view(pre_events.push(e)) =~= receive_events_view(
                    pre_events,
                ).push(e@));
                assert(receive_events_view(events@) + receive_events_view(self.inbound@)
                    =~= orig_events);
            }
        }
        proof {
            assert(receive_events_view(self.inbound@) =~= Seq::<ReceiveEventView>::empty());
            assert(receive_events_view(events@) + Seq::<ReceiveEventView>::empty() =~= receive_events_view(events@));
        }
        events
    }

    /// Route one outbound command to the addressed connection's queue.  The
    /// command is queued exactly when the connection has a table entry; a
    /// command naming an unknown connection yields an addressing error, is
    /// dropped, and causes no transport activity and no state change.
    pub fn submit_outbound(&mut self, cmd: SendEvent) -> (r: Result<(), NetworkError>)
        ensures
            final(self).inbound_view() == old(self).inbound_view(),
            r is Ok <==> old(self).table_view().contains_key(cmd@.spec_connection()),
            r is Ok ==> final(self).table_view() == old(self).table_view().insert(
                cmd@.spec_connection(),
                ConnectionView {
                    id: old(self).table_view()[cmd@.spec_connection()].id,
                    outbound: old(self).table_view()[cmd@.spec_connection()].outbound.push(cmd@),
                },
            ),
            r !is Ok ==> final(self).table_view() == old(self).table_view() && r == Err::<
                (),
                NetworkError,
            >(
                NetworkError::UnaddressableConnection {
                    connection: cmd@.spec_connection(),
                    stream: cmd@.spec_stream(),
                },
            ),
    {
        let id = cmd.get_connection();
        let stream = cmd.get_stream();
        let ghost pre_table = self.table_view();
        match self.connections.remove(&id.0) {
            Some(mut rec) => {
                rec.push_outbound(cmd);
                self.connections.insert(id.0, rec);
                proof {
                    assert(self.table_view() =~= pre_table.insert(
                        id,
                        ConnectionView {
                            id: pre_table[id].id,
                            outbound: pre_table[id].outbound.push(cmd@),
                        },
                    ));
                }
                Ok(())
            },
            None => {
                proof {
                    assert(self.table_view() =~= pre_table);
                }
                Err(NetworkError::UnaddressableConnection { connection: id, stream })
            },
        }
    }

    /// The next outbound command queued for `id`, in the order submitted, for
    /// the connection's write task to send.  `None` when the connection has
    /// no entry or nothing is pending.
    pub fn pop_outbound(&mut self, id: ConnectionId) -> (r: Option<SendEvent>)
        ensures
            final(self).inbound_view() == old(self).inbound_view(),
            !old(self).table_view().contains_key(id) ==> r is None && final(self).table_view()
                == old(self).table_view(),
            old(self).table_view().contains_key(id) && old(self).table_view()[id].outbound.len()
                == 0 ==> r is None && final(self).table_view() == old(self).table_view(),
            old(self).table_view().contains_key(id) && old(self).table_view()[id].outbound.len()
                > 0 ==> (r matches Some(e) && e@ == old(self).table_view()[id].outbound[0]
                && final(self).table_view() == old(self).table_view().insert(
                id,
                ConnectionView {
                    id: old(self).table_view()[id].id,
                    outbound: old(self).table_view()[id].outbound.skip(1),
                },
            )),
    {
        let ghost pre_table = self.table_view();
        match self.connections.remove(&id.0) {
            Some(mut rec) => {
                let r = rec.pop_outbound();
                self.connections.insert(id.0, rec);
                proof {
                    if pre_table[id].outbound.len() == 0 {
                        assert(self.table_view() =~= pre_table);
                    } else {
                        assert(self.table_view() =~= pre_table.insert(
                            id,
                            ConnectionView {
                                id: pre_table[id].id,
                                outbound: pre_table[id].outbound.skip(1),
                            },
                        ));
                    }
                }
                r
            },
            None => {
                proof {
                    assert(self.table_view() =~= pre_table);
                }
                None
            },
        }
    }

    /// Whether a connection currently has a table entry.
    pub fn is_connected(&self, id: ConnectionId) -> (r: bool)
        ensures
            r == self.table_view().contains_key(id),
    {
        self.connections.contains_key(&id.0)
    }

    /// How many connections currently have a table entry.
    pub fn connection_count(&self) -> (n: usize)
        ensures
            n == self.table_view().dom().len(),
    {
        proof {
            let f = |k: u128| ConnectionId(k);
            assert(self.table_view().dom() =~= self.connections@.dom().map(f));
            assert(vstd::relations::injective_on(f, self.connections@.dom()));
            vstd::set_lib::lemma_map_size(
                self.connections@.dom(),
                self.table_view().dom(),
                f,
            );
        }
        self.connections.len()
    }
}


/// The lifecycle states of one connection.
#[derive(Debug, Clone, Copy, Eq, PartialEq, Structural)]
pub enum LifecycleState {
    /// The transport handshake is in progress.
    Opening,
    /// The handshake completed; read and write tasks are running.
    Established,
    /// Terminal: the record is removed and nothing more is emitted.
    Closed,
}

/// What the transport reported for one connection.
#[derive(Debug, Clone, Copy, Eq, PartialEq, Structural)]
pub enum TransportSignal {
    /// The handshake completed; the connection is usable.
    HandshakeCompleted,
    /// The handshake failed; the connection never opened.
    HandshakeFailed,
    /// The connection closed cleanly (deliberate application closure).
    ConnectionClosed,
    /// The connection was lost to a transport error.
    ConnectionLost,
}

/// Drives one connection from Opening through Established to Closed and emits
/// the lifecycle events that its background tasks push into the session
/// bridge: Connected on handshake completion, a HandshakeFailed error (and
/// nothing else, ever) on handshake failure, and exactly one Disconnected
/// when an established connection ends, preceded by a ConnectionError when it
/// ended in a transport error.
pub struct ConnectionLifecycle {
    id: ConnectionId,
    state: LifecycleState,
}

impl ConnectionLifecycle {
    /// The identifier this connection was assigned when it began opening.
    pub closed spec fn spec_id(&self) -> ConnectionId {
        self.id
    }

    /// The lifecycle state the connection is in.
    pub closed spec fn spec_state(&self) -> LifecycleState {
        self.state
    }

    /// The transition relation: from a state and a transport signal, the next
    /// state and the events emitted, in order.  Total: a signal that cannot
    /// occur in a state changes nothing and emits nothing.
    pub open spec fn spec_step(state: LifecycleState, id: ConnectionId, sig: TransportSignal) -> (
        LifecycleState,
        Seq<ReceiveEventView>,
    ) {
        match (state, sig) {
            (LifecycleState::Opening, TransportSignal::HandshakeCompleted) => (
                LifecycleState::Established,
                seq![ReceiveEventView::Connected(id)],
            ),
            (LifecycleState::Opening, TransportSignal::HandshakeFailed) => (
                LifecycleState::Closed,
                seq![
                    ReceiveEventView::NetworkError(NetworkError::HandshakeFailed {
                        connection: id,
                    }),
                ],
            ),
            (LifecycleState::Established, TransportSignal::ConnectionClosed) => (
                LifecycleState::Closed,
                seq![ReceiveEventView::Disconnected(id)],
            ),
            (LifecycleState::Established, TransportSignal::ConnectionLost) => (
                LifecycleState::Closed,
                seq![
                    ReceiveEventView::NetworkError(NetworkError::ConnectionError {
                        connection: id,
                    }),
                    ReceiveEventView::Disconnected(id),
                ],
            ),
            _ => (state, Seq::empty()),
        }
    }

    /// The events emitted from `state` by the given signals, in order.
    pub open spec fn spec_run(
        state: LifecycleState,
        id: ConnectionId,
        sigs: Seq<TransportSignal>,
    ) -> Seq<ReceiveEventView>
        decreases sigs.len(),
    {
        if sigs.len() == 0 {
            Seq::empty()
        } else {
            let (next, emitted) = ConnectionLifecycle::spec_step(state, id, sigs[0]);
            emitted + ConnectionLifecycle::spec_run(next, id, sigs.skip(1))
        }
    }

    /// A lifecycle for a connection that has just begun its handshake.
    pub fn new(id: ConnectionId) -> (r: ConnectionLifecycle)
        ensures
            r.spec_id() == id,
            r.spec_state() == LifecycleState::Opening,
    {
        ConnectionLifecycle { id, state: LifecycleState::Opening }
    }

    /// The identifier this connection was assigned.
    pub fn id(&self) -> (r: ConnectionId)
        ensures
            r == self.spec_id(),
    {
        self.id
    }

    /// The lifecycle state the connection is in.
    pub fn state(&self) -> (r: LifecycleState)
        ensures
            r == self.spec_state(),
    {
        self.state
    }

    /// Apply one transport signal: move to the next state and return the
    /// events to push into the session bridge, in order.
    pub fn step(&mut self, sig: TransportSignal) -> (events: Vec<ReceiveEvent>)
        ensures
            final(self).spec_id() == old(self).spec_id(),
            final(self).spec_state() == ConnectionLifecycle::spec_step(
                old(self).spec_state(),
                old(self).spec_id(),
                sig,
            ).0,
            receive_events_view(events@) == ConnectionLifecycle::spec_step(
                old(self).spec_state(),
                old(self).spec_id(),
                sig,
            ).1,
    {
        let mut events: Vec<ReceiveEvent> = Vec::new();
        match (self.state, sig) {
            (LifecycleState::Opening, TransportSignal::HandshakeCompleted) => {
                self.state = LifecycleState::Established;
                events.push(ReceiveEvent::Connected(self.id));
            },
            (LifecycleState::Opening, TransportSignal::HandshakeFailed) => {
                self.state = LifecycleState::Closed;
                events.push(
                    ReceiveEvent::NetworkError(
                        NetworkError::HandshakeFailed { connection: self.id },
                    ),
                );
            },
            (LifecycleState::Established, TransportSignal::ConnectionClosed) => {
                self.state = LifecycleState::Closed;
                events.push(ReceiveEvent::Disconnected(self.id));
            },
            (LifecycleState::Established, TransportSignal::ConnectionLost) => {
                self.state = LifecycleState::Closed;
                events.push(
                    ReceiveEvent::NetworkError(
                        NetworkError::ConnectionError { connection: self.id },
                    ),
                );
                events.push(ReceiveEvent::Disconnected(self.id));
            },
            _ => {},
        }
        proof {
            assert(receive_events_view(events@) =~= ConnectionLifecycle::spec_step(
                old(self).spec_state(),
                old(self).spec_id(),
                sig,
            ).1);
        }
        events
    }
}

/// How many Disconnected events for `id` a sequence of emitted events holds.
pub open spec fn count_disconnected(es: Seq<ReceiveEventView>, id: ConnectionId) -> int
    decreases es.len(),
{
    if es.len() == 0 {
        0
    } else {
        (if es[0] == ReceiveEventView::Disconnected(id) {
            1int
        } else {
            0
        }) + count_disconnected(es.skip(1), id)
    }
}

/// Counting Disconnected events distributes over concatenation.
proof fn lemma_count_disconnected_concat(a: Seq<ReceiveEventView>, b: Seq<ReceiveEventView>, id: ConnectionId)
    ensures
        count_disconnected(a + b, id) == count_disconnected(a, id) + count_disconnected(b, id),
    decreases a.len(),
{
    if a.len() == 0 {
        assert(a + b =~= b);
    } else {
        assert((a + b).skip(1) =~= a.skip(1) + b);
        lemma_count_disconnected_concat(a.skip(1), b, id);
    }
}

/// A closed connection emits nothing, whatever signals still arrive.
proof fn lemma_closed_silent(id: ConnectionId, sigs: Seq<TransportSignal>)
    ensures
        ConnectionLifecycle::spec_run(LifecycleState::Closed, id, sigs)
            == Seq::<ReceiveEventView>::empty(),
    decreases sigs.len(),
{
    if sigs.len() > 0 {
        lemma_closed_silent(id, sigs.skip(1));
        assert(ConnectionLifecycle::spec_run(LifecycleState::Closed, id, sigs)
            =~= Seq::<ReceiveEventView>::empty());
    }
}

/// Lifecycle: a connection whose handshake fails emits the HandshakeFailed
/// error and then nothing, ever — in particular it never produces a
/// Disconnected event, and no Connected event precedes the failure.
pub proof fn lemma_failed_handshake_is_silent(id: ConnectionId, sigs: Seq<TransportSignal>)
    requires
        sigs.len() > 0,
        sigs[0] == TransportSignal::HandshakeFailed,
    ensures
        ConnectionLifecycle::spec_run(LifecycleState::Opening, id, sigs) == seq![
            ReceiveEventView::NetworkError(NetworkError::HandshakeFailed { connection: id }),
        ],
{
    lemma_closed_silent(id, sigs.skip(1));
    assert(ConnectionLifecycle::spec_run(LifecycleState::Opening, id, sigs) =~= seq![
        ReceiveEventView::NetworkError(NetworkError::HandshakeFailed { connection: id }),
    ]);
}

/// Lifecycle: across any sequence of transport signals, a connection emits at
/// most one Disconnected event; a connection already closed emits none.
pub proof fn lemma_at_most_one_disconnect(
    state: LifecycleState,
    id: ConnectionId,
    sigs: Seq<TransportSignal>,
)
    ensures
        count_disconnected(ConnectionLifecycle::spec_run(state, id, sigs), id) <= if state
            is Closed {
            0int
        } else {
            1int
        },
        count_disconnected(ConnectionLifecycle::spec_run(state, id, sigs), id) >= 0,
    decreases sigs.len(),
{
    if sigs.len() > 0 {
        let (next, emitted) = ConnectionLifecycle::spec_step(state, id, sigs[0]);
        lemma_at_most_one_disconnect(next, id, sigs.skip(1));
        lemma_count_disconnected_concat(
            emitted,
            ConnectionLifecycle::spec_run(next, id, sigs.skip(1)),
            id,
        );
        match (state, sigs[0]) {
            (LifecycleState::Established, TransportSignal::ConnectionClosed) => {
                lemma_count_single(ReceiveEventView::Disconnected(id), id);
                assert(count_disconnected(emitted, id) == 1);
            },
            (LifecycleState::Established, TransportSignal::ConnectionLost) => {
                let err = ReceiveEventView::NetworkError(
                    NetworkError::ConnectionError { connection: id },
                );
                assert(emitted =~= seq![err] + seq![ReceiveEventView::Disconnected(id)]);
                lemma_count_disconnected_concat(
                    seq![err],
                    seq![ReceiveEventView::Disconnected(id)],
                    id,
                );
                lemma_count_single(err, id);
                lemma_count_single(ReceiveEventView::Disconnected(id), id);
                assert(count_disconnected(emitted, id) == 1);
            },
            (LifecycleState::Opening, TransportSignal::HandshakeCompleted) => {
                lemma_count_single(ReceiveEventView::Connected(id), id);
                assert(count_disconnected(emitted, id) == 0);
            },
            (LifecycleState::Opening, TransportSignal::HandshakeFailed) => {
                lemma_count_single(
                    ReceiveEventView::NetworkError(NetworkError::HandshakeFailed {
                        connection: id,
                    }),
                    id,
                );
                assert(count_disconnected(emitted, id) == 0);
            },
            _ => {
                assert(count_disconnected(emitted, id) == 0);
            },
        }
    }
}

/// The Disconnected count of a single emitted event.
proof fn lemma_count_single(e: ReceiveEventView, id: ConnectionId)
    ensures
        count_disconnected(seq![e], id) == if e == ReceiveEventView::Disconnected(id) {
            1int
        } else {
            0int
        },
{
    assert(count_disconnected(Seq::<ReceiveEventView>::empty(), id) == 0);
    assert(seq![e].skip(1) =~= Seq::<ReceiveEventView>::empty());
    assert(seq![e][0] == e);
}


/// What pumping buffered bytes through a connection's read task produces: one
/// ReceivedPacket per complete frame, in arrival order, until the bytes hold
/// no further complete frame; a frame whose payload is not a valid packet
/// produces one ReceiveError instead, after which the task abandons the
/// stream.  The result is the events, the bytes left buffered, and whether
/// the task keeps reading.
pub open spec fn spec_read_events(id: ConnectionId, b: Seq<u8>) -> (
    Seq<ReceiveEventView>,
    Seq<u8>,
    bool,
)
    decreases b.len(),
{
    if !frame_ready(b) {
        (Seq::empty(), b, true)
    } else {
        match spec_decode(frame_payload(b)) {
            Some(p) => {
                let (es, rest, alive) = spec_read_events(id, frame_rest(b));
                (seq![ReceiveEventView::ReceivedPacket { connection: id, data: p }] + es,
                rest,
                alive)
            },
            None => (
                seq![
                    ReceiveEventView::NetworkError(NetworkError::ReceiveError {
                        connection: id,
                        err: RecvError::DecodeError(DecodeError),
                    }),
                ],
                frame_rest(b),
                false,
            ),
        }
    }
}

/// One step of a connection's read task: feed the bytes just read from the
/// stream into its frame receiver, decode every frame that is now complete,
/// and return the events to push into the session bridge, with `false` when a
/// malformed frame means the stream must be abandoned.
pub fn handle_stream_chunk(id: ConnectionId, rx: &mut FrameReceiver, chunk: &[u8]) -> (r: (
    Vec<ReceiveEvent>,
    bool,
))
    ensures
        ({
            let (es, rest, alive) = spec_read_events(id, old(rx)@ + chunk@);
            &&& receive_events_view(r.0@) == es
            &&& final(rx)@ == rest
            &&& r.1 == alive
        }),
{
    rx.feed(chunk);
    let ghost total = spec_read_events(id, old(rx)@ + chunk@);
    let mut events: Vec<ReceiveEvent> = Vec::new();
    proof {
        assert(receive_events_view(events@) + total.0 =~= total.0);
    }
    loop
        invariant
            total == spec_read_events(id, old(rx)@ + chunk@),
            ({
                let (es, rest, alive) = spec_read_events(id, rx@);
                &&& receive_events_view(events@) + es == total.0
                &&& rest == total.1
                &&& alive == total.2
            }),
        ensures
            receive_events_view(events@) == total.0,
            rx@ == total.1,
            total.2 == true,
        decreases rx@.len(),
    {
        let ghost pre_rx = rx@;
        let ghost pre_events = events@;
        match rx.poll_packet() {
            None => {
                proof {
                    assert(receive_events_view(events@) + Seq::<ReceiveEventView>::empty()
                        =~= receive_events_view(events@));
                }
                break;
            },
            Some(Ok(p)) => {
                let ghost pv = p@;
                events.push(ReceiveEvent::ReceivedPacket { connection: id, data: p });
                proof {
                    let (es, rest, alive) = spec_read_events(id, rx@);
                    assert(receive_events_view(pre_events.push(
                        ReceiveEvent::ReceivedPacket { connection: id, data: p },
                    )) =~= receive_events_view(pre_events).push(
                        ReceiveEventView::ReceivedPacket { connection: id, data: pv },
                    ));
                    assert(receive_events_view(pre_events) + (seq![
                        ReceiveEventView::ReceivedPacket { connection: id, data: pv },
                    ] + es) =~= receive_events_view(events@) + es);
                }
            },
            Some(Err(_)) => {
                events.push(
                    ReceiveEvent::NetworkError(
                        NetworkError::ReceiveError {
                            connection: id,
                            err: RecvError::DecodeError(DecodeError),
                        },
                    ),
                );
                proof {
                    let ev = ReceiveEventView::NetworkError(
                        NetworkError::ReceiveError {
                            connection: id,
                            err: RecvError::DecodeError(DecodeError),
                        },
                    );
                    assert(frame_ready(pre_rx));
                    let (es, rest, alive) = spec_read_events(id, pre_rx);
                    assert(es =~= seq![ev]);
                    assert(rest == frame_rest(pre_rx) && alive == false);
                    assert(receive_events_view(pre_events.push(
                        ReceiveEvent::NetworkError(
                            NetworkError::ReceiveError {
                                connection: id,
                                err: RecvError::DecodeError(DecodeError),
                            },
                        ),
                    )) =~= receive_events_view(pre_events).push(ev));
                    assert(receive_events_view(pre_events) + seq![ev] =~= receive_events_view(
                        events@,
                    ));
                }
                return (events, false);
            },
        }
    }
    (events, true)
}


/// Lifecycle: an established connection that ends — cleanly or to a transport
/// error — emits exactly one Disconnected event across everything that
/// follows; after it the connection is silent.
pub proof fn lemma_established_end_one_disconnect(id: ConnectionId, sigs: Seq<TransportSignal>)
    requires
        sigs.len() > 0,
        sigs[0] == TransportSignal::ConnectionClosed || sigs[0]
            == TransportSignal::ConnectionLost,
    ensures
        count_disconnected(
            ConnectionLifecycle::spec_run(LifecycleState::Established, id, sigs),
            id,
        ) == 1,
{
    let (next, emitted) = ConnectionLifecycle::spec_step(LifecycleState::Established, id, sigs[0]);
    lemma_closed_silent(id, sigs.skip(1));
    lemma_count_disconnected_concat(
        emitted,
        ConnectionLifecycle::spec_run(next, id, sigs.skip(1)),
        id,
    );
    if sigs[0] == TransportSignal::ConnectionClosed {
        lemma_count_single(ReceiveEventView::Disconnected(id), id);
    } else {
        let err = ReceiveEventView::NetworkError(NetworkError::ConnectionError { connection: id });
        assert(emitted =~= seq![err] + seq![ReceiveEventView::Disconnected(id)]);
        lemma_count_disconnected_concat(seq![err], seq![ReceiveEventView::Disconnected(id)], id);
        lemma_count_single(err, id);
        lemma_count_single(ReceiveEventView::Disconnected(id), id);
    }
    assert(count_disconnected(Seq::<ReceiveEventView>::empty(), id) == 0);
}

} // verus!
