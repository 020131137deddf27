//! The listener's table of sessions, keyed by the ID in the frame header.
//!
//! A datagram with an unknown ID opens a session, which is *pending*: it waits in the accept
//! queue. An accept takes the session at the front of the queue and makes it *accepted*; from
//! then on the datagrams with its ID are forwarded to it.
use crate::protocol::frame_hdr::{
    frame, frame_body, frame_hdr_bytes, frame_id, is_frame, law_decode_of_encode,
    law_encode_of_decode,
};
use crate::protocol::FrameHdr;
use crate::streams::uploader::{law_packets_are_framed, LayerOutput, Phase, UploadEvent, UploadState};
use crate::streams::{ArdlStreamBuilder, BuildError};
use crate::utils::buf::BufSlice;
use crate::utils::channel::{
    after_offer, channel_bound, lemma_put_in_push, offers, put_in, same_channel, try_send,
    NewChannel, SendOutcome,
};
use crate::utils::time::{duration_nanos, instant_nanos, is_timed_out, timed_out};
use crate::utils::{SocketAddr, UdpEndpoint};
use std::collections::{HashMap, VecDeque};
use std::time::{Duration, Instant};
use tokio::sync::mpsc::{Receiver, Sender};
use vstd::prelude::*;

verus! {

broadcast use vstd::std_specs::hash::group_hash_axioms;

/// Why an accept failed. `L` is the error of the reliability layer.
#[derive(Debug)]
pub enum AcceptError<L> {
    BuildError(BuildError<L>),
    UdpError,
}

/// The settings of a listener.
pub struct BindConfig {
    pub mtu: usize,
    pub inactive_timeout: Duration,
    pub accept_queue_len_cap: usize,
}

impl BindConfig {
    /// The settings that suit most networks.
    pub fn default() -> (config: BindConfig)
        ensures
            config.mtu == 1300,
            duration_nanos(config.inactive_timeout) == 300_000_000_000,
            config.accept_queue_len_cap == 1280,
    {
        BindConfig {
            mtu: 1300,
            inactive_timeout: Duration::from_secs(300),
            accept_queue_len_cap: 1280,
        }
    }
}

/// The end of a session that an accept hands out.
#[derive(Debug)]
pub struct StreamRx {
    pub remote_addr: SocketAddr,
    pub input_rx: Receiver<BufSlice>,
    pub id: u32,
}

/// The end of a session that the listener feeds. `last_recv` is the time of the datagram that
/// opened the session.
#[derive(Debug)]
pub struct StreamTx {
    pub remote_addr: SocketAddr,
    pub input_tx: Sender<BufSlice>,
    pub last_recv: Instant,
}

/// The sessions of a listener: those accepted, those pending, and the accept queue with its
/// length limit; and how long an accepted session lives.
#[verifier::ext_equal]
pub struct Sessions {
    pub accepted: Map<u32, StreamTx>,
    pub pending: Map<u32, StreamTx>,
    pub queue: Seq<StreamRx>,
    pub cap: nat,
    pub timeout: Duration,
}

/// What a datagram is to the sessions.
#[derive(Debug, PartialEq, Eq, Structural, Clone, Copy)]
pub enum Route {
    /// It is too short for a frame header.
    Malformed,
    /// Its session is still waiting to be accepted.
    Waiting,
    /// Its session is accepted, but belongs to another address.
    Foreign,
    /// Its session is accepted and belongs to its sender.
    Accepted,
    /// There is no session with its ID.
    Unknown,
}

/// What became of a datagram.
#[derive(Debug, PartialEq, Eq, Structural, Clone, Copy)]
pub enum Delivery {
    /// It changes nothing.
    Ignored,
    /// Its body went to the accepted session.
    Forwarded,
    /// The accepted session has no room for it.
    Overflowed,
    /// It opened a session, at the back of the accept queue, and its body waits in the session's
    /// channel: a waiting accept has to be woken.
    Opened,
    /// It would open a session, but the accept queue is full.
    Refused,
}

impl Sessions {
    /// The queued end `rx` is the other end of the pending session with its ID.
    pub open spec fn is_pending(self, rx: StreamRx) -> bool {
        &&& self.pending.contains_key(rx.id)
        &&& self.pending[rx.id].remote_addr == rx.remote_addr
        &&& same_channel(self.pending[rx.id].input_tx, rx.input_rx)
    }

    /// The queue keeps to its limit; it holds the pending sessions, each of them once; and no ID
    /// is both pending and accepted.
    pub open spec fn wf(self) -> bool {
        &&& self.queue.len() <= self.cap
        &&& forall|i: int| 0 <= i < self.queue.len() ==> self.is_pending(#[trigger] self.queue[i])
        &&& forall|i: int, j: int|
            0 <= i < j < self.queue.len() ==> (#[trigger] self.queue[i]).id != (
            #[trigger] self.queue[j]).id
        &&& forall|id: u32| #[trigger]
            self.pending.contains_key(id) ==> exists|i: int|
                0 <= i < self.queue.len() && (#[trigger] self.queue[i]).id == id
        &&& forall|id: u32| #[trigger]
            self.pending.contains_key(id) ==> !self.accepted.contains_key(id)
    }

    /// What a datagram from `remote_addr` is to these sessions.
    pub open spec fn route(self, datagram: Seq<u8>, remote_addr: SocketAddr) -> Route {
        let id = frame_id(datagram);
        if !is_frame(datagram) {
            Route::Malformed
        } else if self.pending.contains_key(id) {
            Route::Waiting
        } else if !self.accepted.contains_key(id) {
            Route::Unknown
        } else if self.accepted[id].remote_addr == remote_addr {
            Route::Accepted
        } else {
            Route::Foreign
        }
    }

    /// The sessions without the accepted session `id`.
    pub open spec fn without(self, id: u32) -> Sessions {
        Sessions { accepted: self.accepted.remove(id), ..self }
    }

    /// These sessions with another sending half for the accepted session `id`.
    pub open spec fn with_input_tx(self, id: u32, input_tx: Sender<BufSlice>) -> Sessions {
        Sessions {
            accepted: self.accepted.insert(id, StreamTx { input_tx, ..self.accepted[id] }),
            ..self
        }
    }

    /// `post` is these sessions with one more: a pending session `id` of `remote_addr`, at the
    /// back of the accept queue. Its channel buffers one packet, and has been given `body`.
    pub open spec fn opened(
        self,
        post: Sessions,
        id: u32,
        remote_addr: SocketAddr,
        body: Seq<u8>,
        now: Instant,
    ) -> bool {
        let rx = post.queue.last();
        let tx = post.pending[id];
        &&& post.accepted == self.accepted
        &&& post.pending == self.pending.insert(id, tx)
        &&& post.queue == self.queue.push(rx)
        &&& post.cap == self.cap
        &&& post.timeout == self.timeout
        &&& rx.id == id
        &&& rx.remote_addr == remote_addr
        &&& tx.remote_addr == remote_addr
        &&& tx.last_recv == now
        &&& same_channel(tx.input_tx, rx.input_rx)
        &&& channel_bound(tx.input_tx) == 1
        &&& offers(tx.input_tx) == seq![(body, Some(true))]
    }

    /// An attempt to open the session `id` for a datagram with this body: it succeeds exactly
    /// when the accept queue is below its limit.
    pub open spec fn try_opened(
        self,
        post: Sessions,
        id: u32,
        remote_addr: SocketAddr,
        body: Seq<u8>,
        now: Instant,
        delivery: Delivery,
    ) -> bool {
        if self.queue.len() < self.cap {
            &&& self.opened(post, id, remote_addr, body, now)
            &&& delivery == Delivery::Opened
        } else {
            &&& post == self
            &&& delivery == Delivery::Refused
        }
    }

    /// A datagram with this body has been offered to the accepted session `id`, once, and to no
    /// other session. Where the session turned out to be closed, it is gone, and the datagram
    /// opens a session like an unknown one.
    pub open spec fn offered(
        self,
        post: Sessions,
        id: u32,
        remote_addr: SocketAddr,
        body: Seq<u8>,
        now: Instant,
        delivery: Delivery,
    ) -> bool {
        let input_tx = self.accepted[id].input_tx;
        match delivery {
            Delivery::Forwarded | Delivery::Overflowed => {
                let taken = Some(delivery == Delivery::Forwarded);
                &&& post == self.with_input_tx(id, post.accepted[id].input_tx)
                &&& after_offer(input_tx, post.accepted[id].input_tx, body, taken)
            },
            _ => {
                &&& exists|closed: Sender<BufSlice>| #[trigger]
                    after_offer(input_tx, closed, body, None)
                &&& self.without(id).try_opened(post, id, remote_addr, body, now, delivery)
            },
        }
    }

    /// `post` is what a datagram from `remote_addr` makes of these sessions, and `delivery` says
    /// what became of it. Where it is ignored or refused, nothing has been offered to any session.
    pub open spec fn after_datagram(
        self,
        post: Sessions,
        datagram: Seq<u8>,
        remote_addr: SocketAddr,
        now: Instant,
        delivery: Delivery,
    ) -> bool {
        let id = frame_id(datagram);
        let body = frame_body(datagram);
        match self.route(datagram, remote_addr) {
            Route::Malformed | Route::Waiting | Route::Foreign => {
                &&& post == self
                &&& delivery == Delivery::Ignored
            },
            Route::Unknown => self.try_opened(post, id, remote_addr, body, now, delivery),
            Route::Accepted => self.offered(post, id, remote_addr, body, now, delivery),
        }
    }

    /// The sessions after an accept: the session at the front of the queue is accepted.
    pub open spec fn accept_front(self) -> Sessions {
        if self.queue.len() == 0 {
            self
        } else {
            let id = self.queue[0].id;
            Sessions {
                accepted: self.accepted.insert(id, self.pending[id]),
                pending: self.pending.remove(id),
                queue: self.queue.skip(1),
                ..self
            }
        }
    }

    /// The end that an accept hands out: the one at the front of the queue, if there is one.
    pub open spec fn front(self) -> Option<StreamRx> {
        if self.queue.len() == 0 {
            None
        } else {
            Some(self.queue[0])
        }
    }

    /// The sessions after `n` accepts.
    pub open spec fn accept_many(self, n: nat) -> Sessions
        decreases n,
    {
        if n == 0 {
            self
        } else {
            self.accept_many((n - 1) as nat).accept_front()
        }
    }

    /// The accepted session `id` has lived for the timeout.
    pub open spec fn is_inactive(self, id: u32, now: Instant) -> bool {
        timed_out(self.accepted[id].last_recv, self.timeout, now)
    }

    /// The sessions after a cleaning: the inactive ones among the accepted are gone.
    pub open spec fn cleaned(self, now: Instant) -> Sessions {
        Sessions {
            accepted: Map::new(
                |id: u32| self.accepted.contains_key(id) && !self.is_inactive(id, now),
                |id: u32| self.accepted[id],
            ),
            ..self
        }
    }

    /// `post` is what an event makes of these sessions, and `action` is what is done next.
    pub open spec fn after_event(
        self,
        post: Sessions,
        event: ListenEvent,
        action: ListenAction,
    ) -> bool {
        match event {
            ListenEvent::Tick { now } => {
                &&& post == self.cleaned(now)
                &&& action == ListenAction::Wait
            },
            ListenEvent::Received { datagram: Some((datagram, remote_addr)), now } => {
                &&& action matches ListenAction::Delivered(delivery)
                &&& self.after_datagram(post, datagram@, remote_addr, now, delivery)
            },
            ListenEvent::AcceptRequested(Some(())) => {
                &&& post == self.accept_front()
                &&& action == ListenAction::Answer(self.front())
            },
            ListenEvent::Received { datagram: None, .. } | ListenEvent::AcceptRequested(None) => {
                &&& post == self
                &&& action == ListenAction::Stop
            },
        }
    }
}

/// What happens to the listening task.
#[derive(Debug)]
pub enum ListenEvent {
    /// It is time to look for inactive sessions.
    Tick { now: Instant },
    /// A datagram came in from this address, or the socket failed.
    Received { datagram: Option<(BufSlice, SocketAddr)>, now: Instant },
    /// An accept asks for a session, or nobody is left to accept any.
    AcceptRequested(Option<()>),
}

/// What the listening task does next.
#[derive(Debug)]
pub enum ListenAction {
    /// Wait for the next event.
    Wait,
    /// Wake a waiting accept if a session was opened, then wait for the next event.
    Delivered(Delivery),
    /// Answer the accept, then wait for the next event.
    Answer(Option<StreamRx>),
    /// End, and wake a waiting accept, so that it meets the end.
    Stop,
}

/// The running state of a listener. Its view is its sessions.
pub struct Listening {
    accepted_downloaders: HashMap<u32, StreamTx>,
    pending_downloaders: HashMap<u32, StreamTx>,
    accept_queue: VecDeque<StreamRx>,
    accept_queue_len_cap: usize,
    inactive_timeout: Duration,
}

impl View for Listening {
    type V = Sessions;

    closed spec fn view(&self) -> Sessions {
        Sessions {
            accepted: self.accepted_downloaders@,
            pending: self.pending_downloaders@,
            queue: self.accept_queue@,
            cap: self.accept_queue_len_cap as nat,
            timeout: self.inactive_timeout,
        }
    }
}

impl Listening {
    /// A listener without sessions.
    pub fn new(accept_queue_len_cap: usize, inactive_timeout: Duration) -> (listening: Listening)
        ensures
            listening@ == (Sessions {
                accepted: Map::empty(),
                pending: Map::empty(),
                queue: Seq::empty(),
                cap: accept_queue_len_cap as nat,
                timeout: inactive_timeout,
            }),
            listening@.wf(),
    {
        Listening {
            accepted_downloaders: HashMap::new(),
            pending_downloaders: HashMap::new(),
            accept_queue: VecDeque::new(),
            accept_queue_len_cap,
            inactive_timeout,
        }
    }

    /// What a frame with this ID from `remote_addr` is to the sessions.
    fn route(&self, id: u32, remote_addr: SocketAddr) -> (route: Route)
        ensures
            forall|datagram: Seq<u8>|
                is_frame(datagram) && frame_id(datagram) == id ==> route == #[trigger] self@.route(
                    datagram,
                    remote_addr,
                ),
    {
        if self.pending_downloaders.contains_key(&id) {
            // No window is granted to the peer until the session is accepted and its first push
            // is acknowledged, so the packet can be dropped until then.
            return Route::Waiting;
        }
        match self.accepted_downloaders.get(&id) {
            Some(stream_tx) => {
                if remote_addr == stream_tx.remote_addr {
                    Route::Accepted
                } else {
                    // It might be a replay from another source.
                    Route::Foreign
                }
            },
            None => Route::Unknown,
        }
    }

    /// Opens the session `id` for `packet` if the accept queue is below its limit.
    fn try_enqueue_accept(
        &mut self,
        id: u32,
        remote_addr: SocketAddr,
        packet: BufSlice,
        now: Instant,
    ) -> (delivery: Delivery)
        requires
            old(self)@.wf(),
            !old(self)@.pending.contains_key(id),
            !old(self)@.accepted.contains_key(id),
        ensures
            final(self)@.wf(),
            old(self)@.try_opened(final(self)@, id, remote_addr, packet@, now, delivery),
    {
        if self.accept_queue.len() < self.accept_queue_len_cap {
            let mut channel = NewChannel::new(1);

            // The peer's first retransmission timeout is long: its first push is acknowledged
            // sooner if the session finds it in its channel.
            let _ = channel.offer(packet);
            let (input_tx, input_rx) = channel.into_halves();

            let stream_rx = StreamRx { remote_addr, input_rx, id };
            let stream_tx = StreamTx { remote_addr, input_tx, last_recv: now };
            self.pending_downloaders.insert(id, stream_tx);
            self.accept_queue.push_back(stream_rx);
            proof {
                assert(self@.queue.last() == stream_rx);
                assert(offers(input_tx) =~= seq![(packet@, Some(true))]);
                lemma_opened_keeps_wf(old(self)@, self@, id, remote_addr, packet@, now);
            }
            Delivery::Opened
        } else {
            Delivery::Refused
        }
    }

    /// Takes up the outcome of offering a packet from `remote_addr` to the accepted session `id`.
    pub fn on_send_outcome(
        &mut self,
        id: u32,
        remote_addr: SocketAddr,
        now: Instant,
        outcome: SendOutcome,
    ) -> (delivery: Delivery)
        requires
            old(self)@.wf(),
            old(self)@.accepted.contains_key(id),
        ensures
            final(self)@.wf(),
            match outcome {
                SendOutcome::Sent => {
                    &&& final(self)@ == old(self)@
                    &&& delivery == Delivery::Forwarded
                },
                SendOutcome::Full(_) => {
                    &&& final(self)@ == old(self)@
                    &&& delivery == Delivery::Overflowed
                },
                SendOutcome::Closed(packet) => old(self)@.without(id).try_opened(
                    final(self)@,
                    id,
                    remote_addr,
                    packet@,
                    now,
                    delivery,
                ),
            },
    {
        match outcome {
            SendOutcome::Sent => Delivery::Forwarded,
            SendOutcome::Full(_) => Delivery::Overflowed,
            SendOutcome::Closed(packet) => {
                self.accepted_downloaders.remove(&id);
                proof {
                    assert(self@ =~= old(self)@.without(id));
                    lemma_accepted_keeps_wf(old(self)@, self@);
                }
                self.try_enqueue_accept(id, remote_addr, packet, now)
            },
        }
    }

    /// Offers a packet to the accepted session `id`, and to no other.
    fn offer(&mut self, id: u32, packet: BufSlice) -> (outcome: SendOutcome)
        requires
            old(self)@.wf(),
            old(self)@.accepted.contains_key(id),
        ensures
            final(self)@.wf(),
            final(self)@ == old(self)@.with_input_tx(id, final(self)@.accepted[id].input_tx),
            after_offer(
                old(self)@.accepted[id].input_tx,
                final(self)@.accepted[id].input_tx,
                packet@,
                outcome.taken(),
            ),
            outcome.hands_back(packet),
    {
        match self.accepted_downloaders.remove(&id) {
            Some(stream_tx) => {
                let mut stream_tx = stream_tx;
                let outcome = try_send(&mut stream_tx.input_tx, packet);
                self.accepted_downloaders.insert(id, stream_tx);
                proof {
                    assert(self@ =~= old(self)@.with_input_tx(id, stream_tx.input_tx));
                    lemma_accepted_keeps_wf(old(self)@, self@);
                }
                outcome
            },
            None => SendOutcome::Closed(packet),
        }
    }

    /// Takes up a datagram from `remote_addr`.
    pub fn on_datagram(
        &mut self,
        datagram: BufSlice,
        remote_addr: SocketAddr,
        now: Instant,
    ) -> (delivery: Delivery)
        requires
            old(self)@.wf(),
        ensures
            final(self)@.wf(),
            old(self)@.after_datagram(final(self)@, datagram@, remote_addr, now, delivery),
    {
        let mut slice = datagram;
        let id: u32 = match FrameHdr::from_slice(&mut slice) {
            Ok(frame_hdr) => frame_hdr.id(),
            Err(_) => return Delivery::Ignored,
        };
        let route = self.route(id, remote_addr);
        assert(route == self@.route(datagram@, remote_addr));
        match route {
            Route::Accepted => {
                let outcome = self.offer(id, slice);
                assert(self@.without(id) =~= old(self)@.without(id));
                self.on_send_outcome(id, remote_addr, now, outcome)
            },
            Route::Unknown => self.try_enqueue_accept(id, remote_addr, slice, now),
            _ => Delivery::Ignored,
        }
    }

    /// Takes up an accept: hands out the session at the front of the queue, if there is one.
    pub fn on_accept_request(&mut self) -> (stream_rx: Option<StreamRx>)
        requires
            old(self)@.wf(),
        ensures
            final(self)@.wf(),
            final(self)@ == old(self)@.accept_front(),
            stream_rx == old(self)@.front(),
    {
        match self.accept_queue.pop_front() {
            Some(stream_rx) => {
                proof {
                    assert(old(self)@.is_pending(old(self)@.queue[0]));
                }
                match self.pending_downloaders.remove(&stream_rx.id) {
                    Some(stream_tx) => {
                        self.accepted_downloaders.insert(stream_rx.id, stream_tx);
                    },
                    None => {},
                }
                proof {
                    assert(self@ =~= old(self)@.accept_front());
                    lemma_accept_front_keeps_wf(old(self)@);
                }
                Some(stream_rx)
            },
            None => None,
        }
    }

    /// Removes the accepted sessions that have lived for the timeout.
    pub fn on_tick(&mut self, now: Instant)
        requires
            old(self)@.wf(),
        ensures
            final(self)@.wf(),
            final(self)@ == old(self)@.cleaned(now),
    {
        let mut to_remove: Vec<u32> = Vec::new();
        for (id, stream_tx) in walked: self.accepted_downloaders.iter()
            invariant
                *self == *old(self),
                forall|i: int|
                    0 <= i < to_remove@.len() ==> self@.accepted.contains_key(#[trigger] to_remove@[i])
                        && self@.is_inactive(to_remove@[i], now),
                forall|i: int|
                    0 <= i < walked.index() && self@.is_inactive(*walked.seq()[i].0, now)
                        ==> to_remove@.contains(*(#[trigger] walked.seq()[i]).0),
        {
            let ghost before = to_remove@;
            if is_timed_out(stream_tx.last_recv, self.inactive_timeout, now) {
                to_remove.push(*id);
                assert(to_remove@[before.len() as int] == *id);
            }
            assert forall|other: u32| before.contains(other) implies to_remove@.contains(other) by {
                let i = choose|i: int| 0 <= i < before.len() && before[i] == other;
                assert(to_remove@[i] == other);
            }
        }
        for i in 0..to_remove.len()
            invariant
                self@ == (Sessions { accepted: self@.accepted, ..old(self)@ }),
                forall|id: u32|
                    #![trigger self@.accepted.contains_key(id)]
                    self@.accepted.contains_key(id) <==> old(self)@.accepted.contains_key(id)
                        && !to_remove@.take(i as int).contains(id),
                forall|id: u32| #[trigger]
                    self@.accepted.contains_key(id) ==> self@.accepted[id] == old(
                        self,
                    )@.accepted[id],
        {
            let ghost before = self@;
            self.accepted_downloaders.remove(&to_remove[i]);
            proof {
                assert(self@ =~= before.without(to_remove@[i as int]));
                assert(to_remove@.take(i + 1) =~= to_remove@.take(i as int).push(to_remove@[i as int]));
                assert forall|id: u32| to_remove@.take(i + 1).contains(id) <==> (to_remove@.take(
                    i as int,
                ).contains(id) || id == to_remove@[i as int]) by {
                    broadcast use vstd::seq_lib::group_seq_properties;

                }
            }
        }
        proof {
            assert(to_remove@.take(to_remove@.len() as int) =~= to_remove@);
            assert(self@.accepted =~= old(self)@.cleaned(now).accepted);
            lemma_accepted_keeps_wf(old(self)@, self@);
        }
    }

    /// Takes up an event, and says what to do next.
    pub fn step(&mut self, event: ListenEvent) -> (action: ListenAction)
        requires
            old(self)@.wf(),
        ensures
            final(self)@.wf(),
            old(self)@.after_event(final(self)@, event, action),
    {
        match event {
            ListenEvent::Tick { now } => {
                self.on_tick(now);
                ListenAction::Wait
            },
            ListenEvent::Received { datagram: Some((datagram, remote_addr)), now } => {
                ListenAction::Delivered(self.on_datagram(datagram, remote_addr, now))
            },
            ListenEvent::AcceptRequested(Some(())) => {
                ListenAction::Answer(self.on_accept_request())
            },
            // The listener is dropped, or its socket fails.
            ListenEvent::Received { datagram: None, now: _ } => ListenAction::Stop,
            ListenEvent::AcceptRequested(None) => ListenAction::Stop,
        }
    }
}

/// What an accept does next.
#[derive(Debug)]
pub enum AcceptStep<L> {
    /// There is a session: build its stream.
    Accepted(StreamRx),
    /// Wait until a session is opened, then ask again.
    Retry,
    /// The listener is over.
    Failed(AcceptError<L>),
}

/// What an accept does next on this answer of the listener; an error says that the listener is
/// over.
pub open spec fn accept_step<L, E>(response: Result<Option<StreamRx>, E>) -> AcceptStep<L> {
    match response {
        Ok(Some(stream_rx)) => AcceptStep::Accepted(stream_rx),
        Ok(None) => AcceptStep::Retry,
        Err(_) => AcceptStep::Failed(AcceptError::UdpError),
    }
}

/// Takes up the listener's answer to an accept; an error says that the listener is over.
pub fn on_accept_response<L, E>(response: Result<Option<StreamRx>, E>) -> (step: AcceptStep<L>)
    ensures
        step == accept_step::<L, E>(response),
        step == (match response {
            Ok(Some(stream_rx)) => AcceptStep::<L>::Accepted(stream_rx),
            Ok(None) => AcceptStep::Retry,
            Err(_) => AcceptStep::Failed(AcceptError::UdpError),
        }),
{
    match response {
        Ok(Some(stream_rx)) => AcceptStep::Accepted(stream_rx),
        Ok(None) => AcceptStep::Retry,
        Err(_) => AcceptStep::Failed(AcceptError::UdpError),
    }
}

impl StreamRx {
    /// `builder` holds the parts of the stream of this session.
    pub open spec fn becomes<K, T>(
        self,
        builder: ArdlStreamBuilder<K, T>,
        listener: K,
        flush_interval: Duration,
        mtu: usize,
    ) -> bool {
        &&& builder.udp_endpoint == (UdpEndpoint::Listener {
            listener,
            remote_addr: self.remote_addr,
        })
        &&& builder.flush_interval == flush_interval
        &&& builder.mtu == mtu
        &&& builder.socket_recv_task is None
        &&& builder.input_rx == self.input_rx
        &&& builder.id == self.id
    }

    /// The parts of the stream of this session, which shares the socket `listener`.
    pub fn into_stream_builder<K, T>(
        self,
        listener: K,
        flush_interval: Duration,
        mtu: usize,
    ) -> (builder: ArdlStreamBuilder<K, T>)
        ensures
            self.becomes(builder, listener, flush_interval, mtu),
            builder == (ArdlStreamBuilder::<K, T> {
                udp_endpoint: UdpEndpoint::Listener { listener, remote_addr: self.remote_addr },
                flush_interval,
                mtu,
                socket_recv_task: None,
                input_rx: self.input_rx,
                id: self.id,
            }),
    {
        ArdlStreamBuilder {
            udp_endpoint: UdpEndpoint::Listener { listener, remote_addr: self.remote_addr },
            flush_interval,
            mtu,
            socket_recv_task: None,
            input_rx: self.input_rx,
            id: self.id,
        }
    }
}

/// A change of the accepted sessions alone keeps the sessions well formed, unless it adds an ID.
pub(crate) proof fn lemma_accepted_keeps_wf(pre: Sessions, post: Sessions)
    requires
        pre.wf(),
        post == (Sessions { accepted: post.accepted, ..pre }),
        forall|id: u32| #[trigger]
            post.accepted.contains_key(id) ==> pre.accepted.contains_key(id),
    ensures
        post.wf(),
{
    assert forall|i: int| 0 <= i < post.queue.len() implies post.is_pending(
        #[trigger] post.queue[i],
    ) by {
        assert(pre.is_pending(pre.queue[i]));
    }
    assert forall|id: u32| #[trigger] post.pending.contains_key(id) implies exists|i: int|
        0 <= i < post.queue.len() && (#[trigger] post.queue[i]).id == id by {
        assert(pre.pending.contains_key(id));
        let i = choose|i: int| 0 <= i < pre.queue.len() && (#[trigger] pre.queue[i]).id == id;
        assert(post.queue[i].id == id);
    }
}

/// A new session keeps the sessions well formed.
pub(crate) proof fn lemma_opened_keeps_wf(
    pre: Sessions,
    post: Sessions,
    id: u32,
    remote_addr: SocketAddr,
    body: Seq<u8>,
    now: Instant,
)
    requires
        pre.wf(),
        pre.queue.len() < pre.cap,
        !pre.pending.contains_key(id),
        !pre.accepted.contains_key(id),
        pre.opened(post, id, remote_addr, body, now),
    ensures
        post.wf(),
{
    assert forall|other: u32| #[trigger] post.pending.contains_key(other) implies exists|i: int|
        0 <= i < post.queue.len() && (#[trigger] post.queue[i]).id == other by {
        if other == id {
            assert(post.queue[post.queue.len() - 1].id == id);
        } else {
            assert(pre.pending.contains_key(other));
            let i = choose|i: int|
                0 <= i < pre.queue.len() && (#[trigger] pre.queue[i]).id == other;
            assert(post.queue[i] == pre.queue[i]);
        }
    }
    assert forall|i: int| 0 <= i < post.queue.len() implies post.is_pending(
        #[trigger] post.queue[i],
    ) by {
        if i < pre.queue.len() {
            assert(pre.is_pending(pre.queue[i]));
        }
    }
    assert forall|i: int, j: int| 0 <= i < j < post.queue.len() implies (
    #[trigger] post.queue[i]).id != (#[trigger] post.queue[j]).id by {
        assert(pre.is_pending(pre.queue[i]));
    }
    assert forall|other: u32| #[trigger] post.pending.contains_key(
        other,
    ) implies !post.accepted.contains_key(other) by {
        assert(other == id || pre.pending.contains_key(other));
    }
}

/// A channel that was offered one packet and took it was given that packet.
pub(crate) proof fn lemma_first_put_in(body: Seq<u8>)
    ensures
        put_in(seq![(body, Some(true))]) == seq![body],
{
    let empty = Seq::<(Seq<u8>, Option<bool>)>::empty();
    lemma_put_in_push(empty, body, Some(true));
    assert(empty.push((body, Some(true))) =~= seq![(body, Some(true))]);
    assert(put_in(empty).push(body) =~= seq![body]);
}

/// An accept keeps the sessions well formed.
pub(crate) proof fn lemma_accept_front_keeps_wf(sessions: Sessions)
    requires
        sessions.wf(),
    ensures
        sessions.accept_front().wf(),
{
    if sessions.queue.len() > 0 {
        let post = sessions.accept_front();
        let id = sessions.queue[0].id;
        assert(sessions.is_pending(sessions.queue[0]));
        assert forall|i: int| 0 <= i < post.queue.len() implies post.is_pending(
            #[trigger] post.queue[i],
        ) by {
            assert(post.queue[i] == sessions.queue[i + 1]);
            assert(sessions.is_pending(sessions.queue[i + 1]));
        }
        assert forall|i: int, j: int| 0 <= i < j < post.queue.len() implies (
        #[trigger] post.queue[i]).id != (#[trigger] post.queue[j]).id by {
            assert(post.queue[i] == sessions.queue[i + 1]);
            assert(post.queue[j] == sessions.queue[j + 1]);
        }
        assert forall|other: u32| #[trigger] post.pending.contains_key(other) implies exists|
            i: int,
        | 0 <= i < post.queue.len() && (#[trigger] post.queue[i]).id == other by {
            let i = choose|i: int|
                0 <= i < sessions.queue.len() && (#[trigger] sessions.queue[i]).id == other;
            assert(post.queue[i - 1] == sessions.queue[i]);
        }
    }
}

/// A frame with the ID of an accepted session, from the address of that session, is offered to
/// that session: its body is put into the session's channel, or dropped because that is full, and
/// either way the session stays accepted and nothing else changes. Only a session that has been
/// offered the body and is closed gives up its place.
pub proof fn law_frame_reaches_its_session(
    sessions: Sessions,
    post: Sessions,
    id: u32,
    body: Seq<u8>,
    remote_addr: SocketAddr,
    now: Instant,
    delivery: Delivery,
)
    requires
        sessions.wf(),
        sessions.accepted.contains_key(id),
        sessions.accepted[id].remote_addr == remote_addr,
        sessions.after_datagram(post, frame(id, body), remote_addr, now, delivery),
    ensures
        ({
            let before = sessions.accepted[id].input_tx;
            let after = post.accepted[id].input_tx;
            match delivery {
                Delivery::Ignored => false,
                Delivery::Forwarded => {
                    &&& post == sessions.with_input_tx(id, after)
                    &&& put_in(offers(after)) == put_in(offers(before)).push(body)
                },
                Delivery::Overflowed => {
                    &&& post == sessions.with_input_tx(id, after)
                    &&& offers(after) == offers(before).push((body, Some(false)))
                    &&& put_in(offers(after)) == put_in(offers(before))
                },
                Delivery::Opened | Delivery::Refused => exists|closed: Sender<BufSlice>| #[trigger]
                    after_offer(before, closed, body, None),
            }
        }),
{
    law_decode_of_encode(id, body);
    let before = sessions.accepted[id].input_tx;
    lemma_put_in_push(offers(before), body, Some(delivery == Delivery::Forwarded));
}

/// A frame with the ID of an accepted session from any other address is offered to no session,
/// and changes nothing.
pub proof fn law_foreign_frame_is_kept_out(
    sessions: Sessions,
    post: Sessions,
    id: u32,
    body: Seq<u8>,
    remote_addr: SocketAddr,
    now: Instant,
    delivery: Delivery,
)
    requires
        sessions.wf(),
        sessions.accepted.contains_key(id),
        sessions.accepted[id].remote_addr != remote_addr,
        sessions.after_datagram(post, frame(id, body), remote_addr, now, delivery),
    ensures
        post == sessions,
        delivery == Delivery::Ignored,
{
    law_decode_of_encode(id, body);
    if sessions.pending.contains_key(id) {
        assert(!sessions.accepted.contains_key(id));
    }
}

/// A datagram touches no session but the one with its ID: every other session keeps its place,
/// its address and all that its channel has been offered.
pub proof fn law_datagram_touches_no_other_session(
    sessions: Sessions,
    post: Sessions,
    datagram: Seq<u8>,
    remote_addr: SocketAddr,
    now: Instant,
    delivery: Delivery,
    other: u32,
)
    requires
        sessions.after_datagram(post, datagram, remote_addr, now, delivery),
        !is_frame(datagram) || frame_id(datagram) != other,
    ensures
        post.pending.contains_key(other) == sessions.pending.contains_key(other),
        post.accepted.contains_key(other) == sessions.accepted.contains_key(other),
        sessions.pending.contains_key(other) ==> post.pending[other] == sessions.pending[other],
        sessions.accepted.contains_key(other) ==> post.accepted[other] == sessions.accepted[other],
{
}

/// What is dropped leaves no trace: a datagram too short for a header, one for a session that is
/// still waiting, and one that would open a session while the queue is full, are offered to no
/// session and change nothing.
pub proof fn law_dropped_datagram_leaves_no_trace(
    sessions: Sessions,
    post: Sessions,
    datagram: Seq<u8>,
    remote_addr: SocketAddr,
    now: Instant,
    delivery: Delivery,
)
    requires
        sessions.after_datagram(post, datagram, remote_addr, now, delivery),
        ({
            ||| !is_frame(datagram)
            ||| sessions.pending.contains_key(frame_id(datagram))
            ||| !sessions.accepted.contains_key(frame_id(datagram)) && sessions.queue.len()
                >= sessions.cap
        }),
    ensures
        post == sessions,
        delivery == Delivery::Ignored || delivery == Delivery::Refused,
{
}

/// The listening task ends exactly when its socket fails or nobody is left to accept a session:
/// no datagram, no tick and no accept ends it. Its end touches no session.
pub proof fn law_listening_ends(
    sessions: Sessions,
    post: Sessions,
    event: ListenEvent,
    action: ListenAction,
)
    requires
        sessions.after_event(post, event, action),
    ensures
        action == ListenAction::Stop <==> match event {
            ListenEvent::Tick { .. } => false,
            ListenEvent::Received { datagram, .. } => datagram is None,
            ListenEvent::AcceptRequested(request) => request is None,
        },
        action == ListenAction::Stop ==> post == sessions,
{
}

/// There are as many pending sessions as the accept queue is long, and so never more than its
/// limit.
pub proof fn law_pending_sessions_are_bounded(sessions: Sessions)
    requires
        sessions.wf(),
    ensures
        sessions.pending.dom().finite(),
        sessions.pending.len() == sessions.queue.len(),
        sessions.pending.len() <= sessions.cap,
{
    let ids = sessions.queue.map_values(|rx: StreamRx| rx.id);
    assert(ids.no_duplicates());
    ids.unique_seq_to_set();
    vstd::seq_lib::seq_to_set_is_finite(ids);
    assert forall|id: u32| ids.to_set().contains(id) <==> sessions.pending.dom().contains(id) by {
        if sessions.pending.contains_key(id) {
            let i = choose|i: int|
                0 <= i < sessions.queue.len() && (#[trigger] sessions.queue[i]).id == id;
            assert(ids[i] == id);
        }
        if ids.to_set().contains(id) {
            let i = choose|i: int| 0 <= i < ids.len() && ids[i] == id;
            assert(sessions.is_pending(sessions.queue[i]));
        }
    }
    assert(ids.to_set() =~= sessions.pending.dom());
}

/// Sessions are accepted in the order in which they were opened: `n` accepts take the first `n`
/// of the queue, and each of them is then accepted with the channel that it had while pending.
pub proof fn law_accepts_are_in_order(sessions: Sessions, n: nat)
    requires
        sessions.wf(),
        n <= sessions.queue.len(),
    ensures
        sessions.accept_many(n).wf(),
        sessions.accept_many(n).queue == sessions.queue.skip(n as int),
        forall|i: int|
            0 <= i < n ==> {
                let id = (#[trigger] sessions.queue[i]).id;
                &&& sessions.accept_many(n).accepted.contains_key(id)
                &&& sessions.accept_many(n).accepted[id] == sessions.pending[id]
            },
        forall|i: int|
            n <= i < sessions.queue.len() ==> {
                let id = (#[trigger] sessions.queue[i]).id;
                &&& sessions.accept_many(n).pending.contains_key(id)
                &&& sessions.accept_many(n).pending[id] == sessions.pending[id]
            },
    decreases n,
{
    if n == 0 {
        assert forall|i: int| 0 <= i < sessions.queue.len() implies sessions.pending.contains_key(
            (#[trigger] sessions.queue[i]).id,
        ) by {
            assert(sessions.is_pending(sessions.queue[i]));
        }
        assert(sessions.queue.skip(0) =~= sessions.queue);
    } else {
        let before = sessions.accept_many((n - 1) as nat);
        law_accepts_are_in_order(sessions, (n - 1) as nat);
        lemma_accept_front_keeps_wf(before);
        assert(before.queue[0] == sessions.queue[n - 1]);
        assert(before.queue.skip(1) =~= sessions.queue.skip(n as int));
    }
}

/// A session that a datagram opened is handed out by the accept that follows those of the
/// sessions queued before it, and is then accepted under its ID, for its address, with its
/// channel. What the accepted stream finds there first is the datagram's body.
pub proof fn law_opened_session_is_accepted(
    pre: Sessions,
    post: Sessions,
    id: u32,
    remote_addr: SocketAddr,
    body: Seq<u8>,
    now: Instant,
)
    requires
        post.wf(),
        pre.opened(post, id, remote_addr, body, now),
    ensures
        post.accept_many(pre.queue.len()).queue[0] == post.queue.last(),
        ({
            let sessions = post.accept_many(pre.queue.len() + 1);
            &&& sessions.accepted.contains_key(id)
            &&& sessions.accepted[id].remote_addr == remote_addr
            &&& same_channel(sessions.accepted[id].input_tx, post.queue.last().input_rx)
            &&& put_in(offers(sessions.accepted[id].input_tx)) == seq![body]
        }),
{
    law_accepts_are_in_order(post, pre.queue.len());
    law_accepts_are_in_order(post, pre.queue.len() + 1);
    assert(post.queue[pre.queue.len() as int].id == id);
    lemma_first_put_in(body);
}

/// A cleaning takes an ID out of use only to free it: the next frame with the ID of a removed
/// session is one of an unknown session again. It touches no active and no pending session.
pub proof fn law_cleaning_frees_inactive_ids(
    sessions: Sessions,
    id: u32,
    body: Seq<u8>,
    remote_addr: SocketAddr,
    now: Instant,
)
    requires
        sessions.wf(),
        sessions.accepted.contains_key(id),
    ensures
        sessions.is_inactive(id, now) ==> sessions.cleaned(now).route(frame(id, body), remote_addr)
            == Route::Unknown,
        !sessions.is_inactive(id, now) ==> sessions.cleaned(now).route(frame(id, body), remote_addr)
            == sessions.route(frame(id, body), remote_addr),
        sessions.cleaned(now).pending == sessions.pending,
        sessions.cleaned(now).queue == sessions.queue,
        sessions.cleaned(now).cleaned(now) == sessions.cleaned(now),
{
    law_decode_of_encode(id, body);
    assert(sessions.cleaned(now).cleaned(now) =~= sessions.cleaned(now));
}

/// What one side uploads, the other side's session is given: the datagram of a packet of the
/// stream `id` is offered to the accepted session `id` of its sender as that packet, and is put
/// into its channel unless that is full or closed.
pub proof fn law_uploaded_packet_reaches_its_session<S, P>(
    uploading: UploadState,
    packet: Vec<u8>,
    sessions: Sessions,
    post: Sessions,
    id: u32,
    remote_addr: SocketAddr,
    now: Instant,
    delivery: Delivery,
)
    requires
        uploading.phase == Phase::Outputting,
        uploading.is_clean(frame_hdr_bytes(id)),
        uploading.datagram.len() + packet@.len() <= uploading.cap,
        sessions.wf(),
        sessions.accepted.contains_key(id),
        sessions.accepted[id].remote_addr == remote_addr,
        sessions.after_datagram(
            post,
            uploading.next(UploadEvent::<S, P>::Output(LayerOutput::Packet(packet))).0.datagram,
            remote_addr,
            now,
            delivery,
        ),
    ensures
        sessions.offered(post, id, remote_addr, packet@, now, delivery),
        delivery == Delivery::Forwarded ==> put_in(offers(post.accepted[id].input_tx)) == put_in(
            offers(sessions.accepted[id].input_tx),
        ).push(packet@),
{
    law_packets_are_framed::<S, P>(uploading, id, packet);
    law_decode_of_encode(id, packet@);
    law_frame_reaches_its_session(sessions, post, id, packet@, remote_addr, now, delivery);
}

/// A frame whose ID is neither waiting nor accepted opens a session, from whatever address and
/// with whatever body, if fewer sessions wait than the limit: the session waits at the back of
/// the queue, for that address, with the body in its channel, and all other sessions stay as they
/// were. With the queue at its limit nothing changes.
pub proof fn law_unknown_frame_opens_a_session(
    sessions: Sessions,
    post: Sessions,
    id: u32,
    body: Seq<u8>,
    remote_addr: SocketAddr,
    now: Instant,
    delivery: Delivery,
)
    requires
        !sessions.pending.contains_key(id),
        !sessions.accepted.contains_key(id),
        sessions.after_datagram(post, frame(id, body), remote_addr, now, delivery),
    ensures
        sessions.queue.len() < sessions.cap ==> {
            let tx = post.pending[id];
            let rx = post.queue[sessions.queue.len() as int];
            &&& delivery == Delivery::Opened
            &&& post.pending.contains_key(id)
            &&& post.queue.len() == sessions.queue.len() + 1
            &&& rx.id == id
            &&& rx.remote_addr == remote_addr
            &&& tx.remote_addr == remote_addr
            &&& tx.last_recv == now
            &&& same_channel(tx.input_tx, rx.input_rx)
            &&& channel_bound(tx.input_tx) == 1
            &&& offers(tx.input_tx) == seq![(body, Some(true))]
        },
        sessions.queue.len() >= sessions.cap ==> {
            &&& delivery == Delivery::Refused
            &&& post == sessions
        },
        forall|i: int|
            0 <= i < sessions.queue.len() ==> #[trigger] post.queue[i] == sessions.queue[i],
        forall|other: u32|
            other != id ==> {
                &&& #[trigger] post.pending.contains_key(other) == sessions.pending.contains_key(other)
                &&& post.pending[other] == sessions.pending[other]
            },
        post.accepted == sessions.accepted,
        post.cap == sessions.cap,
        post.timeout == sessions.timeout,
{
    law_decode_of_encode(id, body);
}

/// A frame that finds its session closed takes its place: the closed session is gone, and if
/// fewer sessions wait than the limit, a new one for the same address waits at the back of the
/// queue with the body in its channel. All other sessions stay as they were.
pub proof fn law_closed_session_is_replaced(
    sessions: Sessions,
    post: Sessions,
    id: u32,
    body: Seq<u8>,
    remote_addr: SocketAddr,
    now: Instant,
    delivery: Delivery,
)
    requires
        sessions.wf(),
        sessions.accepted.contains_key(id),
        sessions.accepted[id].remote_addr == remote_addr,
        sessions.after_datagram(post, frame(id, body), remote_addr, now, delivery),
        delivery != Delivery::Forwarded,
        delivery != Delivery::Overflowed,
    ensures
        !post.accepted.contains_key(id),
        delivery == Delivery::Opened <==> sessions.queue.len() < sessions.cap,
        delivery == Delivery::Refused <==> sessions.queue.len() >= sessions.cap,
        delivery == Delivery::Opened ==> {
            let tx = post.pending[id];
            let rx = post.queue[sessions.queue.len() as int];
            &&& post.pending.contains_key(id)
            &&& post.queue.len() == sessions.queue.len() + 1
            &&& rx.id == id
            &&& rx.remote_addr == remote_addr
            &&& tx.remote_addr == remote_addr
            &&& tx.last_recv == now
            &&& same_channel(tx.input_tx, rx.input_rx)
            &&& channel_bound(tx.input_tx) == 1
            &&& offers(tx.input_tx) == seq![(body, Some(true))]
        },
        delivery == Delivery::Refused ==> {
            &&& !post.pending.contains_key(id)
            &&& post.queue.len() == sessions.queue.len()
        },
        forall|i: int|
            0 <= i < sessions.queue.len() ==> #[trigger] post.queue[i] == sessions.queue[i],
        forall|other: u32|
            other != id ==> {
                &&& #[trigger] post.pending.contains_key(other) == sessions.pending.contains_key(other)
                &&& post.pending[other] == sessions.pending[other]
            },
        forall|other: u32|
            other != id ==> {
                &&& #[trigger] post.accepted.contains_key(other) == sessions.accepted.contains_key(
                    other,
                )
                &&& post.accepted[other] == sessions.accepted[other]
            },
        post.cap == sessions.cap,
        post.timeout == sessions.timeout,
{
    law_decode_of_encode(id, body);
    if sessions.pending.contains_key(id) {
        assert(!sessions.accepted.contains_key(id));
    }
}

/// A frame that its session takes, or has no room for, changes nothing but the record of what the
/// session's channel has been offered, by one entry: the session keeps its channel, its address
/// and its age, and no other session changes.
pub proof fn law_offer_changes_only_the_record(
    sessions: Sessions,
    post: Sessions,
    id: u32,
    body: Seq<u8>,
    remote_addr: SocketAddr,
    now: Instant,
    delivery: Delivery,
)
    requires
        sessions.after_datagram(post, frame(id, body), remote_addr, now, delivery),
        delivery == Delivery::Forwarded || delivery == Delivery::Overflowed,
    ensures
        sessions.accepted.contains_key(id),
        sessions.accepted[id].remote_addr == remote_addr,
        post.accepted.contains_key(id),
        ({
            let before = sessions.accepted[id];
            let after = post.accepted[id];
            &&& after.remote_addr == before.remote_addr
            &&& after.last_recv == before.last_recv
            &&& channel_bound(after.input_tx) == channel_bound(before.input_tx)
            &&& forall|rx: Receiver<BufSlice>| #[trigger]
                same_channel(after.input_tx, rx) == same_channel(before.input_tx, rx)
            &&& offers(after.input_tx) == offers(before.input_tx).push(
                (body, Some(delivery == Delivery::Forwarded)),
            )
        }),
        forall|other: u32|
            other != id ==> {
                &&& #[trigger] post.accepted.contains_key(other) == sessions.accepted.contains_key(
                    other,
                )
                &&& post.accepted[other] == sessions.accepted[other]
            },
        post.pending == sessions.pending,
        post.queue == sessions.queue,
        post.cap == sessions.cap,
        post.timeout == sessions.timeout,
{
    law_decode_of_encode(id, body);
}

/// An accept takes the session at the front of the queue, and that one only: it was waiting and
/// is accepted from then on, as it was, and the sessions behind it move up by one place. Every
/// other session stays as it was. An accept that finds the queue empty changes nothing.
pub proof fn law_accept_moves_only_the_front(sessions: Sessions)
    requires
        sessions.wf(),
    ensures
        sessions.queue.len() == 0 ==> {
            &&& sessions.front() is None
            &&& sessions.accept_front() == sessions
        },
        sessions.queue.len() > 0 ==> {
            let id = sessions.queue[0].id;
            let post = sessions.accept_front();
            &&& sessions.front() == Some(sessions.queue[0])
            &&& sessions.pending.contains_key(id)
            &&& sessions.pending[id].remote_addr == sessions.queue[0].remote_addr
            &&& same_channel(sessions.pending[id].input_tx, sessions.queue[0].input_rx)
            &&& !sessions.accepted.contains_key(id)
            &&& post.accepted.contains_key(id)
            &&& post.accepted[id] == sessions.pending[id]
            &&& !post.pending.contains_key(id)
            &&& post.queue.len() == sessions.queue.len() - 1
            &&& forall|i: int|
                0 <= i < post.queue.len() ==> #[trigger] post.queue[i] == sessions.queue[i + 1]
            &&& forall|other: u32|
                other != id ==> {
                    &&& #[trigger] post.accepted.contains_key(other)
                        == sessions.accepted.contains_key(other)
                    &&& post.accepted[other] == sessions.accepted[other]
                }
            &&& forall|other: u32|
                other != id ==> {
                    &&& #[trigger] post.pending.contains_key(other)
                        == sessions.pending.contains_key(other)
                    &&& post.pending[other] == sessions.pending[other]
                }
            &&& post.cap == sessions.cap
            &&& post.timeout == sessions.timeout
        },
{
    if sessions.queue.len() > 0 {
        assert(sessions.is_pending(sessions.queue[0]));
    }
}

/// A cleaning removes an accepted session exactly when the timeout has passed since its opening.
/// The sessions that stay are as they were, and those that wait are not touched.
pub proof fn law_cleaning_removes_exactly_the_old(sessions: Sessions, id: u32, now: Instant)
    ensures
        ({
            let age = instant_nanos(now) - instant_nanos(sessions.accepted[id].last_recv);
            let timeout = duration_nanos(sessions.timeout);
            let post = sessions.cleaned(now);
            &&& post.accepted.contains_key(id) <==> sessions.accepted.contains_key(id) && timeout > 0
                && age < timeout
            &&& post.accepted.contains_key(id) ==> post.accepted[id] == sessions.accepted[id]
            &&& post.pending == sessions.pending
            &&& post.queue == sessions.queue
            &&& post.cap == sessions.cap
            &&& post.timeout == sessions.timeout
        }),
{
}

/// An accepted session leaves only for one of two reasons: the timeout has passed at a tick, or a
/// frame of its own, from its own address, has been offered to it and found it closed. As long as
/// it stays, it keeps its address, its age and its channel.
pub proof fn law_accepted_session_stays(
    sessions: Sessions,
    post: Sessions,
    event: ListenEvent,
    action: ListenAction,
    id: u32,
)
    requires
        sessions.wf(),
        sessions.after_event(post, event, action),
        sessions.accepted.contains_key(id),
    ensures
        !post.accepted.contains_key(id) ==> match event {
            ListenEvent::Tick { now } => {
                ||| duration_nanos(sessions.timeout) == 0
                ||| instant_nanos(now) - instant_nanos(sessions.accepted[id].last_recv)
                    >= duration_nanos(sessions.timeout)
            },
            ListenEvent::Received { datagram: Some((datagram, remote_addr)), .. } => {
                &&& remote_addr == sessions.accepted[id].remote_addr
                &&& datagram@ == frame(id, frame_body(datagram@))
                &&& exists|closed: Sender<BufSlice>| #[trigger]
                    offers(closed) == offers(sessions.accepted[id].input_tx).push(
                        (frame_body(datagram@), None),
                    )
            },
            _ => false,
        },
        post.accepted.contains_key(id) ==> {
            let before = sessions.accepted[id];
            let after = post.accepted[id];
            &&& after.remote_addr == before.remote_addr
            &&& after.last_recv == before.last_recv
            &&& channel_bound(after.input_tx) == channel_bound(before.input_tx)
            &&& forall|rx: Receiver<BufSlice>| #[trigger]
                same_channel(after.input_tx, rx) == same_channel(before.input_tx, rx)
        },
{
    match event {
        ListenEvent::Received { datagram: Some((datagram, remote_addr)), now } => {
            if is_frame(datagram@) {
                law_encode_of_decode(datagram@);
                if !post.accepted.contains_key(id) {
                    let input_tx = sessions.accepted[id].input_tx;
                    let body = frame_body(datagram@);
                    let closed = choose|closed: Sender<BufSlice>| #[trigger]
                        after_offer(input_tx, closed, body, None);
                    assert(offers(closed) == offers(input_tx).push((body, None)));
                }
            }
        },
        ListenEvent::AcceptRequested(Some(())) => {
            if sessions.queue.len() > 0 {
                assert(sessions.is_pending(sessions.queue[0]));
            }
        },
        _ => {},
    }
}

/// A session comes to wait only by a frame with its ID, and comes to be accepted only by an accept
/// that finds it at the front of the queue; and until that accept, it stays as it was opened.
pub proof fn law_sessions_come_by_frames_and_accepts(
    sessions: Sessions,
    post: Sessions,
    event: ListenEvent,
    action: ListenAction,
    id: u32,
)
    requires
        sessions.wf(),
        sessions.after_event(post, event, action),
    ensures
        post.pending.contains_key(id) && !sessions.pending.contains_key(id) ==> {
            &&& action == ListenAction::Delivered(Delivery::Opened)
            &&& event matches ListenEvent::Received { datagram: Some((datagram, remote_addr)), now }
            &&& datagram@ == frame(id, frame_body(datagram@))
            &&& post.pending[id].remote_addr == remote_addr
            &&& post.pending[id].last_recv == now
        },
        post.accepted.contains_key(id) && !sessions.accepted.contains_key(id) ==> {
            &&& event matches ListenEvent::AcceptRequested(Some(_))
            &&& action == ListenAction::Answer(Some(sessions.queue[0]))
            &&& sessions.queue.len() > 0
            &&& sessions.queue[0].id == id
            &&& post.accepted[id] == sessions.pending[id]
        },
        sessions.pending.contains_key(id) && post.pending.contains_key(id) ==> post.pending[id]
            == sessions.pending[id],
        sessions.pending.contains_key(id) && !post.pending.contains_key(id) ==> {
            &&& event matches ListenEvent::AcceptRequested(Some(_))
            &&& post.accepted.contains_key(id)
            &&& post.accepted[id] == sessions.pending[id]
        },
{
    match event {
        ListenEvent::Received { datagram: Some((datagram, _)), .. } => {
            if is_frame(datagram@) {
                law_encode_of_decode(datagram@);
            }
        },
        ListenEvent::AcceptRequested(Some(())) => {
            if sessions.queue.len() > 0 {
                assert(sessions.is_pending(sessions.queue[0]));
            }
        },
        _ => {},
    }
}

/// Every event is answered in kind: a tick with waiting, a datagram with what became of it, and an
/// accept with the session at the front of the queue, or with none if none waits. The limit of
/// the queue and the timeout stay what they were.
pub proof fn law_every_event_is_answered_in_kind(
    sessions: Sessions,
    post: Sessions,
    event: ListenEvent,
    action: ListenAction,
)
    requires
        sessions.after_event(post, event, action),
    ensures
        post.cap == sessions.cap,
        post.timeout == sessions.timeout,
        match event {
            ListenEvent::Tick { .. } => action == ListenAction::Wait,
            ListenEvent::Received { datagram, .. } => {
                &&& datagram is Some <==> action is Delivered
                &&& datagram is None <==> action == ListenAction::Stop
            },
            ListenEvent::AcceptRequested(None) => action == ListenAction::Stop,
            ListenEvent::AcceptRequested(Some(())) => {
                &&& sessions.queue.len() == 0 ==> action == ListenAction::Answer(None)
                &&& sessions.queue.len() > 0 ==> action == ListenAction::Answer(
                    Some(sessions.queue[0]),
                )
            },
        },
{
}

/// An accept that asks once more until it is answered with a session gets the one at the front of
/// the queue, and asks again exactly while the queue is empty.
pub proof fn law_accept_gets_the_front_session<L, E>(sessions: Sessions, error: E)
    ensures
        sessions.queue.len() > 0 ==> accept_step::<L, E>(Ok(sessions.front()))
            == AcceptStep::<L>::Accepted(sessions.queue[0]),
        sessions.queue.len() == 0 ==> accept_step::<L, E>(Ok(sessions.front()))
            == AcceptStep::<L>::Retry,
        accept_step::<L, E>(Err(error)) == AcceptStep::Failed(AcceptError::<L>::UdpError),
{
}

/// The stream of an accepted session sends to the session's peer under the session's ID, through
/// the listener's socket, reads what the session is given, and has no receiving task of its own.
pub proof fn law_stream_of_a_session_answers_its_peer<K, T>(
    stream_rx: StreamRx,
    builder: ArdlStreamBuilder<K, T>,
    listener: K,
    flush_interval: Duration,
    mtu: usize,
)
    requires
        stream_rx.becomes(builder, listener, flush_interval, mtu),
    ensures
        builder.udp_endpoint == (UdpEndpoint::Listener {
            listener,
            remote_addr: stream_rx.remote_addr,
        }),
        builder.id == stream_rx.id,
        builder.input_rx == stream_rx.input_rx,
        builder.socket_recv_task is None,
        builder.flush_interval == flush_interval,
        builder.mtu == mtu,
{
}

/// A turn of the listening task takes up its event in full. After a tick no accepted session is
/// left for which the timeout has passed, and every other is. After an accept the session at the
/// front of the queue is accepted, and nothing else has moved. A datagram has become what the
/// answer says.
pub proof fn law_every_event_is_taken_up(
    sessions: Sessions,
    post: Sessions,
    event: ListenEvent,
    action: ListenAction,
    id: u32,
)
    requires
        sessions.wf(),
        sessions.after_event(post, event, action),
    ensures
        event matches ListenEvent::Tick { now } ==> {
            let age = instant_nanos(now) - instant_nanos(sessions.accepted[id].last_recv);
            let timeout = duration_nanos(sessions.timeout);
            &&& post.accepted.contains_key(id) <==> sessions.accepted.contains_key(id) && timeout > 0
                && age < timeout
            &&& post.accepted.contains_key(id) ==> post.accepted[id] == sessions.accepted[id]
            &&& post.pending == sessions.pending
            &&& post.queue == sessions.queue
        },
        event matches ListenEvent::AcceptRequested(Some(_)) ==> {
            let is_front = sessions.queue.len() > 0 && sessions.queue[0].id == id;
            &&& post.accepted.contains_key(id) <==> sessions.accepted.contains_key(id) || is_front
            &&& post.pending.contains_key(id) <==> sessions.pending.contains_key(id) && !is_front
            &&& is_front ==> post.accepted[id] == sessions.pending[id]
            &&& !is_front ==> post.accepted[id] == sessions.accepted[id]
            &&& !is_front ==> post.pending[id] == sessions.pending[id]
            &&& sessions.queue.len() > 0 ==> sessions.queue == seq![sessions.queue[0]] + post.queue
            &&& sessions.queue.len() == 0 ==> post.queue.len() == 0
        },
        event matches ListenEvent::Received { datagram: Some((datagram, remote_addr)), now } ==> {
            &&& action matches ListenAction::Delivered(delivery)
            &&& sessions.after_datagram(post, datagram@, remote_addr, now, delivery)
        },
{
    match event {
        ListenEvent::AcceptRequested(Some(_)) => {
            if sessions.queue.len() > 0 {
                assert(sessions.is_pending(sessions.queue[0]));
                assert(sessions.queue =~= seq![sessions.queue[0]] + sessions.queue.skip(1));
            }
        },
        _ => {},
    }
}

} // verus!
