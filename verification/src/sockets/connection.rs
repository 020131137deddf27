//! The connecting side: a fresh stream ID, and the task that receives from the socket.
//!
//! The receiving task forwards the bodies of the frames with the stream's ID, and ends when the
//! peer has been silent for too long.
use crate::protocol::frame_hdr::{
    frame, frame_body, frame_hdr_bytes, frame_id, is_frame, law_decode_of_encode,
    law_encode_of_decode,
};
use crate::protocol::FrameHdr;
use crate::streams::uploader::{
    self, law_packets_are_framed, LayerOutput, UploadEvent, UploadState,
};
use crate::streams::{ArdlStreamConfig, BuildError};
use crate::utils::addr::{wildcard, wildcard_addr};
use crate::utils::buf::BufSlice;
use crate::utils::channel::{channel_bound, offers, same_channel, NewChannel};
use crate::utils::time::{duration_nanos, instant_nanos, is_timed_out, timed_out};
use crate::utils::SocketAddr;
use std::time::{Duration, Instant};
use tokio::sync::mpsc::{Receiver, Sender};
use vstd::prelude::*;

verus! {

/// The number of packets that wait between the socket and the downloading task.
pub const INPUT_QUEUE_LEN: usize = 128;

/// Why a connection could not be made. `L` is the error of the reliability layer.
#[derive(Debug)]
pub enum ConnectError<L> {
    IoError(std::io::Error),
    BuildError(BuildError<L>),
}

/// The settings of a connection. `B` holds those of the reliability layer.
pub struct ConnectConfig<B> {
    pub stream: ArdlStreamConfig<B>,
    pub inactive_timeout: Duration,
}

impl<B> ConnectConfig<B> {
    /// The settings that suit most networks, with these settings of the reliability layer.
    pub fn default(ardl_builder: B) -> (config: ConnectConfig<B>)
        ensures
            config.stream.mtu == 1300,
            duration_nanos(config.stream.flush_interval) == 10_000_000,
            config.stream.ardl_builder == ardl_builder,
            duration_nanos(config.inactive_timeout) == 300_000_000_000,
    {
        ConnectConfig {
            stream: ArdlStreamConfig::default(ardl_builder),
            inactive_timeout: Duration::from_secs(300),
        }
    }
}

/// What the receiving task is doing.
#[derive(Debug, PartialEq, Eq, Structural, Clone, Copy)]
pub enum Phase {
    /// It waits for an event.
    Waiting,
    /// A packet is on its way to the downloading task.
    Forwarding,
    /// The task is over.
    Stopped,
}

/// What happens to the receiving task.
#[derive(Debug)]
pub enum ReceiveEvent {
    /// It is time to look for silence.
    Tick { now: Instant },
    /// A datagram came in, or the remote UDP endpoint cannot be reached.
    Received { datagram: Option<BufSlice>, now: Instant },
    /// The packet has been forwarded, or nobody takes packets any more.
    Forwarded { delivered: bool },
}

/// What the receiving task does next.
#[derive(Debug)]
pub enum ReceiveAction {
    /// Wait for a datagram, or for the time to look for silence.
    Wait,
    /// Forward the packet to the downloading task.
    Forward(BufSlice),
    /// End, and let go of the channel to the downloading task, so that it meets the end.
    Stop,
}

/// The state of a receiving task: its phase, the ID of its stream, when the peer was last heard,
/// and how long the peer may be silent.
pub struct ReceiveState {
    pub phase: Phase,
    pub id: u32,
    pub last_recv: Instant,
    pub timeout: Duration,
}

impl ReceiveState {
    /// The event can happen in this phase.
    pub open spec fn expects(self, event: ReceiveEvent) -> bool {
        match event {
            ReceiveEvent::Tick { .. } => self.phase == Phase::Waiting,
            ReceiveEvent::Received { .. } => self.phase == Phase::Waiting,
            ReceiveEvent::Forwarded { .. } => self.phase == Phase::Forwarding,
        }
    }

    /// The datagram is a frame with the ID of the stream.
    pub open spec fn admits(self, datagram: Seq<u8>) -> bool {
        is_frame(datagram) && frame_id(datagram) == self.id
    }

    /// This state in another phase.
    pub open spec fn with_phase(self, phase: Phase) -> ReceiveState {
        ReceiveState { phase, ..self }
    }

    /// The state after an event.
    pub open spec fn next(self, event: ReceiveEvent) -> ReceiveState {
        match event {
            ReceiveEvent::Tick { now } => if timed_out(self.last_recv, self.timeout, now) {
                self.with_phase(Phase::Stopped)
            } else {
                self
            },
            ReceiveEvent::Received { datagram: None, now } => self.with_phase(Phase::Stopped),
            ReceiveEvent::Received { datagram: Some(datagram), now } => if self.admits(datagram@) {
                ReceiveState { phase: Phase::Forwarding, last_recv: now, ..self }
            } else {
                self
            },
            ReceiveEvent::Forwarded { delivered } => if delivered {
                self.with_phase(Phase::Waiting)
            } else {
                self.with_phase(Phase::Stopped)
            },
        }
    }

    /// The action is the one that an event calls for: wait, stop, or forward the body of the
    /// datagram, by the phase that the event leads to.
    pub open spec fn calls_for(self, event: ReceiveEvent, action: ReceiveAction) -> bool {
        match self.next(event).phase {
            Phase::Waiting => action == ReceiveAction::Wait,
            Phase::Stopped => action == ReceiveAction::Stop,
            Phase::Forwarding => {
                &&& event matches ReceiveEvent::Received { datagram: Some(datagram), .. }
                &&& action matches ReceiveAction::Forward(packet)
                &&& packet@ == frame_body(datagram@)
            },
        }
    }
}

impl ReceiveState {
    /// The state after these events, the first of them first.
    pub open spec fn after(self, events: Seq<ReceiveEvent>) -> ReceiveState
        decreases events.len(),
    {
        if events.len() == 0 {
            self
        } else {
            self.after(events.drop_last()).next(events.last())
        }
    }
}

/// The running state of a receiving task.
#[derive(Debug)]
pub struct Receiving {
    phase: Phase,
    id: u32,
    last_recv: Instant,
    inactive_timeout: Duration,
}

impl View for Receiving {
    type V = ReceiveState;

    closed spec fn view(&self) -> ReceiveState {
        ReceiveState {
            phase: self.phase,
            id: self.id,
            last_recv: self.last_recv,
            timeout: self.inactive_timeout,
        }
    }
}

impl Receiving {
    /// The task of the stream `id`, which counts the peer's silence from `now`.
    pub fn new(id: u32, inactive_timeout: Duration, now: Instant) -> (receiving: Receiving)
        ensures
            receiving@ == (ReceiveState {
                phase: Phase::Waiting,
                id,
                last_recv: now,
                timeout: inactive_timeout,
            }),
    {
        Receiving { phase: Phase::Waiting, id, last_recv: now, inactive_timeout }
    }

    /// Takes up a datagram.
    fn on_datagram(&mut self, datagram: BufSlice, now: Instant) -> (action: ReceiveAction)
        requires
            old(self)@.phase == Phase::Waiting,
        ensures
            final(self)@ == old(self)@.next(
                ReceiveEvent::Received { datagram: Some(datagram), now },
            ),
            old(self)@.calls_for(ReceiveEvent::Received { datagram: Some(datagram), now }, action),
    {
        let mut slice = datagram;
        match FrameHdr::from_slice(&mut slice) {
            Ok(frame_hdr) => {
                // Only frames with the ID of the stream are let in.
                if frame_hdr.id() != self.id {
                    return ReceiveAction::Wait;
                }
                self.last_recv = now;
                self.phase = Phase::Forwarding;
                ReceiveAction::Forward(slice)
            },
            Err(_) => ReceiveAction::Wait,
        }
    }

    /// Takes up an event, and says what to do next.
    pub fn step(&mut self, event: ReceiveEvent) -> (action: ReceiveAction)
        requires
            old(self)@.expects(event),
        ensures
            final(self)@ == old(self)@.next(event),
            old(self)@.calls_for(event, action),
    {
        match event {
            ReceiveEvent::Tick { now } => {
                if is_timed_out(self.last_recv, self.inactive_timeout, now) {
                    self.phase = Phase::Stopped;
                    ReceiveAction::Stop
                } else {
                    ReceiveAction::Wait
                }
            },
            ReceiveEvent::Received { datagram: None, now: _ } => {
                self.phase = Phase::Stopped;
                ReceiveAction::Stop
            },
            ReceiveEvent::Received { datagram: Some(datagram), now } => self.on_datagram(
                datagram,
                now,
            ),
            ReceiveEvent::Forwarded { delivered } => {
                if delivered {
                    self.phase = Phase::Waiting;
                    ReceiveAction::Wait
                } else {
                    // Nobody reads the stream any more.
                    self.phase = Phase::Stopped;
                    ReceiveAction::Stop
                }
            },
        }
    }
}

/// The addresses of a connection: that of the peer, which is the first of `addrs`, and the one
/// to bind the socket to.
pub fn pick_addrs(addrs: &Vec<SocketAddr>) -> (picked: (SocketAddr, &'static str))
    requires
        addrs@.len() > 0,
    ensures
        picked.0 == addrs@[0],
        picked.1@ == wildcard(addrs@[0]),
        picked.1@ == (match addrs@[0] {
            SocketAddr::V4 { .. } => "0.0.0.0:0"@,
            SocketAddr::V6 { .. } => "[::]:0"@,
        }),
{
    let remote_addr = addrs[0];
    (remote_addr, wildcard_addr(&remote_addr))
}

/// A connection that is ready to receive: its ID, its receiving task, and the channel from that
/// task to the downloading task.
pub struct Connecting {
    pub id: u32,
    pub receiving: Receiving,
    pub input_tx: Sender<BufSlice>,
    pub input_rx: Receiver<BufSlice>,
}

impl Connecting {
    /// The connection is the one of the stream `id`, and counts the peer's silence from `now`.
    pub open spec fn is_ready(self, id: u32, inactive_timeout: Duration, now: Instant) -> bool {
        &&& self.id == id
        &&& self.receiving@ == (ReceiveState {
            phase: Phase::Waiting,
            id,
            last_recv: now,
            timeout: inactive_timeout,
        })
        &&& same_channel(self.input_tx, self.input_rx)
        &&& channel_bound(self.input_tx) == INPUT_QUEUE_LEN
        &&& offers(self.input_tx) == Seq::<(Seq<u8>, Option<bool>)>::empty()
    }

    /// The connection with the given ID.
    pub fn with_id(id: u32, inactive_timeout: Duration, now: Instant) -> (connecting: Connecting)
        ensures
            connecting.is_ready(id, inactive_timeout, now),
    {
        let (input_tx, input_rx) = NewChannel::new(INPUT_QUEUE_LEN).into_halves();
        Connecting { id, receiving: Receiving::new(id, inactive_timeout, now), input_tx, input_rx }
    }

    /// A connection with an ID chosen at random.
    pub fn new(inactive_timeout: Duration, now: Instant) -> (connecting: Connecting)
        ensures
            connecting.is_ready(connecting.id, inactive_timeout, now),
    {
        Connecting::with_id(random_id(), inactive_timeout, now)
    }
}

/// `rand::random::<u32>` draws from all of the type's values: nothing more is known of one draw.
#[verifier::external_body]
fn random_id() -> u32 {
    rand::random::<u32>()
}

/// A frame with the ID of the stream is let in, its body is what is forwarded, and the peer
/// counts as heard.
pub proof fn law_own_frame_is_forwarded(
    state: ReceiveState,
    datagram: BufSlice,
    body: Seq<u8>,
    now: Instant,
    action: ReceiveAction,
)
    requires
        datagram@ == frame(state.id, body),
        state.calls_for(ReceiveEvent::Received { datagram: Some(datagram), now }, action),
    ensures
        action matches ReceiveAction::Forward(packet) && packet@ == body,
        state.next(ReceiveEvent::Received { datagram: Some(datagram), now }).last_recv == now,
{
    law_decode_of_encode(state.id, body);
}

/// What the other side uploads on the stream, this side forwards: the datagram of a packet of the
/// stream is let in, and what is forwarded is the packet.
pub proof fn law_uploaded_packet_is_forwarded<S, P>(
    uploading: UploadState,
    packet: Vec<u8>,
    state: ReceiveState,
    datagram: BufSlice,
    now: Instant,
    action: ReceiveAction,
)
    requires
        uploading.phase == uploader::Phase::Outputting,
        uploading.is_clean(frame_hdr_bytes(state.id)),
        uploading.datagram.len() + packet@.len() <= uploading.cap,
        datagram@ == uploading.next(
            UploadEvent::<S, P>::Output(LayerOutput::Packet(packet)),
        ).0.datagram,
        state.calls_for(ReceiveEvent::Received { datagram: Some(datagram), now }, action),
    ensures
        action matches ReceiveAction::Forward(forwarded) && forwarded@ == packet@,
{
    law_packets_are_framed::<S, P>(uploading, state.id, packet);
    law_own_frame_is_forwarded(state, datagram, packet@, now, action);
}

/// A frame with any other ID, and a datagram too short for a header, change nothing: they do not
/// break the peer's silence either.
pub proof fn law_other_datagrams_change_nothing(
    state: ReceiveState,
    datagram: BufSlice,
    now: Instant,
)
    requires
        !is_frame(datagram@) || frame_id(datagram@) != state.id,
    ensures
        state.next(ReceiveEvent::Received { datagram: Some(datagram), now }) == state,
{
}

/// The task ends exactly when the peer has been silent for the timeout, when the peer cannot be
/// reached, or when nobody takes packets any more; and nothing happens to it after that.
pub proof fn law_receiving_ends(state: ReceiveState, event: ReceiveEvent, later: ReceiveEvent)
    requires
        state.expects(event),
    ensures
        state.next(event).phase == Phase::Stopped <==> match event {
            ReceiveEvent::Tick { now } => timed_out(state.last_recv, state.timeout, now),
            ReceiveEvent::Received { datagram, .. } => datagram is None,
            ReceiveEvent::Forwarded { delivered } => !delivered,
        },
        state.next(event).phase == Phase::Stopped ==> !state.next(event).expects(later),
{
}

/// Whatever happens to the task, it goes on receiving for the stream for which it was made, and
/// allows the peer the same silence.
pub proof fn law_receiving_keeps_its_stream(state: ReceiveState, event: ReceiveEvent)
    ensures
        state.next(event).id == state.id,
        state.next(event).timeout == state.timeout,
{
}

/// A tick ends the task if the peer has been silent for the timeout. Any other tick leaves the
/// task exactly as it was, waiting.
pub proof fn law_tick_ends_only_a_silence(state: ReceiveState, now: Instant, action: ReceiveAction)
    requires
        state.phase == Phase::Waiting,
        state.calls_for(ReceiveEvent::Tick { now }, action),
    ensures
        ({
            let post = state.next(ReceiveEvent::Tick { now });
            let silence = instant_nanos(now) - instant_nanos(state.last_recv);
            if duration_nanos(state.timeout) == 0 || silence >= duration_nanos(state.timeout) {
                &&& action == ReceiveAction::Stop
                &&& post.phase == Phase::Stopped
            } else {
                &&& action == ReceiveAction::Wait
                &&& post.phase == Phase::Waiting
                &&& post.id == state.id
                &&& post.last_recv == state.last_recv
                &&& post.timeout == state.timeout
            }
        }),
{
}

/// A frame of the stream is handed on at once, and when it has been taken the task waits again,
/// with the peer heard at the time of the frame. Where nobody takes it the task ends.
pub proof fn law_forwarding_comes_back_to_waiting(
    state: ReceiveState,
    datagram: BufSlice,
    body: Seq<u8>,
    now: Instant,
    delivered: bool,
    action: ReceiveAction,
)
    requires
        state.phase == Phase::Waiting,
        datagram@ == frame(state.id, body),
        state.next(ReceiveEvent::Received { datagram: Some(datagram), now }).calls_for(
            ReceiveEvent::Forwarded { delivered },
            action,
        ),
    ensures
        ({
            let received = ReceiveEvent::Received { datagram: Some(datagram), now };
            let forwarding = state.next(received);
            let forwarded = ReceiveEvent::Forwarded { delivered };
            let post = forwarding.next(forwarded);
            &&& state.expects(received)
            &&& forwarding.phase == Phase::Forwarding
            &&& forwarding.expects(forwarded)
            &&& post.id == state.id
            &&& post.timeout == state.timeout
            &&& post.last_recv == now
            &&& delivered ==> post.phase == Phase::Waiting && action == ReceiveAction::Wait
            &&& !delivered ==> post.phase == Phase::Stopped && action == ReceiveAction::Stop
        }),
{
    law_decode_of_encode(state.id, body);
}

/// A datagram that is no frame of the stream is passed over: the task waits on, as it was.
pub proof fn law_other_datagrams_are_passed_over(
    state: ReceiveState,
    datagram: BufSlice,
    now: Instant,
    action: ReceiveAction,
)
    requires
        state.phase == Phase::Waiting,
        forall|body: Seq<u8>| datagram@ != #[trigger] frame(state.id, body),
        state.calls_for(ReceiveEvent::Received { datagram: Some(datagram), now }, action),
    ensures
        action == ReceiveAction::Wait,
        state.next(ReceiveEvent::Received { datagram: Some(datagram), now }) == state,
{
    if is_frame(datagram@) {
        law_encode_of_decode(datagram@);
        assert(datagram@ == frame(frame_id(datagram@), frame_body(datagram@)));
    }
}

/// A waiting task takes up every tick, every datagram and every failure of the socket; a
/// forwarding one takes up either result. A failure of the socket ends the task.
pub proof fn law_receiving_is_never_stuck(
    state: ReceiveState,
    datagram: Option<BufSlice>,
    now: Instant,
    delivered: bool,
    action: ReceiveAction,
)
    ensures
        state.phase == Phase::Waiting ==> {
            &&& state.expects(ReceiveEvent::Tick { now })
            &&& state.expects(ReceiveEvent::Received { datagram, now })
        },
        state.phase == Phase::Forwarding ==> state.expects(ReceiveEvent::Forwarded { delivered }),
        state.calls_for(ReceiveEvent::Received { datagram: None, now }, action) ==> action
            == ReceiveAction::Stop,
        state.next(ReceiveEvent::Received { datagram: None, now }).phase == Phase::Stopped,
{
}

/// At every point of every run, the task receives for the stream for which it was made and allows
/// the silence with which it was made. The peer counts as heard at the time of a frame of the
/// stream, or at the start.
pub proof fn law_every_run_keeps_the_stream(start: ReceiveState, events: Seq<ReceiveEvent>)
    ensures
        start.after(events).id == start.id,
        start.after(events).timeout == start.timeout,
        start.after(events).last_recv == start.last_recv || exists|i: int, body: Seq<u8>|
            #![trigger events[i], frame(start.id, body)]
            {
                &&& 0 <= i < events.len()
                &&& events[i] matches ReceiveEvent::Received { datagram: Some(datagram), now }
                &&& now == start.after(events).last_recv
                &&& datagram@ == frame(start.id, body)
            },
    decreases events.len(),
{
    if events.len() > 0 {
        let earlier = events.drop_last();
        law_every_run_keeps_the_stream(start, earlier);
        let before = start.after(earlier);
        let last = events.len() - 1;
        assert(events[last] == events.last());
        if start.after(events).last_recv != start.last_recv {
            let renewed = match events.last() {
                ReceiveEvent::Received { datagram: Some(datagram), .. } => before.admits(datagram@),
                _ => false,
            };
            if renewed {
                match events.last() {
                    ReceiveEvent::Received { datagram: Some(datagram), .. } => {
                        law_encode_of_decode(datagram@);
                        assert(datagram@ == frame(start.id, frame_body(datagram@)));
                    },
                    _ => {},
                }
            } else {
                let (i, body) = choose|i: int, body: Seq<u8>|
                    #![trigger earlier[i], frame(start.id, body)]
                    {
                        &&& 0 <= i < earlier.len()
                        &&& earlier[i] matches ReceiveEvent::Received {
                            datagram: Some(datagram),
                            now,
                        }
                        &&& now == before.last_recv
                        &&& datagram@ == frame(start.id, body)
                    };
                assert(events[i] == earlier[i]);
                assert(frame(start.id, body) == frame(start.id, body));
            }
        }
    }
}

/// At every point of every run at which the task waits, a frame of the stream for which it was
/// made is let in, and what is forwarded is its body.
pub proof fn law_own_frame_is_always_let_in(
    start: ReceiveState,
    events: Seq<ReceiveEvent>,
    datagram: BufSlice,
    body: Seq<u8>,
    now: Instant,
    action: ReceiveAction,
)
    requires
        start.after(events).phase == Phase::Waiting,
        datagram@ == frame(start.id, body),
        start.after(events).calls_for(
            ReceiveEvent::Received { datagram: Some(datagram), now },
            action,
        ),
    ensures
        start.after(events).expects(ReceiveEvent::Received { datagram: Some(datagram), now }),
        action matches ReceiveAction::Forward(packet) && packet@ == body,
{
    law_every_run_keeps_the_stream(start, events);
    law_own_frame_is_forwarded(start.after(events), datagram, body, now, action);
}

/// A new connection waits for the frames of its own ID, through a channel of its own that has
/// been offered nothing, and counts the silence from its start.
pub proof fn law_connection_receives_under_its_id(
    connecting: Connecting,
    id: u32,
    inactive_timeout: Duration,
    now: Instant,
)
    requires
        connecting.is_ready(id, inactive_timeout, now),
    ensures
        connecting.id == id,
        connecting.receiving@.id == id,
        connecting.receiving@.phase == Phase::Waiting,
        connecting.receiving@.last_recv == now,
        connecting.receiving@.timeout == inactive_timeout,
        same_channel(connecting.input_tx, connecting.input_rx),
        channel_bound(connecting.input_tx) == 128,
        offers(connecting.input_tx).len() == 0,
{
}

} // verus!
