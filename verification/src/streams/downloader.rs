//! The downloading half of a stream: what becomes of the packets that come in, and when the task
//! ends.
//!
//! The task waits for a packet or for a read. A packet goes to the reliability layer, and the
//! state that the layer makes of it goes to the uploading half; a read is answered with what the
//! layer has to give.
use crate::utils::buf::BufSlice;
use tokio::sync::mpsc::Receiver;
use vstd::prelude::*;

verus! {

#[derive(Debug, PartialEq, Eq, Structural, Clone, Copy)]
pub enum ReadError {
    RemoteClosedOrUploaderDropped,
}

/// What the downloading task is doing.
#[derive(Debug, PartialEq, Eq, Structural, Clone, Copy)]
pub enum Phase {
    /// It waits for an event.
    Waiting,
    /// The layer takes up a packet.
    Decoding,
    /// The layer's state is on its way to the uploading half.
    SendingState,
    /// The layer looks for data.
    Receiving,
    /// A read is being answered.
    Answering,
    /// The task is over.
    Stopped,
}

/// What happens to the downloading task. `S` is the state for the uploading half, and `P` the
/// data.
#[derive(Debug)]
pub enum DownloadEvent<S, P> {
    /// A packet came in, or the remote UDP endpoint is closed.
    Input(Option<BufSlice>),
    /// The layer has made a state of the packet, or could not decode it.
    Decoded(Option<S>),
    /// The state has been sent, or the uploading half is gone.
    StateSent { delivered: bool },
    /// A read of at most this many bytes, or nobody is left to read.
    ReadRequested(Option<usize>),
    /// The layer has data, or none.
    Received(Option<P>),
    /// The read is answered.
    Answered,
}

/// What the downloading task does next.
#[derive(Debug)]
pub enum DownloadAction<S, P> {
    /// Wait for a packet or a read.
    Wait,
    /// Wake a reader that waits for data, then wait for a packet or a read.
    NotifyAndWait,
    /// Hand the packet to the layer.
    InputPacket(BufSlice),
    /// Send the state to the uploading half.
    SendState(S),
    /// Ask the layer for at most this many bytes.
    RecvMax(usize),
    /// Answer the read.
    Answer(Option<P>),
    /// End, and wake a reader that waits for data, so that it meets the end.
    Stop,
}

/// The event can happen in this phase.
pub open spec fn expects<S, P>(phase: Phase, event: DownloadEvent<S, P>) -> bool {
    match event {
        DownloadEvent::Input(_) => phase == Phase::Waiting,
        DownloadEvent::ReadRequested(_) => phase == Phase::Waiting,
        DownloadEvent::Decoded(_) => phase == Phase::Decoding,
        DownloadEvent::StateSent { .. } => phase == Phase::SendingState,
        DownloadEvent::Received(_) => phase == Phase::Receiving,
        DownloadEvent::Answered => phase == Phase::Answering,
    }
}

/// The phase after an event, and what is done next.
pub open spec fn next<S, P>(event: DownloadEvent<S, P>) -> (Phase, DownloadAction<S, P>) {
    match event {
        DownloadEvent::Input(Some(packet)) => (Phase::Decoding, DownloadAction::InputPacket(packet)),
        DownloadEvent::Input(None) => (Phase::Stopped, DownloadAction::Stop),
        DownloadEvent::Decoded(Some(state)) => {
            (Phase::SendingState, DownloadAction::SendState(state))
        },
        DownloadEvent::Decoded(None) => (Phase::Waiting, DownloadAction::Wait),
        DownloadEvent::StateSent { delivered: true } => {
            (Phase::Waiting, DownloadAction::NotifyAndWait)
        },
        DownloadEvent::StateSent { delivered: false } => (Phase::Stopped, DownloadAction::Stop),
        DownloadEvent::ReadRequested(Some(len_cap)) => {
            (Phase::Receiving, DownloadAction::RecvMax(len_cap))
        },
        DownloadEvent::ReadRequested(None) => (Phase::Stopped, DownloadAction::Stop),
        DownloadEvent::Received(data) => (Phase::Answering, DownloadAction::Answer(data)),
        DownloadEvent::Answered => (Phase::Waiting, DownloadAction::Wait),
    }
}

/// The running state of a downloading task. Its view is its phase.
#[derive(Debug)]
pub struct Downloading {
    phase: Phase,
}

impl View for Downloading {
    type V = Phase;

    closed spec fn view(&self) -> Phase {
        self.phase
    }
}

impl Downloading {
    /// A task that waits for its first event.
    pub fn new() -> (downloading: Downloading)
        ensures
            downloading@ == Phase::Waiting,
    {
        Downloading { phase: Phase::Waiting }
    }

    /// Takes up an event, and says what to do next.
    pub fn step<S, P>(&mut self, event: DownloadEvent<S, P>) -> (action: DownloadAction<S, P>)
        requires
            expects(old(self)@, event),
        ensures
            (final(self)@, action) == next(event),
    {
        match event {
            DownloadEvent::Input(Some(packet)) => {
                self.phase = Phase::Decoding;
                DownloadAction::InputPacket(packet)
            },
            DownloadEvent::Input(None) => {
                // The remote UDP endpoint is closed.
                self.phase = Phase::Stopped;
                DownloadAction::Stop
            },
            DownloadEvent::Decoded(Some(state)) => {
                self.phase = Phase::SendingState;
                DownloadAction::SendState(state)
            },
            DownloadEvent::Decoded(None) => {
                // Packets that cannot be decoded are ignored.
                self.phase = Phase::Waiting;
                DownloadAction::Wait
            },
            DownloadEvent::StateSent { delivered } => {
                if delivered {
                    self.phase = Phase::Waiting;
                    DownloadAction::NotifyAndWait
                } else {
                    // The uploading half is dropped.
                    self.phase = Phase::Stopped;
                    DownloadAction::Stop
                }
            },
            DownloadEvent::ReadRequested(Some(len_cap)) => {
                self.phase = Phase::Receiving;
                DownloadAction::RecvMax(len_cap)
            },
            DownloadEvent::ReadRequested(None) => {
                self.phase = Phase::Stopped;
                DownloadAction::Stop
            },
            DownloadEvent::Received(data) => {
                self.phase = Phase::Answering;
                DownloadAction::Answer(data)
            },
            DownloadEvent::Answered => {
                self.phase = Phase::Waiting;
                DownloadAction::Wait
            },
        }
    }
}

/// What a read does next.
#[derive(Debug)]
pub enum ReadStep<P> {
    /// The read is over, with this data.
    Done(P),
    /// Wait until there may be data, then ask again.
    Retry,
    /// The downloading task is over.
    Failed(ReadError),
}

/// What a read does next on this answer of the downloading task; an error says that the task is
/// over.
pub open spec fn read_step<P, E>(response: Result<Option<P>, E>) -> ReadStep<P> {
    match response {
        Ok(Some(data)) => ReadStep::Done(data),
        Ok(None) => ReadStep::Retry,
        Err(_) => ReadStep::Failed(ReadError::RemoteClosedOrUploaderDropped),
    }
}

/// What a read that does not wait returns on this answer of the downloading task.
pub open spec fn try_read_result<P, E>(response: Result<Option<P>, E>) -> Result<
    Option<P>,
    ReadError,
> {
    match response {
        Ok(data) => Ok(data),
        Err(_) => Err(ReadError::RemoteClosedOrUploaderDropped),
    }
}

/// Takes up the answer of the downloading task to a read; an error says that the task is over.
pub fn on_read_response<P, E>(response: Result<Option<P>, E>) -> (step: ReadStep<P>)
    ensures
        step == read_step(response),
        step == (match response {
            Ok(Some(data)) => ReadStep::Done(data),
            Ok(None) => ReadStep::Retry,
            Err(_) => ReadStep::Failed(ReadError::RemoteClosedOrUploaderDropped),
        }),
{
    match response {
        Ok(Some(data)) => ReadStep::Done(data),
        Ok(None) => ReadStep::Retry,
        Err(_) => ReadStep::Failed(ReadError::RemoteClosedOrUploaderDropped),
    }
}

/// Takes up the answer of the downloading task to a read that does not wait for data.
pub fn on_try_read_response<P, E>(response: Result<Option<P>, E>) -> (read: Result<
    Option<P>,
    ReadError,
>)
    ensures
        read == try_read_result(response),
        read == (match response {
            Ok(data) => Ok(data),
            Err(_) => Err(ReadError::RemoteClosedOrUploaderDropped),
        }),
{
    match response {
        Ok(data) => Ok(data),
        Err(_) => Err(ReadError::RemoteClosedOrUploaderDropped),
    }
}

/// The parts of a downloading task. `T` is the handle of the task that receives from the socket,
/// `D` the downloading half of the reliability layer, and `X` the sending end for states.
pub struct ArdlStreamDownloaderBuilder<T, D, X> {
    pub socket_recv_task: Option<T>,
    pub input_rx: Receiver<BufSlice>,
    pub ardl_downloader: D,
    pub set_state_tx: X,
}

/// The task ends exactly when the remote UDP endpoint is closed, when the uploading half is gone,
/// or when nobody is left to read; and nothing happens to it after that. In particular a packet
/// that cannot be decoded does not end it.
pub proof fn law_downloading_ends<S, P>(event: DownloadEvent<S, P>, later: DownloadEvent<S, P>)
    ensures
        ({
            let (phase, action) = next(event);
            &&& action == DownloadAction::<S, P>::Stop <==> (event == DownloadEvent::<S, P>::Input(
                None,
            ) || event == (DownloadEvent::<S, P>::StateSent { delivered: false }) || event
                == DownloadEvent::<S, P>::ReadRequested(None))
            &&& action == DownloadAction::<S, P>::Stop <==> phase == Phase::Stopped
            &&& phase == Phase::Stopped ==> !expects(phase, later)
        }),
{
}

/// A reader is woken for a packet only after its state has reached the uploading half, and every
/// packet that the layer decodes leads to that.
pub proof fn law_decoded_packet_wakes_reader<S, P>(packet: BufSlice, state: S)
    ensures
        ({
            let input = next(DownloadEvent::<S, P>::Input(Some(packet)));
            let decoded = next(DownloadEvent::<S, P>::Decoded(Some(state)));
            let sent = DownloadEvent::<S, P>::StateSent { delivered: true };
            &&& input.1 == DownloadAction::<S, P>::InputPacket(packet)
            &&& expects(input.0, DownloadEvent::<S, P>::Decoded(Some(state)))
            &&& decoded.1 == DownloadAction::<S, P>::SendState(state)
            &&& expects(decoded.0, sent)
            &&& next(sent).1 == DownloadAction::<S, P>::NotifyAndWait
        }),
        forall|event: DownloadEvent<S, P>| (#[trigger] next(event)).1
            == DownloadAction::<S, P>::NotifyAndWait ==> event == (DownloadEvent::<
            S,
            P,
        >::StateSent { delivered: true }),
{
}

/// A read asks the layer for exactly as many bytes as its caller allows, and is answered with
/// exactly what the layer gives, be it data or none; the task then waits again. A read that waits
/// returns that data, and asks again while there is none; one that does not wait returns either.
pub proof fn law_read_returns_what_the_layer_gives<S, P, E>(len_cap: usize, data: Option<P>)
    ensures
        ({
            let requested = DownloadEvent::<S, P>::ReadRequested(Some(len_cap));
            let received = DownloadEvent::<S, P>::Received(data);
            let answered = DownloadEvent::<S, P>::Answered;
            &&& expects(Phase::Waiting, requested)
            &&& next(requested).1 == DownloadAction::<S, P>::RecvMax(len_cap)
            &&& expects(next(requested).0, received)
            &&& next(received).1 == DownloadAction::<S, P>::Answer(data)
            &&& expects(next(received).0, answered)
            &&& next(answered).1 == DownloadAction::<S, P>::Wait
            &&& next(answered).0 == Phase::Waiting
        }),
        data matches Some(data) ==> read_step::<P, E>(Ok(Some(data))) == ReadStep::Done(data),
        data is None ==> read_step::<P, E>(Ok(data)) == ReadStep::<P>::Retry,
        try_read_result::<P, E>(Ok(data)) == Ok::<Option<P>, ReadError>(data),
{
}

/// Once the task is over, every read fails, whether it waits or not.
pub proof fn law_reads_fail_after_the_end<P, E>(error: E)
    ensures
        read_step::<P, E>(Err(error)) == ReadStep::<P>::Failed(
            ReadError::RemoteClosedOrUploaderDropped,
        ),
        try_read_result::<P, E>(Err(error)) == Err::<Option<P>, ReadError>(
            ReadError::RemoteClosedOrUploaderDropped,
        ),
{
}

/// A packet goes to the layer as it came. What the layer makes of it goes to the uploading half,
/// and the task waits again when that half has it; a packet that the layer cannot decode is passed
/// over, and no reader is woken for it.
pub proof fn law_packet_goes_through_the_layer<S, P>(packet: BufSlice, state: Option<S>)
    ensures
        ({
            let input = DownloadEvent::<S, P>::Input(Some(packet));
            let decoded = DownloadEvent::<S, P>::Decoded(state);
            let sent = DownloadEvent::<S, P>::StateSent { delivered: true };
            let unsent = DownloadEvent::<S, P>::StateSent { delivered: false };
            &&& expects(Phase::Waiting, input)
            &&& next(input).1 == DownloadAction::<S, P>::InputPacket(packet)
            &&& expects(next(input).0, decoded)
            &&& match state {
                Some(state) => {
                    &&& next(decoded).1 == DownloadAction::<S, P>::SendState(state)
                    &&& expects(next(decoded).0, sent)
                    &&& expects(next(decoded).0, unsent)
                },
                None => {
                    &&& next(decoded).1 == DownloadAction::<S, P>::Wait
                    &&& next(decoded).0 == Phase::Waiting
                },
            }
            &&& next(sent).1 == DownloadAction::<S, P>::NotifyAndWait
            &&& next(sent).0 == Phase::Waiting
            &&& next(unsent).1 == DownloadAction::<S, P>::Stop
            &&& next(unsent).0 == Phase::Stopped
        }),
{
}

/// A waiting task takes up the end of its packets and the end of its reads, and ends on either.
pub proof fn law_waiting_task_meets_the_end<S, P>()
    ensures
        expects(Phase::Waiting, DownloadEvent::<S, P>::Input(None)),
        next(DownloadEvent::<S, P>::Input(None)) == (
            Phase::Stopped,
            DownloadAction::<S, P>::Stop,
        ),
        expects(Phase::Waiting, DownloadEvent::<S, P>::ReadRequested(None)),
        next(DownloadEvent::<S, P>::ReadRequested(None)) == (
            Phase::Stopped,
            DownloadAction::<S, P>::Stop,
        ),
{
}

} // verus!
