//! The uploading half of a stream: which packets become datagrams, and when the task ends.
//!
//! The task waits for one of three events: a new state from the downloading half, a due flush,
//! or data to send. It takes the data or the state to the reliability layer, and then outputs
//! all packets that the layer has ready, one datagram each. Every datagram starts with the
//! stream's frame header, which is written once.
use crate::protocol::frame_hdr::{frame, frame_hdr_bytes};
use crate::protocol::{FrameBuilder, FRAME_HDR_LEN};
use crate::utils::buf::OwnedBufWtr;
use crate::utils::UdpEndpoint;
use std::time::Duration;
use vstd::prelude::*;

verus! {

/// The lengths of the reliability layer's headers.
#[derive(Debug, PartialEq, Eq, Structural, Clone, Copy)]
pub struct LayerHdrLens {
    pub packet: usize,
    pub push: usize,
    pub ack: usize,
}

#[derive(Debug, PartialEq, Eq, Structural, Clone, Copy)]
pub enum BuildError {
    MtuTooSmall,
}

#[derive(Debug, PartialEq, Eq, Structural, Clone, Copy)]
pub enum WriteError {
    RemoteClosedOrDownloaderDropped,
}

/// Why an output ended early.
#[derive(Debug)]
pub enum OutputError {
    BufferTooSmall,
    SendBufferNotEnough,
    OtherIoError(std::io::Error),
}

/// What the reliability layer answers when it is asked for a packet.
#[derive(Debug)]
pub enum LayerOutput {
    Packet(Vec<u8>),
    NothingToOutput,
    BufferTooSmall,
}

/// Why a datagram could not be sent.
#[derive(Debug)]
pub enum SendFailure {
    OutOfMemory,
    Other(std::io::Error),
}

/// The uploading task's answer to data: taken, or handed back because the layer has no room.
#[derive(Debug)]
pub enum UploadingToSendResponse<P> {
    Taken,
    Refused(P),
}

/// A datagram of `mtu` bytes has room for the headers and one byte of a push, and for the
/// headers of an acknowledgement.
pub open spec fn mtu_fits(mtu: nat, lens: LayerHdrLens) -> bool {
    &&& FRAME_HDR_LEN + lens.packet + lens.push + 1 <= mtu
    &&& FRAME_HDR_LEN + lens.packet + lens.ack <= mtu
}

/// Checks that datagrams of `mtu` bytes can carry every kind of packet.
pub fn check_mtu(mtu: usize, lens: LayerHdrLens) -> (checked: Result<(), BuildError>)
    ensures
        checked is Ok <==> mtu_fits(mtu as nat, lens),
{
    if mtu < FRAME_HDR_LEN || mtu - FRAME_HDR_LEN < lens.packet {
        return Err(BuildError::MtuTooSmall);
    }
    let left: usize = mtu - FRAME_HDR_LEN - lens.packet;
    if !(lens.push < left) {
        return Err(BuildError::MtuTooSmall);
    }
    if !(lens.ack <= left) {
        return Err(BuildError::MtuTooSmall);
    }
    Ok(())
}

/// An output of all packets that the reliability layer has ready. It remembers how long the
/// writer's data was when it began.
#[derive(Debug)]
pub struct OutputAll {
    data_len_then: usize,
}

/// What an output does next.
#[derive(Debug)]
pub enum OutputStep {
    /// Ask the layer for a packet.
    OutputPacket,
    /// Send the writer's data as a datagram.
    SendDatagram,
    /// The output is over.
    Finished(Result<(), OutputError>),
}

impl View for OutputAll {
    type V = nat;

    closed spec fn view(&self) -> nat {
        self.data_len_then as nat
    }
}

impl OutputAll {
    /// An output through `wtr`; the first step is to ask the layer for a packet.
    pub fn begin(wtr: &OwnedBufWtr) -> (output: OutputAll)
        ensures
            output@ == wtr@.len(),
    {
        OutputAll { data_len_then: wtr.data_len() }
    }

    /// Takes up the layer's answer. A packet goes behind the writer's data.
    pub fn on_output(&self, wtr: &mut OwnedBufWtr, output: LayerOutput) -> (step: OutputStep)
        requires
            output matches LayerOutput::Packet(packet) ==> old(wtr)@.len() + packet@.len() <= old(
                wtr,
            ).capacity(),
        ensures
            final(wtr).capacity() == old(wtr).capacity(),
            match output {
                LayerOutput::Packet(packet) => {
                    &&& final(wtr)@ == old(wtr)@ + packet@
                    &&& step == OutputStep::SendDatagram
                },
                LayerOutput::NothingToOutput => {
                    &&& final(wtr)@ == old(wtr)@
                    &&& step == OutputStep::Finished(Ok(()))
                },
                LayerOutput::BufferTooSmall => {
                    &&& final(wtr)@ == old(wtr)@
                    &&& step == OutputStep::Finished(Err(OutputError::BufferTooSmall))
                },
            },
    {
        match output {
            LayerOutput::Packet(packet) => {
                let _ = wtr.append(packet.as_slice());
                OutputStep::SendDatagram
            },
            LayerOutput::NothingToOutput => OutputStep::Finished(Ok(())),
            LayerOutput::BufferTooSmall => OutputStep::Finished(Err(OutputError::BufferTooSmall)),
        }
    }

    /// Takes up the result of sending the datagram. Once it is sent, the writer is back to the
    /// data with which the output began; a datagram that could not be sent stays in the writer.
    pub fn on_sent(&self, wtr: &mut OwnedBufWtr, sent: Result<(), SendFailure>) -> (step:
        OutputStep)
        requires
            self@ <= old(wtr)@.len(),
        ensures
            final(wtr).capacity() == old(wtr).capacity(),
            match sent {
                Ok(()) => {
                    &&& final(wtr)@ == old(wtr)@.take(self@ as int)
                    &&& step == OutputStep::OutputPacket
                },
                Err(SendFailure::OutOfMemory) => {
                    &&& final(wtr)@ == old(wtr)@
                    &&& step == OutputStep::Finished(Err(OutputError::SendBufferNotEnough))
                },
                Err(SendFailure::Other(e)) => {
                    &&& final(wtr)@ == old(wtr)@
                    &&& step == OutputStep::Finished(Err(OutputError::OtherIoError(e)))
                },
            },
    {
        match sent {
            Ok(()) => {
                let grown: usize = wtr.data_len() - self.data_len_then;
                let _ = wtr.shrink_back(grown);
                OutputStep::OutputPacket
            },
            Err(SendFailure::OutOfMemory) => {
                OutputStep::Finished(Err(OutputError::SendBufferNotEnough))
            },
            Err(SendFailure::Other(e)) => OutputStep::Finished(Err(OutputError::OtherIoError(e))),
        }
    }
}

/// What the uploading task is doing.
#[derive(Debug, PartialEq, Eq, Structural, Clone, Copy)]
pub enum Phase {
    /// It waits for an event.
    Waiting,
    /// The layer takes up a state.
    SettingState,
    /// The layer takes up data.
    Submitting,
    /// The request for sending data is answered. `accepted` is what the layer said.
    Answering { accepted: bool },
    /// The layer makes a packet.
    Outputting,
    /// A datagram is being sent.
    Sending,
    /// The task is over.
    Stopped,
}

/// What happens to the uploading task. `S` is the downloading half's state, and `P` the data.
#[derive(Debug)]
pub enum UploadEvent<S, P> {
    /// A state came from the downloading half, or that half is gone.
    StateReceived(Option<S>),
    /// A flush is due.
    FlushDue,
    /// Data came to be sent, or nobody is left to send any.
    ToSendRequested(Option<P>),
    /// The layer has taken up the state.
    StateSet,
    /// The layer has taken the data.
    ToSendAccepted,
    /// The layer has no room for the data.
    ToSendRefused(P),
    /// The request for sending data is answered.
    Answered,
    /// The layer has answered the call for a packet.
    Output(LayerOutput),
    /// The datagram is sent, or could not be.
    DatagramSent(Result<(), SendFailure>),
}

/// What the uploading task does next.
#[derive(Debug)]
pub enum UploadAction<S, P> {
    /// Wait for a state, a flush or data.
    Wait,
    /// Hand the state to the layer.
    SetState(S),
    /// Hand the data to the layer.
    ToSend(P),
    /// Answer the request for sending data.
    Answer(UploadingToSendResponse<P>),
    /// Ask the layer for a packet.
    OutputPacket,
    /// Send the datagram.
    SendDatagram,
    /// End, and wake whoever waits for room to send, so that it meets the end.
    Stop,
}

/// The state of an uploading task: its phase, the datagram under construction with its capacity,
/// and how long the datagram was when the latest output began.
#[verifier::ext_equal]
pub struct UploadState {
    pub phase: Phase,
    pub datagram: Seq<u8>,
    pub cap: nat,
    pub data_len_then: nat,
}

impl UploadState {
    /// The state at the start: waiting, with `prefix` as the datagram.
    pub open spec fn initial(prefix: Seq<u8>, cap: nat) -> UploadState {
        UploadState { phase: Phase::Waiting, datagram: prefix, cap, data_len_then: prefix.len() }
    }

    /// The datagram fits, and has not shrunk since the latest output began.
    pub open spec fn wf(self) -> bool {
        self.data_len_then <= self.datagram.len() <= self.cap
    }

    /// The event can happen in this phase. A packet fits behind the datagram's data, and the
    /// layer finds room for the packets that it makes.
    pub open spec fn expects<S, P>(self, event: UploadEvent<S, P>) -> bool {
        match event {
            UploadEvent::StateReceived(_) => self.phase == Phase::Waiting,
            UploadEvent::FlushDue => self.phase == Phase::Waiting,
            UploadEvent::ToSendRequested(_) => self.phase == Phase::Waiting,
            UploadEvent::StateSet => self.phase == Phase::SettingState,
            UploadEvent::ToSendAccepted => self.phase == Phase::Submitting,
            UploadEvent::ToSendRefused(_) => self.phase == Phase::Submitting,
            UploadEvent::Answered => self.phase is Answering,
            UploadEvent::Output(output) => {
                &&& self.phase == Phase::Outputting
                &&& match output {
                    LayerOutput::Packet(packet) => self.datagram.len() + packet@.len() <= self.cap,
                    LayerOutput::NothingToOutput => true,
                    LayerOutput::BufferTooSmall => false,
                }
            },
            UploadEvent::DatagramSent(_) => self.phase == Phase::Sending,
        }
    }

    /// This state in another phase.
    pub open spec fn with_phase(self, phase: Phase) -> UploadState {
        UploadState { phase, ..self }
    }

    /// This state at the beginning of an output.
    pub open spec fn begin_output(self) -> UploadState {
        UploadState { phase: Phase::Outputting, data_len_then: self.datagram.len(), ..self }
    }

    /// What an event makes of this state, and what is done next.
    pub open spec fn next<S, P>(self, event: UploadEvent<S, P>) -> (
        UploadState,
        UploadAction<S, P>,
    ) {
        match event {
            UploadEvent::StateReceived(Some(state)) => {
                (self.with_phase(Phase::SettingState), UploadAction::SetState(state))
            },
            UploadEvent::StateReceived(None) => {
                (self.with_phase(Phase::Stopped), UploadAction::Stop)
            },
            UploadEvent::FlushDue => (self.begin_output(), UploadAction::OutputPacket),
            UploadEvent::ToSendRequested(Some(data)) => {
                (self.with_phase(Phase::Submitting), UploadAction::ToSend(data))
            },
            UploadEvent::ToSendRequested(None) => {
                (self.with_phase(Phase::Stopped), UploadAction::Stop)
            },
            UploadEvent::StateSet => (self.begin_output(), UploadAction::OutputPacket),
            UploadEvent::ToSendAccepted => (
                self.with_phase(Phase::Answering { accepted: true }),
                UploadAction::Answer(UploadingToSendResponse::Taken),
            ),
            UploadEvent::ToSendRefused(data) => (
                self.with_phase(Phase::Answering { accepted: false }),
                UploadAction::Answer(UploadingToSendResponse::Refused(data)),
            ),
            UploadEvent::Answered => if self.phase == (Phase::Answering { accepted: true }) {
                (self.begin_output(), UploadAction::OutputPacket)
            } else {
                (self.with_phase(Phase::Waiting), UploadAction::Wait)
            },
            UploadEvent::Output(LayerOutput::Packet(packet)) => (
                UploadState {
                    phase: Phase::Sending,
                    datagram: self.datagram + packet@,
                    ..self
                },
                UploadAction::SendDatagram,
            ),
            UploadEvent::Output(_) => (self.with_phase(Phase::Waiting), UploadAction::Wait),
            UploadEvent::DatagramSent(Ok(())) => (
                UploadState {
                    phase: Phase::Outputting,
                    datagram: self.datagram.take(self.data_len_then as int),
                    ..self
                },
                UploadAction::OutputPacket,
            ),
            UploadEvent::DatagramSent(Err(SendFailure::OutOfMemory)) => {
                (self.with_phase(Phase::Waiting), UploadAction::Wait)
            },
            UploadEvent::DatagramSent(Err(SendFailure::Other(_))) => {
                (self.with_phase(Phase::Stopped), UploadAction::Stop)
            },
        }
    }

    /// The state after these events, the first of them first.
    pub open spec fn after<S, P>(self, events: Seq<UploadEvent<S, P>>) -> UploadState
        decreases events.len(),
    {
        if events.len() == 0 {
            self
        } else {
            self.after(events.drop_last()).next(events.last()).0
        }
    }

    /// Each of these events can happen when its turn comes.
    pub open spec fn expects_all<S, P>(self, events: Seq<UploadEvent<S, P>>) -> bool
        decreases events.len(),
    {
        events.len() > 0 ==> {
            &&& self.expects_all(events.drop_last())
            &&& self.after(events.drop_last()).expects(events.last())
        }
    }

    /// Every datagram, now and later, starts with `prefix`.
    pub open spec fn keeps_prefix(self, prefix: Seq<u8>) -> bool {
        &&& prefix.len() <= self.data_len_then <= self.datagram.len()
        &&& self.datagram.take(prefix.len() as int) == prefix
    }

    /// The datagram holds nothing but `prefix`, and behind it the packet that is being sent.
    pub open spec fn is_clean(self, prefix: Seq<u8>) -> bool {
        match self.phase {
            Phase::Sending => {
                &&& self.data_len_then == prefix.len() <= self.datagram.len()
                &&& self.datagram.take(prefix.len() as int) == prefix
            },
            Phase::Outputting => {
                &&& self.data_len_then == prefix.len()
                &&& self.datagram == prefix
            },
            _ => self.datagram == prefix,
        }
    }
}

/// The running state of an uploading task.
#[derive(Debug)]
pub struct Uploading {
    wtr: OwnedBufWtr,
    output: OutputAll,
    phase: Phase,
}

impl View for Uploading {
    type V = UploadState;

    closed spec fn view(&self) -> UploadState {
        UploadState {
            phase: self.phase,
            datagram: self.wtr@,
            cap: self.wtr.capacity(),
            data_len_then: self.output@,
        }
    }
}

impl Uploading {
    /// The task of the stream `id`: its datagrams start with the frame header.
    pub fn new(mtu: usize, id: u32) -> (uploading: Uploading)
        requires
            FRAME_HDR_LEN <= mtu,
        ensures
            uploading@ == UploadState::initial(frame_hdr_bytes(id), mtu as nat),
            uploading@.wf(),
            uploading@.keeps_prefix(frame_hdr_bytes(id)),
    {
        let mut wtr = OwnedBufWtr::new(mtu);
        let frame_hdr = FrameBuilder { id }.build();
        let _ = frame_hdr.append_to(&mut wtr);
        assert(wtr@ =~= frame_hdr_bytes(id));
        assert(wtr@.take(FRAME_HDR_LEN as int) =~= wtr@);
        let output = OutputAll::begin(&wtr);
        Uploading { wtr, output, phase: Phase::Waiting }
    }

    /// The task of a stream without an ID: its datagrams are bare packets.
    pub fn unframed(mtu: usize) -> (uploading: Uploading)
        ensures
            uploading@ == UploadState::initial(Seq::empty(), mtu as nat),
            uploading@.wf(),
    {
        let wtr = OwnedBufWtr::new(mtu);
        let output = OutputAll::begin(&wtr);
        Uploading { wtr, output, phase: Phase::Waiting }
    }

    /// The datagram under construction.
    pub fn datagram(&self) -> (datagram: &[u8])
        ensures
            datagram@ == self@.datagram,
    {
        self.wtr.data()
    }

    /// Begins an output.
    fn begin_output<S, P>(&mut self) -> (action: UploadAction<S, P>)
        ensures
            final(self)@ == old(self)@.begin_output(),
            action == UploadAction::<S, P>::OutputPacket,
    {
        self.output = OutputAll::begin(&self.wtr);
        self.phase = Phase::Outputting;
        UploadAction::OutputPacket
    }

    /// Goes on after a step of the output.
    fn after_step<S, P>(&mut self, step: OutputStep) -> (action: UploadAction<S, P>)
        requires
            step != OutputStep::Finished(Err(OutputError::BufferTooSmall)),
        ensures
            ({
                let (phase, next) = match step {
                    OutputStep::OutputPacket => (
                        Phase::Outputting,
                        UploadAction::<S, P>::OutputPacket,
                    ),
                    OutputStep::SendDatagram => (Phase::Sending, UploadAction::SendDatagram),
                    OutputStep::Finished(Err(OutputError::OtherIoError(_))) => (
                        Phase::Stopped,
                        UploadAction::Stop,
                    ),
                    OutputStep::Finished(_) => (Phase::Waiting, UploadAction::Wait),
                };
                &&& final(self)@ == old(self)@.with_phase(phase)
                &&& action == next
            }),
    {
        match step {
            OutputStep::OutputPacket => {
                self.phase = Phase::Outputting;
                UploadAction::OutputPacket
            },
            OutputStep::SendDatagram => {
                self.phase = Phase::Sending;
                UploadAction::SendDatagram
            },
            OutputStep::Finished(Err(OutputError::OtherIoError(_))) => {
                // The remote UDP endpoint is closed.
                self.phase = Phase::Stopped;
                UploadAction::Stop
            },
            OutputStep::Finished(_) => {
                self.phase = Phase::Waiting;
                UploadAction::Wait
            },
        }
    }

    /// Takes up an event, and says what to do next.
    pub fn step<S, P>(&mut self, event: UploadEvent<S, P>) -> (action: UploadAction<S, P>)
        requires
            old(self)@.wf(),
            old(self)@.expects(event),
        ensures
            final(self)@.wf(),
            (final(self)@, action) == old(self)@.next(event),
    {
        match event {
            UploadEvent::StateReceived(Some(state)) => {
                self.phase = Phase::SettingState;
                UploadAction::SetState(state)
            },
            UploadEvent::StateReceived(None) => {
                // The downloading half is dropped.
                self.phase = Phase::Stopped;
                UploadAction::Stop
            },
            UploadEvent::FlushDue => self.begin_output(),
            UploadEvent::ToSendRequested(Some(data)) => {
                self.phase = Phase::Submitting;
                UploadAction::ToSend(data)
            },
            UploadEvent::ToSendRequested(None) => {
                // The uploader is dropped.
                self.phase = Phase::Stopped;
                UploadAction::Stop
            },
            UploadEvent::StateSet => self.begin_output(),
            UploadEvent::ToSendAccepted => {
                self.phase = Phase::Answering { accepted: true };
                UploadAction::Answer(UploadingToSendResponse::Taken)
            },
            UploadEvent::ToSendRefused(data) => {
                self.phase = Phase::Answering { accepted: false };
                UploadAction::Answer(UploadingToSendResponse::Refused(data))
            },
            UploadEvent::Answered => {
                if self.phase == (Phase::Answering { accepted: true }) {
                    self.begin_output()
                } else {
                    self.phase = Phase::Waiting;
                    UploadAction::Wait
                }
            },
            UploadEvent::Output(output) => {
                let step = self.output.on_output(&mut self.wtr, output);
                self.after_step(step)
            },
            UploadEvent::DatagramSent(sent) => {
                let step = self.output.on_sent(&mut self.wtr, sent);
                self.after_step(step)
            },
        }
    }
}

/// What a write does next.
#[derive(Debug)]
pub enum WriteStep<P> {
    /// The data is taken.
    Done,
    /// Wait until there may be room, then offer the data again.
    Retry(P),
    /// The uploading task is over.
    Failed(WriteError),
}

/// What a write does next on this answer of the uploading task; an error says that the task is
/// over.
pub open spec fn write_step<P, E>(response: Result<UploadingToSendResponse<P>, E>) -> WriteStep<P> {
    match response {
        Ok(UploadingToSendResponse::Taken) => WriteStep::Done,
        Ok(UploadingToSendResponse::Refused(data)) => WriteStep::Retry(data),
        Err(_) => WriteStep::Failed(WriteError::RemoteClosedOrDownloaderDropped),
    }
}

/// Takes up the answer of the uploading task to a write.
pub fn on_write_response<P, E>(response: Result<UploadingToSendResponse<P>, E>) -> (step: WriteStep<
    P,
>)
    ensures
        step == write_step(response),
{
    match response {
        Ok(UploadingToSendResponse::Taken) => WriteStep::Done,
        Ok(UploadingToSendResponse::Refused(data)) => WriteStep::Retry(data),
        Err(_) => WriteStep::Failed(WriteError::RemoteClosedOrDownloaderDropped),
    }
}

/// The parts of an uploading task. `K` is the handle of the socket, `U` the uploading half of the
/// reliability layer, and `R` the receiving end for states.
pub struct ArdlStreamUploaderBuilder<K, U, R> {
    pub udp_endpoint: UdpEndpoint<K>,
    pub ardl_uploader: U,
    pub set_state_rx: R,
    pub flush_interval: Duration,
    pub mtu: usize,
    pub id: u32,
}

/// An uploading task that is ready to run.
pub struct UploaderTask<K, U, R> {
    pub udp_endpoint: UdpEndpoint<K>,
    pub ardl_uploader: U,
    pub set_state_rx: R,
    pub flush_interval: Duration,
    pub mtu: usize,
    pub uploading: Uploading,
}

impl<K, U, R> ArdlStreamUploaderBuilder<K, U, R> {
    /// The task with these parts, unless datagrams of `mtu` bytes are too small for it.
    pub fn build(self, lens: LayerHdrLens) -> (task: Result<UploaderTask<K, U, R>, BuildError>)
        ensures
            task is Ok <==> mtu_fits(self.mtu as nat, lens),
            task matches Ok(task) ==> {
                &&& task.udp_endpoint == self.udp_endpoint
                &&& task.ardl_uploader == self.ardl_uploader
                &&& task.set_state_rx == self.set_state_rx
                &&& task.flush_interval == self.flush_interval
                &&& task.mtu == self.mtu
                &&& task.uploading@ == UploadState::initial(
                    frame_hdr_bytes(self.id),
                    self.mtu as nat,
                )
                &&& task.uploading@.wf()
                &&& task.uploading@.keeps_prefix(frame_hdr_bytes(self.id))
            },
    {
        match check_mtu(self.mtu, lens) {
            Ok(()) => Ok(
                UploaderTask {
                    udp_endpoint: self.udp_endpoint,
                    ardl_uploader: self.ardl_uploader,
                    set_state_rx: self.set_state_rx,
                    flush_interval: self.flush_interval,
                    mtu: self.mtu,
                    uploading: Uploading::new(self.mtu, self.id),
                },
            ),
            Err(e) => Err(e),
        }
    }
}

/// Whatever happens to an uploading task, its datagrams go on starting with the prefix with
/// which it started.
pub proof fn law_prefix_is_kept<S, P>(
    state: UploadState,
    prefix: Seq<u8>,
    event: UploadEvent<S, P>,
)
    requires
        state.wf(),
        state.keeps_prefix(prefix),
        state.expects(event),
    ensures
        state.next(event).0.wf(),
        state.next(event).0.keeps_prefix(prefix),
{
    let post = state.next(event).0;
    assert(post.datagram.take(prefix.len() as int) =~= state.datagram.take(prefix.len() as int));
}

/// As long as every datagram can be sent, the task stays clean: nothing of an earlier packet is
/// left in the datagram.
pub proof fn law_sent_datagrams_leave_no_trace<S, P>(
    state: UploadState,
    prefix: Seq<u8>,
    event: UploadEvent<S, P>,
)
    requires
        state.is_clean(prefix),
        state.expects(event),
        !(event matches UploadEvent::DatagramSent(Err(_))),
    ensures
        UploadState::initial(prefix, state.cap).is_clean(prefix),
        state.next(event).0.is_clean(prefix),
{
    let post = state.next(event).0;
    assert(post.datagram.take(prefix.len() as int) =~= prefix);
}

/// No datagram failed to be sent.
pub open spec fn all_sent<S, P>(events: Seq<UploadEvent<S, P>>) -> bool {
    forall|i: int|
        0 <= i < events.len() ==> !(#[trigger] events[i] matches UploadEvent::DatagramSent(Err(_)))
}

/// At every point of every run of a task, the datagram starts with the prefix with which the task
/// started; and as long as every datagram of the run could be sent, it holds nothing else, but
/// for the packet that is being sent.
pub proof fn law_every_datagram_starts_with_the_prefix<S, P>(
    prefix: Seq<u8>,
    cap: nat,
    events: Seq<UploadEvent<S, P>>,
)
    requires
        prefix.len() <= cap,
        UploadState::initial(prefix, cap).expects_all(events),
    ensures
        ({
            let state = UploadState::initial(prefix, cap).after(events);
            &&& state.wf()
            &&& state.keeps_prefix(prefix)
            &&& all_sent(events) ==> state.is_clean(prefix)
        }),
    decreases events.len(),
{
    let initial = UploadState::initial(prefix, cap);
    if events.len() == 0 {
        assert(prefix.take(prefix.len() as int) =~= prefix);
    } else {
        let earlier = events.drop_last();
        law_every_datagram_starts_with_the_prefix(prefix, cap, earlier);
        law_prefix_is_kept(initial.after(earlier), prefix, events.last());
        if all_sent(events) {
            assert forall|i: int| 0 <= i < earlier.len() implies !(
            #[trigger] earlier[i] matches UploadEvent::DatagramSent(Err(_))) by {
                assert(earlier[i] == events[i]);
            }
            assert(events.last() == events[events.len() - 1]);
            law_sent_datagrams_leave_no_trace(initial.after(earlier), prefix, events.last());
        }
    }
}

/// A clean task sends a packet as the frame of the stream's ID and the packet.
pub proof fn law_packets_are_framed<S, P>(state: UploadState, id: u32, packet: Vec<u8>)
    requires
        state.phase == Phase::Outputting,
        state.is_clean(frame_hdr_bytes(id)),
        state.datagram.len() + packet@.len() <= state.cap,
    ensures
        ({
            let output = UploadEvent::<S, P>::Output(LayerOutput::Packet(packet));
            let (sending, action) = state.next(output);
            let sent = UploadEvent::<S, P>::DatagramSent(Ok(()));
            &&& state.expects(output)
            &&& action == UploadAction::<S, P>::SendDatagram
            &&& sending.datagram == frame(id, packet@)
            &&& sending.expects(sent)
            &&& sending.next(sent) == (state, UploadAction::<S, P>::OutputPacket)
        }),
{
    let output = UploadEvent::<S, P>::Output(LayerOutput::Packet(packet));
    let sending = state.next(output).0;
    assert(sending.datagram.take(state.data_len_then as int) =~= state.datagram);
}

/// A datagram that could not be sent for want of memory stays in front of the next packet.
pub proof fn law_unsent_datagram_stays<S, P>(state: UploadState)
    requires
        state.phase == Phase::Sending,
    ensures
        ({
            let failed = UploadEvent::<S, P>::DatagramSent(Err(SendFailure::OutOfMemory));
            let (post, action) = state.next(failed);
            &&& action == UploadAction::<S, P>::Wait
            &&& post.begin_output().data_len_then == state.datagram.len()
            &&& post.datagram == state.datagram
        }),
{
}

/// The task ends exactly when the downloading half is gone, when nobody is left to send data, or
/// when a datagram cannot be sent for another reason than want of memory; and nothing happens to
/// it after that.
pub proof fn law_uploading_ends<S, P>(
    state: UploadState,
    event: UploadEvent<S, P>,
    later: UploadEvent<S, P>,
)
    requires
        state.wf(),
        state.expects(event),
    ensures
        ({
            let (post, action) = state.next(event);
            &&& action == UploadAction::<S, P>::Stop <==> (event
                == UploadEvent::<S, P>::StateReceived(None) || event
                == UploadEvent::<S, P>::ToSendRequested(None) || event matches
                UploadEvent::DatagramSent(Err(SendFailure::Other(_))))
            &&& action == UploadAction::<S, P>::Stop <==> post.phase == Phase::Stopped
            &&& post.phase == Phase::Stopped ==> !post.expects(later)
        }),
{
}

/// Data is never lost on the way to the layer: data that the layer refuses comes back in the
/// answer, and the write offers the same data again.
pub proof fn law_refused_data_is_offered_again<S, P, E>(state: UploadState, data: P)
    requires
        state.expects(UploadEvent::<S, P>::ToSendRequested(Some(data))),
    ensures
        ({
            let (submitting, to_send) = state.next(
                UploadEvent::<S, P>::ToSendRequested(Some(data)),
            );
            let refused = UploadEvent::<S, P>::ToSendRefused(data);
            let answer = UploadingToSendResponse::Refused(data);
            &&& to_send == UploadAction::<S, P>::ToSend(data)
            &&& submitting.expects(refused)
            &&& submitting.next(refused).1 == UploadAction::<S, P>::Answer(answer)
            &&& write_step::<P, E>(Ok(answer)) == WriteStep::Retry(data)
        }),
{
}

/// An output ends when the layer has nothing more to give, and the task then waits for its next
/// event, whatever the datagram holds: nothing of it changes.
pub proof fn law_output_ends_when_the_layer_is_dry<S, P>(state: UploadState)
    requires
        state.phase == Phase::Outputting,
    ensures
        ({
            let dry = UploadEvent::<S, P>::Output(LayerOutput::NothingToOutput);
            let (post, action) = state.next(dry);
            &&& state.expects(dry)
            &&& action == UploadAction::<S, P>::Wait
            &&& post.phase == Phase::Waiting
            &&& post.datagram == state.datagram
            &&& post.cap == state.cap
            &&& post.data_len_then == state.data_len_then
        }),
{
}

/// A waiting task takes up each of its three events, whatever the datagram holds. A due flush
/// begins an output at once; data goes to the layer, and so does a state, as it came.
pub proof fn law_waiting_task_takes_up_every_event<S, P>(
    state: UploadState,
    layer_state: Option<S>,
    data: Option<P>,
)
    requires
        state.phase == Phase::Waiting,
    ensures
        ({
            let received = UploadEvent::<S, P>::StateReceived(layer_state);
            let (post, action) = state.next(received);
            &&& state.expects(received)
            &&& action == (match layer_state {
                Some(layer_state) => UploadAction::<S, P>::SetState(layer_state),
                None => UploadAction::Stop,
            })
            &&& post.phase == (if layer_state is Some {
                Phase::SettingState
            } else {
                Phase::Stopped
            })
            &&& post.datagram == state.datagram
            &&& post.cap == state.cap
        }),
        ({
            let requested = UploadEvent::<S, P>::ToSendRequested(data);
            let (post, action) = state.next(requested);
            &&& state.expects(requested)
            &&& action == (match data {
                Some(data) => UploadAction::<S, P>::ToSend(data),
                None => UploadAction::Stop,
            })
            &&& post.phase == (if data is Some {
                Phase::Submitting
            } else {
                Phase::Stopped
            })
            &&& post.datagram == state.datagram
            &&& post.cap == state.cap
        }),
        ({
            let (post, action) = state.next(UploadEvent::<S, P>::FlushDue);
            &&& state.expects(UploadEvent::<S, P>::FlushDue)
            &&& action == UploadAction::<S, P>::OutputPacket
            &&& post.phase == Phase::Outputting
            &&& post.datagram == state.datagram
            &&& post.data_len_then == state.datagram.len()
            &&& post.cap == state.cap
        }),
{
}

/// What the layer has taken up is followed by an output: a state once it is set, and data once its
/// sender has been told that it is taken. Data that the layer refuses goes back, and the task
/// waits for its next event.
pub proof fn law_taken_up_work_is_output<S, P>(state: UploadState, layer_state: S, data: P, back: P)
    requires
        state.phase == Phase::Waiting,
    ensures
        ({
            let setting = state.next(UploadEvent::<S, P>::StateReceived(Some(layer_state))).0;
            let (post, action) = setting.next(UploadEvent::<S, P>::StateSet);
            &&& setting.expects(UploadEvent::<S, P>::StateSet)
            &&& action == UploadAction::<S, P>::OutputPacket
            &&& post.phase == Phase::Outputting
            &&& post.datagram == state.datagram
            &&& post.data_len_then == state.datagram.len()
            &&& post.cap == state.cap
        }),
        ({
            let submitting = state.next(UploadEvent::<S, P>::ToSendRequested(Some(data))).0;
            let (answering, answer) = submitting.next(UploadEvent::<S, P>::ToSendAccepted);
            let (post, action) = answering.next(UploadEvent::<S, P>::Answered);
            &&& submitting.expects(UploadEvent::<S, P>::ToSendAccepted)
            &&& answer == UploadAction::<S, P>::Answer(UploadingToSendResponse::Taken)
            &&& answering.expects(UploadEvent::<S, P>::Answered)
            &&& action == UploadAction::<S, P>::OutputPacket
            &&& post.phase == Phase::Outputting
            &&& post.datagram == state.datagram
            &&& post.data_len_then == state.datagram.len()
            &&& post.cap == state.cap
        }),
        ({
            let submitting = state.next(UploadEvent::<S, P>::ToSendRequested(Some(data))).0;
            let (answering, answer) = submitting.next(UploadEvent::<S, P>::ToSendRefused(back));
            let (post, action) = answering.next(UploadEvent::<S, P>::Answered);
            &&& submitting.expects(UploadEvent::<S, P>::ToSendRefused(back))
            &&& answer == UploadAction::<S, P>::Answer(UploadingToSendResponse::Refused(back))
            &&& answering.expects(UploadEvent::<S, P>::Answered)
            &&& action == UploadAction::<S, P>::Wait
            &&& post.phase == Phase::Waiting
            &&& post.datagram == state.datagram
            &&& post.cap == state.cap
        }),
{
}

/// Every packet that fits is sent, behind what the datagram held when the output began; once it is
/// sent the layer is asked for the next, with the datagram as it was. A datagram that cannot be
/// sent stays: for want of memory the task waits, and for any other reason it ends.
pub proof fn law_every_packet_is_sent<S, P>(
    state: UploadState,
    packet: Vec<u8>,
    error: std::io::Error,
)
    requires
        state.phase == Phase::Outputting,
        state.data_len_then == state.datagram.len(),
        state.datagram.len() + packet@.len() <= state.cap,
    ensures
        ({
            let output = UploadEvent::<S, P>::Output(LayerOutput::Packet(packet));
            let (sending, action) = state.next(output);
            let sent = sending.next(UploadEvent::<S, P>::DatagramSent(Ok(())));
            let starved = sending.next(
                UploadEvent::<S, P>::DatagramSent(Err(SendFailure::OutOfMemory)),
            );
            let failed = sending.next(
                UploadEvent::<S, P>::DatagramSent(Err(SendFailure::Other(error))),
            );
            &&& state.expects(output)
            &&& action == UploadAction::<S, P>::SendDatagram
            &&& sending.phase == Phase::Sending
            &&& sending.datagram == state.datagram + packet@
            &&& sending.cap == state.cap
            &&& forall|result: Result<(), SendFailure>| #[trigger]
                sending.expects(UploadEvent::<S, P>::DatagramSent(result))
            &&& sent.1 == UploadAction::<S, P>::OutputPacket
            &&& sent.0.phase == Phase::Outputting
            &&& sent.0.datagram == state.datagram
            &&& sent.0.data_len_then == state.datagram.len()
            &&& sent.0.cap == state.cap
            &&& starved.1 == UploadAction::<S, P>::Wait
            &&& starved.0.phase == Phase::Waiting
            &&& starved.0.datagram == state.datagram + packet@
            &&& failed.1 == UploadAction::<S, P>::Stop
            &&& failed.0.phase == Phase::Stopped
        }),
{
    let sending = state.next(UploadEvent::<S, P>::Output(LayerOutput::Packet(packet))).0;
    assert(sending.datagram.take(state.data_len_then as int) =~= state.datagram);
}

/// The capacity never changes, and only two events touch the datagram: a packet from the layer,
/// which goes to its back, and a datagram that has been sent, which takes packets off again.
pub proof fn law_datagram_changes_only_by_packets<S, P>(
    state: UploadState,
    event: UploadEvent<S, P>,
)
    ensures
        state.next(event).0.cap == state.cap,
        match event {
            UploadEvent::Output(LayerOutput::Packet(packet)) => state.next(event).0.datagram
                == state.datagram + packet@,
            UploadEvent::DatagramSent(Ok(())) => state.wf() ==> {
                &&& state.next(event).0.datagram.len() == state.data_len_then
                &&& state.next(event).0.datagram.is_prefix_of(state.datagram)
            },
            _ => state.next(event).0.datagram == state.datagram,
        },
{
}

/// A new task waits, with its prefix as the datagram and room up to its capacity.
pub proof fn law_new_task_waits_with_its_prefix(prefix: Seq<u8>, cap: nat)
    ensures
        ({
            let state = UploadState::initial(prefix, cap);
            &&& state.phase == Phase::Waiting
            &&& state.datagram == prefix
            &&& state.cap == cap
            &&& state.data_len_then == prefix.len()
        }),
{
}

/// The MTUs that are let pass are exactly those with which, after the frame header, the layer can
/// put out a push with one byte of data and an acknowledgement.
pub proof fn law_mtu_fits_every_kind_of_packet<S, P>(
    mtu: nat,
    lens: LayerHdrLens,
    id: u32,
    push: Vec<u8>,
    ack: Vec<u8>,
)
    requires
        push@.len() == lens.packet + lens.push + 1,
        ack@.len() == lens.packet + lens.ack,
    ensures
        ({
            let flushing = UploadState::initial(frame_hdr_bytes(id), mtu).next(
                UploadEvent::<S, P>::FlushDue,
            ).0;
            mtu_fits(mtu, lens) <==> flushing.expects(
                UploadEvent::<S, P>::Output(LayerOutput::Packet(push)),
            ) && flushing.expects(UploadEvent::<S, P>::Output(LayerOutput::Packet(ack)))
        }),
        mtu_fits(mtu, lens) <==> 4 + lens.packet + lens.push + 1 <= mtu && 4 + lens.packet
            + lens.ack <= mtu,
{
}

/// A write is over exactly when the layer has taken its data: the answer to data that was taken
/// ends it, the answer to data that was refused offers that data again, and a task that is over
/// fails it.
pub proof fn law_write_ends_when_its_data_is_taken<P, E>(data: P, error: E)
    ensures
        write_step::<P, E>(Ok(UploadingToSendResponse::Taken)) == WriteStep::<P>::Done,
        write_step::<P, E>(Ok(UploadingToSendResponse::Refused(data))) == WriteStep::Retry(data),
        write_step::<P, E>(Err(error)) == WriteStep::<P>::Failed(
            WriteError::RemoteClosedOrDownloaderDropped,
        ),
{
}

} // verus!
