//! Streams that have a peer to themselves: their datagrams are bare packets, without a frame
//! header.
use crate::streams::downloader::ArdlStreamDownloaderBuilder;
use crate::streams::uploader::{
    self, all_sent, check_mtu, law_every_datagram_starts_with_the_prefix, mtu_fits, LayerHdrLens,
    LayerOutput, Phase, UploadEvent, UploadState, UploaderTask, Uploading,
};
use crate::utils::buf::BufSlice;
use crate::utils::channel::{channel_bound, offers, same_channel, NewChannel};
use crate::utils::UdpEndpoint;
use std::time::Duration;
use tokio::sync::mpsc::{Receiver, Sender};
use vstd::prelude::*;

pub use crate::sockets::ConnectError;
pub use crate::streams::{ArdlStreamConfig, BuildError};

verus! {

/// The parts of a stream. `K` is the handle of the socket, and `T` that of the task that receives
/// from it, where the stream has one of its own.
pub struct ArdlStreamBuilder<K, T> {
    pub udp_endpoint: UdpEndpoint<K>,
    pub flush_interval: Duration,
    pub mtu: usize,
    pub socket_recv_task: Option<T>,
    pub input_rx: Receiver<BufSlice>,
}

impl<K, T> ArdlStreamBuilder<K, T> {
    /// `stream` is what these parts make of the halves `layer` of the reliability layer and the
    /// ends of the channel for states.
    pub open spec fn builds<U, D, L, X, R>(
        self,
        layer: Result<(U, D), L>,
        set_state_tx: X,
        set_state_rx: R,
        lens: LayerHdrLens,
        stream: Result<
            (UploaderTask<K, U, R>, ArdlStreamDownloaderBuilder<T, D, X>),
            BuildError<L>,
        >,
    ) -> bool {
        match layer {
            Err(e) => stream == Err::<
                (UploaderTask<K, U, R>, ArdlStreamDownloaderBuilder<T, D, X>),
                BuildError<L>,
            >(BuildError::ArdlError(e)),
            Ok((ardl_uploader, ardl_downloader)) => match stream {
                Ok((task, downloader)) => {
                    &&& mtu_fits(self.mtu as nat, lens)
                    &&& task.udp_endpoint == self.udp_endpoint
                    &&& task.ardl_uploader == ardl_uploader
                    &&& task.set_state_rx == set_state_rx
                    &&& task.flush_interval == self.flush_interval
                    &&& task.mtu == self.mtu
                    &&& task.uploading@ == UploadState::initial(Seq::empty(), self.mtu as nat)
                    &&& task.uploading@.wf()
                    &&& downloader.socket_recv_task == self.socket_recv_task
                    &&& downloader.input_rx == self.input_rx
                    &&& downloader.ardl_downloader == ardl_downloader
                    &&& downloader.set_state_tx == set_state_tx
                },
                Err(e) => {
                    &&& !mtu_fits(self.mtu as nat, lens)
                    &&& e == BuildError::<L>::UploaderError(uploader::BuildError::MtuTooSmall)
                },
            },
        }
    }

    /// The two tasks of the stream with these parts, around the halves `layer` of the
    /// reliability layer and the ends of the channel that carries states between the tasks.
    pub fn build<U, D, L, X, R>(
        self,
        layer: Result<(U, D), L>,
        set_state_tx: X,
        set_state_rx: R,
        lens: LayerHdrLens,
    ) -> (stream: Result<
        (UploaderTask<K, U, R>, ArdlStreamDownloaderBuilder<T, D, X>),
        BuildError<L>,
    >)
        ensures
            self.builds(layer, set_state_tx, set_state_rx, lens, stream),
    {
        let (ardl_uploader, ardl_downloader) = match layer {
            Ok(halves) => halves,
            Err(e) => return Err(BuildError::ArdlError(e)),
        };
        match check_mtu(self.mtu, lens) {
            Ok(()) => {},
            Err(e) => return Err(BuildError::UploaderError(e)),
        }
        let task = UploaderTask {
            udp_endpoint: self.udp_endpoint,
            ardl_uploader,
            set_state_rx,
            flush_interval: self.flush_interval,
            mtu: self.mtu,
            uploading: Uploading::unframed(self.mtu),
        };
        let downloader = ArdlStreamDownloaderBuilder {
            socket_recv_task: self.socket_recv_task,
            input_rx: self.input_rx,
            ardl_downloader,
            set_state_tx,
        };
        Ok((task, downloader))
    }
}

/// A new channel from the task that receives from the socket to the downloading task: it buffers
/// one packet.
pub fn input_channel() -> (halves: (Sender<BufSlice>, Receiver<BufSlice>))
    ensures
        same_channel(halves.0, halves.1),
        channel_bound(halves.0) == 1,
        offers(halves.0) == Seq::<(Seq<u8>, Option<bool>)>::empty(),
{
    NewChannel::new(1).into_halves()
}

/// What the task that receives from the socket does next.
#[derive(Debug)]
pub enum ReceiveAction {
    /// Receive a datagram.
    Receive,
    /// Forward the packet to the downloading task.
    Forward(BufSlice),
    /// End, and let go of the channel to the downloading task, so that it meets the end.
    Stop,
}

/// What the task that receives from the socket does next on a datagram, or on a failure of the
/// socket.
pub open spec fn received_action(datagram: Option<BufSlice>) -> ReceiveAction {
    match datagram {
        Some(datagram) => ReceiveAction::Forward(datagram),
        None => ReceiveAction::Stop,
    }
}

/// What it does next when a packet has been forwarded, or nobody takes packets any more.
pub open spec fn forwarded_action(delivered: bool) -> ReceiveAction {
    if delivered {
        ReceiveAction::Receive
    } else {
        ReceiveAction::Stop
    }
}

/// Takes up a datagram; `None` says that the remote UDP endpoint cannot be reached.
pub fn on_received(datagram: Option<BufSlice>) -> (action: ReceiveAction)
    ensures
        action == received_action(datagram),
        action == (match datagram {
            Some(datagram) => ReceiveAction::Forward(datagram),
            None => ReceiveAction::Stop,
        }),
{
    match datagram {
        Some(datagram) => ReceiveAction::Forward(datagram),
        None => ReceiveAction::Stop,
    }
}

/// Takes up whether a packet could be forwarded; where it could not, nobody takes packets any
/// more.
pub fn on_forwarded(delivered: bool) -> (action: ReceiveAction)
    ensures
        action == forwarded_action(delivered),
        action == (if delivered {
            ReceiveAction::Receive
        } else {
            ReceiveAction::Stop
        }),
{
    if delivered {
        ReceiveAction::Receive
    } else {
        ReceiveAction::Stop
    }
}

/// At every point of every run of the uploading task, as long as all datagrams could be sent, what
/// is sent of a packet is that packet and nothing else.
pub proof fn law_datagrams_are_bare_packets<S, P>(
    cap: nat,
    events: Seq<UploadEvent<S, P>>,
    packet: Vec<u8>,
)
    requires
        UploadState::initial(Seq::empty(), cap).expects_all(events),
        all_sent(events),
        UploadState::initial(Seq::empty(), cap).after(events).expects(
            UploadEvent::<S, P>::Output(LayerOutput::Packet(packet)),
        ),
    ensures
        UploadState::initial(Seq::empty(), cap).after(events).next(
            UploadEvent::<S, P>::Output(LayerOutput::Packet(packet)),
        ).0.datagram == packet@,
{
    let empty = Seq::<u8>::empty();
    law_every_datagram_starts_with_the_prefix(empty, cap, events);
    assert(empty + packet@ =~= packet@);
}

/// A build succeeds exactly when the layer could be built and a datagram of the MTU has room for a
/// push with one byte of data and for an acknowledgement, behind as many bytes as a frame header
/// has. The layer's own error comes first, as it is. A stream that was built keeps its settings
/// and its receiving task.
pub proof fn law_build_fails_for_two_reasons<K, T, U, D, L, X, R>(
    builder: ArdlStreamBuilder<K, T>,
    layer: Result<(U, D), L>,
    set_state_tx: X,
    set_state_rx: R,
    lens: LayerHdrLens,
    stream: Result<(UploaderTask<K, U, R>, ArdlStreamDownloaderBuilder<T, D, X>), BuildError<L>>,
)
    requires
        builder.builds(layer, set_state_tx, set_state_rx, lens, stream),
    ensures
        ({
            let push = 4 + lens.packet + lens.push + 1;
            let ack = 4 + lens.packet + lens.ack;
            match layer {
                Err(error) => stream matches Err(BuildError::ArdlError(e)) && e == error,
                Ok(_) => {
                    &&& stream is Ok <==> push <= builder.mtu && ack <= builder.mtu
                    &&& stream matches Err(e) ==> e == BuildError::<L>::UploaderError(
                        uploader::BuildError::MtuTooSmall,
                    )
                },
            }
        }),
        stream matches Ok((task, downloader)) ==> {
            &&& task.flush_interval == builder.flush_interval
            &&& task.mtu == builder.mtu
            &&& task.uploading@.cap == builder.mtu
            &&& task.uploading@.phase == Phase::Waiting
            &&& task.uploading@.datagram == Seq::<u8>::empty()
            &&& downloader.socket_recv_task == builder.socket_recv_task
        },
{
}

/// The two tasks of a stream are the halves of one connection: they have the two halves of one
/// reliability layer and the two ends of the channel for states, the downloading half reads the
/// packets of the stream, and the uploading half has the stream's endpoint.
pub proof fn law_halves_belong_to_one_stream<K, T, U, D, L, X, R>(
    builder: ArdlStreamBuilder<K, T>,
    layer: Result<(U, D), L>,
    set_state_tx: X,
    set_state_rx: R,
    lens: LayerHdrLens,
    task: UploaderTask<K, U, R>,
    downloader: ArdlStreamDownloaderBuilder<T, D, X>,
)
    requires
        builder.builds(layer, set_state_tx, set_state_rx, lens, Ok((task, downloader))),
    ensures
        layer == Ok::<(U, D), L>((task.ardl_uploader, downloader.ardl_downloader)),
        task.set_state_rx == set_state_rx,
        downloader.set_state_tx == set_state_tx,
        task.udp_endpoint == builder.udp_endpoint,
        downloader.input_rx == builder.input_rx,
{
}

/// Every datagram that is received is forwarded whole, and after each that was taken the next is
/// received. The task ends exactly when the socket fails or nobody takes packets any more.
pub proof fn law_every_datagram_is_forwarded(datagram: BufSlice)
    ensures
        received_action(Some(datagram)) == ReceiveAction::Forward(datagram),
        forwarded_action(true) == ReceiveAction::Receive,
        received_action(None) == ReceiveAction::Stop,
        forwarded_action(false) == ReceiveAction::Stop,
{
}

} // verus!
