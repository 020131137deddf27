//! How the two halves of a stream are put together.
use crate::protocol::frame_hdr::{frame, frame_hdr_bytes};
use crate::streams::downloader::{
    self, ArdlStreamDownloaderBuilder, DownloadAction, DownloadEvent,
};
use crate::streams::uploader::{
    self, all_sent, law_every_datagram_starts_with_the_prefix, law_packets_are_framed, mtu_fits,
    write_step, ArdlStreamUploaderBuilder, LayerHdrLens, LayerOutput, Phase, UploadAction,
    UploadEvent, UploadState, UploaderTask, WriteError, WriteStep,
};
use crate::utils::buf::BufSlice;
use crate::utils::time::duration_nanos;
use crate::utils::UdpEndpoint;
use std::time::Duration;
use tokio::sync::mpsc::Receiver;
use vstd::prelude::*;

verus! {

/// Why a stream could not be built. `L` is the error of the reliability layer.
#[derive(Debug)]
pub enum BuildError<L> {
    ArdlError(L),
    UploaderError(uploader::BuildError),
}

/// The settings of a stream. `B` holds those of the reliability layer.
pub struct ArdlStreamConfig<B> {
    pub mtu: usize,
    pub flush_interval: Duration,
    pub ardl_builder: B,
}

impl<B> ArdlStreamConfig<B> {
    /// The settings that suit most networks, with these settings of the reliability layer.
    pub fn default(ardl_builder: B) -> (config: ArdlStreamConfig<B>)
        ensures
            config.mtu == 1300,
            duration_nanos(config.flush_interval) == 10_000_000,
            config.ardl_builder == ardl_builder,
    {
        ArdlStreamConfig { mtu: 1300, flush_interval: Duration::from_millis(10), ardl_builder }
    }
}

/// The parts of a stream. `K` is the handle of the socket, and `T` that of the task that receives
/// from it, where the stream has one of its own.
pub struct ArdlStreamBuilder<K, T> {
    pub udp_endpoint: UdpEndpoint<K>,
    pub flush_interval: Duration,
    pub mtu: usize,
    pub socket_recv_task: Option<T>,
    pub input_rx: Receiver<BufSlice>,
    pub id: u32,
}

impl<K, T> ArdlStreamBuilder<K, T> {
    /// `stream` is what these parts make of the halves `layer` of the reliability layer and the
    /// ends of the channel for states.
    pub open spec fn builds<U, D, L, X, R>(
        self,
        layer: Result<(U, D), L>,
        set_state_tx: X,
        set_state_rx: R,
        lens: LayerHdrLens,
        stream: Result<
            (UploaderTask<K, U, R>, ArdlStreamDownloaderBuilder<T, D, X>),
            BuildError<L>,
        >,
    ) -> bool {
        match layer {
            Err(e) => stream == Err::<
                (UploaderTask<K, U, R>, ArdlStreamDownloaderBuilder<T, D, X>),
                BuildError<L>,
            >(BuildError::ArdlError(e)),
            Ok((ardl_uploader, ardl_downloader)) => match stream {
                Ok((task, downloader)) => {
                    &&& mtu_fits(self.mtu as nat, lens)
                    &&& task.udp_endpoint == self.udp_endpoint
                    &&& task.ardl_uploader == ardl_uploader
                    &&& task.set_state_rx == set_state_rx
                    &&& task.flush_interval == self.flush_interval
                    &&& task.mtu == self.mtu
                    &&& task.uploading@ == UploadState::initial(
                        frame_hdr_bytes(self.id),
                        self.mtu as nat,
                    )
                    &&& task.uploading@.wf()
                    &&& task.uploading@.keeps_prefix(frame_hdr_bytes(self.id))
                    &&& downloader.socket_recv_task == self.socket_recv_task
                    &&& downloader.input_rx == self.input_rx
                    &&& downloader.ardl_downloader == ardl_downloader
                    &&& downloader.set_state_tx == set_state_tx
                },
                Err(e) => {
                    &&& !mtu_fits(self.mtu as nat, lens)
                    &&& e == BuildError::<L>::UploaderError(uploader::BuildError::MtuTooSmall)
                },
            },
        }
    }

    /// The two tasks of the stream with these parts, around the halves `layer` of the
    /// reliability layer and the ends of the channel that carries states between the tasks.
    pub fn build<U, D, L, X, R>(
        self,
        layer: Result<(U, D), L>,
        set_state_tx: X,
        set_state_rx: R,
        lens: LayerHdrLens,
    ) -> (stream: Result<
        (UploaderTask<K, U, R>, ArdlStreamDownloaderBuilder<T, D, X>),
        BuildError<L>,
    >)
        ensures
            self.builds(layer, set_state_tx, set_state_rx, lens, stream),
    {
        let (ardl_uploader, ardl_downloader) = match layer {
            Ok(halves) => halves,
            Err(e) => return Err(BuildError::ArdlError(e)),
        };
        let uploader_builder = ArdlStreamUploaderBuilder {
            udp_endpoint: self.udp_endpoint,
            ardl_uploader,
            set_state_rx,
            flush_interval: self.flush_interval,
            mtu: self.mtu,
            id: self.id,
        };
        let task = match uploader_builder.build(lens) {
            Ok(task) => task,
            Err(e) => return Err(BuildError::UploaderError(e)),
        };
        let downloader = ArdlStreamDownloaderBuilder {
            socket_recv_task: self.socket_recv_task,
            input_rx: self.input_rx,
            ardl_downloader,
            set_state_tx,
        };
        Ok((task, downloader))
    }
}

/// The two tasks of a stream are the halves of one connection, at every point of every run of the
/// uploading task. They have the two halves of one reliability layer and the two ends of the
/// channel for states. The downloading half reads the packets of the stream. The uploading half
/// has the stream's endpoint, and sends under the stream's ID: every datagram starts with the
/// frame header, and as long as all datagrams could be sent, each is the frame of its packet.
pub proof fn law_halves_belong_to_one_stream<K, T, U, D, L, X, R, S, P>(
    builder: ArdlStreamBuilder<K, T>,
    layer: Result<(U, D), L>,
    set_state_tx: X,
    set_state_rx: R,
    lens: LayerHdrLens,
    task: UploaderTask<K, U, R>,
    downloader: ArdlStreamDownloaderBuilder<T, D, X>,
    events: Seq<UploadEvent<S, P>>,
    packet: Vec<u8>,
)
    requires
        builder.builds(layer, set_state_tx, set_state_rx, lens, Ok((task, downloader))),
        task.uploading@.expects_all(events),
    ensures
        layer == Ok::<(U, D), L>((task.ardl_uploader, downloader.ardl_downloader)),
        task.set_state_rx == set_state_rx,
        downloader.set_state_tx == set_state_tx,
        task.udp_endpoint == builder.udp_endpoint,
        downloader.input_rx == builder.input_rx,
        ({
            let state = task.uploading@.after(events);
            let output = UploadEvent::<S, P>::Output(LayerOutput::Packet(packet));
            &&& state.keeps_prefix(frame_hdr_bytes(builder.id))
            &&& all_sent(events) && state.expects(output) ==> state.next(output).0.datagram
                == frame(builder.id, packet@)
        }),
{
    let prefix = frame_hdr_bytes(builder.id);
    law_every_datagram_starts_with_the_prefix(prefix, builder.mtu as nat, events);
    let state = task.uploading@.after(events);
    let output = UploadEvent::<S, P>::Output(LayerOutput::Packet(packet));
    if all_sent(events) && state.expects(output) {
        law_packets_are_framed::<S, P>(state, builder.id, packet);
    }
}

/// The states that the downloading half makes of its packets are those that the uploading half
/// takes up; and once the downloading half is gone, and the channel for states with it, the
/// uploading half ends. Nothing happens to it after that, and writes fail.
pub proof fn law_uploading_follows_downloading<K, T, U, D, L, X, R, S, P, E>(
    builder: ArdlStreamBuilder<K, T>,
    layer: Result<(U, D), L>,
    set_state_tx: X,
    set_state_rx: R,
    lens: LayerHdrLens,
    task: UploaderTask<K, U, R>,
    downloader: ArdlStreamDownloaderBuilder<T, D, X>,
    events: Seq<UploadEvent<S, P>>,
    state: S,
    later: UploadEvent<S, P>,
    error: E,
)
    requires
        builder.builds(layer, set_state_tx, set_state_rx, lens, Ok((task, downloader))),
        task.uploading@.expects_all(events),
        task.uploading@.after(events).phase == Phase::Waiting,
    ensures
        downloader::next(DownloadEvent::<S, P>::Decoded(Some(state))).1
            == DownloadAction::<S, P>::SendState(state),
        ({
            let uploading = task.uploading@.after(events);
            let received = UploadEvent::<S, P>::StateReceived(Some(state));
            let gone = UploadEvent::<S, P>::StateReceived(None);
            &&& uploading.expects(received)
            &&& uploading.next(received).1 == UploadAction::<S, P>::SetState(state)
            &&& uploading.expects(gone)
            &&& uploading.next(gone).1 == UploadAction::<S, P>::Stop
            &&& !uploading.next(gone).0.expects(later)
        }),
        write_step::<P, E>(Err(error)) == WriteStep::<P>::Failed(
            WriteError::RemoteClosedOrDownloaderDropped,
        ),
{
}

/// A build succeeds exactly when the layer could be built and, with the frame header, a datagram of
/// the MTU has room for a push with one byte of data and for an acknowledgement. The layer's own
/// error comes first, as it is. A stream that was built keeps its settings and its receiving task.
pub proof fn law_build_fails_for_two_reasons<K, T, U, D, L, X, R>(
    builder: ArdlStreamBuilder<K, T>,
    layer: Result<(U, D), L>,
    set_state_tx: X,
    set_state_rx: R,
    lens: LayerHdrLens,
    stream: Result<(UploaderTask<K, U, R>, ArdlStreamDownloaderBuilder<T, D, X>), BuildError<L>>,
)
    requires
        builder.builds(layer, set_state_tx, set_state_rx, lens, stream),
    ensures
        ({
            let push = 4 + lens.packet + lens.push + 1;
            let ack = 4 + lens.packet + lens.ack;
            match layer {
                Err(error) => stream matches Err(BuildError::ArdlError(e)) && e == error,
                Ok(_) => {
                    &&& stream is Ok <==> push <= builder.mtu && ack <= builder.mtu
                    &&& stream matches Err(e) ==> e == BuildError::<L>::UploaderError(
                        uploader::BuildError::MtuTooSmall,
                    )
                },
            }
        }),
        stream matches Ok((task, downloader)) ==> {
            &&& task.flush_interval == builder.flush_interval
            &&& task.mtu == builder.mtu
            &&& task.uploading@.cap == builder.mtu
            &&& task.uploading@.phase == Phase::Waiting
            &&& task.uploading@.datagram == frame_hdr_bytes(builder.id)
            &&& downloader.socket_recv_task == builder.socket_recv_task
        },
{
}

} // verus!
