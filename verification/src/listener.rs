//! A listener for one stream per peer: its table of downloaders, keyed by the peer's address.
//!
//! A datagram from an address without an accepted downloader opens one, which is *pending*: its
//! other end waits in the accept queue. An accept takes the end at the front of the queue and
//! makes the downloader *accepted*; from then on the datagrams of its address go to it.
use crate::stream::ArdlStreamBuilder;
use crate::utils::addr_map::AddrMap;
use crate::utils::buf::BufSlice;
use crate::utils::channel::{
    after_offer, channel_bound, lemma_put_in_push, offers, put_in, same_channel, try_send,
    NewChannel, SendOutcome,
};
use crate::utils::{SocketAddr, UdpEndpoint};
use std::collections::VecDeque;
use std::time::Duration;
use tokio::sync::mpsc::{Receiver, Sender};
use vstd::prelude::*;

verus! {

/// The number of bytes of the largest datagram that the listener takes.
pub const MTU: usize = 1300;

/// The length limit of the listener's accept queue.
pub const ACCEPT_QUEUE_LEN_CAP: usize = 1024;

/// The end of a downloader that an accept hands out.
#[derive(Debug)]
pub struct DownloadPath {
    pub remote_addr: SocketAddr,
    pub input_rx: Receiver<BufSlice>,
}

/// The downloaders of a listener: those accepted, those pending, and the accept queue with its
/// length limit.
#[verifier::ext_equal]
pub struct Downloaders {
    pub accepted: Map<SocketAddr, Sender<BufSlice>>,
    pub pending: Map<SocketAddr, Sender<BufSlice>>,
    pub queue: Seq<DownloadPath>,
    pub cap: nat,
}

/// What became of a datagram.
#[derive(Debug, PartialEq, Eq, Structural, Clone, Copy)]
pub enum Delivery {
    /// It went to the accepted downloader of its sender.
    Forwarded,
    /// The accepted downloader has no room for it.
    Overflowed,
    /// It opened a downloader, whose other end is at the back of the accept queue, and waits in
    /// the downloader's channel: a waiting accept has to be woken.
    Opened,
    /// It would open a downloader, but the accept queue is full.
    Refused,
}

impl Downloaders {
    /// Some queued end is the other end of the pending downloader of `remote_addr`.
    pub open spec fn is_queued(self, remote_addr: SocketAddr) -> bool {
        exists|i: int|
            0 <= i < self.queue.len() && (#[trigger] self.queue[i]).remote_addr == remote_addr
                && same_channel(self.pending[remote_addr], self.queue[i].input_rx)
    }

    /// The queue keeps to its limit; the other end of every pending downloader is queued; and no
    /// address is both pending and accepted.
    pub open spec fn wf(self) -> bool {
        &&& self.queue.len() <= self.cap
        &&& forall|remote_addr: SocketAddr| #[trigger]
            self.pending.contains_key(remote_addr) ==> self.is_queued(remote_addr)
                && !self.accepted.contains_key(remote_addr)
    }

    /// The downloaders without the accepted one of `remote_addr`.
    pub open spec fn without(self, remote_addr: SocketAddr) -> Downloaders {
        Downloaders { accepted: self.accepted.remove(remote_addr), ..self }
    }

    /// These downloaders with another sending half for the accepted one of `remote_addr`.
    pub open spec fn with_input_tx(
        self,
        remote_addr: SocketAddr,
        input_tx: Sender<BufSlice>,
    ) -> Downloaders {
        Downloaders { accepted: self.accepted.insert(remote_addr, input_tx), ..self }
    }

    /// `post` is these downloaders with one more end in the accept queue. Its channel buffers one
    /// packet, has been given `datagram`, and is that of the pending downloader of `remote_addr`, also
    /// where the address had one already.
    pub open spec fn opened(
        self,
        post: Downloaders,
        remote_addr: SocketAddr,
        datagram: Seq<u8>,
    ) -> bool {
        let path = post.queue.last();
        let input_tx = post.pending[remote_addr];
        &&& post.accepted == self.accepted
        &&& post.pending == self.pending.insert(remote_addr, input_tx)
        &&& post.queue == self.queue.push(path)
        &&& post.cap == self.cap
        &&& path.remote_addr == remote_addr
        &&& same_channel(input_tx, path.input_rx)
        &&& channel_bound(input_tx) == 1
        &&& offers(input_tx) == seq![(datagram, Some(true))]
    }

    /// An attempt to open a downloader for this datagram: it succeeds exactly when the accept
    /// queue is below its limit.
    pub open spec fn try_opened(
        self,
        post: Downloaders,
        remote_addr: SocketAddr,
        datagram: Seq<u8>,
        delivery: Delivery,
    ) -> bool {
        if self.queue.len() < self.cap {
            &&& self.opened(post, remote_addr, datagram)
            &&& delivery == Delivery::Opened
        } else {
            &&& post == self
            &&& delivery == Delivery::Refused
        }
    }

    /// A datagram has been offered to the accepted downloader of its sender, once, and to no
    /// other downloader. Where that turned out to be closed, it is gone, and the datagram opens a
    /// downloader.
    pub open spec fn offered(
        self,
        post: Downloaders,
        remote_addr: SocketAddr,
        datagram: Seq<u8>,
        delivery: Delivery,
    ) -> bool {
        let input_tx = self.accepted[remote_addr];
        match delivery {
            Delivery::Forwarded | Delivery::Overflowed => {
                let taken = Some(delivery == Delivery::Forwarded);
                &&& post == self.with_input_tx(remote_addr, post.accepted[remote_addr])
                &&& after_offer(input_tx, post.accepted[remote_addr], datagram, taken)
            },
            _ => {
                &&& exists|closed: Sender<BufSlice>| #[trigger]
                    after_offer(input_tx, closed, datagram, None)
                &&& self.without(remote_addr).try_opened(post, remote_addr, datagram, delivery)
            },
        }
    }

    /// `post` is what a datagram from `remote_addr` makes of these downloaders, and `delivery`
    /// says what became of it. Where it is refused, nothing has been offered to a downloader that
    /// is still there.
    pub open spec fn after_datagram(
        self,
        post: Downloaders,
        datagram: Seq<u8>,
        remote_addr: SocketAddr,
        delivery: Delivery,
    ) -> bool {
        if self.accepted.contains_key(remote_addr) {
            self.offered(post, remote_addr, datagram, delivery)
        } else {
            self.try_opened(post, remote_addr, datagram, delivery)
        }
    }

    /// The end at the front of the queue, if there is one, belongs to a pending downloader. It
    /// does not where an earlier end of the same address was handed out in the meantime.
    pub open spec fn front_is_pending(self) -> bool {
        self.queue.len() > 0 ==> self.pending.contains_key(self.queue[0].remote_addr)
    }

    /// The end that an accept hands out: the one at the front of the queue, if there is one.
    pub open spec fn front(self) -> Option<DownloadPath> {
        if self.queue.len() == 0 {
            None
        } else {
            Some(self.queue[0])
        }
    }

    /// The downloaders after an accept: that of the address at the front of the queue is
    /// accepted.
    pub open spec fn accept_front(self) -> Downloaders {
        if self.queue.len() == 0 {
            self
        } else {
            let remote_addr = self.queue[0].remote_addr;
            Downloaders {
                accepted: self.accepted.insert(remote_addr, self.pending[remote_addr]),
                pending: self.pending.remove(remote_addr),
                queue: self.queue.skip(1),
                ..self
            }
        }
    }
}

/// The running state of a listener. Its view is its downloaders.
pub struct Listening {
    accepted_downloaders: AddrMap<Sender<BufSlice>>,
    pending_downloaders: AddrMap<Sender<BufSlice>>,
    accept_queue: VecDeque<DownloadPath>,
    accept_queue_len_cap: usize,
}

impl View for Listening {
    type V = Downloaders;

    closed spec fn view(&self) -> Downloaders {
        Downloaders {
            accepted: self.accepted_downloaders@,
            pending: self.pending_downloaders@,
            queue: self.accept_queue@,
            cap: self.accept_queue_len_cap as nat,
        }
    }
}

impl Listening {
    /// The tables hold each address once, and the downloaders are well formed.
    pub closed spec fn wf(&self) -> bool {
        &&& self.accepted_downloaders.wf()
        &&& self.pending_downloaders.wf()
        &&& self@.wf()
    }

    /// A listener without downloaders.
    pub fn new(accept_queue_len_cap: usize) -> (listening: Listening)
        ensures
            listening.wf(),
            listening@.wf(),
            listening@ == (Downloaders {
                accepted: Map::empty(),
                pending: Map::empty(),
                queue: Seq::empty(),
                cap: accept_queue_len_cap as nat,
            }),
    {
        Listening {
            accepted_downloaders: AddrMap::new(),
            pending_downloaders: AddrMap::new(),
            accept_queue: VecDeque::new(),
            accept_queue_len_cap,
        }
    }

    /// Opens a downloader for `datagram` if the accept queue is below its limit.
    fn try_accept(&mut self, remote_addr: SocketAddr, datagram: BufSlice) -> (delivery: Delivery)
        requires
            old(self).wf(),
            !old(self)@.accepted.contains_key(remote_addr),
        ensures
            final(self).wf(),
            final(self)@.wf(),
            old(self)@.try_opened(final(self)@, remote_addr, datagram@, delivery),
    {
        if self.accept_queue.len() < self.accept_queue_len_cap {
            let mut channel = NewChannel::new(1);
            let _ = channel.offer(datagram);
            let (input_tx, input_rx) = channel.into_halves();
            let accept = DownloadPath { remote_addr, input_rx };
            self.pending_downloaders.insert(remote_addr, input_tx);
            self.accept_queue.push_back(accept);
            proof {
                assert(self@.queue.last() == accept);
                assert(offers(input_tx) =~= seq![(datagram@, Some(true))]);
                lemma_opened_keeps_wf(old(self)@, self@, remote_addr, datagram@);
            }
            Delivery::Opened
        } else {
            Delivery::Refused
        }
    }

    /// Takes up the outcome of offering a datagram to the accepted downloader of its sender.
    pub fn on_send_outcome(&mut self, remote_addr: SocketAddr, outcome: SendOutcome) -> (delivery:
        Delivery)
        requires
            old(self).wf(),
        ensures
            final(self).wf(),
            final(self)@.wf(),
            match outcome {
                SendOutcome::Sent => {
                    &&& final(self)@ == old(self)@
                    &&& delivery == Delivery::Forwarded
                },
                SendOutcome::Full(_) => {
                    &&& final(self)@ == old(self)@
                    &&& delivery == Delivery::Overflowed
                },
                SendOutcome::Closed(datagram) => old(self)@.without(remote_addr).try_opened(
                    final(self)@,
                    remote_addr,
                    datagram@,
                    delivery,
                ),
            },
    {
        match outcome {
            SendOutcome::Sent => Delivery::Forwarded,
            SendOutcome::Full(_) => Delivery::Overflowed,
            SendOutcome::Closed(datagram) => {
                let _ = self.accepted_downloaders.remove(remote_addr);
                proof {
                    assert(self@ =~= old(self)@.without(remote_addr));
                    lemma_accepted_keeps_wf(old(self)@, self@);
                }
                self.try_accept(remote_addr, datagram)
            },
        }
    }

    /// Takes up a datagram from `remote_addr`.
    pub fn on_datagram(&mut self, datagram: BufSlice, remote_addr: SocketAddr) -> (delivery:
        Delivery)
        requires
            old(self).wf(),
        ensures
            final(self).wf(),
            final(self)@.wf(),
            old(self)@.after_datagram(final(self)@, datagram@, remote_addr, delivery),
    {
        match self.accepted_downloaders.remove(remote_addr) {
            Some(input_tx) => {
                let mut input_tx = input_tx;
                let outcome = try_send(&mut input_tx, datagram);
                self.accepted_downloaders.insert(remote_addr, input_tx);
                proof {
                    let taken = outcome.taken();
                    assert(after_offer(old(self)@.accepted[remote_addr], input_tx, datagram@, taken));
                    assert(self@ =~= old(self)@.with_input_tx(remote_addr, input_tx));
                    assert(self@.without(remote_addr) =~= old(self)@.without(remote_addr));
                    lemma_accepted_keeps_wf(old(self)@, self@);
                }
                self.on_send_outcome(remote_addr, outcome)
            },
            None => {
                assert(self@ =~= old(self)@);
                self.try_accept(remote_addr, datagram)
            },
        }
    }

    /// Whether an accept can be taken up now.
    pub fn can_accept(&self) -> (can: bool)
        requires
            self.wf(),
        ensures
            can == self@.front_is_pending(),
    {
        if self.accept_queue.len() == 0 {
            true
        } else {
            match self.pending_downloaders.get(self.accept_queue[0].remote_addr) {
                Some(_) => true,
                None => false,
            }
        }
    }

    /// Takes up an accept: hands out the end at the front of the queue, if there is one.
    pub fn on_accept_request(&mut self) -> (accept: Option<DownloadPath>)
        requires
            old(self).wf(),
            old(self)@.front_is_pending(),
        ensures
            final(self).wf(),
            final(self)@.wf(),
            final(self)@ == old(self)@.accept_front(),
            accept == old(self)@.front(),
            match accept {
                Some(accept) => {
                    &&& old(self)@.queue.len() > 0
                    &&& accept == old(self)@.queue[0]
                },
                None => old(self)@.queue.len() == 0,
            },
    {
        match self.accept_queue.pop_front() {
            Some(accept) => {
                match self.pending_downloaders.remove(accept.remote_addr) {
                    Some(downloader) => {
                        self.accepted_downloaders.insert(accept.remote_addr, downloader);
                    },
                    None => {},
                }
                proof {
                    assert(self@ =~= old(self)@.accept_front());
                    lemma_accept_front_keeps_wf(old(self)@);
                }
                Some(accept)
            },
            None => None,
        }
    }
}

impl DownloadPath {
    /// `builder` holds the parts of the stream of this downloader.
    pub open spec fn becomes<K, T>(
        self,
        builder: ArdlStreamBuilder<K, T>,
        listener: K,
        flush_interval: Duration,
        mtu: usize,
    ) -> bool {
        &&& builder.udp_endpoint == (UdpEndpoint::Listener {
            listener,
            remote_addr: self.remote_addr,
        })
        &&& builder.flush_interval == flush_interval
        &&& builder.mtu == mtu
        &&& builder.socket_recv_task is None
        &&& builder.input_rx == self.input_rx
    }

    /// The parts of the stream of this downloader, which shares the socket `listener`.
    pub fn into_stream_builder<K, T>(
        self,
        listener: K,
        flush_interval: Duration,
        mtu: usize,
    ) -> (builder: ArdlStreamBuilder<K, T>)
        ensures
            self.becomes(builder, listener, flush_interval, mtu),
            builder == (ArdlStreamBuilder::<K, T> {
                udp_endpoint: UdpEndpoint::Listener { listener, remote_addr: self.remote_addr },
                flush_interval,
                mtu,
                socket_recv_task: None,
                input_rx: self.input_rx,
            }),
    {
        ArdlStreamBuilder {
            udp_endpoint: UdpEndpoint::Listener { listener, remote_addr: self.remote_addr },
            flush_interval,
            mtu,
            socket_recv_task: None,
            input_rx: self.input_rx,
        }
    }
}

/// What an accept does next.
#[derive(Debug)]
pub enum AcceptStep {
    /// There is a downloader: build its stream.
    Accepted(DownloadPath),
    /// Wait until a downloader is opened, then ask again.
    Retry,
}

/// What an accept does next on this answer of the listener.
pub open spec fn accept_step(response: Option<DownloadPath>) -> AcceptStep {
    match response {
        Some(path) => AcceptStep::Accepted(path),
        None => AcceptStep::Retry,
    }
}

/// Takes up the listener's answer to an accept.
pub fn on_accept_response(response: Option<DownloadPath>) -> (step: AcceptStep)
    ensures
        step == accept_step(response),
        step == (match response {
            Some(path) => AcceptStep::Accepted(path),
            None => AcceptStep::Retry,
        }),
{
    match response {
        Some(path) => AcceptStep::Accepted(path),
        None => AcceptStep::Retry,
    }
}

/// A change of the accepted downloaders alone keeps the downloaders well formed, unless it adds
/// an address.
proof fn lemma_accepted_keeps_wf(pre: Downloaders, post: Downloaders)
    requires
        pre.wf(),
        post == (Downloaders { accepted: post.accepted, ..pre }),
        forall|remote_addr: SocketAddr| #[trigger]
            post.accepted.contains_key(remote_addr) ==> pre.accepted.contains_key(remote_addr),
    ensures
        post.wf(),
{
    assert forall|other: SocketAddr| #[trigger] post.pending.contains_key(
        other,
    ) implies post.is_queued(other) && !post.accepted.contains_key(other) by {
        assert(pre.is_queued(other));
    }
}

/// A new downloader keeps the downloaders well formed.
proof fn lemma_opened_keeps_wf(
    pre: Downloaders,
    post: Downloaders,
    remote_addr: SocketAddr,
    datagram: Seq<u8>,
)
    requires
        pre.wf(),
        pre.queue.len() < pre.cap,
        !pre.accepted.contains_key(remote_addr),
        pre.opened(post, remote_addr, datagram),
    ensures
        post.wf(),
{
    assert forall|other: SocketAddr| #[trigger] post.pending.contains_key(
        other,
    ) implies post.is_queued(other) && !post.accepted.contains_key(other) by {
        if other == remote_addr {
            assert(post.queue[post.queue.len() - 1] == post.queue.last());
        } else {
            assert(pre.pending.contains_key(other));
            let i = choose|i: int|
                0 <= i < pre.queue.len() && (#[trigger] pre.queue[i]).remote_addr == other
                    && same_channel(pre.pending[other], pre.queue[i].input_rx);
            assert(post.queue[i] == pre.queue[i]);
        }
    }
}

/// An accept keeps the downloaders well formed.
proof fn lemma_accept_front_keeps_wf(pre: Downloaders)
    requires
        pre.wf(),
        pre.front_is_pending(),
    ensures
        pre.accept_front().wf(),
{
    let post = pre.accept_front();
    if pre.queue.len() > 0 {
        assert forall|other: SocketAddr| #[trigger] post.pending.contains_key(
            other,
        ) implies post.is_queued(other) && !post.accepted.contains_key(other) by {
            assert(pre.is_queued(other));
            let i = choose|i: int|
                0 <= i < pre.queue.len() && (#[trigger] pre.queue[i]).remote_addr == other
                    && same_channel(pre.pending[other], pre.queue[i].input_rx);
            assert(post.queue[i - 1] == pre.queue[i]);
        }
    }
}

/// Where the address at the front of the queue is not queued a second time, an accept hands out
/// the other end of the downloader that it makes accepted.
pub proof fn law_lone_path_is_fed(downloaders: Downloaders)
    requires
        downloaders.wf(),
        downloaders.queue.len() > 0,
        downloaders.front_is_pending(),
        forall|i: int|
            0 < i < downloaders.queue.len() ==> (#[trigger] downloaders.queue[i]).remote_addr
                != downloaders.queue[0].remote_addr,
    ensures
        ({
            let path = downloaders.queue[0];
            let post = downloaders.accept_front();
            &&& post.accepted.contains_key(path.remote_addr)
            &&& same_channel(post.accepted[path.remote_addr], path.input_rx)
        }),
{
    assert(downloaders.is_queued(downloaders.queue[0].remote_addr));
}

/// A datagram from an address that is already queued opens a downloader all the same, and the
/// earlier end of that address is then no longer fed: the accept that hands out the first of the
/// two leaves nothing pending for the second.
pub proof fn law_second_path_is_not_pending(
    pre: Downloaders,
    post: Downloaders,
    remote_addr: SocketAddr,
    datagram: Seq<u8>,
)
    requires
        pre.queue.len() == 1,
        pre.queue[0].remote_addr == remote_addr,
        pre.opened(post, remote_addr, datagram),
    ensures
        post.front_is_pending(),
        !post.accept_front().front_is_pending(),
{
    assert(post.queue[0] == pre.queue[0]);
    assert(post.accept_front().queue[0] == post.queue[1]);
}

/// A datagram touches no downloader but that of its sender: every other downloader keeps its place
/// and all that its channel has been offered.
pub proof fn law_datagram_touches_no_other_downloader(
    pre: Downloaders,
    post: Downloaders,
    datagram: Seq<u8>,
    remote_addr: SocketAddr,
    delivery: Delivery,
    other: SocketAddr,
)
    requires
        pre.after_datagram(post, datagram, remote_addr, delivery),
        other != remote_addr,
    ensures
        post.pending.contains_key(other) == pre.pending.contains_key(other),
        post.accepted.contains_key(other) == pre.accepted.contains_key(other),
        pre.pending.contains_key(other) ==> post.pending[other] == pre.pending[other],
        pre.accepted.contains_key(other) ==> post.accepted[other] == pre.accepted[other],
{
}

/// A datagram from the address of an accepted downloader is offered to that downloader: it is put
/// into the channel, or dropped because that is full, and either way the downloader stays
/// accepted and nothing else changes. Only a downloader that has been offered the datagram and is
/// closed gives up its place.
pub proof fn law_datagram_reaches_its_downloader(
    pre: Downloaders,
    post: Downloaders,
    datagram: Seq<u8>,
    remote_addr: SocketAddr,
    delivery: Delivery,
)
    requires
        pre.accepted.contains_key(remote_addr),
        pre.after_datagram(post, datagram, remote_addr, delivery),
    ensures
        ({
            let before = pre.accepted[remote_addr];
            let after = post.accepted[remote_addr];
            match delivery {
                Delivery::Forwarded => {
                    &&& post == pre.with_input_tx(remote_addr, after)
                    &&& put_in(offers(after)) == put_in(offers(before)).push(datagram)
                },
                Delivery::Overflowed => {
                    &&& post == pre.with_input_tx(remote_addr, after)
                    &&& offers(after) == offers(before).push((datagram, Some(false)))
                    &&& put_in(offers(after)) == put_in(offers(before))
                },
                Delivery::Opened | Delivery::Refused => exists|closed: Sender<BufSlice>| #[trigger]
                    after_offer(before, closed, datagram, None),
            }
        }),
{
    let before = pre.accepted[remote_addr];
    lemma_put_in_push(offers(before), datagram, Some(delivery == Delivery::Forwarded));
}

/// A turn of the listening task.
pub enum Turn {
    /// A datagram came in, with this result.
    Received { datagram: Seq<u8>, remote_addr: SocketAddr, delivery: Delivery },
    /// An accept was taken up.
    Accepted,
}

/// A run of the listening task: its turns, and the downloaders before the first and after each.
pub struct Run {
    pub states: Seq<Downloaders>,
    pub turns: Seq<Turn>,
}

impl Downloaders {
    /// `post` is what a turn makes of these downloaders.
    pub open spec fn after_turn(self, post: Downloaders, turn: Turn) -> bool {
        match turn {
            Turn::Received { datagram, remote_addr, delivery } => self.after_datagram(
                post,
                datagram,
                remote_addr,
                delivery,
            ),
            Turn::Accepted => {
                &&& self.front_is_pending()
                &&& post == self.accept_front()
            },
        }
    }
}

impl Run {
    /// The task starts without downloaders, and every turn does to them what it should.
    pub open spec fn wf(self) -> bool {
        &&& self.states.len() == self.turns.len() + 1
        &&& self.states[0].accepted == Map::<SocketAddr, Sender<BufSlice>>::empty()
        &&& self.states[0].pending == Map::<SocketAddr, Sender<BufSlice>>::empty()
        &&& self.states[0].queue.len() == 0
        &&& forall|i: int|
            0 <= i < self.turns.len() ==> self.states[i].after_turn(
                self.states[i + 1],
                #[trigger] self.turns[i],
            )
    }

    /// The turn brings a datagram from this address, with this result.
    pub open spec fn delivers(self, turn: int, addr: SocketAddr, result: Delivery) -> bool {
        &&& self.turns[turn] matches Turn::Received { remote_addr, delivery, .. }
        &&& remote_addr == addr
        &&& delivery == result
    }

    /// Among the first `n` turns, the one that opened the latest downloader of this address, and
    /// those after it that forwarded a datagram to that downloader.
    pub open spec fn arrivals(self, addr: SocketAddr, n: nat) -> Seq<int>
        decreases n,
    {
        if n == 0 {
            Seq::empty()
        } else {
            let turn = n - 1;
            let before = self.arrivals(addr, (n - 1) as nat);
            if self.delivers(turn, addr, Delivery::Opened) {
                seq![turn]
            } else if self.delivers(turn, addr, Delivery::Forwarded) {
                before.push(turn)
            } else {
                before
            }
        }
    }

    /// What was put into the channel of `input_tx` is, packet by packet, what the turns
    /// `arrivals` brought: datagrams from this address, in the order in which they came, each of
    /// them once. The first of these turns opened the downloader.
    pub open spec fn is_fed_by(
        self,
        input_tx: Sender<BufSlice>,
        addr: SocketAddr,
        arrivals: Seq<int>,
    ) -> bool {
        let packets = put_in(offers(input_tx));
        &&& packets.len() == arrivals.len() > 0
        &&& forall|j: int|
            0 <= j < arrivals.len() ==> {
                &&& 0 <= #[trigger] arrivals[j] < self.turns.len()
                &&& self.turns[arrivals[j]] == (Turn::Received {
                    datagram: packets[j],
                    remote_addr: addr,
                    delivery: if j == 0 {
                        Delivery::Opened
                    } else {
                        Delivery::Forwarded
                    },
                })
            }
        &&& forall|i: int, j: int|
            0 <= i < j < arrivals.len() ==> #[trigger] arrivals[i] < #[trigger] arrivals[j]
    }
}

/// The downloaders are well formed at every point of a run.
pub proof fn law_downloaders_stay_well_formed(run: Run, n: nat)
    requires
        run.wf(),
        n <= run.turns.len(),
    ensures
        run.states[n as int].wf(),
    decreases n,
{
    if n > 0 {
        let turn = n - 1;
        law_downloaders_stay_well_formed(run, (n - 1) as nat);
        let pre = run.states[turn];
        let post = run.states[n as int];
        match run.turns[turn] {
            Turn::Received { datagram, remote_addr, delivery } => {
                if !pre.accepted.contains_key(remote_addr) {
                    if pre.queue.len() < pre.cap {
                        lemma_opened_keeps_wf(pre, post, remote_addr, datagram);
                    }
                } else if delivery == Delivery::Forwarded || delivery == Delivery::Overflowed {
                    lemma_accepted_keeps_wf(pre, post);
                } else {
                    let without = pre.without(remote_addr);
                    lemma_accepted_keeps_wf(pre, without);
                    if pre.queue.len() < pre.cap {
                        lemma_opened_keeps_wf(without, post, remote_addr, datagram);
                    }
                }
            },
            Turn::Accepted => lemma_accept_front_keeps_wf(pre),
        }
    }
}

/// Whatever happens to a listener, what was put into the channel of a downloader that it holds are
/// datagrams from the downloader's address, in the order in which they came and each at most
/// once. The first of them is the datagram that opened the downloader.
pub proof fn law_downloader_is_fed_its_own_datagrams(run: Run, n: nat, addr: SocketAddr)
    requires
        run.wf(),
        n <= run.turns.len(),
    ensures
        run.states[n as int].pending.contains_key(addr) ==> run.is_fed_by(
            run.states[n as int].pending[addr],
            addr,
            run.arrivals(addr, n),
        ),
        run.states[n as int].accepted.contains_key(addr) ==> run.is_fed_by(
            run.states[n as int].accepted[addr],
            addr,
            run.arrivals(addr, n),
        ),
        forall|j: int|
            0 <= j < run.arrivals(addr, n).len() ==> 0 <= #[trigger] run.arrivals(addr, n)[j] < n,
    decreases n,
{
    if n > 0 {
        let turn = n - 1;
        law_downloader_is_fed_its_own_datagrams(run, (n - 1) as nat, addr);
        law_downloaders_stay_well_formed(run, (n - 1) as nat);
        let pre = run.states[turn];
        let post = run.states[n as int];
        let before = run.arrivals(addr, (n - 1) as nat);
        match run.turns[turn] {
            Turn::Received { datagram, remote_addr, delivery } => {
                if remote_addr == addr {
                    if delivery == Delivery::Opened {
                        let empty = Seq::<(Seq<u8>, Option<bool>)>::empty();
                        lemma_put_in_push(empty, datagram, Some(true));
                        assert(empty.push((datagram, Some(true))) =~= seq![(datagram, Some(true))]);
                        assert(run.arrivals(addr, n) =~= seq![turn]);
                    } else if delivery == Delivery::Forwarded {
                        lemma_put_in_push(offers(pre.accepted[addr]), datagram, Some(true));
                        assert(run.is_fed_by(post.accepted[addr], addr, before.push(turn)));
                    } else if delivery == Delivery::Overflowed {
                        lemma_put_in_push(offers(pre.accepted[addr]), datagram, Some(false));
                    }
                }
            },
            Turn::Accepted => {},
        }
    }
}

/// A stream that was accepted while its address was queued once is the receiving end of its
/// downloader for as long as the listener holds that downloader: what it finds in its channel are
/// the datagrams from its address, in order and each at most once, from the one that opened the
/// downloader on.
pub proof fn law_accepted_stream_gets_its_own_datagrams(run: Run, m: nat, n: nat)
    requires
        run.wf(),
        m < n <= run.turns.len(),
        run.turns[m as int] == Turn::Accepted,
        run.states[m as int].queue.len() > 0,
        forall|i: int|
            0 < i < run.states[m as int].queue.len() ==> (
            #[trigger] run.states[m as int].queue[i]).remote_addr
                != run.states[m as int].queue[0].remote_addr,
        forall|turn: int|
            m < turn < n ==> !#[trigger] run.delivers(
                turn,
                run.states[m as int].queue[0].remote_addr,
                Delivery::Opened,
            ),
    ensures
        ({
            let path = run.states[m as int].queue[0];
            let addr = path.remote_addr;
            let downloaders = run.states[n as int];
            &&& !downloaders.pending.contains_key(addr)
            &&& downloaders.accepted.contains_key(addr) ==> {
                &&& same_channel(downloaders.accepted[addr], path.input_rx)
                &&& run.is_fed_by(downloaders.accepted[addr], addr, run.arrivals(addr, n))
            }
        }),
    decreases n,
{
    let path = run.states[m as int].queue[0];
    let addr = path.remote_addr;
    let turn = n - 1;
    law_downloader_is_fed_its_own_datagrams(run, n, addr);
    law_downloaders_stay_well_formed(run, (n - 1) as nat);
    assert(run.states[turn].after_turn(run.states[turn + 1], run.turns[turn]));
    if turn == m {
        law_lone_path_is_fed(run.states[turn]);
    } else {
        law_accepted_stream_gets_its_own_datagrams(run, m, (n - 1) as nat);
        assert(!run.delivers(turn, addr, Delivery::Opened));
    }
}

/// A datagram from an address without an accepted downloader opens one, whatever the address and
/// whatever the datagram, if fewer ends wait than the limit: its other end waits at the back of
/// the queue, with the datagram in its channel, and all other addresses stay as they were. With
/// the queue at its limit nothing changes.
pub proof fn law_new_address_opens_a_downloader(
    pre: Downloaders,
    post: Downloaders,
    datagram: Seq<u8>,
    remote_addr: SocketAddr,
    delivery: Delivery,
)
    requires
        !pre.accepted.contains_key(remote_addr),
        pre.after_datagram(post, datagram, remote_addr, delivery),
    ensures
        pre.queue.len() < pre.cap ==> {
            let path = post.queue[pre.queue.len() as int];
            let input_tx = post.pending[remote_addr];
            &&& delivery == Delivery::Opened
            &&& post.pending.contains_key(remote_addr)
            &&& post.queue.len() == pre.queue.len() + 1
            &&& path.remote_addr == remote_addr
            &&& same_channel(input_tx, path.input_rx)
            &&& channel_bound(input_tx) == 1
            &&& offers(input_tx) == seq![(datagram, Some(true))]
        },
        pre.queue.len() >= pre.cap ==> {
            &&& delivery == Delivery::Refused
            &&& post == pre
        },
        forall|i: int| 0 <= i < pre.queue.len() ==> #[trigger] post.queue[i] == pre.queue[i],
        forall|other: SocketAddr|
            other != remote_addr ==> {
                &&& #[trigger] post.pending.contains_key(other) == pre.pending.contains_key(other)
                &&& post.pending[other] == pre.pending[other]
            },
        post.accepted == pre.accepted,
        post.cap == pre.cap,
{
}

/// A datagram that finds the downloader of its sender closed takes its place: the closed
/// downloader is gone, and if fewer ends wait than the limit, a new one is open for the same
/// address. All other addresses stay as they were.
pub proof fn law_closed_downloader_is_replaced(
    pre: Downloaders,
    post: Downloaders,
    datagram: Seq<u8>,
    remote_addr: SocketAddr,
    delivery: Delivery,
)
    requires
        pre.wf(),
        pre.accepted.contains_key(remote_addr),
        pre.after_datagram(post, datagram, remote_addr, delivery),
        delivery != Delivery::Forwarded,
        delivery != Delivery::Overflowed,
    ensures
        !post.accepted.contains_key(remote_addr),
        delivery == Delivery::Opened <==> pre.queue.len() < pre.cap,
        delivery == Delivery::Refused <==> pre.queue.len() >= pre.cap,
        delivery == Delivery::Opened ==> {
            let path = post.queue[pre.queue.len() as int];
            let input_tx = post.pending[remote_addr];
            &&& post.pending.contains_key(remote_addr)
            &&& post.queue.len() == pre.queue.len() + 1
            &&& path.remote_addr == remote_addr
            &&& same_channel(input_tx, path.input_rx)
            &&& channel_bound(input_tx) == 1
            &&& offers(input_tx) == seq![(datagram, Some(true))]
        },
        delivery == Delivery::Refused ==> {
            &&& !post.pending.contains_key(remote_addr)
            &&& post.queue.len() == pre.queue.len()
        },
        forall|i: int| 0 <= i < pre.queue.len() ==> #[trigger] post.queue[i] == pre.queue[i],
        forall|other: SocketAddr|
            other != remote_addr ==> {
                &&& #[trigger] post.pending.contains_key(other) == pre.pending.contains_key(other)
                &&& post.pending[other] == pre.pending[other]
            },
        forall|other: SocketAddr|
            other != remote_addr ==> {
                &&& #[trigger] post.accepted.contains_key(other) == pre.accepted.contains_key(other)
                &&& post.accepted[other] == pre.accepted[other]
            },
        post.cap == pre.cap,
{
    if pre.pending.contains_key(remote_addr) {
        assert(!pre.accepted.contains_key(remote_addr));
    }
}

/// A datagram that its downloader takes, or has no room for, changes nothing but the record of what
/// the downloader's channel has been offered, by one entry; no other address changes.
pub proof fn law_offer_changes_only_the_record(
    pre: Downloaders,
    post: Downloaders,
    datagram: Seq<u8>,
    remote_addr: SocketAddr,
    delivery: Delivery,
)
    requires
        pre.after_datagram(post, datagram, remote_addr, delivery),
        delivery == Delivery::Forwarded || delivery == Delivery::Overflowed,
    ensures
        pre.accepted.contains_key(remote_addr),
        post.accepted.contains_key(remote_addr),
        ({
            let before = pre.accepted[remote_addr];
            let after = post.accepted[remote_addr];
            &&& channel_bound(after) == channel_bound(before)
            &&& forall|rx: Receiver<BufSlice>| #[trigger]
                same_channel(after, rx) == same_channel(before, rx)
            &&& offers(after) == offers(before).push(
                (datagram, Some(delivery == Delivery::Forwarded)),
            )
        }),
        forall|other: SocketAddr|
            other != remote_addr ==> {
                &&& #[trigger] post.accepted.contains_key(other) == pre.accepted.contains_key(other)
                &&& post.accepted[other] == pre.accepted[other]
            },
        post.pending == pre.pending,
        post.queue == pre.queue,
        post.cap == pre.cap,
{
}

/// An accept touches no address but that at the front of the queue. The downloader of that address
/// was waiting and is accepted from then on, as it was; the ends behind it move up by one place;
/// and every other address has what it had. An accept that finds the queue empty changes nothing.
pub proof fn law_accept_moves_only_the_front(downloaders: Downloaders)
    requires
        downloaders.front_is_pending(),
    ensures
        downloaders.queue.len() == 0 ==> downloaders.accept_front() == downloaders,
        downloaders.queue.len() > 0 ==> {
            let addr = downloaders.queue[0].remote_addr;
            let post = downloaders.accept_front();
            &&& downloaders.pending.contains_key(addr)
            &&& post.accepted.contains_key(addr)
            &&& post.accepted[addr] == downloaders.pending[addr]
            &&& !post.pending.contains_key(addr)
            &&& post.queue.len() == downloaders.queue.len() - 1
            &&& forall|i: int|
                0 <= i < post.queue.len() ==> #[trigger] post.queue[i] == downloaders.queue[i + 1]
            &&& forall|other: SocketAddr|
                other != addr ==> {
                    &&& #[trigger] post.accepted.contains_key(other)
                        == downloaders.accepted.contains_key(other)
                    &&& post.accepted[other] == downloaders.accepted[other]
                }
            &&& forall|other: SocketAddr|
                other != addr ==> {
                    &&& #[trigger] post.pending.contains_key(other)
                        == downloaders.pending.contains_key(other)
                    &&& post.pending[other] == downloaders.pending[other]
                }
            &&& post.cap == downloaders.cap
        },
{
}

/// An accept can be taken up when the queue is empty, when the downloader of the address at its
/// front waits, and then only; and a datagram that opens a downloader never stands in its way.
pub proof fn law_accept_waits_for_nothing_else(
    pre: Downloaders,
    post: Downloaders,
    datagram: Seq<u8>,
    remote_addr: SocketAddr,
    delivery: Delivery,
)
    requires
        pre.after_datagram(post, datagram, remote_addr, delivery),
    ensures
        pre.queue.len() == 0 ==> pre.front_is_pending(),
        pre.queue.len() > 0 ==> (pre.front_is_pending() <==> pre.pending.contains_key(
            pre.queue[0].remote_addr,
        )),
        pre.front_is_pending() ==> post.front_is_pending(),
{
    if pre.queue.len() > 0 {
        assert(post.queue[0] == pre.queue[0]);
    }
}

/// An accepted downloader leaves only when a datagram from its own address has been offered to it
/// and found it closed. As long as it stays, it keeps its channel; and the limit of the queue
/// stays what it was.
pub proof fn law_accepted_downloader_stays(
    pre: Downloaders,
    post: Downloaders,
    turn: Turn,
    addr: SocketAddr,
)
    requires
        pre.wf(),
        pre.after_turn(post, turn),
        pre.accepted.contains_key(addr),
    ensures
        post.cap == pre.cap,
        !post.accepted.contains_key(addr) ==> {
            &&& turn matches Turn::Received { datagram, remote_addr, .. }
            &&& remote_addr == addr
            &&& exists|closed: Sender<BufSlice>| #[trigger]
                offers(closed) == offers(pre.accepted[addr]).push((datagram, None))
        },
        post.accepted.contains_key(addr) ==> {
            &&& channel_bound(post.accepted[addr]) == channel_bound(pre.accepted[addr])
            &&& forall|rx: Receiver<BufSlice>| #[trigger]
                same_channel(post.accepted[addr], rx) == same_channel(pre.accepted[addr], rx)
        },
{
    match turn {
        Turn::Received { datagram, remote_addr, delivery } => {
            if !post.accepted.contains_key(addr) {
                let closed = choose|closed: Sender<BufSlice>| #[trigger]
                    after_offer(pre.accepted[addr], closed, datagram, None);
                assert(offers(closed) == offers(pre.accepted[addr]).push((datagram, None)));
            }
        },
        Turn::Accepted => {
            if pre.queue.len() > 0 {
                assert(pre.pending.contains_key(pre.queue[0].remote_addr));
            }
        },
    }
}

/// An accept that asks once more until it is answered gets the end at the front of the queue, and
/// asks again exactly while the queue is empty.
pub proof fn law_accept_gets_the_front_path(downloaders: Downloaders)
    ensures
        downloaders.queue.len() > 0 ==> accept_step(downloaders.front()) == AcceptStep::Accepted(
            downloaders.queue[0],
        ),
        downloaders.queue.len() == 0 ==> accept_step(downloaders.front()) == AcceptStep::Retry,
{
}

/// The stream of an accepted address sends to that address, through the listener's socket, reads
/// what the downloader is given, and has no receiving task of its own.
pub proof fn law_stream_of_a_path_answers_its_peer<K, T>(
    path: DownloadPath,
    builder: ArdlStreamBuilder<K, T>,
    listener: K,
    flush_interval: Duration,
    mtu: usize,
)
    requires
        path.becomes(builder, listener, flush_interval, mtu),
    ensures
        builder.udp_endpoint == (UdpEndpoint::Listener { listener, remote_addr: path.remote_addr }),
        builder.input_rx == path.input_rx,
        builder.socket_recv_task is None,
        builder.flush_interval == flush_interval,
        builder.mtu == mtu,
{
}

} // verus!
