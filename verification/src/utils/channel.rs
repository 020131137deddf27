//! What is known of the channels that carry packets between tasks.
use crate::utils::buf::BufSlice;
use tokio::sync::mpsc::error::TrySendError;
use tokio::sync::mpsc::{Receiver, Sender};
use vstd::prelude::*;

verus! {

/// The sending half of a channel.
#[verifier::external_type_specification]
#[verifier::external_body]
#[verifier::reject_recursive_types(T)]
pub struct ExSender<T>(tokio::sync::mpsc::Sender<T>);

/// The receiving half of a channel.
#[verifier::external_type_specification]
#[verifier::external_body]
#[verifier::reject_recursive_types(T)]
pub struct ExReceiver<T>(tokio::sync::mpsc::Receiver<T>);

/// The two halves belong to one channel: what is put in through `tx` comes out of `rx`, in order
/// and each packet once.
pub uninterp spec fn same_channel(tx: Sender<BufSlice>, rx: Receiver<BufSlice>) -> bool;

/// The number of packets that the channel of `tx` buffers.
pub uninterp spec fn channel_bound(tx: Sender<BufSlice>) -> nat;

/// The packets that have been offered through `tx` without waiting, the oldest first. With each
/// goes what came of it: `Some(true)` where the channel took it, `Some(false)` where the channel
/// was full, and `None` where it was closed.
pub uninterp spec fn offers(tx: Sender<BufSlice>) -> Seq<(Seq<u8>, Option<bool>)>;

/// The packets that the channel took, of all that it was offered.
pub open spec fn put_in(history: Seq<(Seq<u8>, Option<bool>)>) -> Seq<Seq<u8>>
    decreases history.len(),
{
    if history.len() == 0 {
        Seq::empty()
    } else {
        let before = put_in(history.drop_last());
        let (packet, taken) = history.last();
        if taken == Some(true) {
            before.push(packet)
        } else {
            before
        }
    }
}

/// `post` is the sending half `pre` after `packet` has been offered through it, with this result.
pub open spec fn after_offer(
    pre: Sender<BufSlice>,
    post: Sender<BufSlice>,
    packet: Seq<u8>,
    taken: Option<bool>,
) -> bool {
    &&& offers(post) == offers(pre).push((packet, taken))
    &&& channel_bound(post) == channel_bound(pre)
    &&& forall|rx: Receiver<BufSlice>| #[trigger] same_channel(post, rx) == same_channel(pre, rx)
}

/// What came of offering a packet to a channel.
#[derive(Debug)]
pub enum SendOutcome {
    /// The packet is in the channel.
    Sent,
    /// The channel has no room for the packet.
    Full(BufSlice),
    /// Nobody takes packets out of the channel any more.
    Closed(BufSlice),
}

impl SendOutcome {
    /// What the channel did with the packet, as `offers` records it.
    pub open spec fn taken(self) -> Option<bool> {
        match self {
            SendOutcome::Sent => Some(true),
            SendOutcome::Full(_) => Some(false),
            SendOutcome::Closed(_) => None,
        }
    }

    /// A packet that the channel did not take is handed back.
    pub open spec fn hands_back(self, packet: BufSlice) -> bool {
        match self {
            SendOutcome::Sent => true,
            SendOutcome::Full(back) => back == packet,
            SendOutcome::Closed(back) => back == packet,
        }
    }
}

/// A channel whose two halves are still in one hand: nothing is taken out of it, and what is put
/// in goes through `offer`.
pub(crate) struct NewChannel {
    tx: Sender<BufSlice>,
    rx: Receiver<BufSlice>,
}

impl NewChannel {
    /// The two halves belong together.
    pub(crate) closed spec fn wf(self) -> bool {
        same_channel(self.tx, self.rx)
    }

    /// The number of packets that the channel buffers.
    pub(crate) closed spec fn bound(self) -> nat {
        channel_bound(self.tx)
    }

    /// What the channel has been offered.
    pub(crate) closed spec fn history(self) -> Seq<(Seq<u8>, Option<bool>)> {
        offers(self.tx)
    }

    /// An empty channel that buffers `buffer` packets.
    pub(crate) fn new(buffer: usize) -> (channel: NewChannel)
        requires
            0 < buffer <= usize::MAX / 8,
        ensures
            channel.wf(),
            channel.bound() == buffer,
            channel.history() == Seq::<(Seq<u8>, Option<bool>)>::empty(),
    {
        let (tx, rx) = packet_channel(buffer);
        NewChannel { tx, rx }
    }

    /// `Sender::try_send`, while the receiving half is at hand and so neither closed nor read
    /// from: the packet goes into the channel unless that holds as many as it buffers.
    #[verifier::external_body]
    pub(crate) fn offer(&mut self, packet: BufSlice) -> (outcome: SendOutcome)
        requires
            old(self).wf(),
        ensures
            final(self).wf(),
            final(self).bound() == old(self).bound(),
            final(self).history() == old(self).history().push((packet@, outcome.taken())),
            outcome == (if put_in(old(self).history()).len() < old(self).bound() {
                SendOutcome::Sent
            } else {
                SendOutcome::Full(packet)
            }),
    {
        match self.tx.try_send(packet) {
            Ok(()) => SendOutcome::Sent,
            Err(TrySendError::Full(back)) => SendOutcome::Full(back),
            Err(TrySendError::Closed(back)) => SendOutcome::Closed(back),
        }
    }

    /// The two halves.
    pub(crate) fn into_halves(self) -> (halves: (Sender<BufSlice>, Receiver<BufSlice>))
        requires
            self.wf(),
        ensures
            same_channel(halves.0, halves.1),
            channel_bound(halves.0) == self.bound(),
            offers(halves.0) == self.history(),
    {
        (self.tx, self.rx)
    }
}

/// `tokio::sync::mpsc::channel` makes the two halves of a new channel that buffers `buffer`
/// packets and has been offered none. It panics on no buffer at all, and on one of more than an
/// eighth of `usize::MAX`.
#[verifier::external_body]
fn packet_channel(buffer: usize) -> (halves: (Sender<BufSlice>, Receiver<BufSlice>))
    requires
        0 < buffer <= usize::MAX / 8,
    ensures
        same_channel(halves.0, halves.1),
        channel_bound(halves.0) == buffer,
        offers(halves.0) == Seq::<(Seq<u8>, Option<bool>)>::empty(),
{
    tokio::sync::mpsc::channel(buffer)
}

/// `Sender::try_send` offers a packet to the channel without waiting: the channel takes it, or
/// hands it back because it is full or closed. Which of these it is depends on what the receiving
/// side has done so far, and is left open. The sender stays that of the same channel, and the
/// packet is the one thing that has been offered through it.
#[verifier::external_body]
pub(crate) fn try_send(tx: &mut Sender<BufSlice>, packet: BufSlice) -> (outcome: SendOutcome)
    ensures
        outcome.hands_back(packet),
        offers(*final(tx)) == offers(*old(tx)).push((packet@, outcome.taken())),
        channel_bound(*final(tx)) == channel_bound(*old(tx)),
        forall|rx: Receiver<BufSlice>| #[trigger]
            same_channel(*final(tx), rx) == same_channel(*old(tx), rx),
{
    match tx.try_send(packet) {
        Ok(()) => SendOutcome::Sent,
        Err(TrySendError::Full(back)) => SendOutcome::Full(back),
        Err(TrySendError::Closed(back)) => SendOutcome::Closed(back),
    }
}

/// What a channel took, after one more offer.
pub proof fn lemma_put_in_push(
    history: Seq<(Seq<u8>, Option<bool>)>,
    packet: Seq<u8>,
    taken: Option<bool>,
)
    ensures
        put_in(history.push((packet, taken))) == (if taken == Some(true) {
            put_in(history).push(packet)
        } else {
            put_in(history)
        }),
{
    assert(history.push((packet, taken)).drop_last() =~= history);
}

/// What a channel took is what it was offered, in order, without the offers that it did not take.
pub proof fn law_channel_takes_what_it_takes_in_order(history: Seq<(Seq<u8>, Option<bool>)>)
    ensures
        put_in(history) == history.filter(
            |offer: (Seq<u8>, Option<bool>)| offer.1 == Some(true),
        ).map_values(|offer: (Seq<u8>, Option<bool>)| offer.0),
        put_in(history).len() <= history.len(),
    decreases history.len(),
{
    let is_taken = |offer: (Seq<u8>, Option<bool>)| offer.1 == Some(true);
    let packet = |offer: (Seq<u8>, Option<bool>)| offer.0;
    reveal(Seq::filter);
    if history.len() == 0 {
        assert(history.filter(is_taken).map_values(packet) =~= Seq::<Seq<u8>>::empty());
    } else {
        law_channel_takes_what_it_takes_in_order(history.drop_last());
        let before = history.drop_last().filter(is_taken);
        if history.last().1 == Some(true) {
            assert(before.push(history.last()).map_values(packet) =~= before.map_values(packet).push(
                history.last().0,
            ));
        }
    }
}

/// An outcome says truly what became of a packet: it counts as taken exactly when it was sent, and
/// any packet that was not sent is back, whole.
pub proof fn law_outcome_says_what_became_of_the_packet(outcome: SendOutcome, packet: BufSlice)
    requires
        outcome.hands_back(packet),
    ensures
        outcome.taken() == Some(true) <==> outcome == SendOutcome::Sent,
        outcome.taken() == Some(false) <==> outcome == SendOutcome::Full(packet),
        outcome.taken() == None::<bool> <==> outcome == SendOutcome::Closed(packet),
{
}

} // verus!
