//! What the sessions of a listener are given over a whole run of the listening task.
use crate::protocol::frame_hdr::{frame_body, frame_id, is_frame};
use crate::sockets::listener::{
    lemma_accept_front_keeps_wf, lemma_accepted_keeps_wf, lemma_first_put_in,
    lemma_opened_keeps_wf, Delivery, ListenAction, ListenEvent, Route, Sessions, StreamTx,
};
use crate::utils::channel::{lemma_put_in_push, offers, put_in, same_channel};
use crate::utils::SocketAddr;
use vstd::prelude::*;

verus! {

/// A run of the listening task: the event and the action of every turn, and the sessions before
/// the first turn and after each.
pub struct Run {
    pub states: Seq<Sessions>,
    pub events: Seq<ListenEvent>,
    pub actions: Seq<ListenAction>,
}

/// The event brings a frame with this ID and this body from `remote_addr`.
pub open spec fn brings(
    event: ListenEvent,
    id: u32,
    remote_addr: SocketAddr,
    body: Seq<u8>,
) -> bool {
    &&& event matches ListenEvent::Received { datagram: Some((datagram, from)), .. }
    &&& from == remote_addr
    &&& is_frame(datagram@)
    &&& frame_id(datagram@) == id
    &&& frame_body(datagram@) == body
}

/// The event brings a frame with this ID, from whatever address.
pub open spec fn brings_id(event: ListenEvent, id: u32) -> bool {
    &&& event matches ListenEvent::Received { datagram: Some((datagram, _)), .. }
    &&& is_frame(datagram@)
    &&& frame_id(datagram@) == id
}

impl Run {
    /// The task starts without sessions, and every turn does to the sessions what its event
    /// calls for.
    pub open spec fn wf(self) -> bool {
        &&& self.states.len() == self.events.len() + 1
        &&& self.actions.len() == self.events.len()
        &&& self.states[0].accepted == Map::<u32, StreamTx>::empty()
        &&& self.states[0].pending == Map::<u32, StreamTx>::empty()
        &&& self.states[0].queue.len() == 0
        &&& forall|i: int|
            0 <= i < self.events.len() ==> self.states[i].after_event(
                self.states[i + 1],
                #[trigger] self.events[i],
                self.actions[i],
            )
    }

    /// The turn brings a frame with this ID, with this result.
    pub open spec fn delivers(self, turn: int, id: u32, delivery: Delivery) -> bool {
        &&& brings_id(self.events[turn], id)
        &&& self.actions[turn] == ListenAction::Delivered(delivery)
    }

    /// Among the first `n` turns, the one that opened the latest session `id`, and those after it
    /// that forwarded a frame to that session.
    pub open spec fn arrivals(self, id: u32, n: nat) -> Seq<int>
        decreases n,
    {
        if n == 0 {
            Seq::empty()
        } else {
            let turn = n - 1;
            let before = self.arrivals(id, (n - 1) as nat);
            if self.delivers(turn, id, Delivery::Opened) {
                seq![turn]
            } else if self.delivers(turn, id, Delivery::Forwarded) {
                before.push(turn)
            } else {
                before
            }
        }
    }

    /// What was put into the channel of the session `id` is, packet by packet, what the turns
    /// `arrivals` brought: bodies of frames with the session's ID from the session's address, in
    /// the order in which they came, each of them once. The first of these turns opened the
    /// session.
    pub open spec fn is_fed_by(self, session: StreamTx, id: u32, arrivals: Seq<int>) -> bool {
        let packets = put_in(offers(session.input_tx));
        &&& packets.len() == arrivals.len() > 0
        &&& forall|j: int|
            0 <= j < arrivals.len() ==> 0 <= #[trigger] arrivals[j] < self.events.len() && brings(
                self.events[arrivals[j]],
                id,
                session.remote_addr,
                packets[j],
            )
        &&& forall|i: int, j: int|
            0 <= i < j < arrivals.len() ==> #[trigger] arrivals[i] < #[trigger] arrivals[j]
        &&& self.actions[arrivals[0]] == ListenAction::Delivered(Delivery::Opened)
        &&& forall|j: int|
            0 < j < arrivals.len() ==> self.actions[#[trigger] arrivals[j]]
                == ListenAction::Delivered(Delivery::Forwarded)
    }

    /// This run without a turn.
    pub open spec fn without_turn(self, turn: int) -> Run {
        Run {
            states: self.states.remove(turn + 1),
            events: self.events.remove(turn),
            actions: self.actions.remove(turn),
        }
    }
}

/// The sessions are well formed at every point of a run.
pub proof fn law_sessions_stay_well_formed(run: Run, n: nat)
    requires
        run.wf(),
        n <= run.events.len(),
    ensures
        run.states[n as int].wf(),
    decreases n,
{
    if n > 0 {
        let turn = n - 1;
        law_sessions_stay_well_formed(run, (n - 1) as nat);
        let pre = run.states[turn];
        let post = run.states[n as int];
        match run.events[turn] {
            ListenEvent::Tick { .. } => lemma_accepted_keeps_wf(pre, post),
            ListenEvent::Received { datagram: Some((datagram, remote_addr)), now } => {
                let id = frame_id(datagram@);
                let body = frame_body(datagram@);
                match pre.route(datagram@, remote_addr) {
                    Route::Unknown => {
                        if pre.queue.len() < pre.cap {
                            lemma_opened_keeps_wf(pre, post, id, remote_addr, body, now);
                        }
                    },
                    Route::Accepted => {
                        let without = pre.without(id);
                        lemma_accepted_keeps_wf(pre, without);
                        if run.actions[turn] == ListenAction::Delivered(Delivery::Forwarded)
                            || run.actions[turn] == ListenAction::Delivered(Delivery::Overflowed) {
                            lemma_accepted_keeps_wf(pre, post);
                        } else if pre.queue.len() < pre.cap {
                            lemma_opened_keeps_wf(without, post, id, remote_addr, body, now);
                        }
                    },
                    _ => {},
                }
            },
            ListenEvent::AcceptRequested(Some(())) => lemma_accept_front_keeps_wf(pre),
            _ => {},
        }
    }
}

/// Whatever happens to a listener, what was put into the channel of a session that it holds are
/// the bodies of frames with the session's ID from the session's address, in the order in which
/// they came and each at most once. The first of them is the datagram that opened the session.
pub proof fn law_session_is_fed_its_own_frames(run: Run, n: nat, id: u32)
    requires
        run.wf(),
        n <= run.events.len(),
    ensures
        run.states[n as int].pending.contains_key(id) ==> run.is_fed_by(
            run.states[n as int].pending[id],
            id,
            run.arrivals(id, n),
        ),
        run.states[n as int].accepted.contains_key(id) ==> run.is_fed_by(
            run.states[n as int].accepted[id],
            id,
            run.arrivals(id, n),
        ),
        forall|j: int|
            0 <= j < run.arrivals(id, n).len() ==> 0 <= #[trigger] run.arrivals(id, n)[j] < n,
    decreases n,
{
    if n > 0 {
        let turn = n - 1;
        law_session_is_fed_its_own_frames(run, (n - 1) as nat, id);
        law_sessions_stay_well_formed(run, (n - 1) as nat);
        let pre = run.states[turn];
        let post = run.states[n as int];
        let before = run.arrivals(id, (n - 1) as nat);
        match run.events[turn] {
            ListenEvent::Received { datagram: Some((datagram, remote_addr)), now } => {
                let body = frame_body(datagram@);
                if brings_id(run.events[turn], id) {
                    if run.delivers(turn, id, Delivery::Opened) {
                        lemma_first_put_in(body);
                        assert(run.arrivals(id, n) =~= seq![turn]);
                    } else if run.delivers(turn, id, Delivery::Forwarded) {
                        let input_tx = pre.accepted[id].input_tx;
                        lemma_put_in_push(offers(input_tx), body, Some(true));
                        assert(run.arrivals(id, n) =~= before.push(turn));
                        assert(run.is_fed_by(post.accepted[id], id, before.push(turn)));
                    } else if run.delivers(turn, id, Delivery::Overflowed) {
                        let input_tx = pre.accepted[id].input_tx;
                        lemma_put_in_push(offers(input_tx), body, Some(false));
                    }
                }
            },
            ListenEvent::AcceptRequested(Some(())) => {
                if pre.queue.len() > 0 {
                    assert(pre.is_pending(pre.queue[0]));
                }
            },
            _ => {},
        }
    }
}

/// A stream that was accepted is the receiving end of its session for as long as the listener
/// holds that session: what it finds in its channel are the bodies of the frames with its ID from
/// its address, in order and each at most once, from the one that opened the session on. Nothing
/// from another address or with another ID reaches it.
pub proof fn law_accepted_stream_gets_its_own_frames(run: Run, m: nat, n: nat)
    requires
        run.wf(),
        m < n <= run.events.len(),
        run.events[m as int] matches ListenEvent::AcceptRequested(Some(_)),
        run.states[m as int].queue.len() > 0,
        forall|turn: int|
            m < turn < n ==> !#[trigger] run.delivers(
                turn,
                run.states[m as int].queue[0].id,
                Delivery::Opened,
            ),
    ensures
        ({
            let stream_rx = run.states[m as int].queue[0];
            let sessions = run.states[n as int];
            &&& run.actions[m as int] == ListenAction::Answer(Some(stream_rx))
            &&& !sessions.pending.contains_key(stream_rx.id)
            &&& sessions.accepted.contains_key(stream_rx.id) ==> {
                let session = sessions.accepted[stream_rx.id];
                &&& same_channel(session.input_tx, stream_rx.input_rx)
                &&& session.remote_addr == stream_rx.remote_addr
                &&& run.is_fed_by(session, stream_rx.id, run.arrivals(stream_rx.id, n))
            }
        }),
    decreases n,
{
    let stream_rx = run.states[m as int].queue[0];
    let id = stream_rx.id;
    law_session_is_fed_its_own_frames(run, n, id);
    law_sessions_stay_well_formed(run, (n - 1) as nat);
    let turn = n - 1;
    let pre = run.states[turn];
    assert(run.states[turn].after_event(run.states[turn + 1], run.events[turn], run.actions[turn]));
    if turn == m {
        assert(pre.is_pending(stream_rx));
    } else {
        law_accepted_stream_gets_its_own_frames(run, m, (n - 1) as nat);
        assert(!run.delivers(turn, id, Delivery::Opened));
        match run.events[turn] {
            ListenEvent::AcceptRequested(Some(())) => {
                if pre.queue.len() > 0 {
                    assert(pre.is_pending(pre.queue[0]));
                }
            },
            _ => {},
        }
    }
}

/// An ignored datagram, such as one too short for a header, might as well not have come: without
/// it, the same run gives the same answers, and leaves every channel with the same packets.
pub proof fn law_ignored_datagram_can_be_left_out(run: Run, turn: int)
    requires
        run.wf(),
        0 <= turn < run.events.len(),
        ({
            ||| run.actions[turn] == ListenAction::Delivered(Delivery::Ignored)
            ||| run.events[turn] matches ListenEvent::Received { datagram: Some((datagram, _)), .. }
                && !is_frame(datagram@)
        }),
    ensures
        run.without_turn(turn).wf(),
        run.states[turn + 1] == run.states[turn],
{
    assert(run.states[turn].after_event(run.states[turn + 1], run.events[turn], run.actions[turn]));
    let shorter = run.without_turn(turn);
    assert(shorter.states[0] == run.states[0]);
    assert forall|i: int| 0 <= i < shorter.events.len() implies shorter.states[i].after_event(
        shorter.states[i + 1],
        #[trigger] shorter.events[i],
        shorter.actions[i],
    ) by {
        let k = if i < turn {
            i
        } else {
            i + 1
        };
        assert(run.states[k].after_event(run.states[k + 1], run.events[k], run.actions[k]));
    }
}

} // verus!
