//! The receiving side: observers of incoming messages, the reader that keeps them,
//! and the decisions of the stream-reading loops.

use vstd::prelude::*;
use crate::functions::message_views;
use crate::message1553::{decode_fits, decode_message, Message1553, MessageView};

verus! {

/// Something told of each message that arrives.
pub trait Observer1553 {
    /// Told that `msg` arrived.
    fn notify_message(&mut self, msg: Message1553);
}

/// An observer that keeps every message it is told of, in order of arrival.
#[derive(Debug, Clone, Default)]
pub struct Reader1553 {
    msg_list_1553: Vec<Message1553>,
}

impl View for Reader1553 {
    type V = Seq<MessageView>;

    closed spec fn view(&self) -> Seq<MessageView> {
        message_views(self.msg_list_1553@)
    }
}

impl Reader1553 {
    /// A reader that has kept nothing yet.
    pub fn new() -> (r: Self)
        ensures
            r@ == Seq::<MessageView>::empty(),
    {
        let r = Reader1553 { msg_list_1553: Vec::new() };
        assert(r@ =~= Seq::<MessageView>::empty());
        r
    }

    /// The messages kept, oldest first.
    pub fn get_liste_messages_1553(self) -> (r: Vec<Message1553>)
        ensures
            message_views(r@) == self@,
    {
        let r = self.msg_list_1553.clone();
        assert(message_views(r@) =~= self@);
        r
    }

    /// The message kept last; there must be one.
    pub fn lire_dernier_message(self) -> (r: Message1553)
        requires
            self@.len() > 0,
        ensures
            r@ == self@.last(),
    {
        let mut list = self.msg_list_1553.clone();
        assert(message_views(list@) =~= self@);
        match list.pop() {
            Some(m) => m,
            None => {
                assert(false);
                Message1553::default()
            },
        }
    }
}

impl Observer1553 for Reader1553 {
    /// Keeps `msg`, after those kept before.
    fn notify_message(&mut self, msg: Message1553)
        ensures
            final(self)@ == old(self)@.push(msg@),
    {
        self.msg_list_1553.push(msg.clone());
        assert(self@ =~= old(self)@.push(msg@));
    }
}

/// What the last read of a stream gave: a number of bytes, or an error.
pub enum StreamEvent {
    Received(usize),
    Failed,
}

/// What the plain stream-reading loop does next.
pub enum StreamStep {
    /// The loop ends.
    Done,
    /// The loop reads again.
    KeepReading,
}

/// The plain reading loop: it ends once a read gives at least 4 bytes, or on an error;
/// otherwise it reads again.
pub fn plain_read_step(event: StreamEvent) -> (r: StreamStep)
    ensures
        match event {
            StreamEvent::Received(size) => if size >= 4 {
                r is Done
            } else {
                r is KeepReading
            },
            StreamEvent::Failed => r is Done,
        },
{
    match event {
        StreamEvent::Received(size) => if size >= 4 {
            StreamStep::Done
        } else {
            StreamStep::KeepReading
        },
        StreamEvent::Failed => StreamStep::Done,
    }
}

/// What the message-reading loop does next.
pub enum FrameStep {
    /// A message arrived: the observer is told, the bytes are cleared, the loop reads again.
    Deliver(Message1553),
    /// Too few bytes yet: the loop reads again.
    KeepReading,
    /// The read failed: the loop stops with an error.
    Fail,
}

/// The message-reading loop: a read of at least 9 bytes delivers the message that the
/// bytes read so far begin with; a shorter read reads again; an error stops the loop.
pub fn message_read_step(event: StreamEvent, buf: &[u8]) -> (r: FrameStep)
    requires
        event matches StreamEvent::Received(size) && size >= 9 ==> decode_message(buf@) is Some
            && decode_fits(buf@),
    ensures
        match event {
            StreamEvent::Received(size) => if size >= 9 {
                r matches FrameStep::Deliver(m) && decode_message(buf@) == Some(m@)
            } else {
                r is KeepReading
            },
            StreamEvent::Failed => r is Fail,
        },
{
    match event {
        StreamEvent::Received(size) => if size >= 9 {
            FrameStep::Deliver(Message1553::do_decode(buf))
        } else {
            FrameStep::KeepReading
        },
        StreamEvent::Failed => FrameStep::Fail,
    }
}

/// A peer as its address and port.
pub open spec fn peer_view(p: (String, u16)) -> (Seq<char>, u16) {
    (p.0@, p.1)
}

/// The positions, in order, of the peers at address `adresse` and port `port`.
pub open spec fn matching_peers(peers: Seq<(Seq<char>, u16)>, adresse: Seq<char>, port: u16) -> Seq<int>
    decreases peers.len(),
{
    if peers.len() == 0 {
        Seq::empty()
    } else {
        let rest = matching_peers(peers.drop_last(), adresse, port);
        if peers.last() == (adresse, port) {
            rest.push(peers.len() - 1)
        } else {
            rest
        }
    }
}

/// The positions, in order, of the peers (address, port) that are `adresse` at `port`:
/// those that a message for that address is sent to.
pub fn select_peers(peers: &Vec<(String, u16)>, adresse: &str, port: u16) -> (r: Vec<usize>)
    ensures
        r@.map_values(|i: usize| i as int) == matching_peers(
            peers@.map_values(|p: (String, u16)| peer_view(p)),
            adresse@,
            port,
        ),
        forall|k: int| 0 <= k < r@.len() ==> (#[trigger] r@[k]) < peers@.len() && peers@[r@[k] as int].0@
            == adresse@ && peers@[r@[k] as int].1 == port,
        forall|k1: int, k2: int| 0 <= k1 < k2 < r@.len() ==> r@[k1] < r@[k2],
        forall|j: int|
            0 <= j < peers@.len() && (#[trigger] peers@[j]).0@ == adresse@ && peers@[j].1 == port
                ==> exists|k: int| 0 <= k < r@.len() && r@[k] == j,
{
    let ghost all = peers@.map_values(|p: (String, u16)| peer_view(p));
    let wanted: String = adresse.to_string();
    let mut r: Vec<usize> = Vec::new();
    let mut i: usize = 0;
    assert(all.take(0) =~= Seq::<(Seq<char>, u16)>::empty());
    while i < peers.len()
        invariant
            wanted@ == adresse@,
            all == peers@.map_values(|p: (String, u16)| peer_view(p)),
            i <= peers.len(),
            r@.map_values(|k: usize| k as int) == matching_peers(all.take(i as int), adresse@, port),
            forall|k: int| 0 <= k < r@.len() ==> (#[trigger] r@[k]) < i && peers@[r@[k] as int].0@
                == adresse@ && peers@[r@[k] as int].1 == port,
            forall|k1: int, k2: int| 0 <= k1 < k2 < r@.len() ==> r@[k1] < r@[k2],
            forall|j: int|
                0 <= j < i && (#[trigger] peers@[j]).0@ == adresse@ && peers@[j].1 == port
                    ==> exists|k: int| 0 <= k < r@.len() && r@[k] == j,
        decreases peers.len() - i,
    {
        assert(all.take(i + 1).drop_last() =~= all.take(i as int));
        let ghost before = r@;
        if peers[i].0 == wanted && peers[i].1 == port {
            r.push(i);
            assert(r@[r@.len() - 1] == i);
            assert(r@.map_values(|k: usize| k as int) =~= before.map_values(|k: usize| k as int).push(
                i as int,
            ));
        }
        assert forall|j: int|
            0 <= j < i + 1 && (#[trigger] peers@[j]).0@ == adresse@ && peers@[j].1 == port
                implies exists|k: int| 0 <= k < r@.len() && r@[k] == j by {
            if j == i {
                assert(r@[r@.len() - 1] == j);
            } else {
                let k = choose|k: int| 0 <= k < before.len() && before[k] == j;
                assert(r@[k] == j);
            }
        }
        i = i + 1;
    }
    assert(all.take(i as int) =~= all);
    r
}

/// A reader made empty (as `new` makes it) and then told of each message of `msgs` in turn
/// (as `notify_message` leaves it each time) keeps exactly those messages, in the order it
/// was told of them; `get_liste_messages_1553` gives them so.
pub proof fn law_reader_keeps_every_notified(readers: Seq<Reader1553>, msgs: Seq<Message1553>)
    requires
        readers.len() == msgs.len() + 1,
        readers[0]@ == Seq::<MessageView>::empty(),
        forall|i: int| 0 <= i < msgs.len() ==> #[trigger] readers[i + 1]@ == readers[i]@.push(msgs[i]@),
    ensures
        readers.last()@ == message_views(msgs),
    decreases msgs.len(),
{
    if msgs.len() == 0 {
        assert(message_views(msgs) =~= Seq::<MessageView>::empty());
    } else {
        let k = msgs.len() - 1;
        let shorter = readers.drop_last();
        assert forall|i: int| 0 <= i < msgs.drop_last().len() implies #[trigger] shorter[i + 1]@
            == shorter[i]@.push(msgs.drop_last()[i]@) by {
            assert(readers[i + 1]@ == readers[i]@.push(msgs[i]@));
        }
        law_reader_keeps_every_notified(shorter, msgs.drop_last());
        assert(readers[k + 1]@ == readers[k]@.push(msgs[k]@));
        assert(message_views(msgs) =~= message_views(msgs.drop_last()).push(msgs[k]@));
    }
}

/// After a reader is told of `msg` (as `notify_message` leaves it), the message it kept
/// last, which `lire_dernier_message` gives, is `msg`, and it still keeps the messages it
/// kept before, in order.
pub proof fn law_last_kept_is_last_notified(before: Reader1553, after: Reader1553, msg: Message1553)
    requires
        after@ == before@.push(msg@),
    ensures
        after@.len() > 0,
        after@.last() == msg@,
        after@.drop_last() == before@,
{
    assert(after@.drop_last() =~= before@);
}

} // verus!
