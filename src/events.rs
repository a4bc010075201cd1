use vstd::prelude::*;
use std::collections::VecDeque;
use crate::types::{Init, Join, More, Msg, Names, nets_view, is_first_pos};

verus! {

/// An event pushed by the server, as the transport hands it over.
#[derive(Debug, PartialEq)]
pub enum Event {
    Init(Init),
    Msg(Msg),
    More(More),
    Names(Names),
    Join(Join),
}

/// A request for the server; none of them waits for an answer.
#[derive(Debug, PartialEq, Eq)]
pub enum Request {
    /// Show interest in a channel.
    Open(u32),
    /// Ask for the roster of a channel.
    Names(u32),
    /// Ask for the messages of a channel older than `last_id`, not condensed.
    More { target: u32, last_id: u32 },
    /// Send typed text to a channel.
    Input { text: String, target: u32 },
}

/// First-in first-out queue between the transport and the consumer of events.
pub struct EventQueue {
    events: VecDeque<Event>,
}

impl View for EventQueue {
    type V = Seq<Event>;

    closed spec fn view(&self) -> Seq<Event> {
        self.events@
    }
}

impl EventQueue {
    /// An empty queue.
    pub fn new() -> (r: EventQueue)
        ensures
            r@ == Seq::<Event>::empty(),
    {
        EventQueue { events: VecDeque::new() }
    }

    /// Appends `event` at the tail.
    pub fn publish(&mut self, event: Event)
        ensures
            final(self)@ == old(self)@.push(event),
    {
        self.events.push_back(event);
    }

    /// Removes and returns the head, if there is one.
    pub fn poll(&mut self) -> (r: Option<Event>)
        ensures
            old(self)@.len() == 0 ==> r is None && final(self)@ == old(self)@,
            old(self)@.len() > 0 ==> r == Some(old(self)@[0]) && final(self)@ == old(self)@.drop_first(),
    {
        self.events.pop_front()
    }

    /// Number of queued events.
    pub fn len(&self) -> (r: usize)
        ensures
            r == self@.len(),
    {
        self.events.len()
    }
}

/// Queues `event` behind every event published before it.
pub fn add_event(events: &mut EventQueue, event: Event)
    ensures
        final(events)@ == old(events)@.push(event),
{
    events.publish(event);
}

/// The requests owed when a session starts: open the declared active channel,
/// and ask for its roster when it is a multi-user channel.
pub open spec fn startup_spec(init: Init) -> Seq<Request> {
    let nets = nets_view(init.networks@);
    if exists|n: int, c: int|
        is_first_pos(nets, init.active, n, c) && #[trigger] nets[n].channels[c].kind == "channel"@ {
        seq![Request::Open(init.active), Request::Names(init.active)]
    } else {
        seq![Request::Open(init.active)]
    }
}

/// Whether a channel kind names a multi-user channel.
pub fn is_multi_user(kind: &String) -> (r: bool)
    ensures
        r == (kind@ == "channel"@),
{
    let c = String::from_str("channel");
    *kind == c
}

/// The requests to send when the full state arrives.
pub fn startup_requests(init: &Init) -> (r: Vec<Request>)
    ensures
        r@ == startup_spec(*init),
{
    let mut r: Vec<Request> = Vec::new();
    r.push(Request::Open(init.active));
    let ch = init.active_channel();
    match ch {
        Some(ch) => {
            let multi = is_multi_user(&ch.type_);
            proof {
                let nets = nets_view(init.networks@);
                let (n, c) = choose|n: int, c: int|
                    is_first_pos(nets, init.active, n, c) && init.networks@[n].channels@[c] == *ch;
                assert(nets[n].channels[c] == init.networks@[n].channels@[c]@);
                assert forall|n2: int, c2: int|
                    is_first_pos(nets, init.active, n2, c2) implies #[trigger] nets[n2].channels[c2]
                        == nets[n].channels[c] by {
                    crate::types::lemma_first_pos_unique(nets, init.active, n, c, n2, c2);
                }
                assert(nets[n].channels[c].kind == ch.type_@);
            }
            if multi {
                r.push(Request::Names(init.active));
            }
            assert(r@ =~= startup_spec(*init));
        },
        None => {
            proof {
                let nets = nets_view(init.networks@);
                assert forall|n: int, c: int| !is_first_pos(nets, init.active, n, c) by {
                    if is_first_pos(nets, init.active, n, c) {
                        assert(nets[n].channels[c].id == init.active);
                    }
                }
            }
            assert(r@ =~= startup_spec(*init));
        },
    }
    r
}

} // verus!
