use vstd::prelude::*;

verus! {

/// The characters of an optional string.
pub open spec fn opt_chars(s: Option<String>) -> Option<Seq<char>> {
    match s {
        Some(t) => Some(t@),
        None => None,
    }
}

/// A roster entry with the full list of rank markers the user holds.
#[derive(Debug, PartialEq)]
pub struct Name {
    pub nick: String,
    pub modes: Vec<String>,
    pub last_message: u64,
}

/// The roster of one channel.
#[derive(Debug, PartialEq)]
pub struct Names {
    pub id: u64,
    pub users: Vec<Name>,
}

/// A user as shown in a roster or as the author of a message.
#[derive(Debug, PartialEq)]
pub struct User {
    pub mode: Option<String>,
    pub nick: Option<String>,
}

/// A user as plain values: rank marker and nick.
pub struct UserView {
    pub mode: Option<Seq<char>>,
    pub nick: Option<Seq<char>>,
}

impl View for User {
    type V = UserView;

    open spec fn view(&self) -> UserView {
        UserView { mode: opt_chars(self.mode), nick: opt_chars(self.nick) }
    }
}

/// The user that a roster entry stands for: its nick, and the first of its
/// rank markers, if it has any.
pub open spec fn user_of_name(n: Name) -> UserView {
    UserView {
        mode: if n.modes@.len() > 0 {
            Some(n.modes@[0]@)
        } else {
            None
        },
        nick: Some(n.nick@),
    }
}

impl User {
    /// The user for a roster entry; of several rank markers the first is kept.
    pub fn from_name(value: &Name) -> (r: User)
        ensures
            r@ == user_of_name(*value),
    {
        let mode = if value.modes.len() > 0 {
            Some(value.modes[0].clone())
        } else {
            None
        };
        User { mode, nick: Some(value.nick.clone()) }
    }
}

/// One message of a channel.
#[derive(Debug, PartialEq)]
pub struct ChannelMessage {
    /// Who has sent the message
    pub from: User,
    pub gecos: Option<String>,
    pub hostmask: Option<String>,
    pub id: u32,
    /// Whether the local user sent the message
    pub self_: bool,
    pub text: String,
    pub time: String,
    pub type_: String,
}

/// A conversation inside a network: a group channel, a query or the lobby.
#[derive(Debug, PartialEq)]
pub struct NetworkChannel {
    pub id: u32,
    pub first_unread: i32,
    pub highlight: i32,
    pub key: String,
    pub muted: bool,
    pub name: String,
    pub state: i32,
    pub topic: String,
    pub total_messages: u32,
    pub type_: String,
    pub unread: i32,
    pub messages: Vec<ChannelMessage>,
    pub users: Vec<User>,
    pub loaded: bool,
}

/// A channel as plain values.
pub struct ChannelView {
    pub id: u32,
    pub first_unread: i32,
    pub highlight: i32,
    pub key: Seq<char>,
    pub muted: bool,
    pub name: Seq<char>,
    pub state: i32,
    pub topic: Seq<char>,
    pub total_messages: u32,
    pub kind: Seq<char>,
    pub unread: i32,
    pub messages: Seq<ChannelMessage>,
    pub users: Seq<UserView>,
    pub loaded: bool,
}

impl View for NetworkChannel {
    type V = ChannelView;

    open spec fn view(&self) -> ChannelView {
        ChannelView {
            id: self.id,
            first_unread: self.first_unread,
            highlight: self.highlight,
            key: self.key@,
            muted: self.muted,
            name: self.name@,
            state: self.state,
            topic: self.topic@,
            total_messages: self.total_messages,
            kind: self.type_@,
            unread: self.unread,
            messages: self.messages@,
            users: self.users@.map_values(|u: User| u@),
            loaded: self.loaded,
        }
    }
}

/// One connected server, with its channels in traversal order.
#[derive(Debug, PartialEq)]
pub struct Network {
    pub channels: Vec<NetworkChannel>,
    /// Name of the server / network
    pub name: String,
    /// Username on the server
    pub nick: String,
    pub uuid: String,
}

/// A network as plain values.
pub struct NetworkView {
    pub channels: Seq<ChannelView>,
    pub name: Seq<char>,
    pub nick: Seq<char>,
    pub uuid: Seq<char>,
}

impl View for Network {
    type V = NetworkView;

    open spec fn view(&self) -> NetworkView {
        NetworkView {
            channels: self.channels@.map_values(|c: NetworkChannel| c@),
            name: self.name@,
            nick: self.nick@,
            uuid: self.uuid@,
        }
    }
}

impl Network {
    /// The first channel of this network with id `id`.
    pub fn channel(&self, id: u32) -> (r: Option<&NetworkChannel>)
        ensures
            match r {
                Some(ch) => exists|i: int|
                    0 <= i < self.channels@.len() && self.channels@[i] == *ch && ch.id == id
                        && forall|j: int| 0 <= j < i ==> #[trigger] self.channels@[j].id != id,
                None => forall|i: int|
                    0 <= i < self.channels@.len() ==> #[trigger] self.channels@[i].id != id,
            },
    {
        let mut i: usize = 0;
        while i < self.channels.len()
            invariant
                i <= self.channels@.len(),
                forall|j: int| 0 <= j < i ==> #[trigger] self.channels@[j].id != id,
            decreases self.channels@.len() - i,
        {
            if self.channels[i].id == id {
                return Some(&self.channels[i]);
            }
            i = i + 1;
        }
        None
    }
}

/// The networks as plain values.
pub open spec fn nets_view(v: Seq<Network>) -> Seq<NetworkView> {
    v.map_values(|n: Network| n@)
}

/// `(n, c)` names a channel: network `n`, its channel `c`.
pub open spec fn has_pos(nets: Seq<NetworkView>, n: int, c: int) -> bool {
    0 <= n < nets.len() && 0 <= c < nets[n].channels.len()
}

/// Position `(n1, c1)` comes before `(n2, c2)` in traversal order.
pub open spec fn pos_before(n1: int, c1: int, n2: int, c2: int) -> bool {
    n1 < n2 || (n1 == n2 && c1 < c2)
}

/// Some channel of the model has id `id`.
pub open spec fn contains_id(nets: Seq<NetworkView>, id: u32) -> bool {
    exists|n: int, c: int| has_pos(nets, n, c) && #[trigger] nets[n].channels[c].id == id
}

/// `(n, c)` is the first position, in traversal order, of a channel with id `id`.
pub open spec fn is_first_pos(nets: Seq<NetworkView>, id: u32, n: int, c: int) -> bool {
    &&& has_pos(nets, n, c)
    &&& nets[n].channels[c].id == id
    &&& forall|n2: int, c2: int|
        has_pos(nets, n2, c2) && pos_before(n2, c2, n, c) ==> #[trigger] nets[n2].channels[c2].id
            != id
}

/// There is one first position of an id.
pub proof fn lemma_first_pos_unique(nets: Seq<NetworkView>, id: u32, n1: int, c1: int, n2: int, c2: int)
    requires
        is_first_pos(nets, id, n1, c1),
        is_first_pos(nets, id, n2, c2),
    ensures
        n1 == n2 && c1 == c2,
{
    if pos_before(n1, c1, n2, c2) {
        assert(nets[n1].channels[c1].id == id);
    } else if pos_before(n2, c2, n1, c1) {
        assert(nets[n2].channels[c2].id == id);
    }
}

/// The first position of a channel with id `id`, if any.
pub open spec fn first_pos(nets: Seq<NetworkView>, id: u32) -> Option<(int, int)> {
    if contains_id(nets, id) {
        Some(choose|p: (int, int)| is_first_pos(nets, id, p.0, p.1))
    } else {
        None
    }
}

/// A first position found is the one that `first_pos` names.
pub proof fn lemma_first_pos_is(nets: Seq<NetworkView>, id: u32, n: int, c: int)
    requires
        is_first_pos(nets, id, n, c),
    ensures
        first_pos(nets, id) == Some((n, c)),
{
    assert(nets[n].channels[c].id == id);
    assert(is_first_pos(nets, id, (n, c).0, (n, c).1));
    let p = choose|p: (int, int)| is_first_pos(nets, id, p.0, p.1);
    lemma_first_pos_unique(nets, id, n, c, p.0, p.1);
}

/// The full state that the server sends at the start of a session.
#[derive(Debug, PartialEq)]
pub struct Init {
    pub active: u32,
    pub networks: Vec<Network>,
    pub token: String,
}

impl Init {
    /// The first channel, in traversal order, whose id is the declared active one.
    pub fn active_channel(&self) -> (r: Option<&NetworkChannel>)
        ensures
            match r {
                Some(ch) => exists|n: int, c: int|
                    is_first_pos(nets_view(self.networks@), self.active, n, c)
                        && self.networks@[n].channels@[c] == *ch,
                None => !contains_id(nets_view(self.networks@), self.active),
            },
    {
        let ghost nets = nets_view(self.networks@);
        let mut k: usize = 0;
        while k < self.networks.len()
            invariant
                k <= self.networks@.len(),
                nets == nets_view(self.networks@),
                forall|n: int, c: int|
                    0 <= n < k && has_pos(nets, n, c) ==> #[trigger] nets[n].channels[c].id
                        != self.active,
            decreases self.networks@.len() - k,
        {
            let channel = self.networks[k].channel(self.active);
            proof {
                assert(nets[k as int] == self.networks@[k as int]@);
            }
            match channel {
                Some(ch) => {
                    proof {
                        let i = choose|i: int|
                            0 <= i < self.networks@[k as int].channels@.len()
                                && self.networks@[k as int].channels@[i] == *ch && ch.id
                                == self.active && forall|j: int|
                                0 <= j < i ==> #[trigger] self.networks@[k as int].channels@[j].id
                                    != self.active;
                        assert forall|n2: int, c2: int|
                            has_pos(nets, n2, c2) && pos_before(n2, c2, k as int, i)
                            implies #[trigger] nets[n2].channels[c2].id != self.active by {
                            if n2 == k {
                                assert(nets[n2].channels[c2] == self.networks@[k as int].channels@[c2]@);
                            }
                        }
                        assert(nets[k as int].channels[i] == self.networks@[k as int].channels@[i]@);
                        assert(is_first_pos(nets, self.active, k as int, i));
                    }
                    return channel;
                },
                None => {
                    proof {
                        assert forall|n: int, c: int|
                            0 <= n < k + 1 && has_pos(nets, n, c) implies #[trigger] nets[n].channels[c].id
                                != self.active by {
                            if n == k {
                                assert(nets[n].channels[c] == self.networks@[k as int].channels@[c]@);
                            }
                        }
                    }
                },
            }
            k = k + 1;
        }
        None
    }
}

/// A new message for a channel.
#[derive(Debug, PartialEq)]
pub struct Msg {
    pub chan: u32,
    pub msg: ChannelMessage,
}

/// A page of older messages for a channel, oldest first.
#[derive(Debug, PartialEq)]
pub struct More {
    pub chan: u32,
    pub messages: Vec<ChannelMessage>,
}

/// A channel that the server announces in a network.
#[derive(Debug, PartialEq)]
pub struct Join {
    /// Target network uuid
    pub network: String,
    /// Index in the network channels list
    pub index: usize,
    pub chan: NetworkChannel,
}

} // verus!
