use vstd::prelude::*;
use crate::events::{Event, EventQueue, Request, is_multi_user};
use crate::types::{
    ChannelMessage, ChannelView, Init, Join, More, Msg, Names, Network, NetworkChannel,
    NetworkView, User, UserView, contains_id, first_pos, has_pos, is_first_pos, lemma_first_pos_is, nets_view, user_of_name,
};

verus! {

/// The local mirror of the session, with the selection cursor.
pub struct TuiState {
    /// All available networks
    networks: Vec<Network>,
    /// Id of currently active channel
    active: u32,
    /// index into networks list
    network_idx: usize,
    /// index into channel inside of network
    channel_idx: usize,
}

/// The state as plain values.
pub struct StateView {
    pub networks: Seq<NetworkView>,
    pub active: u32,
    pub network_idx: int,
    pub channel_idx: int,
}

impl View for TuiState {
    type V = StateView;

    closed spec fn view(&self) -> StateView {
        StateView {
            networks: nets_view(self.networks@),
            active: self.active,
            network_idx: self.network_idx as int,
            channel_idx: self.channel_idx as int,
        }
    }
}

/// The model with channel `(n, c)` replaced by `ch`.
pub open spec fn set_channel(nets: Seq<NetworkView>, n: int, c: int, ch: ChannelView) -> Seq<
    NetworkView,
> {
    nets.update(n, NetworkView { channels: nets[n].channels.update(c, ch), ..nets[n] })
}

/// The cursor `(n, c)` is where a scan for `active` ends: its first position
/// when some channel has that id, else the first position of the model.
pub open spec fn selected(nets: Seq<NetworkView>, active: u32, n: int, c: int) -> bool {
    if contains_id(nets, active) {
        is_first_pos(nets, active, n, c)
    } else {
        n == 0 && c == 0
    }
}

/// The cursor resolves to the active channel whenever that channel exists.
pub open spec fn cursor_ok(s: StateView) -> bool {
    if contains_id(s.networks, s.active) {
        has_pos(s.networks, s.network_idx, s.channel_idx)
            && s.networks[s.network_idx].channels[s.channel_idx].id == s.active
    } else {
        s.network_idx == 0 && s.channel_idx == 0
    }
}

/// The first position of a channel with id `id`, when there is one.
pub open spec fn find_spec(nets: Seq<NetworkView>, id: u32, r: Option<(usize, usize)>) -> bool {
    match r {
        Some((n, c)) => is_first_pos(nets, id, n as int, c as int),
        None => !contains_id(nets, id),
    }
}

/// A channel after its first activation.
pub open spec fn activated(ch: ChannelView) -> ChannelView {
    ChannelView { loaded: true, ..ch }
}

/// What activating `ch` asks of the server: always an open; on the first
/// activation also the roster of a multi-user channel, and the history older
/// than the last known message, if there is one.
pub open spec fn activation_requests(ch: ChannelView) -> Seq<Request> {
    let names = if !ch.loaded && ch.kind == "channel"@ {
        seq![Request::Names(ch.id)]
    } else {
        Seq::empty()
    };
    let more = if !ch.loaded && ch.messages.len() > 0 {
        seq![Request::More { target: ch.id, last_id: ch.messages.last().id }]
    } else {
        Seq::empty()
    };
    seq![Request::Open(ch.id)] + names + more
}

/// A channel whose messages are `msgs` and whose other fields are those of `ch`.
pub open spec fn with_messages(ch: ChannelView, msgs: Seq<ChannelMessage>) -> ChannelView {
    ChannelView { messages: msgs, ..ch }
}

/// A channel whose roster is `users` and whose other fields are those of `ch`.
pub open spec fn with_users(ch: ChannelView, users: Seq<UserView>) -> ChannelView {
    ChannelView { users: users, ..ch }
}

proof fn lemma_view_set_channel(
    old_nets: Seq<Network>,
    new_nets: Seq<Network>,
    n: int,
    c: int,
)
    requires
        0 <= n < old_nets.len(),
        0 <= c < old_nets[n].channels@.len(),
        new_nets.len() == old_nets.len(),
        forall|k: int| 0 <= k < old_nets.len() && k != n ==> new_nets[k] == old_nets[k],
        new_nets[n].name == old_nets[n].name,
        new_nets[n].nick == old_nets[n].nick,
        new_nets[n].uuid == old_nets[n].uuid,
        new_nets[n].channels@ == old_nets[n].channels@.update(c, new_nets[n].channels@[c]),
    ensures
        nets_view(new_nets) == set_channel(nets_view(old_nets), n, c, new_nets[n].channels@[c]@),
{
    let a = nets_view(new_nets);
    let b = set_channel(nets_view(old_nets), n, c, new_nets[n].channels@[c]@);
    assert(a[n].channels =~= b[n].channels);
    assert(a =~= b);
}

/// Changing fields other than ids keeps the cursor coherent.
proof fn lemma_cursor_same_ids(s: StateView, t: StateView)
    requires
        cursor_ok(s),
        t.active == s.active,
        t.network_idx == s.network_idx,
        t.channel_idx == s.channel_idx,
        t.networks.len() == s.networks.len(),
        forall|n: int| 0 <= n < s.networks.len() ==> #[trigger] t.networks[n].channels.len() == s.networks[n].channels.len(),
        forall|n: int, c: int| has_pos(s.networks, n, c) ==> #[trigger] t.networks[n].channels[c].id == s.networks[n].channels[c].id,
    ensures
        cursor_ok(t),
{
    if contains_id(s.networks, s.active) {
        let (n, c) = choose|n: int, c: int| has_pos(s.networks, n, c) && #[trigger] s.networks[n].channels[c].id == s.active;
        assert(t.networks[n].channels[c].id == t.active);
    } else {
        if contains_id(t.networks, t.active) {
            let (n, c) = choose|n: int, c: int| has_pos(t.networks, n, c) && #[trigger] t.networks[n].channels[c].id == t.active;
            assert(s.networks[n].channels[c].id == s.active);
        }
    }
}

/// Replacing one channel by one with the same id keeps the cursor coherent.
proof fn lemma_cursor_set_channel(s: StateView, n: int, c: int, ch: ChannelView)
    requires
        cursor_ok(s),
        has_pos(s.networks, n, c),
        ch.id == s.networks[n].channels[c].id,
    ensures
        cursor_ok(StateView { networks: set_channel(s.networks, n, c, ch), ..s }),
{
    let t = StateView { networks: set_channel(s.networks, n, c, ch), ..s };
    assert forall|n2: int, c2: int| has_pos(s.networks, n2, c2) implies #[trigger] t.networks[n2].channels[c2].id == s.networks[n2].channels[c2].id by {
        if n2 == n && c2 == c {
        }
    }
    assert forall|n2: int| 0 <= n2 < s.networks.len() implies #[trigger] t.networks[n2].channels.len() == s.networks[n2].channels.len() by {
    }
    lemma_cursor_same_ids(s, t);
}

/// `k` is the first network whose uuid is `uuid`.
pub open spec fn is_first_net(nets: Seq<NetworkView>, uuid: Seq<char>, k: int) -> bool {
    &&& 0 <= k < nets.len()
    &&& nets[k].uuid == uuid
    &&& forall|j: int| 0 <= j < k ==> #[trigger] nets[j].uuid != uuid
}

/// Index of the first network whose uuid is `uuid`, if any.
pub open spec fn first_net(nets: Seq<NetworkView>, uuid: Seq<char>) -> Option<int> {
    if exists|k: int| 0 <= k < nets.len() && #[trigger] nets[k].uuid == uuid {
        Some(choose|k: int| is_first_net(nets, uuid, k))
    } else {
        None
    }
}

/// The channels of a network after `ch` joins at `index`: inserted there when
/// `index` is within the list, else appended.
pub open spec fn join_channels(chans: Seq<ChannelView>, index: int, ch: ChannelView) -> Seq<ChannelView> {
    if index < chans.len() {
        chans.insert(index, ch)
    } else {
        chans.push(ch)
    }
}

/// The model after `ch` joins network `k` at `index`.
pub open spec fn join_networks(nets: Seq<NetworkView>, k: int, index: int, ch: ChannelView) -> Seq<NetworkView> {
    nets.update(k, NetworkView { channels: join_channels(nets[k].channels, index, ch), ..nets[k] })
}

/// The model once the full state arrived: the declared active channel counts as loaded.
pub open spec fn init_networks(nets: Seq<NetworkView>, active: u32) -> Seq<NetworkView> {
    match first_pos(nets, active) {
        Some((n, c)) => set_channel(nets, n, c, activated(nets[n].channels[c])),
        None => nets,
    }
}

/// The roster of a channel built from the roster entries.
pub open spec fn roster_of(users: Seq<crate::types::Name>) -> Seq<UserView> {
    users.map_values(|u: crate::types::Name| user_of_name(u))
}

/// The model after a live message: appended to its channel, if there is one.
pub open spec fn msg_networks(nets: Seq<NetworkView>, msg: Msg) -> Seq<NetworkView> {
    match first_pos(nets, msg.chan) {
        Some((n, c)) => set_channel(nets, n, c,
            with_messages(nets[n].channels[c], nets[n].channels[c].messages.push(msg.msg))),
        None => nets,
    }
}

/// The model after a page of history: put in front of its channel's messages,
/// if there is such a channel.
pub open spec fn more_networks(nets: Seq<NetworkView>, more: More) -> Seq<NetworkView> {
    match first_pos(nets, more.chan) {
        Some((n, c)) => set_channel(nets, n, c,
            with_messages(nets[n].channels[c], more.messages@ + nets[n].channels[c].messages)),
        None => nets,
    }
}

/// The model after a roster: it replaces its channel's users, if there is
/// such a channel.
pub open spec fn names_networks(nets: Seq<NetworkView>, names: Names) -> Seq<NetworkView> {
    if names.id > u32::MAX {
        nets
    } else {
        match first_pos(nets, names.id as u32) {
            Some((n, c)) => set_channel(nets, n, c,
                with_users(nets[n].channels[c], roster_of(names.users@))),
            None => nets,
        }
    }
}

/// What a join does to the state: nothing when no network has its uuid.
pub open spec fn join_applied(s: StateView, t: StateView, join: Join) -> bool {
    match first_net(s.networks, join.network@) {
        Some(k) => {
            &&& t.networks == join_networks(s.networks, k, join.index as int, join.chan@)
            &&& t.active == join.chan.id
            &&& selected(t.networks, t.active, t.network_idx, t.channel_idx)
        },
        None => t == s,
    }
}

/// The cursor and active id are kept.
pub open spec fn same_selection(s: StateView, t: StateView) -> bool {
    t.active == s.active && t.network_idx == s.network_idx && t.channel_idx == s.channel_idx
}

/// What an event does to the state.
pub open spec fn event_applied(s: StateView, t: StateView, event: Event) -> bool {
    match event {
        Event::Init(init) => {
            &&& t.active == init.active
            &&& t.networks == init_networks(nets_view(init.networks@), init.active)
            &&& selected(t.networks, t.active, t.network_idx, t.channel_idx)
        },
        Event::Msg(msg) => same_selection(s, t) && t.networks == msg_networks(s.networks, msg),
        Event::More(more) => same_selection(s, t) && t.networks == more_networks(s.networks, more),
        Event::Names(names) => same_selection(s, t) && t.networks == names_networks(s.networks, names),
        Event::Join(join) => join_applied(s, t, join),
    }
}

/// `c` is the first channel named `name`.
pub open spec fn is_first_named(chans: Seq<ChannelView>, name: Seq<char>, c: int) -> bool {
    &&& 0 <= c < chans.len()
    &&& chans[c].name == name
    &&& forall|j: int| 0 <= j < c ==> #[trigger] chans[j].name != name
}

/// The channel that a local command jumps to: `/join <name>` names a channel
/// of the current network; the id of the first one with that name.
pub open spec fn command_target(s: StateView, words: Seq<Seq<char>>) -> Option<u32> {
    if words.len() >= 2 && words[0] == "/join"@ && 0 <= s.network_idx < s.networks.len()
        && exists|c: int|
        0 <= c < s.networks[s.network_idx].channels.len()
            && #[trigger] s.networks[s.network_idx].channels[c].name == words[1] {
        let chans = s.networks[s.network_idx].channels;
        Some(chans[choose|c: int| is_first_named(chans, words[1], c)].id)
    } else {
        None
    }
}

/// `t` and `r` are what jumping to channel `id` gives: the first channel with
/// that id is selected and activated.
pub open spec fn jumped(s: StateView, t: StateView, id: u32, r: Seq<Request>) -> bool {
    match first_pos(s.networks, id) {
        Some((n, c)) => moved_to(s, t, n, c) && r == activation_requests(s.networks[n].channels[c]),
        None => false,
    }
}

/// `r` forwards `text` to channel `target` unchanged.
pub open spec fn forwarded(r: Seq<Request>, text: Seq<char>, target: u32) -> bool {
    &&& r.len() == 1
    &&& match r[0] {
        Request::Input { text: t, target: g } => t@ == text && g == target,
        _ => false,
    }
}

/// `t` and `r` are what handling the typed line `input` gives: a local
/// command is carried out, any other non-empty line is forwarded to `target`.
pub open spec fn input_handled(s: StateView, t: StateView, input: Seq<char>, target: u32, r: Seq<Request>) -> bool {
    match command_target(s, crate::input::words_of(input)) {
        Some(id) => jumped(s, t, id, r),
        None => {
            &&& t == s
            &&& input.len() == 0 ==> r.len() == 0
            &&& input.len() > 0 ==> forwarded(r, input, target)
        },
    }
}

/// `t` and `r` are what a step towards `target` gives: the channel there is
/// activated, or nothing happens when there is no such position.
pub open spec fn stepped(s: StateView, t: StateView, target: Option<(int, int)>, r: Seq<Request>) -> bool {
    match target {
        Some((n, c)) => moved_to(s, t, n, c) && r == activation_requests(s.networks[n].channels[c]),
        None => t == s && r.len() == 0,
    }
}

/// The first network from `k` on that has channels.
pub open spec fn next_nonempty(nets: Seq<NetworkView>, k: int) -> Option<int>
    decreases nets.len() - k,
{
    if k < 0 || k >= nets.len() {
        None
    } else if nets[k].channels.len() > 0 {
        Some(k)
    } else {
        next_nonempty(nets, k + 1)
    }
}

/// The last network up to `k` that has channels.
pub open spec fn prev_nonempty(nets: Seq<NetworkView>, k: int) -> Option<int>
    decreases k + 1,
{
    if k < 0 || k >= nets.len() {
        None
    } else if nets[k].channels.len() > 0 {
        Some(k)
    } else {
        prev_nonempty(nets, k - 1)
    }
}

/// The position after the cursor in traversal order: the next channel of the
/// network, else the first channel of the next network that has one.
pub open spec fn next_target(s: StateView) -> Option<(int, int)> {
    let (n, c) = (s.network_idx, s.channel_idx);
    if !has_pos(s.networks, n, c) {
        None
    } else if c + 1 < s.networks[n].channels.len() {
        Some((n, c + 1))
    } else {
        match next_nonempty(s.networks, n + 1) {
            Some(k) => Some((k, 0)),
            None => None,
        }
    }
}

/// The position before the cursor in traversal order: the previous channel of
/// the network, else the last channel of the previous network that has one.
pub open spec fn prev_target(s: StateView) -> Option<(int, int)> {
    let (n, c) = (s.network_idx, s.channel_idx);
    if !has_pos(s.networks, n, c) {
        None
    } else if c > 0 {
        Some((n, c - 1))
    } else {
        match prev_nonempty(s.networks, n - 1) {
            Some(k) => Some((k, s.networks[k].channels.len() - 1)),
            None => None,
        }
    }
}

/// `t` is `s` after the channel at `(n, c)` was activated there.
pub open spec fn moved_to(s: StateView, t: StateView, n: int, c: int) -> bool {
    &&& t.network_idx == n
    &&& t.channel_idx == c
    &&& t.active == s.networks[n].channels[c].id
    &&& t.networks == set_channel(s.networks, n, c, activated(s.networks[n].channels[c]))
}

/// Index of the first channel named `name`.
fn find_named(chans: &Vec<NetworkChannel>, name: &String) -> (r: Option<usize>)
    ensures
        match r {
            Some(c) => is_first_named(chans@.map_values(|c: NetworkChannel| c@), name@, c as int),
            None => forall|c: int| 0 <= c < chans@.len() ==> #[trigger] chans@[c].name@ != name@,
        },
{
    let ghost cv = chans@.map_values(|c: NetworkChannel| c@);
    let mut c: usize = 0;
    while c < chans.len()
        invariant
            c <= chans@.len(),
            cv == chans@.map_values(|c: NetworkChannel| c@),
            forall|j: int| 0 <= j < c ==> #[trigger] cv[j].name != name@,
        decreases chans@.len() - c,
    {
        if chans[c].name == *name {
            return Some(c);
        }
        c = c + 1;
    }
    proof {
        assert forall|j: int| 0 <= j < chans@.len() implies #[trigger] chans@[j].name@ != name@ by {
            assert(cv[j].name == chans@[j].name@);
        }
    }
    None
}

impl TuiState {
    /// The cursor resolves to the active channel whenever that channel exists.
    pub open spec fn wf(&self) -> bool {
        cursor_ok(self@)
    }

    /// An empty model.
    pub fn new() -> (r: TuiState)
        ensures
            r.wf(),
            r@.networks.len() == 0,
            r@.active == 0,
            r@.network_idx == 0,
            r@.channel_idx == 0,
    {
        let r = TuiState { networks: Vec::new(), active: 0, network_idx: 0, channel_idx: 0 };
        assert(r@.networks =~= Seq::<NetworkView>::empty());
        r
    }

    /// All networks, in order.
    pub fn networks(&self) -> (r: &[Network])
        ensures
            nets_view(r@) == self@.networks,
    {
        self.networks.as_slice()
    }

    /// Id of the active channel.
    pub fn active(&self) -> (r: u32)
        ensures
            r == self@.active,
    {
        self.active
    }

    /// Position of the first channel with id `id`.
    fn find_channel(&self, id: u32) -> (r: Option<(usize, usize)>)
        ensures
            find_spec(self@.networks, id, r),
    {
        let ghost nets = self@.networks;
        let mut k: usize = 0;
        while k < self.networks.len()
            invariant
                k <= self.networks@.len(),
                nets == nets_view(self.networks@),
                forall|n: int, c: int|
                    0 <= n < k && has_pos(nets, n, c) ==> #[trigger] nets[n].channels[c].id != id,
            decreases self.networks@.len() - k,
        {
            let chans = &self.networks[k].channels;
            assert(nets[k as int].channels == chans@.map_values(|c: NetworkChannel| c@));
            let mut i: usize = 0;
            while i < chans.len()
                invariant
                    k < self.networks@.len(),
                    i <= chans@.len(),
                    chans == &self.networks@[k as int].channels,
                    nets == nets_view(self.networks@),
                    nets[k as int].channels == chans@.map_values(|c: NetworkChannel| c@),
                    forall|n: int, c: int|
                        0 <= n < k && has_pos(nets, n, c) ==> #[trigger] nets[n].channels[c].id != id,
                    forall|c: int| 0 <= c < i ==> #[trigger] nets[k as int].channels[c].id != id,
                decreases chans@.len() - i,
            {
                if chans[i].id == id {
                    assert(is_first_pos(nets, id, k as int, i as int));
                    return Some((k, i));
                }
                i = i + 1;
            }
            k = k + 1;
        }
        None
    }

    /// Any channel with id `id`: the first in traversal order.
    pub fn channel(&self, id: u32) -> (r: Option<&NetworkChannel>)
        ensures
            match r {
                Some(ch) => exists|n: int, c: int|
                    is_first_pos(self@.networks, id, n, c) && self@.networks[n].channels[c] == ch@,
                None => !contains_id(self@.networks, id),
            },
    {
        match self.find_channel(id) {
            Some((n, c)) => {
                assert(self@.networks[n as int].channels[c as int] == self.networks@[n as int].channels@[c as int]@);
                Some(&self.networks[n].channels[c])
            },
            None => None,
        }
    }

    /// Points the cursor at the first position of the active channel, or at
    /// `(0, 0)` when no channel has the active id.
    fn set_selected(&mut self)
        ensures
            final(self)@.networks == old(self)@.networks,
            final(self)@.active == old(self)@.active,
            selected(final(self)@.networks, final(self)@.active, final(self)@.network_idx, final(self)@.channel_idx),
            final(self).wf(),
    {
        match self.find_channel(self.active) {
            Some((n, c)) => {
                self.network_idx = n;
                self.channel_idx = c;
            },
            None => {
                self.network_idx = 0;
                self.channel_idx = 0;
            },
        }
    }

    /// Appends a live message to its channel; unknown channels are ignored.
    fn on_msg(&mut self, msg: Msg)
        requires
            old(self).wf(),
        ensures
            final(self).wf(),
            final(self)@.active == old(self)@.active,
            final(self)@.network_idx == old(self)@.network_idx,
            final(self)@.channel_idx == old(self)@.channel_idx,
            final(self)@.networks == msg_networks(old(self)@.networks, msg),
    {
        match self.find_channel(msg.chan) {
            Some((n, c)) => {
                let ghost old_nets = self.networks@;
                self.networks[n].channels[c].messages.push(msg.msg);
                proof {
                    lemma_view_set_channel(old_nets, self.networks@, n as int, c as int);
                    assert(self.networks@[n as int].channels@[c as int]@ == with_messages(
                        old_nets[n as int].channels@[c as int]@,
                        old_nets[n as int].channels@[c as int].messages@.push(msg.msg)));
                    lemma_cursor_set_channel(old(self)@, n as int, c as int, self.networks@[n as int].channels@[c as int]@);
                    lemma_first_pos_is(old(self)@.networks, msg.chan, n as int, c as int);
                }
            },
            None => {},
        }
    }

    /// Puts a page of older messages in front of the channel's messages;
    /// unknown channels are ignored.
    fn on_more(&mut self, more: More)
        requires
            old(self).wf(),
        ensures
            final(self).wf(),
            final(self)@.active == old(self)@.active,
            final(self)@.network_idx == old(self)@.network_idx,
            final(self)@.channel_idx == old(self)@.channel_idx,
            final(self)@.networks == more_networks(old(self)@.networks, more),
    {
        match self.find_channel(more.chan) {
            Some((n, c)) => {
                let ghost old_nets = self.networks@;
                let mut msgs = more.messages;
                let ch = &mut self.networks[n].channels[c];
                std::mem::swap(&mut ch.messages, &mut msgs);
                ch.messages.append(&mut msgs);
                proof {
                    lemma_view_set_channel(old_nets, self.networks@, n as int, c as int);
                    assert(self.networks@[n as int].channels@[c as int]@ == with_messages(
                        old_nets[n as int].channels@[c as int]@,
                        more.messages@ + old_nets[n as int].channels@[c as int].messages@));
                    lemma_cursor_set_channel(old(self)@, n as int, c as int, self.networks@[n as int].channels@[c as int]@);
                    lemma_first_pos_is(old(self)@.networks, more.chan, n as int, c as int);
                }
            },
            None => {},
        }
    }

    /// Replaces the roster of a channel; unknown channels are ignored.
    fn on_names(&mut self, names: Names)
        requires
            old(self).wf(),
        ensures
            final(self).wf(),
            final(self)@.active == old(self)@.active,
            final(self)@.network_idx == old(self)@.network_idx,
            final(self)@.channel_idx == old(self)@.channel_idx,
            final(self)@.networks == names_networks(old(self)@.networks, names),
    {
        if names.id > u32::MAX as u64 {
            return;
        }
        let id = names.id as u32;
        match self.find_channel(id) {
            Some((n, c)) => {
                let mut users: Vec<User> = Vec::new();
                let mut i: usize = 0;
                while i < names.users.len()
                    invariant
                        i <= names.users@.len(),
                        users@.len() == i,
                        forall|j: int| 0 <= j < i ==> #[trigger] users@[j]@ == user_of_name(names.users@[j]),
                    decreases names.users@.len() - i,
                {
                    let u = User::from_name(&names.users[i]);
                    users.push(u);
                    i = i + 1;
                }
                assert(users@.map_values(|u: User| u@) =~= roster_of(names.users@));
                let ghost old_nets = self.networks@;
                self.networks[n].channels[c].users = users;
                proof {
                    lemma_view_set_channel(old_nets, self.networks@, n as int, c as int);
                    assert(self.networks@[n as int].channels@[c as int]@ =~= with_users(
                        old_nets[n as int].channels@[c as int]@, roster_of(names.users@)));
                    lemma_cursor_set_channel(old(self)@, n as int, c as int, self.networks@[n as int].channels@[c as int]@);
                    lemma_first_pos_is(old(self)@.networks, id, n as int, c as int);
                }
            },
            None => {},
        }
    }

    /// Takes the full state: replaces the model, makes the declared channel
    /// active and counts it as loaded.
    fn on_init(&mut self, init: Init)
        ensures
            final(self).wf(),
            final(self)@.active == init.active,
            final(self)@.networks == init_networks(nets_view(init.networks@), init.active),
            selected(final(self)@.networks, final(self)@.active, final(self)@.network_idx, final(self)@.channel_idx),
    {
        self.active = init.active;
        self.networks = init.networks;
        self.network_idx = 0;
        self.channel_idx = 0;
        match self.find_channel(self.active) {
            Some((n, c)) => {
                let ghost old_nets = self.networks@;
                self.networks[n].channels[c].loaded = true;
                proof {
                    lemma_view_set_channel(old_nets, self.networks@, n as int, c as int);
                    assert(self.networks@[n as int].channels@[c as int]@ == activated(old_nets[n as int].channels@[c as int]@));
                    lemma_first_pos_is(nets_view(old_nets), init.active, n as int, c as int);
                }
            },
            None => {},
        }
        self.set_selected();
    }

    /// Index of the first network whose uuid is `uuid`.
    fn find_network(&self, uuid: &String) -> (r: Option<usize>)
        ensures
            match r {
                Some(k) => is_first_net(self@.networks, uuid@, k as int),
                None => forall|k: int| 0 <= k < self@.networks.len() ==> #[trigger] self@.networks[k].uuid != uuid@,
            },
    {
        let ghost nets = self@.networks;
        let mut k: usize = 0;
        while k < self.networks.len()
            invariant
                k <= self.networks@.len(),
                nets == nets_view(self.networks@),
                forall|j: int| 0 <= j < k ==> #[trigger] nets[j].uuid != uuid@,
            decreases self.networks@.len() - k,
        {
            if self.networks[k].uuid == *uuid {
                return Some(k);
            }
            k = k + 1;
        }
        None
    }

    /// Adds an announced channel to its network and makes it active; unknown
    /// networks are ignored.
    fn on_join(&mut self, join: Join)
        requires
            old(self).wf(),
        ensures
            final(self).wf(),
            join_applied(old(self)@, final(self)@, join),
    {
        let ghost nets = self@.networks;
        let k = match self.find_network(&join.network) {
            Some(k) => k,
            None => {
                return;
            },
        };
        proof {
            let j = choose|j: int| is_first_net(nets, join.network@, j);
            if j < k {
                assert(nets[j].uuid != join.network@);
            } else if k < j {
                assert(nets[k as int].uuid == join.network@);
            }
        }
        let ghost old_nets = self.networks@;
        let ghost chv = join.chan@;
        self.active = join.chan.id;
        let net = &mut self.networks[k];
        if join.index >= net.channels.len() {
            net.channels.push(join.chan);
        } else {
            net.channels.insert(join.index, join.chan);
        }
        proof {
            let a = nets_view(self.networks@);
            let b = join_networks(nets_view(old_nets), k as int, join.index as int, chv);
            assert(a[k as int].channels =~= b[k as int].channels);
            assert(a =~= b);
        }
        self.set_selected();
    }

    /// Activates the channel under the cursor: it becomes the active one, is
    /// opened, and on its first activation its roster and history are asked for.
    fn update_active(&mut self) -> (r: Vec<Request>)
        requires
            has_pos(old(self)@.networks, old(self)@.network_idx, old(self)@.channel_idx),
        ensures
            final(self).wf(),
            moved_to(old(self)@, final(self)@, old(self)@.network_idx, old(self)@.channel_idx),
            r@ == activation_requests(old(self)@.networks[old(self)@.network_idx].channels[old(self)@.channel_idx]),
    {
        let n = self.network_idx;
        let c = self.channel_idx;
        let ghost old_nets = self.networks@;
        let ghost chv = self@.networks[n as int].channels[c as int];
        assert(chv == self.networks@[n as int].channels@[c as int]@);
        let id = self.networks[n].channels[c].id;
        self.active = id;
        let mut r: Vec<Request> = Vec::new();
        r.push(Request::Open(id));
        if !self.networks[n].channels[c].loaded {
            if is_multi_user(&self.networks[n].channels[c].type_) {
                r.push(Request::Names(id));
            }
            let len = self.networks[n].channels[c].messages.len();
            if len > 0 {
                let last_id = self.networks[n].channels[c].messages[len - 1].id;
                r.push(Request::More { target: id, last_id });
            }
            self.networks[n].channels[c].loaded = true;
            proof {
                lemma_view_set_channel(old_nets, self.networks@, n as int, c as int);
                assert(self.networks@[n as int].channels@[c as int]@ == activated(chv));
            }
        } else {
            proof {
                let nets = nets_view(old_nets);
                assert(activated(chv) == chv);
                assert(nets[n as int].channels.update(c as int, chv) =~= nets[n as int].channels);
                assert(set_channel(nets, n as int, c as int, chv) =~= nets);
            }
        }
        assert(r@ =~= activation_requests(chv));
        proof {
            assert(self@.networks[n as int].channels[c as int].id == id);
        }
        r
    }

    /// Steps to the next channel in traversal order and activates it; at the
    /// last channel of the model nothing changes.
    pub fn next_channel(&mut self) -> (r: Vec<Request>)
        requires
            old(self).wf(),
        ensures
            final(self).wf(),
            stepped(old(self)@, final(self)@, next_target(old(self)@), r@),
    {
        let ghost nets = self@.networks;
        let n = self.network_idx;
        let c = self.channel_idx;
        if n >= self.networks.len() || c >= self.networks[n].channels.len() {
            return Vec::new();
        }
        assert(nets[n as int].channels.len() == self.networks@[n as int].channels@.len());
        if c + 1 < self.networks[n].channels.len() {
            self.channel_idx = c + 1;
        } else {
            let mut k: usize = n + 1;
            while k < self.networks.len() && self.networks[k].channels.len() == 0
                invariant
                    n + 1 <= k <= self.networks@.len(),
                    nets == nets_view(self.networks@),
                    next_nonempty(nets, n + 1) == next_nonempty(nets, k as int),
                decreases self.networks@.len() - k,
            {
                assert(nets[k as int].channels.len() == self.networks@[k as int].channels@.len());
                k = k + 1;
            }
            if k == self.networks.len() {
                return Vec::new();
            }
            assert(nets[k as int].channels.len() == self.networks@[k as int].channels@.len());
            self.network_idx = k;
            self.channel_idx = 0;
        }
        self.update_active()
    }

    /// Steps to the previous channel in traversal order and activates it; at
    /// the first channel of the model nothing changes.
    pub fn prev_channel(&mut self) -> (r: Vec<Request>)
        requires
            old(self).wf(),
        ensures
            final(self).wf(),
            stepped(old(self)@, final(self)@, prev_target(old(self)@), r@),
    {
        let ghost nets = self@.networks;
        let n = self.network_idx;
        let c = self.channel_idx;
        if n >= self.networks.len() || c >= self.networks[n].channels.len() {
            return Vec::new();
        }
        if c > 0 {
            self.channel_idx = c - 1;
        } else {
            let mut k: usize = n;
            while k > 0 && self.networks[k - 1].channels.len() == 0
                invariant
                    k <= n < self.networks@.len(),
                    nets == nets_view(self.networks@),
                    prev_nonempty(nets, n - 1) == prev_nonempty(nets, k - 1),
                decreases k,
            {
                assert(nets[k - 1].channels.len() == self.networks@[k - 1].channels@.len());
                k = k - 1;
            }
            if k == 0 {
                return Vec::new();
            }
            assert(nets[k - 1].channels.len() == self.networks@[k - 1].channels@.len());
            self.network_idx = k - 1;
            self.channel_idx = self.networks[k - 1].channels.len() - 1;
        }
        self.update_active()
    }

    /// Applies one event of the server to the model.
    pub fn apply(&mut self, event: Event)
        requires
            old(self).wf(),
        ensures
            final(self).wf(),
            event_applied(old(self)@, final(self)@, event),
    {
        match event {
            Event::Init(init) => self.on_init(init),
            Event::Msg(msg) => self.on_msg(msg),
            Event::More(more) => self.on_more(more),
            Event::Names(names) => self.on_names(names),
            Event::Join(join) => self.on_join(join),
        }
    }

    /// Takes at most one event from the queue and applies it; tells whether
    /// there was one.
    pub fn update(&mut self, events: &mut EventQueue) -> (r: bool)
        requires
            old(self).wf(),
        ensures
            final(self).wf(),
            r == (old(events)@.len() > 0),
            r ==> final(events)@ == old(events)@.drop_first()
                && event_applied(old(self)@, final(self)@, old(events)@[0]),
            !r ==> final(events)@ == old(events)@ && final(self)@ == old(self)@,
    {
        match events.poll() {
            Some(event) => {
                self.apply(event);
                true
            },
            None => false,
        }
    }

    /// Handles a command that needs no server: `/join <name>` jumps to the
    /// first channel of that name in the current network. `None` when the
    /// words are no such command.
    pub fn handle_command(&mut self, words: &Vec<String>) -> (r: Option<Vec<Request>>)
        requires
            old(self).wf(),
        ensures
            final(self).wf(),
            match command_target(old(self)@, words@.map_values(|w: String| w@)) {
                Some(id) => r is Some && jumped(old(self)@, final(self)@, id, r->Some_0@),
                None => r is None && final(self)@ == old(self)@,
            },
    {
        let ghost ws = words@.map_values(|w: String| w@);
        if words.len() < 2 {
            return None;
        }
        let cmd = String::from_str("/join");
        if !(words[0] == cmd) {
            return None;
        }
        let n = self.network_idx;
        if n >= self.networks.len() {
            return None;
        }
        let ghost nets = self@.networks;
        assert(ws[1] == words@[1]@);
        let c = match find_named(&self.networks[n].channels, &words[1]) {
            Some(c) => c,
            None => {
                return None;
            },
        };
        let chans = &self.networks[n].channels;
        assert(nets[n as int].channels == chans@.map_values(|c: NetworkChannel| c@));
        proof {
            let j = choose|j: int| is_first_named(nets[n as int].channels, ws[1], j);
            if j < c {
                assert(nets[n as int].channels[j].name != ws[1]);
            } else if c < j {
                assert(nets[n as int].channels[c as int].name == ws[1]);
            }
        }
        let id = chans[c].id;
        self.active = id;
        self.set_selected();
        proof {
            assert(nets[n as int].channels[c as int].id == id);
            assert(contains_id(nets, id));
            lemma_first_pos_is(nets, id, self.network_idx as int, self.channel_idx as int);
        }
        Some(self.update_active())
    }

    /// Handles a line typed by the user: a local command is carried out here,
    /// any other non-empty line is forwarded to channel `target`.
    pub fn handle_input(&mut self, input: &str, target: u32) -> (r: Vec<Request>)
        requires
            old(self).wf(),
        ensures
            final(self).wf(),
            input_handled(old(self)@, final(self)@, input@, target, r@),
    {
        let words = crate::input::split_words(input);
        match self.handle_command(&words) {
            Some(r) => r,
            None => {
                let mut r: Vec<Request> = Vec::new();
                if !input.is_empty() {
                    let text = String::from_str(input);
                    r.push(Request::Input { text, target });
                }
                proof {
                    if input@.len() == 0 {
                        assert(words@.len() == 0);
                    }
                }
                r
            },
        }
    }
}

} // verus!
