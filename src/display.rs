use vstd::prelude::*;
use crate::types::{ChannelMessage, ChannelView, Network, NetworkChannel, NetworkView, User, UserView, nets_view};

verus! {

/// The author column of a chat line: rank marker and nick, or a mark for
/// entries without both.
pub open spec fn author_text(u: UserView) -> Seq<char> {
    match (u.mode, u.nick) {
        (Some(m), Some(n)) => "    "@ + m + n,
        _ => "    ~system~"@,
    }
}

/// A chat line: the author, then the text of a message or the kind of any
/// other entry.
pub open spec fn message_text(m: ChannelMessage) -> Seq<char> {
    author_text(m.from@) + ": "@ + if m.type_@ == "message"@ {
        m.text@
    } else {
        m.type_@
    }
}

/// The chat line of one message.
pub fn message_line(m: &ChannelMessage) -> (r: String)
    ensures
        r@ == message_text(*m),
{
    let mut line = match (&m.from.mode, &m.from.nick) {
        (Some(mode), Some(nick)) => {
            let mut s = String::from_str("    ");
            s.append(mode.as_str());
            s.append(nick.as_str());
            s
        },
        _ => String::from_str("    ~system~"),
    };
    line.append(": ");
    let kind = String::from_str("message");
    if m.type_ == kind {
        line.append(m.text.as_str());
    } else {
        line.append(m.type_.as_str());
    }
    line
}

/// The chat pane.
pub struct ChatWidget {}

impl ChatWidget {
    /// The chat lines of messages, oldest first.
    pub fn lines(messages: &[ChannelMessage]) -> (r: Vec<String>)
        ensures
            r@.len() == messages@.len(),
            forall|i: int| 0 <= i < messages@.len() ==> #[trigger] r@[i]@ == message_text(messages@[i]),
    {
        let mut r: Vec<String> = Vec::new();
        let mut i: usize = 0;
        while i < messages.len()
            invariant
                i <= messages@.len(),
                r@.len() == i,
                forall|j: int| 0 <= j < i ==> #[trigger] r@[j]@ == message_text(messages@[j]),
            decreases messages@.len() - i,
        {
            r.push(message_line(&messages[i]));
            i = i + 1;
        }
        r
    }
}

/// The label of a roster user with a nick: rank marker, if any, then nick.
pub open spec fn user_text(u: UserView) -> Seq<char> {
    match u.mode {
        Some(m) => m + u.nick->Some_0,
        None => u.nick->Some_0,
    }
}

/// The labels of the users that have a nick, in roster order.
pub open spec fn user_texts(us: Seq<UserView>) -> Seq<Seq<char>>
    decreases us.len(),
{
    if us.len() == 0 {
        Seq::empty()
    } else if us.last().nick is Some {
        user_texts(us.drop_last()).push(user_text(us.last()))
    } else {
        user_texts(us.drop_last())
    }
}

/// The user list pane.
pub struct UsersWidget {}

impl UsersWidget {
    /// The roster as labels; entries without a nick are left out.
    pub fn labels(users: &[User]) -> (r: Vec<String>)
        ensures
            r@.map_values(|s: String| s@) == user_texts(users@.map_values(|u: User| u@)),
    {
        let ghost us = users@.map_values(|u: User| u@);
        let mut r: Vec<String> = Vec::new();
        let mut i: usize = 0;
        while i < users.len()
            invariant
                i <= users@.len(),
                us == users@.map_values(|u: User| u@),
                r@.map_values(|s: String| s@) == user_texts(us.take(i as int)),
            decreases users@.len() - i,
        {
            proof {
                assert(us.take(i + 1).drop_last() =~= us.take(i as int));
                assert(us.take(i + 1).last() == users@[i as int]@);
            }
            match &users[i].nick {
                Some(nick) => {
                    let label = match &users[i].mode {
                        Some(mode) => {
                            let mut s = String::from_str(mode.as_str());
                            s.append(nick.as_str());
                            s
                        },
                        None => String::from_str(nick.as_str()),
                    };
                    let ghost before = r@;
                    r.push(label);
                    proof {
                        assert(r@.map_values(|s: String| s@) =~= before.map_values(|s: String| s@).push(label@));
                    }
                },
                None => {},
            }
            i = i + 1;
        }
        assert(us.take(users@.len() as int) =~= us);
        r
    }
}

/// One line of the channel list.
#[derive(Debug, PartialEq, Eq)]
pub struct ChannelRow {
    pub text: String,
    /// Lobbies stand out.
    pub bold: bool,
    /// The active channel is shown inverted.
    pub reversed: bool,
}

/// A row as plain values: text, bold, reversed.
pub open spec fn row_view(r: ChannelRow) -> (Seq<char>, bool, bool) {
    (r.text@, r.bold, r.reversed)
}

/// The row of one channel: a lobby by its bare name in bold, any other
/// channel indented by two spaces.
pub open spec fn channel_row(ch: ChannelView, active: u32) -> (Seq<char>, bool, bool) {
    if ch.kind == "lobby"@ {
        (ch.name, true, ch.id == active)
    } else {
        ("  "@ + ch.name, false, ch.id == active)
    }
}

/// The rows of one network: one per channel, then an empty one.
pub open spec fn network_rows(net: NetworkView, active: u32) -> Seq<(Seq<char>, bool, bool)> {
    net.channels.map_values(|ch: ChannelView| channel_row(ch, active)).push((Seq::empty(), false, false))
}

/// The rows of the channel list, network after network.
pub open spec fn list_rows(nets: Seq<NetworkView>, active: u32) -> Seq<(Seq<char>, bool, bool)>
    decreases nets.len(),
{
    if nets.len() == 0 {
        Seq::empty()
    } else {
        list_rows(nets.drop_last(), active) + network_rows(nets.last(), active)
    }
}

fn row_for(ch: &NetworkChannel, active: u32) -> (r: ChannelRow)
    ensures
        row_view(r) == channel_row(ch@, active),
{
    let lobby = String::from_str("lobby");
    if ch.type_ == lobby {
        ChannelRow { text: String::from_str(ch.name.as_str()), bold: true, reversed: ch.id == active }
    } else {
        let mut text = String::from_str("  ");
        text.append(ch.name.as_str());
        ChannelRow { text, bold: false, reversed: ch.id == active }
    }
}

/// The channel list pane.
pub struct ChannelsWidget {}

impl ChannelsWidget {
    /// The channel list: each network's channels, the active one marked, with an
    /// empty row after each network.
    pub fn rows(networks: &[Network], active: u32) -> (r: Vec<ChannelRow>)
        ensures
            r@.map_values(|x: ChannelRow| row_view(x)) == list_rows(nets_view(networks@), active),
    {
        let ghost nets = nets_view(networks@);
        let mut r: Vec<ChannelRow> = Vec::new();
        let mut k: usize = 0;
        while k < networks.len()
            invariant
                k <= networks@.len(),
                nets == nets_view(networks@),
                r@.map_values(|x: ChannelRow| row_view(x)) == list_rows(nets.take(k as int), active),
            decreases networks@.len() - k,
        {
            let chans = &networks[k].channels;
            let ghost start = r@.map_values(|x: ChannelRow| row_view(x));
            let ghost cv = nets[k as int].channels;
            assert(cv == chans@.map_values(|c: NetworkChannel| c@));
            let mut i: usize = 0;
            while i < chans.len()
                invariant
                    i <= chans@.len(),
                    cv == chans@.map_values(|c: NetworkChannel| c@),
                    r@.map_values(|x: ChannelRow| row_view(x)) == start + cv.take(i as int).map_values(
                        |ch: ChannelView| channel_row(ch, active),
                    ),
                decreases chans@.len() - i,
            {
                let ghost before = r@;
                let row = row_for(&chans[i], active);
                r.push(row);
                proof {
                    assert(cv[i as int] == chans@[i as int]@);
                    assert(r@.map_values(|x: ChannelRow| row_view(x)) =~= before.map_values(|x: ChannelRow| row_view(x)).push(row_view(row)));
                    assert(cv.take(i + 1) =~= cv.take(i as int).push(cv[i as int]));
                    assert(cv.take(i + 1).map_values(|ch: ChannelView| channel_row(ch, active)) =~= cv.take(i as int).map_values(|ch: ChannelView| channel_row(ch, active)).push(channel_row(cv[i as int], active)));
                    assert(r@.map_values(|x: ChannelRow| row_view(x)) =~= start + cv.take(i + 1).map_values(
                        |ch: ChannelView| channel_row(ch, active),
                    ));
                }
                i = i + 1;
            }
            let ghost before = r@;
            let blank = ChannelRow { text: String::new(), bold: false, reversed: false };
            r.push(blank);
            proof {
                assert(cv.take(i as int) =~= cv);
                assert(blank.text@ =~= Seq::<char>::empty());
                assert(r@.map_values(|x: ChannelRow| row_view(x)) =~= before.map_values(|x: ChannelRow| row_view(x)).push(row_view(blank)));
                assert(network_rows(nets[k as int], active) == cv.map_values(|ch: ChannelView| channel_row(ch, active)).push((Seq::<char>::empty(), false, false)));
                assert(nets.take(k + 1).drop_last() =~= nets.take(k as int));
                assert(nets.take(k + 1).last() == nets[k as int]);
                assert(r@.map_values(|x: ChannelRow| row_view(x)) =~= list_rows(nets.take(k + 1), active));
            }
            k = k + 1;
        }
        assert(nets.take(networks@.len() as int) =~= nets);
        r
    }
}

} // verus!
