use vstd::prelude::*;
use crate::events::Request;
use crate::state::{
    StateView, activated, activation_requests, init_networks, join_applied, more_networks,
    msg_networks, next_target, selected, set_channel, with_messages, first_net,
};
use crate::types::{
    ChannelView, Init, More, Msg, NetworkView, contains_id, has_pos, is_first_pos, nets_view,
    pos_before, lemma_first_pos_is,
};

verus! {

/// Some channel with an id that occurs in the model comes first.
pub proof fn lemma_first_pos_exists(nets: Seq<NetworkView>, id: u32, n: int, c: int)
    requires
        has_pos(nets, n, c),
        nets[n].channels[c].id == id,
    ensures
        exists|n2: int, c2: int| is_first_pos(nets, id, n2, c2),
    decreases n, c,
{
    if !is_first_pos(nets, id, n, c) {
        let (n2, c2) = choose|n2: int, c2: int|
            has_pos(nets, n2, c2) && pos_before(n2, c2, n, c) && #[trigger] nets[n2].channels[c2].id
                == id;
        lemma_first_pos_exists(nets, id, n2, c2);
    } else {
        assert(is_first_pos(nets, id, n, c));
    }
}

/// Replacing a channel by one with the same id keeps every first position.
pub proof fn lemma_set_channel_keeps_first(
    nets: Seq<NetworkView>,
    n: int,
    c: int,
    ch: ChannelView,
    id: u32,
    n2: int,
    c2: int,
)
    requires
        has_pos(nets, n, c),
        ch.id == nets[n].channels[c].id,
        is_first_pos(nets, id, n2, c2),
    ensures
        is_first_pos(set_channel(nets, n, c, ch), id, n2, c2),
{
    let t = set_channel(nets, n, c, ch);
    assert forall|n3: int, c3: int|
        has_pos(t, n3, c3) && pos_before(n3, c3, n2, c2) implies #[trigger] t[n3].channels[c3].id
        != id by {
        assert(nets[n3].channels[c3].id != id);
    }
}

/// The model after live messages, applied one after another.
pub open spec fn msgs_networks(nets: Seq<NetworkView>, msgs: Seq<Msg>) -> Seq<NetworkView>
    decreases msgs.len(),
{
    if msgs.len() == 0 {
        nets
    } else {
        msg_networks(msgs_networks(nets, msgs.drop_last()), msgs.last())
    }
}

/// Live messages for a channel that exists are appended at its tail, one per
/// event and in the order of the events; what it held before stays in front.
pub proof fn lemma_messages_append(nets: Seq<NetworkView>, msgs: Seq<Msg>, id: u32, n: int, c: int)
    requires
        is_first_pos(nets, id, n, c),
        forall|i: int| 0 <= i < msgs.len() ==> #[trigger] msgs[i].chan == id,
    ensures
        is_first_pos(msgs_networks(nets, msgs), id, n, c),
        msgs_networks(nets, msgs)[n].channels[c].messages == nets[n].channels[c].messages
            + msgs.map_values(|m: Msg| m.msg),
    decreases msgs.len(),
{
    if msgs.len() == 0 {
        assert(msgs.map_values(|m: Msg| m.msg) =~= Seq::<crate::types::ChannelMessage>::empty());
        assert(nets[n].channels[c].messages + Seq::<crate::types::ChannelMessage>::empty()
            =~= nets[n].channels[c].messages);
    } else {
        let init = msgs.drop_last();
        lemma_messages_append(nets, init, id, n, c);
        let prev = msgs_networks(nets, init);
        let last = msgs.last();
        assert(last.chan == id);
        lemma_first_pos_is(prev, id, n, c);
        let ch = with_messages(prev[n].channels[c], prev[n].channels[c].messages.push(last.msg));
        lemma_set_channel_keeps_first(prev, n, c, ch, id, n, c);
        assert(msgs.map_values(|m: Msg| m.msg) =~= init.map_values(|m: Msg| m.msg).push(last.msg));
        assert(msgs_networks(nets, msgs)[n].channels[c].messages =~= nets[n].channels[c].messages
            + msgs.map_values(|m: Msg| m.msg));
    }
}

/// A page of history goes in front of its channel's messages in the order
/// given; the messages held before follow unchanged, and every other channel
/// is left as it was.
pub proof fn lemma_history_prepends(nets: Seq<NetworkView>, more: More, n: int, c: int)
    requires
        is_first_pos(nets, more.chan, n, c),
    ensures
        ({
            let t = more_networks(nets, more);
            let k = more.messages@.len();
            let before = nets[n].channels[c].messages;
            &&& t[n].channels[c].messages.len() == k + before.len()
            &&& t[n].channels[c].messages.subrange(0, k as int) == more.messages@
            &&& t[n].channels[c].messages.subrange(k as int, (k + before.len()) as int) == before
            &&& forall|n2: int, c2: int|
                has_pos(nets, n2, c2) && !(n2 == n && c2 == c) ==> #[trigger] t[n2].channels[c2]
                    == nets[n2].channels[c2]
        }),
{
    lemma_first_pos_is(nets, more.chan, n, c);
    let t = more_networks(nets, more);
    let k = more.messages@.len();
    let before = nets[n].channels[c].messages;
    assert(t[n].channels[c].messages.subrange(0, k as int) =~= more.messages@);
    assert(t[n].channels[c].messages.subrange(k as int, (k + before.len()) as int) =~= before);
}

/// After the full state, the active channel is the declared one, and a
/// cursor selected for it resolves to a channel with that id.
pub proof fn lemma_init_selects(init: Init, n: int, c: int)
    requires
        contains_id(nets_view(init.networks@), init.active),
        selected(init_networks(nets_view(init.networks@), init.active), init.active, n, c),
    ensures
        has_pos(init_networks(nets_view(init.networks@), init.active), n, c),
        init_networks(nets_view(init.networks@), init.active)[n].channels[c].id == init.active,
{
    let nets = nets_view(init.networks@);
    let (n0, c0) = choose|n0: int, c0: int|
        has_pos(nets, n0, c0) && #[trigger] nets[n0].channels[c0].id == init.active;
    lemma_first_pos_exists(nets, init.active, n0, c0);
    let (n1, c1) = choose|n1: int, c1: int| is_first_pos(nets, init.active, n1, c1);
    lemma_first_pos_is(nets, init.active, n1, c1);
    let t = init_networks(nets, init.active);
    lemma_set_channel_keeps_first(nets, n1, c1, activated(nets[n1].channels[c1]), init.active, n1, c1);
    assert(t[n1].channels[c1].id == init.active);
    assert(contains_id(t, init.active));
}

/// A channel joining at an index within its network's list lands at that
/// index and becomes the active channel.
pub proof fn lemma_join_at_index(s: StateView, t: StateView, join: crate::types::Join, k: int)
    requires
        first_net(s.networks, join.network@) == Some(k),
        0 <= k < s.networks.len(),
        join.index <= s.networks[k].channels.len(),
        join_applied(s, t, join),
    ensures
        t.networks[k].channels.len() == s.networks[k].channels.len() + 1,
        t.networks[k].channels[join.index as int] == join.chan@,
        t.active == join.chan.id,
{
}

/// A channel joining at an index beyond its network's list is appended as
/// its last channel and becomes the active channel.
pub proof fn lemma_join_beyond_appends(s: StateView, t: StateView, join: crate::types::Join, k: int)
    requires
        first_net(s.networks, join.network@) == Some(k),
        0 <= k < s.networks.len(),
        join.index > s.networks[k].channels.len(),
        join_applied(s, t, join),
    ensures
        t.networks[k].channels == s.networks[k].channels.push(join.chan@),
        t.active == join.chan.id,
{
}

/// At the last channel of the last network there is nowhere to step: the
/// step leaves the state as it is, however often it is taken.
pub proof fn lemma_next_at_end(s: StateView)
    requires
        s.networks.len() > 0,
        s.network_idx == s.networks.len() - 1,
        s.channel_idx == s.networks[s.network_idx].channels.len() - 1,
        s.channel_idx >= 0,
    ensures
        next_target(s) is None,
{
}

/// A channel asks for its roster and history on its first activation only:
/// activating it again only opens it.
pub proof fn lemma_activation_once(ch: ChannelView)
    ensures
        activated(activated(ch)) == activated(ch),
        activation_requests(activated(ch)) == seq![Request::Open(ch.id)],
{
    assert(activation_requests(activated(ch)) =~= seq![Request::Open(ch.id)]);
}

} // verus!
