use bouncer_tui::events::{add_event, startup_requests, Event, EventQueue, Request};
use bouncer_tui::state::TuiState;
use bouncer_tui::types::{
    ChannelMessage, Init, Join, More, Msg, Name, Names, Network, NetworkChannel, User,
};

fn message(id: u32, text: &str) -> ChannelMessage {
    ChannelMessage {
        from: User { mode: Some("@".to_string()), nick: Some("duck".to_string()) },
        gecos: None,
        hostmask: None,
        id,
        self_: false,
        text: text.to_string(),
        time: "2024-01-01T00:00:00Z".to_string(),
        type_: "message".to_string(),
    }
}

fn channel(id: u32, name: &str, kind: &str, loaded: bool, messages: Vec<ChannelMessage>) -> NetworkChannel {
    NetworkChannel {
        id,
        first_unread: 0,
        highlight: 0,
        key: String::new(),
        muted: false,
        name: name.to_string(),
        state: 0,
        topic: String::new(),
        total_messages: messages.len() as u32,
        type_: kind.to_string(),
        unread: 0,
        messages,
        users: Vec::new(),
        loaded,
    }
}

fn network(uuid: &str, name: &str, channels: Vec<NetworkChannel>) -> Network {
    Network { channels, name: name.to_string(), nick: "duck".to_string(), uuid: uuid.to_string() }
}

fn two_networks() -> Vec<Network> {
    vec![
        network(
            "u1",
            "N1",
            vec![
                channel(1, "N1", "lobby", false, vec![]),
                channel(2, "#a", "channel", false, vec![message(10, "x"), message(11, "y")]),
            ],
        ),
        network("u2", "N2", vec![channel(3, "N2", "lobby", false, vec![]), channel(4, "#b", "channel", false, vec![])]),
    ]
}

fn state_with(networks: Vec<Network>, active: u32) -> TuiState {
    let mut s = TuiState::new();
    s.apply(Event::Init(Init { active, networks, token: "t".to_string() }));
    s
}

fn ids(s: &TuiState, net: usize) -> Vec<u32> {
    s.networks()[net].channels.iter().map(|c| c.id).collect()
}

#[test]
fn queue_is_fifo() {
    let mut q = EventQueue::new();
    add_event(&mut q, Event::Msg(Msg { chan: 1, msg: message(1, "a") }));
    q.publish(Event::Msg(Msg { chan: 2, msg: message(2, "b") }));
    assert_eq!(q.len(), 2);
    match q.poll() {
        Some(Event::Msg(m)) => assert_eq!(m.chan, 1),
        _ => panic!("first event lost"),
    }
    match q.poll() {
        Some(Event::Msg(m)) => assert_eq!(m.chan, 2),
        _ => panic!("second event lost"),
    }
    assert!(q.poll().is_none());
}

#[test]
fn update_applies_one_event_per_call() {
    let mut s = TuiState::new();
    let mut q = EventQueue::new();
    assert!(!s.update(&mut q));
    q.publish(Event::Init(Init { active: 2, networks: two_networks(), token: String::new() }));
    q.publish(Event::Msg(Msg { chan: 2, msg: message(12, "z") }));
    assert!(s.update(&mut q));
    assert_eq!(q.len(), 1);
    assert_eq!(s.channel(2).unwrap().messages.len(), 2);
    assert!(s.update(&mut q));
    assert_eq!(s.channel(2).unwrap().messages.len(), 3);
    assert!(!s.update(&mut q));
}

#[test]
fn messages_append_at_tail() {
    let mut s = state_with(two_networks(), 1);
    s.apply(Event::Msg(Msg { chan: 2, msg: message(12, "z") }));
    s.apply(Event::Msg(Msg { chan: 2, msg: message(13, "w") }));
    let got: Vec<u32> = s.channel(2).unwrap().messages.iter().map(|m| m.id).collect();
    assert_eq!(got, vec![10, 11, 12, 13]);
}

#[test]
fn message_for_unknown_channel_is_ignored() {
    let mut s = state_with(two_networks(), 1);
    s.apply(Event::Msg(Msg { chan: 99, msg: message(12, "z") }));
    assert_eq!(s.channel(2).unwrap().messages.len(), 2);
    assert_eq!(s.channel(1).unwrap().messages.len(), 0);
    assert_eq!(s.active(), 1);
}

#[test]
fn history_goes_to_head_in_batch_order() {
    let mut s = state_with(two_networks(), 1);
    s.apply(Event::More(More { chan: 2, messages: vec![message(3, "p"), message(4, "q")] }));
    let got: Vec<u32> = s.channel(2).unwrap().messages.iter().map(|m| m.id).collect();
    assert_eq!(got, vec![3, 4, 10, 11]);
    // duplicates are kept as they come
    s.apply(Event::More(More { chan: 2, messages: vec![message(3, "p")] }));
    let got: Vec<u32> = s.channel(2).unwrap().messages.iter().map(|m| m.id).collect();
    assert_eq!(got, vec![3, 3, 4, 10, 11]);
    s.apply(Event::More(More { chan: 77, messages: vec![message(1, "p")] }));
    assert_eq!(s.channel(2).unwrap().messages.len(), 5);
}

#[test]
fn roster_keeps_first_rank() {
    let mut s = state_with(two_networks(), 1);
    s.apply(Event::Names(Names {
        id: 2,
        users: vec![
            Name { nick: "a".to_string(), modes: vec!["@".to_string(), "+".to_string()], last_message: 0 },
            Name { nick: "b".to_string(), modes: vec![], last_message: 5 },
        ],
    }));
    let users = &s.channel(2).unwrap().users;
    assert_eq!(users.len(), 2);
    assert_eq!(users[0], User { mode: Some("@".to_string()), nick: Some("a".to_string()) });
    assert_eq!(users[1], User { mode: None, nick: Some("b".to_string()) });
    s.apply(Event::Names(Names { id: 2, users: vec![] }));
    assert!(s.channel(2).unwrap().users.is_empty());
}

#[test]
fn roster_with_id_beyond_channel_ids_is_ignored() {
    let mut s = state_with(two_networks(), 1);
    s.apply(Event::Names(Names {
        id: (1u64 << 32) + 2,
        users: vec![Name { nick: "a".to_string(), modes: vec![], last_message: 0 }],
    }));
    assert!(s.channel(2).unwrap().users.is_empty());
}

#[test]
fn init_sets_active_and_loads_it() {
    let s = state_with(two_networks(), 4);
    assert_eq!(s.active(), 4);
    assert!(s.channel(4).unwrap().loaded);
    assert!(!s.channel(2).unwrap().loaded);
}

#[test]
fn init_replaces_previous_model() {
    let mut s = state_with(two_networks(), 4);
    s.apply(Event::Init(Init {
        active: 7,
        networks: vec![network("u9", "N9", vec![channel(7, "N9", "lobby", false, vec![])])],
        token: String::new(),
    }));
    assert_eq!(s.networks().len(), 1);
    assert_eq!(s.active(), 7);
    assert!(s.channel(4).is_none());
}

#[test]
fn join_inserts_at_index_and_activates() {
    let mut s = state_with(two_networks(), 1);
    s.apply(Event::Join(Join { network: "u2".to_string(), index: 1, chan: channel(5, "#c", "channel", false, vec![]) }));
    assert_eq!(ids(&s, 1), vec![3, 5, 4]);
    assert_eq!(s.active(), 5);
    // the cursor follows: the next channel is #b
    assert_eq!(s.next_channel(), vec![Request::Open(4), Request::Names(4)]);
}

#[test]
fn join_at_count_appends() {
    let mut s = state_with(two_networks(), 1);
    s.apply(Event::Join(Join { network: "u1".to_string(), index: 2, chan: channel(6, "#d", "channel", false, vec![]) }));
    assert_eq!(ids(&s, 0), vec![1, 2, 6]);
    assert_eq!(s.active(), 6);
}

#[test]
fn join_beyond_count_appends() {
    let mut s = state_with(two_networks(), 1);
    s.apply(Event::Join(Join { network: "u1".to_string(), index: 40, chan: channel(6, "#d", "channel", false, vec![]) }));
    assert_eq!(ids(&s, 0), vec![1, 2, 6]);
    assert_eq!(s.active(), 6);
}

#[test]
fn join_to_unknown_network_is_ignored() {
    let mut s = state_with(two_networks(), 1);
    s.apply(Event::Join(Join { network: "nope".to_string(), index: 0, chan: channel(6, "#d", "channel", false, vec![]) }));
    assert_eq!(ids(&s, 0), vec![1, 2]);
    assert_eq!(ids(&s, 1), vec![3, 4]);
    assert_eq!(s.active(), 1);
}

#[test]
fn startup_opens_and_asks_roster_of_channel() {
    let init = Init { active: 2, networks: two_networks(), token: String::new() };
    assert_eq!(startup_requests(&init), vec![Request::Open(2), Request::Names(2)]);
    let init = Init { active: 1, networks: two_networks(), token: String::new() };
    assert_eq!(startup_requests(&init), vec![Request::Open(1)]);
    let init = Init { active: 50, networks: two_networks(), token: String::new() };
    assert_eq!(startup_requests(&init), vec![Request::Open(50)]);
}

#[test]
fn active_channel_of_init() {
    let init = Init { active: 3, networks: two_networks(), token: String::new() };
    assert_eq!(init.active_channel().unwrap().name, "N2");
    let init = Init { active: 9, networks: two_networks(), token: String::new() };
    assert!(init.active_channel().is_none());
}

#[test]
fn network_channel_lookup() {
    let nets = two_networks();
    assert_eq!(nets[0].channel(2).unwrap().name, "#a");
    assert!(nets[0].channel(3).is_none());
}

#[test]
fn user_from_roster_entry() {
    let n = Name { nick: "x".to_string(), modes: vec!["%".to_string(), "@".to_string()], last_message: 1 };
    assert_eq!(User::from_name(&n), User { mode: Some("%".to_string()), nick: Some("x".to_string()) });
}
