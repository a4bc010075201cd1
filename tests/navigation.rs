use bouncer_tui::events::{Event, Request};
use bouncer_tui::state::TuiState;
use bouncer_tui::types::{ChannelMessage, Init, Network, NetworkChannel, User};

fn message(id: u32) -> ChannelMessage {
    ChannelMessage {
        from: User { mode: None, nick: None },
        gecos: None,
        hostmask: None,
        id,
        self_: false,
        text: "hi".to_string(),
        time: String::new(),
        type_: "message".to_string(),
    }
}

fn channel(id: u32, name: &str, kind: &str, loaded: bool, messages: Vec<ChannelMessage>) -> NetworkChannel {
    NetworkChannel {
        id,
        first_unread: 0,
        highlight: 0,
        key: String::new(),
        muted: false,
        name: name.to_string(),
        state: 0,
        topic: String::new(),
        total_messages: 0,
        type_: kind.to_string(),
        unread: 0,
        messages,
        users: Vec::new(),
        loaded,
    }
}

fn network(uuid: &str, channels: Vec<NetworkChannel>) -> Network {
    Network { channels, name: uuid.to_uppercase(), nick: "me".to_string(), uuid: uuid.to_string() }
}

fn state_with(networks: Vec<Network>, active: u32) -> TuiState {
    let mut s = TuiState::new();
    s.apply(Event::Init(Init { active, networks, token: String::new() }));
    s
}

#[test]
fn next_channel_scenario_lobby_then_channel() {
    let mut s = state_with(
        vec![network("u1", vec![channel(1, "N1", "lobby", false, vec![]), channel(2, "#x", "channel", false, vec![])])],
        1,
    );
    let r = s.next_channel();
    assert_eq!(s.active(), 2);
    assert_eq!(r, vec![Request::Open(2), Request::Names(2)]);
    assert!(s.channel(2).unwrap().loaded);
    let r = s.next_channel();
    assert!(r.is_empty());
    assert_eq!(s.active(), 2);
    assert!(s.next_channel().is_empty());
    assert_eq!(s.active(), 2);
}

#[test]
fn next_crosses_networks_and_skips_empty_ones() {
    let mut s = state_with(
        vec![
            network("a", vec![channel(1, "A", "lobby", true, vec![])]),
            network("b", vec![]),
            network("c", vec![channel(3, "C", "lobby", false, vec![])]),
        ],
        1,
    );
    assert_eq!(s.next_channel(), vec![Request::Open(3)]);
    assert_eq!(s.active(), 3);
    assert!(s.next_channel().is_empty());
    assert_eq!(s.prev_channel(), vec![Request::Open(1)]);
    assert_eq!(s.active(), 1);
    assert!(s.prev_channel().is_empty());
    assert_eq!(s.active(), 1);
}

#[test]
fn prev_goes_to_last_channel_of_previous_network() {
    let mut s = state_with(
        vec![
            network("a", vec![channel(1, "A", "lobby", true, vec![]), channel(2, "#a", "channel", false, vec![message(5), message(8)])]),
            network("b", vec![channel(3, "B", "lobby", true, vec![])]),
        ],
        3,
    );
    let r = s.prev_channel();
    assert_eq!(s.active(), 2);
    assert_eq!(r, vec![Request::Open(2), Request::Names(2), Request::More { target: 2, last_id: 8 }]);
}

#[test]
fn second_activation_only_opens() {
    let mut s = state_with(
        vec![network("a", vec![channel(1, "A", "lobby", true, vec![]), channel(2, "#a", "channel", false, vec![message(5)])])],
        1,
    );
    assert_eq!(s.next_channel(), vec![Request::Open(2), Request::Names(2), Request::More { target: 2, last_id: 5 }]);
    assert_eq!(s.prev_channel(), vec![Request::Open(1)]);
    assert_eq!(s.next_channel(), vec![Request::Open(2)]);
}

#[test]
fn navigation_on_empty_model_does_nothing() {
    let mut s = TuiState::new();
    assert!(s.next_channel().is_empty());
    assert!(s.prev_channel().is_empty());
    assert_eq!(s.active(), 0);
}

#[test]
fn join_command_jumps_within_current_network() {
    let mut s = state_with(
        vec![
            network("a", vec![channel(1, "A", "lobby", true, vec![]), channel(2, "#rust", "channel", false, vec![])]),
            network("b", vec![channel(3, "B", "lobby", true, vec![]), channel(4, "#go", "channel", false, vec![])]),
        ],
        1,
    );
    let r = s.handle_input("/join #rust", 1);
    assert_eq!(r, vec![Request::Open(2), Request::Names(2)]);
    assert_eq!(s.active(), 2);
    // a channel of another network is not jumped to: the line goes to the server
    let r = s.handle_input("/join #go", 2);
    assert_eq!(r, vec![Request::Input { text: "/join #go".to_string(), target: 2 }]);
    assert_eq!(s.active(), 2);
}

#[test]
fn plain_text_is_forwarded_and_empty_is_not() {
    let mut s = TuiState::new();
    assert_eq!(s.handle_input("hello there", 7), vec![Request::Input { text: "hello there".to_string(), target: 7 }]);
    assert!(s.handle_input("", 7).is_empty());
    assert_eq!(s.handle_input("/join", 7), vec![Request::Input { text: "/join".to_string(), target: 7 }]);
}

#[test]
fn handle_command_on_words() {
    let mut s = state_with(
        vec![network("a", vec![channel(1, "A", "lobby", true, vec![]), channel(2, "#x", "query", false, vec![])])],
        1,
    );
    assert!(s.handle_command(&vec!["/part".to_string(), "#x".to_string()]).is_none());
    assert!(s.handle_command(&vec!["/join".to_string(), "#y".to_string()]).is_none());
    assert_eq!(s.handle_command(&vec!["/join".to_string(), "#x".to_string()]), Some(vec![Request::Open(2)]));
    assert_eq!(s.active(), 2);
}
