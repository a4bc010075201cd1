use bouncer_tui::events::{Event, Request};
use bouncer_tui::input::Buffer;
use bouncer_tui::tui::{is_quit, pane_widths, Key, KeyInput, TuiApp};
use bouncer_tui::types::{Init, Network, NetworkChannel};

fn press(code: Key, alt: bool) -> KeyInput {
    KeyInput { code, alt, ctrl: false, press: true }
}

fn channel(id: u32, name: &str) -> NetworkChannel {
    NetworkChannel {
        id,
        first_unread: 0,
        highlight: 0,
        key: String::new(),
        muted: false,
        name: name.to_string(),
        state: 0,
        topic: String::new(),
        total_messages: 0,
        type_: "channel".to_string(),
        unread: 0,
        messages: Vec::new(),
        users: Vec::new(),
        loaded: false,
    }
}

#[test]
fn buffer_edits_at_cursor() {
    let mut b = Buffer::new();
    b.add('a');
    b.add('c');
    b.prev();
    b.add('b');
    assert_eq!(b.text(), "abc");
    assert_eq!(b.pos(), 2);
    b.next();
    b.next();
    assert_eq!(b.pos(), 3);
    b.backspace();
    assert_eq!(b.text(), "ab");
    b.prev();
    b.prev();
    b.prev();
    assert_eq!(b.pos(), 0);
    b.backspace();
    assert_eq!(b.text(), "ab");
    b.clear();
    assert_eq!(b.text(), "");
    assert_eq!(b.pos(), 0);
    assert_eq!(b.len(), 0);
}

#[test]
fn buffer_counts_characters_not_bytes() {
    let mut b = Buffer::new();
    b.add('é');
    b.add('ß');
    b.prev();
    b.add('x');
    assert_eq!(b.text(), "éxß");
    assert_eq!(b.len(), 3);
}

#[test]
fn quit_key() {
    assert!(is_quit(KeyInput { code: Key::Char('q'), alt: false, ctrl: true, press: true }));
    assert!(!is_quit(KeyInput { code: Key::Char('q'), alt: false, ctrl: false, press: true }));
    assert!(!is_quit(KeyInput { code: Key::Char('q'), alt: false, ctrl: true, press: false }));
}

#[test]
fn pane_widths_sum_to_hundred() {
    assert_eq!(pane_widths(false, false), (0, 100, 0));
    assert_eq!(pane_widths(true, false), (10, 90, 0));
    assert_eq!(pane_widths(true, true), (10, 80, 10));
}

#[test]
fn keys_edit_line_and_enter_sends() {
    let mut app = TuiApp::new();
    for c in "hi".chars() {
        assert!(app.key_event(press(Key::Char(c), false)).is_empty());
    }
    assert_eq!(app.input_buffer().text(), "hi");
    let r = app.key_event(press(Key::Enter, false));
    assert_eq!(r, vec![Request::Input { text: "hi".to_string(), target: 0 }]);
    assert_eq!(app.input_buffer().text(), "");
}

#[test]
fn releases_are_ignored() {
    let mut app = TuiApp::new();
    let r = app.key_event(KeyInput { code: Key::Char('a'), alt: false, ctrl: false, press: false });
    assert!(r.is_empty());
    assert_eq!(app.input_buffer().len(), 0);
}

#[test]
fn alt_keys_toggle_panes_and_navigate() {
    let mut app = TuiApp::new();
    app.key_event(press(Key::Char('b'), true));
    assert!(app.show_channels());
    app.key_event(press(Key::Char('v'), true));
    assert!(app.show_users());
    app.key_event(press(Key::Char('b'), true));
    assert!(!app.show_channels());
    app.state_mut().apply(Event::Init(Init {
        active: 1,
        networks: vec![Network {
            channels: vec![channel(1, "#a"), channel(2, "#b")],
            name: "n".to_string(),
            nick: "me".to_string(),
            uuid: "u".to_string(),
        }],
        token: String::new(),
    }));
    assert_eq!(app.key_event(press(Key::Down, true)), vec![Request::Open(2), Request::Names(2)]);
    assert_eq!(app.state().active(), 2);
    assert_eq!(app.key_event(press(Key::Up, true)), vec![Request::Open(1)]);
    assert_eq!(app.state().active(), 1);
}
