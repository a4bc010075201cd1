use vstd::prelude::*;
use crate::events::Request;
use crate::input::Buffer;
use crate::state::{TuiState, input_handled, next_target, prev_target, stepped};

verus! {

/// A key as the interface reads it.
#[derive(Debug, Clone, Copy, PartialEq, Eq, Structural)]
pub enum Key {
    Char(char),
    Backspace,
    Left,
    Right,
    Up,
    Down,
    Enter,
    Other,
}

/// One key event: the key, its modifiers, and whether it is a press.
#[derive(Debug, Clone, Copy, PartialEq, Eq, Structural)]
pub struct KeyInput {
    pub code: Key,
    pub alt: bool,
    pub ctrl: bool,
    pub press: bool,
}

/// Ctrl+Q pressed ends the session.
pub fn is_quit(key: KeyInput) -> (r: bool)
    ensures
        r == (key.press && key.ctrl && key.code == Key::Char('q')),
{
    key.press && key.ctrl && match key.code {
        Key::Char(c) => c == 'q',
        _ => false,
    }
}

/// Percentages of the width for the channel list, the chat and the user
/// list: a shown side pane takes ten, the chat the rest.
pub fn pane_widths(show_channels: bool, show_users: bool) -> (r: (u16, u16, u16))
    ensures
        r.0 == (if show_channels { 10u16 } else { 0u16 }),
        r.2 == (if show_users { 10u16 } else { 0u16 }),
        r.0 + r.1 + r.2 == 100,
{
    let channelw: u16 = if show_channels { 10 } else { 0 };
    let usersw: u16 = if show_users { 10 } else { 0 };
    (channelw, 100 - channelw - usersw, usersw)
}

/// The interface state: the typed line, the model and which panes are shown.
pub struct TuiApp {
    input_buffer: Buffer,
    state: TuiState,
    show_users: bool,
    show_channels: bool,
}

impl TuiApp {
    /// The model.
    pub closed spec fn state_spec(&self) -> TuiState {
        self.state
    }

    /// The typed line.
    pub closed spec fn buffer_spec(&self) -> Buffer {
        self.input_buffer
    }

    /// Whether the user list is shown.
    pub closed spec fn users_shown(&self) -> bool {
        self.show_users
    }

    /// Whether the channel list is shown.
    pub closed spec fn channels_shown(&self) -> bool {
        self.show_channels
    }

    pub open spec fn wf(&self) -> bool {
        self.state_spec().wf() && self.buffer_spec().wf()
    }

    /// Everything but the typed line is kept.
    pub open spec fn same_but_buffer(&self, o: &TuiApp) -> bool {
        &&& o.state_spec() == self.state_spec()
        &&& o.users_shown() == self.users_shown()
        &&& o.channels_shown() == self.channels_shown()
    }

    /// An empty model, an empty line, both side panes hidden.
    pub fn new() -> (r: TuiApp)
        ensures
            r.wf(),
            r.state_spec()@.networks.len() == 0,
            r.buffer_spec().chars().len() == 0,
            !r.users_shown(),
            !r.channels_shown(),
    {
        TuiApp { state: TuiState::new(), input_buffer: Buffer::new(), show_users: false, show_channels: false }
    }

    /// The model.
    pub fn state(&self) -> (r: &TuiState)
        ensures
            *r == self.state_spec(),
    {
        &self.state
    }

    /// The model, to apply events to.
    pub fn state_mut(&mut self) -> (r: &mut TuiState)
        ensures
            *r == old(self).state_spec(),
            final(self).state_spec() == *final(r),
            final(self).buffer_spec() == old(self).buffer_spec(),
            final(self).users_shown() == old(self).users_shown(),
            final(self).channels_shown() == old(self).channels_shown(),
    {
        &mut self.state
    }

    /// The typed line.
    pub fn input_buffer(&self) -> (r: &Buffer)
        ensures
            *r == self.buffer_spec(),
    {
        &self.input_buffer
    }

    /// Whether the user list is shown.
    pub fn show_users(&self) -> (r: bool)
        ensures
            r == self.users_shown(),
    {
        self.show_users
    }

    /// Whether the channel list is shown.
    pub fn show_channels(&self) -> (r: bool)
        ensures
            r == self.channels_shown(),
    {
        self.show_channels
    }

    /// Reacts to one key. With Alt, Up and Down step through the channels and
    /// B and V show or hide the channel and user lists; without it, the key
    /// edits the line, and Enter hands the line over and empties it. Only
    /// presses count. Returns what is to be sent to the server.
    pub fn key_event(&mut self, key: KeyInput) -> (r: Vec<Request>)
        requires
            old(self).wf(),
        ensures
            final(self).wf(),
            !key.press ==> *final(self) == *old(self) && r@.len() == 0,
            key.press && key.alt ==> final(self).buffer_spec() == old(self).buffer_spec()
                && match key.code {
                Key::Up => stepped(old(self).state_spec()@, final(self).state_spec()@,
                    prev_target(old(self).state_spec()@), r@)
                    && final(self).users_shown() == old(self).users_shown()
                    && final(self).channels_shown() == old(self).channels_shown(),
                Key::Down => stepped(old(self).state_spec()@, final(self).state_spec()@,
                    next_target(old(self).state_spec()@), r@)
                    && final(self).users_shown() == old(self).users_shown()
                    && final(self).channels_shown() == old(self).channels_shown(),
                Key::Char('b') => final(self).state_spec() == old(self).state_spec()
                    && final(self).users_shown() == old(self).users_shown()
                    && final(self).channels_shown() == !old(self).channels_shown()
                    && r@.len() == 0,
                Key::Char('v') => final(self).state_spec() == old(self).state_spec()
                    && final(self).users_shown() == !old(self).users_shown()
                    && final(self).channels_shown() == old(self).channels_shown()
                    && r@.len() == 0,
                _ => *final(self) == *old(self) && r@.len() == 0,
            },
            key.press && !key.alt ==> match key.code {
                Key::Enter => input_handled(old(self).state_spec()@, final(self).state_spec()@,
                    old(self).buffer_spec().chars(), old(self).state_spec()@.active, r@)
                    && final(self).buffer_spec().chars().len() == 0
                    && final(self).buffer_spec().cursor() == 0
                    && final(self).users_shown() == old(self).users_shown()
                    && final(self).channels_shown() == old(self).channels_shown(),
                Key::Char(c) => old(self).same_but_buffer(final(self)) && r@.len() == 0 && (
                    old(self).buffer_spec().chars().len() < usize::MAX ==> {
                    &&& final(self).buffer_spec().chars() == old(self).buffer_spec().chars().insert(
                        old(self).buffer_spec().cursor(), c)
                    &&& final(self).buffer_spec().cursor() == old(self).buffer_spec().cursor() + 1
                }),
                Key::Backspace => old(self).same_but_buffer(final(self)) && r@.len() == 0 && (
                    if old(self).buffer_spec().cursor() > 0 {
                        &&& final(self).buffer_spec().chars() == old(self).buffer_spec().chars().remove(
                            old(self).buffer_spec().cursor() - 1)
                        &&& final(self).buffer_spec().cursor() == old(self).buffer_spec().cursor() - 1
                    } else {
                        &&& final(self).buffer_spec().chars() == old(self).buffer_spec().chars()
                        &&& final(self).buffer_spec().cursor() == 0
                    }),
                Key::Left => old(self).same_but_buffer(final(self)) && r@.len() == 0
                    && final(self).buffer_spec().chars() == old(self).buffer_spec().chars()
                    && final(self).buffer_spec().cursor() == if old(self).buffer_spec().cursor() > 0 {
                        old(self).buffer_spec().cursor() - 1
                    } else {
                        0
                    },
                Key::Right => old(self).same_but_buffer(final(self)) && r@.len() == 0
                    && final(self).buffer_spec().chars() == old(self).buffer_spec().chars()
                    && final(self).buffer_spec().cursor() == if old(self).buffer_spec().cursor()
                        < old(self).buffer_spec().chars().len() {
                        old(self).buffer_spec().cursor() + 1
                    } else {
                        old(self).buffer_spec().cursor()
                    },
                _ => *final(self) == *old(self) && r@.len() == 0,
            },
    {
        if !key.press {
            return Vec::new();
        }
        if key.alt {
            match key.code {
                Key::Up => self.state.prev_channel(),
                Key::Down => self.state.next_channel(),
                Key::Char(c) => {
                    if c == 'b' {
                        self.show_channels = !self.show_channels;
                    } else if c == 'v' {
                        self.show_users = !self.show_users;
                    }
                    Vec::new()
                },
                _ => Vec::new(),
            }
        } else {
            match key.code {
                Key::Char(c) => {
                    if self.input_buffer.len() < usize::MAX {
                        self.input_buffer.add(c);
                    }
                    Vec::new()
                },
                Key::Backspace => {
                    self.input_buffer.backspace();
                    Vec::new()
                },
                Key::Left => {
                    self.input_buffer.prev();
                    Vec::new()
                },
                Key::Right => {
                    self.input_buffer.next();
                    Vec::new()
                },
                Key::Enter => {
                    let text = self.input_buffer.text();
                    let active = self.state.active();
                    let r = self.state.handle_input(text.as_str(), active);
                    self.input_buffer.clear();
                    r
                },
                _ => Vec::new(),
            }
        }
    }
}

} // verus!
