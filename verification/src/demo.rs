//! The state updates of the two example applications: a terminal counter driven by keys,
//! and a window counter driven by messages.
use vstd::prelude::*;

verus! {

/// What the terminal app asks its render loop to do.
#[derive(Debug, Clone, Copy, PartialEq, Eq, Structural)]
pub enum TuiAppAction {
    ReRender,
    Quit,
}

/// The keys the terminal app tells apart.
#[derive(Debug, Clone, Copy, PartialEq, Eq, Structural)]
pub enum KeyCode {
    Char(char),
    Esc,
    Left,
    Right,
    Other,
}

/// A key press: the key and whether Control was held.
#[derive(Debug, Clone, Copy, PartialEq, Eq, Structural)]
pub struct KeyInput {
    pub code: KeyCode,
    pub control: bool,
}

/// The terminal app's state.
#[derive(Debug, Clone, Copy, PartialEq, Eq, Structural, Default)]
pub struct App {
    pub counter: i32,
}

/// What a key press does: `q`, Esc and Ctrl-C quit, `r` redraws, Left and Right change the
/// counter by two and redraw; other keys do nothing.
pub open spec fn key_effect(counter: int, key: KeyInput) -> (int, Option<TuiAppAction>) {
    match key.code {
        KeyCode::Char(c) => if c == 'q' || (c == 'c' && key.control) {
            (counter, Some(TuiAppAction::Quit))
        } else if c == 'r' {
            (counter, Some(TuiAppAction::ReRender))
        } else {
            (counter, None)
        },
        KeyCode::Esc => (counter, Some(TuiAppAction::Quit)),
        KeyCode::Left => (counter - 2, Some(TuiAppAction::ReRender)),
        KeyCode::Right => (counter + 2, Some(TuiAppAction::ReRender)),
        KeyCode::Other => (counter, None),
    }
}

impl App {
    /// Handles a key press (see `key_effect`), returning the action to send, if any.
    pub fn key_handler(&mut self, key: KeyInput) -> (a: Option<TuiAppAction>)
        requires
            key.code is Left ==> old(self).counter >= i32::MIN + 2,
            key.code is Right ==> old(self).counter <= i32::MAX - 2,
        ensures
            (final(self).counter as int, a) == key_effect(old(self).counter as int, key),
    {
        match key.code {
            KeyCode::Char(c) => {
                if c == 'q' || (c == 'c' && key.control) {
                    Some(TuiAppAction::Quit)
                } else if c == 'r' {
                    Some(TuiAppAction::ReRender)
                } else {
                    None
                }
            },
            KeyCode::Esc => Some(TuiAppAction::Quit),
            KeyCode::Left => {
                self.counter = self.counter - 2;
                Some(TuiAppAction::ReRender)
            },
            KeyCode::Right => {
                self.counter = self.counter + 2;
                Some(TuiAppAction::ReRender)
            },
            KeyCode::Other => None,
        }
    }
}

/// The messages of the window counter; the first three come from the hot-reload runtime.
#[derive(Debug, Clone, Copy, PartialEq, Eq, Structural)]
pub enum Message {
    Rebuild,
    PatchSuccess,
    PatchFailed,
    Increment,
    Decrement,
}

/// A value shown by the window counter.
#[derive(Debug, Clone)]
pub struct CustomRender<T> {
    pub data: T,
}

impl<T> CustomRender<T> {
    pub fn new(data: T) -> (r: Self)
        ensures r.data == data,
    {
        CustomRender { data }
    }
}

/// The window counter's state.
#[derive(Debug, Clone)]
pub struct Counter {
    pub value: i64,
    pub string_view: CustomRender<String>,
    pub number_view: CustomRender<i32>,
    pub is_patching: bool,
}

impl Counter {
    /// The counter at start: zero, not patching, showing `Hello` and `42`.
    pub fn boot() -> (c: Self)
        ensures
            c.value == 0,
            !c.is_patching,
            c.string_view.data@ == "Hello"@,
            c.number_view.data == 42,
    {
        Counter {
            value: 0,
            string_view: CustomRender::new(String::from_str("Hello")),
            number_view: CustomRender::new(42),
            is_patching: false,
        }
    }

    /// Applies a message: Increment adds four, Decrement takes two, a rebuild shows the
    /// patching screen until the patch succeeds or fails.
    pub fn update(&mut self, message: Message)
        requires
            message is Increment ==> old(self).value <= i64::MAX - 4,
            message is Decrement ==> old(self).value >= i64::MIN + 2,
        ensures
            final(self).value == (match message {
                Message::Increment => old(self).value + 4,
                Message::Decrement => old(self).value - 2,
                _ => old(self).value as int,
            }),
            final(self).is_patching == (match message {
                Message::Rebuild => true,
                Message::PatchSuccess | Message::PatchFailed => false,
                _ => old(self).is_patching,
            }),
            final(self).string_view == old(self).string_view,
            final(self).number_view == old(self).number_view,
    {
        match message {
            Message::Increment => {
                self.value = self.value + 4;
            },
            Message::Decrement => {
                self.value = self.value - 2;
            },
            Message::Rebuild => {
                self.is_patching = true;
            },
            Message::PatchSuccess | Message::PatchFailed => {
                self.is_patching = false;
            },
        }
    }
}

} // verus!
