use hotfnl::demo::{App, Counter, KeyCode, KeyInput, Message, TuiAppAction};

fn key(code: KeyCode, control: bool) -> KeyInput {
    KeyInput { code, control }
}

#[test]
fn keys_of_the_terminal_app() {
    let mut app = App::default();
    assert_eq!(app.key_handler(key(KeyCode::Char('q'), false)), Some(TuiAppAction::Quit));
    assert_eq!(app.key_handler(key(KeyCode::Esc, false)), Some(TuiAppAction::Quit));
    assert_eq!(app.key_handler(key(KeyCode::Char('c'), true)), Some(TuiAppAction::Quit));
    assert_eq!(app.key_handler(key(KeyCode::Char('c'), false)), None);
    assert_eq!(app.key_handler(key(KeyCode::Char('r'), false)), Some(TuiAppAction::ReRender));
    assert_eq!(app.key_handler(key(KeyCode::Right, false)), Some(TuiAppAction::ReRender));
    assert_eq!(app.counter, 2);
    app.key_handler(key(KeyCode::Left, false));
    app.key_handler(key(KeyCode::Left, false));
    assert_eq!(app.counter, -2);
    assert_eq!(app.key_handler(key(KeyCode::Other, true)), None);
}

#[test]
fn window_counter_messages() {
    let mut c = Counter::boot();
    assert_eq!(c.value, 0);
    assert_eq!(c.string_view.data, "Hello");
    assert_eq!(c.number_view.data, 42);
    c.update(Message::Increment);
    c.update(Message::Decrement);
    assert_eq!(c.value, 2);
    c.update(Message::Rebuild);
    assert!(c.is_patching);
    c.update(Message::PatchFailed);
    assert!(!c.is_patching);
    c.update(Message::Rebuild);
    c.update(Message::PatchSuccess);
    assert!(!c.is_patching);
}
