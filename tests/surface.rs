use left_click_bot::keybind::KeybindManager;
use left_click_bot::messenger::Message;
use left_click_bot::ui::{LeftClickBotApp, DEFAULT_SUBINTERVAL_COUNT, DEFAULT_SUBINTERVAL_MILLIS};

#[test]
fn hotkey_is_off_until_enabled() {
    let mut k = KeybindManager::new();
    assert!(!k.use_binding());
    assert_eq!(k.on_hotkey(), None);
    k.handle_message(Message::ToggleKeybind(true));
    assert!(k.use_binding());
    assert_eq!(k.on_hotkey(), Some(Message::ToggleClicker));
    k.handle_message(Message::ToggleClicker);
    assert!(k.use_binding());
    k.handle_message(Message::ToggleKeybind(false));
    assert_eq!(k.on_hotkey(), None);
}

#[test]
fn default_interval_is_three_seconds() {
    let app = LeftClickBotApp::new();
    assert_eq!(app.interval_millis(), 3000);
    assert_eq!(DEFAULT_SUBINTERVAL_MILLIS * DEFAULT_SUBINTERVAL_COUNT, 3000);
    assert_eq!(
        app.interval_message(),
        Message::SetInterval { subinterval_millis: 250, subinterval_count: 12 }
    );
}

#[test]
fn requested_interval_rounds_down_to_whole_ticks() {
    let mut app = LeftClickBotApp::new();
    assert_eq!(
        app.submit_interval(1100),
        Some(Message::SetInterval { subinterval_millis: 250, subinterval_count: 4 })
    );
    assert_eq!(app.interval_millis(), 1000);
}

#[test]
fn requested_interval_is_at_least_one_tick() {
    let mut app = LeftClickBotApp::new();
    assert_eq!(
        app.submit_interval(100),
        Some(Message::SetInterval { subinterval_millis: 250, subinterval_count: 1 })
    );
    assert_eq!(app.interval_millis(), 250);
    assert_eq!(app.submit_interval(0), None);
    assert_eq!(app.interval_millis(), 250);
}

#[test]
fn unchanged_interval_sends_nothing() {
    let mut app = LeftClickBotApp::new();
    assert_eq!(app.submit_interval(3000), None);
    assert_eq!(app.submit_interval(3249), None);
    assert_eq!(app.interval_millis(), 3000);
}

#[test]
fn surface_follows_toggles() {
    let mut app = LeftClickBotApp::new();
    assert_eq!(app.toggle_clicking(), Message::ToggleClicker);
    assert!(app.is_clicking());
    app.handle_message(Message::ToggleClicker);
    assert!(!app.is_clicking());
    app.handle_message(Message::Shutdown);
    assert!(!app.is_clicking());
    assert_eq!(app.set_global_trigger(true), Message::ToggleKeybind(true));
    assert!(app.use_global_trigger());
}
