use jean::conn::ConnectionStatus;
use jean::msg::MessageRole;
use jean::ui::{role_prefix, status_text, status_tone, visible_window, StatusTone};

#[test]
fn status_lines_and_tones() {
    assert_eq!(status_text(&ConnectionStatus::Connected), "\u{25cf} Connected");
    assert_eq!(status_text(&ConnectionStatus::Connecting), "\u{25cf} Connecting...");
    assert_eq!(status_text(&ConnectionStatus::Disconnected), "\u{25cf} Disconnected");
    assert_eq!(
        status_text(&ConnectionStatus::Error("refused".to_string())),
        "\u{25cf} Error: refused"
    );
    assert_eq!(status_tone(&ConnectionStatus::Connected), StatusTone::Good);
    assert_eq!(status_tone(&ConnectionStatus::Connecting), StatusTone::Busy);
    assert_eq!(status_tone(&ConnectionStatus::Disconnected), StatusTone::Bad);
    assert_eq!(
        status_tone(&ConnectionStatus::Error(String::new())),
        StatusTone::Bad
    );
}

#[test]
fn role_prefixes() {
    assert_eq!(role_prefix(MessageRole::System), "System");
    assert_eq!(role_prefix(MessageRole::User), "You");
    assert_eq!(role_prefix(MessageRole::Assistant), "Assistant");
    assert_eq!(role_prefix(MessageRole::Tool), "Tool");
}

#[test]
fn window_shows_the_tail_and_clamps_the_scroll() {
    // a short transcript shows whole
    assert_eq!(visible_window(3, 10, 0), (0, 3));
    // at the bottom the last lines show
    assert_eq!(visible_window(100, 10, 0), (90, 100));
    // scrolling moves the window up
    assert_eq!(visible_window(100, 10, 5), (85, 95));
    // the scroll clamps at the top
    assert_eq!(visible_window(100, 10, 1000), (0, 10));
}
