use open_space::btop::{select_btop_window, BtopChoice, WindowInfo};

fn win(id: u32, title: Option<&str>, app: Option<&str>, on_screen: bool) -> WindowInfo {
    WindowInfo {
        window_id: id,
        title: title.map(|t| t.to_string()),
        app_name: app.map(|a| a.to_string()),
        on_screen,
    }
}

#[test]
fn btop_titled_terminal_window_is_preferred() {
    let windows = vec![
        win(1, Some("zsh"), Some("Terminal"), true),
        win(2, Some("btop"), Some("Safari"), true),
        win(3, Some("user - btop - 80x24"), Some("Terminal"), false),
    ];
    assert!(matches!(select_btop_window(&windows), BtopChoice::ByTitle(2)));
}

#[test]
fn falls_back_to_on_screen_terminal() {
    let windows = vec![
        win(1, Some("zsh"), Some("Terminal"), false),
        win(2, None, Some("Terminal"), true),
        win(3, Some("btop"), None, true),
    ];
    assert!(matches!(select_btop_window(&windows), BtopChoice::Fallback(1)));
}

#[test]
fn no_terminal_no_window() {
    let windows = vec![win(1, Some("btop"), Some("iTerm2"), true)];
    assert!(matches!(select_btop_window(&windows), BtopChoice::NotFound));
    assert!(matches!(select_btop_window(&[]), BtopChoice::NotFound));
}
