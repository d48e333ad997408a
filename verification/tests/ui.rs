use determ::display::{
    render_footer, shown_length, visible_range, visible_text, FooterSpan,
};
use determ::port::{Port, SCROLL_CAPACITY};
use determ::ui::{App, Key, KeyCode, Mode, Modifiers, UiAction};
use std::collections::VecDeque;

fn press(code: KeyCode) -> Key {
    Key { code, modifiers: Modifiers::Plain, pressed: true }
}

fn with(code: KeyCode, modifiers: Modifiers) -> Key {
    Key { code, modifiers, pressed: true }
}

fn ready_app(mode: Mode) -> App {
    let mut app = App::new(vec!["ttyA".to_string(), "ttyB".to_string(), "ttyC".to_string()]);
    app.ports_data.push(Port::new("ttyA".to_string(), false));
    app.mode = mode;
    app
}

fn plain(text: &'static str) -> FooterSpan {
    FooterSpan { text, highlighted: false }
}

fn key(text: &'static str) -> FooterSpan {
    FooterSpan { text, highlighted: true }
}

#[test]
fn new_port_is_empty_with_signals_low() {
    let port = Port::new("/dev/ttyUSB0".to_string(), true);
    assert_eq!(port.name, "/dev/ttyUSB0");
    assert!(port.paused);
    assert!(!port.rts);
    assert!(!port.dtr);
    assert_eq!(port.line_count(), 0);
    assert!(port.scroll_buffer.is_empty());
}

#[test]
fn scroll_buffer_keeps_every_line() {
    let mut port = Port::new("p".to_string(), false);
    let n = SCROLL_CAPACITY + 500;
    for i in 0..n {
        port.push_line(format!("line {}", i));
    }
    assert_eq!(port.line_count(), n);
    assert_eq!(port.scroll_buffer[0], "line 0");
    assert_eq!(port.scroll_buffer[n - 1], format!("line {}", n - 1));
}

#[test]
fn new_app_starts_in_main_mode() {
    let app = App::new(vec!["ttyA".to_string()]);
    assert_eq!(app.ports, vec!["ttyA".to_string()]);
    assert!(!app.is_active);
    assert!(app.ports_data.is_empty());
    assert_eq!(app.active_port_idx, 0);
    assert_eq!(app.mode, Mode::Main);
    assert_eq!(app.v_scroll, 0);
}

#[test]
fn toggle_flips_activity() {
    let mut app = App::new(vec![]);
    app.toggle_is_active();
    assert!(app.is_active);
    app.toggle_is_active();
    assert!(!app.is_active);
}

#[test]
fn selected_port_is_the_one_at_the_index() {
    let app = App::new(vec!["ttyA".to_string(), "ttyB".to_string()]);
    assert_eq!(app.selected_port(1), Some(&"ttyB".to_string()));
    assert_eq!(app.selected_port(0), Some(&"ttyA".to_string()));
}

#[test]
fn data_goes_to_the_named_port() {
    let mut app = ready_app(Mode::Main);
    app.ports_data.push(Port::new("ttyB".to_string(), false));
    app.add_data_with_name("ttyB".to_string(), "one".to_string());
    assert_eq!(app.ports_data[0].line_count(), 0);
    assert_eq!(app.ports_data[1].line_count(), 1);
    assert_eq!(app.ports_data[1].scroll_buffer[0], "one");
    app.add_data_with_name("ttyA".to_string(), "two".to_string());
    app.add_data_with_name("ttyB".to_string(), "three".to_string());
    assert_eq!(app.ports_data[0].line_count(), 1);
    assert_eq!(app.ports_data[0].scroll_buffer[0], "two");
    assert_eq!(app.ports_data[1].line_count(), 2);
    assert_eq!(app.ports_data[1].scroll_buffer[0], "one");
    assert_eq!(app.ports_data[1].scroll_buffer[1], "three");
    assert_eq!(app.ports_data[1].name, "ttyB");
    assert_eq!(app.active_port_idx, 0);
}

#[test]
fn data_for_a_port_without_a_buffer_is_not_stored() {
    let mut app = ready_app(Mode::Main);
    app.add_data_with_name("ttyZ".to_string(), "lost".to_string());
    assert_eq!(app.ports_data.len(), 1);
    assert_eq!(app.ports_data[0].line_count(), 0);
    let mut empty = App::new(vec!["ttyA".to_string()]);
    empty.add_data_with_name("ttyA".to_string(), "lost".to_string());
    assert!(empty.ports_data.is_empty());
}

#[test]
fn data_goes_to_the_first_port_of_that_name() {
    let mut app = ready_app(Mode::Main);
    app.ports_data.push(Port::new("ttyA".to_string(), true));
    app.add_data_with_name("ttyA".to_string(), "one".to_string());
    assert_eq!(app.ports_data[0].line_count(), 1);
    assert_eq!(app.ports_data[1].line_count(), 0);
    assert!(app.ports_data[1].paused);
}

#[test]
fn named_buffer_grows_past_its_first_capacity() {
    let mut app = ready_app(Mode::Main);
    app.ports_data.push(Port::new("ttyB".to_string(), false));
    let n = SCROLL_CAPACITY + 1;
    for i in 0..n {
        app.add_data_with_name("ttyB".to_string(), format!("line {}", i));
    }
    assert_eq!(app.ports_data[1].line_count(), n);
    app.add_data_with_name("ttyB".to_string(), "last".to_string());
    assert_eq!(app.ports_data[1].line_count(), n + 1);
    assert_eq!(app.ports_data[1].scroll_buffer[n], "last");
    assert_eq!(app.ports_data[1].scroll_buffer[0], "line 0");
    assert_eq!(app.ports_data[1].scroll_buffer[n - 1], format!("line {}", n - 1));
    assert_eq!(app.ports_data[0].line_count(), 0);
}

#[test]
fn find_port_gives_the_first_index_of_the_name() {
    let mut app = ready_app(Mode::Main);
    app.ports_data.push(Port::new("ttyB".to_string(), false));
    app.ports_data.push(Port::new("ttyB".to_string(), false));
    assert_eq!(app.find_port("ttyA"), Some(0));
    assert_eq!(app.find_port("ttyB"), Some(1));
    assert_eq!(app.find_port("ttyC"), None);
    assert_eq!(App::new(vec![]).find_port("ttyA"), None);
}

#[test]
fn showing_a_new_port_enters_it() {
    let mut app = App::new(vec!["ttyA".to_string(), "ttyB".to_string()]);
    app.show_port("ttyA".to_string());
    assert_eq!(app.ports_data.len(), 1);
    assert_eq!(app.active_port_idx, 0);
    app.show_port("ttyB".to_string());
    assert_eq!(app.ports_data.len(), 2);
    assert_eq!(app.active_port_idx, 1);
    assert_eq!(app.ports_data[1].name, "ttyB");
    assert!(!app.ports_data[1].paused);
    assert!(!app.ports_data[1].rts);
    assert!(!app.ports_data[1].dtr);
    assert_eq!(app.ports_data[1].line_count(), 0);
}

#[test]
fn showing_a_kept_port_enters_nothing() {
    let mut app = App::new(vec!["ttyA".to_string(), "ttyB".to_string()]);
    app.show_port("ttyA".to_string());
    app.show_port("ttyB".to_string());
    app.add_data_with_name("ttyA".to_string(), "kept".to_string());
    app.ports_data[0].dtr = true;
    app.show_port("ttyA".to_string());
    assert_eq!(app.ports_data.len(), 2);
    assert_eq!(app.active_port_idx, 0);
    assert_eq!(app.ports_data[0].line_count(), 1);
    assert_eq!(app.ports_data[0].scroll_buffer[0], "kept");
    assert!(app.ports_data[0].dtr);
    assert_eq!(app.mode, Mode::Main);
    assert_eq!(app.v_scroll, 0);
}

#[test]
fn port_is_open_when_data_is_kept_for_it() {
    let app = ready_app(Mode::Main);
    assert!(app.is_port_open("ttyA"));
    assert!(!app.is_port_open("ttyB"));
    assert!(!App::new(vec!["ttyA".to_string()]).is_port_open("ttyA"));
}

#[test]
fn alt_q_quits_in_every_mode() {
    for mode in [Mode::Main, Mode::Term, Mode::Listing, Mode::Config, Mode::Writing] {
        let mut app = ready_app(mode);
        assert_eq!(
            app.on_key(with(KeyCode::Char('q'), Modifiers::Alt), 0, "text"),
            UiAction::Quit
        );
        assert_eq!(app.mode, mode);
    }
}

#[test]
fn plain_q_is_text_in_writing_mode() {
    let mut app = ready_app(Mode::Writing);
    assert_eq!(app.on_key(press(KeyCode::Char('q')), 0, ""), UiAction::Edit);
}

#[test]
fn releases_change_nothing() {
    let mut app = ready_app(Mode::Main);
    let key = Key { code: KeyCode::Left, modifiers: Modifiers::Plain, pressed: false };
    assert_eq!(app.on_key(key, 0, ""), UiAction::Nothing);
    assert_eq!(app.mode, Mode::Main);
    let quit = Key { code: KeyCode::Char('q'), modifiers: Modifiers::Alt, pressed: false };
    assert_eq!(app.on_key(quit, 0, ""), UiAction::Nothing);
}

#[test]
fn arrows_scroll_outside_the_list() {
    let mut app = ready_app(Mode::Term);
    assert_eq!(app.on_key(press(KeyCode::Up), 0, ""), UiAction::Nothing);
    assert_eq!(app.on_key(press(KeyCode::Up), 0, ""), UiAction::Nothing);
    assert_eq!(app.v_scroll, 2);
    assert_eq!(app.on_key(press(KeyCode::Down), 0, ""), UiAction::Nothing);
    assert_eq!(app.v_scroll, 1);
    assert_eq!(app.on_key(press(KeyCode::Up), 0, ""), UiAction::Nothing);
    assert_eq!(app.on_key(press(KeyCode::End), 0, ""), UiAction::Nothing);
    assert_eq!(app.v_scroll, 0);
    assert_eq!(app.mode, Mode::Term);
}

#[test]
fn scrolling_stops_at_both_ends() {
    let mut app = ready_app(Mode::Main);
    assert_eq!(app.on_key(press(KeyCode::Down), 0, ""), UiAction::Nothing);
    assert_eq!(app.v_scroll, 0);
    assert_eq!(app.mode, Mode::Main);
    app.v_scroll = usize::MAX;
    assert_eq!(app.on_key(press(KeyCode::Up), 0, ""), UiAction::Nothing);
    assert_eq!(app.v_scroll, usize::MAX);
}

#[test]
fn up_scrolls_in_writing_mode() {
    let mut app = ready_app(Mode::Writing);
    assert_eq!(app.on_key(press(KeyCode::Up), 0, "abc"), UiAction::Nothing);
    assert_eq!(app.v_scroll, 1);
    assert_eq!(app.mode, Mode::Writing);
}

#[test]
fn modes_follow_the_arrows() {
    let table = [
        (Mode::Main, KeyCode::Left, Mode::Listing),
        (Mode::Main, KeyCode::Right, Mode::Term),
        (Mode::Main, KeyCode::Enter, Mode::Main),
        (Mode::Listing, KeyCode::Right, Mode::Writing),
        (Mode::Listing, KeyCode::Left, Mode::Term),
        (Mode::Writing, KeyCode::Left, Mode::Listing),
        (Mode::Writing, KeyCode::Right, Mode::Writing),
        (Mode::Term, KeyCode::Left, Mode::Listing),
        (Mode::Term, KeyCode::Right, Mode::Writing),
        (Mode::Term, KeyCode::Enter, Mode::Term),
        (Mode::Config, KeyCode::Left, Mode::Config),
        (Mode::Config, KeyCode::Right, Mode::Config),
    ];
    for (from, code, to) in table {
        let mut app = ready_app(from);
        app.on_key(press(code), 0, "");
        assert_eq!(app.mode, to);
        assert_eq!(app.v_scroll, 0);
    }
}

#[test]
fn list_selection_wraps_around() {
    let mut app = ready_app(Mode::Listing);
    assert_eq!(app.on_key(press(KeyCode::Down), 0, ""), UiAction::Select(1));
    assert_eq!(app.on_key(press(KeyCode::Down), 1, ""), UiAction::Select(2));
    assert_eq!(app.on_key(press(KeyCode::Down), 2, ""), UiAction::Select(0));
    assert_eq!(app.on_key(press(KeyCode::Up), 2, ""), UiAction::Select(1));
    assert_eq!(app.on_key(press(KeyCode::Up), 0, ""), UiAction::Select(2));
    assert_eq!(app.v_scroll, 0);
    assert_eq!(app.mode, Mode::Listing);
}

#[test]
fn enter_in_the_list_switches_to_the_selected_port() {
    let mut app = ready_app(Mode::Listing);
    assert_eq!(
        app.on_key(press(KeyCode::Enter), 1, "typed"),
        UiAction::Switch("ttyB".to_string(), false)
    );
    assert_eq!(app.mode, Mode::Listing);
    assert_eq!(app.ports_data.len(), 2);
    assert_eq!(app.ports_data[1].name, "ttyB");
    assert_eq!(app.active_port_idx, 1);
    assert_eq!(
        app.on_key(press(KeyCode::Enter), 1, "typed"),
        UiAction::Switch("ttyB".to_string(), true)
    );
    assert_eq!(app.ports_data.len(), 2);
}

#[test]
fn lines_of_a_second_port_have_their_buffer_after_a_switch() {
    let mut app = ready_app(Mode::Listing);
    app.add_data_with_name("ttyA".to_string(), "from A".to_string());
    app.on_key(press(KeyCode::Enter), 1, "");
    app.add_data_with_name("ttyB".to_string(), "from B".to_string());
    app.add_data_with_name("ttyA".to_string(), "more from A".to_string());
    assert_eq!(app.ports_data[1].line_count(), 1);
    assert_eq!(app.ports_data[1].scroll_buffer[0], "from B");
    assert_eq!(app.ports_data[0].line_count(), 2);
    assert_eq!(
        app.on_key(press(KeyCode::Enter), 0, ""),
        UiAction::Switch("ttyA".to_string(), true)
    );
    assert_eq!(app.ports_data.len(), 2);
    assert_eq!(app.active_port_idx, 0);
    assert_eq!(app.ports_data[0].scroll_buffer[1], "more from A");
}

#[test]
fn enter_sends_the_line_with_a_line_feed() {
    let mut app = ready_app(Mode::Writing);
    assert_eq!(
        app.on_key(press(KeyCode::Enter), 0, "AT+GMR"),
        UiAction::SendText("AT+GMR\n".to_string())
    );
    assert_eq!(app.on_key(press(KeyCode::Enter), 0, ""), UiAction::SendText("\n".to_string()));
}

#[test]
fn control_z_sends_the_line_with_a_substitute() {
    let mut app = ready_app(Mode::Writing);
    assert_eq!(
        app.on_key(with(KeyCode::Char('z'), Modifiers::Control), 0, "body"),
        UiAction::SendText("body\u{1a}".to_string())
    );
    assert_eq!(app.on_key(with(KeyCode::Char('z'), Modifiers::Alt), 0, "body"), UiAction::Edit);
}

#[test]
fn alt_d_toggles_the_kept_dtr_level() {
    let mut app = ready_app(Mode::Writing);
    let key = with(KeyCode::Char('d'), Modifiers::Alt);
    assert_eq!(app.on_key(key, 0, ""), UiAction::SendDtr(true));
    assert!(app.ports_data[0].dtr);
    assert!(!app.ports_data[0].rts);
    assert_eq!(app.on_key(key, 0, ""), UiAction::SendDtr(false));
    assert!(!app.ports_data[0].dtr);
}

#[test]
fn alt_r_toggles_the_kept_rts_level() {
    let mut app = ready_app(Mode::Writing);
    let key = with(KeyCode::Char('r'), Modifiers::Alt);
    assert_eq!(app.on_key(key, 0, ""), UiAction::SendRts(true));
    assert!(app.ports_data[0].rts);
    assert!(!app.ports_data[0].dtr);
    assert_eq!(app.on_key(key, 0, ""), UiAction::SendRts(false));
    assert!(!app.ports_data[0].rts);
}

#[test]
fn signal_keys_do_nothing_outside_writing_mode() {
    let mut app = ready_app(Mode::Term);
    assert_eq!(app.on_key(with(KeyCode::Char('d'), Modifiers::Alt), 0, ""), UiAction::Nothing);
    assert!(!app.ports_data[0].dtr);
}

#[test]
fn other_keys_edit_the_line_in_writing_mode() {
    let mut app = ready_app(Mode::Writing);
    assert_eq!(app.on_key(press(KeyCode::Char('a')), 0, ""), UiAction::Edit);
    assert_eq!(app.on_key(press(KeyCode::Other), 0, ""), UiAction::Edit);
    assert_eq!(app.on_key(press(KeyCode::Right), 0, ""), UiAction::Edit);
    assert_eq!(app.on_key(with(KeyCode::Char('d'), Modifiers::Other), 0, ""), UiAction::Edit);
}

#[test]
fn browsing_footer_lists_its_keys() {
    let expected = vec![
        plain("Quit "),
        key(" Alt + q "),
        plain(" Search "),
        key("Alt + s "),
        plain(" Scroll "),
        key(" \u{1f815} \u{1f817} "),
    ];
    for mode in [Mode::Main, Mode::Term, Mode::Listing, Mode::Config] {
        assert_eq!(render_footer(&mode), expected);
    }
}

#[test]
fn writing_footer_lists_its_keys() {
    assert_eq!(
        render_footer(&Mode::Writing),
        vec![
            plain("Quit "),
            key(" Alt + q "),
            plain(" Enter "),
            key(" \\n "),
            plain(" Ctrl + z "),
            key(" \\x0A "),
            plain(" Alt+d "),
            key(" DTR "),
            plain(" Alt+r "),
            key(" RTS "),
        ]
    );
}

#[test]
fn shown_length_freezes_while_scrolled_back() {
    assert_eq!(shown_length(0, 10, 25), 25);
    assert_eq!(shown_length(3, 10, 25), 10);
    assert_eq!(shown_length(3, 25, 25), 25);
}

#[test]
fn shown_length_never_exceeds_the_buffer() {
    assert_eq!(shown_length(3, 30, 25), 25);
    assert_eq!(shown_length(1, 1, 0), 0);
}

#[test]
fn window_covers_the_newest_lines() {
    assert_eq!(visible_range(100, 0, 20), (82, 100));
    assert_eq!(visible_range(100, 10, 20), (72, 90));
}

#[test]
fn window_of_a_short_buffer_is_empty_or_small() {
    assert_eq!(visible_range(5, 0, 20), (2, 5));
    assert_eq!(visible_range(2, 0, 20), (2, 2));
    assert_eq!(visible_range(5, 9, 20), (2, 0));
    assert_eq!(visible_range(0, 0, 0), (2, 0));
    assert_eq!(visible_range(10, 0, 0), (12, 10));
}

#[test]
fn window_start_stays_in_range() {
    assert_eq!(visible_range(usize::MAX, 0, 0), (usize::MAX, usize::MAX));
    assert_eq!(visible_range(usize::MAX, 0, 1), (usize::MAX, usize::MAX));
    assert_eq!(visible_range(usize::MAX, 0, 3), (usize::MAX - 1, usize::MAX));
}

#[test]
fn visible_text_ends_every_line_once() {
    let mut buffer = VecDeque::new();
    buffer.push_back("zero".to_string());
    buffer.push_back("one\n".to_string());
    buffer.push_back("".to_string());
    buffer.push_back("thr\u{e9}e".to_string());
    buffer.push_back("four".to_string());
    assert_eq!(visible_text(&buffer, 1, 4), "one\n\nthr\u{e9}e\n");
    assert_eq!(visible_text(&buffer, 0, 5), "zero\none\n\nthr\u{e9}e\nfour\n");
    assert_eq!(visible_text(&buffer, 0, 1), "zero\n");
}

#[test]
fn visible_text_of_an_empty_window_is_empty() {
    let mut buffer = VecDeque::new();
    buffer.push_back("zero".to_string());
    assert_eq!(visible_text(&buffer, 1, 1), "");
    assert_eq!(visible_text(&buffer, 2, 0), "");
    assert_eq!(visible_text(&VecDeque::new(), 0, 0), "");
}
