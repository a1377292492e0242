//! Tests of the application state: tab selection, input editing, submit
//! semantics, windowing, and the end-to-end two-channel scenario.

use rtthost::app::{App, AppEvent, EventReply, Frame};
use rtthost::channel::ChannelState;
use rtthost::window::visible_slice;

fn two_channel_app() -> App {
    let console = ChannelState::new(Some("console".to_string()), false);
    let shell = ChannelState::new(Some("shell".to_string()), true);
    App::new(vec![console, shell])
}

#[test]
fn select_tab_out_of_range_is_a_no_op() {
    let mut app = two_channel_app();
    assert_eq!(app.current_tab, 0);
    let r = app.handle_event(AppEvent::SelectTab(3));
    assert!(matches!(r, EventReply::Continue));
    assert_eq!(app.current_tab, 0);
    let r = app.handle_event(AppEvent::SelectTab(0));
    assert!(matches!(r, EventReply::Continue));
    assert_eq!(app.current_tab, 0);
    let r = app.handle_event(AppEvent::SelectTab(2));
    assert!(matches!(r, EventReply::Continue));
    assert_eq!(app.current_tab, 1);
}

#[test]
fn quit_exits_and_other_events_do_not() {
    let mut app = two_channel_app();
    assert!(matches!(app.handle_event(AppEvent::Quit), EventReply::Exit));
    assert!(matches!(app.handle_event(AppEvent::Other), EventReply::Continue));
    assert!(matches!(
        app.handle_event(AppEvent::ScrollUp),
        EventReply::Continue
    ));
}

#[test]
fn typing_into_read_only_channel_is_ignored() {
    let mut app = two_channel_app();
    app.handle_event(AppEvent::Character('x'));
    assert_eq!(app.tabs[0].input, "");
    app.handle_event(AppEvent::Backspace);
    assert_eq!(app.tabs[0].input, "");
}

#[test]
fn input_editing_on_writable_channel() {
    let mut app = two_channel_app();
    app.handle_event(AppEvent::SelectTab(2));
    app.handle_event(AppEvent::Character('l'));
    app.handle_event(AppEvent::Character('s'));
    assert_eq!(app.tabs[1].input, "ls");
    app.handle_event(AppEvent::Backspace);
    assert_eq!(app.tabs[1].input, "l");
    app.handle_event(AppEvent::Backspace);
    assert_eq!(app.tabs[1].input, "");
    app.handle_event(AppEvent::Backspace);
    assert_eq!(app.tabs[1].input, "");
}

#[test]
fn submit_clears_input_only_on_delivery() {
    let mut app = two_channel_app();
    app.handle_event(AppEvent::SelectTab(2));
    app.handle_event(AppEvent::Character('l'));
    app.handle_event(AppEvent::Character('s'));
    let r = app.handle_event(AppEvent::Character('\n'));
    let sent = match r {
        EventReply::Send(m) => m,
        _ => panic!("a writable channel must ask for a transport write"),
    };
    assert_eq!(sent, "ls\n");
    // A failed write preserves the exact prior input.
    app.push_rtt(false);
    assert_eq!(app.tabs[1].input, "ls");
    // Submitting again and succeeding clears it.
    let r = app.handle_event(AppEvent::Character('\n'));
    assert!(matches!(r, EventReply::Send(_)));
    app.push_rtt(true);
    assert_eq!(app.tabs[1].input, "");
}

#[test]
fn submit_on_read_only_channel_sends_nothing() {
    let mut app = two_channel_app();
    assert_eq!(app.current_tab, 0);
    let r = app.handle_event(AppEvent::Character('\n'));
    assert!(matches!(r, EventReply::Continue));
}

#[test]
fn submit_with_empty_input_sends_just_a_terminator() {
    let mut app = two_channel_app();
    app.handle_event(AppEvent::SelectTab(2));
    let r = app.handle_event(AppEvent::Character('\n'));
    match r {
        EventReply::Send(m) => assert_eq!(m, "\n"),
        _ => panic!("empty input still submits a terminator"),
    }
}

#[test]
fn visible_slice_shows_the_window_bottom_anchored() {
    let messages: Vec<String> = vec![
        "a".to_string(),
        "b".to_string(),
        "c".to_string(),
        "d".to_string(),
    ];
    assert_eq!(visible_slice(&messages, 0, 2), vec!["c".to_string(), "d".to_string()]);
    assert_eq!(visible_slice(&messages, 1, 2), vec!["b".to_string(), "c".to_string()]);
    assert_eq!(visible_slice(&messages, 0, 10), messages);
    let scrolled_past_top = visible_slice(&messages, 9, 2);
    assert_eq!(scrolled_past_top, vec!["a".to_string(), "b".to_string()]);
    let empty: Vec<String> = Vec::new();
    assert_eq!(visible_slice(&empty, 0, 3), empty);
}

#[test]
fn render_reconciles_an_overgrown_scroll_offset() {
    let mut app = two_channel_app();
    app.tabs[0].append_str("a\nb\nc\n");
    for _ in 0..10 {
        app.handle_event(AppEvent::ScrollUp);
    }
    assert_eq!(app.tabs[0].scroll_offset, 10);
    let frame = app.render(2);
    // The window was drawn with the old offset, clamped to the top.
    assert_eq!(frame.lines, vec!["a".to_string(), "b".to_string()]);
    // After reconciliation the offset fits the log again.
    assert_eq!(app.tabs[0].scroll_offset, 1);
    assert!(app.tabs[0].scroll_offset + 2 <= app.tabs[0].messages.len());
}

#[test]
fn render_names_tabs_and_reports_input() {
    let unnamed = ChannelState::new(None, true);
    let named = ChannelState::new(Some("shell".to_string()), false);
    let mut app = App::new(vec![unnamed, named]);
    app.handle_event(AppEvent::Character('h'));
    app.handle_event(AppEvent::Character('i'));
    let frame: Frame = app.render(5);
    assert_eq!(
        frame.tab_names,
        vec!["Unnamed Channel".to_string(), "shell".to_string()]
    );
    assert_eq!(frame.selected, 0);
    assert_eq!(frame.input, Some("hi".to_string()));
    assert_eq!(frame.input_width, 2);
    app.handle_event(AppEvent::SelectTab(2));
    let frame = app.render(5);
    assert_eq!(frame.input, None);
    assert_eq!(frame.input_width, 0);
}

#[test]
fn input_width_counts_columns_not_characters() {
    let mut app = two_channel_app();
    app.handle_event(AppEvent::SelectTab(2));
    // One fullwidth character occupies two columns.
    app.handle_event(AppEvent::Character('\u{6F22}'));
    let frame = app.render(3);
    assert_eq!(frame.input, Some("\u{6F22}".to_string()));
    assert_eq!(frame.input_width, 2);
}

#[test]
fn two_channel_run_end_to_end() {
    let mut app = two_channel_app();

    // Channel 0 receives boot output; channel 1 is quiet.
    app.poll_rtt(&vec![b"boot\nready\n".to_vec(), Vec::new()]);
    let frame = app.render(1);
    assert_eq!(frame.lines, vec!["ready".to_string()]);

    // The operator selects the shell and types a command.
    app.handle_event(AppEvent::SelectTab(2));
    app.handle_event(AppEvent::Character('l'));
    app.handle_event(AppEvent::Character('s'));
    assert_eq!(app.tabs[1].input, "ls");

    // Submit sends the command plus the terminator and clears the input.
    let r = app.handle_event(AppEvent::Character('\n'));
    match r {
        EventReply::Send(m) => assert_eq!(m, "ls\n"),
        _ => panic!("submit must hand the command to the transport"),
    }
    app.push_rtt(true);
    assert_eq!(app.tabs[1].input, "");

    // The reply arrives on channel 1 as two completed lines.
    app.poll_rtt(&vec![Vec::new(), b"file1\nfile2\n".to_vec()]);
    assert_eq!(
        app.tabs[1].messages,
        vec!["file1".to_string(), "file2".to_string()]
    );
    assert_eq!(app.tabs[0].messages.len(), 2);
}
