use hypr_handled::minimize::{WindowEventKind, WindowTask};
use hypr_handled::wheel::{
    get_socket_dir, handle_event, handle_event_chunk, split_event, wait_events_for_handle,
    EventAction,
};

fn task(kind: WindowEventKind, addr: &str) -> EventAction {
    EventAction::Window(WindowTask { kind, win_addr: addr.to_string() })
}

#[test]
fn split_event_cuts_at_first_marker() {
    assert_eq!(split_event("urgent>>abc"), Some(("urgent", "abc")));
    assert_eq!(split_event("a>>b>>c"), Some(("a", "b>>c")));
    assert_eq!(split_event(">>x"), Some(("", "x")));
    assert_eq!(split_event("bell>>"), Some(("bell", "")));
}

#[test]
fn split_event_trims_white_space() {
    assert_eq!(split_event("  urgent>>abc \t\r"), Some(("urgent", "abc")));
    assert_eq!(split_event("\u{3000}bell>>x\u{a0}"), Some(("bell", "x")));
    assert_eq!(split_event("\u{2009}a>>b"), split_event("a>>b"));
}

#[test]
fn split_event_rejects_blank_and_unmarked_lines() {
    assert_eq!(split_event(""), None);
    assert_eq!(split_event(" \t \r"), None);
    assert_eq!(split_event("workspace"), None);
    assert_eq!(split_event("a>b"), None);
}

#[test]
fn wait_events_for_handle_dispatches_by_name() {
    assert_eq!(wait_events_for_handle(("urgent", "abc")), Some(task(WindowEventKind::Urgent, "0xabc")));
    assert_eq!(
        wait_events_for_handle(("activewindowv2", "0x55")),
        Some(task(WindowEventKind::Activate, "0x55"))
    );
    assert_eq!(
        wait_events_for_handle(("minimized", "5a,1")),
        Some(task(WindowEventKind::Minimize, "0x5a"))
    );
    assert_eq!(wait_events_for_handle(("bell", "")), Some(EventAction::Bell));
    assert_eq!(wait_events_for_handle(("configreloaded", "")), Some(EventAction::ReloadConfig));
}

#[test]
fn wait_events_for_handle_ignores_other_events() {
    assert_eq!(wait_events_for_handle(("workspace", "2")), None);
    assert_eq!(wait_events_for_handle(("Bell", "")), None);
    assert_eq!(wait_events_for_handle(("activewindow", "kitty,kitty")), None);
}

#[test]
fn minimize_without_comma_is_reported() {
    assert_eq!(
        wait_events_for_handle(("minimized", "no comma")),
        Some(EventAction::InvalidMinimizeAddress("no comma".to_string()))
    );
    assert_eq!(
        handle_event("minimized>>0xab\nbell>>"),
        vec![EventAction::InvalidMinimizeAddress("0xab".to_string()), EventAction::Bell]
    );
}

#[test]
fn handle_event_goes_line_by_line() {
    let chunk = "urgent>>abc\nbell>>\n\n  \nworkspace>>3\nfoo\r\nactivewindowv2>>0x1\r\nminimized>>77,0";
    assert_eq!(
        handle_event(chunk),
        vec![
            task(WindowEventKind::Urgent, "0xabc"),
            EventAction::Bell,
            task(WindowEventKind::Activate, "0x1"),
            task(WindowEventKind::Minimize, "0x77"),
        ]
    );
    assert_eq!(handle_event(""), vec![]);
    assert_eq!(handle_event("\n\n"), vec![]);
}

#[test]
fn handle_event_of_joined_chunks() {
    let a = "configreloaded>>\nurgent>>1\n";
    let b = "bell>>\nminimized>>2,1";
    let mut joined = handle_event(a);
    joined.extend(handle_event(b));
    assert_eq!(handle_event(&format!("{a}{b}")), joined);
    assert_eq!(joined.len(), 4);
}

#[test]
fn handle_event_chunk_reads_bytes() {
    assert_eq!(handle_event_chunk(b"bell>>\nurgent>>ab\n"), vec![
        EventAction::Bell,
        task(WindowEventKind::Urgent, "0xab"),
    ]);
    // An ill-formed byte becomes U+FFFD and stays in the payload.
    assert_eq!(
        handle_event_chunk(&[b'u', b'r', b'g', b'e', b'n', b't', b'>', b'>', 0xff]),
        vec![task(WindowEventKind::Urgent, "0x\u{fffd}")]
    );
    // An ill-formed byte in the name makes the event unknown.
    assert_eq!(handle_event_chunk(&[b'b', 0xc3, b'l', b'>', b'>']), vec![]);
}

#[test]
fn get_socket_dir_joins_the_parts() {
    assert_eq!(
        get_socket_dir(Some("/run/user/1000"), Some("abc_123")),
        Some("/run/user/1000/hypr/abc_123/.socket2.sock".to_string())
    );
    assert_eq!(
        get_socket_dir(Some("/run/user/1000/"), Some("sig")),
        Some("/run/user/1000/hypr/sig/.socket2.sock".to_string())
    );
    assert_eq!(get_socket_dir(Some("/run"), Some("/abs")), Some("/abs/.socket2.sock".to_string()));
    assert_eq!(get_socket_dir(None, Some("sig")), None);
    assert_eq!(get_socket_dir(Some("/run"), None), None);
}

#[test]
fn handle_event_of_chunks_joined_by_a_newline() {
    let pairs = [
        ("urgent>>1", "bell>>"),
        ("", "bell>>"),
        ("urgent>>1\r", "minimized>>2,0"),
        ("configreloaded>>\n", "\n"),
        ("a>>b\nactivewindowv2>>7", ""),
    ];
    for (a, b) in pairs {
        let mut expected = handle_event(a);
        expected.extend(handle_event(b));
        assert_eq!(handle_event(&format!("{a}\n{b}")), expected, "{a:?} / {b:?}");
    }
}
