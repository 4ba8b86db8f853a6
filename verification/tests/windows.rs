use hypr_handled::minimize::{
    change_focus, format_win_addr, get_window_by_address, handle_active_window,
    handle_minimize_event, handle_urgent_window, is_window_in_minimized_workspace,
    move_window_to_workspace, restore_window_from_workspace, set_window_on_top, TaskAction,
    TaskEvent, TaskState, WindowEventKind,
};
use hypr_handled::wheel::{ExecuteError, WindowInfo, Workspace};

fn window(address: &str, workspace: &str, focus: i32) -> WindowInfo {
    WindowInfo {
        address: address.to_string(),
        workspace: Workspace { id: 9, name: workspace.to_string() },
        focus_history_id: focus,
    }
}

fn active() -> Workspace {
    Workspace { id: 2, name: "2".to_string() }
}

const MOVE_TO_MIN: &str =
    "hl.dsp.window.move({ workspace = \"special:minimized\", follow = false, window = \"address:0xab\" })";
const RESTORE_TO_2: &str =
    "hl.dsp.window.move({ workspace = \"2\", follow = true, window = \"address:0xab\" })";
const TOP: &str = "hl.dsp.window.alter_zorder({ mode = \"top\", window = \"address:0xab\" })";
const FOCUS: &str = "hl.dsp.focus({ window = \"address:0xab\"})";

#[test]
fn format_win_addr_adds_missing_prefix() {
    assert_eq!(format_win_addr("55d8e6b1a0"), "0x55d8e6b1a0");
    assert_eq!(format_win_addr("0x55d8e6b1a0"), "0x55d8e6b1a0");
    assert_eq!(format_win_addr(""), "0x");
    assert_eq!(format_win_addr("0"), "0x0");
    assert_eq!(format_win_addr("0X1"), "0x0X1");
    let once = format_win_addr("abc");
    assert_eq!(format_win_addr(&once), once);
}

#[test]
fn command_texts() {
    assert_eq!(move_window_to_workspace("special:minimized", false, "0xab"), MOVE_TO_MIN);
    assert_eq!(set_window_on_top("0xab"), TOP);
    assert_eq!(change_focus("0xab"), FOCUS);
    assert_eq!(restore_window_from_workspace(&active(), "0xab"), vec![RESTORE_TO_2, TOP]);
}

#[test]
fn restore_writes_the_workspace_id_in_decimal() {
    let ws = |id| Workspace { id, name: String::new() };
    let cmds = restore_window_from_workspace(&ws(-98), "0x1");
    assert_eq!(
        cmds[0],
        "hl.dsp.window.move({ workspace = \"-98\", follow = true, window = \"address:0x1\" })"
    );
    let cmds = restore_window_from_workspace(&ws(i32::MIN), "0x1");
    assert!(cmds[0].contains("workspace = \"-2147483648\""));
    let cmds = restore_window_from_workspace(&ws(i32::MAX), "0x1");
    assert!(cmds[0].contains("workspace = \"2147483647\""));
    let cmds = restore_window_from_workspace(&ws(0), "0x1");
    assert!(cmds[0].contains("workspace = \"0\""));
    let cmds = restore_window_from_workspace(&ws(1000), "0x1");
    assert!(cmds[0].contains("workspace = \"1000\""));
}

#[test]
fn is_window_in_minimized_workspace_checks_the_name() {
    assert!(is_window_in_minimized_workspace(&window("0x1", "special:minimized", 3)));
    assert!(!is_window_in_minimized_workspace(&window("0x1", "special:minimize", 3)));
    assert!(!is_window_in_minimized_workspace(&window("0x1", "1", 0)));
}

#[test]
fn get_window_by_address_finds_the_first() {
    let clients = vec![window("0x1", "1", 1), window("0xab", "2", 4), window("0xab", "3", 0)];
    assert_eq!(get_window_by_address(clients, "0xab").unwrap(), window("0xab", "2", 4));
}

#[test]
fn get_window_by_address_reports_a_missing_window() {
    let clients = vec![window("0x1", "1", 1)];
    match get_window_by_address(clients, "0xab") {
        Err(ExecuteError::FailedToFind(m)) => assert_eq!(m, "window with address: 0xab"),
        other => panic!("unexpected {other:?}"),
    }
    assert!(matches!(get_window_by_address(vec![], "0x1"), Err(ExecuteError::FailedToFind(_))));
}

#[test]
fn handlers_build_tasks() {
    let t = handle_minimize_event("ab,1").unwrap();
    assert_eq!((t.kind, t.win_addr.as_str()), (WindowEventKind::Minimize, "0xab"));
    let t = handle_minimize_event("0xab,0,extra").unwrap();
    assert_eq!(t.win_addr, "0xab");
    assert!(handle_minimize_event("0xab").is_none());
    let t = handle_active_window("ab");
    assert_eq!((t.kind, t.win_addr.as_str()), (WindowEventKind::Activate, "0xab"));
    let t = handle_urgent_window("0xab");
    assert_eq!((t.kind, t.win_addr.as_str()), (WindowEventKind::Urgent, "0xab"));
}

#[test]
fn minimize_toggles() {
    let t = handle_minimize_event("ab,1").unwrap();
    let shown = vec![window("0xab", "1", 0)];
    assert_eq!(t.resolve(&active(), shown).unwrap(), vec![MOVE_TO_MIN]);
    let hidden = vec![window("0xab", "special:minimized", 0)];
    assert_eq!(t.resolve(&active(), hidden).unwrap(), vec![RESTORE_TO_2, TOP]);
    let hidden_unfocused = vec![window("0xab", "special:minimized", 2)];
    assert_eq!(t.resolve(&active(), hidden_unfocused).unwrap(), vec![RESTORE_TO_2, TOP]);
}

#[test]
fn minimize_of_a_background_window_focuses_it() {
    let t = handle_minimize_event("ab,1").unwrap();
    let clients = vec![window("0xab", "1", 3)];
    assert_eq!(t.resolve(&active(), clients).unwrap(), vec![FOCUS, TOP]);
}

#[test]
fn activation_restores_only_a_focused_minimized_window() {
    let t = handle_active_window("ab");
    assert_eq!(
        t.resolve(&active(), vec![window("0xab", "special:minimized", 0)]).unwrap(),
        vec![RESTORE_TO_2, TOP]
    );
    assert!(t.resolve(&active(), vec![window("0xab", "special:minimized", 1)]).unwrap().is_empty());
    assert!(t.resolve(&active(), vec![window("0xab", "4", 0)]).unwrap().is_empty());
}

#[test]
fn urgency_restores_any_minimized_window() {
    let t = handle_urgent_window("ab");
    assert_eq!(
        t.resolve(&active(), vec![window("0xab", "special:minimized", 5)]).unwrap(),
        vec![RESTORE_TO_2, TOP]
    );
    assert!(t.resolve(&active(), vec![window("0xab", "special:magic", 0)]).unwrap().is_empty());
}

#[test]
fn resolve_reports_a_missing_window() {
    let t = handle_urgent_window("ab");
    match t.resolve(&active(), vec![window("0xcd", "special:minimized", 0)]) {
        Err(ExecuteError::FailedToFind(m)) => assert_eq!(m, "window with address: 0xab"),
        other => panic!("unexpected {other:?}"),
    }
}

#[test]
fn task_asks_for_the_workspace_then_the_windows() {
    let t = handle_active_window("ab");
    let (state, action) = t.step(TaskState::Start, TaskEvent::Started);
    assert_eq!(state, TaskState::AwaitingWorkspace);
    assert!(matches!(action, TaskAction::QueryActiveWorkspace));
    let (state, action) = t.step(state, TaskEvent::ActiveWorkspace(Some(active())));
    assert_eq!(state, TaskState::AwaitingClients(active()));
    assert!(matches!(action, TaskAction::QueryClients));
    let clients = vec![window("0xab", "special:minimized", 0)];
    let (state, action) = t.step(state, TaskEvent::Clients(Ok(clients)));
    assert_eq!(state, TaskState::Finished);
    match action {
        TaskAction::Dispatch(c) => assert_eq!(c, vec![RESTORE_TO_2, TOP]),
        other => panic!("unexpected {other:?}"),
    }
}

#[test]
fn task_stops_on_failed_queries() {
    let t = handle_urgent_window("ab");
    let (state, action) = t.step(TaskState::AwaitingWorkspace, TaskEvent::ActiveWorkspace(None));
    assert_eq!(state, TaskState::Finished);
    assert!(matches!(action, TaskAction::Stop));
    let err = ExecuteError::FailedToExecute("hyprctl".to_string(), "down".to_string());
    let (state, action) = t.step(TaskState::AwaitingClients(active()), TaskEvent::Clients(Err(err)));
    assert_eq!(state, TaskState::Finished);
    match action {
        TaskAction::Report(ExecuteError::FailedToExecute(c, m)) => assert_eq!((c.as_str(), m.as_str()), ("hyprctl", "down")),
        other => panic!("unexpected {other:?}"),
    }
    let (_, action) = t.step(TaskState::AwaitingClients(active()), TaskEvent::Clients(Ok(vec![])));
    assert!(matches!(action, TaskAction::Report(ExecuteError::FailedToFind(_))));
}

#[test]
fn task_ignores_answers_out_of_turn() {
    let t = handle_urgent_window("ab");
    let (state, action) = t.step(TaskState::Start, TaskEvent::ActiveWorkspace(Some(active())));
    assert_eq!(state, TaskState::Finished);
    assert!(matches!(action, TaskAction::Stop));
    let (state, action) = t.step(TaskState::Finished, TaskEvent::Started);
    assert_eq!(state, TaskState::Finished);
    assert!(matches!(action, TaskAction::Stop));
}
