//! What the window events ask of the compositor: which window they are
//! about, and which dispatch commands follow from the window's state.
use vstd::prelude::*;
use crate::text::{
    bool_text, bool_to_text, i32_to_decimal, int_decimal, split_once, split_once_spec, starts_with,
    starts_with_spec, str_eq,
};
use crate::wheel::{ExecuteError, WindowInfo, Workspace};

verus! {

/// The name of the special workspace that holds minimized windows.
pub open spec fn minimized_workspace_name() -> Seq<char> {
    "special:minimized"@
}

/// A window address in the form the compositor's commands take: with a
/// leading `0x`, added where it is missing.
pub open spec fn format_win_addr_spec(raw: Seq<char>) -> Seq<char> {
    if starts_with_spec(raw, "0x"@) {
        raw
    } else {
        "0x"@ + raw
    }
}

/// The window that a `minimized` event names: the part of its payload
/// before the first `,`, as an address; `None` where there is no `,`.
pub open spec fn minimize_target_spec(payload: Seq<char>) -> Option<Seq<char>> {
    match split_once_spec(payload, ","@) {
        Some((cut, _)) => Some(format_win_addr_spec(cut)),
        None => None,
    }
}

/// The window events that move windows.
#[derive(Clone, Copy, Debug, PartialEq, Eq, Structural)]
pub enum WindowEventKind {
    /// The compositor asked to minimize or restore a window.
    Minimize,
    /// A window became the active one.
    Activate,
    /// A window asked for attention.
    Urgent,
}

/// A window event, with the address of the window it is about.
#[derive(Debug, PartialEq, Eq)]
pub struct WindowTask {
    pub kind: WindowEventKind,
    pub win_addr: String,
}

/// A window address in the form the compositor's commands take.
pub fn format_win_addr(raw_addr: &str) -> (r: String)
    ensures
        r@ == format_win_addr_spec(raw_addr@),
{
    if starts_with(raw_addr, "0x") {
        raw_addr.to_owned()
    } else {
        let mut r = "0x".to_owned();
        r.append(raw_addr);
        r
    }
}

/// The task for a `minimized` event with payload `addr`
/// (`<address>,<flag>`); `None` where the payload holds no `,`.
pub fn handle_minimize_event(addr: &str) -> (r: Option<WindowTask>)
    ensures
        match r {
            Some(t) => t.kind == WindowEventKind::Minimize && minimize_target_spec(addr@) == Some(
                t.win_addr@,
            ),
            None => minimize_target_spec(addr@) is None,
        },
{
    match split_once(addr, ",") {
        Some((cut_addr, _)) => Some(
            WindowTask { kind: WindowEventKind::Minimize, win_addr: format_win_addr(cut_addr) },
        ),
        None => None,
    }
}

/// The task for an `activewindowv2` event with payload `addr`.
pub fn handle_active_window(addr: &str) -> (r: WindowTask)
    ensures
        r.kind == WindowEventKind::Activate,
        r.win_addr@ == format_win_addr_spec(addr@),
{
    WindowTask { kind: WindowEventKind::Activate, win_addr: format_win_addr(addr) }
}

/// The task for an `urgent` event with payload `addr`.
pub fn handle_urgent_window(addr: &str) -> (r: WindowTask)
    ensures
        r.kind == WindowEventKind::Urgent,
        r.win_addr@ == format_win_addr_spec(addr@),
{
    WindowTask { kind: WindowEventKind::Urgent, win_addr: format_win_addr(addr) }
}


/// The dispatch command that moves the window at `addr` to the workspace
/// `workspace`, following it with the focus or not.
pub open spec fn move_command(workspace: Seq<char>, follow: bool, addr: Seq<char>) -> Seq<char> {
    "hl.dsp.window.move({ workspace = \""@ + workspace + "\", follow = "@ + bool_text(follow)
        + ", window = \"address:"@ + addr + "\" })"@
}

/// The dispatch command that raises the window at `addr` above the others.
pub open spec fn top_command(addr: Seq<char>) -> Seq<char> {
    "hl.dsp.window.alter_zorder({ mode = \"top\", window = \"address:"@ + addr + "\" })"@
}

/// The dispatch command that gives the window at `addr` the focus.
pub open spec fn focus_command(addr: Seq<char>) -> Seq<char> {
    "hl.dsp.focus({ window = \"address:"@ + addr + "\"})"@
}

/// The commands that bring the window at `addr` back to the workspace
/// `active` and raise it.
pub open spec fn restore_commands(active: Workspace, addr: Seq<char>) -> Seq<Seq<char>> {
    seq![move_command(int_decimal(active.id as int), true, addr), top_command(addr)]
}

/// Whether the window stands in the workspace of minimized windows.
pub open spec fn is_minimized(window: WindowInfo) -> bool {
    window.workspace.name@ == minimized_workspace_name()
}

/// The commands that an event of kind `kind` about the window `window`,
/// at `addr`, calls for while `active` is the active workspace.
pub open spec fn task_commands(
    kind: WindowEventKind,
    addr: Seq<char>,
    active: Workspace,
    window: WindowInfo,
) -> Seq<Seq<char>> {
    let focused = window.focus_history_id == 0;
    match kind {
        WindowEventKind::Minimize => if is_minimized(window) {
            restore_commands(active, addr)
        } else if focused {
            seq![move_command(minimized_workspace_name(), false, addr)]
        } else {
            seq![focus_command(addr), top_command(addr)]
        },
        WindowEventKind::Activate => if is_minimized(window) && focused {
            restore_commands(active, addr)
        } else {
            Seq::empty()
        },
        WindowEventKind::Urgent => if is_minimized(window) {
            restore_commands(active, addr)
        } else {
            Seq::empty()
        },
    }
}

/// The first index at or after `from` of a window at `addr`.
pub open spec fn window_index_from(clients: Seq<WindowInfo>, addr: Seq<char>, from: nat) -> Option<
    nat,
>
    decreases clients.len() - from,
{
    if from >= clients.len() {
        None
    } else if clients[from as int].address@ == addr {
        Some(from)
    } else {
        window_index_from(clients, addr, from + 1)
    }
}

/// The message of the error for a window that is not there.
pub open spec fn missing_window_message(addr: Seq<char>) -> Seq<char> {
    "window with address: "@ + addr
}

/// The dispatch command that moves the window at `win_addr` to the
/// workspace `workspace_id`, following it with the focus or not.
pub fn move_window_to_workspace(workspace_id: &str, follow: bool, win_addr: &str) -> (r: String)
    ensures
        r@ == move_command(workspace_id@, follow, win_addr@),
{
    let mut r = "hl.dsp.window.move({ workspace = \"".to_owned();
    r.append(workspace_id);
    r.append("\", follow = ");
    r.append(bool_to_text(follow));
    r.append(", window = \"address:");
    r.append(win_addr);
    r.append("\" })");
    r
}

/// The dispatch command that raises the window at `win_addr`.
pub fn set_window_on_top(win_addr: &str) -> (r: String)
    ensures
        r@ == top_command(win_addr@),
{
    let mut r = "hl.dsp.window.alter_zorder({ mode = \"top\", window = \"address:".to_owned();
    r.append(win_addr);
    r.append("\" })");
    r
}

/// The dispatch command that gives the window at `win_addr` the focus.
pub fn change_focus(win_addr: &str) -> (r: String)
    ensures
        r@ == focus_command(win_addr@),
{
    let mut r = "hl.dsp.focus({ window = \"address:".to_owned();
    r.append(win_addr);
    r.append("\"})");
    r
}

/// Whether the window stands in the workspace of minimized windows.
pub fn is_window_in_minimized_workspace(current_window: &WindowInfo) -> (r: bool)
    ensures
        r == is_minimized(*current_window),
{
    str_eq(current_window.workspace.name.as_str(), "special:minimized")
}

/// The commands that bring the window at `win_addr` back to the workspace
/// `ws` and raise it.
pub fn restore_window_from_workspace(ws: &Workspace, win_addr: &str) -> (r: Vec<String>)
    ensures
        r@.map_values(|s: String| s@) == restore_commands(*ws, win_addr@),
{
    let id = i32_to_decimal(ws.id);
    let mut r: Vec<String> = Vec::new();
    r.push(move_window_to_workspace(id.as_str(), true, win_addr));
    r.push(set_window_on_top(win_addr));
    assert(r@.map_values(|s: String| s@) =~= restore_commands(*ws, win_addr@));
    r
}

/// The first window of `clients` at `address`, or `FailedToFind` when
/// there is none.
pub fn get_window_by_address(clients: Vec<WindowInfo>, address: &str) -> (r: Result<
    WindowInfo,
    ExecuteError,
>)
    ensures
        match window_index_from(clients@, address@, 0) {
            Some(k) => r matches Ok(found) && found == clients@[k as int],
            None => r matches Err(ExecuteError::FailedToFind(m)) && m@ == missing_window_message(
                address@,
            ),
        },
{
    let ghost all = clients@;
    let mut windows = clients;
    let n = windows.len();
    let mut i: usize = 0;
    while i < n
        invariant
            i <= n == windows@.len(),
            windows@ == all,
            clients@ == all,
            window_index_from(all, address@, 0) == window_index_from(all, address@, i as nat),
        decreases n - i,
    {
        if str_eq(windows[i].address.as_str(), address) {
            assert(window_index_from(all, address@, i as nat) == Some(i as nat));
            let w = windows.remove(i);
            return Ok(w);
        }
        i = i + 1;
    }
    let mut m = "window with address: ".to_owned();
    m.append(address);
    Err(ExecuteError::FailedToFind(m))
}

impl WindowTask {
    /// The commands that this event calls for, given the active workspace
    /// and the windows the compositor reports; `FailedToFind` when none of
    /// them is at the task's address.
    pub fn resolve(&self, active_workspace: &Workspace, clients: Vec<WindowInfo>) -> (r: Result<
        Vec<String>,
        ExecuteError,
    >)
        ensures
            match window_index_from(clients@, self.win_addr@, 0) {
                Some(i) => r matches Ok(cmds) && cmds@.map_values(|s: String| s@) == task_commands(
                    self.kind,
                    self.win_addr@,
                    *active_workspace,
                    clients@[i as int],
                ),
                None => r matches Err(ExecuteError::FailedToFind(m)) && m@
                    == missing_window_message(self.win_addr@),
            },
    {
        let window = match get_window_by_address(clients, self.win_addr.as_str()) {
            Ok(w) => w,
            Err(e) => {
                return Err(e);
            },
        };
        let addr = self.win_addr.as_str();
        let minimized = is_window_in_minimized_workspace(&window);
        let focused = window.focus_history_id == 0;
        let mut r: Vec<String> = Vec::new();
        match self.kind {
            WindowEventKind::Minimize => {
                if minimized {
                    r = restore_window_from_workspace(active_workspace, addr);
                } else if focused {
                    r.push(move_window_to_workspace("special:minimized", false, addr));
                } else {
                    r.push(change_focus(addr));
                    r.push(set_window_on_top(addr));
                }
            },
            WindowEventKind::Activate => {
                if minimized && focused {
                    r = restore_window_from_workspace(active_workspace, addr);
                }
            },
            WindowEventKind::Urgent => {
                if minimized {
                    r = restore_window_from_workspace(active_workspace, addr);
                }
            },
        }
        assert(r@.map_values(|s: String| s@) =~= task_commands(
            self.kind,
            self.win_addr@,
            *active_workspace,
            window,
        ));
        Ok(r)
    }
}


/// Where a window task stands in its exchange with the compositor.
#[derive(Debug, PartialEq, Eq)]
pub enum TaskState {
    /// Nothing asked yet.
    Start,
    /// The active workspace was asked for.
    AwaitingWorkspace,
    /// The windows were asked for; the active workspace is known.
    AwaitingClients(Workspace),
    /// Nothing more to ask.
    Finished,
}

/// What the program hands a window task: that it starts, or the answer to
/// the query it asked for.
#[derive(Debug)]
pub enum TaskEvent {
    Started,
    /// The active workspace, or `None` where the query failed.
    ActiveWorkspace(Option<Workspace>),
    /// The windows, or why the query failed.
    Clients(Result<Vec<WindowInfo>, ExecuteError>),
}

/// What a window task asks the program to do next.
#[derive(Debug)]
pub enum TaskAction {
    /// Ask for the active workspace.
    QueryActiveWorkspace,
    /// Ask for the windows.
    QueryClients,
    /// Send these dispatch commands, in order; the task is done.
    Dispatch(Vec<String>),
    /// Report this error; the task is done.
    Report(ExecuteError),
    /// Stop without anything more; the task is done.
    Stop,
}

impl WindowTask {
    /// The next step of the task: it asks for the active workspace first,
    /// for the windows only once that is known, and then decides the
    /// commands as `resolve` does; a failed query ends it, and so does an
    /// answer that does not fit the state.
    pub fn step(&self, state: TaskState, event: TaskEvent) -> (r: (TaskState, TaskAction))
        ensures
            match (state, event) {
                (TaskState::Start, TaskEvent::Started) => r.0 == TaskState::AwaitingWorkspace
                    && r.1 is QueryActiveWorkspace,
                (TaskState::AwaitingWorkspace, TaskEvent::ActiveWorkspace(Some(ws))) => r.0
                    == TaskState::AwaitingClients(ws) && r.1 is QueryClients,
                (TaskState::AwaitingWorkspace, TaskEvent::ActiveWorkspace(None)) => r.0
                    == TaskState::Finished && r.1 is Stop,
                (TaskState::AwaitingClients(ws), TaskEvent::Clients(Ok(clients))) => {
                    &&& r.0 == TaskState::Finished
                    &&& match window_index_from(clients@, self.win_addr@, 0) {
                        Some(i) => r.1 matches TaskAction::Dispatch(cmds) && cmds@.map_values(
                            |s: String| s@,
                        ) == task_commands(self.kind, self.win_addr@, ws, clients@[i as int]),
                        None => r.1 matches TaskAction::Report(ExecuteError::FailedToFind(m))
                            && m@ == missing_window_message(self.win_addr@),
                    }
                },
                (TaskState::AwaitingClients(_), TaskEvent::Clients(Err(e))) => r.0
                    == TaskState::Finished && r.1 == TaskAction::Report(e),
                _ => r.0 == TaskState::Finished && r.1 is Stop,
            },
    {
        match (state, event) {
            (TaskState::Start, TaskEvent::Started) => (
                TaskState::AwaitingWorkspace,
                TaskAction::QueryActiveWorkspace,
            ),
            (TaskState::AwaitingWorkspace, TaskEvent::ActiveWorkspace(Some(ws))) => (
                TaskState::AwaitingClients(ws),
                TaskAction::QueryClients,
            ),
            (TaskState::AwaitingClients(ws), TaskEvent::Clients(Ok(clients))) => {
                match self.resolve(&ws, clients) {
                    Ok(cmds) => (TaskState::Finished, TaskAction::Dispatch(cmds)),
                    Err(e) => (TaskState::Finished, TaskAction::Report(e)),
                }
            },
            (TaskState::AwaitingClients(_), TaskEvent::Clients(Err(e))) => (
                TaskState::Finished,
                TaskAction::Report(e),
            ),
            _ => (TaskState::Finished, TaskAction::Stop),
        }
    }
}

} // verus!
