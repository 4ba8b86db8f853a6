//! The compositor's event stream: the records of the compositor's state
//! that the handlers read, and the parsing of event lines into the actions
//! they call for.
use vstd::prelude::*;
use vstd::utf8::{decode_utf8, valid_utf8};
use crate::minimize::{
    WindowEventKind, WindowTask, format_win_addr_spec, handle_active_window,
    handle_minimize_event, handle_urgent_window, minimize_target_spec,
};
use crate::text::{
    chars_of, find_in, join_path, lemma_find_from, lemma_find_from_skip, lines_spec, path_join,
    split_once, split_once_spec, starts_with_spec, str_eq, strip_cr, trim, trim_spec,
};

verus! {

/// A workspace as the compositor reports it.
#[derive(Clone, Debug, PartialEq, Eq)]
pub struct Workspace {
    pub id: i32,
    pub name: String,
}

/// A window as the compositor reports it.
#[derive(Clone, Debug, PartialEq, Eq)]
pub struct WindowInfo {
    pub address: String,
    pub workspace: Workspace,
    /// 0 for the window that has the focus now, higher for the ones
    /// focused longer ago.
    pub focus_history_id: i32,
}

/// `serde_json::Error`, the error of reading the compositor's JSON replies.
#[verifier::external_type_specification]
#[verifier::external_body]
pub struct ExJsonError(serde_json::Error);

/// Why a query or a command sent to the compositor failed.
#[derive(Debug)]
pub enum ExecuteError {
    /// A command could not be run, or failed: the name it is reported
    /// under, and the reason.
    FailedToExecute(String, String),
    /// A reply could not be read as JSON.
    JsonReadError(serde_json::Error),
    /// Nothing answered to what was looked for.
    FailedToFind(String),
}

/// The text of a JSON error (`Display` of `serde_json::Error`); nothing is
/// stated of it, as it depends on the parser's internal position data.
#[verifier::external_body]
fn json_error_text(e: &serde_json::Error) -> String {
    e.to_string()
}

impl ExecuteError {
    /// The message that describes the error.
    pub fn message(&self) -> (r: String)
        ensures
            match self {
                ExecuteError::FailedToExecute(cmd, why) => r@ == "Failed to execute '"@ + cmd@
                    + "': "@ + why@,
                ExecuteError::JsonReadError(_) => starts_with_spec(r@, "Failed to read json: "@),
                ExecuteError::FailedToFind(target) => r@ == "Failed to find "@ + target@,
            },
    {
        match self {
            ExecuteError::FailedToExecute(cmd, why) => {
                let mut r = "Failed to execute '".to_owned();
                r.append(cmd.as_str());
                r.append("': ");
                r.append(why.as_str());
                r
            },
            ExecuteError::JsonReadError(info) => {
                let mut r = "Failed to read json: ".to_owned();
                let ghost head = r@;
                r.append(json_error_text(info).as_str());
                assert(r@.take(head.len() as int) == head);
                r
            },
            ExecuteError::FailedToFind(target) => {
                let mut r = "Failed to find ".to_owned();
                r.append(target.as_str());
                r
            },
        }
    }
}

/// What an event calls for, in terms of the event's own text.
pub enum EventActionView {
    Window(WindowEventKind, Seq<char>),
    Bell,
    ReloadConfig,
    InvalidMinimizeAddress(Seq<char>),
}

/// What an event of the compositor calls for.
#[derive(Debug, PartialEq, Eq)]
pub enum EventAction {
    /// Move or focus the window of the task.
    Window(WindowTask),
    /// Ring the bell.
    Bell,
    /// Set the X font resolution again.
    ReloadConfig,
    /// Warn that a `minimized` event's payload names no window.
    InvalidMinimizeAddress(String),
}

impl View for EventAction {
    type V = EventActionView;

    open spec fn view(&self) -> EventActionView {
        match self {
            EventAction::Window(t) => EventActionView::Window(t.kind, t.win_addr@),
            EventAction::Bell => EventActionView::Bell,
            EventAction::ReloadConfig => EventActionView::ReloadConfig,
            EventAction::InvalidMinimizeAddress(a) => EventActionView::InvalidMinimizeAddress(a@),
        }
    }
}

/// An event line split into its name and its payload: the line trimmed of
/// white space, cut at the first `>>`; `None` for a blank line or one
/// without `>>`.
pub open spec fn split_event_spec(event: Seq<char>) -> Option<(Seq<char>, Seq<char>)> {
    let t = trim_spec(event);
    if t.len() == 0 {
        None
    } else {
        split_once_spec(t, ">>"@)
    }
}

/// What the event `name` with payload `message` calls for; `None` for the
/// events that are ignored.
pub open spec fn event_action_spec(name: Seq<char>, message: Seq<char>) -> Option<EventActionView> {
    if name == "urgent"@ {
        Some(EventActionView::Window(WindowEventKind::Urgent, format_win_addr_spec(message)))
    } else if name == "minimized"@ {
        match minimize_target_spec(message) {
            Some(a) => Some(EventActionView::Window(WindowEventKind::Minimize, a)),
            None => Some(EventActionView::InvalidMinimizeAddress(message)),
        }
    } else if name == "activewindowv2"@ {
        Some(EventActionView::Window(WindowEventKind::Activate, format_win_addr_spec(message)))
    } else if name == "bell"@ {
        Some(EventActionView::Bell)
    } else if name == "configreloaded"@ {
        Some(EventActionView::ReloadConfig)
    } else {
        None
    }
}

/// What one line of the event stream calls for: no action or one.
pub open spec fn line_actions(line: Seq<char>) -> Seq<EventActionView> {
    match split_event_spec(line) {
        Some((name, message)) => match event_action_spec(name, message) {
            Some(a) => seq![a],
            None => Seq::empty(),
        },
        None => Seq::empty(),
    }
}

/// What a sequence of lines calls for, line by line, in order.
pub open spec fn lines_actions(lines: Seq<Seq<char>>) -> Seq<EventActionView>
    decreases lines.len(),
{
    if lines.len() == 0 {
        Seq::empty()
    } else {
        line_actions(lines[0]) + lines_actions(lines.drop_first())
    }
}

/// What a chunk of the event stream calls for.
pub open spec fn event_actions(event: Seq<char>) -> Seq<EventActionView> {
    lines_actions(lines_spec(event))
}

/// An event line split into its name and its payload.
pub fn split_event(event: &str) -> (r: Option<(&str, &str)>)
    ensures
        match r {
            Some((name, message)) => split_event_spec(event@) == Some((name@, message@)),
            None => split_event_spec(event@) is None,
        },
{
    let trimmed = trim(event);
    if trimmed.is_empty() {
        None
    } else {
        split_once(trimmed, ">>")
    }
}

/// What the event `event_line.0` with payload `event_line.1` calls for.
pub fn wait_events_for_handle(event_line: (&str, &str)) -> (r: Option<EventAction>)
    ensures
        match r {
            Some(a) => event_action_spec(event_line.0@, event_line.1@) == Some(a@),
            None => event_action_spec(event_line.0@, event_line.1@) is None,
        },
{
    let name = event_line.0;
    let message = event_line.1;
    if str_eq(name, "urgent") {
        Some(EventAction::Window(handle_urgent_window(message)))
    } else if str_eq(name, "minimized") {
        match handle_minimize_event(message) {
            Some(t) => Some(EventAction::Window(t)),
            None => Some(EventAction::InvalidMinimizeAddress(message.to_owned())),
        }
    } else if str_eq(name, "activewindowv2") {
        Some(EventAction::Window(handle_active_window(message)))
    } else if str_eq(name, "bell") {
        Some(EventAction::Bell)
    } else if str_eq(name, "configreloaded") {
        Some(EventAction::ReloadConfig)
    } else {
        None
    }
}

/// What a chunk of the event stream calls for, line by line, in order.
pub fn handle_event(event: &str) -> (r: Vec<EventAction>)
    ensures
        r@.map_values(|a: EventAction| a@) == event_actions(event@),
{
    let v = chars_of(event);
    let n = v.len();
    let nl: Vec<char> = vec!['\n'];
    assert(nl@ == seq!['\n']);
    let mut out: Vec<EventAction> = Vec::new();
    let mut pos: usize = 0;
    assert(v@.skip(0) == v@);
    while pos < n
        invariant
            pos <= n == v@.len(),
            v@ == event@,
            nl@ == seq!['\n'],
            out@.map_values(|a: EventAction| a@) + lines_actions(lines_spec(v@.skip(pos as int)))
                == event_actions(event@),
        decreases n - pos,
    {
        let ghost rest = v@.skip(pos as int);
        let ghost before = out@.map_values(|a: EventAction| a@);
        proof {
            lemma_find_from_skip(v@, seq!['\n'], pos as nat, 0);
            lemma_find_from(v@, seq!['\n'], pos as nat);
        }
        let found = find_in(&v, &nl, pos);
        let (end, next) = match found {
            Some(i) => (i, i + 1),
            None => (n, n),
        };
        let mut stop = end;
        if end < n && stop > pos && v[stop - 1] == '\r' {
            stop = stop - 1;
        }
        let line = event.substring_char(pos, stop);
        let ghost piece = v@.subrange(pos as int, end as int);
        proof {
            if end < n {
                assert(rest.take(end - pos) == piece);
                assert(rest.skip(end - pos + 1) == v@.skip(next as int));
                assert(line@ == strip_cr(piece));
            } else {
                assert(rest == piece);
                assert(v@.skip(next as int).len() == 0);
                assert(line@ == piece);
            }
            assert(lines_spec(rest) == seq![line@] + lines_spec(v@.skip(next as int)));
            let ls = lines_spec(rest);
            assert(ls[0] == line@);
            assert(ls.drop_first() == lines_spec(v@.skip(next as int)));
        }
        match split_event(line) {
            Some((name, message)) => match wait_events_for_handle((name, message)) {
                Some(a) => {
                    out.push(a);
                    proof {
                        assert(out@.map_values(|a: EventAction| a@) == before.push(a@));
                    }
                },
                None => {},
            },
            None => {},
        }
        proof {
            assert(out@.map_values(|a: EventAction| a@) == before + line_actions(line@));
        }
        pos = next;
    }
    out
}


/// The text that `String::from_utf8_lossy` makes of `bytes`: the UTF-8
/// decoding, with U+FFFD in place of each ill-formed part.
pub uninterp spec fn utf8_lossy(bytes: Seq<u8>) -> Seq<char>;

/// `String::from_utf8_lossy`: the result is the name above applied to the
/// bytes, and for well-formed UTF-8 it is the plain decoding.
#[verifier::external_body]
pub(crate) fn decode_lossy(bytes: &[u8]) -> (s: String)
    ensures
        s@ == utf8_lossy(bytes@),
        valid_utf8(bytes@) ==> s@ == decode_utf8(bytes@),
{
    String::from_utf8_lossy(bytes).into_owned()
}

/// The text of the error that `String::from_utf8` reports for ill-formed
/// `bytes` (its `Display`: where the ill-formed sequence starts, and how
/// long it is).
pub uninterp spec fn utf8_error_display(bytes: Seq<u8>) -> Seq<char>;

/// `String::from_utf8`, with its error given by its text: succeeds exactly
/// on well-formed UTF-8, with its decoding; the error text is the name above
/// applied to the bytes.
#[verifier::external_body]
fn string_from_utf8(bytes: Vec<u8>) -> (r: Result<String, String>)
    ensures
        r is Ok <==> valid_utf8(bytes@),
        r matches Ok(s) ==> s@ == decode_utf8(bytes@),
        r matches Err(m) ==> m@ == utf8_error_display(bytes@),
{
    match String::from_utf8(bytes) {
        Ok(s) => Ok(s),
        Err(e) => Err(e.to_string()),
    }
}

/// The output that carries a failed command's message: standard error,
/// or standard output where nothing was written to standard error.
pub open spec fn failure_output(stdout: Seq<u8>, stderr: Seq<u8>) -> Seq<u8> {
    if stderr.len() == 0 {
        stdout
    } else {
        stderr
    }
}

/// What a `hyprctl dispatch` command returned, made from its exit status
/// and its two outputs: the output as text on success; on failure the
/// trimmed message of `failure_output`; on output that is not UTF-8, an
/// error that says so, with `String::from_utf8`'s error text.
pub fn hyprctl_dispatch_outcome(success: bool, stdout: Vec<u8>, stderr: Vec<u8>) -> (r: Result<
    String,
    ExecuteError,
>)
    ensures
        !success ==> (r matches Err(ExecuteError::FailedToExecute(cmd, why)) && cmd@
            == "hyprctl dispatch"@ && why@ == trim_spec(
            utf8_lossy(failure_output(stdout@, stderr@)),
        )),
        success && valid_utf8(stdout@) ==> (r matches Ok(out) && out@ == decode_utf8(stdout@)),
        success && !valid_utf8(stdout@) ==> (r matches Err(
            ExecuteError::FailedToExecute(cmd, why),
        ) && cmd@ == "hyprctl dispatch"@ && why@ == "Invalid UTF-8: "@ + utf8_error_display(
            stdout@,
        )),
{
    if !success {
        let text = if stderr.len() == 0 {
            decode_lossy(stdout.as_slice())
        } else {
            decode_lossy(stderr.as_slice())
        };
        let why = trim(text.as_str()).to_owned();
        return Err(ExecuteError::FailedToExecute("hyprctl dispatch".to_owned(), why));
    }
    match string_from_utf8(stdout) {
        Ok(out) => Ok(out),
        Err(e) => {
            let mut why = "Invalid UTF-8: ".to_owned();
            why.append(e.as_str());
            Err(ExecuteError::FailedToExecute("hyprctl dispatch".to_owned(), why))
        },
    }
}

/// The error for a failed `hyprctl` query: the message of
/// `failure_output`, untrimmed.
pub fn hyprctl_failure(stdout: &[u8], stderr: &[u8]) -> (r: ExecuteError)
    ensures
        r matches ExecuteError::FailedToExecute(cmd, why) && cmd@ == "hyprctl"@ && why@
            == utf8_lossy(failure_output(stdout@, stderr@)),
{
    let why = if stderr.len() == 0 {
        decode_lossy(stdout)
    } else {
        decode_lossy(stderr)
    };
    ExecuteError::FailedToExecute("hyprctl".to_owned(), why)
}

/// `bytes` read as UTF-8; `None` where they are not well-formed.
pub(crate) fn from_utf8_text(bytes: Vec<u8>) -> (r: Option<String>)
    ensures
        r is Some <==> valid_utf8(bytes@),
        r matches Some(s) ==> s@ == decode_utf8(bytes@),
{
    match string_from_utf8(bytes) {
        Ok(s) => Some(s),
        Err(_) => None,
    }
}

/// What a chunk of bytes read from the event socket calls for: the chunk
/// read as (lossy) UTF-8, then line by line.
pub fn handle_event_chunk(buf: &[u8]) -> (r: Vec<EventAction>)
    ensures
        r@.map_values(|a: EventAction| a@) == event_actions(utf8_lossy(buf@)),
{
    let text = decode_lossy(buf);
    handle_event(text.as_str())
}

/// The path of the compositor's event socket:
/// `<runtime dir>/hypr/<instance signature>/.socket2.sock`.
pub open spec fn socket_path(runtime_dir: Seq<char>, signature: Seq<char>) -> Seq<char> {
    path_join(path_join(path_join(runtime_dir, "hypr"@), signature), ".socket2.sock"@)
}

/// The path of the event socket, from the values of `XDG_RUNTIME_DIR` and
/// `HYPRLAND_INSTANCE_SIGNATURE`; `None` where either is missing.
pub fn get_socket_dir(runtime_dir: Option<&str>, signature: Option<&str>) -> (r: Option<String>)
    ensures
        match (runtime_dir, signature) {
            (Some(d), Some(g)) => r matches Some(p) && p@ == socket_path(d@, g@),
            _ => r is None,
        },
{
    let dir = match runtime_dir {
        Some(d) => d,
        None => {
            return None;
        },
    };
    let sig = match signature {
        Some(g) => g,
        None => {
            return None;
        },
    };
    let a = join_path(dir, "hypr");
    let b = join_path(a.as_str(), sig);
    Some(join_path(b.as_str(), ".socket2.sock"))
}

} // verus!
