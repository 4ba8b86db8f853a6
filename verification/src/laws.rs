//! Properties of the event handling that span calls or hold of every
//! input.
use vstd::prelude::*;
use crate::minimize::{
    WindowEventKind, focus_command, format_win_addr_spec, is_minimized, minimized_workspace_name,
    move_command, restore_commands, task_commands, top_command, window_index_from,
};
use crate::text::{
    find_from, int_decimal, int_value, is_white_space, split_once_spec, strip_leading, strip_trailing,
    trim_end_spec, trim_start_spec, lemma_find_from, lemma_find_from_least, lemma_int_decimal_value,
    lemma_lines_concat, lemma_trim_drop_white_last, lemma_trim_idempotent, lines_spec, occurs_at,
    starts_with_spec, strip_cr, trim_spec,
};
use crate::wheel::{
    EventActionView, WindowInfo, Workspace, event_action_spec, event_actions, line_actions,
    lines_actions, socket_path, split_event_spec,
};
use crate::x11_dpi_set::{focused_index_from, xft_dpi_line_spec};
use crate::sound::{bell_candidates, stereo_dir_path, theme_from_text};
use crate::minimize::minimize_target_spec;

verus! {

/// A formatted address starts with `0x`, and formatting it again leaves it
/// as it is.
pub proof fn format_win_addr_idempotent(raw: Seq<char>)
    ensures
        starts_with_spec(format_win_addr_spec(raw), "0x"@),
        format_win_addr_spec(format_win_addr_spec(raw)) == format_win_addr_spec(raw),
{
    let p = "0x"@;
    if !starts_with_spec(raw, p) {
        assert((p + raw).take(p.len() as int) == p);
    }
}


/// White space around an event line does not change how it splits.
pub proof fn split_event_ignores_surrounding_space(event: Seq<char>)
    ensures
        split_event_spec(trim_spec(event)) == split_event_spec(event),
{
    lemma_trim_idempotent(event);
}

/// A split event line is its name, `>>` and its payload, in that order, with
/// no `>>` in the name; a line does not split when it is blank or holds no
/// `>>`.
pub proof fn split_event_parts(event: Seq<char>)
    ensures
        match split_event_spec(event) {
            Some((name, message)) => {
                &&& name + ">>"@ + message == trim_spec(event)
                &&& forall|j: int| !#[trigger] occurs_at(name, ">>"@, j)
            },
            None => trim_spec(event).len() == 0 || forall|j: int|
                !#[trigger] occurs_at(trim_spec(event), ">>"@, j),
        },
{
    let t = trim_spec(event);
    let pat = ">>"@;
    reveal_strlit(">>");
    lemma_find_from(t, pat, 0);
    if t.len() != 0 {
        match find_from(t, pat, 0) {
            Some(i) => {
                let name = t.take(i as int);
                let message = t.skip((i + pat.len()) as int);
                assert(t.subrange(i as int, (i + pat.len()) as int) == pat);
                assert(name + pat + message == t);
                assert forall|j: int| !#[trigger] occurs_at(name, pat, j) by {
                    if occurs_at(name, pat, j) {
                        assert(name.subrange(j, j + pat.len()) == t.subrange(j, j + pat.len()));
                        assert(occurs_at(t, pat, j));
                        assert(false);
                    }
                }
            },
            None => {},
        }
    }
}

/// The actions of a sequence of lines followed by more lines are the
/// actions of the first followed by those of the second.
pub proof fn lines_actions_concat(x: Seq<Seq<char>>, y: Seq<Seq<char>>)
    ensures
        lines_actions(x + y) == lines_actions(x) + lines_actions(y),
    decreases x.len(),
{
    if x.len() == 0 {
        assert(x + y == y);
    } else {
        assert((x + y)[0] == x[0]);
        assert((x + y).drop_first() == x.drop_first() + y);
        lines_actions_concat(x.drop_first(), y);
    }
}

/// The event stream is handled line by line: what a chunk made of whole
/// lines followed by more text calls for is what each calls for, in order.
pub proof fn handle_event_concat(a: Seq<char>, b: Seq<char>)
    requires
        a.len() == 0 || a.last() == '\n',
    ensures
        event_actions(a + b) == event_actions(a) + event_actions(b),
{
    lemma_lines_concat(a, b);
    lines_actions_concat(lines_spec(a), lines_spec(b));
}

/// A carriage return at the end of a line does not change what the line
/// calls for.
proof fn line_actions_strip_cr(x: Seq<char>)
    ensures
        line_actions(strip_cr(x)) == line_actions(x),
{
    if x.len() > 0 && x.last() == '\r' {
        lemma_trim_drop_white_last(x);
    }
}

/// A final `'\n'` added to a chunk does not change what it calls for.
proof fn lines_actions_final_newline(a: Seq<char>)
    ensures
        lines_actions(lines_spec(a + seq!['\n'])) == lines_actions(lines_spec(a)),
    decreases a.len(),
{
    let nl = seq!['\n'];
    let an = a + nl;
    lemma_find_from(a, nl, 0);
    assert(occurs_at(an, nl, a.len() as int)) by {
        assert(an.subrange(a.len() as int, a.len() as int + 1) == nl);
    }
    match find_from(a, nl, 0) {
        Some(i) => {
            let i = i as int;
            assert(occurs_at(an, nl, i)) by {
                assert(an.subrange(i, i + 1) == a.subrange(i, i + 1));
            }
            assert forall|j: int| 0 <= j < i implies !#[trigger] occurs_at(an, nl, j) by {
                assert(an.subrange(j, j + 1) == a.subrange(j, j + 1));
                assert(!occurs_at(a, nl, j));
            }
            lemma_find_from_least(an, nl, 0, i as nat);
            let rest = a.skip(i + 1);
            assert(an.take(i) == a.take(i));
            assert(an.skip(i + 1) == rest + nl);
            lines_actions_final_newline(rest);
            let la = lines_spec(a);
            let lan = lines_spec(an);
            assert(la == seq![strip_cr(a.take(i))] + lines_spec(rest));
            assert(lan == seq![strip_cr(a.take(i))] + lines_spec(rest + nl));
            assert(la[0] == lan[0]);
            assert(la.drop_first() == lines_spec(rest));
            assert(lan.drop_first() == lines_spec(rest + nl));
            assert(lines_actions(lan) == line_actions(lan[0]) + lines_actions(lan.drop_first()));
            assert(lines_actions(la) == line_actions(la[0]) + lines_actions(la.drop_first()));
        },
        None => {
            assert forall|j: int| 0 <= j < a.len() implies !#[trigger] occurs_at(an, nl, j) by {
                assert(an.subrange(j, j + 1) == a.subrange(j, j + 1));
                assert(!occurs_at(a, nl, j));
            }
            lemma_find_from_least(an, nl, 0, a.len());
            assert(an.take(a.len() as int) == a);
            assert(an.skip(a.len() as int + 1).len() == 0);
            let lan = lines_spec(an);
            assert(lan == seq![strip_cr(a)] + lines_spec(an.skip(a.len() as int + 1)));
            assert(lan[0] == strip_cr(a));
            assert(lan.drop_first().len() == 0);
            line_actions_strip_cr(a);
            assert(lines_actions(lan) == line_actions(lan[0]) + lines_actions(lan.drop_first()));
            assert(lines_actions(lan.drop_first()).len() == 0);
            if a.len() == 0 {
                assert(strip_cr(a) == a);
                assert(line_actions(a) == Seq::<EventActionView>::empty());
            } else {
                let la = lines_spec(a);
                assert(la == seq![a]);
                assert(la[0] == a);
                assert(la.drop_first().len() == 0);
                assert(lines_actions(la) == line_actions(la[0]) + lines_actions(la.drop_first()));
            }
        },
    }
}

/// Lines are handled one by one and independently: what two chunks joined
/// by a `'\n'` call for is what the first calls for followed by what the
/// second calls for.
pub proof fn handle_event_joined(a: Seq<char>, b: Seq<char>)
    ensures
        event_actions(a + "\n"@ + b) == event_actions(a) + event_actions(b),
{
    reveal_strlit("\n");
    let an = a + seq!['\n'];
    assert(a + "\n"@ + b == an + b);
    lemma_lines_concat(an, b);
    lines_actions_concat(lines_spec(an), lines_spec(b));
    lines_actions_final_newline(a);
}

/// A minimize event toggles: it sends the focused window that stands
/// outside the minimized workspace there (without following it), and it
/// brings back a window that stands there to the active workspace.
pub proof fn minimize_toggles(addr: Seq<char>, active: Workspace, shown: WindowInfo, hidden: WindowInfo)
    requires
        shown.focus_history_id == 0,
        !is_minimized(shown),
        is_minimized(hidden),
    ensures
        task_commands(WindowEventKind::Minimize, addr, active, shown) == seq![
            move_command(minimized_workspace_name(), false, addr),
        ],
        task_commands(WindowEventKind::Minimize, addr, active, hidden) == restore_commands(
            active,
            addr,
        ),
{
}

/// Activation and urgency leave alone every window that is not in the
/// minimized workspace.
pub proof fn activate_and_urgent_touch_only_minimized(
    addr: Seq<char>,
    active: Workspace,
    window: WindowInfo,
)
    requires
        !is_minimized(window),
    ensures
        task_commands(WindowEventKind::Activate, addr, active, window) == Seq::<Seq<char>>::empty(),
        task_commands(WindowEventKind::Urgent, addr, active, window) == Seq::<Seq<char>>::empty(),
{
}

/// The window that a lookup by address finds is the first one at that
/// address; a lookup finds none only where no window is at the address.
pub proof fn window_lookup_finds_first(clients: Seq<WindowInfo>, addr: Seq<char>, from: nat)
    ensures
        match window_index_from(clients, addr, from) {
            Some(i) => from <= i < clients.len() && clients[i as int].address@ == addr && forall|
                j: int,
            | from <= j < i ==> #[trigger] clients[j].address@ != addr,
            None => forall|j: int| from <= j < clients.len() ==> #[trigger] clients[j].address@ != addr,
        },
    decreases clients.len() - from,
{
    if from < clients.len() && clients[from as int].address@ != addr {
        window_lookup_finds_first(clients, addr, from + 1);
    }
}


/// The action of an event depends on its name alone, except for the window
/// that the window events carry in their payload: a `bell` event rings the
/// bell, and a `configreloaded` event sets the resolution again, whatever
/// their payload.
pub proof fn event_action_ignores_other_payloads(name: Seq<char>, m1: Seq<char>, m2: Seq<char>)
    ensures
        name != "urgent"@ && name != "minimized"@ && name != "activewindowv2"@
            ==> event_action_spec(name, m1) == event_action_spec(name, m2),
        event_action_spec("bell"@, m1) == Some(EventActionView::Bell),
        event_action_spec("configreloaded"@, m1) == Some(EventActionView::ReloadConfig),
{
    reveal_strlit("urgent");
    reveal_strlit("minimized");
    reveal_strlit("activewindowv2");
    reveal_strlit("bell");
    reveal_strlit("configreloaded");
    assert("bell"@ != "urgent"@ && "bell"@ != "minimized"@ && "bell"@ != "activewindowv2"@) by {
        assert("bell"@.len() != "urgent"@.len());
        assert("bell"@.len() != "minimized"@.len());
        assert("bell"@.len() != "activewindowv2"@.len());
    }
    assert("configreloaded"@ != "urgent"@ && "configreloaded"@ != "minimized"@
        && "configreloaded"@ != "activewindowv2"@ && "configreloaded"@ != "bell"@) by {
        assert("configreloaded"@.len() != "urgent"@.len());
        assert("configreloaded"@.len() != "minimized"@.len());
        assert("configreloaded"@[0] != "activewindowv2"@[0]);
        assert("configreloaded"@.len() != "bell"@.len());
    }
}

/// A minimize event on a window outside the minimized workspace hides it
/// only if it is the focused window (`focus_history_id` 0); any other such
/// window is focused and raised instead.
pub proof fn minimize_hides_only_the_focused_window(
    addr: Seq<char>,
    active: Workspace,
    window: WindowInfo,
)
    requires
        !is_minimized(window),
    ensures
        window.focus_history_id == 0 ==> task_commands(
            WindowEventKind::Minimize,
            addr,
            active,
            window,
        ) == seq![move_command(minimized_workspace_name(), false, addr)],
        window.focus_history_id != 0 ==> task_commands(
            WindowEventKind::Minimize,
            addr,
            active,
            window,
        ) == seq![focus_command(addr), top_command(addr)],
{
}

/// The monitor search finds the first focused monitor whenever one is
/// focused, and finds none only where none is.
pub proof fn focused_monitor_is_the_first_focused(focused: Seq<bool>, from: nat)
    ensures
        (exists|k: int| from <= k < focused.len() && focused[k]) ==> (focused_index_from(
            focused,
            from,
        ) matches Some(i) && from <= i < focused.len() && focused[i as int] && forall|j: int|
            from <= j < i ==> !#[trigger] focused[j]),
        focused_index_from(focused, from) is None ==> forall|j: int|
            from <= j < focused.len() ==> !#[trigger] focused[j],
    decreases focused.len() - from,
{
    if from < focused.len() && !focused[from as int] {
        focused_monitor_is_the_first_focused(focused, from + 1);
        if exists|k: int| from <= k < focused.len() && focused[k] {
            let k = choose|k: int| from <= k < focused.len() && focused[k];
            assert(k != from);
            assert(from + 1 <= k);
        }
    }
}

/// The resource line carries the resolution it is given, unchanged: after
/// its `Xft.dpi: ` prefix stands a numeral that denotes exactly `dpi`.
pub proof fn xft_dpi_line_carries_the_dpi(dpi: int)
    ensures
        xft_dpi_line_spec(dpi).take("Xft.dpi: "@.len() as int) == "Xft.dpi: "@,
        int_value(xft_dpi_line_spec(dpi).skip("Xft.dpi: "@.len() as int)) == dpi,
{
    let p = "Xft.dpi: "@;
    lemma_int_decimal_value(dpi);
    let line = xft_dpi_line_spec(dpi);
    assert(line.take(p.len() as int) == p);
    assert(line.skip(p.len() as int) == crate::text::int_decimal(dpi));
}

/// The socket path is `<runtime dir>/hypr/<signature>/.socket2.sock`, the
/// whole signature standing as one path component, wherever the runtime
/// directory does not end with `/` and the signature is a nonempty
/// relative name without a trailing `/`.
pub proof fn socket_path_keeps_the_signature(runtime_dir: Seq<char>, signature: Seq<char>)
    requires
        runtime_dir.len() > 0,
        runtime_dir.last() != '/',
        signature.len() > 0,
        signature[0] != '/',
        signature.last() != '/',
    ensures
        socket_path(runtime_dir, signature) == runtime_dir + "/hypr/"@ + signature
            + "/.socket2.sock"@,
{
    reveal_strlit("hypr");
    reveal_strlit("/");
    reveal_strlit(".socket2.sock");
    reveal_strlit("/hypr/");
    reveal_strlit("/.socket2.sock");
    let a = runtime_dir + "/"@ + "hypr"@;
    assert(a.last() == 'r');
    let b = a + "/"@ + signature;
    assert(b.last() == signature.last());
    assert(".socket2.sock"@[0] == '.');
    assert(b + "/"@ + ".socket2.sock"@ == runtime_dir + "/hypr/"@ + signature + "/.socket2.sock"@);
}


/// A formatted address keeps the whole raw address: it is the raw address
/// itself, or the raw address behind a `0x`.
pub proof fn format_win_addr_keeps_the_address(raw: Seq<char>)
    ensures
        format_win_addr_spec(raw).len() >= raw.len(),
        format_win_addr_spec(raw).skip(format_win_addr_spec(raw).len() - raw.len()) == raw,
        format_win_addr_spec(raw).len() <= raw.len() + 2,
{
    reveal_strlit("0x");
    let f = format_win_addr_spec(raw);
    if f != raw {
        assert(f == "0x"@ + raw);
        assert(f.skip(2) == raw);
    } else {
        assert(f.skip(0) == raw);
    }
}

/// A `minimized` event is about the window named before the first `,` of
/// its payload, whatever follows.
pub proof fn minimize_target_is_before_the_comma(a: Seq<char>, b: Seq<char>)
    requires
        !a.contains(','),
    ensures
        minimize_target_spec(a + ","@ + b) == Some(format_win_addr_spec(a)),
{
    reveal_strlit(",");
    let s = a + ","@ + b;
    let pat = ","@;
    assert(occurs_at(s, pat, a.len() as int)) by {
        assert(s.subrange(a.len() as int, a.len() as int + 1) == pat);
    }
    assert forall|j: int| 0 <= j < a.len() implies !#[trigger] occurs_at(s, pat, j) by {
        if occurs_at(s, pat, j) {
            assert(s.subrange(j, j + 1)[0] == a[j]);
            assert(a.contains(a[j]));
        }
    }
    lemma_find_from_least(s, pat, 0, a.len());
    assert(s.take(a.len() as int) == a);
    assert(split_once_spec(s, pat) == Some((a, s.skip(a.len() as int + 1))));
}

/// Restoring moves the window, followed by the focus, to the workspace
/// whose number is the active workspace's id, then raises it.
pub proof fn restore_goes_to_the_active_workspace(active: Workspace, addr: Seq<char>)
    ensures
        exists|w: Seq<char>|
            #![trigger int_value(w)]
            int_value(w) == active.id && restore_commands(active, addr) == seq![
                move_command(w, true, addr),
                top_command(addr),
            ],
{
    lemma_int_decimal_value(active.id as int);
    let w = int_decimal(active.id as int);
    assert(int_value(w) == active.id);
}

/// An urgent event restores a minimized window whatever its focus; an
/// activation restores a minimized window only when it has the focus.
pub proof fn urgency_and_activation_restore(addr: Seq<char>, active: Workspace, window: WindowInfo)
    requires
        is_minimized(window),
    ensures
        task_commands(WindowEventKind::Urgent, addr, active, window) == restore_commands(
            active,
            addr,
        ),
        window.focus_history_id == 0 ==> task_commands(
            WindowEventKind::Activate,
            addr,
            active,
            window,
        ) == restore_commands(active, addr),
        window.focus_history_id != 0 ==> task_commands(
            WindowEventKind::Activate,
            addr,
            active,
            window,
        ) == Seq::<Seq<char>>::empty(),
{
}

/// A theme name that `gsettings` prints in single quotes is read as the
/// name between them.
pub proof fn quoted_theme_is_unquoted(t: Seq<char>)
    requires
        t.len() > 0,
        t[0] != '\'',
        t.last() != '\'',
    ensures
        theme_from_text("'"@ + t + "'"@) == t,
{
    reveal_strlit("'");
    let q = "'"@ + t + "'"@;
    assert(!is_white_space('\''));
    assert(trim_start_spec(q) == q);
    assert(q.last() == '\'');
    assert(trim_end_spec(q) == q);
    assert(q[0] == '\'');
    assert(q.drop_first() == t + "'"@);
    assert((t + "'"@)[0] == t[0]);
    assert(strip_leading(t + "'"@, '\'') == t + "'"@);
    assert(strip_leading(q, '\'') == t + "'"@);
    assert((t + "'"@).drop_last() == t);
    assert(strip_trailing(t, '\'') == t);
    assert(strip_trailing(t + "'"@, '\'') == t);
}

/// The bell files of a theme are `<base>/<theme>/stereo/bell.oga`, `.ogg`
/// and `.wav`, in that order, the whole theme name standing as one path
/// component, wherever the base directory does not end with `/` and the
/// theme is a nonempty relative name without a trailing `/`.
pub proof fn bell_files_of_a_theme(base: Seq<char>, theme: Seq<char>)
    requires
        base.len() > 0,
        base.last() != '/',
        theme.len() > 0,
        theme[0] != '/',
        theme.last() != '/',
    ensures
        stereo_dir_path(base, theme) == base + "/"@ + theme + "/stereo"@,
        bell_candidates(stereo_dir_path(base, theme)) == seq![
            base + "/"@ + theme + "/stereo/bell.oga"@,
            base + "/"@ + theme + "/stereo/bell.ogg"@,
            base + "/"@ + theme + "/stereo/bell.wav"@,
        ],
{
    reveal_strlit("/");
    reveal_strlit("stereo");
    reveal_strlit("/stereo");
    reveal_strlit("bell.oga");
    reveal_strlit("bell.ogg");
    reveal_strlit("bell.wav");
    reveal_strlit("/stereo/bell.oga");
    reveal_strlit("/stereo/bell.ogg");
    reveal_strlit("/stereo/bell.wav");
    let a = base + "/"@ + theme;
    assert(a.last() == theme.last());
    let d = a + "/"@ + "stereo"@;
    assert(d == base + "/"@ + theme + "/stereo"@);
    assert(d.last() == 'o');
    assert(d + "/"@ + "bell.oga"@ == base + "/"@ + theme + "/stereo/bell.oga"@);
    assert(d + "/"@ + "bell.ogg"@ == base + "/"@ + theme + "/stereo/bell.ogg"@);
    assert(d + "/"@ + "bell.wav"@ == base + "/"@ + theme + "/stereo/bell.wav"@);
}

} // verus!
