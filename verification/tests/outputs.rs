use hypr_handled::sound::{
    find_sound_file, find_sound_file_in_dir, find_sound_file_in_sys_dir,
    find_sound_file_in_user_dir, get_current_sound_theme, SoundLookup, SoundSearch,
};
use hypr_handled::wheel::{hyprctl_dispatch_outcome, hyprctl_failure, ExecuteError};
use hypr_handled::x11_dpi_set::{get_monitor_info, xft_dpi_line, xrdb_failure};

fn failed(r: Result<String, ExecuteError>) -> (String, String) {
    match r {
        Err(ExecuteError::FailedToExecute(cmd, why)) => (cmd, why),
        other => panic!("unexpected {other:?}"),
    }
}

#[test]
fn dispatch_success_returns_the_output() {
    let r = hyprctl_dispatch_outcome(true, b"ok\n".to_vec(), b"warn".to_vec());
    assert_eq!(r.unwrap(), "ok\n");
}

#[test]
fn dispatch_failure_prefers_stderr_and_trims() {
    let (cmd, why) = failed(hyprctl_dispatch_outcome(false, b"out".to_vec(), b"  bad window\n".to_vec()));
    assert_eq!((cmd.as_str(), why.as_str()), ("hyprctl dispatch", "bad window"));
    let (_, why) = failed(hyprctl_dispatch_outcome(false, b" no such window \n".to_vec(), vec![]));
    assert_eq!(why, "no such window");
    let (_, why) = failed(hyprctl_dispatch_outcome(false, vec![b'x', 0xff], vec![]));
    assert_eq!(why, "x\u{fffd}");
}

#[test]
fn dispatch_rejects_output_that_is_not_utf8() {
    let bytes = vec![b'o', 0xc0, b'k'];
    let (cmd, why) = failed(hyprctl_dispatch_outcome(true, bytes.clone(), vec![]));
    assert_eq!(cmd, "hyprctl dispatch");
    let std_text = String::from_utf8(bytes).unwrap_err().to_string();
    assert_eq!(why, format!("Invalid UTF-8: {std_text}"));
    assert_eq!(why, "Invalid UTF-8: invalid utf-8 sequence of 1 bytes from index 1");
}

#[test]
fn query_failure_keeps_the_message_as_it_is() {
    match hyprctl_failure(b" out \n", b"") {
        ExecuteError::FailedToExecute(cmd, why) => {
            assert_eq!((cmd.as_str(), why.as_str()), ("hyprctl", " out \n"))
        }
        other => panic!("unexpected {other:?}"),
    }
    match hyprctl_failure(b"out", b"err") {
        ExecuteError::FailedToExecute(_, why) => assert_eq!(why, "err"),
        other => panic!("unexpected {other:?}"),
    }
}

#[test]
fn error_messages() {
    let e = ExecuteError::FailedToExecute("hyprctl".to_string(), "gone".to_string());
    assert_eq!(e.message(), "Failed to execute 'hyprctl': gone");
    let e = ExecuteError::FailedToFind("active monitor".to_string());
    assert_eq!(e.message(), "Failed to find active monitor");
    let json = serde_json::from_str::<i32>("x").unwrap_err();
    let text = json.to_string();
    let e = ExecuteError::JsonReadError(json);
    assert_eq!(e.message(), format!("Failed to read json: {text}"));
}

#[test]
fn sound_theme_is_unquoted() {
    assert_eq!(get_current_sound_theme(true, b"'Yaru'\n".to_vec(), b"").unwrap(), "Yaru");
    assert_eq!(get_current_sound_theme(true, b"  ''oxygen'' ".to_vec(), b"").unwrap(), "oxygen");
    assert_eq!(get_current_sound_theme(true, b"plain".to_vec(), b"").unwrap(), "plain");
}

#[test]
fn empty_sound_theme_falls_back_to_freedesktop() {
    assert_eq!(get_current_sound_theme(true, b"''\n".to_vec(), b"").unwrap(), "freedesktop");
    assert_eq!(get_current_sound_theme(true, b"\n".to_vec(), b"").unwrap(), "freedesktop");
}

#[test]
fn sound_theme_errors() {
    assert_eq!(
        get_current_sound_theme(false, b"'Yaru'".to_vec(), b"No such schema").unwrap_err(),
        "No such schema"
    );
    assert_eq!(get_current_sound_theme(true, vec![0xff], b"").unwrap_err(), "Invaild UTF-8");
}

fn lookup(dir: &str) -> SoundLookup {
    SoundLookup {
        stereo_dir: dir.to_string(),
        candidates: vec![format!("{dir}/bell.oga"), format!("{dir}/bell.ogg"), format!("{dir}/bell.wav")],
    }
}

#[test]
fn sound_lookups() {
    assert_eq!(
        find_sound_file_in_dir("/usr/share/sounds", "freedesktop"),
        lookup("/usr/share/sounds/freedesktop/stereo")
    );
    assert_eq!(find_sound_file_in_sys_dir("Yaru"), lookup("/usr/share/sounds/Yaru/stereo"));
    assert_eq!(
        find_sound_file_in_user_dir(Some("/home/me"), "Yaru"),
        lookup("/home/me/.local/share/sounds/Yaru/stereo")
    );
    assert_eq!(
        find_sound_file_in_user_dir(None, "Yaru"),
        lookup("null/.local/share/sounds/Yaru/stereo")
    );
    assert_eq!(find_sound_file_in_dir("/base/", "/abs/theme"), lookup("/abs/theme/stereo"));
    assert_eq!(
        find_sound_file(Some("/h"), "t"),
        vec![lookup("/h/.local/share/sounds/t/stereo"), lookup("/usr/share/sounds/t/stereo")]
    );
}

#[test]
fn dpi_line() {
    assert_eq!(xft_dpi_line(96), "Xft.dpi: 96");
    assert_eq!(xft_dpi_line(144), "Xft.dpi: 144");
    assert_eq!(xft_dpi_line(0), "Xft.dpi: 0");
    assert_eq!(xft_dpi_line(-5), "Xft.dpi: -5");
}

#[test]
fn focused_monitor() {
    assert_eq!(get_monitor_info(&vec![false, true, true]).unwrap(), 1);
    match get_monitor_info(&vec![false, false]) {
        Err(ExecuteError::FailedToFind(m)) => assert_eq!(m, "active monitor"),
        other => panic!("unexpected {other:?}"),
    }
    assert!(get_monitor_info(&vec![]).is_err());
}

/// Runs a search against a set of existing paths, as the program does
/// against the file system, and records every path it checks.
fn run_search(lookups: Vec<SoundLookup>, existing: &[&str]) -> (Option<String>, Vec<String>) {
    let mut search = SoundSearch::new(lookups);
    let mut checked = Vec::new();
    while let Some(path) = search.probe() {
        checked.push(path.clone());
        if let Some(found) = search.advance(existing.contains(&path.as_str())) {
            return (Some(found), checked);
        }
    }
    (None, checked)
}

#[test]
fn sound_search_takes_the_first_existing_candidate() {
    let lookups = find_sound_file(Some("/h"), "t");
    let user = "/h/.local/share/sounds/t/stereo";
    let sys = "/usr/share/sounds/t/stereo";
    let (found, checked) = run_search(
        lookups,
        &[user, "/h/.local/share/sounds/t/stereo/bell.ogg", sys, "/usr/share/sounds/t/stereo/bell.oga"],
    );
    assert_eq!(found.as_deref(), Some("/h/.local/share/sounds/t/stereo/bell.ogg"));
    assert_eq!(checked, vec![
        user.to_string(),
        format!("{user}/bell.oga"),
        format!("{user}/bell.ogg"),
    ]);
}

#[test]
fn sound_search_skips_missing_directories() {
    let lookups = find_sound_file(Some("/h"), "t");
    let sys = "/usr/share/sounds/t/stereo";
    // The user's file is there, but its directory is not reported: it is not tried.
    let (found, checked) =
        run_search(lookups, &["/h/.local/share/sounds/t/stereo/bell.oga", sys, "/usr/share/sounds/t/stereo/bell.wav"]);
    assert_eq!(found.as_deref(), Some("/usr/share/sounds/t/stereo/bell.wav"));
    assert_eq!(checked.len(), 5);
}

#[test]
fn sound_search_can_find_nothing() {
    let user = "/h/.local/share/sounds/t/stereo";
    let (found, checked) = run_search(find_sound_file(Some("/h"), "t"), &[user]);
    assert_eq!(found, None);
    assert_eq!(checked.len(), 5);
    let (found, checked) = run_search(vec![], &[]);
    assert_eq!((found, checked.len()), (None, 0));
}

#[test]
fn xrdb_failure_reports_stderr() {
    match xrdb_failure(b"xrdb: can't open display\n") {
        ExecuteError::FailedToExecute(c, m) => {
            assert_eq!((c.as_str(), m.as_str()), ("xrdp", "xrdb: can't open display\n"))
        }
        other => panic!("unexpected {other:?}"),
    }
    match xrdb_failure(&[0xfe]) {
        ExecuteError::FailedToExecute(_, m) => assert_eq!(m, "\u{fffd}"),
        other => panic!("unexpected {other:?}"),
    }
}
