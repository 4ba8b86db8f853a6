//! The terminal bell: which sound theme is set, and where its bell sound
//! may stand.
use vstd::prelude::*;
use vstd::utf8::{decode_utf8, valid_utf8};
use crate::text::{
    join_path, path_join, strip_leading, strip_trailing, trim, trim_char_matches, trim_spec,
};
use crate::wheel::{decode_lossy, from_utf8_text, utf8_lossy};

verus! {

/// The theme name that `gsettings` printed: trimmed of white space, then of
/// the single quotes around it; `freedesktop` where nothing is left.
pub open spec fn theme_from_text(text: Seq<char>) -> Seq<char> {
    let theme = strip_trailing(strip_leading(trim_spec(text), '\''), '\'');
    if theme.len() == 0 {
        "freedesktop"@
    } else {
        theme
    }
}

/// The sound theme, from the exit status and outputs of
/// `gsettings get org.gnome.desktop.sound theme-name`; `Err` holds the
/// reason of a failure: the error output of a failed command, or a note
/// that the output is not UTF-8.
pub fn get_current_sound_theme(success: bool, stdout: Vec<u8>, stderr: &[u8]) -> (r: Result<
    String,
    String,
>)
    ensures
        !success ==> (r matches Err(why) && why@ == utf8_lossy(stderr@)),
        success && !valid_utf8(stdout@) ==> (r matches Err(why) && why@ == "Invaild UTF-8"@),
        success && valid_utf8(stdout@) ==> (r matches Ok(theme) && theme@ == theme_from_text(
            decode_utf8(stdout@),
        )),
{
    if !success {
        return Err(decode_lossy(stderr));
    }
    let text = match from_utf8_text(stdout) {
        Some(t) => t,
        None => {
            return Err("Invaild UTF-8".to_owned());
        },
    };
    let theme = trim_char_matches(trim(text.as_str()), '\'');
    if theme.is_empty() {
        Ok("freedesktop".to_owned())
    } else {
        Ok(theme.to_owned())
    }
}

/// Where to look for a bell sound under one base directory: the theme's
/// `stereo` directory, and the files in it to try, in order.
#[derive(Debug, PartialEq, Eq)]
pub struct SoundLookup {
    pub stereo_dir: String,
    pub candidates: Vec<String>,
}

/// The `stereo` directory of `theme` under `base_dir`.
pub open spec fn stereo_dir_path(base_dir: Seq<char>, theme: Seq<char>) -> Seq<char> {
    path_join(path_join(base_dir, theme), "stereo"@)
}

/// The bell files to try in `dir`, in order.
pub open spec fn bell_candidates(dir: Seq<char>) -> Seq<Seq<char>> {
    seq![path_join(dir, "bell.oga"@), path_join(dir, "bell.ogg"@), path_join(dir, "bell.wav"@)]
}

/// Whether `l` is the lookup of `theme` under `base_dir`.
pub open spec fn is_lookup(l: SoundLookup, base_dir: Seq<char>, theme: Seq<char>) -> bool {
    &&& l.stereo_dir@ == stereo_dir_path(base_dir, theme)
    &&& l.candidates@.map_values(|s: String| s@) == bell_candidates(stereo_dir_path(base_dir, theme))
}

/// The directory of user sounds, under the home directory `home`
/// (`null` where `HOME` is not set).
pub open spec fn user_sound_dir(home: Option<Seq<char>>) -> Seq<char> {
    match home {
        Some(h) => path_join(h, ".local/share/sounds"@),
        None => path_join("null"@, ".local/share/sounds"@),
    }
}

/// Where to look for the bell of `theme` under `base_dir`.
pub fn find_sound_file_in_dir(base_dir: &str, theme: &str) -> (r: SoundLookup)
    ensures
        is_lookup(r, base_dir@, theme@),
{
    let themed = join_path(base_dir, theme);
    let stereo_dir = join_path(themed.as_str(), "stereo");
    let mut candidates: Vec<String> = Vec::new();
    candidates.push(join_path(stereo_dir.as_str(), "bell.oga"));
    candidates.push(join_path(stereo_dir.as_str(), "bell.ogg"));
    candidates.push(join_path(stereo_dir.as_str(), "bell.wav"));
    assert(candidates@.map_values(|s: String| s@) =~= bell_candidates(stereo_dir@));
    SoundLookup { stereo_dir, candidates }
}

/// Where to look for the bell of `theme` among the user's sounds, `home`
/// being the value of `HOME`.
pub fn find_sound_file_in_user_dir(home: Option<&str>, theme: &str) -> (r: SoundLookup)
    ensures
        is_lookup(
            r,
            user_sound_dir(
                match home {
                    Some(h) => Some(h@),
                    None => None,
                },
            ),
            theme@,
        ),
{
    let home_dir = match home {
        Some(h) => h,
        None => "null",
    };
    let user_dir = join_path(home_dir, ".local/share/sounds");
    find_sound_file_in_dir(user_dir.as_str(), theme)
}

/// Where to look for the bell of `theme` among the system's sounds.
pub fn find_sound_file_in_sys_dir(theme: &str) -> (r: SoundLookup)
    ensures
        is_lookup(r, "/usr/share/sounds"@, theme@),
{
    find_sound_file_in_dir("/usr/share/sounds", theme)
}

/// Where to look for the bell of `theme`, in order: the user's sounds,
/// then the system's.
pub fn find_sound_file(home: Option<&str>, theme: &str) -> (r: Vec<SoundLookup>)
    ensures
        r@.len() == 2,
        is_lookup(
            r@[0],
            user_sound_dir(
                match home {
                    Some(h) => Some(h@),
                    None => None,
                },
            ),
            theme@,
        ),
        is_lookup(r@[1], "/usr/share/sounds"@, theme@),
{
    let mut r: Vec<SoundLookup> = Vec::new();
    r.push(find_sound_file_in_user_dir(home, theme));
    r.push(find_sound_file_in_sys_dir(theme));
    r
}


/// The path that a search standing at lookup `l` (and at candidate `c`
/// within it, or at its directory for `None`) checks next; `None` once the
/// search has run past its lookups.
pub open spec fn probe_path(ls: Seq<SoundLookup>, l: int, c: Option<int>) -> Option<Seq<char>> {
    if 0 <= l < ls.len() {
        match c {
            None => Some(ls[l].stereo_dir@),
            Some(k) => if 0 <= k < ls[l].candidates@.len() {
                Some(ls[l].candidates@[k]@)
            } else {
                None
            },
        }
    } else {
        None
    }
}

/// Where a search goes after the check of its current path came back
/// `exists`, while it has not found a file: into a directory that exists
/// (at its first candidate), on to the next candidate, or on to the next
/// lookup.
pub open spec fn next_position(ls: Seq<SoundLookup>, l: int, c: Option<int>, exists: bool) -> (
    int,
    Option<int>,
) {
    if probe_path(ls, l, c) is None {
        (ls.len() as int, None)
    } else {
        match c {
            None => if exists && ls[l].candidates@.len() > 0 {
                (l, Some(0))
            } else {
                (l + 1, None)
            },
            Some(k) => if k + 1 < ls[l].candidates@.len() {
                (l, Some(k + 1))
            } else {
                (l + 1, None)
            },
        }
    }
}

/// A search for the bell file through lookups, in order: for each, its
/// directory first, then, where it exists, its candidates until one
/// exists. The caller checks each path that `probe` names and hands the
/// answer to `advance`.
pub struct SoundSearch {
    pub lookups: Vec<SoundLookup>,
    pub lookup: usize,
    pub candidate: Option<usize>,
}

impl SoundSearch {
    /// A search that starts at the directory of the first lookup.
    pub fn new(lookups: Vec<SoundLookup>) -> (r: SoundSearch)
        ensures
            r.lookups@ == lookups@,
            r.lookup == 0,
            r.candidate is None,
    {
        SoundSearch { lookups, lookup: 0, candidate: None }
    }

    /// The path to check next; `None` once every lookup has been tried.
    pub fn probe(&self) -> (r: Option<String>)
        ensures
            match probe_path(
                self.lookups@,
                self.lookup as int,
                match self.candidate {
                    Some(k) => Some(k as int),
                    None => None,
                },
            ) {
                Some(p) => r matches Some(s) && s@ == p,
                None => r is None,
            },
    {
        if self.lookup >= self.lookups.len() {
            return None;
        }
        let l = &self.lookups[self.lookup];
        match self.candidate {
            None => Some(l.stereo_dir.clone()),
            Some(k) => if k < l.candidates.len() {
                Some(l.candidates[k].clone())
            } else {
                None
            },
        }
    }

    /// Takes the answer to the current check: the file found, where the
    /// current path is a candidate that exists; otherwise `None`, and the
    /// search moves on as `next_position` says.
    pub fn advance(&mut self, exists: bool) -> (r: Option<String>)
        ensures
            final(self).lookups@ == old(self).lookups@,
            ({
                let c = match old(self).candidate {
                    Some(k) => Some(k as int),
                    None => None,
                };
                let p = probe_path(old(self).lookups@, old(self).lookup as int, c);
                if exists && c is Some && p is Some {
                    r matches Some(f) && f@ == p->Some_0 && final(self).lookup == old(self).lookup
                        && final(self).candidate == old(self).candidate
                } else {
                    let (l, k) = next_position(old(self).lookups@, old(self).lookup as int, c, exists);
                    &&& r is None
                    &&& final(self).lookup == l
                    &&& match k {
                        Some(k) => final(self).candidate matches Some(j) && j == k,
                        None => final(self).candidate is None,
                    }
                }
            }),
    {
        let n = self.lookups.len();
        if self.lookup >= n {
            self.lookup = n;
            self.candidate = None;
            return None;
        }
        let count = self.lookups[self.lookup].candidates.len();
        match self.candidate {
            None => {
                if exists && count > 0 {
                    self.candidate = Some(0);
                } else {
                    self.lookup = self.lookup + 1;
                }
                None
            },
            Some(k) => {
                if k >= count {
                    self.lookup = n;
                    self.candidate = None;
                    return None;
                }
                if exists {
                    return Some(self.lookups[self.lookup].candidates[k].clone());
                }
                if k + 1 < count {
                    self.candidate = Some(k + 1);
                } else {
                    self.lookup = self.lookup + 1;
                    self.candidate = None;
                }
                None
            },
        }
    }
}

} // verus!
