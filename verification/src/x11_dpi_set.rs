//! The X font resolution: which monitor sets it, and the resource line
//! that carries it.
use vstd::prelude::*;
use crate::text::{i32_to_decimal, int_decimal};
use crate::wheel::{ExecuteError, decode_lossy, utf8_lossy};

verus! {

/// The X resource line that sets the font resolution to `dpi`.
pub open spec fn xft_dpi_line_spec(dpi: int) -> Seq<char> {
    "Xft.dpi: "@ + int_decimal(dpi)
}

/// The first index at or after `from` of a focused monitor.
pub open spec fn focused_index_from(focused: Seq<bool>, from: nat) -> Option<nat>
    decreases focused.len() - from,
{
    if from >= focused.len() {
        None
    } else if focused[from as int] {
        Some(from)
    } else {
        focused_index_from(focused, from + 1)
    }
}

/// The X resource line that sets the font resolution to `xft_dpi`.
pub fn xft_dpi_line(xft_dpi: i32) -> (r: String)
    ensures
        r@ == xft_dpi_line_spec(xft_dpi as int),
{
    let mut r = "Xft.dpi: ".to_owned();
    r.append(i32_to_decimal(xft_dpi).as_str());
    r
}

/// The monitor that has the focus, given whether each monitor the
/// compositor reports has it: the first such index, or `FailedToFind`
/// (`active monitor`) when none has.
pub fn get_monitor_info(focused: &Vec<bool>) -> (r: Result<usize, ExecuteError>)
    ensures
        match focused_index_from(focused@, 0) {
            Some(i) => r matches Ok(k) && k == i,
            None => r matches Err(ExecuteError::FailedToFind(m)) && m@ == "active monitor"@,
        },
{
    let n = focused.len();
    let mut i: usize = 0;
    while i < n
        invariant
            i <= n == focused@.len(),
            focused_index_from(focused@, 0) == focused_index_from(focused@, i as nat),
        decreases n - i,
    {
        if focused[i] {
            return Ok(i);
        }
        i = i + 1;
    }
    Err(ExecuteError::FailedToFind("active monitor".to_owned()))
}

/// The error for a failed `xrdb -merge`: its error output as text, under
/// the name `xrdp` (the name the program has always reported it under).
pub fn xrdb_failure(stderr: &[u8]) -> (r: ExecuteError)
    ensures
        r matches ExecuteError::FailedToExecute(c, m) && c@ == "xrdp"@ && m@ == utf8_lossy(stderr@),
{
    ExecuteError::FailedToExecute("xrdp".to_owned(), decode_lossy(stderr))
}

} // verus!
