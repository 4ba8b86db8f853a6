//! The decisions of a Hyprland helper, verified: how the compositor's
//! event stream is read, which windows its events are about, which
//! commands follow for them, and where the bell sound and the event socket
//! are found. The program around it performs the queries, commands and
//! file accesses that these functions decide on.
use vstd::prelude::*;

pub mod laws;
pub mod minimize;
pub mod sound;
pub mod text;
pub mod wheel;
pub mod x11_dpi_set;

verus! {

} // verus!
