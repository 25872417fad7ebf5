//! The state machine and the line protocol of a terminal front-end for
//! the `makemkvcon` disc ripper.
//!
//! The library decides; a host program does the input and output. The host
//! reads keys and runs the tool, hands what it got to the functions here,
//! and draws the screen they describe.

use vstd::prelude::*;

pub mod makemkv;
pub mod screen;
pub mod state;
pub mod text;
