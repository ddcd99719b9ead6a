//! Drains an inbox directory into compressed batch archives.
//!
//! The verified core: timestamps and local civil time, the eligibility filter and
//! time ordering of scanned files, the archive naming rule, and the batch pipeline
//! as a state machine that tells its driver which outside action to take next.
use vstd::prelude::*;

pub mod naming;
pub mod pipeline;
pub mod record;
pub mod time;

verus! {

} // verus!
