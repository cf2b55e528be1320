//! Query and toggle the power state of the primary display monitor by
//! parsing the textual output of an external display-configuration tool
//! and deciding which transition commands to issue.

use vstd::prelude::*;

pub mod laws;
pub mod monitor;
pub mod parse;
pub mod state;

pub use monitor::Monitor;
pub use monitor::MonitorError;
pub use monitor::XMonitor;
pub use monitor::XrandrCommand;
pub use monitor::primary_monitor;
pub use state::MonitorState;

verus! {

} // verus!
