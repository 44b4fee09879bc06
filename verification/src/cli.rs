//! The command line of the compositor.
use vstd::prelude::*;

verus! {

/// The command-line options.
#[derive(Debug, Clone)]
pub struct Cli {
    pub config: Option<String>,
    pub config_dir: Option<String>,
    pub debug: bool,
    pub exit: bool,
    pub merge_config: bool,
    pub reconfigure: bool,
    pub startup_cmd: Option<String>,
    pub session_cmd: Option<String>,
    pub title: Option<String>,
    pub version: bool,
    pub verbose: bool,
}

} // verus!
