//! The checks themselves: which paths are left out, what a file's content
//! holds, and how its lines are cleaned.

pub mod clean;
pub mod config;
pub mod filter;
pub mod process;
pub mod scan;
pub mod written;

pub use self::clean::clean_string;
pub use self::config::{choose_globs, default_cfg, read_config, s, EnforcerCfg, ParseError};
pub use self::filter::{has_unwanted, is_unwanted, Component};
pub use self::process::{check_content, Outcome, Report};
pub use self::scan::{scan, ScanResult, HAS_ILLEGAL_CHARACTERS, HAS_TABS};
