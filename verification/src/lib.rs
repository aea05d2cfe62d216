//! A dprint plugin that formats TeX files with tex-fmt, together with the
//! tick-based clock that stands in for `std::time` where no system clock exists.

pub mod config;
pub mod plugin;
pub mod raw_config;
pub mod time;

pub use config::{
    default_tabchar, default_tabsize, default_true, default_wraplen, file_extensions, resolve_config,
    Configuration, FileMatching, GlobalOptions, ResolvedConfiguration,
};
pub use plugin::{FormatError, FormatOptions, IndentChar, PluginHandler, PluginInfo, Utf8Failure};
pub use raw_config::Diagnostic;
pub use time::{unix_epoch, Duration, Instant, SystemTime, SystemTimeError, TickCounter};
