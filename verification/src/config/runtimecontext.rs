//! What the daemon carries while it runs: its configuration and its logger.

use crate::config::config::{Config, ConfigView};
use crate::config::logger::{LogLevel, Logger};
use vstd::prelude::*;

verus! {

/// The mathematical content of a [`RuntimeContext`].
pub struct RuntimeView {
    pub config: ConfigView,
    pub logger: Logger,
}

/// The configuration and the logger of a running daemon.
#[derive(Debug)]
pub struct RuntimeContext {
    pub config: Config,
    pub logger: Logger,
}

impl View for RuntimeContext {
    type V = RuntimeView;

    open spec fn view(&self) -> RuntimeView {
        RuntimeView { config: self.config@, logger: self.logger }
    }
}

impl Default for RuntimeContext {
    /// The context before anything is read: no program, and a logger at
    /// `INFO` that is not enabled.
    fn default() -> (r: Self)
        ensures
            r.config.wf(),
            r@ == (RuntimeView {
                config: ConfigView::initial(),
                logger: Logger { level: LogLevel::INFO, enabled: false },
            }),
    {
        RuntimeContext { config: Config::new(), logger: Logger::default() }
    }
}

} // verus!
