//! Logging commands.

use vstd::prelude::*;

use crate::log_init::ring::{entries_since, same_entry, LogEntry, RingBuffer};
use crate::store::{LoggingConfig, LoggingFrontendConfig};

verus! {

/// The logging settings the frontend applies.
pub fn get_logging_frontend_cfg_inner(config: &LoggingConfig) -> (r: LoggingFrontendConfig)
    ensures
        r.level == config.frontend.level,
        r.modules@ == config.frontend.modules@,
{
    let mut modules: Vec<(String, String)> = Vec::new();
    let mut i: usize = 0;
    while i < config.frontend.modules.len()
        invariant
            i <= config.frontend.modules@.len(),
            modules@ == config.frontend.modules@.take(i as int),
        decreases config.frontend.modules.len() - i,
    {
        let m = (config.frontend.modules[i].0.clone(), config.frontend.modules[i].1.clone());
        modules.push(m);
        i = i + 1;
        assert(modules@ =~= config.frontend.modules@.take(i as int));
    }
    assert(config.frontend.modules@.take(config.frontend.modules@.len() as int)
        =~= config.frontend.modules@);
    LoggingFrontendConfig { level: config.frontend.level.clone(), modules }
}

/// The ring's entries numbered above `since_seq`.
pub fn get_log_ring_inner(ring: &RingBuffer, since_seq: u64) -> (r: Vec<LogEntry>)
    requires
        ring.wf(),
    ensures
        r@.len() == entries_since(ring.spec_entries(), since_seq).len(),
        forall|k: int|
            0 <= k < r@.len() ==> #[trigger] same_entry(
                r@[k],
                entries_since(ring.spec_entries(), since_seq)[k],
            ),
{
    ring.slice_since(since_seq)
}

} // verus!
