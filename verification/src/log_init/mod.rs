//! Logging support: redaction, the in-memory ring, rotation and the filter
//! directive built from the configuration.

pub mod redact;
pub mod ring;
pub mod rotation;

use vstd::prelude::*;

use crate::chars::concat_str;
use crate::store::model::distinct_targets;
use crate::store::LoggingConfig;

use self::rotation::{name_less, str_less};

pub use redact::{redact_str, set_verbose_content, verbose_content, FieldKind};
pub use ring::{LogEntry, LogLevel, RingBuffer};

verus! {

/// How many entries the log ring keeps.
pub const RING_CAPACITY: usize = 2000;

/// `modules` with `m` placed after every entry whose target does not sort
/// after `m`'s.
pub open spec fn insert_by_target(sorted: Seq<(String, String)>, m: (String, String)) -> Seq<(String, String)>
    decreases sorted.len(),
{
    if sorted.len() == 0 {
        seq![m]
    } else if name_less(m.0@, sorted.last().0@) {
        insert_by_target(sorted.drop_last(), m).push(sorted.last())
    } else {
        sorted.push(m)
    }
}

/// `modules` ordered by target; entries with equal targets keep their order.
pub open spec fn sort_by_target(modules: Seq<(String, String)>) -> Seq<(String, String)>
    decreases modules.len(),
{
    if modules.len() == 0 {
        Seq::empty()
    } else {
        insert_by_target(sort_by_target(modules.drop_last()), modules.last())
    }
}

/// The directives `,target=level` of `modules`, in order.
pub open spec fn module_directives(modules: Seq<(String, String)>) -> Seq<char>
    decreases modules.len(),
{
    if modules.len() == 0 {
        Seq::empty()
    } else {
        module_directives(modules.drop_last()) + ","@ + modules.last().0@ + "="@
            + modules.last().1@
    }
}

/// The filter directive: `RUST_LOG` when it is set and not empty, otherwise
/// the configured level followed by `target=level` for each module, ordered
/// by target.
pub open spec fn filter_directive(cfg: LoggingConfig, rust_log: Option<Seq<char>>) -> Seq<char> {
    match rust_log {
        Some(v) if v.len() > 0 => v,
        _ => cfg.level@ + module_directives(sort_by_target(cfg.modules@)),
    }
}

fn insert_sorted(sorted: &mut Vec<(String, String)>, m: (String, String))
    ensures
        final(sorted)@ == insert_by_target(old(sorted)@, m),
    decreases old(sorted)@.len(),
{
    if sorted.len() == 0 {
        sorted.push(m);
        return;
    }
    let last_index = sorted.len() - 1;
    if str_less(m.0.as_str(), sorted[last_index].0.as_str()) {
        let last = sorted.pop().unwrap();
        insert_sorted(sorted, m);
        sorted.push(last);
    } else {
        sorted.push(m);
    }
}

/// Builds the filter directive from the configuration and the `RUST_LOG`
/// environment value.
pub fn build_env_filter_directive(cfg: &LoggingConfig, rust_log: Option<String>) -> (r: String)
    requires
        distinct_targets(cfg.modules@),
    ensures
        r@ == filter_directive(*cfg, match rust_log {
            Some(v) => Some(v@),
            None => None,
        }),
{
    if let Some(v) = rust_log {
        if !v.as_str().is_empty() {
            return v;
        }
    }
    let mut sorted: Vec<(String, String)> = Vec::new();
    let mut i: usize = 0;
    while i < cfg.modules.len()
        invariant
            i <= cfg.modules@.len(),
            sorted@ == sort_by_target(cfg.modules@.take(i as int)),
        decreases cfg.modules.len() - i,
    {
        let m = (cfg.modules[i].0.clone(), cfg.modules[i].1.clone());
        assert(m == cfg.modules@[i as int]);
        insert_sorted(&mut sorted, m);
        assert(cfg.modules@.take(i + 1).drop_last() =~= cfg.modules@.take(i as int));
        i = i + 1;
    }
    assert(cfg.modules@.take(cfg.modules@.len() as int) =~= cfg.modules@);
    let mut out = cfg.level.clone();
    let mut k: usize = 0;
    while k < sorted.len()
        invariant
            k <= sorted@.len(),
            out@ == cfg.level@ + module_directives(sorted@.take(k as int)),
        decreases sorted.len() - k,
    {
        let a = concat_str(out.as_str(), ",");
        let b = concat_str(a.as_str(), sorted[k].0.as_str());
        let c = concat_str(b.as_str(), "=");
        out = concat_str(c.as_str(), sorted[k].1.as_str());
        assert(sorted@.take(k + 1).drop_last() =~= sorted@.take(k as int));
        k = k + 1;
    }
    assert(sorted@.take(sorted@.len() as int) =~= sorted@);
    out
}

} // verus!
