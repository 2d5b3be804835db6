//! Crash dumps: their text, where they go, and which is the newest one
//! written after a checkpoint.

use vstd::prelude::*;

use crate::chars::{chars_of, concat_str, decimal, path_join, std_path_join, u64_to_decimal};

verus! {

/// What a crash dump records.
#[derive(Debug, Clone, PartialEq, Eq)]
pub struct PanicDumpReport {
    pub timestamp_secs: u64,
    pub thread_name: Option<String>,
    pub location: Option<String>,
    pub payload: String,
    pub backtrace: String,
    pub context: Option<String>,
}

/// `v`, or `fallback` when it is absent.
pub open spec fn or_text(v: Option<String>, fallback: Seq<char>) -> Seq<char> {
    match v {
        Some(s) => s@,
        None => fallback,
    }
}

/// The text of a crash dump.
pub open spec fn report_text(r: PanicDumpReport) -> Seq<char> {
    "timestamp: "@ + decimal(r.timestamp_secs as nat) + "\nthread: "@ + or_text(
        r.thread_name,
        "<unnamed>"@,
    ) + "\ncontext: "@ + or_text(r.context, "<none>"@) + "\nlocation: "@ + or_text(
        r.location,
        "<unknown>"@,
    ) + "\npayload: "@ + r.payload@ + "\nbacktrace:\n"@ + r.backtrace@ + "\n"@
}

fn text_or(v: &Option<String>, fallback: &str) -> (r: String)
    ensures
        r@ == or_text(*v, fallback@),
{
    match v {
        Some(s) => s.clone(),
        None => String::from_str(fallback),
    }
}

/// The text written into a crash dump.
pub fn format_report(report: &PanicDumpReport) -> (r: String)
    ensures
        r@ == report_text(*report),
{
    let mut out = String::from_str("timestamp: ");
    out = concat_str(out.as_str(), u64_to_decimal(report.timestamp_secs).as_str());
    out = concat_str(out.as_str(), "\nthread: ");
    out = concat_str(out.as_str(), text_or(&report.thread_name, "<unnamed>").as_str());
    out = concat_str(out.as_str(), "\ncontext: ");
    out = concat_str(out.as_str(), text_or(&report.context, "<none>").as_str());
    out = concat_str(out.as_str(), "\nlocation: ");
    out = concat_str(out.as_str(), text_or(&report.location, "<unknown>").as_str());
    out = concat_str(out.as_str(), "\npayload: ");
    out = concat_str(out.as_str(), report.payload.as_str());
    out = concat_str(out.as_str(), "\nbacktrace:\n");
    out = concat_str(out.as_str(), report.backtrace.as_str());
    out = concat_str(out.as_str(), "\n");
    out
}

/// The file a dump of `report` is written to under `dir`: `<timestamp>.log`.
pub fn dump_path(dir: &str, report: &PanicDumpReport) -> (r: String)
    ensures
        r@ == std_path_join(dir@, decimal(report.timestamp_secs as nat) + ".log"@),
{
    let name = concat_str(u64_to_decimal(report.timestamp_secs).as_str(), ".log");
    path_join(dir, name.as_str())
}

/// Where crash dumps go: `OPENMACRO_CRASH_DIR` when set, otherwise
/// `openmacro/crashes` under the configuration directory.
pub fn crashes_root(env_override: Option<String>, config_dir: Option<String>) -> (r: Result<String, String>)
    ensures
        match (env_override, config_dir) {
            (Some(dir), _) => r == Ok::<String, String>(dir),
            (None, None) => r matches Err(m) && m@ == "config directory unavailable"@,
            (None, Some(dir)) => r matches Ok(p) && p@ == std_path_join(
                std_path_join(dir@, "openmacro"@),
                "crashes"@,
            ),
        },
{
    if let Some(dir) = env_override {
        return Ok(dir);
    }
    match config_dir {
        None => Err(String::from_str("config directory unavailable")),
        Some(dir) => {
            let base = path_join(dir.as_str(), "openmacro");
            Ok(path_join(base.as_str(), "crashes"))
        },
    }
}

/// Whether `c` is an ASCII digit.
pub open spec fn is_digit(c: char) -> bool {
    '0' <= c && c <= '9'
}

/// The value of the decimal digits `s`.
pub open spec fn digits_value(s: Seq<char>) -> nat
    decreases s.len(),
{
    if s.len() == 0 {
        0
    } else {
        digits_value(s.drop_last()) * 10 + ((s.last() as u32) - 0x30) as nat
    }
}

/// The digits of `s` after an optional leading `+`.
pub open spec fn unsigned_digits(s: Seq<char>) -> Seq<char> {
    if s.len() > 0 && s[0] == '+' {
        s.drop_first()
    } else {
        s
    }
}

/// Every character of `d` is a decimal digit.
pub open spec fn all_digits(d: Seq<char>) -> bool {
    forall|i: int| 0 <= i < d.len() ==> is_digit(#[trigger] d[i])
}

/// What `str::parse::<u64>` accepts: an optional `+` and at least one
/// decimal digit, with a value that fits in 64 bits.
pub open spec fn parsed_u64(s: Seq<char>) -> Option<u64> {
    let digits = unsigned_digits(s);
    if digits.len() > 0 && all_digits(digits) && digits_value(digits) <= u64::MAX {
        Some(digits_value(digits) as u64)
    } else {
        None
    }
}

/// Parses a decimal `u64`.
pub fn parse_u64(s: &str) -> (r: Option<u64>)
    ensures
        r == parsed_u64(s@),
{
    let v = chars_of(s);
    let start: usize = if v.len() > 0 && v[0] == '+' {
        1
    } else {
        0
    };
    let ghost digits = unsigned_digits(s@);
    assert(digits =~= v@.skip(start as int));
    if start >= v.len() {
        return None;
    }
    let mut value: u64 = 0;
    let mut i: usize = start;
    while i < v.len()
        invariant
            start <= i <= v@.len(),
            v@ == s@,
            digits =~= v@.skip(start as int),
            digits == unsigned_digits(s@),
            forall|k: int| 0 <= k < i - start ==> is_digit(#[trigger] digits[k]),
            value == digits_value(digits.take(i - start)),
        decreases v.len() - i,
    {
        let c = v[i];
        if !('0' <= c && c <= '9') {
            assert(!is_digit(digits[i - start]));
            assert(!all_digits(digits));
            return None;
        }
        let d = (c as u32 - 0x30) as u64;
        assert(digits.take(i - start + 1).drop_last() =~= digits.take(i - start));
        if value > (u64::MAX - d) / 10 {
            proof {
                assert(digits_value(digits.take(i - start + 1)) == value * 10 + d);
                assert(value * 10 + d > u64::MAX) by (nonlinear_arith)
                    requires
                        value > (u64::MAX - d) / 10,
                        d <= 9,
                ;
                if all_digits(digits) {
                    lemma_digits_value_prefix_le(digits, i - start + 1);
                }
            }
            return None;
        }
        assert(value * 10 + d <= u64::MAX) by (nonlinear_arith)
            requires
                value <= (u64::MAX - d) / 10,
                d <= 9,
        ;
        value = value * 10 + d;
        i = i + 1;
    }
    assert(digits.take(digits.len() as int) =~= digits);
    Some(value)
}

proof fn lemma_digits_value_prefix_le(s: Seq<char>, n: int)
    requires
        0 <= n <= s.len(),
        forall|i: int| 0 <= i < s.len() ==> is_digit(#[trigger] s[i]),
    ensures
        digits_value(s.take(n)) <= digits_value(s),
    decreases s.len(),
{
    if n < s.len() {
        assert(s.drop_last().take(n) =~= s.take(n));
        lemma_digits_value_prefix_le(s.drop_last(), n);
        assert(digits_value(s) >= digits_value(s.drop_last()));
    } else {
        assert(s.take(n) =~= s);
    }
}

/// The greatest timestamp above `checkpoint` among the file stems, those
/// that are not numbers left out.
pub open spec fn newest_after(stems: Seq<Option<String>>, checkpoint: u64) -> Option<u64>
    decreases stems.len(),
{
    if stems.len() == 0 {
        None
    } else {
        let rest = newest_after(stems.drop_last(), checkpoint);
        match stems.last() {
            Some(stem) => match parsed_u64(stem@) {
                Some(t) if t > checkpoint => match rest {
                    Some(n) => Some(if t > n { t } else { n }),
                    None => Some(t),
                },
                _ => rest,
            },
            None => rest,
        }
    }
}

/// The newest crash written after `checkpoint`, given the stems of the
/// file names in the crash directory (`None` where a name has no stem).
pub fn newest_crash_timestamp_after(stems: &Vec<Option<String>>, checkpoint: u64) -> (r: Option<u64>)
    ensures
        r == newest_after(stems@, checkpoint),
{
    let mut newest: Option<u64> = None;
    let mut i: usize = 0;
    while i < stems.len()
        invariant
            i <= stems@.len(),
            newest == newest_after(stems@.take(i as int), checkpoint),
        decreases stems.len() - i,
    {
        assert(stems@.take(i + 1).drop_last() =~= stems@.take(i as int));
        if let Some(stem) = &stems[i] {
            if let Some(t) = parse_u64(stem.as_str()) {
                if t > checkpoint {
                    newest = match newest {
                        Some(n) => Some(if t > n { t } else { n }),
                        None => Some(t),
                    };
                }
            }
        }
        i = i + 1;
    }
    assert(stems@.take(stems@.len() as int) =~= stems@);
    newest
}

/// The point after which crash files count as new: the last check
/// recorded in the preferences, else the time the preferences file was
/// last written, else the epoch.
pub fn crash_checkpoint(last_crash_check: Option<u64>, prefs_written: Option<u64>) -> (r: u64)
    ensures
        r == (match last_crash_check {
            Some(t) => t,
            None => match prefs_written {
                Some(m) => m,
                None => 0,
            },
        }),
{
    match last_crash_check {
        Some(t) => t,
        None => match prefs_written {
            Some(m) => m,
            None => 0,
        },
    }
}

/// What a start-up crash check concludes.
#[derive(Clone, Copy, Debug, PartialEq, Eq, Structural)]
pub struct CrashCheck {
    /// Whether to tell the user that the program recovered from a crash.
    pub notify: bool,
    /// The new value of the preferences' last crash check, where it changes.
    pub record: Option<u64>,
}

/// The conclusion of a crash check, given the newest crash after the
/// checkpoint: a crash is reported and its time recorded; with none, the
/// current time is recorded only where no check was ever recorded.
pub fn crash_check_outcome(last_crash_check: Option<u64>, newest: Option<u64>, now: u64) -> (r: CrashCheck)
    ensures
        r == (match newest {
            Some(n) => CrashCheck { notify: true, record: Some(n) },
            None => CrashCheck {
                notify: false,
                record: if last_crash_check is None { Some(now) } else { None },
            },
        }),
{
    match newest {
        Some(n) => CrashCheck { notify: true, record: Some(n) },
        None => {
            let record = match last_crash_check {
                Some(_) => None,
                None => Some(now),
            };
            CrashCheck { notify: false, record }
        },
    }
}

} // verus!
