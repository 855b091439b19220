//! The controller's configuration: pool bounds, the scaling threshold and
//! the event queue's name. Each setting comes as the text of an optional
//! variable of the environment; a missing or malformed value falls back to
//! its default.
use vstd::prelude::*;
use vstd::string::StringSliceAdditionalSpecFns;
use crate::decimal::{decimal_chars, parse_unsigned, parse_unsigned_spec, push_decimal};

verus! {

pub const DEFAULT_MIN_WATCHDOGS: usize = 10;

pub const DEFAULT_MAX_WATCHDOGS: usize = 20;

pub const DEFAULT_THRESHOLD: usize = 3;

pub const DEFAULT_EVENT_QUEUE: &'static str = "/eventqueue";

/// Controller configuration parameters.
#[derive(Clone)]
pub struct ControllerConfig {
    /// Fewest worker threads kept alive.
    pub min_watchdogs: usize,
    /// Most worker threads alive at once; also the size of the slot table.
    pub max_watchdogs: usize,
    /// Number of idle workers the supervisor tries to keep available.
    pub threshold: usize,
    /// Name of the event priority queue.
    pub event_queue_path: String,
}

/// The value of a count setting: the number that `var` holds, if it holds
/// one that fits a `usize`, else `default`.
pub open spec fn count_setting(var: Option<&str>, default: nat) -> nat {
    match var {
        Some(s) => match parse_unsigned_spec(s.spec_bytes(), usize::MAX as nat) {
            Some(v) => v,
            None => default,
        },
        None => default,
    }
}

pub open spec fn queue_path_setting(var: Option<&str>) -> Seq<char> {
    match var {
        Some(s) => s@,
        None => DEFAULT_EVENT_QUEUE@,
    }
}

fn count_or_default(var: Option<&str>, default: usize) -> (r: usize)
    ensures
        r as nat == count_setting(var, default as nat),
{
    match var {
        Some(s) => match parse_unsigned(s, usize::MAX as u64) {
            Some(v) => v as usize,
            None => default,
        },
        None => default,
    }
}

/// The minimum number of workers, from the text of `MIN_WATCHDOGS`.
fn get_minimum_watchdog_thread_number(var: Option<&str>) -> (r: usize)
    ensures
        r as nat == count_setting(var, DEFAULT_MIN_WATCHDOGS as nat),
{
    count_or_default(var, DEFAULT_MIN_WATCHDOGS)
}

/// The maximum number of workers, from the text of `MAX_WATCHDOGS`.
fn get_maximum_watchdog_thread_number(var: Option<&str>) -> (r: usize)
    ensures
        r as nat == count_setting(var, DEFAULT_MAX_WATCHDOGS as nat),
{
    count_or_default(var, DEFAULT_MAX_WATCHDOGS)
}

/// The scaling threshold, from the text of `THRESHOLD`.
fn get_threshold_number(var: Option<&str>) -> (r: usize)
    ensures
        r as nat == count_setting(var, DEFAULT_THRESHOLD as nat),
{
    count_or_default(var, DEFAULT_THRESHOLD)
}

/// The event queue's name, from the text of `EVENT_QUEUE`.
fn get_event_queue_path(var: Option<&str>) -> (r: String)
    ensures
        r@ == queue_path_setting(var),
{
    match var {
        Some(s) => String::from_str(s),
        None => String::from_str(DEFAULT_EVENT_QUEUE),
    }
}

/// Builds the configuration from the texts of the variables `MIN_WATCHDOGS`,
/// `MAX_WATCHDOGS`, `THRESHOLD` and `EVENT_QUEUE` (`None` where unset).
pub fn get_controller_configuration(
    min_var: Option<&str>,
    max_var: Option<&str>,
    threshold_var: Option<&str>,
    queue_var: Option<&str>,
) -> (r: ControllerConfig)
    ensures
        r.min_watchdogs as nat == count_setting(min_var, DEFAULT_MIN_WATCHDOGS as nat),
        r.max_watchdogs as nat == count_setting(max_var, DEFAULT_MAX_WATCHDOGS as nat),
        r.threshold as nat == count_setting(threshold_var, DEFAULT_THRESHOLD as nat),
        r.event_queue_path@ == queue_path_setting(queue_var),
{
    ControllerConfig {
        min_watchdogs: get_minimum_watchdog_thread_number(min_var),
        max_watchdogs: get_maximum_watchdog_thread_number(max_var),
        threshold: get_threshold_number(threshold_var),
        event_queue_path: get_event_queue_path(queue_var),
    }
}

impl ControllerConfig {
    /// The configuration as a block of text, one setting per line.
    pub open spec fn description(&self) -> Seq<char> {
        "Controller configuration:\n    Min watchdogs: "@ + decimal_chars(
            self.min_watchdogs as nat,
        ) + "\n    Max watchdogs: "@ + decimal_chars(self.max_watchdogs as nat)
            + "\n    Threshold: "@ + decimal_chars(self.threshold as nat)
            + "\n    Event Queue Path: "@ + self.event_queue_path@ + "\n"@
    }

    /// Renders the configuration for the log.
    pub fn describe(&self) -> (r: String)
        ensures
            r@ == self.description(),
    {
        let mut out = String::from_str("Controller configuration:\n    Min watchdogs: ");
        push_decimal(&mut out, self.min_watchdogs as u64);
        out.append("\n    Max watchdogs: ");
        push_decimal(&mut out, self.max_watchdogs as u64);
        out.append("\n    Threshold: ");
        push_decimal(&mut out, self.threshold as u64);
        out.append("\n    Event Queue Path: ");
        out.append(self.event_queue_path.as_str());
        out.append("\n");
        out
    }
}

} // verus!
