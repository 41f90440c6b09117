//! The agent's configuration, as read from its configuration file.
use crate::file_utils::str_chars_eq;
use crate::text::{chars_of, string_from_chars};
use vstd::prelude::*;

verus! {

/// The agent configuration.
#[derive(Debug)]
pub struct Config {
    pub agent_name: String,
    pub entry_points: Vec<String>,
    pub active_classes: Vec<String>,
    pub trace_enable: bool,
}

impl Default for Config {
    /// The configuration used without a configuration file: agent name
    /// `default`, no entry point, no active class, tracing on.
    fn default() -> (r: Self)
        ensures
            r.agent_name@ == "default"@,
            r.entry_points@.len() == 0,
            r.active_classes@.len() == 0,
            r.trace_enable,
    {
        Config {
            agent_name: "default".to_owned(),
            entry_points: Vec::new(),
            active_classes: Vec::new(),
            trace_enable: true,
        }
    }
}

/// Whether a method, named `Class.method`, is one of the configured entry
/// points: those are the calls the agent records.
pub fn is_entry_point(config: &Config, class_name: &str, method_name: &str) -> (r: bool)
    ensures
        r == exists|i: int|
            0 <= i < config.entry_points@.len() && #[trigger] config.entry_points@[i]@ == class_name@
                + "."@ + method_name@,
{
    let mut cs = chars_of(class_name);
    cs.push('.');
    let ms = chars_of(method_name);
    let ghost start = cs@;
    let mut k: usize = 0;
    while k < ms.len()
        invariant
            k <= ms@.len(),
            cs@ == start + ms@.take(k as int),
        decreases ms@.len() - k,
    {
        cs.push(ms[k]);
        k = k + 1;
        assert(cs@ =~= start + ms@.take(k as int));
    }
    assert(ms@.take(ms@.len() as int) =~= ms@);
    proof {
        reveal_strlit(".");
    }
    let full = string_from_chars(cs.as_slice());
    assert(full@ =~= class_name@ + "."@ + method_name@);
    let mut i: usize = 0;
    while i < config.entry_points.len()
        invariant
            i <= config.entry_points@.len(),
            full@ == class_name@ + "."@ + method_name@,
            forall|j: int| 0 <= j < i ==> #[trigger] config.entry_points@[j]@ != full@,
        decreases config.entry_points@.len() - i,
    {
        if str_chars_eq(config.entry_points[i].as_str(), full.as_str()) {
            return true;
        }
        i = i + 1;
    }
    false
}

} // verus!
