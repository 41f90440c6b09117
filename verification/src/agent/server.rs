//! The state of the agent's sample server and the steps that feed its
//! queue. The server's socket and channels live with the caller; these
//! functions take the state they work on.
use super::sample::{keep_last, SampleQueue, QUEUE_CAPACITY};
use crate::file_utils::str_chars_eq;
use crate::protocol::{entries_hold, named_values, same_value, RespValue};
use vstd::prelude::*;

verus! {

/// The sample server's settings and whether it runs.
pub struct SampleServer {
    pub sample_interval: u64,
    pub start_time: i64,
    pub running: bool,
    pub bind_port: u16,
    pub bind_host: String,
}

impl SampleServer {
    /// A stopped server on `0.0.0.0:3333`.
    pub fn new() -> (r: SampleServer)
        ensures
            r.sample_interval == 0,
            r.start_time == 0,
            !r.running,
            r.bind_port == 3333,
            r.bind_host@ == "0.0.0.0"@,
    {
        SampleServer {
            sample_interval: 0,
            start_time: 0,
            running: false,
            bind_port: 3333,
            bind_host: "0.0.0.0".to_owned(),
        }
    }

    /// Records when sampling started and how often it samples.
    pub fn set_options(&mut self, start_time: i64, sample_interval: u64)
        ensures
            final(self).start_time == start_time,
            final(self).sample_interval == sample_interval,
            final(self).running == old(self).running,
            final(self).bind_port == old(self).bind_port,
            final(self).bind_host@ == old(self).bind_host@,
    {
        self.start_time = start_time;
        self.sample_interval = sample_interval;
    }

    pub fn set_running(&mut self, val: bool)
        ensures
            final(self).running == val,
            final(self).start_time == old(self).start_time,
            final(self).sample_interval == old(self).sample_interval,
            final(self).bind_port == old(self).bind_port,
            final(self).bind_host@ == old(self).bind_host@,
    {
        self.running = val;
    }

    pub fn is_running(&self) -> (r: bool)
        ensures
            r == self.running,
    {
        self.running
    }
}

/// Appends one sample to the queue, dropping the oldest ones beyond the
/// capacity; the count of pushed samples stays as it was.
pub fn add_sample_data<T>(data_queue: &mut SampleQueue<T>, sample_data: T)
    ensures
        final(data_queue).items() == keep_last(
            old(data_queue).items().push(sample_data),
            QUEUE_CAPACITY as int,
        ),
        final(data_queue).total() == old(data_queue).total(),
{
    data_queue.push_one(sample_data);
}

/// Appends the samples in order, dropping the oldest ones beyond the
/// capacity.
pub fn add_sample_data_batch<T>(data_queue: &mut SampleQueue<T>, data_vec: Vec<T>)
    requires
        old(data_queue).total() + data_vec@.len() <= usize::MAX,
    ensures
        final(data_queue).items() == keep_last(old(data_queue).items() + data_vec@, QUEUE_CAPACITY as int),
        final(data_queue).total() == old(data_queue).total() + data_vec@.len(),
{
    data_queue.push_back(data_vec);
}

/// Whether the server runs.
pub fn is_server_running(server: &SampleServer) -> (r: bool)
    ensures
        r == server.running,
{
    server.is_running()
}

/// Sets the option `name` to a copy of `value`: replaces the value of an
/// entry with that name, or adds an entry.
fn put_option(
    entries: &mut Vec<(String, RespValue)>,
    name: &String,
    value: &RespValue,
    Ghost(m): Ghost<Map<Seq<char>, RespValue>>,
)
    requires
        entries_hold(old(entries)@, m),
    ensures
        entries_hold(final(entries)@, m.insert(name@, *value)),
{
    let mut j: usize = 0;
    while j < entries.len()
        invariant
            j <= entries@.len(),
            entries@ == old(entries)@,
            entries_hold(entries@, m),
            forall|t: int| 0 <= t < j ==> #[trigger] entries@[t].0@ != name@,
        decreases entries@.len() - j,
    {
        if str_chars_eq(entries[j].0.as_str(), name.as_str()) {
            let key = entries[j].0.clone();
            let copy = value.duplicate();
            let ghost before = entries@;
            entries.set(j, (key, copy));
            proof {
                let m2 = m.insert(name@, *value);
                assert forall|i: int| 0 <= i < entries@.len() implies m2.contains_key(
                    #[trigger] entries@[i].0@,
                ) && same_value(entries@[i].1, m2[entries@[i].0@]) by {
                    if i != j {
                        assert(entries@[i] == before[i]);
                        if i < j {
                            assert(before[i].0@ != before[j as int].0@);
                        } else {
                            assert(before[j as int].0@ != before[i].0@);
                        }
                    }
                }
                assert forall|key: Seq<char>| #[trigger] m2.contains_key(key) implies exists|i: int|
                    0 <= i < entries@.len() && entries@[i].0@ == key by {
                    if key != name@ {
                        let i = choose|i: int| 0 <= i < before.len() && before[i].0@ == key;
                        assert(entries@[i].0@ == key);
                    } else {
                        assert(entries@[j as int].0@ == key);
                    }
                }
                assert forall|a: int, b: int| 0 <= a < b < entries@.len() implies #[trigger] entries@[a].0@
                    != #[trigger] entries@[b].0@ by {
                    assert(before[a].0@ != before[b].0@);
                }
            }
            return;
        }
        j = j + 1;
    }
    let ghost before = entries@;
    entries.push((name.clone(), value.duplicate()));
    proof {
        let m2 = m.insert(name@, *value);
        assert forall|key: Seq<char>| #[trigger] m2.contains_key(key) implies exists|i: int|
            0 <= i < entries@.len() && entries@[i].0@ == key by {
            if key != name@ {
                let i = choose|i: int| 0 <= i < before.len() && before[i].0@ == key;
                assert(entries@[i].0@ == key);
            } else {
                assert(entries@[before.len() as int].0@ == key);
            }
        }
        assert forall|i: int| 0 <= i < entries@.len() implies m2.contains_key(#[trigger] entries@[i].0@)
            && same_value(entries@[i].1, m2[entries@[i].0@]) by {
            if i < before.len() {
                assert(entries@[i] == before[i]);
            }
        }
        assert forall|a: int, b: int| 0 <= a < b < entries@.len() implies #[trigger] entries@[a].0@
            != #[trigger] entries@[b].0@ by {
            if b < before.len() {
                assert(before[a].0@ != before[b].0@);
            }
        }
    }
}

/// The options of a request `[command, name, value, name, value, ...]`:
/// each name that is a simple string with (a copy of) the value after it, a
/// later name replacing an earlier one; a pair whose name is not a simple
/// string is passed over, and so is a last name without a value.
pub fn parse_request_options(request: &Vec<RespValue>) -> (r: Vec<(String, RespValue)>)
    requires
        request@.len() >= 1,
    ensures
        entries_hold(r@, named_values(request@, 1, ((request@.len() - 1) / 2) as nat)),
{
    let mut result: Vec<(String, RespValue)> = Vec::new();
    let mut i: usize = 1;
    let ghost mut k: nat = 0;
    while i < request.len() - 1
        invariant
            request@.len() >= 1,
            i == 1 + 2 * k,
            k <= (request@.len() - 1) / 2,
            entries_hold(result@, named_values(request@, 1, k)),
        decreases request@.len() - i,
    {
        let ghost m = named_values(request@, 1, k);
        assert(named_values(request@, 1, k + 1) == match request@[i as int] {
            RespValue::String(name) => m.insert(name@, request@[i + 1]),
            _ => m,
        });
        match &request[i] {
            RespValue::String(name) => {
                put_option(&mut result, name, &request[i + 1], Ghost(m));
            },
            _ => {},
        }
        i = i + 2;
        proof {
            k = k + 1;
        }
    }
    result
}

} // verus!
