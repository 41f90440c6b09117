//! The samples the agent takes of running threads, and the bounded queue
//! that holds them until the collector fetches them.
use super::native::JavaLong;
use vstd::prelude::*;

verus! {

/// The most samples the queue holds; older ones are dropped first.
pub const QUEUE_CAPACITY: usize = 10000;

/// A sample that can be sent to the collector.
pub trait SampleData {
    /// The wire encoding of the sample.
    fn encode(&self) -> Vec<u8>;

    /// The kind of the sample (`thread`, `method`).
    fn get_type(&self) -> String;
}

/// One sample of a thread: what it is, its CPU time, and its stack as
/// method ids, innermost first.
#[derive(Clone)]
pub struct ThreadData {
    pub id: i64,
    pub name: String,
    pub priority: u32,
    pub daemon: bool,
    pub state: String,
    pub cpu_time: i64,
    pub sample_time: i64,
    pub stacktrace: Vec<i64>,
    pub last_stack_frame: i64,
    pub last_stack_len: usize,
}

impl ThreadData {
    /// A thread with the given id and name and nothing sampled yet.
    pub fn new(id: JavaLong, name: String) -> (r: ThreadData)
        ensures
            r.id == id,
            r.name@ == name@,
            r.priority == 0,
            !r.daemon,
            r.state@ == Seq::<char>::empty(),
            r.cpu_time == 0,
            r.sample_time == 0,
            r.stacktrace@ == Seq::<i64>::empty(),
            r.last_stack_frame == 0,
            r.last_stack_len == 0,
    {
        ThreadData {
            id: id,
            name: name,
            priority: 0,
            daemon: false,
            state: String::new(),
            cpu_time: 0,
            sample_time: 0,
            stacktrace: Vec::new(),
            last_stack_frame: 0,
            last_stack_len: 0,
        }
    }
}

/// A method seen in samples: its id, its full name and how often it was
/// seen.
#[derive(Clone)]
pub struct MethodData {
    pub method_id: i64,
    pub full_name: String,
    pub hits_count: u32,
}

/// The last `n` items of `s` (all of them when there are fewer).
pub open spec fn keep_last<T>(s: Seq<T>, n: int) -> Seq<T> {
    if s.len() > n {
        s.skip(s.len() - n)
    } else {
        s
    }
}

/// First in, first out: samples pushed onto a queue holding `held`, when
/// all fit, are all kept after it; the pops that follow answer the held
/// samples and then the pushed ones in the order pushed, and the queue is
/// empty after as many pops as samples.
pub proof fn lemma_queue_fifo<T>(held: Seq<T>, pushed: Seq<T>)
    requires
        held.len() + pushed.len() <= QUEUE_CAPACITY,
    ensures
        keep_last(held + pushed, QUEUE_CAPACITY as int) == held + pushed,
        forall|k: int|
            0 <= k < held.len() + pushed.len() ==> (#[trigger] (held + pushed).skip(k))[0] == (if k < held.len() {
                held[k]
            } else {
                pushed[k - held.len()]
            }) && (held + pushed).skip(k).drop_first() == (held + pushed).skip(k + 1),
        (held + pushed).skip((held.len() + pushed.len()) as int).len() == 0,
{
    let s = held + pushed;
    assert forall|k: int| 0 <= k < s.len() implies (#[trigger] s.skip(k))[0] == (if k < held.len() {
        held[k]
    } else {
        pushed[k - held.len()]
    }) && s.skip(k).drop_first() == s.skip(k + 1) by {
        assert(s.skip(k).drop_first() =~= s.skip(k + 1));
    }
}

/// A bounded first-in first-out queue of samples.
pub struct SampleQueue<T> {
    pub queue: std::collections::VecDeque<T>,
    total_count: usize,
    last_count: usize,
    last_time: i64,
}

impl<T> SampleQueue<T> {
    /// The samples held, oldest first.
    pub closed spec fn items(&self) -> Seq<T> {
        self.queue@
    }

    /// How many samples were ever pushed.
    pub closed spec fn total(&self) -> nat {
        self.total_count as nat
    }

    /// The count of pushed samples at the last statistics point.
    pub closed spec fn last_count_seen(&self) -> nat {
        self.last_count as nat
    }

    /// The time (ms) of the last statistics point; 0 before the first one.
    pub closed spec fn last_time_seen(&self) -> i64 {
        self.last_time
    }

    /// An empty queue.
    pub fn new() -> (r: SampleQueue<T>)
        ensures
            r.items().len() == 0,
            r.total() == 0,
    {
        SampleQueue {
            queue: std::collections::VecDeque::with_capacity(512),
            total_count: 0,
            last_count: 0,
            last_time: 0,
        }
    }

    /// Appends the samples in order, then drops the oldest ones beyond the
    /// capacity.
    pub fn push_back(&mut self, data_vec: Vec<T>)
        requires
            old(self).total() + data_vec@.len() <= usize::MAX,
        ensures
            final(self).items() == keep_last(old(self).items() + data_vec@, QUEUE_CAPACITY as int),
            final(self).total() == old(self).total() + data_vec@.len(),
    {
        self.total_count = self.total_count + data_vec.len();
        let ghost start = self.queue@;
        let ghost data = data_vec@;
        let ghost tc = self.total_count;
        for sample_data in it: data_vec.into_iter()
            invariant
                self.total_count == tc,
                it.seq() == data,
                self.queue@ == start + data.take(it.index() as int),
        {
            self.queue.push_back(sample_data);
            assert(self.queue@ =~= start + data.take(it.index() + 1));
        }
        assert(data.take(data.len() as int) =~= data);
        assert(self.queue@ == old(self).items() + data_vec@);
        self.trim();
    }

    /// Appends one sample, then drops the oldest ones beyond the capacity;
    /// the count of pushed samples stays as it was.
    pub fn push_one(&mut self, sample_data: T)
        ensures
            final(self).items() == keep_last(old(self).items().push(sample_data), QUEUE_CAPACITY as int),
            final(self).total() == old(self).total(),
    {
        self.queue.push_back(sample_data);
        self.trim();
    }

    /// Drops the oldest samples beyond the capacity.
    fn trim(&mut self)
        ensures
            final(self).queue@ == keep_last(old(self).queue@, QUEUE_CAPACITY as int),
            final(self).total_count == old(self).total_count,
    {
        let ghost all = self.queue@;
        while self.queue.len() > QUEUE_CAPACITY
            invariant
                self.total_count == old(self).total_count,
                all == old(self).queue@,
                all.len() >= self.queue@.len(),
                self.queue@ == all.skip(all.len() - self.queue@.len()),
                self.queue@.len() >= QUEUE_CAPACITY || self.queue@ == all,
            decreases self.queue@.len(),
        {
            self.queue.pop_front();
            assert(self.queue@ =~= all.skip(all.len() - self.queue@.len()));
        }
        assert(all.skip(0) =~= all);
    }

    /// Takes the oldest sample out of the queue.
    pub fn pop_front(&mut self) -> (r: Option<T>)
        ensures
            old(self).items().len() == 0 ==> r is None && final(self).items() == old(self).items(),
            old(self).items().len() > 0 ==> r == Some(old(self).items()[0]) && final(self).items()
                == old(self).items().drop_first(),
            final(self).total() == old(self).total(),
    {
        let r = self.queue.pop_front();
        proof {
            if old(self).queue@.len() > 0 {
                assert(self.queue@ =~= old(self).queue@.drop_first());
            }
        }
        r
    }

    /// Records a statistics point at `now_time` (ms): answers, when an
    /// earlier point was recorded, the samples pushed since and the time
    /// passed since.
    pub fn stats(&mut self, now_time: i64) -> (r: Option<(usize, i64)>)
        ensures
            final(self).items() == old(self).items(),
            final(self).total() == old(self).total(),
            final(self).last_count_seen() == old(self).total(),
            final(self).last_time_seen() == now_time,
            r == if old(self).last_time_seen() > 0 && old(self).total() >= old(self).last_count_seen()
                && now_time >= old(self).last_time_seen() {
                Some(
                    (
                        (old(self).total() - old(self).last_count_seen()) as usize,
                        (now_time - old(self).last_time_seen()) as i64,
                    ),
                )
            } else {
                None
            },
    {
        let mut r = None;
        if self.last_time > 0 && self.total_count >= self.last_count && now_time >= self.last_time {
            r = Some((self.total_count - self.last_count, now_time - self.last_time));
        }
        self.last_count = self.total_count;
        self.last_time = now_time;
        r
    }
}

} // verus!
