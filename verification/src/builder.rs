use vstd::prelude::*;
use vstd::string::*;

use crossbeam_utils::CachePadded;
use std::sync::atomic::AtomicI64;
use std::sync::Arc;

use crate::barrier::{Barrier, NONE};
use crate::consumer::unmanaged::EventPoller;
use crate::cores::ReportedCores;
use crate::consumer::{ConsumerHandle, MultiConsumerBarrier, ThreadJoin, UniConsumerBarrier};
use crate::cursor::{new_shared_sequence, Cursor};
use crate::producer::uni::{UniProducer, UniProducerBarrier};
use crate::ring_buffer::{filled_in_order, is_power_of_two, RingBuffer};

verus! {

/// Builder state: no consumer yet.
pub struct NC;

/// Builder state: a single consumer.
pub struct SC;

/// Builder state: several consumers.
pub struct MC;

/// The character of the decimal digit `d`.
pub open spec fn digit_char(d: nat) -> char {
    if d == 0 { '0' }
    else if d == 1 { '1' }
    else if d == 2 { '2' }
    else if d == 3 { '3' }
    else if d == 4 { '4' }
    else if d == 5 { '5' }
    else if d == 6 { '6' }
    else if d == 7 { '7' }
    else if d == 8 { '8' }
    else { '9' }
}

/// The decimal notation of `n`, without leading zeros.
pub open spec fn decimal(n: nat) -> Seq<char>
    decreases n,
{
    if n < 10 {
        seq![digit_char(n)]
    } else {
        decimal(n / 10).push(digit_char(n % 10))
    }
}

/// The name that a consumer thread gets when none was given: `processor-`
/// followed by its number.
pub open spec fn default_thread_name(id: nat) -> Seq<char> {
    "processor-"@ + decimal(id)
}

fn digit_str(d: usize) -> (s: &'static str)
    requires
        d < 10,
    ensures
        s@ == seq![digit_char(d as nat)],
{
    proof {
        reveal_strlit("0");
        reveal_strlit("1");
        reveal_strlit("2");
        reveal_strlit("3");
        reveal_strlit("4");
        reveal_strlit("5");
        reveal_strlit("6");
        reveal_strlit("7");
        reveal_strlit("8");
        reveal_strlit("9");
    }
    match d {
        0 => "0",
        1 => "1",
        2 => "2",
        3 => "3",
        4 => "4",
        5 => "5",
        6 => "6",
        7 => "7",
        8 => "8",
        _ => "9",
    }
}

/// The decimal notation of `n`.
fn decimal_string(n: usize) -> (s: String)
    ensures
        s@ == decimal(n as nat),
    decreases n,
{
    if n < 10 {
        String::from_str(digit_str(n))
    } else {
        let mut s = decimal_string(n / 10);
        s.append(digit_str(n % 10));
        s
    }
}

/// Name and core of the next consumer thread, and how many threads have been
/// numbered so far.
pub struct ThreadContext {
    affinity: Option<usize>,
    name: Option<String>,
    id: usize,
}

impl ThreadContext {
    /// The core that the next thread is pinned to, if any.
    pub closed spec fn affinity(&self) -> Option<usize> {
        self.affinity
    }

    /// The name given to the next thread, if any.
    pub closed spec fn name(&self) -> Option<Seq<char>> {
        match self.name {
            Some(name) => Some(name@),
            None => None,
        }
    }

    /// How many threads have been given a default name.
    pub closed spec fn numbered(&self) -> nat {
        self.id as nat
    }

    /// No core, no name, no thread numbered yet.
    pub fn new() -> (context: Self)
        ensures
            context.affinity() is None,
            context.name() is None,
            context.numbered() == 0,
    {
        ThreadContext { affinity: None, name: None, id: 0 }
    }

    /// Pins the next thread to the core `id`.
    pub fn set_affinity(&mut self, id: usize)
        ensures
            final(self).affinity() == Some(id),
            final(self).name() == old(self).name(),
            final(self).numbered() == old(self).numbered(),
    {
        self.affinity = Some(id);
    }

    /// Names the next thread `name`.
    pub fn set_name(&mut self, name: &str)
        ensures
            final(self).name() == Some(name@),
            final(self).affinity() == old(self).affinity(),
            final(self).numbered() == old(self).numbered(),
    {
        self.name = Some(name.to_owned());
    }

    /// The name of the next thread, which is then forgotten: the name given,
    /// or else `processor-` followed by the thread's number, counting from 1.
    pub fn pop_name(&mut self) -> (name: String)
        requires
            old(self).name() is None ==> old(self).numbered() < usize::MAX,
        ensures
            final(self).name() is None,
            final(self).affinity() == old(self).affinity(),
            old(self).name() is Some ==> name@ == old(self).name()->Some_0 && final(self).numbered()
                == old(self).numbered(),
            old(self).name() is None ==> final(self).numbered() == old(self).numbered() + 1 && name@
                == default_thread_name(final(self).numbered()),
    {
        match self.name.take() {
            Some(name) => name,
            None => {
                self.id = self.id + 1;
                let mut name = String::from_str("processor-");
                let number = decimal_string(self.id);
                name.append(number.as_str());
                name
            },
        }
    }

    /// The core of the next thread, which is then forgotten.
    pub fn pop_affinity(&mut self) -> (affinity: Option<usize>)
        ensures
            affinity == old(self).affinity(),
            final(self).affinity() is None,
            final(self).name() == old(self).name(),
            final(self).numbered() == old(self).numbered(),
    {
        self.affinity.take()
    }

    /// How many threads have been given a default name.
    pub fn id(&self) -> (id: usize)
        ensures
            id == self.numbered(),
    {
        self.id
    }
}


/// Whether `cores`, the cores the machine reports, include the core `id`.
pub open spec fn core_listed(cores: Option<Vec<usize>>, id: usize) -> bool {
    cores is Some && cores->Some_0@.contains(id)
}

/// Whether `cores`, the cores that threads can be pinned to as the machine
/// reports them, include the core `id`.
pub fn has_core(cores: &Option<Vec<usize>>, id: usize) -> (has: bool)
    ensures
        has == (cores is Some && cores->Some_0@.contains(id)),
{
    match cores {
        None => false,
        Some(list) => {
            let mut i: usize = 0;
            while i < list.len()
                invariant
                    i <= list@.len(),
                    cores == Some(*list),
                    forall|j: int| 0 <= j < i ==> list@[j] != id,
                decreases list@.len() - i,
            {
                if list[i] == id {
                    assert(list@[i as int] == id);
                    assert(list@.contains(id));
                    return true;
                }
                i = i + 1;
            }
            false
        },
    }
}

/// What a producer builder accumulates while consumers are added: the ring
/// buffer, the shutdown sentinel, the consumer threads, the cursors of the
/// consumers of the current group, the wait strategy, and the name and core
/// of the next consumer thread.
pub struct BuilderContext<T, W, H> {
    shutdown_at_sequence: Arc<CachePadded<AtomicI64>>,
    ring_buffer: Arc<RingBuffer<T>>,
    consumer_handles: Vec<ConsumerHandle<H>>,
    current_consumer_cursors: Vec<Arc<Cursor>>,
    wait_strategy: W,
    thread_context: ThreadContext,
    reported_cores: Option<ReportedCores>,
}

impl<T, W, H> BuilderContext<T, W, H> {
    /// The slots of the ring buffer.
    pub closed spec fn ring(&self) -> Seq<T> {
        (*self.ring_buffer)@
    }

    /// The sentinel through which the producer tells consumers where it stopped.
    pub closed spec fn shutdown_sentinel(&self) -> Arc<CachePadded<AtomicI64>> {
        self.shutdown_at_sequence
    }

    /// The cursors of the consumers of the current group, in the order added.
    pub closed spec fn cursors(&self) -> Seq<Arc<Cursor>> {
        self.current_consumer_cursors@
    }

    /// The handles of the consumer threads started so far, in order.
    pub closed spec fn consumers(&self) -> Seq<ConsumerHandle<H>> {
        self.consumer_handles@
    }

    /// The wait strategy of the consumer threads.
    pub closed spec fn wait(&self) -> W {
        self.wait_strategy
    }

    /// The name and core of the next consumer thread.
    pub closed spec fn thread(&self) -> ThreadContext {
        self.thread_context
    }

    /// The cores the machine reported when a thread was last pinned, if one
    /// was.
    pub closed spec fn reported_cores(&self) -> Option<ReportedCores> {
        self.reported_cores
    }
}

impl<T, W: Copy, H: ThreadJoin> BuilderContext<T, W, H> {
    /// A context with a ring buffer of `size` slots filled by `event_factory`,
    /// no consumer yet, and the shutdown sentinel at `NONE`.
    pub fn new<F>(size: usize, event_factory: F, wait_strategy: W) -> (context: Self)
        where
            F: FnMut() -> T,
        requires
            is_power_of_two(size as int),
            size <= i64::MAX,
            call_requires(event_factory, ()),
        ensures
            context.ring().len() == size,
            exists|states: Seq<F>| #[trigger] filled_in_order(states, context.ring()),
            context.cursors().len() == 0,
            context.consumers().len() == 0,
            context.wait() == wait_strategy,
            context.thread().affinity() is None,
            context.thread().name() is None,
            context.thread().numbered() == 0,
    {
        let ring = RingBuffer::new(size, event_factory);
        let ghost states = choose|states: Seq<F>| #[trigger] filled_in_order(states, ring@);
        let ring_buffer = Arc::new(ring);
        let shutdown_at_sequence = Arc::new(new_shared_sequence(NONE));
        let context = BuilderContext {
            shutdown_at_sequence,
            ring_buffer,
            consumer_handles: Vec::new(),
            current_consumer_cursors: Vec::new(),
            wait_strategy,
            thread_context: ThreadContext::new(),
            reported_cores: None,
        };
        assert(filled_in_order(states, context.ring()));
        context
    }

    /// Records a started consumer thread and adds its cursor to the group.
    pub fn add_consumer_and_cursor(&mut self, consumer_handle: ConsumerHandle<H>, cursor: Arc<Cursor>)
        ensures
            final(self).consumers() == old(self).consumers().push(consumer_handle),
            final(self).cursors() == old(self).cursors().push(cursor),
            final(self).ring() == old(self).ring(),
            final(self).shutdown_sentinel() == old(self).shutdown_sentinel(),
            final(self).wait() == old(self).wait(),
            final(self).thread() == old(self).thread(),
    {
        self.consumer_handles.push(consumer_handle);
        self.add_cursor(cursor);
    }

    /// Adds a consumer's cursor to the group.
    pub fn add_cursor(&mut self, cursor: Arc<Cursor>)
        ensures
            final(self).cursors() == old(self).cursors().push(cursor),
            final(self).consumers() == old(self).consumers(),
            final(self).ring() == old(self).ring(),
            final(self).shutdown_sentinel() == old(self).shutdown_sentinel(),
            final(self).wait() == old(self).wait(),
            final(self).thread() == old(self).thread(),
    {
        self.current_consumer_cursors.push(cursor);
    }

    /// Pins the next consumer thread to the core `id` if the machine has
    /// it; returns whether it did. The decision is `pin_if_listed`'s, on the
    /// cores the machine reports.
    pub fn pin_at_core(&mut self, id: usize) -> (pinned: bool)
        ensures
            exists|cores: Option<Vec<usize>>| pinned == #[trigger] core_listed(cores, id),
            final(self).reported_cores() is Some,
            pinned == core_listed(final(self).reported_cores()->Some_0.cores(), id),
            pinned ==> final(self).thread().affinity() == Some(id),
            !pinned ==> final(self).thread() == old(self).thread(),
            final(self).thread().name() == old(self).thread().name(),
            final(self).thread().numbered() == old(self).thread().numbered(),
            final(self).cursors() == old(self).cursors(),
            final(self).consumers() == old(self).consumers(),
            final(self).ring() == old(self).ring(),
            final(self).shutdown_sentinel() == old(self).shutdown_sentinel(),
            final(self).wait() == old(self).wait(),
    {
        let cores = ReportedCores::of_machine();
        let pinned = self.pin_if_listed(cores.list(), id);
        self.reported_cores = Some(cores);
        pinned
    }

    /// Pins the next consumer thread to the core `id` if and only if `cores`,
    /// the cores that threads can be pinned to as the machine reports them,
    /// include it; returns whether it did.
    pub fn pin_if_listed(&mut self, cores: &Option<Vec<usize>>, id: usize) -> (pinned: bool)
        ensures
            pinned == core_listed(*cores, id),
            pinned ==> final(self).thread().affinity() == Some(id),
            !pinned ==> final(self).thread() == old(self).thread(),
            final(self).thread().name() == old(self).thread().name(),
            final(self).thread().numbered() == old(self).thread().numbered(),
            final(self).cursors() == old(self).cursors(),
            final(self).consumers() == old(self).consumers(),
            final(self).ring() == old(self).ring(),
            final(self).shutdown_sentinel() == old(self).shutdown_sentinel(),
            final(self).wait() == old(self).wait(),
    {
        if has_core(cores, id) {
            self.thread_context.set_affinity(id);
            true
        } else {
            false
        }
    }

    /// Names the next consumer thread `name`.
    pub fn thread_named(&mut self, name: &str)
        ensures
            final(self).thread().name() == Some(name@),
            final(self).thread().affinity() == old(self).thread().affinity(),
            final(self).thread().numbered() == old(self).thread().numbered(),
            final(self).cursors() == old(self).cursors(),
            final(self).consumers() == old(self).consumers(),
            final(self).ring() == old(self).ring(),
            final(self).shutdown_sentinel() == old(self).shutdown_sentinel(),
            final(self).wait() == old(self).wait(),
    {
        self.thread_context.set_name(name);
    }

    /// The name and the core of the next consumer thread, which are then
    /// forgotten; see `ThreadContext::pop_name`.
    pub fn pop_thread_settings(&mut self) -> (settings: (String, Option<usize>))
        requires
            old(self).thread().name() is None ==> old(self).thread().numbered() < usize::MAX,
        ensures
            settings.1 == old(self).thread().affinity(),
            final(self).thread().affinity() is None,
            final(self).thread().name() is None,
            old(self).thread().name() is Some ==> settings.0@ == old(self).thread().name()->Some_0
                && final(self).thread().numbered() == old(self).thread().numbered(),
            old(self).thread().name() is None ==> final(self).thread().numbered() == old(self).thread().numbered()
                + 1 && settings.0@ == default_thread_name(final(self).thread().numbered()),
            final(self).cursors() == old(self).cursors(),
            final(self).consumers() == old(self).consumers(),
            final(self).ring() == old(self).ring(),
            final(self).shutdown_sentinel() == old(self).shutdown_sentinel(),
            final(self).wait() == old(self).wait(),
    {
        let name = self.thread_context.pop_name();
        let affinity = self.thread_context.pop_affinity();
        (name, affinity)
    }

    /// A pull-based consumer of the current group that waits on
    /// `dependent_barrier`; its cursor, at `NONE`, joins the group.
    pub fn event_poller<B: Barrier>(&mut self, dependent_barrier: Arc<B>) -> (poller: EventPoller<T, B>)
        ensures
            poller.ring() == old(self).ring(),
            poller.shutdown_sentinel() == old(self).shutdown_sentinel(),
            poller.barrier() == dependent_barrier,
            final(self).cursors() == old(self).cursors().push(poller.cursor()),
            final(self).consumers() == old(self).consumers(),
            final(self).ring() == old(self).ring(),
            final(self).shutdown_sentinel() == old(self).shutdown_sentinel(),
            final(self).wait() == old(self).wait(),
            final(self).thread() == old(self).thread(),
    {
        let cursor = Arc::new(Cursor::new(NONE));
        self.add_cursor(Arc::clone(&cursor));
        EventPoller::new(
            Arc::clone(&self.ring_buffer),
            dependent_barrier,
            Arc::clone(&self.shutdown_at_sequence),
            cursor,
        )
    }

    /// How many consumer threads have been given a default name.
    pub fn threads_numbered(&self) -> (numbered: usize)
        ensures
            numbered == self.thread().numbered(),
    {
        self.thread_context.id()
    }

    /// The number of consumers in the current group.
    pub fn group_size(&self) -> (size: usize)
        ensures
            size == self.cursors().len(),
    {
        self.current_consumer_cursors.len()
    }

    /// The ring buffer, shared.
    pub fn ring_buffer(&self) -> (ring_buffer: Arc<RingBuffer<T>>)
        ensures
            ring_buffer@ == self.ring(),
    {
        Arc::clone(&self.ring_buffer)
    }

    /// The shutdown sentinel, shared.
    pub fn shutdown_at_sequence(&self) -> (sentinel: Arc<CachePadded<AtomicI64>>)
        ensures
            sentinel == self.shutdown_sentinel(),
    {
        Arc::clone(&self.shutdown_at_sequence)
    }

    /// The wait strategy of the consumer threads.
    pub fn wait_strategy(&self) -> (wait_strategy: W)
        ensures
            wait_strategy == self.wait(),
    {
        self.wait_strategy
    }

    /// Closes a group with a single consumer: hands out the first cursor of
    /// the group, which the next group waits on.
    pub fn take_first_cursor(&mut self) -> (cursor: Arc<Cursor>)
        requires
            old(self).cursors().len() > 0,
        ensures
            cursor == old(self).cursors()[0],
            final(self).cursors() == old(self).cursors().subrange(1, old(self).cursors().len() as int),
            final(self).consumers() == old(self).consumers(),
            final(self).ring() == old(self).ring(),
            final(self).shutdown_sentinel() == old(self).shutdown_sentinel(),
            final(self).wait() == old(self).wait(),
            final(self).thread() == old(self).thread(),
    {
        self.current_consumer_cursors.remove(0)
    }

    /// Closes a group of consumers: hands out all its cursors, which the
    /// next group waits on, and starts an empty group.
    pub fn take_cursors(&mut self) -> (cursors: Vec<Arc<Cursor>>)
        ensures
            cursors@ == old(self).cursors(),
            final(self).cursors().len() == 0,
            final(self).consumers() == old(self).consumers(),
            final(self).ring() == old(self).ring(),
            final(self).shutdown_sentinel() == old(self).shutdown_sentinel(),
            final(self).wait() == old(self).wait(),
            final(self).thread() == old(self).thread(),
    {
        let mut cursors: Vec<Arc<Cursor>> = Vec::new();
        std::mem::swap(&mut cursors, &mut self.current_consumer_cursors);
        cursors
    }
}

impl<T, W: Copy, H: ThreadJoin> BuilderContext<T, W, H> {
    /// The producer of a disruptor whose last group has a single consumer,
    /// the first of the group, which the producer waits on.
    pub fn build_with_single_consumer(self, producer_barrier: Arc<UniProducerBarrier>) -> (producer: UniProducer<T, UniConsumerBarrier, H>)
        requires
            self.cursors().len() > 0,
        ensures
            producer.next_sequence() == 0,
            producer.clearance() == self.ring().len() - 1,
            producer.consumer_position_seen() == NONE,
            producer.ring() == self.ring(),
            producer.consumers() == self.consumers(),
            producer.shutdown_sentinel() == self.shutdown_sentinel(),
            producer.producer_barrier() == producer_barrier,
            producer.consumer_barrier().cursor() == self.cursors()[0],
            producer.keeps_pace(),
    {
        let mut context = self;
        let cursor = context.take_first_cursor();
        let consumer_barrier = UniConsumerBarrier::new(cursor);
        UniProducer::new(
            context.shutdown_at_sequence,
            context.ring_buffer,
            producer_barrier,
            context.consumer_handles,
            consumer_barrier,
        )
    }

    /// The producer of a disruptor whose last group has several consumers,
    /// which the producer waits on all of.
    pub fn build_with_consumer_group(self, producer_barrier: Arc<UniProducerBarrier>) -> (producer: UniProducer<T, MultiConsumerBarrier, H>)
        ensures
            producer.next_sequence() == 0,
            producer.clearance() == self.ring().len() - 1,
            producer.consumer_position_seen() == NONE,
            producer.ring() == self.ring(),
            producer.consumers() == self.consumers(),
            producer.shutdown_sentinel() == self.shutdown_sentinel(),
            producer.producer_barrier() == producer_barrier,
            producer.consumer_barrier().cursors() == self.cursors(),
            producer.keeps_pace(),
    {
        let consumer_barrier = MultiConsumerBarrier::new(self.current_consumer_cursors);
        UniProducer::new(
            self.shutdown_at_sequence,
            self.ring_buffer,
            producer_barrier,
            self.consumer_handles,
            consumer_barrier,
        )
    }
}

} // verus!
