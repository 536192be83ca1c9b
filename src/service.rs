//! Inter-service plumbing: a bounded FIFO bus of events and the bounded
//! queue of decoded commands between the USB and update services.
use vstd::prelude::*;
use crate::wire::{Command, CommandModel};

verus! {

/// Declares heapless's fixed-capacity `Vec` (opaque) so that the event bus can
/// hold one; its contents are reached only through the wrappers below.
#[verifier::external_type_specification]
#[verifier::external_body]
#[verifier::reject_recursive_types(T)]
pub struct ExHeaplessVec<T, const N: usize>(heapless::Vec<T, N>);

/// Declares heapless's single-producer single-consumer `Queue` (opaque) for
/// the command queue; its contents are reached only through the wrappers
/// below.
#[verifier::external_type_specification]
#[verifier::external_body]
#[verifier::reject_recursive_types(T)]
pub struct ExSpscQueue<T, const N: usize>(heapless::spsc::Queue<T, N>);

/// Capacity of the event bus.
pub const EVENT_BUS_CAPACITY: usize = 32;
/// Number of commands the command queue holds.
pub const COMMAND_QUEUE_DEPTH: usize = 8;

/// Events exchanged between services.
#[derive(Clone, Copy, Debug, PartialEq, Eq, Structural)]
pub enum Event {
    /// Enter update mode.
    RequestUpdate,
    /// Start the firmware.
    RequestBoot,
}

/// Which events an operation on the bus applies to.
#[derive(Clone, Copy, Debug, PartialEq, Eq, Structural)]
pub enum EventFilter {
    /// Every event.
    Any,
    /// Events equal to this one.
    Only(Event),
}

pub open spec fn spec_matches(f: EventFilter, e: Event) -> bool {
    match f {
        EventFilter::Any => true,
        EventFilter::Only(x) => x == e,
    }
}

/// The events of `events` that do not pass `f`, in order.
pub open spec fn retained(events: Seq<Event>, f: EventFilter) -> Seq<Event> {
    events.filter(|e: Event| !spec_matches(f, e))
}

impl EventFilter {
    /// Whether `e` is kept when consuming with this filter: it does not pass.
    pub fn keeps(&self, e: &Event) -> (r: bool)
        ensures
            r == !spec_matches(*self, *e),
    {
        !self.matches(e)
    }

    /// Whether `e` passes the filter.
    pub fn matches(&self, e: &Event) -> (r: bool)
        ensures
            r == spec_matches(*self, *e),
    {
        match self {
            EventFilter::Any => true,
            EventFilter::Only(x) => *x == *e,
        }
    }
}

/// The events held by a bus vector, oldest first.
pub uninterp spec fn bus_contents(v: heapless::Vec<Event, 32>) -> Seq<Event>;

/// Relies on `heapless::Vec::new`: an empty vector.
#[verifier::external_body]
fn bus_vec_new() -> (r: heapless::Vec<Event, 32>)
    ensures
        bus_contents(r) == Seq::<Event>::empty(),
{
    heapless::Vec::new()
}

/// Relies on `heapless::Vec::push`: appends while fewer than 32 items are
/// held, and refuses the item otherwise.
#[verifier::external_body]
fn bus_vec_push(v: &mut heapless::Vec<Event, 32>, e: Event) -> (pushed: bool)
    ensures
        pushed <==> bus_contents(*old(v)).len() < 32,
        pushed ==> bus_contents(*final(v)) == bus_contents(*old(v)).push(e),
        !pushed ==> bus_contents(*final(v)) == bus_contents(*old(v)),
{
    v.push(e).is_ok()
}

/// Relies on `heapless::Vec::as_slice`: the held items in order.
#[verifier::external_body]
fn bus_vec_as_slice(v: &heapless::Vec<Event, 32>) -> (r: &[Event])
    ensures
        r@ == bus_contents(*v),
        r@.len() <= 32,
{
    v.as_slice()
}

/// Relies on `heapless::Vec::retain`: keeps, in their order, exactly the
/// items for which the predicate holds (here: those `filter` does not
/// pass).
#[verifier::external_body]
fn bus_vec_retain(v: &mut heapless::Vec<Event, 32>, filter: EventFilter)
    ensures
        bus_contents(*final(v)) == retained(bus_contents(*old(v)), filter),
{
    v.retain(|e| filter.keeps(e))
}

/// Bounded FIFO of events. Publishing to a full bus drops the event.
pub struct EventBus {
    events: heapless::Vec<Event, 32>,
}

impl EventBus {
    /// The held events, oldest first.
    pub closed spec fn view(&self) -> Seq<Event> {
        bus_contents(self.events)
    }

    /// An empty bus.
    pub fn new() -> (r: EventBus)
        ensures
            r.view() == Seq::<Event>::empty(),
    {
        EventBus { events: bus_vec_new() }
    }

    /// The held events, oldest first.
    pub fn events(&self) -> (r: Vec<Event>)
        ensures
            r@ == self.view(),
    {
        let s = bus_vec_as_slice(&self.events);
        let mut out: Vec<Event> = Vec::new();
        let mut i: usize = 0;
        while i < s.len()
            invariant
                i <= s@.len(),
                out@ == s@.subrange(0, i as int),
            decreases s@.len() - i,
        {
            out.push(s[i]);
            i = i + 1;
            assert(out@ =~= s@.subrange(0, i as int));
        }
        assert(s@.subrange(0, s@.len() as int) =~= s@);
        out
    }

    /// Appends `event`; a bus that already holds its capacity drops it.
    pub fn publish(&mut self, event: Event)
        ensures
            old(self).view().len() < EVENT_BUS_CAPACITY ==> final(self).view() == old(
                self,
            ).view().push(event),
            old(self).view().len() >= EVENT_BUS_CAPACITY ==> final(self).view() == old(
                self,
            ).view(),
    {
        let _ = bus_vec_push(&mut self.events, event);
    }

    /// Removes every event that passes `filter`, keeping the others in order.
    pub fn consume(&mut self, filter: EventFilter)
        ensures
            final(self).view() == retained(old(self).view(), filter),
    {
        bus_vec_retain(&mut self.events, filter);
    }

    /// Whether some held event passes `filter`; nothing is removed.
    pub fn has_event(&self, filter: EventFilter) -> (r: bool)
        ensures
            r == exists|i: int| 0 <= i < self.view().len() && spec_matches(filter, self.view()[i]),
    {
        let s = bus_vec_as_slice(&self.events);
        let mut i: usize = 0;
        while i < s.len()
            invariant
                i <= s@.len(),
                s@ == self.view(),
                forall|j: int| 0 <= j < i ==> !spec_matches(filter, s@[j]),
            decreases s@.len() - i,
        {
            if filter.matches(&s[i]) {
                return true;
            }
            i = i + 1;
        }
        false
    }
}


/// After consuming with a filter no remaining event passes that filter, the
/// others keep their order, and a filter that passes every event leaves the
/// bus empty.
pub proof fn lemma_consume_removes_matching(events: Seq<Event>, f: EventFilter)
    ensures
        forall|i: int|
            0 <= i < retained(events, f).len() ==> !spec_matches(f, #[trigger] retained(events, f)[i]),
        f == EventFilter::Any ==> retained(events, f) == Seq::<Event>::empty(),
{
    broadcast use vstd::seq_lib::group_filter_ensures;

    let kept = events.filter(|e: Event| !spec_matches(f, e));
    if f == EventFilter::Any && kept.len() > 0 {
        assert(!spec_matches(f, kept[0]));
    }
    assert(f == EventFilter::Any ==> kept =~= Seq::<Event>::empty());
}

/// The commands held by a command queue, oldest first.
pub uninterp spec fn queue_contents(q: heapless::spsc::Queue<Command, 9>) -> Seq<CommandModel>;

/// Relies on `heapless::spsc::Queue::new`: an empty queue that holds up to
/// eight items (one less than its type parameter).
#[verifier::external_body]
fn queue_new() -> (r: heapless::spsc::Queue<Command, 9>)
    ensures
        queue_contents(r) == Seq::<CommandModel>::empty(),
{
    heapless::spsc::Queue::new()
}

/// Relies on `heapless::spsc::Queue::enqueue`: adds at the back while fewer
/// than eight items are held, and hands the item back otherwise.
#[verifier::external_body]
fn queue_enqueue(q: &mut heapless::spsc::Queue<Command, 9>, c: Command) -> (r: Option<Command>)
    ensures
        r is None <==> queue_contents(*old(q)).len() < 8,
        r is None ==> queue_contents(*final(q)) == queue_contents(*old(q)).push(c@),
        r is Some ==> r == Some(c) && queue_contents(*final(q)) == queue_contents(*old(q)),
        queue_contents(*final(q)).len() <= 8,
{
    q.enqueue(c).err()
}

/// Relies on `heapless::spsc::Queue::dequeue`: removes and returns the
/// front item, or `None` when empty.
#[verifier::external_body]
fn queue_dequeue(q: &mut heapless::spsc::Queue<Command, 9>) -> (r: Option<Command>)
    ensures
        queue_contents(*old(q)).len() == 0 ==> r is None && queue_contents(*final(q))
            == queue_contents(*old(q)),
        queue_contents(*old(q)).len() > 0 ==> r is Some && r->0@ == queue_contents(*old(q))[0]
            && queue_contents(*final(q)) == queue_contents(*old(q)).drop_first(),
{
    q.dequeue()
}

/// Commands decoded by the USB service and waiting for the update service.
pub struct CommandQueue {
    queue: heapless::spsc::Queue<Command, 9>,
}

impl CommandQueue {
    /// The held commands, oldest first.
    pub closed spec fn view(&self) -> Seq<CommandModel> {
        queue_contents(self.queue)
    }

    /// Adds `cmd` at the back; a full queue hands it back.
    pub fn push_command(&mut self, cmd: Command) -> (r: Result<(), Command>)
        ensures
            r is Ok <==> old(self).view().len() < COMMAND_QUEUE_DEPTH,
            r is Ok ==> final(self).view() == old(self).view().push(cmd@),
            r is Err ==> r == Err::<(), Command>(cmd) && final(self).view() == old(self).view(),
    {
        match queue_enqueue(&mut self.queue, cmd) {
            None => Ok(()),
            Some(c) => Err(c),
        }
    }

    /// Removes and returns the oldest command.
    pub fn pop_command(&mut self) -> (r: Option<Command>)
        ensures
            old(self).view().len() == 0 ==> r is None && final(self).view() == old(self).view(),
            old(self).view().len() > 0 ==> r is Some && r->0@ == old(self).view()[0]
                && final(self).view() == old(self).view().drop_first(),
    {
        queue_dequeue(&mut self.queue)
    }
}

/// An empty command queue.
pub fn init_command_queue() -> (r: CommandQueue)
    ensures
        r.view() == Seq::<CommandModel>::empty(),
{
    CommandQueue { queue: queue_new() }
}

} // verus!
