//! The event bus: lifecycle actions fanned out to every subscriber.  Each
//! subscriber owns a bounded queue; emitters never block, and a subscriber
//! whose queue is full is dropped instead of slowing the producer.

use vstd::prelude::*;

verus! {

/// A lifecycle action carried by an event.
#[derive(Clone, Copy, Debug, PartialEq, Eq, Structural)]
pub enum NativeEventAction {
    Starting,
    Started,
    Stopping,
    Stopped,
    Patched,
    Deleted,
    Restart,
    Update,
}

/// The kind of object an event speaks of.
#[derive(Clone, Copy, Debug, PartialEq, Eq, Structural)]
pub enum EventObjectKind {
    Cargo,
    Vm,
    Job,
    Resource,
}

/// One event: an action on an object named by its key.
#[derive(Debug)]
pub struct Event {
    pub kind: EventObjectKind,
    pub action: NativeEventAction,
    pub key: String,
}

/// View of an event.
#[verifier::ext_equal]
pub ghost struct EventView {
    pub kind: EventObjectKind,
    pub action: NativeEventAction,
    pub key: Seq<char>,
}

impl View for Event {
    type V = EventView;

    open spec fn view(&self) -> EventView {
        EventView { kind: self.kind, action: self.action, key: self.key@ }
    }
}

impl Clone for Event {
    /// The clone keeps the view.
    fn clone(&self) -> (r: Self)
        ensures
            r@ == self@,
    {
        Event { kind: self.kind, action: self.action, key: self.key.clone() }
    }
}

impl NativeEventAction {
    /// Wire name of the action.
    pub fn to_str(&self) -> (r: &'static str)
        ensures
            r@ == self.spec_str(),
    {
        proof {
            reveal_strlit("Starting");
            reveal_strlit("Started");
            reveal_strlit("Stopping");
            reveal_strlit("Stopped");
            reveal_strlit("Patched");
            reveal_strlit("Deleted");
            reveal_strlit("Restart");
            reveal_strlit("Update");
        }
        match self {
            NativeEventAction::Starting => "Starting",
            NativeEventAction::Started => "Started",
            NativeEventAction::Stopping => "Stopping",
            NativeEventAction::Stopped => "Stopped",
            NativeEventAction::Patched => "Patched",
            NativeEventAction::Deleted => "Deleted",
            NativeEventAction::Restart => "Restart",
            NativeEventAction::Update => "Update",
        }
    }

    /// The wire name in specification form.
    pub open spec fn spec_str(self) -> Seq<char> {
        match self {
            NativeEventAction::Starting => "Starting"@,
            NativeEventAction::Started => "Started"@,
            NativeEventAction::Stopping => "Stopping"@,
            NativeEventAction::Stopped => "Stopped"@,
            NativeEventAction::Patched => "Patched"@,
            NativeEventAction::Deleted => "Deleted"@,
            NativeEventAction::Restart => "Restart"@,
            NativeEventAction::Update => "Update"@,
        }
    }
}

impl EventObjectKind {
    /// Wire name of the kind.
    pub fn to_str(&self) -> (r: &'static str)
        ensures
            r@ == self.spec_str(),
    {
        proof {
            reveal_strlit("Cargo");
            reveal_strlit("Vm");
            reveal_strlit("Job");
            reveal_strlit("Resource");
        }
        match self {
            EventObjectKind::Cargo => "Cargo",
            EventObjectKind::Vm => "Vm",
            EventObjectKind::Job => "Job",
            EventObjectKind::Resource => "Resource",
        }
    }

    /// The wire name in specification form.
    pub open spec fn spec_str(self) -> Seq<char> {
        match self {
            EventObjectKind::Cargo => "Cargo"@,
            EventObjectKind::Vm => "Vm"@,
            EventObjectKind::Job => "Job"@,
            EventObjectKind::Resource => "Resource"@,
        }
    }
}

/// The framed form of an event on the event stream: one object naming the
/// action, the kind and the key, closed by a carriage return and a line
/// feed.
pub open spec fn spec_event_frame(e: EventView) -> Seq<char> {
    "{\"Action\":\""@ + e.action.spec_str() + "\",\"Kind\":\""@ + e.kind.spec_str()
        + "\",\"Key\":\""@ + crate::state::spec_escape(e.key) + "\"}\r\n"@
}

/// Frame an event for the event stream.
pub fn event_to_bytes(e: &Event) -> (r: String)
    ensures
        r@ == spec_event_frame(e@),
{
    proof {
        reveal_strlit("{\"Action\":\"");
        reveal_strlit("\",\"Kind\":\"");
        reveal_strlit("\",\"Key\":\"");
        reveal_strlit("\"}\r\n");
    }
    let mut out = String::from_str("{\"Action\":\"");
    out.append(e.action.to_str());
    out.append("\",\"Kind\":\"");
    out.append(e.kind.to_str());
    out.append("\",\"Key\":\"");
    let esc = crate::state::json_escape(e.key.as_str());
    out.append(esc.as_str());
    out.append("\"}\r\n");
    out
}

/// One subscriber of the bus, with its bounded queue.
#[derive(Debug)]
pub struct Subscriber {
    pub id: u64,
    pub queue: Vec<Event>,
    pub capacity: usize,
}

/// View of a subscriber.
#[verifier::ext_equal]
pub ghost struct SubscriberView {
    pub id: u64,
    pub queue: Seq<EventView>,
    pub capacity: usize,
}

impl View for Subscriber {
    type V = SubscriberView;

    open spec fn view(&self) -> SubscriberView {
        SubscriberView {
            id: self.id,
            queue: self.queue@.map_values(|e: Event| e@),
            capacity: self.capacity,
        }
    }
}

/// The in-process event bus.
pub struct EventBus {
    pub subscribers: Vec<Subscriber>,
    pub next_id: u64,
}

/// View of the bus.
#[verifier::ext_equal]
pub ghost struct EventBusView {
    pub subscribers: Seq<SubscriberView>,
    pub next_id: u64,
}

impl View for EventBus {
    type V = EventBusView;

    open spec fn view(&self) -> EventBusView {
        EventBusView {
            subscribers: self.subscribers@.map_values(|s: Subscriber| s@),
            next_id: self.next_id,
        }
    }
}

/// The state of the subscribers after one event is fanned out: a subscriber
/// with room keeps its place and the event lands at the back of its queue; a
/// subscriber whose queue is full is dropped.
pub open spec fn spec_fanout(subs: Seq<SubscriberView>, ev: EventView) -> Seq<SubscriberView> {
    subs.filter(|s: SubscriberView| s.queue.len() < s.capacity).map_values(
        |s: SubscriberView| SubscriberView { queue: s.queue.push(ev), ..s },
    )
}

impl EventBus {
    /// A bus with no subscribers.
    pub fn new() -> (r: EventBus)
        ensures
            r@.subscribers.len() == 0,
    {
        EventBus { subscribers: Vec::new(), next_id: 0 }
    }

    /// Attach a subscriber with a queue of the capacity and hand its
    /// identifier back.
    pub fn subscribe(&mut self, capacity: usize) -> (r: u64)
        requires
            old(self)@.next_id < u64::MAX,
        ensures
            r == old(self)@.next_id,
            final(self)@.next_id == old(self)@.next_id + 1,
            final(self)@.subscribers == old(self)@.subscribers.push(
                SubscriberView { id: r, queue: Seq::<EventView>::empty(), capacity },
            ),
    {
        let id = self.next_id;
        self.next_id = id + 1;
        self.subscribers.push(Subscriber { id, queue: Vec::new(), capacity });
        proof {
            assert(self@.subscribers =~~= old(self)@.subscribers.push(
                SubscriberView { id, queue: Seq::<EventView>::empty(), capacity },
            ));
        }
        id
    }

    /// Fan an event out: it lands at the back of every subscriber's queue,
    /// in subscriber order, and a subscriber without room is dropped.
    /// Emission order to one subscriber is thus kept: each surviving queue
    /// is the old queue with the event appended.
    pub fn emit(&mut self, ev: &Event)
        ensures
            final(self)@.subscribers == spec_fanout(old(self)@.subscribers, ev@),
            final(self)@.next_id == old(self)@.next_id,
    {
        let mut kept: Vec<Subscriber> = Vec::new();
        let mut i: usize = 0;
        while i < self.subscribers.len()
            invariant
                0 <= i <= self.subscribers.len(),
                self@ == old(self)@,
                kept@.map_values(|s: Subscriber| s@) == spec_fanout(
                    old(self)@.subscribers.take(i as int),
                    ev@,
                ),
            decreases self.subscribers.len() - i,
        {
            proof {
                crate::store::lemma_take_succ(old(self)@.subscribers, i as int);
                crate::store::lemma_filter_push(
                    old(self)@.subscribers.take(i as int),
                    |s: SubscriberView| s.queue.len() < s.capacity,
                    old(self)@.subscribers[i as int],
                );
                assert((old(self)@.subscribers.take(i as int).push(
                    old(self)@.subscribers[i as int],
                )).filter(|s: SubscriberView| s.queue.len() < s.capacity).map_values(
                    |s: SubscriberView| SubscriberView { queue: s.queue.push(ev@), ..s },
                ) =~= (if old(self)@.subscribers[i as int].queue.len() < old(self)@.subscribers[i as int].capacity {
                    spec_fanout(old(self)@.subscribers.take(i as int), ev@).push(
                        SubscriberView {
                            queue: old(self)@.subscribers[i as int].queue.push(ev@),
                            ..old(self)@.subscribers[i as int]
                        },
                    )
                } else {
                    spec_fanout(old(self)@.subscribers.take(i as int), ev@)
                }));
            }
            if self.subscribers[i].queue.len() < self.subscribers[i].capacity {
                let mut sub = Subscriber {
                    id: self.subscribers[i].id,
                    queue: clone_events(&self.subscribers[i].queue),
                    capacity: self.subscribers[i].capacity,
                };
                sub.queue.push(ev.clone());
                let ghost before = kept@.map_values(|s: Subscriber| s@);
                kept.push(sub);
                proof {
                    assert(kept@.map_values(|s: Subscriber| s@) =~~= before.push(
                        SubscriberView {
                            queue: old(self)@.subscribers[i as int].queue.push(ev@),
                            ..old(self)@.subscribers[i as int]
                        },
                    ));
                }
            }
            i += 1;
        }
        proof {
            assert(old(self)@.subscribers.take(self.subscribers.len() as int) =~= old(self)@.subscribers);
        }
        self.subscribers = kept;
        proof {
            assert(self@.subscribers =~= spec_fanout(old(self)@.subscribers, ev@));
        }
    }

    /// Hand a subscriber's queued events over and leave its queue empty.
    /// The first subscriber with the identifier is drained; an unknown
    /// identifier yields nothing and changes nothing.
    pub fn drain(&mut self, id: u64) -> (r: Vec<Event>)
        ensures
            final(self)@.next_id == old(self)@.next_id,
            (exists|i: int|
                0 <= i < old(self)@.subscribers.len()
                    && (#[trigger] old(self)@.subscribers[i]).id == id) ==> exists|i: int|
                0 <= i < old(self)@.subscribers.len()
                    && (#[trigger] old(self)@.subscribers[i]).id == id
                    && final(self)@.subscribers == old(self)@.subscribers.update(
                    i,
                    SubscriberView {
                        queue: Seq::<EventView>::empty(),
                        ..old(self)@.subscribers[i]
                    },
                ) && r@.map_values(|e: Event| e@) == old(self)@.subscribers[i].queue,
            !(exists|i: int|
                0 <= i < old(self)@.subscribers.len() && (#[trigger] old(self)@.subscribers[i]).id == id) ==> r@.len() == 0 && final(self)@ == old(self)@,
    {
        let mut i: usize = 0;
        while i < self.subscribers.len()
            invariant
                0 <= i <= self.subscribers.len(),
                self@ == old(self)@,
                forall|j: int|
                    0 <= j < i ==> (#[trigger] old(self)@.subscribers[j]).id != id,
            decreases self.subscribers.len() - i,
        {
            if self.subscribers[i].id == id {
                let taken = clone_events(&self.subscribers[i].queue);
                let sub = Subscriber {
                    id,
                    queue: Vec::new(),
                    capacity: self.subscribers[i].capacity,
                };
                self.subscribers.set(i, sub);
                proof {
                    assert(self@.subscribers =~~= old(self)@.subscribers.update(
                        i as int,
                        SubscriberView {
                            queue: Seq::<EventView>::empty(),
                            ..old(self)@.subscribers[i as int]
                        },
                    ));
                    assert(old(self)@.subscribers[i as int].id == id);
                }
                return taken;
            }
            i += 1;
        }
        Vec::new()
    }
}

/// Clone a queue of events, keeping the contents.
fn clone_events(v: &Vec<Event>) -> (r: Vec<Event>)
    ensures
        r@.map_values(|e: Event| e@) == v@.map_values(|e: Event| e@),
{
    let mut out: Vec<Event> = Vec::new();
    let mut i: usize = 0;
    while i < v.len()
        invariant
            0 <= i <= v@.len(),
            out@.map_values(|e: Event| e@) == v@.take(i as int).map_values(|e: Event| e@),
        decreases v@.len() - i,
    {
        let ghost before = out@.map_values(|e: Event| e@);
        out.push(v[i].clone());
        proof {
            assert(out@.map_values(|e: Event| e@) =~= before.push(v@[i as int]@));
            assert(v@.take(i + 1 as int).map_values(|e: Event| e@) =~= v@.take(
                i as int,
            ).map_values(|e: Event| e@).push(v@[i as int]@));
        }
        i += 1;
    }
    proof {
        assert(v@.take(v@.len() as int) =~= v@);
    }
    out
}

} // verus!
