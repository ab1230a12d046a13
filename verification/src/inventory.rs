use vstd::prelude::*;

use crate::error::AppError;
use crate::model::Event;

verus! {

/// Whether some event in `s` carries the identifier `id`.
pub open spec fn contains_event_id(s: Seq<Event>, id: i32) -> bool {
    exists|i: int| 0 <= i < s.len() && s[i].id == id
}

/// No two events in `s` share an identifier.
pub open spec fn unique_event_ids(s: Seq<Event>) -> bool {
    forall|i: int, j: int| 0 <= i < j < s.len() ==> s[i].id != s[j].id
}

/// The position of the event carrying `id`; meaningful only when
/// `contains_event_id(s, id)` holds, and unique under `unique_event_ids(s)`.
pub open spec fn event_idx(s: Seq<Event>, id: i32) -> int {
    choose|i: int| 0 <= i < s.len() && s[i].id == id
}

/// The event `e` with its availability replaced by `c`.
pub open spec fn with_capacidad(e: Event, c: i32) -> Event {
    Event { capacidad: c, ..e }
}

/// Under unique identifiers, any position holding `id` is the position
/// `event_idx` names.
pub proof fn lemma_event_idx_unique(s: Seq<Event>, id: i32, i: int)
    requires
        unique_event_ids(s),
        0 <= i < s.len(),
        s[i].id == id,
    ensures
        event_idx(s, id) == i,
        contains_event_id(s, id),
{
    assert(contains_event_id(s, id));
    let j = event_idx(s, id);
    assert(0 <= j < s.len() && s[j].id == id);
    if i < j {
        assert(s[i].id != s[j].id);
    } else if j < i {
        assert(s[j].id != s[i].id);
    }
}

/// The event inventory store: each event's remaining ticket capacity, keyed
/// by event identifier. Availability is mutated only through the conditional
/// primitive `adjust_availability`, which never drives it below zero.
pub struct EventStore {
    pub events: Vec<Event>,
}

impl View for EventStore {
    type V = Seq<Event>;

    open spec fn view(&self) -> Seq<Event> {
        self.events@
    }
}

impl EventStore {
    /// Identifiers are unique and every availability counter is non-negative.
    pub open spec fn wf(self) -> bool {
        &&& unique_event_ids(self@)
        &&& forall|i: int| 0 <= i < self@.len() ==> (#[trigger] self@[i]).wf()
    }

    pub fn new() -> (r: EventStore)
        ensures
            r@ =~= Seq::<Event>::empty(),
            r.wf(),
    {
        EventStore { events: Vec::new() }
    }

    /// Registers a new event. Rejected when the identifier is already taken
    /// or the availability is negative; the store is unchanged on rejection.
    pub fn add_event(&mut self, e: Event) -> (r: Result<(), AppError>)
        requires
            old(self).wf(),
        ensures
            final(self).wf(),
            contains_event_id(old(self)@, e.id) || e.capacidad < 0 ==> (r matches Err(
                AppError::InvalidInput(m),
            ) && m@ == "evento invalido"@ && *final(self) == *old(self)),
            !contains_event_id(old(self)@, e.id) && e.capacidad >= 0 ==> (r matches Ok(_)
                && final(self)@ =~= old(self)@.push(e)),
    {
        if e.capacidad < 0 {
            return Err(AppError::InvalidInput("evento invalido".to_owned()));
        }
        let n = self.events.len();
        for i in 0..n
            invariant
                self.wf(),
                self@ =~= old(self)@,
                n == self.events.len(),
                forall|j: int| 0 <= j < i ==> self.events@[j].id != e.id,
        {
            if self.events[i].id == e.id {
                return Err(AppError::InvalidInput("evento invalido".to_owned()));
            }
        }
        assert(!contains_event_id(self@, e.id));
        self.events.push(e);
        Ok(())
    }

    /// Lists every event, in registration order.
    pub fn get_all_events(&self) -> (r: Vec<Event>)
        ensures
            r@ =~= self@,
    {
        let mut out: Vec<Event> = Vec::new();
        let n = self.events.len();
        for i in 0..n
            invariant
                n == self.events.len(),
                out@ =~= self.events@.subrange(0, i as int),
        {
            out.push(self.events[i].duplicate());
        }
        assert(out@ =~= self@);
        out
    }

    /// Looks an event up by identifier.
    pub fn get_event(&self, id: i32) -> (r: Result<Event, AppError>)
        requires
            self.wf(),
        ensures
            match r {
                Ok(e) => contains_event_id(self@, id) && e == self@[event_idx(self@, id)]
                    && e.id == id,
                Err(err) => err is NotFoundError && !contains_event_id(self@, id),
            },
    {
        let n = self.events.len();
        for i in 0..n
            invariant
                self.wf(),
                n == self.events.len(),
                forall|j: int| 0 <= j < i ==> self.events@[j].id != id,
        {
            if self.events[i].id == id {
                proof {
                    lemma_event_idx_unique(self@, id, i as int);
                }
                return Ok(self.events[i].duplicate());
            }
        }
        Err(AppError::NotFoundError)
    }

    /// Atomically applies `capacidad += delta` to the event carrying `id`:
    /// negative for a reservation, positive for a release. The update is
    /// conditional: a result below zero is rejected with `NotEnoughTickets`
    /// and one above the counter's range with `InternalError`, leaving the
    /// store unchanged either way.
    pub fn adjust_availability(&mut self, id: i32, delta: i32) -> (r: Result<Event, AppError>)
        requires
            old(self).wf(),
        ensures
            final(self).wf(),
            !contains_event_id(old(self)@, id) ==> (r matches Err(AppError::NotFoundError)
                && *final(self) == *old(self)),
            contains_event_id(old(self)@, id) ==> {
                let i = event_idx(old(self)@, id);
                let c = old(self)@[i].capacidad + delta;
                &&& c < 0 ==> (r matches Err(AppError::NotEnoughTickets) && *final(self) == *old(
                    self,
                ))
                &&& c > i32::MAX ==> (r matches Err(AppError::InternalError(m)) && m@
                    == "capacidad fuera de rango"@ && *final(self) == *old(self))
                &&& 0 <= c <= i32::MAX ==> r == Ok::<Event, AppError>(
                    with_capacidad(old(self)@[i], c as i32),
                ) && final(self)@ =~= old(self)@.update(i, with_capacidad(old(self)@[i], c as i32))
            },
    {
        let n = self.events.len();
        for i in 0..n
            invariant
                old(self) == self,
                self.wf(),
                n == self.events.len(),
                forall|j: int| 0 <= j < i ==> self.events@[j].id != id,
        {
            if self.events[i].id == id {
                proof {
                    lemma_event_idx_unique(self@, id, i as int);
                }
                let cap: i64 = self.events[i].capacidad as i64;
                let nc: i64 = cap + delta as i64;
                if nc < 0 {
                    return Err(AppError::NotEnoughTickets);
                }
                if nc > i32::MAX as i64 {
                    return Err(AppError::InternalError("capacidad fuera de rango".to_owned()));
                }
                let old_e = self.events.remove(i);
                let new_e = Event { capacidad: nc as i32, ..old_e };
                self.events.insert(i, new_e);
                proof {
                    assert(self@ =~= old(self)@.update(i as int, new_e));
                }
                return Ok(self.events[i].duplicate());
            }
        }
        Err(AppError::NotFoundError)
    }
}

} // verus!
