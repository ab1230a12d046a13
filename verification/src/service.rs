use vstd::prelude::*;

use crate::error::AppError;
use crate::inventory::{contains_event_id, event_idx, with_capacidad, EventStore};
use crate::ledger::{
    contains_purchase_id, owned_by, purchase_idx, with_pagado, PurchaseLedger,
};
use crate::model::{Claims, CreatePurchaseDto, Event, Purchase};

verus! {

/// How many tickets the purchase `p` holds reserved against the event
/// `evento_id`: its quantity while it is unpaid and references that event,
/// and nothing otherwise.
pub open spec fn reserved(p: Purchase, evento_id: i32) -> int {
    if !p.pagado && p.evento_id == evento_id {
        p.cantidad as int
    } else {
        0
    }
}

/// The total of tickets held reserved against `evento_id` by the unpaid
/// purchases in `s`. A deleted purchase returns exactly this share to the
/// event's availability.
pub open spec fn reserved_sum(s: Seq<Purchase>, evento_id: i32) -> int
    decreases s.len(),
{
    if s.len() == 0 {
        0
    } else {
        reserved_sum(s.drop_last(), evento_id) + reserved(s.last(), evento_id)
    }
}

pub proof fn lemma_reserved_sum_push(s: Seq<Purchase>, x: Purchase, evento_id: i32)
    ensures
        reserved_sum(s.push(x), evento_id) == reserved_sum(s, evento_id) + reserved(x, evento_id),
{
    assert(s.push(x).drop_last() =~= s);
}

pub proof fn lemma_reserved_sum_update(s: Seq<Purchase>, i: int, x: Purchase, evento_id: i32)
    requires
        0 <= i < s.len(),
    ensures
        reserved_sum(s.update(i, x), evento_id) == reserved_sum(s, evento_id) - reserved(
            s[i],
            evento_id,
        ) + reserved(x, evento_id),
    decreases s.len(),
{
    if i == s.len() - 1 {
        assert(s.update(i, x).drop_last() =~= s.drop_last());
        assert(s.update(i, x).last() == x);
    } else {
        assert(s.update(i, x).drop_last() =~= s.drop_last().update(i, x));
        assert(s.update(i, x).last() == s.last());
        lemma_reserved_sum_update(s.drop_last(), i, x, evento_id);
    }
}

pub proof fn lemma_reserved_sum_remove(s: Seq<Purchase>, i: int, evento_id: i32)
    requires
        0 <= i < s.len(),
    ensures
        reserved_sum(s.remove(i), evento_id) == reserved_sum(s, evento_id) - reserved(
            s[i],
            evento_id,
        ),
    decreases s.len(),
{
    if i == s.len() - 1 {
        assert(s.remove(i) =~= s.drop_last());
    } else {
        assert(s.remove(i).drop_last() =~= s.drop_last().remove(i));
        assert(s.remove(i).last() == s.last());
        lemma_reserved_sum_remove(s.drop_last(), i, evento_id);
    }
}

pub proof fn lemma_reserved_sum_nonneg(s: Seq<Purchase>, evento_id: i32)
    requires
        forall|j: int| 0 <= j < s.len() ==> (#[trigger] s[j]).wf(),
    ensures
        reserved_sum(s, evento_id) >= 0,
    decreases s.len(),
{
    if s.len() > 0 {
        lemma_reserved_sum_nonneg(s.drop_last(), evento_id);
    }
}

pub proof fn lemma_reserved_sum_absent(s: Seq<Purchase>, evento_id: i32)
    requires
        forall|j: int| 0 <= j < s.len() ==> (#[trigger] s[j]).evento_id != evento_id,
    ensures
        reserved_sum(s, evento_id) == 0,
    decreases s.len(),
{
    if s.len() > 0 {
        lemma_reserved_sum_absent(s.drop_last(), evento_id);
    }
}

/// The record that a successful purchase creation stores and returns: owned
/// by the caller, unpaid, carrying the next free identifier.
pub open spec fn new_purchase(
    pre: TicketSystem,
    claims: Claims,
    dto: CreatePurchaseDto,
    fecha_compra: String,
) -> Purchase {
    Purchase {
        id: pre.ledger.next_id,
        usuario_id: claims.sub,
        evento_id: dto.evento_id,
        cantidad: dto.cantidad,
        pagado: false,
        fecha_compra,
    }
}

/// Whether a creation request succeeds against the state `pre`: the quantity
/// is positive, the event exists, and enough tickets are available.
pub open spec fn create_accepted(pre: TicketSystem, dto: CreatePurchaseDto) -> bool {
    &&& dto.cantidad >= 1
    &&& contains_event_id(pre.inventory@, dto.evento_id)
    &&& pre.inventory@[event_idx(pre.inventory@, dto.evento_id)].capacidad >= dto.cantidad
}

/// The exact input/output relation of `TicketSystem::create_purchase`: which
/// requests are rejected, with which error and no state change, and what a
/// successful creation stores and returns.
pub open spec fn create_rel(
    pre: TicketSystem,
    claims: Claims,
    dto: CreatePurchaseDto,
    fecha_compra: String,
    post: TicketSystem,
    r: Result<Purchase, AppError>,
) -> bool {
    &&& dto.cantidad < 1 ==> (r matches Err(AppError::InvalidInput(m)) && m@
        == "cantidad invalida"@ && post == pre)
    &&& dto.cantidad >= 1 && !contains_event_id(pre.inventory@, dto.evento_id) ==> (r matches Err(
        AppError::NotFoundError,
    ) && post == pre)
    &&& dto.cantidad >= 1 && contains_event_id(pre.inventory@, dto.evento_id) && pre.availability(
        dto.evento_id,
    ) < dto.cantidad ==> (r matches Err(AppError::NotEnoughTickets) && post == pre)
    &&& create_accepted(pre, dto) ==> {
        let i = event_idx(pre.inventory@, dto.evento_id);
        let p = new_purchase(pre, claims, dto, fecha_compra);
        &&& r == Ok::<Purchase, AppError>(p)
        &&& post.inventory@ =~= pre.inventory@.update(
            i,
            with_capacidad(pre.inventory@[i], (pre.inventory@[i].capacidad - dto.cantidad) as i32),
        )
        &&& post.ledger@ =~= pre.ledger@.push(p)
        &&& post.ledger.next_id == pre.ledger.next_id + 1
    }
}

/// The exact input/output relation of `TicketSystem::pay_purchase`: a missing
/// purchase, a foreign owner, and a purchase already paid are rejected with
/// no state change; otherwise exactly the payment flag of that purchase
/// flips, and the record is returned paid.
pub open spec fn pay_rel(
    pre: TicketSystem,
    claims: Claims,
    purchase_id: u64,
    post: TicketSystem,
    r: Result<Purchase, AppError>,
) -> bool {
    &&& post.inventory == pre.inventory
    &&& post.ledger.next_id == pre.ledger.next_id
    &&& !contains_purchase_id(pre.ledger@, purchase_id) ==> (r matches Err(
        AppError::NotFoundError,
    ) && post == pre)
    &&& contains_purchase_id(pre.ledger@, purchase_id) ==> {
        let i = purchase_idx(pre.ledger@, purchase_id);
        let p = pre.ledger@[i];
        &&& p.usuario_id@ != claims.sub@ ==> (r matches Err(AppError::Unauthorized(m)) && m@
            == "No tienes permisos para pagar esta compra"@ && post == pre)
        &&& p.usuario_id@ == claims.sub@ && p.pagado ==> (r matches Err(AppError::AlreadyPaid)
            && post == pre)
        &&& p.usuario_id@ == claims.sub@ && !p.pagado ==> r == Ok::<Purchase, AppError>(
            with_pagado(p, true),
        ) && post.ledger@ =~= pre.ledger@.update(i, with_pagado(p, true))
    }
}

/// The exact input/output relation of `TicketSystem::delete_purchase`: a
/// missing purchase, a foreign owner, and a paid purchase are rejected with
/// no state change; otherwise the record is removed and the referenced
/// event's availability is raised by exactly the purchase's quantity.
pub open spec fn delete_rel(
    pre: TicketSystem,
    claims: Claims,
    purchase_id: u64,
    post: TicketSystem,
    r: Result<(), AppError>,
) -> bool {
    &&& post.ledger.next_id == pre.ledger.next_id
    &&& !contains_purchase_id(pre.ledger@, purchase_id) ==> (r matches Err(
        AppError::NotFoundError,
    ) && post == pre)
    &&& contains_purchase_id(pre.ledger@, purchase_id) ==> {
        let i = purchase_idx(pre.ledger@, purchase_id);
        let p = pre.ledger@[i];
        let j = event_idx(pre.inventory@, p.evento_id);
        &&& p.usuario_id@ != claims.sub@ ==> (r matches Err(AppError::Unauthorized(m)) && m@
            == "No tienes permisos para eliminar esta compra"@ && post == pre)
        &&& p.usuario_id@ == claims.sub@ && p.pagado ==> (r matches Err(AppError::AlreadyPaid)
            && post == pre)
        &&& p.usuario_id@ == claims.sub@ && !p.pagado ==> (r matches Ok(_) && post.ledger@
            =~= pre.ledger@.remove(i) && post.inventory@ =~= pre.inventory@.update(
            j,
            with_capacidad(pre.inventory@[j], (pre.inventory@[j].capacidad + p.cantidad) as i32),
        ))
    }
}

/// The purchase service: orchestrates inventory reservation, ledger writes,
/// ownership checks, and the payment-state machine over one event store and
/// one purchase ledger.
pub struct TicketSystem {
    pub inventory: EventStore,
    pub ledger: PurchaseLedger,
}

impl TicketSystem {
    /// The cross-entity invariant: both stores are well formed, no purchase
    /// references a nonexistent event, and each event's availability plus the
    /// tickets held reserved against it by unpaid purchases stays within the
    /// counter's range, so a cancellation can always return its tickets.
    pub open spec fn wf(self) -> bool {
        &&& self.inventory.wf()
        &&& self.ledger.wf()
        &&& forall|j: int|
            0 <= j < self.ledger@.len() ==> contains_event_id(
                self.inventory@,
                (#[trigger] self.ledger@[j]).evento_id,
            )
        &&& forall|i: int|
            0 <= i < self.inventory@.len() ==> (#[trigger] self.inventory@[i]).capacidad
                + reserved_sum(self.ledger@, self.inventory@[i].id) <= i32::MAX
    }

    /// The availability the system records for the event `evento_id`.
    pub open spec fn availability(self, evento_id: i32) -> int {
        self.inventory@[event_idx(self.inventory@, evento_id)].capacidad as int
    }

    pub fn new() -> (r: TicketSystem)
        ensures
            r.wf(),
            r.inventory@ =~= Seq::<Event>::empty(),
            r.ledger@ =~= Seq::<Purchase>::empty(),
            r.ledger.next_id == 0,
    {
        TicketSystem { inventory: EventStore::new(), ledger: PurchaseLedger::new() }
    }

    /// Registers a new event, rejecting a taken identifier or a negative
    /// availability.
    pub fn add_event(&mut self, e: Event) -> (r: Result<(), AppError>)
        requires
            old(self).wf(),
        ensures
            final(self).wf(),
            final(self).ledger == old(self).ledger,
            contains_event_id(old(self).inventory@, e.id) || e.capacidad < 0 ==> (r matches Err(
                AppError::InvalidInput(m),
            ) && m@ == "evento invalido"@ && final(self).inventory@ =~= old(self).inventory@),
            !contains_event_id(old(self).inventory@, e.id) && e.capacidad >= 0 ==> (r matches Ok(_)
                && final(self).inventory@ =~= old(self).inventory@.push(e)),
    {
        let ghost pre = *self;
        let ghost fresh = !contains_event_id(self.inventory@, e.id) && e.capacidad >= 0;
        let ghost eid = e.id;
        let r = self.inventory.add_event(e);
        proof {
            if fresh {
                assert forall|j: int| 0 <= j < self.ledger@.len() implies contains_event_id(
                    self.inventory@,
                    (#[trigger] self.ledger@[j]).evento_id,
                ) by {
                    let ev = self.ledger@[j].evento_id;
                    assert(contains_event_id(pre.inventory@, ev));
                    let w = choose|i: int|
                        0 <= i < pre.inventory@.len() && pre.inventory@[i].id == ev;
                    assert(self.inventory@[w].id == ev);
                }
                assert forall|i: int| 0 <= i < self.inventory@.len() implies (
                #[trigger] self.inventory@[i]).capacidad + reserved_sum(
                    self.ledger@,
                    self.inventory@[i].id,
                ) <= i32::MAX by {
                    if i < pre.inventory@.len() {
                        assert(self.inventory@[i] == pre.inventory@[i]);
                    } else {
                        assert(self.inventory@[i].id == eid);
                        assert(forall|j: int|
                            0 <= j < self.ledger@.len() ==> (
                            #[trigger] self.ledger@[j]).evento_id != eid);
                        lemma_reserved_sum_absent(self.ledger@, eid);
                    }
                }
            }
        }
        r
    }

    /// Lists every event.
    pub fn get_all_events(&self) -> (r: Vec<Event>)
        ensures
            r@ =~= self.inventory@,
    {
        self.inventory.get_all_events()
    }

    /// Looks an event up by identifier.
    pub fn get_event(&self, id: i32) -> (r: Result<Event, AppError>)
        requires
            self.wf(),
        ensures
            match r {
                Ok(e) => contains_event_id(self.inventory@, id) && e == self.inventory@[event_idx(
                    self.inventory@,
                    id,
                )] && e.id == id,
                Err(err) => err is NotFoundError && !contains_event_id(self.inventory@, id),
            },
    {
        self.inventory.get_event(id)
    }

    /// Creates a purchase for the caller: confirms availability and reserves
    /// the tickets through the store's conditional decrement, then records
    /// the unpaid purchase. A rejected request leaves both stores unchanged.
    pub fn create_purchase(
        &mut self,
        claims: &Claims,
        dto: &CreatePurchaseDto,
        fecha_compra: String,
    ) -> (r: Result<Purchase, AppError>)
        requires
            old(self).wf(),
            old(self).ledger.next_id < u64::MAX,
        ensures
            final(self).wf(),
            create_rel(*old(self), *claims, *dto, fecha_compra, *final(self), r),
    {
        if dto.cantidad < 1 {
            return Err(AppError::InvalidInput("cantidad invalida".to_owned()));
        }
        let ghost pre = *self;
        match self.inventory.adjust_availability(dto.evento_id, -dto.cantidad) {
            Err(e) => {
                proof {
                    if contains_event_id(pre.inventory@, dto.evento_id) {
                        let i = event_idx(pre.inventory@, dto.evento_id);
                        assert(pre.inventory@[i].capacidad - dto.cantidad <= i32::MAX);
                    }
                }
                Err(e)
            },
            Ok(_) => {
                let ghost i = event_idx(pre.inventory@, dto.evento_id);
                let p = self.ledger.insert(
                    claims.sub.clone(),
                    dto.evento_id,
                    dto.cantidad,
                    fecha_compra,
                );
                proof {
                    let post_inv = self.inventory@;
                    let post_led = self.ledger@;
                    assert forall|j: int| 0 <= j < post_led.len() implies contains_event_id(
                        post_inv,
                        (#[trigger] post_led[j]).evento_id,
                    ) by {
                        if j < pre.ledger@.len() {
                            let ev = pre.ledger@[j].evento_id;
                            assert(contains_event_id(pre.inventory@, ev));
                            let w = choose|k: int|
                                0 <= k < pre.inventory@.len() && pre.inventory@[k].id == ev;
                            assert(post_inv[w].id == ev);
                        } else {
                            assert(post_led[j].evento_id == dto.evento_id);
                            assert(post_inv[i].id == dto.evento_id);
                        }
                    }
                    assert forall|k: int| 0 <= k < post_inv.len() implies (
                    #[trigger] post_inv[k]).capacidad + reserved_sum(post_led, post_inv[k].id)
                        <= i32::MAX by {
                        lemma_reserved_sum_push(pre.ledger@, post_led.last(), post_inv[k].id);
                        if k != i {
                            assert(post_inv[k] == pre.inventory@[k]);
                            assert(pre.inventory@[k].id != dto.evento_id);
                        }
                    }
                }
                Ok(p)
            },
        }
    }

    /// Creates a purchase stamped with the current wall-clock time: the
    /// outcome is exactly that of `create_purchase` for the timestamp the
    /// clock returned.
    pub fn create_purchase_now(&mut self, claims: &Claims, dto: &CreatePurchaseDto) -> (r: Result<
        Purchase,
        AppError,
    >)
        requires
            old(self).wf(),
            old(self).ledger.next_id < u64::MAX,
        ensures
            final(self).wf(),
            exists|fecha: String| create_rel(*old(self), *claims, *dto, fecha, *final(self), r),
    {
        let fecha = crate::clock::now_rfc3339();
        let ghost f = fecha;
        let r = self.create_purchase(claims, dto, fecha);
        proof {
            assert(create_rel(*old(self), *claims, *dto, f, *self, r));
        }
        r
    }

    /// Lists the caller's purchases, and never another user's records.
    pub fn get_user_purchases(&self, claims: &Claims) -> (r: Vec<Purchase>)
        ensures
            r@ =~= self.ledger@.filter(owned_by(claims.sub@)),
    {
        self.ledger.list_by_user(&claims.sub)
    }

    /// Pays a purchase on behalf of the caller: the purchase must exist, be
    /// owned by the caller, and still be unpaid; it then becomes paid, and
    /// stays paid forever. A rejected request changes nothing.
    pub fn pay_purchase(&mut self, claims: &Claims, purchase_id: u64) -> (r: Result<
        Purchase,
        AppError,
    >)
        requires
            old(self).wf(),
        ensures
            final(self).wf(),
            pay_rel(*old(self), *claims, purchase_id, *final(self), r),
    {
        let p = match self.ledger.get(purchase_id) {
            Err(e) => {
                return Err(e);
            },
            Ok(p) => p,
        };
        if !(p.usuario_id == claims.sub) {
            return Err(AppError::Unauthorized("No tienes permisos para pagar esta compra".to_owned()));
        }
        let ghost pre = *self;
        let ghost i = purchase_idx(pre.ledger@, purchase_id);
        let r = self.ledger.set_paid(purchase_id);
        proof {
            if !pre.ledger@[i].pagado {
                let q = with_pagado(pre.ledger@[i], true);
                assert forall|j: int| 0 <= j < self.ledger@.len() implies contains_event_id(
                    self.inventory@,
                    (#[trigger] self.ledger@[j]).evento_id,
                ) by {
                    assert(self.ledger@[j].evento_id == pre.ledger@[j].evento_id);
                }
                assert forall|k: int| 0 <= k < self.inventory@.len() implies (
                #[trigger] self.inventory@[k]).capacidad + reserved_sum(
                    self.ledger@,
                    self.inventory@[k].id,
                ) <= i32::MAX by {
                    lemma_reserved_sum_update(pre.ledger@, i, q, self.inventory@[k].id);
                    assert(self.ledger@ =~= pre.ledger@.update(i, q));
                }
            }
        }
        r
    }

    /// Cancels an unpaid purchase on behalf of the caller: the purchase must
    /// exist, be owned by the caller, and still be unpaid. The record is
    /// removed first and the event's availability is then raised by the
    /// purchase's quantity, so no inventory is ever released while its ledger
    /// entry is still visible. A rejected request changes nothing.
    pub fn delete_purchase(&mut self, claims: &Claims, purchase_id: u64) -> (r: Result<
        (),
        AppError,
    >)
        requires
            old(self).wf(),
        ensures
            final(self).wf(),
            delete_rel(*old(self), *claims, purchase_id, *final(self), r),
    {
        let p = match self.ledger.get(purchase_id) {
            Err(e) => {
                return Err(e);
            },
            Ok(p) => p,
        };
        if !(p.usuario_id == claims.sub) {
            return Err(AppError::Unauthorized("No tienes permisos para eliminar esta compra".to_owned()));
        }
        if p.pagado {
            return Err(AppError::AlreadyPaid);
        }
        let ghost pre = *self;
        let ghost i = purchase_idx(pre.ledger@, purchase_id);
        let ghost j = event_idx(pre.inventory@, p.evento_id);
        let dr = self.ledger.delete(purchase_id);
        proof {
            assert(dr is Ok);
            assert(contains_event_id(pre.inventory@, p.evento_id));
            lemma_reserved_sum_remove(pre.ledger@, i, p.evento_id);
            lemma_reserved_sum_nonneg(self.ledger@, p.evento_id);
            assert(pre.inventory@[j].id == p.evento_id);
            assert(pre.inventory@[j].capacidad + reserved_sum(pre.ledger@, p.evento_id)
                <= i32::MAX);
            assert(pre.inventory@[j].capacidad + p.cantidad <= i32::MAX);
        }
        match self.inventory.adjust_availability(p.evento_id, p.cantidad) {
            Ok(_) => {
                proof {
                    let post_inv = self.inventory@;
                    let post_led = self.ledger@;
                    assert(post_led =~= pre.ledger@.remove(i));
                    assert forall|k: int| 0 <= k < post_led.len() implies contains_event_id(
                        post_inv,
                        (#[trigger] post_led[k]).evento_id,
                    ) by {
                        let ev = post_led[k].evento_id;
                        if k < i {
                            assert(ev == pre.ledger@[k].evento_id);
                        } else {
                            assert(ev == pre.ledger@[k + 1].evento_id);
                        }
                        assert(contains_event_id(pre.inventory@, ev));
                        let w = choose|x: int|
                            0 <= x < pre.inventory@.len() && pre.inventory@[x].id == ev;
                        assert(post_inv[w].id == ev);
                    }
                    assert forall|k: int| 0 <= k < post_inv.len() implies (
                    #[trigger] post_inv[k]).capacidad + reserved_sum(post_led, post_inv[k].id)
                        <= i32::MAX by {
                        lemma_reserved_sum_remove(pre.ledger@, i, post_inv[k].id);
                        if k != j {
                            assert(post_inv[k] == pre.inventory@[k]);
                        }
                    }
                }
                Ok(())
            },
            Err(e) => {
                proof {
                    assert(false);
                }
                Err(e)
            },
        }
    }
}

} // verus!
