use vstd::prelude::*;

use crate::error::AppError;
use crate::inventory::{contains_event_id, event_idx, lemma_event_idx_unique};
use crate::ledger::{contains_purchase_id, lemma_purchase_idx_unique, purchase_idx, with_pagado};
use crate::model::{Claims, CreatePurchaseDto, Purchase};
use crate::service::{create_accepted, create_rel, delete_rel, pay_rel, TicketSystem};

verus! {

/// For every event the system records, the availability counter is
/// non-negative, at all times: it is part of the invariant that every
/// operation of the service preserves.
pub proof fn lemma_availability_nonnegative(s: TicketSystem)
    requires
        s.wf(),
    ensures
        forall|i: int|
            0 <= i < s.inventory@.len() ==> (#[trigger] s.inventory@[i]).capacidad >= 0,
{
}

/// An unpaid purchase becomes paid exactly once: after one successful
/// payment, a second attempt on the same purchase is rejected with
/// `AlreadyPaid` and leaves the state unchanged.
pub proof fn lemma_pay_exactly_once(
    s0: TicketSystem,
    s1: TicketSystem,
    s2: TicketSystem,
    claims: Claims,
    purchase_id: u64,
    r1: Result<Purchase, AppError>,
    r2: Result<Purchase, AppError>,
)
    requires
        s0.wf(),
        s1.wf(),
        pay_rel(s0, claims, purchase_id, s1, r1),
        r1 is Ok,
        pay_rel(s1, claims, purchase_id, s2, r2),
    ensures
        r2 matches Err(AppError::AlreadyPaid),
        s2 == s1,
{
    assert(contains_purchase_id(s0.ledger@, purchase_id));
    let i = purchase_idx(s0.ledger@, purchase_id);
    let p = s0.ledger@[i];
    assert(p.usuario_id@ == claims.sub@ && !p.pagado);
    let q = with_pagado(p, true);
    assert(s1.ledger@ =~= s0.ledger@.update(i, q));
    assert(s1.ledger@[i] == q);
    lemma_purchase_idx_unique(s1.ledger@, purchase_id, i);
}

/// A caller cannot pay a purchase owned by a different user: whatever the
/// purchase's state, the attempt is rejected as `Unauthorized` and leaves the
/// state unchanged.
pub proof fn lemma_pay_requires_ownership(
    s: TicketSystem,
    post: TicketSystem,
    claims: Claims,
    purchase_id: u64,
    r: Result<Purchase, AppError>,
)
    requires
        pay_rel(s, claims, purchase_id, post, r),
        contains_purchase_id(s.ledger@, purchase_id),
        s.ledger@[purchase_idx(s.ledger@, purchase_id)].usuario_id@ != claims.sub@,
    ensures
        r matches Err(AppError::Unauthorized(_)),
        post == s,
{
}

/// A caller cannot delete a purchase owned by a different user: whatever the
/// purchase's state, the attempt is rejected as `Unauthorized` and leaves the
/// state unchanged.
pub proof fn lemma_delete_requires_ownership(
    s: TicketSystem,
    post: TicketSystem,
    claims: Claims,
    purchase_id: u64,
    r: Result<(), AppError>,
)
    requires
        delete_rel(s, claims, purchase_id, post, r),
        contains_purchase_id(s.ledger@, purchase_id),
        s.ledger@[purchase_idx(s.ledger@, purchase_id)].usuario_id@ != claims.sub@,
    ensures
        r matches Err(AppError::Unauthorized(_)),
        post == s,
{
}

/// A run of single-ticket purchase creations against an event holding
/// exactly one ticket per buyer — serialized, as the store's conditional
/// decrement serializes them — all succeed and leave the availability at
/// zero.
pub proof fn lemma_sellout(
    states: Seq<TicketSystem>,
    buyers: Seq<Claims>,
    dtos: Seq<CreatePurchaseDto>,
    fechas: Seq<String>,
    results: Seq<Result<Purchase, AppError>>,
    evento_id: i32,
)
    requires
        states.len() == buyers.len() + 1,
        dtos.len() == buyers.len(),
        fechas.len() == buyers.len(),
        results.len() == buyers.len(),
        forall|k: int| 0 <= k < states.len() ==> (#[trigger] states[k]).wf(),
        forall|k: int|
            0 <= k < buyers.len() ==> (#[trigger] dtos[k]).evento_id == evento_id
                && dtos[k].cantidad == 1,
        contains_event_id(states[0].inventory@, evento_id),
        states[0].availability(evento_id) == buyers.len(),
        forall|k: int|
            0 <= k < buyers.len() ==> create_rel(
                states[k],
                buyers[k],
                dtos[k],
                fechas[k],
                states[k + 1],
                #[trigger] results[k],
            ),
    ensures
        forall|k: int| 0 <= k < buyers.len() ==> (#[trigger] results[k]) is Ok,
        contains_event_id(states[states.len() - 1].inventory@, evento_id),
        states[states.len() - 1].availability(evento_id) == 0,
    decreases buyers.len(),
{
    if buyers.len() == 0 {
    } else {
        let s0 = states[0];
        let s1 = states[1];
        let i = event_idx(s0.inventory@, evento_id);
        assert(s0.inventory@[i].id == evento_id);
        assert(create_accepted(s0, dtos[0]));
        assert(results[0] is Ok);
        assert(s1.inventory@[i].id == evento_id);
        lemma_event_idx_unique(s1.inventory@, evento_id, i);
        assert(s1.availability(evento_id) == buyers.len() - 1);
        let st = states.skip(1);
        let bt = buyers.skip(1);
        let dt = dtos.skip(1);
        let ft = fechas.skip(1);
        let rt = results.skip(1);
        assert forall|k: int| 0 <= k < bt.len() implies create_rel(
            st[k],
            bt[k],
            dt[k],
            ft[k],
            st[k + 1],
            #[trigger] rt[k],
        ) by {
            assert(create_rel(
                states[k + 1],
                buyers[k + 1],
                dtos[k + 1],
                fechas[k + 1],
                states[k + 2],
                results[k + 1],
            ));
        }
        lemma_sellout(st, bt, dt, ft, rt, evento_id);
        assert forall|k: int| 0 <= k < buyers.len() implies (#[trigger] results[k]) is Ok by {
            if k > 0 {
                assert(rt[k - 1] is Ok);
            }
        }
        assert(st[st.len() - 1] == states[states.len() - 1]);
    }
}

/// Once an event is sold out, one further single-ticket request is rejected
/// with `NotEnoughTickets` and changes nothing.
pub proof fn lemma_soldout_rejects(
    s: TicketSystem,
    post: TicketSystem,
    claims: Claims,
    dto: CreatePurchaseDto,
    fecha: String,
    r: Result<Purchase, AppError>,
    evento_id: i32,
)
    requires
        contains_event_id(s.inventory@, evento_id),
        s.availability(evento_id) == 0,
        dto.evento_id == evento_id,
        dto.cantidad == 1,
        create_rel(s, claims, dto, fecha, post, r),
    ensures
        r matches Err(AppError::NotEnoughTickets),
        post == s,
{
}

} // verus!
