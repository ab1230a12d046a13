use vstd::prelude::*;

use crate::error::AppError;
use crate::model::Purchase;

verus! {

/// Whether some purchase in `s` carries the identifier `id`.
pub open spec fn contains_purchase_id(s: Seq<Purchase>, id: u64) -> bool {
    exists|i: int| 0 <= i < s.len() && s[i].id == id
}

/// No two purchases in `s` share an identifier.
pub open spec fn unique_purchase_ids(s: Seq<Purchase>) -> bool {
    forall|i: int, j: int| 0 <= i < j < s.len() ==> s[i].id != s[j].id
}

/// The position of the purchase carrying `id`; meaningful only when
/// `contains_purchase_id(s, id)` holds, and unique under
/// `unique_purchase_ids(s)`.
pub open spec fn purchase_idx(s: Seq<Purchase>, id: u64) -> int {
    choose|i: int| 0 <= i < s.len() && s[i].id == id
}

/// The purchase `p` with its payment flag replaced.
pub open spec fn with_pagado(p: Purchase, pagado: bool) -> Purchase {
    Purchase { pagado, ..p }
}

/// The ownership predicate of a user: holds of the purchases whose owner id
/// reads `uid`.
pub open spec fn owned_by(uid: Seq<char>) -> spec_fn(Purchase) -> bool {
    |p: Purchase| p.usuario_id@ == uid
}

/// Under unique identifiers, any position holding `id` is the position
/// `purchase_idx` names.
pub proof fn lemma_purchase_idx_unique(s: Seq<Purchase>, id: u64, i: int)
    requires
        unique_purchase_ids(s),
        0 <= i < s.len(),
        s[i].id == id,
    ensures
        purchase_idx(s, id) == i,
        contains_purchase_id(s, id),
{
    assert(contains_purchase_id(s, id));
    let j = purchase_idx(s, id);
    assert(0 <= j < s.len() && s[j].id == id);
    if i < j {
        assert(s[i].id != s[j].id);
    } else if j < i {
        assert(s[j].id != s[i].id);
    }
}

/// Appending one element filters to the old result, extended exactly when the
/// element satisfies the predicate.
pub proof fn lemma_filter_push(q: Seq<Purchase>, x: Purchase, pred: spec_fn(Purchase) -> bool)
    ensures
        q.push(x).filter(pred) == (if pred(x) {
            q.filter(pred).push(x)
        } else {
            q.filter(pred)
        }),
{
    reveal_with_fuel(Seq::<Purchase>::filter, 2);
    assert(q.push(x).drop_last() =~= q);
    assert(q.push(x).last() == x);
}

/// The purchase ledger: purchase records keyed by identifier, each owned by a
/// user and referencing an event. The ledger assigns identifiers at insertion
/// and owns the payment-state machine: unpaid records may become paid exactly
/// once, and only unpaid records may be removed.
pub struct PurchaseLedger {
    pub purchases: Vec<Purchase>,
    pub next_id: u64,
}

impl View for PurchaseLedger {
    type V = Seq<Purchase>;

    open spec fn view(&self) -> Seq<Purchase> {
        self.purchases@
    }
}

impl PurchaseLedger {
    /// Identifiers are unique and below the insertion counter, and every
    /// record carries a positive quantity.
    pub open spec fn wf(self) -> bool {
        &&& unique_purchase_ids(self@)
        &&& forall|i: int| 0 <= i < self@.len() ==> (#[trigger] self@[i]).id < self.next_id
        &&& forall|i: int| 0 <= i < self@.len() ==> (#[trigger] self@[i]).wf()
    }

    pub fn new() -> (r: PurchaseLedger)
        ensures
            r@ =~= Seq::<Purchase>::empty(),
            r.next_id == 0,
            r.wf(),
    {
        PurchaseLedger { purchases: Vec::new(), next_id: 0 }
    }

    /// Records a new unpaid purchase, assigning it the next identifier, and
    /// returns the stored record.
    pub fn insert(
        &mut self,
        usuario_id: String,
        evento_id: i32,
        cantidad: i32,
        fecha_compra: String,
    ) -> (r: Purchase)
        requires
            old(self).wf(),
            cantidad >= 1,
            old(self).next_id < u64::MAX,
        ensures
            final(self).wf(),
            r == (Purchase {
                id: old(self).next_id,
                usuario_id,
                evento_id,
                cantidad,
                pagado: false,
                fecha_compra,
            }),
            final(self)@ =~= old(self)@.push(r),
            final(self).next_id == old(self).next_id + 1,
    {
        let p = Purchase {
            id: self.next_id,
            usuario_id,
            evento_id,
            cantidad,
            pagado: false,
            fecha_compra,
        };
        let stored = p.duplicate();
        self.purchases.push(stored);
        self.next_id = self.next_id + 1;
        p
    }

    /// Looks a purchase up by identifier.
    pub fn get(&self, id: u64) -> (r: Result<Purchase, AppError>)
        requires
            self.wf(),
        ensures
            match r {
                Ok(p) => contains_purchase_id(self@, id) && p == self@[purchase_idx(self@, id)]
                    && p.id == id,
                Err(err) => err is NotFoundError && !contains_purchase_id(self@, id),
            },
    {
        let n = self.purchases.len();
        for i in 0..n
            invariant
                self.wf(),
                n == self.purchases.len(),
                forall|j: int| 0 <= j < i ==> self.purchases@[j].id != id,
        {
            if self.purchases[i].id == id {
                proof {
                    lemma_purchase_idx_unique(self@, id, i as int);
                }
                return Ok(self.purchases[i].duplicate());
            }
        }
        Err(AppError::NotFoundError)
    }

    /// Lists the purchases owned by `usuario_id`, in insertion order; never
    /// another user's records.
    pub fn list_by_user(&self, usuario_id: &String) -> (r: Vec<Purchase>)
        ensures
            r@ =~= self@.filter(owned_by(usuario_id@)),
    {
        let mut out: Vec<Purchase> = Vec::new();
        let n = self.purchases.len();
        for i in 0..n
            invariant
                n == self.purchases.len(),
                out@ =~= self.purchases@.subrange(0, i as int).filter(owned_by(usuario_id@)),
        {
            let ghost pre = self.purchases@.subrange(0, i as int);
            proof {
                assert(self.purchases@.subrange(0, i as int + 1) =~= pre.push(
                    self.purchases@[i as int],
                ));
                lemma_filter_push(pre, self.purchases@[i as int], owned_by(usuario_id@));
            }
            if self.purchases[i].usuario_id == *usuario_id {
                out.push(self.purchases[i].duplicate());
            }
        }
        assert(self.purchases@.subrange(0, n as int) =~= self.purchases@);
        out
    }

    /// Transitions the purchase from unpaid to paid; a purchase that is
    /// already paid is rejected, never re-marked.
    pub fn set_paid(&mut self, id: u64) -> (r: Result<Purchase, AppError>)
        requires
            old(self).wf(),
        ensures
            final(self).wf(),
            final(self).next_id == old(self).next_id,
            !contains_purchase_id(old(self)@, id) ==> (r matches Err(AppError::NotFoundError)
                && *final(self) == *old(self)),
            contains_purchase_id(old(self)@, id) ==> {
                let i = purchase_idx(old(self)@, id);
                &&& old(self)@[i].pagado ==> (r matches Err(AppError::AlreadyPaid) && *final(self)
                    == *old(self))
                &&& !old(self)@[i].pagado ==> r == Ok::<Purchase, AppError>(
                    with_pagado(old(self)@[i], true),
                ) && final(self)@ =~= old(self)@.update(i, with_pagado(old(self)@[i], true))
            },
    {
        let n = self.purchases.len();
        for i in 0..n
            invariant
                old(self) == self,
                self.wf(),
                n == self.purchases.len(),
                forall|j: int| 0 <= j < i ==> self.purchases@[j].id != id,
        {
            if self.purchases[i].id == id {
                proof {
                    lemma_purchase_idx_unique(self@, id, i as int);
                }
                if self.purchases[i].pagado {
                    return Err(AppError::AlreadyPaid);
                }
                let old_p = self.purchases.remove(i);
                let new_p = Purchase { pagado: true, ..old_p };
                self.purchases.insert(i, new_p);
                proof {
                    assert(self@ =~= old(self)@.update(i as int, new_p));
                }
                return Ok(self.purchases[i].duplicate());
            }
        }
        Err(AppError::NotFoundError)
    }

    /// Removes the purchase, only while it is unpaid; a paid purchase is
    /// rejected.
    pub fn delete(&mut self, id: u64) -> (r: Result<(), AppError>)
        requires
            old(self).wf(),
        ensures
            final(self).wf(),
            final(self).next_id == old(self).next_id,
            !contains_purchase_id(old(self)@, id) ==> (r matches Err(AppError::NotFoundError)
                && *final(self) == *old(self)),
            contains_purchase_id(old(self)@, id) ==> {
                let i = purchase_idx(old(self)@, id);
                &&& old(self)@[i].pagado ==> (r matches Err(AppError::AlreadyPaid) && *final(self)
                    == *old(self))
                &&& !old(self)@[i].pagado ==> (r matches Ok(_) && final(self)@ =~= old(
                    self,
                )@.remove(i))
            },
    {
        let n = self.purchases.len();
        for i in 0..n
            invariant
                old(self) == self,
                self.wf(),
                n == self.purchases.len(),
                forall|j: int| 0 <= j < i ==> self.purchases@[j].id != id,
        {
            if self.purchases[i].id == id {
                proof {
                    lemma_purchase_idx_unique(self@, id, i as int);
                }
                if self.purchases[i].pagado {
                    return Err(AppError::AlreadyPaid);
                }
                self.purchases.remove(i);
                return Ok(());
            }
        }
        Err(AppError::NotFoundError)
    }
}

} // verus!
