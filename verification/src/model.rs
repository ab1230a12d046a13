use vstd::prelude::*;

verus! {

/// A ticketed event with a finite sellable capacity. `capacidad` counts the
/// tickets still available; the stores keep it non-negative at all times.
#[derive(Debug)]
pub struct Event {
    pub id: i32,
    pub nombre: String,
    pub fecha: String,
    pub lugar: String,
    pub precio: String,
    pub capacidad: i32,
}

impl Event {
    /// Availability is a non-negative counter.
    pub open spec fn wf(self) -> bool {
        self.capacidad >= 0
    }

    /// An exact copy; the caller keeps the original.
    pub fn duplicate(&self) -> (r: Event)
        ensures
            r == *self,
    {
        Event {
            id: self.id,
            nombre: self.nombre.clone(),
            fecha: self.fecha.clone(),
            lugar: self.lugar.clone(),
            precio: self.precio.clone(),
            capacidad: self.capacidad,
        }
    }
}

/// A record of tickets reserved by a user against an event. Created unpaid;
/// may become paid exactly once; may be deleted only while unpaid. The owner
/// never changes after creation.
#[derive(Debug)]
pub struct Purchase {
    pub id: u64,
    pub usuario_id: String,
    pub evento_id: i32,
    pub cantidad: i32,
    pub pagado: bool,
    pub fecha_compra: String,
}

impl Purchase {
    /// The quantity of a recorded purchase is a positive integer.
    pub open spec fn wf(self) -> bool {
        self.cantidad >= 1
    }

    /// An exact copy; the caller keeps the original.
    pub fn duplicate(&self) -> (r: Purchase)
        ensures
            r == *self,
    {
        Purchase {
            id: self.id,
            usuario_id: self.usuario_id.clone(),
            evento_id: self.evento_id,
            cantidad: self.cantidad,
            pagado: self.pagado,
            fecha_compra: self.fecha_compra.clone(),
        }
    }
}

/// The body of a purchase-creation request.
#[derive(Debug)]
pub struct CreatePurchaseDto {
    pub evento_id: i32,
    pub cantidad: i32,
}

/// The body of a purchase-update request; only the payment flag can change.
#[derive(Debug)]
pub struct UpdatePurchaseDto {
    pub pagado: Option<bool>,
}

/// Verified identity facts extracted from a caller's bearer credential. The
/// subject id `sub` is the acting user id for every protected operation.
#[derive(Debug)]
pub struct Claims {
    pub name: String,
    pub email: String,
    pub rol: String,
    pub sub: String,
    pub iat: u64,
    pub exp: u64,
}

impl Claims {
    /// An exact copy; the caller keeps the original.
    pub fn duplicate(&self) -> (r: Claims)
        ensures
            r == *self,
    {
        Claims {
            name: self.name.clone(),
            email: self.email.clone(),
            rol: self.rol.clone(),
            sub: self.sub.clone(),
            iat: self.iat,
            exp: self.exp,
        }
    }
}

} // verus!
