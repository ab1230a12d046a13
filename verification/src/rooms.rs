use vstd::prelude::*;

use crate::error::AppError;

verus! {

/// A hotel room record.
#[derive(Debug)]
pub struct Habitacion {
    pub id: i32,
    pub numero_habitacion: i32,
    pub tipo_habitacion: String,
    pub precio_noche: String,
    pub estado: String,
    pub descripcion: String,
}

impl Habitacion {
    /// An exact copy; the caller keeps the original.
    pub fn duplicate(&self) -> (r: Habitacion)
        ensures
            r == *self,
    {
        Habitacion {
            id: self.id,
            numero_habitacion: self.numero_habitacion,
            tipo_habitacion: self.tipo_habitacion.clone(),
            precio_noche: self.precio_noche.clone(),
            estado: self.estado.clone(),
            descripcion: self.descripcion.clone(),
        }
    }
}

/// The body of a room-creation request; the store assigns the identifier.
#[derive(Debug)]
pub struct CreateHabitacionDto {
    pub numero_habitacion: i32,
    pub tipo_habitacion: String,
    pub precio_noche: String,
    pub estado: String,
    pub descripcion: String,
}

/// The body of a room-update request: every field but the identifier is
/// replaced.
#[derive(Debug)]
pub struct UpdateHabitacionDto {
    pub numero_habitacion: i32,
    pub tipo_habitacion: String,
    pub precio_noche: String,
    pub estado: String,
    pub descripcion: String,
}

/// Whether some room in `s` carries the identifier `id`.
pub open spec fn contains_room_id(s: Seq<Habitacion>, id: i32) -> bool {
    exists|i: int| 0 <= i < s.len() && s[i].id == id
}

/// No two rooms in `s` share an identifier.
pub open spec fn unique_room_ids(s: Seq<Habitacion>) -> bool {
    forall|i: int, j: int| 0 <= i < j < s.len() ==> s[i].id != s[j].id
}

/// The position of the room carrying `id`; meaningful only when
/// `contains_room_id(s, id)` holds, and unique under `unique_room_ids(s)`.
pub open spec fn room_idx(s: Seq<Habitacion>, id: i32) -> int {
    choose|i: int| 0 <= i < s.len() && s[i].id == id
}

/// The largest identifier in `s`, and zero for an empty store: the next room
/// is assigned one more.
pub open spec fn max_room_id(s: Seq<Habitacion>) -> int
    decreases s.len(),
{
    if s.len() == 0 {
        0
    } else {
        let m = max_room_id(s.drop_last());
        if s.last().id > m {
            s.last().id as int
        } else {
            m
        }
    }
}

/// Under unique identifiers, any position holding `id` is the position
/// `room_idx` names.
pub proof fn lemma_room_idx_unique(s: Seq<Habitacion>, id: i32, i: int)
    requires
        unique_room_ids(s),
        0 <= i < s.len(),
        s[i].id == id,
    ensures
        room_idx(s, id) == i,
        contains_room_id(s, id),
{
    assert(contains_room_id(s, id));
    let j = room_idx(s, id);
    assert(0 <= j < s.len() && s[j].id == id);
    if i < j {
        assert(s[i].id != s[j].id);
    } else if j < i {
        assert(s[j].id != s[i].id);
    }
}

/// Every identifier in `s` is at most `max_room_id(s)`.
pub proof fn lemma_max_room_id_bound(s: Seq<Habitacion>, i: int)
    requires
        0 <= i < s.len(),
    ensures
        s[i].id <= max_room_id(s),
    decreases s.len(),
{
    if i == s.len() - 1 {
    } else {
        lemma_max_room_id_bound(s.drop_last(), i);
    }
}

/// The room store: room records keyed by identifier, which the store assigns
/// as one more than the largest identifier yet seen.
pub struct RoomStore {
    pub habitaciones: Vec<Habitacion>,
}

impl View for RoomStore {
    type V = Seq<Habitacion>;

    open spec fn view(&self) -> Seq<Habitacion> {
        self.habitaciones@
    }
}

impl RoomStore {
    /// Identifiers are unique and positive.
    pub open spec fn wf(self) -> bool {
        &&& unique_room_ids(self@)
        &&& forall|i: int| 0 <= i < self@.len() ==> (#[trigger] self@[i]).id >= 1
    }

    pub fn new() -> (r: RoomStore)
        ensures
            r@ =~= Seq::<Habitacion>::empty(),
            r.wf(),
    {
        RoomStore { habitaciones: Vec::new() }
    }

    /// Lists every room, in creation order.
    pub fn get_all_habitaciones(&self) -> (r: Vec<Habitacion>)
        ensures
            r@ =~= self@,
    {
        let mut out: Vec<Habitacion> = Vec::new();
        let n = self.habitaciones.len();
        for i in 0..n
            invariant
                n == self.habitaciones.len(),
                out@ =~= self.habitaciones@.subrange(0, i as int),
        {
            out.push(self.habitaciones[i].duplicate());
        }
        assert(out@ =~= self@);
        out
    }

    /// Creates a room under the next free identifier — one more than the
    /// largest yet seen — and returns the stored record. An identifier space
    /// exhausted at the counter's top is reported, with nothing changed.
    pub fn create_habitacion(&mut self, dto: CreateHabitacionDto) -> (r: Result<
        Habitacion,
        AppError,
    >)
        requires
            old(self).wf(),
        ensures
            final(self).wf(),
            max_room_id(old(self)@) >= i32::MAX ==> (r matches Err(AppError::InternalError(m))
                && m@ == "id fuera de rango"@ && *final(self) == *old(self)),
            max_room_id(old(self)@) < i32::MAX ==> {
                let h = (Habitacion {
                    id: (max_room_id(old(self)@) + 1) as i32,
                    numero_habitacion: dto.numero_habitacion,
                    tipo_habitacion: dto.tipo_habitacion,
                    precio_noche: dto.precio_noche,
                    estado: dto.estado,
                    descripcion: dto.descripcion,
                });
                r == Ok::<Habitacion, AppError>(h) && final(self)@ =~= old(self)@.push(h)
            },
    {
        let n = self.habitaciones.len();
        let mut max_id: i32 = 0;
        for i in 0..n
            invariant
                self.wf(),
                *self == *old(self),
                n == self.habitaciones.len(),
                max_id == max_room_id(self.habitaciones@.subrange(0, i as int)),
                max_id >= 0,
        {
            proof {
                assert(self.habitaciones@.subrange(0, i as int + 1).drop_last()
                    =~= self.habitaciones@.subrange(0, i as int));
            }
            if self.habitaciones[i].id > max_id {
                max_id = self.habitaciones[i].id;
            }
        }
        proof {
            assert(self.habitaciones@.subrange(0, n as int) =~= self.habitaciones@);
        }
        if max_id == i32::MAX {
            return Err(AppError::InternalError("id fuera de rango".to_owned()));
        }
        let h = Habitacion {
            id: max_id + 1,
            numero_habitacion: dto.numero_habitacion,
            tipo_habitacion: dto.tipo_habitacion,
            precio_noche: dto.precio_noche,
            estado: dto.estado,
            descripcion: dto.descripcion,
        };
        let stored = h.duplicate();
        proof {
            assert forall|i: int| 0 <= i < self@.len() implies (#[trigger] self@[i]).id != h.id by {
                lemma_max_room_id_bound(self@, i);
            }
        }
        self.habitaciones.push(stored);
        Ok(h)
    }

    /// Replaces every field but the identifier of the room carrying `id`,
    /// and returns the updated record; a missing room is reported, with
    /// nothing changed.
    pub fn update_habitacion(&mut self, id: i32, dto: UpdateHabitacionDto) -> (r: Result<
        Habitacion,
        AppError,
    >)
        requires
            old(self).wf(),
        ensures
            final(self).wf(),
            !contains_room_id(old(self)@, id) ==> (r matches Err(AppError::NotFoundError)
                && *final(self) == *old(self)),
            contains_room_id(old(self)@, id) ==> {
                let h = (Habitacion {
                    id,
                    numero_habitacion: dto.numero_habitacion,
                    tipo_habitacion: dto.tipo_habitacion,
                    precio_noche: dto.precio_noche,
                    estado: dto.estado,
                    descripcion: dto.descripcion,
                });
                r == Ok::<Habitacion, AppError>(h) && final(self)@ =~= old(self)@.update(
                    room_idx(old(self)@, id),
                    h,
                )
            },
    {
        let n = self.habitaciones.len();
        for i in 0..n
            invariant
                old(self) == self,
                self.wf(),
                n == self.habitaciones.len(),
                forall|j: int| 0 <= j < i ==> self.habitaciones@[j].id != id,
        {
            if self.habitaciones[i].id == id {
                proof {
                    lemma_room_idx_unique(self@, id, i as int);
                }
                let h = Habitacion {
                    id,
                    numero_habitacion: dto.numero_habitacion,
                    tipo_habitacion: dto.tipo_habitacion,
                    precio_noche: dto.precio_noche,
                    estado: dto.estado,
                    descripcion: dto.descripcion,
                };
                let stored = h.duplicate();
                self.habitaciones.remove(i);
                self.habitaciones.insert(i, stored);
                proof {
                    assert(self@ =~= old(self)@.update(i as int, h));
                }
                return Ok(h);
            }
        }
        Err(AppError::NotFoundError)
    }

    /// Removes the room carrying `id`; a missing room is reported, with
    /// nothing changed.
    pub fn delete_habitacion(&mut self, id: i32) -> (r: Result<(), AppError>)
        requires
            old(self).wf(),
        ensures
            final(self).wf(),
            !contains_room_id(old(self)@, id) ==> (r matches Err(AppError::NotFoundError)
                && *final(self) == *old(self)),
            contains_room_id(old(self)@, id) ==> (r matches Ok(_) && final(self)@ =~= old(
                self,
            )@.remove(room_idx(old(self)@, id))),
    {
        let n = self.habitaciones.len();
        for i in 0..n
            invariant
                old(self) == self,
                self.wf(),
                n == self.habitaciones.len(),
                forall|j: int| 0 <= j < i ==> self.habitaciones@[j].id != id,
        {
            if self.habitaciones[i].id == id {
                proof {
                    lemma_room_idx_unique(self@, id, i as int);
                }
                self.habitaciones.remove(i);
                return Ok(());
            }
        }
        Err(AppError::NotFoundError)
    }
}

} // verus!
