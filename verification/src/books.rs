use vstd::prelude::*;

use crate::error::AppError;

verus! {

/// A book record.
#[derive(Debug)]
pub struct Book {
    pub id: u64,
    pub titulo: String,
    pub autor: String,
    pub editorial: String,
    pub anio: i32,
    pub descripcion: String,
    pub numero_pagina: i32,
}

impl Book {
    /// An exact copy; the caller keeps the original.
    pub fn duplicate(&self) -> (r: Book)
        ensures
            r == *self,
    {
        Book {
            id: self.id,
            titulo: self.titulo.clone(),
            autor: self.autor.clone(),
            editorial: self.editorial.clone(),
            anio: self.anio,
            descripcion: self.descripcion.clone(),
            numero_pagina: self.numero_pagina,
        }
    }
}

/// The body of a book-creation request; the store assigns the identifier.
#[derive(Debug)]
pub struct CreateBookDto {
    pub titulo: String,
    pub autor: String,
    pub editorial: String,
    pub anio: i32,
    pub descripcion: String,
    pub numero_pagina: i32,
}

/// The body of a book-update request: only the fields that are present
/// change.
#[derive(Debug)]
pub struct UpdateBookDto {
    pub titulo: Option<String>,
    pub autor: Option<String>,
    pub editorial: Option<String>,
    pub anio: Option<i32>,
    pub descripcion: Option<String>,
    pub numero_pagina: Option<i32>,
}

/// Whether some book in `s` carries the identifier `id`.
pub open spec fn contains_book_id(s: Seq<Book>, id: u64) -> bool {
    exists|i: int| 0 <= i < s.len() && s[i].id == id
}

/// No two books in `s` share an identifier.
pub open spec fn unique_book_ids(s: Seq<Book>) -> bool {
    forall|i: int, j: int| 0 <= i < j < s.len() ==> s[i].id != s[j].id
}

/// The position of the book carrying `id`; meaningful only when
/// `contains_book_id(s, id)` holds, and unique under `unique_book_ids(s)`.
pub open spec fn book_idx(s: Seq<Book>, id: u64) -> int {
    choose|i: int| 0 <= i < s.len() && s[i].id == id
}

/// The book `b` with every field the request carries replaced, and the rest
/// kept.
pub open spec fn book_updated(b: Book, dto: UpdateBookDto) -> Book {
    Book {
        id: b.id,
        titulo: match dto.titulo {
            Some(t) => t,
            None => b.titulo,
        },
        autor: match dto.autor {
            Some(a) => a,
            None => b.autor,
        },
        editorial: match dto.editorial {
            Some(e) => e,
            None => b.editorial,
        },
        anio: match dto.anio {
            Some(a) => a,
            None => b.anio,
        },
        descripcion: match dto.descripcion {
            Some(d) => d,
            None => b.descripcion,
        },
        numero_pagina: match dto.numero_pagina {
            Some(n) => n,
            None => b.numero_pagina,
        },
    }
}

/// Under unique identifiers, any position holding `id` is the position
/// `book_idx` names.
pub proof fn lemma_book_idx_unique(s: Seq<Book>, id: u64, i: int)
    requires
        unique_book_ids(s),
        0 <= i < s.len(),
        s[i].id == id,
    ensures
        book_idx(s, id) == i,
        contains_book_id(s, id),
{
    assert(contains_book_id(s, id));
    let j = book_idx(s, id);
    assert(0 <= j < s.len() && s[j].id == id);
    if i < j {
        assert(s[i].id != s[j].id);
    } else if j < i {
        assert(s[j].id != s[i].id);
    }
}

/// The book catalog: book records keyed by identifier, assigned at
/// insertion.
pub struct BookStore {
    pub books: Vec<Book>,
    pub next_id: u64,
}

impl View for BookStore {
    type V = Seq<Book>;

    open spec fn view(&self) -> Seq<Book> {
        self.books@
    }
}

impl BookStore {
    /// Identifiers are unique and below the insertion counter.
    pub open spec fn wf(self) -> bool {
        &&& unique_book_ids(self@)
        &&& forall|i: int| 0 <= i < self@.len() ==> (#[trigger] self@[i]).id < self.next_id
    }

    pub fn new() -> (r: BookStore)
        ensures
            r@ =~= Seq::<Book>::empty(),
            r.next_id == 0,
            r.wf(),
    {
        BookStore { books: Vec::new(), next_id: 0 }
    }

    /// Lists every book, in creation order.
    pub fn get_all_books(&self) -> (r: Vec<Book>)
        ensures
            r@ =~= self@,
    {
        let mut out: Vec<Book> = Vec::new();
        let n = self.books.len();
        for i in 0..n
            invariant
                n == self.books.len(),
                out@ =~= self.books@.subrange(0, i as int),
        {
            out.push(self.books[i].duplicate());
        }
        assert(out@ =~= self@);
        out
    }

    /// Creates a book under the next free identifier and returns the stored
    /// record. An exhausted identifier space is reported, with nothing
    /// changed.
    pub fn create_book(&mut self, dto: CreateBookDto) -> (r: Result<Book, AppError>)
        requires
            old(self).wf(),
        ensures
            final(self).wf(),
            old(self).next_id == u64::MAX ==> (r matches Err(AppError::InternalError(m)) && m@
                == "id fuera de rango"@ && *final(self) == *old(self)),
            old(self).next_id < u64::MAX ==> {
                let b = (Book {
                    id: old(self).next_id,
                    titulo: dto.titulo,
                    autor: dto.autor,
                    editorial: dto.editorial,
                    anio: dto.anio,
                    descripcion: dto.descripcion,
                    numero_pagina: dto.numero_pagina,
                });
                &&& r == Ok::<Book, AppError>(b)
                &&& final(self)@ =~= old(self)@.push(b)
                &&& final(self).next_id == old(self).next_id + 1
            },
    {
        if self.next_id == u64::MAX {
            return Err(AppError::InternalError("id fuera de rango".to_owned()));
        }
        let b = Book {
            id: self.next_id,
            titulo: dto.titulo,
            autor: dto.autor,
            editorial: dto.editorial,
            anio: dto.anio,
            descripcion: dto.descripcion,
            numero_pagina: dto.numero_pagina,
        };
        let stored = b.duplicate();
        self.books.push(stored);
        self.next_id = self.next_id + 1;
        Ok(b)
    }

    /// Looks a book up by identifier.
    pub fn get_book(&self, id: u64) -> (r: Result<Book, AppError>)
        requires
            self.wf(),
        ensures
            match r {
                Ok(b) => contains_book_id(self@, id) && b == self@[book_idx(self@, id)] && b.id
                    == id,
                Err(err) => err is NotFoundError && !contains_book_id(self@, id),
            },
    {
        let n = self.books.len();
        for i in 0..n
            invariant
                self.wf(),
                n == self.books.len(),
                forall|j: int| 0 <= j < i ==> self.books@[j].id != id,
        {
            if self.books[i].id == id {
                proof {
                    lemma_book_idx_unique(self@, id, i as int);
                }
                return Ok(self.books[i].duplicate());
            }
        }
        Err(AppError::NotFoundError)
    }

    /// Replaces exactly the fields the request carries of the book carrying
    /// `id`, and returns the updated record; a missing book is reported,
    /// with nothing changed.
    pub fn update_book(&mut self, id: u64, dto: UpdateBookDto) -> (r: Result<Book, AppError>)
        requires
            old(self).wf(),
        ensures
            final(self).wf(),
            final(self).next_id == old(self).next_id,
            !contains_book_id(old(self)@, id) ==> (r matches Err(AppError::NotFoundError)
                && *final(self) == *old(self)),
            contains_book_id(old(self)@, id) ==> {
                let i = book_idx(old(self)@, id);
                let b = book_updated(old(self)@[i], dto);
                r == Ok::<Book, AppError>(b) && final(self)@ =~= old(self)@.update(i, b)
            },
    {
        let n = self.books.len();
        for i in 0..n
            invariant
                old(self) == self,
                self.wf(),
                n == self.books.len(),
                forall|j: int| 0 <= j < i ==> self.books@[j].id != id,
        {
            if self.books[i].id == id {
                proof {
                    lemma_book_idx_unique(self@, id, i as int);
                }
                let old_b = self.books.remove(i);
                let UpdateBookDto { titulo, autor, editorial, anio, descripcion, numero_pagina } =
                    dto;
                let b = Book {
                    id: old_b.id,
                    titulo: match titulo {
                        Some(t) => t,
                        None => old_b.titulo,
                    },
                    autor: match autor {
                        Some(a) => a,
                        None => old_b.autor,
                    },
                    editorial: match editorial {
                        Some(e) => e,
                        None => old_b.editorial,
                    },
                    anio: match anio {
                        Some(a) => a,
                        None => old_b.anio,
                    },
                    descripcion: match descripcion {
                        Some(d) => d,
                        None => old_b.descripcion,
                    },
                    numero_pagina: match numero_pagina {
                        Some(np) => np,
                        None => old_b.numero_pagina,
                    },
                };
                let stored = b.duplicate();
                self.books.insert(i, stored);
                proof {
                    assert(self@ =~= old(self)@.update(i as int, b));
                }
                return Ok(b);
            }
        }
        Err(AppError::NotFoundError)
    }

    /// Removes the book carrying `id`; a missing book is reported, with
    /// nothing changed.
    pub fn delete_book(&mut self, id: u64) -> (r: Result<(), AppError>)
        requires
            old(self).wf(),
        ensures
            final(self).wf(),
            final(self).next_id == old(self).next_id,
            !contains_book_id(old(self)@, id) ==> (r matches Err(AppError::NotFoundError)
                && *final(self) == *old(self)),
            contains_book_id(old(self)@, id) ==> (r matches Ok(_) && final(self)@ =~= old(
                self,
            )@.remove(book_idx(old(self)@, id))),
    {
        let n = self.books.len();
        for i in 0..n
            invariant
                old(self) == self,
                self.wf(),
                n == self.books.len(),
                forall|j: int| 0 <= j < i ==> self.books@[j].id != id,
        {
            if self.books[i].id == id {
                proof {
                    lemma_book_idx_unique(self@, id, i as int);
                }
                self.books.remove(i);
                return Ok(());
            }
        }
        Err(AppError::NotFoundError)
    }
}

} // verus!
