use eventos::books::{BookStore, CreateBookDto, UpdateBookDto};
use eventos::error::AppError;
use eventos::rooms::{CreateHabitacionDto, RoomStore, UpdateHabitacionDto};

fn room_dto(numero: i32) -> CreateHabitacionDto {
    CreateHabitacionDto {
        numero_habitacion: numero,
        tipo_habitacion: "doble".to_string(),
        precio_noche: "80.00".to_string(),
        estado: "libre".to_string(),
        descripcion: "Vista al mar".to_string(),
    }
}

fn book_dto(titulo: &str) -> CreateBookDto {
    CreateBookDto {
        titulo: titulo.to_string(),
        autor: "Autor".to_string(),
        editorial: "Editorial".to_string(),
        anio: 1999,
        descripcion: "Desc".to_string(),
        numero_pagina: 240,
    }
}

#[test]
fn rooms_assign_successive_ids_above_the_maximum() {
    let mut s = RoomStore::new();
    let a = s.create_habitacion(room_dto(101)).unwrap();
    let b = s.create_habitacion(room_dto(102)).unwrap();
    assert_eq!(a.id, 1);
    assert_eq!(b.id, 2);
    s.delete_habitacion(1).unwrap();
    let c = s.create_habitacion(room_dto(103)).unwrap();
    assert_eq!(c.id, 3);
    let all = s.get_all_habitaciones();
    assert_eq!(all.len(), 2);
    assert_eq!(all[0].id, 2);
    assert_eq!(all[1].id, 3);
}

#[test]
fn rooms_update_replaces_every_field_but_the_id() {
    let mut s = RoomStore::new();
    s.create_habitacion(room_dto(101)).unwrap();
    let updated = s
        .update_habitacion(
            1,
            UpdateHabitacionDto {
                numero_habitacion: 201,
                tipo_habitacion: "suite".to_string(),
                precio_noche: "150.00".to_string(),
                estado: "ocupada".to_string(),
                descripcion: "Renovada".to_string(),
            },
        )
        .unwrap();
    assert_eq!(updated.id, 1);
    assert_eq!(updated.numero_habitacion, 201);
    assert_eq!(updated.tipo_habitacion, "suite");
    let all = s.get_all_habitaciones();
    assert_eq!(all.len(), 1);
    assert_eq!(all[0].estado, "ocupada");
}

#[test]
fn rooms_missing_id_reports_not_found() {
    let mut s = RoomStore::new();
    assert!(matches!(s.delete_habitacion(9), Err(AppError::NotFoundError)));
    let r = s.update_habitacion(
        9,
        UpdateHabitacionDto {
            numero_habitacion: 1,
            tipo_habitacion: "x".to_string(),
            precio_noche: "1".to_string(),
            estado: "x".to_string(),
            descripcion: "x".to_string(),
        },
    );
    assert!(matches!(r, Err(AppError::NotFoundError)));
}

#[test]
fn books_create_get_delete() {
    let mut s = BookStore::new();
    let a = s.create_book(book_dto("Uno")).unwrap();
    let b = s.create_book(book_dto("Dos")).unwrap();
    assert_eq!(a.id, 0);
    assert_eq!(b.id, 1);
    assert_eq!(s.get_book(1).unwrap().titulo, "Dos");
    s.delete_book(0).unwrap();
    assert!(matches!(s.get_book(0), Err(AppError::NotFoundError)));
    assert_eq!(s.get_all_books().len(), 1);
}

#[test]
fn books_update_changes_only_present_fields() {
    let mut s = BookStore::new();
    s.create_book(book_dto("Original")).unwrap();
    let updated = s
        .update_book(
            0,
            UpdateBookDto {
                titulo: Some("Nuevo".to_string()),
                autor: None,
                editorial: None,
                anio: Some(2024),
                descripcion: None,
                numero_pagina: None,
            },
        )
        .unwrap();
    assert_eq!(updated.titulo, "Nuevo");
    assert_eq!(updated.autor, "Autor");
    assert_eq!(updated.anio, 2024);
    assert_eq!(updated.numero_pagina, 240);
}

#[test]
fn books_update_with_empty_request_returns_the_record_unchanged() {
    let mut s = BookStore::new();
    s.create_book(book_dto("Original")).unwrap();
    let updated = s
        .update_book(
            0,
            UpdateBookDto {
                titulo: None,
                autor: None,
                editorial: None,
                anio: None,
                descripcion: None,
                numero_pagina: None,
            },
        )
        .unwrap();
    assert_eq!(updated.titulo, "Original");
    assert_eq!(updated.anio, 1999);
    assert!(matches!(s.update_book(5, UpdateBookDto {
        titulo: None,
        autor: None,
        editorial: None,
        anio: None,
        descripcion: None,
        numero_pagina: None,
    }), Err(AppError::NotFoundError)));
}
