use eventos::error::AppError;
use eventos::model::{Claims, CreatePurchaseDto, Event};
use eventos::service::TicketSystem;

fn claims_for(sub: &str, name: &str, email: &str) -> Claims {
    Claims {
        name: name.to_string(),
        email: email.to_string(),
        rol: "cliente".to_string(),
        sub: sub.to_string(),
        iat: 1_700_000_000,
        exp: 1_800_000_000,
    }
}

fn event(id: i32, capacidad: i32) -> Event {
    Event {
        id,
        nombre: format!("Evento {}", id),
        fecha: "2025-06-01".to_string(),
        lugar: "Auditorio".to_string(),
        precio: "25.00".to_string(),
        capacidad,
    }
}

fn availability(s: &TicketSystem, id: i32) -> i32 {
    s.get_event(id).unwrap().capacidad
}

#[test]
fn scenario_sellout_pay_then_delete_rejected() {
    let mut s = TicketSystem::new();
    s.add_event(event(1, 2)).unwrap();
    let u1 = claims_for("U1", "Uno", "u1@example.com");
    let u2 = claims_for("U2", "Dos", "u2@example.com");

    let p1 = s
        .create_purchase(&u1, &CreatePurchaseDto { evento_id: 1, cantidad: 2 }, "t0".to_string())
        .unwrap();
    assert_eq!(availability(&s, 1), 0);
    assert!(!p1.pagado);
    assert_eq!(p1.usuario_id, "U1");

    let r2 = s.create_purchase(&u2, &CreatePurchaseDto { evento_id: 1, cantidad: 1 }, "t1".to_string());
    assert!(matches!(r2, Err(AppError::NotEnoughTickets)));

    let paid = s.pay_purchase(&u1, p1.id).unwrap();
    assert!(paid.pagado);

    let rd = s.delete_purchase(&u1, p1.id);
    assert!(matches!(rd, Err(AppError::AlreadyPaid)));
    assert_eq!(availability(&s, 1), 0);
}

#[test]
fn create_purchase_decrements_availability() {
    let mut s = TicketSystem::new();
    s.add_event(event(7, 10)).unwrap();
    let u = claims_for("U1", "Uno", "u1@example.com");
    let p = s
        .create_purchase(&u, &CreatePurchaseDto { evento_id: 7, cantidad: 3 }, "f".to_string())
        .unwrap();
    assert_eq!(availability(&s, 7), 7);
    assert_eq!(p.evento_id, 7);
    assert_eq!(p.cantidad, 3);
    assert!(!p.pagado);
    assert_eq!(p.fecha_compra, "f");
    assert_eq!(p.id, 0);
}

#[test]
fn create_purchase_insufficient_leaves_availability_unchanged() {
    let mut s = TicketSystem::new();
    s.add_event(event(7, 2)).unwrap();
    let u = claims_for("U1", "Uno", "u1@example.com");
    let r = s.create_purchase(&u, &CreatePurchaseDto { evento_id: 7, cantidad: 3 }, "f".to_string());
    assert!(matches!(r, Err(AppError::NotEnoughTickets)));
    assert_eq!(availability(&s, 7), 2);
    assert_eq!(s.get_user_purchases(&u).len(), 0);
}

#[test]
fn create_purchase_rejects_nonpositive_quantity() {
    let mut s = TicketSystem::new();
    s.add_event(event(7, 2)).unwrap();
    let u = claims_for("U1", "Uno", "u1@example.com");
    let r0 = s.create_purchase(&u, &CreatePurchaseDto { evento_id: 7, cantidad: 0 }, "f".to_string());
    assert!(matches!(r0, Err(AppError::InvalidInput(_))));
    let rn = s.create_purchase(&u, &CreatePurchaseDto { evento_id: 7, cantidad: -4 }, "f".to_string());
    assert!(matches!(rn, Err(AppError::InvalidInput(_))));
    assert_eq!(availability(&s, 7), 2);
}

#[test]
fn create_purchase_unknown_event_not_found() {
    let mut s = TicketSystem::new();
    let u = claims_for("U1", "Uno", "u1@example.com");
    let r = s.create_purchase(&u, &CreatePurchaseDto { evento_id: 9, cantidad: 1 }, "f".to_string());
    assert!(matches!(r, Err(AppError::NotFoundError)));
}

#[test]
fn pay_twice_rejected_and_state_kept() {
    let mut s = TicketSystem::new();
    s.add_event(event(1, 5)).unwrap();
    let u = claims_for("U1", "Uno", "u1@example.com");
    let p = s
        .create_purchase(&u, &CreatePurchaseDto { evento_id: 1, cantidad: 1 }, "f".to_string())
        .unwrap();
    let paid = s.pay_purchase(&u, p.id).unwrap();
    assert!(paid.pagado);
    let again = s.pay_purchase(&u, p.id);
    assert!(matches!(again, Err(AppError::AlreadyPaid)));
    let mine = s.get_user_purchases(&u);
    assert_eq!(mine.len(), 1);
    assert!(mine[0].pagado);
    assert_eq!(availability(&s, 1), 4);
}

#[test]
fn pay_missing_purchase_not_found() {
    let mut s = TicketSystem::new();
    let u = claims_for("U1", "Uno", "u1@example.com");
    assert!(matches!(s.pay_purchase(&u, 42), Err(AppError::NotFoundError)));
}

#[test]
fn delete_unpaid_restores_availability_and_removes_record() {
    let mut s = TicketSystem::new();
    s.add_event(event(1, 5)).unwrap();
    let u = claims_for("U1", "Uno", "u1@example.com");
    let p = s
        .create_purchase(&u, &CreatePurchaseDto { evento_id: 1, cantidad: 4 }, "f".to_string())
        .unwrap();
    assert_eq!(availability(&s, 1), 1);
    s.delete_purchase(&u, p.id).unwrap();
    assert_eq!(availability(&s, 1), 5);
    assert_eq!(s.get_user_purchases(&u).len(), 0);
    assert!(matches!(s.delete_purchase(&u, p.id), Err(AppError::NotFoundError)));
}

#[test]
fn delete_paid_rejected_and_changes_nothing() {
    let mut s = TicketSystem::new();
    s.add_event(event(1, 5)).unwrap();
    let u = claims_for("U1", "Uno", "u1@example.com");
    let p = s
        .create_purchase(&u, &CreatePurchaseDto { evento_id: 1, cantidad: 2 }, "f".to_string())
        .unwrap();
    s.pay_purchase(&u, p.id).unwrap();
    let r = s.delete_purchase(&u, p.id);
    assert!(matches!(r, Err(AppError::AlreadyPaid)));
    assert_eq!(availability(&s, 1), 3);
    assert_eq!(s.get_user_purchases(&u).len(), 1);
}

#[test]
fn foreign_purchase_cannot_be_paid_or_deleted() {
    let mut s = TicketSystem::new();
    s.add_event(event(1, 5)).unwrap();
    let owner = claims_for("U1", "Uno", "u1@example.com");
    let intruder = claims_for("U2", "Dos", "u2@example.com");
    let p = s
        .create_purchase(&owner, &CreatePurchaseDto { evento_id: 1, cantidad: 1 }, "f".to_string())
        .unwrap();

    assert!(matches!(s.pay_purchase(&intruder, p.id), Err(AppError::Unauthorized(_))));
    assert!(matches!(s.delete_purchase(&intruder, p.id), Err(AppError::Unauthorized(_))));

    s.pay_purchase(&owner, p.id).unwrap();
    assert!(matches!(s.pay_purchase(&intruder, p.id), Err(AppError::Unauthorized(_))));
    assert!(matches!(s.delete_purchase(&intruder, p.id), Err(AppError::Unauthorized(_))));
    assert_eq!(availability(&s, 1), 4);
}

#[test]
fn n_single_ticket_purchases_sell_out_exactly() {
    let n: i32 = 5;
    let mut s = TicketSystem::new();
    s.add_event(event(1, n)).unwrap();
    for k in 0..n {
        let u = claims_for(&format!("U{}", k), "User", "u@example.com");
        let r = s.create_purchase(&u, &CreatePurchaseDto { evento_id: 1, cantidad: 1 }, "f".to_string());
        assert!(r.is_ok());
    }
    assert_eq!(availability(&s, 1), 0);
    let late = claims_for("LATE", "Tarde", "late@example.com");
    let r = s.create_purchase(&late, &CreatePurchaseDto { evento_id: 1, cantidad: 1 }, "f".to_string());
    assert!(matches!(r, Err(AppError::NotEnoughTickets)));
}

#[test]
fn list_returns_only_own_purchases_in_order() {
    let mut s = TicketSystem::new();
    s.add_event(event(1, 10)).unwrap();
    let u1 = claims_for("U1", "Uno", "u1@example.com");
    let u2 = claims_for("U2", "Dos", "u2@example.com");
    let a = s.create_purchase(&u1, &CreatePurchaseDto { evento_id: 1, cantidad: 1 }, "t0".to_string()).unwrap();
    let _b = s.create_purchase(&u2, &CreatePurchaseDto { evento_id: 1, cantidad: 2 }, "t1".to_string()).unwrap();
    let c = s.create_purchase(&u1, &CreatePurchaseDto { evento_id: 1, cantidad: 3 }, "t2".to_string()).unwrap();

    let mine = s.get_user_purchases(&u1);
    assert_eq!(mine.len(), 2);
    assert_eq!(mine[0].id, a.id);
    assert_eq!(mine[1].id, c.id);
    assert!(mine.iter().all(|p| p.usuario_id == "U1"));

    let nobody = claims_for("U3", "Tres", "u3@example.com");
    assert_eq!(s.get_user_purchases(&nobody).len(), 0);
}

#[test]
fn add_event_rejects_duplicates_and_negative_capacity() {
    let mut s = TicketSystem::new();
    s.add_event(event(1, 5)).unwrap();
    assert!(matches!(s.add_event(event(1, 3)), Err(AppError::InvalidInput(_))));
    assert!(matches!(s.add_event(event(2, -1)), Err(AppError::InvalidInput(_))));
    assert_eq!(s.get_all_events().len(), 1);
}

#[test]
fn get_event_and_listing() {
    let mut s = TicketSystem::new();
    s.add_event(event(1, 5)).unwrap();
    s.add_event(event(2, 8)).unwrap();
    let all = s.get_all_events();
    assert_eq!(all.len(), 2);
    assert_eq!(all[0].id, 1);
    assert_eq!(all[1].id, 2);
    assert_eq!(s.get_event(2).unwrap().capacidad, 8);
    assert!(matches!(s.get_event(3), Err(AppError::NotFoundError)));
}

#[test]
fn purchase_ids_are_assigned_in_sequence() {
    let mut s = TicketSystem::new();
    s.add_event(event(1, 10)).unwrap();
    let u = claims_for("U1", "Uno", "u1@example.com");
    let a = s.create_purchase(&u, &CreatePurchaseDto { evento_id: 1, cantidad: 1 }, "f".to_string()).unwrap();
    let b = s.create_purchase(&u, &CreatePurchaseDto { evento_id: 1, cantidad: 1 }, "f".to_string()).unwrap();
    s.delete_purchase(&u, a.id).unwrap();
    let c = s.create_purchase(&u, &CreatePurchaseDto { evento_id: 1, cantidad: 1 }, "f".to_string()).unwrap();
    assert_eq!(a.id, 0);
    assert_eq!(b.id, 1);
    assert_eq!(c.id, 2);
}

#[test]
fn create_purchase_now_stamps_a_timestamp() {
    let mut s = TicketSystem::new();
    s.add_event(event(1, 2)).unwrap();
    let u = claims_for("U1", "Uno", "u1@example.com");
    let p = s.create_purchase_now(&u, &CreatePurchaseDto { evento_id: 1, cantidad: 1 }).unwrap();
    assert!(!p.fecha_compra.is_empty());
    assert_eq!(availability(&s, 1), 1);
}

#[test]
fn availability_release_beyond_range_is_an_internal_error() {
    let mut s = TicketSystem::new();
    s.add_event(event(1, i32::MAX - 1)).unwrap();
    let r = s.inventory.adjust_availability(1, 2);
    assert!(matches!(r, Err(AppError::InternalError(_))));
    assert_eq!(availability(&s, 1), i32::MAX - 1);
    let ok = s.inventory.adjust_availability(1, 1).unwrap();
    assert_eq!(ok.capacidad, i32::MAX);
}

#[test]
fn adjust_availability_is_conditional_and_atomic() {
    let mut s = TicketSystem::new();
    s.add_event(event(1, 3)).unwrap();
    assert!(matches!(s.inventory.adjust_availability(9, -1), Err(AppError::NotFoundError)));
    assert!(matches!(s.inventory.adjust_availability(1, -4), Err(AppError::NotEnoughTickets)));
    assert_eq!(availability(&s, 1), 3);
    let e = s.inventory.adjust_availability(1, -3).unwrap();
    assert_eq!(e.capacidad, 0);
    let e = s.inventory.adjust_availability(1, 2).unwrap();
    assert_eq!(e.capacidad, 2);
}
