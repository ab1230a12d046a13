use vstd::prelude::*;

verus! {

/// Error kinds surfaced by the purchase lifecycle. Storage-layer failures are
/// wrapped into `InternalError` by the surrounding application; domain-rule
/// violations carry their own kind so the application can answer with the
/// matching status.
#[derive(Debug)]
pub enum AppError {
    /// The requested event or purchase does not exist.
    NotFoundError,
    /// A malformed identifier or payload (for instance a non-positive
    /// quantity).
    InvalidInput(String),
    /// The event does not have enough available tickets left.
    NotEnoughTickets,
    /// The purchase has already been paid.
    AlreadyPaid,
    /// A storage or broker failure, wrapped with a description.
    InternalError(String),
    /// The caller's credential is invalid, or the caller does not own the
    /// purchase.
    Unauthorized(String),
}

impl AppError {
    /// The HTTP-equivalent status of each error kind.
    pub open spec fn spec_status_code(self) -> u16 {
        match self {
            AppError::NotFoundError => 404,
            AppError::InvalidInput(_) => 400,
            AppError::NotEnoughTickets => 400,
            AppError::AlreadyPaid => 400,
            AppError::InternalError(_) => 500,
            AppError::Unauthorized(_) => 401,
        }
    }

    pub fn status_code(&self) -> (code: u16)
        ensures
            code == self.spec_status_code(),
    {
        match self {
            AppError::NotFoundError => 404,
            AppError::InvalidInput(_) => 400,
            AppError::NotEnoughTickets => 400,
            AppError::AlreadyPaid => 400,
            AppError::InternalError(_) => 500,
            AppError::Unauthorized(_) => 401,
        }
    }

    /// The human-readable message of each error kind.
    pub open spec fn spec_message(self) -> Seq<char> {
        match self {
            AppError::NotFoundError => "Recurso no encontrado"@,
            AppError::InvalidInput(s) => "Entrada invalida: "@ + s@,
            AppError::NotEnoughTickets => "No hay suficientes entradas disponibles"@,
            AppError::AlreadyPaid => "Compra ya pagada"@,
            AppError::InternalError(s) => "Error interno del servidor: "@ + s@,
            AppError::Unauthorized(s) => "Error de autenticacion: "@ + s@,
        }
    }

    pub fn message(&self) -> (msg: String)
        ensures
            msg@ == self.spec_message(),
    {
        match self {
            AppError::NotFoundError => "Recurso no encontrado".to_owned(),
            AppError::InvalidInput(s) => {
                let mut m = "Entrada invalida: ".to_owned();
                m.append(s.as_str());
                m
            },
            AppError::NotEnoughTickets => "No hay suficientes entradas disponibles".to_owned(),
            AppError::AlreadyPaid => "Compra ya pagada".to_owned(),
            AppError::InternalError(s) => {
                let mut m = "Error interno del servidor: ".to_owned();
                m.append(s.as_str());
                m
            },
            AppError::Unauthorized(s) => {
                let mut m = "Error de autenticacion: ".to_owned();
                m.append(s.as_str());
                m
            },
        }
    }
}

} // verus!
