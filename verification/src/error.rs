//! Errors of the data layer, of the gateway and of the runtime state.

use vstd::prelude::*;

verus! {

/// What went wrong in the data layer.
#[derive(Debug, Clone, PartialEq, Eq)]
pub enum DataLayerError {
    InvalidInput(String),
    UnexpectedValue(String),
}

/// A data layer error by its text.
pub enum DataLayerFault {
    InvalidInput(Seq<char>),
    UnexpectedValue(Seq<char>),
}

impl View for DataLayerError {
    type V = DataLayerFault;

    open spec fn view(&self) -> DataLayerFault {
        match self {
            DataLayerError::InvalidInput(text) => DataLayerFault::InvalidInput(text@),
            DataLayerError::UnexpectedValue(text) => DataLayerFault::UnexpectedValue(text@),
        }
    }
}

/// What went wrong in the gateway.
#[derive(Debug, Clone, PartialEq, Eq)]
pub enum GatewayError {
    Internal(String),
    Client { status: u16, message: String },
    Upstream { message: String },
}

/// A gateway error by its text.
pub enum GatewayFault {
    Internal(Seq<char>),
    Client { status: u16, message: Seq<char> },
    Upstream { message: Seq<char> },
}

impl View for GatewayError {
    type V = GatewayFault;

    open spec fn view(&self) -> GatewayFault {
        match self {
            GatewayError::Internal(text) => GatewayFault::Internal(text@),
            GatewayError::Client { status, message } => GatewayFault::Client {
                status: *status,
                message: message@,
            },
            GatewayError::Upstream { message } => GatewayFault::Upstream { message: message@ },
        }
    }
}

/// Why a concurrency gate of the runtime state gave no permit.
#[derive(Debug, Clone, PartialEq, Eq)]
pub enum RuntimeSemaphoreError {
    Saturated { gate: String, limit: usize },
    Unavailable { gate: String, message: String },
    InvalidConfiguration(String),
}

/// Whether `r` carries the error `fault`, or none where `fault` is `None`.
pub open spec fn fails_with<T>(r: Result<T, DataLayerError>, fault: Option<DataLayerFault>) -> bool {
    match fault {
        Some(f) => r is Err && r->Err_0@ == f,
        None => r is Ok,
    }
}

/// Whether `r` is what `expected` says, an error taken by its text.
pub open spec fn is_outcome<T>(
    r: Result<T, DataLayerError>,
    expected: Result<T, DataLayerFault>,
) -> bool {
    match expected {
        Ok(value) => r == Ok::<T, DataLayerError>(value),
        Err(f) => r is Err && r->Err_0@ == f,
    }
}

/// An internal error of the gateway.
pub fn internal(text: &str) -> (r: GatewayError)
    ensures
        r@ == GatewayFault::Internal(text@),
{
    GatewayError::Internal(text.to_string())
}

/// An input that the data layer refuses.
pub fn invalid_input(text: &str) -> (r: DataLayerError)
    ensures
        r@ == DataLayerFault::InvalidInput(text@),
{
    DataLayerError::InvalidInput(text.to_string())
}

} // verus!
