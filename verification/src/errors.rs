//! The classes of failure that the service tells apart.
//!
//! Every error of a component falls into one class. The class decides how
//! the failure is reported; only a failed push is never reported, since the
//! message it announces is stored already.
use crate::endpoints::EndpointError;
use crate::handlers::message_insert_event::FanoutError;
use crate::router::Rejection;
use crate::store::StoreError;
use vstd::prelude::*;

verus! {

/// The class of a failure.
#[derive(Debug, Clone, Copy, PartialEq, Eq, Structural)]
pub enum ErrorKind {
    /// The credential is missing or invalid.
    Unauthenticated,
    /// The request is malformed, or asks for what is not allowed.
    ValidationFailed,
    /// What the request is about does not exist.
    NotFound,
    /// The store failed to read or write.
    StoreFailure,
    /// A push was not delivered.
    DeliveryFailure,
    /// The identity of a participant could not be looked up.
    ResolverFailure,
}

impl ErrorKind {
    /// Whether a failure of this class ends the work it occurs in. A push
    /// that fails does not: delivery is attempted once and not waited for.
    pub fn is_fatal(&self) -> (fatal: bool)
        ensures
            fatal == (*self != ErrorKind::DeliveryFailure),
    {
        match self {
            ErrorKind::DeliveryFailure => false,
            _ => true,
        }
    }
}

impl Rejection {
    /// The class of the rejection: a missing principal is a failure to
    /// authenticate, everything else a failure of validation.
    pub fn kind(&self) -> (kind: ErrorKind)
        ensures
            kind == if *self == Rejection::InvalidToken {
                ErrorKind::Unauthenticated
            } else {
                ErrorKind::ValidationFailed
            },
    {
        match self {
            Rejection::InvalidToken => ErrorKind::Unauthenticated,
            _ => ErrorKind::ValidationFailed,
        }
    }
}

impl EndpointError {
    /// The class of the error.
    pub open spec fn kind_of(self) -> ErrorKind {
        match self {
            EndpointError::MissingSortKey => ErrorKind::ValidationFailed,
            EndpointError::MissingToken => ErrorKind::Unauthenticated,
            EndpointError::InvalidToken => ErrorKind::Unauthenticated,
            EndpointError::ResourceNotFound => ErrorKind::NotFound,
            EndpointError::ChatsQueryFailed => ErrorKind::StoreFailure,
            EndpointError::MessagesQueryFailed => ErrorKind::StoreFailure,
            EndpointError::MissingUserSelector => ErrorKind::ValidationFailed,
            EndpointError::UserNotFound => ErrorKind::NotFound,
        }
    }

    /// The class of the error.
    pub fn kind(&self) -> (kind: ErrorKind)
        ensures
            kind == self.kind_of(),
    {
        match self {
            EndpointError::MissingSortKey => ErrorKind::ValidationFailed,
            EndpointError::MissingToken => ErrorKind::Unauthenticated,
            EndpointError::InvalidToken => ErrorKind::Unauthenticated,
            EndpointError::ResourceNotFound => ErrorKind::NotFound,
            EndpointError::ChatsQueryFailed => ErrorKind::StoreFailure,
            EndpointError::MessagesQueryFailed => ErrorKind::StoreFailure,
            EndpointError::MissingUserSelector => ErrorKind::ValidationFailed,
            EndpointError::UserNotFound => ErrorKind::NotFound,
        }
    }
}

impl FanoutError {
    /// The class of the error.
    pub fn kind(&self) -> (kind: ErrorKind)
        ensures
            kind == match *self {
                FanoutError::MalformedKey => ErrorKind::ValidationFailed,
                FanoutError::ResolverFailure => ErrorKind::ResolverFailure,
            },
    {
        match self {
            FanoutError::MalformedKey => ErrorKind::ValidationFailed,
            FanoutError::ResolverFailure => ErrorKind::ResolverFailure,
        }
    }
}

impl StoreError {
    /// The class of the error.
    pub fn kind(&self) -> (kind: ErrorKind)
        ensures
            kind == match *self {
                StoreError::NotFound => ErrorKind::NotFound,
                StoreError::InvalidItem => ErrorKind::ValidationFailed,
            },
    {
        match self {
            StoreError::NotFound => ErrorKind::NotFound,
            StoreError::InvalidItem => ErrorKind::ValidationFailed,
        }
    }
}

} // verus!
