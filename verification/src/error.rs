use vstd::prelude::*;
use vstd::string::*;

verus! {

/// The kind of a refusal, one for each status family the service answers with.
#[derive(Clone, Copy, Debug, PartialEq, Eq, Structural)]
pub enum ErrorKind {
    Unauthenticated,
    PermissionDenied,
    InvalidArgument,
    NotFound,
    FailedPrecondition,
    Internal,
    Broker,
}

/// The gRPC status code a refusal is answered with.
#[derive(Clone, Copy, Debug, PartialEq, Eq, Structural)]
pub enum StatusCode {
    Unauthenticated,
    PermissionDenied,
    InvalidArgument,
    NotFound,
    FailedPrecondition,
    Internal,
}

/// Every error the service reports: a kind and a human readable message.
#[derive(Debug)]
pub enum PropellerError {
    Unauthenticated(String),
    PermissionDenied(String),
    InvalidArgument(String),
    NotFound(String),
    FailedPrecondition(String),
    Internal(String),
    Broker(String),
}

impl View for PropellerError {
    type V = (ErrorKind, Seq<char>);

    open spec fn view(&self) -> (ErrorKind, Seq<char>) {
        match self {
            PropellerError::Unauthenticated(m) => (ErrorKind::Unauthenticated, m@),
            PropellerError::PermissionDenied(m) => (ErrorKind::PermissionDenied, m@),
            PropellerError::InvalidArgument(m) => (ErrorKind::InvalidArgument, m@),
            PropellerError::NotFound(m) => (ErrorKind::NotFound, m@),
            PropellerError::FailedPrecondition(m) => (ErrorKind::FailedPrecondition, m@),
            PropellerError::Internal(m) => (ErrorKind::Internal, m@),
            PropellerError::Broker(m) => (ErrorKind::Broker, m@),
        }
    }
}

/// The words that open the rendered form of an error of the given kind.
pub open spec fn kind_prefix(kind: ErrorKind) -> Seq<char> {
    match kind {
        ErrorKind::Unauthenticated => "unauthenticated: "@,
        ErrorKind::PermissionDenied => "permission denied: "@,
        ErrorKind::InvalidArgument => "invalid argument: "@,
        ErrorKind::NotFound => "not found: "@,
        ErrorKind::FailedPrecondition => "failed precondition: "@,
        ErrorKind::Internal => "internal: "@,
        ErrorKind::Broker => "broker error: "@,
    }
}

/// The gRPC status code that answers an error of the given kind.
pub open spec fn kind_status(kind: ErrorKind) -> StatusCode {
    match kind {
        ErrorKind::Unauthenticated => StatusCode::Unauthenticated,
        ErrorKind::PermissionDenied => StatusCode::PermissionDenied,
        ErrorKind::InvalidArgument => StatusCode::InvalidArgument,
        ErrorKind::NotFound => StatusCode::NotFound,
        ErrorKind::FailedPrecondition => StatusCode::FailedPrecondition,
        ErrorKind::Internal => StatusCode::Internal,
        ErrorKind::Broker => StatusCode::Internal,
    }
}

impl PropellerError {
    pub fn unauthenticated(msg: &str) -> (e: PropellerError)
        ensures
            e@ == (ErrorKind::Unauthenticated, msg@),
    {
        PropellerError::Unauthenticated(String::from_str(msg))
    }

    pub fn permission_denied(msg: &str) -> (e: PropellerError)
        ensures
            e@ == (ErrorKind::PermissionDenied, msg@),
    {
        PropellerError::PermissionDenied(String::from_str(msg))
    }

    pub fn invalid_argument(msg: &str) -> (e: PropellerError)
        ensures
            e@ == (ErrorKind::InvalidArgument, msg@),
    {
        PropellerError::InvalidArgument(String::from_str(msg))
    }

    pub fn failed_precondition(msg: &str) -> (e: PropellerError)
        ensures
            e@ == (ErrorKind::FailedPrecondition, msg@),
    {
        PropellerError::FailedPrecondition(String::from_str(msg))
    }

    pub fn internal(msg: &str) -> (e: PropellerError)
        ensures
            e@ == (ErrorKind::Internal, msg@),
    {
        PropellerError::Internal(String::from_str(msg))
    }

    pub fn kind(&self) -> (k: ErrorKind)
        ensures
            k == self@.0,
    {
        match self {
            PropellerError::Unauthenticated(_) => ErrorKind::Unauthenticated,
            PropellerError::PermissionDenied(_) => ErrorKind::PermissionDenied,
            PropellerError::InvalidArgument(_) => ErrorKind::InvalidArgument,
            PropellerError::NotFound(_) => ErrorKind::NotFound,
            PropellerError::FailedPrecondition(_) => ErrorKind::FailedPrecondition,
            PropellerError::Internal(_) => ErrorKind::Internal,
            PropellerError::Broker(_) => ErrorKind::Broker,
        }
    }

    pub fn message(&self) -> (m: &String)
        ensures
            m@ == self@.1,
    {
        match self {
            PropellerError::Unauthenticated(m) => m,
            PropellerError::PermissionDenied(m) => m,
            PropellerError::InvalidArgument(m) => m,
            PropellerError::NotFound(m) => m,
            PropellerError::FailedPrecondition(m) => m,
            PropellerError::Internal(m) => m,
            PropellerError::Broker(m) => m,
        }
    }

    /// The rendered form: the kind's words, then the message.
    pub fn to_string(&self) -> (s: String)
        ensures
            s@ == kind_prefix(self@.0) + self@.1,
    {
        let mut s = match self {
            PropellerError::Unauthenticated(_) => String::from_str("unauthenticated: "),
            PropellerError::PermissionDenied(_) => String::from_str("permission denied: "),
            PropellerError::InvalidArgument(_) => String::from_str("invalid argument: "),
            PropellerError::NotFound(_) => String::from_str("not found: "),
            PropellerError::FailedPrecondition(_) => String::from_str("failed precondition: "),
            PropellerError::Internal(_) => String::from_str("internal: "),
            PropellerError::Broker(_) => String::from_str("broker error: "),
        };
        s.append(self.message().as_str());
        s
    }

    /// The gRPC status an error is answered with: its code and its message.
    pub fn status(&self) -> (r: (StatusCode, String))
        ensures
            r.0 == kind_status(self@.0),
            r.1@ == self@.1,
    {
        let code = match self.kind() {
            ErrorKind::Unauthenticated => StatusCode::Unauthenticated,
            ErrorKind::PermissionDenied => StatusCode::PermissionDenied,
            ErrorKind::InvalidArgument => StatusCode::InvalidArgument,
            ErrorKind::NotFound => StatusCode::NotFound,
            ErrorKind::FailedPrecondition => StatusCode::FailedPrecondition,
            ErrorKind::Internal => StatusCode::Internal,
            ErrorKind::Broker => StatusCode::Internal,
        };
        (code, self.message().clone())
    }
}

} // verus!
