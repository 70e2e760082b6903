use vstd::prelude::*;

verus! {

/// Mathematical view of a [`ClientError`]: each variant with its text
/// as a character sequence.
pub enum ClientErrorV {
    IoError { path: Seq<char>, details: Seq<char> },
    TransportError { details: Seq<char> },
    ConstructionError { details: Seq<char> },
}

/// An error surfaced by this library.
///
/// - `IoError`: a file could not be loaded; carries the path and the
///   underlying cause.
/// - `TransportError`: the network call failed, the service answered
///   with a non-success status, or its body could not be decoded;
///   carries a description of the cause.
/// - `ConstructionError`: a caller tried to build a response value
///   directly instead of receiving it from the transport layer.
#[derive(Debug)]
pub enum ClientError {
    IoError { path: String, details: String },
    TransportError { details: String },
    ConstructionError { details: String },
}

impl View for ClientError {
    type V = ClientErrorV;

    open spec fn view(&self) -> ClientErrorV {
        match self {
            ClientError::IoError { path, details } => (ClientErrorV::IoError {
                path: path@,
                details: details@,
            }),
            ClientError::TransportError { details } => (ClientErrorV::TransportError {
                details: details@,
            }),
            ClientError::ConstructionError { details } => (ClientErrorV::ConstructionError {
                details: details@,
            }),
        }
    }
}

impl DeepView for ClientError {
    type V = ClientErrorV;

    open spec fn deep_view(&self) -> ClientErrorV {
        self@
    }
}

impl ClientErrorV {
    /// The description carried by the variant, whichever it is.
    pub open spec fn spec_details(self) -> Seq<char> {
        match self {
            ClientErrorV::IoError { details, .. } => details,
            ClientErrorV::TransportError { details, .. } => details,
            ClientErrorV::ConstructionError { details, .. } => details,
        }
    }
}

impl ClientError {
    /// Whether this is an `IoError`.
    pub fn is_io_error(&self) -> (r: bool)
        ensures
            r == (self@ is IoError),
    {
        match self {
            ClientError::IoError { .. } => true,
            _ => false,
        }
    }

    /// Whether this is a `TransportError`.
    pub fn is_transport_error(&self) -> (r: bool)
        ensures
            r == (self@ is TransportError),
    {
        match self {
            ClientError::TransportError { .. } => true,
            _ => false,
        }
    }

    /// Whether this is a `ConstructionError`.
    pub fn is_construction_error(&self) -> (r: bool)
        ensures
            r == (self@ is ConstructionError),
    {
        match self {
            ClientError::ConstructionError { .. } => true,
            _ => false,
        }
    }

    /// The description carried by the error.
    pub fn details(&self) -> (r: String)
        ensures
            r@ == self@.spec_details(),
    {
        match self {
            ClientError::IoError { details, .. } => details.clone(),
            ClientError::TransportError { details } => details.clone(),
            ClientError::ConstructionError { details } => details.clone(),
        }
    }
}

} // verus!
