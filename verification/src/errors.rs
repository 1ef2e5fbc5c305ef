//! The error taxonomy shared by the proxy pool, the response classifiers
//! and the task state machine.

use vstd::prelude::*;

verus! {

/// Every way a remote call or a proxy-pool operation can fail.
///
/// The task state machine treats all remote-call errors uniformly as a
/// "phase failed" signal; the variants exist so that diagnostics and the
/// pool's fatal construction error stay distinguishable.
#[derive(Debug)]
pub enum Error {
    /// Transport or connection failure on a remote call.
    NetworkError,
    /// Non-success HTTP status. `detail` carries the response body except
    /// for a forbidden status, whose body is deliberately not surfaced.
    BadStatusError { status: u16, detail: Option<String> },
    /// The response body could not be parsed into the expected shape.
    MalformedResponseError,
    /// A well-formed response explicitly signalled failure.
    BusinessRejectionError,
    /// A configured proxy string matches neither accepted shape; fatal at
    /// pool construction time.
    ProxyFormatError,
    /// Rotation was requested against an empty pool.
    ProxyNotFoundError,
}

impl Error {
    /// A short stable label for diagnostics.
    pub fn label(&self) -> (r: &'static str)
        ensures
            r@ == self.label_spec(),
    {
        match self {
            Error::NetworkError => "network error",
            Error::BadStatusError { .. } => "bad status",
            Error::MalformedResponseError => "malformed response",
            Error::BusinessRejectionError => "business rejection",
            Error::ProxyFormatError => "proxy format error",
            Error::ProxyNotFoundError => "proxy not found",
        }
    }

    pub open spec fn label_spec(&self) -> Seq<char> {
        match self {
            Error::NetworkError => "network error"@,
            Error::BadStatusError { .. } => "bad status"@,
            Error::MalformedResponseError => "malformed response"@,
            Error::BusinessRejectionError => "business rejection"@,
            Error::ProxyFormatError => "proxy format error"@,
            Error::ProxyNotFoundError => "proxy not found"@,
        }
    }
}

} // verus!
