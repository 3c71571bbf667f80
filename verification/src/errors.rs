use vstd::prelude::*;

verus! {

/// Error produced by the channel registry when a channel table cannot be
/// built.
#[derive(Clone, Copy, PartialEq, Eq, Structural, Debug)]
pub enum ConfigError {
    /// More channels were supplied than the transport can address.
    TooManyChannels { supplied: usize },
}

/// Fatal failure of a connect request, raised at the transport edge when the
/// server address cannot be parsed or a local socket cannot be bound.  The
/// request is not retried automatically; the caller may re-issue it.
#[derive(Clone, Debug)]
pub enum ConnectError {
    BadAddress { detail: String },
    BindFailed { detail: String },
    /// The transport refused the handshake setup (for instance the connect
    /// token could not be generated).
    TransportSetup { detail: String },
}

/// Fatal failure of a server start request, raised at the transport edge when
/// the bind address cannot be parsed or the public socket cannot be bound.
#[derive(Clone, Debug)]
pub enum StartError {
    BadAddress { detail: String },
    BindFailed { detail: String },
}

/// Why a connection ended.
#[derive(Clone, Debug)]
pub enum DisconnectReason {
    /// The client asked to disconnect.
    ClientRequested,
    /// The server asked to disconnect.
    ServerRequested,
    /// The transport gave up on an unresponsive peer.  Reserved for
    /// transport edges that report timeouts as such; the bundled transport
    /// folds them into its transport-layer reason, which arrives here as
    /// `TransportError`.
    Timeout,
    /// The transport reported a lower-level failure.
    TransportError { detail: String },
}

} // verus!
