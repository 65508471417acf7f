//! The failures that end a migration run.

use vstd::prelude::*;

verus! {

/// Why a migration run stopped before all chunks were delivered.
#[derive(Clone, Copy, Debug, PartialEq, Eq, Structural)]
pub enum MigrationError {
    /// The private-key file could not be read or does not hold a private key.
    KeyLoad,
    /// The local store could not be opened or queried.
    StoreRead,
    /// The remote endpoint could not be reached or its trust root not fetched.
    ClientSetup,
    /// The chunk size is not positive.
    InvalidConfig,
    /// A chunk's call did not resolve within the configured wait.
    TransmissionTimeout,
    /// A chunk's call resolved, but not with the empty success marker.
    TransmissionRejected,
}

impl MigrationError {
    /// Setup failures end the run before any chunk is sent; the two
    /// transmission failures end it in the middle of the chunk sequence.
    pub open spec fn during_setup(self) -> bool {
        !(self is TransmissionTimeout || self is TransmissionRejected)
    }

    /// Whether the failure happened before any chunk was sent.
    pub fn is_setup_failure(&self) -> (res: bool)
        ensures
            res == self.during_setup(),
    {
        match self {
            MigrationError::TransmissionTimeout => false,
            MigrationError::TransmissionRejected => false,
            _ => true,
        }
    }

    /// The text shown to the operator for this failure.
    pub open spec fn message(self) -> Seq<char> {
        match self {
            MigrationError::KeyLoad => "KeyLoadError: unable to load the private key"@,
            MigrationError::StoreRead => "StoreReadError: unable to read blocks from the local store"@,
            MigrationError::ClientSetup => "ClientSetupError: unable to set up the ledger client"@,
            MigrationError::InvalidConfig => "InvalidConfigError: chunk size must be positive"@,
            MigrationError::TransmissionTimeout => "TransmissionTimeoutError: the call did not resolve in time"@,
            MigrationError::TransmissionRejected => "TransmissionRejectedError: the service did not accept the chunk"@,
        }
    }

    /// Human-readable diagnostic for this failure.
    pub fn describe(&self) -> (text: &'static str)
        ensures
            text@ == self.message(),
    {
        match self {
            MigrationError::KeyLoad => "KeyLoadError: unable to load the private key",
            MigrationError::StoreRead => "StoreReadError: unable to read blocks from the local store",
            MigrationError::ClientSetup => "ClientSetupError: unable to set up the ledger client",
            MigrationError::InvalidConfig => "InvalidConfigError: chunk size must be positive",
            MigrationError::TransmissionTimeout => "TransmissionTimeoutError: the call did not resolve in time",
            MigrationError::TransmissionRejected => "TransmissionRejectedError: the service did not accept the chunk",
        }
    }
}

} // verus!
