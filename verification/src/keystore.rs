//! Keys that sign on behalf of the holder, and the errors of the store that keeps them.

use vstd::prelude::*;
use vstd::string::StringExecFns;

verus! {

/// An error of the key store of the platform.
#[derive(Debug, Clone, PartialEq, Eq)]
pub enum KeyStoreError {
    KeyError { reason: String },
    BridgingError { reason: String },
}

impl KeyStoreError {
    /// The text of the error.
    pub open spec fn message_spec(&self) -> Seq<char> {
        match self {
            KeyStoreError::KeyError { reason } => "Key error: "@ + reason@,
            KeyStoreError::BridgingError { reason } => "Bridging error: "@ + reason@,
        }
    }

    /// The text of the error: its kind, then the reason.
    pub fn message(&self) -> (text: String)
        ensures
            text@ == self.message_spec(),
    {
        match self {
            KeyStoreError::KeyError { reason } => String::from_str("Key error: ").concat(
                reason.as_str(),
            ),
            KeyStoreError::BridgingError { reason } => String::from_str(
                "Bridging error: ",
            ).concat(reason.as_str()),
        }
    }
}

/// A key that signs, and that gives out the public key under which its signatures verify.
pub trait SigningKey {
    type Error;

    /// The public key, as an uncompressed point.
    fn verifying_key(&self) -> Result<Vec<u8>, Self::Error>;

    /// A signature over the message: the two scalars, one after the other.
    fn try_sign(&self, message: &[u8]) -> Result<Vec<u8>, Self::Error>;
}

/// A signing key that lives no longer than the process that made it.
pub trait EphemeralSigningKey: SigningKey {

}

/// A signing key that the platform protects, in secure hardware where there is any.
pub trait SecureSigningKey: SigningKey {

}

} // verus!
