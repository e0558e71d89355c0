//! Encryption-key metadata: which key derivation function protects a stored
//! key, and the bookkeeping record kept about a key.
use vstd::prelude::*;

verus! {

/// Key derivation function for password-protected encryption keys.
#[derive(Clone, Copy, Debug, Eq, PartialEq, Structural)]
pub enum Kdf {
    /// Do not encrypt the key.
    NotEncrypted,
    /// Encrypt the key with a password using SCrypt.
    Scrypt,
    /// Encrypt the key with a password using PBKDF2.
    PBKDF2,
}

impl Default for Kdf {
    fn default() -> (r: Kdf)
        ensures
            r == Kdf::Scrypt,
    {
        Kdf::Scrypt
    }
}

/// Encryption key information.
pub struct CloudKeyInfo {
    /// Path to the key file (if stored in a file).
    pub path: Option<String>,
    pub kdf: Kdf,
    /// Key creation time.
    pub created: i64,
    /// Key modification time.
    pub modified: i64,
    /// Key fingerprint.
    pub fingerprint: Option<String>,
    /// Password hint.
    pub hint: Option<String>,
}

} // verus!
