//! Errors of this library.

use vstd::prelude::*;

verus! {

/// Why an operation of this library was refused.
#[derive(Debug, Clone, Copy, PartialEq, Eq, Structural)]
pub enum StorageError {
    /// The text is not a URL.
    InvalidUrl,
    /// The URL has no host, so it names no storage account.
    UrlHasNoHost,
    /// The user delegation key carries no key value to sign with.
    KeyHasNoValue,
    /// A date-time cannot be written in RFC 3339 form.
    DateTimeFormat,
    /// Signing with the key failed.
    Signing,
    /// A credential is given, but the endpoint does not use https.
    HttpsRequired,
    /// The start time of a requested user delegation key cannot be written in RFC 3339 form.
    StartTimeFormat,
    /// The expiry time of a requested user delegation key cannot be written in RFC 3339 form.
    ExpiryTimeFormat,
}

} // verus!
