//! Service models used by SAS generation.

use vstd::prelude::*;

verus! {

/// A user delegation key, as returned by the Blob service for signing SAS tokens with
/// Entra ID credentials.
#[derive(Debug, Clone, PartialEq, Eq)]
pub struct UserDelegationKey {
    /// The Azure Active Directory object ID in GUID format.
    pub signed_oid: Option<String>,
    /// The Azure Active Directory tenant ID in GUID format.
    pub signed_tid: Option<String>,
    /// The date-time the key is active.
    pub signed_start: Option<String>,
    /// The date-time the key expires.
    pub signed_expiry: Option<String>,
    /// Abbreviation of the Azure Storage service that accepts the key.
    pub signed_service: Option<String>,
    /// The service version that created the key.
    pub signed_version: Option<String>,
    /// The key value.
    pub value: Option<Vec<u8>>,
}

/// Key information sent when requesting a user delegation key.
#[derive(Debug, Clone, PartialEq, Eq)]
pub struct KeyInfo {
    /// The date-time the key is active, in RFC 3339 form.
    pub start: Option<String>,
    /// The date-time the key expires, in RFC 3339 form.
    pub expiry: Option<String>,
}

/// The text of an optional string, empty when absent.
pub open spec fn opt_text(o: Option<String>) -> Seq<char> {
    match o {
        Some(s) => s@,
        None => Seq::empty(),
    }
}

} // verus!
