//! The Blob service client: its endpoint, the containers under it, and the key
//! information it sends when it asks for a user delegation key.

use vstd::prelude::*;
use crate::datetime::{format_rfc3339_in_offset, own_offset_text, SasDateTime};
use crate::error::StorageError;
use crate::models::{opt_text, KeyInfo};
use crate::urls::{
    url_scheme, url_scheme_of, url_serialization, url_serialization_of, url_with_segment,
    url_with_segment_of,
};

verus! {

/// The scope of the Entra ID token that authorizes requests to Azure Storage.
pub const STORAGE_SCOPE: &'static str = "https://storage.azure.com/.default";

/// Whether `s` begins with `prefix`.
pub open spec fn starts_with(s: Seq<char>, prefix: Seq<char>) -> bool {
    prefix.len() <= s.len() && s.take(prefix.len() as int) == prefix
}

/// Whether a scheme begins with `https`.
pub fn is_https(scheme: &str) -> (r: bool)
    ensures
        r == starts_with(scheme@, "https"@),
{
    proof {
        reveal_strlit("https");
    }
    if scheme.unicode_len() < 5 {
        return false;
    }
    let r = scheme.get_char(0) == 'h' && scheme.get_char(1) == 't' && scheme.get_char(2) == 't'
        && scheme.get_char(3) == 'p' && scheme.get_char(4) == 's';
    assert(r ==> scheme@.take(5) =~= "https"@);
    assert(scheme@.take(5) == "https"@ ==> scheme@.take(5)[0] == 'h' && scheme@.take(5)[1] == 't'
        && scheme@.take(5)[2] == 't' && scheme@.take(5)[3] == 'p' && scheme@.take(5)[4] == 's');
    r
}

/// The outcome of checking an endpoint: its serialization, or why it is refused. A
/// client with a credential only talks to an https endpoint.
pub open spec fn endpoint_check(url: Seq<char>, has_credential: bool) -> Result<Seq<char>, StorageError> {
    match url_serialization_of(url) {
        None => Err(StorageError::InvalidUrl),
        Some(serialized) => match url_scheme_of(url) {
            None => Err(StorageError::InvalidUrl),
            Some(scheme) => if has_credential && !starts_with(scheme, "https"@) {
                Err(StorageError::HttpsRequired)
            } else {
                Ok(serialized)
            },
        },
    }
}

/// A client to interact with an Azure storage account: the account's endpoint URL and
/// the service version it speaks.
pub struct BlobServiceClient {
    endpoint: String,
    version: String,
}

/// A client to interact with a container of an Azure storage account.
pub struct BlobContainerClient {
    endpoint: String,
    version: String,
}

impl BlobContainerClient {
    /// The URL of the container.
    pub closed spec fn endpoint(&self) -> Seq<char> {
        self.endpoint@
    }

    /// The service version.
    pub closed spec fn version(&self) -> Seq<char> {
        self.version@
    }

    /// Gets the URL of the container this client is configured for.
    pub fn url(&self) -> (r: &str)
        ensures
            r@ == self.endpoint(),
    {
        self.endpoint.as_str()
    }

    /// Gets the service version this client speaks.
    pub fn version_str(&self) -> (r: &str)
        ensures
            r@ == self.version(),
    {
        self.version.as_str()
    }
}

impl BlobServiceClient {
    /// The URL of the storage account.
    pub closed spec fn endpoint(&self) -> Seq<char> {
        self.endpoint@
    }

    /// The service version.
    pub closed spec fn version(&self) -> Seq<char> {
        self.version@
    }

    /// Creates a client from the URL of an Azure storage account, for example
    /// `https://myaccount.blob.core.windows.net/`.
    ///
    /// * `blob_service_url` - the URL of the account.
    /// * `has_credential` - whether requests are authorized with an Entra ID token; a
    ///   client with a credential must use https.
    /// * `version` - the service version.
    pub fn from_url(blob_service_url: &str, has_credential: bool, version: &str) -> (r: Result<
        Self,
        StorageError,
    >)
        ensures
            match endpoint_check(blob_service_url@, has_credential) {
                Ok(serialized) => r matches Ok(c) && c.endpoint() == serialized && c.version()
                    == version@,
                Err(e) => r matches Err(x) && x == e,
            },
    {
        let serialized = match url_serialization(blob_service_url) {
            Some(s) => s,
            None => {
                return Err(StorageError::InvalidUrl);
            },
        };
        let scheme = match url_scheme(blob_service_url) {
            Some(s) => s,
            None => {
                return Err(StorageError::InvalidUrl);
            },
        };
        if has_credential && !is_https(scheme.as_str()) {
            return Err(StorageError::HttpsRequired);
        }
        Ok(BlobServiceClient { endpoint: serialized, version: String::from_str(version) })
    }

    /// Creates a new BlobServiceClient from the text of the account's endpoint.
    pub fn new(endpoint: &str, has_credential: bool, version: &str) -> (r: Result<
        Self,
        StorageError,
    >)
        ensures
            match endpoint_check(endpoint@, has_credential) {
                Ok(serialized) => r matches Ok(c) && c.endpoint() == serialized && c.version()
                    == version@,
                Err(e) => r matches Err(x) && x == e,
            },
    {
        Self::from_url(endpoint, has_credential, version)
    }

    /// Returns a client for the container `container_name`, whose URL is the account's
    /// URL with the container name appended as a path segment.
    pub fn blob_container_client(&self, container_name: &str) -> (r: BlobContainerClient)
        requires
            url_with_segment_of(self.endpoint(), container_name@) is Some,
        ensures
            r.endpoint() == url_with_segment_of(self.endpoint(), container_name@).unwrap(),
            r.version() == self.version(),
    {
        match url_with_segment(self.endpoint.as_str(), container_name) {
            Some(u) => BlobContainerClient { endpoint: u, version: self.version.clone() },
            None => {
                assert(false);
                BlobContainerClient { endpoint: String::new(), version: String::new() }
            },
        }
    }

    /// Returns a client for the container `container_name`, or `None` when the account's
    /// URL cannot take a path segment.
    pub fn try_blob_container_client(&self, container_name: &str) -> (r: Option<
        BlobContainerClient,
    >)
        ensures
            match url_with_segment_of(self.endpoint(), container_name@) {
                Some(u) => r matches Some(c) && c.endpoint() == u && c.version() == self.version(),
                None => r is None,
            },
    {
        match url_with_segment(self.endpoint.as_str(), container_name) {
            Some(_) => Some(self.blob_container_client(container_name)),
            None => None,
        }
    }

    /// Gets the URL of the resource this client is configured for.
    pub fn url(&self) -> (r: &str)
        ensures
            r@ == self.endpoint(),
    {
        self.endpoint.as_str()
    }

    /// Gets the service version this client speaks.
    pub fn version_str(&self) -> (r: &str)
        ensures
            r@ == self.version(),
    {
        self.version.as_str()
    }

    /// The key information sent to request a user delegation key valid from `start` to
    /// `expiry`: both times as RFC 3339 text in the offset each is held in, with its
    /// fraction of a second. The start time is written first.
    pub fn user_delegation_key_info(start: &SasDateTime, expiry: &SasDateTime) -> (r: Result<
        KeyInfo,
        StorageError,
    >)
        ensures
            match (own_offset_text(*start), own_offset_text(*expiry)) {
                (None, _) => r == Err::<KeyInfo, StorageError>(StorageError::StartTimeFormat),
                (Some(_), None) => r == Err::<KeyInfo, StorageError>(
                    StorageError::ExpiryTimeFormat,
                ),
                (Some(s), Some(x)) => r matches Ok(info) && info.start is Some && info.expiry is Some
                    && opt_text(info.start) == s && opt_text(info.expiry) == x,
            },
    {
        let start_str = match format_rfc3339_in_offset(start) {
            Some(s) => s,
            None => {
                return Err(StorageError::StartTimeFormat);
            },
        };
        let expiry_str = match format_rfc3339_in_offset(expiry) {
            Some(s) => s,
            None => {
                return Err(StorageError::ExpiryTimeFormat);
            },
        };
        Ok(KeyInfo { start: Some(start_str), expiry: Some(expiry_str) })
    }
}

} // verus!
