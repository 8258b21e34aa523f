//! Builder for creating User Delegation SAS tokens.

use vstd::prelude::*;
use crate::datetime::SasDateTime;
use crate::models::UserDelegationKey;
use crate::sas::ip::SasIpRange;
use crate::sas::permissions::SasPermissions;
use crate::error::StorageError;
use crate::sas::url::{build_sas_url, sas_url_of};
use crate::urls::{url_host_of, url_path_of, url_scheme_of};

verus! {

/// Specifies the protocol permitted for a SAS token.
#[derive(Debug, Clone, Copy, PartialEq, Eq, Structural)]
pub enum SasProtocol {
    /// Only HTTPS requests are permitted.
    Https,
    /// Both HTTP and HTTPS requests are permitted.
    HttpsAndHttp,
}

/// The SAS text of a protocol.
pub open spec fn protocol_text(p: SasProtocol) -> Seq<char> {
    match p {
        SasProtocol::Https => "https"@,
        SasProtocol::HttpsAndHttp => "https,http"@,
    }
}

impl SasProtocol {
    /// Converts the protocol to the Azure Storage SAS format.
    pub fn to_string(&self) -> (r: &'static str)
        ensures
            r@ == protocol_text(*self),
    {
        match self {
            SasProtocol::Https => "https",
            SasProtocol::HttpsAndHttp => "https,http",
        }
    }
}

/// Represents the type of resource being accessed with a SAS token.
#[derive(Debug, Clone, Copy, PartialEq, Eq, Structural)]
pub enum SasResource {
    /// Blob resource.
    Blob,
    /// Container resource.
    Container,
}

/// The SAS text of a resource type.
pub open spec fn resource_text(r: SasResource) -> Seq<char> {
    match r {
        SasResource::Blob => "b"@,
        SasResource::Container => "c"@,
    }
}

impl SasResource {
    /// Converts the resource type to the Azure Storage SAS format.
    pub fn to_string(&self) -> (r: &'static str)
        ensures
            r@ == resource_text(*self),
    {
        match self {
            SasResource::Blob => "b",
            SasResource::Container => "c",
        }
    }
}

/// Builder for creating User Delegation SAS URLs.
///
/// It holds everything that is signed and written into the SAS URL.
#[derive(Debug)]
pub struct UserDelegationSasBuilder<'a> {
    pub user_delegation_key: &'a UserDelegationKey,
    pub permissions: SasPermissions,
    pub expiry: SasDateTime,
    pub start: Option<SasDateTime>,
    pub ip_range: Option<SasIpRange>,
    pub protocol: Option<SasProtocol>,
    pub cache_control: Option<&'a str>,
    pub content_disposition: Option<&'a str>,
    pub content_encoding: Option<&'a str>,
    pub content_language: Option<&'a str>,
    pub content_type: Option<&'a str>,
    pub authorized_object_id: Option<&'a str>,
    pub correlation_id: Option<&'a str>,
    pub encryption_scope: Option<&'a str>,
}

impl<'a> UserDelegationSasBuilder<'a> {
    /// Creates a new `UserDelegationSasBuilder` with a key, the permissions to grant and
    /// the time the token expires; nothing else is set.
    pub fn new(
        user_delegation_key: &'a UserDelegationKey,
        permissions: SasPermissions,
        expiry: SasDateTime,
    ) -> (r: Self)
        ensures
            r.user_delegation_key == user_delegation_key,
            r.permissions == permissions,
            r.expiry == expiry,
            r.start is None,
            r.ip_range is None,
            r.protocol is None,
            r.cache_control is None,
            r.content_disposition is None,
            r.content_encoding is None,
            r.content_language is None,
            r.content_type is None,
            r.authorized_object_id is None,
            r.correlation_id is None,
            r.encryption_scope is None,
    {
        Self {
            user_delegation_key,
            permissions,
            expiry,
            start: None,
            ip_range: None,
            protocol: None,
            cache_control: None,
            content_disposition: None,
            content_encoding: None,
            content_language: None,
            content_type: None,
            authorized_object_id: None,
            correlation_id: None,
            encryption_scope: None,
        }
    }

    /// Sets the start time for the SAS token. If not set, the token is valid immediately.
    pub fn with_start(self, start: SasDateTime) -> (r: Self)
        ensures
            r == (Self { start: Some(start), ..self }),
    {
        Self { start: Some(start), ..self }
    }

    /// Sets the allowed IP address range for the SAS token.
    pub fn with_ip_range(self, ip_range: SasIpRange) -> (r: Self)
        ensures
            r == (Self { ip_range: Some(ip_range), ..self }),
    {
        Self { ip_range: Some(ip_range), ..self }
    }

    /// Sets the protocol(s) permitted for requests made with the SAS token.
    pub fn with_protocol(self, protocol: SasProtocol) -> (r: Self)
        ensures
            r == (Self { protocol: Some(protocol), ..self }),
    {
        Self { protocol: Some(protocol), ..self }
    }

    /// Sets the Cache-Control header value to return when the SAS is used.
    pub fn with_cache_control(self, cache_control: &'a str) -> (r: Self)
        ensures
            r == (Self { cache_control: Some(cache_control), ..self }),
    {
        Self { cache_control: Some(cache_control), ..self }
    }

    /// Sets the Content-Disposition header value to return when the SAS is used.
    pub fn with_content_disposition(self, content_disposition: &'a str) -> (r: Self)
        ensures
            r == (Self { content_disposition: Some(content_disposition), ..self }),
    {
        Self { content_disposition: Some(content_disposition), ..self }
    }

    /// Sets the Content-Encoding header value to return when the SAS is used.
    pub fn with_content_encoding(self, content_encoding: &'a str) -> (r: Self)
        ensures
            r == (Self { content_encoding: Some(content_encoding), ..self }),
    {
        Self { content_encoding: Some(content_encoding), ..self }
    }

    /// Sets the Content-Language header value to return when the SAS is used.
    pub fn with_content_language(self, content_language: &'a str) -> (r: Self)
        ensures
            r == (Self { content_language: Some(content_language), ..self }),
    {
        Self { content_language: Some(content_language), ..self }
    }

    /// Sets the Content-Type header value to return when the SAS is used.
    pub fn with_content_type(self, content_type: &'a str) -> (r: Self)
        ensures
            r == (Self { content_type: Some(content_type), ..self }),
    {
        Self { content_type: Some(content_type), ..self }
    }

    /// Sets the Azure Active Directory object ID of an authorized user.
    pub fn with_authorized_object_id(self, oid: &'a str) -> (r: Self)
        ensures
            r == (Self { authorized_object_id: Some(oid), ..self }),
    {
        Self { authorized_object_id: Some(oid), ..self }
    }

    /// Sets a correlation ID for tracking requests made with the SAS token.
    pub fn with_correlation_id(self, correlation_id: &'a str) -> (r: Self)
        ensures
            r == (Self { correlation_id: Some(correlation_id), ..self }),
    {
        Self { correlation_id: Some(correlation_id), ..self }
    }

    /// Sets the encryption scope to use for requests made with the SAS token.
    pub fn with_encryption_scope(self, scope: &'a str) -> (r: Self)
        ensures
            r == (Self { encryption_scope: Some(scope), ..self }),
    {
        Self { encryption_scope: Some(scope), ..self }
    }

    /// Builds a SAS URL for a blob: the blob's URL with the SAS query parameters.
    pub fn build_blob_url(self, blob_url: &str) -> (r: Result<String, StorageError>)
        ensures
            match sas_url_of(blob_url@, SasResource::Blob, self) {
                Ok(u) => r matches Ok(s) && s@ == u,
                Err(e) => r == Err::<String, StorageError>(e),
            },
            r is Ok ==> url_scheme_of(r->Ok_0@) == url_scheme_of(blob_url@) && url_host_of(
                r->Ok_0@,
            ) == url_host_of(blob_url@) && url_path_of(r->Ok_0@) == url_path_of(blob_url@),
    {
        build_sas_url(blob_url, SasResource::Blob, &self)
    }

    /// Builds a SAS URL for a container: the container's URL with the SAS query
    /// parameters.
    pub fn build_container_url(self, container_url: &str) -> (r: Result<String, StorageError>)
        ensures
            match sas_url_of(container_url@, SasResource::Container, self) {
                Ok(u) => r matches Ok(s) && s@ == u,
                Err(e) => r == Err::<String, StorageError>(e),
            },
            r is Ok ==> url_scheme_of(r->Ok_0@) == url_scheme_of(container_url@) && url_host_of(
                r->Ok_0@,
            ) == url_host_of(container_url@) && url_path_of(r->Ok_0@) == url_path_of(container_url@),
    {
        build_sas_url(container_url, SasResource::Container, &self)
    }
}

} // verus!
