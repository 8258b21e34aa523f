//! Signature generation for User Delegation SAS tokens.

use vstd::prelude::*;
use crate::datetime::{format_iso8601, formatted};
use crate::error::StorageError;
use crate::models::{opt_text, UserDelegationKey};
use crate::sas::builder::{
    protocol_text, resource_text, SasProtocol, SasResource, UserDelegationSasBuilder,
};
use crate::sas::ip::{ip_range_text, SasIpRange};
use crate::sas::permissions::permission_letters;
use crate::text::{
    percent_decode, percent_decode_bytes, string_from_utf8,
    join, join_strings, lemma_join_injective, lemma_prefix_before, lemma_views_empty, prefix_before,
    prefix_before_of,
    push_str, push_string, views,
};
use crate::urls::{url_host, url_host_of, url_path, url_path_of, url_serialization_of};
use crate::crypto::{base64_encode, base64_standard, hmac_sha256, hmac_sha256_signature};

verus! {

/// The API version to use for SAS tokens.
pub const SAS_VERSION: &'static str = "2025-11-05";

/// The part of a host name before its first `.` (the whole name when it has none).
pub open spec fn first_label(host: Seq<char>) -> Seq<char> {
    prefix_before(host, '.')
}

/// The storage account name that a URL names, from the first label of its host.
pub open spec fn account_name_of(url: Seq<char>) -> Result<Seq<char>, StorageError> {
    match url_host_of(url) {
        None => Err(StorageError::InvalidUrl),
        Some(None) => Err(StorageError::UrlHasNoHost),
        Some(Some(host)) => Ok(first_label(host)),
    }
}

/// The account name of a URL whose host is `h` is the part of `h` before its first `.`:
/// a prefix of `h` that holds no `.` and is followed in `h` by `.` or by the end of
/// `h`. A URL without a host has no account name.
pub proof fn lemma_account_name_is_first_label(url: Seq<char>)
    ensures
        match url_host_of(url) {
            Some(Some(h)) => account_name_of(url) matches Ok(n) && n.len() <= h.len() && n
                == h.take(n.len() as int) && !n.contains('.') && (n.len() == h.len() || h[n.len()
                as int] == '.'),
            _ => account_name_of(url) is Err,
        },
{
    match url_host_of(url) {
        Some(Some(h)) => {
            lemma_prefix_before(h, '.');
        },
        _ => {},
    }
}

/// Extracts the storage account name from a blob storage URL.
///
/// Example: `https://myaccount.blob.core.windows.net/container/blob` -> `myaccount`
pub fn extract_account_name(url: &str) -> (r: Result<String, StorageError>)
    ensures
        match account_name_of(url@) {
            Ok(name) => r matches Ok(s) && s@ == name,
            Err(e) => r == Err::<String, StorageError>(e),
        },
        r is Ok ==> url_serialization_of(url@) is Some,
{
    match url_host(url) {
        None => Err(StorageError::InvalidUrl),
        Some(None) => Err(StorageError::UrlHasNoHost),
        Some(Some(host)) => Ok(prefix_before_of(host.as_str(), '.')),
    }
}

/// The resource path of a URL path: its UTF-8 text after percent-decoding, or `None`
/// when the decoded bytes are not UTF-8.
pub open spec fn decoded_path(path: Seq<char>) -> Option<Seq<char>> {
    let d = percent_decode(vstd::utf8::encode_utf8(path));
    if vstd::utf8::valid_utf8(d) {
        Some(vstd::utf8::decode_utf8(d))
    } else {
        None
    }
}

/// Decodes a URL path (as the URL keeps it, percent-encoded) into the names it holds,
/// e.g. `/container/my%20file.txt` into `/container/my file.txt`.
pub fn decode_path(path: &str) -> (r: Option<String>)
    ensures
        match decoded_path(path@) {
            Some(t) => r matches Some(s) && s@ == t,
            None => r is None,
        },
{
    let bytes = percent_decode_bytes(path.as_bytes());
    string_from_utf8(bytes)
}

/// The names a URL path gives the resource: the path percent-decoded, or the path as
/// it is when the decoded bytes are not UTF-8 text.
pub open spec fn resource_names(path: Seq<char>) -> Seq<char> {
    match decoded_path(path) {
        Some(t) => t,
        None => path,
    }
}

/// The names a URL path gives the resource.
pub fn resource_names_of(path: &str) -> (r: String)
    ensures
        r@ == resource_names(path@),
{
    match decode_path(path) {
        Some(t) => t,
        None => String::from_str(path),
    }
}

/// The canonicalized resource: `/blob/{account_name}{resource_path}`.
pub open spec fn canonicalized_resource(account_name: Seq<char>, resource_path: Seq<char>) -> Seq<
    char,
> {
    "/blob/"@ + account_name + resource_path
}

/// Builds the canonicalized resource path for the SAS token.
///
/// Format: /blob/{account_name}/{container_name}/{blob_name}
/// or: /blob/{account_name}/{container_name}
pub fn build_canonicalized_resource(account_name: &str, resource_path: &str) -> (r: String)
    ensures
        r@ == canonicalized_resource(account_name@, resource_path@),
{
    let mut r = String::from_str("/blob/");
    push_str(&mut r, account_name);
    push_str(&mut r, resource_path);
    r
}

/// The text of an optional string slice, empty when absent.
pub open spec fn opt_str_text(o: Option<&str>) -> Seq<char> {
    match o {
        Some(s) => s@,
        None => Seq::empty(),
    }
}

/// The text of an optional IP range, empty when absent.
pub open spec fn opt_ip_text(o: Option<SasIpRange>) -> Seq<char> {
    match o {
        Some(r) => ip_range_text(r.start(), r.end()),
        None => Seq::empty(),
    }
}

/// The text of an optional protocol, empty when absent.
pub open spec fn opt_protocol_text(o: Option<SasProtocol>) -> Seq<char> {
    match o {
        Some(p) => protocol_text(p),
        None => Seq::empty(),
    }
}

/// The 24 lines of the string-to-sign of a User Delegation SAS (service version
/// 2020-12-06 and later), given the texts of the start and expiry times:
/// signedPermissions, signedStart, signedExpiry, canonicalizedResource,
/// signedKeyObjectId, signedKeyTenantId, signedKeyStart, signedKeyExpiry,
/// signedKeyService, signedKeyVersion, signedAuthorizedUserObjectId,
/// signedUnauthorizedUserObjectId (empty), signedCorrelationId, signedIP,
/// signedProtocol, signedVersion, signedResource, signedSnapshotTime (empty),
/// signedEncryptionScope, rscc, rscd, rsce, rscl, rsct.
pub open spec fn string_to_sign_fields(
    canonicalized_resource: Seq<char>,
    resource_type: SasResource,
    key: UserDelegationKey,
    b: UserDelegationSasBuilder,
    start_text: Seq<char>,
    expiry_text: Seq<char>,
) -> Seq<Seq<char>> {
    seq![
        permission_letters(b.permissions@),
        start_text,
        expiry_text,
        canonicalized_resource,
        opt_text(key.signed_oid),
        opt_text(key.signed_tid),
        opt_text(key.signed_start),
        opt_text(key.signed_expiry),
        opt_text(key.signed_service),
        opt_text(key.signed_version),
        opt_str_text(b.authorized_object_id),
        Seq::empty(),
        opt_str_text(b.correlation_id),
        opt_ip_text(b.ip_range),
        opt_protocol_text(b.protocol),
        SAS_VERSION@,
        resource_text(resource_type),
        Seq::empty(),
        opt_str_text(b.encryption_scope),
        opt_str_text(b.cache_control),
        opt_str_text(b.content_disposition),
        opt_str_text(b.content_encoding),
        opt_str_text(b.content_language),
        opt_str_text(b.content_type),
    ]
}

/// The text of the start time: empty when the builder has none, `None` when it has
/// one that cannot be formatted.
pub open spec fn start_text_of(b: UserDelegationSasBuilder) -> Option<Seq<char>> {
    match b.start {
        Some(t) => formatted(t),
        None => Some(Seq::empty()),
    }
}

/// The string-to-sign, or the error that building it meets first: the start time is
/// formatted before the expiry time.
pub open spec fn string_to_sign_of(
    canonicalized_resource: Seq<char>,
    resource_type: SasResource,
    key: UserDelegationKey,
    b: UserDelegationSasBuilder,
) -> Result<Seq<char>, StorageError> {
    match start_text_of(b) {
        None => Err(StorageError::DateTimeFormat),
        Some(start) => match formatted(b.expiry) {
            None => Err(StorageError::DateTimeFormat),
            Some(expiry) => Ok(
                join(
                    string_to_sign_fields(
                        canonicalized_resource,
                        resource_type,
                        key,
                        b,
                        start,
                        expiry,
                    ),
                    '\n',
                ),
            ),
        },
    }
}

/// A copy of an optional string, empty when absent.
fn opt_string(o: &Option<String>) -> (r: String)
    ensures
        r@ == opt_text(*o),
{
    match o {
        Some(s) => s.clone(),
        None => String::new(),
    }
}

/// A copy of an optional string slice, empty when absent.
fn opt_str(o: Option<&str>) -> (r: String)
    ensures
        r@ == opt_str_text(o),
{
    match o {
        Some(s) => String::from_str(s),
        None => String::new(),
    }
}

/// No line contains a line break.
pub open spec fn free_of_line_breaks(lines: Seq<Seq<char>>) -> bool {
    forall|i: int| 0 <= i < lines.len() ==> !(#[trigger] lines[i]).contains('\n')
}

/// The string-to-sign is unambiguous: when no line contains a line break, equal
/// strings-to-sign come from equal lines, so the signature covers each signed value
/// separately and no value can be moved from one line to another.
pub proof fn lemma_string_to_sign_determines_lines(
    canonicalized_resource1: Seq<char>,
    resource_type1: SasResource,
    key1: UserDelegationKey,
    b1: UserDelegationSasBuilder,
    start1: Seq<char>,
    expiry1: Seq<char>,
    canonicalized_resource2: Seq<char>,
    resource_type2: SasResource,
    key2: UserDelegationKey,
    b2: UserDelegationSasBuilder,
    start2: Seq<char>,
    expiry2: Seq<char>,
)
    requires
        free_of_line_breaks(
            string_to_sign_fields(canonicalized_resource1, resource_type1, key1, b1, start1, expiry1),
        ),
        free_of_line_breaks(
            string_to_sign_fields(canonicalized_resource2, resource_type2, key2, b2, start2, expiry2),
        ),
        join(
            string_to_sign_fields(canonicalized_resource1, resource_type1, key1, b1, start1, expiry1),
            '\n',
        ) == join(
            string_to_sign_fields(canonicalized_resource2, resource_type2, key2, b2, start2, expiry2),
            '\n',
        ),
    ensures
        string_to_sign_fields(canonicalized_resource1, resource_type1, key1, b1, start1, expiry1)
            == string_to_sign_fields(
            canonicalized_resource2,
            resource_type2,
            key2,
            b2,
            start2,
            expiry2,
        ),
{
    let f1 = string_to_sign_fields(canonicalized_resource1, resource_type1, key1, b1, start1, expiry1);
    let f2 = string_to_sign_fields(canonicalized_resource2, resource_type2, key2, b2, start2, expiry2);
    assert(f1.len() == 24);
    assert(f2.len() == 24);
    lemma_join_injective(f1, f2, '\n');
}

/// Constructs the string-to-sign for a User Delegation SAS token from its parts, with
/// the start and expiry times already written.
#[verifier::rlimit(100)]
pub fn compose_string_to_sign(
    canonicalized_resource: &str,
    resource_type: SasResource,
    user_delegation_key: &UserDelegationKey,
    builder: &UserDelegationSasBuilder,
    start_text: &str,
    expiry_text: &str,
) -> (r: String)
    ensures
        r@ == join(
            string_to_sign_fields(
                canonicalized_resource@,
                resource_type,
                *user_delegation_key,
                *builder,
                start_text@,
                expiry_text@,
            ),
            '\n',
        ),
{
    let key = user_delegation_key;
    let mut fields: Vec<String> = Vec::new();
    proof {
        lemma_views_empty(fields@);
    }
    push_string(&mut fields, builder.permissions.to_string());
    push_string(&mut fields, String::from_str(start_text));
    push_string(&mut fields, String::from_str(expiry_text));
    push_string(&mut fields, String::from_str(canonicalized_resource));
    push_string(&mut fields, opt_string(&key.signed_oid));
    push_string(&mut fields, opt_string(&key.signed_tid));
    push_string(&mut fields, opt_string(&key.signed_start));
    push_string(&mut fields, opt_string(&key.signed_expiry));
    push_string(&mut fields, opt_string(&key.signed_service));
    push_string(&mut fields, opt_string(&key.signed_version));
    push_string(&mut fields, opt_str(builder.authorized_object_id));
    // signedUnauthorizedUserObjectId (not currently supported)
    push_string(&mut fields, String::new());
    push_string(&mut fields, opt_str(builder.correlation_id));
    let ip = match &builder.ip_range {
        Some(range) => range.to_string(),
        None => String::new(),
    };
    push_string(&mut fields, ip);
    let protocol = match builder.protocol {
        Some(p) => String::from_str(p.to_string()),
        None => String::new(),
    };
    push_string(&mut fields, protocol);
    push_string(&mut fields, String::from_str(SAS_VERSION));
    push_string(&mut fields, String::from_str(resource_type.to_string()));
    // signedSnapshotTime (not currently supported)
    push_string(&mut fields, String::new());
    push_string(&mut fields, opt_str(builder.encryption_scope));
    push_string(&mut fields, opt_str(builder.cache_control));
    push_string(&mut fields, opt_str(builder.content_disposition));
    push_string(&mut fields, opt_str(builder.content_encoding));
    push_string(&mut fields, opt_str(builder.content_language));
    push_string(&mut fields, opt_str(builder.content_type));
    assert(views(fields@) == string_to_sign_fields(
        canonicalized_resource@,
        resource_type,
        *user_delegation_key,
        *builder,
        start_text@,
        expiry_text@,
    ));
    join_strings(&fields, '\n')
}

/// Constructs the string-to-sign for a User Delegation SAS token.
///
/// The start time (when set) and the expiry time are written in RFC 3339 form; the
/// first of them that cannot be written gives `DateTimeFormat`.
pub fn build_string_to_sign(
    canonicalized_resource: &str,
    resource_type: SasResource,
    user_delegation_key: &UserDelegationKey,
    builder: &UserDelegationSasBuilder,
) -> (r: Result<String, StorageError>)
    ensures
        match string_to_sign_of(
            canonicalized_resource@,
            resource_type,
            *user_delegation_key,
            *builder,
        ) {
            Ok(t) => r matches Ok(s) && s@ == t,
            Err(e) => r == Err::<String, StorageError>(e),
        },
{
    let start_text = match &builder.start {
        Some(start) => format_iso8601(start)?,
        None => String::new(),
    };
    let expiry_text = format_iso8601(&builder.expiry)?;
    Ok(
        compose_string_to_sign(
            canonicalized_resource,
            resource_type,
            user_delegation_key,
            builder,
            start_text.as_str(),
            expiry_text.as_str(),
        ),
    )
}

/// The signature of a string-to-sign: the HMAC-SHA256 under the key value, or
/// `KeyHasNoValue` when the key has no value.
pub open spec fn signature_of(string_to_sign: Seq<char>, key: UserDelegationKey) -> Result<
    Seq<char>,
    StorageError,
> {
    match key.value {
        None => Err(StorageError::KeyHasNoValue),
        Some(v) => match hmac_sha256_signature(string_to_sign, base64_standard(v@)) {
            Some(sig) => Ok(sig),
            None => Err(StorageError::Signing),
        },
    }
}

/// Signs the string-to-sign using the user delegation key to produce a SAS signature.
///
/// Uses HMAC-SHA256 with the user delegation key's value as the key.
/// Returns a base64-encoded signature.
pub fn sign_string(string_to_sign: &str, user_delegation_key: &UserDelegationKey) -> (r: Result<
    String,
    StorageError,
>)
    ensures
        match signature_of(string_to_sign@, *user_delegation_key) {
            Ok(sig) => r matches Ok(s) && s@ == sig,
            Err(e) => r == Err::<String, StorageError>(e),
        },
        r is Ok <==> user_delegation_key.value is Some,
{
    let key_value = match &user_delegation_key.value {
        Some(v) => v,
        None => {
            return Err(StorageError::KeyHasNoValue);
        },
    };
    let key_base64 = base64_encode(key_value.as_slice());
    match hmac_sha256(string_to_sign, key_base64.as_str()) {
        Ok(sig) => Ok(sig),
        Err(_) => Err(StorageError::Signing),
    }
}

/// The signature of a SAS for the resource at `url`, or the error met first: the
/// account name, the path (percent-decoded into the container and blob names where it
/// decodes to UTF-8 text, as the URL holds it otherwise), the string-to-sign, then the
/// signing.
pub open spec fn sas_signature_of(
    url: Seq<char>,
    resource_type: SasResource,
    key: UserDelegationKey,
    b: UserDelegationSasBuilder,
) -> Result<Seq<char>, StorageError> {
    match account_name_of(url) {
        Err(e) => Err(e),
        Ok(account) => match url_path_of(url) {
            None => Err(StorageError::InvalidUrl),
            Some(path) => match string_to_sign_of(
                canonicalized_resource(account, resource_names(path)),
                resource_type,
                key,
                b,
            ) {
                Err(e) => Err(e),
                Ok(sts) => signature_of(sts, key),
            },
        },
    }
}

/// Whether the start time (when set) and the expiry time of a builder can be written
/// in RFC 3339 form.
pub open spec fn times_formattable(b: UserDelegationSasBuilder) -> bool {
    start_text_of(b) is Some && formatted(b.expiry) is Some
}

/// Generates a complete SAS signature for a User Delegation SAS token.
///
/// It succeeds exactly when the URL has a host, the times can be written, and the key
/// has a value.
pub fn generate_signature(
    url: &str,
    resource_type: SasResource,
    user_delegation_key: &UserDelegationKey,
    builder: &UserDelegationSasBuilder,
) -> (r: Result<String, StorageError>)
    ensures
        match sas_signature_of(url@, resource_type, *user_delegation_key, *builder) {
            Ok(sig) => r matches Ok(s) && s@ == sig,
            Err(e) => r == Err::<String, StorageError>(e),
        },
        r is Ok <==> (url_host_of(url@) matches Some(Some(_)) && times_formattable(*builder)
            && user_delegation_key.value is Some),
        r is Ok ==> url_serialization_of(url@) is Some,
{
    let account_name = extract_account_name(url)?;
    let resource_path = match url_path(url) {
        Some(p) => p,
        None => {
            return Err(StorageError::InvalidUrl);
        },
    };
    let names = resource_names_of(resource_path.as_str());
    let canonicalized_resource = build_canonicalized_resource(
        account_name.as_str(),
        names.as_str(),
    );
    let string_to_sign = build_string_to_sign(
        canonicalized_resource.as_str(),
        resource_type,
        user_delegation_key,
        builder,
    )?;
    sign_string(string_to_sign.as_str(), user_delegation_key)
}

} // verus!
