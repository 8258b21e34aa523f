use azure_storage_blob::datetime::{format_iso8601, format_rfc3339_in_offset, SasDateTime};
use azure_storage_blob::error::StorageError;
use azure_storage_blob::models::UserDelegationKey;
use azure_storage_blob::sas::signature::{
    build_canonicalized_resource, build_string_to_sign, compose_string_to_sign, decode_path,
    extract_account_name, generate_signature, sign_string, SAS_VERSION,
};
use azure_storage_blob::sas::{
    IpAddress, SasIpRange, SasPermissions, SasProtocol, SasResource, UserDelegationSasBuilder,
};

fn mock_key(value: Option<Vec<u8>>) -> UserDelegationKey {
    UserDelegationKey {
        signed_oid: Some("object-id".to_string()),
        signed_tid: Some("tenant-id".to_string()),
        signed_start: Some("2021-01-01T00:00:00Z".to_string()),
        signed_expiry: Some("2021-01-02T00:00:00Z".to_string()),
        signed_service: Some("b".to_string()),
        signed_version: Some("2025-11-05".to_string()),
        value,
    }
}

#[test]
fn test_extract_account_name() {
    let url = "https://myaccount.blob.core.windows.net/container/blob";
    assert_eq!(extract_account_name(url).unwrap(), "myaccount");

    let url = "https://storageacct.blob.core.windows.net/";
    assert_eq!(extract_account_name(url).unwrap(), "storageacct");
}

#[test]
fn test_build_canonicalized_resource() {
    let result = build_canonicalized_resource("myaccount", "/container/blob");
    assert_eq!(result, "/blob/myaccount/container/blob");

    let result = build_canonicalized_resource("myaccount", "/container");
    assert_eq!(result, "/blob/myaccount/container");
}

#[test]
fn test_format_iso8601() {
    // Test with a known date
    let dt = SasDateTime::from_unix_timestamp(1609459200); // 2021-01-01 00:00:00 UTC
    let formatted = format_iso8601(&dt).unwrap();
    assert!(formatted.starts_with("2021-01-01"));
    assert!(formatted.ends_with('Z'));
}

#[test]
fn test_build_string_to_sign() {
    // Create a mock UserDelegationKey
    let key = mock_key(Some(vec![1, 2, 3, 4]));

    let expiry = SasDateTime::from_unix_timestamp(1609545600); // 2021-01-02 00:00:00 UTC
    let builder = UserDelegationSasBuilder::new(&key, SasPermissions::read(), expiry);

    let string_to_sign =
        build_string_to_sign("/blob/myaccount/container/blob", SasResource::Blob, &key, &builder)
            .unwrap();

    // Verify the string contains key components
    assert!(string_to_sign.contains("r\n")); // permissions
    assert!(string_to_sign.contains("/blob/myaccount/container/blob\n")); // canonicalized resource
    assert!(string_to_sign.contains("object-id\n")); // signed oid
    assert!(string_to_sign.contains("tenant-id\n")); // signed tid
    assert!(string_to_sign.contains(SAS_VERSION)); // version
    assert!(string_to_sign.contains("b\n")); // resource type (after many newlines)
}

#[test]
fn string_to_sign_exact_lines() {
    let key = mock_key(Some(vec![1, 2, 3, 4]));
    let expiry = SasDateTime::from_unix_timestamp(1609545600);
    let builder = UserDelegationSasBuilder::new(&key, SasPermissions::read(), expiry);
    let s = build_string_to_sign("/blob/a/c", SasResource::Blob, &key, &builder).unwrap();
    assert_eq!(
        s,
        "r\n\n2021-01-02T00:00:00Z\n/blob/a/c\nobject-id\ntenant-id\n2021-01-01T00:00:00Z\n\
         2021-01-02T00:00:00Z\nb\n2025-11-05\n\n\n\n\n\n2025-11-05\nb\n\n\n\n\n\n\n"
    );
    assert_eq!(s.split('\n').count(), 24);
}

#[test]
fn string_to_sign_with_every_option() {
    let key = mock_key(Some(vec![1, 2, 3, 4]));
    let builder = UserDelegationSasBuilder::new(&key, SasPermissions::read_write(), SasDateTime::from_unix_timestamp(0))
        .with_start(SasDateTime::from_unix_timestamp(60))
        .with_ip_range(SasIpRange::new(IpAddress::V4([1, 2, 3, 4]), None))
        .with_protocol(SasProtocol::HttpsAndHttp)
        .with_authorized_object_id("saoid")
        .with_correlation_id("scid")
        .with_encryption_scope("ses")
        .with_cache_control("cc")
        .with_content_disposition("cd")
        .with_content_encoding("ce")
        .with_content_language("cl")
        .with_content_type("ct");
    let s = compose_string_to_sign("/blob/a/c", SasResource::Container, &key, &builder, "S", "E");
    let lines: Vec<&str> = s.split('\n').collect();
    assert_eq!(
        lines,
        vec![
            "rw", "S", "E", "/blob/a/c", "object-id", "tenant-id", "2021-01-01T00:00:00Z",
            "2021-01-02T00:00:00Z", "b", "2025-11-05", "saoid", "", "scid", "1.2.3.4",
            "https,http", "2025-11-05", "c", "", "ses", "cc", "cd", "ce", "cl", "ct",
        ]
    );
    let full = build_string_to_sign("/blob/a/c", SasResource::Container, &key, &builder).unwrap();
    assert!(full.starts_with("rw\n1970-01-01T00:01:00Z\n1970-01-01T00:00:00Z\n"));
}

#[test]
fn datetime_with_offset_and_fraction() {
    // Written as the instant in UTC, to the second, whatever the offset.
    let dt = SasDateTime::new(1_609_459_200_500_000_000, 3600);
    assert_eq!(format_iso8601(&dt).unwrap(), "2021-01-01T00:00:00Z");
    // Fractions round down, also before the epoch.
    let dt = SasDateTime::new(-1, 0);
    assert_eq!(format_iso8601(&dt).unwrap(), "1969-12-31T23:59:59Z");
    let first = SasDateTime::from_unix_timestamp(-62_167_219_200);
    assert_eq!(format_iso8601(&first).unwrap(), "0000-01-01T00:00:00Z");
    let last = SasDateTime::from_unix_timestamp(253_402_300_799);
    assert_eq!(format_iso8601(&last).unwrap(), "9999-12-31T23:59:59Z");
}

#[test]
fn datetime_out_of_range_is_refused() {
    // Year 10000 cannot be written in RFC 3339 form.
    let dt = SasDateTime::from_unix_timestamp(253_402_300_800);
    assert_eq!(format_iso8601(&dt), Err(StorageError::DateTimeFormat));
    // Nor can a year before 0.
    let dt = SasDateTime::from_unix_timestamp(-62_167_219_201);
    assert_eq!(format_iso8601(&dt), Err(StorageError::DateTimeFormat));
    // An offset does not change the text.
    let dt = SasDateTime::new(0, 30);
    assert_eq!(format_iso8601(&dt).unwrap(), "1970-01-01T00:00:00Z");
}

#[test]
fn account_name_errors() {
    assert_eq!(extract_account_name("not a url"), Err(StorageError::InvalidUrl));
    assert_eq!(extract_account_name("data:text/plain,x"), Err(StorageError::UrlHasNoHost));
    assert_eq!(extract_account_name("https://localhost/c").unwrap(), "localhost");
}

#[test]
fn sign_string_known_value() {
    // These 48 bytes have the base64 text "FFFF...F" (64 characters).
    let mut bytes = Vec::new();
    for _ in 0..16 {
        bytes.extend_from_slice(&[0x14, 0x51, 0x45]);
    }
    let key = mock_key(Some(bytes));
    let sig = sign_string("create hmac signature for data", &key).unwrap();
    assert_eq!(sig, "D/y9XyIEdUzEbdV570h8dou/mfkbMA1lKCOPqPDPAd0=");
    let no_value = mock_key(None);
    assert_eq!(sign_string("x", &no_value), Err(StorageError::KeyHasNoValue));
}

#[test]
fn generate_signature_errors_and_success() {
    let key = mock_key(Some(vec![1, 2, 3, 4]));
    let builder = UserDelegationSasBuilder::new(&key, SasPermissions::read(), SasDateTime::from_unix_timestamp(1609545600));
    let sig = generate_signature("https://acct.blob.core.windows.net/c/b", SasResource::Blob, &key, &builder).unwrap();
    assert_eq!(sig.len(), 44);
    assert_eq!(
        generate_signature("data:text/plain,x", SasResource::Blob, &key, &builder),
        Err(StorageError::UrlHasNoHost)
    );
    let no_value = mock_key(None);
    assert_eq!(
        generate_signature("https://acct.blob.core.windows.net/c/b", SasResource::Blob, &no_value, &builder),
        Err(StorageError::KeyHasNoValue)
    );
}

#[test]
fn generate_signature_signs_the_canonical_string() {
    let key = mock_key(Some(vec![9, 8, 7, 6, 5]));
    let builder = UserDelegationSasBuilder::new(&key, SasPermissions::read(), SasDateTime::from_unix_timestamp(1609545600));
    let sig = generate_signature("https://acct.blob.core.windows.net/cont/blob.txt", SasResource::Blob, &key, &builder).unwrap();
    let sts = build_string_to_sign("/blob/acct/cont/blob.txt", SasResource::Blob, &key, &builder).unwrap();
    assert_eq!(sig, sign_string(&sts, &key).unwrap());
}

#[test]
fn canonicalized_resource_uses_decoded_names() {
    assert_eq!(decode_path("/container/my%20file.txt").unwrap(), "/container/my file.txt");
    assert_eq!(decode_path("/c/%E2%82%AC%2Fx%zz%").unwrap(), "/c/\u{20ac}/x%zz%");
    assert_eq!(decode_path("/c/%FF"), None);
    let key = mock_key(Some(vec![9, 8, 7, 6, 5]));
    let builder = UserDelegationSasBuilder::new(&key, SasPermissions::read(), SasDateTime::from_unix_timestamp(1609545600));
    let sig = generate_signature("https://myaccount.blob.core.windows.net/container/my%20file.txt", SasResource::Blob, &key, &builder).unwrap();
    let sts = build_string_to_sign("/blob/myaccount/container/my file.txt", SasResource::Blob, &key, &builder).unwrap();
    assert_eq!(sig, sign_string(&sts, &key).unwrap());
    // A path that does not decode to UTF-8 text is signed as the URL holds it.
    let sig = generate_signature("https://myaccount.blob.core.windows.net/c/%FF", SasResource::Blob, &key, &builder).unwrap();
    let sts = build_string_to_sign("/blob/myaccount/c/%FF", SasResource::Blob, &key, &builder).unwrap();
    assert_eq!(sig, sign_string(&sts, &key).unwrap());
}

#[test]
fn rfc3339_in_offset_keeps_offset_and_fraction() {
    let dt = SasDateTime::new(1_609_459_200_250_000_000, -18_000);
    assert_eq!(format_rfc3339_in_offset(&dt).as_deref(), Some("2020-12-31T19:00:00.25-05:00"));
    let dt = SasDateTime::new(951_782_400_000_000_000, 19_800);
    assert_eq!(format_rfc3339_in_offset(&dt).as_deref(), Some("2000-02-29T05:30:00+05:30"));
    assert_eq!(format_rfc3339_in_offset(&SasDateTime::new(0, 30)), None);
    assert_eq!(format_rfc3339_in_offset(&SasDateTime::new(0, -86_400)), None);
}
