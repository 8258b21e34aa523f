use azure_storage_blob::clients::blob_service_client::BlobServiceClient;
use azure_storage_blob::datetime::SasDateTime;
use azure_storage_blob::error::StorageError;

#[test]
fn service_client_normalizes_endpoint() {
    let c = BlobServiceClient::new("https://myaccount.blob.core.windows.net", true, "2025-11-05").unwrap();
    assert_eq!(c.url(), "https://myaccount.blob.core.windows.net/");
    assert_eq!(c.version_str(), "2025-11-05");
}

#[test]
fn service_client_with_credential_requires_https() {
    assert_eq!(
        BlobServiceClient::new("http://myaccount.blob.core.windows.net", true, "v").err(),
        Some(StorageError::HttpsRequired)
    );
    assert!(BlobServiceClient::new("http://myaccount.blob.core.windows.net", false, "v").is_ok());
    assert_eq!(BlobServiceClient::new("no url", false, "v").err(), Some(StorageError::InvalidUrl));
}

#[test]
fn container_client_appends_segment() {
    let c = BlobServiceClient::new("https://myaccount.blob.core.windows.net/", false, "v").unwrap();
    let container = c.blob_container_client("mycontainer");
    assert_eq!(container.url(), "https://myaccount.blob.core.windows.net/mycontainer");
    assert_eq!(container.version_str(), "v");
    let spaced = c.blob_container_client("my container");
    assert_eq!(spaced.url(), "https://myaccount.blob.core.windows.net/my%20container");
}

#[test]
fn container_client_for_cannot_be_a_base_url() {
    let c = BlobServiceClient::new("data:text/plain,x", false, "v").unwrap();
    assert!(c.try_blob_container_client("x").is_none());
}

#[test]
fn key_info_formats_both_times() {
    let info = BlobServiceClient::user_delegation_key_info(
        &SasDateTime::from_unix_timestamp(1609459200),
        &SasDateTime::from_unix_timestamp(1609545600),
    )
    .unwrap();
    assert_eq!(info.start.as_deref(), Some("2021-01-01T00:00:00Z"));
    assert_eq!(info.expiry.as_deref(), Some("2021-01-02T00:00:00Z"));
    let bad = SasDateTime::from_unix_timestamp(253_402_300_800);
    assert_eq!(
        BlobServiceClient::user_delegation_key_info(&bad, &bad).err(),
        Some(StorageError::StartTimeFormat)
    );
    assert_eq!(
        BlobServiceClient::user_delegation_key_info(&SasDateTime::from_unix_timestamp(0), &bad).err(),
        Some(StorageError::ExpiryTimeFormat)
    );
}

#[test]
fn key_info_keeps_offset_and_fraction() {
    let info = BlobServiceClient::user_delegation_key_info(
        &SasDateTime::new(1_609_459_200_250_000_000, -18_000),
        &SasDateTime::new(1_609_545_600_000_000_000, 3_600),
    )
    .unwrap();
    assert_eq!(info.start.as_deref(), Some("2020-12-31T19:00:00.25-05:00"));
    assert_eq!(info.expiry.as_deref(), Some("2021-01-02T01:00:00+01:00"));
    let info = BlobServiceClient::user_delegation_key_info(
        &SasDateTime::new(-1, 0),
        &SasDateTime::new(1_000_000_005, -1_800),
    )
    .unwrap();
    assert_eq!(info.start.as_deref(), Some("1969-12-31T23:59:59.999999999Z"));
    assert_eq!(info.expiry.as_deref(), Some("1969-12-31T23:30:01.000000005-00:30"));
    let info = BlobServiceClient::user_delegation_key_info(
        &SasDateTime::new(253_402_300_799_000_000_000, -60),
        &SasDateTime::new(-62_167_219_200_000_000_000, 0),
    )
    .unwrap();
    assert_eq!(info.start.as_deref(), Some("9999-12-31T23:58:59-00:01"));
    assert_eq!(info.expiry.as_deref(), Some("0000-01-01T00:00:00Z"));
}

#[test]
fn key_info_refuses_offsets_time_cannot_write() {
    let ok = SasDateTime::from_unix_timestamp(0);
    assert_eq!(
        BlobServiceClient::user_delegation_key_info(&SasDateTime::new(0, 30), &ok).err(),
        Some(StorageError::StartTimeFormat)
    );
    assert_eq!(
        BlobServiceClient::user_delegation_key_info(&ok, &SasDateTime::new(0, 86_400)).err(),
        Some(StorageError::ExpiryTimeFormat)
    );
    let after_last = SasDateTime::new(253_402_300_859_000_000_000, -60);
    assert_eq!(
        BlobServiceClient::user_delegation_key_info(&ok, &after_last).err(),
        Some(StorageError::ExpiryTimeFormat)
    );
    let before_first = SasDateTime::new(-62_167_219_200_000_000_000, -60);
    assert_eq!(
        BlobServiceClient::user_delegation_key_info(&before_first, &ok).err(),
        Some(StorageError::StartTimeFormat)
    );
}
