use azure_core::http::Url;
use azure_storage_blob::datetime::SasDateTime;
use azure_storage_blob::error::StorageError;
use azure_storage_blob::models::UserDelegationKey;
use azure_storage_blob::sas::signature::{build_string_to_sign, sign_string};
use azure_storage_blob::sas::url::{build_sas_url, compose_query, sas_query_parameters};
use azure_storage_blob::sas::{SasPermissions, SasProtocol, SasResource, UserDelegationSasBuilder};

fn mock_key() -> UserDelegationKey {
    UserDelegationKey {
        signed_oid: Some("object-id".to_string()),
        signed_tid: Some("tenant-id".to_string()),
        signed_start: Some("2021-01-01T00:00:00Z".to_string()),
        signed_expiry: Some("2021-01-02T00:00:00Z".to_string()),
        signed_service: Some("b".to_string()),
        signed_version: Some("2025-11-05".to_string()),
        value: Some(vec![1, 2, 3, 4, 5, 6, 7, 8]), // Mock key
    }
}

#[test]
fn test_build_sas_url() {
    // Create a mock UserDelegationKey with a valid base64 key
    let key = mock_key();

    let expiry = SasDateTime::from_unix_timestamp(1609545600);
    let builder = UserDelegationSasBuilder::new(&key, SasPermissions::read(), expiry);

    let base_url = "https://myaccount.blob.core.windows.net/container/blob";
    let sas_url = Url::parse(&build_sas_url(base_url, SasResource::Blob, &builder).unwrap()).unwrap();

    let query = sas_url.query().unwrap();

    // Verify required parameters are present
    assert!(query.contains("sv="));
    assert!(query.contains("sp=r"));
    assert!(query.contains("se="));
    assert!(query.contains("sr=b"));
    assert!(query.contains("skoid=object-id"));
    assert!(query.contains("sktid=tenant-id"));
    assert!(query.contains("skt=2021-01-01T00:00:00Z"));
    assert!(query.contains("ske=2021-01-02T00:00:00Z"));
    assert!(query.contains("sks=b"));
    assert!(query.contains("skv=2025-11-05"));
    assert!(query.contains("sig="));

    // Verify base URL is preserved
    assert_eq!(sas_url.host_str().unwrap(), "myaccount.blob.core.windows.net");
    assert_eq!(sas_url.path(), "/container/blob");
}

#[test]
fn test_build_sas_url_with_optional_params() {
    let key = mock_key();

    let expiry = SasDateTime::from_unix_timestamp(1609545600);
    let builder = UserDelegationSasBuilder::new(&key, SasPermissions::read(), expiry)
        .with_protocol(SasProtocol::Https)
        .with_content_disposition("attachment; filename=\"file.txt\"");

    let base_url = "https://myaccount.blob.core.windows.net/container/blob";
    let sas_url = Url::parse(&build_sas_url(base_url, SasResource::Blob, &builder).unwrap()).unwrap();

    let query = sas_url.query().unwrap();

    // Verify optional parameters
    assert!(query.contains("spr=https"));
    assert!(query.contains("rscd=attachment"));
}

#[test]
fn sas_url_parameter_order_and_signature_last() {
    let key = mock_key();
    let builder = UserDelegationSasBuilder::new(&key, SasPermissions::read(), SasDateTime::from_unix_timestamp(1609545600));
    let url = build_sas_url("https://acct.blob.core.windows.net/c", SasResource::Container, &builder).unwrap();
    let parsed = Url::parse(&url).unwrap();
    let names: Vec<String> = parsed.query_pairs().map(|(k, _)| k.into_owned()).collect();
    assert_eq!(names, vec!["sv", "sp", "se", "sr", "skoid", "sktid", "skt", "ske", "sks", "skv", "sig"]);
    let pairs: Vec<(String, String)> = parsed.query_pairs().map(|(k, v)| (k.into_owned(), v.into_owned())).collect();
    assert_eq!(pairs[2].1, "2021-01-02T00:00:00Z");
    assert_eq!(pairs[3].1, "c");
    // The signature decodes back to a 44-character base64 text.
    assert_eq!(pairs[10].1.len(), 44);
}

#[test]
fn sas_url_keeps_other_parameters_and_replaces_same_names() {
    let key = mock_key();
    let builder = UserDelegationSasBuilder::new(&key, SasPermissions::read(), SasDateTime::from_unix_timestamp(1609545600));
    let url = build_sas_url("https://acct.blob.core.windows.net/c/b?snapshot=x&s%70=old&sig=old", SasResource::Blob, &builder).unwrap();
    let parsed = Url::parse(&url).unwrap();
    let pairs: Vec<(String, String)> = parsed.query_pairs().map(|(k, v)| (k.into_owned(), v.into_owned())).collect();
    assert_eq!(pairs[0], ("snapshot".to_string(), "x".to_string()));
    assert_eq!(pairs.iter().filter(|(k, _)| k == "sp").count(), 1);
    assert_eq!(pairs.iter().filter(|(k, _)| k == "sig").count(), 1);
    assert_eq!(pairs.last().unwrap().0, "sig");
}

#[test]
fn sas_url_errors() {
    let key = mock_key();
    let builder = UserDelegationSasBuilder::new(&key, SasPermissions::read(), SasDateTime::from_unix_timestamp(1609545600));
    assert_eq!(build_sas_url("not a url", SasResource::Blob, &builder), Err(StorageError::InvalidUrl));
    let mut no_value = mock_key();
    no_value.value = None;
    let b2 = UserDelegationSasBuilder::new(&no_value, SasPermissions::read(), SasDateTime::from_unix_timestamp(1609545600));
    assert_eq!(b2.build_blob_url("https://acct.blob.core.windows.net/c/b"), Err(StorageError::KeyHasNoValue));
    let b3 = UserDelegationSasBuilder::new(&key, SasPermissions::read(), SasDateTime::from_unix_timestamp(253_402_300_800));
    assert_eq!(b3.build_container_url("https://acct.blob.core.windows.net/c"), Err(StorageError::DateTimeFormat));
}

#[test]
fn query_values_are_escaped() {
    let pairs = vec![
        ("a".to_string(), "x&y=z+w#%".to_string()),
        ("b".to_string(), "".to_string()),
    ];
    assert_eq!(compose_query(&Vec::new(), &pairs), "a=x%26y%3Dz%2Bw%23%25&b");
    let existing = vec![
        ("c".to_string(), "1".to_string()),
        ("a".to_string(), "2".to_string()),
        ("d".to_string(), "".to_string()),
    ];
    assert_eq!(compose_query(&existing, &pairs), "c=1&d&a=x%26y%3Dz%2Bw%23%25&b");
    // Kept parameters are written again with their names and values escaped.
    let existing = vec![
        ("a".to_string(), "old".to_string()),
        ("b c".to_string(), "x".to_string()),
        ("e&f".to_string(), "g=".to_string()),
    ];
    assert_eq!(compose_query(&existing, &pairs), "b c=x&e%26f=g%3D&a=x%26y%3Dz%2Bw%23%25&b");
}

#[test]
fn sas_url_reads_existing_parameters_decoded() {
    let key = mock_key();
    let builder = UserDelegationSasBuilder::new(&key, SasPermissions::read(), SasDateTime::from_unix_timestamp(1609545600));
    let url = build_sas_url("https://acct.blob.core.windows.net/c/b?x%26y=1+2&%73ig=old", SasResource::Blob, &builder).unwrap();
    let parsed = Url::parse(&url).unwrap();
    let pairs: Vec<(String, String)> = parsed.query_pairs().map(|(k, v)| (k.into_owned(), v.into_owned())).collect();
    assert_eq!(pairs[0], ("x&y".to_string(), "1 2".to_string()));
    assert_eq!(pairs.iter().filter(|(k, _)| k == "sig").count(), 1);
    assert_eq!(parsed.host_str(), Some("acct.blob.core.windows.net"));
    assert_eq!(parsed.path(), "/c/b");
}

#[test]
fn query_parameters_with_start_and_signature() {
    let key = mock_key();
    let builder = UserDelegationSasBuilder::new(&key, SasPermissions::read_write(), SasDateTime::from_unix_timestamp(0))
        .with_correlation_id("cid");
    let pairs = sas_query_parameters(&builder, SasResource::Blob, Some("S".to_string()), "E".to_string(), "SIG".to_string());
    let names: Vec<&str> = pairs.iter().map(|(k, _)| k.as_str()).collect();
    assert_eq!(names, vec!["sv", "sp", "st", "se", "sr", "skoid", "sktid", "skt", "ske", "sks", "skv", "scid", "sig"]);
    assert_eq!(pairs[1].1, "rw");
    assert_eq!(pairs[2].1, "S");
    assert_eq!(pairs[12].1, "SIG");
}

#[test]
fn sas_parameters_carry_the_signed_lines() {
    let key = mock_key();
    let builder = UserDelegationSasBuilder::new(&key, SasPermissions::read_write(), SasDateTime::from_unix_timestamp(1609545600))
        .with_start(SasDateTime::from_unix_timestamp(1609459200))
        .with_protocol(SasProtocol::HttpsAndHttp)
        .with_content_type("text/plain; charset=utf-8");
    let base = "https://acct.blob.core.windows.net/c/b";
    let url = build_sas_url(base, SasResource::Blob, &builder).unwrap();
    let sts = build_string_to_sign("/blob/acct/c/b", SasResource::Blob, &key, &builder).unwrap();
    let lines: Vec<&str> = sts.split('\n').collect();
    let parsed = Url::parse(&url).unwrap();
    let pairs: Vec<(String, String)> = parsed.query_pairs().map(|(k, v)| (k.into_owned(), v.into_owned())).collect();
    let value = |name: &str| pairs.iter().find(|(k, _)| k == name).map(|(_, v)| v.clone()).unwrap();
    assert_eq!(value("sv"), lines[15]);
    assert_eq!(value("sp"), lines[0]);
    assert_eq!(value("st"), lines[1]);
    assert_eq!(value("se"), lines[2]);
    assert_eq!(value("sr"), lines[16]);
    assert_eq!(value("skoid"), lines[4]);
    assert_eq!(value("spr"), lines[14]);
    assert_eq!(value("rsct"), lines[23]);
    // The signature in the URL is the HMAC of exactly that string-to-sign.
    assert_eq!(value("sig"), sign_string(&sts, &key).unwrap());
}
