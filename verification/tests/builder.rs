use azure_storage_blob::sas::{
    IpAddress, SasIpRange, SasPermissions, SasProtocol, SasResource,
};

#[test]
fn test_permissions_to_string() {
    assert_eq!(SasPermissions::read().to_string(), "r");
    assert_eq!(SasPermissions::read_write().to_string(), "rw");
    assert_eq!(SasPermissions::read_write_delete().to_string(), "rwd");

    let perms = SasPermissions::new()
        .with_read()
        .with_add()
        .with_create()
        .with_write()
        .with_delete()
        .with_list();
    assert_eq!(perms.to_string(), "racwdl");

    // Test all permissions in canonical order
    let all_perms = SasPermissions::new()
        .with_read()
        .with_add()
        .with_create()
        .with_write()
        .with_delete()
        .with_delete_version()
        .with_permanent_delete()
        .with_tags()
        .with_list()
        .with_move()
        .with_execute()
        .with_ownership()
        .with_permissions()
        .with_filter_by_tags();
    assert_eq!(all_perms.to_string(), "racwdxytlmeopi");
}

#[test]
fn test_ip_range_to_string() {
    let single_ip = SasIpRange::new(IpAddress::V4([203, 0, 113, 5]), None);
    assert_eq!(single_ip.to_string(), "203.0.113.5");

    let ip_range = SasIpRange::new(
        IpAddress::V4([203, 0, 113, 0]),
        Some(IpAddress::V4([203, 0, 113, 255])),
    );
    assert_eq!(ip_range.to_string(), "203.0.113.0-203.0.113.255");
}

#[test]
fn test_protocol_to_string() {
    assert_eq!(SasProtocol::Https.to_string(), "https");
    assert_eq!(SasProtocol::HttpsAndHttp.to_string(), "https,http");
}

#[test]
fn test_resource_to_string() {
    assert_eq!(SasResource::Blob.to_string(), "b");
    assert_eq!(SasResource::Container.to_string(), "c");
}

#[test]
fn permissions_default_is_empty() {
    assert_eq!(SasPermissions::default().to_string(), "");
    assert_eq!(SasPermissions::new().to_string(), "");
    assert!(SasPermissions::default() == SasPermissions::new());
}

#[test]
fn permissions_order_of_grants_does_not_matter() {
    let a = SasPermissions::new().with_filter_by_tags().with_list().with_read().with_tags();
    let b = SasPermissions::new().with_read().with_tags().with_tags().with_list().with_filter_by_tags();
    assert!(a == b);
    assert_eq!(a.to_string(), "rtli");
}

#[test]
fn permissions_single_letters() {
    assert_eq!(SasPermissions::new().with_add().to_string(), "a");
    assert_eq!(SasPermissions::new().with_create().to_string(), "c");
    assert_eq!(SasPermissions::new().with_delete_version().to_string(), "x");
    assert_eq!(SasPermissions::new().with_permanent_delete().to_string(), "y");
    assert_eq!(SasPermissions::new().with_move().to_string(), "m");
    assert_eq!(SasPermissions::new().with_execute().to_string(), "e");
    assert_eq!(SasPermissions::new().with_ownership().to_string(), "o");
    assert_eq!(SasPermissions::new().with_permissions().to_string(), "p");
}

#[test]
fn ipv6_text_compresses_first_longest_zero_run() {
    let r = SasIpRange::new(IpAddress::V6([0x2001, 0xdb8, 0, 0, 0, 0, 0, 1]), None);
    assert_eq!(r.to_string(), "2001:db8::1");
    let r = SasIpRange::new(IpAddress::V6([1, 0, 0, 2, 0, 0, 3, 4]), None);
    assert_eq!(r.to_string(), "1::2:0:0:3:4");
    let r = SasIpRange::new(IpAddress::V6([1, 0, 0, 2, 0, 0, 0, 3]), None);
    assert_eq!(r.to_string(), "1:0:0:2::3");
    let r = SasIpRange::new(IpAddress::V6([1, 0, 2, 0, 3, 0, 4, 0]), None);
    assert_eq!(r.to_string(), "1:0:2:0:3:0:4:0");
}

#[test]
fn ipv6_text_special_addresses() {
    assert_eq!(SasIpRange::new(IpAddress::V6([0; 8]), None).to_string(), "::");
    assert_eq!(SasIpRange::new(IpAddress::V6([0, 0, 0, 0, 0, 0, 0, 1]), None).to_string(), "::1");
    assert_eq!(
        SasIpRange::new(IpAddress::V6([0, 0, 0, 0, 0, 0xffff, 0xc00a, 0x2ff]), None).to_string(),
        "::ffff:192.10.2.255"
    );
    assert_eq!(
        SasIpRange::new(IpAddress::V6([0xfe80, 0, 0, 0, 0x1ff, 0xfe23, 0x4567, 0x890a]), None)
            .to_string(),
        "fe80::1ff:fe23:4567:890a"
    );
}

#[test]
fn ip_range_mixed_families() {
    let r = SasIpRange::new(
        IpAddress::V4([10, 0, 0, 1]),
        Some(IpAddress::V6([0xabcd, 0, 0, 0, 0, 0, 0, 0])),
    );
    assert_eq!(r.to_string(), "10.0.0.1-abcd::");
}

#[test]
fn different_permissions_give_different_strings() {
    let a = SasPermissions::new().with_tags().with_list();
    let b = SasPermissions::new().with_list().with_filter_by_tags();
    assert!(a != b);
    assert_ne!(a.to_string(), b.to_string());
    assert_eq!(a.to_string(), "tl");
    assert_eq!(b.to_string(), "li");
}
