# azure_storage_blob (verified SAS generation)

User Delegation Shared Access Signatures for Azure Blob Storage, written in Verus.

- `src/sas/permissions.rs` – `SasPermissions` and its permission string
  (`racwdxytlmeopi` order), with laws: the string lists exactly the granted
  permissions in canonical order, it determines the permissions, and it does not
  depend on the order or repetition of grants.
- `src/sas/ip.rs` – IP addresses and ranges as written into `signedIp`
  (dotted decimal, RFC 5952 IPv6).
- `src/sas/builder.rs` – `SasProtocol`, `SasResource`, `UserDelegationSasBuilder`.
- `src/sas/signature.rs` – account name, canonicalized resource, the 24-line
  string-to-sign (the resource path percent-decoded into its names, times in UTC
  to the second), HMAC signing; law: the string-to-sign determines its lines.
- `src/sas/url.rs` – SAS query parameters, query composition (existing
  parameters are read with `Url::query_pairs`, kept unless replaced, and written
  again escaped) and the SAS URL, which keeps the base URL's scheme, host and
  path; laws: parameters carry the signed lines, the signature comes last, encoded
  values hold no query delimiters and encoding is injective, the query splits back
  into its pieces with the signature last and the only one named `sig`.
- `src/clients/blob_service_client.rs` – service and container endpoints,
  user delegation key request information (both times in RFC 3339, each in its
  own offset with its fraction of a second).
- `src/datetime.rs` – the RFC 3339 text of a point in time, stated in full
  (calendar date, fraction, offset, and when `time` refuses to write it).
- `src/urls.rs`, `src/crypto.rs`, `src/datetime.rs` – trusted wrappers around the
  `url` (via `azure_core::http`), `azure_core` base64/HMAC and `time` functions.
- `app/lib.rs` – the HTTP pipeline, the user delegation key request with its XML
  bodies, and conversions from `azure_core` / `time` / `std::net` types.
