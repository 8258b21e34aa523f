//! Clients of the Blob service.

pub mod blob_service_client;
