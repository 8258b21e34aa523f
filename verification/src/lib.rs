//! Shared Access Signature (SAS) generation for Azure Blob Storage, with the
//! rules that decide what is signed and what is put into the signed URL.

pub mod clients;
pub mod crypto;
pub mod datetime;
pub mod error;
pub mod models;
pub mod sas;
pub mod text;
pub mod urls;
