//! User Delegation SAS generation: the builder, the permissions, the string that is
//! signed, and the signed URL.

pub mod builder;
pub mod ip;
pub mod permissions;
pub mod signature;
pub mod url;

pub use builder::{SasProtocol, SasResource, UserDelegationSasBuilder};
pub use ip::{IpAddress, SasIpRange};
pub use permissions::SasPermissions;
