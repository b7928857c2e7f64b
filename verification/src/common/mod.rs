//! The headers themselves.

pub mod access_control_max_age;
pub mod authorization;
pub mod proxy_authorization;

pub use self::access_control_max_age::AccessControlMaxAge;
pub use self::authorization::{Authorization, Basic, Bearer, Credentials};
pub use self::proxy_authorization::ProxyAuthorization;
