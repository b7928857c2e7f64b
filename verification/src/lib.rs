//! Typed HTTP headers: a codec between the raw values that a message carries
//! under one header name and the typed value that they stand for.

pub mod common;
pub mod credentials;
pub mod decimal;
pub mod header;
mod name;
pub mod token68;
pub mod util;
pub mod value;
pub mod values;

pub use crate::common::{
    AccessControlMaxAge,
    Authorization,
    Basic,
    Bearer,
    Credentials,
    ProxyAuthorization,
};
pub use crate::header::Header;
pub use crate::value::RawValue;
pub use crate::values::{ToValues, Values};
