//! Hub server: the certificate that it serves with.

pub mod pem;
pub mod tls;
