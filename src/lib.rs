//! An HTTPS server's plaintext side: the rule that turns a plaintext request
//! into a permanent redirect to its HTTPS equivalent, the error reported when
//! the certificate material cannot be loaded, and the settings read at startup.
pub mod redirect;
pub mod settings;
pub mod text;
pub mod tls;
