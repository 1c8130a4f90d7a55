//! The operations behind each command, on plain values.

pub mod b64;
pub mod gen_pass;
pub mod http_serve;
pub mod text;
